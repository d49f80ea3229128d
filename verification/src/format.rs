//! Tables of the values read from sysfs, as they are printed.
//!
//! The decisions (which rows, which cells, what is shown for a missing value,
//! when one row stands for all cpus) are made here; a frequency or a power is
//! left as a number with its precision, to be written with its unit by the
//! caller.

use vstd::prelude::*;

use crate::intel_pstate::{opt_str, opt_text as opt_string, strings};
use crate::intel_rapl::{Constraint, Device as Zone, ZoneId};
use crate::text::{chars_eq, chars_eq_str, chars_of, decimal_spec, join_spec, join_strings, string_of, text_of_u64};

verus! {

/// What is shown for a value that could not be read.
pub const DOT: &'static str = "\u{2022}";

/// The text shown for a value that could not be read.
pub fn dot() -> (r: String)
    ensures
        r@ == DOT@,
{
    String::from_str(DOT)
}

/// `s` with a newline at its end.
pub fn nl(s: String) -> (r: String)
    ensures
        r@ == s@.push('\n'),
{
    let mut s = s;
    crate::text::push_char(&mut s, '\n');
    s
}

/// One cell of a table.
#[derive(Clone, Debug)]
pub enum Cell {
    /// A text as it is.
    Text(String),
    /// A value that could not be read.
    Dot,
    /// A frequency in hertz, written with its unit and `precision` decimals.
    Hz { hz: u128, precision: u8 },
    /// A power in microwatts, written with its unit.
    Power { uw: u64 },
    /// The power that the zone has used since its energy was first sampled.
    Usage(ZoneId),
}

/// The value of a `Cell`.
pub enum CellV {
    Text(Seq<char>),
    Dot,
    Hz { hz: u128, precision: u8 },
    Power { uw: u64 },
    Usage(ZoneId),
}

impl View for Cell {
    type V = CellV;

    open spec fn view(&self) -> CellV {
        match self {
            Cell::Text(s) => CellV::Text(s@),
            Cell::Dot => CellV::Dot,
            Cell::Hz { hz, precision } => CellV::Hz { hz: *hz, precision: *precision },
            Cell::Power { uw } => CellV::Power { uw: *uw },
            Cell::Usage(z) => CellV::Usage(*z),
        }
    }
}

/// The values of a row.
pub open spec fn row_view(r: Seq<Cell>) -> Seq<CellV> {
    r.map_values(|c: Cell| c@)
}

/// The values of rows.
pub open spec fn rows_view(rs: Seq<Vec<Cell>>) -> Seq<Seq<CellV>> {
    rs.map_values(|r: Vec<Cell>| row_view(r@))
}

/// A frequency: `0 Hz`, or the number with no decimal below 1 GHz and with one
/// from there.
pub open spec fn hz_cell(hz: u128) -> CellV {
    if hz == 0 {
        CellV::Text("0 Hz"@)
    } else if hz < 1_000_000_000 {
        CellV::Hz { hz, precision: 0 }
    } else {
        CellV::Hz { hz, precision: 1 }
    }
}

/// The cell of a frequency in hertz.
pub fn hz(value: u128) -> (r: Cell)
    ensures
        r@ == hz_cell(value),
{
    if value == 0 {
        Cell::Text(String::from_str("0 Hz"))
    } else if value < 1_000_000_000 {
        Cell::Hz { hz: value, precision: 0 }
    } else {
        Cell::Hz { hz: value, precision: 1 }
    }
}

/// The power of ten below which the digits of `uw` are dropped: three digits
/// fewer than the last group of three that `uw` reaches, from a milliwatt.
pub open spec fn uw_scale(uw: u64) -> u64 {
    if uw > 1_000_000_000_000_000_000 {
        1_000_000_000_000_000
    } else if uw > 1_000_000_000_000_000 {
        1_000_000_000_000
    } else if uw > 1_000_000_000_000 {
        1_000_000_000
    } else if uw > 1_000_000_000 {
        1_000_000
    } else if uw > 1_000_000 {
        1_000
    } else {
        1
    }
}

/// A power: `0 W`, or the microwatts with the digits below `uw_scale` dropped.
pub open spec fn uw_cell(uw: u64) -> CellV {
    if uw == 0 {
        CellV::Text("0 W"@)
    } else {
        CellV::Power { uw: ((uw / uw_scale(uw)) * uw_scale(uw)) as u64 }
    }
}

/// The cell of a power in microwatts.
pub fn uw(value: u64) -> (r: Cell)
    ensures
        r@ == uw_cell(value),
{
    if value == 0 {
        return Cell::Text(String::from_str("0 W"));
    }
    let scale: u64 = if value > 1_000_000_000_000_000_000 {
        1_000_000_000_000_000
    } else if value > 1_000_000_000_000_000 {
        1_000_000_000_000
    } else if value > 1_000_000_000_000 {
        1_000_000_000
    } else if value > 1_000_000_000 {
        1_000_000
    } else if value > 1_000_000 {
        1_000
    } else {
        1
    };
    let q = value / scale;
    assert(q * scale <= value) by (nonlinear_arith)
        requires
            q == value / scale,
            scale > 0,
    ;
    Cell::Power { uw: q * scale }
}

/// The cell of a value that may be missing: `f(v)`, or the dot.
pub open spec fn opt_hz_cell(v: Option<u64>, factor: u128) -> CellV {
    match v {
        Some(x) => hz_cell((x * factor) as u128),
        None => CellV::Dot,
    }
}

/// The cell of a frequency in units of `factor` hertz, or the dot.
pub fn opt_hz(v: Option<u64>, factor: u128) -> (r: Cell)
    requires
        factor <= 1_000_000,
    ensures
        r@ == opt_hz_cell(v, factor),
{
    match v {
        Some(x) => {
            assert(x * factor <= u64::MAX * 1_000_000) by (nonlinear_arith)
                requires
                    factor <= 1_000_000,
            ;
            hz(x as u128 * factor)
        },
        None => Cell::Dot,
    }
}

/// The cell of a text that may be missing.
pub open spec fn opt_text_cell(v: Option<Seq<char>>) -> CellV {
    match v {
        Some(s) => CellV::Text(s),
        None => CellV::Dot,
    }
}

/// The cell of a text that may be missing.
pub fn opt_text(v: Option<&str>) -> (r: Cell)
    ensures
        r@ == opt_text_cell(opt_str(v)),
{
    match v {
        Some(s) => Cell::Text(String::from_str(s)),
        None => Cell::Dot,
    }
}

/// The cell of an integer that may be missing.
pub open spec fn opt_int_cell(v: Option<u64>) -> CellV {
    match v {
        Some(x) => CellV::Text(decimal_spec(x as nat)),
        None => CellV::Dot,
    }
}

/// The cell of an integer that may be missing.
pub fn opt_int(v: Option<u64>) -> (r: Cell)
    ensures
        r@ == opt_int_cell(v),
{
    match v {
        Some(x) => Cell::Text(text_of_u64(x)),
        None => Cell::Dot,
    }
}

/// The text of a boolean, as `bool::to_string` writes it.
pub open spec fn bool_text(b: bool) -> Seq<char> {
    if b {
        "true"@
    } else {
        "false"@
    }
}

/// The cell of a boolean that may be missing.
pub open spec fn opt_bool_cell(v: Option<bool>) -> CellV {
    match v {
        Some(b) => CellV::Text(bool_text(b)),
        None => CellV::Dot,
    }
}

/// The cell of a boolean that may be missing.
pub fn opt_bool(v: Option<bool>) -> (r: Cell)
    ensures
        r@ == opt_bool_cell(v),
{
    match v {
        Some(true) => Cell::Text(String::from_str("true")),
        Some(false) => Cell::Text(String::from_str("false")),
        None => Cell::Dot,
    }
}

/// The cell of a list of words that may be missing: the words joined with
/// spaces.
pub open spec fn opt_words_cell(v: Option<Seq<Seq<char>>>) -> CellV {
    match v {
        Some(w) => CellV::Text(join_spec(w, ' ')),
        None => CellV::Dot,
    }
}

/// The cell of a list of words that may be missing.
pub fn opt_words(v: Option<&[String]>) -> (r: Cell)
    ensures
        r@ == opt_words_cell(match v {
            Some(w) => Some(w@.map_values(|s: String| s@)),
            None => None,
        }),
{
    match v {
        Some(w) => Cell::Text(join_strings(w, ' ')),
        None => Cell::Dot,
    }
}

// ---------------------------------------------------------------- Tables

/// How many bytes UTF-8 takes for `c`.
pub open spec fn utf8_len(c: char) -> nat {
    if (c as u32) < 0x80 {
        1
    } else if (c as u32) < 0x800 {
        2
    } else if (c as u32) < 0x10000 {
        3
    } else {
        4
    }
}

/// How many bytes UTF-8 takes for `h`.
pub open spec fn utf8_bytes(h: Seq<char>) -> nat
    decreases h.len(),
{
    if h.len() == 0 {
        0
    } else {
        utf8_bytes(h.drop_last()) + utf8_len(h.last())
    }
}

/// A row of dashes, one per byte of `h` in UTF-8.
pub open spec fn dashes(h: Seq<char>) -> Seq<char> {
    Seq::new(utf8_bytes(h), |i: int| '-')
}

/// A table of texts: a header, then rows.
#[derive(Clone, Debug)]
pub struct Table {
    pub header: Vec<String>,
    pub rows: Vec<Vec<String>>,
}

/// The texts of rows of texts.
pub open spec fn text_rows(rs: Seq<Vec<String>>) -> Seq<Seq<Seq<char>>> {
    rs.map_values(|r: Vec<String>| strings(r@))
}

/// The texts of string slices.
pub open spec fn strs(v: Seq<&str>) -> Seq<Seq<char>> {
    v.map_values(|s: &str| s@)
}

/// What comfy-table prints for a table without borders or lines with the
/// header `header` and the rows `rows`.
pub uninterp spec fn comfy_text(header: Seq<Seq<char>>, rows: Seq<Seq<Seq<char>>>) -> Seq<char>;

/// comfy-table's text of a table without borders or lines: `Table::new`,
/// `load_style(presets::NOTHING)`, `set_header`, `add_row` for each row,
/// then `to_string`. What the text is, is left to the name `comfy_text`.
#[verifier::external_body]
fn comfy_render(header: &Vec<String>, rows: &Vec<Vec<String>>) -> (r: String)
    ensures
        r@ == comfy_text(strings(header@), text_rows(rows@)),
{
    let mut t = comfy_table::Table::new();
    t.load_style(comfy_table::presets::NOTHING);
    t.set_header(header.clone());
    t.add_rows(rows.clone());
    t.to_string()
}

impl Table {
    /// A table with the header `header` and, as its first row, dashes under
    /// each heading, one per byte of the heading in UTF-8.
    pub fn new(header: &[&str]) -> (r: Self)
        ensures
            strings(r.header@) == strs(header@),
            text_rows(r.rows@) == seq![strs(header@).map_values(|h: Seq<char>| dashes(h))],
    {
        let mut hs: Vec<String> = Vec::new();
        let mut ds: Vec<String> = Vec::new();
        let mut i: usize = 0;
        while i < header.len()
            invariant
                i <= header.len(),
                strings(hs@) =~= strs(header@.subrange(0, i as int)),
                strings(ds@) =~= strs(header@.subrange(0, i as int)).map_values(|h: Seq<char>| dashes(h)),
            decreases header.len() - i,
        {
            let h = chars_of(header[i]);
            let mut d: Vec<char> = Vec::new();
            let mut j: usize = 0;
            while j < h.len()
                invariant
                    j <= h.len(),
                    d@ =~= Seq::new(utf8_bytes(h@.take(j as int)), |k: int| '-'),
                decreases h.len() - j,
            {
                let c = h[j] as u32;
                let n: u32 = if c < 0x80 {
                    1
                } else if c < 0x800 {
                    2
                } else if c < 0x10000 {
                    3
                } else {
                    4
                };
                assert(n == utf8_len(h@[j as int]));
                let ghost d0 = d@;
                let mut m: u32 = 0;
                while m < n
                    invariant
                        m <= n,
                        d@ =~= d0 + Seq::new(m as nat, |k: int| '-'),
                    decreases n - m,
                {
                    d.push('-');
                    m = m + 1;
                }
                assert(h@.take(j + 1).drop_last() =~= h@.take(j as int));
                assert(h@.take(j + 1).last() == h@[j as int]);
                j = j + 1;
            }
            assert(h@.take(h@.len() as int) =~= h@);
            let ghost ds0 = strings(ds@);
            hs.push(String::from_str(header[i]));
            ds.push(string_of(&d));
            assert(d@ =~= dashes(header@[i as int]@));
            assert(strings(ds@) =~= ds0.push(dashes(header@[i as int]@)));
            assert(strs(header@.subrange(0, i + 1)) =~= strs(header@.subrange(0, i as int)).push(header@[i as int]@));
            i = i + 1;
        }
        assert(header@.subrange(0, header@.len() as int) =~= header@);
        let mut rows: Vec<Vec<String>> = Vec::new();
        rows.push(ds);
        assert(text_rows(rows@) =~= seq![strings(ds@)]);
        Table { header: hs, rows }
    }

    /// Adds a row.
    pub fn row(&mut self, row: Vec<String>)
        ensures
            strings(final(self).header@) == strings(old(self).header@),
            text_rows(final(self).rows@) == text_rows(old(self).rows@).push(strings(row@)),
    {
        let ghost r = strings(row@);
        self.rows.push(row);
        assert(text_rows(self.rows@) =~= text_rows(old(self).rows@).push(r));
    }

    /// The table as it is printed: comfy-table's text, then a newline.
    pub fn to_text(&self) -> (r: String)
        ensures
            r@ == comfy_text(strings(self.header@), text_rows(self.rows@)).push('\n'),
    {
        nl(comfy_render(&self.header, &self.rows))
    }
}

/// A table whose cells are still to be written: a header and rows of cells.
#[derive(Clone, Debug)]
pub struct CellTable {
    pub header: Vec<String>,
    pub rows: Vec<Vec<Cell>>,
}

/// The texts of a header.
fn header_of(h: &[&str]) -> (r: Vec<String>)
    ensures
        strings(r@) == strs(h@),
{
    let mut out: Vec<String> = Vec::new();
    let mut i: usize = 0;
    while i < h.len()
        invariant
            i <= h.len(),
            strings(out@) =~= strs(h@.subrange(0, i as int)),
        decreases h.len() - i,
    {
        out.push(String::from_str(h[i]));
        assert(strs(h@.subrange(0, i + 1)) =~= strs(h@.subrange(0, i as int)).push(h@[i as int]@));
        i = i + 1;
    }
    assert(h@.subrange(0, h@.len() as int) =~= h@);
    out
}

// ---------------------------------------------------------------- cpu

/// The views of cpufreq records.
pub open spec fn policy_views(ps: Seq<crate::cpufreq::Record>) -> Seq<crate::cpufreq::RecordV> {
    ps.map_values(|p: crate::cpufreq::Record| p@)
}

/// The first record of `ps` with the id `id`.
pub open spec fn find_policy(ps: Seq<crate::cpufreq::RecordV>, id: u64) -> Option<crate::cpufreq::RecordV>
    decreases ps.len(),
{
    if ps.len() == 0 {
        None
    } else if ps[0].id == id {
        Some(ps[0])
    } else {
        find_policy(ps.drop_first(), id)
    }
}

/// The position of the first record of `ps` with the id `id`.
fn position_of_policy(ps: &Vec<crate::cpufreq::Record>, id: u64) -> (r: Option<usize>)
    ensures
        match r {
            Some(i) => i < ps.len() && find_policy(policy_views(ps@), id) == Some(ps@[i as int]@),
            None => find_policy(policy_views(ps@), id) is None,
        },
{
    let ghost all = policy_views(ps@);
    let mut i: usize = 0;
    assert(all.skip(0) =~= all);
    while i < ps.len()
        invariant
            i <= ps.len(),
            all == policy_views(ps@),
            find_policy(all, id) == find_policy(all.skip(i as int), id),
        decreases ps.len() - i,
    {
        assert(all.skip(i as int).drop_first() =~= all.skip(i + 1));
        assert(all.skip(i as int)[0] == ps@[i as int]@);
        if ps[i].id() == id {
            return Some(i);
        }
        i = i + 1;
    }
    None
}

/// The header of the cpu table.
pub open spec fn cpu_header() -> Seq<Seq<char>> {
    seq!["CPU"@, "Online"@, "Governor"@, "Cur"@, "Min"@, "Max"@, "CPU min"@, "CPU max"@]
}

/// The row of cpu `c`, with the values of its policy `p` (dots where it has
/// none); frequencies are read in kHz.
pub open spec fn cpu_row(c: crate::cpu::RecordV, p: Option<crate::cpufreq::RecordV>) -> Seq<CellV> {
    match p {
        Some(q) => seq![
            CellV::Text(decimal_spec(c.id as nat)),
            opt_bool_cell(c.online),
            opt_text_cell(q.scaling_governor),
            opt_hz_cell(q.scaling_cur_freq, 1000),
            opt_hz_cell(q.scaling_min_freq, 1000),
            opt_hz_cell(q.scaling_max_freq, 1000),
            opt_hz_cell(q.cpuinfo_min_freq, 1000),
            opt_hz_cell(q.cpuinfo_max_freq, 1000),
        ],
        None => seq![
            CellV::Text(decimal_spec(c.id as nat)),
            opt_bool_cell(c.online),
            CellV::Dot,
            CellV::Dot,
            CellV::Dot,
            CellV::Dot,
            CellV::Dot,
            CellV::Dot,
        ],
    }
}

/// The row of one cpu.
fn cpu_row_of(c: &crate::cpu::Record, p: Option<&crate::cpufreq::Record>) -> (r: Vec<Cell>)
    ensures
        row_view(r@) == cpu_row(c@, match p {
            Some(q) => Some(q@),
            None => None,
        }),
{
    let mut r: Vec<Cell> = Vec::new();
    r.push(Cell::Text(text_of_u64(c.id())));
    r.push(opt_bool(c.online()));
    match p {
        Some(q) => {
            r.push(opt_text(q.scaling_governor()));
            r.push(opt_hz(q.scaling_cur_freq(), 1000));
            r.push(opt_hz(q.scaling_min_freq(), 1000));
            r.push(opt_hz(q.scaling_max_freq(), 1000));
            r.push(opt_hz(q.cpuinfo_min_freq(), 1000));
            r.push(opt_hz(q.cpuinfo_max_freq(), 1000));
        },
        None => {
            r.push(Cell::Dot);
            r.push(Cell::Dot);
            r.push(Cell::Dot);
            r.push(Cell::Dot);
            r.push(Cell::Dot);
            r.push(Cell::Dot);
        },
    }
    assert(row_view(r@) =~= cpu_row(c@, match p {
        Some(q) => Some(q@),
        None => None,
    }));
    r
}

/// The views of cpu records.
pub open spec fn cpu_views(cs: Seq<crate::cpu::Record>) -> Seq<crate::cpu::RecordV> {
    cs.map_values(|c: crate::cpu::Record| c@)
}

/// The rows of the cpu table: one per cpu, in order, each with the first
/// policy of the same id.
pub open spec fn cpu_rows(cs: Seq<crate::cpu::RecordV>, ps: Option<Seq<crate::cpufreq::RecordV>>) -> Seq<Seq<CellV>> {
    Seq::new(
        cs.len(),
        |i: int|
            cpu_row(
                cs[i],
                match ps {
                    Some(v) => find_policy(v, cs[i].id),
                    None => None,
                },
            ),
    )
}

/// The cpu table: none without cpus.
pub fn cpu_cpufreq(cpus: Option<&Vec<crate::cpu::Record>>, policies: Option<&Vec<crate::cpufreq::Record>>) -> (r: Option<CellTable>)
    ensures
        match cpus {
            Some(cs) if cs.len() > 0 => r matches Some(t) && strings(t.header@) == cpu_header()
                && rows_view(t.rows@) == cpu_rows(
                cpu_views(cs@),
                match policies {
                    Some(ps) => Some(policy_views(ps@)),
                    None => None,
                },
            ),
            _ => r is None,
        },
{
    let cs = match cpus {
        Some(cs) => cs,
        None => return None,
    };
    if cs.len() == 0 {
        return None;
    }
    let ghost pv = match policies {
        Some(ps) => Some(policy_views(ps@)),
        None => None,
    };
    let mut rows: Vec<Vec<Cell>> = Vec::new();
    let mut i: usize = 0;
    while i < cs.len()
        invariant
            i <= cs.len(),
            pv == (match policies {
                Some(ps) => Some(policy_views(ps@)),
                None => None,
            }),
            rows_view(rows@) =~= cpu_rows(cpu_views(cs@), pv).take(i as int),
        decreases cs.len() - i,
    {
        let p = match policies {
            Some(ps) => match position_of_policy(ps, cs[i].id()) {
                Some(k) => Some(&ps[k]),
                None => None,
            },
            None => None,
        };
        let row = cpu_row_of(&cs[i], p);
        let ghost before = rows_view(rows@);
        rows.push(row);
        assert(rows_view(rows@) =~= before.push(row_view(row@)));
        i = i + 1;
    }
    assert(cpu_rows(cpu_views(cs@), pv).take(cs.len() as int) =~= cpu_rows(cpu_views(cs@), pv));
    Some(CellTable {
        header: header_of(&["CPU", "Online", "Governor", "Cur", "Min", "Max", "CPU min", "CPU max"]),
        rows,
    })
}

/// Whether `s` holds one value, however many times: what is left of it after
/// sorting and removing repeats is one element.
pub open spec fn one_value<T>(s: Seq<T>) -> bool {
    s.len() > 0 && forall|i: int| 0 <= i < s.len() ==> #[trigger] s[i] == s[0]
}

/// Whether the texts of `v` are all the same as the first (and there is one).
fn all_same(v: &Vec<String>) -> (r: bool)
    ensures
        r == one_value(strings(v@)),
{
    if v.len() == 0 {
        return false;
    }
    let first = chars_of(v[0].as_str());
    let mut i: usize = 1;
    while i < v.len()
        invariant
            1 <= i <= v.len(),
            first@ == v@[0]@,
            forall|k: int| 0 <= k < i ==> #[trigger] strings(v@)[k] == strings(v@)[0],
        decreases v.len() - i,
    {
        let c = chars_of(v[i].as_str());
        if !chars_eq(&c, &first) {
            assert(strings(v@)[i as int] != strings(v@)[0]);
            return false;
        }
        i = i + 1;
    }
    true
}

/// The available governors of each policy that has them, joined with spaces,
/// in order.
pub open spec fn gov_texts(ps: Seq<crate::cpufreq::RecordV>) -> Seq<Seq<char>>
    decreases ps.len(),
{
    if ps.len() == 0 {
        Seq::empty()
    } else {
        match ps.last().scaling_available_governors {
            Some(g) => gov_texts(ps.drop_last()).push(join_spec(g, ' ')),
            None => gov_texts(ps.drop_last()),
        }
    }
}

/// The header of the governors table.
pub open spec fn governors_header() -> Seq<Seq<char>> {
    seq!["CPU"@, "Available governors"@]
}

/// The rows of the governors table, one per policy.
pub open spec fn governors_rows(ps: Seq<crate::cpufreq::RecordV>) -> Seq<Seq<CellV>> {
    Seq::new(
        ps.len(),
        |i: int| seq![CellV::Text(decimal_spec(ps[i].id as nat)), opt_words_cell(ps[i].scaling_available_governors)],
    )
}

/// The table of available governors: none when no policy has them; one row
/// for all cpus when all policies have the same; else a row per policy.
pub fn governors(policies: Option<&Vec<crate::cpufreq::Record>>) -> (r: Option<CellTable>)
    ensures
        match policies {
            None => r is None,
            Some(ps) => {
                let g = gov_texts(policy_views(ps@));
                if g.len() == 0 {
                    r is None
                } else if one_value(g) {
                    r matches Some(t) && strings(t.header@) == governors_header() && rows_view(t.rows@) == seq![
                        seq![CellV::Text("all"@), CellV::Text(g[0])],
                    ]
                } else {
                    r matches Some(t) && strings(t.header@) == governors_header() && rows_view(t.rows@)
                        == governors_rows(policy_views(ps@))
                }
            },
        },
{
    let ps = match policies {
        Some(ps) => ps,
        None => return None,
    };
    let ghost all = policy_views(ps@);
    let mut govs: Vec<String> = Vec::new();
    let mut i: usize = 0;
    assert(all.take(0) =~= Seq::<crate::cpufreq::RecordV>::empty());
    while i < ps.len()
        invariant
            i <= ps.len(),
            all == policy_views(ps@),
            strings(govs@) == gov_texts(all.take(i as int)),
        decreases ps.len() - i,
    {
        assert(all.take(i + 1).drop_last() =~= all.take(i as int));
        assert(all.take(i + 1).last() == ps@[i as int]@);
        let ghost before = strings(govs@);
        match ps[i].scaling_available_governors() {
            Some(g) => {
                let j = join_strings(g, ' ');
                govs.push(j);
                assert(strings(govs@) =~= before.push(j@));
            },
            None => {},
        }
        i = i + 1;
    }
    assert(all.take(all.len() as int) =~= all);
    if govs.len() == 0 {
        return None;
    }
    let header = header_of(&["CPU", "Available governors"]);
    let mut rows: Vec<Vec<Cell>> = Vec::new();
    if all_same(&govs) {
        let mut row: Vec<Cell> = Vec::new();
        row.push(Cell::Text(String::from_str("all")));
        row.push(Cell::Text(govs[0].clone()));
        assert(row_view(row@) =~= seq![CellV::Text("all"@), CellV::Text(strings(govs@)[0])]);
        rows.push(row);
        assert(rows_view(rows@) =~= seq![seq![CellV::Text("all"@), CellV::Text(strings(govs@)[0])]]);
        return Some(CellTable { header, rows });
    }
    let mut k: usize = 0;
    while k < ps.len()
        invariant
            k <= ps.len(),
            all == policy_views(ps@),
            rows_view(rows@) =~= governors_rows(all).take(k as int),
        decreases ps.len() - k,
    {
        let mut row: Vec<Cell> = Vec::new();
        row.push(Cell::Text(text_of_u64(ps[k].id())));
        row.push(opt_words(ps[k].scaling_available_governors()));
        let ghost before = rows_view(rows@);
        rows.push(row);
        assert(row_view(row@) =~= governors_rows(all)[k as int]);
        assert(rows_view(rows@) =~= before.push(row_view(row@)));
        k = k + 1;
    }
    assert(governors_rows(all).take(ps.len() as int) =~= governors_rows(all));
    Some(CellTable { header, rows })
}

// ---------------------------------------------------------------- i915

/// The views of i915 records.
pub open spec fn i915_views(cs: Seq<crate::i915::Record>) -> Seq<crate::i915::RecordV> {
    cs.map_values(|c: crate::i915::Record| c@)
}

/// The header of the i915 table.
pub open spec fn i915_header() -> Seq<Seq<char>> {
    seq!["Card"@, "Driver"@, "Actual"@, "Req'd"@, "Min"@, "Max"@, "Boost"@, "GPU min"@, "GPU max"@]
}

/// The row of a card; frequencies are read in MHz.
pub open spec fn i915_row(c: crate::i915::RecordV) -> Seq<CellV> {
    seq![
        CellV::Text(decimal_spec(c.id as nat)),
        CellV::Text("i915"@),
        opt_hz_cell(c.act_freq_mhz, 1_000_000),
        opt_hz_cell(c.cur_freq_mhz, 1_000_000),
        opt_hz_cell(c.min_freq_mhz, 1_000_000),
        opt_hz_cell(c.max_freq_mhz, 1_000_000),
        opt_hz_cell(c.boost_freq_mhz, 1_000_000),
        opt_hz_cell(c.rpn_freq_mhz, 1_000_000),
        opt_hz_cell(c.rp0_freq_mhz, 1_000_000),
    ]
}

/// The i915 table: one row per card, in order; none without cards.
pub fn i915(cards: Option<&Vec<crate::i915::Record>>) -> (r: Option<CellTable>)
    ensures
        match cards {
            Some(cs) if cs.len() > 0 => r matches Some(t) && strings(t.header@) == i915_header()
                && rows_view(t.rows@) == i915_views(cs@).map_values(|c: crate::i915::RecordV| i915_row(c)),
            _ => r is None,
        },
{
    let cs = match cards {
        Some(cs) => cs,
        None => return None,
    };
    if cs.len() == 0 {
        return None;
    }
    let ghost want = i915_views(cs@).map_values(|c: crate::i915::RecordV| i915_row(c));
    let mut rows: Vec<Vec<Cell>> = Vec::new();
    let mut i: usize = 0;
    while i < cs.len()
        invariant
            i <= cs.len(),
            want == i915_views(cs@).map_values(|c: crate::i915::RecordV| i915_row(c)),
            rows_view(rows@) =~= want.take(i as int),
        decreases cs.len() - i,
    {
        let c = &cs[i];
        let mut row: Vec<Cell> = Vec::new();
        row.push(Cell::Text(text_of_u64(c.id())));
        row.push(Cell::Text(String::from_str("i915")));
        row.push(opt_hz(c.act_freq_mhz(), 1_000_000));
        row.push(opt_hz(c.cur_freq_mhz(), 1_000_000));
        row.push(opt_hz(c.min_freq_mhz(), 1_000_000));
        row.push(opt_hz(c.max_freq_mhz(), 1_000_000));
        row.push(opt_hz(c.boost_freq_mhz(), 1_000_000));
        row.push(opt_hz(c.rpn_freq_mhz(), 1_000_000));
        row.push(opt_hz(c.rp0_freq_mhz(), 1_000_000));
        assert(row_view(row@) =~= want[i as int]);
        let ghost before = rows_view(rows@);
        rows.push(row);
        assert(rows_view(rows@) =~= before.push(row_view(row@)));
        i = i + 1;
    }
    assert(want.take(cs.len() as int) =~= want);
    Some(CellTable {
        header: header_of(&["Card", "Driver", "Actual", "Req'd", "Min", "Max", "Boost", "GPU min", "GPU max"]),
        rows,
    })
}

// ---------------------------------------------------------------- intel_pstate

/// The line that gives the status of intel_pstate.
pub open spec fn status_line(status: Seq<char>) -> Seq<char> {
    " intel_pstate: "@ + status + "\n\n"@
}

/// The status line of intel_pstate, when its status is known.
pub fn pstate_status(system: Option<&crate::intel_pstate::System>) -> (r: Option<String>)
    ensures
        match system {
            Some(s) => match s@.globals.status {
                Some(st) => r matches Some(t) && t@ == status_line(st),
                None => r is None,
            },
            None => r is None,
        },
{
    let s = match system {
        Some(s) => s,
        None => return None,
    };
    match s.globals().status() {
        Some(st) => {
            let mut t = String::from_str(" intel_pstate: ");
            t.append(st);
            t.append("\n\n");
            Some(t)
        },
        None => None,
    }
}

/// The (bias, preference) of each device that has both, in order.
pub open spec fn epb_epp_values(ds: Seq<crate::intel_pstate::DeviceV>) -> Seq<(u64, Seq<char>)>
    decreases ds.len(),
{
    if ds.len() == 0 {
        Seq::empty()
    } else {
        let d = ds.last();
        match (d.energy_perf_bias, d.energy_performance_preference) {
            (Some(b), Some(p)) => epb_epp_values(ds.drop_last()).push((b, p)),
            _ => epb_epp_values(ds.drop_last()),
        }
    }
}

/// The header of the energy/performance table.
pub open spec fn epb_epp_header() -> Seq<Seq<char>> {
    seq!["CPU"@, "EP bias"@, "EP preference"@]
}

/// The rows of the energy/performance table, one per device.
pub open spec fn epb_epp_rows(ds: Seq<crate::intel_pstate::DeviceV>) -> Seq<Seq<CellV>> {
    Seq::new(
        ds.len(),
        |i: int|
            seq![
                CellV::Text(decimal_spec(ds[i].id as nat)),
                opt_int_cell(ds[i].energy_perf_bias),
                opt_text_cell(ds[i].energy_performance_preference),
            ],
    )
}

/// The rows of the energy/performance table: one row for all cpus when every
/// device that has a bias and a preference has the same pair; else a row per
/// device.
pub open spec fn epb_epp_table(ds: Seq<crate::intel_pstate::DeviceV>) -> Seq<Seq<CellV>> {
    let v = epb_epp_values(ds);
    if one_value(v) {
        seq![seq![CellV::Text("all"@), CellV::Text(decimal_spec(v[0].0 as nat)), CellV::Text(v[0].1)]]
    } else {
        epb_epp_rows(ds)
    }
}

/// The energy/performance table: one row for all cpus when every device that
/// has a bias and a preference has the same pair; else a row per device.
pub fn epb_epp(devices: &[crate::intel_pstate::Device]) -> (r: CellTable)
    ensures
        strings(r.header@) == epb_epp_header(),
        rows_view(r.rows@) == epb_epp_table(crate::intel_pstate::device_views(devices@)),
{
    let ghost all = crate::intel_pstate::device_views(devices@);
    let mut biases: Vec<u64> = Vec::new();
    let mut prefs: Vec<String> = Vec::new();
    let mut i: usize = 0;
    assert(all.take(0) =~= Seq::<crate::intel_pstate::DeviceV>::empty());
    while i < devices.len()
        invariant
            i <= devices.len(),
            all == crate::intel_pstate::device_views(devices@),
            biases@.len() == prefs@.len(),
            epb_epp_values(all.take(i as int)) =~= Seq::new(
                biases@.len(),
                |k: int| (biases@[k], strings(prefs@)[k]),
            ),
        decreases devices.len() - i,
    {
        assert(all.take(i + 1).drop_last() =~= all.take(i as int));
        assert(all.take(i + 1).last() == devices@[i as int]@);
        match (devices[i].energy_perf_bias(), devices[i].energy_performance_preference()) {
            (Some(b), Some(p)) => {
                biases.push(b);
                prefs.push(String::from_str(p));
            },
            _ => {},
        }
        i = i + 1;
    }
    assert(all.take(all.len() as int) =~= all);
    let ghost v = epb_epp_values(all);
    let header = header_of(&["CPU", "EP bias", "EP preference"]);
    let mut rows: Vec<Vec<Cell>> = Vec::new();
    let mut same = biases.len() > 0;
    if same {
        let first = chars_of(prefs[0].as_str());
        let mut k: usize = 1;
        while k < biases.len()
            invariant
                1 <= k <= biases.len(),
                biases@.len() == prefs@.len(),
                v =~= Seq::new(biases@.len(), |j: int| (biases@[j], strings(prefs@)[j])),
                first@ == prefs@[0]@,
                same == (forall|j: int| 0 <= j < k ==> #[trigger] v[j] == v[0]),
            decreases biases.len() - k,
        {
            let c = chars_of(prefs[k].as_str());
            let eq = biases[k] == biases[0] && chars_eq(&c, &first);
            assert(eq == (v[k as int] == v[0]));
            same = same && eq;
            k = k + 1;
        }
    }
    assert(same == one_value(v));
    if same {
        let mut row: Vec<Cell> = Vec::new();
        row.push(Cell::Text(String::from_str("all")));
        row.push(Cell::Text(text_of_u64(biases[0])));
        row.push(Cell::Text(prefs[0].clone()));
        assert(row_view(row@) =~= seq![
            CellV::Text("all"@),
            CellV::Text(decimal_spec(v[0].0 as nat)),
            CellV::Text(v[0].1),
        ]);
        rows.push(row);
        assert(rows_view(rows@) =~= seq![row_view(row@)]);
        return CellTable { header, rows };
    }
    let mut k: usize = 0;
    while k < devices.len()
        invariant
            k <= devices.len(),
            all == crate::intel_pstate::device_views(devices@),
            rows_view(rows@) =~= epb_epp_rows(all).take(k as int),
        decreases devices.len() - k,
    {
        let d = &devices[k];
        let mut row: Vec<Cell> = Vec::new();
        row.push(Cell::Text(text_of_u64(d.id())));
        row.push(opt_int(d.energy_perf_bias()));
        row.push(opt_text(d.energy_performance_preference()));
        assert(row_view(row@) =~= epb_epp_rows(all)[k as int]);
        let ghost before = rows_view(rows@);
        rows.push(row);
        assert(rows_view(rows@) =~= before.push(row_view(row@)));
        k = k + 1;
    }
    assert(epb_epp_rows(all).take(devices.len() as int) =~= epb_epp_rows(all));
    CellTable { header, rows }
}

/// The available preferences of each device that has them, joined with
/// spaces, in order.
pub open spec fn epp_texts(ds: Seq<crate::intel_pstate::DeviceV>) -> Seq<Seq<char>>
    decreases ds.len(),
{
    if ds.len() == 0 {
        Seq::empty()
    } else {
        match ds.last().energy_performance_available_preferences {
            Some(p) => epp_texts(ds.drop_last()).push(join_spec(p, ' ')),
            None => epp_texts(ds.drop_last()),
        }
    }
}

/// The header of the available preferences table.
pub open spec fn epps_header() -> Seq<Seq<char>> {
    seq!["CPU"@, "Available EP preferences"@]
}

/// The rows of the available preferences table, one per device.
pub open spec fn epps_rows(ds: Seq<crate::intel_pstate::DeviceV>) -> Seq<Seq<CellV>> {
    Seq::new(
        ds.len(),
        |i: int|
            seq![
                CellV::Text(decimal_spec(ds[i].id as nat)),
                opt_words_cell(ds[i].energy_performance_available_preferences),
            ],
    )
}

/// The rows of the table of available preferences: one row for all cpus when
/// every device that has them has the same; else a row per device.
pub open spec fn epps_table(ds: Seq<crate::intel_pstate::DeviceV>) -> Seq<Seq<CellV>> {
    let v = epp_texts(ds);
    if one_value(v) {
        seq![seq![CellV::Text("all"@), CellV::Text(v[0])]]
    } else {
        epps_rows(ds)
    }
}

/// The table of available preferences: one row for all cpus when every
/// device that has them has the same; else a row per device.
pub fn epps(devices: &[crate::intel_pstate::Device]) -> (r: CellTable)
    ensures
        strings(r.header@) == epps_header(),
        rows_view(r.rows@) == epps_table(crate::intel_pstate::device_views(devices@)),
{
    let ghost all = crate::intel_pstate::device_views(devices@);
    let mut prefs: Vec<String> = Vec::new();
    let mut i: usize = 0;
    assert(all.take(0) =~= Seq::<crate::intel_pstate::DeviceV>::empty());
    while i < devices.len()
        invariant
            i <= devices.len(),
            all == crate::intel_pstate::device_views(devices@),
            strings(prefs@) == epp_texts(all.take(i as int)),
        decreases devices.len() - i,
    {
        assert(all.take(i + 1).drop_last() =~= all.take(i as int));
        assert(all.take(i + 1).last() == devices@[i as int]@);
        let ghost before = strings(prefs@);
        match devices[i].energy_performance_available_preferences() {
            Some(p) => {
                let j = join_strings(p, ' ');
                prefs.push(j);
                assert(strings(prefs@) =~= before.push(j@));
            },
            None => {},
        }
        i = i + 1;
    }
    assert(all.take(all.len() as int) =~= all);
    let header = header_of(&["CPU", "Available EP preferences"]);
    let mut rows: Vec<Vec<Cell>> = Vec::new();
    if all_same(&prefs) {
        let mut row: Vec<Cell> = Vec::new();
        row.push(Cell::Text(String::from_str("all")));
        row.push(Cell::Text(prefs[0].clone()));
        assert(row_view(row@) =~= seq![CellV::Text("all"@), CellV::Text(strings(prefs@)[0])]);
        rows.push(row);
        assert(rows_view(rows@) =~= seq![seq![CellV::Text("all"@), CellV::Text(strings(prefs@)[0])]]);
        return CellTable { header, rows };
    }
    let mut k: usize = 0;
    while k < devices.len()
        invariant
            k <= devices.len(),
            all == crate::intel_pstate::device_views(devices@),
            rows_view(rows@) =~= epps_rows(all).take(k as int),
        decreases devices.len() - k,
    {
        let d = &devices[k];
        let mut row: Vec<Cell> = Vec::new();
        row.push(Cell::Text(text_of_u64(d.id())));
        row.push(opt_words(d.energy_performance_available_preferences()));
        assert(row_view(row@) =~= epps_rows(all)[k as int]);
        let ghost before = rows_view(rows@);
        rows.push(row);
        assert(rows_view(rows@) =~= before.push(row_view(row@)));
        k = k + 1;
    }
    assert(epps_rows(all).take(devices.len() as int) =~= epps_rows(all));
    CellTable { header, rows }
}

/// What is printed of intel_pstate: the status line when the status is
/// known; then, when the status is `active` and there are devices, the
/// energy/performance table and the table of available preferences.
pub fn intel_pstate(system: Option<&crate::intel_pstate::System>) -> (r: (Option<String>, Vec<CellTable>))
    ensures
        match system {
            Some(s) => match s@.globals.status {
                Some(st) => r.0 matches Some(t) && t@ == status_line(st),
                None => r.0 is None,
            },
            None => r.0 is None,
        },
        match system {
            Some(s) if s@.globals.status == Some("active"@) && s@.devices.len() > 0 => r.1@.len() == 2
                && strings(r.1@[0].header@) == epb_epp_header() && rows_view(r.1@[0].rows@) == epb_epp_table(
                s@.devices,
            ) && strings(r.1@[1].header@) == epps_header() && rows_view(r.1@[1].rows@) == epps_table(
                s@.devices,
            ),
            _ => r.1@.len() == 0,
        },
{
    let line = pstate_status(system);
    let mut tables: Vec<CellTable> = Vec::new();
    let s = match system {
        Some(s) => s,
        None => return (line, tables),
    };
    let active = match s.globals().status() {
        Some(st) => chars_eq_str(&chars_of(st), "active"),
        None => false,
    };
    let devices = s.devices();
    if active && devices.len() > 0 {
        tables.push(epb_epp(devices));
        tables.push(epps(devices));
    }
    (line, tables)
}

// ---------------------------------------------------------------- intel_rapl

/// The first constraint of `cs` named `name`.
pub open spec fn find_constraint(cs: Seq<Constraint>, name: Seq<char>) -> Option<Constraint>
    decreases cs.len(),
{
    if cs.len() == 0 {
        None
    } else if opt_string(cs[0].name) == Some(name) {
        Some(cs[0])
    } else {
        find_constraint(cs.drop_first(), name)
    }
}

/// The first constraint of `cs` named `name`.
fn constraint_named<'a>(cs: &'a Vec<Constraint>, name: &str) -> (r: Option<&'a Constraint>)
    ensures
        match r {
            Some(c) => find_constraint(cs@, name@) == Some(*c),
            None => find_constraint(cs@, name@) is None,
        },
{
    let n = chars_of(name);
    let mut i: usize = 0;
    assert(cs@.skip(0) =~= cs@);
    while i < cs.len()
        invariant
            i <= cs.len(),
            n@ == name@,
            find_constraint(cs@, name@) == find_constraint(cs@.skip(i as int), name@),
        decreases cs.len() - i,
    {
        assert(cs@.skip(i as int).drop_first() =~= cs@.skip(i + 1));
        assert(cs@.skip(i as int)[0] == cs@[i as int]);
        match &cs[i].name {
            Some(s) => {
                if chars_eq(&chars_of(s.as_str()), &n) {
                    return Some(&cs[i]);
                }
            },
            None => {},
        }
        i = i + 1;
    }
    None
}

/// The label of a zone: `zone`, or `zone:subzone`.
pub open spec fn zone_label(id: ZoneId) -> Seq<char> {
    match id.subzone {
        Some(s) => decimal_spec(id.zone as nat) + ":"@ + decimal_spec(s as nat),
        None => decimal_spec(id.zone as nat),
    }
}

/// The label of a zone.
fn zone_text(id: ZoneId) -> (r: String)
    ensures
        r@ == zone_label(id),
{
    let mut s = text_of_u64(id.zone);
    match id.subzone {
        Some(z) => {
            s.append(":");
            s.append(text_of_u64(z).as_str());
        },
        None => {},
    }
    s
}

/// A power limit that may be missing.
pub open spec fn opt_uw_cell(c: Option<Constraint>) -> CellV {
    match c {
        Some(k) => match k.power_limit_uw {
            Some(v) => uw_cell(v),
            None => CellV::Dot,
        },
        None => CellV::Dot,
    }
}

/// A time window that may be missing: `{n} us`.
pub open spec fn opt_window_cell(c: Option<Constraint>) -> CellV {
    match c {
        Some(k) => match k.time_window_us {
            Some(v) => CellV::Text(decimal_spec(v as nat) + " us"@),
            None => CellV::Dot,
        },
        None => CellV::Dot,
    }
}

/// The header of the intel_rapl table.
pub open spec fn rapl_header() -> Seq<Seq<char>> {
    seq!["Zone name"@, "Zone"@, "Long lim"@, "Short lim"@, "Long win"@, "Short win"@, "Usage"@]
}

/// The row of a zone: its name, its label, the limits and windows of its
/// `long_term` and `short_term` constraints, and its usage, which is known
/// only for the zones that were sampled (`sampled`) and is the dot for the
/// others.
pub open spec fn rapl_row(d: Zone, sampled: Seq<ZoneId>) -> Seq<CellV> {
    let long = find_constraint(d.constraints@, "long_term"@);
    let short = find_constraint(d.constraints@, "short_term"@);
    seq![
        opt_text_cell(opt_string(d.name)),
        CellV::Text(zone_label(d.id)),
        opt_uw_cell(long),
        opt_uw_cell(short),
        opt_window_cell(long),
        opt_window_cell(short),
        if sampled.contains(d.id) {
            CellV::Usage(d.id)
        } else {
            CellV::Dot
        },
    ]
}

/// Whether `id` is one of `ids`.
fn has_zone(ids: &Vec<ZoneId>, id: ZoneId) -> (r: bool)
    ensures
        r == ids@.contains(id),
{
    let mut i: usize = 0;
    while i < ids.len()
        invariant
            i <= ids.len(),
            forall|k: int| 0 <= k < i ==> ids@[k] != id,
        decreases ids.len() - i,
    {
        if ids[i] == id {
            assert(ids@[i as int] == id);
            return true;
        }
        i = i + 1;
    }
    false
}

/// The cell of a power limit that may be missing.
fn limit_cell(c: Option<&Constraint>) -> (r: Cell)
    ensures
        r@ == opt_uw_cell(match c {
            Some(k) => Some(*k),
            None => None,
        }),
{
    match c {
        Some(k) => match k.power_limit_uw {
            Some(v) => uw(v),
            None => Cell::Dot,
        },
        None => Cell::Dot,
    }
}

/// The cell of a time window that may be missing.
fn window_cell(c: Option<&Constraint>) -> (r: Cell)
    ensures
        r@ == opt_window_cell(match c {
            Some(k) => Some(*k),
            None => None,
        }),
{
    match c {
        Some(k) => match k.time_window_us {
            Some(v) => {
                let mut s = text_of_u64(v);
                s.append(" us");
                Cell::Text(s)
            },
            None => Cell::Dot,
        },
        None => Cell::Dot,
    }
}

/// The intel_rapl table: one row per zone, in order; none without zones.
/// The usage cell is left for the zones of `sampled`, whose power was
/// sampled; it is the dot for the others (for every zone when nothing was
/// sampled).
pub fn intel_rapl(zones: Option<&Vec<Zone>>, sampled: &Vec<ZoneId>) -> (r: Option<CellTable>)
    ensures
        match zones {
            Some(zs) if zs.len() > 0 => r matches Some(t) && strings(t.header@) == rapl_header()
                && rows_view(t.rows@) == zs@.map_values(|d: Zone| rapl_row(d, sampled@)),
            _ => r is None,
        },
{
    let zs = match zones {
        Some(zs) => zs,
        None => return None,
    };
    if zs.len() == 0 {
        return None;
    }
    let ghost want = zs@.map_values(|d: Zone| rapl_row(d, sampled@));
    let mut rows: Vec<Vec<Cell>> = Vec::new();
    let mut i: usize = 0;
    while i < zs.len()
        invariant
            i <= zs.len(),
            want == zs@.map_values(|d: Zone| rapl_row(d, sampled@)),
            rows_view(rows@) =~= want.take(i as int),
        decreases zs.len() - i,
    {
        let d = &zs[i];
        let long = constraint_named(&d.constraints, "long_term");
        let short = constraint_named(&d.constraints, "short_term");
        let mut row: Vec<Cell> = Vec::new();
        row.push(
            match &d.name {
                Some(n) => Cell::Text(n.clone()),
                None => Cell::Dot,
            },
        );
        row.push(Cell::Text(zone_text(d.id)));
        row.push(limit_cell(long));
        row.push(limit_cell(short));
        row.push(window_cell(long));
        row.push(window_cell(short));
        row.push(if has_zone(sampled, d.id) {
            Cell::Usage(d.id)
        } else {
            Cell::Dot
        });
        assert(row_view(row@) =~= want[i as int]);
        let ghost before = rows_view(rows@);
        rows.push(row);
        assert(rows_view(rows@) =~= before.push(row_view(row@)));
        i = i + 1;
    }
    assert(want.take(zs.len() as int) =~= want);
    Some(CellTable {
        header: header_of(&["Zone name", "Zone", "Long lim", "Short lim", "Long win", "Short win", "Usage"]),
        rows,
    })
}

// ---------------------------------------------------------------- Laws

/// A power is shown with at most three significant digits dropped to zero:
/// the value shown is a multiple of the scale, not above the power, and less
/// than one scale below it.
pub proof fn law_power_truncation(uw: u64)
    requires
        uw > 0,
    ensures
        uw_cell(uw) matches CellV::Power { uw: x } && x <= uw && uw - x < uw_scale(uw) && (x as int) % (
            uw_scale(uw) as int) == 0,
{
    let s: int = uw_scale(uw) as int;
    let u: int = uw as int;
    assert(s > 0);
    let q: int = u / s;
    assert(q * s <= u && u - q * s < s && (q * s) % s == 0 && q * s >= 0) by (nonlinear_arith)
        requires
            s > 0,
            u >= 0,
            q == u / s,
    ;
}

/// Every row of each table has a cell under each heading.
pub proof fn law_rows_fit_headers(
    cs: Seq<crate::cpu::RecordV>,
    ps: Option<Seq<crate::cpufreq::RecordV>>,
    pols: Seq<crate::cpufreq::RecordV>,
    ds: Seq<crate::intel_pstate::DeviceV>,
)
    ensures
        forall|i: int| 0 <= i < cs.len() ==> (#[trigger] cpu_rows(cs, ps)[i]).len() == cpu_header().len(),
        forall|i: int| 0 <= i < pols.len() ==> (#[trigger] governors_rows(pols)[i]).len() == governors_header().len(),
        forall|c: crate::i915::RecordV| (#[trigger] i915_row(c)).len() == i915_header().len(),
        forall|i: int| 0 <= i < epb_epp_table(ds).len() ==> (#[trigger] epb_epp_table(ds)[i]).len() == epb_epp_header().len(),
        forall|i: int| 0 <= i < epps_table(ds).len() ==> (#[trigger] epps_table(ds)[i]).len() == epps_header().len(),
        forall|d: Zone, sampled: Seq<ZoneId>| (#[trigger] rapl_row(d, sampled)).len() == rapl_header().len(),
{
}

/// Each column of the i915 table shows the field its heading names: the
/// card id under "Card", and, in hertz from the MHz read, the actual,
/// requested, min, max and boost frequencies under "Actual", "Req'd", "Min",
/// "Max" and "Boost", the rpn and rp0 frequencies under "GPU min" and
/// "GPU max"; the dot where the field was not read.
pub proof fn law_i915_columns(c: crate::i915::RecordV, k: int)
    requires
        0 <= k < i915_header().len(),
    ensures
        i915_header()[k] == "Card"@ ==> i915_row(c)[k] == CellV::Text(decimal_spec(c.id as nat)),
        i915_header()[k] == "Actual"@ ==> i915_row(c)[k] == mhz_cell(c.act_freq_mhz),
        i915_header()[k] == "Req'd"@ ==> i915_row(c)[k] == mhz_cell(c.cur_freq_mhz),
        i915_header()[k] == "Min"@ ==> i915_row(c)[k] == mhz_cell(c.min_freq_mhz),
        i915_header()[k] == "Max"@ ==> i915_row(c)[k] == mhz_cell(c.max_freq_mhz),
        i915_header()[k] == "Boost"@ ==> i915_row(c)[k] == mhz_cell(c.boost_freq_mhz),
        i915_header()[k] == "GPU min"@ ==> i915_row(c)[k] == mhz_cell(c.rpn_freq_mhz),
        i915_header()[k] == "GPU max"@ ==> i915_row(c)[k] == mhz_cell(c.rp0_freq_mhz),
{
    reveal_strlit("Card");
    reveal_strlit("Driver");
    reveal_strlit("Actual");
    reveal_strlit("Req'd");
    reveal_strlit("Min");
    reveal_strlit("Max");
    reveal_strlit("Boost");
    reveal_strlit("GPU min");
    reveal_strlit("GPU max");
    let h = i915_header();
    assert(h[0] == "Card"@ && h[1] == "Driver"@ && h[2] == "Actual"@ && h[3] == "Req'd"@ && h[4] == "Min"@);
    assert(h[5] == "Max"@ && h[6] == "Boost"@ && h[7] == "GPU min"@ && h[8] == "GPU max"@);
    if k == 0 {
            assert(h[0].len() != "Driver"@.len());
            assert(h[0].len() != "Actual"@.len());
            assert(h[0].len() != "Req'd"@.len());
            assert(h[0].len() != "Min"@.len());
            assert(h[0].len() != "Max"@.len());
            assert(h[0].len() != "Boost"@.len());
            assert(h[0].len() != "GPU min"@.len());
            assert(h[0].len() != "GPU max"@.len());
    } else if k == 1 {
            assert(h[1].len() != "Card"@.len());
            assert(h[1][0] != "Actual"@[0]);
            assert(h[1].len() != "Req'd"@.len());
            assert(h[1].len() != "Min"@.len());
            assert(h[1].len() != "Max"@.len());
            assert(h[1].len() != "Boost"@.len());
            assert(h[1].len() != "GPU min"@.len());
            assert(h[1].len() != "GPU max"@.len());
    } else if k == 2 {
            assert(h[2].len() != "Card"@.len());
            assert(h[2][0] != "Driver"@[0]);
            assert(h[2].len() != "Req'd"@.len());
            assert(h[2].len() != "Min"@.len());
            assert(h[2].len() != "Max"@.len());
            assert(h[2].len() != "Boost"@.len());
            assert(h[2].len() != "GPU min"@.len());
            assert(h[2].len() != "GPU max"@.len());
    } else if k == 3 {
            assert(h[3].len() != "Card"@.len());
            assert(h[3].len() != "Driver"@.len());
            assert(h[3].len() != "Actual"@.len());
            assert(h[3].len() != "Min"@.len());
            assert(h[3].len() != "Max"@.len());
            assert(h[3][0] != "Boost"@[0]);
            assert(h[3].len() != "GPU min"@.len());
            assert(h[3].len() != "GPU max"@.len());
    } else if k == 4 {
            assert(h[4].len() != "Card"@.len());
            assert(h[4].len() != "Driver"@.len());
            assert(h[4].len() != "Actual"@.len());
            assert(h[4].len() != "Req'd"@.len());
            assert(h[4][1] != "Max"@[1]);
            assert(h[4].len() != "Boost"@.len());
            assert(h[4].len() != "GPU min"@.len());
            assert(h[4].len() != "GPU max"@.len());
    } else if k == 5 {
            assert(h[5].len() != "Card"@.len());
            assert(h[5].len() != "Driver"@.len());
            assert(h[5].len() != "Actual"@.len());
            assert(h[5].len() != "Req'd"@.len());
            assert(h[5][1] != "Min"@[1]);
            assert(h[5].len() != "Boost"@.len());
            assert(h[5].len() != "GPU min"@.len());
            assert(h[5].len() != "GPU max"@.len());
    } else if k == 6 {
            assert(h[6].len() != "Card"@.len());
            assert(h[6].len() != "Driver"@.len());
            assert(h[6].len() != "Actual"@.len());
            assert(h[6][0] != "Req'd"@[0]);
            assert(h[6].len() != "Min"@.len());
            assert(h[6].len() != "Max"@.len());
            assert(h[6].len() != "GPU min"@.len());
            assert(h[6].len() != "GPU max"@.len());
    } else if k == 7 {
            assert(h[7].len() != "Card"@.len());
            assert(h[7].len() != "Driver"@.len());
            assert(h[7].len() != "Actual"@.len());
            assert(h[7].len() != "Req'd"@.len());
            assert(h[7].len() != "Min"@.len());
            assert(h[7].len() != "Max"@.len());
            assert(h[7].len() != "Boost"@.len());
            assert(h[7][5] != "GPU max"@[5]);
    } else if k == 8 {
            assert(h[8].len() != "Card"@.len());
            assert(h[8].len() != "Driver"@.len());
            assert(h[8].len() != "Actual"@.len());
            assert(h[8].len() != "Req'd"@.len());
            assert(h[8].len() != "Min"@.len());
            assert(h[8].len() != "Max"@.len());
            assert(h[8].len() != "Boost"@.len());
            assert(h[8][5] != "GPU min"@[5]);
    }
}

/// The cell of a frequency read in MHz: the dot when it was not read, else
/// the frequency in hertz.
pub open spec fn mhz_cell(v: Option<u64>) -> CellV {
    match v {
        None => CellV::Dot,
        Some(m) => hz_cell((m * 1_000_000) as u128),
    }
}

/// Each column of the cpu table shows the field its heading names: the cpu
/// id under "CPU", its online state under "Online", and from its policy the
/// governor under "Governor", and, in hertz from the kHz read, the current,
/// minimum and maximum scaling frequencies under "Cur", "Min" and "Max" and
/// the hardware limits under "CPU min" and "CPU max".
pub proof fn law_cpu_columns(c: crate::cpu::RecordV, q: crate::cpufreq::RecordV, k: int)
    requires
        0 <= k < cpu_header().len(),
    ensures
        cpu_header()[k] == "CPU"@ ==> cpu_row(c, Some(q))[k] == CellV::Text(decimal_spec(c.id as nat)),
        cpu_header()[k] == "Online"@ ==> cpu_row(c, Some(q))[k] == opt_bool_cell(c.online),
        cpu_header()[k] == "Governor"@ ==> cpu_row(c, Some(q))[k] == opt_text_cell(q.scaling_governor),
        cpu_header()[k] == "Cur"@ ==> cpu_row(c, Some(q))[k] == khz_cell(q.scaling_cur_freq),
        cpu_header()[k] == "Min"@ ==> cpu_row(c, Some(q))[k] == khz_cell(q.scaling_min_freq),
        cpu_header()[k] == "Max"@ ==> cpu_row(c, Some(q))[k] == khz_cell(q.scaling_max_freq),
        cpu_header()[k] == "CPU min"@ ==> cpu_row(c, Some(q))[k] == khz_cell(q.cpuinfo_min_freq),
        cpu_header()[k] == "CPU max"@ ==> cpu_row(c, Some(q))[k] == khz_cell(q.cpuinfo_max_freq),
{
    reveal_strlit("CPU");
    reveal_strlit("Online");
    reveal_strlit("Governor");
    reveal_strlit("Cur");
    reveal_strlit("Min");
    reveal_strlit("Max");
    reveal_strlit("CPU min");
    reveal_strlit("CPU max");
    let h = cpu_header();
    assert(h[0] == "CPU"@ && h[1] == "Online"@ && h[2] == "Governor"@ && h[3] == "Cur"@ && h[4] == "Min"@ && h[5] == "Max"@ && h[6] == "CPU min"@ && h[7] == "CPU max"@);
    if k == 0 {
        assert(h[0].len() != "Online"@.len());
        assert(h[0].len() != "Governor"@.len());
        assert(h[0][1] != "Cur"@[1]);
        assert(h[0][0] != "Min"@[0]);
        assert(h[0][0] != "Max"@[0]);
        assert(h[0].len() != "CPU min"@.len());
        assert(h[0].len() != "CPU max"@.len());
    } else if k == 1 {
        assert(h[1].len() != "CPU"@.len());
        assert(h[1].len() != "Governor"@.len());
        assert(h[1].len() != "Cur"@.len());
        assert(h[1].len() != "Min"@.len());
        assert(h[1].len() != "Max"@.len());
        assert(h[1].len() != "CPU min"@.len());
        assert(h[1].len() != "CPU max"@.len());
    } else if k == 2 {
        assert(h[2].len() != "CPU"@.len());
        assert(h[2].len() != "Online"@.len());
        assert(h[2].len() != "Cur"@.len());
        assert(h[2].len() != "Min"@.len());
        assert(h[2].len() != "Max"@.len());
        assert(h[2].len() != "CPU min"@.len());
        assert(h[2].len() != "CPU max"@.len());
    } else if k == 3 {
        assert(h[3][1] != "CPU"@[1]);
        assert(h[3].len() != "Online"@.len());
        assert(h[3].len() != "Governor"@.len());
        assert(h[3][0] != "Min"@[0]);
        assert(h[3][0] != "Max"@[0]);
        assert(h[3].len() != "CPU min"@.len());
        assert(h[3].len() != "CPU max"@.len());
    } else if k == 4 {
        assert(h[4][0] != "CPU"@[0]);
        assert(h[4].len() != "Online"@.len());
        assert(h[4].len() != "Governor"@.len());
        assert(h[4][0] != "Cur"@[0]);
        assert(h[4][1] != "Max"@[1]);
        assert(h[4].len() != "CPU min"@.len());
        assert(h[4].len() != "CPU max"@.len());
    } else if k == 5 {
        assert(h[5][0] != "CPU"@[0]);
        assert(h[5].len() != "Online"@.len());
        assert(h[5].len() != "Governor"@.len());
        assert(h[5][0] != "Cur"@[0]);
        assert(h[5][1] != "Min"@[1]);
        assert(h[5].len() != "CPU min"@.len());
        assert(h[5].len() != "CPU max"@.len());
    } else if k == 6 {
        assert(h[6].len() != "CPU"@.len());
        assert(h[6].len() != "Online"@.len());
        assert(h[6].len() != "Governor"@.len());
        assert(h[6].len() != "Cur"@.len());
        assert(h[6].len() != "Min"@.len());
        assert(h[6].len() != "Max"@.len());
        assert(h[6][5] != "CPU max"@[5]);
    } else if k == 7 {
        assert(h[7].len() != "CPU"@.len());
        assert(h[7].len() != "Online"@.len());
        assert(h[7].len() != "Governor"@.len());
        assert(h[7].len() != "Cur"@.len());
        assert(h[7].len() != "Min"@.len());
        assert(h[7].len() != "Max"@.len());
        assert(h[7][5] != "CPU min"@[5]);
    }
}

/// The cell of a frequency read in kHz: the dot when it was not read, else
/// the frequency in hertz.
pub open spec fn khz_cell(v: Option<u64>) -> CellV {
    match v {
        None => CellV::Dot,
        Some(x) => hz_cell((x * 1000) as u128),
    }
}

/// Each column of the intel_rapl table shows the field its heading names:
/// the zone's name under "Zone name", its label under "Zone", the power
/// limit and the time window of its `long_term` constraint under "Long lim"
/// and "Long win", those of its `short_term` constraint under "Short lim"
/// and "Short win", and under "Usage" its usage when it was sampled, else
/// the dot.
pub proof fn law_rapl_columns(d: Zone, sampled: Seq<ZoneId>, k: int)
    requires
        0 <= k < rapl_header().len(),
    ensures
        rapl_header()[k] == "Zone name"@ ==> rapl_row(d, sampled)[k] == opt_text_cell(opt_string(d.name)),
        rapl_header()[k] == "Zone"@ ==> rapl_row(d, sampled)[k] == CellV::Text(zone_label(d.id)),
        rapl_header()[k] == "Long lim"@ ==> rapl_row(d, sampled)[k] == opt_uw_cell(find_constraint(d.constraints@, "long_term"@)),
        rapl_header()[k] == "Short lim"@ ==> rapl_row(d, sampled)[k] == opt_uw_cell(find_constraint(d.constraints@, "short_term"@)),
        rapl_header()[k] == "Long win"@ ==> rapl_row(d, sampled)[k] == opt_window_cell(find_constraint(d.constraints@, "long_term"@)),
        rapl_header()[k] == "Short win"@ ==> rapl_row(d, sampled)[k] == opt_window_cell(find_constraint(d.constraints@, "short_term"@)),
        rapl_header()[k] == "Usage"@ ==> (sampled.contains(d.id) ==> rapl_row(d, sampled)[k] == CellV::Usage(d.id)),
        rapl_header()[k] == "Usage"@ ==> (!sampled.contains(d.id) ==> rapl_row(d, sampled)[k] == CellV::Dot),
{
    reveal_strlit("Zone name");
    reveal_strlit("Zone");
    reveal_strlit("Long lim");
    reveal_strlit("Short lim");
    reveal_strlit("Long win");
    reveal_strlit("Short win");
    reveal_strlit("Usage");
    let h = rapl_header();
    assert(h[0] == "Zone name"@ && h[1] == "Zone"@ && h[2] == "Long lim"@ && h[3] == "Short lim"@ && h[4] == "Long win"@ && h[5] == "Short win"@ && h[6] == "Usage"@);
    if k == 0 {
        assert(h[0].len() != "Zone"@.len());
        assert(h[0].len() != "Long lim"@.len());
        assert(h[0][0] != "Short lim"@[0]);
        assert(h[0].len() != "Long win"@.len());
        assert(h[0][0] != "Short win"@[0]);
        assert(h[0].len() != "Usage"@.len());
    } else if k == 1 {
        assert(h[1].len() != "Zone name"@.len());
        assert(h[1].len() != "Long lim"@.len());
        assert(h[1].len() != "Short lim"@.len());
        assert(h[1].len() != "Long win"@.len());
        assert(h[1].len() != "Short win"@.len());
        assert(h[1].len() != "Usage"@.len());
    } else if k == 2 {
        assert(h[2].len() != "Zone name"@.len());
        assert(h[2].len() != "Zone"@.len());
        assert(h[2].len() != "Short lim"@.len());
        assert(h[2][5] != "Long win"@[5]);
        assert(h[2].len() != "Short win"@.len());
        assert(h[2].len() != "Usage"@.len());
    } else if k == 3 {
        assert(h[3][0] != "Zone name"@[0]);
        assert(h[3].len() != "Zone"@.len());
        assert(h[3].len() != "Long lim"@.len());
        assert(h[3].len() != "Long win"@.len());
        assert(h[3][6] != "Short win"@[6]);
        assert(h[3].len() != "Usage"@.len());
    } else if k == 4 {
        assert(h[4].len() != "Zone name"@.len());
        assert(h[4].len() != "Zone"@.len());
        assert(h[4][5] != "Long lim"@[5]);
        assert(h[4].len() != "Short lim"@.len());
        assert(h[4].len() != "Short win"@.len());
        assert(h[4].len() != "Usage"@.len());
    } else if k == 5 {
        assert(h[5][0] != "Zone name"@[0]);
        assert(h[5].len() != "Zone"@.len());
        assert(h[5].len() != "Long lim"@.len());
        assert(h[5][6] != "Short lim"@[6]);
        assert(h[5].len() != "Long win"@.len());
        assert(h[5].len() != "Usage"@.len());
    } else if k == 6 {
        assert(h[6].len() != "Zone name"@.len());
        assert(h[6].len() != "Zone"@.len());
        assert(h[6].len() != "Long lim"@.len());
        assert(h[6].len() != "Short lim"@.len());
        assert(h[6].len() != "Long win"@.len());
        assert(h[6].len() != "Short win"@.len());
    }
}

/// Each column of the energy/performance table shows the field its heading
/// names: the cpu id under "CPU", the bias under "EP bias" and the
/// preference under "EP preference".
pub proof fn law_epb_epp_columns(ds: Seq<crate::intel_pstate::DeviceV>, i: int, k: int)
    requires
        0 <= i < ds.len(),
        0 <= k < epb_epp_header().len(),
    ensures
        epb_epp_header()[k] == "CPU"@ ==> epb_epp_rows(ds)[i][k] == CellV::Text(decimal_spec(ds[i].id as nat)),
        epb_epp_header()[k] == "EP bias"@ ==> epb_epp_rows(ds)[i][k] == opt_int_cell(ds[i].energy_perf_bias),
        epb_epp_header()[k] == "EP preference"@ ==> epb_epp_rows(ds)[i][k] == opt_text_cell(
            ds[i].energy_performance_preference,
        ),
{
    reveal_strlit("CPU");
    reveal_strlit("EP bias");
    reveal_strlit("EP preference");
    let h = epb_epp_header();
    assert(h[0] == "CPU"@ && h[1] == "EP bias"@ && h[2] == "EP preference"@);
    if k == 0 {
        assert(h[0].len() != "EP bias"@.len());
        assert(h[0].len() != "EP preference"@.len());
    } else if k == 1 {
        assert(h[1].len() != "CPU"@.len());
        assert(h[1].len() != "EP preference"@.len());
    } else if k == 2 {
        assert(h[2].len() != "CPU"@.len());
        assert(h[2].len() != "EP bias"@.len());
    }
}

} // verus!
