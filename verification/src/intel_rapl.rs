//! Intel RAPL: power limits and time windows of the power zones.

use vstd::prelude::*;

use crate::intel_pstate::strings;
use crate::sysfs::{join, parse_entry, push_spec};
use crate::text::{chars_eq, chars_of, decimal_spec, parse_u64, parse_u64_spec, split_chars, split_spec, string_of, text_of_u64};

verus! {

/// The sysfs directory of the power zones.
pub const ROOT: &'static str = "/sys/class/powercap";

/// The prefix of the directory entries of the zones.
pub const ZONE_PREFIX: &'static str = "intel-rapl:";

/// An intel_rapl zone: a package, or a zone within it.
#[derive(Clone, Copy, Debug, PartialEq, Eq, Structural, Hash)]
pub struct ZoneId {
    pub zone: u64,
    pub subzone: Option<u64>,
}

/// A power constraint of a zone, as read from sysfs.
#[derive(Clone, Debug)]
pub struct Constraint {
    pub name: Option<String>,
    pub power_limit_uw: Option<u64>,
    pub time_window_us: Option<u64>,
}

/// A zone, as read from sysfs.
#[derive(Clone, Debug)]
pub struct Device {
    pub id: ZoneId,
    pub name: Option<String>,
    pub constraints: Vec<Constraint>,
}

/// The name of a zone's directory: `intel-rapl:{zone}` or
/// `intel-rapl:{zone}:{subzone}`.
pub open spec fn zone_name_spec(id: ZoneId) -> Seq<char> {
    match id.subzone {
        Some(s) => ZONE_PREFIX@ + decimal_spec(id.zone as nat) + ":"@ + decimal_spec(s as nat),
        None => ZONE_PREFIX@ + decimal_spec(id.zone as nat),
    }
}

/// The directory of a zone.
pub fn zone_dir(id: ZoneId) -> (r: String)
    ensures
        r@ == push_spec(ROOT@, zone_name_spec(id)),
{
    let mut n = String::from_str(ZONE_PREFIX);
    n.append(text_of_u64(id.zone).as_str());
    match id.subzone {
        Some(s) => {
            n.append(":");
            n.append(text_of_u64(s).as_str());
        },
        None => {},
    }
    join(ROOT, n.as_str())
}

/// The attribute `constraint_{k}_{attr}` of a zone.
pub fn constraint_attr(id: ZoneId, k: u64, attr: &str) -> (r: String)
    ensures
        r@ == push_spec(
            push_spec(ROOT@, zone_name_spec(id)),
            "constraint_"@ + decimal_spec(k as nat) + "_"@ + attr@,
        ),
{
    let mut n = String::from_str("constraint_");
    n.append(text_of_u64(k).as_str());
    n.append("_");
    n.append(attr);
    join(zone_dir(id).as_str(), n.as_str())
}

/// The zone that a directory entry names, if it names one.
pub open spec fn parse_zone_spec(name: Seq<char>) -> Option<ZoneId> {
    let p = ZONE_PREFIX@;
    if p.len() <= name.len() && name.take(p.len() as int) == p {
        let parts = split_spec(name.skip(p.len() as int), ':');
        if parts.len() == 1 {
            match parse_u64_spec(parts[0]) {
                Some(z) => Some(ZoneId { zone: z, subzone: None }),
                None => None,
            }
        } else if parts.len() == 2 {
            match (parse_u64_spec(parts[0]), parse_u64_spec(parts[1])) {
                (Some(z), Some(s)) => Some(ZoneId { zone: z, subzone: Some(s) }),
                _ => None,
            }
        } else {
            None
        }
    } else {
        None
    }
}

/// The zone that a directory entry names, if it names one.
pub fn parse_zone(name: &str) -> (r: Option<ZoneId>)
    ensures
        r == parse_zone_spec(name@),
{
    let n = chars_of(name);
    let p = chars_of(ZONE_PREFIX);
    if p.len() > n.len() {
        return None;
    }
    let head = crate::text::sub_chars(&n, 0, p.len());
    if !chars_eq(&head, &p) {
        assert(n@.take(p@.len() as int) =~= head@);
        return None;
    }
    assert(n@.take(p@.len() as int) =~= head@);
    let rest = crate::text::sub_chars(&n, p.len(), n.len());
    assert(rest@ =~= n@.skip(p@.len() as int));
    let parts = split_chars(&rest, ':');
    if parts.len() == 1 {
        match parse_u64(&parts[0]) {
            Some(z) => Some(ZoneId { zone: z, subzone: None }),
            None => None,
        }
    } else if parts.len() == 2 {
        match (parse_u64(&parts[0]), parse_u64(&parts[1])) {
            (Some(z), Some(s)) => Some(ZoneId { zone: z, subzone: Some(s) }),
            _ => None,
        }
    } else {
        None
    }
}

/// The order of zones: by package, a package before its sub-zones, then by
/// sub-zone.
pub open spec fn zone_before(a: ZoneId, b: ZoneId) -> bool {
    a.zone < b.zone || (a.zone == b.zone && match (a.subzone, b.subzone) {
        (None, Some(_)) => true,
        (Some(x), Some(y)) => x < y,
        _ => false,
    })
}

/// Whether `s` is in increasing zone order.
pub open spec fn zones_increasing(s: Seq<ZoneId>) -> bool {
    forall|i: int, j: int| 0 <= i < j < s.len() ==> zone_before(s[i], s[j])
}

/// Whether `a` comes before `b`.
fn before(a: ZoneId, b: ZoneId) -> (r: bool)
    ensures
        r == zone_before(a, b),
{
    a.zone < b.zone || (a.zone == b.zone && match (a.subzone, b.subzone) {
        (None, Some(_)) => true,
        (Some(x), Some(y)) => x < y,
        _ => false,
    })
}

/// Inserts `x` into the increasing `v`, unless it is there already.
fn insert_zone(v: &mut Vec<ZoneId>, x: ZoneId)
    requires
        zones_increasing(old(v)@),
    ensures
        zones_increasing(final(v)@),
        final(v)@.to_set() == old(v)@.to_set().insert(x),
{
    let n = v.len();
    let mut i: usize = 0;
    while i < n && before(v[i], x)
        invariant
            n == v.len(),
            v@ == old(v)@,
            i <= n,
            zones_increasing(v@),
            forall|k: int| 0 <= k < i ==> zone_before(v@[k], x),
        decreases n - i,
    {
        i = i + 1;
    }
    if i < n && v[i] == x {
        assert(v@.to_set() =~= old(v)@.to_set().insert(x)) by {
            assert(v@.contains(x));
        }
        return;
    }
    let ghost before_v = v@;
    proof {
        if i < n {
            assert(!zone_before(before_v[i as int], x));
            assert(before_v[i as int] != x);
            assert(zone_before(x, before_v[i as int]));
        }
    }
    v.insert(i, x);
    proof {
        before_v.insert_ensures(i as int, x);
        assert forall|a: int, b: int| 0 <= a < b < v@.len() implies zone_before(v@[a], v@[b]) by {
            if b < i {
            } else if b == i {
            } else if a < i {
                assert(v@[b] == before_v[b - 1]);
                assert(zone_before(before_v[a], x));
                assert(zone_before(x, before_v[i as int]));
                if b - 1 > i {
                    assert(zone_before(before_v[i as int], before_v[b - 1]));
                }
            } else if a == i {
                assert(v@[b] == before_v[b - 1]);
                assert(zone_before(x, before_v[i as int]));
                if b - 1 > i {
                    assert(zone_before(before_v[i as int], before_v[b - 1]));
                }
            } else {
                assert(v@[a] == before_v[a - 1]);
                assert(v@[b] == before_v[b - 1]);
            }
        }
        assert forall|y: ZoneId| v@.contains(y) <==> (before_v.contains(y) || y == x) by {
            if v@.contains(y) {
                let k = choose|k: int| 0 <= k < v@.len() && v@[k] == y;
                if k < i {
                    assert(before_v[k] == y);
                } else if k > i {
                    assert(before_v[k - 1] == y);
                }
            }
            if before_v.contains(y) {
                let k = choose|k: int| 0 <= k < before_v.len() && before_v[k] == y;
                if k < i {
                    assert(v@[k] == y);
                } else {
                    assert(v@[k + 1] == y);
                }
            }
            if y == x {
                assert(v@[i as int] == y);
            }
        }
        assert(v@.to_set() =~= before_v.to_set().insert(x));
    }
}

/// The zones that a listing of the powercap directory names.
pub open spec fn listed_zones(names: Seq<Seq<char>>) -> Set<ZoneId>
    decreases names.len(),
{
    if names.len() == 0 {
        Set::empty()
    } else {
        match parse_zone_spec(names.last()) {
            Some(z) => listed_zones(names.drop_last()).insert(z),
            None => listed_zones(names.drop_last()),
        }
    }
}

/// The zones of a listing of the powercap directory, each once, in zone
/// order.
pub fn zone_ids(names: &Vec<String>) -> (r: Vec<ZoneId>)
    ensures
        zones_increasing(r@),
        r@.to_set() == listed_zones(strings(names@)),
{
    let ghost all = strings(names@);
    let mut out: Vec<ZoneId> = Vec::new();
    let mut i: usize = 0;
    assert(out@.to_set() =~= listed_zones(all.take(0)));
    while i < names.len()
        invariant
            i <= names.len(),
            all == strings(names@),
            zones_increasing(out@),
            out@.to_set() == listed_zones(all.take(i as int)),
        decreases names.len() - i,
    {
        assert(all.take(i + 1).drop_last() =~= all.take(i as int));
        assert(all.take(i + 1).last() == names@[i as int]@);
        match parse_zone(names[i].as_str()) {
            Some(z) => insert_zone(&mut out, z),
            None => {},
        }
        i = i + 1;
    }
    assert(all.take(all.len() as int) =~= all);
    out
}

/// Whether `o` is the name `name`.
pub open spec fn named(o: Option<String>, name: Seq<char>) -> bool {
    o matches Some(m) && m@ == name
}

/// The position of the first of `names` that is `name`.
pub fn constraint_index(names: &Vec<Option<String>>, name: &str) -> (r: Option<usize>)
    ensures
        match r {
            Some(k) => k < names.len() && named(names@[k as int], name@) && forall|j: int|
                0 <= j < k ==> !named(#[trigger] names@[j], name@),
            None => forall|j: int| 0 <= j < names.len() ==> !named(#[trigger] names@[j], name@),
        },
{
    let n = chars_of(name);
    let mut k: usize = 0;
    while k < names.len()
        invariant
            k <= names.len(),
            n@ == name@,
            forall|j: int| 0 <= j < k ==> !named(#[trigger] names@[j], name@),
        decreases names.len() - k,
    {
        match &names[k] {
            Some(m) => {
                if chars_eq(&chars_of(m.as_str()), &n) {
                    return Some(k);
                }
            },
            None => {},
        }
        k = k + 1;
    }
    None
}

// ---------------------------------------------------------------- Energy samples

/// How many energy samples a zone's sampler keeps.
pub const SAMPLE_COUNT: usize = 11;

/// The window after `v` is sampled: the last `SAMPLE_COUNT` samples of `w`
/// followed by `v`.
pub open spec fn pushed_window(w: Seq<u64>, v: u64) -> Seq<u64> {
    let all = w.push(v);
    if all.len() > SAMPLE_COUNT {
        all.skip(all.len() - SAMPLE_COUNT)
    } else {
        all
    }
}

/// Adds the sample `v` to the window, dropping the oldest samples beyond
/// `SAMPLE_COUNT`.
pub fn push_sample(window: &mut Vec<u64>, v: u64)
    requires
        old(window)@.len() <= SAMPLE_COUNT,
    ensures
        final(window)@ == pushed_window(old(window)@, v),
        final(window)@.len() <= SAMPLE_COUNT,
{
    window.push(v);
    if window.len() > SAMPLE_COUNT {
        let ghost all = window@;
        window.remove(0);
        assert(window@ =~= all.skip(all.len() - SAMPLE_COUNT));
    }
}

/// Whether no sample is below the one before it.
pub open spec fn never_decreasing(s: Seq<u64>) -> bool {
    forall|i: int| 0 < i < s.len() ==> s[i - 1] <= #[trigger] s[i]
}

/// Whether no sample is below the one before it (the energy counter did not
/// wrap around between them).
pub fn samples_never_decrease(s: &Vec<u64>) -> (r: bool)
    ensures
        r == never_decreasing(s@),
{
    let mut i: usize = 1;
    while i < s.len()
        invariant
            1 <= i,
            forall|k: int| 0 < k < i && k < s.len() ==> s@[k - 1] <= #[trigger] s@[k],
        decreases s.len() - i,
    {
        if s[i - 1] > s[i] {
            return false;
        }
        i = i + 1;
    }
    true
}

/// The energy used between each sample and the next.
pub open spec fn deltas_spec(s: Seq<u64>) -> Seq<u64>
    recommends
        never_decreasing(s),
{
    Seq::new((if s.len() == 0 { 0 } else { s.len() - 1 }) as nat, |i: int| (s[i + 1] - s[i]) as u64)
}

/// The energy used between each sample and the next.
pub fn deltas(s: &Vec<u64>) -> (r: Vec<u64>)
    requires
        never_decreasing(s@),
    ensures
        r@ == deltas_spec(s@),
{
    let mut out: Vec<u64> = Vec::new();
    if s.len() < 2 {
        assert(out@ =~= deltas_spec(s@));
        return out;
    }
    let mut i: usize = 1;
    assert(out@ =~= deltas_spec(s@.take(1)));
    while i < s.len()
        invariant
            1 <= i <= s.len(),
            never_decreasing(s@),
            out@ =~= deltas_spec(s@.take(i as int)),
        decreases s.len() - i,
    {
        assert(s@[i as int - 1] <= s@[i as int]);
        out.push(s[i] - s[i - 1]);
        i = i + 1;
        assert(out@ =~= deltas_spec(s@.take(i as int)));
    }
    assert(s@.take(s.len() as int) =~= s@);
    out
}

/// Whether so few samples were taken that the largest difference stands for
/// the usage, rather than their mean.
pub open spec fn uses_largest_spec(n: nat) -> bool {
    n < SAMPLE_COUNT / 2 - 1
}

/// Whether `n` samples are so few that the largest difference stands for
/// the usage, rather than their mean.
pub fn uses_largest(n: usize) -> (r: bool)
    ensures
        r == uses_largest_spec(n as nat),
{
    n < SAMPLE_COUNT / 2 - 1
}

/// The largest of `v`, if any.
pub fn largest(v: &Vec<u64>) -> (r: Option<u64>)
    ensures
        match r {
            Some(m) => (exists|i: int| 0 <= i < v@.len() && v@[i] == m) && forall|i: int|
                0 <= i < v@.len() ==> #[trigger] v@[i] <= m,
            None => v@.len() == 0,
        },
{
    if v.len() == 0 {
        return None;
    }
    let mut m = v[0];
    let mut k: usize = 0;
    let mut i: usize = 1;
    while i < v.len()
        invariant
            1 <= i <= v.len(),
            k < i,
            m == v@[k as int],
            forall|j: int| 0 <= j < i ==> #[trigger] v@[j] <= m,
        decreases v.len() - i,
    {
        if v[i] > m {
            m = v[i];
            k = i;
        }
        i = i + 1;
    }
    Some(m)
}

} // verus!
