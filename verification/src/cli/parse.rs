//! Parsers for command-line and profile values: booleans, id lists, toggles,
//! card ids, durations, frequencies and powers.

use vstd::prelude::*;

use crate::cli::group::{card_views, CardId, CardIdV};
use crate::cli::Error;
use crate::text::{
    ascii_lower_char, ascii_lowercase, lowercase, to_lowercase,
    all_digits, chars_eq_str, chars_of, contains_char, has_char, is_digit, join_spec,
    parse_u64, parse_u64_spec, split_chars, split_spec, sub_chars, texts, trim_end_char,
    trim_end_spec, string_of,
};

verus! {

// ---------------------------------------------------------------- numbers and units

/// The position of the first character that is neither a digit nor `.`:
/// where a unit suffix starts.
pub open spec fn start_of_unit_spec(s: Seq<char>) -> Option<int> {
    if exists|i: int| 0 <= i < s.len() && !(#[trigger] is_digit(s[i]) || s[i] == '.') {
        Some(choose|i: int|
            0 <= i < s.len() && !(#[trigger] is_digit(s[i]) || s[i] == '.') && forall|j: int|
                0 <= j < i ==> (is_digit(s[j]) || s[j] == '.'))
    } else {
        None
    }
}

/// Returns the index of the first character of `s` that is neither an ASCII
/// digit nor `.`, or `None` when there is none.
pub fn start_of_unit(s: &[char]) -> (r: Option<usize>)
    ensures
        match r {
            Some(i) => {
                &&& i < s@.len()
                &&& !(is_digit(s@[i as int]) || s@[i as int] == '.')
                &&& forall|j: int| 0 <= j < i ==> (is_digit(s@[j]) || s@[j] == '.')
            },
            None => forall|j: int| 0 <= j < s@.len() ==> (is_digit(s@[j]) || s@[j] == '.'),
        },
        r matches Some(i) ==> start_of_unit_spec(s@) == Some(i as int),
        r is None <==> start_of_unit_spec(s@) is None,
{
    let mut i: usize = 0;
    while i < s.len()
        invariant
            i <= s.len(),
            forall|j: int| 0 <= j < i ==> (is_digit(s@[j]) || s@[j] == '.'),
        decreases s.len() - i,
    {
        let c = s[i];
        if !(('0' <= c && c <= '9') || c == '.') {
            proof {
                assert(!(is_digit(s@[i as int]) || s@[i as int] == '.'));
                assert(exists|k: int|
                    0 <= k < s@.len() && !(#[trigger] is_digit(s@[k]) || s@[k] == '.') && forall|j: int|
                        0 <= j < k ==> (is_digit(s@[j]) || s@[j] == '.'));
                let k = choose|k: int|
                    0 <= k < s@.len() && !(#[trigger] is_digit(s@[k]) || s@[k] == '.') && forall|j: int|
                        0 <= j < k ==> (is_digit(s@[j]) || s@[j] == '.');
                if k < i {
                    assert(is_digit(s@[k]) || s@[k] == '.');
                } else if k > i {
                    assert(is_digit(s@[i as int]) || s@[i as int] == '.');
                }
            }
            return Some(i);
        }
        i = i + 1;
    }
    proof {
        assert forall|k: int| 0 <= k < s@.len() implies (#[trigger] is_digit(s@[k]) || s@[k] == '.') by {}
    }
    None
}

/// Number of `.` characters in `s`.
pub open spec fn count_dots(s: Seq<char>) -> nat
    decreases s.len(),
{
    if s.len() == 0 {
        0
    } else {
        count_dots(s.drop_last()) + if s.last() == '.' { 1nat } else { 0nat }
    }
}

/// Whether `s` has some ASCII digit.
pub open spec fn has_digit(s: Seq<char>) -> bool {
    exists|i: int| 0 <= i < s.len() && #[trigger] is_digit(s[i])
}

/// What `f64::from_str` accepts among texts made only of digits and dots:
/// at least one digit and at most one dot (`1`, `1.`, `.5`, `1.5`).
pub open spec fn is_decimal(s: Seq<char>) -> bool {
    &&& forall|i: int| 0 <= i < s.len() ==> (#[trigger] is_digit(s[i]) || s[i] == '.')
    &&& has_digit(s)
    &&& count_dots(s) <= 1
}

/// Whether `s`, a text of digits and dots, is a decimal number as `is_decimal`
/// says.
pub fn check_decimal(s: &[char]) -> (r: bool)
    requires
        forall|i: int| 0 <= i < s@.len() ==> (#[trigger] is_digit(s@[i]) || s@[i] == '.'),
    ensures
        r == is_decimal(s@),
{
    let mut dots: usize = 0;
    let mut digit = false;
    let mut i: usize = 0;
    while i < s.len()
        invariant
            i <= s.len(),
            forall|k: int| 0 <= k < s@.len() ==> (#[trigger] is_digit(s@[k]) || s@[k] == '.'),
            dots as nat == count_dots(s@.subrange(0, i as int)),
            dots <= i,
            digit == has_digit(s@.subrange(0, i as int)),
        decreases s.len() - i,
    {
        assert(s@.subrange(0, i + 1).drop_last() =~= s@.subrange(0, i as int));
        if s[i] == '.' {
            dots = dots + 1;
        } else {
            digit = true;
            assert(is_digit(s@[i as int]) || s@[i as int] == '.');
            assert(is_digit(s@.subrange(0, i + 1)[i as int]));
        }
        proof {
            if !digit {
                assert forall|k: int| 0 <= k < i + 1 implies !is_digit(#[trigger] s@.subrange(0, i + 1)[k]) by {
                    if k < i {
                        assert(s@.subrange(0, i + 1)[k] == s@.subrange(0, i as int)[k]);
                    }
                }
            } else if s@[i as int] == '.' {
                let k = choose|k: int| 0 <= k < i && #[trigger] is_digit(s@.subrange(0, i as int)[k]);
                assert(is_digit(s@.subrange(0, i + 1)[k]));
            }
        }
        i = i + 1;
    }
    assert(s@.subrange(0, s@.len() as int) =~= s@);
    digit && dots <= 1
}

/// Units of time for `DurationStr`.
#[derive(Clone, Copy, Debug, PartialEq, Eq, Structural)]
pub enum TimeUnit {
    Nanos,
    Micros,
    Millis,
    Secs,
}

/// Units of frequency for `FrequencyStr`.
#[derive(Clone, Copy, Debug, PartialEq, Eq, Structural)]
pub enum FrequencyUnit {
    Hertz,
    Kilohertz,
    Megahertz,
    Gigahertz,
    Terahertz,
}

/// Units of power for `PowerStr`.
#[derive(Clone, Copy, Debug, PartialEq, Eq, Structural)]
pub enum PowerUnit {
    Microwatts,
    Milliwatts,
    Watts,
    Kilowatts,
}

// ---------------------------------------------------------------- BoolStr

/// A boolean written as `0`, `1`, `false` or `true`.
#[derive(Clone, Copy, Debug, PartialEq, Eq, Structural)]
pub struct BoolStr(pub bool);

/// The boolean that `s` denotes, if any.
pub open spec fn bool_str_spec(s: Seq<char>) -> Option<bool> {
    if s == "0"@ || s == "false"@ {
        Some(false)
    } else if s == "1"@ || s == "true"@ {
        Some(true)
    } else {
        None
    }
}

impl BoolStr {
    /// Parses `0`, `1`, `false` or `true`; anything else is an error.
    pub fn from_str(s: &str) -> (r: Result<Self, Error>)
        ensures
            match bool_str_spec(s@) {
                Some(b) => r == Ok::<Self, Error>(BoolStr(b)),
                None => r matches Err(e) && e.is_parse_value("Expected 0, 1, false, or true"@),
            },
    {
        let c = chars_of(s);
        if chars_eq_str(&c, "0") || chars_eq_str(&c, "false") {
            Ok(BoolStr(false))
        } else if chars_eq_str(&c, "1") || chars_eq_str(&c, "true") {
            Ok(BoolStr(true))
        } else {
            Err(Error::parse_value("Expected 0, 1, false, or true"))
        }
    }

    /// The boolean held.
    pub fn into_bool(self) -> (r: bool)
        ensures
            r == self.0,
    {
        self.0
    }
}


// ---------------------------------------------------------------- Indices

/// Why an id list could not be parsed.
pub enum IndicesFault {
    /// A single id is not an integer.
    IdNotInteger,
    /// The start of a range is not an integer.
    StartNotInteger,
    /// The end of a range is not an integer.
    EndNotInteger,
    /// An item has more than one `-`.
    NotAList,
}

/// The message for each fault.
pub open spec fn indices_message(f: IndicesFault) -> Seq<char> {
    match f {
        IndicesFault::IdNotInteger => "Index is not an integer"@,
        IndicesFault::StartNotInteger => "Start of range is not an integer"@,
        IndicesFault::EndNotInteger => "End of range is not an integer"@,
        IndicesFault::NotAList => "Expected comma-delimited list of integers and/or integer ranges"@,
    }
}

/// The ids that one item (`7` or `3-5`) of an id list denotes.
pub open spec fn item_ids(item: Seq<char>) -> Result<Set<u64>, IndicesFault> {
    let parts = split_spec(item, '-');
    if parts.len() == 1 {
        match parse_u64_spec(parts[0]) {
            Some(v) => Ok(set![v]),
            None => Err(IndicesFault::IdNotInteger),
        }
    } else if parts.len() == 2 {
        match parse_u64_spec(parts[0]) {
            None => Err(IndicesFault::StartNotInteger),
            Some(a) => match parse_u64_spec(parts[1]) {
                None => Err(IndicesFault::EndNotInteger),
                Some(b) => Ok(Set::new(|i: u64| a <= i && i <= b)),
            },
        }
    } else {
        Err(IndicesFault::NotAList)
    }
}

/// The union of the ids of `items`, or the fault of the first item that has one.
pub open spec fn items_ids(items: Seq<Seq<char>>) -> Result<Set<u64>, IndicesFault>
    decreases items.len(),
{
    if items.len() == 0 {
        Ok(Set::empty())
    } else {
        match items_ids(items.drop_last()) {
            Err(f) => Err(f),
            Ok(a) => match item_ids(items.last()) {
                Err(f) => Err(f),
                Ok(b) => Ok(a.union(b)),
            },
        }
    }
}

/// An item of an id list is one id (`7`, the set of just that id) or a
/// range of ids (`3-5`, every id from the start to the end, both included).
pub proof fn law_item_ids(item: Seq<char>)
    ensures
        split_spec(item, '-').len() == 1 && parse_u64_spec(split_spec(item, '-')[0]) is Some ==> (item_ids(item) matches Ok(ids)
            && forall|x: u64| ids.contains(x) <==> x == parse_u64_spec(split_spec(item, '-')[0])->0),
        split_spec(item, '-').len() == 2 && parse_u64_spec(split_spec(item, '-')[0]) is Some && parse_u64_spec(
            split_spec(item, '-')[1],
        ) is Some ==> (item_ids(item) matches Ok(ids) && forall|x: u64|
            ids.contains(x) <==> parse_u64_spec(split_spec(item, '-')[0])->0 <= x && x <= parse_u64_spec(
                split_spec(item, '-')[1],
            )->0),
{
}

/// The ids of an id list are those of its items together: each item's ids
/// are among them, and each of them is an id of some item.
pub proof fn law_items_ids_union(items: Seq<Seq<char>>)
    ensures
        items_ids(items) matches Ok(ids) ==> forall|k: int| 0 <= k < items.len() ==> (item_ids(#[trigger] items[k]) matches Ok(
            one,
        ) && one.subset_of(ids)),
        items_ids(items) matches Ok(ids) ==> forall|x: u64| ids.contains(x) ==> exists|k: int|
            0 <= k < items.len() && (item_ids(#[trigger] items[k]) matches Ok(one) && one.contains(x)),
    decreases items.len(),
{
    if items.len() > 0 {
        let f = items.drop_last();
        law_items_ids_union(f);
        if items_ids(items) is Ok {
            let ids = items_ids(items)->Ok_0;
            let a = items_ids(f)->Ok_0;
            let b = item_ids(items.last())->Ok_0;
            assert(ids == a.union(b));
            assert forall|k: int| 0 <= k < items.len() implies (item_ids(#[trigger] items[k]) matches Ok(one)
                && one.subset_of(ids)) by {
                if k < f.len() {
                    assert(f[k] == items[k]);
                }
            }
            assert forall|x: u64| ids.contains(x) implies exists|k: int|
                0 <= k < items.len() && (item_ids(#[trigger] items[k]) matches Ok(one) && one.contains(x)) by {
                if a.contains(x) {
                    let k = choose|k: int| 0 <= k < f.len() && (item_ids(#[trigger] f[k]) matches Ok(one) && one.contains(x));
                    assert(f[k] == items[k]);
                } else {
                    assert(items[items.len() - 1] == items.last());
                }
            }
        }
    }
}

/// The items of an id list: trailing commas are ignored, then the text is
/// split at each comma.
pub open spec fn indices_items(s: Seq<char>) -> Seq<Seq<char>> {
    split_spec(trim_end_spec(s, ','), ',')
}

/// The set of ids that the list `s` denotes (`0,2,4-6`).
pub open spec fn indices_spec(s: Seq<char>) -> Result<Set<u64>, IndicesFault> {
    items_ids(indices_items(s))
}

/// Whether `s` is strictly increasing.
pub open spec fn strictly_increasing(s: Seq<u64>) -> bool {
    forall|i: int, j: int| 0 <= i < j < s.len() ==> s[i] < s[j]
}

/// A strictly increasing sequence is fixed by the set of its items: two such
/// sequences with the same items are equal.
pub proof fn law_increasing_determined_by_set(a: Seq<u64>, b: Seq<u64>)
    requires
        strictly_increasing(a),
        strictly_increasing(b),
        a.to_set() == b.to_set(),
    ensures
        a == b,
    decreases a.len(),
{
    if a.len() == 0 {
        if b.len() > 0 {
            assert(b.to_set().contains(b[0]));
        }
        assert(a =~= b);
    } else {
        assert(a.to_set().contains(a[0]));
        assert(b.len() > 0);
        assert(b.to_set().contains(b[0]));
        let i = choose|i: int| 0 <= i < a.len() && a[i] == b[0];
        let j = choose|j: int| 0 <= j < b.len() && b[j] == a[0];
        if i > 0 {
            assert(a[0] < a[i]);
        }
        if j > 0 {
            assert(b[0] < b[j]);
        }
        assert(a[0] == b[0]);
        let ta = a.drop_first();
        let tb = b.drop_first();
        assert(strictly_increasing(ta)) by {
            assert forall|x: int, y: int| 0 <= x < y < ta.len() implies ta[x] < ta[y] by {
                assert(ta[x] == a[x + 1] && ta[y] == a[y + 1]);
            }
        }
        assert(strictly_increasing(tb)) by {
            assert forall|x: int, y: int| 0 <= x < y < tb.len() implies tb[x] < tb[y] by {
                assert(tb[x] == b[x + 1] && tb[y] == b[y + 1]);
            }
        }
        assert forall|x: u64| ta.to_set().contains(x) implies tb.to_set().contains(x) by {
            let k = choose|k: int| 0 <= k < ta.len() && ta[k] == x;
            assert(a[k + 1] == x);
            assert(a.to_set().contains(x));
            let m = choose|m: int| 0 <= m < b.len() && b[m] == x;
            assert(a[0] < a[k + 1]);
            assert(m != 0);
            assert(tb[m - 1] == x);
        }
        assert forall|x: u64| tb.to_set().contains(x) implies ta.to_set().contains(x) by {
            let k = choose|k: int| 0 <= k < tb.len() && tb[k] == x;
            assert(b[k + 1] == x);
            assert(b.to_set().contains(x));
            let m = choose|m: int| 0 <= m < a.len() && a[m] == x;
            assert(b[0] < b[k + 1]);
            assert(m != 0);
            assert(ta[m - 1] == x);
        }
        assert(ta.to_set() =~= tb.to_set());
        law_increasing_determined_by_set(ta, tb);
        assert(ta == tb);
        assert(a.len() == b.len());
        assert forall|x: int| 0 <= x < a.len() implies a[x] == b[x] by {
            if x > 0 {
                assert(a[x] == ta[x - 1]);
                assert(b[x] == tb[x - 1]);
                assert(ta[x - 1] == tb[x - 1]);
            }
        }
        assert(a =~= b);
    }
}

/// Inserts `x` into the strictly increasing `v`, unless it is there already.
pub fn insert_sorted(v: &mut Vec<u64>, x: u64)
    requires
        strictly_increasing(old(v)@),
    ensures
        strictly_increasing(final(v)@),
        final(v)@.to_set() == old(v)@.to_set().insert(x),
{
    let n = v.len();
    if n == 0 || v[n - 1] < x {
        v.push(x);
        assert(v@.to_set() =~= old(v)@.to_set().insert(x)) by {
            assert(v@ == old(v)@.push(x));
            assert forall|y: u64| v@.contains(y) <==> (old(v)@.contains(y) || y == x) by {
                if v@.contains(y) {
                    let k = choose|k: int| 0 <= k < v@.len() && v@[k] == y;
                    if k < n {
                        assert(old(v)@[k] == y);
                    }
                }
                if old(v)@.contains(y) {
                    let k = choose|k: int| 0 <= k < old(v)@.len() && old(v)@[k] == y;
                    assert(v@[k] == y);
                }
                if y == x {
                    assert(v@[n as int] == y);
                }
            }
        }
        return;
    }
    let mut i: usize = 0;
    while i < n && v[i] < x
        invariant
            n == v.len(),
            v@ == old(v)@,
            i <= n,
            strictly_increasing(v@),
            forall|k: int| 0 <= k < i ==> v@[k] < x,
        decreases n - i,
    {
        i = i + 1;
    }
    if i < n && v[i] == x {
        assert(v@.to_set() =~= old(v)@.to_set().insert(x)) by {
            assert(v@.contains(x));
        }
        return;
    }
    let ghost before = v@;
    v.insert(i, x);
    proof {
        before.insert_ensures(i as int, x);
        assert forall|a: int, b: int| 0 <= a < b < v@.len() implies v@[a] < v@[b] by {
            if b < i {
            } else if b == i {
            } else if a < i {
                assert(v@[b] == before[b - 1]);
                assert(before[b - 1] >= x);
            } else if a == i {
                assert(v@[b] == before[b - 1]);
            } else {
                assert(v@[a] == before[a - 1]);
                assert(v@[b] == before[b - 1]);
            }
        }
        assert forall|y: u64| v@.contains(y) <==> (before.contains(y) || y == x) by {
            if v@.contains(y) {
                let k = choose|k: int| 0 <= k < v@.len() && v@[k] == y;
                if k < i {
                    assert(before[k] == y);
                } else if k > i {
                    assert(before[k - 1] == y);
                }
            }
            if before.contains(y) {
                let k = choose|k: int| 0 <= k < before.len() && before[k] == y;
                if k < i {
                    assert(v@[k] == y);
                } else {
                    assert(v@[k + 1] == y);
                }
            }
            if y == x {
                assert(v@[i as int] == y);
            }
        }
        assert(v@.to_set() =~= before.to_set().insert(x));
    }
}

/// The set of a one-longer prefix is the set of the prefix with the next element.
pub proof fn lemma_prefix_to_set(s: Seq<u64>, j: int)
    requires
        0 <= j < s.len(),
    ensures
        s.subrange(0, j + 1).to_set() == s.subrange(0, j).to_set().insert(s[j]),
{
    let a = s.subrange(0, j);
    let b = s.subrange(0, j + 1);
    assert(b =~= a.push(s[j]));
    assert forall|x: u64| b.contains(x) <==> (a.contains(x) || x == s[j]) by {
        if b.contains(x) {
            let k = choose|k: int| 0 <= k < b.len() && b[k] == x;
            if k < j {
                assert(a[k] == x);
            }
        }
        if a.contains(x) {
            let k = choose|k: int| 0 <= k < a.len() && a[k] == x;
            assert(b[k] == x);
        }
        if x == s[j] {
            assert(b[j] == x);
        }
    }
    assert(b.to_set() =~= a.to_set().insert(s[j]));
}

/// A sorted list of distinct ids, parsed from a list such as `0,2,4-6`.
#[derive(Clone, Debug, PartialEq, Eq)]
pub struct Indices(pub Vec<u64>);

impl Indices {
    /// Parses a comma-delimited list of ids and inclusive id ranges. Trailing
    /// commas are ignored. The result holds each id once, in increasing order.
    pub fn from_str(s: &str) -> (r: Result<Self, Error>)
        ensures
            match indices_spec(s@) {
                Ok(ids) => r matches Ok(v) && strictly_increasing(v.0@) && v.0@.to_set() == ids,
                Err(f) => r matches Err(e) && e.is_parse_value(indices_message(f)),
            },
    {
        let chars = chars_of(s);
        Self::from_chars(&chars)
    }

    /// `from_str` on the characters of the text.
    pub fn from_chars(chars: &[char]) -> (r: Result<Self, Error>)
        ensures
            match indices_spec(chars@) {
                Ok(ids) => r matches Ok(v) && strictly_increasing(v.0@) && v.0@.to_set() == ids,
                Err(f) => r matches Err(e) && e.is_parse_value(indices_message(f)),
            },
    {
        let trimmed = trim_end_char(chars, ',');
        let items = split_chars(&trimmed, ',');
        let ghost all = texts(items@);
        let mut ids: Vec<u64> = Vec::new();
        let mut k: usize = 0;
        assert(all.take(0) =~= Seq::<Seq<char>>::empty());
        assert(ids@.to_set() =~= Set::<u64>::empty());
        while k < items.len()
            invariant
                k <= items.len(),
                all == texts(items@),
                all == indices_items(chars@),
                strictly_increasing(ids@),
                items_ids(all.take(k as int)) == Ok::<Set<u64>, IndicesFault>(ids@.to_set()),
            decreases items.len() - k,
        {
            let ghost prev = ids@.to_set();
            assert(all.take(k + 1).drop_last() =~= all.take(k as int));
            assert(all.take(k + 1).last() == items@[k as int]@);
            let parts = split_chars(items[k].as_slice(), '-');
            if parts.len() == 1 {
                match parse_u64(parts[0].as_slice()) {
                    Some(v) => {
                        insert_sorted(&mut ids, v);
                        assert(ids@.to_set() =~= prev.union(set![v]));
                    },
                    None => {
                        proof { lemma_fault_stops(all, k as int); }
                        return Err(Error::parse_value("Index is not an integer"));
                    },
                }
            } else if parts.len() == 2 {
                let a = match parse_u64(parts[0].as_slice()) {
                    Some(a) => a,
                    None => {
                        proof { lemma_fault_stops(all, k as int); }
                        return Err(Error::parse_value("Start of range is not an integer"));
                    },
                };
                let b = match parse_u64(parts[1].as_slice()) {
                    Some(b) => b,
                    None => {
                        proof { lemma_fault_stops(all, k as int); }
                        return Err(Error::parse_value("End of range is not an integer"));
                    },
                };
                if a <= b {
                    let mut i = a;
                    loop
                        invariant_except_break
                            a <= i <= b,
                            strictly_increasing(ids@),
                            ids@.to_set() == prev.union(Set::new(|j: u64| a <= j && j < i)),
                        ensures
                            strictly_increasing(ids@),
                            ids@.to_set() == prev.union(Set::new(|j: u64| a <= j && j <= b)),
                        decreases b - i,
                    {
                        insert_sorted(&mut ids, i);
                        if i == b {
                            assert(ids@.to_set() =~= prev.union(Set::new(|j: u64| a <= j && j <= b)));
                            break;
                        }
                        assert(ids@.to_set() =~= prev.union(Set::new(|j: u64| a <= j && j < i + 1)));
                        i = i + 1;
                    }
                } else {
                    assert(ids@.to_set() =~= prev.union(Set::new(|j: u64| a <= j && j <= b)));
                }
            } else {
                proof { lemma_fault_stops(all, k as int); }
                return Err(Error::parse_value(
                    "Expected comma-delimited list of integers and/or integer ranges",
                ));
            }
            k = k + 1;
        }
        assert(all.take(all.len() as int) =~= all);
        Ok(Indices(ids))
    }

    /// The ids, in increasing order.
    pub fn into_vec(self) -> (r: Vec<u64>)
        ensures
            r@ == self.0@,
    {
        self.0
    }
}

/// When the items before `k` are fine and item `k` has a fault, the whole list
/// has that fault.
pub proof fn lemma_fault_stops(items: Seq<Seq<char>>, k: int)
    requires
        0 <= k < items.len(),
        items_ids(items.take(k)) is Ok,
        item_ids(items[k]) is Err,
    ensures
        items_ids(items) == Err::<Set<u64>, IndicesFault>(item_ids(items[k])->Err_0),
    decreases items.len(),
{
    if k + 1 < items.len() {
        assert(items.drop_last().take(k) =~= items.take(k));
        lemma_fault_stops(items.drop_last(), k);
    } else {
        assert(items.drop_last() =~= items.take(k));
    }
}


// ---------------------------------------------------------------- Toggles

/// The toggles that `s` denotes: each `0` or `1` is an (index, state) pair for
/// its position; `_` and `-` skip a position.
pub open spec fn toggles_spec(s: Seq<char>) -> Option<Seq<(u64, bool)>>
    decreases s.len(),
{
    if s.len() == 0 {
        Some(Seq::empty())
    } else {
        match toggles_spec(s.drop_last()) {
            None => None,
            Some(t) => {
                let c = s.last();
                let i = (s.len() - 1) as u64;
                if c == '_' || c == '-' {
                    Some(t)
                } else if c == '0' {
                    Some(t.push((i, false)))
                } else if c == '1' {
                    Some(t.push((i, true)))
                } else {
                    None
                }
            },
        }
    }
}

/// Each toggle is at a position of the text and says what is written
/// there: `1` turns the cpu of that position on and `0` off; every `0` or
/// `1` of the text gives a toggle, in order of position.
pub proof fn law_toggles_positions(s: Seq<char>)
    requires
        s.len() <= u64::MAX,
    ensures
        toggles_spec(s) matches Some(t) ==> forall|k: int| 0 <= k < t.len() ==> {
            &&& (#[trigger] t[k]).0 < s.len()
            &&& s[t[k].0 as int] == (if t[k].1 { '1' } else { '0' })
        },
        toggles_spec(s) matches Some(t) ==> forall|i: int| 0 <= i < s.len() && (s[i] == '0' || s[i] == '1') ==> exists|k: int|
            0 <= k < t.len() && (#[trigger] t[k]).0 == i && t[k].1 == (s[i] == '1'),
        toggles_spec(s) matches Some(t) ==> forall|a: int, b: int| 0 <= a < b < t.len() ==> (#[trigger] t[a]).0 < (#[trigger] t[b]).0,
    decreases s.len(),
{
    if s.len() > 0 {
        let f = s.drop_last();
        law_toggles_positions(f);
        if toggles_spec(s) is Some {
            let tf = toggles_spec(f)->0;
            let t = toggles_spec(s)->0;
            let n = s.len() - 1;
            assert forall|k: int| 0 <= k < tf.len() implies (#[trigger] tf[k]).0 < n && s[tf[k].0 as int] == (if tf[k].1 {
                '1'
            } else {
                '0'
            }) by {
                assert(f[tf[k].0 as int] == s[tf[k].0 as int]);
            }
            assert forall|k: int| 0 <= k < t.len() implies {
                &&& (#[trigger] t[k]).0 < s.len()
                &&& s[t[k].0 as int] == (if t[k].1 { '1' } else { '0' })
            } by {
                if k < tf.len() {
                    assert(t[k] == tf[k]);
                }
            }
            assert forall|i: int| 0 <= i < s.len() && (s[i] == '0' || s[i] == '1') implies exists|k: int|
                0 <= k < t.len() && (#[trigger] t[k]).0 == i && t[k].1 == (s[i] == '1') by {
                if i < n {
                    assert(f[i] == s[i]);
                    let k = choose|k: int| 0 <= k < tf.len() && (#[trigger] tf[k]).0 == i && tf[k].1 == (f[i] == '1');
                    assert(t[k] == tf[k]);
                } else {
                    assert(t[tf.len() as int].0 == i);
                }
            }
            assert forall|a: int, b: int| 0 <= a < b < t.len() implies (#[trigger] t[a]).0 < (#[trigger] t[b]).0 by {
                if b < tf.len() {
                    assert(t[a] == tf[a] && t[b] == tf[b]);
                } else {
                    assert(t[a] == tf[a]);
                    assert(tf[a].0 < n);
                }
            }
        }
    }
}

/// `0` and `false` mean off, `1` and `true` on, and nothing else is a
/// boolean.
pub proof fn law_bool_words(s: Seq<char>)
    ensures
        bool_str_spec(s) == Some(false) <==> (s == "0"@ || s == "false"@),
        bool_str_spec(s) == Some(true) <==> (s == "1"@ || s == "true"@),
{
    reveal_strlit("0");
    reveal_strlit("false");
    reveal_strlit("1");
    reveal_strlit("true");
    assert("1"@[0] != "0"@[0]);
    assert("true"@.len() != "false"@.len() && "true"@.len() != "0"@.len() && "1"@.len() != "false"@.len());
}

/// A sequence of on/off toggles where the position is the id acted on.
#[derive(Clone, Debug, PartialEq, Eq)]
pub struct Toggles(pub Vec<(u64, bool)>);

impl Toggles {
    /// Parses a sequence of `0` (off), `1` (on), `_` or `-` (skip).
    pub fn from_str(s: &str) -> (r: Result<Self, Error>)
        ensures
            match toggles_spec(s@) {
                Some(t) => r matches Ok(v) && v.0@ == t,
                None => r matches Err(e) && e.is_parse_value("Expected sequence of 0, 1, or -"@),
            },
    {
        let c = chars_of(s);
        let mut out: Vec<(u64, bool)> = Vec::new();
        let mut i: usize = 0;
        assert(c@.subrange(0, 0) =~= Seq::<char>::empty());
        while i < c.len()
            invariant
                i <= c.len(),
                c@ == s@,
                toggles_spec(c@.subrange(0, i as int)) == Some(out@),
            decreases c.len() - i,
        {
            assert(c@.subrange(0, i + 1).drop_last() =~= c@.subrange(0, i as int));
            let ch = c[i];
            if ch == '_' || ch == '-' {
            } else if ch == '0' {
                out.push((i as u64, false));
            } else if ch == '1' {
                out.push((i as u64, true));
            } else {
                proof { lemma_toggles_fault_stops(c@, i as int); }
                return Err(Error::parse_value("Expected sequence of 0, 1, or -"));
            }
            i = i + 1;
        }
        assert(c@.subrange(0, c@.len() as int) =~= c@);
        Ok(Toggles(out))
    }

    /// The (id, state) pairs.
    pub fn into_vec(self) -> (r: Vec<(u64, bool)>)
        ensures
            r@ == self.0@,
    {
        self.0
    }
}

/// A bad character makes every longer text bad.
pub proof fn lemma_toggles_fault_stops(s: Seq<char>, k: int)
    requires
        0 <= k < s.len(),
        toggles_spec(s.subrange(0, k + 1)) is None,
    ensures
        toggles_spec(s) is None,
    decreases s.len() - k,
{
    if k + 1 < s.len() {
        assert(s.subrange(0, k + 2).drop_last() =~= s.subrange(0, k + 1));
        lemma_toggles_fault_stops(s, k + 1);
    } else {
        assert(s.subrange(0, k + 1) =~= s);
    }
}

// ---------------------------------------------------------------- card ids

/// The card that `s` denotes: a bus id when it has a `:`, else a drm index.
pub open spec fn card_id_spec(s: Seq<char>) -> Option<CardIdV> {
    if has_char(s, ':') {
        Some(CardIdV::BusId(s))
    } else {
        match parse_u64_spec(s) {
            Some(v) => Some(CardIdV::Index(v)),
            None => None,
        }
    }
}

impl CardId {
    /// Parses a drm card index (`0`) or a pci bus id (`0000:01:00.0`).
    pub fn from_str(s: &str) -> (r: Result<Self, Error>)
        ensures
            match card_id_spec(s@) {
                Some(v) => r matches Ok(c) && c@ == v,
                None => r matches Err(e) && e.is_parse_value("Expected id integer or pci id string"@),
            },
    {
        let c = chars_of(s);
        if contains_char(&c, ':') {
            Ok(CardId::BusId(String::from_str(s)))
        } else {
            match parse_u64(&c) {
                Some(v) => Ok(CardId::Index(v)),
                None => Err(Error::parse_value("Expected id integer or pci id string")),
            }
        }
    }
}

/// The items of a card list that are drm indices (without `:`), in order.
pub open spec fn index_items(items: Seq<Seq<char>>) -> Seq<Seq<char>>
    decreases items.len(),
{
    if items.len() == 0 {
        Seq::empty()
    } else if has_char(items.last(), ':') {
        index_items(items.drop_last())
    } else {
        index_items(items.drop_last()).push(items.last())
    }
}

/// The items of a card list that are bus ids (with `:`), in order.
pub open spec fn bus_items(items: Seq<Seq<char>>) -> Seq<Seq<char>>
    decreases items.len(),
{
    if items.len() == 0 {
        Seq::empty()
    } else if has_char(items.last(), ':') {
        bus_items(items.drop_last()).push(items.last())
    } else {
        bus_items(items.drop_last())
    }
}

/// The id list that the drm indices of the card list `s` make, joined by commas.
pub open spec fn card_indices_text(s: Seq<char>) -> Seq<char> {
    join_spec(index_items(split_spec(s, ',')), ',')
}

/// The drm indices that the card list `s` names: none when it names only bus
/// ids; else the id list that its index items make together.
pub open spec fn card_ids_spec(s: Seq<char>) -> Result<Set<u64>, IndicesFault> {
    if index_items(split_spec(s, ',')).len() == 0 {
        Ok(Set::empty())
    } else {
        indices_spec(card_indices_text(s))
    }
}

/// Whether `v` is the drm indices `ids` (in increasing order) followed by the
/// bus ids `buses` (in the order given).
pub open spec fn card_ids_layout(v: Seq<CardIdV>, ids: Set<u64>, buses: Seq<Seq<char>>) -> bool {
    exists|xs: Seq<u64>|
        #![trigger xs.to_set()]
        strictly_increasing(xs) && xs.to_set() == ids && v.len() == xs.len() + buses.len()
            && (forall|i: int| 0 <= i < xs.len() ==> v[i] == CardIdV::Index(xs[i]))
            && (forall|j: int| 0 <= j < buses.len() ==> v[xs.len() + j] == CardIdV::BusId(buses[j]))
}

/// A list of cards: drm indices, sorted and distinct, then bus ids.
#[derive(Clone, Debug)]
pub struct CardIds(pub Vec<CardId>);


impl CardIds {
    /// Parses a comma-delimited list of card indices, index ranges and bus ids.
    /// The indices are parsed together as an id list; the bus ids follow them.
    /// A list of bus ids alone gives those bus ids.
    pub fn from_str(s: &str) -> (r: Result<Self, Error>)
        ensures
            match card_ids_spec(s@) {
                Ok(ids) => r matches Ok(v) && card_ids_layout(
                    card_views(v.0@),
                    ids,
                    bus_items(split_spec(s@, ',')),
                ),
                Err(f) => r matches Err(e) && e.is_parse_value(indices_message(f)),
            },
    {
        let c = chars_of(s);
        let items = split_chars(&c, ',');
        let ghost all = texts(items@);
        let mut joined: Vec<char> = Vec::new();
        let mut n_index: usize = 0;
        let mut buses: Vec<String> = Vec::new();
        let mut k: usize = 0;
        assert(all.take(0) =~= Seq::<Seq<char>>::empty());
        while k < items.len()
            invariant
                k <= items.len(),
                all == texts(items@),
                all == split_spec(c@, ','),
                joined@ == join_spec(index_items(all.take(k as int)), ','),
                n_index == index_items(all.take(k as int)).len(),
                n_index <= k,
                buses@.map_values(|b: String| b@) == bus_items(all.take(k as int)),
            decreases items.len() - k,
        {
            assert(all.take(k + 1).drop_last() =~= all.take(k as int));
            let item = &items[k];
            if contains_char(item.as_slice(), ':') {
                let ghost before = buses@;
                buses.push(string_of(item.as_slice()));
                assert(buses@.map_values(|b: String| b@) =~= before.map_values(|b: String| b@).push(all[k as int]));
            } else {
                let ghost before = joined@;
                if n_index > 0 {
                    joined.push(',');
                }
                let mut j: usize = 0;
                while j < item.len()
                    invariant
                        j <= item.len(),
                        joined@ == (if n_index > 0 { before.push(',') } else { before }) + item@.subrange(0, j as int),
                    decreases item.len() - j,
                {
                    joined.push(item[j]);
                    j = j + 1;
                }
                proof {
                    assert(item@.subrange(0, item@.len() as int) =~= item@);
                    let idx = index_items(all.take(k as int));
                    assert(index_items(all.take(k + 1)) == idx.push(all[k as int]));
                    assert(idx.push(all[k as int]).drop_last() =~= idx);
                    if n_index == 0 {
                        assert(idx.len() == 0);
                        assert(before =~= Seq::<char>::empty());
                        assert(joined@ =~= item@);
                    } else {
                        assert(joined@ =~= before.push(',') + item@);
                    }
                }
                n_index = n_index + 1;
            }
            k = k + 1;
        }
        assert(all.take(all.len() as int) =~= all);
        let ids: Vec<u64> = if n_index == 0 {
            Vec::new()
        } else {
            match Indices::from_chars(&joined) {
                Ok(i) => i.0,
                Err(e) => return Err(e),
            }
        };
        assert(ids@.to_set() == card_ids_spec(s@)->Ok_0 && strictly_increasing(ids@)) by {
            if n_index == 0 {
                assert(ids@.to_set() =~= Set::<u64>::empty());
            }
        }
        let mut out: Vec<CardId> = Vec::new();
        let mut i: usize = 0;
        while i < ids.len()
            invariant
                i <= ids.len(),
                card_views(out@) =~= ids@.subrange(0, i as int).map_values(|x: u64| CardIdV::Index(x)),
            decreases ids.len() - i,
        {
            let ghost before = out@;
            out.push(CardId::Index(ids[i]));
            assert(card_views(out@) =~= card_views(before).push(CardIdV::Index(ids@[i as int])));
            assert(ids@.subrange(0, i + 1).map_values(|x: u64| CardIdV::Index(x)) =~= ids@.subrange(0, i as int).map_values(|x: u64| CardIdV::Index(x)).push(CardIdV::Index(ids@[i as int])));
            i = i + 1;
        }
        let mut j: usize = 0;
        assert(ids@.subrange(0, ids@.len() as int) =~= ids@);
        while j < buses.len()
            invariant
                j <= buses.len(),
                card_views(out@) =~= ids@.map_values(|x: u64| CardIdV::Index(x)) + buses@.subrange(0, j as int).map_values(|b: String| CardIdV::BusId(b@)),
            decreases buses.len() - j,
        {
            let ghost before = out@;
            let b = buses[j].clone();
            out.push(CardId::BusId(b));
            assert(card_views(out@) =~= card_views(before).push(CardIdV::BusId(buses@[j as int]@)));
            assert(buses@.subrange(0, j + 1).map_values(|b: String| CardIdV::BusId(b@)) =~= buses@.subrange(0, j as int).map_values(|b: String| CardIdV::BusId(b@)).push(CardIdV::BusId(buses@[j as int]@)));
            j = j + 1;
        }
        proof {
            let v = card_views(out@);
            assert(ids@.subrange(0, ids@.len() as int) =~= ids@);
            assert(buses@.subrange(0, buses@.len() as int) =~= buses@);
            let bs = bus_items(split_spec(s@, ','));
            assert(forall|jj: int| 0 <= jj < bs.len() ==> v[ids@.len() + jj] == CardIdV::BusId(bs[jj]));
            assert(forall|ii: int| 0 <= ii < ids@.len() ==> v[ii] == CardIdV::Index(ids@[ii]));
            assert(ids@.to_set() == ids@.to_set());
        }
        Ok(CardIds(out))
    }
}

// ---------------------------------------------------------------- durations

/// Why a duration could not be parsed.
pub enum DurationFault {
    UnknownUnit,
    BadValueWithUnit,
    BadValue,
}

/// The message for each fault.
pub open spec fn duration_message(f: DurationFault) -> Seq<char> {
    match f {
        DurationFault::UnknownUnit => "Unrecognized duration unit"@,
        DurationFault::BadValueWithUnit => "Expected duration value, ex. 2000, 2000ms, 2s"@,
        DurationFault::BadValue => "Expected duration value, ex. 3000, 3000ms, 3s"@,
    }
}

/// The unit that a duration suffix names.
pub open spec fn time_unit_spec(u: Seq<char>) -> Option<TimeUnit> {
    if u == "n"@ || u == "ns"@ {
        Some(TimeUnit::Nanos)
    } else if u == "u"@ || u == "us"@ {
        Some(TimeUnit::Micros)
    } else if u == "m"@ || u == "ms"@ {
        Some(TimeUnit::Millis)
    } else if u == "s"@ {
        Some(TimeUnit::Secs)
    } else {
        None
    }
}

/// The duration that `s` denotes: an integer, optionally followed by a unit;
/// milliseconds when there is none.
pub open spec fn duration_spec(s: Seq<char>) -> Result<(u64, TimeUnit), DurationFault> {
    match start_of_unit_spec(s) {
        Some(pos) => match parse_u64_spec(s.take(pos)) {
            Some(v) => match time_unit_spec(s.skip(pos)) {
                Some(u) => Ok((v, u)),
                None => Err(DurationFault::UnknownUnit),
            },
            None => Err(DurationFault::BadValueWithUnit),
        },
        None => match parse_u64_spec(s) {
            Some(v) => Ok((v, TimeUnit::Millis)),
            None => Err(DurationFault::BadValue),
        },
    }
}

/// A length of time: an integer count of a unit.
#[derive(Clone, Copy, Debug, PartialEq, Eq)]
pub struct DurationStr {
    pub value: u64,
    pub unit: TimeUnit,
}

/// The whole microseconds in `value` of `unit` (a fraction of a microsecond is
/// dropped, as `Duration::as_micros` does).
pub open spec fn micros_spec(value: u64, unit: TimeUnit) -> nat {
    match unit {
        TimeUnit::Nanos => (value / 1000) as nat,
        TimeUnit::Micros => value as nat,
        TimeUnit::Millis => (value * 1000) as nat,
        TimeUnit::Secs => (value * 1000000) as nat,
    }
}

/// The unit that `u` names, if any.
pub fn time_unit(u: &[char]) -> (r: Option<TimeUnit>)
    ensures
        r == time_unit_spec(u@),
{
    if chars_eq_str(u, "n") || chars_eq_str(u, "ns") {
        Some(TimeUnit::Nanos)
    } else if chars_eq_str(u, "u") || chars_eq_str(u, "us") {
        Some(TimeUnit::Micros)
    } else if chars_eq_str(u, "m") || chars_eq_str(u, "ms") {
        Some(TimeUnit::Millis)
    } else if chars_eq_str(u, "s") {
        Some(TimeUnit::Secs)
    } else {
        None
    }
}

impl DurationStr {
    /// Parses an integer with an optional unit: `n`/`ns`, `u`/`us`, `m`/`ms`
    /// or `s`; milliseconds when the unit is left out.
    pub fn from_str(s: &str) -> (r: Result<Self, Error>)
        ensures
            match duration_spec(s@) {
                Ok((v, u)) => r == Ok::<Self, Error>(DurationStr { value: v, unit: u }),
                Err(f) => r matches Err(e) && e.is_parse_value(duration_message(f)),
            },
    {
        let c = chars_of(s);
        match start_of_unit(&c) {
            Some(pos) => {
                let num = sub_chars(&c, 0, pos);
                let unit = sub_chars(&c, pos, c.len());
                assert(num@ == c@.take(pos as int));
                assert(unit@ == c@.skip(pos as int));
                match parse_u64(&num) {
                    Some(v) => match time_unit(&unit) {
                        Some(u) => Ok(DurationStr { value: v, unit: u }),
                        None => Err(Error::parse_value("Unrecognized duration unit")),
                    },
                    None => Err(Error::parse_value("Expected duration value, ex. 2000, 2000ms, 2s")),
                }
            },
            None => match parse_u64(&c) {
                Some(v) => Ok(DurationStr { value: v, unit: TimeUnit::Millis }),
                None => Err(Error::parse_value("Expected duration value, ex. 3000, 3000ms, 3s")),
            },
        }
    }

    /// The whole microseconds in this duration.
    pub fn as_micros(&self) -> (r: u128)
        ensures
            r == micros_spec(self.value, self.unit),
    {
        match self.unit {
            TimeUnit::Nanos => (self.value / 1000) as u128,
            TimeUnit::Micros => self.value as u128,
            TimeUnit::Millis => (self.value as u128) * 1000,
            TimeUnit::Secs => (self.value as u128) * 1000000,
        }
    }
}

// ---------------------------------------------------------------- frequency and power

/// Why a frequency or a power could not be parsed.
pub enum QuantityFault {
    UnknownUnit,
    BadValue,
}

/// The unit that a lowercased frequency suffix names.
pub open spec fn frequency_unit_spec(u: Seq<char>) -> Option<FrequencyUnit> {
    if u == "h"@ || u == "hz"@ {
        Some(FrequencyUnit::Hertz)
    } else if u == "k"@ || u == "khz"@ {
        Some(FrequencyUnit::Kilohertz)
    } else if u == "m"@ || u == "mhz"@ {
        Some(FrequencyUnit::Megahertz)
    } else if u == "g"@ || u == "ghz"@ {
        Some(FrequencyUnit::Gigahertz)
    } else if u == "t"@ || u == "thz"@ {
        Some(FrequencyUnit::Terahertz)
    } else {
        None
    }
}

/// The suffix of `s` from where its unit starts (empty when it has none).
pub open spec fn unit_text(s: Seq<char>) -> Seq<char> {
    match start_of_unit_spec(s) {
        Some(pos) => s.skip(pos),
        None => Seq::empty(),
    }
}

/// The frequency that `s` denotes, given `lowered`, its unit suffix lowercased:
/// a decimal number, optionally followed by a unit; megahertz when there is none.
pub open spec fn frequency_spec(s: Seq<char>, lowered: Seq<char>) -> Result<(Seq<char>, FrequencyUnit), QuantityFault> {
    match start_of_unit_spec(s) {
        Some(pos) => if is_decimal(s.take(pos)) {
            match frequency_unit_spec(lowered) {
                Some(u) => Ok((s.take(pos), u)),
                None => Err(QuantityFault::UnknownUnit),
            }
        } else {
            Err(QuantityFault::BadValue)
        },
        None => if is_decimal(s) {
            Ok((s, FrequencyUnit::Megahertz))
        } else {
            Err(QuantityFault::BadValue)
        },
    }
}

/// Where the unit starts in a decimal number followed by a unit `u` that
/// starts with neither a digit nor a dot: right after the number.
proof fn lemma_unit_starts_after(n: Seq<char>, u: Seq<char>)
    requires
        is_decimal(n),
        u.len() > 0,
        !(is_digit(u[0]) || u[0] == '.'),
    ensures
        start_of_unit_spec(n + u) == Some(n.len() as int),
        (n + u).take(n.len() as int) == n,
        (n + u).skip(n.len() as int) == u,
        start_of_unit_spec(n) is None,
{
    let s = n + u;
    assert(s[n.len() as int] == u[0]);
    assert forall|j: int| 0 <= j < n.len() implies (is_digit(s[j]) || s[j] == '.') by {
        assert(s[j] == n[j]);
        assert(is_digit(n[j]) || n[j] == '.');
    }
    assert(0 <= n.len() < s.len() && !(is_digit(s[n.len() as int]) || s[n.len() as int] == '.'));
    let i = choose|i: int|
        0 <= i < s.len() && !(#[trigger] is_digit(s[i]) || s[i] == '.') && forall|j: int|
            0 <= j < i ==> (is_digit(s[j]) || s[j] == '.');
    if i < n.len() {
        assert(s[i] == n[i]);
        assert(is_digit(n[i]) || n[i] == '.');
    }
    if i > n.len() {
        assert(is_digit(s[n.len() as int]) || s[n.len() as int] == '.');
    }
    assert(s.take(n.len() as int) =~= n);
    assert(s.skip(n.len() as int) =~= u);
    assert(!exists|k: int| 0 <= k < n.len() && !(#[trigger] is_digit(n[k]) || n[k] == '.'));
}

/// The unit suffixes of a frequency, in whatever case they are written
/// (the suffix is compared once lowercased): `h`/`hz` name hertz, `k`/`khz`
/// kilohertz, `m`/`mhz` megahertz, `g`/`ghz` gigahertz and `t`/`thz`
/// terahertz, and a number without a unit is in megahertz. So `800MHz`,
/// `800m` and `800` are the same frequency.
pub proof fn law_frequency_units(n: Seq<char>, u: Seq<char>)
    requires
        is_decimal(n),
    ensures
        frequency_spec(n, Seq::<char>::empty()) == Result::<(Seq<char>, FrequencyUnit), QuantityFault>::Ok((n, FrequencyUnit::Megahertz)),
        ascii_lowercase(u) == "h"@ || ascii_lowercase(u) == "hz"@ ==> frequency_spec(n + u, ascii_lowercase(u)) == Result::<(Seq<char>, FrequencyUnit), QuantityFault>::Ok(
            (n, FrequencyUnit::Hertz),
        ),
        ascii_lowercase(u) == "k"@ || ascii_lowercase(u) == "khz"@ ==> frequency_spec(n + u, ascii_lowercase(u)) == Result::<(Seq<char>, FrequencyUnit), QuantityFault>::Ok(
            (n, FrequencyUnit::Kilohertz),
        ),
        ascii_lowercase(u) == "m"@ || ascii_lowercase(u) == "mhz"@ ==> frequency_spec(n + u, ascii_lowercase(u)) == Result::<(Seq<char>, FrequencyUnit), QuantityFault>::Ok(
            (n, FrequencyUnit::Megahertz),
        ),
        ascii_lowercase(u) == "g"@ || ascii_lowercase(u) == "ghz"@ ==> frequency_spec(n + u, ascii_lowercase(u)) == Result::<(Seq<char>, FrequencyUnit), QuantityFault>::Ok(
            (n, FrequencyUnit::Gigahertz),
        ),
        ascii_lowercase(u) == "t"@ || ascii_lowercase(u) == "thz"@ ==> frequency_spec(n + u, ascii_lowercase(u)) == Result::<(Seq<char>, FrequencyUnit), QuantityFault>::Ok(
            (n, FrequencyUnit::Terahertz),
        ),
{
    reveal_strlit("h");
    reveal_strlit("hz");
    reveal_strlit("k");
    reveal_strlit("khz");
    reveal_strlit("m");
    reveal_strlit("mhz");
    reveal_strlit("g");
    reveal_strlit("ghz");
    reveal_strlit("t");
    reveal_strlit("thz");
    assert forall|j: int| 0 <= j < n.len() implies (is_digit(n[j]) || n[j] == '.') by {}
    assert(!exists|k: int| 0 <= k < n.len() && !(#[trigger] is_digit(n[k]) || n[k] == '.'));
    assert(start_of_unit_spec(n) is None);
    let l = ascii_lowercase(u);
    if l.len() > 0 {
        assert(l[0] == ascii_lower_char(u[0]));
        if l[0] == 'h' || l[0] == 'k' || l[0] == 'm' || l[0] == 'g' || l[0] == 't' {
            assert(!(is_digit(u[0]) || u[0] == '.'));
            lemma_unit_starts_after(n, u);
        }
    }
}

/// The message for each frequency fault.
pub open spec fn frequency_message(f: QuantityFault) -> Seq<char> {
    match f {
        QuantityFault::UnknownUnit => "Unrecognized frequency unit"@,
        QuantityFault::BadValue => "Expected frequency value with optional unit"@,
    }
}

/// A frequency as written: a decimal number and its unit.
#[derive(Debug)]
pub struct FrequencyStr {
    /// Digits with at most one `.`, at least one digit.
    pub number: String,
    pub unit: FrequencyUnit,
}

/// The number's text and the part after it.
pub fn split_number(c: &[char]) -> (r: (Vec<char>, Option<Vec<char>>))
    ensures
        match start_of_unit_spec(c@) {
            Some(pos) => r.0@ == c@.take(pos) && (r.1 matches Some(u) && u@ == c@.skip(pos)),
            None => r.0@ == c@ && r.1 is None,
        },
        forall|i: int| 0 <= i < r.0@.len() ==> (#[trigger] is_digit(r.0@[i]) || r.0@[i] == '.'),
{
    match start_of_unit(c) {
        Some(pos) => {
            let num = sub_chars(c, 0, pos);
            let unit = sub_chars(c, pos, c.len());
            assert(num@ =~= c@.take(pos as int));
            assert(unit@ =~= c@.skip(pos as int));
            (num, Some(unit))
        },
        None => {
            let num = sub_chars(c, 0, c.len());
            assert(num@ =~= c@);
            (num, None)
        },
    }
}

impl Clone for FrequencyStr {
    fn clone(&self) -> (r: Self)
        ensures
            r.number@ == self.number@,
            r.unit == self.unit,
    {
        FrequencyStr { number: self.number.clone(), unit: self.unit }
    }
}

impl FrequencyStr {
    /// Parses a decimal number with an optional unit, matched without regard
    /// to case: `h`/`hz`, `k`/`khz`, `m`/`mhz`, `g`/`ghz`, `t`/`thz`; megahertz
    /// when the unit is left out.
    pub fn from_str(s: &str) -> (r: Result<Self, Error>)
        ensures
            match frequency_spec(s@, lowercase(unit_text(s@))) {
                Ok((n, u)) => r matches Ok(f) && f.number@ == n && f.unit == u,
                Err(f) => r matches Err(e) && e.is_parse_value(frequency_message(f)),
            },
    {
        let c = chars_of(s);
        let (_, unit) = split_number(&c);
        let lowered = match unit {
            Some(u) => to_lowercase(&string_of(&u)),
            None => to_lowercase(&String::new()),
        };
        Self::from_lowered(s, lowered.as_str())
    }

    /// `from_str` where `lowered` is the unit suffix of `s` already lowercased.
    pub fn from_lowered(s: &str, lowered: &str) -> (r: Result<Self, Error>)
        ensures
            match frequency_spec(s@, lowered@) {
                Ok((n, u)) => r matches Ok(f) && f.number@ == n && f.unit == u,
                Err(f) => r matches Err(e) && e.is_parse_value(frequency_message(f)),
            },
    {
        let c = chars_of(s);
        let (num, unit) = split_number(&c);
        if !check_decimal(&num) {
            return Err(Error::parse_value("Expected frequency value with optional unit"));
        }
        let u = match unit {
            None => FrequencyUnit::Megahertz,
            Some(_) => {
                let l = chars_of(lowered);
                if chars_eq_str(&l, "h") || chars_eq_str(&l, "hz") {
                    FrequencyUnit::Hertz
                } else if chars_eq_str(&l, "k") || chars_eq_str(&l, "khz") {
                    FrequencyUnit::Kilohertz
                } else if chars_eq_str(&l, "m") || chars_eq_str(&l, "mhz") {
                    FrequencyUnit::Megahertz
                } else if chars_eq_str(&l, "g") || chars_eq_str(&l, "ghz") {
                    FrequencyUnit::Gigahertz
                } else if chars_eq_str(&l, "t") || chars_eq_str(&l, "thz") {
                    FrequencyUnit::Terahertz
                } else {
                    return Err(Error::parse_value("Unrecognized frequency unit"));
                }
            },
        };
        Ok(FrequencyStr { number: string_of(&num), unit: u })
    }
}

/// The unit that a power suffix names (matched exactly).
pub open spec fn power_unit_spec(u: Seq<char>) -> Option<PowerUnit> {
    if u == "u"@ || u == "uw"@ {
        Some(PowerUnit::Microwatts)
    } else if u == "m"@ || u == "mw"@ {
        Some(PowerUnit::Milliwatts)
    } else if u == "w"@ {
        Some(PowerUnit::Watts)
    } else if u == "k"@ || u == "kw"@ {
        Some(PowerUnit::Kilowatts)
    } else {
        None
    }
}

/// The power that `s` denotes: a decimal number, optionally followed by a
/// unit; milliwatts when there is none.
pub open spec fn power_spec(s: Seq<char>) -> Result<(Seq<char>, PowerUnit), QuantityFault> {
    match start_of_unit_spec(s) {
        Some(pos) => if is_decimal(s.take(pos)) {
            match power_unit_spec(s.skip(pos)) {
                Some(u) => Ok((s.take(pos), u)),
                None => Err(QuantityFault::UnknownUnit),
            }
        } else {
            Err(QuantityFault::BadValue)
        },
        None => if is_decimal(s) {
            Ok((s, PowerUnit::Milliwatts))
        } else {
            Err(QuantityFault::BadValue)
        },
    }
}

/// The unit suffixes of a power (matched as written): `u`/`uw` name
/// microwatts, `m`/`mw` milliwatts, `w` watts and `k`/`kw` kilowatts, and a
/// number without a unit is in milliwatts. So `500m`, `500mw` and `500` are
/// the same power, and `28w` is 28 watts.
pub proof fn law_power_units(n: Seq<char>)
    requires
        is_decimal(n),
    ensures
        power_spec(n) == Result::<(Seq<char>, PowerUnit), QuantityFault>::Ok((n, PowerUnit::Milliwatts)),
        power_spec(n + "u"@) == Result::<(Seq<char>, PowerUnit), QuantityFault>::Ok((n, PowerUnit::Microwatts)),
        power_spec(n + "uw"@) == Result::<(Seq<char>, PowerUnit), QuantityFault>::Ok((n, PowerUnit::Microwatts)),
        power_spec(n + "m"@) == Result::<(Seq<char>, PowerUnit), QuantityFault>::Ok((n, PowerUnit::Milliwatts)),
        power_spec(n + "mw"@) == Result::<(Seq<char>, PowerUnit), QuantityFault>::Ok((n, PowerUnit::Milliwatts)),
        power_spec(n + "w"@) == Result::<(Seq<char>, PowerUnit), QuantityFault>::Ok((n, PowerUnit::Watts)),
        power_spec(n + "k"@) == Result::<(Seq<char>, PowerUnit), QuantityFault>::Ok((n, PowerUnit::Kilowatts)),
        power_spec(n + "kw"@) == Result::<(Seq<char>, PowerUnit), QuantityFault>::Ok((n, PowerUnit::Kilowatts)),
{
    reveal_strlit("u");
    reveal_strlit("uw");
    reveal_strlit("m");
    reveal_strlit("mw");
    reveal_strlit("w");
    reveal_strlit("k");
    reveal_strlit("kw");
    lemma_unit_starts_after(n, "u"@);
    lemma_unit_starts_after(n, "uw"@);
    lemma_unit_starts_after(n, "m"@);
    lemma_unit_starts_after(n, "mw"@);
    lemma_unit_starts_after(n, "w"@);
    lemma_unit_starts_after(n, "k"@);
    lemma_unit_starts_after(n, "kw"@);
}

/// The unit suffixes of a duration: `n`/`ns` name nanoseconds, `u`/`us`
/// microseconds, `m`/`ms` milliseconds and `s` seconds, and a number
/// without a unit is in milliseconds; a second is a thousand milliseconds, a
/// millisecond a thousand microseconds, and a thousand nanoseconds one
/// microsecond.
pub proof fn law_duration_units(n: Seq<char>, v: u64)
    requires
        is_decimal(n),
        parse_u64_spec(n) == Some(v),
    ensures
        duration_spec(n) == Result::<(u64, TimeUnit), DurationFault>::Ok((v, TimeUnit::Millis)),
        duration_spec(n + "n"@) == Result::<(u64, TimeUnit), DurationFault>::Ok((v, TimeUnit::Nanos)),
        duration_spec(n + "ns"@) == Result::<(u64, TimeUnit), DurationFault>::Ok((v, TimeUnit::Nanos)),
        duration_spec(n + "u"@) == Result::<(u64, TimeUnit), DurationFault>::Ok((v, TimeUnit::Micros)),
        duration_spec(n + "us"@) == Result::<(u64, TimeUnit), DurationFault>::Ok((v, TimeUnit::Micros)),
        duration_spec(n + "m"@) == Result::<(u64, TimeUnit), DurationFault>::Ok((v, TimeUnit::Millis)),
        duration_spec(n + "ms"@) == Result::<(u64, TimeUnit), DurationFault>::Ok((v, TimeUnit::Millis)),
        duration_spec(n + "s"@) == Result::<(u64, TimeUnit), DurationFault>::Ok((v, TimeUnit::Secs)),
        micros_spec(v, TimeUnit::Micros) == v,
        micros_spec(v, TimeUnit::Millis) == 1000 * micros_spec(v, TimeUnit::Micros),
        micros_spec(v, TimeUnit::Secs) == 1000 * micros_spec(v, TimeUnit::Millis),
        micros_spec(v, TimeUnit::Nanos) == v / 1000,
{
    reveal_strlit("n");
    reveal_strlit("ns");
    reveal_strlit("u");
    reveal_strlit("us");
    reveal_strlit("m");
    reveal_strlit("ms");
    reveal_strlit("s");
    lemma_unit_starts_after(n, "n"@);
    lemma_unit_starts_after(n, "ns"@);
    lemma_unit_starts_after(n, "u"@);
    lemma_unit_starts_after(n, "us"@);
    lemma_unit_starts_after(n, "m"@);
    lemma_unit_starts_after(n, "ms"@);
    lemma_unit_starts_after(n, "s"@);
}

/// The message for each power fault.
pub open spec fn power_message(f: QuantityFault) -> Seq<char> {
    match f {
        QuantityFault::UnknownUnit => "Unrecognized power unit"@,
        QuantityFault::BadValue => "Expected power value"@,
    }
}

/// A power as written: a decimal number and its unit.
#[derive(Debug)]
pub struct PowerStr {
    /// Digits with at most one `.`, at least one digit.
    pub number: String,
    pub unit: PowerUnit,
}

impl Clone for PowerStr {
    fn clone(&self) -> (r: Self)
        ensures
            r.number@ == self.number@,
            r.unit == self.unit,
    {
        PowerStr { number: self.number.clone(), unit: self.unit }
    }
}

impl PowerStr {
    /// Parses a decimal number with an optional unit: `u`/`uw`, `m`/`mw`, `w`,
    /// `k`/`kw`; milliwatts when the unit is left out.
    pub fn from_str(s: &str) -> (r: Result<Self, Error>)
        ensures
            match power_spec(s@) {
                Ok((n, u)) => r matches Ok(p) && p.number@ == n && p.unit == u,
                Err(f) => r matches Err(e) && e.is_parse_value(power_message(f)),
            },
    {
        let c = chars_of(s);
        let (num, unit) = split_number(&c);
        if !check_decimal(&num) {
            return Err(Error::parse_value("Expected power value"));
        }
        let u = match unit {
            None => PowerUnit::Milliwatts,
            Some(l) => {
                if chars_eq_str(&l, "u") || chars_eq_str(&l, "uw") {
                    PowerUnit::Microwatts
                } else if chars_eq_str(&l, "m") || chars_eq_str(&l, "mw") {
                    PowerUnit::Milliwatts
                } else if chars_eq_str(&l, "w") {
                    PowerUnit::Watts
                } else if chars_eq_str(&l, "k") || chars_eq_str(&l, "kw") {
                    PowerUnit::Kilowatts
                } else {
                    return Err(Error::parse_value("Unrecognized power unit"));
                }
            },
        };
        Ok(PowerStr { number: string_of(&num), unit: u })
    }
}

} // verus!
