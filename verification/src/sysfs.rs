//! Paths of sysfs attributes, and the ids that sysfs directory listings hold.

use vstd::prelude::*;

use crate::cli::parse::{insert_sorted, lemma_prefix_to_set, strictly_increasing};
use crate::text::{chars_of, decimal, decimal_spec, parse_u64, parse_u64_spec, push_char, string_of};

verus! {

/// `PathBuf::push` on Unix: an absolute `a` replaces `base`; otherwise `a` is
/// appended, after a `/` unless `base` is empty or already ends with one.
pub open spec fn push_spec(base: Seq<char>, a: Seq<char>) -> Seq<char> {
    if a.len() > 0 && a[0] == '/' {
        a
    } else if base.len() == 0 || base.last() == '/' {
        base + a
    } else {
        base.push('/') + a
    }
}

/// Appends the characters `a` to `s`.
pub fn append_chars(s: &mut String, a: &[char])
    ensures
        final(s)@ == old(s)@ + a@,
{
    let mut i: usize = 0;
    while i < a.len()
        invariant
            i <= a.len(),
            s@ == old(s)@ + a@.subrange(0, i as int),
        decreases a.len() - i,
    {
        push_char(s, a[i]);
        i = i + 1;
        assert(s@ =~= old(s)@ + a@.subrange(0, i as int));
    }
    assert(a@.subrange(0, a@.len() as int) =~= a@);
}

/// The path `base` joined with `a`, as `PathBuf::push` joins them.
pub fn join(base: &str, a: &str) -> (r: String)
    ensures
        r@ == push_spec(base@, a@),
{
    let ac = chars_of(a);
    if ac.len() > 0 && ac[0] == '/' {
        return string_of(&ac);
    }
    let bc = chars_of(base);
    let mut r = string_of(&bc);
    if !(bc.len() == 0 || bc[bc.len() - 1] == '/') {
        push_char(&mut r, '/');
    }
    append_chars(&mut r, &ac);
    r
}

/// `prefix` followed by the decimal text of `id` (`cpu3`, `policy0`).
pub fn prefixed_id(prefix: &str, id: u64) -> (r: String)
    ensures
        r@ == prefix@ + decimal_spec(id as nat),
{
    let mut r = string_of(&chars_of(prefix));
    let d = decimal(id);
    append_chars(&mut r, &d);
    r
}

/// The id in a directory entry named `prefix` followed by an integer.
pub open spec fn entry_id(name: Seq<char>, prefix: Seq<char>) -> Option<u64> {
    if prefix.len() <= name.len() && name.take(prefix.len() as int) == prefix {
        parse_u64_spec(name.skip(prefix.len() as int))
    } else {
        None
    }
}

/// The ids of the entries named `prefix` followed by an integer, in order.
pub open spec fn entries_ids(names: Seq<Seq<char>>, prefix: Seq<char>) -> Seq<u64>
    decreases names.len(),
{
    if names.len() == 0 {
        Seq::empty()
    } else {
        match entry_id(names.last(), prefix) {
            Some(id) => entries_ids(names.drop_last(), prefix).push(id),
            None => entries_ids(names.drop_last(), prefix),
        }
    }
}

/// The id that the entry `name` holds after `prefix`, if any.
pub fn parse_entry(name: &str, prefix: &str) -> (r: Option<u64>)
    ensures
        r == entry_id(name@, prefix@),
{
    let n = chars_of(name);
    let p = chars_of(prefix);
    if p.len() > n.len() {
        return None;
    }
    let mut i: usize = 0;
    while i < p.len()
        invariant
            p.len() <= n.len(),
            n@ == name@,
            p@ == prefix@,
            i <= p.len(),
            forall|k: int| 0 <= k < i ==> n@[k] == p@[k],
        decreases p.len() - i,
    {
        if n[i] != p[i] {
            assert(n@.take(p@.len() as int)[i as int] != p@[i as int]);
            return None;
        }
        i = i + 1;
    }
    assert(n@.take(p@.len() as int) =~= p@);
    let mut rest: Vec<char> = Vec::new();
    let mut j = p.len();
    while j < n.len()
        invariant
            p.len() <= j <= n.len(),
            rest@ == n@.subrange(p@.len() as int, j as int),
        decreases n.len() - j,
    {
        rest.push(n[j]);
        j = j + 1;
        assert(rest@ =~= n@.subrange(p@.len() as int, j as int));
    }
    assert(rest@ =~= n@.skip(p@.len() as int));
    parse_u64(&rest)
}

/// Appending `x` to `s` adds `x` to its set.
pub proof fn lemma_push_to_set(s: Seq<u64>, x: u64)
    ensures
        s.push(x).to_set() == s.to_set().insert(x),
{
    lemma_prefix_to_set(s.push(x), s.len() as int);
    assert(s.push(x).subrange(0, s.len() as int + 1) =~= s.push(x));
    assert(s.push(x).subrange(0, s.len() as int) =~= s);
}

/// The ids of a directory listing: of each entry named `prefix` followed by an
/// integer (`card0`, not `card0-DP-1` nor `renderD128`), each once, in
/// increasing order.
pub fn read_ids(names: &Vec<String>, prefix: &str) -> (r: Vec<u64>)
    ensures
        strictly_increasing(r@),
        r@.to_set() == entries_ids(names@.map_values(|s: String| s@), prefix@).to_set(),
{
    let ghost all = names@.map_values(|s: String| s@);
    let mut out: Vec<u64> = Vec::new();
    let mut i: usize = 0;
    assert(all.take(0) =~= Seq::<Seq<char>>::empty());
    assert(out@.to_set() =~= Set::<u64>::empty());
    assert(entries_ids(all.take(0), prefix@).to_set() =~= Set::<u64>::empty());
    while i < names.len()
        invariant
            i <= names.len(),
            all == names@.map_values(|s: String| s@),
            strictly_increasing(out@),
            out@.to_set() == entries_ids(all.take(i as int), prefix@).to_set(),
        decreases names.len() - i,
    {
        assert(all.take(i + 1).drop_last() =~= all.take(i as int));
        assert(all.take(i + 1).last() == names@[i as int]@);
        if let Some(id) = parse_entry(names[i].as_str(), prefix) {
            proof {
                lemma_push_to_set(entries_ids(all.take(i as int), prefix@), id);
            }
            insert_sorted(&mut out, id);
        }
        i = i + 1;
    }
    assert(all.take(all.len() as int) =~= all);
    out
}

} // verus!
