//! Environment variables that stand for command-line arguments.

use vstd::prelude::*;

use crate::text::{chars_eq_str, chars_of, lowercase, replace_char, replace_spec, to_lowercase, to_uppercase, uppercase};

verus! {

/// The environment variable for the argument `cli_name`: `KNOBS_`, then the
/// name uppercased with each `-` made `_` (`cpu-on` → `KNOBS_CPU_ON`).
pub open spec fn var_name_spec(cli_name: Seq<char>) -> Seq<char> {
    "KNOBS_"@ + replace_spec(uppercase(cli_name), '-', '_')
}

/// The environment variable name for the argument `cli_name`.
pub fn var_name(cli_name: &str) -> (r: String)
    ensures
        r@ == var_name_spec(cli_name@),
{
    let up = to_uppercase(cli_name);
    let rep = replace_char(up.as_str(), '-', '_');
    let mut r = String::from_str("KNOBS_");
    r.append(rep.as_str());
    r
}

/// The value of the variable `name` among `vars` (the first with that name).
pub open spec fn lookup_spec(vars: Seq<(Seq<char>, Seq<char>)>, name: Seq<char>) -> Option<Seq<char>>
    decreases vars.len(),
{
    if vars.len() == 0 {
        None
    } else if vars[0].0 == name {
        Some(vars[0].1)
    } else {
        lookup_spec(vars.drop_first(), name)
    }
}

/// The texts of name/value pairs.
pub open spec fn pairs(v: Seq<(String, String)>) -> Seq<(Seq<char>, Seq<char>)> {
    v.map_values(|p: (String, String)| (p.0@, p.1@))
}

/// The value of the variable `name` among `vars`, as `std::env::var` reads it
/// from the environment that `vars` holds.
pub fn lookup(vars: &[(String, String)], name: &str) -> (r: Option<String>)
    ensures
        match r {
            Some(v) => lookup_spec(pairs(vars@), name@) == Some(v@),
            None => lookup_spec(pairs(vars@), name@) is None,
        },
{
    let n = chars_of(name);
    let mut i: usize = 0;
    assert(pairs(vars@).skip(0) =~= pairs(vars@));
    while i < vars.len()
        invariant
            i <= vars.len(),
            n@ == name@,
            lookup_spec(pairs(vars@), name@) == lookup_spec(pairs(vars@).skip(i as int), name@),
        decreases vars.len() - i,
    {
        let ghost rest = pairs(vars@).skip(i as int);
        assert(rest.drop_first() =~= pairs(vars@).skip(i + 1));
        let k = chars_of(vars[i].0.as_str());
        if crate::text::chars_eq(&k, &n) {
            return Some(vars[i].1.clone());
        }
        i = i + 1;
    }
    None
}

/// Whether an environment value turns a flag on: anything but the empty text,
/// `0` and, in any case, `false` (given `lowered`, the value lowercased).
pub open spec fn flag_value_spec(v: Seq<char>, lowered: Seq<char>) -> bool {
    v.len() > 0 && v != "0"@ && lowered != "false"@
}

/// Whether the environment value `v` turns a flag on.
pub fn flag_value(v: &str) -> (r: bool)
    ensures
        r == flag_value_spec(v@, lowercase(v@)),
{
    let c = chars_of(v);
    if c.len() == 0 || chars_eq_str(&c, "0") {
        return false;
    }
    let l = to_lowercase(v);
    !chars_eq_str(&chars_of(l.as_str()), "false")
}

/// A copy of name/value pairs.
pub fn clone_pairs(v: &Vec<(String, String)>) -> (r: Vec<(String, String)>)
    ensures
        pairs(r@) == pairs(v@),
{
    let mut out: Vec<(String, String)> = Vec::new();
    let mut i: usize = 0;
    while i < v.len()
        invariant
            i <= v.len(),
            pairs(out@) =~= pairs(v@.subrange(0, i as int)),
        decreases v.len() - i,
    {
        let ghost before = out@;
        let (a, b) = (v[i].0.clone(), v[i].1.clone());
        out.push((a, b));
        assert(pairs(out@) =~= pairs(before).push((v@[i as int].0@, v@[i as int].1@)));
        assert(pairs(v@.subrange(0, i + 1)) =~= pairs(v@.subrange(0, i as int)).push(
            (v@[i as int].0@, v@[i as int].1@),
        ));
        i = i + 1;
    }
    assert(v@.subrange(0, v@.len() as int) =~= v@);
    out
}

} // verus!
