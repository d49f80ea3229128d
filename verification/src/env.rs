//! Environment variables of the library.

use vstd::prelude::*;

use crate::cli::NAME;

verus! {

/// The environment variable `n` of the program: `knobs_{n}`.
pub fn var_name(n: &str) -> (r: String)
    ensures
        r@ == NAME@ + "_"@ + n@,
{
    let mut s = String::from_str(NAME);
    s.append("_");
    s.append(n);
    s
}

} // verus!
