//! Paths of the sysfs attributes of this subsystem.

use vstd::prelude::*;

use crate::sysfs::{join, prefixed_id, push_spec};
use crate::text::decimal_spec;

verus! {

/// The sysfs directory of the cpus.
pub fn root() -> (r: String)
    ensures
        r@ == root_spec(),
{
    String::from_str("/sys/devices/system/cpu")
}

/// `/sys/devices/system/cpu`.
pub open spec fn root_spec() -> Seq<char> {
    "/sys/devices/system/cpu"@
}

/// An attribute of the cpu directory.
pub fn root_attr(a: &str) -> (r: String)
    ensures
        r@ == push_spec(root_spec(), a@),
{
    join(root().as_str(), a)
}

/// The directory of cpu `id` (`cpu{id}`).
pub open spec fn cpu_spec(id: u64) -> Seq<char> {
    push_spec(root_spec(), "cpu"@ + decimal_spec(id as nat))
}

/// The directory of cpu `id`.
pub fn cpu(id: u64) -> (r: String)
    ensures
        r@ == cpu_spec(id),
{
    join(root().as_str(), prefixed_id("cpu", id).as_str())
}

/// An attribute of cpu `i`.
pub fn cpu_attr(i: u64, a: &str) -> (r: String)
    ensures
        r@ == push_spec(cpu_spec(i), a@),
{
    join(cpu(i).as_str(), a)
}

/// The list of online cpus.
pub fn online_ids() -> (r: String)
    ensures
        r@ == push_spec(root_spec(), "online"@),
{
    root_attr("online")
}

/// The list of offline cpus.
pub fn offline_ids() -> (r: String)
    ensures
        r@ == push_spec(root_spec(), "offline"@),
{
    root_attr("offline")
}

/// The list of present cpus.
pub fn present_ids() -> (r: String)
    ensures
        r@ == push_spec(root_spec(), "present"@),
{
    root_attr("present")
}

/// The list of possible cpus.
pub fn possible_ids() -> (r: String)
    ensures
        r@ == push_spec(root_spec(), "possible"@),
{
    root_attr("possible")
}

/// Whether cpu `id` is online.
pub fn online(id: u64) -> (r: String)
    ensures
        r@ == push_spec(cpu_spec(id), "online"@),
{
    cpu_attr(id, "online")
}

} // verus!
