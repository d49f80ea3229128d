//! Paths of the sysfs attributes of this subsystem.

use vstd::prelude::*;

use crate::sysfs::{join, prefixed_id, push_spec};
use crate::text::decimal_spec;

verus! {

/// The sysfs directory of the cpufreq policies.
pub fn root() -> (r: String)
    ensures
        r@ == root_spec(),
{
    String::from_str("/sys/devices/system/cpu/cpufreq")
}

/// `/sys/devices/system/cpu/cpufreq`.
pub open spec fn root_spec() -> Seq<char> {
    "/sys/devices/system/cpu/cpufreq"@
}

/// The directory of policy `id` (`policy{id}`).
pub open spec fn policy_spec(id: u64) -> Seq<char> {
    push_spec(root_spec(), "policy"@ + decimal_spec(id as nat))
}

/// The directory of policy `id`.
pub fn policy(id: u64) -> (r: String)
    ensures
        r@ == policy_spec(id),
{
    join(root().as_str(), prefixed_id("policy", id).as_str())
}

/// An attribute of policy `i`.
pub fn policy_attr(i: u64, a: &str) -> (r: String)
    ensures
        r@ == push_spec(policy_spec(i), a@),
{
    join(policy(i).as_str(), a)
}

/// The `cpuinfo_max_freq` attribute of policy `id`.
pub fn cpuinfo_max_freq(id: u64) -> (r: String)
    ensures
        r@ == push_spec(policy_spec(id), "cpuinfo_max_freq"@),
{
    policy_attr(id, "cpuinfo_max_freq")
}

/// The `cpuinfo_min_freq` attribute of policy `id`.
pub fn cpuinfo_min_freq(id: u64) -> (r: String)
    ensures
        r@ == push_spec(policy_spec(id), "cpuinfo_min_freq"@),
{
    policy_attr(id, "cpuinfo_min_freq")
}

/// The `scaling_cur_freq` attribute of policy `id`.
pub fn scaling_cur_freq(id: u64) -> (r: String)
    ensures
        r@ == push_spec(policy_spec(id), "scaling_cur_freq"@),
{
    policy_attr(id, "scaling_cur_freq")
}

/// The `scaling_driver` attribute of policy `id`.
pub fn scaling_driver(id: u64) -> (r: String)
    ensures
        r@ == push_spec(policy_spec(id), "scaling_driver"@),
{
    policy_attr(id, "scaling_driver")
}

/// The `scaling_governor` attribute of policy `id`.
pub fn scaling_governor(id: u64) -> (r: String)
    ensures
        r@ == push_spec(policy_spec(id), "scaling_governor"@),
{
    policy_attr(id, "scaling_governor")
}

/// The `scaling_available_governors` attribute of policy `id`.
pub fn scaling_available_governors(id: u64) -> (r: String)
    ensures
        r@ == push_spec(policy_spec(id), "scaling_available_governors"@),
{
    policy_attr(id, "scaling_available_governors")
}

/// The `scaling_max_freq` attribute of policy `id`.
pub fn scaling_max_freq(id: u64) -> (r: String)
    ensures
        r@ == push_spec(policy_spec(id), "scaling_max_freq"@),
{
    policy_attr(id, "scaling_max_freq")
}

/// The `scaling_min_freq` attribute of policy `id`.
pub fn scaling_min_freq(id: u64) -> (r: String)
    ensures
        r@ == push_spec(policy_spec(id), "scaling_min_freq"@),
{
    policy_attr(id, "scaling_min_freq")
}

} // verus!
