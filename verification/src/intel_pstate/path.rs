//! Paths of the sysfs attributes of this subsystem.

use vstd::prelude::*;

use crate::sysfs::{join, push_spec};
use crate::cpu::path::{cpu_attr, cpu_spec};
use crate::cpufreq::path::{policy_attr, policy_spec};

verus! {

/// The sysfs directory of intel_pstate.
pub fn root() -> (r: String)
    ensures
        r@ == root_spec(),
{
    String::from_str("/sys/devices/system/cpu/intel_pstate")
}

/// `/sys/devices/system/cpu/intel_pstate`.
pub open spec fn root_spec() -> Seq<char> {
    "/sys/devices/system/cpu/intel_pstate"@
}

/// An attribute of the intel_pstate directory.
pub fn root_attr(a: &str) -> (r: String)
    ensures
        r@ == push_spec(root_spec(), a@),
{
    join(root().as_str(), a)
}

/// The global `max_perf_pct` attribute.
pub fn max_perf_pct() -> (r: String)
    ensures
        r@ == push_spec(root_spec(), "max_perf_pct"@),
{
    root_attr("max_perf_pct")
}

/// The global `min_perf_pct` attribute.
pub fn min_perf_pct() -> (r: String)
    ensures
        r@ == push_spec(root_spec(), "min_perf_pct"@),
{
    root_attr("min_perf_pct")
}

/// The global `no_turbo` attribute.
pub fn no_turbo() -> (r: String)
    ensures
        r@ == push_spec(root_spec(), "no_turbo"@),
{
    root_attr("no_turbo")
}

/// The global `status` attribute.
pub fn status() -> (r: String)
    ensures
        r@ == push_spec(root_spec(), "status"@),
{
    root_attr("status")
}

/// The global `turbo_pct` attribute.
pub fn turbo_pct() -> (r: String)
    ensures
        r@ == push_spec(root_spec(), "turbo_pct"@),
{
    root_attr("turbo_pct")
}

/// The energy/performance bias of cpu `id` (`cpu{id}/power/energy_perf_bias`).
pub fn energy_perf_bias(id: u64) -> (r: String)
    ensures
        r@ == push_spec(push_spec(cpu_spec(id), "power"@), "energy_perf_bias"@),
{
    join(cpu_attr(id, "power").as_str(), "energy_perf_bias")
}

/// The energy/performance preference of policy `id`.
pub fn energy_performance_preference(id: u64) -> (r: String)
    ensures
        r@ == push_spec(policy_spec(id), "energy_performance_preference"@),
{
    policy_attr(id, "energy_performance_preference")
}

/// The energy/performance preferences available to policy `id`.
pub fn energy_performance_available_preferences(id: u64) -> (r: String)
    ensures
        r@ == push_spec(policy_spec(id), "energy_performance_available_preferences"@),
{
    policy_attr(id, "energy_performance_available_preferences")
}

} // verus!
