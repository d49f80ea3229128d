//! Paths of the sysfs attributes of this subsystem.

use vstd::prelude::*;

use crate::sysfs::push_spec;
use crate::drm::path::{card_attr, card_spec};

verus! {

/// The sysfs directory of the i915 kernel module.
pub fn module() -> (r: String)
    ensures
        r@ == module_spec(),
{
    String::from_str("/sys/module/i915")
}

/// `/sys/module/i915`.
pub open spec fn module_spec() -> Seq<char> {
    "/sys/module/i915"@
}

/// The `gt_act_freq_mhz` attribute of card `id`.
pub fn act_freq_mhz(id: u64) -> (r: String)
    ensures
        r@ == push_spec(card_spec(id), "gt_act_freq_mhz"@),
{
    card_attr(id, "gt_act_freq_mhz")
}

/// The `gt_boost_freq_mhz` attribute of card `id`.
pub fn boost_freq_mhz(id: u64) -> (r: String)
    ensures
        r@ == push_spec(card_spec(id), "gt_boost_freq_mhz"@),
{
    card_attr(id, "gt_boost_freq_mhz")
}

/// The `gt_cur_freq_mhz` attribute of card `id`.
pub fn cur_freq_mhz(id: u64) -> (r: String)
    ensures
        r@ == push_spec(card_spec(id), "gt_cur_freq_mhz"@),
{
    card_attr(id, "gt_cur_freq_mhz")
}

/// The `gt_max_freq_mhz` attribute of card `id`.
pub fn max_freq_mhz(id: u64) -> (r: String)
    ensures
        r@ == push_spec(card_spec(id), "gt_max_freq_mhz"@),
{
    card_attr(id, "gt_max_freq_mhz")
}

/// The `gt_min_freq_mhz` attribute of card `id`.
pub fn min_freq_mhz(id: u64) -> (r: String)
    ensures
        r@ == push_spec(card_spec(id), "gt_min_freq_mhz"@),
{
    card_attr(id, "gt_min_freq_mhz")
}

/// The `gt_RP0_freq_mhz` attribute of card `id`.
pub fn rp0_freq_mhz(id: u64) -> (r: String)
    ensures
        r@ == push_spec(card_spec(id), "gt_RP0_freq_mhz"@),
{
    card_attr(id, "gt_RP0_freq_mhz")
}

/// The `gt_RP1_freq_mhz` attribute of card `id`.
pub fn rp1_freq_mhz(id: u64) -> (r: String)
    ensures
        r@ == push_spec(card_spec(id), "gt_RP1_freq_mhz"@),
{
    card_attr(id, "gt_RP1_freq_mhz")
}

/// The `gt_RPn_freq_mhz` attribute of card `id`.
pub fn rpn_freq_mhz(id: u64) -> (r: String)
    ensures
        r@ == push_spec(card_spec(id), "gt_RPn_freq_mhz"@),
{
    card_attr(id, "gt_RPn_freq_mhz")
}

} // verus!
