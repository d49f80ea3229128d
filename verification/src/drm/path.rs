//! Paths of the sysfs attributes of this subsystem.

use vstd::prelude::*;

use crate::sysfs::{join, prefixed_id, push_spec};
use crate::text::decimal_spec;
use crate::drm::BusId;

verus! {

/// The sysfs directory of the drm cards.
pub fn root() -> (r: String)
    ensures
        r@ == root_spec(),
{
    String::from_str("/sys/class/drm")
}

/// `/sys/class/drm`.
pub open spec fn root_spec() -> Seq<char> {
    "/sys/class/drm"@
}

/// The directory of card `id` (`card{id}`).
pub open spec fn card_spec(id: u64) -> Seq<char> {
    push_spec(root_spec(), "card"@ + decimal_spec(id as nat))
}

/// The directory of card `id`.
pub fn card(id: u64) -> (r: String)
    ensures
        r@ == card_spec(id),
{
    join(root().as_str(), prefixed_id("card", id).as_str())
}

/// An attribute of card `id`.
pub fn card_attr(id: u64, a: &str) -> (r: String)
    ensures
        r@ == push_spec(card_spec(id), a@),
{
    join(card(id).as_str(), a)
}

/// The device link of card `id`.
pub open spec fn device_spec(id: u64) -> Seq<char> {
    push_spec(card_spec(id), "device"@)
}

/// The device link of card `id`.
pub fn device(id: u64) -> (r: String)
    ensures
        r@ == device_spec(id),
{
    card_attr(id, "device")
}

/// An attribute of the device of card `id`.
pub fn device_attr(id: u64, a: &str) -> (r: String)
    ensures
        r@ == push_spec(device_spec(id), a@),
{
    join(device(id).as_str(), a)
}

/// The subsystem link of the device of card `id`.
pub fn subsystem(id: u64) -> (r: String)
    ensures
        r@ == push_spec(device_spec(id), "subsystem"@),
{
    device_attr(id, "subsystem")
}

/// The driver link of the device of card `id`.
pub fn driver(id: u64) -> (r: String)
    ensures
        r@ == push_spec(device_spec(id), "driver"@),
{
    device_attr(id, "driver")
}

/// The drm directory of the device `bus_id` on its bus:
/// `/sys/bus/{bus}/devices/{id}/drm`.
pub fn bus_drm(bus_id: &BusId) -> (r: String)
    ensures
        r@ == "/sys/bus/"@ + bus_id.bus@ + "/devices/"@ + bus_id.id@ + "/drm"@,
{
    let mut r = String::from_str("/sys/bus/");
    r.append(bus_id.bus.as_str());
    r.append("/devices/");
    r.append(bus_id.id.as_str());
    r.append("/drm");
    r
}

} // verus!
