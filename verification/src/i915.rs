//! Intel i915 graphics: gpu frequencies.

pub mod path;

use vstd::prelude::*;

use crate::intel_pstate::{opt_str, opt_strings, opt_text, strings};
use crate::drm::{ids_for_driver, ids_for_driver_spec, opt_texts};

verus! {

/// The driver of the cards.
pub const DRIVER: &'static str = "i915";

/// The i915 frequencies of a card, in MHz.
#[derive(Clone, Debug)]
pub struct Record {
    id: u64,
    act_freq_mhz: Option<u64>,
    boost_freq_mhz: Option<u64>,
    cur_freq_mhz: Option<u64>,
    max_freq_mhz: Option<u64>,
    min_freq_mhz: Option<u64>,
    rp0_freq_mhz: Option<u64>,
    rp1_freq_mhz: Option<u64>,
    rpn_freq_mhz: Option<u64>,
}

/// The values of a `Record`.
pub struct RecordV {
    pub id: u64,
    pub act_freq_mhz: Option<u64>,
    pub boost_freq_mhz: Option<u64>,
    pub cur_freq_mhz: Option<u64>,
    pub max_freq_mhz: Option<u64>,
    pub min_freq_mhz: Option<u64>,
    pub rp0_freq_mhz: Option<u64>,
    pub rp1_freq_mhz: Option<u64>,
    pub rpn_freq_mhz: Option<u64>,
}

impl View for Record {
    type V = RecordV;

    closed spec fn view(&self) -> RecordV {
        RecordV {
            id: self.id,
            act_freq_mhz: self.act_freq_mhz,
            boost_freq_mhz: self.boost_freq_mhz,
            cur_freq_mhz: self.cur_freq_mhz,
            max_freq_mhz: self.max_freq_mhz,
            min_freq_mhz: self.min_freq_mhz,
            rp0_freq_mhz: self.rp0_freq_mhz,
            rp1_freq_mhz: self.rp1_freq_mhz,
            rpn_freq_mhz: self.rpn_freq_mhz,
        }
    }
}

/// Whether a record holds no value but its id.
pub open spec fn record_empty(r: RecordV) -> bool {
    &&& r.act_freq_mhz is None
    &&& r.boost_freq_mhz is None
    &&& r.cur_freq_mhz is None
    &&& r.max_freq_mhz is None
    &&& r.min_freq_mhz is None
    &&& r.rp0_freq_mhz is None
    &&& r.rp1_freq_mhz is None
    &&& r.rpn_freq_mhz is None
}

impl Record {
    /// The cards that the i915 driver drives, of the drm cards `card_ids`
    /// with their drivers `drivers` (`None` where it could not be read).
    pub fn ids(card_ids: &Vec<u64>, drivers: &Vec<Option<String>>) -> (r: Vec<u64>)
        requires
            card_ids.len() == drivers.len(),
        ensures
            r@ == ids_for_driver_spec(card_ids@, opt_texts(drivers@), DRIVER@),
    {
        ids_for_driver(card_ids, drivers, DRIVER)
    }

    /// The record of `id`, with no values.
    pub fn new(id: u64) -> (r: Self)
        ensures
            r@.id == id,
            record_empty(r@),
    {
        Record {
            id,
            act_freq_mhz: None,
            boost_freq_mhz: None,
            cur_freq_mhz: None,
            max_freq_mhz: None,
            min_freq_mhz: None,
            rp0_freq_mhz: None,
            rp1_freq_mhz: None,
            rpn_freq_mhz: None,
        }
    }

    /// The id.
    pub fn id(&self) -> (r: u64)
        ensures
            r == self@.id,
    {
        self.id
    }

    /// Whether the record holds no value but its id.
    pub fn is_empty(&self) -> (r: bool)
        ensures
            r == record_empty(self@),
    {
        self.act_freq_mhz.is_none()
            && self.boost_freq_mhz.is_none()
            && self.cur_freq_mhz.is_none()
            && self.max_freq_mhz.is_none()
            && self.min_freq_mhz.is_none()
            && self.rp0_freq_mhz.is_none()
            && self.rp1_freq_mhz.is_none()
            && self.rpn_freq_mhz.is_none()
    }

    /// Sets every value from what was read from sysfs (`None` where a read
    /// failed); whether any value was read.
    pub fn read(
        &mut self,
        act_freq_mhz: Option<u64>,
        boost_freq_mhz: Option<u64>,
        cur_freq_mhz: Option<u64>,
        max_freq_mhz: Option<u64>,
        min_freq_mhz: Option<u64>,
        rp0_freq_mhz: Option<u64>,
        rp1_freq_mhz: Option<u64>,
        rpn_freq_mhz: Option<u64>,
    ) -> (r: bool)
        ensures
            final(self)@ == (RecordV {
                id: old(self)@.id,
                act_freq_mhz: act_freq_mhz,
                boost_freq_mhz: boost_freq_mhz,
                cur_freq_mhz: cur_freq_mhz,
                max_freq_mhz: max_freq_mhz,
                min_freq_mhz: min_freq_mhz,
                rp0_freq_mhz: rp0_freq_mhz,
                rp1_freq_mhz: rp1_freq_mhz,
                rpn_freq_mhz: rpn_freq_mhz,
            }),
            r == !record_empty(final(self)@),
    {
        self.act_freq_mhz = act_freq_mhz;
        self.boost_freq_mhz = boost_freq_mhz;
        self.cur_freq_mhz = cur_freq_mhz;
        self.max_freq_mhz = max_freq_mhz;
        self.min_freq_mhz = min_freq_mhz;
        self.rp0_freq_mhz = rp0_freq_mhz;
        self.rp1_freq_mhz = rp1_freq_mhz;
        self.rpn_freq_mhz = rpn_freq_mhz;
        !self.is_empty()
    }

    /// The actual frequency.
    pub fn act_freq_mhz(&self) -> (r: Option<u64>)
        ensures
            r == self@.act_freq_mhz,
    {
        self.act_freq_mhz
    }

    /// The boost frequency.
    pub fn boost_freq_mhz(&self) -> (r: Option<u64>)
        ensures
            r == self@.boost_freq_mhz,
    {
        self.boost_freq_mhz
    }

    /// The requested frequency.
    pub fn cur_freq_mhz(&self) -> (r: Option<u64>)
        ensures
            r == self@.cur_freq_mhz,
    {
        self.cur_freq_mhz
    }

    /// The upper frequency limit.
    pub fn max_freq_mhz(&self) -> (r: Option<u64>)
        ensures
            r == self@.max_freq_mhz,
    {
        self.max_freq_mhz
    }

    /// The lower frequency limit.
    pub fn min_freq_mhz(&self) -> (r: Option<u64>)
        ensures
            r == self@.min_freq_mhz,
    {
        self.min_freq_mhz
    }

    /// The highest frequency of the hardware.
    pub fn rp0_freq_mhz(&self) -> (r: Option<u64>)
        ensures
            r == self@.rp0_freq_mhz,
    {
        self.rp0_freq_mhz
    }

    /// The most efficient frequency of the hardware.
    pub fn rp1_freq_mhz(&self) -> (r: Option<u64>)
        ensures
            r == self@.rp1_freq_mhz,
    {
        self.rp1_freq_mhz
    }

    /// The lowest frequency of the hardware.
    pub fn rpn_freq_mhz(&self) -> (r: Option<u64>)
        ensures
            r == self@.rpn_freq_mhz,
    {
        self.rpn_freq_mhz
    }

}


} // verus!
