//! Cpufreq policies: governors and frequency limits.

pub mod path;

use vstd::prelude::*;

use crate::intel_pstate::{opt_str, opt_strings, opt_text, strings};
use crate::cli::parse::strictly_increasing;
use crate::sysfs::{entries_ids, read_ids};

verus! {

/// The prefix of the directory entries of the policies.
pub const ID_PREFIX: &'static str = "policy";

/// The cpufreq values of a policy.
#[derive(Clone, Debug)]
pub struct Record {
    id: u64,
    cpuinfo_max_freq: Option<u64>,
    cpuinfo_min_freq: Option<u64>,
    scaling_cur_freq: Option<u64>,
    scaling_driver: Option<String>,
    scaling_governor: Option<String>,
    scaling_available_governors: Option<Vec<String>>,
    scaling_max_freq: Option<u64>,
    scaling_min_freq: Option<u64>,
}

/// The values of a `Record`.
pub struct RecordV {
    pub id: u64,
    pub cpuinfo_max_freq: Option<u64>,
    pub cpuinfo_min_freq: Option<u64>,
    pub scaling_cur_freq: Option<u64>,
    pub scaling_driver: Option<Seq<char>>,
    pub scaling_governor: Option<Seq<char>>,
    pub scaling_available_governors: Option<Seq<Seq<char>>>,
    pub scaling_max_freq: Option<u64>,
    pub scaling_min_freq: Option<u64>,
}

impl View for Record {
    type V = RecordV;

    closed spec fn view(&self) -> RecordV {
        RecordV {
            id: self.id,
            cpuinfo_max_freq: self.cpuinfo_max_freq,
            cpuinfo_min_freq: self.cpuinfo_min_freq,
            scaling_cur_freq: self.scaling_cur_freq,
            scaling_driver: opt_text(self.scaling_driver),
            scaling_governor: opt_text(self.scaling_governor),
            scaling_available_governors: opt_strings(self.scaling_available_governors),
            scaling_max_freq: self.scaling_max_freq,
            scaling_min_freq: self.scaling_min_freq,
        }
    }
}

/// Whether a record holds no value but its id.
pub open spec fn record_empty(r: RecordV) -> bool {
    &&& r.cpuinfo_max_freq is None
    &&& r.cpuinfo_min_freq is None
    &&& r.scaling_cur_freq is None
    &&& r.scaling_driver is None
    &&& r.scaling_governor is None
    &&& r.scaling_available_governors is None
    &&& r.scaling_max_freq is None
    &&& r.scaling_min_freq is None
}

impl Record {
    /// The ids of the policies in a listing of the sysfs directory.
    pub fn ids(names: &Vec<String>) -> (r: Vec<u64>)
        ensures
            strictly_increasing(r@),
            r@.to_set() == entries_ids(strings(names@), ID_PREFIX@).to_set(),
    {
        proof { assert(strings(names@) =~= names@.map_values(|s: String| s@)); }
        read_ids(names, ID_PREFIX)
    }

    /// The record of `id`, with no values.
    pub fn new(id: u64) -> (r: Self)
        ensures
            r@.id == id,
            record_empty(r@),
    {
        Record {
            id,
            cpuinfo_max_freq: None,
            cpuinfo_min_freq: None,
            scaling_cur_freq: None,
            scaling_driver: None,
            scaling_governor: None,
            scaling_available_governors: None,
            scaling_max_freq: None,
            scaling_min_freq: None,
        }
    }

    /// The id.
    pub fn id(&self) -> (r: u64)
        ensures
            r == self@.id,
    {
        self.id
    }

    /// Whether the record holds no value but its id.
    pub fn is_empty(&self) -> (r: bool)
        ensures
            r == record_empty(self@),
    {
        self.cpuinfo_max_freq.is_none()
            && self.cpuinfo_min_freq.is_none()
            && self.scaling_cur_freq.is_none()
            && self.scaling_driver.is_none()
            && self.scaling_governor.is_none()
            && self.scaling_available_governors.is_none()
            && self.scaling_max_freq.is_none()
            && self.scaling_min_freq.is_none()
    }

    /// Sets every value from what was read from sysfs (`None` where a read
    /// failed); whether any value was read.
    pub fn read(
        &mut self,
        cpuinfo_max_freq: Option<u64>,
        cpuinfo_min_freq: Option<u64>,
        scaling_cur_freq: Option<u64>,
        scaling_driver: Option<String>,
        scaling_governor: Option<String>,
        scaling_available_governors: Option<Vec<String>>,
        scaling_max_freq: Option<u64>,
        scaling_min_freq: Option<u64>,
    ) -> (r: bool)
        ensures
            final(self)@ == (RecordV {
                id: old(self)@.id,
                cpuinfo_max_freq: cpuinfo_max_freq,
                cpuinfo_min_freq: cpuinfo_min_freq,
                scaling_cur_freq: scaling_cur_freq,
                scaling_driver: opt_text(scaling_driver),
                scaling_governor: opt_text(scaling_governor),
                scaling_available_governors: opt_strings(scaling_available_governors),
                scaling_max_freq: scaling_max_freq,
                scaling_min_freq: scaling_min_freq,
            }),
            r == !record_empty(final(self)@),
    {
        self.cpuinfo_max_freq = cpuinfo_max_freq;
        self.cpuinfo_min_freq = cpuinfo_min_freq;
        self.scaling_cur_freq = scaling_cur_freq;
        self.scaling_driver = scaling_driver;
        self.scaling_governor = scaling_governor;
        self.scaling_available_governors = scaling_available_governors;
        self.scaling_max_freq = scaling_max_freq;
        self.scaling_min_freq = scaling_min_freq;
        !self.is_empty()
    }

    /// The highest frequency of the hardware, in kHz.
    pub fn cpuinfo_max_freq(&self) -> (r: Option<u64>)
        ensures
            r == self@.cpuinfo_max_freq,
    {
        self.cpuinfo_max_freq
    }

    /// The lowest frequency of the hardware, in kHz.
    pub fn cpuinfo_min_freq(&self) -> (r: Option<u64>)
        ensures
            r == self@.cpuinfo_min_freq,
    {
        self.cpuinfo_min_freq
    }

    /// The current frequency, in kHz.
    pub fn scaling_cur_freq(&self) -> (r: Option<u64>)
        ensures
            r == self@.scaling_cur_freq,
    {
        self.scaling_cur_freq
    }

    /// The scaling driver.
    pub fn scaling_driver(&self) -> (r: Option<&str>)
        ensures
            opt_str(r) == self@.scaling_driver,
    {
        match &self.scaling_driver {
            Some(s) => Some(s.as_str()),
            None => None,
        }
    }

    /// The scaling governor.
    pub fn scaling_governor(&self) -> (r: Option<&str>)
        ensures
            opt_str(r) == self@.scaling_governor,
    {
        match &self.scaling_governor {
            Some(s) => Some(s.as_str()),
            None => None,
        }
    }

    /// The governors that can be set.
    pub fn scaling_available_governors(&self) -> (r: Option<&[String]>)
        ensures
            match r {
                Some(v) => self@.scaling_available_governors == Some(strings(v@)),
                None => self@.scaling_available_governors is None,
            },
    {
        match &self.scaling_available_governors {
            Some(v) => Some(v.as_slice()),
            None => None,
        }
    }

    /// The upper frequency limit, in kHz.
    pub fn scaling_max_freq(&self) -> (r: Option<u64>)
        ensures
            r == self@.scaling_max_freq,
    {
        self.scaling_max_freq
    }

    /// The lower frequency limit, in kHz.
    pub fn scaling_min_freq(&self) -> (r: Option<u64>)
        ensures
            r == self@.scaling_min_freq,
    {
        self.scaling_min_freq
    }

}


/// A cpufreq policy, named by its id.
#[derive(Clone, Debug)]
pub struct Policy {
    id: u64,
}

impl Policy {
    /// The policy `id`.
    pub fn new(id: u64) -> (r: Self)
        ensures
            r.id() == id,
    {
        Policy { id }
    }

    /// The id.
    pub closed spec fn spec_id(&self) -> u64 {
        self.id
    }

    /// The id.
    #[verifier::when_used_as_spec(spec_id)]
    pub fn id(&self) -> (r: u64)
        ensures
            r == self.spec_id(),
    {
        self.id
    }
}

} // verus!
