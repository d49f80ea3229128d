//! Cpus: their online state.

pub mod path;

use vstd::prelude::*;

use crate::intel_pstate::{opt_str, opt_strings, opt_text, strings};
use crate::cli::parse::strictly_increasing;
use crate::sysfs::{entries_ids, read_ids};

verus! {

/// The prefix of the directory entries of the cpus.
pub const ID_PREFIX: &'static str = "cpu";

/// The online state of a cpu.
#[derive(Clone, Debug)]
pub struct Record {
    id: u64,
    online: Option<bool>,
}

/// The values of a `Record`.
pub struct RecordV {
    pub id: u64,
    pub online: Option<bool>,
}

impl View for Record {
    type V = RecordV;

    closed spec fn view(&self) -> RecordV {
        RecordV {
            id: self.id,
            online: self.online,
        }
    }
}

/// Whether a record holds no value but its id.
pub open spec fn record_empty(r: RecordV) -> bool {
    &&& r.online is None
}

impl Record {
    /// The ids of the cpus in a listing of the sysfs directory.
    pub fn ids(names: &Vec<String>) -> (r: Vec<u64>)
        ensures
            strictly_increasing(r@),
            r@.to_set() == entries_ids(strings(names@), ID_PREFIX@).to_set(),
    {
        proof { assert(strings(names@) =~= names@.map_values(|s: String| s@)); }
        read_ids(names, ID_PREFIX)
    }

    /// The record of `id`, with no values.
    pub fn new(id: u64) -> (r: Self)
        ensures
            r@.id == id,
            record_empty(r@),
    {
        Record {
            id,
            online: None,
        }
    }

    /// The id.
    pub fn id(&self) -> (r: u64)
        ensures
            r == self@.id,
    {
        self.id
    }

    /// Whether the record holds no value but its id.
    pub fn is_empty(&self) -> (r: bool)
        ensures
            r == record_empty(self@),
    {
        self.online.is_none()
    }

    /// Sets every value from what was read from sysfs (`None` where a read
    /// failed); whether any value was read.
    pub fn read(
        &mut self,
        online: Option<bool>,
    ) -> (r: bool)
        ensures
            final(self)@ == (RecordV {
                id: old(self)@.id,
                online: online,
            }),
            r == !record_empty(final(self)@),
    {
        self.online = online;
        !self.is_empty()
    }

    /// Whether the cpu is online.
    pub fn online(&self) -> (r: Option<bool>)
        ensures
            r == self@.online,
    {
        self.online
    }

}


/// A cpu, named by its id.
#[derive(Clone, Debug)]
pub struct Cpu {
    id: u64,
}

impl Cpu {
    /// The cpu `id`.
    pub fn new(id: u64) -> (r: Self)
        ensures
            r.id() == id,
    {
        Cpu { id }
    }

    /// The id.
    pub closed spec fn spec_id(&self) -> u64 {
        self.id
    }

    /// The id.
    #[verifier::when_used_as_spec(spec_id)]
    pub fn id(&self) -> (r: u64)
        ensures
            r == self.spec_id(),
    {
        self.id
    }
}

} // verus!
