//! Drm cards.

pub mod path;

use vstd::prelude::*;

use crate::intel_pstate::{opt_text, strings};
use crate::cli::parse::{law_increasing_determined_by_set, strictly_increasing};
use crate::sysfs::{entries_ids, read_ids};

verus! {

/// Where a device sits: its bus (`pci`) and its id on that bus (`0000:00:02.0`).
#[derive(Clone, Debug, PartialEq, Eq, PartialOrd, Ord, Hash)]
pub struct BusId {
    pub bus: String,
    pub id: String,
}

/// The values of a `BusId`.
pub open spec fn bus_id_view(b: BusId) -> (Seq<char>, Seq<char>) {
    (b.bus@, b.id@)
}

/// The prefix of the directory entries of the cards.
pub const ID_PREFIX: &'static str = "card";

/// The ids of the cards in a listing of the drm directory (`card0`, but not
/// `card0-DP-1` nor `renderD128`).
pub fn ids(names: &Vec<String>) -> (r: Vec<u64>)
    ensures
        strictly_increasing(r@),
        r@.to_set() == entries_ids(strings(names@), ID_PREFIX@).to_set(),
{
    proof {
        assert(strings(names@) =~= names@.map_values(|s: String| s@));
    }
    read_ids(names, ID_PREFIX)
}

/// A listing of the drm directory fixes its card ids: any two strictly
/// increasing sequences with the set of card ids of `names` are equal, so
/// `ids` and `Record::ids` give the same ids for the same listing.
pub proof fn law_listing_fixes_ids(names: Seq<Seq<char>>, a: Seq<u64>, b: Seq<u64>)
    requires
        strictly_increasing(a),
        strictly_increasing(b),
        a.to_set() == entries_ids(names, ID_PREFIX@).to_set(),
        b.to_set() == entries_ids(names, ID_PREFIX@).to_set(),
    ensures
        a == b,
{
    law_increasing_determined_by_set(a, b);
}

/// The ids of `ids` whose driver (`drivers`, at the same place; `None` where
/// it could not be read) is `driver`, in order.
pub open spec fn ids_for_driver_spec(ids: Seq<u64>, drivers: Seq<Option<Seq<char>>>, driver: Seq<char>) -> Seq<u64>
    decreases ids.len(),
{
    if ids.len() == 0 || drivers.len() == 0 {
        Seq::empty()
    } else {
        let rest = ids_for_driver_spec(ids.drop_last(), drivers.drop_last(), driver);
        if drivers.last() == Some(driver) {
            rest.push(ids.last())
        } else {
            rest
        }
    }
}

/// The texts of optional strings.
pub open spec fn opt_texts(v: Seq<Option<String>>) -> Seq<Option<Seq<char>>> {
    v.map_values(|o: Option<String>| opt_text(o))
}

/// The cards of `ids` that `driver` drives, given the driver of each.
pub fn ids_for_driver(ids: &Vec<u64>, drivers: &Vec<Option<String>>, driver: &str) -> (r: Vec<u64>)
    requires
        ids.len() == drivers.len(),
    ensures
        r@ == ids_for_driver_spec(ids@, opt_texts(drivers@), driver@),
{
    let d = crate::text::chars_of(driver);
    let mut out: Vec<u64> = Vec::new();
    let mut i: usize = 0;
    assert(ids@.take(0) =~= Seq::<u64>::empty());
    while i < ids.len()
        invariant
            i <= ids.len(),
            ids.len() == drivers.len(),
            d@ == driver@,
            out@ == ids_for_driver_spec(ids@.take(i as int), opt_texts(drivers@).take(i as int), driver@),
        decreases ids.len() - i,
    {
        assert(ids@.take(i + 1).drop_last() =~= ids@.take(i as int));
        assert(opt_texts(drivers@).take(i + 1).drop_last() =~= opt_texts(drivers@).take(i as int));
        assert(opt_texts(drivers@).take(i + 1).last() == opt_text(drivers@[i as int]));
        let keep = match &drivers[i] {
            Some(n) => crate::text::chars_eq(&crate::text::chars_of(n.as_str()), &d),
            None => false,
        };
        if keep {
            out.push(ids[i]);
        }
        i = i + 1;
    }
    assert(ids@.take(ids@.len() as int) =~= ids@);
    assert(opt_texts(drivers@).take(ids@.len() as int) =~= opt_texts(drivers@));
    out
}

/// `text`, then `b`'s bus, ` device ` and `b`'s id.
pub open spec fn about_spec(text: Seq<char>, b: (Seq<char>, Seq<char>)) -> Seq<char> {
    text + b.0 + " device "@ + b.1
}

/// `text`, then the bus and the id of `b`.
fn about(text: &str, b: &BusId) -> (r: String)
    ensures
        r@ == about_spec(text@, bus_id_view(*b)),
{
    let mut s = String::from_str(text);
    s.append(b.bus.as_str());
    s.append(" device ");
    s.append(b.id.as_str());
    s
}

/// The card of the device `bus_id`, from a listing of its drm directory: the
/// one card there, or an error when there is none or more than one.
pub fn index(bus_id: &BusId, names: &Vec<String>) -> (r: Result<u64, String>)
    ensures
        ({
            let ids = entries_ids(strings(names@), ID_PREFIX@).to_set();
            match r {
                Ok(id) => ids == set![id],
                Err(m) => (ids.is_empty() && m@ == about_spec(
                    "Drm card node not found for "@,
                    bus_id_view(*bus_id),
                )) || ((exists|a: u64, b: u64| a != b && ids.contains(a) && ids.contains(b)) && m@ == about_spec(
                    "Multiple drm card nodes found for "@,
                    bus_id_view(*bus_id),
                )),
            }
        }),
{
    let v = ids(names);
    let ghost set = entries_ids(strings(names@), ID_PREFIX@).to_set();
    if v.len() == 0 {
        assert(set =~= Set::<u64>::empty()) by {
            assert forall|x: u64| !set.contains(x) by {
                if set.contains(x) {
                    assert(v@.to_set().contains(x));
                }
            }
        }
        Err(about("Drm card node not found for ", bus_id))
    } else if v.len() > 1 {
        assert(v@[0] != v@[1]);
        assert(v@.to_set().contains(v@[0]) && v@.to_set().contains(v@[1]));
        Err(about("Multiple drm card nodes found for ", bus_id))
    } else {
        assert(set =~= set![v@[0]]) by {
            assert forall|x: u64| set.contains(x) <==> x == v@[0] by {
                if x == v@[0] {
                    assert(v@.to_set().contains(x));
                }
            }
        }
        Ok(v[0])
    }
}

/// The drm values of a card.
#[derive(Clone, Debug)]
pub struct Record {
    id: u64,
    bus_id: Option<BusId>,
    driver: Option<String>,
}

/// The values of a `Record`.
pub struct RecordV {
    pub id: u64,
    pub bus_id: Option<(Seq<char>, Seq<char>)>,
    pub driver: Option<Seq<char>>,
}

impl View for Record {
    type V = RecordV;

    closed spec fn view(&self) -> RecordV {
        RecordV {
            id: self.id,
            bus_id: match self.bus_id {
                Some(b) => Some(bus_id_view(b)),
                None => None,
            },
            driver: opt_text(self.driver),
        }
    }
}

impl Record {
    /// The ids of the cards in a listing of the drm directory.
    pub fn ids(names: &Vec<String>) -> (r: Vec<u64>)
        ensures
            strictly_increasing(r@),
        r@.to_set() == entries_ids(strings(names@), ID_PREFIX@).to_set(),
    {
        ids(names)
    }

    /// The record of card `id`, with no values.
    pub fn new(id: u64) -> (r: Self)
        ensures
            r@.id == id,
            r@.bus_id is None,
            r@.driver is None,
    {
        Record { id, bus_id: None, driver: None }
    }

    /// The id.
    pub fn id(&self) -> (r: u64)
        ensures
            r == self@.id,
    {
        self.id
    }

    /// Whether the record holds no value but its id.
    pub fn is_empty(&self) -> (r: bool)
        ensures
            r == (self@.bus_id is None && self@.driver is None),
    {
        self.bus_id.is_none() && self.driver.is_none()
    }

    /// Sets the values from what was read from sysfs (`None` where a read
    /// failed); whether any value was read.
    pub fn read(&mut self, bus_id: Option<BusId>, driver: Option<String>) -> (r: bool)
        ensures
            final(self)@ == (RecordV {
                id: old(self)@.id,
                bus_id: match bus_id {
                    Some(b) => Some(bus_id_view(b)),
                    None => None,
                },
                driver: opt_text(driver),
            }),
            r == !(final(self)@.bus_id is None && final(self)@.driver is None),
    {
        self.bus_id = bus_id;
        self.driver = driver;
        !self.is_empty()
    }

    /// The bus id.
    pub fn bus_id(&self) -> (r: Option<&BusId>)
        ensures
            match r {
                Some(b) => self@.bus_id == Some(bus_id_view(*b)),
                None => self@.bus_id is None,
            },
    {
        match &self.bus_id {
            Some(b) => Some(b),
            None => None,
        }
    }

    /// The driver.
    pub fn driver(&self) -> (r: Option<&str>)
        ensures
            match r {
                Some(d) => self@.driver == Some(d@),
                None => self@.driver is None,
            },
    {
        match &self.driver {
            Some(d) => Some(d.as_str()),
            None => None,
        }
    }
}

} // verus!
