//! Intel p-state: global limits and per-cpu energy/performance settings.

pub mod path;

use vstd::prelude::*;

verus! {

/// The global intel_pstate values.
#[derive(Clone, Debug, Default, PartialEq, Eq, Hash, PartialOrd, Ord)]
pub struct Globals {
    max_perf_pct: Option<u64>,
    min_perf_pct: Option<u64>,
    no_turbo: Option<bool>,
    status: Option<String>,
    turbo_pct: Option<u64>,
}

/// The values of `Globals`.
pub struct GlobalsV {
    pub max_perf_pct: Option<u64>,
    pub min_perf_pct: Option<u64>,
    pub no_turbo: Option<bool>,
    pub status: Option<Seq<char>>,
    pub turbo_pct: Option<u64>,
}

/// The text of an optional string.
pub open spec fn opt_text(s: Option<String>) -> Option<Seq<char>> {
    match s {
        Some(x) => Some(x@),
        None => None,
    }
}

/// The text of an optional string slice.
pub open spec fn opt_str(s: Option<&str>) -> Option<Seq<char>> {
    match s {
        Some(x) => Some(x@),
        None => None,
    }
}

/// The texts of a vector of strings.
pub open spec fn strings(v: Seq<String>) -> Seq<Seq<char>> {
    v.map_values(|s: String| s@)
}

/// The texts of an optional vector of strings.
pub open spec fn opt_strings(v: Option<Vec<String>>) -> Option<Seq<Seq<char>>> {
    match v {
        Some(x) => Some(strings(x@)),
        None => None,
    }
}

impl View for Globals {
    type V = GlobalsV;

    closed spec fn view(&self) -> GlobalsV {
        GlobalsV {
            max_perf_pct: self.max_perf_pct,
            min_perf_pct: self.min_perf_pct,
            no_turbo: self.no_turbo,
            status: opt_text(self.status),
            turbo_pct: self.turbo_pct,
        }
    }
}

/// Whether no global value is set.
pub open spec fn globals_empty(g: GlobalsV) -> bool {
    &&& g.max_perf_pct is None
    &&& g.min_perf_pct is None
    &&& g.no_turbo is None
    &&& g.status is None
    &&& g.turbo_pct is None
}

impl Globals {
    /// A `Globals` with no values.
    pub fn new() -> (r: Self)
        ensures
            globals_empty(r@),
    {
        Globals { max_perf_pct: None, min_perf_pct: None, no_turbo: None, status: None, turbo_pct: None }
    }

    /// Sets every value from what was read from sysfs (`None` where a read failed).
    pub fn read(
        &mut self,
        max_perf_pct: Option<u64>,
        min_perf_pct: Option<u64>,
        no_turbo: Option<bool>,
        status: Option<String>,
        turbo_pct: Option<u64>,
    )
        ensures
            final(self)@ == (GlobalsV {
                max_perf_pct,
                min_perf_pct,
                no_turbo,
                status: opt_text(status),
                turbo_pct,
            }),
    {
        self.max_perf_pct = max_perf_pct;
        self.min_perf_pct = min_perf_pct;
        self.no_turbo = no_turbo;
        self.status = status;
        self.turbo_pct = turbo_pct;
    }

    /// The maximum performance percentage.
    pub fn max_perf_pct(&self) -> (r: Option<u64>)
        ensures
            r == self@.max_perf_pct,
    {
        self.max_perf_pct
    }

    /// The minimum performance percentage.
    pub fn min_perf_pct(&self) -> (r: Option<u64>)
        ensures
            r == self@.min_perf_pct,
    {
        self.min_perf_pct
    }

    /// Whether turbo is disabled.
    pub fn no_turbo(&self) -> (r: Option<bool>)
        ensures
            r == self@.no_turbo,
    {
        self.no_turbo
    }

    /// The driver status (`active`, `passive`, `off`).
    pub fn status(&self) -> (r: Option<&str>)
        ensures
            opt_str(r) == self@.status,
    {
        match &self.status {
            Some(s) => Some(s.as_str()),
            None => None,
        }
    }

    /// The turbo percentage.
    pub fn turbo_pct(&self) -> (r: Option<u64>)
        ensures
            r == self@.turbo_pct,
    {
        self.turbo_pct
    }

    /// Sets the maximum performance percentage.
    pub fn set_max_perf_pct(&mut self, v: Option<u64>) -> (r: &mut Self)
        ensures
            r@ == (GlobalsV { max_perf_pct: v, ..old(self)@ }),
            final(self)@ == final(r)@,
    {
        self.max_perf_pct = v;
        self
    }

    /// Sets the minimum performance percentage.
    pub fn set_min_perf_pct(&mut self, v: Option<u64>) -> (r: &mut Self)
        ensures
            r@ == (GlobalsV { min_perf_pct: v, ..old(self)@ }),
            final(self)@ == final(r)@,
    {
        self.min_perf_pct = v;
        self
    }

    /// Sets whether turbo is disabled.
    pub fn set_no_turbo(&mut self, v: Option<bool>) -> (r: &mut Self)
        ensures
            r@ == (GlobalsV { no_turbo: v, ..old(self)@ }),
            final(self)@ == final(r)@,
    {
        self.no_turbo = v;
        self
    }

    /// Whether no value is set.
    pub fn is_empty(&self) -> (r: bool)
        ensures
            r == globals_empty(self@),
    {
        self.max_perf_pct.is_none() && self.min_perf_pct.is_none() && self.no_turbo.is_none()
            && self.status.is_none() && self.turbo_pct.is_none()
    }

    /// Removes every value.
    pub fn clear(&mut self) -> (r: &mut Self)
        ensures
            globals_empty(r@),
            final(self)@ == final(r)@,
    {
        *self = Self::new();
        self
    }
}


/// The intel_pstate values of one cpu.
#[derive(Clone, Debug, Default, PartialEq, Eq, Hash, PartialOrd, Ord)]
pub struct Device {
    id: u64,
    energy_perf_bias: Option<u64>,
    energy_performance_preference: Option<String>,
    energy_performance_available_preferences: Option<Vec<String>>,
}

/// The values of a `Device`.
pub struct DeviceV {
    pub id: u64,
    pub energy_perf_bias: Option<u64>,
    pub energy_performance_preference: Option<Seq<char>>,
    pub energy_performance_available_preferences: Option<Seq<Seq<char>>>,
}

impl View for Device {
    type V = DeviceV;

    closed spec fn view(&self) -> DeviceV {
        DeviceV {
            id: self.id,
            energy_perf_bias: self.energy_perf_bias,
            energy_performance_preference: opt_text(self.energy_performance_preference),
            energy_performance_available_preferences: opt_strings(
                self.energy_performance_available_preferences,
            ),
        }
    }
}

/// Whether a device has no value but its id.
pub open spec fn device_empty(d: DeviceV) -> bool {
    &&& d.energy_perf_bias is None
    &&& d.energy_performance_preference is None
    &&& d.energy_performance_available_preferences is None
}

impl Device {
    /// The device of cpu `id`, with no values.
    pub fn new(id: u64) -> (r: Self)
        ensures
            r@.id == id,
            device_empty(r@),
    {
        Device {
            id,
            energy_perf_bias: None,
            energy_performance_preference: None,
            energy_performance_available_preferences: None,
        }
    }

    /// Sets every value from what was read from sysfs (`None` where a read failed).
    pub fn read(
        &mut self,
        energy_perf_bias: Option<u64>,
        energy_performance_preference: Option<String>,
        energy_performance_available_preferences: Option<Vec<String>>,
    )
        ensures
            final(self)@ == (DeviceV {
                id: old(self)@.id,
                energy_perf_bias,
                energy_performance_preference: opt_text(energy_performance_preference),
                energy_performance_available_preferences: opt_strings(
                    energy_performance_available_preferences,
                ),
            }),
    {
        self.energy_perf_bias = energy_perf_bias;
        self.energy_performance_preference = energy_performance_preference;
        self.energy_performance_available_preferences = energy_performance_available_preferences;
    }

    /// The cpu id.
    pub fn id(&self) -> (r: u64)
        ensures
            r == self@.id,
    {
        self.id
    }

    /// Sets the cpu id.
    pub fn set_id(&mut self, v: u64) -> (r: &mut Self)
        ensures
            r@ == (DeviceV { id: v, ..old(self)@ }),
            final(self)@ == final(r)@,
    {
        self.id = v;
        self
    }

    /// The energy/performance bias (0 to 15).
    pub fn energy_perf_bias(&self) -> (r: Option<u64>)
        ensures
            r == self@.energy_perf_bias,
    {
        self.energy_perf_bias
    }

    /// The energy/performance preference.
    pub fn energy_performance_preference(&self) -> (r: Option<&str>)
        ensures
            opt_str(r) == self@.energy_performance_preference,
    {
        match &self.energy_performance_preference {
            Some(s) => Some(s.as_str()),
            None => None,
        }
    }

    /// The energy/performance preferences that the cpu offers.
    pub fn energy_performance_available_preferences(&self) -> (r: Option<&[String]>)
        ensures
            match r {
                Some(v) => self@.energy_performance_available_preferences == Some(strings(v@)),
                None => self@.energy_performance_available_preferences is None,
            },
    {
        match &self.energy_performance_available_preferences {
            Some(v) => Some(v.as_slice()),
            None => None,
        }
    }

    /// Sets the energy/performance bias.
    pub fn set_energy_perf_bias(&mut self, v: Option<u64>) -> (r: &mut Self)
        ensures
            r@ == (DeviceV { energy_perf_bias: v, ..old(self)@ }),
            final(self)@ == final(r)@,
    {
        self.energy_perf_bias = v;
        self
    }

    /// Sets the energy/performance preference.
    pub fn set_energy_performance_preference(&mut self, v: Option<String>) -> (r: &mut Self)
        ensures
            r@ == (DeviceV { energy_performance_preference: opt_text(v), ..old(self)@ }),
            final(self)@ == final(r)@,
    {
        self.energy_performance_preference = v;
        self
    }

    /// Whether the device has no value but its id.
    pub fn is_empty(&self) -> (r: bool)
        ensures
            r == device_empty(self@),
    {
        self.energy_perf_bias.is_none() && self.energy_performance_preference.is_none()
            && self.energy_performance_available_preferences.is_none()
    }

    /// Removes every value but the id.
    pub fn clear(&mut self) -> (r: &mut Self)
        ensures
            r@.id == old(self)@.id,
            device_empty(r@),
            final(self)@ == final(r)@,
    {
        *self = Self::new(self.id);
        self
    }
}

/// Whether the ids of `ds` are strictly increasing.
pub open spec fn ids_increasing(ds: Seq<DeviceV>) -> bool {
    forall|i: int, j: int| 0 <= i < j < ds.len() ==> ds[i].id < ds[j].id
}

/// How many devices of `ds`, from the front, have an id below `id`: where a
/// device with `id` is, or would go.
pub open spec fn insert_pos(ds: Seq<DeviceV>, id: u64) -> nat
    decreases ds.len(),
{
    if ds.len() == 0 {
        0
    } else if ds[0].id < id {
        1 + insert_pos(ds.drop_first(), id)
    } else {
        0
    }
}

/// `ds` with `d` put in by id: it replaces the device with its id, or goes in
/// at its place in id order.
pub open spec fn put_device(ds: Seq<DeviceV>, d: DeviceV) -> Seq<DeviceV> {
    let p = insert_pos(ds, d.id) as int;
    if p < ds.len() && ds[p].id == d.id {
        ds.update(p, d)
    } else {
        ds.insert(p, d)
    }
}

/// `put_device` of each of `news` in turn.
pub open spec fn put_devices(ds: Seq<DeviceV>, news: Seq<DeviceV>) -> Seq<DeviceV>
    decreases news.len(),
{
    if news.len() == 0 {
        ds
    } else {
        put_device(put_devices(ds, news.drop_last()), news.last())
    }
}

/// `insert_pos` is the first index whose id is not below `id`.
pub proof fn lemma_insert_pos(ds: Seq<DeviceV>, id: u64, i: int)
    requires
        0 <= i <= ds.len(),
        forall|k: int| 0 <= k < i ==> ds[k].id < id,
        i == ds.len() || ds[i].id >= id,
    ensures
        insert_pos(ds, id) == i,
    decreases ds.len(),
{
    if ds.len() > 0 && i > 0 {
        assert forall|k: int| 0 <= k < i - 1 implies ds.drop_first()[k].id < id by {
            assert(ds.drop_first()[k] == ds[k + 1]);
        }
        lemma_insert_pos(ds.drop_first(), id, i - 1);
    }
}

/// `insert_pos` of a sorted sequence: devices before it have lower ids, those
/// from it on do not.
pub proof fn lemma_insert_pos_bounds(ds: Seq<DeviceV>, id: u64)
    requires
        ids_increasing(ds),
    ensures
        insert_pos(ds, id) <= ds.len(),
        forall|k: int| 0 <= k < insert_pos(ds, id) ==> ds[k].id < id,
        forall|k: int| insert_pos(ds, id) <= k < ds.len() ==> ds[k].id >= id,
    decreases ds.len(),
{
    if ds.len() > 0 {
        let t = ds.drop_first();
        assert(ids_increasing(t)) by {
            assert forall|i: int, j: int| 0 <= i < j < t.len() implies t[i].id < t[j].id by {
                assert(t[i] == ds[i + 1] && t[j] == ds[j + 1]);
            }
        }
        lemma_insert_pos_bounds(t, id);
        if ds[0].id < id {
            assert forall|k: int| 0 <= k < insert_pos(ds, id) implies ds[k].id < id by {
                if k > 0 {
                    assert(ds[k] == t[k - 1]);
                }
            }
            assert forall|k: int| insert_pos(ds, id) <= k < ds.len() implies ds[k].id >= id by {
                assert(ds[k] == t[k - 1]);
            }
        } else {
            assert forall|k: int| 0 <= k < ds.len() implies ds[k].id >= id by {
                if k > 0 {
                    assert(ds[0].id < ds[k].id);
                }
            }
        }
    }
}

/// Putting in a device keeps the devices in increasing id order, one per id.
pub proof fn law_put_device_keeps_order(ds: Seq<DeviceV>, d: DeviceV)
    requires
        ids_increasing(ds),
    ensures
        ids_increasing(put_device(ds, d)),
{
    lemma_insert_pos_bounds(ds, d.id);
    let p = insert_pos(ds, d.id) as int;
    if p < ds.len() && ds[p].id == d.id {
        let nd = ds.update(p, d);
        assert forall|a: int, b: int| 0 <= a < b < nd.len() implies nd[a].id < nd[b].id by {
            if a == p {
                assert(ds[p].id < ds[b].id);
            } else if b == p {
                assert(ds[a].id < ds[p].id);
            }
        }
    } else {
        ds.insert_ensures(p, d);
        let nd = ds.insert(p, d);
        assert forall|a: int, b: int| 0 <= a < b < nd.len() implies nd[a].id < nd[b].id by {
            if b < p {
            } else if b == p {
            } else if a < p {
                assert(nd[b] == ds[b - 1]);
            } else if a == p {
                assert(nd[b] == ds[b - 1]);
                assert(ds[b - 1].id >= d.id);
                assert(ds[b - 1].id != d.id || b - 1 == p) by {
                    if ds[b - 1].id == d.id && b - 1 > p {
                        assert(ds[p].id < ds[b - 1].id);
                    }
                }
            } else {
                assert(nd[a] == ds[a - 1]);
                assert(nd[b] == ds[b - 1]);
            }
        }
    }
}

/// After putting in `d`, the devices are `d` and those of `ds` with other ids:
/// the device with `d`'s id is replaced, every other one kept.
pub proof fn law_put_device_contents(ds: Seq<DeviceV>, d: DeviceV)
    requires
        ids_increasing(ds),
    ensures
        put_device(ds, d).contains(d),
        forall|e: DeviceV| ds.contains(e) && e.id != d.id ==> put_device(ds, d).contains(e),
        forall|e: DeviceV| put_device(ds, d).contains(e) ==> e == d || (ds.contains(e) && e.id != d.id),
        (exists|k: int| 0 <= k < ds.len() && ds[k].id == d.id) ==> put_device(ds, d).len() == ds.len(),
        !(exists|k: int| 0 <= k < ds.len() && ds[k].id == d.id) ==> put_device(ds, d).len() == ds.len() + 1,
{
    lemma_insert_pos_bounds(ds, d.id);
    let p = insert_pos(ds, d.id) as int;
    let nd = put_device(ds, d);
    if p < ds.len() && ds[p].id == d.id {
        assert(nd[p] == d);
        assert forall|e: DeviceV| ds.contains(e) && e.id != d.id implies nd.contains(e) by {
            let k = choose|k: int| 0 <= k < ds.len() && ds[k] == e;
            assert(k != p);
            assert(nd[k] == e);
        }
        assert forall|e: DeviceV| nd.contains(e) implies e == d || (ds.contains(e) && e.id != d.id) by {
            let k = choose|k: int| 0 <= k < nd.len() && nd[k] == e;
            if k != p {
                assert(ds[k] == e);
                if k < p {
                    assert(ds[k].id < ds[p].id);
                } else {
                    assert(ds[p].id < ds[k].id);
                }
            }
        }
    } else {
        ds.insert_ensures(p, d);
        assert(nd[p] == d);
        assert forall|e: DeviceV| ds.contains(e) && e.id != d.id implies nd.contains(e) by {
            let k = choose|k: int| 0 <= k < ds.len() && ds[k] == e;
            if k < p {
                assert(nd[k] == e);
            } else {
                assert(nd[k + 1] == e);
            }
        }
        assert forall|e: DeviceV| nd.contains(e) implies e == d || (ds.contains(e) && e.id != d.id) by {
            let k = choose|k: int| 0 <= k < nd.len() && nd[k] == e;
            if k < p {
                assert(ds[k] == e);
            } else if k > p {
                assert(ds[k - 1] == e);
                assert(ds[k - 1].id >= d.id);
                if ds[k - 1].id == d.id {
                    if p < ds.len() {
                        assert(ds[p].id >= d.id);
                        if k - 1 > p {
                            assert(ds[p].id < ds[k - 1].id);
                        }
                    }
                }
            }
        }
        assert(!(exists|k: int| 0 <= k < ds.len() && ds[k].id == d.id)) by {
            if exists|k: int| 0 <= k < ds.len() && ds[k].id == d.id {
                let k = choose|k: int| 0 <= k < ds.len() && ds[k].id == d.id;
                if k < p {
                } else if k > p {
                    assert(ds[p].id < ds[k].id);
                }
            }
        }
    }
}

/// Putting in the same device twice leaves the devices as putting it in once.
pub proof fn law_put_device_idempotent(ds: Seq<DeviceV>, d: DeviceV)
    requires
        ids_increasing(ds),
    ensures
        put_device(put_device(ds, d), d) == put_device(ds, d),
{
    law_put_device_keeps_order(ds, d);
    lemma_insert_pos_bounds(ds, d.id);
    let nd = put_device(ds, d);
    lemma_insert_pos_bounds(nd, d.id);
    let p = insert_pos(ds, d.id) as int;
    if !(p < ds.len() && ds[p].id == d.id) {
        ds.insert_ensures(p, d);
    }
    assert(nd[p] == d);
    lemma_insert_pos(nd, d.id, p);
    assert(nd.update(p, d) =~= nd);
}

/// Whether `e` is among `news` and no later one of `news` has its id: `e` is
/// the last of `news` with its id.
pub open spec fn last_put(news: Seq<DeviceV>, e: DeviceV) -> bool {
    exists|k: int|
        0 <= k < news.len() && #[trigger] news[k] == e && forall|j: int| k < j < news.len() ==> news[j].id != e.id
}

/// Whether some device of `news` has the id `id`.
pub open spec fn id_put(news: Seq<DeviceV>, id: u64) -> bool {
    exists|k: int| 0 <= k < news.len() && #[trigger] news[k].id == id
}

/// `last_put` after one more device `d`.
proof fn lemma_last_put_push(news: Seq<DeviceV>, d: DeviceV, e: DeviceV)
    ensures
        last_put(news.push(d), e) <==> (e == d || (last_put(news, e) && e.id != d.id)),
{
    let all = news.push(d);
    let n = news.len() as int;
    if last_put(all, e) {
        let k = choose|k: int|
            0 <= k < all.len() && #[trigger] all[k] == e && forall|j: int| k < j < all.len() ==> all[j].id != e.id;
        if k < n {
            assert(all[n].id != e.id);
            assert(news[k] == e);
            assert forall|j: int| k < j < news.len() implies news[j].id != e.id by {
                assert(all[j] == news[j]);
            }
        }
    }
    if e == d {
        assert(all[n] == e);
    }
    if last_put(news, e) && e.id != d.id {
        let k = choose|k: int|
            0 <= k < news.len() && #[trigger] news[k] == e && forall|j: int| k < j < news.len() ==> news[j].id != e.id;
        assert(all[k] == e);
        assert forall|j: int| k < j < all.len() implies all[j].id != e.id by {
            if j < n {
                assert(all[j] == news[j]);
            }
        }
    }
}

/// `id_put` after one more device `d`.
proof fn lemma_id_put_push(news: Seq<DeviceV>, d: DeviceV, id: u64)
    ensures
        id_put(news.push(d), id) <==> (id_put(news, id) || d.id == id),
{
    let all = news.push(d);
    let n = news.len() as int;
    if id_put(all, id) {
        let k = choose|k: int| 0 <= k < all.len() && #[trigger] all[k].id == id;
        if k < n {
            assert(news[k].id == id);
        }
    }
    if id_put(news, id) {
        let k = choose|k: int| 0 <= k < news.len() && #[trigger] news[k].id == id;
        assert(all[k].id == id);
    }
    if d.id == id {
        assert(all[n].id == id);
    }
}

/// Putting in the devices `news` one after another keeps the devices in
/// increasing id order, one per id; each device after it is the last of
/// `news` with its id, or, where `news` has none with its id, a device of
/// `ds`.
pub proof fn law_put_devices(ds: Seq<DeviceV>, news: Seq<DeviceV>)
    requires
        ids_increasing(ds),
    ensures
        ids_increasing(put_devices(ds, news)),
        forall|e: DeviceV|
            #[trigger] put_devices(ds, news).contains(e) <==> (last_put(news, e) || (ds.contains(e) && !id_put(
                news,
                e.id,
            ))),
    decreases news.len(),
{
    if news.len() == 0 {
        assert forall|e: DeviceV| !last_put(news, e) && !id_put(news, e.id) by {}
    } else {
        let front = news.drop_last();
        let d = news.last();
        assert(news =~= front.push(d));
        law_put_devices(ds, front);
        let p = put_devices(ds, front);
        law_put_device_keeps_order(p, d);
        law_put_device_contents(p, d);
        assert forall|e: DeviceV|
            #[trigger] put_devices(ds, news).contains(e) <==> (last_put(news, e) || (ds.contains(e) && !id_put(
                news,
                e.id,
            ))) by {
            lemma_last_put_push(front, d, e);
            lemma_id_put_push(front, d, e.id);
            assert(p.contains(e) <==> (last_put(front, e) || (ds.contains(e) && !id_put(front, e.id))));
        }
    }
}

/// Putting in `a` and then `b` is putting in `a` followed by `b`.
pub proof fn law_put_devices_concat(ds: Seq<DeviceV>, a: Seq<DeviceV>, b: Seq<DeviceV>)
    ensures
        put_devices(put_devices(ds, a), b) == put_devices(ds, a + b),
    decreases b.len(),
{
    if b.len() == 0 {
        assert(a + b =~= a);
    } else {
        law_put_devices_concat(ds, a, b.drop_last());
        assert((a + b).drop_last() =~= a + b.drop_last());
        assert((a + b).last() == b.last());
    }
}

/// The values of a `System`.
pub struct SystemV {
    pub globals: GlobalsV,
    pub devices: Seq<DeviceV>,
}

/// The whole of intel_pstate: global values and the per-cpu devices, kept in
/// increasing id order with one device per id.
#[derive(Debug, PartialEq, Eq, Hash, PartialOrd, Ord)]
pub struct System {
    globals: Globals,
    devices: Vec<Device>,
}

/// The values of devices.
pub open spec fn device_views(v: Seq<Device>) -> Seq<DeviceV> {
    v.map_values(|d: Device| d@)
}

impl View for System {
    type V = SystemV;

    closed spec fn view(&self) -> SystemV {
        SystemV { globals: self.globals@, devices: device_views(self.devices@) }
    }
}

/// One call that changes a `System`, by the values it is given:
/// `set_globals`, `push_device` or `push_devices`.
pub enum SystemOp {
    SetGlobals(GlobalsV),
    PushDevice(DeviceV),
    PushDevices(Seq<DeviceV>),
}

/// The values of a system after `op`, as the call's contract says.
pub open spec fn after_op(s: SystemV, op: SystemOp) -> SystemV {
    match op {
        SystemOp::SetGlobals(g) => SystemV { globals: g, ..s },
        SystemOp::PushDevice(d) => SystemV { devices: put_device(s.devices, d), ..s },
        SystemOp::PushDevices(v) => SystemV { devices: put_devices(s.devices, v), ..s },
    }
}

/// The values of a system after the calls `ops`, in order.
pub open spec fn after_ops(s: SystemV, ops: Seq<SystemOp>) -> SystemV
    decreases ops.len(),
{
    if ops.len() == 0 {
        s
    } else {
        after_op(after_ops(s, ops.drop_last()), ops.last())
    }
}

/// The devices that the calls `ops` push, in order.
pub open spec fn pushed(ops: Seq<SystemOp>) -> Seq<DeviceV>
    decreases ops.len(),
{
    if ops.len() == 0 {
        Seq::empty()
    } else {
        pushed(ops.drop_last()) + match ops.last() {
            SystemOp::PushDevice(d) => seq![d],
            SystemOp::PushDevices(v) => v,
            SystemOp::SetGlobals(_) => Seq::empty(),
        }
    }
}

/// The devices after the calls `ops` are those of `s` with the pushed ones
/// put in, one after another.
proof fn lemma_after_ops_devices(s: SystemV, ops: Seq<SystemOp>)
    ensures
        after_ops(s, ops).devices == put_devices(s.devices, pushed(ops)),
    decreases ops.len(),
{
    if ops.len() == 0 {
    } else {
        let front = ops.drop_last();
        lemma_after_ops_devices(s, front);
        let before = after_ops(s, front);
        match ops.last() {
            SystemOp::PushDevice(d) => {
                assert(seq![d].drop_last() =~= Seq::<DeviceV>::empty());
                assert(seq![d].last() == d);
                assert(put_devices(before.devices, Seq::<DeviceV>::empty()) == before.devices);
                assert(put_devices(before.devices, seq![d]) == put_device(before.devices, d));
                law_put_devices_concat(s.devices, pushed(front), seq![d]);
            },
            SystemOp::PushDevices(v) => {
                law_put_devices_concat(s.devices, pushed(front), v);
            },
            SystemOp::SetGlobals(_) => {
                assert(pushed(front) + Seq::<DeviceV>::empty() =~= pushed(front));
            },
        }
    }
}

/// A system made with `new`, `default`, `from_globals` (no devices:
/// `initial` empty) or `from_devices(initial)`, then changed by any calls
/// `ops` of `set_globals`, `push_device` and `push_devices`, holds in
/// `devices()` each id pushed (by `initial` or by `ops`) exactly once, in
/// strictly increasing order, and for each id the device pushed last with
/// it.
pub proof fn law_system_history(globals: GlobalsV, initial: Seq<DeviceV>, ops: Seq<SystemOp>)
    ensures
        ({
            let s = after_ops(SystemV { globals, devices: put_devices(Seq::empty(), initial) }, ops);
            &&& s.devices == put_devices(Seq::empty(), initial + pushed(ops))
            &&& ids_increasing(s.devices)
            &&& forall|e: DeviceV| #[trigger] s.devices.contains(e) <==> last_put(initial + pushed(ops), e)
            &&& forall|id: u64| id_put(initial + pushed(ops), id) <==> exists|k: int|
                0 <= k < s.devices.len() && #[trigger] s.devices[k].id == id
        }),
{
    let s0 = SystemV { globals, devices: put_devices(Seq::empty(), initial) };
    let all = initial + pushed(ops);
    lemma_after_ops_devices(s0, ops);
    law_put_devices_concat(Seq::empty(), initial, pushed(ops));
    let ds = put_devices(Seq::<DeviceV>::empty(), all);
    law_put_devices(Seq::empty(), all);
    assert forall|id: u64| id_put(all, id) <==> exists|k: int| 0 <= k < ds.len() && #[trigger] ds[k].id == id by {
        if id_put(all, id) {
            let k = choose|k: int| 0 <= k < all.len() && #[trigger] all[k].id == id;
            lemma_last_of_id(all, k);
            let j = choose|j: int| k <= j < all.len() && last_put(all, #[trigger] all[j]) && all[j].id == id;
            assert(ds.contains(all[j]));
            let m = choose|m: int| 0 <= m < ds.len() && ds[m] == all[j];
            assert(ds[m].id == id);
        }
        if exists|k: int| 0 <= k < ds.len() && #[trigger] ds[k].id == id {
            let k = choose|k: int| 0 <= k < ds.len() && #[trigger] ds[k].id == id;
            assert(ds.contains(ds[k]));
            assert(last_put(all, ds[k]));
            let i = choose|i: int|
                0 <= i < all.len() && #[trigger] all[i] == ds[k] && forall|j: int| i < j < all.len() ==> all[j].id != ds[k].id;
            assert(all[i].id == id);
        }
    }
}

/// Among the devices of `news` from index `k` on with the id of `news[k]`,
/// one is the last with that id.
proof fn lemma_last_of_id(news: Seq<DeviceV>, k: int)
    requires
        0 <= k < news.len(),
    ensures
        exists|j: int| k <= j < news.len() && last_put(news, #[trigger] news[j]) && news[j].id == news[k].id,
    decreases news.len() - k,
{
    let id = news[k].id;
    if forall|j: int| k < j < news.len() ==> news[j].id != id {
        assert(last_put(news, news[k]));
    } else {
        let j = choose|j: int| k < j < news.len() && !(news[j].id != id);
        lemma_last_of_id(news, j);
        let m = choose|m: int| j <= m < news.len() && last_put(news, #[trigger] news[m]) && news[m].id == news[j].id;
        assert(k <= m);
    }
}

impl System {
    #[verifier::type_invariant]
    closed spec fn inv(self) -> bool {
        ids_increasing(device_views(self.devices@))
    }

    /// A system with no values and no devices.
    pub fn new() -> (r: Self)
        ensures
            globals_empty(r@.globals),
            r@.devices.len() == 0,
    {
        let r = System { globals: Globals::new(), devices: Vec::new() };
        assert(device_views(r.devices@) =~= Seq::<DeviceV>::empty());
        r
    }

    /// Replaces the global values.
    pub fn set_globals(&mut self, v: Globals) -> (r: &mut Self)
        ensures
            r@ == (SystemV { globals: v@, ..old(self)@ }),
            final(self)@ == final(r)@,
    {
        proof { use_type_invariant(&*self); }
        self.globals = v;
        self
    }

    /// The global values.
    pub fn globals(&self) -> (r: &Globals)
        ensures
            r@ == self@.globals,
    {
        &self.globals
    }

    /// The global values, taken out of the system.
    pub fn into_globals(self) -> (r: Globals)
        ensures
            r@ == self@.globals,
    {
        self.globals
    }

    /// Puts in a device: it replaces the device with the same id, if any, and
    /// otherwise goes in at its place in id order.
    pub fn push_device(&mut self, v: Device) -> (r: &mut Self)
        ensures
            r@ == (SystemV { devices: put_device(old(self)@.devices, v@), ..old(self)@ }),
            final(self)@ == final(r)@,
    {
        proof { use_type_invariant(&*self); }
        let ghost ds = device_views(self.devices@);
        let mut devs: Vec<Device> = Vec::new();
        std::mem::swap(&mut devs, &mut self.devices);
        let n = devs.len();
        let mut i: usize = 0;
        while i < n && devs[i].id < v.id
            invariant
                n == devs.len(),
                ds == device_views(devs@),
                ids_increasing(ds),
                i <= n,
                forall|k: int| 0 <= k < i ==> ds[k].id < v@.id,
            decreases n - i,
        {
            i = i + 1;
        }
        proof { lemma_insert_pos(ds, v@.id, i as int); }
        if i < n && devs[i].id == v.id {
            devs.set(i, v);
            assert(device_views(devs@) =~= ds.update(i as int, v@));
        } else {
            devs.insert(i, v);
            proof {
                ds.insert_ensures(i as int, v@);
                assert(device_views(devs@) =~= ds.insert(i as int, v@));
                let nd = device_views(devs@);
                assert forall|a: int, b: int| 0 <= a < b < nd.len() implies nd[a].id < nd[b].id by {
                    if b < i {
                    } else if b == i {
                    } else if a < i {
                        assert(nd[b] == ds[b - 1]);
                        assert(ds[b - 1].id >= v@.id);
                    } else if a == i {
                        assert(nd[b] == ds[b - 1]);
                    } else {
                        assert(nd[a] == ds[a - 1]);
                        assert(nd[b] == ds[b - 1]);
                    }
                }
            }
        }
        self.devices = devs;
        self
    }

    /// Puts in each device of `v` in turn, as `push_device` does.
    pub fn push_devices(&mut self, v: Vec<Device>) -> (r: &mut Self)
        ensures
            r@ == (SystemV { devices: put_devices(old(self)@.devices, device_views(v@)), ..old(self)@ }),
            final(self)@ == final(r)@,
    {
        let ghost news = device_views(v@);
        let mut rest = v;
        let mut taken: Vec<Device> = Vec::new();
        let ghost start = self@;
        assert(news.take(0) =~= Seq::<DeviceV>::empty());
        let mut k: usize = 0;
        let n = rest.len();
        while k < n
            invariant
                n == news.len(),
                k <= n,
                rest@.len() == n,
                device_views(rest@) == news,
                self@ == (SystemV { devices: put_devices(start.devices, news.take(k as int)), ..start }),
            decreases n - k,
        {
            let d = rest[k].clone_device();
            assert(news.take(k + 1).drop_last() =~= news.take(k as int));
            assert(news.take(k + 1).last() == news[k as int]);
            self.push_device(d);
            k = k + 1;
        }
        assert(news.take(n as int) =~= news);
        self
    }

    /// The devices, in increasing id order.
    pub fn devices(&self) -> (r: &[Device])
        ensures
            device_views(r@) == self@.devices,
            ids_increasing(self@.devices),
    {
        proof { use_type_invariant(self); }
        self.devices.as_slice()
    }

    /// The devices, taken out of the system.
    pub fn into_devices(self) -> (r: Vec<Device>)
        ensures
            device_views(r@) == self@.devices,
    {
        self.devices
    }

    /// Whether the system has no global values and no devices.
    pub fn is_empty(&self) -> (r: bool)
        ensures
            r == (globals_empty(self@.globals) && self@.devices.len() == 0),
    {
        self.globals.is_empty() && self.devices.len() == 0
    }

    /// Removes the global values and the devices.
    pub fn clear(&mut self) -> (r: &mut Self)
        ensures
            globals_empty(r@.globals),
            r@.devices.len() == 0,
            final(self)@ == final(r)@,
    {
        *self = Self::new();
        self
    }

    /// A system with the global values `v` and no devices.
    pub fn from_globals(v: Globals) -> (r: Self)
        ensures
            r@.globals == v@,
            r@.devices.len() == 0,
    {
        let mut s = Self::new();
        s.set_globals(v);
        s
    }

    /// A system with no global values and the devices of `v`, put in as
    /// `push_device` does.
    pub fn from_devices(v: Vec<Device>) -> (r: Self)
        ensures
            globals_empty(r@.globals),
            r@.devices == put_devices(Seq::empty(), device_views(v@)),
    {
        let mut s = Self::new();
        assert(s@.devices =~= Seq::<DeviceV>::empty());
        s.push_devices(v);
        s
    }
}

impl Default for System {
    /// A system with no values and no devices.
    fn default() -> (r: Self)
        ensures
            globals_empty(r@.globals),
            r@.devices.len() == 0,
    {
        Self::new()
    }
}

impl Device {
    /// A copy of this device.
    pub fn clone_device(&self) -> (r: Self)
        ensures
            r@ == self@,
    {
        Device {
            id: self.id,
            energy_perf_bias: self.energy_perf_bias,
            energy_performance_preference: clone_opt_string(&self.energy_performance_preference),
            energy_performance_available_preferences: clone_opt_strings(
                &self.energy_performance_available_preferences,
            ),
        }
    }
}

/// A copy of an optional string.
pub fn clone_opt_string(s: &Option<String>) -> (r: Option<String>)
    ensures
        opt_text(r) == opt_text(*s),
{
    match s {
        Some(x) => Some(x.clone()),
        None => None,
    }
}

/// A copy of a vector of strings.
pub fn clone_strings(v: &Vec<String>) -> (r: Vec<String>)
    ensures
        strings(r@) == strings(v@),
{
    let mut out: Vec<String> = Vec::new();
    let mut i: usize = 0;
    while i < v.len()
        invariant
            i <= v.len(),
            strings(out@) =~= strings(v@.subrange(0, i as int)),
        decreases v.len() - i,
    {
        let ghost before = out@;
        out.push(v[i].clone());
        assert(strings(out@) =~= strings(before).push(v@[i as int]@));
        assert(strings(v@.subrange(0, i + 1)) =~= strings(v@.subrange(0, i as int)).push(v@[i as int]@));
        i = i + 1;
    }
    assert(v@.subrange(0, v@.len() as int) =~= v@);
    out
}

/// A copy of an optional vector of strings.
pub fn clone_opt_strings(s: &Option<Vec<String>>) -> (r: Option<Vec<String>>)
    ensures
        opt_strings(r) == opt_strings(*s),
{
    match s {
        Some(x) => Some(clone_strings(x)),
        None => None,
    }
}

} // verus!
