//! What a group of values sets on each subsystem: the per-device values to
//! write.

use vstd::prelude::*;

use crate::cli::group::{CardId, CardIdV, Group};
use crate::cli::parse::{micros_spec, DurationStr, FrequencyStr, PowerStr};
use crate::intel_rapl::ZoneId;
use crate::intel_pstate::{opt_text, Device as PstateDevice, DeviceV as PstateDeviceV};

verus! {

/// Converts a group of values into what they set on one subsystem.
pub trait ToResource<R> {
    /// Whether the conversion is defined for this value.
    spec fn convertible(&self) -> bool;

    /// The values to write, or `None` when the group sets nothing there.
    fn to_resource(&self) -> (r: Option<R>)
        requires
            self.convertible(),
    ;
}

/// The online state to set on one cpu.
#[derive(Clone, Copy, Debug, PartialEq, Eq, Structural)]
pub struct CpuDevice {
    pub id: u64,
    pub online: Option<bool>,
}

/// The online states to set on cpus.
#[derive(Clone, Debug)]
pub struct Cpu {
    pub devices: Vec<CpuDevice>,
}

/// The index of the first device of `ds` with id `id`, if any.
pub open spec fn first_with_id(ds: Seq<CpuDevice>, id: u64) -> Option<int>
    decreases ds.len(),
{
    if ds.len() == 0 {
        None
    } else {
        match first_with_id(ds.drop_last(), id) {
            Some(i) => Some(i),
            None => if ds.last().id == id { Some(ds.len() - 1) } else { None },
        }
    }
}

/// `ds` after the toggle `(id, on)`: the first device with `id` gets the state
/// `on`, or a device with it is added at the end.
pub open spec fn apply_toggle(ds: Seq<CpuDevice>, t: (u64, bool)) -> Seq<CpuDevice> {
    match first_with_id(ds, t.0) {
        Some(i) => ds.update(i, CpuDevice { id: t.0, online: Some(t.1) }),
        None => ds.push(CpuDevice { id: t.0, online: Some(t.1) }),
    }
}

/// `ds` after each toggle of `ts` in turn.
pub open spec fn apply_toggles(ds: Seq<CpuDevice>, ts: Seq<(u64, bool)>) -> Seq<CpuDevice>
    decreases ts.len(),
{
    if ts.len() == 0 {
        ds
    } else {
        apply_toggle(apply_toggles(ds, ts.drop_last()), ts.last())
    }
}

/// The cpu devices that a group sets, before ordering: each cpu of `cpu` with
/// the state `cpu_on`, then the toggles of `cpu_on_each`.
pub open spec fn cpu_devices_spec(g: Group) -> Seq<CpuDevice> {
    let base = cpu_base_spec(g);
    match g.cpu_on_each {
        Some(ts) => apply_toggles(base, ts@),
        None => base,
    }
}

/// Each cpu of `cpu` with the state `cpu_on`.
pub open spec fn cpu_base_spec(g: Group) -> Seq<CpuDevice> {
    match g.cpu {
        Some(ids) => ids@.map_values(|id: u64| CpuDevice { id, online: g.cpu_on }),
        None => Seq::empty(),
    }
}

/// Whether the ids of `ds` never decrease.
pub open spec fn cpu_ids_sorted(ds: Seq<CpuDevice>) -> bool {
    forall|i: int, j: int| 0 <= i < j < ds.len() ==> ds[i].id <= ds[j].id
}

/// The index of the first device of `ds` with id `id`, if any.
pub fn find_cpu(ds: &Vec<CpuDevice>, id: u64) -> (r: Option<usize>)
    ensures
        r matches Some(i) ==> i < ds@.len() && ds@[i as int].id == id,
        match r {
            Some(i) => first_with_id(ds@, id) == Some(i as int),
            None => first_with_id(ds@, id) is None,
        },
{
    let mut i: usize = 0;
    assert(ds@.take(0) =~= Seq::<CpuDevice>::empty());
    while i < ds.len()
        invariant
            i <= ds.len(),
            first_with_id(ds@.take(i as int), id) is None,
        decreases ds.len() - i,
    {
        assert(ds@.take(i + 1).drop_last() =~= ds@.take(i as int));
        if ds[i].id == id {
            proof { lemma_first_with_id_prefix(ds@, i as int + 1, id); }
            return Some(i);
        }
        i = i + 1;
    }
    assert(ds@.take(ds@.len() as int) =~= ds@);
    None
}

/// Once a prefix has a device with `id`, the first one stays the first.
pub proof fn lemma_first_with_id_prefix(ds: Seq<CpuDevice>, k: int, id: u64)
    requires
        0 <= k <= ds.len(),
        first_with_id(ds.take(k), id) is Some,
    ensures
        first_with_id(ds, id) == first_with_id(ds.take(k), id),
    decreases ds.len() - k,
{
    if k < ds.len() {
        assert(ds.take(k + 1).drop_last() =~= ds.take(k));
        lemma_first_with_id_prefix(ds, k + 1, id);
    } else {
        assert(ds.take(k) =~= ds);
    }
}

/// Sorts `ds` by id, keeping devices with equal ids in their order.
pub fn sort_by_id(ds: Vec<CpuDevice>) -> (r: Vec<CpuDevice>)
    ensures
        cpu_ids_sorted(r@),
        r@.to_multiset() == ds@.to_multiset(),
{
    let mut out: Vec<CpuDevice> = Vec::new();
    let mut k: usize = 0;
    broadcast use vstd::multiset::group_multiset_axioms;
    broadcast use vstd::seq_lib::group_to_multiset_ensures;
    assert(ds@.take(0) =~= Seq::<CpuDevice>::empty());
    while k < ds.len()
        invariant
            k <= ds.len(),
            cpu_ids_sorted(out@),
            out@.to_multiset() == ds@.take(k as int).to_multiset(),
        decreases ds.len() - k,
    {
        let d = ds[k];
        let mut i = out.len();
        while i > 0 && out[i - 1].id > d.id
            invariant
                i <= out.len(),
                forall|j: int| i <= j < out@.len() ==> out@[j].id > d.id,
            decreases i,
        {
            i = i - 1;
        }
        let ghost before = out@;
        out.insert(i, d);
        proof {
            before.insert_ensures(i as int, d);
            assert forall|a: int, b: int| 0 <= a < b < out@.len() implies out@[a].id <= out@[b].id by {
                if b < i {
                } else if b == i {
                    if a < i {
                        assert(i > 0);
                        assert(before[i - 1].id <= d.id);
                        assert(before[a].id <= before[i - 1].id || a == i - 1);
                    }
                } else if a < i {
                    assert(out@[b] == before[b - 1]);
                } else if a == i {
                    assert(out@[b] == before[b - 1]);
                } else {
                    assert(out@[a] == before[a - 1]);
                    assert(out@[b] == before[b - 1]);
                }
            }
            vstd::seq_lib::to_multiset_insert(before, i as int, d);
            assert(ds@.take(k + 1) =~= ds@.take(k as int).push(d));
            ds@.take(k as int).to_multiset_ensures();
        }
        k = k + 1;
    }
    assert(ds@.take(ds@.len() as int) =~= ds@);
    out
}

/// What `to_resource` gives for `Cpu`.
pub open spec fn cpu_resource_spec(g: Group, r: Option<Cpu>) -> bool {
    &&& !g.has_cpu_values_spec() ==> r is None
    &&& g.has_cpu_values_spec() && cpu_devices_spec(g).len() == 0 ==> r is None
    &&& g.has_cpu_values_spec() && cpu_devices_spec(g).len() > 0 ==> (r matches Some(c)
        && cpu_ids_sorted(c.devices@)
        && c.devices@.to_multiset() == cpu_devices_spec(g).to_multiset())
}

impl ToResource<Cpu> for Group {
    open spec fn convertible(&self) -> bool {
        true
    }

    /// The cpu online states: each cpu of `cpu` set to `cpu_on`, then each
    /// toggle of `cpu_on_each` (on an existing device, or as a new one); in
    /// increasing id order. `None` when no online state is given or no cpu
    /// results.
    fn to_resource(&self) -> (r: Option<Cpu>)
        ensures
            cpu_resource_spec(*self, r),
    {
        if !self.has_cpu_values() {
            return None;
        }
        let mut devices: Vec<CpuDevice> = Vec::new();
        let ghost base = cpu_base_spec(*self);
        match &self.cpu {
            Some(ids) => {
                let mut i: usize = 0;
                while i < ids.len()
                    invariant
                        i <= ids.len(),
                        devices@ =~= ids@.subrange(0, i as int).map_values(|id: u64| CpuDevice { id, online: self.cpu_on }),
                    decreases ids.len() - i,
                {
                    devices.push(CpuDevice { id: ids[i], online: self.cpu_on });
                    i = i + 1;
                }
                assert(ids@.subrange(0, ids@.len() as int) =~= ids@);
            },
            None => {},
        }
        assert(devices@ == base);
        match &self.cpu_on_each {
            Some(ts) => {
                let mut k: usize = 0;
                assert(ts@.take(0) =~= Seq::<(u64, bool)>::empty());
                while k < ts.len()
                    invariant
                        k <= ts.len(),
                        devices@ == apply_toggles(base, ts@.take(k as int)),
                    decreases ts.len() - k,
                {
                    assert(ts@.take(k + 1).drop_last() =~= ts@.take(k as int));
                    let (id, online) = ts[k];
                    match find_cpu(&devices, id) {
                        Some(i) => {
                            devices.set(i, CpuDevice { id, online: Some(online) });
                        },
                        None => {
                            devices.push(CpuDevice { id, online: Some(online) });
                        },
                    }
                    k = k + 1;
                }
                assert(ts@.take(ts@.len() as int) =~= ts@);
            },
            None => {},
        }
        if devices.len() == 0 {
            None
        } else {
            Some(Cpu { devices: sort_by_id(devices) })
        }
    }
}

/// The cpufreq values to set on one policy.
#[derive(Clone, Debug)]
pub struct CpufreqPolicy {
    pub id: u64,
    pub scaling_governor: Option<String>,
    pub scaling_min_freq: Option<FrequencyStr>,
    pub scaling_max_freq: Option<FrequencyStr>,
}

/// The cpufreq values to set on policies.
#[derive(Clone, Debug)]
pub struct Cpufreq {
    pub policies: Vec<CpufreqPolicy>,
}

/// The text and unit of an optional frequency.
pub open spec fn opt_freq(f: Option<FrequencyStr>) -> Option<(Seq<char>, crate::cli::parse::FrequencyUnit)> {
    match f {
        Some(x) => Some((x.number@, x.unit)),
        None => None,
    }
}

/// A copy of an optional frequency.
pub fn clone_opt_freq(f: &Option<FrequencyStr>) -> (r: Option<FrequencyStr>)
    ensures
        opt_freq(r) == opt_freq(*f),
{
    match f {
        Some(x) => Some(x.clone()),
        None => None,
    }
}

/// A copy of an optional string.
pub fn clone_opt_string(s: &Option<String>) -> (r: Option<String>)
    ensures
        opt_text(r) == opt_text(*s),
{
    match s {
        Some(x) => Some(x.clone()),
        None => None,
    }
}

/// What `to_resource` gives for `Cpufreq`.
pub open spec fn cpufreq_resource_spec(g: Group, r: Option<Cpufreq>) -> bool {
    &&& match r {
        None => !g.has_cpufreq_values_spec() || g.cpu is None || g.cpu->0@.len() == 0,
        Some(c) => g.has_cpufreq_values_spec() && (g.cpu matches Some(ids) && {
            &&& c.policies@.len() == ids@.len() > 0
            &&& forall|i: int| 0 <= i < ids@.len() ==> {
                &&& (#[trigger] c.policies@[i]).id == ids@[i]
                &&& opt_text(c.policies@[i].scaling_governor) == opt_text(g.cpufreq_gov)
                &&& opt_freq(c.policies@[i].scaling_min_freq) == opt_freq(g.cpufreq_min)
                &&& opt_freq(c.policies@[i].scaling_max_freq) == opt_freq(g.cpufreq_max)
            }
        }),
    }
}

impl ToResource<Cpufreq> for Group {
    open spec fn convertible(&self) -> bool {
        true
    }

    /// One policy per cpu of `cpu`, in that order, each with the governor and
    /// the frequency limits of the group. `None` when no cpufreq value is given
    /// or no cpu is named.
    fn to_resource(&self) -> (r: Option<Cpufreq>)
        ensures
            cpufreq_resource_spec(*self, r),
    {
        if !self.has_cpufreq_values() {
            return None;
        }
        let ids = match &self.cpu {
            Some(ids) => ids,
            None => return None,
        };
        let mut policies: Vec<CpufreqPolicy> = Vec::new();
        let mut i: usize = 0;
        while i < ids.len()
            invariant
                i <= ids.len(),
                self.cpu == Some(*ids),
                policies@.len() == i,
                forall|k: int| 0 <= k < i ==> {
                    &&& (#[trigger] policies@[k]).id == ids@[k]
                    &&& opt_text(policies@[k].scaling_governor) == opt_text(self.cpufreq_gov)
                    &&& opt_freq(policies@[k].scaling_min_freq) == opt_freq(self.cpufreq_min)
                    &&& opt_freq(policies@[k].scaling_max_freq) == opt_freq(self.cpufreq_max)
                },
            decreases ids.len() - i,
        {
            policies.push(CpufreqPolicy {
                id: ids[i],
                scaling_governor: clone_opt_string(&self.cpufreq_gov),
                scaling_min_freq: clone_opt_freq(&self.cpufreq_min),
                scaling_max_freq: clone_opt_freq(&self.cpufreq_max),
            });
            i = i + 1;
        }
        if policies.len() == 0 {
            None
        } else {
            Some(Cpufreq { policies })
        }
    }
}

/// The i915 frequencies to set on one card.
#[derive(Clone, Debug)]
pub struct I915Device {
    pub id: u64,
    pub min_freq: Option<FrequencyStr>,
    pub max_freq: Option<FrequencyStr>,
    pub boost_freq: Option<FrequencyStr>,
}

/// The i915 frequencies to set on cards.
#[derive(Clone, Debug)]
pub struct I915 {
    pub devices: Vec<I915Device>,
}

/// Whether every card of the list is given by its drm index.
pub open spec fn all_indices(cards: Seq<CardId>) -> bool {
    forall|i: int| 0 <= i < cards.len() ==> (#[trigger] cards[i]) is Index
}

/// What `to_resource` gives for `I915`.
pub open spec fn i915_resource_spec(g: Group, r: Option<I915>) -> bool {
    &&& match r {
        None => !g.has_i915_values_spec() || g.i915 is None || g.i915->0@.len() == 0,
        Some(c) => g.has_i915_values_spec() && (g.i915 matches Some(cards) && {
            &&& c.devices@.len() == cards@.len() > 0
            &&& forall|i: int| 0 <= i < cards@.len() ==> {
                &&& cards@[i]@ == CardIdV::Index((#[trigger] c.devices@[i]).id)
                &&& opt_freq(c.devices@[i].min_freq) == opt_freq(g.i915_min)
                &&& opt_freq(c.devices@[i].max_freq) == opt_freq(g.i915_max)
                &&& opt_freq(c.devices@[i].boost_freq) == opt_freq(g.i915_boost)
            }
        }),
    }
}

impl ToResource<I915> for Group {
    /// Cards given by bus id are not supported: the group must name its i915
    /// cards by drm index.
    open spec fn convertible(&self) -> bool {
        self.has_i915_values_spec() ==> (self.i915 matches Some(cards) ==> all_indices(cards@))
    }

    /// One device per card of `i915`, in that order, each with the frequencies
    /// of the group. `None` when no i915 value is given or no card is named.
    /// Cards given by bus id are not supported here: the group must name its
    /// i915 cards by drm index.
    fn to_resource(&self) -> (r: Option<I915>)
        ensures
            i915_resource_spec(*self, r),
    {
        if !self.has_i915_values() {
            return None;
        }
        let cards = match &self.i915 {
            Some(c) => c,
            None => return None,
        };
        let mut devices: Vec<I915Device> = Vec::new();
        let mut i: usize = 0;
        while i < cards.len()
            invariant
                i <= cards.len(),
                self.i915 == Some(*cards),
                all_indices(cards@),
                devices@.len() == i,
                forall|k: int| 0 <= k < i ==> {
                    &&& cards@[k]@ == CardIdV::Index((#[trigger] devices@[k]).id)
                    &&& opt_freq(devices@[k].min_freq) == opt_freq(self.i915_min)
                    &&& opt_freq(devices@[k].max_freq) == opt_freq(self.i915_max)
                    &&& opt_freq(devices@[k].boost_freq) == opt_freq(self.i915_boost)
                },
            decreases cards.len() - i,
        {
            let id = match &cards[i] {
                CardId::Index(id) => *id,
                CardId::BusId(_) => {
                    assert(cards@[i as int] is Index);
                    0
                },
            };
            devices.push(I915Device {
                id,
                min_freq: clone_opt_freq(&self.i915_min),
                max_freq: clone_opt_freq(&self.i915_max),
                boost_freq: clone_opt_freq(&self.i915_boost),
            });
            i = i + 1;
        }
        if devices.len() == 0 {
            None
        } else {
            Some(I915 { devices })
        }
    }
}

/// The intel_pstate values to set on cpus.
#[derive(Debug)]
pub struct IntelPstate {
    pub devices: Vec<PstateDevice>,
}

/// What `to_resource` gives for `IntelPstate`.
pub open spec fn pstate_resource_spec(g: Group, r: Option<IntelPstate>) -> bool {
    &&& match r {
        None => !g.has_pstate_values_spec() || g.cpu is None || g.cpu->0@.len() == 0,
        Some(c) => g.has_pstate_values_spec() && (g.cpu matches Some(ids) && {
            &&& c.devices@.len() == ids@.len() > 0
            &&& forall|i: int| 0 <= i < ids@.len() ==> (#[trigger] c.devices@[i])@ == (PstateDeviceV {
                id: ids@[i],
                energy_perf_bias: g.pstate_epb,
                energy_performance_preference: opt_text(g.pstate_epp),
                energy_performance_available_preferences: None,
            })
        }),
    }
}

impl ToResource<IntelPstate> for Group {
    open spec fn convertible(&self) -> bool {
        true
    }

    /// One device per cpu of `cpu`, in that order, each with the bias and the
    /// preference of the group. `None` when no intel_pstate value is given or
    /// no cpu is named.
    fn to_resource(&self) -> (r: Option<IntelPstate>)
        ensures
            pstate_resource_spec(*self, r),
    {
        if !self.has_pstate_values() {
            return None;
        }
        let ids = match &self.cpu {
            Some(ids) => ids,
            None => return None,
        };
        let mut devices: Vec<PstateDevice> = Vec::new();
        let mut i: usize = 0;
        while i < ids.len()
            invariant
                i <= ids.len(),
                self.cpu == Some(*ids),
                devices@.len() == i,
                forall|k: int| 0 <= k < i ==> (#[trigger] devices@[k])@ == (PstateDeviceV {
                    id: ids@[k],
                    energy_perf_bias: self.pstate_epb,
                    energy_performance_preference: opt_text(self.pstate_epp),
                    energy_performance_available_preferences: None,
                }),
            decreases ids.len() - i,
        {
            let mut d = PstateDevice::new(ids[i]);
            d.set_energy_perf_bias(self.pstate_epb);
            d.set_energy_performance_preference(clone_opt_string(&self.pstate_epp));
            devices.push(d);
            i = i + 1;
        }
        if devices.len() == 0 {
            None
        } else {
            Some(IntelPstate { devices })
        }
    }
}

/// A power constraint of a zone to set.
#[derive(Clone, Debug)]
pub struct Constraint {
    pub name: Option<String>,
    pub power_limit: Option<PowerStr>,
    pub time_window_us: Option<u64>,
}

/// The constraints to set on one zone.
#[derive(Clone, Debug)]
pub struct RaplDevice {
    pub id: ZoneId,
    pub constraints: Vec<Constraint>,
}

/// The intel_rapl values to set.
#[derive(Clone, Debug)]
pub struct IntelRapl {
    pub devices: Vec<RaplDevice>,
}

/// The text and unit of an optional power.
pub open spec fn opt_power(p: Option<PowerStr>) -> Option<(Seq<char>, crate::cli::parse::PowerUnit)> {
    match p {
        Some(x) => Some((x.number@, x.unit)),
        None => None,
    }
}

/// The whole microseconds of an optional duration.
pub open spec fn opt_micros(d: Option<DurationStr>) -> Option<nat> {
    match d {
        Some(x) => Some(micros_spec(x.value, x.unit)),
        None => None,
    }
}

/// Whether constraint `c` is named `name` with the limit and window given.
pub open spec fn constraint_is(c: Constraint, name: Seq<char>, limit: Option<PowerStr>, window: Option<DurationStr>) -> bool {
    &&& opt_text(c.name) == Some(name)
    &&& opt_power(c.power_limit) == opt_power(limit)
    &&& (match c.time_window_us {
        Some(w) => opt_micros(window) == Some(w as nat),
        None => window is None,
    })
}

/// Whether the windows of the group fit in a `u64` of microseconds.
pub open spec fn rapl_windows_fit(g: Group) -> bool {
    &&& (g.rapl_long_window matches Some(w) ==> micros_spec(w.value, w.unit) <= u64::MAX)
    &&& (g.rapl_short_window matches Some(w) ==> micros_spec(w.value, w.unit) <= u64::MAX)
}

/// Whether `cs` are the constraints of `g`: `long_term` when a long limit or
/// window is given, then `short_term` when a short one is.
pub open spec fn rapl_constraints_spec(g: Group, cs: Seq<Constraint>) -> bool {
    let long = g.rapl_long_limit is Some || g.rapl_long_window is Some;
    let short = g.rapl_short_limit is Some || g.rapl_short_window is Some;
    &&& cs.len() == (if long { 1int } else { 0 }) + (if short { 1int } else { 0 })
    &&& long ==> constraint_is(cs[0], "long_term"@, g.rapl_long_limit, g.rapl_long_window)
    &&& short ==> constraint_is(cs[cs.len() - 1], "short_term"@, g.rapl_short_limit, g.rapl_short_window)
}

/// A copy of an optional power.
pub fn clone_opt_power(p: &Option<PowerStr>) -> (r: Option<PowerStr>)
    ensures
        opt_power(r) == opt_power(*p),
{
    match p {
        Some(x) => Some(x.clone()),
        None => None,
    }
}

/// The constraint named `name` with `limit` and `window`.
pub fn make_constraint(name: &str, limit: &Option<PowerStr>, window: &Option<DurationStr>) -> (r: Constraint)
    requires
        window matches Some(w) ==> micros_spec(w.value, w.unit) <= u64::MAX,
    ensures
        constraint_is(r, name@, *limit, *window),
{
    let time_window_us = match window {
        Some(w) => Some(w.as_micros() as u64),
        None => None,
    };
    Constraint { name: Some(String::from_str(name)), power_limit: clone_opt_power(limit), time_window_us }
}

/// What `to_resource` gives for `IntelRapl`.
pub open spec fn rapl_resource_spec(g: Group, r: Option<IntelRapl>) -> bool {
    &&& match r {
        None => !g.has_rapl_values_spec() || g.rapl_package is None,
        Some(c) => g.has_rapl_values_spec() && (g.rapl_package matches Some(p) && {
            &&& c.devices@.len() == 1
            &&& c.devices@[0].id == ZoneId { zone: p, subzone: g.rapl_zone }
            &&& rapl_constraints_spec(g, c.devices@[0].constraints@)
        }),
    }
}

impl ToResource<IntelRapl> for Group {
    /// The time windows must fit in a `u64` of microseconds.
    open spec fn convertible(&self) -> bool {
        rapl_windows_fit(*self)
    }

    /// The zone `rapl_package` (with `rapl_zone` as sub-zone) with its
    /// `long_term` and `short_term` constraints. `None` when no intel_rapl
    /// value is given or no package is named.
    fn to_resource(&self) -> (r: Option<IntelRapl>)
        ensures
            rapl_resource_spec(*self, r),
    {
        if !self.has_rapl_values() {
            return None;
        }
        let zone = match self.rapl_package {
            Some(z) => z,
            None => return None,
        };
        let id = ZoneId { zone, subzone: self.rapl_zone };
        let mut constraints: Vec<Constraint> = Vec::new();
        if self.rapl_long_limit.is_some() || self.rapl_long_window.is_some() {
            constraints.push(make_constraint("long_term", &self.rapl_long_limit, &self.rapl_long_window));
        }
        if self.rapl_short_limit.is_some() || self.rapl_short_window.is_some() {
            constraints.push(make_constraint("short_term", &self.rapl_short_limit, &self.rapl_short_window));
        }
        let mut devices: Vec<RaplDevice> = Vec::new();
        devices.push(RaplDevice { id, constraints });
        Some(IntelRapl { devices })
    }
}

impl Group {
    /// Whether the rapl time windows fit in a `u64` of microseconds, as
    /// writing them needs.
    pub fn rapl_windows_fit(&self) -> (r: bool)
        ensures
            r == rapl_windows_fit(*self),
    {
        let max = u64::MAX as u128;
        let long = match &self.rapl_long_window {
            Some(w) => w.as_micros() <= max,
            None => true,
        };
        let short = match &self.rapl_short_window {
            Some(w) => w.as_micros() <= max,
            None => true,
        };
        long && short
    }

    /// Whether the group's i915 cards, when it sets i915 values, are all given
    /// by drm index.
    pub fn i915_by_index(&self) -> (r: bool)
        ensures
            r == (self.has_i915_values_spec() ==> (self.i915 matches Some(cards) ==> all_indices(cards@))),
    {
        if !self.has_i915_values() {
            return true;
        }
        match &self.i915 {
            None => true,
            Some(cards) => {
                let mut i: usize = 0;
                while i < cards.len()
                    invariant
                        i <= cards.len(),
                        self.i915 == Some(*cards),
                        self.has_i915_values_spec(),
                        forall|k: int| 0 <= k < i ==> (#[trigger] cards@[k]) is Index,
                    decreases cards.len() - i,
                {
                    match &cards[i] {
                        CardId::Index(_) => {},
                        CardId::BusId(_) => {
                            assert(!all_indices(cards@)) by {
                                assert(!((cards@[i as int]) is Index));
                            }
                            assert(self.i915 == Some(*cards));
                            return false;
                        },
                    }
                    i = i + 1;
                }
                true
            },
        }
    }
}

/// Where a group's intel_rapl values go: to the zone `rapl_package` (with
/// `rapl_zone` as its sub-zone), the long limit and long window to the
/// constraint named `long_term` and the short ones to the constraint named
/// `short_term`. Each constraint of the zone is one of those two, each name
/// is used once, and a constraint is there exactly when one of its values is
/// given.
pub proof fn law_rapl_constraint_targets(g: Group, r: Option<IntelRapl>)
    requires
        rapl_resource_spec(g, r),
    ensures
        r matches Some(c) ==> forall|k: int| 0 <= k < c.devices@[0].constraints@.len() ==> {
            let x = #[trigger] c.devices@[0].constraints@[k];
            ||| opt_text(x.name) == Some("long_term"@) && opt_power(x.power_limit) == opt_power(g.rapl_long_limit)
                && (g.rapl_long_limit is Some || g.rapl_long_window is Some)
            ||| opt_text(x.name) == Some("short_term"@) && opt_power(x.power_limit) == opt_power(g.rapl_short_limit)
                && (g.rapl_short_limit is Some || g.rapl_short_window is Some)
        },
        r matches Some(c) ==> (g.rapl_long_limit is Some || g.rapl_long_window is Some) ==> exists|k: int|
            0 <= k < c.devices@[0].constraints@.len() && opt_text((#[trigger] c.devices@[0].constraints@[k]).name) == Some(
                "long_term"@,
            ) && opt_power(c.devices@[0].constraints@[k].power_limit) == opt_power(g.rapl_long_limit),
        r matches Some(c) ==> (g.rapl_short_limit is Some || g.rapl_short_window is Some) ==> exists|k: int|
            0 <= k < c.devices@[0].constraints@.len() && opt_text((#[trigger] c.devices@[0].constraints@[k]).name) == Some(
                "short_term"@,
            ) && opt_power(c.devices@[0].constraints@[k].power_limit) == opt_power(g.rapl_short_limit),
        r matches Some(c) ==> forall|a: int, b: int|
            0 <= a < b < c.devices@[0].constraints@.len() ==> opt_text((#[trigger] c.devices@[0].constraints@[a]).name)
                != opt_text((#[trigger] c.devices@[0].constraints@[b]).name),
        r matches Some(c) ==> g.rapl_package matches Some(p) && c.devices@.len() == 1 && c.devices@[0].id == (ZoneId {
            zone: p,
            subzone: g.rapl_zone,
        }),
{
    reveal_strlit("long_term");
    reveal_strlit("short_term");
    assert("long_term"@ != "short_term"@) by {
        assert("long_term"@.len() != "short_term"@.len());
    }
    if r is Some {
        let cs = r->0.devices@[0].constraints@;
        let long = g.rapl_long_limit is Some || g.rapl_long_window is Some;
        let short = g.rapl_short_limit is Some || g.rapl_short_window is Some;
        if long {
            assert(opt_text(cs[0].name) == Some("long_term"@));
        }
        if short {
            assert(opt_text(cs[cs.len() - 1].name) == Some("short_term"@));
        }
    }
}

/// Where a group's cpufreq, i915 and intel_pstate values go: every cpu of
/// `cpu` gets the governor `cpufreq_gov` and the limits `cpufreq_min` as its
/// minimum and `cpufreq_max` as its maximum, and the bias `pstate_epb` and
/// preference `pstate_epp`; every card of `i915` gets `i915_min` as its
/// minimum, `i915_max` as its maximum and `i915_boost` as its boost
/// frequency. Each target is written once, in the order the group names it.
pub proof fn law_values_reach_their_fields(
    g: Group,
    cf: Option<Cpufreq>,
    gpu: Option<I915>,
    ps: Option<IntelPstate>,
    k: int,
)
    requires
        cpufreq_resource_spec(g, cf),
        i915_resource_spec(g, gpu),
        pstate_resource_spec(g, ps),
    ensures
        cf matches Some(c) ==> (g.cpu matches Some(ids) ==> 0 <= k < ids@.len() ==> {
            &&& c.policies@[k].id == ids@[k]
            &&& opt_freq(c.policies@[k].scaling_min_freq) == opt_freq(g.cpufreq_min)
            &&& opt_freq(c.policies@[k].scaling_max_freq) == opt_freq(g.cpufreq_max)
            &&& opt_text(c.policies@[k].scaling_governor) == opt_text(g.cpufreq_gov)
        }),
        gpu matches Some(c) ==> (g.i915 matches Some(cards) ==> 0 <= k < cards@.len() ==> {
            &&& cards@[k]@ == CardIdV::Index(c.devices@[k].id)
            &&& opt_freq(c.devices@[k].min_freq) == opt_freq(g.i915_min)
            &&& opt_freq(c.devices@[k].max_freq) == opt_freq(g.i915_max)
            &&& opt_freq(c.devices@[k].boost_freq) == opt_freq(g.i915_boost)
        }),
        ps matches Some(c) ==> (g.cpu matches Some(ids) ==> 0 <= k < ids@.len() ==> {
            &&& c.devices@[k]@.id == ids@[k]
            &&& c.devices@[k]@.energy_perf_bias == g.pstate_epb
            &&& c.devices@[k]@.energy_performance_preference == opt_text(g.pstate_epp)
        }),
        (g.cpufreq_gov is Some || g.cpufreq_min is Some || g.cpufreq_max is Some) && (g.cpu matches Some(ids) && ids@.len() > 0)
            ==> cf is Some,
        (g.i915_min is Some || g.i915_max is Some || g.i915_boost is Some) && (g.i915 matches Some(cards) && cards@.len() > 0)
            ==> gpu is Some,
        (g.pstate_epb is Some || g.pstate_epp is Some) && (g.cpu matches Some(ids) && ids@.len() > 0) ==> ps is Some,
{
    if cf is Some && g.cpu is Some && 0 <= k < g.cpu->0@.len() {
        let c = cf->0;
        assert(c.policies@[k].id == g.cpu->0@[k]);
    }
    if gpu is Some && g.i915 is Some && 0 <= k < g.i915->0@.len() {
        let c = gpu->0;
        assert(g.i915->0@[k]@ == CardIdV::Index(c.devices@[k].id));
    }
    if ps is Some && g.cpu is Some && 0 <= k < g.cpu->0@.len() {
        let c = ps->0;
        assert(c.devices@[k]@.id == g.cpu->0@[k]);
    }
}

/// The toggle `t` always takes effect: after it, a device with its id has
/// its state.
proof fn lemma_toggle_holds(ds: Seq<CpuDevice>, t: (u64, bool))
    ensures
        apply_toggle(ds, t).contains(CpuDevice { id: t.0, online: Some(t.1) }),
{
    let d = CpuDevice { id: t.0, online: Some(t.1) };
    match first_with_id(ds, t.0) {
        Some(i) => {
            lemma_first_with_id_bounds(ds, t.0);
            assert(ds.update(i, d)[i] == d);
        },
        None => {
            assert(ds.push(d)[ds.len() as int] == d);
        },
    }
}

/// `first_with_id` gives an index of `ds`.
proof fn lemma_first_with_id_bounds(ds: Seq<CpuDevice>, id: u64)
    ensures
        first_with_id(ds, id) matches Some(i) ==> 0 <= i < ds.len(),
    decreases ds.len(),
{
    if ds.len() > 0 {
        lemma_first_with_id_bounds(ds.drop_last(), id);
    }
}

/// Where a group's cpu online values go: without per-cpu toggles, the
/// devices are exactly the cpus of `cpu`, each once per time it is named,
/// each set to `cpu_on`; with toggles, the last toggle always takes effect
/// (its cpu is set to its state).
pub proof fn law_cpu_online_targets(g: Group, r: Option<Cpu>)
    requires
        cpu_resource_spec(g, r),
    ensures
        r matches Some(c) ==> (g.cpu_on_each is None ==> forall|k: int| 0 <= k < c.devices@.len() ==> {
            &&& (#[trigger] c.devices@[k]).online == g.cpu_on
            &&& g.cpu matches Some(ids) && ids@.contains(c.devices@[k].id)
        }),
        r matches Some(c) ==> (g.cpu_on_each is None ==> (g.cpu matches Some(ids) ==> forall|k: int|
            0 <= k < ids@.len() ==> c.devices@.contains(CpuDevice { id: #[trigger] ids@[k], online: g.cpu_on }))),
        r matches Some(c) ==> (g.cpu_on_each matches Some(ts) ==> ts@.len() > 0 ==> c.devices@.contains(
            CpuDevice { id: ts@.last().0, online: Some(ts@.last().1) },
        )),
{
    if r is Some {
        let c = r->0;
        let want = cpu_devices_spec(g);
        c.devices@.to_multiset_ensures();
        want.to_multiset_ensures();
        assert(c.devices@.to_multiset() == want.to_multiset());
        assert forall|x: CpuDevice| c.devices@.contains(x) <==> want.contains(x) by {
            assert(c.devices@.contains(x) <==> c.devices@.to_multiset().count(x) > 0);
            assert(want.contains(x) <==> want.to_multiset().count(x) > 0);
        }
        if g.cpu_on_each is None {
            assert forall|k: int| 0 <= k < c.devices@.len() implies {
                &&& (#[trigger] c.devices@[k]).online == g.cpu_on
                &&& g.cpu matches Some(ids) && ids@.contains(c.devices@[k].id)
            } by {
                assert(c.devices@.contains(c.devices@[k]));
                assert(want == cpu_base_spec(g));
                assert(want.contains(c.devices@[k]));
                let j = choose|j: int| 0 <= j < want.len() && want[j] == c.devices@[k];
                assert(g.cpu is Some);
                let ids = g.cpu->0;
                assert(want.len() == ids@.len());
                assert(want[j] == CpuDevice { id: ids@[j], online: g.cpu_on });
                assert(ids@[j] == c.devices@[k].id);
            }
            if g.cpu is Some {
                let ids = g.cpu->0;
                assert forall|k: int| 0 <= k < ids@.len() implies c.devices@.contains(
                    CpuDevice { id: #[trigger] ids@[k], online: g.cpu_on },
                ) by {
                    assert(want == cpu_base_spec(g));
                    assert(want.len() == ids@.len());
                    assert(want[k] == CpuDevice { id: ids@[k], online: g.cpu_on });
                    assert(want.contains(want[k]));
                    assert(c.devices@.contains(want[k]));
                }
            }
        } else {
            let ts = g.cpu_on_each->0;
            if ts@.len() > 0 {
                lemma_toggle_holds(apply_toggles(cpu_base_spec(g), ts@.drop_last()), ts@.last());
            }
        }
    }
}

} // verus!
