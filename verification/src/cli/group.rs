//! Groups of values to apply together, as given on the command line or in a
//! profile.

use vstd::prelude::*;

use crate::cli::parse::{insert_sorted, lemma_prefix_to_set, strictly_increasing, DurationStr, FrequencyStr, PowerStr};

verus! {

/// A card addressed by its drm index or by its bus id (`0000:01:00.0`).
#[derive(Debug)]
pub enum CardId {
    Index(u64),
    BusId(String),
}

/// The mathematical value of a `CardId`.
pub enum CardIdV {
    Index(u64),
    BusId(Seq<char>),
}

impl Clone for CardId {
    fn clone(&self) -> (r: Self)
        ensures
            r@ == self@,
    {
        match self {
            CardId::Index(i) => CardId::Index(*i),
            CardId::BusId(s) => CardId::BusId(s.clone()),
        }
    }
}

impl View for CardId {
    type V = CardIdV;

    open spec fn view(&self) -> CardIdV {
        match self {
            CardId::Index(i) => CardIdV::Index(*i),
            CardId::BusId(s) => CardIdV::BusId(s@),
        }
    }
}


/// One group of values: which cpus and cards to act on, and what to set.
#[derive(Debug)]
pub struct Group {
    pub cpu: Option<Vec<u64>>,
    pub cpu_on: Option<bool>,
    pub cpu_on_each: Option<Vec<(u64, bool)>>,
    pub cpufreq_gov: Option<String>,
    pub cpufreq_min: Option<FrequencyStr>,
    pub cpufreq_max: Option<FrequencyStr>,
    pub i915: Option<Vec<CardId>>,
    pub i915_min: Option<FrequencyStr>,
    pub i915_max: Option<FrequencyStr>,
    pub i915_boost: Option<FrequencyStr>,
    pub pstate_epb: Option<u64>,
    pub pstate_epp: Option<String>,
    pub rapl_package: Option<u64>,
    pub rapl_zone: Option<u64>,
    pub rapl_long_limit: Option<PowerStr>,
    pub rapl_long_window: Option<DurationStr>,
    pub rapl_short_limit: Option<PowerStr>,
    pub rapl_short_window: Option<DurationStr>,
}

impl Group {
    /// Whether cpu online values are given.
    pub open spec fn has_cpu_values_spec(&self) -> bool {
        self.cpu_on is Some || self.cpu_on_each is Some
    }

    /// Whether cpufreq values are given.
    pub open spec fn has_cpufreq_values_spec(&self) -> bool {
        self.cpufreq_gov is Some || self.cpufreq_min is Some || self.cpufreq_max is Some
    }

    /// Whether i915 values are given.
    pub open spec fn has_i915_values_spec(&self) -> bool {
        self.i915_min is Some || self.i915_max is Some || self.i915_boost is Some
    }

    /// Whether intel_pstate values are given.
    pub open spec fn has_pstate_values_spec(&self) -> bool {
        self.pstate_epb is Some || self.pstate_epp is Some
    }

    /// Whether intel_rapl values are given.
    pub open spec fn has_rapl_values_spec(&self) -> bool {
        self.rapl_long_limit is Some || self.rapl_long_window is Some || self.rapl_short_limit is Some
            || self.rapl_short_window is Some
    }

    /// Whether values for cpus (online, cpufreq or intel_pstate) are given.
    pub open spec fn has_cpu_related_values_spec(&self) -> bool {
        self.has_cpu_values_spec() || self.has_cpufreq_values_spec() || self.has_pstate_values_spec()
    }

    /// Whether any value is given.
    pub open spec fn has_values_spec(&self) -> bool {
        self.has_cpu_related_values_spec() || self.has_i915_values_spec() || self.has_rapl_values_spec()
    }

    /// A group with no values and no targets.
    pub fn new() -> (r: Self)
        ensures
            !r.has_values_spec(),
            r.cpu is None,
            r.i915 is None,
            r.rapl_package is None,
            r.rapl_zone is None,
    {
        Group {
            cpu: None,
            cpu_on: None,
            cpu_on_each: None,
            cpufreq_gov: None,
            cpufreq_min: None,
            cpufreq_max: None,
            i915: None,
            i915_min: None,
            i915_max: None,
            i915_boost: None,
            pstate_epb: None,
            pstate_epp: None,
            rapl_package: None,
            rapl_zone: None,
            rapl_long_limit: None,
            rapl_long_window: None,
            rapl_short_limit: None,
            rapl_short_window: None,
        }
    }

    /// Whether values for cpus (online, cpufreq or intel_pstate) are given.
    pub fn has_cpu_related_values(&self) -> (r: bool)
        ensures
            r == self.has_cpu_related_values_spec(),
    {
        self.has_cpu_values() || self.has_cpufreq_values() || self.has_pstate_values()
    }

    /// Whether cpu online values are given.
    pub fn has_cpu_values(&self) -> (r: bool)
        ensures
            r == self.has_cpu_values_spec(),
    {
        self.cpu_on.is_some() || self.cpu_on_each.is_some()
    }

    /// Whether cpufreq values are given.
    pub fn has_cpufreq_values(&self) -> (r: bool)
        ensures
            r == self.has_cpufreq_values_spec(),
    {
        self.cpufreq_gov.is_some() || self.cpufreq_min.is_some() || self.cpufreq_max.is_some()
    }

    /// Whether i915 values are given.
    pub fn has_i915_values(&self) -> (r: bool)
        ensures
            r == self.has_i915_values_spec(),
    {
        self.i915_min.is_some() || self.i915_max.is_some() || self.i915_boost.is_some()
    }

    /// Whether intel_pstate values are given.
    pub fn has_pstate_values(&self) -> (r: bool)
        ensures
            r == self.has_pstate_values_spec(),
    {
        self.pstate_epb.is_some() || self.pstate_epp.is_some()
    }

    /// Whether intel_rapl values are given.
    pub fn has_rapl_values(&self) -> (r: bool)
        ensures
            r == self.has_rapl_values_spec(),
    {
        self.rapl_long_limit.is_some() || self.rapl_long_window.is_some()
            || self.rapl_short_limit.is_some() || self.rapl_short_window.is_some()
    }

    /// Whether any value is given.
    pub fn has_values(&self) -> (r: bool)
        ensures
            r == self.has_values_spec(),
    {
        self.has_cpu_related_values() || self.has_i915_values() || self.has_rapl_values()
    }

    /// Fills in the default targets: all cpus (`cpu_ids`) when cpu values are
    /// given without `cpu`, all i915 cards (`i915_ids`) when i915 values are
    /// given without `i915`.
    pub fn resolve(&mut self, cpu_ids: &Vec<u64>, i915_ids: &Vec<u64>)
        ensures
            resolved_from(*final(self), *old(self), cpu_ids@, i915_ids@),
            final(self).has_values_spec() == old(self).has_values_spec(),
            final(self).has_cpu_related_values_spec() == old(self).has_cpu_related_values_spec(),
            final(self).has_i915_values_spec() == old(self).has_i915_values_spec(),
    {
        if self.has_cpu_related_values() && self.cpu.is_none() {
            self.cpu = Some(cpu_ids.clone());
        }
        if self.has_i915_values() && self.i915.is_none() {
            let mut v: Vec<CardId> = Vec::new();
            let mut i: usize = 0;
            while i < i915_ids.len()
                invariant
                    i <= i915_ids.len(),
                    card_views(v@) =~= i915_ids@.subrange(0, i as int).map_values(|x: u64| CardIdV::Index(x)),
                decreases i915_ids.len() - i,
            {
                let ghost before = v@;
                v.push(CardId::Index(i915_ids[i]));
                assert(card_views(v@) =~= card_views(before).push(CardIdV::Index(i915_ids@[i as int])));
                assert(i915_ids@.subrange(0, i + 1).map_values(|x: u64| CardIdV::Index(x)) =~= i915_ids@.subrange(0, i as int).map_values(|x: u64| CardIdV::Index(x)).push(CardIdV::Index(i915_ids@[i as int])));
                i = i + 1;
            }
            assert(i915_ids@.subrange(0, i915_ids@.len() as int) =~= i915_ids@);
            self.i915 = Some(v);
        }
    }
}

/// `new` is `old` with its default targets filled in: every value is kept;
/// `cpu` becomes `cpu_ids` where cpu values are given without it, `i915`
/// becomes the cards `i915_ids` where i915 values are given without it.
pub open spec fn resolved_from(new: Group, old: Group, cpu_ids: Seq<u64>, i915_ids: Seq<u64>) -> bool {
    &&& new.cpu_on == old.cpu_on
    &&& new.cpu_on_each == old.cpu_on_each
    &&& new.cpufreq_gov == old.cpufreq_gov
    &&& new.cpufreq_min == old.cpufreq_min
    &&& new.cpufreq_max == old.cpufreq_max
    &&& new.i915_min == old.i915_min
    &&& new.i915_max == old.i915_max
    &&& new.i915_boost == old.i915_boost
    &&& new.pstate_epb == old.pstate_epb
    &&& new.pstate_epp == old.pstate_epp
    &&& new.rapl_package == old.rapl_package
    &&& new.rapl_zone == old.rapl_zone
    &&& new.rapl_long_limit == old.rapl_long_limit
    &&& new.rapl_long_window == old.rapl_long_window
    &&& new.rapl_short_limit == old.rapl_short_limit
    &&& new.rapl_short_window == old.rapl_short_window
    &&& if old.has_cpu_related_values_spec() && old.cpu is None {
        new.cpu matches Some(v) && v@ == cpu_ids
    } else {
        new.cpu == old.cpu
    }
    &&& if old.has_i915_values_spec() && old.i915 is None {
        new.i915 matches Some(v) && card_views(v@) == i915_ids.map_values(|x: u64| CardIdV::Index(x))
    } else {
        new.i915 == old.i915
    }
}

/// The groups of `gs` that hold values, in their order.
pub open spec fn with_values(gs: Seq<Group>) -> Seq<Group>
    decreases gs.len(),
{
    if gs.len() == 0 {
        Seq::empty()
    } else if gs.last().has_values_spec() {
        with_values(gs.drop_last()).push(gs.last())
    } else {
        with_values(gs.drop_last())
    }
}

/// The groups to apply: those of the profile, then those of the command
/// line, each kept only where it holds values, with its default targets
/// filled in (`Group::resolve`).
pub fn cli_values(profile_groups: Vec<Group>, groups: Vec<Group>, cpu_ids: &Vec<u64>, i915_ids: &Vec<u64>) -> (r: Vec<Group>)
    ensures
        r@.len() == with_values(profile_groups@ + groups@).len(),
        forall|i: int| 0 <= i < r@.len() ==>
            resolved_from(#[trigger] r@[i], with_values(profile_groups@ + groups@)[i], cpu_ids@, i915_ids@),
{
    let ghost all = profile_groups@ + groups@;
    let mut all_groups = profile_groups;
    let mut rest = groups;
    all_groups.append(&mut rest);
    assert(all_groups@ == all);
    let mut r: Vec<Group> = Vec::new();
    let ghost mut i: int = 0;
    while all_groups.len() > 0
        invariant
            0 <= i <= all.len(),
            all_groups@ == all.skip(i),
            r@.len() == with_values(all.take(i)).len(),
            forall|k: int| 0 <= k < r@.len() ==>
                resolved_from(#[trigger] r@[k], with_values(all.take(i))[k], cpu_ids@, i915_ids@),
        decreases all_groups.len(),
    {
        assert(all.take(i + 1).drop_last() =~= all.take(i));
        assert(all.take(i + 1).last() == all[i]);
        let mut g = all_groups.remove(0);
        assert(all_groups@ =~= all.skip(i + 1));
        if g.has_values() {
            g.resolve(cpu_ids, i915_ids);
            r.push(g);
        }
        proof {
            i = i + 1;
        }
    }
    assert(all.take(all.len() as int) =~= all);
    r
}

/// The values of a list of cards.
pub open spec fn card_views(v: Seq<CardId>) -> Seq<CardIdV> {
    v.map_values(|c: CardId| c@)
}

/// The cpu ids of a group, as a set (none when it names no cpus).
pub open spec fn group_cpu_set(g: Group) -> Set<u64> {
    match g.cpu {
        Some(v) => v@.to_set(),
        None => Set::empty(),
    }
}

/// The union of the cpu ids of `gs`.
pub open spec fn groups_cpu_set(gs: Seq<Group>) -> Set<u64>
    decreases gs.len(),
{
    if gs.len() == 0 {
        Set::empty()
    } else {
        groups_cpu_set(gs.drop_last()).union(group_cpu_set(gs.last()))
    }
}

/// The groups of values to apply, in order.
#[derive(Debug)]
pub struct Groups {
    pub groups: Vec<Group>,
}

impl Groups {
    /// Whether some group has values.
    pub fn has_values(&self) -> (r: bool)
        ensures
            r == exists|i: int| 0 <= i < self.groups@.len() && #[trigger] self.groups@[i].has_values_spec(),
    {
        let mut i: usize = 0;
        while i < self.groups.len()
            invariant
                i <= self.groups.len(),
                forall|k: int| 0 <= k < i ==> !#[trigger] self.groups@[k].has_values_spec(),
            decreases self.groups.len() - i,
        {
            if self.groups[i].has_values() {
                return true;
            }
            i = i + 1;
        }
        false
    }

    /// Whether some group has cpufreq values.
    pub fn has_cpufreq_values(&self) -> (r: bool)
        ensures
            r == exists|i: int| 0 <= i < self.groups@.len() && #[trigger] self.groups@[i].has_cpufreq_values_spec(),
    {
        let mut i: usize = 0;
        while i < self.groups.len()
            invariant
                i <= self.groups.len(),
                forall|k: int| 0 <= k < i ==> !#[trigger] self.groups@[k].has_cpufreq_values_spec(),
            decreases self.groups.len() - i,
        {
            if self.groups[i].has_cpufreq_values() {
                return true;
            }
            i = i + 1;
        }
        false
    }

    /// Whether some group has intel_pstate values.
    pub fn has_pstate_values(&self) -> (r: bool)
        ensures
            r == exists|i: int| 0 <= i < self.groups@.len() && #[trigger] self.groups@[i].has_pstate_values_spec(),
    {
        let mut i: usize = 0;
        while i < self.groups.len()
            invariant
                i <= self.groups.len(),
                forall|k: int| 0 <= k < i ==> !#[trigger] self.groups@[k].has_pstate_values_spec(),
            decreases self.groups.len() - i,
        {
            if self.groups[i].has_pstate_values() {
                return true;
            }
            i = i + 1;
        }
        false
    }

    /// The cpu ids that any group names, each once, in increasing order.
    /// The ids are gathered straight into a sorted list without repeats
    /// rather than into a `HashSet` that is sorted afterwards: the result is
    /// the same, and the order in which a `HashSet` is walked cannot be
    /// stated, so each step is stated exactly only this way.
    pub fn collect_cpu_ids(&self) -> (r: Vec<u64>)
        ensures
            strictly_increasing(r@),
            r@.to_set() == groups_cpu_set(self.groups@),
    {
        let mut ids: Vec<u64> = Vec::new();
        let mut i: usize = 0;
        assert(self.groups@.take(0) =~= Seq::<Group>::empty());
        assert(ids@.to_set() =~= Set::<u64>::empty());
        while i < self.groups.len()
            invariant
                i <= self.groups.len(),
                strictly_increasing(ids@),
                ids@.to_set() == groups_cpu_set(self.groups@.take(i as int)),
            decreases self.groups.len() - i,
        {
            assert(self.groups@.take(i + 1).drop_last() =~= self.groups@.take(i as int));
            let ghost before = ids@.to_set();
            match &self.groups[i].cpu {
                Some(cpus) => {
                    let mut j: usize = 0;
                    while j < cpus.len()
                        invariant
                            j <= cpus.len(),
                            strictly_increasing(ids@),
                            ids@.to_set() == before.union(cpus@.subrange(0, j as int).to_set()),
                        decreases cpus.len() - j,
                    {
                        insert_sorted(&mut ids, cpus[j]);
                        proof { lemma_prefix_to_set(cpus@, j as int); }
                        assert(ids@.to_set() =~= before.union(cpus@.subrange(0, j + 1).to_set()));
                        j = j + 1;
                    }
                    assert(cpus@.subrange(0, cpus@.len() as int) =~= cpus@);
                },
                None => {
                    assert(before.union(Set::<u64>::empty()) =~= before);
                },
            }
            i = i + 1;
        }
        assert(self.groups@.take(self.groups@.len() as int) =~= self.groups@);
        ids
    }
}

/// One step of applying groups of values.
#[derive(Clone, Debug, PartialEq, Eq)]
pub enum Step {
    /// Bring these cpus online, remembering those that were offline.
    OnlineCpus(Vec<u64>),
    /// Write the cpufreq values of the group at this index.
    ApplyCpufreq(usize),
    /// Write the intel_pstate values of the group at this index.
    ApplyPstate(usize),
    /// Wait for cpu-related writes to settle.
    WaitCpuRelated,
    /// Take the cpus that the `OnlineCpus` step brought online offline again.
    OfflineOnlined,
    /// Write the cpu online values of the group at this index.
    ApplyCpu(usize),
    /// Wait for cpus to come online or go offline.
    WaitCpuOnoff,
    /// Write the intel_rapl values of the group at this index.
    ApplyRapl(usize),
    /// Write the i915 values of the group at this index.
    ApplyDrm(usize),
}

/// The value of a `Step`.
pub enum StepV {
    OnlineCpus(Seq<u64>),
    ApplyCpufreq(usize),
    ApplyPstate(usize),
    WaitCpuRelated,
    OfflineOnlined,
    ApplyCpu(usize),
    WaitCpuOnoff,
    ApplyRapl(usize),
    ApplyDrm(usize),
}

impl View for Step {
    type V = StepV;

    open spec fn view(&self) -> StepV {
        match self {
            Step::OnlineCpus(v) => StepV::OnlineCpus(v@),
            Step::ApplyCpufreq(i) => StepV::ApplyCpufreq(*i),
            Step::ApplyPstate(i) => StepV::ApplyPstate(*i),
            Step::WaitCpuRelated => StepV::WaitCpuRelated,
            Step::OfflineOnlined => StepV::OfflineOnlined,
            Step::ApplyCpu(i) => StepV::ApplyCpu(*i),
            Step::WaitCpuOnoff => StepV::WaitCpuOnoff,
            Step::ApplyRapl(i) => StepV::ApplyRapl(*i),
            Step::ApplyDrm(i) => StepV::ApplyDrm(*i),
        }
    }
}

/// The values of steps.
pub open spec fn step_views(v: Seq<Step>) -> Seq<StepV> {
    v.map_values(|s: Step| s@)
}

/// The first pass over the first `n` groups: for each, its cpufreq and
/// intel_pstate values, then a wait.
pub open spec fn first_pass(n: nat) -> Seq<StepV>
    decreases n,
{
    if n == 0 {
        Seq::empty()
    } else {
        let i = (n - 1) as usize;
        first_pass((n - 1) as nat) + seq![StepV::ApplyCpufreq(i), StepV::ApplyPstate(i), StepV::WaitCpuRelated]
    }
}

/// The second pass over the first `gs.len()` groups: for each, its cpu
/// online values and a wait when it has them, then its intel_rapl and i915
/// values.
pub open spec fn second_pass(gs: Seq<Group>) -> Seq<StepV>
    decreases gs.len(),
{
    if gs.len() == 0 {
        Seq::empty()
    } else {
        let i = (gs.len() - 1) as usize;
        let cpu = if gs.last().has_cpu_values_spec() {
            seq![StepV::ApplyCpu(i), StepV::WaitCpuOnoff]
        } else {
            Seq::empty()
        };
        second_pass(gs.drop_last()) + cpu + seq![StepV::ApplyRapl(i), StepV::ApplyDrm(i)]
    }
}

/// Whether some group of `gs` has cpufreq or intel_pstate values.
pub open spec fn needs_first_pass(gs: Seq<Group>) -> bool {
    ||| exists|i: int| 0 <= i < gs.len() && #[trigger] gs[i].has_cpufreq_values_spec()
    ||| exists|i: int| 0 <= i < gs.len() && #[trigger] gs[i].has_pstate_values_spec()
}

/// The steps that apply `gs`: when some group has cpufreq or intel_pstate
/// values, the cpus that any group names are brought online, the first pass
/// runs and the cpus brought online go offline again; then the second pass.
pub open spec fn plan_spec(gs: Seq<Group>, ids: Seq<u64>) -> Seq<StepV> {
    if needs_first_pass(gs) {
        seq![StepV::OnlineCpus(ids)] + first_pass(gs.len()) + seq![StepV::OfflineOnlined] + second_pass(gs)
    } else {
        second_pass(gs)
    }
}

impl Groups {
    /// The steps that apply the groups; `OnlineCpus` names the cpus that any
    /// group names, each once, in increasing order.
    pub fn apply_plan(&self) -> (r: Vec<Step>)
        ensures
            exists|ids: Seq<u64>|
                strictly_increasing(ids) && ids.to_set() == groups_cpu_set(self.groups@) && step_views(r@)
                    == plan_spec(self.groups@, ids),
    {
        let mut steps: Vec<Step> = Vec::new();
        let ghost mut ids: Seq<u64> = Seq::empty();
        let first = self.has_cpufreq_values() || self.has_pstate_values();
        assert(first == needs_first_pass(self.groups@));
        let ids_v = self.collect_cpu_ids();
        proof {
            ids = ids_v@;
        }
        if first {
            steps.push(Step::OnlineCpus(ids_v));
            let mut i: usize = 0;
            while i < self.groups.len()
                invariant
                    i <= self.groups.len(),
                    step_views(steps@) =~= seq![StepV::OnlineCpus(ids)] + first_pass(i as nat),
                decreases self.groups.len() - i,
            {
                let ghost before = step_views(steps@);
                steps.push(Step::ApplyCpufreq(i));
                steps.push(Step::ApplyPstate(i));
                steps.push(Step::WaitCpuRelated);
                assert(step_views(steps@) =~= before + seq![
                    StepV::ApplyCpufreq(i),
                    StepV::ApplyPstate(i),
                    StepV::WaitCpuRelated,
                ]);
                i = i + 1;
            }
            steps.push(Step::OfflineOnlined);
        }
        let ghost start = step_views(steps@);
        assert(start =~= if first {
            seq![StepV::OnlineCpus(ids)] + first_pass(self.groups@.len()) + seq![StepV::OfflineOnlined]
        } else {
            Seq::empty()
        });
        let mut k: usize = 0;
        assert(self.groups@.take(0) =~= Seq::<Group>::empty());
        while k < self.groups.len()
            invariant
                k <= self.groups.len(),
                step_views(steps@) =~= start + second_pass(self.groups@.take(k as int)),
            decreases self.groups.len() - k,
        {
            let ghost before = step_views(steps@);
            assert(self.groups@.take(k + 1).drop_last() =~= self.groups@.take(k as int));
            assert(self.groups@.take(k + 1).last() == self.groups@[k as int]);
            let cpu = self.groups[k].has_cpu_values();
            if cpu {
                steps.push(Step::ApplyCpu(k));
                steps.push(Step::WaitCpuOnoff);
            }
            steps.push(Step::ApplyRapl(k));
            steps.push(Step::ApplyDrm(k));
            assert(step_views(steps@) =~= before + (if cpu {
                seq![StepV::ApplyCpu(k), StepV::WaitCpuOnoff]
            } else {
                Seq::empty()
            }) + seq![StepV::ApplyRapl(k), StepV::ApplyDrm(k)]);
            k = k + 1;
        }
        assert(self.groups@.take(self.groups@.len() as int) =~= self.groups@);
        steps
    }
}

// ---------------------------------------------------------------- Laws

/// What is in `a` is in `a + b`, and what is in `b` too.
proof fn lemma_contains_concat<A>(a: Seq<A>, b: Seq<A>, x: A)
    ensures
        a.contains(x) ==> (a + b).contains(x),
        b.contains(x) ==> (a + b).contains(x),
{
    if a.contains(x) {
        let j = choose|j: int| 0 <= j < a.len() && a[j] == x;
        assert((a + b)[j] == x);
    }
    if b.contains(x) {
        let j = choose|j: int| 0 <= j < b.len() && b[j] == x;
        assert((a + b)[a.len() + j] == x);
    }
}

/// The first pass over `n` groups writes the cpufreq and the intel_pstate
/// values of each of them.
proof fn lemma_first_pass_writes(n: nat, i: int)
    requires
        0 <= i < n,
        n <= usize::MAX + 1,
    ensures
        first_pass(n).contains(StepV::ApplyCpufreq(i as usize)),
        first_pass(n).contains(StepV::ApplyPstate(i as usize)),
    decreases n,
{
    let a = first_pass((n - 1) as nat);
    let k = (n - 1) as usize;
    let b = seq![StepV::ApplyCpufreq(k), StepV::ApplyPstate(k), StepV::WaitCpuRelated];
    if i < n - 1 {
        lemma_first_pass_writes((n - 1) as nat, i);
    } else {
        assert(b[0] == StepV::ApplyCpufreq(i as usize));
        assert(b[1] == StepV::ApplyPstate(i as usize));
    }
    lemma_contains_concat(a, b, StepV::ApplyCpufreq(i as usize));
    lemma_contains_concat(a, b, StepV::ApplyPstate(i as usize));
}

/// The second pass over `gs` writes the intel_rapl and i915 values of each
/// group, and the cpu online values of each group that has them.
proof fn lemma_second_pass_writes(gs: Seq<Group>, i: int)
    requires
        0 <= i < gs.len(),
        gs.len() <= usize::MAX + 1,
    ensures
        second_pass(gs).contains(StepV::ApplyRapl(i as usize)),
        second_pass(gs).contains(StepV::ApplyDrm(i as usize)),
        gs[i].cpu_on is Some || gs[i].cpu_on_each is Some ==> second_pass(gs).contains(StepV::ApplyCpu(i as usize)),
    decreases gs.len(),
{
    let front = gs.drop_last();
    let k = (gs.len() - 1) as usize;
    let cpu = if gs.last().has_cpu_values_spec() {
        seq![StepV::ApplyCpu(k), StepV::WaitCpuOnoff]
    } else {
        Seq::empty()
    };
    let a = second_pass(front);
    let b = seq![StepV::ApplyRapl(k), StepV::ApplyDrm(k)];
    assert(second_pass(gs) == a + cpu + b);
    if i < gs.len() - 1 {
        assert(front[i] == gs[i]);
        lemma_second_pass_writes(front, i);
        lemma_contains_concat(a, cpu, StepV::ApplyRapl(i as usize));
        lemma_contains_concat(a, cpu, StepV::ApplyDrm(i as usize));
        lemma_contains_concat(a, cpu, StepV::ApplyCpu(i as usize));
    } else {
        assert(b[0] == StepV::ApplyRapl(i as usize));
        assert(b[1] == StepV::ApplyDrm(i as usize));
        if gs[i].cpu_on is Some || gs[i].cpu_on_each is Some {
            assert(cpu[0] == StepV::ApplyCpu(i as usize));
        }
        lemma_contains_concat(a, cpu, StepV::ApplyCpu(i as usize));
    }
    lemma_contains_concat(a + cpu, b, StepV::ApplyRapl(i as usize));
    lemma_contains_concat(a + cpu, b, StepV::ApplyDrm(i as usize));
    lemma_contains_concat(a + cpu, b, StepV::ApplyCpu(i as usize));
}

/// Every value of every group is written: a group with an energy bias or
/// preference has its intel_pstate values written, one with a governor or a
/// frequency limit its cpufreq values, one with cpu online values those; the
/// intel_rapl and i915 values of each group are written too. Whenever cpufreq
/// or intel_pstate values are written, the plan starts by bringing the cpus
/// `ids` online.
pub proof fn law_plan_writes_every_value(gs: Seq<Group>, ids: Seq<u64>)
    requires
        gs.len() <= usize::MAX,
    ensures
        forall|i: int| 0 <= i < gs.len() && (gs[i].pstate_epb is Some || gs[i].pstate_epp is Some)
            ==> #[trigger] plan_spec(gs, ids).contains(StepV::ApplyPstate(i as usize)),
        forall|i: int|
            0 <= i < gs.len() && (gs[i].cpufreq_gov is Some || gs[i].cpufreq_min is Some || gs[i].cpufreq_max is Some)
            ==> #[trigger] plan_spec(gs, ids).contains(StepV::ApplyCpufreq(i as usize)),
        forall|i: int| 0 <= i < gs.len() && (gs[i].cpu_on is Some || gs[i].cpu_on_each is Some)
            ==> #[trigger] plan_spec(gs, ids).contains(StepV::ApplyCpu(i as usize)),
        forall|i: int| 0 <= i < gs.len() ==> #[trigger] plan_spec(gs, ids).contains(StepV::ApplyRapl(i as usize))
            && plan_spec(gs, ids).contains(StepV::ApplyDrm(i as usize)),
        (exists|i: int|
            0 <= i < gs.len() && (#[trigger] gs[i].pstate_epb is Some || gs[i].pstate_epp is Some || gs[i].cpufreq_gov is Some
                || gs[i].cpufreq_min is Some || gs[i].cpufreq_max is Some)) ==> plan_spec(gs, ids)[0] == StepV::OnlineCpus(ids),
{
    let first = seq![StepV::OnlineCpus(ids)] + first_pass(gs.len()) + seq![StepV::OfflineOnlined];
    assert forall|i: int| 0 <= i < gs.len() implies #[trigger] plan_spec(gs, ids).contains(StepV::ApplyRapl(i as usize))
        && plan_spec(gs, ids).contains(StepV::ApplyDrm(i as usize)) by {
        lemma_second_pass_writes(gs, i);
        lemma_contains_concat(first, second_pass(gs), StepV::ApplyRapl(i as usize));
        lemma_contains_concat(first, second_pass(gs), StepV::ApplyDrm(i as usize));
    }
    assert forall|i: int| 0 <= i < gs.len() && (gs[i].cpu_on is Some || gs[i].cpu_on_each is Some)
        implies #[trigger] plan_spec(gs, ids).contains(StepV::ApplyCpu(i as usize)) by {
        lemma_second_pass_writes(gs, i);
        lemma_contains_concat(first, second_pass(gs), StepV::ApplyCpu(i as usize));
    }
    assert forall|i: int|
        0 <= i < gs.len() && (gs[i].pstate_epb is Some || gs[i].pstate_epp is Some || gs[i].cpufreq_gov is Some
            || gs[i].cpufreq_min is Some || gs[i].cpufreq_max is Some) implies plan_spec(gs, ids).contains(
        StepV::ApplyPstate(i as usize),
    ) && plan_spec(gs, ids).contains(StepV::ApplyCpufreq(i as usize)) && plan_spec(gs, ids)[0] == StepV::OnlineCpus(ids) by {
        assert(gs[i].has_cpufreq_values_spec() || gs[i].has_pstate_values_spec());
        assert(needs_first_pass(gs));
        assert(plan_spec(gs, ids) == first + second_pass(gs));
        lemma_first_pass_writes(gs.len(), i);
        let a = seq![StepV::OnlineCpus(ids)];
        lemma_contains_concat(a, first_pass(gs.len()), StepV::ApplyPstate(i as usize));
        lemma_contains_concat(a, first_pass(gs.len()), StepV::ApplyCpufreq(i as usize));
        lemma_contains_concat(a + first_pass(gs.len()), seq![StepV::OfflineOnlined], StepV::ApplyPstate(i as usize));
        lemma_contains_concat(a + first_pass(gs.len()), seq![StepV::OfflineOnlined], StepV::ApplyCpufreq(i as usize));
        lemma_contains_concat(first, second_pass(gs), StepV::ApplyPstate(i as usize));
        lemma_contains_concat(first, second_pass(gs), StepV::ApplyCpufreq(i as usize));
    }
}

/// Filling in the default targets: a group with cpu, cpufreq or intel_pstate
/// values that names no cpus then targets exactly the cpus `cpu_ids`; one with
/// i915 values that names no cards targets exactly the cards `i915_ids`, by
/// drm index, in that order; targets that were named are kept, and so is
/// every value.
pub proof fn law_resolve_targets(new: Group, old: Group, cpu_ids: Seq<u64>, i915_ids: Seq<u64>)
    requires
        resolved_from(new, old, cpu_ids, i915_ids),
    ensures
        (old.cpu is None && (old.cpu_on is Some || old.cpu_on_each is Some || old.cpufreq_gov is Some
            || old.cpufreq_min is Some || old.cpufreq_max is Some || old.pstate_epb is Some || old.pstate_epp is Some))
            ==> (new.cpu matches Some(v) && v@ == cpu_ids),
        (old.i915 is None && (old.i915_min is Some || old.i915_max is Some || old.i915_boost is Some)) ==> (new.i915 matches Some(v)
            && v@.len() == i915_ids.len() && forall|k: int| 0 <= k < v@.len() ==> (#[trigger] v@[k])@ == CardIdV::Index(i915_ids[k])),
        old.cpu is Some ==> new.cpu == old.cpu,
        old.i915 is Some ==> new.i915 == old.i915,
        new.has_values_spec() == old.has_values_spec(),
        new.pstate_epb == old.pstate_epb && new.pstate_epp == old.pstate_epp && new.i915_max == old.i915_max
            && new.i915_min == old.i915_min && new.i915_boost == old.i915_boost && new.cpufreq_gov == old.cpufreq_gov,
{
    if old.i915 is None && (old.i915_min is Some || old.i915_max is Some || old.i915_boost is Some) {
        let v = new.i915->0;
        let want = i915_ids.map_values(|x: u64| CardIdV::Index(x));
        assert(card_views(v@) == want);
        assert(card_views(v@).len() == v@.len());
        assert forall|k: int| 0 <= k < v@.len() implies (#[trigger] v@[k])@ == CardIdV::Index(i915_ids[k]) by {
            assert(card_views(v@)[k] == v@[k]@);
            assert(want[k] == CardIdV::Index(i915_ids[k]));
        }
    }
}

/// The groups kept to apply are exactly those that hold values: each kept
/// group is one of the groups and holds values, and each group that holds
/// values is kept.
pub proof fn law_with_values_keeps_valued(gs: Seq<Group>)
    ensures
        forall|k: int| 0 <= k < with_values(gs).len() ==> (#[trigger] with_values(gs)[k]).has_values_spec(),
        forall|i: int| 0 <= i < gs.len() && gs[i].has_values_spec() ==> with_values(gs).contains(#[trigger] gs[i]),
        forall|k: int| 0 <= k < with_values(gs).len() ==> gs.contains(#[trigger] with_values(gs)[k]),
        with_values(gs).len() <= gs.len(),
    decreases gs.len(),
{
    if gs.len() > 0 {
        let f = gs.drop_last();
        law_with_values_keeps_valued(f);
        let w = with_values(f);
        assert forall|i: int| 0 <= i < gs.len() && gs[i].has_values_spec() implies with_values(gs).contains(#[trigger] gs[i]) by {
            if i < f.len() {
                assert(f[i] == gs[i]);
                assert(w.contains(f[i]));
                let j = choose|j: int| 0 <= j < w.len() && w[j] == f[i];
                if gs.last().has_values_spec() {
                    assert(with_values(gs)[j] == w[j]);
                }
            } else {
                assert(with_values(gs)[w.len() as int] == gs[i]);
            }
        }
        assert forall|k: int| 0 <= k < with_values(gs).len() implies gs.contains(#[trigger] with_values(gs)[k]) by {
            if k < w.len() {
                assert(with_values(gs)[k] == w[k]);
                assert(f.contains(w[k]));
                let j = choose|j: int| 0 <= j < f.len() && f[j] == w[k];
                assert(gs[j] == f[j]);
            } else {
                assert(gs[gs.len() - 1] == gs.last());
            }
        }
        assert forall|k: int| 0 <= k < with_values(gs).len() implies (#[trigger] with_values(gs)[k]).has_values_spec() by {
            if k < w.len() {
                assert(with_values(gs)[k] == w[k]);
            }
        }
    }
}

} // verus!
