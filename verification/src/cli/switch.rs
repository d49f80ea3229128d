//! Bringing cpus online, or offline, one at a time: which cpus are written
//! and which of them changed state.
//!
//! Before cpufreq and intel_pstate values are written, the cpus that the
//! groups name are brought online; afterwards those that this brought online
//! go offline again. Each pass reads a cpu's online state, writes the target
//! state where the cpu is in the other one, and remembers the cpus whose
//! write succeeded.

use vstd::prelude::*;

verus! {

/// One cpu of a pass (`CpuSwitch::step`): `changed` is what the pass changed
/// before, `reading` the cpu's state, `ok` whether the write, where one is
/// made, succeeded.
pub open spec fn switch_step(online: bool, changed: Seq<u64>, id: u64, reading: Option<bool>, ok: bool) -> Seq<u64> {
    if reading == Some(!online) && ok {
        changed.push(id)
    } else {
        changed
    }
}

/// The cpus of `ids` whose state a pass towards `online` changed, in order:
/// those that read the other state (`readings`) and whose write succeeded
/// (`written`), the three sequences taken index by index: what a pass that
/// takes each cpu in turn with `CpuSwitch::step` ends with.
pub open spec fn switched(online: bool, ids: Seq<u64>, readings: Seq<Option<bool>>, written: Seq<bool>) -> Seq<u64>
    decreases ids.len(),
{
    if ids.len() == 0 {
        Seq::empty()
    } else {
        switch_step(
            online,
            switched(online, ids.drop_last(), readings.drop_last(), written.drop_last()),
            ids.last(),
            readings.last(),
            written.last(),
        )
    }
}

/// A pass that brings cpus to the online state `online`.
pub struct CpuSwitch {
    /// The state the pass brings cpus to.
    pub online: bool,
    /// The cpus whose state the pass changed, in order.
    pub changed: Vec<u64>,
}

impl CpuSwitch {
    /// A pass towards `online` that has changed no cpu yet.
    pub fn new(online: bool) -> (r: Self)
        ensures
            r.online == online,
            r.changed@ == Seq::<u64>::empty(),
    {
        CpuSwitch { online, changed: Vec::new() }
    }

    /// What to write to the online file of a cpu whose state reads
    /// `reading`: the target state where it reads the other one; nothing
    /// where it is in the target state already or could not be read.
    pub fn write_for(&self, reading: Option<bool>) -> (r: Option<bool>)
        ensures
            r == (if reading == Some(!self.online) {
                Some(self.online)
            } else {
                None
            }),
    {
        match reading {
            Some(b) => {
                if b != self.online {
                    Some(self.online)
                } else {
                    None
                }
            },
            None => None,
        }
    }

    /// Takes in cpu `id`, whose state read `reading`, with whether the write
    /// that `write_for` asked for succeeded (`ok`; false where none was
    /// asked for): the cpu counts as changed when it was written and the
    /// write succeeded.
    pub fn step(&mut self, id: u64, reading: Option<bool>, ok: bool)
        ensures
            final(self).online == old(self).online,
            final(self).changed@ == switch_step(old(self).online, old(self).changed@, id, reading, ok),
    {
        match reading {
            Some(b) => {
                if b != self.online && ok {
                    self.changed.push(id);
                }
            },
            None => {},
        }
    }

    /// Whether the pass must wait for the cpus to settle: whether it changed
    /// any.
    pub fn must_wait(&self) -> (r: bool)
        ensures
            r == (self.changed@.len() > 0),
    {
        self.changed.len() > 0
    }
}

/// Each cpu that a pass towards `online` changed is one of `ids` that read
/// the other state and whose write succeeded.
pub proof fn lemma_switched_from(online: bool, ids: Seq<u64>, readings: Seq<Option<bool>>, written: Seq<bool>)
    requires
        readings.len() == ids.len(),
        written.len() == ids.len(),
    ensures
        forall|k: int| 0 <= k < switched(online, ids, readings, written).len() ==> exists|i: int|
            0 <= i < ids.len() && ids[i] == #[trigger] switched(online, ids, readings, written)[k]
                && readings[i] == Some(!online) && written[i],
    decreases ids.len(),
{
    if ids.len() > 0 {
        let n = ids.len() - 1;
        lemma_switched_from(online, ids.drop_last(), readings.drop_last(), written.drop_last());
        let before = switched(online, ids.drop_last(), readings.drop_last(), written.drop_last());
        let s = switched(online, ids, readings, written);
        assert forall|k: int| 0 <= k < s.len() implies exists|i: int|
            0 <= i < ids.len() && ids[i] == #[trigger] s[k] && readings[i] == Some(!online) && written[i] by {
            if k < before.len() {
                let i = choose|i: int|
                    0 <= i < ids.drop_last().len() && ids.drop_last()[i] == #[trigger] before[k]
                        && readings.drop_last()[i] == Some(!online) && written.drop_last()[i];
                assert(ids[i] == s[k]);
            } else {
                assert(ids[n] == s[k]);
            }
        }
    }
}

/// A pass towards `online` whose writes all succeed changes exactly the cpus
/// of `ids` that read the other state: each such cpu is among those it
/// changed, and each cpu it changed read the other state.
pub proof fn law_switched_complete(online: bool, ids: Seq<u64>, readings: Seq<Option<bool>>, written: Seq<bool>)
    requires
        readings.len() == ids.len(),
        written.len() == ids.len(),
        forall|i: int| 0 <= i < written.len() ==> #[trigger] written[i],
    ensures
        forall|i: int| 0 <= i < ids.len() && readings[i] == Some(!online) ==> switched(online, ids, readings, written).contains(
            #[trigger] ids[i],
        ),
        forall|x: u64| switched(online, ids, readings, written).contains(x) ==> exists|i: int|
            0 <= i < ids.len() && #[trigger] ids[i] == x && readings[i] == Some(!online),
    decreases ids.len(),
{
    lemma_switched_from(online, ids, readings, written);
    let sw = switched(online, ids, readings, written);
    assert forall|x: u64| sw.contains(x) implies exists|i: int|
        0 <= i < ids.len() && #[trigger] ids[i] == x && readings[i] == Some(!online) by {
        let k = choose|k: int| 0 <= k < sw.len() && sw[k] == x;
        let i = choose|i: int|
            0 <= i < ids.len() && ids[i] == #[trigger] sw[k] && readings[i] == Some(!online) && written[i];
        assert(ids[i] == x);
    }
    if ids.len() > 0 {
        let n = ids.len() - 1;
        let (fi, fr, fw) = (ids.drop_last(), readings.drop_last(), written.drop_last());
        assert forall|i: int| 0 <= i < fw.len() implies #[trigger] fw[i] by {
            assert(fw[i] == written[i]);
        }
        law_switched_complete(online, fi, fr, fw);
        let before = switched(online, fi, fr, fw);
        assert forall|i: int| 0 <= i < ids.len() && readings[i] == Some(!online) implies sw.contains(#[trigger] ids[i]) by {
            if i < n {
                assert(fi[i] == ids[i] && fr[i] == readings[i]);
                assert(before.contains(fi[i]));
                let k = choose|k: int| 0 <= k < before.len() && before[k] == fi[i];
                assert(written[n]);
                if readings[n] == Some(!online) {
                    assert(sw == before.push(ids[n]));
                    assert(sw[k] == ids[i]);
                } else {
                    assert(sw == before);
                }
            } else {
                assert(written[n]);
                assert(sw == before.push(ids[n]));
                assert(sw[before.len() as int] == ids[i]);
            }
        }
    }
}

/// The pass that takes cpus offline again, run over the cpus that the
/// online pass brought online, touches only cpus that were offline before
/// the online pass: each cpu it takes offline is one of `ids` that read
/// offline then and that the online pass brought online.
pub proof fn law_restore_only_onlined(
    ids: Seq<u64>,
    readings: Seq<Option<bool>>,
    written: Seq<bool>,
    restore_readings: Seq<Option<bool>>,
    restore_written: Seq<bool>,
)
    requires
        readings.len() == ids.len(),
        written.len() == ids.len(),
        restore_readings.len() == switched(true, ids, readings, written).len(),
        restore_written.len() == switched(true, ids, readings, written).len(),
    ensures
        forall|k: int|
            0 <= k < switched(false, switched(true, ids, readings, written), restore_readings, restore_written).len()
                ==> exists|i: int|
                0 <= i < ids.len() && ids[i] == #[trigger] switched(
                    false,
                    switched(true, ids, readings, written),
                    restore_readings,
                    restore_written,
                )[k] && readings[i] == Some(false) && written[i],
{
    let on = switched(true, ids, readings, written);
    let off = switched(false, on, restore_readings, restore_written);
    lemma_switched_from(true, ids, readings, written);
    lemma_switched_from(false, on, restore_readings, restore_written);
    assert forall|k: int| 0 <= k < off.len() implies exists|i: int|
        0 <= i < ids.len() && ids[i] == #[trigger] off[k] && readings[i] == Some(false) && written[i] by {
        let j = choose|j: int|
            0 <= j < on.len() && on[j] == #[trigger] off[k] && restore_readings[j] == Some(!false)
                && restore_written[j];
        let i = choose|i: int| 0 <= i < ids.len() && ids[i] == #[trigger] on[j] && readings[i] == Some(!true) && written[i];
        assert(ids[i] == off[k]);
    }
}

} // verus!
