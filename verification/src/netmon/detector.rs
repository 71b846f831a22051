//! When a difference between samples is a change worth reporting.
//!
//! The detector is driven from outside: it is handed samples and the outcomes
//! of reports, and says what to do next.

use vstd::prelude::*;

use crate::netmon::fingerprint;
use crate::netmon::fingerprint::{NetFingerprint, PeerSourceMove, Sources};
use crate::netmon::summary::NetChangeSummary;
use crate::netmon::{NetmonConfig, MIN_CHANGE_INTERVAL_MS};
use crate::vecmap;

verus! {

/// A change of the medium under at least one peer.
#[derive(Debug, PartialEq, Eq)]
pub struct NetChange {
    /// Counts the changes, from 1.
    pub generation: u64,
    /// What changed.
    pub summary: NetChangeSummary,
}

/// What became of a report.
#[derive(Clone, Copy, Debug, PartialEq, Eq, Structural)]
pub enum SendOutcome {
    /// It was taken.
    Delivered,
    /// An earlier one has not been read yet. The reaction to that one covers
    /// this one too, so this one is dropped.
    Full,
    /// Nobody listens any more.
    Closed,
}

/// What the driver of the detector does next.
#[derive(Debug, PartialEq, Eq)]
pub enum DetectorStep {
    /// Wait to be woken, then sample.
    Wait,
    /// Sample again after this many milliseconds.
    Resample {
        /// The delay.
        after_ms: u64,
    },
    /// Hand the change to the listener without waiting for it, then say what
    /// became of that.
    Report(NetChange),
    /// Do nothing for this many milliseconds, then wait to be woken.
    Hold {
        /// The delay.
        ms: u64,
    },
    /// Stop.
    Stop,
}

/// What a [`DetectorStep`] says.
pub enum DetectorStepView {
    Wait,
    Resample { after_ms: u64 },
    Report { generation: u64, moved: Seq<PeerSourceMove>, probed: nat },
    Hold { ms: u64 },
    Stop,
}

impl View for DetectorStep {
    type V = DetectorStepView;

    open spec fn view(&self) -> DetectorStepView {
        match *self {
            DetectorStep::Wait => DetectorStepView::Wait,
            DetectorStep::Resample { after_ms } => DetectorStepView::Resample { after_ms },
            DetectorStep::Report(change) => DetectorStepView::Report {
                generation: change.generation,
                moved: change.summary.moved@,
                probed: change.summary.probed as nat,
            },
            DetectorStep::Hold { ms } => DetectorStepView::Hold { ms },
            DetectorStep::Stop => DetectorStepView::Stop,
        }
    }
}

/// What a detector holds: the sources that the listener knows of, the sources
/// last seen of a difference that has yet to settle, and the number of the
/// last change.
#[verifier::ext_equal]
pub struct DetectorModel {
    pub debounce_ms: u64,
    pub last: Sources,
    pub unsettled: Option<Sources>,
    pub generation: u64,
}

/// Whether some peer is reached differently in `after` than in `before`.
pub open spec fn differ(before: Sources, after: Sources) -> bool {
    fingerprint::moves(before, vecmap::map_of(after)).len() > 0
}

/// The number of the change after `generation`.
pub open spec fn next_generation(generation: u64) -> u64 {
    if generation == u64::MAX {
        0
    } else {
        (generation + 1) as u64
    }
}

impl DetectorModel {
    /// Taking `sample` as what the listener is to know of: it is reported if
    /// it differs from what the listener knew.
    pub open spec fn settle(self, sample: Sources) -> (DetectorStepView, DetectorModel) {
        if differ(self.last, sample) {
            let generation = next_generation(self.generation);
            (
                DetectorStepView::Report {
                    generation,
                    moved: fingerprint::moves(self.last, vecmap::map_of(sample)),
                    probed: sample.len(),
                },
                DetectorModel { last: sample, unsettled: None, generation, ..self },
            )
        } else {
            (DetectorStepView::Wait, DetectorModel { last: sample, unsettled: None, ..self })
        }
    }

    /// Taking a sample. A difference has to stand still for the debounce time
    /// before it counts.
    pub open spec fn on_sample(self, sample: Sources) -> (DetectorStepView, DetectorModel) {
        let in_motion = match self.unsettled {
            Some(seen) => differ(seen, sample),
            None => differ(self.last, sample) && self.debounce_ms > 0,
        };
        if in_motion {
            (
                DetectorStepView::Resample { after_ms: self.debounce_ms },
                DetectorModel { unsettled: Some(sample), ..self },
            )
        } else {
            self.settle(sample)
        }
    }

    /// What follows a report. Reports are paced: whatever became of this one,
    /// there is no other for a while.
    pub open spec fn on_sent(outcome: SendOutcome) -> DetectorStepView {
        match outcome {
            SendOutcome::Closed => DetectorStepView::Stop,
            _ => DetectorStepView::Hold { ms: MIN_CHANGE_INTERVAL_MS },
        }
    }
}

/// The detector.
pub struct Detector {
    debounce_ms: u64,
    last: NetFingerprint,
    unsettled: Option<NetFingerprint>,
    generation: u64,
}

impl View for Detector {
    type V = DetectorModel;

    closed spec fn view(&self) -> DetectorModel {
        DetectorModel {
            debounce_ms: self.debounce_ms,
            last: self.last.entries(),
            unsettled: match self.unsettled {
                Some(seen) => Some(seen.entries()),
                None => None,
            },
            generation: self.generation,
        }
    }
}

impl Detector {
    /// What every detector made here satisfies: no peer occurs twice in what it
    /// holds.
    pub closed spec fn wf(&self) -> bool {
        &&& self.last.sources.wf()
        &&& self.unsettled matches Some(seen) ==> seen.sources.wf()
    }

    /// A detector that starts from a first sample.
    pub fn new(config: &NetmonConfig, first: NetFingerprint) -> (detector: Detector)
        requires
            first.sources.wf(),
        ensures
            detector.wf(),
            detector@ == (DetectorModel {
                debounce_ms: config.debounce_ms,
                last: first.entries(),
                unsettled: None,
                generation: 0,
            }),
    {
        Detector { debounce_ms: config.debounce_ms, last: first, unsettled: None, generation: 0 }
    }

    /// Takes a sample.
    pub fn on_sample(&mut self, sample: NetFingerprint) -> (step: DetectorStep)
        requires
            old(self).wf(),
            sample.sources.wf(),
        ensures
            final(self).wf(),
            (step@, final(self)@) == old(self)@.on_sample(sample.entries()),
    {
        let in_motion = match &self.unsettled {
            Some(seen) => seen.moved(&sample).len() > 0,
            None => self.last.moved(&sample).len() > 0 && self.debounce_ms > 0,
        };
        if in_motion {
            self.unsettled = Some(sample);
            return DetectorStep::Resample { after_ms: self.debounce_ms };
        }
        let moved = self.last.moved(&sample);
        let probed = sample.sources.len();
        self.unsettled = None;
        self.last = sample;
        if moved.len() == 0 {
            return DetectorStep::Wait;
        }
        self.generation = self.generation.wrapping_add(1);
        DetectorStep::Report(
            NetChange {
                generation: self.generation,
                summary: NetChangeSummary { moved, probed },
            },
        )
    }

    /// Takes the outcome of a report.
    pub fn on_sent(&self, outcome: SendOutcome) -> (step: DetectorStep)
        ensures
            step@ == DetectorModel::on_sent(outcome),
    {
        if outcome == SendOutcome::Closed {
            DetectorStep::Stop
        } else {
            DetectorStep::Hold { ms: MIN_CHANGE_INTERVAL_MS }
        }
    }
}

/// Whether every peer that both samples have is reached the same way in both.
pub open spec fn agree(before: Sources, after: Sources) -> bool {
    forall|i: int, j: int|
        0 <= i < before.len() && 0 <= j < after.len() && (#[trigger] before[i]).0 == (
        #[trigger] after[j]).0 ==> before[i].1 == after[j].1
}

/// Samples differ exactly when they do not agree on a peer that both have.
pub proof fn law_samples_differ_iff_they_disagree(before: Sources, after: Sources)
    requires
        vecmap::keys_are_distinct(before),
        vecmap::keys_are_distinct(after),
    ensures
        differ(before, after) <==> !agree(before, after),
{
    let map = vecmap::map_of(after);
    fingerprint::lemma_moves(before, map);
    let found = fingerprint::moves(before, map);
    if found.len() > 0 {
        let m = found[0];
        let i = choose|i: int|
            0 <= i < before.len() && (#[trigger] before[i]).0 == m.peer && before[i].1 == m.before;
        let j = vecmap::position(after, m.peer);
        assert(vecmap::has_key(after, m.peer));
        assert(0 <= j < after.len() && after[j].0@ == m.peer);
        vecmap::lemma_entry_is_in_map(after, j);
        assert(before[i].0 == after[j].0 && before[i].1 != after[j].1);
    }
    if !agree(before, after) {
        let (i, j) = choose|i: int, j: int|
            0 <= i < before.len() && 0 <= j < after.len() && (#[trigger] before[i]).0 == (
            #[trigger] after[j]).0 && before[i].1 != after[j].1;
        vecmap::lemma_entry_is_in_map(after, j);
        assert(map.dom().contains(before[i].0) && map[before[i].0] != before[i].1);
    }
}

/// A detector at rest reports nothing of a sample that agrees with the last,
/// whichever peers joined or left, and takes the sample on board.
pub proof fn law_churn_is_absorbed(state: DetectorModel, sample: Sources)
    requires
        state.unsettled is None,
        vecmap::keys_are_distinct(state.last),
        vecmap::keys_are_distinct(sample),
        agree(state.last, sample),
    ensures
        state.on_sample(sample) == (
            DetectorStepView::Wait,
            DetectorModel { last: sample, ..state },
        ),
{
    law_samples_differ_iff_they_disagree(state.last, sample);
}

/// A peer that joined with one sample is under comparison at the next: if its
/// source is then another, that is not passed over.
pub proof fn law_joined_peers_are_compared_next(
    state: DetectorModel,
    first: Sources,
    second: Sources,
)
    requires
        state.unsettled is None,
        vecmap::keys_are_distinct(state.last),
        vecmap::keys_are_distinct(first),
        vecmap::keys_are_distinct(second),
        agree(state.last, first),
        !agree(first, second),
    ensures
        state.on_sample(first).1.on_sample(second).0 != DetectorStepView::Wait,
{
    law_churn_is_absorbed(state, first);
    law_samples_differ_iff_they_disagree(first, second);
}

/// A difference that goes back to where it started is never reported.
pub proof fn law_flap_that_settles_back_reports_nothing(state: DetectorModel, sample: Sources)
    requires
        state.unsettled matches Some(seen) && agree(seen, sample)
            && vecmap::keys_are_distinct(seen),
        vecmap::keys_are_distinct(state.last),
        vecmap::keys_are_distinct(sample),
        agree(state.last, sample),
    ensures
        state.on_sample(sample) == (
            DetectorStepView::Wait,
            DetectorModel { last: sample, unsettled: None, ..state },
        ),
{
    law_samples_differ_iff_they_disagree(state.unsettled->Some_0, sample);
    law_samples_differ_iff_they_disagree(state.last, sample);
}

/// A report tells of at least one peer, carries the next number, and is made
/// against the settled picture: where there is a debounce time, one that the
/// sample before agreed with.
pub proof fn law_reports_are_settled_and_counted(state: DetectorModel, sample: Sources)
    requires
        vecmap::keys_are_distinct(sample),
        state.unsettled matches Some(seen) ==> vecmap::keys_are_distinct(seen),
    ensures
        state.on_sample(sample).0 matches DetectorStepView::Report { generation, moved, probed }
            ==> {
            &&& moved.len() > 0
            &&& moved == fingerprint::moves(state.last, vecmap::map_of(sample))
            &&& probed == sample.len()
            &&& generation == next_generation(state.generation)
            &&& state.debounce_ms > 0 ==> (state.unsettled matches Some(seen) && agree(
                seen,
                sample,
            ))
            &&& state.on_sample(sample).1.last == sample
            &&& state.on_sample(sample).1.unsettled is None
        },
{
    if let Some(seen) = state.unsettled {
        law_samples_differ_iff_they_disagree(seen, sample);
    }
}

/// The state after a number of samples, taken one after the other.
pub open spec fn after_samples(state: DetectorModel, samples: Seq<Sources>) -> DetectorModel
    decreases samples.len(),
{
    if samples.len() == 0 {
        state
    } else {
        after_samples(state, samples.drop_last()).on_sample(samples.last()).1
    }
}

/// A burst is ridden out: as long as every sample differs from the one
/// before, none is reported, and what the listener knows of stays as it was.
pub proof fn law_burst_is_ridden_out(state: DetectorModel, samples: Seq<Sources>)
    requires
        state.unsettled is None,
        state.debounce_ms > 0,
        samples.len() > 0,
        differ(state.last, samples[0]),
        forall|i: int|
            0 < i < samples.len() ==> differ(samples[i - 1], #[trigger] samples[i]),
    ensures
        after_samples(state, samples.drop_last()).on_sample(samples.last()).0 == (
        DetectorStepView::Resample { after_ms: state.debounce_ms }),
        after_samples(state, samples) == (DetectorModel {
            unsettled: Some(samples.last()),
            ..state
        }),
    decreases samples.len(),
{
    let shorter = samples.drop_last();
    if shorter.len() > 0 {
        assert forall|i: int| 0 < i < shorter.len() implies differ(
            shorter[i - 1],
            #[trigger] shorter[i],
        ) by {
            assert(samples[i] == shorter[i]);
            assert(samples[i - 1] == shorter[i - 1]);
        }
        assert(shorter[0] == samples[0]);
        law_burst_is_ridden_out(state, shorter);
        assert(differ(samples[samples.len() - 2], samples[samples.len() - 1]));
        assert(shorter.last() == samples[samples.len() - 2]);
    }
}

/// Whether a driver did what the detector said: the steps with the times, in
/// milliseconds, at which they were begun.
pub open spec fn is_driven(trace: Seq<(nat, DetectorStepView)>) -> bool {
    &&& forall|i: int, j: int|
        0 <= i < j < trace.len() ==> (#[trigger] trace[i]).0 <= (#[trigger] trace[j]).0
    &&& forall|i: int|
        0 <= i < trace.len() - 1 ==> match (#[trigger] trace[i]).1 {
            DetectorStepView::Wait => true,
            DetectorStepView::Resample { after_ms } => trace[i].0 + after_ms <= trace[i + 1].0,
            DetectorStepView::Report { .. } => exists|outcome: SendOutcome|
                trace[i + 1].1 == #[trigger] DetectorModel::on_sent(outcome),
            DetectorStepView::Hold { ms } => {
                &&& trace[i].0 + ms <= trace[i + 1].0
                &&& trace[i + 1].1 == DetectorStepView::Wait
            },
            DetectorStepView::Stop => false,
        }
}

/// Reports are spaced out: any two are at least the pacing interval apart,
/// whatever became of them.
pub proof fn law_reports_are_spaced_out(trace: Seq<(nat, DetectorStepView)>, i: int, j: int)
    requires
        is_driven(trace),
        0 <= i < j < trace.len(),
        trace[i].1 is Report,
        trace[j].1 is Report,
    ensures
        trace[i].0 + MIN_CHANGE_INTERVAL_MS <= trace[j].0,
{
    let next = trace[i + 1];
    assert(trace[i].0 <= next.0);
    assert(next.1 is Stop || next.1 == (DetectorStepView::Hold { ms: MIN_CHANGE_INTERVAL_MS }));
    assert(i + 1 < j);
    assert(!(next.1 is Stop));
    assert(next.0 + MIN_CHANGE_INTERVAL_MS <= trace[i + 2].0);
    if i + 2 < j {
        assert(trace[i + 2].0 <= trace[j].0);
    }
}

/// Nothing follows once nobody listens: a report that finds the listener gone
/// is the last.
pub proof fn law_a_gone_listener_ends_it(trace: Seq<(nat, DetectorStepView)>, i: int)
    requires
        is_driven(trace),
        0 <= i < trace.len(),
        trace[i].1 == DetectorModel::on_sent(SendOutcome::Closed),
    ensures
        i == trace.len() - 1,
{
}

/// A node without peers has nothing to report.
pub proof fn law_no_peers_no_reports(state: DetectorModel)
    requires
        state.last.len() == 0,
        state.unsettled is None,
    ensures
        state.on_sample(Seq::empty()).0 == DetectorStepView::Wait,
{
}

} // verus!
