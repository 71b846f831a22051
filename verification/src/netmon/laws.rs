//! What sampling, comparing and reporting come to, in terms of what goes in and
//! what comes out.

use vstd::prelude::*;

use crate::net::{IpAddr, NodeAddr};
use crate::netmon::detector;
use crate::netmon::detector::{DetectorModel, DetectorStep, DetectorStepView, SendOutcome};
use crate::netmon::fingerprint;
use crate::netmon::fingerprint::{NetFingerprint, PeerSourceMove, Sources};
use crate::netmon::script;
use crate::vecmap;

verus! {

/// Which addresses are no answer to a route lookup: those of `127.0.0.0/8`,
/// `::1`, `0.0.0.0` and `::`, and no other.
pub proof fn law_only_loopback_and_unspecified_are_no_answer(ip: IpAddr)
    ensures
        fingerprint::usable(None) is None,
        fingerprint::usable(Some(ip)) == match ip {
            IpAddr::V4(n) => if n == 0 || (0x7f00_0000 <= n && n <= 0x7fff_ffff) {
                None
            } else {
                Some(ip)
            },
            IpAddr::V6(n) => if n == 0 || n == 1 {
                None
            } else {
                Some(ip)
            },
        },
{
}

/// Which addresses are loopback or unspecified.
pub proof fn law_loopback_and_unspecified(ip: IpAddr)
    ensures
        ip.loopback() <==> match ip {
            IpAddr::V4(n) => 0x7f00_0000 <= n && n <= 0x7fff_ffff,
            IpAddr::V6(n) => n == 1,
        },
        ip.unspecified() <==> match ip {
            IpAddr::V4(n) => n == 0,
            IpAddr::V6(n) => n == 0,
        },
{
}

/// A peer's last entry is the one that counts.
pub proof fn law_last_source_counts(sources: Sources, i: int)
    requires
        0 <= i < sources.len(),
        forall|j: int| i < j < sources.len() ==> (#[trigger] sources[j]).0 != sources[i].0,
    ensures
        fingerprint::by_peer(sources).dom().contains(sources[i].0),
        fingerprint::by_peer(sources)[sources[i].0] == sources[i].1,
    decreases sources.len(),
{
    let n = sources.len() - 1;
    if i < n {
        let shorter = sources.drop_last();
        assert(sources[n].0 != sources[i].0);
        assert forall|j: int| i < j < shorter.len() implies (#[trigger] shorter[j]).0
            != shorter[i].0 by {
            assert(sources[j].0 != sources[i].0);
        }
        law_last_source_counts(shorter, i);
        assert(shorter[i] == sources[i]);
    }
}

/// No peer is made up.
pub proof fn law_only_given_peers_have_sources(sources: Sources, peer: NodeAddr)
    ensures
        fingerprint::by_peer(sources).dom().contains(peer) <==> exists|i: int|
            0 <= i < sources.len() && (#[trigger] sources[i]).0 == peer,
    decreases sources.len(),
{
    if sources.len() > 0 {
        let shorter = sources.drop_last();
        let n = sources.len() - 1;
        law_only_given_peers_have_sources(shorter, peer);
        if fingerprint::by_peer(shorter).dom().contains(peer) {
            let i = choose|i: int| 0 <= i < shorter.len() && (#[trigger] shorter[i]).0 == peer;
            assert(sources[i].0 == peer);
        }
        if sources[n].0 == peer {
            assert(sources[n].0 == peer);
        }
        if exists|i: int| 0 <= i < sources.len() && (#[trigger] sources[i]).0 == peer {
            let i = choose|i: int| 0 <= i < sources.len() && (#[trigger] sources[i]).0 == peer;
            if i < n {
                assert(shorter[i].0 == peer);
            }
        }
    }
}

/// A sample keeps the answer of a peer's last lookup, unless it is loopback or
/// unspecified; then, and where there was no answer, it holds that no route
/// leads to the peer.
pub proof fn law_samples_keep_their_answers(answers: Sources, i: int)
    requires
        0 <= i < answers.len(),
        forall|j: int| i < j < answers.len() ==> (#[trigger] answers[j]).0 != answers[i].0,
    ensures
        ({
            let sample = fingerprint::by_peer(fingerprint::usable_sources(answers));
            let peer = answers[i].0;
            &&& sample.dom().contains(peer)
            &&& sample[peer] == match answers[i].1 {
                None => None,
                Some(IpAddr::V4(n)) => if n == 0 || (0x7f00_0000 <= n && n <= 0x7fff_ffff) {
                    None
                } else {
                    Some(IpAddr::V4(n))
                },
                Some(IpAddr::V6(n)) => if n == 0 || n == 1 {
                    None
                } else {
                    Some(IpAddr::V6(n))
                },
            }
        }),
{
    let sources = fingerprint::usable_sources(answers);
    assert forall|j: int| i < j < sources.len() implies (#[trigger] sources[j]).0
        != sources[i].0 by {
        assert(answers[j].0 != answers[i].0);
    }
    law_last_source_counts(sources, i);
}

/// A sample holds the peers that lookups were made for, and no other.
pub proof fn law_samples_hold_the_peers_looked_up(answers: Sources, peer: NodeAddr)
    ensures
        fingerprint::by_peer(fingerprint::usable_sources(answers)).dom().contains(peer)
            <==> exists|i: int| 0 <= i < answers.len() && (#[trigger] answers[i]).0 == peer,
{
    let sources = fingerprint::usable_sources(answers);
    law_only_given_peers_have_sources(sources, peer);
    if exists|i: int| 0 <= i < answers.len() && (#[trigger] answers[i]).0 == peer {
        let i = choose|i: int| 0 <= i < answers.len() && (#[trigger] answers[i]).0 == peer;
        assert(sources[i].0 == peer);
    }
    if exists|i: int| 0 <= i < sources.len() && (#[trigger] sources[i]).0 == peer {
        let i = choose|i: int| 0 <= i < sources.len() && (#[trigger] sources[i]).0 == peer;
        assert(answers[i].0 == peer);
    }
}

/// Peers that share a source all have it, and no other peer has any.
pub proof fn law_shared_source_is_everyones(
    peers: Seq<NodeAddr>,
    source: Option<IpAddr>,
    peer: NodeAddr,
)
    ensures
        fingerprint::by_peer(script::shared_source(peers, source)).dom().contains(peer)
            <==> peers.contains(peer),
        peers.contains(peer) ==> fingerprint::by_peer(script::shared_source(peers, source))[peer]
            == source,
    decreases peers.len(),
{
    let sources = script::shared_source(peers, source);
    if peers.len() > 0 {
        let fewer = peers.drop_last();
        law_shared_source_is_everyones(fewer, source, peer);
        assert(sources.drop_last() =~= script::shared_source(fewer, source));
        if peers.contains(peer) {
            let i = choose|i: int| 0 <= i < peers.len() && peers[i] == peer;
            if i < fewer.len() {
                assert(fewer[i] == peer);
            }
        }
        if fewer.contains(peer) {
            let i = choose|i: int| 0 <= i < fewer.len() && fewer[i] == peer;
            assert(peers[i] == peer);
        }
        assert(peers[peers.len() - 1] == peers.last());
    }
}

/// Comparing goes through the earlier sources in order: a peer adds a move
/// exactly when the later ones have it with another source.
pub proof fn law_each_peer_is_compared(
    before: Sources,
    peer: NodeAddr,
    source: Option<IpAddr>,
    after: Map<NodeAddr, Option<IpAddr>>,
)
    ensures
        fingerprint::moves(Seq::empty(), after).len() == 0,
        after.dom().contains(peer) && after[peer] != source ==> fingerprint::moves(
            before.push((peer, source)),
            after,
        ) == fingerprint::moves(before, after).push(
            PeerSourceMove { peer, before: source, after: after[peer] },
        ),
        !(after.dom().contains(peer) && after[peer] != source) ==> fingerprint::moves(
            before.push((peer, source)),
            after,
        ) == fingerprint::moves(before, after),
{
    assert(before.push((peer, source)).drop_last() =~= before);
}

/// A peer that both fingerprints have, with different sources, is reported as
/// moved from the one to the other; and nothing else is reported.
pub proof fn law_changed_sources_are_seen(before: NetFingerprint, after: NetFingerprint)
    requires
        before.sources.wf(),
        after.sources.wf(),
    ensures
        forall|peer: NodeAddr|
            before@.dom().contains(peer) && #[trigger] after@.dom().contains(peer) && before@[peer]
                != after@[peer] ==> fingerprint::moves(before.entries(), after@).contains(
                PeerSourceMove { peer, before: before@[peer], after: after@[peer] },
            ),
        forall|i: int|
            0 <= i < fingerprint::moves(before.entries(), after@).len() ==> {
                let m = #[trigger] fingerprint::moves(before.entries(), after@)[i];
                &&& before@.dom().contains(m.peer)
                &&& after@.dom().contains(m.peer)
                &&& m.before == before@[m.peer]
                &&& m.after == after@[m.peer]
                &&& m.before != m.after
            },
{
    let found = fingerprint::moves(before.entries(), after@);
    assert forall|peer: NodeAddr|
        before@.dom().contains(peer) && #[trigger] after@.dom().contains(peer) && before@[peer]
            != after@[peer] implies found.contains(
        PeerSourceMove { peer, before: before@[peer], after: after@[peer] },
    ) by {
        fingerprint::law_moves_are_the_peers_that_moved(before, after, peer);
        let i = choose|i: int| 0 <= i < found.len() && (#[trigger] found[i]).peer == peer;
        assert(found[i] == (PeerSourceMove {
            peer,
            before: before@[peer],
            after: after@[peer],
        }));
    }
    if found.len() > 0 {
        fingerprint::law_moves_are_the_peers_that_moved(before, after, found[0].peer);
    }
}

/// What the detector does with a sample, case by case. Two samples agree if
/// every peer that both have is reached the same way in both.
///
/// At rest, a sample that agrees with what the listener knows is taken on
/// board without a word. One that does not is looked at again after the
/// debounce time if there is one, and reported at once if there is none.
///
/// While a difference is in motion, a sample that does not agree with the one
/// before is looked at again. One that does has settled: it is reported if it
/// does not agree with what the listener knows, and else taken on board
/// without a word.
pub proof fn law_detector_cases(state: DetectorModel, sample: Sources)
    requires
        vecmap::keys_are_distinct(state.last),
        vecmap::keys_are_distinct(sample),
        state.unsettled matches Some(seen) ==> vecmap::keys_are_distinct(seen),
    ensures
        ({
            let known = forall|i: int, j: int|
                0 <= i < state.last.len() && 0 <= j < sample.len() && (#[trigger] state.last[i]).0
                    == (#[trigger] sample[j]).0 ==> state.last[i].1 == sample[j].1;
            let (step, after) = state.on_sample(sample);
            let quiet = step is Wait && after.last == sample && after.unsettled is None
                && after.generation == state.generation;
            let again = (step matches DetectorStepView::Resample { after_ms } && after_ms
                == state.debounce_ms) && after.last == state.last && after.unsettled == Some(sample)
                && after.generation == state.generation;
            let reported = step is Report && after.last == sample && after.unsettled is None;
            &&& after.debounce_ms == state.debounce_ms
            &&& match state.unsettled {
                None => {
                    &&& known ==> quiet
                    &&& !known && state.debounce_ms > 0 ==> again
                    &&& !known && state.debounce_ms == 0 ==> reported
                },
                Some(seen) => {
                    let settled = forall|i: int, j: int|
                        0 <= i < seen.len() && 0 <= j < sample.len() && (#[trigger] seen[i]).0 == (
                        #[trigger] sample[j]).0 ==> seen[i].1 == sample[j].1;
                    &&& !settled ==> again
                    &&& settled && known ==> quiet
                    &&& settled && !known ==> reported
                },
            }
        }),
{
    detector::law_samples_differ_iff_they_disagree(state.last, sample);
    if let Some(seen) = state.unsettled {
        detector::law_samples_differ_iff_they_disagree(seen, sample);
    }
}

/// What a report says: the next number, how many peers were looked at, and one
/// move for each peer that what the listener knew and the sample have with
/// different sources, from the one to the other, and none else.
pub proof fn law_reports_tell_what_changed(state: DetectorModel, sample: Sources)
    requires
        vecmap::keys_are_distinct(state.last),
        vecmap::keys_are_distinct(sample),
    ensures
        state.on_sample(sample).0 matches DetectorStepView::Report { generation, moved, probed }
            ==> {
            &&& generation == if state.generation == u64::MAX {
                0
            } else {
                state.generation + 1
            }
            &&& state.on_sample(sample).1.generation == generation
            &&& probed == sample.len()
            &&& forall|i: int, j: int|
                0 <= i < state.last.len() && 0 <= j < sample.len() && (#[trigger] state.last[i]).0
                    == (#[trigger] sample[j]).0 && state.last[i].1 != sample[j].1
                    ==> moved.contains(
                    PeerSourceMove {
                        peer: sample[j].0,
                        before: state.last[i].1,
                        after: sample[j].1,
                    },
                )
            &&& forall|k: int|
                0 <= k < moved.len() ==> exists|i: int, j: int|
                    0 <= i < state.last.len() && 0 <= j < sample.len() && (
                    #[trigger] state.last[i]).0 == (#[trigger] sample[j]).0 && state.last[i].1
                        != sample[j].1 && (#[trigger] moved[k]) == (PeerSourceMove {
                        peer: sample[j].0,
                        before: state.last[i].1,
                        after: sample[j].1,
                    })
            &&& forall|k: int, l: int|
                0 <= k < l < moved.len() ==> (#[trigger] moved[k]).peer != (
                #[trigger] moved[l]).peer
        },
{
    let last = state.last;
    let map = vecmap::map_of(sample);
    let found = fingerprint::moves(last, map);
    fingerprint::lemma_moves(last, map);
    fingerprint::lemma_moves_are_distinct(last, map);
    if let DetectorStepView::Report { generation, moved, probed } = state.on_sample(sample).0 {
        assert(moved == found);
        assert forall|i: int, j: int|
            0 <= i < last.len() && 0 <= j < sample.len() && (#[trigger] last[i]).0 == (
            #[trigger] sample[j]).0 && last[i].1 != sample[j].1 implies moved.contains(
            PeerSourceMove { peer: sample[j].0, before: last[i].1, after: sample[j].1 },
        ) by {
            vecmap::lemma_entry_is_in_map(sample, j);
            assert(map.dom().contains(last[i].0) && map[last[i].0] != last[i].1);
            let k = choose|k: int| 0 <= k < found.len() && (#[trigger] found[k]).peer == last[i].0;
            let m = found[k];
            let i2 = choose|i2: int|
                0 <= i2 < last.len() && (#[trigger] last[i2]).0 == m.peer && last[i2].1 == m.before;
            if i2 < i {
                assert(last[i2].0@ != last[i].0@);
            } else if i < i2 {
                assert(last[i].0@ != last[i2].0@);
            }
            assert(found[k] == (PeerSourceMove {
                peer: sample[j].0,
                before: last[i].1,
                after: sample[j].1,
            }));
        }
        assert forall|k: int| 0 <= k < moved.len() implies exists|i: int, j: int|
            0 <= i < last.len() && 0 <= j < sample.len() && (#[trigger] last[i]).0 == (
            #[trigger] sample[j]).0 && last[i].1 != sample[j].1 && (#[trigger] moved[k]) == (
            PeerSourceMove { peer: sample[j].0, before: last[i].1, after: sample[j].1 }) by {
            let m = found[k];
            let i = choose|i: int|
                0 <= i < last.len() && (#[trigger] last[i]).0 == m.peer && last[i].1 == m.before;
            let j = vecmap::position(sample, m.peer);
            assert(vecmap::has_key(sample, m.peer));
            assert(0 <= j < sample.len() && sample[j].0@ == m.peer);
            vecmap::lemma_entry_is_in_map(sample, j);
            assert(last[i].0 == sample[j].0);
        }
    }
}

/// A settled difference is reported, however many peers moved: if the sample
/// agrees with the one before, and some peer is not where the listener knows
/// it, a report follows. Without a debounce time it follows at once.
pub proof fn law_settled_differences_are_reported(
    state: DetectorModel,
    sample: Sources,
    i: int,
    j: int,
)
    requires
        vecmap::keys_are_distinct(state.last),
        vecmap::keys_are_distinct(sample),
        0 <= i < state.last.len(),
        0 <= j < sample.len(),
        state.last[i].0 == sample[j].0,
        state.last[i].1 != sample[j].1,
        match state.unsettled {
            Some(seen) => {
                &&& vecmap::keys_are_distinct(seen)
                &&& forall|k: int, l: int|
                    0 <= k < seen.len() && 0 <= l < sample.len() && (#[trigger] seen[k]).0 == (
                    #[trigger] sample[l]).0 ==> seen[k].1 == sample[l].1
            },
            None => state.debounce_ms == 0,
        },
    ensures
        state.on_sample(sample).0 is Report,
        state.on_sample(sample).0->moved.contains(
            PeerSourceMove { peer: sample[j].0, before: state.last[i].1, after: sample[j].1 },
        ),
{
    law_detector_cases(state, sample);
    law_reports_tell_what_changed(state, sample);
}

/// A handover that stays is reported once, in full: with a debounce time, two
/// equal samples that differ from what the listener knows give first another
/// look and then a report, after which the same sample gives nothing.
pub proof fn law_a_handover_is_reported_once(
    state: DetectorModel,
    sample: Sources,
    i: int,
    j: int,
)
    requires
        vecmap::keys_are_distinct(state.last),
        vecmap::keys_are_distinct(sample),
        state.unsettled is None,
        state.debounce_ms > 0,
        0 <= i < state.last.len(),
        0 <= j < sample.len(),
        state.last[i].0 == sample[j].0,
        state.last[i].1 != sample[j].1,
    ensures
        ({
            let (first, moving) = state.on_sample(sample);
            let (second, reported) = moving.on_sample(sample);
            let (third, _) = reported.on_sample(sample);
            &&& first is Resample
            &&& second is Report
            &&& third is Wait
        }),
{
    assert forall|k: int, l: int|
        0 <= k < sample.len() && 0 <= l < sample.len() && (#[trigger] sample[k]).0 == (
        #[trigger] sample[l]).0 implies sample[k].1 == sample[l].1 by {
        if k < l {
            assert(sample[k].0@ != sample[l].0@);
        } else if l < k {
            assert(sample[l].0@ != sample[k].0@);
        }
    }
    law_detector_cases(state, sample);
    let moving = state.on_sample(sample).1;
    law_detector_cases(moving, sample);
    let reported = moving.on_sample(sample).1;
    law_detector_cases(reported, sample);
}

/// What follows a report: nothing more if nobody listens, and else a pause.
pub proof fn law_after_a_report(outcome: SendOutcome)
    ensures
        match outcome {
            SendOutcome::Closed => DetectorModel::on_sent(outcome) is Stop,
            SendOutcome::Delivered | SendOutcome::Full => DetectorModel::on_sent(outcome) == (
            DetectorStepView::Hold { ms: 5000 }),
        },
{
}

/// What a step says is what it holds.
pub proof fn law_steps_say_what_they_hold(step: DetectorStep)
    ensures
        match step {
            DetectorStep::Wait => step@ is Wait,
            DetectorStep::Resample { after_ms } => step@ == (DetectorStepView::Resample {
                after_ms,
            }),
            DetectorStep::Report(change) => step@ == (DetectorStepView::Report {
                generation: change.generation,
                moved: change.summary.moved@,
                probed: change.summary.probed as nat,
            }),
            DetectorStep::Hold { ms } => step@ == (DetectorStepView::Hold { ms }),
            DetectorStep::Stop => step@ is Stop,
        },
{
}

/// Fingerprints are equal exactly when they have the same peers with the same
/// sources.
pub proof fn law_equality_is_that_of_sources(a: NetFingerprint, b: NetFingerprint)
    requires
        a.wf(),
        b.wf(),
    ensures
        vstd::std_specs::cmp::PartialEqSpec::eq_spec(&a, &b) <==> a@ == b@,
{
    fingerprint::law_equal_means_the_same_sources(a, b);
}

/// A fingerprint has its peers in the order of their bytes: of two, the one
/// that stands first has the smaller byte where they first differ.
pub proof fn law_peers_stand_in_order(fingerprint: NetFingerprint, i: int, j: int, k: int)
    requires
        fingerprint.wf(),
        0 <= i < j < fingerprint.entries().len(),
        0 <= k < 16,
        forall|l: int|
            0 <= l < k ==> #[trigger] fingerprint.entries()[i].0.bytes()[l]
                == fingerprint.entries()[j].0.bytes()[l],
        fingerprint.entries()[i].0.bytes()[k] != fingerprint.entries()[j].0.bytes()[k],
    ensures
        fingerprint.entries()[i].0.bytes()[k] < fingerprint.entries()[j].0.bytes()[k],
{
    let (a, b) = (fingerprint.entries()[i].0, fingerprint.entries()[j].0);
    assert(a.precedes(b));
    NodeAddr::law_first_difference_decides(a, b, k);
}

} // verus!
