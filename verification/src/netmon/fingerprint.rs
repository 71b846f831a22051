//! What the host's attachment looks like from the node's peers.

use vstd::prelude::*;

use crate::net::{IpAddr, NodeAddr};
use crate::vecmap;
use crate::vecmap::VecMap;

verus! {

/// Peers, each with the local address it is reached from, or `None` for a peer
/// that no route leads to.
pub type Sources = Seq<(NodeAddr, Option<IpAddr>)>;

/// One peer that is reached from another local address than before.
#[derive(Clone, Copy, Debug, PartialEq, Eq, Structural)]
pub struct PeerSourceMove {
    /// The peer.
    pub peer: NodeAddr,
    /// Where it was reached from; `None` if there was no route.
    pub before: Option<IpAddr>,
    /// Where it is reached from; `None` if there is no route.
    pub after: Option<IpAddr>,
}

/// The local address each peer is reached from.
///
/// A peer that no route leads to stays in as `None`. If it dropped out, losing
/// a route could not be told from losing a peer.
///
/// The peers stand in the order of their addresses, so a fingerprint does not
/// depend on the order in which they were sampled.
#[derive(Debug)]
pub struct NetFingerprint {
    /// The sources by peer.
    pub sources: VecMap<NodeAddr, Option<IpAddr>>,
}

/// The answer that a route lookup gave, or `None` where the host declined to
/// choose: a loopback or unspecified source is no answer.
pub open spec fn usable(answer: Option<IpAddr>) -> Option<IpAddr> {
    match answer {
        Some(ip) => if ip.loopback() || ip.unspecified() {
            None
        } else {
            Some(ip)
        },
        None => None,
    }
}

/// The source of each peer. Where a peer occurs twice the later source counts.
pub open spec fn by_peer(sources: Sources) -> Map<NodeAddr, Option<IpAddr>>
    decreases sources.len(),
{
    if sources.len() == 0 {
        Map::empty()
    } else {
        by_peer(sources.drop_last()).insert(sources.last().0, sources.last().1)
    }
}

/// Whether the peers stand in the order of their addresses, each once.
pub open spec fn in_order(sources: Sources) -> bool {
    forall|i: int, j: int|
        0 <= i < j < sources.len() ==> #[trigger] sources[i].0.precedes(#[trigger] sources[j].0)
}

/// What a set of route lookups amounts to.
pub open spec fn usable_sources(answers: Sources) -> Sources {
    answers.map_values(|entry: (NodeAddr, Option<IpAddr>)| (entry.0, usable(entry.1)))
}

/// Whether `peer` was reached before and is reached now, from different
/// sources.
pub open spec fn has_moved(
    before: Map<NodeAddr, Option<IpAddr>>,
    after: Map<NodeAddr, Option<IpAddr>>,
    peer: NodeAddr,
) -> bool {
    before.dom().contains(peer) && after.dom().contains(peer) && before[peer] != after[peer]
}

/// The peers of `before` that moved, in their order there. A peer that is on
/// one side only has not moved.
pub open spec fn moves(before: Sources, after: Map<NodeAddr, Option<IpAddr>>) -> Seq<PeerSourceMove>
    decreases before.len(),
{
    if before.len() == 0 {
        Seq::empty()
    } else {
        let found = moves(before.drop_last(), after);
        let (peer, source) = before.last();
        if after.dom().contains(peer) && after[peer] != source {
            found.push(PeerSourceMove { peer, before: source, after: after[peer] })
        } else {
            found
        }
    }
}

impl View for NetFingerprint {
    type V = Map<NodeAddr, Option<IpAddr>>;

    open spec fn view(&self) -> Map<NodeAddr, Option<IpAddr>> {
        self.sources@
    }
}

impl Clone for NetFingerprint {
    fn clone(&self) -> (copy: NetFingerprint)
        ensures
            copy.entries() == self.entries(),
            copy@ == self@,
    {
        NetFingerprint { sources: self.sources.clone() }
    }
}

impl PartialEq for NetFingerprint {
    fn eq(&self, other: &NetFingerprint) -> (same: bool) {
        if self.sources.len() != other.sources.len() {
            return false;
        }
        let mut i: usize = 0;
        while i < self.sources.len()
            invariant
                i <= self.entries().len() == other.entries().len(),
                forall|j: int|
                    0 <= j < i ==> #[trigger] self.entries()[j] == other.entries()[j],
            decreases self.entries().len() - i,
        {
            let (peer, source) = *self.sources.entry(i);
            let (other_peer, other_source) = *other.sources.entry(i);
            if peer != other_peer || !same_source(source, other_source) {
                return false;
            }
            i += 1;
        }
        assert(self.entries() =~= other.entries());
        true
    }
}

impl Eq for NetFingerprint {

}

impl vstd::std_specs::cmp::PartialEqSpecImpl for NetFingerprint {
    open spec fn obeys_eq_spec() -> bool {
        true
    }

    open spec fn eq_spec(&self, other: &NetFingerprint) -> bool {
        self.entries() == other.entries()
    }
}

impl NetFingerprint {
    /// What every fingerprint made here satisfies: no peer occurs twice, and
    /// the peers stand in the order of their addresses.
    pub open spec fn wf(&self) -> bool {
        &&& self.sources.wf()
        &&& in_order(self.entries())
    }

    /// The peers with their sources, in order.
    pub open spec fn entries(&self) -> Sources {
        self.sources.entries_seq()
    }

    /// The fingerprint of the route lookups made for the peers: every peer is
    /// recorded, whether or not it has a route.
    pub fn sample(answers: &[(NodeAddr, Option<IpAddr>)]) -> (fingerprint: NetFingerprint)
        ensures
            fingerprint.wf(),
            fingerprint@ == by_peer(usable_sources(answers@)),
    {
        let mut sources: Vec<(NodeAddr, Option<IpAddr>)> = Vec::new();
        let mut i: usize = 0;
        while i < answers.len()
            invariant
                i <= answers@.len(),
                sources@ == usable_sources(answers@.take(i as int)),
            decreases answers@.len() - i,
        {
            let (peer, answer) = answers[i];
            let source = match answer {
                Some(ip) => if ip.is_loopback() || ip.is_unspecified() {
                    None
                } else {
                    Some(ip)
                },
                None => None,
            };
            sources.push((peer, source));
            i += 1;
            assert(sources@ =~= usable_sources(answers@.take(i as int)));
        }
        assert(answers@.take(i as int) =~= answers@);
        NetFingerprint::for_test(sources.as_slice())
    }

    /// The fingerprint in which the peers are reached from the given sources.
    pub fn for_test(sources: &[(NodeAddr, Option<IpAddr>)]) -> (fingerprint: NetFingerprint)
        ensures
            fingerprint.wf(),
            fingerprint@ == by_peer(sources@),
    {
        let mut fingerprint = NetFingerprint { sources: VecMap::new() };
        let mut i: usize = 0;
        while i < sources.len()
            invariant
                i <= sources@.len(),
                fingerprint.wf(),
                fingerprint@ == by_peer(sources@.take(i as int)),
            decreases sources@.len() - i,
        {
            let (peer, source) = sources[i];
            assert(sources@.take(i + 1).drop_last() =~= sources@.take(i as int));
            fingerprint.record(peer, source);
            i += 1;
        }
        assert(sources@.take(i as int) =~= sources@);
        fingerprint
    }

    /// Records the source of a peer.
    fn record(&mut self, peer: NodeAddr, source: Option<IpAddr>)
        requires
            old(self).wf(),
        ensures
            final(self).wf(),
            final(self)@ == old(self)@.insert(peer, source),
    {
        let ghost before = self.entries();
        if self.sources.contains_key(&peer) {
            self.sources.insert(peer, source);
            proof {
                let after = self.entries();
                let p = vecmap::position(before, peer);
                assert(vecmap::has_key(before, peer));
                assert(0 <= p < before.len() && before[p].0@ == peer);
                assert forall|i: int, j: int| 0 <= i < j < after.len() implies #[trigger] after[
                i].0.precedes(#[trigger] after[j].0) by {
                    assert(after[i].0 == before[i].0);
                    assert(after[j].0 == before[j].0);
                }
            }
            return;
        }
        let mut index: usize = 0;
        while index < self.sources.len() && self.sources.entry(index).0.is_before(&peer)
            invariant
                before == self.entries(),
                index <= before.len(),
                forall|i: int| 0 <= i < index ==> (#[trigger] before[i]).0.precedes(peer),
            decreases before.len() - index,
        {
            index += 1;
        }
        proof {
            assert(!vecmap::has_key(before, peer));
            assert forall|j: int| index <= j < before.len() implies peer.precedes(
                (#[trigger] before[j]).0,
            ) by {
                assert(before[index as int].0@ != peer);
                NodeAddr::law_order_is_total(before[index as int].0, peer);
                if index < j {
                    NodeAddr::law_order_is_transitive(
                        peer,
                        before[index as int].0,
                        before[j].0,
                    );
                }
            }
        }
        self.sources.insert_at(index, peer, source);
        proof {
            let after = self.entries();
            assert forall|i: int, j: int| 0 <= i < j < after.len() implies #[trigger] after[
            i].0.precedes(#[trigger] after[j].0) by {
                if i != index && j != index {
                    let bi = if i < index {
                        i
                    } else {
                        i - 1
                    };
                    let bj = if j < index {
                        j
                    } else {
                        j - 1
                    };
                    assert(before[bi].0.precedes(before[bj].0));
                } else if i == index {
                    assert(peer.precedes(before[j - 1].0));
                } else {
                    assert(before[i].0.precedes(peer));
                }
            }
        }
    }

    /// The peers that are in both fingerprints and are reached from different
    /// sources. A peer that joined or left in between says nothing about the
    /// medium.
    pub fn moved(&self, after: &NetFingerprint) -> (moved: Vec<PeerSourceMove>)
        requires
            after.sources.wf(),
        ensures
            moved@ == moves(self.entries(), after@),
    {
        let ghost entries = self.entries();
        let mut moved: Vec<PeerSourceMove> = Vec::new();
        let mut i: usize = 0;
        while i < self.sources.len()
            invariant
                entries == self.entries(),
                after.sources.wf(),
                i <= entries.len(),
                moved@ == moves(entries.take(i as int), after@),
            decreases entries.len() - i,
        {
            let (peer, before) = *self.sources.entry(i);
            assert(entries.take(i + 1).drop_last() =~= entries.take(i as int));
            if let Some(source) = after.sources.get(&peer) {
                if !same_source(before, *source) {
                    moved.push(PeerSourceMove { peer, before, after: *source });
                }
            }
            i += 1;
        }
        assert(entries.take(i as int) =~= entries);
        moved
    }
}

/// Whether two sources are the same.
fn same_source(a: Option<IpAddr>, b: Option<IpAddr>) -> (same: bool)
    ensures
        same == (a == b),
{
    match (a, b) {
        (None, None) => true,
        (Some(a), Some(b)) => a == b,
        _ => false,
    }
}

/// The moves are one each for the peers that moved, and no other.
pub proof fn law_moves_are_the_peers_that_moved(
    before: NetFingerprint,
    after: NetFingerprint,
    peer: NodeAddr,
)
    requires
        before.sources.wf(),
        after.sources.wf(),
    ensures
        has_moved(before@, after@, peer) <==> exists|i: int|
            0 <= i < moves(before.entries(), after@).len() && (#[trigger] moves(
                before.entries(),
                after@,
            )[i]).peer == peer,
        forall|i: int|
            0 <= i < moves(before.entries(), after@).len() ==> {
                let m = #[trigger] moves(before.entries(), after@)[i];
                has_moved(before@, after@, m.peer) && m.before == before@[m.peer] && m.after
                    == after@[m.peer]
            },
        forall|i: int, j: int|
            0 <= i < j < moves(before.entries(), after@).len() ==> #[trigger] moves(
                before.entries(),
                after@,
            )[i].peer != #[trigger] moves(before.entries(), after@)[j].peer,
{
    lemma_moves_are_distinct(before.entries(), after@);
    let entries = before.entries();
    lemma_moves(entries, after@);
    let found = moves(entries, after@);
    assert forall|i: int| 0 <= i < found.len() implies ({
        let m = #[trigger] found[i];
        has_moved(before@, after@, m.peer) && m.before == before@[m.peer] && m.after
            == after@[m.peer]
    }) by {
        let j = choose|j: int|
            0 <= j < entries.len() && (#[trigger] entries[j]).0 == found[i].peer && entries[j].1
                == found[i].before;
        vecmap::lemma_entry_is_in_map(entries, j);
    }
    if has_moved(before@, after@, peer) {
        let j = vecmap::position(entries, peer);
        assert(0 <= j < entries.len() && entries[j].0@ == peer);
        vecmap::lemma_entry_is_in_map(entries, j);
        assert(after@.dom().contains(entries[j].0) && after@[entries[j].0] != entries[j].1);
        let i = choose|i: int| 0 <= i < found.len() && (#[trigger] found[i]).peer == entries[j].0;
        assert(found[i].peer == peer);
    }
}

/// Every move comes from an entry, and every entry that moved is among the
/// moves.
pub(crate) proof fn lemma_moves(before: Sources, after: Map<NodeAddr, Option<IpAddr>>)
    ensures
        forall|i: int|
            0 <= i < moves(before, after).len() ==> {
                let m = #[trigger] moves(before, after)[i];
                &&& after.dom().contains(m.peer)
                &&& m.after == after[m.peer]
                &&& m.before != m.after
                &&& exists|j: int|
                    0 <= j < before.len() && (#[trigger] before[j]).0 == m.peer && before[j].1
                        == m.before
            },
        forall|j: int|
            0 <= j < before.len() && after.dom().contains((#[trigger] before[j]).0)
                && after[before[j].0] != before[j].1 ==> exists|i: int|
                0 <= i < moves(before, after).len() && (#[trigger] moves(before, after)[i]).peer
                    == before[j].0,
    decreases before.len(),
{
    if before.len() > 0 {
        let shorter = before.drop_last();
        let n = before.len() - 1;
        lemma_moves(shorter, after);
        let earlier = moves(shorter, after);
        let found = moves(before, after);
        assert forall|i: int| 0 <= i < found.len() implies ({
            let m = #[trigger] found[i];
            &&& after.dom().contains(m.peer)
            &&& m.after == after[m.peer]
            &&& m.before != m.after
            &&& exists|j: int|
                0 <= j < before.len() && (#[trigger] before[j]).0 == m.peer && before[j].1
                    == m.before
        }) by {
            if i < earlier.len() {
                assert(found[i] == earlier[i]);
                let j = choose|j: int|
                    0 <= j < shorter.len() && (#[trigger] shorter[j]).0 == earlier[i].peer
                        && shorter[j].1 == earlier[i].before;
                assert(before[j] == shorter[j]);
            } else {
                assert(before[n].0 == found[i].peer);
            }
        }
        assert forall|j: int|
            0 <= j < before.len() && after.dom().contains((#[trigger] before[j]).0)
                && after[before[j].0] != before[j].1 implies exists|i: int|
            0 <= i < found.len() && (#[trigger] found[i]).peer == before[j].0 by {
            if j < n {
                assert(shorter[j] == before[j]);
                let i = choose|i: int|
                    0 <= i < earlier.len() && (#[trigger] earlier[i]).peer == shorter[j].0;
                assert(found[i] == earlier[i]);
            } else {
                assert(found[found.len() - 1].peer == before[j].0);
            }
        }
    }
}

/// No peer moves twice.
pub(crate) proof fn lemma_moves_are_distinct(before: Sources, after: Map<NodeAddr, Option<IpAddr>>)
    requires
        vecmap::keys_are_distinct(before),
    ensures
        forall|i: int, j: int|
            0 <= i < j < moves(before, after).len() ==> #[trigger] moves(before, after)[i].peer
                != #[trigger] moves(before, after)[j].peer,
    decreases before.len(),
{
    if before.len() > 0 {
        let shorter = before.drop_last();
        let n = before.len() - 1;
        assert forall|i: int, j: int| 0 <= i < j < shorter.len() implies #[trigger] shorter[i].0@
            != #[trigger] shorter[j].0@ by {
            assert(before[i].0@ != before[j].0@);
        }
        lemma_moves_are_distinct(shorter, after);
        lemma_moves(shorter, after);
        let earlier = moves(shorter, after);
        let found = moves(before, after);
        assert forall|i: int, j: int| 0 <= i < j < found.len() implies #[trigger] found[i].peer
            != #[trigger] found[j].peer by {
            if j < earlier.len() {
                assert(found[i] == earlier[i] && found[j] == earlier[j]);
            } else {
                assert(found[i] == earlier[i]);
                let k = choose|k: int|
                    0 <= k < shorter.len() && (#[trigger] shorter[k]).0 == earlier[i].peer
                        && shorter[k].1 == earlier[i].before;
                assert(before[k].0@ != before[n].0@);
            }
        }
    }
}

/// Nothing has moved between a fingerprint and itself.
pub proof fn law_nothing_moves_by_itself(fingerprint: NetFingerprint)
    requires
        fingerprint.sources.wf(),
    ensures
        moves(fingerprint.entries(), fingerprint@).len() == 0,
{
    let found = moves(fingerprint.entries(), fingerprint@);
    if found.len() > 0 {
        law_moves_are_the_peers_that_moved(fingerprint, fingerprint, found[0].peer);
    }
}

/// A peer that is on one side only has not moved: joining and leaving are not
/// medium changes.
pub proof fn law_churn_is_no_move(
    before: NetFingerprint,
    after: NetFingerprint,
)
    requires
        before.sources.wf(),
        after.sources.wf(),
        forall|peer: NodeAddr|
            before@.dom().contains(peer) && #[trigger] after@.dom().contains(peer) ==> before@[peer]
                == after@[peer],
    ensures
        moves(before.entries(), after@).len() == 0,
{
    let found = moves(before.entries(), after@);
    if found.len() > 0 {
        law_moves_are_the_peers_that_moved(before, after, found[0].peer);
    }
}

/// A sample records every peer a lookup was made for and no other, and never
/// a loopback or unspecified source.
pub proof fn law_samples_record_every_peer(answers: Sources)
    ensures
        forall|peer: NodeAddr|
            by_peer(usable_sources(answers)).dom().contains(peer) <==> exists|i: int|
                0 <= i < answers.len() && (#[trigger] answers[i]).0 == peer,
        forall|peer: NodeAddr| #[trigger]
            by_peer(usable_sources(answers)).dom().contains(peer) ==> match by_peer(
                usable_sources(answers),
            )[peer] {
                Some(ip) => !ip.loopback() && !ip.unspecified(),
                None => true,
            },
    decreases answers.len(),
{
    if answers.len() > 0 {
        let shorter = answers.drop_last();
        let n = answers.len() - 1;
        law_samples_record_every_peer(shorter);
        assert(usable_sources(answers).drop_last() =~= usable_sources(shorter));
        let all = by_peer(usable_sources(answers));
        let fewer = by_peer(usable_sources(shorter));
        assert forall|peer: NodeAddr|
            all.dom().contains(peer) <==> exists|i: int|
                0 <= i < answers.len() && (#[trigger] answers[i]).0 == peer by {
            if all.dom().contains(peer) {
                if fewer.dom().contains(peer) {
                    let i = choose|i: int|
                        0 <= i < shorter.len() && (#[trigger] shorter[i]).0 == peer;
                    assert(answers[i] == shorter[i]);
                } else {
                    assert(answers[n].0 == peer);
                }
            }
            if exists|i: int| 0 <= i < answers.len() && (#[trigger] answers[i]).0 == peer {
                let i = choose|i: int| 0 <= i < answers.len() && (#[trigger] answers[i]).0 == peer;
                if i < n {
                    assert(shorter[i] == answers[i]);
                }
            }
        }
    }
}

/// Fingerprints are equal exactly when they give every peer the same source,
/// whatever order the peers were sampled in.
pub proof fn law_equal_means_the_same_sources(a: NetFingerprint, b: NetFingerprint)
    requires
        a.wf(),
        b.wf(),
    ensures
        a.entries() == b.entries() <==> a@ == b@,
{
    if a@ == b@ {
        lemma_order_fixes_entries(a.entries(), b.entries());
    }
}

/// Entries in order hold no peer twice.
proof fn lemma_in_order_is_distinct(entries: Sources)
    requires
        in_order(entries),
    ensures
        vecmap::keys_are_distinct(entries),
{
    assert forall|i: int, j: int| 0 <= i < j < entries.len() implies #[trigger] entries[i].0@
        != #[trigger] entries[j].0@ by {
        assert(entries[i].0.precedes(entries[j].0));
        NodeAddr::law_order_is_total(entries[i].0, entries[j].0);
    }
}

/// The last entry's peer comes before no other.
proof fn lemma_last_is_last(entries: Sources, peer: NodeAddr)
    requires
        in_order(entries),
        entries.len() > 0,
        vecmap::has_key(entries, peer),
    ensures
        !entries.last().0.precedes(peer),
{
    let i = vecmap::position(entries, peer);
    assert(0 <= i < entries.len() && entries[i].0@ == peer);
    let n = entries.len() - 1;
    NodeAddr::law_order_is_total(entries[i].0, entries[n].0);
    if i < n {
        assert(entries[i].0.precedes(entries[n].0));
    }
}

/// Without the last entry the map is without its peer.
proof fn lemma_drop_last(entries: Sources)
    requires
        in_order(entries),
        entries.len() > 0,
    ensures
        in_order(entries.drop_last()),
        vecmap::map_of(entries.drop_last()) == vecmap::map_of(entries).remove(entries.last().0),
{
    let shorter = entries.drop_last();
    let n = entries.len() - 1;
    lemma_in_order_is_distinct(entries);
    assert forall|i: int, j: int| 0 <= i < j < shorter.len() implies #[trigger] shorter[
    i].0.precedes(#[trigger] shorter[j].0) by {
        assert(entries[i].0.precedes(entries[j].0));
    }
    lemma_in_order_is_distinct(shorter);
    assert forall|peer: NodeAddr|
        vecmap::has_key(shorter, peer) <==> vecmap::has_key(entries, peer) && peer
            != entries.last().0 by {
        if vecmap::has_key(shorter, peer) {
            let i = vecmap::position(shorter, peer);
            assert(0 <= i < shorter.len() && shorter[i].0@ == peer);
            assert(entries[i].0@ == peer);
            assert(entries[i].0@ != entries[n].0@);
        }
        if vecmap::has_key(entries, peer) && peer != entries.last().0 {
            let i = vecmap::position(entries, peer);
            assert(0 <= i < entries.len() && entries[i].0@ == peer);
            assert(shorter[i].0@ == peer);
        }
    }
    assert forall|peer: NodeAddr| vecmap::has_key(shorter, peer) implies vecmap::map_of(
        shorter,
    )[peer] == vecmap::map_of(entries)[peer] by {
        let i = vecmap::position(shorter, peer);
        assert(0 <= i < shorter.len() && shorter[i].0@ == peer);
        assert(entries[i] == shorter[i]);
        vecmap::lemma_entry_is_in_map(shorter, i);
        vecmap::lemma_entry_is_in_map(entries, i);
    }
    assert(vecmap::map_of(shorter) =~= vecmap::map_of(entries).remove(entries.last().0));
}

/// Entries in order are fixed by the map they make up.
proof fn lemma_order_fixes_entries(a: Sources, b: Sources)
    requires
        in_order(a),
        in_order(b),
        vecmap::map_of(a) == vecmap::map_of(b),
    ensures
        a == b,
    decreases a.len(),
{
    lemma_in_order_is_distinct(a);
    lemma_in_order_is_distinct(b);
    if a.len() > 0 {
        vecmap::lemma_entry_is_in_map(a, a.len() - 1);
        assert(vecmap::map_of(b).dom().contains(a.last().0));
        assert(vecmap::has_key(b, a.last().0));
        assert(b.len() > 0);
    }
    if b.len() > 0 {
        vecmap::lemma_entry_is_in_map(b, b.len() - 1);
        assert(vecmap::map_of(a).dom().contains(b.last().0));
        assert(vecmap::has_key(a, b.last().0));
        assert(a.len() > 0);
        lemma_last_is_last(a, b.last().0);
        lemma_last_is_last(b, a.last().0);
        NodeAddr::law_order_is_total(a.last().0, b.last().0);
        assert(a.last() == b.last());
        lemma_drop_last(a);
        lemma_drop_last(b);
        lemma_order_fixes_entries(a.drop_last(), b.drop_last());
        assert(a =~= a.drop_last().push(a.last()));
        assert(b =~= b.drop_last().push(b.last()));
    } else {
        assert(a =~= b);
    }
}

} // verus!
