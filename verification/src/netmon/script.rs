//! Building blocks for driving the detector by hand.

use vstd::prelude::*;

use crate::net::{IpAddr, NodeAddr};
use crate::netmon::fingerprint;
use crate::netmon::fingerprint::{NetFingerprint, Sources};
use crate::netmon::wake::WakeSource;
use crate::netmon::NetmonConfig;

verus! {

/// The address `a.b.c.d`.
pub fn v4(a: u8, b: u8, c: u8, d: u8) -> (ip: IpAddr)
    ensures
        ip == IpAddr::v4(a, b, c, d),
        ip matches IpAddr::V4(n) && n == a * 0x100_0000 + b * 0x1_0000 + c * 0x100 + d,
{
    IpAddr::V4(a as u32 * 0x100_0000 + b as u32 * 0x1_0000 + c as u32 * 0x100 + d as u32)
}

/// A peer address made of one byte, so that two of them differ when their
/// bytes do.
pub fn peer(n: u8) -> (addr: NodeAddr)
    ensures
        addr.bytes() == Seq::new(16, |i: int| n),
{
    let bytes: [u8; 16] = [n; 16];
    assert(bytes@ =~= Seq::new(16, |i: int| n));
    NodeAddr::from_bytes(bytes)
}

/// The sources in which `peers` are all reached from `source`.
pub open spec fn shared_source(peers: Seq<NodeAddr>, source: Option<IpAddr>) -> Sources {
    peers.map_values(|peer: NodeAddr| (peer, source))
}

/// A fingerprint in which `peers` are all reached from `source`: every peering
/// rides one medium.
pub fn all_from(peers: &[NodeAddr], source: Option<IpAddr>) -> (fingerprint: NetFingerprint)
    ensures
        fingerprint.wf(),
        fingerprint@ == fingerprint::by_peer(shared_source(peers@, source)),
{
    let mut sources: Vec<(NodeAddr, Option<IpAddr>)> = Vec::new();
    let mut i: usize = 0;
    while i < peers.len()
        invariant
            i <= peers@.len(),
            sources@ == shared_source(peers@.take(i as int), source),
        decreases peers@.len() - i,
    {
        sources.push((peers[i], source));
        i += 1;
        assert(sources@ =~= shared_source(peers@.take(i as int), source));
    }
    assert(peers@.take(i as int) =~= peers@);
    NetFingerprint::for_test(sources.as_slice())
}

/// A wake source with no backend, which wakes every `poll_secs` seconds.
pub fn timer_wake(poll_secs: u64) -> (wake: WakeSource)
    ensures
        !wake.has_backend(),
        wake.period() == poll_secs * 1000,
{
    WakeSource::timer_only(poll_secs as u128 * 1000)
}

/// Settings of a detector that runs.
pub fn cfg(poll_secs: u64, debounce_ms: u64) -> (config: NetmonConfig)
    ensures
        config == (NetmonConfig { enabled: true, poll_interval_secs: poll_secs, debounce_ms }),
{
    NetmonConfig { enabled: true, poll_interval_secs: poll_secs, debounce_ms }
}

/// A sampler that walks a script and stays on its last entry.
pub struct ScriptedSampler {
    samples: Vec<NetFingerprint>,
    calls: usize,
}

/// A sampler that walks `samples` and stays on the last.
pub fn scripted(samples: Vec<NetFingerprint>) -> (sampler: ScriptedSampler)
    requires
        samples@.len() > 0,
        forall|i: int| 0 <= i < samples@.len() ==> (#[trigger] samples@[i]).sources.wf(),
    ensures
        sampler.wf(),
        sampler.script() == samples@,
        sampler.call_count() == 0,
{
    ScriptedSampler { samples, calls: 0 }
}

impl ScriptedSampler {
    /// The script.
    pub closed spec fn script(&self) -> Seq<NetFingerprint> {
        self.samples@
    }

    /// How many samples have been taken.
    pub closed spec fn call_count(&self) -> usize {
        self.calls
    }

    /// What every sampler made here satisfies.
    pub open spec fn wf(&self) -> bool {
        &&& self.script().len() > 0
        &&& forall|i: int|
            0 <= i < self.script().len() ==> (#[trigger] self.script()[i]).sources.wf()
    }

    /// Takes the next sample.
    pub fn sample(&mut self) -> (sample: NetFingerprint)
        requires
            old(self).wf(),
        ensures
            final(self).wf(),
            final(self).script() == old(self).script(),
            final(self).call_count() == if old(self).call_count() == usize::MAX {
                0
            } else {
                old(self).call_count() + 1
            },
            sample.sources.wf(),
            sample.entries() == old(self).script()[if old(self).call_count() < old(
                self,
            ).script().len() {
                old(self).call_count() as int
            } else {
                old(self).script().len() - 1
            }].entries(),
    {
        let i: usize = if self.calls < self.samples.len() {
            self.calls
        } else {
            self.samples.len() - 1
        };
        self.calls = self.calls.wrapping_add(1);
        self.samples[i].clone()
    }

    /// How many samples have been taken.
    pub fn calls(&self) -> (calls: usize)
        ensures
            calls == self.call_count(),
    {
        self.calls
    }
}

/// Two peers made of different bytes are different peers.
pub proof fn law_peers_differ(a: NodeAddr, b: NodeAddr, m: u8, n: u8)
    requires
        a.bytes() == Seq::new(16, |i: int| m),
        b.bytes() == Seq::new(16, |i: int| n),
        m != n,
    ensures
        a != b,
{
    assert(a.bytes()[0] == m);
    assert(b.bytes()[0] == n);
}

} // verus!
