//! TCP connection pool types.

use vstd::prelude::*;

use crate::net::SocketAddr;
use crate::transport::addr::TransportAddr;
use crate::vecmap;
use crate::vecmap::{Key, VecMap};

verus! {

/// Direction of a pooled connection, by which inbound and outbound ones are
/// counted apart.
#[derive(Clone, Copy, Debug, PartialEq, Eq, Structural)]
pub enum Direction {
    /// Accepted by the listener.
    Inbound,
    /// Initiated by this node.
    Outbound,
}

/// State of a single TCP connection to a peer, with a handle `W` to its writer
/// and a handle `T` to its receive task.
pub struct TcpConnection<W, T> {
    /// Write half of the split stream.
    pub writer: W,
    /// Receive task for this connection.
    pub recv_task: T,
    /// MSS-derived MTU for this connection.
    pub mtu: u16,
    /// When the connection was established, in ticks of a clock that does not
    /// run backwards.
    pub established_at: u64,
    /// Direction of the connection.
    pub direction: Direction,
}

/// Key identifying one pooled connection.
///
/// A remote address does not name a connection on its own: two accepted
/// sockets can carry the same peer address when they arrive on different
/// local addresses of a wildcard listener. Inbound entries therefore carry the
/// accepted socket's local address as well. Outbound entries carry none: at
/// most one is made to a peer.
#[derive(Debug, PartialEq, Eq, Hash)]
pub struct PoolKey {
    /// Remote address, as the peer is named by callers and packets.
    pub remote: TransportAddr,
    /// Local address of an accepted socket; `None` for outbound.
    pub local: Option<SocketAddr>,
}

impl View for PoolKey {
    type V = (Seq<u8>, Option<SocketAddr>);

    open spec fn view(&self) -> (Seq<u8>, Option<SocketAddr>) {
        (self.remote@, self.local)
    }
}

impl Clone for PoolKey {
    fn clone(&self) -> (copy: PoolKey)
        ensures
            copy@ == self@,
    {
        PoolKey { remote: self.remote.clone(), local: self.local }
    }
}

impl Key for PoolKey {
    fn same(&self, other: &PoolKey) -> (same: bool) {
        let same_local = match (self.local, other.local) {
            (None, None) => true,
            (Some(a), Some(b)) => a == b,
            _ => false,
        };
        same_local && self.remote.same(&other.remote)
    }
}

impl PoolKey {
    /// Key for a connection this node initiated.
    pub fn outbound(remote: TransportAddr) -> (key: PoolKey)
        ensures
            key@ == (remote@, None::<SocketAddr>),
    {
        PoolKey { remote, local: None }
    }

    /// Key for a connection the listener accepted on `local`.
    pub fn inbound(remote: TransportAddr, local: SocketAddr) -> (key: PoolKey)
        ensures
            key@ == (remote@, Some(local)),
    {
        PoolKey { remote, local: Some(local) }
    }
}

/// The pooled connections, keyed by [`PoolKey`].
pub type PoolMap<W, T> = VecMap<PoolKey, TcpConnection<W, T>>;

/// Whether a caller that names only `remote` should use the connection at
/// `key`: the outbound one if there is one, else an inbound one that no other
/// was established after.
pub open spec fn is_key_for_remote<W, T>(
    pool: Map<(Seq<u8>, Option<SocketAddr>), TcpConnection<W, T>>,
    remote: Seq<u8>,
    key: (Seq<u8>, Option<SocketAddr>),
) -> bool {
    &&& pool.dom().contains(key)
    &&& key.0 == remote
    &&& if pool.dom().contains((remote, None)) {
        key == (remote, None::<SocketAddr>)
    } else {
        forall|local: Option<SocketAddr>| #[trigger]
            pool.dom().contains((remote, local)) ==> pool[(remote, local)].established_at
                <= pool[key].established_at
    }
}

/// Resolves a remote address to the key of the connection that a caller
/// naming only that address should use.
///
/// An outbound connection wins. Among inbound ones that share the remote
/// address, the most recently established wins.
pub fn key_for_remote<W, T>(pool: &PoolMap<W, T>, remote: &TransportAddr) -> (key: Option<PoolKey>)
    requires
        pool.wf(),
    ensures
        match key {
            Some(key) => {
                &&& is_key_for_remote(pool@, remote@, key@)
                &&& pool@.dom().contains(key@)
                &&& key.remote@ == remote@
                &&& pool@.dom().contains((remote@, None)) <==> key.local is None
                &&& key.local is Some ==> forall|local: Option<SocketAddr>| #[trigger]
                    pool@.dom().contains((remote@, local)) ==> pool@[(
                        remote@,
                        local,
                    )].established_at <= pool@[key@].established_at
            },
            None => forall|local: Option<SocketAddr>| !#[trigger]
                pool@.dom().contains((remote@, local)),
        },
{
    let outbound = PoolKey::outbound(remote.clone());
    if pool.contains_key(&outbound) {
        return Some(outbound);
    }
    let ghost entries = pool.entries_seq();
    let mut best: Option<usize> = None;
    let mut i: usize = 0;
    while i < pool.len()
        invariant
            pool.wf(),
            entries == pool.entries_seq(),
            i <= entries.len(),
            match best {
                Some(b) => {
                    &&& b < i
                    &&& entries[b as int].0@.0 == remote@
                    &&& forall|j: int|
                        0 <= j < i && (#[trigger] entries[j]).0@.0 == remote@
                            ==> entries[j].1.established_at <= entries[b as int].1.established_at
                },
                None => forall|j: int| 0 <= j < i ==> (#[trigger] entries[j]).0@.0 != remote@,
            },
        decreases entries.len() - i,
    {
        let entry = pool.entry(i);
        if entry.0.remote.same(remote) {
            let newer = match best {
                Some(b) => pool.entry(b).1.established_at <= entry.1.established_at,
                None => true,
            };
            if newer {
                best = Some(i);
            }
        }
        i += 1;
    }
    proof {
        assert forall|local: Option<SocketAddr>| #[trigger]
            pool@.dom().contains((remote@, local)) implies exists|j: int|
            0 <= j < entries.len() && (#[trigger] entries[j]).0@ == (remote@, local)
            && pool@[(remote@, local)] == entries[j].1 by {
            let j = vecmap::position(entries, (remote@, local));
            assert(0 <= j < entries.len() && entries[j].0@ == (remote@, local));
            vecmap::lemma_entry_is_in_map(entries, j);
        }
    }
    match best {
        Some(b) => {
            proof {
                vecmap::lemma_entry_is_in_map(entries, b as int);
            }
            Some(pool.entry(b).0.clone())
        },
        None => None,
    }
}

/// Two connections from one remote address that were accepted on different
/// local addresses have different keys, and neither has the key of an
/// outbound connection.
pub proof fn law_keys_tell_connections_apart(
    remote: Seq<u8>,
    local: SocketAddr,
    other: SocketAddr,
)
    requires
        local != other,
    ensures
        (remote, Some(local)) != (remote, Some(other)),
        (remote, Some(local)) != (remote, None::<SocketAddr>),
{
}

} // verus!
