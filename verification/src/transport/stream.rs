//! Connection lifecycle rules shared by the stream transports.
//!
//! Each pooled connection has its own writer task and receive loop, and either
//! can outlive the pool entry it was created with. The rules for when such a
//! loop may touch the pool are written once here.

use vstd::prelude::*;

use crate::transport::addr::TransportAddr;
use crate::vecmap::VecMap;

verus! {

/// Identity of one pooled stream connection.
///
/// The pool is keyed by address, and a newer connection can take an address
/// while an older connection's writer or receive loop is still running. The
/// id tells the two apart.
pub type ConnId = u64;

/// Where connection ids come from. A process holds one.
pub struct ConnIdSource {
    next: ConnId,
}

impl ConnIdSource {
    /// The id that comes next.
    pub closed spec fn upcoming(&self) -> ConnId {
        self.next
    }

    /// A source that starts at 1.
    pub fn new() -> (source: ConnIdSource)
        ensures
            source.upcoming() == 1,
    {
        ConnIdSource { next: 1 }
    }

    /// Hands out the next id. Only after every id has been handed out do they
    /// start over.
    pub fn next_conn_id(&mut self) -> (id: ConnId)
        ensures
            id == old(self).upcoming(),
            final(self).upcoming() == next_id(old(self).upcoming()),
            final(self).upcoming() == if id == u64::MAX {
                0
            } else {
                id + 1
            },
    {
        let id: ConnId = self.next;
        self.next = id.wrapping_add(1);
        id
    }
}

/// The id that comes after `id`.
pub open spec fn next_id(id: ConnId) -> ConnId {
    if id == u64::MAX {
        0
    } else {
        (id + 1) as u64
    }
}

/// The id that comes `n` calls after `id`.
pub open spec fn nth_id(id: ConnId, n: nat) -> ConnId
    decreases n,
{
    if n == 0 {
        id
    } else {
        next_id(nth_id(id, (n - 1) as nat))
    }
}

/// No id is handed out twice before all of them have been.
pub proof fn law_ids_are_distinct(first: ConnId, m: nat, n: nat)
    requires
        m < n,
        n - m <= u64::MAX,
    ensures
        nth_id(first, m) != nth_id(first, n),
{
    lemma_nth_id(first, m);
    lemma_nth_id(first, n);
}

/// The `n`-th id is `n` further on, around the clock.
proof fn lemma_nth_id(first: ConnId, n: nat)
    ensures
        nth_id(first, n) == (first + n) % (u64::MAX + 1),
    decreases n,
{
    if n > 0 {
        lemma_nth_id(first, (n - 1) as nat);
    }
}

/// A pooled stream connection that knows its own [`ConnId`].
pub trait PooledConn: Sized {
    /// The connection's id.
    spec fn id(&self) -> ConnId;

    /// The id this connection's writer and receive loop were given.
    fn conn_id(&self) -> (id: ConnId)
        ensures
            id == self.id(),
    ;
}

/// A pooled stream connection: its id, and whatever else its transport keeps
/// of it.
#[derive(Debug, PartialEq, Eq)]
pub struct StreamConn<H> {
    /// The id its writer and receive loop were given.
    pub id: ConnId,
    /// The rest.
    pub handle: H,
}

impl<H> PooledConn for StreamConn<H> {
    open spec fn id(&self) -> ConnId {
        self.id
    }

    fn conn_id(&self) -> (id: ConnId) {
        self.id
    }
}

/// Removes the entry at `addr`, but only if it is connection `id`.
///
/// This is the only way a connection's own writer or receive loop removes a
/// pool entry. An entry with another id belongs to a newer connection at the
/// same address, and is left alone.
pub fn remove_own<C: PooledConn>(
    pool: &mut VecMap<TransportAddr, C>,
    addr: &TransportAddr,
    id: ConnId,
) -> (removed: Option<C>)
    requires
        old(pool).wf(),
    ensures
        final(pool).wf(),
        match removed {
            Some(conn) => {
                &&& old(pool)@.dom().contains(addr@)
                &&& conn == old(pool)@[addr@]
                &&& conn.id() == id
                &&& final(pool)@ == old(pool)@.remove(addr@)
            },
            None => {
                &&& old(pool)@.dom().contains(addr@) ==> old(pool)@[addr@].id() != id
                &&& final(pool)@ == old(pool)@
            },
        },
{
    let own = match pool.get(addr) {
        Some(conn) => conn.conn_id() == id,
        None => false,
    };
    if !own {
        return None;
    }
    pool.remove(addr)
}

} // verus!
