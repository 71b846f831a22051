//! Addresses.

use vstd::bytes::{u128_from_le_bytes, u128_to_le_bytes};
use vstd::prelude::*;

use crate::vecmap::Key;

verus! {

/// Whether `a` comes before `b` when they are compared byte by byte from the
/// front.
pub open spec fn bytes_precede(a: Seq<u8>, b: Seq<u8>) -> bool
    decreases a.len(),
{
    if b.len() == 0 {
        false
    } else if a.len() == 0 {
        true
    } else {
        a[0] < b[0] || (a[0] == b[0] && bytes_precede(a.drop_first(), b.drop_first()))
    }
}

/// An IP address, as the number its bytes spell with the most significant
/// first.
#[derive(Clone, Copy, Debug, PartialEq, Eq, Hash, Structural)]
pub enum IpAddr {
    /// An IPv4 address.
    V4(u32),
    /// An IPv6 address.
    V6(u128),
}

/// The address of a socket.
#[allow(inconsistent_fields)]
#[derive(Clone, Copy, Debug, PartialEq, Eq, Hash, Structural)]
pub enum SocketAddr {
    /// An IPv4 socket address.
    V4 {
        /// The address.
        ip: u32,
        /// The port.
        port: u16,
    },
    /// An IPv6 socket address. One address can stand for different hosts on
    /// different links, which the scope tells apart.
    V6 {
        /// The address.
        ip: u128,
        /// The port.
        port: u16,
        /// The flow information.
        flowinfo: u32,
        /// The scope.
        scope_id: u32,
    },
}

/// The address of a node in the mesh: 16 bytes.
#[derive(Clone, Copy, Debug, PartialEq, Eq, Hash, Structural)]
pub struct NodeAddr {
    bits: u128,
}

impl IpAddr {
    /// The address `a.b.c.d`.
    pub open spec fn v4(a: u8, b: u8, c: u8, d: u8) -> IpAddr {
        IpAddr::V4((a * 0x100_0000 + b * 0x1_0000 + c * 0x100 + d) as u32)
    }

    /// Whether the address is one a host talks to itself by: `127.0.0.0/8` or
    /// `::1`.
    pub open spec fn loopback(self) -> bool {
        match self {
            IpAddr::V4(n) => n / 0x100_0000 == 127,
            IpAddr::V6(n) => n == 1,
        }
    }

    /// Whether the address stands for no address: all zeros.
    pub open spec fn unspecified(self) -> bool {
        match self {
            IpAddr::V4(n) => n == 0,
            IpAddr::V6(n) => n == 0,
        }
    }

    /// Whether this is a loopback address.
    pub fn is_loopback(&self) -> (result: bool)
        ensures
            result == self.loopback(),
    {
        match *self {
            IpAddr::V4(n) => n / 0x100_0000 == 127,
            IpAddr::V6(n) => n == 1,
        }
    }

    /// Whether this is the unspecified address.
    pub fn is_unspecified(&self) -> (result: bool)
        ensures
            result == self.unspecified(),
    {
        match *self {
            IpAddr::V4(n) => n == 0,
            IpAddr::V6(n) => n == 0,
        }
    }
}

impl View for NodeAddr {
    type V = NodeAddr;

    open spec fn view(&self) -> NodeAddr {
        *self
    }
}

impl Key for NodeAddr {
    fn same(&self, other: &NodeAddr) -> (same: bool) {
        *self == *other
    }
}

impl NodeAddr {
    /// The address's 16 bytes.
    pub closed spec fn bytes(self) -> Seq<u8> {
        vstd::bytes::spec_u128_to_le_bytes(self.bits)
    }

    /// Whether this address comes before `other` in the order of their bytes.
    pub open spec fn precedes(self, other: NodeAddr) -> bool {
        bytes_precede(self.bytes(), other.bytes())
    }

    /// Whether this address comes before `other` in the order of their bytes.
    pub fn is_before(&self, other: &NodeAddr) -> (before: bool)
        ensures
            before == self.precedes(*other),
    {
        let a = self.to_bytes();
        let b = other.to_bytes();
        let mut i: usize = 0;
        assert(a@.skip(0) =~= a@);
        assert(b@.skip(0) =~= b@);
        while i < 16 && a[i] == b[i]
            invariant
                i <= 16,
                a@.len() == 16,
                b@.len() == 16,
                bytes_precede(a@.skip(i as int), b@.skip(i as int)) == bytes_precede(a@, b@),
            decreases 16 - i,
        {
            assert(a@.skip(i as int).drop_first() =~= a@.skip(i + 1));
            assert(b@.skip(i as int).drop_first() =~= b@.skip(i + 1));
            i += 1;
        }
        i < 16 && a[i] < b[i]
    }

    /// The address made of 16 bytes.
    pub fn from_bytes(bytes: [u8; 16]) -> (addr: NodeAddr)
        ensures
            addr.bytes() == bytes@,
    {
        let slice: &[u8] = &bytes;
        proof {
            vstd::bytes::lemma_auto_spec_u128_to_from_le_bytes();
        }
        NodeAddr { bits: u128_from_le_bytes(slice) }
    }

    /// The address's 16 bytes.
    pub fn to_bytes(&self) -> (bytes: Vec<u8>)
        ensures
            bytes@ == self.bytes(),
            bytes@.len() == 16,
    {
        proof {
            vstd::bytes::lemma_auto_spec_u128_to_from_le_bytes();
        }
        u128_to_le_bytes(self.bits)
    }

    /// Of any two addresses exactly one holds: the first comes before the
    /// second, they are the same, or the second comes before the first.
    pub proof fn law_order_is_total(a: NodeAddr, b: NodeAddr)
        ensures
            a.precedes(b) || a == b || b.precedes(a),
            !(a.precedes(b) && b.precedes(a)),
            !a.precedes(a),
    {
        NodeAddr::law_bytes_identify(a, b);
        NodeAddr::law_bytes_identify(b, a);
        lemma_bytes_order(a.bytes(), b.bytes());
        lemma_bytes_order(a.bytes(), a.bytes());
    }

    /// What comes before something comes before all that follow it.
    pub proof fn law_order_is_transitive(a: NodeAddr, b: NodeAddr, c: NodeAddr)
        requires
            a.precedes(b),
            b.precedes(c),
        ensures
            a.precedes(c),
    {
        lemma_bytes_order_is_transitive(a.bytes(), b.bytes(), c.bytes());
    }

    /// The first byte in which two addresses differ decides which of them
    /// comes first.
    pub proof fn law_first_difference_decides(a: NodeAddr, b: NodeAddr, k: int)
        requires
            0 <= k < 16,
            forall|i: int| 0 <= i < k ==> #[trigger] a.bytes()[i] == b.bytes()[i],
            a.bytes()[k] != b.bytes()[k],
        ensures
            a.precedes(b) <==> a.bytes()[k] < b.bytes()[k],
    {
        NodeAddr::law_bytes_identify(a, b);
        NodeAddr::law_bytes_identify(b, a);
        lemma_first_difference(a.bytes(), b.bytes(), k);
    }

    /// Two addresses are the same exactly when their bytes are.
    pub proof fn law_bytes_identify(a: NodeAddr, b: NodeAddr)
        ensures
            a.bytes().len() == 16,
            a == b <==> a.bytes() == b.bytes(),
    {
        vstd::bytes::lemma_auto_spec_u128_to_from_le_bytes();
        assert(a.bytes().len() == 16 && b.bytes().len() == 16);
    }
}

/// Of two byte sequences one comes before the other, or they are the same.
proof fn lemma_bytes_order(a: Seq<u8>, b: Seq<u8>)
    ensures
        bytes_precede(a, b) || a == b || bytes_precede(b, a),
        !(bytes_precede(a, b) && bytes_precede(b, a)),
        a == b ==> !bytes_precede(a, b),
    decreases a.len(),
{
    if a.len() > 0 && b.len() > 0 {
        lemma_bytes_order(a.drop_first(), b.drop_first());
        if a[0] == b[0] && a.drop_first() == b.drop_first() {
            assert(a =~= seq![a[0]] + a.drop_first());
            assert(b =~= seq![b[0]] + b.drop_first());
        }
    } else if a.len() == 0 && b.len() == 0 {
        assert(a =~= b);
    }
}

/// The first difference between two byte sequences decides.
proof fn lemma_first_difference(a: Seq<u8>, b: Seq<u8>, k: int)
    requires
        0 <= k < a.len(),
        k < b.len(),
        forall|i: int| 0 <= i < k ==> #[trigger] a[i] == b[i],
        a[k] != b[k],
    ensures
        bytes_precede(a, b) <==> a[k] < b[k],
    decreases k,
{
    if k > 0 {
        assert(a[0] == b[0]);
        let (c, d) = (a.drop_first(), b.drop_first());
        assert forall|i: int| 0 <= i < k - 1 implies #[trigger] c[i] == d[i] by {
            assert(a[i + 1] == b[i + 1]);
        }
        lemma_first_difference(c, d, k - 1);
    }
}

/// The order of byte sequences is transitive.
proof fn lemma_bytes_order_is_transitive(a: Seq<u8>, b: Seq<u8>, c: Seq<u8>)
    requires
        bytes_precede(a, b),
        bytes_precede(b, c),
    ensures
        bytes_precede(a, c),
    decreases a.len(),
{
    if a.len() > 0 && a[0] == b[0] && b[0] == c[0] {
        lemma_bytes_order_is_transitive(a.drop_first(), b.drop_first(), c.drop_first());
    }
}

} // verus!
