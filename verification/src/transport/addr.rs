//! The address of a peer on a transport.

use vstd::prelude::*;
use vstd::slice::slice_to_vec;

use crate::vecmap::Key;

verus! {

/// An address as a transport understands it: bytes that the transport alone
/// reads.
#[derive(Debug, PartialEq, Eq, Hash)]
pub struct TransportAddr {
    bytes: Vec<u8>,
}

impl View for TransportAddr {
    type V = Seq<u8>;

    closed spec fn view(&self) -> Seq<u8> {
        self.bytes@
    }
}

impl Clone for TransportAddr {
    fn clone(&self) -> (copy: TransportAddr)
        ensures
            copy@ == self@,
    {
        TransportAddr { bytes: slice_to_vec(self.bytes.as_slice()) }
    }
}

impl Key for TransportAddr {
    fn same(&self, other: &TransportAddr) -> (same: bool) {
        if self.bytes.len() != other.bytes.len() {
            return false;
        }
        let mut i: usize = 0;
        while i < self.bytes.len()
            invariant
                i <= self.bytes@.len() == other.bytes@.len(),
                forall|j: int| 0 <= j < i ==> self.bytes@[j] == other.bytes@[j],
            decreases self.bytes@.len() - i,
        {
            if self.bytes[i] != other.bytes[i] {
                return false;
            }
            i += 1;
        }
        assert(self.bytes@ =~= other.bytes@);
        true
    }
}

impl TransportAddr {
    /// The address made of `bytes`.
    pub fn new(bytes: Vec<u8>) -> (addr: TransportAddr)
        ensures
            addr@ == bytes@,
    {
        TransportAddr { bytes }
    }

    /// The address's bytes.
    pub fn as_bytes(&self) -> (bytes: &Vec<u8>)
        ensures
            bytes@ == self@,
    {
        &self.bytes
    }
}

} // verus!
