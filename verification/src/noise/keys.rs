//! secp256k1 keys as plain bytes.

use vstd::prelude::*;

use crate::noise::crypto;
use crate::noise::crypto::{
    erase, public_key_is_valid, public_key_of_secret, secret_key_is_valid,
};
use crate::noise::error::NoiseError;
use crate::noise::PUBKEY_SIZE;

verus! {

broadcast use vstd::array::group_array_axioms;

/// A public key in compressed form.
#[derive(Clone, Copy, Debug, PartialEq, Eq)]
pub struct PublicKey {
    bytes: [u8; 33],
}

/// A keypair, held as its secret half.
#[derive(Clone, Copy)]
pub struct Keypair {
    secret: [u8; 32],
}

impl View for PublicKey {
    type V = Seq<u8>;

    closed spec fn view(&self) -> Seq<u8> {
        self.bytes@
    }
}

impl View for Keypair {
    type V = Seq<u8>;

    closed spec fn view(&self) -> Seq<u8> {
        self.secret@
    }
}

impl PublicKey {
    /// Whether the bytes are a point of the curve. Every key made here is.
    pub open spec fn wf(&self) -> bool {
        crypto::is_public_key(self@)
    }

    /// Reads a key from its compressed form.
    pub fn from_slice(bytes: &[u8]) -> (result: Result<PublicKey, NoiseError>)
        ensures
            match result {
                Ok(key) => key.wf() && key@ == bytes@,
                Err(error) => error == NoiseError::InvalidPublicKey
                    && !crypto::is_public_key(bytes@),
            },
    {
        if bytes.len() != PUBKEY_SIZE {
            return Err(NoiseError::InvalidPublicKey);
        }
        let mut key: [u8; 33] = [0u8; 33];
        let mut i: usize = 0;
        while i < PUBKEY_SIZE
            invariant
                i <= PUBKEY_SIZE,
                bytes@.len() == PUBKEY_SIZE,
                forall|j: int| 0 <= j < i ==> key@[j] == bytes@[j],
            decreases PUBKEY_SIZE - i,
        {
            key[i] = bytes[i];
            i += 1;
        }
        assert(key@ =~= bytes@);
        if public_key_is_valid(&key) {
            Ok(PublicKey { bytes: key })
        } else {
            Err(NoiseError::InvalidPublicKey)
        }
    }

    /// The key's compressed form.
    pub fn serialize(&self) -> (bytes: [u8; 33])
        ensures
            bytes@ == self@,
    {
        self.bytes
    }

    /// The key's compressed form, borrowed.
    pub(crate) fn as_bytes(&self) -> (bytes: &[u8; 33])
        ensures
            bytes@ == self@,
    {
        &self.bytes
    }
}

impl Keypair {
    /// Whether the secret half is a secret key. Every keypair made here is so
    /// until it is erased.
    pub open spec fn wf(&self) -> bool {
        crypto::is_secret_key(self@)
    }

    /// The public half.
    pub open spec fn public(&self) -> Seq<u8> {
        crypto::public_key_of(self@)
    }

    /// Makes a keypair from the bytes of its secret half.
    pub fn from_secret_bytes(bytes: &[u8; 32]) -> (result: Result<Keypair, NoiseError>)
        ensures
            match result {
                Ok(pair) => pair.wf() && pair@ == bytes@,
                Err(error) => error == NoiseError::InvalidSecretKey
                    && !crypto::is_secret_key(bytes@),
            },
    {
        if secret_key_is_valid(bytes) {
            Ok(Keypair { secret: *bytes })
        } else {
            Err(NoiseError::InvalidSecretKey)
        }
    }

    /// Computes the public half.
    pub fn public_key(&self) -> (key: PublicKey)
        requires
            self.wf(),
        ensures
            key.wf(),
            key@ == self.public(),
    {
        PublicKey { bytes: public_key_of_secret(&self.secret) }
    }

    /// The secret half, borrowed.
    pub fn secret_bytes(&self) -> (bytes: &[u8; 32])
        ensures
            bytes@ == self@,
    {
        &self.secret
    }

    /// Overwrites the secret half with zeros. That clears this copy alone.
    pub fn erase(&mut self)
        ensures
            final(self)@ == Seq::new(32, |i: int| 0u8),
        opens_invariants none
        no_unwind
    {
        erase(&mut self.secret);
    }
}

} // verus!
