//! The symmetric half of a handshake: chaining key, transcript hash, cipher.

use vstd::prelude::*;

use crate::noise::crypto;
use crate::noise::error;
use crate::noise::cipher::{CipherModel, CipherState};
use crate::noise::crypto::{erase, hkdf_expand_64, sha256};
use crate::noise::error::{NoiseError, NoiseErrorView};
use crate::noise::TAG_SIZE;

verus! {

broadcast use vstd::array::group_array_axioms;

/// What a symmetric state holds.
#[verifier::ext_equal]
pub struct SymmetricModel {
    pub ck: Seq<u8>,
    pub h: Seq<u8>,
    pub cipher: CipherModel,
}

impl SymmetricModel {
    /// The state a protocol name gives: the name padded with zeros if it fits
    /// in 32 bytes, else its digest, as chaining key and as hash.
    pub open spec fn initialize(protocol_name: Seq<u8>) -> SymmetricModel {
        let h = if protocol_name.len() <= 32 {
            protocol_name + Seq::new((32 - protocol_name.len()) as nat, |i: int| 0u8)
        } else {
            crypto::sha256_digest(protocol_name)
        };
        SymmetricModel { ck: h, h, cipher: CipherModel::empty() }
    }

    /// The state after mixing `data` into the hash.
    pub open spec fn mix_hash(self, data: Seq<u8>) -> SymmetricModel {
        SymmetricModel { h: crypto::sha256_digest(self.h + data), ..self }
    }

    /// The state after mixing `ikm` into the chaining key, which also starts
    /// the cipher on a new key.
    pub open spec fn mix_key(self, ikm: Seq<u8>) -> SymmetricModel {
        let okm = crypto::hkdf_sha256(self.ck, ikm, Seq::empty(), 64);
        SymmetricModel {
            ck: okm.subrange(0, 32),
            cipher: CipherModel::keyed(okm.subrange(32, 64)),
            ..self
        }
    }

    /// The state with another cipher.
    pub open spec fn with_cipher(self, cipher: CipherModel) -> SymmetricModel {
        SymmetricModel { cipher, ..self }
    }

    /// Encrypting and mixing the ciphertext into the hash: the outcome, and
    /// the state afterwards.
    pub open spec fn encrypt_and_hash(self, plaintext: Seq<u8>) -> (
        Result<Seq<u8>, NoiseErrorView>,
        SymmetricModel,
    ) {
        let (outcome, cipher) = self.cipher.encrypt(plaintext);
        match outcome {
            Ok(ciphertext) => (Ok(ciphertext), self.with_cipher(cipher).mix_hash(ciphertext)),
            Err(error) => (Err(error), self.with_cipher(cipher)),
        }
    }

    /// Decrypting and mixing the ciphertext into the hash: the outcome, and
    /// the state afterwards.
    pub open spec fn decrypt_and_hash(self, ciphertext: Seq<u8>) -> (
        Result<Seq<u8>, NoiseErrorView>,
        SymmetricModel,
    ) {
        let (outcome, cipher) = self.cipher.decrypt(ciphertext);
        match outcome {
            Ok(plaintext) => (Ok(plaintext), self.with_cipher(cipher).mix_hash(ciphertext)),
            Err(error) => (Err(error), self.with_cipher(cipher)),
        }
    }

    /// The two transport ciphers.
    pub open spec fn split(self) -> (CipherModel, CipherModel) {
        let okm = crypto::hkdf_sha256(self.ck, Seq::empty(), Seq::empty(), 64);
        (CipherModel::keyed(okm.subrange(0, 32)), CipherModel::keyed(okm.subrange(32, 64)))
    }
}

/// Symmetric state during a handshake.
///
/// The chaining key and the hash are erased on drop; the cipher erases its own
/// key.
pub struct SymmetricState {
    /// Chaining key for key derivation.
    ck: [u8; 32],
    /// Running hash over the handshake transcript. It is never fed to the
    /// cipher, which gets no associated data.
    h: [u8; 32],
    /// Cipher for handshake payloads.
    cipher: CipherState,
}

impl View for SymmetricState {
    type V = SymmetricModel;

    closed spec fn view(&self) -> SymmetricModel {
        SymmetricModel { ck: self.ck@, h: self.h@, cipher: self.cipher@ }
    }
}

impl Clone for SymmetricState {
    fn clone(&self) -> (copy: SymmetricState)
        ensures
            copy@ == self@,
    {
        SymmetricState { ck: self.ck, h: self.h, cipher: self.cipher.clone() }
    }
}

impl Drop for SymmetricState {
    /// Erases the chaining key and the hash.
    fn drop(&mut self)
        ensures
            final(self)@.ck == Seq::new(32, |i: int| 0u8),
            final(self)@.h == Seq::new(32, |i: int| 0u8),
        opens_invariants none
        no_unwind
    {
        erase(&mut self.ck);
        erase(&mut self.h);
    }
}

impl SymmetricState {
    /// Starts from a protocol name.
    pub fn initialize(protocol_name: &[u8]) -> (state: SymmetricState)
        ensures
            state@ == SymmetricModel::initialize(protocol_name@),
    {
        let h: [u8; 32] = if protocol_name.len() <= 32 {
            let mut h: [u8; 32] = [0u8; 32];
            let mut i: usize = 0;
            while i < protocol_name.len()
                invariant
                    i <= protocol_name@.len() <= 32,
                    forall|j: int| 0 <= j < i ==> h@[j] == protocol_name@[j],
                    forall|j: int| i <= j < 32 ==> h@[j] == 0u8,
                decreases protocol_name@.len() - i,
            {
                h[i] = protocol_name[i];
                i += 1;
            }
            assert(h@ =~= SymmetricModel::initialize(protocol_name@).h);
            h
        } else {
            let empty: [u8; 0] = [];
            assert(protocol_name@ + empty@ =~= protocol_name@);
            sha256(protocol_name, &empty)
        };
        SymmetricState { ck: h, h, cipher: CipherState::empty() }
    }

    /// Mixes `data` into the hash.
    pub fn mix_hash(&mut self, data: &[u8])
        ensures
            final(self)@ == old(self)@.mix_hash(data@),
    {
        self.h = sha256(&self.h, data);
    }

    /// Mixes key material into the chaining key and starts the cipher on the
    /// key derived with it.
    pub fn mix_key(&mut self, input_key_material: &[u8])
        ensures
            final(self)@ == old(self)@.mix_key(input_key_material@),
    {
        let empty: [u8; 0] = [];
        assert(empty@ =~= Seq::empty());
        let mut okm = hkdf_expand_64(&self.ck, input_key_material, &empty);
        self.ck = half(&okm, 0);
        let mut key = half(&okm, 32);
        self.cipher.initialize_key(&key);
        erase(&mut key);
        erase(&mut okm);
    }

    /// Encrypts `plaintext` and mixes the ciphertext into the hash.
    pub fn encrypt_and_hash(&mut self, plaintext: &[u8]) -> (result: Result<Vec<u8>, NoiseError>)
        ensures
            error::bytes_outcome(result) == old(self)@.encrypt_and_hash(
                plaintext@,
            ).0,
            final(self)@ == old(self)@.encrypt_and_hash(plaintext@).1,
            result matches Ok(ciphertext) ==> {
                &&& old(self)@.decrypt_and_hash(ciphertext@) == (
                    Ok::<Seq<u8>, NoiseErrorView>(plaintext@),
                    final(self)@,
                )
                &&& ciphertext@.len() == plaintext@.len() + (if old(self)@.cipher.key is Some {
                    TAG_SIZE as int
                } else {
                    0
                })
            },
    {
        let ciphertext = match self.cipher.encrypt(plaintext) {
            Ok(ciphertext) => ciphertext,
            Err(error) => {
                return Err(error);
            },
        };
        self.mix_hash(&ciphertext);
        Ok(ciphertext)
    }

    /// Decrypts `ciphertext` and mixes it into the hash.
    pub fn decrypt_and_hash(&mut self, ciphertext: &[u8]) -> (result: Result<Vec<u8>, NoiseError>)
        ensures
            error::bytes_outcome(result) == old(self)@.decrypt_and_hash(
                ciphertext@,
            ).0,
            final(self)@ == old(self)@.decrypt_and_hash(ciphertext@).1,
            result matches Ok(plaintext) ==> ciphertext@.len() == plaintext@.len() + (if old(
                self,
            )@.cipher.key is Some {
                TAG_SIZE as int
            } else {
                0
            }),
    {
        let plaintext = match self.cipher.decrypt(ciphertext) {
            Ok(plaintext) => plaintext,
            Err(error) => {
                return Err(error);
            },
        };
        self.mix_hash(ciphertext);
        Ok(plaintext)
    }

    /// Derives the two transport ciphers.
    pub fn split(&self) -> (ciphers: (CipherState, CipherState))
        ensures
            (ciphers.0@, ciphers.1@) == self@.split(),
    {
        let empty: [u8; 0] = [];
        assert(empty@ =~= Seq::empty());
        let mut okm = hkdf_expand_64(&self.ck, &empty, &empty);
        let mut k1 = half(&okm, 0);
        let mut k2 = half(&okm, 32);
        let ciphers = (CipherState::new(k1), CipherState::new(k2));
        erase(&mut okm);
        erase(&mut k1);
        erase(&mut k2);
        ciphers
    }

    /// The transcript hash.
    pub fn handshake_hash(&self) -> (hash: [u8; 32])
        ensures
            hash@ == self@.h,
    {
        self.h
    }
}

/// The 32 bytes of `bytes` that start at `from`.
fn half(bytes: &[u8; 64], from: usize) -> (part: [u8; 32])
    requires
        from <= 32,
    ensures
        part@ == bytes@.subrange(from as int, from + 32),
{
    let mut part: [u8; 32] = [0u8; 32];
    let mut i: usize = 0;
    while i < 32
        invariant
            i <= 32,
            from <= 32,
            bytes@.len() == 64,
            forall|j: int| 0 <= j < i ==> part@[j] == bytes@[from + j],
        decreases 32 - i,
    {
        part[i] = bytes[from + i];
        i += 1;
    }
    assert(part@ =~= bytes@.subrange(from as int, from + 32));
    part
}

} // verus!
