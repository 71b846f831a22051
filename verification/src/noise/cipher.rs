//! The symmetric cipher of a handshake or a session.

use vstd::bytes::u64_to_le_bytes;
use vstd::prelude::*;
use vstd::slice::slice_to_vec;

use crate::noise::crypto;
use crate::noise::error;
use crate::noise::crypto::{chacha_decrypt, chacha_encrypt, erase};
use crate::noise::error::{NoiseError, NoiseErrorView};
use crate::noise::{MAX_MESSAGE_SIZE, TAG_SIZE};

verus! {

/// What a cipher holds: its key, if it has one, and the next nonce.
#[verifier::ext_equal]
pub struct CipherModel {
    pub key: Option<Seq<u8>>,
    pub nonce: u64,
}

/// The 12 bytes the cipher is given for nonce `n`: four zeros, then `n` with
/// its least significant byte first.
pub open spec fn nonce_bytes(n: u64) -> Seq<u8> {
    seq![0u8, 0u8, 0u8, 0u8] + vstd::bytes::spec_u64_to_le_bytes(n)
}

impl CipherModel {
    /// A cipher without a key.
    pub open spec fn empty() -> CipherModel {
        CipherModel { key: None, nonce: 0 }
    }

    /// A cipher that starts on `key`.
    pub open spec fn keyed(key: Seq<u8>) -> CipherModel {
        CipherModel { key: Some(key), nonce: 0 }
    }

    /// The cipher after it has used one nonce.
    pub open spec fn advanced(self) -> CipherModel {
        CipherModel { nonce: (self.nonce + 1) as u64, ..self }
    }

    /// Encrypting: the outcome, and the cipher afterwards. Without a key the
    /// plaintext passes through.
    pub open spec fn encrypt(self, plaintext: Seq<u8>) -> (
        Result<Seq<u8>, NoiseErrorView>,
        CipherModel,
    ) {
        match self.key {
            None => (Ok(plaintext), self),
            Some(key) => if plaintext.len() > MAX_MESSAGE_SIZE - TAG_SIZE {
                (Err(NoiseErrorView::MessageTooLarge { size: plaintext.len() }), self)
            } else if self.nonce == u64::MAX {
                (Err(NoiseErrorView::NonceOverflow), self)
            } else {
                (
                    Ok(crypto::aead_seal(key, nonce_bytes(self.nonce), plaintext)),
                    self.advanced(),
                )
            },
        }
    }

    /// Decrypting: the outcome, and the cipher afterwards. A ciphertext that
    /// is refused uses up no nonce.
    pub open spec fn decrypt(self, ciphertext: Seq<u8>) -> (
        Result<Seq<u8>, NoiseErrorView>,
        CipherModel,
    ) {
        match self.key {
            None => (Ok(ciphertext), self),
            Some(key) => if ciphertext.len() < TAG_SIZE {
                (
                    Err(
                        NoiseErrorView::MessageTooShort {
                            expected: TAG_SIZE as nat,
                            got: ciphertext.len(),
                        },
                    ),
                    self,
                )
            } else if self.nonce == u64::MAX {
                (Err(NoiseErrorView::NonceOverflow), self)
            } else {
                match crypto::aead_open(key, nonce_bytes(self.nonce), ciphertext) {
                    Some(plaintext) => (Ok(plaintext), self.advanced()),
                    None => (Err(NoiseErrorView::DecryptionFailed), self),
                }
            },
        }
    }
}

/// A cipher: a key, once it has one, and a counter for nonces.
pub struct CipherState {
    key: [u8; 32],
    nonce: u64,
    has_key: bool,
}

impl View for CipherState {
    type V = CipherModel;

    closed spec fn view(&self) -> CipherModel {
        CipherModel {
            key: if self.has_key {
                Some(self.key@)
            } else {
                None
            },
            nonce: self.nonce,
        }
    }
}

impl Clone for CipherState {
    fn clone(&self) -> (copy: CipherState)
        ensures
            copy@ == self@,
    {
        CipherState { key: self.key, nonce: self.nonce, has_key: self.has_key }
    }
}

impl Drop for CipherState {
    /// Erases the key.
    fn drop(&mut self)
        ensures
            final(self).stored_key() == Seq::new(32, |i: int| 0u8),
        opens_invariants none
        no_unwind
    {
        erase(&mut self.key);
    }
}

impl CipherState {
    /// The bytes held for a key, in use or not.
    pub closed spec fn stored_key(&self) -> Seq<u8> {
        self.key@
    }

    /// A cipher without a key.
    pub fn empty() -> (cipher: CipherState)
        ensures
            cipher@ == CipherModel::empty(),
            cipher@.key is None,
            cipher@.nonce == 0,
    {
        CipherState { key: [0u8; 32], nonce: 0, has_key: false }
    }

    /// A cipher that starts on `key`.
    pub fn new(key: [u8; 32]) -> (cipher: CipherState)
        ensures
            cipher@ == CipherModel::keyed(key@),
            cipher@.key == Some(key@),
            cipher@.nonce == 0,
    {
        CipherState { key, nonce: 0, has_key: true }
    }

    /// Starts over on `key`.
    pub fn initialize_key(&mut self, key: &[u8; 32])
        ensures
            final(self)@ == CipherModel::keyed(key@),
            final(self)@.key == Some(key@),
            final(self)@.nonce == 0,
    {
        self.key = *key;
        self.nonce = 0;
        self.has_key = true;
    }

    /// Sets the next nonce.
    pub fn set_nonce(&mut self, nonce: u64)
        ensures
            final(self)@ == (CipherModel { nonce, ..old(self)@ }),
    {
        self.nonce = nonce;
    }

    /// Encrypts `plaintext` under the next nonce.
    pub fn encrypt(&mut self, plaintext: &[u8]) -> (result: Result<Vec<u8>, NoiseError>)
        ensures
            error::bytes_outcome(result) == old(self)@.encrypt(plaintext@).0,
            final(self)@ == old(self)@.encrypt(plaintext@).1,
            result matches Ok(ciphertext) ==> {
                &&& old(self)@.decrypt(ciphertext@) == (
                    Ok::<Seq<u8>, NoiseErrorView>(plaintext@),
                    final(self)@,
                )
                &&& ciphertext@.len() == plaintext@.len() + (if old(self)@.key is Some {
                    TAG_SIZE as int
                } else {
                    0
                })
            },
    {
        if !self.has_key {
            return Ok(slice_to_vec(plaintext));
        }
        if plaintext.len() > MAX_MESSAGE_SIZE - TAG_SIZE {
            return Err(NoiseError::MessageTooLarge { size: plaintext.len() });
        }
        if self.nonce == u64::MAX {
            return Err(NoiseError::NonceOverflow);
        }
        let nonce = encode_nonce(self.nonce);
        let ciphertext = chacha_encrypt(&self.key, &nonce, plaintext);
        self.nonce = self.nonce + 1;
        Ok(ciphertext)
    }

    /// Decrypts `ciphertext` under the next nonce.
    pub fn decrypt(&mut self, ciphertext: &[u8]) -> (result: Result<Vec<u8>, NoiseError>)
        ensures
            error::bytes_outcome(result) == old(self)@.decrypt(ciphertext@).0,
            final(self)@ == old(self)@.decrypt(ciphertext@).1,
            result matches Ok(plaintext) ==> ciphertext@.len() == plaintext@.len() + (if old(
                self,
            )@.key is Some {
                TAG_SIZE as int
            } else {
                0
            }),
    {
        if !self.has_key {
            return Ok(slice_to_vec(ciphertext));
        }
        if ciphertext.len() < TAG_SIZE {
            return Err(
                NoiseError::MessageTooShort { expected: TAG_SIZE, got: ciphertext.len() },
            );
        }
        if self.nonce == u64::MAX {
            return Err(NoiseError::NonceOverflow);
        }
        let nonce = encode_nonce(self.nonce);
        match chacha_decrypt(&self.key, &nonce, ciphertext) {
            Some(plaintext) => {
                self.nonce = self.nonce + 1;
                Ok(plaintext)
            },
            None => Err(NoiseError::DecryptionFailed),
        }
    }
}

/// The bytes the cipher is given for nonce `n`.
fn encode_nonce(n: u64) -> (bytes: [u8; 12])
    ensures
        bytes@ == nonce_bytes(n),
{
    let counter = u64_to_le_bytes(n);
    let mut bytes: [u8; 12] = [0u8; 12];
    let mut i: usize = 0;
    while i < 8
        invariant
            i <= 8,
            counter@.len() == 8,
            forall|j: int| 0 <= j < 4 ==> bytes@[j] == 0u8,
            forall|j: int| 0 <= j < i ==> bytes@[j + 4] == #[trigger] counter@[j],
        decreases 8 - i,
    {
        bytes[i + 4] = counter[i];
        i += 1;
    }
    assert forall|j: int| 0 <= j < 12 implies bytes@[j] == nonce_bytes(n)[j] by {
        if j >= 4 {
            assert(bytes@[j] == counter@[j - 4]);
        }
    }
    assert(bytes@ =~= nonce_bytes(n));
    bytes
}

} // verus!
