//! The cryptographic primitives the handshake is built on.
//!
//! Each function here hands plain bytes to an outside crate and plain bytes
//! back. What the crates compute is not proved: the contracts below are what
//! the rest of the library takes from them.

use chacha20poly1305::aead::Aead;
use chacha20poly1305::KeyInit;
use rand::Rng;
use sha2::Digest;
use vstd::prelude::*;
use zeroize::Zeroize;

verus! {

/// The number that `bytes` spells, most significant byte first.
pub open spec fn big_endian(bytes: Seq<u8>) -> nat
    decreases bytes.len(),
{
    if bytes.len() == 0 {
        0
    } else {
        big_endian(bytes.drop_last()) * 256 + bytes.last() as nat
    }
}

/// Order of the secp256k1 group.
pub open spec fn curve_order() -> nat {
    0xFFFFFFFF_FFFFFFFF_FFFFFFFF_FFFFFFFE_BAAEDCE6_AF48A03B_BFD25E8C_D0364141nat
}

/// Size of the field that secp256k1 is defined over.
pub open spec fn field_size() -> nat {
    0xFFFFFFFF_FFFFFFFF_FFFFFFFF_FFFFFFFF_FFFFFFFF_FFFFFFFF_FFFFFFFE_FFFFFC2Fnat
}

/// Whether `bytes` are a secret key: a 32-byte number from 1 up to, but not
/// including, the group order.
pub open spec fn is_secret_key(bytes: Seq<u8>) -> bool {
    &&& bytes.len() == 32
    &&& 0 < big_endian(bytes) < curve_order()
}

/// Whether `x` is the first coordinate of a point of secp256k1, the curve
/// `y^2 = x^3 + 7`.
#[verifier::opaque]
pub open spec fn is_x_coordinate(x: nat) -> bool {
    &&& x < field_size()
    &&& exists|y: nat| #[trigger] (y * y) % field_size() == (x * x * x + 7) % field_size()
}

/// Whether `bytes` are a public key in compressed form: a parity byte, then
/// the first coordinate of a point of the curve.
pub open spec fn is_public_key(bytes: Seq<u8>) -> bool {
    &&& bytes.len() == 33
    &&& bytes[0] == 2 || bytes[0] == 3
    &&& is_x_coordinate(big_endian(x_only(bytes)))
}

/// A compressed public key without its parity byte.
pub open spec fn x_only(public: Seq<u8>) -> Seq<u8> {
    public.subrange(1, public.len() as int)
}

/// SHA-256 of `data`, as the `sha2` crate computes it.
pub uninterp spec fn sha256_digest(data: Seq<u8>) -> Seq<u8>;

/// HKDF-SHA-256 (RFC 5869) of the given salt, input key material, info and
/// output length, as the `hkdf` crate computes it.
pub uninterp spec fn hkdf_sha256(salt: Seq<u8>, ikm: Seq<u8>, info: Seq<u8>, len: nat) -> Seq<u8>;

/// ChaCha20-Poly1305 encryption of `plaintext` with no associated data, tag
/// appended, as the `chacha20poly1305` crate computes it.
pub uninterp spec fn aead_seal(key: Seq<u8>, nonce: Seq<u8>, plaintext: Seq<u8>) -> Seq<u8>;

/// ChaCha20-Poly1305 decryption of `ciphertext` with no associated data, or
/// `None` if it does not authenticate, as the `chacha20poly1305` crate
/// computes it.
pub uninterp spec fn aead_open(
    key: Seq<u8>,
    nonce: Seq<u8>,
    ciphertext: Seq<u8>,
) -> Option<Seq<u8>>;

/// The compressed public key of a secret key, as the `secp256k1` crate
/// computes it.
pub uninterp spec fn public_key_of(secret: Seq<u8>) -> Seq<u8>;

/// The coordinates, 32 bytes each, of `public` multiplied by `secret`, as the
/// `secp256k1` crate computes them.
pub uninterp spec fn shared_point(public: Seq<u8>, secret: Seq<u8>) -> Seq<u8>;

/// Whether an exchange between `secret` and the holder of `public` works out:
/// any peer whose own public key is `public`, and who holds the public key of
/// `secret`, arrives at the same first coordinate, whichever parity either
/// end has on record for the other.
pub open spec fn exchange_agrees(secret: Seq<u8>, public: Seq<u8>) -> bool {
    forall|peer_public: Seq<u8>, peer_secret: Seq<u8>|
        is_public_key(peer_public) && is_secret_key(peer_secret) && x_only(peer_public) == x_only(
            public_key_of(secret),
        ) && x_only(public_key_of(peer_secret)) == x_only(public) ==> (#[trigger] shared_point(
            peer_public,
            peer_secret,
        )).subrange(0, 32) == shared_point(public, secret).subrange(0, 32)
}

/// Hashes `first` and then `second` with `sha2::Sha256`, by `new`, two calls
/// of `update`, and `finalize`. The contract gives the digest a name and
/// claims that it depends on the two put together alone.
#[verifier::external_body]
pub(crate) fn sha256(first: &[u8], second: &[u8]) -> (digest: [u8; 32])
    ensures
        digest@ == sha256_digest(first@ + second@),
{
    let mut hasher = sha2::Sha256::new();
    hasher.update(first);
    hasher.update(second);
    hasher.finalize().into()
}

/// Calls `hkdf::Hkdf::<Sha256>::new` and `expand` for 64 bytes of output,
/// which is within the length that `expand` accepts. The contract gives the
/// output a name and claims that it depends on the arguments alone.
#[verifier::external_body]
pub(crate) fn hkdf_expand_64(salt: &[u8], ikm: &[u8], info: &[u8]) -> (okm: [u8; 64])
    ensures
        okm@ == hkdf_sha256(salt@, ikm@, info@, 64),
{
    let mut okm = [0u8; 64];
    hkdf::Hkdf::<sha2::Sha256>::new(Some(salt), ikm)
        .expand(info, &mut okm)
        .expect("64 bytes is a valid output length");
    okm
}

/// Calls `ChaCha20Poly1305::encrypt` with no associated data. The contract
/// gives the ciphertext a name, and claims that it is the tag's length longer
/// than the plaintext and that decrypting it under the same key and nonce
/// gives the plaintext back. The cipher refuses only plaintexts of many
/// gigabytes, which the bound on the length leaves out.
#[verifier::external_body]
pub(crate) fn chacha_encrypt(key: &[u8; 32], nonce: &[u8; 12], plaintext: &[u8]) -> (ciphertext:
    Vec<u8>)
    requires
        plaintext@.len() <= 65519,
    ensures
        ciphertext@ == aead_seal(key@, nonce@, plaintext@),
        ciphertext@.len() == plaintext@.len() + 16,
        aead_open(key@, nonce@, ciphertext@) == Some(plaintext@),
{
    chacha20poly1305::ChaCha20Poly1305::new(key.into())
        .encrypt(nonce.into(), plaintext)
        .expect("the plaintext is short enough")
}

/// Calls `ChaCha20Poly1305::decrypt` with no associated data. The contract
/// gives the outcome a name, and claims that a plaintext is the tag's length
/// shorter than its ciphertext.
#[verifier::external_body]
pub(crate) fn chacha_decrypt(key: &[u8; 32], nonce: &[u8; 12], ciphertext: &[u8]) -> (plaintext:
    Option<Vec<u8>>)
    ensures
        match plaintext {
            Some(bytes) => {
                &&& aead_open(key@, nonce@, ciphertext@) == Some(bytes@)
                &&& bytes@.len() + 16 == ciphertext@.len()
            },
            None => aead_open(key@, nonce@, ciphertext@) is None,
        },
{
    chacha20poly1305::ChaCha20Poly1305::new(key.into()).decrypt(nonce.into(), ciphertext).ok()
}

/// Calls `secp256k1::SecretKey::from_slice`, which accepts exactly the
/// 32-byte numbers from 1 up to, but not including, the group order.
#[verifier::external_body]
pub(crate) fn secret_key_is_valid(bytes: &[u8; 32]) -> (valid: bool)
    ensures
        valid == is_secret_key(bytes@),
{
    secp256k1::SecretKey::from_slice(bytes).is_ok()
}

/// Calls `secp256k1::PublicKey::from_slice` on bytes of the compressed length,
/// of which it accepts exactly a parity byte of 2 or 3 followed by the first
/// coordinate of a point of the curve.
#[verifier::external_body]
pub(crate) fn public_key_is_valid(bytes: &[u8; 33]) -> (valid: bool)
    ensures
        valid == is_public_key(bytes@),
{
    secp256k1::PublicKey::from_slice(bytes).is_ok()
}

/// Calls `secp256k1::Keypair::from_secret_key` and serializes the public half.
/// The contract gives the key a name and claims that it is a public key.
#[verifier::external_body]
pub(crate) fn public_key_of_secret(secret: &[u8; 32]) -> (public: [u8; 33])
    requires
        is_secret_key(secret@),
    ensures
        public@ == public_key_of(secret@),
        is_public_key(public@),
{
    let mut secret_key = secp256k1::SecretKey::from_slice(secret).expect("a valid secret key");
    let mut keypair =
        secp256k1::Keypair::from_secret_key(&secp256k1::Secp256k1::new(), &secret_key);
    let public = keypair.public_key().serialize();
    secret_key.non_secure_erase();
    keypair.non_secure_erase();
    public
}

/// Calls `secp256k1::ecdh::shared_secret_point`. The contract gives the
/// coordinates a name, and claims what the function is for: the other end of
/// the exchange computes the same point, up to the sign that a lost parity
/// leaves open, and a point and its negative share their first coordinate.
#[verifier::external_body]
pub(crate) fn shared_secret_point(public: &[u8; 33], secret: &[u8; 32]) -> (point: [u8; 64])
    requires
        is_public_key(public@),
        is_secret_key(secret@),
    ensures
        point@ == shared_point(public@, secret@),
        forall|peer_public: Seq<u8>, peer_secret: Seq<u8>|
            is_public_key(peer_public) && is_secret_key(peer_secret) && x_only(peer_public)
                == x_only(public_key_of(secret@)) && x_only(public_key_of(peer_secret)) == x_only(
                public@,
            ) ==> (#[trigger] shared_point(peer_public, peer_secret)).subrange(0, 32) == point@.subrange(0, 32),
{
    let public_key = secp256k1::PublicKey::from_slice(public).expect("a valid public key");
    let mut secret_key = secp256k1::SecretKey::from_slice(secret).expect("a valid secret key");
    let point = secp256k1::ecdh::shared_secret_point(&public_key, &secret_key);
    secret_key.non_secure_erase();
    point
}

/// Calls `rand::rng().fill_bytes` for 32 bytes. Nothing is promised of the
/// bytes: they are random. On a host without a source of randomness the
/// generator cannot be seeded and the call does not return.
#[verifier::external_body]
pub(crate) fn random_bytes() -> (bytes: [u8; 32])
{
    let mut bytes = [0u8; 32];
    rand::rng().fill_bytes(&mut bytes);
    bytes
}

/// Calls `zeroize::Zeroize::zeroize`, which overwrites every byte with zero.
#[verifier::external_body]
pub(crate) fn erase<const N: usize>(bytes: &mut [u8; N])
    ensures
        final(bytes)@ == Seq::new(N as nat, |i: int| 0u8),
    opens_invariants none
    no_unwind
{
    bytes.zeroize();
}

} // verus!
