//! What each handshake step does to the bytes, in terms of the primitives.

use vstd::prelude::*;

use crate::noise::cipher;
use crate::noise::cipher::CipherModel;
use crate::noise::crypto;
use crate::noise::error;
use crate::noise::error::{NoiseError, NoiseErrorView};
use crate::noise::model;
use crate::noise::model::{HandshakeModel, HandshakeStep};
use crate::noise::symmetric::SymmetricModel;
use crate::noise::{HandshakeProgress, HandshakeRole, NoisePattern};

verus! {

/// The secret that the holder of `secret` shares with the holder of `public`.
pub open spec fn exchanged(secret: Seq<u8>, public: Seq<u8>) -> Seq<u8> {
    crypto::sha256_digest(crypto::shared_point(public, secret).subrange(0, 32))
}

/// The 64 bytes derived from a chaining key and key material: the next
/// chaining key, then a cipher key.
pub open spec fn derived(ck: Seq<u8>, material: Seq<u8>) -> Seq<u8> {
    crypto::hkdf_sha256(ck, material, Seq::empty(), 64)
}

/// The nonce with number `n`: four zeros, then `n` from its least significant
/// byte on.
pub open spec fn numbered(n: u64) -> Seq<u8> {
    seq![0u8, 0u8, 0u8, 0u8] + vstd::bytes::spec_u64_to_le_bytes(n)
}

/// The digest of a transcript hash and what is added to it.
pub open spec fn hashed(h: Seq<u8>, data: Seq<u8>) -> Seq<u8> {
    crypto::sha256_digest(h + data)
}

/// The symmetric state with transcript hash `h` that has taken its chaining
/// key and its cipher key from the derived bytes `okm`, and is at `nonce`.
pub open spec fn standing_on(okm: Seq<u8>, h: Seq<u8>, nonce: u64) -> SymmetricModel {
    SymmetricModel {
        ck: okm.subrange(0, 32),
        h,
        cipher: CipherModel { key: Some(okm.subrange(32, 64)), nonce },
    }
}

/// Nonces with different numbers are different.
pub proof fn law_nonces_are_distinct(m: u64, n: u64)
    ensures
        cipher::nonce_bytes(n) == numbered(n),
        cipher::nonce_bytes(n).len() == 12,
        m != n ==> cipher::nonce_bytes(m) != cipher::nonce_bytes(n),
{
    vstd::bytes::lemma_auto_spec_u64_to_from_le_bytes();
    let a = vstd::bytes::spec_u64_to_le_bytes(m);
    let b = vstd::bytes::spec_u64_to_le_bytes(n);
    assert(cipher::nonce_bytes(m).subrange(4, 12) =~= a);
    assert(cipher::nonce_bytes(n).subrange(4, 12) =~= b);
}

/// A cipher with a key encrypts under it and its next nonce, with nothing
/// else, and moves on by one; it refuses what is longer than a message can
/// carry, and stops before its last nonce. One without a key passes text
/// through.
pub proof fn law_cipher_encrypts_under_its_key_and_nonce(
    state: CipherModel,
    plaintext: Seq<u8>,
)
    ensures
        state.key is None ==> state.encrypt(plaintext) == (Ok::<Seq<u8>, NoiseErrorView>(plaintext), state),
        state.key matches Some(key) ==> state.encrypt(plaintext) == if plaintext.len() > 65519 {
            (
                Err::<Seq<u8>, NoiseErrorView>(NoiseErrorView::MessageTooLarge { size: plaintext.len() }),
                state,
            )
        } else if state.nonce == u64::MAX {
            (Err(NoiseErrorView::NonceOverflow), state)
        } else {
            (
                Ok(crypto::aead_seal(key, numbered(state.nonce), plaintext)),
                CipherModel { key: Some(key), nonce: (state.nonce + 1) as u64 },
            )
        },
{
}

/// A cipher with a key decrypts under it and its next nonce, with nothing
/// else, and moves on by one if the text is genuine; what is refused changes
/// nothing.
pub proof fn law_cipher_decrypts_under_its_key_and_nonce(
    state: CipherModel,
    ciphertext: Seq<u8>,
)
    ensures
        state.key is None ==> state.decrypt(ciphertext) == (Ok::<Seq<u8>, NoiseErrorView>(ciphertext), state),
        state.key matches Some(key) ==> state.decrypt(ciphertext) == if ciphertext.len() < 16 {
            (
                Err::<Seq<u8>, NoiseErrorView>(
                    NoiseErrorView::MessageTooShort { expected: 16, got: ciphertext.len() },
                ),
                state,
            )
        } else if state.nonce == u64::MAX {
            (Err(NoiseErrorView::NonceOverflow), state)
        } else {
            match crypto::aead_open(key, numbered(state.nonce), ciphertext) {
                Some(plaintext) => (
                    Ok(plaintext),
                    CipherModel { key: Some(key), nonce: (state.nonce + 1) as u64 },
                ),
                None => (Err(NoiseErrorView::DecryptionFailed), state),
            }
        },
{
}

/// What mixing does: hashing appends to what was hashed and touches nothing
/// else; mixing a key replaces the chaining key and starts the cipher on a new
/// key, and leaves the hash.
pub proof fn law_mixing(state: SymmetricModel, data: Seq<u8>)
    ensures
        state.mix_hash(data) == (SymmetricModel {
            ck: state.ck,
            h: crypto::sha256_digest(state.h + data),
            cipher: state.cipher,
        }),
        state.mix_key(data) == (SymmetricModel {
            ck: derived(state.ck, data).subrange(0, 32),
            h: state.h,
            cipher: CipherModel { key: Some(derived(state.ck, data).subrange(32, 64)), nonce: 0 },
        }),
{
}

/// A text that is encrypted or decrypted goes through the cipher as it is, and
/// its ciphertext into the hash; a text that is refused changes nothing.
pub proof fn law_ciphertexts_are_hashed(state: SymmetricModel, text: Seq<u8>)
    ensures
        match state.cipher.encrypt(text) {
            (Ok(ciphertext), after) => state.encrypt_and_hash(text) == (
                Ok::<Seq<u8>, NoiseErrorView>(ciphertext),
                SymmetricModel {
                    ck: state.ck,
                    h: crypto::sha256_digest(state.h + ciphertext),
                    cipher: after,
                },
            ),
            (Err(error), _) => state.encrypt_and_hash(text) == (Err::<Seq<u8>, NoiseErrorView>(error), state),
        },
        match state.cipher.decrypt(text) {
            (Ok(plaintext), after) => state.decrypt_and_hash(text) == (
                Ok::<Seq<u8>, NoiseErrorView>(plaintext),
                SymmetricModel {
                    ck: state.ck,
                    h: crypto::sha256_digest(state.h + text),
                    cipher: after,
                },
            ),
            (Err(error), _) => state.decrypt_and_hash(text) == (Err::<Seq<u8>, NoiseErrorView>(error), state),
        },
{
    assert(state.with_cipher(state.cipher) == state);
}

/// The two transport ciphers take the two halves of what is derived from the
/// chaining key alone, and start at nonce 0.
pub proof fn law_transport_keys_are_the_two_halves(state: SymmetricModel)
    ensures
        state.split() == (
            CipherModel {
                key: Some(derived(state.ck, Seq::empty()).subrange(0, 32)),
                nonce: 0,
            },
            CipherModel {
                key: Some(derived(state.ck, Seq::empty()).subrange(32, 64)),
                nonce: 0,
            },
        ),
{
}

/// A state starts on a protocol name of at most 32 bytes padded with zeros,
/// and on the digest of a longer one, with no cipher key.
pub proof fn law_states_start_on_the_protocol_name(name: Seq<u8>)
    ensures
        ({
            let state = SymmetricModel::initialize(name);
            &&& state.ck == state.h
            &&& state.cipher == (CipherModel { key: None, nonce: 0 })
            &&& name.len() > 32 ==> state.h == crypto::sha256_digest(name)
            &&& name.len() <= 32 ==> {
                &&& state.h.len() == 32
                &&& state.h.subrange(0, name.len() as int) == name
                &&& forall|i: int| name.len() <= i < 32 ==> #[trigger] state.h[i] == 0
            }
        }),
{
    let state = SymmetricModel::initialize(name);
    if name.len() <= 32 {
        assert(state.h.subrange(0, name.len() as int) =~= name);
    }
}

/// A normalized key is the key with 2 for its first byte.
pub proof fn law_normalized_keys_differ_in_the_first_byte_only(key: Seq<u8>)
    requires
        key.len() == 33,
    ensures
        model::normalized(key).len() == 33,
        model::normalized(key)[0] == 2,
        forall|i: int| 1 <= i < 33 ==> #[trigger] model::normalized(key)[i] == key[i],
{
}

/// A fresh handshake has hashed the protocol name of its pattern and the
/// responder's key without its parity, and knows nothing else.
pub proof fn law_fresh_handshakes(
    pattern: NoisePattern,
    secret: Seq<u8>,
    key: Seq<u8>,
)
    ensures
        ({
            let name = vstd::utf8::encode_utf8(
                match pattern {
                    NoisePattern::Ik => "Noise_IK_secp256k1_ChaChaPoly_SHA256"@,
                    NoisePattern::Xk => "Noise_XK_secp256k1_ChaChaPoly_SHA256"@,
                },
            );
            let initiator = HandshakeModel::initiator(pattern, secret, key);
            let responder = HandshakeModel::responder(pattern, secret);
            &&& initiator == (HandshakeModel {
                pattern,
                role: HandshakeRole::Initiator,
                progress: HandshakeProgress::Initial,
                symmetric: SymmetricModel::initialize(name).mix_hash(key.update(0, 2u8)),
                static_secret: secret,
                ephemeral: None,
                remote_static: Some(key),
                remote_ephemeral: None,
                local_epoch: None,
                remote_epoch: None,
            })
            &&& responder == (HandshakeModel {
                pattern,
                role: HandshakeRole::Responder,
                progress: HandshakeProgress::Initial,
                symmetric: SymmetricModel::initialize(name).mix_hash(
                    crypto::public_key_of(secret).update(0, 2u8),
                ),
                static_secret: secret,
                ephemeral: None,
                remote_static: None,
                remote_ephemeral: None,
                local_epoch: None,
                remote_epoch: None,
            })
        }),
{
}

/// A session hands over what the handshake holds: its role, its hash, the
/// peer's static key in all its bytes, and the two transport ciphers, of which
/// the initiator sends with the first and the responder with the second.
pub proof fn law_sessions_hand_over_what_the_handshake_holds(state: HandshakeModel)
    requires
        state.remote_static is Some,
    ensures
        Some(state.session().remote_static) == state.remote_static,
        state.session().role == state.role,
        state.session().handshake_hash == state.symmetric.h,
        ({
            let keys = derived(state.symmetric.ck, Seq::empty());
            let first = CipherModel { key: Some(keys.subrange(0, 32)), nonce: 0 };
            let second = CipherModel { key: Some(keys.subrange(32, 64)), nonce: 0 };
            match state.role {
                HandshakeRole::Initiator => state.session().send == first && state.session().recv
                    == second,
                HandshakeRole::Responder => state.session().send == second && state.session().recv
                    == first,
            }
        }),
{
}

/// No step changes whose handshake it is, or the epoch that was set, or the
/// key that an initiator means to reach; and reading never changes the
/// ephemeral key.
pub proof fn law_steps_keep_what_is_given(state: HandshakeModel, step: HandshakeStep)
    ensures
        ({
            let after = state.take(step).1;
            &&& after.pattern == state.pattern
            &&& after.role == state.role
            &&& after.static_secret == state.static_secret
            &&& after.local_epoch == match step {
                HandshakeStep::SetLocalEpoch(epoch) => Some(epoch),
                _ => state.local_epoch,
            }
            &&& state.role == HandshakeRole::Initiator ==> after.remote_static
                == state.remote_static
            &&& after.ephemeral == match step {
                HandshakeStep::WriteMessage1(e)
                | HandshakeStep::WriteMessage2(e)
                | HandshakeStep::WriteXkMessage1(e)
                | HandshakeStep::WriteXkMessage2(e) => if state.take(step).0 is None {
                    Some(e)
                } else {
                    state.ephemeral
                },
                _ => state.ephemeral,
            }
        }),
{
}

/// The session of an initiator that was made with a key has that key, in all
/// its bytes, whatever steps it went through.
pub proof fn law_initiators_sessions_name_the_key_they_were_given(
    pattern: NoisePattern,
    secret: Seq<u8>,
    key: Seq<u8>,
    steps: Seq<HandshakeStep>,
)
    ensures
        HandshakeModel::initiator(pattern, secret, key).after_steps(steps).remote_static == Some(
            key,
        ),
        HandshakeModel::initiator(pattern, secret, key).after_steps(steps).session().remote_static
            == key,
        HandshakeModel::initiator(pattern, secret, key).after_steps(steps).role
            == HandshakeRole::Initiator,
    decreases steps.len(),
{
    let start = HandshakeModel::initiator(pattern, secret, key);
    if steps.len() > 0 {
        let shorter = steps.drop_last();
        law_initiators_sessions_name_the_key_they_were_given(pattern, secret, key, shorter);
        law_steps_keep_what_is_given(start.after_steps(shorter), steps.last());
    }
    law_sessions_hand_over_what_the_handshake_holds(start.after_steps(steps));
}

/// A step for the other role is refused with both roles' names, and one at the
/// wrong stage with both stages' names; the role is looked at first.
pub proof fn law_refusals_name_what_does_not_fit(
    state: HandshakeModel,
    role: HandshakeRole,
    progress: HandshakeProgress,
)
    ensures
        state.refusal(role, progress) == if state.role != role {
            Some(
                NoiseErrorView::WrongState {
                    expected: match role {
                        HandshakeRole::Initiator => "initiator"@,
                        HandshakeRole::Responder => "responder"@,
                    },
                    got: match state.role {
                        HandshakeRole::Initiator => "initiator"@,
                        HandshakeRole::Responder => "responder"@,
                    },
                },
            )
        } else if state.progress != progress {
            Some(
                NoiseErrorView::WrongState {
                    expected: match progress {
                        HandshakeProgress::Initial => "initial"@,
                        HandshakeProgress::Message1Done => "message1_done"@,
                        HandshakeProgress::Message2Done => "message2_done"@,
                        HandshakeProgress::Complete => "complete"@,
                    },
                    got: match state.progress {
                        HandshakeProgress::Initial => "initial"@,
                        HandshakeProgress::Message1Done => "message1_done"@,
                        HandshakeProgress::Message2Done => "message2_done"@,
                        HandshakeProgress::Complete => "complete"@,
                    },
                },
            )
        } else {
            None
        },
{
}

/// Which role may take a step, and at which stage.
pub open spec fn fits(state: HandshakeModel, step: HandshakeStep) -> bool {
    match step {
        HandshakeStep::SetLocalEpoch(_) => true,
        HandshakeStep::WriteMessage1(_) | HandshakeStep::WriteXkMessage1(_) => state.role
            == HandshakeRole::Initiator && state.progress == HandshakeProgress::Initial,
        HandshakeStep::ReadMessage1(_) | HandshakeStep::ReadXkMessage1(_) => state.role
            == HandshakeRole::Responder && state.progress == HandshakeProgress::Initial,
        HandshakeStep::WriteMessage2(_) | HandshakeStep::WriteXkMessage2(_) => state.role
            == HandshakeRole::Responder && state.progress == HandshakeProgress::Message1Done,
        HandshakeStep::ReadMessage2(_)
        | HandshakeStep::TryReadMessage2(_)
        | HandshakeStep::ReadXkMessage2(_)
        | HandshakeStep::TryReadXkMessage2(_) => state.role == HandshakeRole::Initiator
            && state.progress == HandshakeProgress::Message1Done,
        HandshakeStep::WriteXkMessage3 => state.role == HandshakeRole::Initiator && state.progress
            == HandshakeProgress::Message2Done,
        HandshakeStep::ReadXkMessage3(_) => state.role == HandshakeRole::Responder
            && state.progress == HandshakeProgress::Message2Done,
    }
}

/// A step is refused as not fitting exactly when it does not fit, and then
/// changes nothing.
pub proof fn law_steps_fit_by_role_and_stage(state: HandshakeModel, step: HandshakeStep)
    ensures
        !fits(state, step) <==> (state.take(step).0 matches Some(NoiseErrorView::WrongState { .. })),
        !fits(state, step) ==> state.take(step).1 == state,
{
}

/// How far each step takes a handshake: to the next stage if it succeeds, and
/// nowhere if it fails.
pub proof fn law_steps_advance_one_stage(state: HandshakeModel, step: HandshakeStep)
    ensures
        state.take(step).1.progress == if state.take(step).0 is Some {
            state.progress
        } else {
            match step {
                HandshakeStep::SetLocalEpoch(_) => state.progress,
                HandshakeStep::WriteMessage1(_)
                | HandshakeStep::ReadMessage1(_)
                | HandshakeStep::WriteXkMessage1(_)
                | HandshakeStep::ReadXkMessage1(_) => HandshakeProgress::Message1Done,
                HandshakeStep::WriteXkMessage2(_)
                | HandshakeStep::ReadXkMessage2(_)
                | HandshakeStep::TryReadXkMessage2(_) => HandshakeProgress::Message2Done,
                _ => HandshakeProgress::Complete,
            }
        },
{
}

/// A write that fits succeeds exactly when its ephemeral secret is a secret
/// key, and says so when it is not, changing nothing. Message 3 draws no
/// secret and always succeeds.
pub proof fn law_fitting_writes_succeed(state: HandshakeModel, e: Seq<u8>)
    ensures
        fits(state, HandshakeStep::WriteMessage1(e)) ==> if crypto::is_secret_key(e) {
            state.write_message_1(e).0 is Ok && state.write_xk_message_1(e).0 is Ok
        } else {
            &&& state.write_message_1(e) == (
                Err::<Seq<u8>, NoiseErrorView>(NoiseErrorView::InvalidSecretKey),
                state,
            )
            &&& state.write_xk_message_1(e) == (
                Err::<Seq<u8>, NoiseErrorView>(NoiseErrorView::InvalidSecretKey),
                state,
            )
        },
        fits(state, HandshakeStep::WriteMessage2(e)) ==> if crypto::is_secret_key(e) {
            state.write_message_2(e).0 is Ok && state.write_xk_message_2(e).0 is Ok
        } else {
            &&& state.write_message_2(e) == (
                Err::<Seq<u8>, NoiseErrorView>(NoiseErrorView::InvalidSecretKey),
                state,
            )
            &&& state.write_xk_message_2(e) == (
                Err::<Seq<u8>, NoiseErrorView>(NoiseErrorView::InvalidSecretKey),
                state,
            )
        },
        fits(state, HandshakeStep::WriteXkMessage3) ==> state.write_xk_message_3().0 is Ok,
{
}

/// The bytes of IK message 1, and the state it leaves: the ephemeral key, the
/// static key under a key from `es`, the epoch under a key from `es` and `ss`;
/// all three are hashed.
pub proof fn law_ik_message_1_bytes(state: HandshakeModel, e: Seq<u8>, rs: Seq<u8>, epoch: Seq<u8>)
    requires
        fits(state, HandshakeStep::WriteMessage1(e)),
        crypto::is_secret_key(e),
        crypto::public_key_of(state.static_secret).len() == 33,
        state.remote_static == Some(rs),
        state.local_epoch == Some(epoch),
        epoch.len() == 8,
    ensures
        ({
            let e_pub = crypto::public_key_of(e);
            let s_pub = crypto::public_key_of(state.static_secret);
            let okm1 = derived(state.symmetric.ck, exchanged(e, rs));
            let c1 = crypto::aead_seal(okm1.subrange(32, 64), numbered(0), s_pub);
            let okm2 = derived(okm1.subrange(0, 32), exchanged(state.static_secret, rs));
            let c2 = crypto::aead_seal(okm2.subrange(32, 64), numbered(0), epoch);
            state.write_message_1(e) == (
                Ok::<Seq<u8>, NoiseErrorView>(e_pub + c1 + c2),
                HandshakeModel {
                    progress: HandshakeProgress::Message1Done,
                    ephemeral: Some(e),
                    symmetric: standing_on(
                        okm2,
                        hashed(hashed(hashed(state.symmetric.h, e_pub), c1), c2),
                        1,
                    ),
                    ..state
                },
            )
        }),
{
}

/// The bytes of IK message 2, and the state it leaves: the ephemeral key, and
/// the epoch under a key from `ee` and the exchange of the responder's static
/// key with the initiator's ephemeral one; both are hashed.
pub proof fn law_ik_message_2_bytes(state: HandshakeModel, e: Seq<u8>, re: Seq<u8>, epoch: Seq<u8>)
    requires
        fits(state, HandshakeStep::WriteMessage2(e)),
        crypto::is_secret_key(e),
        state.remote_ephemeral == Some(re),
        state.local_epoch == Some(epoch),
        epoch.len() == 8,
    ensures
        ({
            let e_pub = crypto::public_key_of(e);
            let okm1 = derived(state.symmetric.ck, exchanged(e, re));
            let okm2 = derived(okm1.subrange(0, 32), exchanged(state.static_secret, re));
            let c = crypto::aead_seal(okm2.subrange(32, 64), numbered(0), epoch);
            state.write_message_2(e) == (
                Ok::<Seq<u8>, NoiseErrorView>(e_pub + c),
                HandshakeModel {
                    progress: HandshakeProgress::Complete,
                    ephemeral: Some(e),
                    symmetric: standing_on(okm2, hashed(hashed(state.symmetric.h, e_pub), c), 1),
                    ..state
                },
            )
        }),
{
}

/// The bytes of XK message 1, and the state it leaves: the ephemeral key,
/// hashed, and `es` mixed in.
pub proof fn law_xk_message_1_bytes(state: HandshakeModel, e: Seq<u8>, rs: Seq<u8>)
    requires
        fits(state, HandshakeStep::WriteXkMessage1(e)),
        crypto::is_secret_key(e),
        state.remote_static == Some(rs),
    ensures
        ({
            let e_pub = crypto::public_key_of(e);
            let okm = derived(state.symmetric.ck, exchanged(e, rs));
            state.write_xk_message_1(e) == (
                Ok::<Seq<u8>, NoiseErrorView>(e_pub),
                HandshakeModel {
                    progress: HandshakeProgress::Message1Done,
                    ephemeral: Some(e),
                    symmetric: standing_on(okm, hashed(state.symmetric.h, e_pub), 0),
                    ..state
                },
            )
        }),
{
}

/// The bytes of XK message 2, and the state it leaves: the ephemeral key, and
/// the epoch under a key from `ee`; both are hashed.
pub proof fn law_xk_message_2_bytes(state: HandshakeModel, e: Seq<u8>, re: Seq<u8>, epoch: Seq<u8>)
    requires
        fits(state, HandshakeStep::WriteXkMessage2(e)),
        crypto::is_secret_key(e),
        state.remote_ephemeral == Some(re),
        state.local_epoch == Some(epoch),
        epoch.len() == 8,
    ensures
        ({
            let e_pub = crypto::public_key_of(e);
            let okm = derived(state.symmetric.ck, exchanged(e, re));
            let c = crypto::aead_seal(okm.subrange(32, 64), numbered(0), epoch);
            state.write_xk_message_2(e) == (
                Ok::<Seq<u8>, NoiseErrorView>(e_pub + c),
                HandshakeModel {
                    progress: HandshakeProgress::Message2Done,
                    ephemeral: Some(e),
                    symmetric: standing_on(okm, hashed(hashed(state.symmetric.h, e_pub), c), 1),
                    ..state
                },
            )
        }),
{
}

/// The bytes of XK message 3, and the state it leaves: the static key under
/// the cipher as it stands, and the epoch under a key from `se`; both are
/// hashed.
pub proof fn law_xk_message_3_bytes(
    state: HandshakeModel,
    key: Seq<u8>,
    re: Seq<u8>,
    epoch: Seq<u8>,
)
    requires
        fits(state, HandshakeStep::WriteXkMessage3),
        crypto::public_key_of(state.static_secret).len() == 33,
        state.symmetric.cipher.key == Some(key),
        state.symmetric.cipher.nonce < u64::MAX,
        state.remote_ephemeral == Some(re),
        state.local_epoch == Some(epoch),
        epoch.len() == 8,
    ensures
        ({
            let s_pub = crypto::public_key_of(state.static_secret);
            let c1 = crypto::aead_seal(key, numbered(state.symmetric.cipher.nonce), s_pub);
            let okm = derived(state.symmetric.ck, exchanged(state.static_secret, re));
            let c2 = crypto::aead_seal(okm.subrange(32, 64), numbered(0), epoch);
            state.write_xk_message_3() == (
                Ok::<Seq<u8>, NoiseErrorView>(c1 + c2),
                HandshakeModel {
                    progress: HandshakeProgress::Complete,
                    symmetric: standing_on(okm, hashed(hashed(state.symmetric.h, c1), c2), 1),
                    ..state
                },
            )
        }),
{
}

/// Whether an outcome is the given error.
pub open spec fn fails_with(outcome: Result<(), NoiseErrorView>, error: NoiseErrorView) -> bool {
    outcome == Err::<(), NoiseErrorView>(error)
}

/// What reading IK message 1 comes to: it succeeds exactly when the ephemeral
/// key is a key, the encrypted static key is genuine and a key, and the epoch
/// is genuine; the responder then holds all three as they were sent. Where it
/// fails, it holds what had been read before.
pub proof fn law_ik_message_1_is_accepted_iff_genuine(state: HandshakeModel, message: Seq<u8>)
    requires
        fits(state, HandshakeStep::ReadMessage1(message)),
        message.len() == 106,
    ensures
        ({
            let re = message.subrange(0, 33);
            let c1 = message.subrange(33, 82);
            let c2 = message.subrange(82, 106);
            let h1 = hashed(state.symmetric.h, re);
            let h2 = hashed(h1, c1);
            let h3 = hashed(h2, c2);
            let okm1 = derived(state.symmetric.ck, exchanged(state.static_secret, re));
            let (outcome, after) = state.read_message_1(message);
            if !crypto::is_public_key(re) {
                fails_with(outcome, NoiseErrorView::InvalidPublicKey) && after == state
            } else {
                let told = HandshakeModel { remote_ephemeral: Some(re), ..state };
                match crypto::aead_open(okm1.subrange(32, 64), numbered(0), c1) {
                    None => {
                        &&& fails_with(outcome, NoiseErrorView::DecryptionFailed)
                        &&& after == (HandshakeModel {
                            symmetric: standing_on(okm1, h1, 0),
                            ..told
                        })
                    },
                    Some(rs) => if !crypto::is_public_key(rs) {
                        &&& fails_with(outcome, NoiseErrorView::InvalidPublicKey)
                        &&& after == (HandshakeModel {
                            symmetric: standing_on(okm1, h2, 1),
                            ..told
                        })
                    } else {
                        let okm2 = derived(
                            okm1.subrange(0, 32),
                            exchanged(state.static_secret, rs),
                        );
                        match crypto::aead_open(okm2.subrange(32, 64), numbered(0), c2) {
                            None => {
                                &&& fails_with(outcome, NoiseErrorView::DecryptionFailed)
                                &&& after == (HandshakeModel {
                                    symmetric: standing_on(okm2, h2, 0),
                                    remote_static: Some(rs),
                                    ..told
                                })
                            },
                            Some(epoch) => {
                                &&& outcome is Ok
                                &&& after == (HandshakeModel {
                                    progress: HandshakeProgress::Message1Done,
                                    symmetric: standing_on(okm2, h3, 1),
                                    remote_static: Some(rs),
                                    remote_epoch: Some(epoch),
                                    ..told
                                })
                            },
                        }
                    },
                }
            }
        }),
{
}

/// What reading IK message 2 comes to: it succeeds exactly when the ephemeral
/// key is a key and the epoch is genuine; the initiator then holds both as they
/// were sent.
pub proof fn law_ik_message_2_is_accepted_iff_genuine(
    state: HandshakeModel,
    message: Seq<u8>,
    e: Seq<u8>,
    rs: Seq<u8>,
)
    requires
        fits(state, HandshakeStep::ReadMessage2(message)),
        message.len() == 57,
        state.ephemeral == Some(e),
        state.remote_static == Some(rs),
    ensures
        ({
            let re = message.subrange(0, 33);
            let c = message.subrange(33, 57);
            let h1 = hashed(state.symmetric.h, re);
            let h2 = hashed(h1, c);
            let okm1 = derived(state.symmetric.ck, exchanged(e, re));
            let okm2 = derived(okm1.subrange(0, 32), exchanged(e, rs));
            let (outcome, after) = state.read_message_2(message);
            if !crypto::is_public_key(re) {
                fails_with(outcome, NoiseErrorView::InvalidPublicKey) && after == state
            } else {
                match crypto::aead_open(okm2.subrange(32, 64), numbered(0), c) {
                    None => {
                        &&& fails_with(outcome, NoiseErrorView::DecryptionFailed)
                        &&& after == (HandshakeModel {
                            symmetric: standing_on(okm2, h1, 0),
                            remote_ephemeral: Some(re),
                            ..state
                        })
                    },
                    Some(epoch) => {
                        &&& outcome is Ok
                        &&& after == (HandshakeModel {
                            progress: HandshakeProgress::Complete,
                            symmetric: standing_on(okm2, h2, 1),
                            remote_ephemeral: Some(re),
                            remote_epoch: Some(epoch),
                            ..state
                        })
                    },
                }
            }
        }),
{
}

/// What reading XK message 1 comes to: it succeeds exactly when the message is
/// a key, which the responder then holds, with `es` mixed in.
pub proof fn law_xk_message_1_is_accepted_iff_a_key(state: HandshakeModel, message: Seq<u8>)
    requires
        fits(state, HandshakeStep::ReadXkMessage1(message)),
        message.len() == 33,
    ensures
        ({
            let okm = derived(state.symmetric.ck, exchanged(state.static_secret, message));
            let (outcome, after) = state.read_xk_message_1(message);
            if !crypto::is_public_key(message) {
                fails_with(outcome, NoiseErrorView::InvalidPublicKey) && after == state
            } else {
                &&& outcome is Ok
                &&& after == (HandshakeModel {
                    progress: HandshakeProgress::Message1Done,
                    remote_ephemeral: Some(message),
                    symmetric: standing_on(okm, hashed(state.symmetric.h, message), 0),
                    ..state
                })
            }
        }),
{
}

/// What reading XK message 2 comes to: it succeeds exactly when the ephemeral
/// key is a key and the epoch is genuine; the initiator then holds both as they
/// were sent.
pub proof fn law_xk_message_2_is_accepted_iff_genuine(
    state: HandshakeModel,
    message: Seq<u8>,
    e: Seq<u8>,
)
    requires
        fits(state, HandshakeStep::ReadXkMessage2(message)),
        message.len() == 57,
        state.ephemeral == Some(e),
    ensures
        ({
            let re = message.subrange(0, 33);
            let c = message.subrange(33, 57);
            let h1 = hashed(state.symmetric.h, re);
            let h2 = hashed(h1, c);
            let okm = derived(state.symmetric.ck, exchanged(e, re));
            let (outcome, after) = state.read_xk_message_2(message);
            if !crypto::is_public_key(re) {
                fails_with(outcome, NoiseErrorView::InvalidPublicKey) && after == state
            } else {
                match crypto::aead_open(okm.subrange(32, 64), numbered(0), c) {
                    None => {
                        &&& fails_with(outcome, NoiseErrorView::DecryptionFailed)
                        &&& after == (HandshakeModel {
                            symmetric: standing_on(okm, h1, 0),
                            remote_ephemeral: Some(re),
                            ..state
                        })
                    },
                    Some(epoch) => {
                        &&& outcome is Ok
                        &&& after == (HandshakeModel {
                            progress: HandshakeProgress::Message2Done,
                            symmetric: standing_on(okm, h2, 1),
                            remote_ephemeral: Some(re),
                            remote_epoch: Some(epoch),
                            ..state
                        })
                    },
                }
            }
        }),
{
}

/// What reading XK message 3 comes to: it succeeds exactly when the encrypted
/// static key is genuine and a key, and the epoch is genuine; the responder
/// then holds both as they were sent.
pub proof fn law_xk_message_3_is_accepted_iff_genuine(
    state: HandshakeModel,
    message: Seq<u8>,
    key: Seq<u8>,
    e: Seq<u8>,
)
    requires
        fits(state, HandshakeStep::ReadXkMessage3(message)),
        message.len() == 73,
        state.ephemeral == Some(e),
        state.symmetric.cipher.key == Some(key),
        state.symmetric.cipher.nonce < u64::MAX,
    ensures
        ({
            let c1 = message.subrange(0, 49);
            let c2 = message.subrange(49, 73);
            let nonce = state.symmetric.cipher.nonce;
            let h1 = hashed(state.symmetric.h, c1);
            let h2 = hashed(h1, c2);
            let (outcome, after) = state.read_xk_message_3(message);
            match crypto::aead_open(key, numbered(nonce), c1) {
                None => fails_with(outcome, NoiseErrorView::DecryptionFailed) && after == state,
                Some(rs) => if !crypto::is_public_key(rs) {
                    &&& fails_with(outcome, NoiseErrorView::InvalidPublicKey)
                    &&& after == (HandshakeModel {
                        symmetric: SymmetricModel {
                            ck: state.symmetric.ck,
                            h: h1,
                            cipher: CipherModel { key: Some(key), nonce: (nonce + 1) as u64 },
                        },
                        ..state
                    })
                } else {
                    let okm = derived(state.symmetric.ck, exchanged(e, rs));
                    match crypto::aead_open(okm.subrange(32, 64), numbered(0), c2) {
                        None => {
                            &&& fails_with(outcome, NoiseErrorView::DecryptionFailed)
                            &&& after == (HandshakeModel {
                                symmetric: standing_on(okm, h1, 0),
                                remote_static: Some(rs),
                                ..state
                            })
                        },
                        Some(epoch) => {
                            &&& outcome is Ok
                            &&& after == (HandshakeModel {
                                progress: HandshakeProgress::Complete,
                                symmetric: standing_on(okm, h2, 1),
                                remote_static: Some(rs),
                                remote_epoch: Some(epoch),
                                ..state
                            })
                        },
                    }
                },
            }
        }),
{
}

/// A message of the wrong length is refused with both lengths, and changes
/// nothing.
pub proof fn law_lengths_are_checked(state: HandshakeModel, message: Seq<u8>)
    ensures
        ({
            let steps = seq![
                (HandshakeStep::ReadMessage1(message), 106nat),
                (HandshakeStep::ReadMessage2(message), 57nat),
                (HandshakeStep::TryReadMessage2(message), 57nat),
                (HandshakeStep::ReadXkMessage1(message), 33nat),
                (HandshakeStep::ReadXkMessage2(message), 57nat),
                (HandshakeStep::TryReadXkMessage2(message), 57nat),
                (HandshakeStep::ReadXkMessage3(message), 73nat),
            ];
            forall|i: int|
                0 <= i < 7 && fits(state, (#[trigger] steps[i]).0) && message.len() != steps[i].1
                    ==> state.take(steps[i].0) == (
                    Some(
                        NoiseErrorView::MessageTooShort {
                            expected: steps[i].1,
                            got: message.len(),
                        },
                    ),
                    state,
                )
        }),
{
}

/// A failed read learns no epoch and moves to no stage. Where it was only
/// tried it changes nothing at all, and where it succeeds trying is reading.
pub proof fn law_failed_reads_learn_no_epoch(state: HandshakeModel, step: HandshakeStep)
    requires
        state.take(step).0 is Some,
    ensures
        state.take(step).1.remote_epoch == state.remote_epoch,
        state.take(step).1.progress == state.progress,
        step is TryReadMessage2 || step is TryReadXkMessage2 ==> state.take(step).1 == state,
{
}

/// Trying to read gives the outcome of reading, and its state if that
/// succeeds.
pub proof fn law_trying_is_reading(state: HandshakeModel, message: Seq<u8>)
    ensures
        state.take(HandshakeStep::TryReadMessage2(message)).0 == state.take(
            HandshakeStep::ReadMessage2(message),
        ).0,
        state.take(HandshakeStep::TryReadXkMessage2(message)).0 == state.take(
            HandshakeStep::ReadXkMessage2(message),
        ).0,
        state.take(HandshakeStep::ReadMessage2(message)).0 is None ==> state.take(
            HandshakeStep::TryReadMessage2(message),
        ) == state.take(HandshakeStep::ReadMessage2(message)),
        state.take(HandshakeStep::ReadXkMessage2(message)).0 is None ==> state.take(
            HandshakeStep::TryReadXkMessage2(message),
        ) == state.take(HandshakeStep::ReadXkMessage2(message)),
{
}

/// A description names the pattern, the role and the stage, and says of each
/// optional part whether it is there.
pub proof fn law_descriptions_say_what_is_there(state: HandshakeModel)
    ensures
        state.debug_text() == "HandshakeState { pattern: "@ + match state.pattern {
            NoisePattern::Ik => "Ik"@,
            NoisePattern::Xk => "Xk"@,
        } + ", role: "@ + match state.role {
            HandshakeRole::Initiator => "Initiator"@,
            HandshakeRole::Responder => "Responder"@,
        } + ", progress: "@ + match state.progress {
            HandshakeProgress::Initial => "Initial"@,
            HandshakeProgress::Message1Done => "Message1Done"@,
            HandshakeProgress::Message2Done => "Message2Done"@,
            HandshakeProgress::Complete => "Complete"@,
        } + ", has_ephemeral: "@ + if state.ephemeral is Some {
            "true"@
        } else {
            "false"@
        } + ", has_remote_static: "@ + if state.remote_static is Some {
            "true"@
        } else {
            "false"@
        } + ", has_remote_ephemeral: "@ + if state.remote_ephemeral is Some {
            "true"@
        } else {
            "false"@
        } + ", has_local_epoch: "@ + if state.local_epoch is Some {
            "true"@
        } else {
            "false"@
        } + ", has_remote_epoch: "@ + if state.remote_epoch is Some {
            "true"@
        } else {
            "false"@
        } + " }"@,
{
}

/// What an error says is what it holds.
pub proof fn law_errors_say_what_they_hold(error: NoiseError)
    ensures
        match error {
            NoiseError::HandshakeNotComplete => error@ is HandshakeNotComplete,
            NoiseError::WrongState { expected, got } => error@ == (NoiseErrorView::WrongState {
                expected: expected@,
                got: got@,
            }),
            NoiseError::InvalidPublicKey => error@ is InvalidPublicKey,
            NoiseError::InvalidSecretKey => error@ is InvalidSecretKey,
            NoiseError::DecryptionFailed => error@ is DecryptionFailed,
            NoiseError::MessageTooLarge { size } => error@ == (NoiseErrorView::MessageTooLarge {
                size: size as nat,
            }),
            NoiseError::MessageTooShort { expected, got } => error@ == (
            NoiseErrorView::MessageTooShort { expected: expected as nat, got: got as nat }),
            NoiseError::NonceOverflow => error@ is NonceOverflow,
        },
{
}

/// The outcome of an operation is the bytes it returned, or what its error
/// says.
pub proof fn law_outcomes_are_what_was_returned(
    bytes: Result<Vec<u8>, NoiseError>,
    unit: Result<(), NoiseError>,
)
    ensures
        match bytes {
            Ok(returned) => error::bytes_outcome(bytes) == Ok::<Seq<u8>, NoiseErrorView>(
                returned@,
            ),
            Err(e) => error::bytes_outcome(bytes) == Err::<Seq<u8>, NoiseErrorView>(e@),
        },
        match unit {
            Ok(()) => error::unit_outcome(unit) is Ok,
            Err(e) => error::unit_outcome(unit) == Err::<(), NoiseErrorView>(e@),
        },
{
}

/// A key is a key with either parity, and with no other first byte.
pub proof fn law_either_parity_makes_a_key(key: Seq<u8>, parity: u8)
    requires
        crypto::is_public_key(key),
    ensures
        key.len() == 33,
        crypto::is_public_key(key.update(0, parity)) <==> parity == 2 || parity == 3,
        crypto::x_only(key.update(0, parity)) == crypto::x_only(key),
        crypto::x_only(key) == key.subrange(1, 33),
{
    assert(crypto::x_only(key.update(0, parity)) =~= crypto::x_only(key));
}

} // verus!
