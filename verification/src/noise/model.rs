//! What each handshake step means, over plain sequences.
//!
//! A step is a function from a state, and the message or the ephemeral secret
//! that goes into it, to an outcome and the state afterwards.

use vstd::prelude::*;

use crate::noise::crypto;
use crate::noise::cipher::CipherModel;
use crate::noise::error::NoiseErrorView;
use crate::noise::symmetric::SymmetricModel;
use crate::noise::{
    HandshakeProgress, HandshakeRole, NoisePattern, HANDSHAKE_MSG1_SIZE,
    HANDSHAKE_MSG2_SIZE, PUBKEY_ENCRYPTED_SIZE, PUBKEY_SIZE, XK_HANDSHAKE_MSG1_SIZE,
    XK_HANDSHAKE_MSG2_SIZE, XK_HANDSHAKE_MSG3_SIZE,
};

verus! {

/// What a handshake holds. Keypairs are given by their secret half.
#[verifier::ext_equal]
pub struct HandshakeModel {
    pub pattern: NoisePattern,
    pub role: HandshakeRole,
    pub progress: HandshakeProgress,
    pub symmetric: SymmetricModel,
    pub static_secret: Seq<u8>,
    pub ephemeral: Option<Seq<u8>>,
    pub remote_static: Option<Seq<u8>>,
    pub remote_ephemeral: Option<Seq<u8>>,
    pub local_epoch: Option<Seq<u8>>,
    pub remote_epoch: Option<Seq<u8>>,
}

/// What a finished handshake hands over.
#[verifier::ext_equal]
pub struct SessionModel {
    pub role: HandshakeRole,
    pub send: CipherModel,
    pub recv: CipherModel,
    pub handshake_hash: Seq<u8>,
    pub remote_static: Seq<u8>,
}

/// A public key with its parity byte forced to even.
pub open spec fn normalized(public: Seq<u8>) -> Seq<u8> {
    public.update(0, 2u8)
}

/// The secret two ends of a key exchange share: the digest of the first
/// coordinate of the shared point.
pub open spec fn dh(secret: Seq<u8>, public: Seq<u8>) -> Seq<u8> {
    crypto::sha256_digest(
        crypto::shared_point(public, secret).subrange(0, 32),
    )
}

impl SymmetricModel {
    /// The ciphertext of `plaintext`, where encryption succeeds.
    pub open spec fn sealed(self, plaintext: Seq<u8>) -> Seq<u8> {
        self.encrypt_and_hash(plaintext).0->Ok_0
    }

    /// The state after `plaintext` was encrypted.
    pub open spec fn after_sealing(self, plaintext: Seq<u8>) -> SymmetricModel {
        self.encrypt_and_hash(plaintext).1
    }
}

impl HandshakeModel {
    /// A handshake that has not begun: the responder's static key, with its
    /// parity dropped, is all that has been hashed.
    pub open spec fn start(
        pattern: NoisePattern,
        role: HandshakeRole,
        static_secret: Seq<u8>,
        remote_static: Option<Seq<u8>>,
        responder_static: Seq<u8>,
    ) -> HandshakeModel {
        HandshakeModel {
            pattern,
            role,
            progress: HandshakeProgress::Initial,
            symmetric: SymmetricModel::initialize(
                vstd::utf8::encode_utf8(pattern.protocol_name()),
            ).mix_hash(normalized(responder_static)),
            static_secret,
            ephemeral: None,
            remote_static,
            remote_ephemeral: None,
            local_epoch: None,
            remote_epoch: None,
        }
    }

    /// An initiator that holds `static_secret` and means to reach
    /// `remote_static`.
    pub open spec fn initiator(
        pattern: NoisePattern,
        static_secret: Seq<u8>,
        remote_static: Seq<u8>,
    ) -> HandshakeModel {
        Self::start(
            pattern,
            HandshakeRole::Initiator,
            static_secret,
            Some(remote_static),
            remote_static,
        )
    }

    /// A responder that holds `static_secret`.
    pub open spec fn responder(pattern: NoisePattern, static_secret: Seq<u8>) -> HandshakeModel {
        Self::start(
            pattern,
            HandshakeRole::Responder,
            static_secret,
            None,
            crypto::public_key_of(static_secret),
        )
    }

    /// What every reachable handshake satisfies: its keys are keys, and it
    /// holds what the steps behind it have brought.
    pub open spec fn wf(self) -> bool {
        &&& crypto::is_secret_key(self.static_secret)
        &&& self.ephemeral matches Some(secret) ==> crypto::is_secret_key(secret)
        &&& self.remote_static matches Some(key) ==> crypto::is_public_key(key)
        &&& self.remote_ephemeral matches Some(key) ==> crypto::is_public_key(key)
        &&& self.local_epoch matches Some(epoch) ==> epoch.len() == 8
        &&& self.remote_epoch matches Some(epoch) ==> epoch.len() == 8
        &&& self.role == HandshakeRole::Initiator ==> {
            &&& self.remote_static is Some
            &&& self.progress != HandshakeProgress::Initial ==> self.ephemeral is Some
            &&& self.progress == HandshakeProgress::Message2Done ==> {
                &&& self.remote_ephemeral is Some
                &&& self.symmetric.cipher.key is Some
                &&& self.symmetric.cipher.nonce == 1
            }
        }
        &&& self.role == HandshakeRole::Responder ==> {
            &&& self.progress != HandshakeProgress::Initial ==> self.remote_ephemeral is Some
            &&& self.progress == HandshakeProgress::Message2Done ==> self.ephemeral is Some
        }
    }

    /// Why a step for `role` at `progress` does not fit this handshake, if it
    /// does not. The role is looked at first.
    pub open spec fn refusal(
        self,
        role: HandshakeRole,
        progress: HandshakeProgress,
    ) -> Option<NoiseErrorView> {
        if self.role != role {
            Some(NoiseErrorView::WrongState { expected: role.name(), got: self.role.name() })
        } else if self.progress != progress {
            Some(
                NoiseErrorView::WrongState { expected: progress.name(), got: self.progress.name() },
            )
        } else {
            None
        }
    }

    /// Why a message of length `got` is not read by a step for `role` at
    /// `progress` that reads messages of length `expected`, if it is not.
    pub open spec fn read_refusal(
        self,
        role: HandshakeRole,
        progress: HandshakeProgress,
        expected: nat,
        got: nat,
    ) -> Option<NoiseErrorView> {
        match self.refusal(role, progress) {
            Some(error) => Some(error),
            None => if got != expected {
                Some(NoiseErrorView::MessageTooShort { expected, got })
            } else {
                None
            },
        }
    }

    /// The handshake once the peer's ephemeral key is known and hashed.
    pub open spec fn with_remote_ephemeral(self, key: Seq<u8>) -> HandshakeModel {
        HandshakeModel {
            remote_ephemeral: Some(key),
            symmetric: self.symmetric.mix_hash(key),
            ..self
        }
    }

    /// The handshake after mixing in the exchange of `secret` with `public`.
    pub open spec fn mixing(self, secret: Seq<u8>, public: Seq<u8>) -> HandshakeModel {
        HandshakeModel { symmetric: self.symmetric.mix_key(dh(secret, public)), ..self }
    }

    /// Reading the peer's encrypted static key: the outcome, and the
    /// handshake afterwards.
    pub open spec fn read_static(self, ciphertext: Seq<u8>) -> (
        Result<Seq<u8>, NoiseErrorView>,
        HandshakeModel,
    ) {
        let (outcome, symmetric) = self.symmetric.decrypt_and_hash(ciphertext);
        match outcome {
            Err(error) => (Err(error), HandshakeModel { symmetric, ..self }),
            Ok(key) => if crypto::is_public_key(key) {
                (Ok(key), HandshakeModel { symmetric, remote_static: Some(key), ..self })
            } else {
                (Err(NoiseErrorView::InvalidPublicKey), HandshakeModel { symmetric, ..self })
            },
        }
    }

    /// Reading the peer's encrypted epoch, the last part of every message
    /// that has one: the outcome, and the handshake afterwards.
    pub open spec fn read_epoch(self, ciphertext: Seq<u8>, progress: HandshakeProgress) -> (
        Result<(), NoiseErrorView>,
        HandshakeModel,
    ) {
        let (outcome, symmetric) = self.symmetric.decrypt_and_hash(ciphertext);
        match outcome {
            Err(error) => (Err(error), HandshakeModel { symmetric, ..self }),
            Ok(epoch) => (
                Ok(()),
                HandshakeModel { symmetric, remote_epoch: Some(epoch), progress, ..self },
            ),
        }
    }

    /// The symmetric state that IK message 1 encrypts the static key with: `e`
    /// and `es` are mixed in.
    pub open spec fn after_es(self, e: Seq<u8>) -> SymmetricModel {
        self.symmetric.mix_hash(crypto::public_key_of(e)).mix_key(
            dh(e, self.remote_static->Some_0),
        )
    }

    /// The symmetric state that IK message 1 encrypts the epoch with: `s` and
    /// `ss` are mixed in too.
    pub open spec fn after_ss(self, e: Seq<u8>) -> SymmetricModel {
        self.after_es(e).after_sealing(crypto::public_key_of(self.static_secret)).mix_key(
            dh(self.static_secret, self.remote_static->Some_0),
        )
    }

    /// The symmetric state that XK message 2 encrypts the epoch with: `e` and
    /// `ee` are mixed in.
    pub open spec fn after_ee(self, e: Seq<u8>) -> SymmetricModel {
        self.symmetric.mix_hash(crypto::public_key_of(e)).mix_key(
            dh(e, self.remote_ephemeral->Some_0),
        )
    }

    /// The symmetric state that IK message 2 encrypts the epoch with: `e`,
    /// `ee` and `se` are mixed in.
    pub open spec fn after_se(self, e: Seq<u8>) -> SymmetricModel {
        self.after_ee(e).mix_key(dh(self.static_secret, self.remote_ephemeral->Some_0))
    }

    /// The symmetric state that XK message 3 encrypts the epoch with: `s` and
    /// `se` are mixed in.
    pub open spec fn after_xk_se(self) -> SymmetricModel {
        self.symmetric.after_sealing(crypto::public_key_of(self.static_secret)).mix_key(
            dh(self.static_secret, self.remote_ephemeral->Some_0),
        )
    }

    /// `-> e, es, s, ss, epoch`, written with the ephemeral secret `e`.
    pub open spec fn write_message_1(self, e: Seq<u8>) -> (
        Result<Seq<u8>, NoiseErrorView>,
        HandshakeModel,
    ) {
        match self.refusal(HandshakeRole::Initiator, HandshakeProgress::Initial) {
            Some(error) => (Err(error), self),
            None => if !crypto::is_secret_key(e) {
                (Err(NoiseErrorView::InvalidSecretKey), self)
            } else {
                let s_pub = crypto::public_key_of(self.static_secret);
                let epoch = self.local_epoch->Some_0;
                (
                    Ok(
                        crypto::public_key_of(e) + self.after_es(e).sealed(s_pub) + self.after_ss(
                            e,
                        ).sealed(epoch),
                    ),
                    HandshakeModel {
                        progress: HandshakeProgress::Message1Done,
                        symmetric: self.after_ss(e).after_sealing(epoch),
                        ephemeral: Some(e),
                        ..self
                    },
                )
            },
        }
    }

    /// `-> e, es, s, ss, epoch`, read.
    pub open spec fn read_message_1(self, message: Seq<u8>) -> (
        Result<(), NoiseErrorView>,
        HandshakeModel,
    ) {
        match self.read_refusal(
            HandshakeRole::Responder,
            HandshakeProgress::Initial,
            HANDSHAKE_MSG1_SIZE as nat,
            message.len(),
        ) {
            Some(error) => (Err(error), self),
            None => {
                let re = message.subrange(0, PUBKEY_SIZE as int);
                let static_end = PUBKEY_SIZE + PUBKEY_ENCRYPTED_SIZE;
                if !crypto::is_public_key(re) {
                    (Err(NoiseErrorView::InvalidPublicKey), self)
                } else {
                    let (rs, after) = self.with_remote_ephemeral(re).mixing(
                        self.static_secret,
                        re,
                    ).read_static(message.subrange(PUBKEY_SIZE as int, static_end));
                    match rs {
                        Err(error) => (Err(error), after),
                        Ok(rs) => after.mixing(self.static_secret, rs).read_epoch(
                            message.subrange(static_end, message.len() as int),
                            HandshakeProgress::Message1Done,
                        ),
                    }
                }
            },
        }
    }

    /// `<- e, ee, se, epoch`, written with the ephemeral secret `e`.
    pub open spec fn write_message_2(self, e: Seq<u8>) -> (
        Result<Seq<u8>, NoiseErrorView>,
        HandshakeModel,
    ) {
        match self.refusal(HandshakeRole::Responder, HandshakeProgress::Message1Done) {
            Some(error) => (Err(error), self),
            None => if !crypto::is_secret_key(e) {
                (Err(NoiseErrorView::InvalidSecretKey), self)
            } else {
                let epoch = self.local_epoch->Some_0;
                (
                    Ok(crypto::public_key_of(e) + self.after_se(e).sealed(epoch)),
                    HandshakeModel {
                        progress: HandshakeProgress::Complete,
                        symmetric: self.after_se(e).after_sealing(epoch),
                        ephemeral: Some(e),
                        ..self
                    },
                )
            },
        }
    }

    /// `<- e, ee, se, epoch`, read.
    pub open spec fn read_message_2(self, message: Seq<u8>) -> (
        Result<(), NoiseErrorView>,
        HandshakeModel,
    ) {
        match self.read_refusal(
            HandshakeRole::Initiator,
            HandshakeProgress::Message1Done,
            HANDSHAKE_MSG2_SIZE as nat,
            message.len(),
        ) {
            Some(error) => (Err(error), self),
            None => {
                let re = message.subrange(0, PUBKEY_SIZE as int);
                if !crypto::is_public_key(re) {
                    (Err(NoiseErrorView::InvalidPublicKey), self)
                } else {
                    let e = self.ephemeral->Some_0;
                    self.with_remote_ephemeral(re).mixing(e, re).mixing(
                        e,
                        self.remote_static->Some_0,
                    ).read_epoch(
                        message.subrange(PUBKEY_SIZE as int, message.len() as int),
                        HandshakeProgress::Complete,
                    )
                }
            },
        }
    }

    /// `-> e, es`, written with the ephemeral secret `e`.
    pub open spec fn write_xk_message_1(self, e: Seq<u8>) -> (
        Result<Seq<u8>, NoiseErrorView>,
        HandshakeModel,
    ) {
        match self.refusal(HandshakeRole::Initiator, HandshakeProgress::Initial) {
            Some(error) => (Err(error), self),
            None => if !crypto::is_secret_key(e) {
                (Err(NoiseErrorView::InvalidSecretKey), self)
            } else {
                (
                    Ok(crypto::public_key_of(e)),
                    HandshakeModel {
                        progress: HandshakeProgress::Message1Done,
                        symmetric: self.after_es(e),
                        ephemeral: Some(e),
                        ..self
                    },
                )
            },
        }
    }

    /// `-> e, es`, read.
    pub open spec fn read_xk_message_1(self, message: Seq<u8>) -> (
        Result<(), NoiseErrorView>,
        HandshakeModel,
    ) {
        match self.read_refusal(
            HandshakeRole::Responder,
            HandshakeProgress::Initial,
            XK_HANDSHAKE_MSG1_SIZE as nat,
            message.len(),
        ) {
            Some(error) => (Err(error), self),
            None => if !crypto::is_public_key(message) {
                (Err(NoiseErrorView::InvalidPublicKey), self)
            } else {
                (
                    Ok(()),
                    HandshakeModel {
                        progress: HandshakeProgress::Message1Done,
                        ..self.with_remote_ephemeral(message).mixing(self.static_secret, message)
                    },
                )
            },
        }
    }

    /// `<- e, ee, epoch`, written with the ephemeral secret `e`.
    pub open spec fn write_xk_message_2(self, e: Seq<u8>) -> (
        Result<Seq<u8>, NoiseErrorView>,
        HandshakeModel,
    ) {
        match self.refusal(HandshakeRole::Responder, HandshakeProgress::Message1Done) {
            Some(error) => (Err(error), self),
            None => if !crypto::is_secret_key(e) {
                (Err(NoiseErrorView::InvalidSecretKey), self)
            } else {
                let epoch = self.local_epoch->Some_0;
                (
                    Ok(crypto::public_key_of(e) + self.after_ee(e).sealed(epoch)),
                    HandshakeModel {
                        progress: HandshakeProgress::Message2Done,
                        symmetric: self.after_ee(e).after_sealing(epoch),
                        ephemeral: Some(e),
                        ..self
                    },
                )
            },
        }
    }

    /// `<- e, ee, epoch`, read.
    pub open spec fn read_xk_message_2(self, message: Seq<u8>) -> (
        Result<(), NoiseErrorView>,
        HandshakeModel,
    ) {
        match self.read_refusal(
            HandshakeRole::Initiator,
            HandshakeProgress::Message1Done,
            XK_HANDSHAKE_MSG2_SIZE as nat,
            message.len(),
        ) {
            Some(error) => (Err(error), self),
            None => {
                let re = message.subrange(0, PUBKEY_SIZE as int);
                if !crypto::is_public_key(re) {
                    (Err(NoiseErrorView::InvalidPublicKey), self)
                } else {
                    self.with_remote_ephemeral(re).mixing(self.ephemeral->Some_0, re).read_epoch(
                        message.subrange(PUBKEY_SIZE as int, message.len() as int),
                        HandshakeProgress::Message2Done,
                    )
                }
            },
        }
    }

    /// `-> s, se, epoch`, written.
    pub open spec fn write_xk_message_3(self) -> (Result<Seq<u8>, NoiseErrorView>, HandshakeModel) {
        match self.refusal(HandshakeRole::Initiator, HandshakeProgress::Message2Done) {
            Some(error) => (Err(error), self),
            None => {
                let s_pub = crypto::public_key_of(self.static_secret);
                let epoch = self.local_epoch->Some_0;
                (
                    Ok(self.symmetric.sealed(s_pub) + self.after_xk_se().sealed(epoch)),
                    HandshakeModel {
                        progress: HandshakeProgress::Complete,
                        symmetric: self.after_xk_se().after_sealing(epoch),
                        ..self
                    },
                )
            },
        }
    }

    /// `-> s, se, epoch`, read.
    pub open spec fn read_xk_message_3(self, message: Seq<u8>) -> (
        Result<(), NoiseErrorView>,
        HandshakeModel,
    ) {
        match self.read_refusal(
            HandshakeRole::Responder,
            HandshakeProgress::Message2Done,
            XK_HANDSHAKE_MSG3_SIZE as nat,
            message.len(),
        ) {
            Some(error) => (Err(error), self),
            None => {
                let static_end = PUBKEY_ENCRYPTED_SIZE as int;
                let (rs, after) = self.read_static(message.subrange(0, static_end));
                match rs {
                    Err(error) => (Err(error), after),
                    Ok(rs) => after.mixing(self.ephemeral->Some_0, rs).read_epoch(
                        message.subrange(static_end, message.len() as int),
                        HandshakeProgress::Complete,
                    ),
                }
            },
        }
    }

    /// A step that keeps `self` unless it succeeded.
    pub open spec fn or_unchanged(self, step: (Result<(), NoiseErrorView>, HandshakeModel)) -> (
        Result<(), NoiseErrorView>,
        HandshakeModel,
    ) {
        match step.0 {
            Ok(()) => step,
            Err(error) => (Err(error), self),
        }
    }

    /// The session a finished handshake gives. The initiator sends with the
    /// first transport cipher, the responder with the second.
    pub open spec fn session(self) -> SessionModel {
        let (c1, c2) = self.symmetric.split();
        let (send, recv) = match self.role {
            HandshakeRole::Initiator => (c1, c2),
            HandshakeRole::Responder => (c2, c1),
        };
        SessionModel {
            role: self.role,
            send,
            recv,
            handshake_hash: self.symmetric.h,
            remote_static: self.remote_static->Some_0,
        }
    }
}

/// One call that changes a handshake, with what goes into it: an epoch, an
/// ephemeral secret, or a message.
pub enum HandshakeStep {
    SetLocalEpoch(Seq<u8>),
    WriteMessage1(Seq<u8>),
    ReadMessage1(Seq<u8>),
    WriteMessage2(Seq<u8>),
    ReadMessage2(Seq<u8>),
    TryReadMessage2(Seq<u8>),
    WriteXkMessage1(Seq<u8>),
    ReadXkMessage1(Seq<u8>),
    WriteXkMessage2(Seq<u8>),
    ReadXkMessage2(Seq<u8>),
    TryReadXkMessage2(Seq<u8>),
    WriteXkMessage3,
    ReadXkMessage3(Seq<u8>),
}

/// What became of a step that yields a message or nothing.
pub open spec fn error_of<T>(outcome: Result<T, NoiseErrorView>) -> Option<NoiseErrorView> {
    match outcome {
        Ok(_) => None,
        Err(error) => Some(error),
    }
}

impl HandshakeStep {
    /// Whether the step is one of `pattern`.
    pub open spec fn belongs_to(self, pattern: NoisePattern) -> bool {
        match self {
            HandshakeStep::SetLocalEpoch(_) => true,
            HandshakeStep::WriteMessage1(_)
            | HandshakeStep::ReadMessage1(_)
            | HandshakeStep::WriteMessage2(_)
            | HandshakeStep::ReadMessage2(_)
            | HandshakeStep::TryReadMessage2(_) => pattern == NoisePattern::Ik,
            _ => pattern == NoisePattern::Xk,
        }
    }
}

impl HandshakeModel {
    /// Taking a step: its error, if it fails, and the handshake afterwards.
    pub open spec fn take(self, step: HandshakeStep) -> (Option<NoiseErrorView>, HandshakeModel) {
        match step {
            HandshakeStep::SetLocalEpoch(epoch) => (
                None,
                HandshakeModel { local_epoch: Some(epoch), ..self },
            ),
            HandshakeStep::WriteMessage1(e) => {
                let (outcome, after) = self.write_message_1(e);
                (error_of(outcome), after)
            },
            HandshakeStep::ReadMessage1(message) => {
                let (outcome, after) = self.read_message_1(message);
                (error_of(outcome), after)
            },
            HandshakeStep::WriteMessage2(e) => {
                let (outcome, after) = self.write_message_2(e);
                (error_of(outcome), after)
            },
            HandshakeStep::ReadMessage2(message) => {
                let (outcome, after) = self.read_message_2(message);
                (error_of(outcome), after)
            },
            HandshakeStep::TryReadMessage2(message) => {
                let (outcome, after) = self.or_unchanged(self.read_message_2(message));
                (error_of(outcome), after)
            },
            HandshakeStep::WriteXkMessage1(e) => {
                let (outcome, after) = self.write_xk_message_1(e);
                (error_of(outcome), after)
            },
            HandshakeStep::ReadXkMessage1(message) => {
                let (outcome, after) = self.read_xk_message_1(message);
                (error_of(outcome), after)
            },
            HandshakeStep::WriteXkMessage2(e) => {
                let (outcome, after) = self.write_xk_message_2(e);
                (error_of(outcome), after)
            },
            HandshakeStep::ReadXkMessage2(message) => {
                let (outcome, after) = self.read_xk_message_2(message);
                (error_of(outcome), after)
            },
            HandshakeStep::TryReadXkMessage2(message) => {
                let (outcome, after) = self.or_unchanged(self.read_xk_message_2(message));
                (error_of(outcome), after)
            },
            HandshakeStep::WriteXkMessage3 => {
                let (outcome, after) = self.write_xk_message_3();
                (error_of(outcome), after)
            },
            HandshakeStep::ReadXkMessage3(message) => {
                let (outcome, after) = self.read_xk_message_3(message);
                (error_of(outcome), after)
            },
        }
    }

    /// The handshake after a number of steps, whether they failed or not.
    pub open spec fn after_steps(self, steps: Seq<HandshakeStep>) -> HandshakeModel
        decreases steps.len(),
    {
        if steps.len() == 0 {
            self
        } else {
            self.after_steps(steps.drop_last()).take(steps.last()).1
        }
    }

    /// What a handshake satisfies that has only been taken through steps of
    /// its own pattern: it knows of its peer what the messages read so far
    /// have told, and in particular all of it once it is complete.
    pub open spec fn on_pattern(self) -> bool {
        &&& self.role == HandshakeRole::Initiator ==> self.remote_static is Some
        &&& self.progress == HandshakeProgress::Complete ==> {
            &&& self.remote_static is Some
            &&& self.remote_epoch is Some
        }
        &&& match (self.pattern, self.role) {
            (NoisePattern::Ik, HandshakeRole::Initiator) => self.progress
                != HandshakeProgress::Message2Done,
            (NoisePattern::Ik, HandshakeRole::Responder) => {
                &&& self.progress != HandshakeProgress::Message2Done
                &&& self.progress != HandshakeProgress::Initial ==> {
                    &&& self.remote_static is Some
                    &&& self.remote_epoch is Some
                }
            },
            (NoisePattern::Xk, HandshakeRole::Initiator) => self.progress
                == HandshakeProgress::Message2Done ==> self.remote_epoch is Some,
            (NoisePattern::Xk, HandshakeRole::Responder) => true,
        }
    }
}

/// `true` or `false`.
pub open spec fn bool_text(value: bool) -> Seq<char> {
    if value {
        "true"@
    } else {
        "false"@
    }
}

impl HandshakeModel {
    /// The handshake's description.
    pub open spec fn debug_text(self) -> Seq<char> {
        "HandshakeState { pattern: "@ + self.pattern.debug_text() + ", role: "@
            + self.role.debug_text() + ", progress: "@ + self.progress.debug_text()
            + ", has_ephemeral: "@ + bool_text(self.ephemeral is Some) + ", has_remote_static: "@
            + bool_text(self.remote_static is Some) + ", has_remote_ephemeral: "@ + bool_text(
            self.remote_ephemeral is Some,
        ) + ", has_local_epoch: "@ + bool_text(self.local_epoch is Some) + ", has_remote_epoch: "@
            + bool_text(self.remote_epoch is Some) + " }"@
    }
}

/// Whether the session of an initiator fits that of a responder: what one
/// sends the other receives, under one key from one nonce, and both hold one
/// transcript hash.
pub open spec fn sessions_fit(initiator: SessionModel, responder: SessionModel) -> bool {
    &&& initiator.role == HandshakeRole::Initiator
    &&& responder.role == HandshakeRole::Responder
    &&& initiator.send == responder.recv
    &&& initiator.recv == responder.send
    &&& initiator.handshake_hash == responder.handshake_hash
}

/// Whether two handshakes are the two ends of one: they stand at the same
/// stage with the same symmetric state, and hold of each other what has been
/// exchanged. The initiator may have the responder's static key with the
/// wrong parity.
pub open spec fn in_step(initiator: HandshakeModel, responder: HandshakeModel) -> bool {
    &&& initiator.role == HandshakeRole::Initiator
    &&& responder.role == HandshakeRole::Responder
    &&& initiator.progress == responder.progress
    &&& initiator.symmetric == responder.symmetric
    &&& crypto::is_secret_key(initiator.static_secret)
    &&& crypto::is_secret_key(responder.static_secret)
    &&& initiator.remote_static matches Some(key) && {
        &&& crypto::is_public_key(key)
        &&& crypto::x_only(key) == crypto::x_only(
            crypto::public_key_of(responder.static_secret),
        )
    }
    &&& responder.remote_static matches Some(key) ==> key == crypto::public_key_of(
        initiator.static_secret,
    )
    &&& knows_ephemeral(responder.remote_ephemeral, initiator.ephemeral)
    &&& knows_ephemeral(initiator.remote_ephemeral, responder.ephemeral)
    &&& initiator.progress != HandshakeProgress::Initial ==> initiator.ephemeral is Some
    &&& initiator.progress == HandshakeProgress::Message2Done ==> responder.ephemeral is Some
}

/// Whether `known` is the public half of `secret`, or both are still to come.
pub open spec fn knows_ephemeral(known: Option<Seq<u8>>, secret: Option<Seq<u8>>) -> bool {
    match (known, secret) {
        (None, None) => true,
        (Some(key), Some(secret)) => {
            &&& crypto::is_secret_key(secret)
            &&& crypto::is_public_key(key)
            &&& key == crypto::public_key_of(secret)
        },
        _ => false,
    }
}

/// Whether every responder in step with `before` reads `message` as IK
/// message 1, learns the initiator's static key and epoch from it, and is in
/// step with `after`.
pub open spec fn message_1_is_read(
    before: HandshakeModel,
    message: Seq<u8>,
    after: HandshakeModel,
) -> bool {
    forall|peer: HandshakeModel| #[trigger]
        in_step(before, peer) ==> {
            let (outcome, peer_after) = peer.read_message_1(message);
            &&& outcome is Ok
            &&& in_step(after, peer_after)
            &&& peer_after.remote_static == Some(
                crypto::public_key_of(before.static_secret),
            )
            &&& peer_after.remote_epoch == before.local_epoch
        }
}

/// Whether every initiator in step with `before` reads `message` as IK
/// message 2, learns the responder's epoch from it, and is in step with
/// `after`.
pub open spec fn message_2_is_read(
    before: HandshakeModel,
    message: Seq<u8>,
    after: HandshakeModel,
) -> bool {
    forall|peer: HandshakeModel| #[trigger]
        in_step(peer, before) ==> {
            let (outcome, peer_after) = peer.read_message_2(message);
            &&& outcome is Ok
            &&& in_step(peer_after, after)
            &&& peer_after.remote_epoch == before.local_epoch
        }
}

/// Whether every responder in step with `before` reads `message` as XK
/// message 1 and is in step with `after`.
pub open spec fn xk_message_1_is_read(
    before: HandshakeModel,
    message: Seq<u8>,
    after: HandshakeModel,
) -> bool {
    forall|peer: HandshakeModel| #[trigger]
        in_step(before, peer) ==> {
            let (outcome, peer_after) = peer.read_xk_message_1(message);
            &&& outcome is Ok
            &&& in_step(after, peer_after)
        }
}

/// Whether every initiator in step with `before` reads `message` as XK
/// message 2, learns the responder's epoch from it, and is in step with
/// `after`.
pub open spec fn xk_message_2_is_read(
    before: HandshakeModel,
    message: Seq<u8>,
    after: HandshakeModel,
) -> bool {
    forall|peer: HandshakeModel| #[trigger]
        in_step(peer, before) ==> {
            let (outcome, peer_after) = peer.read_xk_message_2(message);
            &&& outcome is Ok
            &&& in_step(peer_after, after)
            &&& peer_after.remote_epoch == before.local_epoch
        }
}

/// Whether every responder in step with `before` reads `message` as XK
/// message 3, learns the initiator's static key and epoch from it, and is in
/// step with `after`.
pub open spec fn xk_message_3_is_read(
    before: HandshakeModel,
    message: Seq<u8>,
    after: HandshakeModel,
) -> bool {
    forall|peer: HandshakeModel| #[trigger]
        in_step(before, peer) ==> {
            let (outcome, peer_after) = peer.read_xk_message_3(message);
            &&& outcome is Ok
            &&& in_step(after, peer_after)
            &&& peer_after.remote_static == Some(
                crypto::public_key_of(before.static_secret),
            )
            &&& peer_after.remote_epoch == before.local_epoch
        }
}

} // verus!
