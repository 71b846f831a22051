//! Handshake state machine for the IK and XK patterns.

use vstd::prelude::*;

use crate::noise::crypto;
use crate::noise::crypto::{erase, random_bytes, sha256, shared_secret_point};
use crate::noise::error;
use crate::noise::error::NoiseError;
use crate::noise::keys::{Keypair, PublicKey};
use crate::noise::laws;
use crate::noise::model;
use crate::noise::model::HandshakeModel;
use crate::noise::session::NoiseSession;
use crate::noise::symmetric::SymmetricState;
use crate::noise::{
    HandshakeProgress, HandshakeRole, NoisePattern, EPOCH_SIZE, HANDSHAKE_MSG1_SIZE,
    HANDSHAKE_MSG2_SIZE, PROTOCOL_NAME_IK, PROTOCOL_NAME_XK, PUBKEY_ENCRYPTED_SIZE, PUBKEY_SIZE,
    XK_HANDSHAKE_MSG1_SIZE, XK_HANDSHAKE_MSG2_SIZE, XK_HANDSHAKE_MSG3_SIZE,
};

verus! {

broadcast use vstd::array::group_array_axioms;

/// A handshake in progress, at one of its two ends.
///
/// Both private keys it holds are erased on drop. That clears the copies held
/// here, not every copy the compiler may have made.
pub struct HandshakeState {
    /// Which pattern is being run.
    pattern: NoisePattern,
    /// Which end this is.
    role: HandshakeRole,
    /// How far the handshake has come.
    progress: HandshakeProgress,
    /// Chaining key, transcript hash and cipher.
    symmetric: SymmetricState,
    /// This node's long-term keypair.
    static_keypair: Keypair,
    /// The keypair of this handshake alone, once there is one.
    ephemeral_keypair: Option<Keypair>,
    /// The peer's static key: known from the start to an initiator, learned
    /// from IK message 1 or XK message 3 by a responder.
    remote_static: Option<PublicKey>,
    /// The peer's ephemeral key, once it has been read.
    remote_ephemeral: Option<PublicKey>,
    /// This node's startup epoch, by which a peer sees a restart.
    local_epoch: Option<[u8; 8]>,
    /// The peer's startup epoch, once it has been read.
    remote_epoch: Option<[u8; 8]>,
}

/// The bytes of a key, if there is one.
pub open spec fn key_bytes(key: Option<PublicKey>) -> Option<Seq<u8>> {
    match key {
        Some(key) => Some(key@),
        None => None,
    }
}

/// The bytes of a secret, if there is one.
pub open spec fn secret_bytes(pair: Option<Keypair>) -> Option<Seq<u8>> {
    match pair {
        Some(pair) => Some(pair@),
        None => None,
    }
}

/// The bytes of an epoch, if there is one.
pub open spec fn epoch_bytes(epoch: Option<[u8; 8]>) -> Option<Seq<u8>> {
    match epoch {
        Some(epoch) => Some(epoch@),
        None => None,
    }
}

impl View for HandshakeState {
    type V = HandshakeModel;

    closed spec fn view(&self) -> HandshakeModel {
        HandshakeModel {
            pattern: self.pattern,
            role: self.role,
            progress: self.progress,
            symmetric: self.symmetric@,
            static_secret: self.static_keypair@,
            ephemeral: secret_bytes(self.ephemeral_keypair),
            remote_static: key_bytes(self.remote_static),
            remote_ephemeral: key_bytes(self.remote_ephemeral),
            local_epoch: epoch_bytes(self.local_epoch),
            remote_epoch: epoch_bytes(self.remote_epoch),
        }
    }
}

impl Drop for HandshakeState {
    /// Erases the two private keys.
    fn drop(&mut self)
        ensures
            final(self)@.static_secret == Seq::new(32, |i: int| 0u8),
            old(self)@.ephemeral is Some ==> final(self)@.ephemeral == Some(
                Seq::new(32, |i: int| 0u8),
            ),
        opens_invariants none
        no_unwind
    {
        self.static_keypair.erase();
        match &mut self.ephemeral_keypair {
            Some(ephemeral) => {
                ephemeral.erase();
            },
            None => {},
        }
    }
}

/// Mixes the exchange of `pair` with `public` into the key.
fn mix_exchange(symmetric: &mut SymmetricState, pair: &Keypair, public: &PublicKey)
    requires
        pair.wf(),
        public.wf(),
    ensures
        final(symmetric)@ == old(symmetric)@.mix_key(model::dh(pair@, public@)),
        crypto::exchange_agrees(pair@, public@),
{
    let mut secret = HandshakeState::ecdh(pair, public);
    symmetric.mix_key(&secret);
    erase(&mut secret);
}

/// `true` or `false`.
fn bool_name(value: bool) -> (name: &'static str)
    ensures
        name@ == model::bool_text(value),
{
    if value {
        "true"
    } else {
        "false"
    }
}

/// Copies `bytes` into an epoch.
fn to_epoch(bytes: &[u8]) -> (epoch: [u8; 8])
    requires
        bytes@.len() == EPOCH_SIZE,
    ensures
        epoch@ == bytes@,
{
    let mut epoch: [u8; 8] = [0u8; 8];
    let mut i: usize = 0;
    while i < EPOCH_SIZE
        invariant
            i <= EPOCH_SIZE,
            bytes@.len() == EPOCH_SIZE,
            forall|j: int| 0 <= j < i ==> epoch@[j] == bytes@[j],
        decreases EPOCH_SIZE - i,
    {
        epoch[i] = bytes[i];
        i += 1;
    }
    assert(epoch@ =~= bytes@);
    epoch
}

impl HandshakeState {
    /// What every handshake made here satisfies.
    pub open spec fn wf(&self) -> bool {
        self@.wf()
    }

    /// A public key with its parity byte forced to even.
    ///
    /// The responder's static key is hashed before any message is sent. An
    /// initiator may know that key by its first coordinate alone, so both
    /// ends hash it with the parity dropped.
    pub fn normalize_for_premessage(pubkey: &PublicKey) -> (bytes: [u8; 33])
        requires
            pubkey.wf(),
        ensures
            bytes@ == model::normalized(pubkey@),
    {
        let mut bytes = pubkey.serialize();
        bytes[0] = 0x02;
        bytes
    }

    /// A handshake that has not begun.
    fn start(
        pattern: NoisePattern,
        role: HandshakeRole,
        static_keypair: &Keypair,
        remote_static: Option<PublicKey>,
        responder_static: &PublicKey,
    ) -> (state: HandshakeState)
        requires
            responder_static.wf(),
        ensures
            state@ == HandshakeModel::start(
                pattern,
                role,
                static_keypair@,
                key_bytes(remote_static),
                responder_static@,
            ),
    {
        let protocol_name = match pattern {
            NoisePattern::Ik => PROTOCOL_NAME_IK,
            NoisePattern::Xk => PROTOCOL_NAME_XK,
        };
        let mut state = HandshakeState {
            pattern,
            role,
            progress: HandshakeProgress::Initial,
            symmetric: SymmetricState::initialize(protocol_name.as_bytes()),
            static_keypair: *static_keypair,
            ephemeral_keypair: None,
            remote_static,
            remote_ephemeral: None,
            local_epoch: None,
            remote_epoch: None,
        };
        let normalized = Self::normalize_for_premessage(responder_static);
        state.symmetric.mix_hash(&normalized);
        state
    }

    /// Starts an IK handshake as the initiator, which knows the responder's
    /// static key and sends first.
    pub fn new_initiator(mut static_keypair: Keypair, remote_static: PublicKey) -> (state:
        HandshakeState)
        requires
            static_keypair.wf(),
            remote_static.wf(),
        ensures
            state.wf(),
            state@.on_pattern(),
            state@ == HandshakeModel::initiator(
                NoisePattern::Ik,
                static_keypair@,
                remote_static@,
            ),
    {
        let state = Self::start(
            NoisePattern::Ik,
            HandshakeRole::Initiator,
            &static_keypair,
            Some(remote_static),
            &remote_static,
        );
        static_keypair.erase();
        state
    }

    /// Starts an IK handshake as the responder, which learns the initiator's
    /// static key from message 1.
    pub fn new_responder(mut static_keypair: Keypair) -> (state: HandshakeState)
        requires
            static_keypair.wf(),
        ensures
            state.wf(),
            state@.on_pattern(),
            state@ == HandshakeModel::responder(NoisePattern::Ik, static_keypair@),
            forall|initiator_secret: Seq<u8>, responder_static: Seq<u8>|
                crypto::is_secret_key(initiator_secret) && crypto::is_public_key(responder_static)
                    && crypto::x_only(responder_static) == crypto::x_only(static_keypair.public())
                    ==> model::in_step(
                    #[trigger] HandshakeModel::initiator(
                        NoisePattern::Ik,
                        initiator_secret,
                        responder_static,
                    ),
                    state@,
                ),
    {
        let ghost secret = static_keypair@;
        let public = static_keypair.public_key();
        let state = Self::start(
            NoisePattern::Ik,
            HandshakeRole::Responder,
            &static_keypair,
            None,
            &public,
        );
        static_keypair.erase();
        proof {
            assert forall|initiator_secret: Seq<u8>, responder_static: Seq<u8>|
                crypto::is_secret_key(initiator_secret) && crypto::is_public_key(responder_static)
                    && crypto::x_only(responder_static) == crypto::x_only(
                    crypto::public_key_of(secret),
                ) implies model::in_step(
                #[trigger] HandshakeModel::initiator(
                    NoisePattern::Ik,
                    initiator_secret,
                    responder_static,
                ),
                state@,
            ) by {
                laws::law_fresh_ends_are_in_step(
                    NoisePattern::Ik,
                    initiator_secret,
                    secret,
                    responder_static,
                );
            }
        }
        state
    }

    /// Starts an XK handshake as the initiator, which knows the responder's
    /// static key and sends first.
    pub fn new_xk_initiator(mut static_keypair: Keypair, remote_static: PublicKey) -> (state:
        HandshakeState)
        requires
            static_keypair.wf(),
            remote_static.wf(),
        ensures
            state.wf(),
            state@.on_pattern(),
            state@ == HandshakeModel::initiator(
                NoisePattern::Xk,
                static_keypair@,
                remote_static@,
            ),
    {
        let state = Self::start(
            NoisePattern::Xk,
            HandshakeRole::Initiator,
            &static_keypair,
            Some(remote_static),
            &remote_static,
        );
        static_keypair.erase();
        state
    }

    /// Starts an XK handshake as the responder, which learns the initiator's
    /// static key from message 3.
    pub fn new_xk_responder(mut static_keypair: Keypair) -> (state: HandshakeState)
        requires
            static_keypair.wf(),
        ensures
            state.wf(),
            state@.on_pattern(),
            state@ == HandshakeModel::responder(NoisePattern::Xk, static_keypair@),
            forall|initiator_secret: Seq<u8>, responder_static: Seq<u8>|
                crypto::is_secret_key(initiator_secret) && crypto::is_public_key(responder_static)
                    && crypto::x_only(responder_static) == crypto::x_only(static_keypair.public())
                    ==> model::in_step(
                    #[trigger] HandshakeModel::initiator(
                        NoisePattern::Xk,
                        initiator_secret,
                        responder_static,
                    ),
                    state@,
                ),
    {
        let ghost secret = static_keypair@;
        let public = static_keypair.public_key();
        let state = Self::start(
            NoisePattern::Xk,
            HandshakeRole::Responder,
            &static_keypair,
            None,
            &public,
        );
        static_keypair.erase();
        proof {
            assert forall|initiator_secret: Seq<u8>, responder_static: Seq<u8>|
                crypto::is_secret_key(initiator_secret) && crypto::is_public_key(responder_static)
                    && crypto::x_only(responder_static) == crypto::x_only(
                    crypto::public_key_of(secret),
                ) implies model::in_step(
                #[trigger] HandshakeModel::initiator(
                    NoisePattern::Xk,
                    initiator_secret,
                    responder_static,
                ),
                state@,
            ) by {
                laws::law_fresh_ends_are_in_step(
                    NoisePattern::Xk,
                    initiator_secret,
                    secret,
                    responder_static,
                );
            }
        }
        state
    }

    /// The secret shared between the holder of `our_secret` and the holder of
    /// `their_public`.
    ///
    /// Only the first coordinate of the shared point is hashed, so the secret
    /// does not depend on the parity of either key.
    pub fn ecdh(our_secret: &Keypair, their_public: &PublicKey) -> (secret: [u8; 32])
        requires
            our_secret.wf(),
            their_public.wf(),
        ensures
            secret@ == model::dh(our_secret@, their_public@),
            secret@ == crypto::sha256_digest(
                crypto::shared_point(their_public@, our_secret@).subrange(0, 32),
            ),
            crypto::exchange_agrees(our_secret@, their_public@),
    {
        let mut point = shared_secret_point(their_public.as_bytes(), our_secret.secret_bytes());
        let coordinates: &[u8] = &point;
        let empty: [u8; 0] = [];
        assert(point@.subrange(0, 32) + empty@ =~= point@.subrange(0, 32));
        let secret = sha256(&coordinates[0..32], &empty);
        erase(&mut point);
        secret
    }

    /// Makes `secret_bytes` this handshake's ephemeral secret, and hands out a
    /// copy of the keypair.
    fn generate_ephemeral(&mut self, secret_bytes: &[u8; 32]) -> (result: Result<
        Keypair,
        NoiseError,
    >)
        ensures
            match result {
                Ok(pair) => {
                    &&& pair.wf()
                    &&& pair@ == secret_bytes@
                    &&& final(self)@ == (HandshakeModel {
                        ephemeral: Some(secret_bytes@),
                        ..old(self)@
                    })
                },
                Err(error) => {
                    &&& error == NoiseError::InvalidSecretKey
                    &&& !crypto::is_secret_key(secret_bytes@)
                    &&& final(self)@ == old(self)@
                },
            },
    {
        match Keypair::from_secret_bytes(secret_bytes) {
            Ok(pair) => {
                self.ephemeral_keypair = Some(pair);
                Ok(pair)
            },
            Err(error) => Err(error),
        }
    }

    /// The error for a step that does not fit the role or the stage.
    fn refusal(&self, role: HandshakeRole, progress: HandshakeProgress) -> (refusal: Option<
        NoiseError,
    >)
        ensures
            match refusal {
                Some(error) => self@.refusal(role, progress) == Some(error@),
                None => self@.refusal(role, progress) is None,
            },
    {
        if self.role != role {
            return Some(
                NoiseError::WrongState { expected: role.to_string(), got: self.role.to_string() },
            );
        }
        if self.progress != progress {
            return Some(
                NoiseError::WrongState {
                    expected: progress.to_string(),
                    got: self.progress.to_string(),
                },
            );
        }
        None
    }

    /// The error for a message that does not fit the role or the stage, or
    /// has the wrong length.
    fn read_refusal(
        &self,
        role: HandshakeRole,
        progress: HandshakeProgress,
        expected: usize,
        got: usize,
    ) -> (refusal: Option<NoiseError>)
        ensures
            match refusal {
                Some(error) => self@.read_refusal(role, progress, expected as nat, got as nat)
                    == Some(error@),
                None => self@.read_refusal(role, progress, expected as nat, got as nat) is None,
            },
    {
        match self.refusal(role, progress) {
            Some(error) => Some(error),
            None => if got != expected {
                Some(NoiseError::MessageTooShort { expected, got })
            } else {
                None
            },
        }
    }

    /// Decrypts the peer's static key.
    fn read_static(&mut self, ciphertext: &[u8]) -> (result: Result<PublicKey, NoiseError>)
        ensures
            match result {
                Ok(key) => {
                    &&& key.wf()
                    &&& old(self)@.read_static(ciphertext@) == (
                        Ok::<Seq<u8>, error::NoiseErrorView>(key@),
                        final(self)@,
                    )
                },
                Err(error) => old(self)@.read_static(ciphertext@) == (
                    Err::<Seq<u8>, error::NoiseErrorView>(error@),
                    final(self)@,
                ),
            },
    {
        let decrypted = match self.symmetric.decrypt_and_hash(ciphertext) {
            Ok(decrypted) => decrypted,
            Err(error) => {
                return Err(error);
            },
        };
        match PublicKey::from_slice(&decrypted) {
            Ok(key) => {
                self.remote_static = Some(key);
                Ok(key)
            },
            Err(error) => Err(error),
        }
    }

    /// Decrypts the peer's epoch and moves on to `progress`.
    fn read_epoch(&mut self, ciphertext: &[u8], progress: HandshakeProgress) -> (result: Result<
        (),
        NoiseError,
    >)
        requires
            ciphertext@.len() == 24,
            old(self)@.symmetric.cipher.key is Some,
        ensures
            (error::unit_outcome(result), final(self)@) == old(self)@.read_epoch(
                ciphertext@,
                progress,
            ),
            final(self)@.remote_epoch matches Some(epoch) ==> epoch.len() == 8,
            result is Ok ==> final(self)@.symmetric.cipher == old(
                self,
            )@.symmetric.cipher.advanced(),
    {
        let decrypted = match self.symmetric.decrypt_and_hash(ciphertext) {
            Ok(decrypted) => decrypted,
            Err(error) => {
                return Err(error);
            },
        };
        self.remote_epoch = Some(to_epoch(&decrypted));
        self.progress = progress;
        Ok(())
    }

    /// Writes IK message 1: ephemeral key, encrypted static key, encrypted
    /// epoch.
    ///
    /// Fails with `InvalidSecretKey`, and changes nothing, in the all but
    /// impossible event that the random bytes drawn for the ephemeral key are
    /// not a secret key.
    pub fn write_message_1(&mut self) -> (result: Result<Vec<u8>, NoiseError>)
        requires
            old(self).wf(),
            old(self)@.refusal(HandshakeRole::Initiator, HandshakeProgress::Initial) is None
                ==> old(self)@.local_epoch is Some,
        ensures
            final(self).wf(),
            old(self)@.on_pattern() && old(self)@.pattern == NoisePattern::Ik
                ==> final(self)@.on_pattern(),
            exists|e: Seq<u8>| #[trigger]
                old(self)@.write_message_1(e) == (error::bytes_outcome(result), final(self)@),
            result matches Ok(message) ==> {
                &&& message@.len() == HANDSHAKE_MSG1_SIZE
                &&& final(self)@.ephemeral is Some
                &&& crypto::is_public_key(message@.subrange(0, 33))
                &&& message@.subrange(0, 33) == crypto::public_key_of(
                    final(self)@.ephemeral->Some_0,
                )
                &&& message@.subrange(33, 82) == old(self)@.after_es(
                    final(self)@.ephemeral->Some_0,
                ).sealed(crypto::public_key_of(old(self)@.static_secret))
                &&& message@.subrange(82, 106) == old(self)@.after_ss(
                    final(self)@.ephemeral->Some_0,
                ).sealed(old(self)@.local_epoch->Some_0)
                &&& model::message_1_is_read(old(self)@, message@, final(self)@)
            },
    {
        if let Some(error) = self.refusal(
            HandshakeRole::Initiator,
            HandshakeProgress::Initial,
        ) {
            let result = Err(error);
            assert(old(self)@.write_message_1(Seq::empty()) == (error::bytes_outcome(result), self@));
            return result;
        }
        let mut secret = random_bytes();
        let result = self.write_message_1_with(&secret);
        assert(old(self)@.write_message_1(secret@) == (error::bytes_outcome(result), self@));
        erase(&mut secret);
        result
    }

    /// Writes IK message 1 with a given ephemeral secret.
    pub fn write_message_1_with(&mut self, ephemeral_secret: &[u8; 32]) -> (result: Result<
        Vec<u8>,
        NoiseError,
    >)
        requires
            old(self).wf(),
            old(self)@.refusal(HandshakeRole::Initiator, HandshakeProgress::Initial) is None
                ==> old(self)@.local_epoch is Some,
        ensures
            final(self).wf(),
            old(self)@.on_pattern() && old(self)@.pattern == NoisePattern::Ik
                ==> final(self)@.on_pattern(),
            (error::bytes_outcome(result), final(self)@) == old(self)@.write_message_1(
                ephemeral_secret@,
            ),
            result matches Ok(message) ==> {
                &&& message@.len() == HANDSHAKE_MSG1_SIZE
                &&& final(self)@.ephemeral is Some
                &&& crypto::is_public_key(message@.subrange(0, 33))
                &&& message@.subrange(0, 33) == crypto::public_key_of(
                    final(self)@.ephemeral->Some_0,
                )
                &&& message@.subrange(33, 82) == old(self)@.after_es(
                    final(self)@.ephemeral->Some_0,
                ).sealed(crypto::public_key_of(old(self)@.static_secret))
                &&& message@.subrange(82, 106) == old(self)@.after_ss(
                    final(self)@.ephemeral->Some_0,
                ).sealed(old(self)@.local_epoch->Some_0)
                &&& model::message_1_is_read(old(self)@, message@, final(self)@)
            },
    {
        if let Some(error) = self.refusal(HandshakeRole::Initiator, HandshakeProgress::Initial) {
            return Err(error);
        }
        let remote_static = self.remote_static.unwrap();
        let epoch = self.local_epoch.unwrap();
        let mut ephemeral = match self.generate_ephemeral(ephemeral_secret) {
            Ok(pair) => pair,
            Err(error) => {
                return Err(error);
            },
        };
        let e_pub = ephemeral.public_key();
        let mut message: Vec<u8> = Vec::with_capacity(HANDSHAKE_MSG1_SIZE);

        // e
        message.extend_from_slice(e_pub.as_bytes());
        self.symmetric.mix_hash(e_pub.as_bytes());

        // es
        mix_exchange(&mut self.symmetric, &ephemeral, &remote_static);
        ephemeral.erase();
        let ghost es = self.symmetric@;

        // s
        let s_pub = self.static_keypair.public_key();
        let encrypted_static = match self.symmetric.encrypt_and_hash(s_pub.as_bytes()) {
            Ok(ciphertext) => ciphertext,
            Err(error) => {
                return Err(error);
            },
        };
        message.extend_from_slice(&encrypted_static);

        // ss
        mix_exchange(&mut self.symmetric, &self.static_keypair, &remote_static);
        let ghost ss = self.symmetric@;

        // epoch
        let encrypted_epoch = match self.symmetric.encrypt_and_hash(&epoch) {
            Ok(ciphertext) => ciphertext,
            Err(error) => {
                return Err(error);
            },
        };
        message.extend_from_slice(&encrypted_epoch);

        self.progress = HandshakeProgress::Message1Done;
        proof {
            assert(message@ =~= e_pub@ + es.sealed(s_pub@) + ss.sealed(epoch@));
            assert(message@.subrange(0, 33) =~= e_pub@);
            assert(message@.subrange(33, 82) =~= es.sealed(s_pub@));
            assert(message@.subrange(82, 106) =~= ss.sealed(epoch@));
            laws::law_message_1_is_read(old(self)@, ephemeral_secret@);
        }
        Ok(message)
    }

    /// Reads IK message 1 and learns the initiator's static key and epoch.
    pub fn read_message_1(&mut self, message: &[u8]) -> (result: Result<(), NoiseError>)
        requires
            old(self).wf(),
        ensures
            final(self).wf(),
            old(self)@.on_pattern() && old(self)@.pattern == NoisePattern::Ik
                ==> final(self)@.on_pattern(),
            (error::unit_outcome(result), final(self)@) == old(self)@.read_message_1(message@),
    {
        if let Some(error) = self.read_refusal(
            HandshakeRole::Responder,
            HandshakeProgress::Initial,
            HANDSHAKE_MSG1_SIZE,
            message.len(),
        ) {
            return Err(error);
        }

        // e
        let re = match PublicKey::from_slice(&message[0..PUBKEY_SIZE]) {
            Ok(key) => key,
            Err(error) => {
                return Err(error);
            },
        };
        self.remote_ephemeral = Some(re);
        self.symmetric.mix_hash(re.as_bytes());

        // es
        mix_exchange(&mut self.symmetric, &self.static_keypair, &re);

        // s
        let static_end: usize = PUBKEY_SIZE + PUBKEY_ENCRYPTED_SIZE;
        let rs = match self.read_static(&message[PUBKEY_SIZE..static_end]) {
            Ok(key) => key,
            Err(error) => {
                return Err(error);
            },
        };

        // ss
        mix_exchange(&mut self.symmetric, &self.static_keypair, &rs);

        // epoch
        self.read_epoch(&message[static_end..message.len()], HandshakeProgress::Message1Done)
    }

    /// Writes IK message 2: ephemeral key, encrypted epoch. The handshake is
    /// then complete.
    ///
    /// Fails with `InvalidSecretKey`, and changes nothing, in the all but
    /// impossible event that the random bytes drawn for the ephemeral key are
    /// not a secret key.
    pub fn write_message_2(&mut self) -> (result: Result<Vec<u8>, NoiseError>)
        requires
            old(self).wf(),
            old(self)@.refusal(HandshakeRole::Responder, HandshakeProgress::Message1Done) is None
                ==> old(self)@.local_epoch is Some,
        ensures
            final(self).wf(),
            old(self)@.on_pattern() && old(self)@.pattern == NoisePattern::Ik
                ==> final(self)@.on_pattern(),
            exists|e: Seq<u8>| #[trigger]
                old(self)@.write_message_2(e) == (error::bytes_outcome(result), final(self)@),
            result matches Ok(message) ==> {
                &&& message@.len() == HANDSHAKE_MSG2_SIZE
                &&& final(self)@.ephemeral is Some
                &&& crypto::is_public_key(message@.subrange(0, 33))
                &&& message@.subrange(0, 33) == crypto::public_key_of(
                    final(self)@.ephemeral->Some_0,
                )
                &&& message@.subrange(33, 57) == old(self)@.after_se(
                    final(self)@.ephemeral->Some_0,
                ).sealed(old(self)@.local_epoch->Some_0)
                &&& model::message_2_is_read(old(self)@, message@, final(self)@)
            },
    {
        if let Some(error) = self.refusal(
            HandshakeRole::Responder,
            HandshakeProgress::Message1Done,
        ) {
            let result = Err(error);
            assert(old(self)@.write_message_2(Seq::empty()) == (error::bytes_outcome(result), self@));
            return result;
        }
        let mut secret = random_bytes();
        let result = self.write_message_2_with(&secret);
        assert(old(self)@.write_message_2(secret@) == (error::bytes_outcome(result), self@));
        erase(&mut secret);
        result
    }

    /// Writes IK message 2 with a given ephemeral secret.
    pub fn write_message_2_with(&mut self, ephemeral_secret: &[u8; 32]) -> (result: Result<
        Vec<u8>,
        NoiseError,
    >)
        requires
            old(self).wf(),
            old(self)@.refusal(HandshakeRole::Responder, HandshakeProgress::Message1Done) is None
                ==> old(self)@.local_epoch is Some,
        ensures
            final(self).wf(),
            old(self)@.on_pattern() && old(self)@.pattern == NoisePattern::Ik
                ==> final(self)@.on_pattern(),
            (error::bytes_outcome(result), final(self)@) == old(self)@.write_message_2(
                ephemeral_secret@,
            ),
            result matches Ok(message) ==> {
                &&& message@.len() == HANDSHAKE_MSG2_SIZE
                &&& final(self)@.ephemeral is Some
                &&& crypto::is_public_key(message@.subrange(0, 33))
                &&& message@.subrange(0, 33) == crypto::public_key_of(
                    final(self)@.ephemeral->Some_0,
                )
                &&& message@.subrange(33, 57) == old(self)@.after_se(
                    final(self)@.ephemeral->Some_0,
                ).sealed(old(self)@.local_epoch->Some_0)
                &&& model::message_2_is_read(old(self)@, message@, final(self)@)
            },
    {
        if let Some(error) = self.refusal(HandshakeRole::Responder, HandshakeProgress::Message1Done) {
            return Err(error);
        }
        let re = self.remote_ephemeral.unwrap();
        let epoch = self.local_epoch.unwrap();
        let mut ephemeral = match self.generate_ephemeral(ephemeral_secret) {
            Ok(pair) => pair,
            Err(error) => {
                return Err(error);
            },
        };
        let e_pub = ephemeral.public_key();
        let mut message: Vec<u8> = Vec::with_capacity(HANDSHAKE_MSG2_SIZE);

        // e
        message.extend_from_slice(e_pub.as_bytes());
        self.symmetric.mix_hash(e_pub.as_bytes());

        // ee
        mix_exchange(&mut self.symmetric, &ephemeral, &re);
        ephemeral.erase();

        // se
        mix_exchange(&mut self.symmetric, &self.static_keypair, &re);
        let ghost se = self.symmetric@;

        // epoch
        let encrypted_epoch = match self.symmetric.encrypt_and_hash(&epoch) {
            Ok(ciphertext) => ciphertext,
            Err(error) => {
                return Err(error);
            },
        };
        message.extend_from_slice(&encrypted_epoch);

        self.progress = HandshakeProgress::Complete;
        proof {
            assert(message@ =~= e_pub@ + se.sealed(epoch@));
            assert(message@.subrange(0, 33) =~= e_pub@);
            assert(message@.subrange(33, 57) =~= se.sealed(epoch@));
            laws::law_message_2_is_read(old(self)@, ephemeral_secret@);
        }
        Ok(message)
    }

    /// Reads IK message 2 and learns the responder's epoch. The handshake is
    /// then complete.
    pub fn read_message_2(&mut self, message: &[u8]) -> (result: Result<(), NoiseError>)
        requires
            old(self).wf(),
        ensures
            final(self).wf(),
            old(self)@.on_pattern() && old(self)@.pattern == NoisePattern::Ik
                ==> final(self)@.on_pattern(),
            (error::unit_outcome(result), final(self)@) == old(self)@.read_message_2(message@),
    {
        if let Some(error) = self.read_refusal(
            HandshakeRole::Initiator,
            HandshakeProgress::Message1Done,
            HANDSHAKE_MSG2_SIZE,
            message.len(),
        ) {
            return Err(error);
        }
        let mut ephemeral = self.ephemeral_keypair.unwrap();
        let rs = self.remote_static.unwrap();

        // e
        let re = match PublicKey::from_slice(&message[0..PUBKEY_SIZE]) {
            Ok(key) => key,
            Err(error) => {
                ephemeral.erase();
                return Err(error);
            },
        };
        self.remote_ephemeral = Some(re);
        self.symmetric.mix_hash(re.as_bytes());

        // ee
        mix_exchange(&mut self.symmetric, &ephemeral, &re);

        // se
        mix_exchange(&mut self.symmetric, &ephemeral, &rs);
        ephemeral.erase();

        // epoch
        self.read_epoch(&message[PUBKEY_SIZE..message.len()], HandshakeProgress::Complete)
    }

    /// Reads IK message 2, and leaves the handshake untouched when the
    /// message does not authenticate.
    ///
    /// [`Self::read_message_2`] mixes the sender's ephemeral key in before it
    /// authenticates the epoch, so a failed read there leaves a handshake that
    /// can never read the genuine message. A caller for whom the message may
    /// be a forgery needs the state from before the read.
    pub fn try_read_message_2(&mut self, message: &[u8]) -> (result: Result<(), NoiseError>)
        requires
            old(self).wf(),
        ensures
            final(self).wf(),
            old(self)@.on_pattern() && old(self)@.pattern == NoisePattern::Ik
                ==> final(self)@.on_pattern(),
            (error::unit_outcome(result), final(self)@) == old(self)@.or_unchanged(
                old(self)@.read_message_2(message@),
            ),
            result is Err ==> final(self)@ == old(self)@,
    {
        let symmetric = self.symmetric.clone();
        let remote_ephemeral = self.remote_ephemeral;
        let remote_epoch = self.remote_epoch;
        let progress = self.progress;
        match self.read_message_2(message) {
            Ok(()) => Ok(()),
            Err(error) => {
                self.symmetric = symmetric;
                self.remote_ephemeral = remote_ephemeral;
                self.remote_epoch = remote_epoch;
                self.progress = progress;
                proof {
                    laws::law_reading_message_2_touches_four_fields(old(self)@, message@);
                }
                Err(error)
            },
        }
    }

    /// Writes XK message 1: the ephemeral key alone.
    ///
    /// Fails with `InvalidSecretKey`, and changes nothing, in the all but
    /// impossible event that the random bytes drawn for the ephemeral key are
    /// not a secret key.
    pub fn write_xk_message_1(&mut self) -> (result: Result<Vec<u8>, NoiseError>)
        requires
            old(self).wf(),
        ensures
            final(self).wf(),
            old(self)@.on_pattern() && old(self)@.pattern == NoisePattern::Xk
                ==> final(self)@.on_pattern(),
            exists|e: Seq<u8>| #[trigger]
                old(self)@.write_xk_message_1(e) == (error::bytes_outcome(result), final(self)@),
            result matches Ok(message) ==> {
                &&& message@.len() == XK_HANDSHAKE_MSG1_SIZE
                &&& final(self)@.ephemeral is Some
                &&& crypto::is_public_key(message@.subrange(0, 33))
                &&& message@.subrange(0, 33) == crypto::public_key_of(
                    final(self)@.ephemeral->Some_0,
                )
                &&& model::xk_message_1_is_read(old(self)@, message@, final(self)@)
            },
    {
        if let Some(error) = self.refusal(
            HandshakeRole::Initiator,
            HandshakeProgress::Initial,
        ) {
            let result = Err(error);
            assert(old(self)@.write_xk_message_1(Seq::empty()) == (error::bytes_outcome(result), self@));
            return result;
        }
        let mut secret = random_bytes();
        let result = self.write_xk_message_1_with(&secret);
        assert(old(self)@.write_xk_message_1(secret@) == (error::bytes_outcome(result), self@));
        erase(&mut secret);
        result
    }

    /// Writes XK message 1 with a given ephemeral secret.
    pub fn write_xk_message_1_with(&mut self, ephemeral_secret: &[u8; 32]) -> (result: Result<
        Vec<u8>,
        NoiseError,
    >)
        requires
            old(self).wf(),
        ensures
            final(self).wf(),
            old(self)@.on_pattern() && old(self)@.pattern == NoisePattern::Xk
                ==> final(self)@.on_pattern(),
            (error::bytes_outcome(result), final(self)@) == old(self)@.write_xk_message_1(
                ephemeral_secret@,
            ),
            result matches Ok(message) ==> {
                &&& message@.len() == XK_HANDSHAKE_MSG1_SIZE
                &&& final(self)@.ephemeral is Some
                &&& crypto::is_public_key(message@.subrange(0, 33))
                &&& message@.subrange(0, 33) == crypto::public_key_of(
                    final(self)@.ephemeral->Some_0,
                )
                &&& model::xk_message_1_is_read(old(self)@, message@, final(self)@)
            },
    {
        if let Some(error) = self.refusal(HandshakeRole::Initiator, HandshakeProgress::Initial) {
            return Err(error);
        }
        let remote_static = self.remote_static.unwrap();
        let mut ephemeral = match self.generate_ephemeral(ephemeral_secret) {
            Ok(pair) => pair,
            Err(error) => {
                return Err(error);
            },
        };
        let e_pub = ephemeral.public_key();
        let mut message: Vec<u8> = Vec::with_capacity(XK_HANDSHAKE_MSG1_SIZE);

        // e
        message.extend_from_slice(e_pub.as_bytes());
        self.symmetric.mix_hash(e_pub.as_bytes());

        // es
        mix_exchange(&mut self.symmetric, &ephemeral, &remote_static);
        ephemeral.erase();

        self.progress = HandshakeProgress::Message1Done;
        proof {
            assert(message@ =~= e_pub@);
            assert(message@.subrange(0, 33) =~= e_pub@);
            laws::law_xk_message_1_is_read(old(self)@, ephemeral_secret@);
        }
        Ok(message)
    }

    /// Reads XK message 1. The initiator stays unknown until message 3.
    pub fn read_xk_message_1(&mut self, message: &[u8]) -> (result: Result<(), NoiseError>)
        requires
            old(self).wf(),
        ensures
            final(self).wf(),
            old(self)@.on_pattern() && old(self)@.pattern == NoisePattern::Xk
                ==> final(self)@.on_pattern(),
            (error::unit_outcome(result), final(self)@) == old(self)@.read_xk_message_1(message@),
    {
        if let Some(error) = self.read_refusal(
            HandshakeRole::Responder,
            HandshakeProgress::Initial,
            XK_HANDSHAKE_MSG1_SIZE,
            message.len(),
        ) {
            return Err(error);
        }
        assert(message@.subrange(0, PUBKEY_SIZE as int) =~= message@);

        // e
        let re = match PublicKey::from_slice(&message[0..PUBKEY_SIZE]) {
            Ok(key) => key,
            Err(error) => {
                return Err(error);
            },
        };
        self.remote_ephemeral = Some(re);
        self.symmetric.mix_hash(re.as_bytes());

        // es
        mix_exchange(&mut self.symmetric, &self.static_keypair, &re);

        self.progress = HandshakeProgress::Message1Done;
        Ok(())
    }

    /// Writes XK message 2: ephemeral key, encrypted epoch.
    ///
    /// Fails with `InvalidSecretKey`, and changes nothing, in the all but
    /// impossible event that the random bytes drawn for the ephemeral key are
    /// not a secret key.
    pub fn write_xk_message_2(&mut self) -> (result: Result<Vec<u8>, NoiseError>)
        requires
            old(self).wf(),
            old(self)@.refusal(HandshakeRole::Responder, HandshakeProgress::Message1Done) is None
                ==> old(self)@.local_epoch is Some,
        ensures
            final(self).wf(),
            old(self)@.on_pattern() && old(self)@.pattern == NoisePattern::Xk
                ==> final(self)@.on_pattern(),
            exists|e: Seq<u8>| #[trigger]
                old(self)@.write_xk_message_2(e) == (error::bytes_outcome(result), final(self)@),
            result matches Ok(message) ==> {
                &&& message@.len() == XK_HANDSHAKE_MSG2_SIZE
                &&& final(self)@.ephemeral is Some
                &&& crypto::is_public_key(message@.subrange(0, 33))
                &&& message@.subrange(0, 33) == crypto::public_key_of(
                    final(self)@.ephemeral->Some_0,
                )
                &&& message@.subrange(33, 57) == old(self)@.after_ee(
                    final(self)@.ephemeral->Some_0,
                ).sealed(old(self)@.local_epoch->Some_0)
                &&& model::xk_message_2_is_read(old(self)@, message@, final(self)@)
            },
    {
        if let Some(error) = self.refusal(
            HandshakeRole::Responder,
            HandshakeProgress::Message1Done,
        ) {
            let result = Err(error);
            assert(old(self)@.write_xk_message_2(Seq::empty()) == (error::bytes_outcome(result), self@));
            return result;
        }
        let mut secret = random_bytes();
        let result = self.write_xk_message_2_with(&secret);
        assert(old(self)@.write_xk_message_2(secret@) == (error::bytes_outcome(result), self@));
        erase(&mut secret);
        result
    }

    /// Writes XK message 2 with a given ephemeral secret.
    pub fn write_xk_message_2_with(&mut self, ephemeral_secret: &[u8; 32]) -> (result: Result<
        Vec<u8>,
        NoiseError,
    >)
        requires
            old(self).wf(),
            old(self)@.refusal(HandshakeRole::Responder, HandshakeProgress::Message1Done) is None
                ==> old(self)@.local_epoch is Some,
        ensures
            final(self).wf(),
            old(self)@.on_pattern() && old(self)@.pattern == NoisePattern::Xk
                ==> final(self)@.on_pattern(),
            (error::bytes_outcome(result), final(self)@) == old(self)@.write_xk_message_2(
                ephemeral_secret@,
            ),
            result matches Ok(message) ==> {
                &&& message@.len() == XK_HANDSHAKE_MSG2_SIZE
                &&& final(self)@.ephemeral is Some
                &&& crypto::is_public_key(message@.subrange(0, 33))
                &&& message@.subrange(0, 33) == crypto::public_key_of(
                    final(self)@.ephemeral->Some_0,
                )
                &&& message@.subrange(33, 57) == old(self)@.after_ee(
                    final(self)@.ephemeral->Some_0,
                ).sealed(old(self)@.local_epoch->Some_0)
                &&& model::xk_message_2_is_read(old(self)@, message@, final(self)@)
            },
    {
        if let Some(error) = self.refusal(HandshakeRole::Responder, HandshakeProgress::Message1Done) {
            return Err(error);
        }
        let re = self.remote_ephemeral.unwrap();
        let epoch = self.local_epoch.unwrap();
        let mut ephemeral = match self.generate_ephemeral(ephemeral_secret) {
            Ok(pair) => pair,
            Err(error) => {
                return Err(error);
            },
        };
        let e_pub = ephemeral.public_key();
        let mut message: Vec<u8> = Vec::with_capacity(XK_HANDSHAKE_MSG2_SIZE);

        // e
        message.extend_from_slice(e_pub.as_bytes());
        self.symmetric.mix_hash(e_pub.as_bytes());

        // ee
        mix_exchange(&mut self.symmetric, &ephemeral, &re);
        ephemeral.erase();
        let ghost ee = self.symmetric@;

        // epoch
        let encrypted_epoch = match self.symmetric.encrypt_and_hash(&epoch) {
            Ok(ciphertext) => ciphertext,
            Err(error) => {
                return Err(error);
            },
        };
        message.extend_from_slice(&encrypted_epoch);

        self.progress = HandshakeProgress::Message2Done;
        proof {
            assert(message@ =~= e_pub@ + ee.sealed(epoch@));
            assert(message@.subrange(0, 33) =~= e_pub@);
            assert(message@.subrange(33, 57) =~= ee.sealed(epoch@));
            laws::law_xk_message_2_is_read(old(self)@, ephemeral_secret@);
        }
        Ok(message)
    }

    /// Reads XK message 2 and learns the responder's epoch. Message 3 is still
    /// to come.
    pub fn read_xk_message_2(&mut self, message: &[u8]) -> (result: Result<(), NoiseError>)
        requires
            old(self).wf(),
        ensures
            final(self).wf(),
            old(self)@.on_pattern() && old(self)@.pattern == NoisePattern::Xk
                ==> final(self)@.on_pattern(),
            (error::unit_outcome(result), final(self)@) == old(self)@.read_xk_message_2(message@),
    {
        if let Some(error) = self.read_refusal(
            HandshakeRole::Initiator,
            HandshakeProgress::Message1Done,
            XK_HANDSHAKE_MSG2_SIZE,
            message.len(),
        ) {
            return Err(error);
        }
        let mut ephemeral = self.ephemeral_keypair.unwrap();

        // e
        let re = match PublicKey::from_slice(&message[0..PUBKEY_SIZE]) {
            Ok(key) => key,
            Err(error) => {
                ephemeral.erase();
                return Err(error);
            },
        };
        self.remote_ephemeral = Some(re);
        self.symmetric.mix_hash(re.as_bytes());

        // ee
        mix_exchange(&mut self.symmetric, &ephemeral, &re);
        ephemeral.erase();

        // epoch
        self.read_epoch(&message[PUBKEY_SIZE..message.len()], HandshakeProgress::Message2Done)
    }

    /// Reads XK message 2, and leaves the handshake untouched when the
    /// message does not authenticate.
    ///
    /// [`Self::read_xk_message_2`] mixes the sender's ephemeral key in before it
    /// authenticates the epoch, so a failed read there leaves a handshake that
    /// can never read the genuine message. A caller for whom the message may
    /// be a forgery needs the state from before the read.
    pub fn try_read_xk_message_2(&mut self, message: &[u8]) -> (result: Result<(), NoiseError>)
        requires
            old(self).wf(),
        ensures
            final(self).wf(),
            old(self)@.on_pattern() && old(self)@.pattern == NoisePattern::Xk
                ==> final(self)@.on_pattern(),
            (error::unit_outcome(result), final(self)@) == old(self)@.or_unchanged(
                old(self)@.read_xk_message_2(message@),
            ),
            result is Err ==> final(self)@ == old(self)@,
    {
        let symmetric = self.symmetric.clone();
        let remote_ephemeral = self.remote_ephemeral;
        let remote_epoch = self.remote_epoch;
        let progress = self.progress;
        match self.read_xk_message_2(message) {
            Ok(()) => Ok(()),
            Err(error) => {
                self.symmetric = symmetric;
                self.remote_ephemeral = remote_ephemeral;
                self.remote_epoch = remote_epoch;
                self.progress = progress;
                proof {
                    laws::law_reading_message_2_touches_four_fields(old(self)@, message@);
                }
                Err(error)
            },
        }
    }

    /// Writes XK message 3: encrypted static key, encrypted epoch. The
    /// handshake is then complete.
    pub fn write_xk_message_3(&mut self) -> (result: Result<Vec<u8>, NoiseError>)
        requires
            old(self).wf(),
            old(self)@.refusal(HandshakeRole::Initiator, HandshakeProgress::Message2Done) is None
                ==> old(self)@.local_epoch is Some,
        ensures
            final(self).wf(),
            old(self)@.on_pattern() && old(self)@.pattern == NoisePattern::Xk
                ==> final(self)@.on_pattern(),
            (error::bytes_outcome(result), final(self)@) == old(self)@.write_xk_message_3(),
            result matches Ok(message) ==> {
                &&& message@.len() == XK_HANDSHAKE_MSG3_SIZE
                &&& message@.subrange(0, 49) == old(self)@.symmetric.sealed(
                    crypto::public_key_of(old(self)@.static_secret),
                )
                &&& message@.subrange(49, 73) == old(self)@.after_xk_se().sealed(
                    old(self)@.local_epoch->Some_0,
                )
                &&& model::xk_message_3_is_read(old(self)@, message@, final(self)@)
            },
    {
        if let Some(error) = self.refusal(
            HandshakeRole::Initiator,
            HandshakeProgress::Message2Done,
        ) {
            return Err(error);
        }
        let re = self.remote_ephemeral.unwrap();
        let epoch = self.local_epoch.unwrap();
        let mut message: Vec<u8> = Vec::with_capacity(XK_HANDSHAKE_MSG3_SIZE);

        // s
        let s_pub = self.static_keypair.public_key();
        let encrypted_static = match self.symmetric.encrypt_and_hash(s_pub.as_bytes()) {
            Ok(ciphertext) => ciphertext,
            Err(error) => {
                return Err(error);
            },
        };
        message.extend_from_slice(&encrypted_static);

        // se
        mix_exchange(&mut self.symmetric, &self.static_keypair, &re);
        let ghost se = self.symmetric@;

        // epoch
        let encrypted_epoch = match self.symmetric.encrypt_and_hash(&epoch) {
            Ok(ciphertext) => ciphertext,
            Err(error) => {
                return Err(error);
            },
        };
        message.extend_from_slice(&encrypted_epoch);

        self.progress = HandshakeProgress::Complete;
        proof {
            assert(message@ =~= old(self)@.symmetric.sealed(s_pub@) + se.sealed(epoch@));
            assert(message@.subrange(0, 49) =~= encrypted_static@);
            assert(message@.subrange(49, 73) =~= se.sealed(epoch@));
            laws::law_xk_message_3_is_read(old(self)@);
        }
        Ok(message)
    }

    /// Reads XK message 3 and learns the initiator's static key and epoch. The
    /// handshake is then complete.
    pub fn read_xk_message_3(&mut self, message: &[u8]) -> (result: Result<(), NoiseError>)
        requires
            old(self).wf(),
        ensures
            final(self).wf(),
            old(self)@.on_pattern() && old(self)@.pattern == NoisePattern::Xk
                ==> final(self)@.on_pattern(),
            (error::unit_outcome(result), final(self)@) == old(self)@.read_xk_message_3(message@),
    {
        if let Some(error) = self.read_refusal(
            HandshakeRole::Responder,
            HandshakeProgress::Message2Done,
            XK_HANDSHAKE_MSG3_SIZE,
            message.len(),
        ) {
            return Err(error);
        }

        // s
        let rs = match self.read_static(&message[0..PUBKEY_ENCRYPTED_SIZE]) {
            Ok(key) => key,
            Err(error) => {
                return Err(error);
            },
        };

        // se
        let mut ephemeral = self.ephemeral_keypair.unwrap();
        mix_exchange(&mut self.symmetric, &ephemeral, &rs);
        ephemeral.erase();

        // epoch
        self.read_epoch(
            &message[PUBKEY_ENCRYPTED_SIZE..message.len()],
            HandshakeProgress::Complete,
        )
    }

    /// Turns a complete handshake into a session.
    ///
    /// A handshake that was only taken through steps of its own pattern knows
    /// its peer's static key once it is complete.
    pub fn into_session(self) -> (result: Result<NoiseSession, NoiseError>)
        requires
            self@.progress == HandshakeProgress::Complete ==> self@.remote_static is Some,
        ensures
            match result {
                Ok(session) => {
                    &&& self@.progress == HandshakeProgress::Complete
                    &&& session@ == self@.session()
                    &&& Some(session@.remote_static) == self@.remote_static
                    &&& session@.role == self@.role
                    &&& session@.handshake_hash == self@.symmetric.h
                    &&& forall|peer: HandshakeModel| #[trigger]
                        model::in_step(self@, peer) ==> model::sessions_fit(
                            session@,
                            peer.session(),
                        )
                    &&& forall|peer: HandshakeModel| #[trigger]
                        model::in_step(peer, self@) ==> model::sessions_fit(
                            peer.session(),
                            session@,
                        )
                },
                Err(error) => {
                    &&& self@.progress != HandshakeProgress::Complete
                    &&& error == NoiseError::HandshakeNotComplete
                },
            },
    {
        if !self.is_complete() {
            return Err(NoiseError::HandshakeNotComplete);
        }
        let (c1, c2) = self.symmetric.split();
        let handshake_hash = self.symmetric.handshake_hash();
        let remote_static = self.remote_static.unwrap();
        let (send_cipher, recv_cipher) = match self.role {
            HandshakeRole::Initiator => (c1, c2),
            HandshakeRole::Responder => (c2, c1),
        };
        let session = NoiseSession::from_handshake(
            self.role,
            send_cipher,
            recv_cipher,
            handshake_hash,
            remote_static,
        );
        proof {
            assert forall|peer: HandshakeModel| #[trigger] model::in_step(self@, peer) implies
                model::sessions_fit(session@, peer.session()) by {
                laws::law_sessions_fit_together(self@, peer);
            }
            assert forall|peer: HandshakeModel| #[trigger] model::in_step(peer, self@) implies
                model::sessions_fit(peer.session(), session@) by {
                laws::law_sessions_fit_together(peer, self@);
            }
        }
        Ok(session)
    }

    /// Which end this is.
    pub fn role(&self) -> (role: HandshakeRole)
        ensures
            role == self@.role,
    {
        self.role
    }

    /// How far the handshake has come.
    pub fn progress(&self) -> (progress: HandshakeProgress)
        ensures
            progress == self@.progress,
    {
        self.progress
    }

    /// Whether the handshake is complete.
    pub fn is_complete(&self) -> (complete: bool)
        ensures
            complete == (self@.progress == HandshakeProgress::Complete),
    {
        self.progress == HandshakeProgress::Complete
    }

    /// The peer's static key, once it is known.
    pub fn remote_static(&self) -> (key: Option<&PublicKey>)
        ensures
            match key {
                Some(key) => self@.remote_static == Some(key@),
                None => self@.remote_static is None,
            },
    {
        match &self.remote_static {
            Some(key) => Some(key),
            None => None,
        }
    }

    /// Sets this node's startup epoch.
    pub fn set_local_epoch(&mut self, epoch: [u8; 8])
        ensures
            final(self)@ == (HandshakeModel { local_epoch: Some(epoch@), ..old(self)@ }),
            old(self).wf() ==> final(self).wf(),
            old(self)@.on_pattern() ==> final(self)@.on_pattern(),
    {
        self.local_epoch = Some(epoch);
    }

    /// The peer's startup epoch, once it is known.
    pub fn remote_epoch(&self) -> (epoch: Option<[u8; 8]>)
        ensures
            epoch_bytes(epoch) == self@.remote_epoch,
    {
        self.remote_epoch
    }

    /// The transcript hash.
    pub fn handshake_hash(&self) -> (hash: [u8; 32])
        ensures
            hash@ == self@.symmetric.h,
    {
        self.symmetric.handshake_hash()
    }

    /// Describes the handshake without its secrets: pattern, role, stage, and
    /// which of the optional parts are there.
    pub fn debug_string(&self) -> (text: String)
        ensures
            text@ == self@.debug_text(),
    {
        let mut text = String::new();
        text.append("HandshakeState { pattern: ");
        text.append(self.pattern.debug_name());
        text.append(", role: ");
        text.append(self.role.debug_name());
        text.append(", progress: ");
        text.append(self.progress.debug_name());
        text.append(", has_ephemeral: ");
        text.append(bool_name(self.ephemeral_keypair.is_some()));
        text.append(", has_remote_static: ");
        text.append(bool_name(self.remote_static.is_some()));
        text.append(", has_remote_ephemeral: ");
        text.append(bool_name(self.remote_ephemeral.is_some()));
        text.append(", has_local_epoch: ");
        text.append(bool_name(self.local_epoch.is_some()));
        text.append(", has_remote_epoch: ");
        text.append(bool_name(self.remote_epoch.is_some()));
        text.append(" }");
        assert(text@ =~= self@.debug_text());
        text
    }
}

} // verus!
