//! Noise IK and XK handshakes over secp256k1.
//!
//! The link layer runs IK, the session layer runs XK. [`handshake`] holds the
//! state machine, [`model`] says what each of its steps means, and [`laws`]
//! says how the two ends of a handshake fit together.

pub mod cipher;
pub mod crypto;
pub mod error;
pub mod handshake;
pub mod keys;
pub mod laws;
pub mod model;
pub mod session;
pub mod step_laws;
pub mod symmetric;

use vstd::prelude::*;

verus! {

/// Bytes of a compressed public key.
pub const PUBKEY_SIZE: usize = 33;

/// Bytes of an authentication tag.
pub const TAG_SIZE: usize = 16;

/// Bytes of a startup epoch.
pub const EPOCH_SIZE: usize = 8;

/// Bytes of a startup epoch with its tag.
pub const EPOCH_ENCRYPTED_SIZE: usize = EPOCH_SIZE + TAG_SIZE;

/// Bytes of a public key with its tag.
pub const PUBKEY_ENCRYPTED_SIZE: usize = PUBKEY_SIZE + TAG_SIZE;

/// Bytes of IK message 1: ephemeral, encrypted static, encrypted epoch.
pub const HANDSHAKE_MSG1_SIZE: usize = PUBKEY_SIZE + PUBKEY_ENCRYPTED_SIZE + EPOCH_ENCRYPTED_SIZE;

/// Bytes of IK message 2: ephemeral, encrypted epoch.
pub const HANDSHAKE_MSG2_SIZE: usize = PUBKEY_SIZE + EPOCH_ENCRYPTED_SIZE;

/// Bytes of XK message 1: ephemeral.
pub const XK_HANDSHAKE_MSG1_SIZE: usize = PUBKEY_SIZE;

/// Bytes of XK message 2: ephemeral, encrypted epoch.
pub const XK_HANDSHAKE_MSG2_SIZE: usize = PUBKEY_SIZE + EPOCH_ENCRYPTED_SIZE;

/// Bytes of XK message 3: encrypted static, encrypted epoch.
pub const XK_HANDSHAKE_MSG3_SIZE: usize = PUBKEY_ENCRYPTED_SIZE + EPOCH_ENCRYPTED_SIZE;

/// Largest message the cipher produces, tag included.
pub const MAX_MESSAGE_SIZE: usize = 65535;

/// Protocol name of the link-layer handshake.
pub const PROTOCOL_NAME_IK: &'static str = "Noise_IK_secp256k1_ChaChaPoly_SHA256";

/// Protocol name of the session-layer handshake.
pub const PROTOCOL_NAME_XK: &'static str = "Noise_XK_secp256k1_ChaChaPoly_SHA256";

/// Which handshake pattern is being run.
#[derive(Clone, Copy, Debug, PartialEq, Eq, Structural)]
pub enum NoisePattern {
    /// Link layer: the initiator reveals its static key in message 1.
    Ik,
    /// Session layer: the initiator reveals its static key in message 3.
    Xk,
}

/// Which end of the handshake this is.
#[derive(Clone, Copy, Debug, PartialEq, Eq, Structural)]
pub enum HandshakeRole {
    /// The end that sends first.
    Initiator,
    /// The end that answers.
    Responder,
}

/// How far a handshake has come.
#[derive(Clone, Copy, Debug, PartialEq, Eq, Structural)]
pub enum HandshakeProgress {
    /// No message has been exchanged.
    Initial,
    /// Message 1 is done.
    Message1Done,
    /// Message 2 is done and a third is to come (XK only).
    Message2Done,
    /// The handshake is finished.
    Complete,
}

impl NoisePattern {
    /// The protocol name a handshake of this pattern starts from.
    pub open spec fn protocol_name(self) -> Seq<char> {
        match self {
            NoisePattern::Ik => PROTOCOL_NAME_IK@,
            NoisePattern::Xk => PROTOCOL_NAME_XK@,
        }
    }

    /// The variant's own name.
    pub open spec fn debug_text(self) -> Seq<char> {
        match self {
            NoisePattern::Ik => "Ik"@,
            NoisePattern::Xk => "Xk"@,
        }
    }

    /// The variant's own name.
    pub(crate) fn debug_name(&self) -> (name: &'static str)
        ensures
            name@ == self.debug_text(),
    {
        match self {
            NoisePattern::Ik => "Ik",
            NoisePattern::Xk => "Xk",
        }
    }
}

impl HandshakeRole {
    /// The role's name as it appears in errors.
    pub open spec fn name(self) -> Seq<char> {
        match self {
            HandshakeRole::Initiator => "initiator"@,
            HandshakeRole::Responder => "responder"@,
        }
    }

    /// The variant's own name.
    pub open spec fn debug_text(self) -> Seq<char> {
        match self {
            HandshakeRole::Initiator => "Initiator"@,
            HandshakeRole::Responder => "Responder"@,
        }
    }

    /// The variant's own name.
    pub(crate) fn debug_name(&self) -> (name: &'static str)
        ensures
            name@ == self.debug_text(),
    {
        match self {
            HandshakeRole::Initiator => "Initiator",
            HandshakeRole::Responder => "Responder",
        }
    }

    /// Renders the role's name.
    pub fn to_string(&self) -> (text: String)
        ensures
            text@ == self.name(),
    {
        match self {
            HandshakeRole::Initiator => "initiator".to_string(),
            HandshakeRole::Responder => "responder".to_string(),
        }
    }
}

impl HandshakeProgress {
    /// The stage's name as it appears in errors.
    pub open spec fn name(self) -> Seq<char> {
        match self {
            HandshakeProgress::Initial => "initial"@,
            HandshakeProgress::Message1Done => "message1_done"@,
            HandshakeProgress::Message2Done => "message2_done"@,
            HandshakeProgress::Complete => "complete"@,
        }
    }

    /// The variant's own name.
    pub open spec fn debug_text(self) -> Seq<char> {
        match self {
            HandshakeProgress::Initial => "Initial"@,
            HandshakeProgress::Message1Done => "Message1Done"@,
            HandshakeProgress::Message2Done => "Message2Done"@,
            HandshakeProgress::Complete => "Complete"@,
        }
    }

    /// The variant's own name.
    pub(crate) fn debug_name(&self) -> (name: &'static str)
        ensures
            name@ == self.debug_text(),
    {
        match self {
            HandshakeProgress::Initial => "Initial",
            HandshakeProgress::Message1Done => "Message1Done",
            HandshakeProgress::Message2Done => "Message2Done",
            HandshakeProgress::Complete => "Complete",
        }
    }

    /// Renders the stage's name.
    pub fn to_string(&self) -> (text: String)
        ensures
            text@ == self.name(),
    {
        match self {
            HandshakeProgress::Initial => "initial".to_string(),
            HandshakeProgress::Message1Done => "message1_done".to_string(),
            HandshakeProgress::Message2Done => "message2_done".to_string(),
            HandshakeProgress::Complete => "complete".to_string(),
        }
    }
}

} // verus!
