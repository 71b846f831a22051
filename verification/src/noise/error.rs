//! Errors of the Noise layer.

use vstd::prelude::*;

verus! {

/// Why a Noise operation was refused or failed.
#[allow(inconsistent_fields)]
#[derive(Debug, PartialEq, Eq)]
pub enum NoiseError {
    /// A session was asked for before the handshake finished.
    HandshakeNotComplete,
    /// The call does not fit the handshake's role or stage.
    WrongState {
        /// What the call needs.
        expected: String,
        /// What the handshake is.
        got: String,
    },
    /// Bytes that should be a public key are not one.
    InvalidPublicKey,
    /// Bytes that should be a secret key are not one.
    InvalidSecretKey,
    /// A ciphertext did not authenticate.
    DecryptionFailed,
    /// A plaintext is too long for one message.
    MessageTooLarge {
        /// Its length.
        size: usize,
    },
    /// A message does not have the length it must have.
    MessageTooShort {
        /// The length it must have.
        expected: usize,
        /// The length it has.
        got: usize,
    },
    /// The cipher has used every nonce.
    NonceOverflow,
}

/// What a [`NoiseError`] says, with its texts as character sequences.
#[allow(inconsistent_fields)]
pub enum NoiseErrorView {
    HandshakeNotComplete,
    WrongState { expected: Seq<char>, got: Seq<char> },
    InvalidPublicKey,
    InvalidSecretKey,
    DecryptionFailed,
    MessageTooLarge { size: nat },
    MessageTooShort { expected: nat, got: nat },
    NonceOverflow,
}

impl View for NoiseError {
    type V = NoiseErrorView;

    open spec fn view(&self) -> NoiseErrorView {
        match *self {
            NoiseError::HandshakeNotComplete => NoiseErrorView::HandshakeNotComplete,
            NoiseError::WrongState { expected, got } => NoiseErrorView::WrongState {
                expected: expected@,
                got: got@,
            },
            NoiseError::InvalidPublicKey => NoiseErrorView::InvalidPublicKey,
            NoiseError::InvalidSecretKey => NoiseErrorView::InvalidSecretKey,
            NoiseError::DecryptionFailed => NoiseErrorView::DecryptionFailed,
            NoiseError::MessageTooLarge { size } => NoiseErrorView::MessageTooLarge {
                size: size as nat,
            },
            NoiseError::MessageTooShort { expected, got } => NoiseErrorView::MessageTooShort {
                expected: expected as nat,
                got: got as nat,
            },
            NoiseError::NonceOverflow => NoiseErrorView::NonceOverflow,
        }
    }
}

/// Outcome of an operation that yields bytes.
pub open spec fn bytes_outcome(result: Result<Vec<u8>, NoiseError>) -> Result<
    Seq<u8>,
    NoiseErrorView,
> {
    match result {
        Ok(bytes) => Ok(bytes@),
        Err(error) => Err(error@),
    }
}

/// Outcome of an operation that yields nothing.
pub open spec fn unit_outcome(result: Result<(), NoiseError>) -> Result<(), NoiseErrorView> {
    match result {
        Ok(()) => Ok(()),
        Err(error) => Err(error@),
    }
}

} // verus!
