//! What a finished handshake hands over.

use vstd::prelude::*;

use crate::noise::cipher::CipherState;
use crate::noise::keys::PublicKey;
use crate::noise::model::SessionModel;
use crate::noise::HandshakeRole;

verus! {

/// The two transport ciphers of a finished handshake, with what it established
/// about the peer.
pub struct NoiseSession {
    role: HandshakeRole,
    send_cipher: CipherState,
    recv_cipher: CipherState,
    handshake_hash: [u8; 32],
    remote_static: PublicKey,
}

impl View for NoiseSession {
    type V = SessionModel;

    closed spec fn view(&self) -> SessionModel {
        SessionModel {
            role: self.role,
            send: self.send_cipher@,
            recv: self.recv_cipher@,
            handshake_hash: self.handshake_hash@,
            remote_static: self.remote_static@,
        }
    }
}

impl NoiseSession {
    /// Assembles a session.
    pub fn from_handshake(
        role: HandshakeRole,
        send_cipher: CipherState,
        recv_cipher: CipherState,
        handshake_hash: [u8; 32],
        remote_static: PublicKey,
    ) -> (session: NoiseSession)
        ensures
            session@ == (SessionModel {
                role,
                send: send_cipher@,
                recv: recv_cipher@,
                handshake_hash: handshake_hash@,
                remote_static: remote_static@,
            }),
    {
        NoiseSession { role, send_cipher, recv_cipher, handshake_hash, remote_static }
    }

    /// Which end of the handshake this was.
    pub fn role(&self) -> (role: HandshakeRole)
        ensures
            role == self@.role,
    {
        self.role
    }

    /// The handshake's transcript hash.
    pub fn handshake_hash(&self) -> (hash: &[u8; 32])
        ensures
            hash@ == self@.handshake_hash,
    {
        &self.handshake_hash
    }

    /// The peer's static key.
    pub fn remote_static(&self) -> (key: &PublicKey)
        ensures
            key@ == self@.remote_static,
    {
        &self.remote_static
    }

    /// Hands out the two ciphers: the one to send with, then the one to
    /// receive with.
    pub fn into_ciphers(self) -> (ciphers: (CipherState, CipherState))
        ensures
            ciphers.0@ == self@.send,
            ciphers.1@ == self@.recv,
    {
        (self.send_cipher, self.recv_cipher)
    }
}

} // verus!
