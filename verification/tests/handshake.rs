//! Handshakes from end to end, against independently computed values.

use fips::noise::cipher::CipherState;
use fips::noise::error::NoiseError;
use fips::noise::handshake::HandshakeState;
use fips::noise::keys::{Keypair, PublicKey};
use fips::noise::session::NoiseSession;
use fips::noise::symmetric::SymmetricState;
use fips::noise::{HandshakeProgress, HandshakeRole};

const EPOCH_I: [u8; 8] = [0, 1, 2, 3, 4, 5, 6, 7];
const EPOCH_R: [u8; 8] = [8, 9, 10, 11, 12, 13, 14, 15];

fn hex(bytes: &[u8]) -> String {
    bytes.iter().map(|b| format!("{:02x}", b)).collect()
}

fn unhex(text: &str) -> Vec<u8> {
    (0..text.len() / 2).map(|i| u8::from_str_radix(&text[2 * i..2 * i + 2], 16).unwrap()).collect()
}

fn pair(byte: u8) -> Keypair {
    Keypair::from_secret_bytes(&[byte; 32]).unwrap()
}

/// The responder's static key with the wrong parity.
fn flipped(key: &PublicKey) -> PublicKey {
    let mut bytes = key.serialize();
    bytes[0] ^= 1;
    PublicKey::from_slice(&bytes).unwrap()
}

fn ik_ends() -> (HandshakeState, HandshakeState) {
    let mut initiator = HandshakeState::new_initiator(pair(1), pair(2).public_key());
    let mut responder = HandshakeState::new_responder(pair(2));
    initiator.set_local_epoch(EPOCH_I);
    responder.set_local_epoch(EPOCH_R);
    (initiator, responder)
}

fn xk_ends() -> (HandshakeState, HandshakeState) {
    let mut initiator = HandshakeState::new_xk_initiator(pair(1), pair(2).public_key());
    let mut responder = HandshakeState::new_xk_responder(pair(2));
    initiator.set_local_epoch(EPOCH_I);
    responder.set_local_epoch(EPOCH_R);
    (initiator, responder)
}

/// Both directions carry a message, and the nonces advance together.
fn assert_sessions_fit(initiator: NoiseSession, responder: NoiseSession) {
    assert_eq!(initiator.role(), HandshakeRole::Initiator);
    assert_eq!(responder.role(), HandshakeRole::Responder);
    assert_eq!(initiator.handshake_hash(), responder.handshake_hash());
    let (mut i_send, mut i_recv) = initiator.into_ciphers();
    let (mut r_send, mut r_recv) = responder.into_ciphers();
    for text in ["first", "second", ""] {
        let sealed = i_send.encrypt(text.as_bytes()).unwrap();
        assert_eq!(r_recv.decrypt(&sealed).unwrap(), text.as_bytes());
        let sealed = r_send.encrypt(text.as_bytes()).unwrap();
        assert_eq!(i_recv.decrypt(&sealed).unwrap(), text.as_bytes());
    }
}

#[test]
fn ik_messages_are_the_expected_bytes() {
    let (mut initiator, mut responder) = ik_ends();
    assert_eq!(
        hex(&initiator.handshake_hash()),
        "f97789221f4a25a6caba2c804b1a17f8ce44b23571f5e9a43f7c2f4e692d9f98"
    );
    assert_eq!(initiator.handshake_hash(), responder.handshake_hash());

    let m1 = initiator.write_message_1_with(&[3; 32]).unwrap();
    assert_eq!(
        hex(&m1),
        "02531fe6068134503d2723133227c867ac8fa6c83c537e9a44c3c5bdbdcb1fe337\
         2269ec9c81191e434433092dbc5ce7d47a1134d6459a2541df215c790d8c193b546b618cec00da5d82\
         db33784344826e75f0a47cd2366ff2eaac63cebca9b7aefbf08b9e66c75f302b"
    );
    responder.read_message_1(&m1).unwrap();
    assert_eq!(responder.progress(), HandshakeProgress::Message1Done);
    assert_eq!(responder.remote_static(), Some(&pair(1).public_key()));
    assert_eq!(responder.remote_epoch(), Some(EPOCH_I));

    let m2 = responder.write_message_2_with(&[4; 32]).unwrap();
    assert_eq!(
        hex(&m2),
        "03462779ad4aad39514614751a71085f2f10e1c7a593e4e030efb5b8721ce55b0b\
         714d340fe4e9693a6e6e1fecd6d64be9c5e85f44b92f31b5"
    );
    initiator.read_message_2(&m2).unwrap();
    assert!(initiator.is_complete());
    assert!(responder.is_complete());
    assert_eq!(initiator.remote_epoch(), Some(EPOCH_R));
    assert_eq!(
        hex(&initiator.handshake_hash()),
        "46905fcf4be40688032f0c25ff1db1c3a291b9eb86ed0d4febd749ca7d41f080"
    );

    let (mut i_send, _) = initiator.into_session().unwrap().into_ciphers();
    let (mut r_send, _) = responder.into_session().unwrap().into_ciphers();
    assert_eq!(
        hex(&i_send.encrypt(b"hello").unwrap()),
        "3d197fe760f2e3f096aa7711bf29b5a3a73808f6fb"
    );
    assert_eq!(
        hex(&r_send.encrypt(b"hello").unwrap()),
        "c1e390a27a19ab0b293e719a70708f9286b1587a71"
    );
}

#[test]
fn xk_messages_are_the_expected_bytes() {
    let (mut initiator, mut responder) = xk_ends();
    assert_eq!(
        hex(&responder.handshake_hash()),
        "9f10d633c0ecb244ce8d94b72b2263da5db9190a7f2188aa7b2c2da0708f33b0"
    );

    let m1 = initiator.write_xk_message_1_with(&[3; 32]).unwrap();
    assert_eq!(
        hex(&m1),
        "02531fe6068134503d2723133227c867ac8fa6c83c537e9a44c3c5bdbdcb1fe337"
    );
    responder.read_xk_message_1(&m1).unwrap();
    assert_eq!(responder.remote_static(), None);

    let m2 = responder.write_xk_message_2_with(&[4; 32]).unwrap();
    assert_eq!(
        hex(&m2),
        "03462779ad4aad39514614751a71085f2f10e1c7a593e4e030efb5b8721ce55b0b\
         ae4e9dd6499e298e492ef3c752cf7db64d8c2038a5245584"
    );
    assert_eq!(responder.progress(), HandshakeProgress::Message2Done);
    assert_eq!(responder.remote_static(), None);
    initiator.read_xk_message_2(&m2).unwrap();
    assert_eq!(initiator.progress(), HandshakeProgress::Message2Done);
    assert!(!initiator.is_complete());
    assert_eq!(initiator.remote_epoch(), Some(EPOCH_R));

    let m3 = initiator.write_xk_message_3().unwrap();
    assert_eq!(
        hex(&m3),
        "a8bb8cb1298e1dc7f0a4f12732b9c06e5aa558d57b23b5c8827e056f3a0cdcb32d0f36d0f2f7969d10\
         6dbec6dd22017f0f0a676a1c52b1badeb864863667a90b5a80f78c790e979634"
    );
    responder.read_xk_message_3(&m3).unwrap();
    assert_eq!(responder.remote_static(), Some(&pair(1).public_key()));
    assert_eq!(responder.remote_epoch(), Some(EPOCH_I));
    assert_eq!(
        hex(&responder.handshake_hash()),
        "3cdc9af0da4a1573b23f6cce30b63611692d4f33fcb5c5b49e20432c47e5017f"
    );

    let (mut i_send, _) = initiator.into_session().unwrap().into_ciphers();
    let (mut r_send, _) = responder.into_session().unwrap().into_ciphers();
    assert_eq!(
        hex(&i_send.encrypt(b"hello").unwrap()),
        "e089b65f16f82508b0271907ce81cbe152e45c396d"
    );
    assert_eq!(
        hex(&r_send.encrypt(b"hello").unwrap()),
        "962d9cbdf26e902c8b76738c1f8b7a32d910775686"
    );
}

#[test]
fn ik_completes_with_random_ephemerals() {
    let (mut initiator, mut responder) = ik_ends();
    let m1 = initiator.write_message_1().unwrap();
    assert_eq!(m1.len(), 106);
    responder.read_message_1(&m1).unwrap();
    let m2 = responder.write_message_2().unwrap();
    assert_eq!(m2.len(), 57);
    initiator.read_message_2(&m2).unwrap();
    let initiator = initiator.into_session().unwrap();
    let responder = responder.into_session().unwrap();
    assert_eq!(initiator.remote_static(), &pair(2).public_key());
    assert_eq!(responder.remote_static(), &pair(1).public_key());
    assert_sessions_fit(initiator, responder);
}

#[test]
fn two_handshakes_draw_different_ephemerals() {
    let (mut a, _) = ik_ends();
    let (mut b, _) = ik_ends();
    assert_ne!(a.write_message_1().unwrap(), b.write_message_1().unwrap());
}

#[test]
fn xk_completes_with_random_ephemerals() {
    let (mut initiator, mut responder) = xk_ends();
    let m1 = initiator.write_xk_message_1().unwrap();
    assert_eq!(m1.len(), 33);
    responder.read_xk_message_1(&m1).unwrap();
    let m2 = responder.write_xk_message_2().unwrap();
    assert_eq!(m2.len(), 57);
    initiator.try_read_xk_message_2(&m2).unwrap();
    let m3 = initiator.write_xk_message_3().unwrap();
    assert_eq!(m3.len(), 73);
    responder.read_xk_message_3(&m3).unwrap();
    assert_sessions_fit(initiator.into_session().unwrap(), responder.into_session().unwrap());
}

#[test]
fn an_initiator_with_the_wrong_parity_still_completes() {
    let wrong = flipped(&pair(2).public_key());
    assert_ne!(wrong, pair(2).public_key());

    let mut initiator = HandshakeState::new_initiator(pair(1), wrong);
    let mut responder = HandshakeState::new_responder(pair(2));
    initiator.set_local_epoch(EPOCH_I);
    responder.set_local_epoch(EPOCH_R);
    assert_eq!(initiator.handshake_hash(), responder.handshake_hash());
    let m1 = initiator.write_message_1().unwrap();
    responder.read_message_1(&m1).unwrap();
    let m2 = responder.write_message_2().unwrap();
    initiator.try_read_message_2(&m2).unwrap();
    assert_sessions_fit(initiator.into_session().unwrap(), responder.into_session().unwrap());

    let mut initiator = HandshakeState::new_xk_initiator(pair(1), wrong);
    let mut responder = HandshakeState::new_xk_responder(pair(2));
    initiator.set_local_epoch(EPOCH_I);
    responder.set_local_epoch(EPOCH_R);
    let m1 = initiator.write_xk_message_1().unwrap();
    responder.read_xk_message_1(&m1).unwrap();
    let m2 = responder.write_xk_message_2().unwrap();
    initiator.read_xk_message_2(&m2).unwrap();
    let m3 = initiator.write_xk_message_3().unwrap();
    responder.read_xk_message_3(&m3).unwrap();
    assert_sessions_fit(initiator.into_session().unwrap(), responder.into_session().unwrap());
}

#[test]
fn the_exchange_ignores_parity() {
    let there = HandshakeState::ecdh(&pair(1), &pair(2).public_key());
    let back = HandshakeState::ecdh(&pair(2), &pair(1).public_key());
    let wrong = HandshakeState::ecdh(&pair(1), &flipped(&pair(2).public_key()));
    assert_eq!(hex(&there), "442e7d713aece59b796393c4eb7deb384863209f6751a93d84faf8955d41a284");
    assert_eq!(there, back);
    assert_eq!(there, wrong);
}

#[test]
fn normalizing_forces_even_parity() {
    let odd = pair(1).public_key();
    assert_eq!(odd.serialize()[0], 3);
    let normal = HandshakeState::normalize_for_premessage(&odd);
    assert_eq!(normal[0], 2);
    assert_eq!(normal[1..], odd.serialize()[1..]);
    assert_eq!(normal, HandshakeState::normalize_for_premessage(&flipped(&odd)));
}

#[test]
fn a_forged_reply_leaves_the_genuine_one_readable() {
    let (mut initiator, mut responder) = ik_ends();
    let m1 = initiator.write_message_1().unwrap();
    responder.read_message_1(&m1).unwrap();
    let m2 = responder.write_message_2().unwrap();

    let mut forged = m2.clone();
    forged[50] ^= 1;
    let before = initiator.handshake_hash();
    assert_eq!(initiator.try_read_message_2(&forged), Err(NoiseError::DecryptionFailed));
    assert_eq!(initiator.handshake_hash(), before);
    assert_eq!(initiator.progress(), HandshakeProgress::Message1Done);
    assert_eq!(initiator.remote_epoch(), None);
    initiator.try_read_message_2(&m2).unwrap();
    assert_sessions_fit(initiator.into_session().unwrap(), responder.into_session().unwrap());
}

#[test]
fn a_forged_xk_reply_leaves_the_genuine_one_readable() {
    let (mut initiator, mut responder) = xk_ends();
    let m1 = initiator.write_xk_message_1().unwrap();
    responder.read_xk_message_1(&m1).unwrap();
    let m2 = responder.write_xk_message_2().unwrap();

    // A well-formed message from somebody else.
    let (_, mut stranger) = xk_ends();
    stranger.read_xk_message_1(&pair(9).public_key().serialize()).unwrap();
    let forged = stranger.write_xk_message_2().unwrap();
    assert_eq!(initiator.try_read_xk_message_2(&forged), Err(NoiseError::DecryptionFailed));
    initiator.try_read_xk_message_2(&m2).unwrap();
    let m3 = initiator.write_xk_message_3().unwrap();
    responder.read_xk_message_3(&m3).unwrap();
    assert_sessions_fit(initiator.into_session().unwrap(), responder.into_session().unwrap());
}

#[test]
fn a_failed_plain_read_poisons_the_handshake() {
    let (mut initiator, mut responder) = ik_ends();
    let m1 = initiator.write_message_1().unwrap();
    responder.read_message_1(&m1).unwrap();
    let m2 = responder.write_message_2().unwrap();
    let mut forged = m2.clone();
    forged[50] ^= 1;
    assert_eq!(initiator.read_message_2(&forged), Err(NoiseError::DecryptionFailed));
    assert_eq!(initiator.read_message_2(&m2), Err(NoiseError::DecryptionFailed));
}

fn wrong_state(expected: &str, got: &str) -> NoiseError {
    NoiseError::WrongState { expected: expected.to_string(), got: got.to_string() }
}

#[test]
fn steps_of_the_other_role_are_refused() {
    let (mut initiator, mut responder) = ik_ends();
    let before = (initiator.handshake_hash(), responder.handshake_hash());
    assert_eq!(responder.write_message_1(), Err(wrong_state("initiator", "responder")));
    assert_eq!(initiator.read_message_1(&[0; 106]), Err(wrong_state("responder", "initiator")));
    assert_eq!(initiator.write_message_2(), Err(wrong_state("responder", "initiator")));
    assert_eq!(responder.read_message_2(&[0; 57]), Err(wrong_state("initiator", "responder")));
    assert_eq!(responder.write_xk_message_1(), Err(wrong_state("initiator", "responder")));
    assert_eq!(initiator.read_xk_message_1(&[0; 33]), Err(wrong_state("responder", "initiator")));
    assert_eq!(initiator.write_xk_message_2(), Err(wrong_state("responder", "initiator")));
    assert_eq!(responder.read_xk_message_2(&[0; 57]), Err(wrong_state("initiator", "responder")));
    assert_eq!(responder.write_xk_message_3(), Err(wrong_state("initiator", "responder")));
    assert_eq!(initiator.read_xk_message_3(&[0; 73]), Err(wrong_state("responder", "initiator")));
    assert_eq!(before, (initiator.handshake_hash(), responder.handshake_hash()));
}

#[test]
fn steps_out_of_order_are_refused() {
    let (mut initiator, mut responder) = ik_ends();
    assert_eq!(initiator.read_message_2(&[0; 57]), Err(wrong_state("message1_done", "initial")));
    assert_eq!(
        initiator.try_read_message_2(&[0; 57]),
        Err(wrong_state("message1_done", "initial"))
    );
    assert_eq!(responder.write_message_2(), Err(wrong_state("message1_done", "initial")));
    assert_eq!(initiator.write_xk_message_3(), Err(wrong_state("message2_done", "initial")));
    assert_eq!(
        responder.read_xk_message_3(&[0; 73]),
        Err(wrong_state("message2_done", "initial"))
    );
    let m1 = initiator.write_message_1().unwrap();
    assert_eq!(initiator.write_message_1(), Err(wrong_state("initial", "message1_done")));
    responder.read_message_1(&m1).unwrap();
    assert_eq!(responder.read_message_1(&m1), Err(wrong_state("initial", "message1_done")));
    let m2 = responder.write_message_2().unwrap();
    assert_eq!(responder.write_message_2(), Err(wrong_state("message1_done", "complete")));
    initiator.read_message_2(&m2).unwrap();
    assert_eq!(initiator.read_message_2(&m2), Err(wrong_state("message1_done", "complete")));
}

#[test]
fn messages_start_with_the_ephemeral_key() {
    let (mut initiator, mut responder) = ik_ends();
    let m1 = initiator.write_message_1_with(&[3; 32]).unwrap();
    assert_eq!(PublicKey::from_slice(&m1[..33]), Ok(pair(3).public_key()));
    responder.read_message_1(&m1).unwrap();
    let m2 = responder.write_message_2().unwrap();
    assert!(PublicKey::from_slice(&m2[..33]).is_ok());

    let (mut initiator, mut responder) = xk_ends();
    let m1 = initiator.write_xk_message_1().unwrap();
    assert!(PublicKey::from_slice(&m1).is_ok());
    responder.read_xk_message_1(&m1).unwrap();
    let m2 = responder.write_xk_message_2_with(&[4; 32]).unwrap();
    assert_eq!(PublicKey::from_slice(&m2[..33]), Ok(pair(4).public_key()));
}

/// Every step of either pattern is refused, and changes nothing.
fn assert_takes_no_step(state: &mut HandshakeState) {
    let before = state.debug_string();
    let hash = state.handshake_hash();
    let errors = [
        state.write_message_1().err(),
        state.read_message_1(&[2; 106]).err(),
        state.write_message_2().err(),
        state.read_message_2(&[2; 57]).err(),
        state.try_read_message_2(&[2; 57]).err(),
        state.write_xk_message_1().err(),
        state.read_xk_message_1(&[2; 33]).err(),
        state.write_xk_message_2().err(),
        state.read_xk_message_2(&[2; 57]).err(),
        state.try_read_xk_message_2(&[2; 57]).err(),
        state.write_xk_message_3().err(),
        state.read_xk_message_3(&[2; 73]).err(),
    ];
    for error in errors {
        assert!(matches!(error, Some(NoiseError::WrongState { .. })));
    }
    assert_eq!(state.debug_string(), before);
    assert_eq!(state.handshake_hash(), hash);
}

#[test]
fn complete_handshakes_know_their_peer_and_take_no_step() {
    let (mut initiator, mut responder) = ik_ends();
    let m1 = initiator.write_message_1().unwrap();
    responder.read_message_1(&m1).unwrap();
    let m2 = responder.write_message_2().unwrap();
    initiator.read_message_2(&m2).unwrap();
    for state in [&mut initiator, &mut responder] {
        assert!(state.is_complete());
        assert!(state.remote_static().is_some() && state.remote_epoch().is_some());
        assert_takes_no_step(state);
    }

    let (mut initiator, mut responder) = xk_ends();
    let m1 = initiator.write_xk_message_1().unwrap();
    responder.read_xk_message_1(&m1).unwrap();
    let m2 = responder.write_xk_message_2().unwrap();
    initiator.read_xk_message_2(&m2).unwrap();
    let m3 = initiator.write_xk_message_3().unwrap();
    responder.read_xk_message_3(&m3).unwrap();
    for state in [&mut initiator, &mut responder] {
        assert!(state.is_complete());
        assert!(state.remote_static().is_some() && state.remote_epoch().is_some());
        assert_takes_no_step(state);
    }
}

#[test]
fn messages_of_the_wrong_length_are_refused() {
    let (mut initiator, mut responder) = ik_ends();
    let before = responder.handshake_hash();
    for got in [0, 105, 107] {
        assert_eq!(
            responder.read_message_1(&vec![2; got]),
            Err(NoiseError::MessageTooShort { expected: 106, got })
        );
    }
    assert_eq!(
        responder.read_xk_message_1(&[2; 34]),
        Err(NoiseError::MessageTooShort { expected: 33, got: 34 })
    );
    assert_eq!(responder.handshake_hash(), before);
    initiator.write_message_1().unwrap();
    assert_eq!(
        initiator.read_message_2(&[2; 56]),
        Err(NoiseError::MessageTooShort { expected: 57, got: 56 })
    );
    assert_eq!(
        initiator.read_xk_message_2(&[2; 58]),
        Err(NoiseError::MessageTooShort { expected: 57, got: 58 })
    );

    let (mut initiator, mut responder) = xk_ends();
    let m1 = initiator.write_xk_message_1().unwrap();
    responder.read_xk_message_1(&m1).unwrap();
    responder.write_xk_message_2().unwrap();
    assert_eq!(
        responder.read_xk_message_3(&[2; 72]),
        Err(NoiseError::MessageTooShort { expected: 73, got: 72 })
    );
}

#[test]
fn an_ephemeral_that_is_no_key_is_refused() {
    let (_, mut responder) = ik_ends();
    let before = responder.handshake_hash();
    assert_eq!(responder.read_message_1(&[4; 106]), Err(NoiseError::InvalidPublicKey));
    assert_eq!(responder.read_xk_message_1(&[0; 33]), Err(NoiseError::InvalidPublicKey));
    assert_eq!(responder.handshake_hash(), before);
}

#[test]
fn a_draw_that_is_no_secret_key_changes_nothing() {
    let (mut initiator, mut responder) = ik_ends();
    let before = initiator.handshake_hash();
    assert_eq!(initiator.write_message_1_with(&[0; 32]), Err(NoiseError::InvalidSecretKey));
    assert_eq!(initiator.write_xk_message_1_with(&[255; 32]), Err(NoiseError::InvalidSecretKey));
    assert_eq!(initiator.handshake_hash(), before);
    assert_eq!(initiator.progress(), HandshakeProgress::Initial);

    let m1 = initiator.write_message_1().unwrap();
    responder.read_message_1(&m1).unwrap();
    let before = responder.handshake_hash();
    assert_eq!(responder.write_message_2_with(&[0; 32]), Err(NoiseError::InvalidSecretKey));
    assert_eq!(responder.write_xk_message_2_with(&[0; 32]), Err(NoiseError::InvalidSecretKey));
    assert_eq!(responder.handshake_hash(), before);
    responder.write_message_2().unwrap();
}

#[test]
fn tampering_is_noticed_in_every_encrypted_part() {
    let (mut initiator, _) = ik_ends();
    let m1 = initiator.write_message_1().unwrap();
    for at in [33, 81, 82, 105] {
        let (_, mut responder) = ik_ends();
        let mut bad = m1.clone();
        bad[at] ^= 0x80;
        assert_eq!(responder.read_message_1(&bad), Err(NoiseError::DecryptionFailed));
        assert_eq!(responder.progress(), HandshakeProgress::Initial);
        assert_eq!(responder.remote_epoch(), None);
        // The static key authenticates on its own, before the epoch.
        assert_eq!(responder.remote_static().is_some(), at >= 82);
    }
}

#[test]
fn a_session_needs_a_complete_handshake() {
    let (initiator, _) = ik_ends();
    assert_eq!(initiator.into_session().err(), Some(NoiseError::HandshakeNotComplete));
}

#[test]
fn secret_keys_lie_between_zero_and_the_group_order() {
    let order = unhex("fffffffffffffffffffffffffffffffebaaedce6af48a03bbfd25e8cd0364141");
    let mut bytes = [0u8; 32];
    assert!(Keypair::from_secret_bytes(&bytes).is_err());
    bytes[31] = 1;
    let generator = Keypair::from_secret_bytes(&bytes).unwrap().public_key();
    assert_eq!(
        hex(&generator.serialize()),
        "0279be667ef9dcbbac55a06295ce870b07029bfcdb2dce28d959f2815b16f81798"
    );
    bytes.copy_from_slice(&order);
    assert_eq!(Keypair::from_secret_bytes(&bytes).err(), Some(NoiseError::InvalidSecretKey));
    bytes[31] -= 1;
    assert!(Keypair::from_secret_bytes(&bytes).is_ok());
}

#[test]
fn public_keys_are_points_of_the_curve() {
    let key = pair(1).public_key();
    assert_eq!(
        hex(&key.serialize()),
        "031b84c5567b126440995d3ed5aaba0565d71e1834604819ff9c17f5e9d5dd078f"
    );
    assert_eq!(PublicKey::from_slice(&key.serialize()), Ok(key));
    assert_eq!(PublicKey::from_slice(&key.serialize()[1..]), Err(NoiseError::InvalidPublicKey));
    let mut bytes = key.serialize();
    bytes[0] = 5;
    assert_eq!(PublicKey::from_slice(&bytes), Err(NoiseError::InvalidPublicKey));
    // No point of the curve has 5 as its first coordinate.
    let mut off_curve = [0u8; 33];
    off_curve[0] = 2;
    off_curve[32] = 5;
    assert_eq!(PublicKey::from_slice(&off_curve), Err(NoiseError::InvalidPublicKey));
}

#[test]
fn short_protocol_names_are_padded() {
    let mut state = SymmetricState::initialize(b"short");
    assert_eq!(
        hex(&state.handshake_hash()),
        "73686f7274000000000000000000000000000000000000000000000000000000"
    );
    state.mix_hash(b"abc");
    assert_eq!(
        hex(&state.handshake_hash()),
        "b14a862c97e5af1c5bcb8fe87fc226079f55b54c23fa00effeeca435ca63b441"
    );
    state.mix_key(b"ikm");
    let mut peer = state.clone();
    let sealed = state.encrypt_and_hash(b"pt").unwrap();
    assert_eq!(hex(&sealed), "f756a2cfbe9e1b54b41d8e319c9a3ad05c71");
    assert_eq!(
        hex(&state.handshake_hash()),
        "b9f6669f3fd19935bf5345b9c56b72ad1036abcc26220c91d2db7eb815db5395"
    );
    assert_eq!(peer.decrypt_and_hash(&sealed).unwrap(), b"pt");
    assert_eq!(peer.handshake_hash(), state.handshake_hash());
}

#[test]
fn a_symmetric_state_without_a_key_passes_text_through() {
    let mut state = SymmetricState::initialize(b"short");
    let mut peer = state.clone();
    let text = state.encrypt_and_hash(b"plain").unwrap();
    assert_eq!(text, b"plain");
    assert_eq!(peer.decrypt_and_hash(&text).unwrap(), b"plain");
    assert_eq!(peer.handshake_hash(), state.handshake_hash());
}

#[test]
fn the_hash_does_not_enter_the_cipher() {
    let mut a = SymmetricState::initialize(b"short");
    a.mix_key(b"ikm");
    let mut b = a.clone();
    b.mix_hash(b"something else");
    assert_ne!(a.handshake_hash(), b.handshake_hash());
    assert_eq!(a.encrypt_and_hash(b"pt").unwrap(), b.encrypt_and_hash(b"pt").unwrap());
}

#[test]
fn ciphers_count_their_nonces() {
    let mut cipher = CipherState::new([7; 32]);
    let first = cipher.encrypt(b"abc").unwrap();
    let second = cipher.encrypt(b"abc").unwrap();
    assert_eq!(hex(&first), "56e64a035add04aa6e415e05d1bb00811cd36a");
    assert_eq!(hex(&second), "db3153a67b92550c1fe113577aeb7d2a10d960");

    let mut peer = CipherState::empty();
    peer.initialize_key(&[7; 32]);
    // A refused ciphertext uses up no nonce.
    assert_eq!(peer.decrypt(&second), Err(NoiseError::DecryptionFailed));
    assert_eq!(peer.decrypt(&first).unwrap(), b"abc");
    assert_eq!(peer.decrypt(&first), Err(NoiseError::DecryptionFailed));
    assert_eq!(peer.decrypt(&second).unwrap(), b"abc");
}

#[test]
fn ciphers_refuse_what_does_not_fit() {
    let mut cipher = CipherState::new([7; 32]);
    assert_eq!(
        cipher.encrypt(&vec![0; 65520]),
        Err(NoiseError::MessageTooLarge { size: 65520 })
    );
    assert_eq!(cipher.encrypt(&vec![0; 65519]).unwrap().len(), 65535);
    assert_eq!(
        cipher.decrypt(&[0; 15]),
        Err(NoiseError::MessageTooShort { expected: 16, got: 15 })
    );
    let mut empty = CipherState::empty();
    assert_eq!(empty.encrypt(b"plain").unwrap(), b"plain");
    assert_eq!(empty.decrypt(b"plain").unwrap(), b"plain");
}

#[test]
fn ciphers_stop_when_the_nonces_run_out() {
    let mut cipher = CipherState::new([7; 32]);
    let mut peer = cipher.clone();
    cipher.set_nonce(u64::MAX - 1);
    peer.set_nonce(u64::MAX - 1);
    let last = cipher.encrypt(b"last").unwrap();
    assert_eq!(peer.decrypt(&last).unwrap(), b"last");
    assert_eq!(cipher.encrypt(b"more"), Err(NoiseError::NonceOverflow));
    assert_eq!(peer.decrypt(&last), Err(NoiseError::NonceOverflow));
}

#[test]
fn erased_keypairs_hold_zeros() {
    let mut keys = pair(9);
    let copy = keys;
    assert_eq!(keys.secret_bytes(), &[9; 32]);
    keys.erase();
    assert_eq!(keys.secret_bytes(), &[0; 32]);
    assert_eq!(copy.secret_bytes(), &[9; 32]);
}

#[test]
fn a_decrypted_static_that_is_no_key_is_refused() {
    let ephemeral = pair(3);
    let e_pub = ephemeral.public_key().serialize();
    let responder_static = pair(2).public_key();
    let mut symmetric = SymmetricState::initialize(b"Noise_IK_secp256k1_ChaChaPoly_SHA256");
    symmetric.mix_hash(&HandshakeState::normalize_for_premessage(&responder_static));
    symmetric.mix_hash(&e_pub);
    symmetric.mix_key(&HandshakeState::ecdh(&ephemeral, &responder_static));
    let mut message = e_pub.to_vec();
    message.extend(symmetric.encrypt_and_hash(&[0; 33]).unwrap());
    message.extend([0; 24]);

    let (_, mut responder) = ik_ends();
    assert_eq!(responder.read_message_1(&message), Err(NoiseError::InvalidPublicKey));
    assert_eq!(responder.remote_static(), None);
    assert_eq!(responder.progress(), HandshakeProgress::Initial);
    // What was read up to there has been mixed in.
    assert_eq!(responder.handshake_hash(), symmetric.handshake_hash());
}

#[test]
fn the_description_holds_no_secrets() {
    let (mut initiator, _) = ik_ends();
    assert_eq!(
        initiator.debug_string(),
        "HandshakeState { pattern: Ik, role: Initiator, progress: Initial, has_ephemeral: false, \
         has_remote_static: true, has_remote_ephemeral: false, has_local_epoch: true, \
         has_remote_epoch: false }"
    );
    initiator.write_message_1().unwrap();
    assert!(initiator.debug_string().contains("progress: Message1Done, has_ephemeral: true"));
    let responder = HandshakeState::new_xk_responder(pair(2));
    assert!(responder.debug_string().starts_with("HandshakeState { pattern: Xk, role: Responder"));
}
