//! How the two ends of a handshake fit together.

use vstd::prelude::*;

use crate::noise::crypto;
use crate::noise::error::NoiseErrorView;
use crate::noise::model;
use crate::noise::model::{HandshakeModel, HandshakeStep};
use crate::noise::symmetric::SymmetricModel;
use crate::noise::{
    HandshakeProgress, HandshakeRole, NoisePattern, HANDSHAKE_MSG1_SIZE, HANDSHAKE_MSG2_SIZE,
    TAG_SIZE, XK_HANDSHAKE_MSG1_SIZE, XK_HANDSHAKE_MSG2_SIZE, XK_HANDSHAKE_MSG3_SIZE,
};

verus! {

/// Whether what `state` encrypts is decrypted again by an equal state, which
/// then stands where `state` does.
pub open spec fn opens(state: SymmetricModel, plaintext: Seq<u8>) -> bool {
    &&& state.decrypt_and_hash(state.sealed(plaintext)) == (
        Ok::<Seq<u8>, NoiseErrorView>(plaintext),
        state.after_sealing(plaintext),
    )
    &&& state.sealed(plaintext).len() == plaintext.len() + TAG_SIZE
}

/// Both ends of a key exchange arrive at one secret, whichever parity either
/// has on record for the other.
pub proof fn law_both_ends_share_the_secret(
    secret: Seq<u8>,
    public: Seq<u8>,
    peer_secret: Seq<u8>,
    peer_public: Seq<u8>,
)
    requires
        crypto::exchange_agrees(secret, public),
        crypto::is_secret_key(peer_secret),
        crypto::is_public_key(peer_public),
        crypto::x_only(peer_public) == crypto::x_only(crypto::public_key_of(secret)),
        crypto::x_only(crypto::public_key_of(peer_secret)) == crypto::x_only(public),
    ensures
        model::dh(peer_secret, peer_public) == model::dh(secret, public),
{
    assert(crypto::shared_point(peer_public, peer_secret).subrange(0, 32)
        == crypto::shared_point(public, secret).subrange(0, 32));
}

/// IK message 1 is read by every responder in step with its writer.
pub proof fn law_message_1_is_read(before: HandshakeModel, e: Seq<u8>)
    requires
        before.wf(),
        before.local_epoch is Some,
        before.refusal(HandshakeRole::Initiator, HandshakeProgress::Initial) is None,
        crypto::is_secret_key(e),
        crypto::is_public_key(crypto::public_key_of(e)),
        crypto::is_public_key(crypto::public_key_of(before.static_secret)),
        crypto::exchange_agrees(e, before.remote_static->Some_0),
        crypto::exchange_agrees(before.static_secret, before.remote_static->Some_0),
        opens(before.after_es(e), crypto::public_key_of(before.static_secret)),
        opens(before.after_ss(e), before.local_epoch->Some_0),
    ensures
        model::message_1_is_read(
            before,
            before.write_message_1(e).0->Ok_0,
            before.write_message_1(e).1,
        ),
{
    let message = before.write_message_1(e).0->Ok_0;
    let after = before.write_message_1(e).1;
    let e_pub = crypto::public_key_of(e);
    let s_pub = crypto::public_key_of(before.static_secret);
    let rs = before.remote_static->Some_0;
    let epoch = before.local_epoch->Some_0;
    assert(message.subrange(0, 33) =~= e_pub);
    assert(message.subrange(33, 82) =~= before.after_es(e).sealed(s_pub));
    assert(message.subrange(82, 106) =~= before.after_ss(e).sealed(epoch));
    assert forall|peer: HandshakeModel| #[trigger] model::in_step(before, peer) implies {
        let (outcome, peer_after) = peer.read_message_1(message);
        &&& outcome is Ok
        &&& model::in_step(after, peer_after)
        &&& peer_after.remote_static == Some(s_pub)
        &&& peer_after.remote_epoch == before.local_epoch
    } by {
        law_both_ends_share_the_secret(e, rs, peer.static_secret, e_pub);
        law_both_ends_share_the_secret(before.static_secret, rs, peer.static_secret, s_pub);
    }
}

/// IK message 2 is read by every initiator in step with its writer.
pub proof fn law_message_2_is_read(before: HandshakeModel, e: Seq<u8>)
    requires
        before.wf(),
        before.local_epoch is Some,
        before.refusal(HandshakeRole::Responder, HandshakeProgress::Message1Done) is None,
        crypto::is_secret_key(e),
        crypto::is_public_key(crypto::public_key_of(e)),
        crypto::exchange_agrees(e, before.remote_ephemeral->Some_0),
        crypto::exchange_agrees(before.static_secret, before.remote_ephemeral->Some_0),
        opens(before.after_se(e), before.local_epoch->Some_0),
    ensures
        model::message_2_is_read(
            before,
            before.write_message_2(e).0->Ok_0,
            before.write_message_2(e).1,
        ),
{
    let message = before.write_message_2(e).0->Ok_0;
    let after = before.write_message_2(e).1;
    let e_pub = crypto::public_key_of(e);
    let re = before.remote_ephemeral->Some_0;
    let epoch = before.local_epoch->Some_0;
    assert(message.subrange(0, 33) =~= e_pub);
    assert(message.subrange(33, 57) =~= before.after_se(e).sealed(epoch));
    assert forall|peer: HandshakeModel| #[trigger] model::in_step(peer, before) implies {
        let (outcome, peer_after) = peer.read_message_2(message);
        &&& outcome is Ok
        &&& model::in_step(peer_after, after)
        &&& peer_after.remote_epoch == before.local_epoch
    } by {
        let peer_e = peer.ephemeral->Some_0;
        law_both_ends_share_the_secret(e, re, peer_e, e_pub);
        law_both_ends_share_the_secret(
            before.static_secret,
            re,
            peer_e,
            peer.remote_static->Some_0,
        );
    }
}

/// XK message 1 is read by every responder in step with its writer.
pub proof fn law_xk_message_1_is_read(before: HandshakeModel, e: Seq<u8>)
    requires
        before.wf(),
        before.refusal(HandshakeRole::Initiator, HandshakeProgress::Initial) is None,
        crypto::is_secret_key(e),
        crypto::is_public_key(crypto::public_key_of(e)),
        crypto::exchange_agrees(e, before.remote_static->Some_0),
    ensures
        model::xk_message_1_is_read(
            before,
            before.write_xk_message_1(e).0->Ok_0,
            before.write_xk_message_1(e).1,
        ),
{
    let message = before.write_xk_message_1(e).0->Ok_0;
    let after = before.write_xk_message_1(e).1;
    assert forall|peer: HandshakeModel| #[trigger] model::in_step(before, peer) implies {
        let (outcome, peer_after) = peer.read_xk_message_1(message);
        &&& outcome is Ok
        &&& model::in_step(after, peer_after)
    } by {
        law_both_ends_share_the_secret(
            e,
            before.remote_static->Some_0,
            peer.static_secret,
            crypto::public_key_of(e),
        );
    }
}

/// XK message 2 is read by every initiator in step with its writer.
pub proof fn law_xk_message_2_is_read(before: HandshakeModel, e: Seq<u8>)
    requires
        before.wf(),
        before.local_epoch is Some,
        before.refusal(HandshakeRole::Responder, HandshakeProgress::Message1Done) is None,
        crypto::is_secret_key(e),
        crypto::is_public_key(crypto::public_key_of(e)),
        crypto::exchange_agrees(e, before.remote_ephemeral->Some_0),
        opens(before.after_ee(e), before.local_epoch->Some_0),
    ensures
        model::xk_message_2_is_read(
            before,
            before.write_xk_message_2(e).0->Ok_0,
            before.write_xk_message_2(e).1,
        ),
{
    let message = before.write_xk_message_2(e).0->Ok_0;
    let after = before.write_xk_message_2(e).1;
    let e_pub = crypto::public_key_of(e);
    let re = before.remote_ephemeral->Some_0;
    let epoch = before.local_epoch->Some_0;
    assert(message.subrange(0, 33) =~= e_pub);
    assert(message.subrange(33, 57) =~= before.after_ee(e).sealed(epoch));
    assert forall|peer: HandshakeModel| #[trigger] model::in_step(peer, before) implies {
        let (outcome, peer_after) = peer.read_xk_message_2(message);
        &&& outcome is Ok
        &&& model::in_step(peer_after, after)
        &&& peer_after.remote_epoch == before.local_epoch
    } by {
        law_both_ends_share_the_secret(e, re, peer.ephemeral->Some_0, e_pub);
    }
}

/// XK message 3 is read by every responder in step with its writer.
pub proof fn law_xk_message_3_is_read(before: HandshakeModel)
    requires
        before.wf(),
        before.local_epoch is Some,
        before.refusal(HandshakeRole::Initiator, HandshakeProgress::Message2Done) is None,
        crypto::is_public_key(crypto::public_key_of(before.static_secret)),
        crypto::exchange_agrees(before.static_secret, before.remote_ephemeral->Some_0),
        opens(before.symmetric, crypto::public_key_of(before.static_secret)),
        opens(before.after_xk_se(), before.local_epoch->Some_0),
    ensures
        model::xk_message_3_is_read(
            before,
            before.write_xk_message_3().0->Ok_0,
            before.write_xk_message_3().1,
        ),
{
    let message = before.write_xk_message_3().0->Ok_0;
    let after = before.write_xk_message_3().1;
    let s_pub = crypto::public_key_of(before.static_secret);
    let re = before.remote_ephemeral->Some_0;
    let epoch = before.local_epoch->Some_0;
    assert(message.subrange(0, 49) =~= before.symmetric.sealed(s_pub));
    assert(message.subrange(49, 73) =~= before.after_xk_se().sealed(epoch));
    assert forall|peer: HandshakeModel| #[trigger] model::in_step(before, peer) implies {
        let (outcome, peer_after) = peer.read_xk_message_3(message);
        &&& outcome is Ok
        &&& model::in_step(after, peer_after)
        &&& peer_after.remote_static == Some(s_pub)
        &&& peer_after.remote_epoch == before.local_epoch
    } by {
        law_both_ends_share_the_secret(
            before.static_secret,
            re,
            peer.ephemeral->Some_0,
            s_pub,
        );
    }
}

/// Two fresh handshakes of one pattern are in step when the initiator means
/// to reach the responder's key, even if it has that key with the wrong
/// parity.
pub proof fn law_fresh_ends_are_in_step(
    pattern: NoisePattern,
    initiator_secret: Seq<u8>,
    responder_secret: Seq<u8>,
    responder_static: Seq<u8>,
)
    requires
        crypto::is_secret_key(initiator_secret),
        crypto::is_secret_key(responder_secret),
        crypto::is_public_key(responder_static),
        crypto::is_public_key(crypto::public_key_of(responder_secret)),
        crypto::x_only(responder_static) == crypto::x_only(
            crypto::public_key_of(responder_secret),
        ),
    ensures
        model::in_step(
            HandshakeModel::initiator(pattern, initiator_secret, responder_static),
            HandshakeModel::responder(pattern, responder_secret),
        ),
{
    law_normalizing_drops_only_the_parity(
        responder_static,
        crypto::public_key_of(responder_secret),
    );
}

/// Two public keys have one normal form exactly when they agree but for
/// parity.
pub proof fn law_normalizing_drops_only_the_parity(a: Seq<u8>, b: Seq<u8>)
    requires
        crypto::is_public_key(a),
        crypto::is_public_key(b),
    ensures
        model::normalized(a) == model::normalized(b) <==> crypto::x_only(a) == crypto::x_only(b),
{
    if crypto::x_only(a) == crypto::x_only(b) {
        assert forall|i: int| 0 <= i < 33 implies model::normalized(a)[i] == model::normalized(
            b,
        )[i] by {
            if i > 0 {
                assert(a[i] == crypto::x_only(a)[i - 1]);
                assert(b[i] == crypto::x_only(b)[i - 1]);
            }
        }
        assert(model::normalized(a) =~= model::normalized(b));
    }
    if model::normalized(a) == model::normalized(b) {
        assert forall|i: int| 0 <= i < 32 implies crypto::x_only(a)[i] == crypto::x_only(b)[i] by {
            assert(model::normalized(a)[i + 1] == model::normalized(b)[i + 1]);
        }
        assert(crypto::x_only(a) =~= crypto::x_only(b));
    }
}

/// The sessions of two ends in step fit together, and each end has the
/// other's static key: the responder as it is, the initiator up to parity.
pub proof fn law_sessions_fit_together(initiator: HandshakeModel, responder: HandshakeModel)
    requires
        model::in_step(initiator, responder),
    ensures
        model::sessions_fit(initiator.session(), responder.session()),
        responder.remote_static is Some ==> responder.session().remote_static
            == crypto::public_key_of(initiator.static_secret),
        crypto::x_only(initiator.session().remote_static) == crypto::x_only(
            crypto::public_key_of(responder.static_secret),
        ),
{
}

/// An IK handshake completes: from two ends in step, with message 1 written
/// at one and message 2 at the other, both arrive at sessions that fit
/// together, and each knows the other's epoch and static key.
pub proof fn law_ik_handshake_completes(
    initiator: HandshakeModel,
    responder: HandshakeModel,
    e1: Seq<u8>,
    e2: Seq<u8>,
)
    requires
        model::in_step(initiator, responder),
        initiator.write_message_1(e1).0 is Ok,
        model::message_1_is_read(
            initiator,
            initiator.write_message_1(e1).0->Ok_0,
            initiator.write_message_1(e1).1,
        ),
        ({
            let (m1, _) = initiator.write_message_1(e1);
            let (_, responder_1) = responder.read_message_1(m1->Ok_0);
            let (m2, responder_2) = responder_1.write_message_2(e2);
            m2 is Ok && model::message_2_is_read(responder_1, m2->Ok_0, responder_2)
        }),
    ensures
        ({
            let (m1, initiator_1) = initiator.write_message_1(e1);
            let (first, responder_1) = responder.read_message_1(m1->Ok_0);
            let (m2, responder_2) = responder_1.write_message_2(e2);
            let (second, initiator_2) = initiator_1.read_message_2(m2->Ok_0);
            &&& first is Ok
            &&& second is Ok
            &&& initiator_2.progress == HandshakeProgress::Complete
            &&& responder_2.progress == HandshakeProgress::Complete
            &&& model::sessions_fit(initiator_2.session(), responder_2.session())
            &&& responder_2.session().remote_static == crypto::public_key_of(
                initiator.static_secret,
            )
            &&& crypto::x_only(initiator_2.session().remote_static) == crypto::x_only(
                crypto::public_key_of(responder.static_secret),
            )
            &&& responder_2.remote_epoch == initiator.local_epoch
            &&& initiator_2.remote_epoch == responder.local_epoch
        }),
{
    let (m1, initiator_1) = initiator.write_message_1(e1);
    let (_, responder_1) = responder.read_message_1(m1->Ok_0);
    let (m2, responder_2) = responder_1.write_message_2(e2);
    let (_, initiator_2) = initiator_1.read_message_2(m2->Ok_0);
    assert(model::in_step(initiator_1, responder_1));
    assert(model::in_step(initiator_2, responder_2));
    law_sessions_fit_together(initiator_2, responder_2);
}

/// An XK handshake completes: from two ends in step, with messages 1 and 3
/// written at one and message 2 at the other, both arrive at sessions that fit
/// together, and each knows the other's epoch and static key.
pub proof fn law_xk_handshake_completes(
    initiator: HandshakeModel,
    responder: HandshakeModel,
    e1: Seq<u8>,
    e2: Seq<u8>,
)
    requires
        model::in_step(initiator, responder),
        initiator.write_xk_message_1(e1).0 is Ok,
        model::xk_message_1_is_read(
            initiator,
            initiator.write_xk_message_1(e1).0->Ok_0,
            initiator.write_xk_message_1(e1).1,
        ),
        ({
            let (m1, initiator_1) = initiator.write_xk_message_1(e1);
            let (_, responder_1) = responder.read_xk_message_1(m1->Ok_0);
            let (m2, responder_2) = responder_1.write_xk_message_2(e2);
            let (_, initiator_2) = initiator_1.read_xk_message_2(m2->Ok_0);
            let (m3, initiator_3) = initiator_2.write_xk_message_3();
            &&& m2 is Ok
            &&& model::xk_message_2_is_read(responder_1, m2->Ok_0, responder_2)
            &&& m3 is Ok
            &&& model::xk_message_3_is_read(initiator_2, m3->Ok_0, initiator_3)
        }),
    ensures
        ({
            let (m1, initiator_1) = initiator.write_xk_message_1(e1);
            let (first, responder_1) = responder.read_xk_message_1(m1->Ok_0);
            let (m2, responder_2) = responder_1.write_xk_message_2(e2);
            let (second, initiator_2) = initiator_1.read_xk_message_2(m2->Ok_0);
            let (m3, initiator_3) = initiator_2.write_xk_message_3();
            let (third, responder_3) = responder_2.read_xk_message_3(m3->Ok_0);
            &&& first is Ok
            &&& second is Ok
            &&& third is Ok
            &&& initiator_3.progress == HandshakeProgress::Complete
            &&& responder_3.progress == HandshakeProgress::Complete
            &&& model::sessions_fit(initiator_3.session(), responder_3.session())
            &&& responder_3.session().remote_static == crypto::public_key_of(
                initiator.static_secret,
            )
            &&& crypto::x_only(initiator_3.session().remote_static) == crypto::x_only(
                crypto::public_key_of(responder.static_secret),
            )
            &&& responder_3.remote_epoch == initiator.local_epoch
            &&& initiator_3.remote_epoch == responder.local_epoch
        }),
{
    let (m1, initiator_1) = initiator.write_xk_message_1(e1);
    let (_, responder_1) = responder.read_xk_message_1(m1->Ok_0);
    let (m2, responder_2) = responder_1.write_xk_message_2(e2);
    let (_, initiator_2) = initiator_1.read_xk_message_2(m2->Ok_0);
    let (m3, initiator_3) = initiator_2.write_xk_message_3();
    let (_, responder_3) = responder_2.read_xk_message_3(m3->Ok_0);
    assert(model::in_step(initiator_1, responder_1));
    assert(model::in_step(initiator_2, responder_2));
    assert(model::in_step(initiator_3, responder_3));
    law_sessions_fit_together(initiator_3, responder_3);
}

/// A forged message 2 does no harm where it is tried: the genuine one is then
/// read as if the forgery had never come.
pub proof fn law_forgery_leaves_the_genuine_reply_readable(
    state: HandshakeModel,
    forged: Seq<u8>,
    genuine: Seq<u8>,
)
    ensures
        ({
            let (outcome, after) = state.or_unchanged(state.read_message_2(forged));
            outcome is Err ==> after.or_unchanged(after.read_message_2(genuine))
                == state.or_unchanged(state.read_message_2(genuine))
        }),
        ({
            let (outcome, after) = state.or_unchanged(state.read_xk_message_2(forged));
            outcome is Err ==> after.or_unchanged(after.read_xk_message_2(genuine))
                == state.or_unchanged(state.read_xk_message_2(genuine))
        }),
{
}

/// A step that does not fit the handshake's role or stage is refused with
/// that reason, a message of the wrong length with that one, and neither
/// changes anything.
pub proof fn law_refused_steps_change_nothing(
    state: HandshakeModel,
    message: Seq<u8>,
    e: Seq<u8>,
)
    ensures
        state.refusal(HandshakeRole::Initiator, HandshakeProgress::Initial) matches Some(error)
            ==> state.write_message_1(e) == (Err::<Seq<u8>, _>(error), state)
            && state.write_xk_message_1(e) == (Err::<Seq<u8>, _>(error), state),
        state.refusal(HandshakeRole::Responder, HandshakeProgress::Message1Done) matches Some(
            error,
        ) ==> state.write_message_2(e) == (Err::<Seq<u8>, _>(error), state)
            && state.write_xk_message_2(e) == (Err::<Seq<u8>, _>(error), state),
        state.refusal(HandshakeRole::Initiator, HandshakeProgress::Message2Done) matches Some(
            error,
        ) ==> state.write_xk_message_3() == (Err::<Seq<u8>, _>(error), state),
        state.read_refusal(
            HandshakeRole::Responder,
            HandshakeProgress::Initial,
            HANDSHAKE_MSG1_SIZE as nat,
            message.len(),
        ) matches Some(error) ==> state.read_message_1(message) == (Err::<(), _>(error), state),
        state.read_refusal(
            HandshakeRole::Initiator,
            HandshakeProgress::Message1Done,
            HANDSHAKE_MSG2_SIZE as nat,
            message.len(),
        ) matches Some(error) ==> state.read_message_2(message) == (Err::<(), _>(error), state),
        state.read_refusal(
            HandshakeRole::Responder,
            HandshakeProgress::Initial,
            XK_HANDSHAKE_MSG1_SIZE as nat,
            message.len(),
        ) matches Some(error) ==> state.read_xk_message_1(message) == (Err::<(), _>(error), state),
        state.read_refusal(
            HandshakeRole::Initiator,
            HandshakeProgress::Message1Done,
            XK_HANDSHAKE_MSG2_SIZE as nat,
            message.len(),
        ) matches Some(error) ==> state.read_xk_message_2(message) == (Err::<(), _>(error), state),
        state.read_refusal(
            HandshakeRole::Responder,
            HandshakeProgress::Message2Done,
            XK_HANDSHAKE_MSG3_SIZE as nat,
            message.len(),
        ) matches Some(error) ==> state.read_xk_message_3(message) == (Err::<(), _>(error), state),
{
}

/// A step of a handshake's own pattern keeps what the pattern promises.
pub proof fn law_steps_keep_to_the_pattern(state: HandshakeModel, step: HandshakeStep)
    requires
        state.on_pattern(),
        step.belongs_to(state.pattern),
    ensures
        state.take(step).1.on_pattern(),
        state.take(step).1.pattern == state.pattern,
        state.take(step).1.role == state.role,
{
}

/// After any run of its own pattern's steps, whether they succeeded or failed,
/// a handshake that is complete knows its peer's static key and epoch. An
/// initiator starts with a static key, a responder without.
pub proof fn law_complete_handshakes_know_their_peer(
    pattern: NoisePattern,
    role: HandshakeRole,
    static_secret: Seq<u8>,
    remote_static: Option<Seq<u8>>,
    responder_static: Seq<u8>,
    steps: Seq<HandshakeStep>,
)
    requires
        role == HandshakeRole::Initiator ==> remote_static is Some,
        forall|i: int| 0 <= i < steps.len() ==> (#[trigger] steps[i]).belongs_to(pattern),
    ensures
        ({
            let end = HandshakeModel::start(
                pattern,
                role,
                static_secret,
                remote_static,
                responder_static,
            ).after_steps(steps);
            &&& end.on_pattern()
            &&& end.pattern == pattern
            &&& end.role == role
            &&& end.progress == HandshakeProgress::Complete ==> {
                &&& end.remote_static is Some
                &&& end.remote_epoch is Some
            }
        }),
    decreases steps.len(),
{
    if steps.len() > 0 {
        let shorter = steps.drop_last();
        assert forall|i: int| 0 <= i < shorter.len() implies (
        #[trigger] shorter[i]).belongs_to(pattern) by {
            assert(steps[i].belongs_to(pattern));
        }
        law_complete_handshakes_know_their_peer(
            pattern,
            role,
            static_secret,
            remote_static,
            responder_static,
            shorter,
        );
        assert(steps[steps.len() - 1].belongs_to(pattern));
        let start = HandshakeModel::start(
            pattern,
            role,
            static_secret,
            remote_static,
            responder_static,
        );
        law_steps_keep_to_the_pattern(start.after_steps(shorter), steps.last());
    }
}

/// A complete handshake takes no further message, to write or to read, of
/// either pattern: every such step is refused as not fitting, and changes
/// nothing.
pub proof fn law_complete_handshakes_take_no_step(state: HandshakeModel, step: HandshakeStep)
    requires
        state.progress == HandshakeProgress::Complete,
        !(step is SetLocalEpoch),
    ensures
        state.take(step).0 matches Some(NoiseErrorView::WrongState { .. }),
        state.take(step).1 == state,
{
}

/// Whatever the outcome, reading message 2 of either pattern touches only the
/// symmetric state, the peer's ephemeral key, the peer's epoch and the stage.
pub proof fn law_reading_message_2_touches_four_fields(state: HandshakeModel, message: Seq<u8>)
    ensures
        ({
            let after = state.read_message_2(message).1;
            after == HandshakeModel {
                symmetric: after.symmetric,
                remote_ephemeral: after.remote_ephemeral,
                remote_epoch: after.remote_epoch,
                progress: after.progress,
                ..state
            }
        }),
        ({
            let after = state.read_xk_message_2(message).1;
            after == HandshakeModel {
                symmetric: after.symmetric,
                remote_ephemeral: after.remote_ephemeral,
                remote_epoch: after.remote_epoch,
                progress: after.progress,
                ..state
            }
        }),
{
}

/// XK keeps the initiator's identity back: neither of its first two messages
/// changes what the responder knows of it.
pub proof fn law_xk_reveals_the_initiator_last(
    state: HandshakeModel,
    message: Seq<u8>,
    e: Seq<u8>,
)
    ensures
        state.read_xk_message_1(message).1.remote_static == state.remote_static,
        state.write_xk_message_2(e).1.remote_static == state.remote_static,
{
}

/// The transcript hash has no part in encryption: states that agree on the
/// cipher encrypt alike.
pub proof fn law_hash_does_not_enter_the_cipher(
    a: SymmetricModel,
    b: SymmetricModel,
    text: Seq<u8>,
)
    requires
        a.cipher == b.cipher,
    ensures
        a.encrypt_and_hash(text).0 == b.encrypt_and_hash(text).0,
        a.decrypt_and_hash(text).0 == b.decrypt_and_hash(text).0,
{
}

} // verus!
