//! What holds of every negotiation.
use vstd::prelude::*;

use crate::der::tlv;
use crate::error::Krb5ErrorV;
use crate::gssapi::krb5::acceptor::accept_step_spec;
use crate::gssapi::krb5::context::{mic_spec, verify_mic_spec};
use crate::gssapi::krb5::initiator::init_step_spec;
use crate::gssapi::krb5::{AcceptStepV, InitStepV, MECH_KRB5};
use crate::gssapi::spnego::acceptor::{acc_emit_spec, acc_inner_spec, acc_mic_spec, acc_new_spec, first_supported, settle_spec, AccOutgoing, AccSend, Settled, SpnegoAcceptorV};
use crate::gssapi::spnego::der::{decode_init_spec, decode_resp_spec, init_der, mech_set_der, oid_list, req_flags_spec, resp_der, NegTokenInitV, NegTokenRespV};
use crate::gssapi::spnego::initiator::{emit_spec, first_kerb, init_mic_spec, inner_step_spec, open_spec, reply_spec, Outgoing, Send, SpnegoInitiatorV};
use crate::gssapi::spnego::{handle_mic_spec, kerb_mech, MicState, NegState, MECH_KRB5_OLD, MECH_KRB5_WRONG, MECH_NTLMSSP, MECH_SPNEGO};
use crate::gssapi::token::parse_header_spec;
use crate::gssapi::GssError;
use crate::protocol::ap::{EntropyV, KeySource};
use crate::time::Moment;

verus! {

/// The object identifiers of the mechanisms: of the negotiation itself, of
/// Kerberos, and the two others under which Kerberos is offered, and of NTLM.
pub proof fn law_identifiers(oid: Seq<u8>)
    ensures
        MECH_SPNEGO@ == seq![0x2bu8, 0x06u8, 0x01u8, 0x05u8, 0x05u8, 0x02u8],
        MECH_KRB5_OLD@ == seq![0x2bu8, 0x05u8, 0x01u8, 0x05u8, 0x02u8],
        MECH_KRB5_WRONG@ == seq![0x2au8, 0x86u8, 0x48u8, 0x82u8, 0xf7u8, 0x12u8, 0x01u8, 0x02u8, 0x02u8],
        MECH_NTLMSSP@ == seq![0x2bu8, 0x06u8, 0x01u8, 0x04u8, 0x01u8, 0x82u8, 0x37u8, 0x02u8, 0x02u8, 0x0au8],
        kerb_mech(oid) <==> oid == MECH_KRB5@ || oid == MECH_KRB5_OLD@ || oid == MECH_KRB5_WRONG@,
{
    assert(MECH_SPNEGO@ =~= seq![0x2bu8, 0x06u8, 0x01u8, 0x05u8, 0x05u8, 0x02u8]);
    assert(MECH_KRB5_OLD@ =~= seq![0x2bu8, 0x05u8, 0x01u8, 0x05u8, 0x02u8]);
    assert(MECH_KRB5_WRONG@ =~= seq![0x2au8, 0x86u8, 0x48u8, 0x82u8, 0xf7u8, 0x12u8, 0x01u8, 0x02u8, 0x02u8]);
    assert(MECH_NTLMSSP@ =~= seq![0x2bu8, 0x06u8, 0x01u8, 0x04u8, 0x01u8, 0x82u8, 0x37u8, 0x02u8, 0x02u8, 0x0au8]);
}

/// The four states have the codes 0 to 3, and a code stands for its state and
/// for no other.
pub proof fn law_state_codes(s: NegState, n: u8)
    ensures
        NegState::AcceptCompleted.code() == 0,
        NegState::AcceptIncomplete.code() == 1,
        NegState::Reject.code() == 2,
        NegState::RequestMic.code() == 3,
        NegState::of_code(s.code()) == Some(s),
        n > 3 ==> NegState::of_code(n) is None,
{
}

/// The octets of the two messages: the opening names the negotiation's
/// mechanism and holds, by their numbers, the mechanisms offered, a token and
/// a signature; a reply holds its state, the mechanism chosen, a token that is
/// not empty and a signature.
pub proof fn law_messages(types: Seq<u8>, state: NegState, chosen: Option<Seq<u8>>, token: Option<Seq<u8>>, mic: Option<Seq<u8>>)
    ensures
        init_der(types, token, mic, false) == tlv(
            0x60,
            tlv(0x06, MECH_SPNEGO@) + tlv(
                0xa0,
                tlv(
                    0x30,
                    tlv(0xa0, types) + (if token is Some { tlv(0xa2, tlv(0x04, token->0)) } else { Seq::empty() }) + (if mic is Some {
                        tlv(0xa3, tlv(0x04, mic->0))
                    } else {
                        Seq::empty()
                    }),
                ),
            ),
        ),
        resp_der(state, chosen, token, mic) == tlv(
            0xa1,
            tlv(
                0x30,
                tlv(0xa0, tlv(0x0a, seq![state.code()])) + (if chosen is Some { tlv(0xa1, tlv(0x06, chosen->0)) } else { Seq::empty() })
                    + (if token is Some && token->0.len() > 0 { tlv(0xa2, tlv(0x04, token->0)) } else { Seq::empty() }) + (
                if mic is Some { tlv(0xa3, tlv(0x04, mic->0)) } else { Seq::empty() }),
            ),
        ),
{
}

/// An acceptor that takes an opening has chosen the first mechanism offered
/// that it supports, keeps the octets of the whole offer to be signed, and
/// asks for a signature where its choice was not the first.
pub proof fn law_offer_taken(s: SpnegoAcceptorV, input: Seq<u8>)
    requires
        acc_new_spec(s, input).1 is Ok,
    ensures
        ({
            let (after, r) = acc_new_spec(s, input);
            let (init, der) = decode_init_spec(input)->Ok_0;
            let x = r->Ok_0;
            let offered = init.mech_types;
            &&& decode_init_spec(input) is Ok
            &&& after.der_mech_types == der
            &&& exists|i: int|
                {
                    &&& 0 <= i < offered.len()
                    &&& #[trigger] supports(s.mech_types, offered[i])
                    &&& forall|j: int| 0 <= j < i ==> !supports(s.mech_types, #[trigger] offered[j])
                    &&& after.internal_mech == Some(offered[i])
                    &&& after.mic.reqd <==> s.mic.reqd || i != 0
                    &&& x.neg == (if i == 0 { NegState::AcceptIncomplete } else { NegState::RequestMic })
                }
            &&& x.send == AccSend::Init
            &&& x.mechtok == init.mech_token
            &&& x.mic == init.mech_list_mic
            &&& after.send_supported_mech
            &&& !after.first
            &&& after.inner == s.inner
        }),
{
    let (init, der) = decode_init_spec(input)->Ok_0;
    lemma_first_supported(init.mech_types, s.mech_types);
    let i = first_supported(init.mech_types, s.mech_types)->0;
    assert(supports(s.mech_types, init.mech_types[i]));
}

/// Whether a mechanism is among those supported: by its own identifier, or as
/// Kerberos by the one with the wrong arc.
pub open spec fn supports(mechs: Seq<Seq<u8>>, oid: Seq<u8>) -> bool {
    if oid == MECH_KRB5_WRONG@ { mechs.contains(MECH_KRB5@) } else { mechs.contains(oid) }
}

proof fn lemma_first_supported(offered: Seq<Seq<u8>>, mechs: Seq<Seq<u8>>)
    ensures
        first_supported(offered, mechs) matches Some(i) ==> 0 <= i < offered.len() && supports(mechs, offered[i]) && forall|j: int|
            0 <= j < i ==> !supports(mechs, #[trigger] offered[j]),
        first_supported(offered, mechs) is None ==> forall|j: int| 0 <= j < offered.len() ==> !supports(mechs, #[trigger] offered[j]),
    decreases offered.len(),
{
    if offered.len() > 0 {
        let rest = offered.drop_first();
        lemma_first_supported(rest, mechs);
        assert forall|j: int|
            0 < j < offered.len() && (first_supported(rest, mechs) is None || j < first_supported(rest, mechs)->0 + 1) implies !supports(
            mechs,
            #[trigger] offered[j],
        ) by {
            assert(offered[j] == rest[j - 1]);
        }
        if first_supported(rest, mechs) is Some {
            let i = first_supported(rest, mechs)->0;
            assert(offered[i + 1] == rest[i]);
        }
    }
}

/// An opening without a mechanism that is supported is refused.
pub proof fn law_offer_refused(s: SpnegoAcceptorV, input: Seq<u8>, init: NegTokenInitV, der: Seq<u8>)
    requires
        decode_init_spec(input) == Ok::<(NegTokenInitV, Seq<u8>), GssError>((init, der)),
        forall|j: int| 0 <= j < init.mech_types.len() ==> !supports(s.mech_types, #[trigger] init.mech_types[j]),
    ensures
        acc_new_spec(s, input).1 == Err::<Settled, Krb5ErrorV>(Krb5ErrorV::Gss(GssError::BadMech)),
{
    lemma_first_supported(init.mech_types, s.mech_types);
}

/// Signatures are over the octets of the offer. One that came must verify over
/// them by the context, and counts as received then; one is sent, over them by
/// the context, exactly where one is required and none was sent before. The
/// negotiation is completed once both went, and not before where they are
/// required; where one is required and none came, the mechanism must still
/// have something to say.
pub proof fn law_signatures(s: MicState, came: Option<Seq<u8>>, talks: bool, der: Seq<u8>)
    requires
        handle_mic_spec(s, came, talks, der).1 is Ok,
    ensures
        ({
            let (after, r) = handle_mic_spec(s, came, talks, der);
            let reqd = s.mic.reqd || came is Some;
            let (read, ok) = verify_mic_spec(s.ctx, der, came->0);
            let ctx = if came is Some { read } else { s.ctx };
            &&& came is Some ==> !s.mic.rcvd && ok is Ok
            &&& came is None && s.mic.reqd ==> talks
            &&& after.mic.reqd == reqd
            &&& after.mic.rcvd == (s.mic.rcvd || came is Some)
            &&& after.mic.sent == (s.mic.sent || reqd)
            &&& r->Ok_0.mic is Some <==> reqd && !s.mic.sent
            &&& r->Ok_0.mic is Some ==> mic_spec(ctx, der).1 == Ok::<Seq<u8>, Krb5ErrorV>(r->Ok_0.mic->0) && after.ctx == mic_spec(
                ctx,
                der,
            ).0
            &&& r->Ok_0.mic is None ==> after.ctx == ctx
            &&& after.mic.sent && after.mic.rcvd ==> after.neg == NegState::AcceptCompleted
            &&& reqd && !(after.mic.sent && after.mic.rcvd) ==> after.neg == NegState::AcceptIncomplete
            &&& !reqd && !(after.mic.sent && after.mic.rcvd) ==> after.neg == s.neg
        }),
{
}

/// What an acceptor sends: on hints an opening with its own mechanisms, else a
/// reply with its state, the mechanism's token and the signature, in the first
/// one with the mechanism chosen; and it is complete exactly when its state
/// says so.
pub proof fn law_acceptor_sends(s: SpnegoAcceptorV, out: AccOutgoing, mechtok: Option<Seq<u8>>)
    ensures
        ({
            let (after, step) = acc_emit_spec(s, out, mechtok);
            let done = out.neg == NegState::AcceptCompleted;
            let token = match step {
                AcceptStepV::Complete { token } => token,
                AcceptStepV::ContinueNeeded(t) => Some(t),
            };
            &&& step is Complete <==> done
            &&& after.opened <==> s.opened || done
            &&& out.send == AccSend::Cont ==> token == Some(resp_der(out.neg, None, mechtok, out.mic))
            &&& out.send == AccSend::Init && s.send_supported_mech ==> token == Some(
                resp_der(out.neg, s.internal_mech, mechtok, out.mic),
            ) && !after.send_supported_mech
            &&& out.send == AccSend::Nothing && done ==> token is None
            &&& after.inner == s.inner
            &&& after.mic == s.mic
        }),
{
}

/// What an acceptor hands to the mechanism is the mechanism's token, framed
/// for the mechanism that was chosen or for Kerberos under another of its
/// identifiers; what the mechanism answers goes out, and once it is complete
/// the negotiation is, unless signatures are required.
pub proof fn law_acceptor_asks_mechanism<K: KeySource>(s: SpnegoAcceptorV, keys: K, x: Settled, now: Moment, env: EntropyV)
    requires
        acc_inner_spec(s, keys, x, now, env).1 is Ok,
        x.neg != NegState::RequestMic,
        x.mechtok is Some,
    ensures
        ({
            let (after, r) = acc_inner_spec(s, keys, x, now, env);
            let (inner, out) = accept_step_spec(s.inner->0, keys, x.mechtok->0, now, env);
            &&& s.inner is Some
            &&& out is Ok
            &&& after.inner == Some(inner)
            &&& out->Ok_0 matches AcceptStepV::Complete { token } ==> after.mech_complete && r->Ok_0.1 == token && r->Ok_0.0 == (
            if s.mic.reqd { x.neg } else { NegState::AcceptCompleted })
            &&& out->Ok_0 matches AcceptStepV::ContinueNeeded(t) ==> after.mech_complete == s.mech_complete && r->Ok_0 == (
                x.neg,
                Some(t),
            )
        }),
{
}

/// An initiator opens with its mechanisms from the first that is Kerberos on,
/// and keeps the octets of that offer to be signed.
pub proof fn law_opening(s: SpnegoInitiatorV)
    requires
        open_spec(s).1 is Ok,
    ensures
        ({
            let (after, r) = open_spec(s);
            &&& r->Ok_0 == Send::Init
            &&& !after.fresh
            &&& exists|i: int|
                {
                    &&& 0 <= i < s.mech_types.len()
                    &&& #[trigger] kerb_mech(s.mech_types[i])
                    &&& forall|j: int| 0 <= j < i ==> !kerb_mech(#[trigger] s.mech_types[j])
                    &&& after.mech_types == s.mech_types.skip(i)
                    &&& after.internal_mech == Some(s.mech_types[i])
                }
            &&& after.der_mech_types == mech_set_der(after.mech_types)
            &&& after.inner == s.inner
        }),
{
    lemma_first_kerb(s.mech_types);
    let i = first_kerb(s.mech_types)->0;
    assert(kerb_mech(s.mech_types[i]));
}

proof fn lemma_first_kerb(ms: Seq<Seq<u8>>)
    ensures
        first_kerb(ms) matches Some(i) ==> 0 <= i < ms.len() && kerb_mech(ms[i]) && forall|j: int|
            0 <= j < i ==> !kerb_mech(#[trigger] ms[j]),
    decreases ms.len(),
{
    if ms.len() > 0 && !kerb_mech(ms[0]) {
        let rest = ms.drop_first();
        lemma_first_kerb(rest);
        if first_kerb(rest) is Some {
            let i = first_kerb(rest)->0;
            assert(ms[i + 1] == rest[i]);
            assert forall|j: int| 0 <= j < i + 1 implies !kerb_mech(#[trigger] ms[j]) by {
                if j > 0 {
                    assert(ms[j] == rest[j - 1]);
                }
            }
        }
    }
}

/// What an initiator sends: the opening with its offer, the mechanism's token
/// and a signature, or a reply with its state, the token and the signature, or
/// nothing; it is complete exactly when there is nothing to send or its state
/// says so.
pub proof fn law_initiator_sends(s: SpnegoInitiatorV, out: Outgoing, mechtok: Option<Seq<u8>>)
    ensures
        ({
            let (after, step) = emit_spec(s, out, mechtok);
            let done = out.send == Send::Nothing || out.neg == NegState::AcceptCompleted;
            let token = match step {
                InitStepV::Complete(t) => t,
                InitStepV::Continue(t) => Some(t),
            };
            &&& step is Complete <==> done
            &&& after.opened <==> s.opened || done
            &&& out.send == Send::Init ==> token == Some(init_der(s.der_mech_types, mechtok, out.mic, false))
            &&& out.send == Send::Cont ==> token == Some(resp_der(out.neg, None, mechtok, out.mic))
            &&& out.send == Send::Nothing ==> token is None
            &&& after.inner == s.inner
            &&& after.mic == s.mic
        }),
{
}

/// What an initiator hands to the mechanism is the token of the reply, and
/// what the mechanism answers goes out; a mechanism that is complete is not
/// asked again, and a reply that rejects is refused whatever it answers.
pub proof fn law_initiator_asks_mechanism(s: SpnegoInitiatorV, send: Send, r: Option<NegTokenRespV>, now: Moment, denv: EntropyV, env: EntropyV)
    requires
        inner_step_spec(s, send, r, now, denv, env).1 is Ok,
    ensures
        ({
            let (after, x) = inner_step_spec(s, send, r, now, denv, env);
            let token = if r is Some { r->0.response_token } else { None::<Seq<u8>> };
            let (inner, out) = init_step_spec(s.inner->0, token, now, denv, env);
            &&& s.mech_complete ==> after == s && x->Ok_0 == (send, None::<Seq<u8>>)
            &&& !s.mech_complete ==> s.inner is Some && out is Ok && after.inner == Some(inner)
            &&& !s.mech_complete && r is Some ==> r->0.neg_state != Some(NegState::Reject)
            &&& !s.mech_complete ==> (out->Ok_0 matches InitStepV::Complete(t) ==> after.mech_complete && x->Ok_0.1 == t)
            &&& !s.mech_complete ==> (out->Ok_0 matches InitStepV::Continue(t) ==> !after.mech_complete && x->Ok_0 == (send, Some(t)))
        }),
{
}

/// A reply that rejects without a token ends the negotiation: as a bad
/// mechanism before one is settled, as a failure after. A first reply that
/// names a mechanism other than the one begun with is taken only if it was
/// offered and is Kerberos.
pub proof fn law_replies(s: SpnegoInitiatorV, r: NegTokenRespV)
    ensures
        r.neg_state == Some(NegState::Reject) && r.response_token is None ==> reply_spec(s, r) == (
            s,
            Err::<Send, Krb5ErrorV>(Krb5ErrorV::Gss(if s.nego_done { GssError::Failure } else { GssError::BadMech })),
        ),
        reply_spec(s, r).1 is Ok && !s.nego_done && r.supported_mech is Some && r.supported_mech != s.internal_mech
            && s.internal_mech is Some ==> kerb_mech(r.supported_mech->0) && (kerb_mech(s.internal_mech->0) || s.mech_types.contains(
            r.supported_mech->0,
        )),
        reply_spec(s, r).1 is Ok ==> reply_spec(s, r).0.nego_done,
{
}

/// An acceptor whose mechanism is not complete signs nothing and keeps its
/// state; one whose mechanism is complete has the offer's octets signed and
/// verified by the mechanism's context, and its state is what that gives.
pub proof fn law_acceptor_signs(s: SpnegoAcceptorV, send: AccSend, neg: NegState, came: Option<Seq<u8>>, mechtok: Option<Seq<u8>>)
    requires
        acc_mic_spec(s, send, neg, came, mechtok).1 is Ok,
    ensures
        ({
            let (after, r) = acc_mic_spec(s, send, neg, came, mechtok);
            let out = r->Ok_0;
            let (m, x) = handle_mic_spec(
                MicState { mic: s.mic, ctx: s.inner->0.ctx->0, neg },
                came,
                mechtok is Some && mechtok->0.len() > 0,
                s.der_mech_types,
            );
            &&& !s.mech_complete ==> after == s && out.mic is None && out.neg == neg && out.send == send
            &&& s.mech_complete ==> {
                &&& x is Ok
                &&& out.mic == x->Ok_0.mic
                &&& out.neg == m.neg
                &&& after.mic == m.mic
                &&& after.inner->0.ctx == Some(m.ctx)
                &&& after.inner->0.delegated == s.inner->0.delegated
                &&& send != AccSend::Hints && m.mic.sent && m.mic.rcvd ==> out.send == (if out.mic is Some {
                    AccSend::Cont
                } else {
                    AccSend::Nothing
                })
                &&& !(m.mic.sent && m.mic.rcvd) ==> out.send == send
            }
        }),
{
}

/// Once a mechanism is chosen, an acceptor takes the mechanism's token and the
/// signature out of the reply that came, which has one of them and chooses no
/// mechanism. A first message of no octets asks for hints.
pub proof fn law_acceptor_goes_on(s: SpnegoAcceptorV, input: Seq<u8>)
    requires
        settle_spec(s, input).1 is Ok,
    ensures
        ({
            let (after, r) = settle_spec(s, input);
            let x = r->Ok_0;
            let resp = decode_resp_spec(input);
            &&& s.first && input.len() == 0 ==> x.send == AccSend::Hints && x.mechtok is None && x.mic is None
                && after.der_mech_types == mech_set_der(s.mech_types) && after.inner == s.inner
            &&& (s.first && input.len() > 0) || (!s.first && s.internal_mech is None) ==> (after, r) == acc_new_spec(s, input)
            &&& !s.first && s.internal_mech is Some && input.len() > 0 && input[0] != 0x60 ==> {
                &&& after == s
                &&& resp is Ok
                &&& resp->Ok_0.supported_mech is None
                &&& x.mechtok is Some || x.mic is Some
                &&& x.mechtok == resp->Ok_0.response_token
                &&& x.mic == resp->Ok_0.mech_list_mic
                &&& x.send == AccSend::Cont
                &&& x.neg == NegState::AcceptIncomplete
            }
        }),
{
}

/// An initiator signs as an acceptor does.
pub proof fn law_initiator_signs(s: SpnegoInitiatorV, send: Send, came: Option<Seq<u8>>, mechtok: Option<Seq<u8>>)
    requires
        init_mic_spec(s, send, came, mechtok).1 is Ok,
    ensures
        ({
            let (after, r) = init_mic_spec(s, send, came, mechtok);
            let out = r->Ok_0;
            let (m, x) = handle_mic_spec(
                MicState { mic: s.mic, ctx: s.inner->0.ctx->0, neg: NegState::AcceptIncomplete },
                came,
                mechtok is Some && mechtok->0.len() > 0,
                s.der_mech_types,
            );
            &&& !s.mech_complete ==> after == s && out.mic is None && out.neg == NegState::AcceptIncomplete && out.send == send
            &&& s.mech_complete ==> {
                &&& x is Ok
                &&& out.mic == x->Ok_0.mic
                &&& out.neg == m.neg
                &&& after.mic == m.mic
                &&& after.inner->0.ctx == Some(m.ctx)
                &&& send != Send::Init && m.mic.sent && m.mic.rcvd ==> out.send == (if out.mic is Some {
                    Send::Cont
                } else {
                    Send::Nothing
                })
                &&& !(m.mic.sent && m.mic.rcvd) ==> out.send == send
            }
        }),
{
}

/// A first reply that keeps to the mechanism changes nothing but that one is
/// settled; one that chooses another begins it anew, with signatures required
/// exactly where the reply asks for them.
pub proof fn law_mechanism_settled(s: SpnegoInitiatorV, r: NegTokenRespV)
    requires
        reply_spec(s, r).1 is Ok,
        !s.nego_done,
        s.internal_mech is Some,
    ensures
        ({
            let (after, x) = reply_spec(s, r);
            let other = r.supported_mech->0;
            let kept = r.supported_mech is None || other == s.internal_mech->0 || (kerb_mech(other) && kerb_mech(s.internal_mech->0));
            &&& kept ==> after == (SpnegoInitiatorV { nego_done: true, ..s })
            &&& kept && s.mech_complete ==> x->Ok_0 == Send::Nothing
            &&& kept && !s.mech_complete ==> x->Ok_0 == Send::Cont && r.response_token is Some
            &&& !kept ==> {
                &&& s.mech_types.contains(other)
                &&& kerb_mech(other)
                &&& r.neg_state == Some(NegState::RequestMic)
                &&& x->Ok_0 == Send::Cont
                &&& after.internal_mech == Some(other)
                &&& !after.mech_complete
                &&& after.mic.reqd
                &&& after.mech_types == s.mech_types
                &&& after.der_mech_types == s.der_mech_types
                &&& after.inner == s.inner
            }
        }),
{
    law_identifiers(r.supported_mech->0);
}

/// A reply that has a token or a signature and chooses no mechanism is taken,
/// bare or framed for the negotiation.
pub proof fn law_acceptor_takes_replies(s: SpnegoAcceptorV, input: Seq<u8>, body: Seq<u8>, r: NegTokenRespV)
    requires
        !s.first,
        s.internal_mech is Some,
        input.len() > 0,
        input[0] == 0x60 ==> parse_header_spec(input) == Some((MECH_SPNEGO@, body)),
        input[0] != 0x60 ==> body == input,
        decode_resp_spec(body) == Ok::<NegTokenRespV, GssError>(r),
    ensures
        settle_spec(s, input).1 is Ok <==> (r.response_token is Some || r.mech_list_mic is Some) && r.supported_mech is None,
        settle_spec(s, input).1 matches Ok(x) ==> x.mechtok == r.response_token && x.mic == r.mech_list_mic,
        settle_spec(s, input).0 == s,
{
}

/// An offer is a sequence of the mechanisms' object identifiers, in their
/// order.
pub proof fn law_offer_octets(m: Seq<u8>, rest: Seq<Seq<u8>>)
    ensures
        exists|octets: Seq<u8>|
            {
                &&& mech_set_der(rest) == #[trigger] tlv(0x30, octets)
                &&& mech_set_der(seq![m] + rest) == tlv(0x30, tlv(0x06, m) + octets)
            },
        mech_set_der(Seq::empty()) == tlv(0x30, Seq::empty()),
{
    assert((seq![m] + rest).drop_first() =~= rest);
    assert((seq![m] + rest)[0] == m);
    assert(mech_set_der(rest) == tlv(0x30, oid_list(rest)));
}

/// The flags of an offer are the seven bits of a bit string of one octet that
/// leaves one unused.
pub proof fn law_offer_flags(s: Seq<u8>)
    ensures
        req_flags_spec(None) == Ok::<Option<u8>, ()>(None),
        req_flags_spec(Some(s)) is Ok <==> s.len() == 4 && s.take(3) == seq![0x03u8, 0x02u8, 0x01u8],
        req_flags_spec(Some(s)) matches Ok(f) ==> f is Some && (s[3] == 2 * f->0 || s[3] == 2 * f->0 + 1),
{
    if s.len() == 4 {
        let t = s.take(3);
        assert(t[0] == s[0] && t[1] == s[1] && t[2] == s[2]);
        if s[0] == 0x03 && s[1] == 0x02 && s[2] == 0x01 {
            assert(t =~= seq![0x03u8, 0x02u8, 0x01u8]);
        }
    }
}

/// A token is for the mechanism that was chosen, or for Kerberos where that is
/// Kerberos under any of its identifiers; one for another is refused. Without
/// a token, or where the choice is still to be confirmed, the mechanism is not
/// asked.
pub proof fn law_token_of_mechanism<K: KeySource>(s: SpnegoAcceptorV, keys: K, x: Settled, now: Moment, env: EntropyV, mech: Seq<u8>, body: Seq<u8>)
    requires
        s.internal_mech is Some,
    ensures
        ({
            let r = acc_inner_spec(s, keys, x, now, env);
            let chosen = s.internal_mech->0;
            let asked = x.neg != NegState::RequestMic && x.mechtok is Some;
            let framed = parse_header_spec(x.mechtok->0) == Some((mech, body));
            &&& !asked ==> r == (s, Ok::<(NegState, Option<Seq<u8>>), Krb5ErrorV>((x.neg, None)))
            &&& asked && framed && mech != chosen && !(kerb_mech(mech) && kerb_mech(chosen)) ==> r == (
                s,
                Err::<(NegState, Option<Seq<u8>>), Krb5ErrorV>(Krb5ErrorV::Gss(GssError::BadMech)),
            )
            &&& asked && framed && (mech == chosen || (kerb_mech(mech) && kerb_mech(chosen))) && s.inner is Some ==> (r.1 is Ok
                <==> accept_step_spec(s.inner->0, keys, x.mechtok->0, now, env).1 is Ok)
        }),
{
}

} // verus!
