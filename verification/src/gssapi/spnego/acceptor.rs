//! SPNEGO acceptor.
use vstd::prelude::*;

use crate::bytes::{copy, same};
use crate::der::{list_view, make_tlv, opt_view, tlv};
use crate::error::{outcome, Krb5Error, Krb5ErrorV};
use crate::gssapi::krb5::acceptor::{accept_step_spec, Krb5Acceptor, Krb5AcceptorV};
use crate::gssapi::krb5::context::{Krb5Context, Krb5ContextV, NOT_PROT_READY};
use crate::gssapi::krb5::{gss, gss_err, AcceptStep, AcceptStepV, MECH_KRB5};
use crate::gssapi::spnego::der::{cursor_view, decode_init_spec, decode_neg_token_init, decode_neg_token_resp, decode_resp_spec, encode_neg_token_init, encode_neg_token_resp, init_der, mech_set_der, put_mech_set, resp_der};
use crate::gssapi::spnego::{copy_or_empty, handle_mic, handle_mic_spec, is_kerb_mech, is_nonempty, kerb_mech, list_has, nonempty, or_empty, slice_of, MicCtx, MicState, NegState, MECH_KRB5_WRONG, MECH_SPNEGO};
use crate::gssapi::token::{parse_header_spec, parse_token_header};
use crate::gssapi::GssError;
use crate::protocol::ap::{Entropy, EntropyV, KeySource};
use crate::protocol::credential::Credential;
use crate::time::Moment;

verus! {

/// SPNEGO acceptor.
pub struct SpnegoAcceptor<K: KeySource> {
    pub inner: Option<Krb5Acceptor<K>>,
    /// The acceptor's supported mechanism list (advertised in NegHints).
    pub mech_types: Vec<Vec<u8>>,
    pub der_mech_types: Vec<u8>,
    /// Echoed as supportedMech; may be the Microsoft OID.
    pub internal_mech: Option<Vec<u8>>,
    pub mech_complete: bool,
    pub mic: MicCtx,
    pub opened: bool,
    /// True while no NegTokenInit came in: after NegHints too, the next token
    /// is a fresh NegTokenInit.
    pub first: bool,
    /// True until the first reply has been emitted: only that one carries
    /// supportedMech.
    pub send_supported_mech: bool,
}

/// Model of [`SpnegoAcceptor`], without its keys.
pub struct SpnegoAcceptorV {
    pub inner: Option<Krb5AcceptorV>,
    pub mech_types: Seq<Seq<u8>>,
    pub der_mech_types: Seq<u8>,
    pub internal_mech: Option<Seq<u8>>,
    pub mech_complete: bool,
    pub mic: MicCtx,
    pub opened: bool,
    pub first: bool,
    pub send_supported_mech: bool,
}

impl<K: KeySource> View for SpnegoAcceptor<K> {
    type V = SpnegoAcceptorV;

    open spec fn view(&self) -> SpnegoAcceptorV {
        SpnegoAcceptorV {
            inner: opt_view(self.inner),
            mech_types: list_view(self.mech_types@),
            der_mech_types: self.der_mech_types@,
            internal_mech: opt_view(self.internal_mech),
            mech_complete: self.mech_complete,
            mic: self.mic,
            opened: self.opened,
            first: self.first,
            send_supported_mech: self.send_supported_mech,
        }
    }
}

/// What goes out at the end of a pass.
#[derive(Debug, Clone, Copy, PartialEq, Eq, Structural)]
pub enum AccSend {
    /// The NegHints reply.
    Hints,
    /// The first NegTokenResp.
    Init,
    /// A later NegTokenResp.
    Cont,
    /// No token.
    Nothing,
}

/// What the negotiation half of a pass settled.
pub struct Settled {
    pub send: AccSend,
    pub neg: NegState,
    pub mechtok: Option<Seq<u8>>,
    pub mic: Option<Seq<u8>>,
}

/// The OID under which a mechanism is looked up: the Microsoft OID stands
/// for krb5.
pub open spec fn mapped(oid: Seq<u8>) -> Seq<u8> {
    if oid == MECH_KRB5_WRONG@ { MECH_KRB5@ } else { oid }
}

/// Index of the first mechanism that is supported.
pub open spec fn first_supported(offered: Seq<Seq<u8>>, supported: Seq<Seq<u8>>) -> Option<int>
    decreases offered.len(),
{
    if offered.len() == 0 {
        None
    } else if supported.contains(mapped(offered[0])) {
        Some(0)
    } else {
        match first_supported(offered.drop_first(), supported) {
            Some(i) => Some(i + 1),
            None => None,
        }
    }
}

/// The NegTokenInit pass: the first supported mechanism is taken; one that
/// is not the initiator's first asks for MICs.
pub open spec fn acc_new_spec(s: SpnegoAcceptorV, input: Seq<u8>) -> (SpnegoAcceptorV, Result<Settled, Krb5ErrorV>) {
    let s1 = SpnegoAcceptorV { first: false, ..s };
    match decode_init_spec(input) {
        Err(e) => (s1, Err(gss_err(e))),
        Ok((init, der)) => match first_supported(init.mech_types, s.mech_types) {
            None => (s1, Err(gss_err(GssError::BadMech))),
            Some(i) => (
                SpnegoAcceptorV {
                    internal_mech: Some(init.mech_types[i]),
                    der_mech_types: der,
                    mic: MicCtx { reqd: s.mic.reqd || i != 0, ..s.mic },
                    send_supported_mech: true,
                    ..s1
                },
                Ok(
                    Settled {
                        send: AccSend::Init,
                        neg: if i == 0 { NegState::AcceptIncomplete } else { NegState::RequestMic },
                        mechtok: init.mech_token,
                        mic: init.mech_list_mic,
                    },
                ),
            ),
        },
    }
}

/// The NegTokenResp in a token that may carry the generic framing.
pub open spec fn unframed(input: Seq<u8>) -> Option<Seq<u8>> {
    if input.len() > 0 && input[0] == 0x60 {
        match parse_header_spec(input) {
            Some((mech, b)) => if mech == MECH_SPNEGO@ {
                Some(b)
            } else {
                None
            },
            None => None,
        }
    } else {
        Some(input)
    }
}

/// A NegTokenResp pass: the token must carry something, and no mechanism.
pub open spec fn acc_cont_spec(input: Seq<u8>) -> Result<Settled, Krb5ErrorV> {
    match unframed(input) {
        None => Err(gss_err(GssError::DefectiveToken)),
        Some(body) => match decode_resp_spec(body) {
            Err(e) => Err(gss_err(e)),
            Ok(r) => if (r.response_token is None && r.mech_list_mic is None) || r.supported_mech is Some {
                Err(gss_err(GssError::DefectiveToken))
            } else {
                Ok(
                    Settled {
                        send: AccSend::Cont,
                        neg: NegState::AcceptIncomplete,
                        mechtok: r.response_token,
                        mic: r.mech_list_mic,
                    },
                )
            },
        },
    }
}

/// What a token settles for the negotiation.
pub open spec fn settle_spec(s: SpnegoAcceptorV, input: Seq<u8>) -> (SpnegoAcceptorV, Result<Settled, Krb5ErrorV>) {
    if s.first && input.len() == 0 {
        (
            SpnegoAcceptorV { der_mech_types: mech_set_der(s.mech_types), ..s },
            Ok(Settled { send: AccSend::Hints, neg: NegState::AcceptIncomplete, mechtok: None, mic: None }),
        )
    } else if s.first || s.internal_mech is None {
        acc_new_spec(s, input)
    } else {
        (s, acc_cont_spec(input))
    }
}

/// Whether a mechanism token belongs to the negotiated mechanism.
pub open spec fn token_fits(internal: Seq<u8>, mech: Seq<u8>) -> bool {
    mech == internal || (kerb_mech(internal) && kerb_mech(mech))
}

/// The step of the inner mechanism: the negState and the mechanism token
/// that go out.
pub open spec fn acc_inner_spec<K: KeySource>(s: SpnegoAcceptorV, keys: K, x: Settled, now: Moment, env: EntropyV) -> (
    SpnegoAcceptorV,
    Result<(NegState, Option<Seq<u8>>), Krb5ErrorV>,
) {
    if x.neg == NegState::RequestMic || x.mechtok is None {
        (s, Ok((x.neg, None)))
    } else {
        let tok = x.mechtok->0;
        match parse_header_spec(tok) {
            None => (s, Err(gss_err(GssError::DefectiveToken))),
            Some((mech, _)) => if !token_fits(or_empty(s.internal_mech), mech) {
                (s, Err(gss_err(GssError::BadMech)))
            } else {
                match s.inner {
                    None => (s, Err(gss_err(GssError::NoContext))),
                    Some(inner) => {
                        let (inner2, out) = accept_step_spec(inner, keys, tok, now, env);
                        let s1 = SpnegoAcceptorV { inner: Some(inner2), ..s };
                        match out {
                            Err(e) => (s1, Err(e)),
                            Ok(AcceptStepV::Complete { token }) => (
                                SpnegoAcceptorV { mech_complete: true, ..s1 },
                                Ok((if s.mic.reqd { x.neg } else { NegState::AcceptCompleted }, token)),
                            ),
                            Ok(AcceptStepV::ContinueNeeded(t)) => (s1, Ok((x.neg, Some(t)))),
                        }
                    },
                }
            },
        }
    }
}

/// The outgoing part of a pass: what is sent, with which negState and MIC.
pub struct AccOutgoing {
    pub send: AccSend,
    pub neg: NegState,
    pub mic: Option<Seq<u8>>,
}

/// The MIC step of a pass, taken once the mechanism is complete. A MIC that
/// is owed makes the reply a later one; one that went out before makes it
/// none, but NegHints go out in any case.
pub open spec fn acc_mic_spec(s: SpnegoAcceptorV, send: AccSend, neg: NegState, mic_in: Option<Seq<u8>>, mechtok: Option<Seq<u8>>) -> (
    SpnegoAcceptorV,
    Result<AccOutgoing, Krb5ErrorV>,
) {
    if !s.mech_complete {
        (s, Ok(AccOutgoing { send, neg, mic: None }))
    } else if s.inner is None || s.inner->0.ctx is None {
        (s, Err(gss_err(GssError::NoContext)))
    } else {
        let inner = s.inner->0;
        let (m, r) = handle_mic_spec(
            MicState { mic: s.mic, ctx: inner.ctx->0, neg },
            mic_in,
            nonempty(mechtok),
            s.der_mech_types,
        );
        let s1 = SpnegoAcceptorV { mic: m.mic, inner: Some(Krb5AcceptorV { ctx: Some(m.ctx), ..inner }), ..s };
        match r {
            Err(e) => (s1, Err(e)),
            Ok(out) => (
                s1,
                Ok(
                    AccOutgoing {
                        send: match out.no_token_send {
                            None => send,
                            Some(nothing) => if send == AccSend::Hints {
                                AccSend::Hints
                            } else if nothing {
                                AccSend::Nothing
                            } else {
                                AccSend::Cont
                            },
                        },
                        neg: m.neg,
                        mic: out.mic,
                    },
                ),
            ),
        }
    }
}

/// The NegHints blob.
pub open spec fn hint_der() -> Seq<u8> {
    tlv(0xA0, tlv(0x1B, vstd::utf8::encode_utf8("not_defined_in_RFC4178@please_ignore"@)))
}

/// The end of a pass: complete when the negState says so.
pub open spec fn acc_emit_spec(s: SpnegoAcceptorV, out: AccOutgoing, mechtok: Option<Seq<u8>>) -> (SpnegoAcceptorV, AcceptStepV) {
    let complete = out.neg == NegState::AcceptCompleted;
    let supported = if s.send_supported_mech && out.send == AccSend::Init { s.internal_mech } else { None };
    let token = match out.send {
        AccSend::Hints => Some(init_der(s.der_mech_types, None, Some(hint_der()), true)),
        AccSend::Init | AccSend::Cont => Some(resp_der(out.neg, supported, mechtok, out.mic)),
        AccSend::Nothing => None,
    };
    let s1 = SpnegoAcceptorV {
        opened: s.opened || complete,
        send_supported_mech: s.send_supported_mech && (out.send == AccSend::Hints || out.send == AccSend::Nothing),
        ..s
    };
    (s1, if complete { AcceptStepV::Complete { token } } else { AcceptStepV::ContinueNeeded(or_empty(token)) })
}

/// What one step of a SPNEGO acceptor does and returns.
pub open spec fn spnego_accept_spec<K: KeySource>(s: SpnegoAcceptorV, keys: K, input: Seq<u8>, now: Moment, env: EntropyV) -> (
    SpnegoAcceptorV,
    Result<AcceptStepV, Krb5ErrorV>,
) {
    let (s1, r1) = settle_spec(s, input);
    match r1 {
        Err(e) => (s1, Err(e)),
        Ok(x) => {
            let (s2, r2) = acc_inner_spec(s1, keys, x, now, env);
            match r2 {
                Err(e) => (s2, Err(e)),
                Ok((neg, mechtok)) => {
                    let (s3, r3) = acc_mic_spec(s2, x.send, neg, x.mic, mechtok);
                    match r3 {
                        Err(e) => (s3, Err(e)),
                        Ok(out) => {
                            let (s4, step) = acc_emit_spec(s3, out, mechtok);
                            (s4, Ok(step))
                        },
                    }
                },
            }
        },
    }
}

/// A MIC was sent or received only where one is required.
pub open spec fn spnego_accept_ok(s: SpnegoAcceptorV) -> bool {
    s.mic.sent || s.mic.rcvd ==> s.mic.reqd
}

/// A SPNEGO exchange completes only when the inner mechanism did and, where
/// MICs are required, both were exchanged; every step keeps the invariant on
/// which this rests.
pub proof fn law_spnego_accept_complete<K: KeySource>(s: SpnegoAcceptorV, keys: K, input: Seq<u8>, now: Moment, env: EntropyV)
    requires
        spnego_accept_ok(s),
    ensures
        ({
            let (after, r) = spnego_accept_spec(s, keys, input, now, env);
            &&& spnego_accept_ok(after)
            &&& r matches Ok(AcceptStepV::Complete { token }) ==> after.opened && after.mech_complete && (after.mic.reqd
                ==> after.mic.sent && after.mic.rcvd)
        }),
{
}

fn is_supported(oid: &[u8], supported: &Vec<Vec<u8>>) -> (r: bool)
    ensures
        r == list_view(supported@).contains(mapped(oid@)),
{
    if same(oid, &MECH_KRB5_WRONG) {
        list_has(supported, &MECH_KRB5)
    } else {
        list_has(supported, oid)
    }
}

fn find_supported(offered: &Vec<Vec<u8>>, supported: &Vec<Vec<u8>>) -> (r: Option<usize>)
    ensures
        match r {
            Some(i) => first_supported(list_view(offered@), list_view(supported@)) == Some(i as int) && i < offered@.len(),
            None => first_supported(list_view(offered@), list_view(supported@)) is None,
        },
{
    let ghost all = list_view(offered@);
    let ghost ours = list_view(supported@);
    let mut i: usize = 0;
    assert(all.skip(0) =~= all);
    while i < offered.len()
        invariant
            i <= offered@.len(),
            all == list_view(offered@),
            ours == list_view(supported@),
            match first_supported(all.skip(i as int), ours) {
                Some(k) => first_supported(all, ours) == Some(k + i),
                None => first_supported(all, ours) is None,
            },
        decreases offered@.len() - i,
    {
        assert(all.skip(i as int).drop_first() =~= all.skip(i + 1));
        assert(all.skip(i as int)[0] == offered@[i as int]@);
        if is_supported(&offered[i], supported) {
            return Some(i);
        }
        i = i + 1;
    }
    assert(all.skip(i as int).len() == 0);
    None
}

fn make_hint() -> (r: Vec<u8>)
    ensures
        r@ == hint_der(),
{
    let name = "not_defined_in_RFC4178@please_ignore".as_bytes();
    let s = make_tlv(0x1B, name);
    make_tlv(0xA0, &s)
}

/// What the negotiation half of a pass settled, exec form of [`Settled`].
struct SettledParts {
    send: AccSend,
    neg: NegState,
    mechtok: Option<Vec<u8>>,
    mic: Option<Vec<u8>>,
}

impl View for SettledParts {
    type V = Settled;

    closed spec fn view(&self) -> Settled {
        Settled { send: self.send, neg: self.neg, mechtok: opt_view(self.mechtok), mic: opt_view(self.mic) }
    }
}

fn settle_cont(input: &[u8]) -> (r: Result<SettledParts, Krb5Error>)
    ensures
        outcome(r) == acc_cont_spec(input@),
{
    let body = if input.len() > 0 && input[0] == 0x60 {
        match parse_token_header(input) {
            Some((mech, b)) => {
                if !same(mech, &MECH_SPNEGO) {
                    return Err(gss(GssError::DefectiveToken));
                }
                b
            },
            None => return Err(gss(GssError::DefectiveToken)),
        }
    } else {
        input
    };
    let r = match decode_neg_token_resp(body) {
        Ok(r) => r,
        Err(e) => return Err(gss(e)),
    };
    if (r.response_token.is_none() && r.mech_list_mic.is_none()) || r.supported_mech.is_some() {
        return Err(gss(GssError::DefectiveToken));
    }
    Ok(SettledParts {
        send: AccSend::Cont,
        neg: NegState::AcceptIncomplete,
        mechtok: r.response_token,
        mic: r.mech_list_mic,
    })
}

/// The keys of an acceptor that may have handed out its inner mechanism.
pub open spec fn inner_keys<K: KeySource>(o: Option<Krb5Acceptor<K>>) -> Option<K> {
    match o {
        Some(a) => Some(a.keys),
        None => None,
    }
}

impl<K: KeySource> SpnegoAcceptor<K> {
    /// Create an acceptor over the inner Kerberos acceptor; `mech_types` is
    /// the acceptor's supported list.
    pub fn new(inner: Krb5Acceptor<K>, mech_types: Vec<Vec<u8>>) -> (r: Self)
        ensures
            r@ == (SpnegoAcceptorV {
                inner: Some(inner@),
                mech_types: list_view(mech_types@),
                der_mech_types: Seq::empty(),
                internal_mech: None,
                mech_complete: false,
                mic: MicCtx { reqd: false, sent: false, rcvd: false },
                opened: false,
                first: true,
                send_supported_mech: false,
            }),
            inner_keys(r.inner) == Some(inner.keys),
            spnego_accept_ok(r@),
    {
        let der_mech_types: Vec<u8> = Vec::new();
        assert(der_mech_types@ =~= Seq::empty());
        SpnegoAcceptor {
            inner: Some(inner),
            mech_types,
            der_mech_types,
            internal_mech: None,
            mech_complete: false,
            mic: MicCtx { reqd: false, sent: false, rcvd: false },
            opened: false,
            first: true,
            send_supported_mech: false,
        }
    }

    fn settle_new(&mut self, input: &[u8]) -> (r: Result<SettledParts, Krb5Error>)
        ensures
            (final(self)@, outcome(r)) == acc_new_spec(old(self)@, input@),
            inner_keys(final(self).inner) == inner_keys(old(self).inner),
    {
        self.first = false;
        let (init, der) = match decode_neg_token_init(input) {
            Ok(x) => x,
            Err(e) => return Err(gss(e)),
        };
        let i: usize = match find_supported(&init.mech_types, &self.mech_types) {
            Some(i) => i,
            None => return Err(gss(GssError::BadMech)),
        };
        assert(list_view(init.mech_types@)[i as int] == init.mech_types@[i as int]@);
        self.internal_mech = Some(copy(&init.mech_types[i]));
        self.der_mech_types = der;
        if i != 0 {
            self.mic.reqd = true;
        }
        self.send_supported_mech = true;
        Ok(SettledParts {
            send: AccSend::Init,
            neg: if i == 0 { NegState::AcceptIncomplete } else { NegState::RequestMic },
            mechtok: init.mech_token,
            mic: init.mech_list_mic,
        })
    }

    fn settle(&mut self, input: &[u8]) -> (r: Result<SettledParts, Krb5Error>)
        ensures
            (final(self)@, outcome(r)) == settle_spec(old(self)@, input@),
            inner_keys(final(self).inner) == inner_keys(old(self).inner),
    {
        if self.first && input.len() == 0 {
            self.der_mech_types = put_mech_set(&self.mech_types);
            return Ok(SettledParts {
                send: AccSend::Hints,
                neg: NegState::AcceptIncomplete,
                mechtok: None,
                mic: None,
            });
        }
        if self.first || self.internal_mech.is_none() {
            return self.settle_new(input);
        }
        settle_cont(input)
    }

    fn inner_step(&mut self, x: &SettledParts, now: Moment, env: &Entropy, Ghost(keys): Ghost<K>) -> (r: Result<
        (NegState, Option<Vec<u8>>),
        Krb5Error,
    >)
        requires
            inner_keys(old(self).inner) is None || inner_keys(old(self).inner) == Some(keys),
        ensures
            inner_keys(final(self).inner) == inner_keys(old(self).inner),
            ({
                let (s, y) = acc_inner_spec(old(self)@, keys, x@, now, env@);
                &&& final(self)@ == s
                &&& match r {
                    Ok((a, b)) => y == Ok::<(NegState, Option<Seq<u8>>), Krb5ErrorV>((a, opt_view(b))),
                    Err(e) => y == Err::<(NegState, Option<Seq<u8>>), Krb5ErrorV>(e@),
                }
            }),
    {
        let neg = x.neg;
        if neg == NegState::RequestMic {
            return Ok((neg, None));
        }
        let tok = match &x.mechtok {
            Some(t) => t,
            None => return Ok((neg, None)),
        };
        let mech = match parse_token_header(tok) {
            Some((m, _)) => m,
            None => return Err(gss(GssError::DefectiveToken)),
        };
        let internal = copy_or_empty(&self.internal_mech);
        if !same(mech, &internal) && !(is_kerb_mech(&internal) && is_kerb_mech(mech)) {
            return Err(gss(GssError::BadMech));
        }
        let mut inner = match self.inner.take() {
            Some(i) => i,
            None => return Err(gss(GssError::NoContext)),
        };
        let out = inner.step_with(tok, now, env);
        self.inner = Some(inner);
        match out {
            Err(e) => Err(e),
            Ok(AcceptStep::Complete { token }) => {
                self.mech_complete = true;
                Ok((if self.mic.reqd { neg } else { NegState::AcceptCompleted }, token))
            },
            Ok(AcceptStep::ContinueNeeded(t)) => Ok((neg, Some(t))),
        }
    }

    fn mic_step(&mut self, send: AccSend, neg: NegState, mic_in: Option<&[u8]>, mechtok: &Option<Vec<u8>>) -> (r: Result<
        (AccSend, NegState, Option<Vec<u8>>),
        Krb5Error,
    >)
        ensures
            inner_keys(final(self).inner) == inner_keys(old(self).inner),
            ({
                let (s, x) = acc_mic_spec(old(self)@, send, neg, cursor_view(mic_in), opt_view(*mechtok));
                &&& final(self)@ == s
                &&& match r {
                    Ok((a, b, c)) => x == Ok::<AccOutgoing, Krb5ErrorV>(
                        AccOutgoing { send: a, neg: b, mic: opt_view(c) },
                    ),
                    Err(e) => x == Err::<AccOutgoing, Krb5ErrorV>(e@),
                }
            }),
    {
        if !self.mech_complete {
            return Ok((send, neg, None));
        }
        let mut inner = match self.inner.take() {
            Some(i) => i,
            None => return Err(gss(GssError::NoContext)),
        };
        let mut ctx = match inner.ctx.take() {
            Some(c) => c,
            None => {
                self.inner = Some(inner);
                return Err(gss(GssError::NoContext));
            },
        };
        let mut neg = neg;
        let r = handle_mic(&mut self.mic, &mut ctx, mic_in, is_nonempty(mechtok), &self.der_mech_types, &mut neg);
        inner.ctx = Some(ctx);
        self.inner = Some(inner);
        match r {
            Err(e) => Err(e),
            Ok(m) => {
                let send = match m.no_token_send {
                    None => send,
                    Some(nothing) => if send == AccSend::Hints {
                        AccSend::Hints
                    } else if nothing {
                        AccSend::Nothing
                    } else {
                        AccSend::Cont
                    },
                };
                Ok((send, neg, m.mic))
            },
        }
    }

    fn emit(&mut self, send: AccSend, neg: NegState, mic: Option<Vec<u8>>, mechtok: Option<Vec<u8>>) -> (r: AcceptStep)
        ensures
            inner_keys(final(self).inner) == inner_keys(old(self).inner),
            (final(self)@, r@) == acc_emit_spec(
                old(self)@,
                (AccOutgoing { send, neg, mic: opt_view(mic) }),
                opt_view(mechtok),
            ),
    {
        let complete = neg == NegState::AcceptCompleted;
        if complete {
            self.opened = true;
        }
        let token = match send {
            AccSend::Hints => {
                let hint = make_hint();
                Some(encode_neg_token_init(&self.der_mech_types, None, Some(&hint), true))
            },
            AccSend::Nothing => None,
            _ => {
                let supported = if self.send_supported_mech && send == AccSend::Init {
                    slice_of(&self.internal_mech)
                } else {
                    None
                };
                let t = encode_neg_token_resp(neg, supported, slice_of(&mechtok), slice_of(&mic));
                self.send_supported_mech = false;
                Some(t)
            },
        };
        if complete {
            AcceptStep::Complete { token }
        } else {
            AcceptStep::ContinueNeeded(copy_or_empty(&token))
        }
    }

    /// Process one input token with the given clock reading and random
    /// octets; `keys` stands for the keys of the inner acceptor.
    fn step_keyed(&mut self, input: &[u8], now: Moment, env: &Entropy, Ghost(keys): Ghost<K>) -> (r: Result<
        AcceptStep,
        Krb5Error,
    >)
        requires
            inner_keys(old(self).inner) is None || inner_keys(old(self).inner) == Some(keys),
        ensures
            (final(self)@, outcome(r)) == spnego_accept_spec(old(self)@, keys, input@, now, env@),
            inner_keys(final(self).inner) == inner_keys(old(self).inner),
    {
        let x = match self.settle(input) {
            Ok(x) => x,
            Err(e) => return Err(e),
        };
        let (neg, mechtok) = match self.inner_step(&x, now, env, Ghost(keys)) {
            Ok(y) => y,
            Err(e) => return Err(e),
        };
        let (send, neg, mic) = match self.mic_step(x.send, neg, slice_of(&x.mic), &mechtok) {
            Ok(y) => y,
            Err(e) => return Err(e),
        };
        Ok(self.emit(send, neg, mic, mechtok))
    }

    /// Process one input token with the given clock reading and random
    /// octets.
    pub fn step_with(&mut self, input: &[u8], now: Moment, env: &Entropy) -> (r: Result<AcceptStep, Krb5Error>)
        ensures
            forall|keys: K|
                inner_keys(old(self).inner) is None || inner_keys(old(self).inner) == Some(keys) ==> #[trigger]
                    spnego_accept_spec(old(self)@, keys, input@, now, env@) == (final(self)@, outcome(r)),
            inner_keys(final(self).inner) == inner_keys(old(self).inner),
    {
        let ghost k0: K = match inner_keys(self.inner) {
            Some(k) => k,
            None => arbitrary(),
        };
        let ghost before = *self;
        proof {
            if inner_keys(before.inner) is None {
                assert forall|keys: K| #[trigger]
                    spnego_accept_spec(before@, keys, input@, now, env@) == spnego_accept_spec(
                        before@,
                        k0,
                        input@,
                        now,
                        env@,
                    ) by {}
            }
        }
        self.step_keyed(input, now, env, Ghost(k0))
    }

    /// Process one input token.
    pub fn step(&mut self, input: &[u8]) -> (r: Result<AcceptStep, Krb5Error>)
        ensures
            old(self).inner is Some ==> exists|now: Moment, env: EntropyV|
                env.ok() && (final(self)@, outcome(r)) == #[trigger] spnego_accept_spec(
                    old(self)@,
                    old(self).inner->0.keys,
                    input@,
                    now,
                    env,
                ),
            inner_keys(final(self).inner) == inner_keys(old(self).inner),
    {
        let now = Moment::now();
        let env = Entropy::draw();
        let ghost before = *self;
        let r = self.step_with(input, now, &env);
        proof {
            if before.inner is Some {
                assert(spnego_accept_spec(before@, before.inner->0.keys, input@, now, env@) == (self@, outcome(r)));
            }
        }
        r
    }

    /// Extract the established context; fails while the SPNEGO exchange is
    /// incomplete. PROT_READY is not among its flags.
    pub fn context(self) -> (r: Result<Krb5Context, Krb5Error>)
        ensures
            outcome(r) == (if self@.opened && self@.inner is Some && self@.inner->0.done && self@.inner->0.ctx is Some {
                let c = self@.inner->0.ctx->0;
                Ok::<Krb5ContextV, Krb5ErrorV>(Krb5ContextV { flags: c.flags & NOT_PROT_READY, ..c })
            } else {
                Err::<Krb5ContextV, Krb5ErrorV>(gss_err(GssError::NoContext))
            }),
    {
        if !self.opened {
            return Err(gss(GssError::NoContext));
        }
        match self.inner {
            None => Err(gss(GssError::NoContext)),
            Some(i) => match i.context() {
                Ok(c) => {
                    let mut c = c;
                    c.clear_prot_ready();
                    Ok(c)
                },
                Err(e) => Err(e),
            },
        }
    }

    /// Delegated credentials received by the inner mechanism, if any.
    pub fn delegated_creds(&self) -> (r: Option<&[Credential]>)
        ensures
            match r {
                Some(cs) => self@.inner is Some && self@.inner->0.delegated == Some(list_view(cs@)),
                None => self@.inner is None || self@.inner->0.delegated is None,
            },
    {
        match &self.inner {
            Some(a) => a.delegated_creds(),
            None => None,
        }
    }

    /// The negotiated mechanism OID as echoed in supportedMech.
    pub fn negotiated_mech(&self) -> (r: Option<&[u8]>)
        ensures
            cursor_view(r) == self@.internal_mech,
    {
        slice_of(&self.internal_mech)
    }
}

} // verus!
