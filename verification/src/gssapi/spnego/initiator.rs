//! SPNEGO initiator.
use vstd::prelude::*;

use crate::bytes::{copy, same};
use crate::crypto::profile::opt_seq;
use crate::der::{list_view, opt_view};
use crate::error::{outcome, Krb5Error, Krb5ErrorV};
use crate::gssapi::krb5::context::{Krb5Context, Krb5ContextV, NOT_PROT_READY};
use crate::gssapi::krb5::initiator::{init_step_spec, Krb5Initiator, Krb5InitiatorV};
use crate::gssapi::krb5::{gss, gss_err, InitStep, InitStepV};
use crate::gssapi::spnego::der::{cursor_view, decode_neg_token_resp, decode_resp_spec, encode_neg_token_init, encode_neg_token_resp, init_der, mech_set_der, put_mech_set, resp_der, NegTokenResp, NegTokenRespV};
use crate::gssapi::spnego::{copy_or_empty, handle_mic, handle_mic_spec, is_kerb_mech, is_nonempty, kerb_mech, list_has, nonempty, or_empty, slice_of, MicCtx, MicState, NegState, MECH_NTLMSSP};
use crate::gssapi::GssError;
use crate::protocol::ap::{Entropy, EntropyV};
use crate::time::Moment;

verus! {

/// SPNEGO initiator.
///
/// `new` takes the inner Kerberos initiator and the ordered mechanism list;
/// other mechanisms preceding the first Kerberos OID are dropped, and the
/// advertised mechTypes is encoded without them.
pub struct SpnegoInitiator {
    pub inner: Option<Krb5Initiator>,
    pub mech_types: Vec<Vec<u8>>,
    pub der_mech_types: Vec<u8>,
    pub internal_mech: Option<Vec<u8>>,
    pub mech_complete: bool,
    pub nego_done: bool,
    pub mic: MicCtx,
    pub opened: bool,
    /// First call not yet made.
    pub fresh: bool,
}

/// Model of [`SpnegoInitiator`].
pub struct SpnegoInitiatorV {
    pub inner: Option<Krb5InitiatorV>,
    pub mech_types: Seq<Seq<u8>>,
    pub der_mech_types: Seq<u8>,
    pub internal_mech: Option<Seq<u8>>,
    pub mech_complete: bool,
    pub nego_done: bool,
    pub mic: MicCtx,
    pub opened: bool,
    pub fresh: bool,
}

impl View for SpnegoInitiator {
    type V = SpnegoInitiatorV;

    open spec fn view(&self) -> SpnegoInitiatorV {
        SpnegoInitiatorV {
            inner: opt_view(self.inner),
            mech_types: list_view(self.mech_types@),
            der_mech_types: self.der_mech_types@,
            internal_mech: opt_view(self.internal_mech),
            mech_complete: self.mech_complete,
            nego_done: self.nego_done,
            mic: self.mic,
            opened: self.opened,
            fresh: self.fresh,
        }
    }
}

/// What goes out at the end of a pass.
#[derive(Debug, Clone, Copy, PartialEq, Eq, Structural)]
pub enum Send {
    /// A NegTokenInit.
    Init,
    /// A NegTokenResp.
    Cont,
    /// No token.
    Nothing,
}

/// Index of the first Kerberos mechanism.
pub open spec fn first_kerb(ms: Seq<Seq<u8>>) -> Option<int>
    decreases ms.len(),
{
    if ms.len() == 0 {
        None
    } else if kerb_mech(ms[0]) {
        Some(0)
    } else {
        match first_kerb(ms.drop_first()) {
            Some(i) => Some(i + 1),
            None => None,
        }
    }
}

/// The first pass: the list from its first Kerberos mechanism on.
pub open spec fn open_spec(s: SpnegoInitiatorV) -> (SpnegoInitiatorV, Result<Send, Krb5ErrorV>) {
    let s1 = SpnegoInitiatorV { fresh: false, ..s };
    match first_kerb(s.mech_types) {
        None => (s1, Err(gss_err(GssError::BadMech))),
        Some(i) => {
            let ms = s.mech_types.skip(i);
            (
                SpnegoInitiatorV {
                    mech_types: ms,
                    internal_mech: Some(ms[0]),
                    der_mech_types: mech_set_der(ms),
                    ..s1
                },
                Ok(Send::Init),
            )
        },
    }
}

/// Whether a reply's mechanism is another than the optimistic one.
pub open spec fn reselects(supported: Seq<u8>, internal: Seq<u8>) -> bool {
    supported != internal && !(kerb_mech(supported) && kerb_mech(internal))
}

/// The acceptor's choice of another mechanism. It must be an advertised one,
/// with REQUEST_MIC (or, for NTLMSSP, ACCEPT_INCOMPLETE); there is no
/// initiator for any but krb5.
pub open spec fn reselect_spec(s: SpnegoInitiatorV, r: NegTokenRespV, supported: Seq<u8>) -> (
    SpnegoInitiatorV,
    Result<Send, Krb5ErrorV>,
) {
    let allowed = r.neg_state == Some(NegState::RequestMic) || (r.neg_state == Some(NegState::AcceptIncomplete)
        && supported == MECH_NTLMSSP@);
    if !s.mech_types.contains(supported) || !allowed {
        (s, Err(gss_err(GssError::DefectiveToken)))
    } else {
        let s1 = SpnegoInitiatorV {
            mech_complete: false,
            mic: MicCtx { reqd: r.neg_state == Some(NegState::RequestMic), ..s.mic },
            internal_mech: Some(supported),
            ..s
        };
        if !kerb_mech(supported) {
            (s1, Err(gss_err(GssError::BadMech)))
        } else {
            (SpnegoInitiatorV { nego_done: true, ..s1 }, Ok(Send::Cont))
        }
    }
}

/// The first reply: it settles the mechanism.
pub open spec fn first_reply_spec(s: SpnegoInitiatorV, r: NegTokenRespV) -> (SpnegoInitiatorV, Result<Send, Krb5ErrorV>) {
    let internal = or_empty(s.internal_mech);
    let supported = match r.supported_mech {
        Some(m) => m,
        None => internal,
    };
    let settled = SpnegoInitiatorV { nego_done: true, ..s };
    if reselects(supported, internal) {
        reselect_spec(s, r, supported)
    } else if s.mech_complete {
        if nonempty(r.response_token) {
            (s, Err(gss_err(GssError::DefectiveToken)))
        } else {
            (settled, Ok(Send::Nothing))
        }
    } else if r.response_token is None {
        (s, Err(gss_err(GssError::DefectiveToken)))
    } else {
        (settled, Ok(Send::Cont))
    }
}

/// What a reply means for the negotiation.
pub open spec fn reply_spec(s: SpnegoInitiatorV, r: NegTokenRespV) -> (SpnegoInitiatorV, Result<Send, Krb5ErrorV>) {
    if r.neg_state == Some(NegState::Reject) && r.response_token is None {
        (s, Err(gss_err(if s.nego_done { GssError::Failure } else { GssError::BadMech })))
    } else if !s.nego_done {
        first_reply_spec(s, r)
    } else if s.mech_complete == (r.response_token is Some) {
        (s, Err(gss_err(GssError::DefectiveToken)))
    } else if !s.mech_complete || s.mic.reqd {
        (s, Ok(Send::Cont))
    } else {
        (s, Ok(Send::Nothing))
    }
}

/// The step of the inner mechanism: the new state, what goes out, and the
/// mechanism token.
pub open spec fn inner_step_spec(
    s: SpnegoInitiatorV,
    send: Send,
    r: Option<NegTokenRespV>,
    now: Moment,
    deleg_env: EntropyV,
    env: EntropyV,
) -> (SpnegoInitiatorV, Result<(Send, Option<Seq<u8>>), Krb5ErrorV>) {
    let mechtok_in = match r {
        Some(x) => x.response_token,
        None => None,
    };
    let rejected = r is Some && r->0.neg_state == Some(NegState::Reject);
    if s.mech_complete {
        (s, Ok((send, None)))
    } else {
        match s.inner {
            None => (s, Err(gss_err(GssError::NoContext))),
            Some(inner) => {
                let (inner2, out) = init_step_spec(inner, mechtok_in, now, deleg_env, env);
                let s1 = SpnegoInitiatorV { inner: Some(inner2), ..s };
                match out {
                    Err(e) => (s1, Err(e)),
                    Ok(InitStepV::Continue(t)) => if rejected {
                        (s1, Err(gss_err(GssError::DefectiveToken)))
                    } else {
                        (s1, Ok((send, Some(t))))
                    },
                    Ok(InitStepV::Complete(t)) => {
                        let s2 = SpnegoInitiatorV { mech_complete: true, ..s1 };
                        if rejected {
                            (s2, Err(gss_err(GssError::DefectiveToken)))
                        } else if send == Send::Cont && !nonempty(t) && !s.mic.reqd {
                            (s2, Ok((Send::Nothing, t)))
                        } else {
                            (s2, Ok((send, t)))
                        }
                    },
                }
            },
        }
    }
}

/// The outgoing part of a pass: what is sent, with which negState and MIC.
pub struct Outgoing {
    pub send: Send,
    pub neg: NegState,
    pub mic: Option<Seq<u8>>,
}

/// The MIC step of a pass, taken once the mechanism is complete.
pub open spec fn init_mic_spec(s: SpnegoInitiatorV, send: Send, mic_in: Option<Seq<u8>>, mechtok: Option<Seq<u8>>) -> (
    SpnegoInitiatorV,
    Result<Outgoing, Krb5ErrorV>,
) {
    if !s.mech_complete {
        (s, Ok(Outgoing { send, neg: NegState::AcceptIncomplete, mic: None }))
    } else if s.inner is None || s.inner->0.ctx is None {
        (s, Err(gss_err(GssError::NoContext)))
    } else {
        let inner = s.inner->0;
        let (m, r) = handle_mic_spec(
            MicState { mic: s.mic, ctx: inner.ctx->0, neg: NegState::AcceptIncomplete },
            mic_in,
            nonempty(mechtok),
            s.der_mech_types,
        );
        let s1 = SpnegoInitiatorV { mic: m.mic, inner: Some(Krb5InitiatorV { ctx: Some(m.ctx), ..inner }), ..s };
        match r {
            Err(e) => (s1, Err(e)),
            Ok(out) => (
                s1,
                Ok(
                    Outgoing {
                        send: match out.no_token_send {
                            None => send,
                            Some(nothing) => if send == Send::Init {
                                Send::Init
                            } else if nothing {
                                Send::Nothing
                            } else {
                                Send::Cont
                            },
                        },
                        neg: m.neg,
                        mic: out.mic,
                    },
                ),
            ),
        }
    }
}

/// The end of a pass: the exchange is complete when nothing is sent or both
/// MICs are exchanged.
pub open spec fn emit_spec(s: SpnegoInitiatorV, out: Outgoing, mechtok: Option<Seq<u8>>) -> (SpnegoInitiatorV, InitStepV) {
    let complete = out.send == Send::Nothing || out.neg == NegState::AcceptCompleted;
    let s1 = if complete { SpnegoInitiatorV { opened: true, ..s } } else { s };
    let token = match out.send {
        Send::Init => Some(init_der(s.der_mech_types, mechtok, out.mic, false)),
        Send::Cont => Some(resp_der(out.neg, None, mechtok, out.mic)),
        Send::Nothing => None,
    };
    (s1, if complete { InitStepV::Complete(token) } else { InitStepV::Continue(or_empty(token)) })
}

/// A pass once it is settled what goes out.
pub open spec fn pass_spec(
    s: SpnegoInitiatorV,
    send: Send,
    r: Option<NegTokenRespV>,
    now: Moment,
    deleg_env: EntropyV,
    env: EntropyV,
) -> (SpnegoInitiatorV, Result<InitStepV, Krb5ErrorV>) {
    let (s1, r1) = inner_step_spec(s, send, r, now, deleg_env, env);
    match r1 {
        Err(e) => (s1, Err(e)),
        Ok((send1, mechtok)) => {
            let mic_in = match r {
                Some(x) => x.mech_list_mic,
                None => None,
            };
            let (s2, r2) = init_mic_spec(s1, send1, mic_in, mechtok);
            match r2 {
                Err(e) => (s2, Err(e)),
                Ok(out) => {
                    let (s3, step) = emit_spec(s2, out, mechtok);
                    (s3, Ok(step))
                },
            }
        },
    }
}

/// What one step of a SPNEGO initiator does and returns.
pub open spec fn spnego_init_spec(s: SpnegoInitiatorV, input: Option<Seq<u8>>, now: Moment, deleg_env: EntropyV, env: EntropyV) -> (
    SpnegoInitiatorV,
    Result<InitStepV, Krb5ErrorV>,
) {
    if s.fresh {
        let (s1, r) = open_spec(s);
        match r {
            Err(e) => (s1, Err(e)),
            Ok(send) => pass_spec(s1, send, None, now, deleg_env, env),
        }
    } else {
        match input {
            None => (s, Err(gss_err(GssError::DefectiveToken))),
            Some(body) => match decode_resp_spec(body) {
                Err(e) => (s, Err(gss_err(e))),
                Ok(resp) => {
                    let (s1, r) = reply_spec(s, resp);
                    match r {
                        Err(e) => (s1, Err(e)),
                        Ok(send) => pass_spec(s1, send, Some(resp), now, deleg_env, env),
                    }
                },
            },
        }
    }
}

/// A MIC was sent or received only where one is required, and not before the
/// mechanism is settled.
pub open spec fn spnego_init_ok(s: SpnegoInitiatorV) -> bool {
    &&& s.mic.sent || s.mic.rcvd ==> s.mic.reqd && s.nego_done
    &&& s.fresh ==> !s.mic.reqd
}

/// The inner step touches neither the MIC exchange nor the negotiation, and
/// sends nothing only once the mechanism is complete.
proof fn lemma_inner_step(s: SpnegoInitiatorV, send: Send, r: Option<NegTokenRespV>, now: Moment, deleg_env: EntropyV, env: EntropyV)
    requires
        send == Send::Nothing ==> s.mech_complete,
    ensures
        ({
            let (after, out) = inner_step_spec(s, send, r, now, deleg_env, env);
            &&& after.mic == s.mic
            &&& after.nego_done == s.nego_done
            &&& after.fresh == s.fresh
            &&& out matches Ok((to_send, tok)) ==> (to_send == Send::Nothing ==> after.mech_complete && !nonempty(tok))
        }),
{
}

/// The MIC step keeps the MIC invariant; with nothing to send and no
/// mechanism token it leaves no MIC open.
proof fn lemma_mic_step(s: SpnegoInitiatorV, send: Send, mic_in: Option<Seq<u8>>, mechtok: Option<Seq<u8>>)
    requires
        s.mic.sent || s.mic.rcvd ==> s.mic.reqd,
        send == Send::Nothing ==> s.mech_complete && !nonempty(mechtok),
    ensures
        ({
            let (after, out) = init_mic_spec(s, send, mic_in, mechtok);
            &&& after.mic.sent || after.mic.rcvd ==> after.mic.reqd
            &&& mic_in is None && !s.mic.reqd ==> after.mic == s.mic
            &&& after.nego_done == s.nego_done
            &&& after.fresh == s.fresh
            &&& after.mech_complete == s.mech_complete
            &&& out matches Ok(o) ==> (o.send == Send::Nothing || o.neg == NegState::AcceptCompleted
                ==> after.mech_complete && (after.mic.reqd ==> after.mic.sent && after.mic.rcvd))
        }),
{
}

proof fn lemma_pass(s: SpnegoInitiatorV, send: Send, r: Option<NegTokenRespV>, now: Moment, deleg_env: EntropyV, env: EntropyV)
    requires
        s.mic.sent || s.mic.rcvd ==> s.mic.reqd,
        send == Send::Nothing ==> s.mech_complete,
        s.nego_done || (r is None && !s.mic.reqd),
        !s.fresh,
    ensures
        ({
            let (after, out) = pass_spec(s, send, r, now, deleg_env, env);
            &&& spnego_init_ok(after)
            &&& out matches Ok(InitStepV::Complete(_)) ==> after.opened && after.mech_complete && (after.mic.reqd
                ==> after.mic.sent && after.mic.rcvd)
        }),
{
    lemma_inner_step(s, send, r, now, deleg_env, env);
    let (s1, r1) = inner_step_spec(s, send, r, now, deleg_env, env);
    if r1 is Ok {
        let mic_in = match r {
            Some(x) => x.mech_list_mic,
            None => None,
        };
        lemma_mic_step(s1, (r1->Ok_0).0, mic_in, (r1->Ok_0).1);
    }
}

/// A SPNEGO exchange completes only when the inner mechanism did and, where
/// MICs are required, both were exchanged; every step keeps the invariant on
/// which this rests.
pub proof fn law_spnego_init_complete(s: SpnegoInitiatorV, input: Option<Seq<u8>>, now: Moment, deleg_env: EntropyV, env: EntropyV)
    requires
        spnego_init_ok(s),
    ensures
        ({
            let (after, r) = spnego_init_spec(s, input, now, deleg_env, env);
            &&& spnego_init_ok(after)
            &&& r matches Ok(InitStepV::Complete(_)) ==> after.opened && after.mech_complete && (after.mic.reqd
                ==> after.mic.sent && after.mic.rcvd)
        }),
{
    if s.fresh {
        let (s1, r) = open_spec(s);
        if r is Ok {
            lemma_pass(s1, r->Ok_0, None, now, deleg_env, env);
        }
    } else if input is Some {
        match decode_resp_spec(input->0) {
            Ok(resp) => {
                let (s1, r) = reply_spec(s, resp);
                if r is Ok {
                    lemma_pass(s1, r->Ok_0, Some(resp), now, deleg_env, env);
                }
            },
            Err(_) => {},
        }
    }
}

fn find_kerb(ms: &Vec<Vec<u8>>) -> (r: Option<usize>)
    ensures
        match r {
            Some(i) => first_kerb(list_view(ms@)) == Some(i as int) && i < ms@.len(),
            None => first_kerb(list_view(ms@)) is None,
        },
{
    let ghost all = list_view(ms@);
    let mut i: usize = 0;
    assert(all.skip(0) =~= all);
    while i < ms.len()
        invariant
            i <= ms@.len(),
            all == list_view(ms@),
            match first_kerb(all.skip(i as int)) {
                Some(k) => first_kerb(all) == Some(k + i),
                None => first_kerb(all) is None,
            },
        decreases ms@.len() - i,
    {
        assert(all.skip(i as int).drop_first() =~= all.skip(i + 1));
        assert(all.skip(i as int)[0] == ms@[i as int]@);
        if is_kerb_mech(&ms[i]) {
            return Some(i);
        }
        i = i + 1;
    }
    assert(all.skip(i as int).len() == 0);
    None
}

fn list_from(ms: &Vec<Vec<u8>>, k: usize) -> (r: Vec<Vec<u8>>)
    requires
        k <= ms@.len(),
    ensures
        list_view(r@) == list_view(ms@).skip(k as int),
{
    let mut r: Vec<Vec<u8>> = Vec::new();
    let mut i: usize = k;
    while i < ms.len()
        invariant
            k <= i <= ms@.len(),
            r@.len() == i - k,
            forall|j: int| 0 <= j < r@.len() ==> (#[trigger] r@[j])@ == ms@[k + j]@,
        decreases ms@.len() - i,
    {
        r.push(copy(&ms[i]));
        i = i + 1;
    }
    assert(list_view(r@) =~= list_view(ms@).skip(k as int));
    r
}

/// What a step decided, by its views.
pub open spec fn send_outcome(r: Result<Send, Krb5Error>) -> Result<Send, Krb5ErrorV> {
    match r {
        Ok(s) => Ok(s),
        Err(e) => Err(e@),
    }
}

impl SpnegoInitiator {
    /// Create an initiator. `mech_types` is the advertised order; the first
    /// Kerberos OID in it is used optimistically.
    pub fn new(inner: Krb5Initiator, mech_types: Vec<Vec<u8>>) -> (r: Self)
        ensures
            r@ == (SpnegoInitiatorV {
                inner: Some(inner@),
                mech_types: list_view(mech_types@),
                der_mech_types: Seq::empty(),
                internal_mech: None,
                mech_complete: false,
                nego_done: false,
                mic: MicCtx { reqd: false, sent: false, rcvd: false },
                opened: false,
                fresh: true,
            }),
            spnego_init_ok(r@),
    {
        let der_mech_types: Vec<u8> = Vec::new();
        assert(der_mech_types@ =~= Seq::empty());
        SpnegoInitiator {
            inner: Some(inner),
            mech_types,
            der_mech_types,
            internal_mech: None,
            mech_complete: false,
            nego_done: false,
            mic: MicCtx { reqd: false, sent: false, rcvd: false },
            opened: false,
            fresh: true,
        }
    }

    fn open(&mut self) -> (r: Result<Send, Krb5Error>)
        ensures
            (final(self)@, send_outcome(r)) == open_spec(old(self)@),
    {
        self.fresh = false;
        let i: usize = match find_kerb(&self.mech_types) {
            Some(i) => i,
            None => return Err(gss(GssError::BadMech)),
        };
        let ms = list_from(&self.mech_types, i);
        assert(list_view(ms@)[0] == ms@[0]@);
        self.internal_mech = Some(copy(&ms[0]));
        self.der_mech_types = put_mech_set(&ms);
        self.mech_types = ms;
        Ok(Send::Init)
    }

    fn reselect(&mut self, r: &NegTokenResp, supported: Vec<u8>) -> (out: Result<Send, Krb5Error>)
        ensures
            (final(self)@, send_outcome(out)) == reselect_spec(old(self)@, r@, supported@),
    {
        let wants_mic = r.neg_state == Some(NegState::RequestMic);
        let allowed = wants_mic || (r.neg_state == Some(NegState::AcceptIncomplete) && same(&supported, &MECH_NTLMSSP));
        if !list_has(&self.mech_types, &supported) || !allowed {
            return Err(gss(GssError::DefectiveToken));
        }
        self.mech_complete = false;
        self.mic.reqd = wants_mic;
        let kerb = is_kerb_mech(&supported);
        self.internal_mech = Some(supported);
        if !kerb {
            return Err(gss(GssError::BadMech));
        }
        self.nego_done = true;
        Ok(Send::Cont)
    }

    fn first_reply(&mut self, r: &NegTokenResp) -> (out: Result<Send, Krb5Error>)
        ensures
            (final(self)@, send_outcome(out)) == first_reply_spec(old(self)@, r@),
    {
        let internal = copy_or_empty(&self.internal_mech);
        let supported = match &r.supported_mech {
            Some(m) => copy(m),
            None => copy(&internal),
        };
        if !same(&supported, &internal) && !(is_kerb_mech(&supported) && is_kerb_mech(&internal)) {
            return self.reselect(r, supported);
        }
        if self.mech_complete {
            if is_nonempty(&r.response_token) {
                return Err(gss(GssError::DefectiveToken));
            }
            self.nego_done = true;
            return Ok(Send::Nothing);
        }
        if r.response_token.is_none() {
            return Err(gss(GssError::DefectiveToken));
        }
        self.nego_done = true;
        Ok(Send::Cont)
    }

    fn reply(&mut self, r: &NegTokenResp) -> (out: Result<Send, Krb5Error>)
        ensures
            (final(self)@, send_outcome(out)) == reply_spec(old(self)@, r@),
    {
        if r.neg_state == Some(NegState::Reject) && r.response_token.is_none() {
            return Err(gss(if self.nego_done { GssError::Failure } else { GssError::BadMech }));
        }
        if !self.nego_done {
            return self.first_reply(r);
        }
        if self.mech_complete == r.response_token.is_some() {
            return Err(gss(GssError::DefectiveToken));
        }
        if !self.mech_complete || self.mic.reqd {
            Ok(Send::Cont)
        } else {
            Ok(Send::Nothing)
        }
    }

    fn inner_step(&mut self, send: Send, r: &Option<NegTokenResp>, now: Moment, deleg_env: &Entropy, env: &Entropy) -> (out: Result<
        (Send, Option<Vec<u8>>),
        Krb5Error,
    >)
        ensures
            ({
                let (s, x) = inner_step_spec(old(self)@, send, opt_view(*r), now, deleg_env@, env@);
                &&& final(self)@ == s
                &&& match out {
                    Ok((a, b)) => x == Ok::<(Send, Option<Seq<u8>>), Krb5ErrorV>((a, opt_view(b))),
                    Err(e) => x == Err::<(Send, Option<Seq<u8>>), Krb5ErrorV>(e@),
                }
            }),
    {
        if self.mech_complete {
            return Ok((send, None));
        }
        let mut inner = match self.inner.take() {
            Some(i) => i,
            None => return Err(gss(GssError::NoContext)),
        };
        let (mechtok_in, rejected) = match r {
            Some(x) => (slice_of(&x.response_token), x.neg_state == Some(NegState::Reject)),
            None => (None, false),
        };
        assert(opt_seq(mechtok_in) == cursor_view(mechtok_in));
        let out = inner.step_with(mechtok_in, now, deleg_env, env);
        self.inner = Some(inner);
        match out {
            Err(e) => Err(e),
            Ok(InitStep::Continue(t)) => {
                if rejected {
                    return Err(gss(GssError::DefectiveToken));
                }
                Ok((send, Some(t)))
            },
            Ok(InitStep::Complete(t)) => {
                self.mech_complete = true;
                if rejected {
                    return Err(gss(GssError::DefectiveToken));
                }
                if send == Send::Cont && !is_nonempty(&t) && !self.mic.reqd {
                    return Ok((Send::Nothing, t));
                }
                Ok((send, t))
            },
        }
    }

    fn mic_step(&mut self, send: Send, mic_in: Option<&[u8]>, mechtok: &Option<Vec<u8>>) -> (out: Result<
        (Send, NegState, Option<Vec<u8>>),
        Krb5Error,
    >)
        ensures
            ({
                let (s, x) = init_mic_spec(old(self)@, send, cursor_view(mic_in), opt_view(*mechtok));
                &&& final(self)@ == s
                &&& match out {
                    Ok((a, b, c)) => x == Ok::<Outgoing, Krb5ErrorV>(Outgoing { send: a, neg: b, mic: opt_view(c) }),
                    Err(e) => x == Err::<Outgoing, Krb5ErrorV>(e@),
                }
            }),
    {
        let mut neg = NegState::AcceptIncomplete;
        if !self.mech_complete {
            return Ok((send, neg, None));
        }
        let mut inner = match self.inner.take() {
            Some(i) => i,
            None => return Err(gss(GssError::NoContext)),
        };
        let mut ctx = match inner.ctx.take() {
            Some(c) => c,
            None => {
                self.inner = Some(inner);
                return Err(gss(GssError::NoContext));
            },
        };
        let r = handle_mic(&mut self.mic, &mut ctx, mic_in, is_nonempty(mechtok), &self.der_mech_types, &mut neg);
        inner.ctx = Some(ctx);
        self.inner = Some(inner);
        match r {
            Err(e) => Err(e),
            Ok(m) => {
                let send = match m.no_token_send {
                    None => send,
                    Some(nothing) => if send == Send::Init {
                        Send::Init
                    } else if nothing {
                        Send::Nothing
                    } else {
                        Send::Cont
                    },
                };
                Ok((send, neg, m.mic))
            },
        }
    }

    fn pass(&mut self, send: Send, r: Option<NegTokenResp>, now: Moment, deleg_env: &Entropy, env: &Entropy) -> (out: Result<
        InitStep,
        Krb5Error,
    >)
        ensures
            (final(self)@, outcome(out)) == pass_spec(old(self)@, send, opt_view(r), now, deleg_env@, env@),
    {
        let (send, mechtok) = match self.inner_step(send, &r, now, deleg_env, env) {
            Ok(x) => x,
            Err(e) => return Err(e),
        };
        let mic_in = match &r {
            Some(x) => slice_of(&x.mech_list_mic),
            None => None,
        };
        let (send, neg, mic) = match self.mic_step(send, mic_in, &mechtok) {
            Ok(x) => x,
            Err(e) => return Err(e),
        };
        let complete = send == Send::Nothing || neg == NegState::AcceptCompleted;
        if complete {
            self.opened = true;
        }
        let token = match send {
            Send::Init => Some(encode_neg_token_init(&self.der_mech_types, slice_of(&mechtok), slice_of(&mic), false)),
            Send::Cont => Some(encode_neg_token_resp(neg, None, slice_of(&mechtok), slice_of(&mic))),
            Send::Nothing => None,
        };
        if complete {
            Ok(InitStep::Complete(token))
        } else {
            Ok(InitStep::Continue(copy_or_empty(&token)))
        }
    }

    /// Drive the exchange one step with the given clock reading and random
    /// octets.
    pub fn step_with(&mut self, input: Option<&[u8]>, now: Moment, deleg_env: &Entropy, env: &Entropy) -> (r: Result<
        InitStep,
        Krb5Error,
    >)
        ensures
            (final(self)@, outcome(r)) == spnego_init_spec(old(self)@, cursor_view(input), now, deleg_env@, env@),
    {
        if self.fresh {
            return match self.open() {
                Ok(send) => self.pass(send, None, now, deleg_env, env),
                Err(e) => Err(e),
            };
        }
        let body = match input {
            Some(b) => b,
            None => return Err(gss(GssError::DefectiveToken)),
        };
        let resp = match decode_neg_token_resp(body) {
            Ok(x) => x,
            Err(e) => return Err(gss(e)),
        };
        match self.reply(&resp) {
            Ok(send) => self.pass(send, Some(resp), now, deleg_env, env),
            Err(e) => Err(e),
        }
    }

    /// Drive the exchange one step.
    pub fn step(&mut self, input: Option<&[u8]>) -> (r: Result<InitStep, Krb5Error>)
        ensures
            exists|now: Moment, deleg_env: EntropyV, env: EntropyV|
                deleg_env.ok() && env.ok() && (final(self)@, outcome(r)) == #[trigger] spnego_init_spec(
                    old(self)@,
                    cursor_view(input),
                    now,
                    deleg_env,
                    env,
                ),
    {
        let now = Moment::now();
        let deleg_env = Entropy::draw();
        let env = Entropy::draw();
        self.step_with(input, now, &deleg_env, &env)
    }

    /// Extract the established context; fails while the SPNEGO exchange is
    /// incomplete. PROT_READY is not among its flags.
    pub fn context(self) -> (r: Result<Krb5Context, Krb5Error>)
        ensures
            outcome(r) == (if self@.opened && self@.inner is Some && self@.inner->0.done && self@.inner->0.ctx is Some {
                let c = self@.inner->0.ctx->0;
                Ok::<Krb5ContextV, Krb5ErrorV>(Krb5ContextV { flags: c.flags & NOT_PROT_READY, ..c })
            } else {
                Err::<Krb5ContextV, Krb5ErrorV>(gss_err(GssError::NoContext))
            }),
    {
        if !self.opened {
            return Err(gss(GssError::NoContext));
        }
        match self.inner {
            None => Err(gss(GssError::NoContext)),
            Some(i) => match i.context() {
                Ok(c) => {
                    let mut c = c;
                    c.clear_prot_ready();
                    Ok(c)
                },
                Err(e) => Err(e),
            },
        }
    }

    /// The negotiated mechanism OID (optimistic until the first reply).
    pub fn negotiated_mech(&self) -> (r: Option<&[u8]>)
        ensures
            cursor_view(r) == self@.internal_mech,
    {
        slice_of(&self.internal_mech)
    }
}

} // verus!
