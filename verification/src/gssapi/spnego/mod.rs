//! SPNEGO over the Kerberos mechanism.
//!
//! The inner mechanism is krb5 only. All three Kerberos OIDs (canonical, the
//! older one, and the Microsoft "wrong" OID) stand for it. A failed
//! negotiation or a bad peer MIC gives an error without an error token, and a
//! `negState` other than 0 to 3 is defective.
use vstd::prelude::*;

use crate::bytes::{copy, same};
use crate::der::{list_view, opt_view};
use crate::error::{outcome, Krb5Error, Krb5ErrorV};
use crate::gssapi::krb5::context::{mic_spec, verify_mic_spec, Krb5Context, Krb5ContextV};
use crate::gssapi::krb5::{gss, gss_err, MECH_KRB5};
use crate::gssapi::GssError;

pub mod acceptor;
pub mod der;
pub mod initiator;
pub mod laws;


pub use acceptor::{SpnegoAcceptor, SpnegoAcceptorV};
pub use initiator::{SpnegoInitiator, SpnegoInitiatorV};
pub use der::{decode_neg_token_init, decode_neg_token_resp, encode_neg_token_init, encode_neg_token_resp, NegTokenInit, NegTokenInitV, NegTokenResp, NegTokenRespV};

verus! {

/// SPNEGO mechanism OID 1.3.6.1.5.5.2.
pub const MECH_SPNEGO: [u8; 6] = [0x2b, 0x06, 0x01, 0x05, 0x05, 0x02];
/// Older Kerberos OID 1.3.5.1.5.2.
pub const MECH_KRB5_OLD: [u8; 5] = [0x2b, 0x05, 0x01, 0x05, 0x02];
/// Microsoft "wrong" Kerberos OID 1.2.840.48018.1.2.2.
pub const MECH_KRB5_WRONG: [u8; 9] = [0x2a, 0x86, 0x48, 0x82, 0xf7, 0x12, 0x01, 0x02, 0x02];
/// NTLMSSP mechanism OID 1.3.6.1.4.1.311.2.2.10.
pub const MECH_NTLMSSP: [u8; 10] = [0x2b, 0x06, 0x01, 0x04, 0x01, 0x82, 0x37, 0x02, 0x02, 0x0a];

/// Whether an OID is one of the three that stand for krb5.
pub open spec fn kerb_mech(oid: Seq<u8>) -> bool {
    oid == MECH_KRB5@ || oid == MECH_KRB5_OLD@ || oid == MECH_KRB5_WRONG@
}

/// Whether an OID is one of the three that stand for krb5.
pub fn is_kerb_mech(oid: &[u8]) -> (r: bool)
    ensures
        r == kerb_mech(oid@),
{
    same(oid, &MECH_KRB5) || same(oid, &MECH_KRB5_OLD) || same(oid, &MECH_KRB5_WRONG)
}

/// SPNEGO negState values.
#[derive(Debug, Clone, Copy, PartialEq, Eq, Structural)]
pub enum NegState {
    /// accept-completed (0)
    AcceptCompleted,
    /// accept-incomplete (1)
    AcceptIncomplete,
    /// reject (2)
    Reject,
    /// request-mic (3)
    RequestMic,
}

impl NegState {
    /// The number on the wire.
    pub open spec fn code(self) -> u8 {
        match self {
            NegState::AcceptCompleted => 0,
            NegState::AcceptIncomplete => 1,
            NegState::Reject => 2,
            NegState::RequestMic => 3,
        }
    }

    /// The state of a number on the wire.
    pub open spec fn of_code(n: u8) -> Option<NegState> {
        if n == 0 {
            Some(NegState::AcceptCompleted)
        } else if n == 1 {
            Some(NegState::AcceptIncomplete)
        } else if n == 2 {
            Some(NegState::Reject)
        } else if n == 3 {
            Some(NegState::RequestMic)
        } else {
            None
        }
    }

    /// The number on the wire.
    pub fn number(self) -> (r: u8)
        ensures
            r == self.code(),
    {
        match self {
            NegState::AcceptCompleted => 0,
            NegState::AcceptIncomplete => 1,
            NegState::Reject => 2,
            NegState::RequestMic => 3,
        }
    }

    /// The state of a number on the wire.
    pub fn from_number(n: u8) -> (r: Option<NegState>)
        ensures
            r == NegState::of_code(n),
    {
        if n == 0 {
            Some(NegState::AcceptCompleted)
        } else if n == 1 {
            Some(NegState::AcceptIncomplete)
        } else if n == 2 {
            Some(NegState::Reject)
        } else if n == 3 {
            Some(NegState::RequestMic)
        } else {
            None
        }
    }
}

/// MIC exchange state shared by both ends.
#[derive(Debug, Clone, Copy, PartialEq, Eq, Structural)]
pub struct MicCtx {
    /// A MIC exchange is required.
    pub reqd: bool,
    /// Our MIC was sent.
    pub sent: bool,
    /// The peer's MIC was received.
    pub rcvd: bool,
}

impl Default for MicCtx {
    fn default() -> (r: Self)
        ensures
            r == (MicCtx { reqd: false, sent: false, rcvd: false }),
    {
        MicCtx { reqd: false, sent: false, rcvd: false }
    }
}

/// Outcome of one MIC step.
#[derive(Debug)]
pub struct MicOut {
    /// MIC to emit in the outgoing token, if any.
    pub mic: Option<Vec<u8>>,
    /// Decided only when both MICs are now exchanged: `Some(true)` when no
    /// token is owed (our MIC went out on an earlier pass), `Some(false)`
    /// when a MIC is owed now.
    pub no_token_send: Option<bool>,
}

/// Model of [`MicOut`].
pub struct MicOutV {
    pub mic: Option<Seq<u8>>,
    pub no_token_send: Option<bool>,
}

impl View for MicOut {
    type V = MicOutV;

    open spec fn view(&self) -> MicOutV {
        MicOutV { mic: opt_view(self.mic), no_token_send: self.no_token_send }
    }
}

/// The state of a MIC step: the exchange, the context and the negState.
pub struct MicState {
    pub mic: MicCtx,
    pub ctx: Krb5ContextV,
    pub neg: NegState,
}

/// The sending half of a MIC step: a MIC goes out when one is required and
/// none was sent; with both exchanged the negotiation is complete.
pub open spec fn mic_send_spec(s: MicState, der: Seq<u8>) -> (MicState, Result<MicOutV, Krb5ErrorV>) {
    let owed = s.mic.reqd && !s.mic.sent;
    let (ctx, r) = mic_spec(s.ctx, der);
    if owed && r is Err {
        (MicState { ctx, ..s }, Err(r->Err_0))
    } else {
        let mic = MicCtx { sent: s.mic.sent || owed, ..s.mic };
        let both = mic.sent && mic.rcvd;
        (
            MicState {
                mic,
                ctx: if owed { ctx } else { s.ctx },
                neg: if both {
                    NegState::AcceptCompleted
                } else if mic.reqd {
                    NegState::AcceptIncomplete
                } else {
                    s.neg
                },
            },
            Ok(
                MicOutV {
                    mic: if owed { Some(r->Ok_0) } else { None },
                    no_token_send: if both { Some(!owed) } else { None },
                },
            ),
        )
    }
}

/// A MIC step. A second MIC is rejected, as is a final token that lacks a
/// required one; a MIC that comes in is verified over `der` and calls for
/// one in return.
pub open spec fn handle_mic_spec(s: MicState, mic_in: Option<Seq<u8>>, send_mechtok: bool, der: Seq<u8>) -> (
    MicState,
    Result<MicOutV, Krb5ErrorV>,
) {
    match mic_in {
        Some(m) => if s.mic.rcvd {
            (s, Err(gss_err(GssError::DefectiveToken)))
        } else {
            let (ctx, r) = verify_mic_spec(s.ctx, der, m);
            match r {
                Err(e) => (MicState { ctx, ..s }, Err(e)),
                Ok(_) => mic_send_spec(MicState { ctx, mic: MicCtx { reqd: true, rcvd: true, ..s.mic }, ..s }, der),
            }
        },
        None => if s.mic.reqd && !send_mechtok {
            (s, Err(gss_err(GssError::DefectiveToken)))
        } else {
            mic_send_spec(s, der)
        },
    }
}

/// A MIC step that succeeds with a MIC exchange required has sent one, and
/// completes the negotiation exactly when the peer's came in too.
pub proof fn law_mic_step(s: MicState, mic_in: Option<Seq<u8>>, send_mechtok: bool, der: Seq<u8>)
    requires
        handle_mic_spec(s, mic_in, send_mechtok, der).1 is Ok,
        s.mic.sent || s.mic.rcvd ==> s.mic.reqd,
    ensures
        ({
            let after = handle_mic_spec(s, mic_in, send_mechtok, der).0;
            &&& after.mic.reqd ==> after.mic.sent
            &&& after.mic.reqd && after.mic.rcvd ==> after.neg == NegState::AcceptCompleted
            &&& after.mic.reqd && !after.mic.rcvd ==> after.neg == NegState::AcceptIncomplete
            &&& mic_in is Some ==> after.mic.rcvd
            &&& after.mic.sent || after.mic.rcvd ==> after.mic.reqd
        }),
{
}

/// Whether a mechanism token is there and not empty.
pub open spec fn nonempty(t: Option<Seq<u8>>) -> bool {
    t is Some && t->0.len() > 0
}

pub(crate) fn is_nonempty(t: &Option<Vec<u8>>) -> (r: bool)
    ensures
        r == nonempty(opt_view(*t)),
{
    match t {
        Some(v) => v.len() > 0,
        None => false,
    }
}

pub(crate) fn slice_of(o: &Option<Vec<u8>>) -> (r: Option<&[u8]>)
    ensures
        der::cursor_view(r) == opt_view(*o),
{
    match o {
        Some(v) => Some(v.as_slice()),
        None => None,
    }
}

/// The OID, or nothing where there is none.
pub open spec fn or_empty(o: Option<Seq<u8>>) -> Seq<u8> {
    match o {
        Some(v) => v,
        None => Seq::empty(),
    }
}

pub(crate) fn copy_or_empty(o: &Option<Vec<u8>>) -> (r: Vec<u8>)
    ensures
        r@ == or_empty(opt_view(*o)),
{
    match o {
        Some(v) => copy(v),
        None => {
            let r: Vec<u8> = Vec::new();
            assert(r@ =~= Seq::empty());
            r
        },
    }
}

pub(crate) fn list_has(ms: &Vec<Vec<u8>>, oid: &[u8]) -> (r: bool)
    ensures
        r == list_view(ms@).contains(oid@),
{
    let mut i: usize = 0;
    while i < ms.len()
        invariant
            i <= ms@.len(),
            forall|j: int| 0 <= j < i ==> (#[trigger] ms@[j])@ != oid@,
        decreases ms@.len() - i,
    {
        if same(&ms[i], oid) {
            assert(list_view(ms@)[i as int] == oid@);
            return true;
        }
        i = i + 1;
    }
    proof {
        if list_view(ms@).contains(oid@) {
            let k = choose|k: int| 0 <= k < ms@.len() && list_view(ms@)[k] == oid@;
            assert(ms@[k]@ == oid@);
        }
    }
    false
}

/// One step of the MIC exchange. `mic_in` is the peer's MIC, `send_mechtok`
/// tells whether a mechanism token is emitted this pass.
pub fn handle_mic(
    mic: &mut MicCtx,
    ctx: &mut Krb5Context,
    mic_in: Option<&[u8]>,
    send_mechtok: bool,
    der_mech_types: &[u8],
    neg_state: &mut NegState,
) -> (r: Result<MicOut, Krb5Error>)
    ensures
        (MicState { mic: *final(mic), ctx: final(ctx)@, neg: *final(neg_state) }, outcome(r)) == handle_mic_spec(
            MicState { mic: *old(mic), ctx: old(ctx)@, neg: *old(neg_state) },
            der::cursor_view(mic_in),
            send_mechtok,
            der_mech_types@,
        ),
{
    match mic_in {
        Some(m) => {
            if mic.rcvd {
                return Err(gss(GssError::DefectiveToken));
            }
            match ctx.verify_mic(der_mech_types, m) {
                Ok(_) => {},
                Err(e) => return Err(e),
            }
            mic.reqd = true;
            mic.rcvd = true;
        },
        None => {
            if mic.reqd && !send_mechtok {
                return Err(gss(GssError::DefectiveToken));
            }
        },
    }
    let mut mic_out: Option<Vec<u8>> = None;
    if mic.reqd && !mic.sent {
        match ctx.get_mic(der_mech_types) {
            Ok(m) => {
                mic_out = Some(m);
            },
            Err(e) => return Err(e),
        }
        mic.sent = true;
    }
    let mut verdict: Option<bool> = None;
    if mic.sent && mic.rcvd {
        *neg_state = NegState::AcceptCompleted;
        verdict = Some(mic_out.is_none());
    } else if mic.reqd {
        *neg_state = NegState::AcceptIncomplete;
    }
    Ok(MicOut { mic: mic_out, no_token_send: verdict })
}

} // verus!
