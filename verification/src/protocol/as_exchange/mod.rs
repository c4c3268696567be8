//! AS exchange state machine.
//!
//! The caller drives the loop and controls transport: this module only
//! produces outbound messages and consumes inbound responses.
use vstd::prelude::*;

use crate::asn1::{opt_list_view, Asn1, FlagBits};
use crate::bytes::copy;
use crate::der::{list_view, opt_view};
use crate::error::{outcome, Krb5Error, Krb5ErrorV};
use crate::protocol::credential::{Credential, CredentialV};
use crate::protocol::draws::{Draws, DrawsV};
use crate::protocol::fast::{fresh_fast, process_error_spec, upgrade_spec, FastError, FastErrorV, FastMode, FastModeV, FastState, FastStateV};
use crate::protocol::kdc_rep::{decode_krb_error, krb_error_spec};
use crate::protocol::preauth::ErrorCode;
use crate::protocol::validate::{default_max_clock_skew, default_skew};
use crate::text::{lossy, same_text, utf8_lossy};
use crate::time::{Duration, Moment};
use crate::types::names::{has_flags, name_of, NT_PRINCIPAL};
use crate::types::{AsRep, KdcOptions, KdcReqBody, KdcReqBodyV, KdcReqV, PaData, PaDataV, PrincipalName, PrincipalNameV};

pub mod laws;
pub mod reply;
pub mod request;

use reply::as_rep_spec;
use request::{answer_spec, note_spec, padata_spec, reset_fast_spec, restart_spec, send_preauth_spec, send_spec, PaOffset, PaOffsetV};

verus! {

/// Maximum pre-authentication loop iterations.
pub const MAX_PREAUTH_LOOPS: u32 = 16;

/// Configuration for an AS exchange.
#[derive(Debug)]
pub struct AsExchangeConfig {
    /// Client principal name.
    pub client: PrincipalName,
    /// Kerberos realm.
    pub realm: String,
    /// Preferred encryption types (in order). Default:
    /// [AES-256-SHA1, AES-128-SHA1, AES-256-SHA2, AES-128-SHA2].
    pub etypes: Vec<i32>,
    /// KDC options flags.
    pub kdc_options: FlagBits,
    /// Requested ticket lifetime. Default: 10 hours.
    pub tkt_lifetime: Duration,
    /// Requested renewable lifetime. Default: 7 days.
    ///
    /// Renewability is controlled by the `KdcOptions::RENEWABLE` flag in
    /// `kdc_options`. To request a non-renewable ticket, clear that flag.
    pub renew_lifetime: Duration,
    /// Whether to request a PAC (for AD environments). Default: true.
    pub request_pac: bool,
    /// Maximum allowed clock skew. Default: 5 minutes.
    pub max_clock_skew: Duration,
    /// FAST mode. Default: disabled.
    pub fast: FastMode,
}

/// Model of [`AsExchangeConfig`].
pub struct AsExchangeConfigV {
    pub client: PrincipalNameV,
    pub realm: Seq<char>,
    pub etypes: Seq<i32>,
    pub kdc_options: u32,
    pub tkt_lifetime: Duration,
    pub renew_lifetime: Duration,
    pub request_pac: bool,
    pub max_clock_skew: Duration,
    pub fast: FastModeV,
}

impl View for AsExchangeConfig {
    type V = AsExchangeConfigV;

    open spec fn view(&self) -> AsExchangeConfigV {
        AsExchangeConfigV {
            client: self.client@,
            realm: self.realm@,
            etypes: self.etypes@,
            kdc_options: self.kdc_options@,
            tkt_lifetime: self.tkt_lifetime,
            renew_lifetime: self.renew_lifetime,
            request_pac: self.request_pac,
            max_clock_skew: self.max_clock_skew,
            fast: self.fast@,
        }
    }
}

/// The options asked for by default: forwardable, renewable, canonical.
pub const DEFAULT_KDC_OPTIONS: u32 = 0x4081_0000;

/// The default configuration of a principal and a realm.
pub open spec fn default_config(client: PrincipalNameV, realm: Seq<char>) -> AsExchangeConfigV {
    AsExchangeConfigV {
        client,
        realm,
        etypes: crate::protocol::ap::req_rep::default_etypes(),
        kdc_options: DEFAULT_KDC_OPTIONS,
        tkt_lifetime: Duration { secs: 36_000, nanos: 0 },
        renew_lifetime: Duration { secs: 604_800, nanos: 0 },
        request_pac: true,
        max_clock_skew: default_skew(),
        fast: FastModeV::Disabled,
    }
}

/// The default options are forwardable, renewable and canonicalize.
pub proof fn law_default_options()
    ensures
        DEFAULT_KDC_OPTIONS == KdcOptions::FORWARDABLE | KdcOptions::RENEWABLE | KdcOptions::CANONICALIZE,
{
    assert(0x4081_0000u32 == 0x4000_0000u32 | 0x0080_0000u32 | 0x0001_0000u32) by (bit_vector);
}

/// Default provides sensible options (etypes, flags, lifetimes) but leaves
/// `client` and `realm` empty. Use `AsExchangeConfig::new()` instead of
/// `Default::default()` directly — the empty client/realm will cause the
/// exchange to fail at the KDC.
impl Default for AsExchangeConfig {
    fn default() -> (r: Self)
        ensures
            r@ == default_config(name_of(NT_PRINCIPAL, seq![Seq::<u8>::empty()]), Seq::empty()),
    {
        let mut v: Vec<crate::asn1::GeneralString> = Vec::new();
        v.push(crate::asn1::GeneralString::default());
        assert(list_view(v@) =~= seq![Seq::<u8>::empty()]);
        let realm = String::new();
        assert(realm@ =~= Seq::empty());
        AsExchangeConfig::new(PrincipalName { name_type: NT_PRINCIPAL, name_string: v }, &realm)
    }
}

impl AsExchangeConfig {
    /// Create a config for the given principal and realm with defaults.
    pub fn new(client: PrincipalName, realm: &str) -> (r: Self)
        ensures
            r@ == default_config(client@, realm@),
    {
        AsExchangeConfig {
            client,
            realm: crate::text::owned(realm),
            etypes: crate::protocol::ap::req_rep::default_etype_list(),
            kdc_options: FlagBits::new(DEFAULT_KDC_OPTIONS),
            tkt_lifetime: Duration::from_secs(36_000),
            renew_lifetime: Duration::from_secs(604_800),
            request_pac: true,
            max_clock_skew: default_max_clock_skew(),
            fast: FastMode::Disabled,
        }
    }

    /// Create a config that asks for no PAC.
    ///
    /// Use this for non-AD environments where PAC is not needed.
    pub fn new_no_pac(client: PrincipalName, realm: &str) -> (r: Self)
        ensures
            r@ == (AsExchangeConfigV { request_pac: false, ..default_config(client@, realm@) }),
    {
        let mut c = AsExchangeConfig::new(client, realm);
        c.request_pac = false;
        c
    }
}

/// Result of a single `step()` call.
#[derive(Debug)]
pub enum StepResult {
    /// Send this DER-encoded message to the KDC for the given realm.
    SendToKdc {
        /// DER-encoded AS-REQ.
        data: Vec<u8>,
        /// Realm to send to (for KDC discovery).
        realm: String,
    },
    /// KDC responded with `KRB_ERR_RESPONSE_TOO_BIG` — resend the same
    /// request over TCP. The `data` field contains the exact AS-REQ bytes
    /// that were last sent (no state change, exchange is still alive).
    RetryTcp {
        /// DER-encoded AS-REQ (same bytes as the previous `SendToKdc`).
        data: Vec<u8>,
        /// Realm.
        realm: String,
    },
    /// Exchange finished successfully. Call `credential()` to extract result.
    Complete,
}

/// Model of [`StepResult`].
pub enum StepResultV {
    SendToKdc { data: Seq<u8>, realm: Seq<char> },
    RetryTcp { data: Seq<u8>, realm: Seq<char> },
    Complete,
}

impl View for StepResult {
    type V = StepResultV;

    open spec fn view(&self) -> StepResultV {
        match self {
            StepResult::SendToKdc { data, realm } => StepResultV::SendToKdc { data: data@, realm: realm@ },
            StepResult::RetryTcp { data, realm } => StepResultV::RetryTcp { data: data@, realm: realm@ },
            StepResult::Complete => StepResultV::Complete,
        }
    }
}

/// State of the AS exchange.
#[derive(Debug, Clone, Copy, PartialEq, Eq, Structural)]
pub enum AsState {
    /// Build and send the initial AS-REQ (possibly without preauth).
    Initial,
    /// Waiting for KDC response (may transition to Preauth or Complete).
    AwaitReply,
    /// Exchange complete.
    Complete,
}

/// Step-based AS exchange state machine.
///
/// Call `step` with an empty slice first and then with each reply of the
/// KDC; send what it returns, until it returns `StepResult::Complete`.
pub struct AsExchange {
    pub state: AsState,
    pub config: AsExchangeConfig,
    pub password: String,
    pub nonce: u32,
    /// The most recent AS-REQ body (for validation on reply).
    pub last_req_body: Option<KdcReqBody>,
    /// The most recent DER-encoded AS-REQ (for RetryTcp re-emit).
    pub last_req_bytes: Vec<u8>,
    /// Persisted salt from preauth hint (for AS-REP decryption).
    pub last_preauth_salt: Option<Vec<u8>>,
    /// Persisted s2kparams from preauth hint (for AS-REP decryption).
    pub last_s2kparams: Option<Vec<u8>>,
    /// Persisted etype from preauth hint (for hint-less MORE_PREAUTH_DATA).
    pub last_preauth_etype: Option<i32>,
    /// PA-FX-COOKIE from the most recent KDC error, echoed verbatim in the
    /// next AS-REQ. Not cached: an error without a cookie clears it.
    pub cookie: Option<Vec<u8>>,
    /// Whether informational padata (PA-AS-FRESHNESS, PA-REQ-ENC-PA-REP) may
    /// be sent.
    pub info_pa_permitted: bool,
    /// Whether the exchange has already restarted once (only one
    /// PREAUTH_FAILED restart allowed).
    pub restarted: bool,
    /// Whether we have sent preauth in a request.
    pub preauth_sent: bool,
    /// The padata type of the last preauth mechanism we answered with.
    pub selected_preauth_type: Option<i32>,
    /// Real preauth types that already failed this exchange.
    pub preauth_failed: Vec<i32>,
    /// METHOD-DATA accepted from the most recent preauth error.
    pub method_padata: Option<Vec<PaData>>,
    /// Time offset learned from a KDC error's stime.
    pub pa_offset: Option<PaOffset>,
    /// FAST per-request state (rebuilt per restart).
    pub fast_state: FastState,
    /// FAST negotiation result: ENC_PA_REP + FAST in enc_padata.
    pub fast_avail: bool,
    /// A KDC encrypted challenge in the reply verified against the
    /// KDC-direction challenge key.
    pub kdc_verified: bool,
    /// Loop counter to prevent infinite preauth loops.
    pub loop_count: u32,
    /// Output credential.
    pub credential: Option<Credential>,
}

/// Model of [`AsExchange`].
pub struct AsExchangeV {
    pub state: AsState,
    pub config: AsExchangeConfigV,
    pub password: Seq<char>,
    pub nonce: u32,
    pub last_req_body: Option<KdcReqBodyV>,
    pub last_req_bytes: Seq<u8>,
    pub last_preauth_salt: Option<Seq<u8>>,
    pub last_s2kparams: Option<Seq<u8>>,
    pub last_preauth_etype: Option<i32>,
    pub cookie: Option<Seq<u8>>,
    pub info_pa_permitted: bool,
    pub restarted: bool,
    pub preauth_sent: bool,
    pub selected_preauth_type: Option<i32>,
    pub preauth_failed: Seq<i32>,
    pub method_padata: Option<Seq<PaDataV>>,
    pub pa_offset: Option<PaOffsetV>,
    pub fast_state: FastStateV,
    pub fast_avail: bool,
    pub kdc_verified: bool,
    pub loop_count: u32,
    pub credential: Option<CredentialV>,
}

impl View for AsExchange {
    type V = AsExchangeV;

    open spec fn view(&self) -> AsExchangeV {
        AsExchangeV {
            state: self.state,
            config: self.config@,
            password: self.password@,
            nonce: self.nonce,
            last_req_body: opt_view(self.last_req_body),
            last_req_bytes: self.last_req_bytes@,
            last_preauth_salt: opt_view(self.last_preauth_salt),
            last_s2kparams: opt_view(self.last_s2kparams),
            last_preauth_etype: self.last_preauth_etype,
            cookie: opt_view(self.cookie),
            info_pa_permitted: self.info_pa_permitted,
            restarted: self.restarted,
            preauth_sent: self.preauth_sent,
            selected_preauth_type: self.selected_preauth_type,
            preauth_failed: self.preauth_failed@,
            method_padata: opt_list_view(self.method_padata),
            pa_offset: opt_view(self.pa_offset),
            fast_state: self.fast_state@,
            fast_avail: self.fast_avail,
            kdc_verified: self.kdc_verified,
            loop_count: self.loop_count,
            credential: opt_view(self.credential),
        }
    }
}

/// A new exchange.
pub open spec fn fresh_exchange(config: AsExchangeConfigV, password: Seq<char>) -> AsExchangeV {
    AsExchangeV {
        state: AsState::Initial,
        config,
        password,
        nonce: 0,
        last_req_body: None,
        last_req_bytes: Seq::empty(),
        last_preauth_salt: None,
        last_s2kparams: None,
        last_preauth_etype: None,
        cookie: None,
        info_pa_permitted: true,
        restarted: false,
        preauth_sent: false,
        selected_preauth_type: None,
        preauth_failed: Seq::empty(),
        method_padata: None,
        pa_offset: None,
        fast_state: fresh_fast(),
        fast_avail: false,
        kdc_verified: false,
        loop_count: 0,
        credential: None,
    }
}

/// The first step: the initial request, armored when FAST is required.
pub open spec fn initial_spec(v: AsExchangeV, now: Moment, d: DrawsV) -> (AsExchangeV, Result<StepResultV, Krb5ErrorV>) {
    let (v1, armed) = reset_fast_spec(v, v.config.fast is Required, now, d);
    match armed {
        Err(e) => (v1, Err(e)),
        Ok(()) => {
            let (v2, r) = send_spec(v1, Seq::empty(), now, d);
            (if r is Ok { AsExchangeV { state: AsState::AwaitReply, ..v2 } } else { v2 }, r)
        },
    }
}

/// One more preauth round.
pub open spec fn next_loop(n: u32) -> u32 {
    if n == u32::MAX { n } else { (n + 1) as u32 }
}

/// An exchange that takes over the data of an error, if it has any.
pub open spec fn with_method(v: AsExchangeV, padata: Option<Seq<PaDataV>>) -> AsExchangeV {
    AsExchangeV {
        method_padata: if padata is Some { padata } else { v.method_padata },
        ..v
    }
}

/// A KDC asks for (more) preauthentication.
pub open spec fn preauth_required_spec(v: AsExchangeV, fe: FastErrorV, now: Moment, d: DrawsV) -> (
    AsExchangeV,
    Result<StepResultV, Krb5ErrorV>,
) {
    let v1 = AsExchangeV { loop_count: next_loop(v.loop_count), ..v };
    if v1.loop_count > MAX_PREAUTH_LOOPS {
        (v1, Err(Krb5ErrorV::PreauthLoopExceeded(MAX_PREAUTH_LOOPS)))
    } else {
        send_preauth_spec(with_method(note_spec(v1, fe.err.stime, fe.err.susec, now), fe.padata), now, d)
    }
}

/// A preauthentication mechanism failed: it is noted, and the next one
/// tried; where none is left, the KDC's own error is returned.
pub open spec fn preauth_failed_spec(v: AsExchangeV, fe: FastErrorV, now: Moment, d: DrawsV) -> (
    AsExchangeV,
    Result<StepResultV, Krb5ErrorV>,
) {
    let v1 = note_spec(v, fe.err.stime, fe.err.susec, now);
    let v2 = AsExchangeV {
        preauth_failed: match v.selected_preauth_type {
            Some(t) => v.preauth_failed.push(t),
            None => v.preauth_failed,
        },
        selected_preauth_type: None,
        preauth_sent: false,
        ..v1
    };
    let (v3, r) = send_preauth_spec(with_method(v2, fe.padata), now, d);
    (v3, if r == Err::<StepResultV, Krb5ErrorV>(Krb5ErrorV::PreauthFailed) { Err(Krb5ErrorV::KdcError(fe.err)) } else { r })
}

/// What an unwrapped error of the KDC does to the exchange and gives.
pub open spec fn error_step_spec(v: AsExchangeV, fe: FastErrorV, now: Moment, d: DrawsV) -> (
    AsExchangeV,
    Result<StepResultV, Krb5ErrorV>,
) {
    let code = fe.err.error_code;
    let padata = match fe.padata {
        Some(ps) => ps,
        None => Seq::empty(),
    };
    if !v.restarted && upgrade_spec(v.fast_state, padata) {
        restart_spec(AsExchangeV { restarted: true, ..v }, true, now, d)
    } else if (code == ErrorCode::PREAUTH_REQUIRED || code == ErrorCode::MORE_PREAUTH_DATA_REQUIRED) && fe.retry {
        preauth_required_spec(v, fe, now, d)
    } else if code == ErrorCode::RESPONSE_TOO_BIG {
        (v, Ok(StepResultV::RetryTcp { data: v.last_req_bytes, realm: v.config.realm }))
    } else if code == ErrorCode::PREAUTH_FAILED && !v.preauth_sent && !v.restarted {
        restart_spec(AsExchangeV { info_pa_permitted: false, restarted: true, ..v }, false, now, d)
    } else if code == ErrorCode::PREAUTH_FAILED && fe.retry {
        preauth_failed_spec(v, fe, now, d)
    } else if code == ErrorCode::PREAUTH_EXPIRED {
        restart_spec(AsExchangeV { restarted: false, ..v }, false, now, d)
    } else if code == ErrorCode::WRONG_REALM && has_flags(v.config.kdc_options, KdcOptions::CANONICALIZE) {
        let realm = utf8_lossy(fe.err.realm);
        if realm != v.config.realm {
            restart_spec(AsExchangeV { config: AsExchangeConfigV { realm, ..v.config }, ..v }, false, now, d)
        } else {
            (v, Err(Krb5ErrorV::KdcError(fe.err)))
        }
    } else if fe.retry && v.selected_preauth_type is Some {
        send_preauth_spec(v, now, d)
    } else {
        (v, Err(Krb5ErrorV::KdcError(fe.err)))
    }
}

/// What a reply of the KDC does to the exchange and gives.
pub open spec fn reply_step_spec(v: AsExchangeV, reply: Seq<u8>, now: Moment, d: DrawsV) -> (
    AsExchangeV,
    Result<StepResultV, Krb5ErrorV>,
) {
    if reply.len() == 0 {
        (v, Err(Krb5ErrorV::ReplyValidation("empty KDC reply"@)))
    } else {
        match <AsRep as Asn1>::parse(reply) {
            Some(rep) => if rep.pvno != 5 || rep.msg_type != 11 {
                (v, Err(Krb5ErrorV::ReplyValidation("invalid AS-REP pvno/msg_type"@)))
            } else {
                as_rep_spec(v, rep, now)
            },
            None => match krb_error_spec(reply) {
                Err(e) => (v, Err(e)),
                Ok(err) => match process_error_spec(v.fast_state, err) {
                    Err(e) => (v, Err(e)),
                    Ok(fe) => error_step_spec(v, fe, now, d),
                },
            },
        }
    }
}

/// What a step does to the exchange and gives.
pub open spec fn step_spec(v: AsExchangeV, reply: Seq<u8>, now: Moment, d: DrawsV) -> (
    AsExchangeV,
    Result<StepResultV, Krb5ErrorV>,
) {
    match v.state {
        AsState::Initial => initial_spec(v, now, d),
        AsState::AwaitReply => reply_step_spec(v, reply, now, d),
        AsState::Complete => (v, Ok(StepResultV::Complete)),
    }
}

/// Whether a request that is to be sent is the one the exchange remembers:
/// it is for the configured realm, and reads as an AS-REQ with the body and
/// the nonce, which is never 0, kept to check the reply.
pub open spec fn request_kept(v: AsExchangeV, r: Result<StepResultV, Krb5ErrorV>) -> bool {
    r matches Ok(StepResultV::SendToKdc { data, realm }) ==> {
        &&& data == v.last_req_bytes
        &&& realm == v.config.realm
        &&& v.last_req_body is Some
        &&& v.last_req_body->0.nonce == v.nonce
        &&& 0 < v.nonce < 0x8000_0000
        &&& <crate::types::AsReq as Asn1>::parse(data) is Some
        &&& <crate::types::AsReq as Asn1>::parse(data)->0.req_body == v.last_req_body->0
    }
}

/// The preauthentication data of the last request: the answer to the
/// mechanism that was selected, once one was sent.
pub open spec fn preauth_of(v: AsExchangeV, now: Moment, d: DrawsV) -> Seq<PaDataV> {
    match v.selected_preauth_type {
        Some(t) => if v.preauth_sent {
            seq![answer_spec(v, t, now, d)->Ok_0]
        } else {
            Seq::empty()
        },
        None => Seq::empty(),
    }
}

/// The last request as it is without armor.
pub open spec fn plain_request(v: AsExchangeV, now: Moment, d: DrawsV) -> KdcReqV {
    KdcReqV {
        pvno: 5,
        msg_type: 10,
        padata: Some(padata_spec(v, preauth_of(v, now, d))),
        req_body: v.last_req_body->0,
    }
}

/// Whether a request that is to be sent without armor reads as the AS-REQ
/// that the exchange stands for.
pub open spec fn request_reads(v: AsExchangeV, r: Result<StepResultV, Krb5ErrorV>, now: Moment, d: DrawsV) -> bool {
    r matches Ok(StepResultV::SendToKdc { data, realm }) ==> v.fast_state.armor_key is None
        ==> <crate::types::AsReq as Asn1>::parse(data) == Some(plain_request(v, now, d))
}

/// Whether no preauthentication counts as sent before the first request.
pub open spec fn starts_plain(v: AsExchangeV) -> bool {
    v.state == AsState::Initial ==> !v.preauth_sent
}

impl AsExchange {
    /// Create a new AS exchange.
    pub fn new(config: AsExchangeConfig, password: &str) -> (r: Self)
        ensures
            r@ == fresh_exchange(config@, password@),
    {
        let r = AsExchange {
            state: AsState::Initial,
            config,
            password: crate::text::owned(password),
            nonce: 0,
            last_req_body: None,
            last_req_bytes: Vec::new(),
            last_preauth_salt: None,
            last_s2kparams: None,
            last_preauth_etype: None,
            cookie: None,
            info_pa_permitted: true,
            restarted: false,
            preauth_sent: false,
            selected_preauth_type: None,
            preauth_failed: Vec::new(),
            method_padata: None,
            pa_offset: None,
            fast_state: FastState::new(),
            fast_avail: false,
            kdc_verified: false,
            loop_count: 0,
            credential: None,
        };
        assert(r.last_req_bytes@ =~= Seq::empty());
        assert(r.preauth_failed@ =~= Seq::empty());
        r
    }

    /// Advance the state machine with the given clock reading and random
    /// values.
    pub fn step_with(&mut self, kdc_reply: &[u8], now: Moment, draws: &Draws) -> (r: Result<StepResult, Krb5Error>)
        ensures
            (final(self)@, outcome(r)) == step_spec(old(self)@, kdc_reply@, now, draws@),
            request_kept(final(self)@, outcome(r)),
            starts_plain(old(self)@) ==> request_reads(final(self)@, outcome(r), now, draws@),
    {
        match self.state {
            AsState::Initial => self.initial_step(now, draws),
            AsState::AwaitReply => self.process_kdc_reply(kdc_reply, now, draws),
            AsState::Complete => Ok(StepResult::Complete),
        }
    }

    /// Advance the state machine.
    ///
    /// On the first call, pass an empty slice. On subsequent calls, pass the
    /// KDC's response bytes.
    pub fn step(&mut self, kdc_reply: &[u8]) -> (r: Result<StepResult, Krb5Error>)
        ensures
            exists|now: Moment, d: DrawsV|
                d.ok() && #[trigger] step_spec(old(self)@, kdc_reply@, now, d) == (final(self)@, outcome(r)) && (starts_plain(
                    old(self)@,
                ) ==> request_reads(final(self)@, outcome(r), now, d)),
            request_kept(final(self)@, outcome(r)),
    {
        let now = Moment::now();
        let draws = Draws::draw();
        self.step_with(kdc_reply, now, &draws)
    }

    /// Extract the credential after successful completion.
    pub fn credential(&self) -> (r: Result<&Credential, Krb5Error>)
        ensures
            match r {
                Ok(c) => self@.credential == Some(c@),
                Err(e) => self@.credential is None && e@ == Krb5ErrorV::ReplyValidation("exchange not complete"@),
            },
    {
        match &self.credential {
            Some(c) => Ok(c),
            None => Err(Krb5Error::ReplyValidation("exchange not complete")),
        }
    }

    /// Whether the reply negotiated FAST availability (ENC_PA_REP flag set
    /// and PA-FX-FAST in the encrypted padata).
    pub fn fast_avail(&self) -> (r: bool)
        ensures
            r == self@.fast_avail,
    {
        self.fast_avail
    }

    /// Whether a KDC encrypted challenge in the reply verified, proving the
    /// KDC holds the client's long-term key (failure there is non-fatal, so
    /// this is a flag not an error).
    pub fn kdc_verified(&self) -> (r: bool)
        ensures
            r == self@.kdc_verified,
    {
        self.kdc_verified
    }

    fn initial_step(&mut self, now: Moment, draws: &Draws) -> (r: Result<StepResult, Krb5Error>)
        ensures
            (final(self)@, outcome(r)) == initial_spec(old(self)@, now, draws@),
            request_kept(final(self)@, outcome(r)),
            !old(self)@.preauth_sent ==> request_reads(final(self)@, outcome(r), now, draws@),
    {
        let required = self.config.fast.required();
        match self.reset_fast_state(required, now, draws) {
            Ok(()) => {},
            Err(e) => return Err(e),
        }
        let none: Vec<PaData> = Vec::new();
        assert(list_view(none@) =~= Seq::empty());
        match self.send_request(none, now, draws) {
            Ok(s) => {
                self.state = AsState::AwaitReply;
                Ok(s)
            },
            Err(e) => Err(e),
        }
    }

    fn take_method(&mut self, padata: Option<Vec<PaData>>)
        ensures
            final(self)@ == with_method(old(self)@, opt_list_view(padata)),
    {
        if padata.is_some() {
            self.method_padata = padata;
        }
    }

    fn on_preauth_required(&mut self, fe: FastError, now: Moment, draws: &Draws) -> (r: Result<StepResult, Krb5Error>)
        ensures
            (final(self)@, outcome(r)) == preauth_required_spec(old(self)@, fe@, now, draws@),
            request_kept(final(self)@, outcome(r)),
            request_reads(final(self)@, outcome(r), now, draws@),
    {
        self.loop_count = if self.loop_count == u32::MAX { u32::MAX } else { self.loop_count + 1 };
        if self.loop_count > MAX_PREAUTH_LOOPS {
            return Err(Krb5Error::PreauthLoopExceeded(MAX_PREAUTH_LOOPS));
        }
        self.note_req_timestamp(fe.err.stime, fe.err.susec, now);
        self.take_method(fe.padata);
        self.send_preauth_request(now, draws)
    }

    fn on_preauth_failed(&mut self, fe: FastError, now: Moment, draws: &Draws) -> (r: Result<StepResult, Krb5Error>)
        ensures
            (final(self)@, outcome(r)) == preauth_failed_spec(old(self)@, fe@, now, draws@),
            request_kept(final(self)@, outcome(r)),
            request_reads(final(self)@, outcome(r), now, draws@),
    {
        self.note_req_timestamp(fe.err.stime, fe.err.susec, now);
        match self.selected_preauth_type {
            Some(t) => self.preauth_failed.push(t),
            None => {},
        }
        self.selected_preauth_type = None;
        self.preauth_sent = false;
        self.take_method(fe.padata);
        match self.send_preauth_request(now, draws) {
            Err(Krb5Error::PreauthFailed) => Err(Krb5Error::from_error_msg(fe.err)),
            other => other,
        }
    }

    fn upgrade_offered(&self, padata: &Option<Vec<PaData>>) -> (r: bool)
        ensures
            r == upgrade_spec(
                self@.fast_state,
                match opt_list_view(*padata) {
                    Some(ps) => ps,
                    None => Seq::empty(),
                },
            ),
    {
        match padata {
            Some(ps) => self.fast_state.upgrade_to_fast_p(ps),
            None => false,
        }
    }

    /// Acts on an unwrapped error of the KDC.
    pub fn process_kdc_error(&mut self, fe: FastError, now: Moment, draws: &Draws) -> (r: Result<StepResult, Krb5Error>)
        ensures
            (final(self)@, outcome(r)) == error_step_spec(old(self)@, fe@, now, draws@),
            request_kept(final(self)@, outcome(r)),
            request_reads(final(self)@, outcome(r), now, draws@),
    {
        let code: i32 = fe.err.error_code;
        // KDC advertised FAST and we have armor: restart once, armored, with
        // a fresh first request.
        if !self.restarted && self.upgrade_offered(&fe.padata) {
            self.restarted = true;
            return self.restart(true, now, draws);
        }
        if (code == ErrorCode::PREAUTH_REQUIRED || code == ErrorCode::MORE_PREAUTH_DATA_REQUIRED) && fe.retry {
            return self.on_preauth_required(fe, now, draws);
        }
        if code == ErrorCode::RESPONSE_TOO_BIG {
            return Ok(StepResult::RetryTcp { data: copy(&self.last_req_bytes), realm: self.config.realm.clone() });
        }
        if code == ErrorCode::PREAUTH_FAILED && !self.preauth_sent && !self.restarted {
            // No preauth was sent yet: the KDC probably disliked the
            // informational padata; retry once without it.
            self.info_pa_permitted = false;
            self.restarted = true;
            return self.restart(false, now, draws);
        }
        if code == ErrorCode::PREAUTH_FAILED && fe.retry {
            return self.on_preauth_failed(fe, now, draws);
        }
        if code == ErrorCode::PREAUTH_EXPIRED {
            // We sent an expired KDC cookie; start over, allowing another
            // restart on PREAUTH_FAILED.
            self.restarted = false;
            return self.restart(false, now, draws);
        }
        if code == ErrorCode::WRONG_REALM && self.config.kdc_options.contains(KdcOptions::CANONICALIZE) {
            let new_realm = lossy(fe.err.realm.as_bytes());
            if !same_text(&new_realm, &self.config.realm) {
                self.config.realm = new_realm;
                return self.restart(false, now, draws);
            }
            return Err(Krb5Error::from_error_msg(fe.err));
        }
        if fe.retry && self.selected_preauth_type.is_some() {
            self.send_preauth_request(now, draws)
        } else {
            Err(Krb5Error::from_error_msg(fe.err))
        }
    }

    /// Process a KDC response.
    fn process_kdc_reply(&mut self, kdc_reply: &[u8], now: Moment, draws: &Draws) -> (r: Result<StepResult, Krb5Error>)
        ensures
            (final(self)@, outcome(r)) == reply_step_spec(old(self)@, kdc_reply@, now, draws@),
            request_kept(final(self)@, outcome(r)),
            request_reads(final(self)@, outcome(r), now, draws@),
    {
        if kdc_reply.len() == 0 {
            return Err(Krb5Error::ReplyValidation("empty KDC reply"));
        }
        match <AsRep as Asn1>::decode(kdc_reply) {
            Some(rep) => {
                if rep.0.pvno != 5 || rep.0.msg_type != 11 {
                    return Err(Krb5Error::ReplyValidation("invalid AS-REP pvno/msg_type"));
                }
                return self.process_as_rep(rep.0, now);
            },
            None => {},
        }
        let err = match decode_krb_error(kdc_reply) {
            Ok(e) => e,
            Err(e) => return Err(e),
        };
        match self.fast_state.process_error(err) {
            Ok(fe) => self.process_kdc_error(fe, now, draws),
            Err(e) => Err(e),
        }
    }
}

} // verus!
