//! TGS exchange state machine.
//!
//! Obtains service tickets with a previously acquired TGT, step by step, and
//! follows cross-realm referrals.
use vstd::prelude::*;
use vstd::utf8::encode_utf8;

use crate::asn1::{Asn1, Dup};
use crate::bytes::{copy, same};
use crate::crypto::key_usage;
use crate::der::{list_view, opt_view};
use crate::error::{outcome, Krb5Error, Krb5ErrorV};
use crate::protocol::as_exchange::reply::{merge_response, merged, strengthen_of};
use crate::protocol::credential::{Credential, CredentialV};
use crate::protocol::draws::{Draws, DrawsV};
use crate::protocol::fast::{fresh_fast, process_error_spec, process_response_spec, reply_key_spec, FastErrorV, FastResponseOutV, FastState, FastStateV};
use crate::protocol::kdc_rep::{credential_from_rep, credential_of, decode_krb_error, decrypt_enc_kdc_rep_part, decrypt_part_spec, krb_error_spec, RepKind};
use crate::protocol::preauth::ErrorCode;
use crate::protocol::validate::{default_max_clock_skew, default_skew, effective_start, is_after, is_tgs_name, names_tgs, start_of, time_diff, time_distance};
use crate::text::{lossy, utf8_lossy};
use crate::time::{split_nanos, stamp_of, Duration, Moment};
use crate::types::{EncKdcRepPart, EncKdcRepPartV, EncryptionKey, EncryptionKeyV, KdcRep, KdcRepV, PrincipalName, PrincipalNameV, TgsRep};

pub mod laws;
pub mod request;

use request::{build_tgs_spec, referral_spec};

verus! {

/// Maximum cross-realm referral hops.
pub const MAX_REFERRAL_HOPS: u32 = 10;

/// Options controlling TGS exchange behavior.
#[derive(Debug)]
pub struct TgsOptions {
    /// Whether to attempt referral following (CANONICALIZE flag).
    /// Default: true.
    pub canonicalize: bool,
    /// Whether to request forwardable tickets. Default: true.
    pub forwardable: bool,
    /// Whether to request renewable tickets. Default: true.
    pub renewable: bool,
    /// Preferred encryption types. Default: [AES-256-SHA1, AES-128-SHA1,
    /// AES-256-SHA2, AES-128-SHA2].
    pub etypes: Vec<i32>,
    /// Maximum allowed clock skew. Default: 5 minutes.
    pub max_clock_skew: Duration,
    /// Whether to send PA-PAC-OPTIONS (Branch Aware flag). Default: true.
    pub pac_options: bool,
}

/// Model of [`TgsOptions`].
pub struct TgsOptionsV {
    pub canonicalize: bool,
    pub forwardable: bool,
    pub renewable: bool,
    pub etypes: Seq<i32>,
    pub max_clock_skew: Duration,
    pub pac_options: bool,
}

impl View for TgsOptions {
    type V = TgsOptionsV;

    open spec fn view(&self) -> TgsOptionsV {
        TgsOptionsV {
            canonicalize: self.canonicalize,
            forwardable: self.forwardable,
            renewable: self.renewable,
            etypes: self.etypes@,
            max_clock_skew: self.max_clock_skew,
            pac_options: self.pac_options,
        }
    }
}

impl Default for TgsOptions {
    fn default() -> (r: Self)
        ensures
            r@ == (TgsOptionsV {
                canonicalize: true,
                forwardable: true,
                renewable: true,
                etypes: crate::protocol::ap::req_rep::default_etypes(),
                max_clock_skew: default_skew(),
                pac_options: true,
            }),
    {
        TgsOptions {
            canonicalize: true,
            forwardable: true,
            renewable: true,
            etypes: crate::protocol::ap::req_rep::default_etype_list(),
            max_clock_skew: default_max_clock_skew(),
            pac_options: true,
        }
    }
}

/// Result of a single `step()` call.
#[derive(Debug)]
pub enum TgsStepResult {
    /// Send this DER-encoded TGS-REQ to the KDC for the given realm.
    SendToKdc {
        /// DER-encoded TGS-REQ.
        data: Vec<u8>,
        /// Realm to send to.
        realm: String,
    },
    /// Resend the same request over TCP (response too big for UDP).
    RetryTcp {
        /// DER-encoded TGS-REQ (same bytes).
        data: Vec<u8>,
        /// Realm.
        realm: String,
    },
    /// Exchange complete. Call `credential()` to extract result.
    Complete,
}

/// Model of [`TgsStepResult`].
pub enum TgsStepResultV {
    SendToKdc { data: Seq<u8>, realm: Seq<char> },
    RetryTcp { data: Seq<u8>, realm: Seq<char> },
    Complete,
}

impl View for TgsStepResult {
    type V = TgsStepResultV;

    open spec fn view(&self) -> TgsStepResultV {
        match self {
            TgsStepResult::SendToKdc { data, realm } => TgsStepResultV::SendToKdc { data: data@, realm: realm@ },
            TgsStepResult::RetryTcp { data, realm } => TgsStepResultV::RetryTcp { data: data@, realm: realm@ },
            TgsStepResult::Complete => TgsStepResultV::Complete,
        }
    }
}

/// Which state to resume processing after receiving a KDC reply.
#[derive(Debug, Clone)]
pub enum ResumeState {
    /// Resume referral processing.
    Referrals {
        /// The realms visited.
        realms_seen: Vec<String>,
        /// The referrals followed.
        referral_count: u32,
    },
    /// Resume non-referral processing.
    NonReferral,
}

/// Model of [`ResumeState`].
pub enum ResumeStateV {
    Referrals { realms_seen: Seq<Seq<char>>, referral_count: u32 },
    NonReferral,
}

impl View for ResumeState {
    type V = ResumeStateV;

    open spec fn view(&self) -> ResumeStateV {
        match self {
            ResumeState::Referrals { realms_seen, referral_count } => ResumeStateV::Referrals {
                realms_seen: list_view(realms_seen@),
                referral_count: *referral_count,
            },
            ResumeState::NonReferral => ResumeStateV::NonReferral,
        }
    }
}

/// State of the TGS exchange.
#[derive(Debug)]
pub enum TgsState {
    /// Initial state — build and send first TGS-REQ.
    Begin,
    /// Waiting for KDC response.
    AwaitReply {
        /// Which logical state to resume after getting the reply.
        resume: ResumeState,
    },
    /// Exchange complete.
    Complete,
}

/// Model of [`TgsState`].
pub enum TgsStateV {
    Begin,
    AwaitReply { resume: ResumeStateV },
    Complete,
}

impl View for TgsState {
    type V = TgsStateV;

    open spec fn view(&self) -> TgsStateV {
        match self {
            TgsState::Begin => TgsStateV::Begin,
            TgsState::AwaitReply { resume } => TgsStateV::AwaitReply { resume: resume@ },
            TgsState::Complete => TgsStateV::Complete,
        }
    }
}

/// Step-based TGS exchange state machine: feed each KDC reply to `step` until
/// it returns `TgsStepResult::Complete`.
pub struct TgsExchange {
    pub state: TgsState,
    /// TGT currently used for requests (may change during referrals).
    pub cur_tgt: Credential,
    /// Target service principal.
    pub target_server: PrincipalName,
    /// Options controlling behavior.
    pub options: TgsOptions,
    /// Subkey generated for the most recent request.
    pub subkey: Option<EncryptionKey>,
    /// Nonce for the most recent request.
    pub nonce: u32,
    /// Most recent DER-encoded TGS-REQ (for RetryTcp re-emit).
    pub last_req_bytes: Vec<u8>,
    /// Realm we last sent to.
    pub last_realm: String,
    /// Output credential.
    pub credential: Option<Credential>,
    /// Whether this was a first referral attempt (for fallback to
    /// NonReferral).
    pub first_referral_attempt: bool,
    /// FAST per-request state (TGS requests are always armored with the
    /// implicit armor).
    pub fast_state: FastState,
}

/// Model of [`TgsExchange`].
pub struct TgsExchangeV {
    pub state: TgsStateV,
    pub cur_tgt: CredentialV,
    pub target_server: PrincipalNameV,
    pub options: TgsOptionsV,
    pub subkey: Option<EncryptionKeyV>,
    pub nonce: u32,
    pub last_req_bytes: Seq<u8>,
    pub last_realm: Seq<char>,
    pub credential: Option<CredentialV>,
    pub first_referral_attempt: bool,
    pub fast_state: FastStateV,
}

impl View for TgsExchange {
    type V = TgsExchangeV;

    open spec fn view(&self) -> TgsExchangeV {
        TgsExchangeV {
            state: self.state@,
            cur_tgt: self.cur_tgt@,
            target_server: self.target_server@,
            options: self.options@,
            subkey: opt_view(self.subkey),
            nonce: self.nonce,
            last_req_bytes: self.last_req_bytes@,
            last_realm: self.last_realm@,
            credential: opt_view(self.credential),
            first_referral_attempt: self.first_referral_attempt,
            fast_state: self.fast_state@,
        }
    }
}

/// A new exchange.
pub open spec fn fresh_tgs(tgt: CredentialV, target: PrincipalNameV, options: TgsOptionsV) -> TgsExchangeV {
    TgsExchangeV {
        state: TgsStateV::Begin,
        cur_tgt: tgt,
        target_server: target,
        options,
        subkey: None,
        nonce: 0,
        last_req_bytes: Seq::empty(),
        last_realm: Seq::empty(),
        credential: None,
        first_referral_attempt: true,
        fast_state: fresh_fast(),
    }
}

/// The realm to send requests to: for `krbtgt/X@Y` the realm X that the TGT
/// grants access to, else the server's realm.
pub open spec fn target_realm(v: TgsExchangeV) -> Seq<char> {
    if is_tgs_name(v.cur_tgt.server) {
        utf8_lossy(v.cur_tgt.server.name_string[1])
    } else {
        v.cur_tgt.srealm
    }
}

/// An exchange after a request is sent to a realm, and the step to take.
pub open spec fn send_tgs_spec(v: TgsExchangeV, realm: Seq<char>, canonicalize: bool, resume: ResumeStateV, now: Moment, d: DrawsV) -> (
    TgsExchangeV,
    Result<TgsStepResultV, Krb5ErrorV>,
) {
    let (v1, r) = build_tgs_spec(v, canonicalize, now, d);
    match r {
        Err(e) => (v1, Err(e)),
        Ok(data) => (
            TgsExchangeV { state: TgsStateV::AwaitReply { resume }, last_realm: realm, ..v1 },
            Ok(TgsStepResultV::SendToKdc { data, realm }),
        ),
    }
}

/// The first step.
pub open spec fn begin_spec(v: TgsExchangeV, now: Moment, d: DrawsV) -> (TgsExchangeV, Result<TgsStepResultV, Krb5ErrorV>) {
    let realm = target_realm(v);
    if v.options.canonicalize {
        send_tgs_spec(
            v,
            realm,
            true,
            ResumeStateV::Referrals { realms_seen: seq![realm], referral_count: 0 },
            now,
            d,
        )
    } else {
        send_tgs_spec(v, realm, false, ResumeStateV::NonReferral, now, d)
    }
}

/// Whether a reply holds a referral: a ticket for a ticket-granting service
/// other than the one asked for.
pub open spec fn is_referral_spec(v: TgsExchangeV, part: EncKdcRepPartV) -> bool {
    is_tgs_name(part.sname) && part.sname != v.target_server
}

/// What validating a TGS reply returns. Times are only checked not to lie too
/// far in the future: the time of initial authentication can be long ago.
pub open spec fn tgs_reply_spec(v: TgsExchangeV, rep: KdcRepV, part: EncKdcRepPartV, now: Moment) -> Result<(), Krb5ErrorV> {
    let start = effective_start(part);
    let stamp = stamp_of(now.total());
    if rep.cname != v.cur_tgt.client {
        Err(Krb5ErrorV::ReplyValidation("client principal mismatch"@))
    } else if rep.crealm != encode_utf8(v.cur_tgt.crealm) {
        Err(Krb5ErrorV::ReplyValidation("client realm mismatch"@))
    } else if part.nonce != v.nonce {
        Err(Krb5ErrorV::ReplyValidation("nonce mismatch"@))
    } else if rep.ticket.sname != part.sname {
        Err(Krb5ErrorV::ReplyValidation("ticket/enc-part server mismatch"@))
    } else if rep.ticket.realm != part.srealm {
        Err(Krb5ErrorV::ReplyValidation("ticket/enc-part realm mismatch"@))
    } else if !is_referral_spec(v, part) && !v.options.canonicalize && part.sname != v.target_server {
        Err(Krb5ErrorV::ReplyValidation("unexpected service principal in TGS-REP"@))
    } else if start.total() > stamp.total() && time_distance(start, stamp) > v.options.max_clock_skew.total() {
        Err(Krb5ErrorV::ClockSkew { max_skew: v.options.max_clock_skew })
    } else {
        Ok(())
    }
}

/// The keys that a reply may be under, each with its usage: the subkey, then
/// the TGT's session key; a strengthen key folds into each.
pub open spec fn candidates_spec(v: TgsExchangeV, strengthen: Option<EncryptionKeyV>) -> Result<
    Seq<(EncryptionKeyV, i32)>,
    Krb5ErrorV,
> {
    let last = reply_key_spec(strengthen, v.cur_tgt.session_key);
    match v.subkey {
        None => match last {
            Err(e) => Err(e),
            Ok(k) => Ok(seq![(k, key_usage::TGS_REP_ENCPART_SESSKEY)]),
        },
        Some(sub) => match reply_key_spec(strengthen, sub) {
            Err(e) => Err(e),
            Ok(first) => match last {
                Err(e) => Err(e),
                Ok(k) => Ok(
                    seq![(first, key_usage::TGS_REP_ENCPART_SUBKEY), (k, key_usage::TGS_REP_ENCPART_SESSKEY)],
                ),
            },
        },
    }
}

/// The decrypted enc-part of a reply.
pub open spec fn tgs_part_spec(v: TgsExchangeV, rep: KdcRepV, strengthen: Option<EncryptionKeyV>) -> Result<
    EncKdcRepPartV,
    Krb5ErrorV,
> {
    match candidates_spec(v, strengthen) {
        Err(e) => Err(e),
        Ok(keys) => decrypt_part_spec(keys, rep.enc_part, RepKind::Tgs),
    }
}

/// The FAST response of a reply; none where the KDC does not speak FAST.
pub open spec fn tgs_fast_spec(v: TgsExchangeV, rep: KdcRepV) -> Result<Option<FastResponseOutV>, Krb5ErrorV> {
    match process_response_spec(v.fast_state, rep.padata, rep.ticket) {
        Ok(o) => Ok(o),
        Err(Krb5ErrorV::FastRequired) => Ok(None),
        Err(e) => Err(e),
    }
}

/// The part of processing a reply that follows the decryption of its
/// enc-part: a referral is followed, a service ticket completes the exchange.
pub open spec fn accept_tgs_spec(v: TgsExchangeV, rep: KdcRepV, part: EncKdcRepPartV, resume: ResumeStateV, now: Moment, d: DrawsV) -> (
    TgsExchangeV,
    Result<TgsStepResultV, Krb5ErrorV>,
) {
    match tgs_reply_spec(v, rep, part, now) {
        Err(e) => (v, Err(e)),
        Ok(()) => if is_referral_spec(v, part) {
            referral_spec(v, rep, part, resume, now, d)
        } else {
            (
                TgsExchangeV { credential: Some(credential_of(rep, part)), state: TgsStateV::Complete, ..v },
                Ok(TgsStepResultV::Complete),
            )
        },
    }
}

/// What a TGS-REP does to the exchange and gives.
pub open spec fn tgs_rep_spec(v: TgsExchangeV, rep: KdcRepV, resume: ResumeStateV, now: Moment, d: DrawsV) -> (
    TgsExchangeV,
    Result<TgsStepResultV, Krb5ErrorV>,
) {
    match tgs_fast_spec(v, rep) {
        Err(e) => (v, Err(e)),
        Ok(out) => {
            let rep1 = merged(rep, out);
            match tgs_part_spec(v, rep1, strengthen_of(out)) {
                Err(e) => (v, Err(e)),
                Ok(part) => accept_tgs_spec(v, rep1, part, resume, now, d),
            }
        },
    }
}

/// What an unwrapped error of the KDC does to the exchange and gives. An
/// unknown service makes the exchange ask once without referrals.
pub open spec fn tgs_error_spec(v: TgsExchangeV, fe: FastErrorV, resume: ResumeStateV, now: Moment, d: DrawsV) -> (
    TgsExchangeV,
    Result<TgsStepResultV, Krb5ErrorV>,
) {
    if fe.err.error_code == ErrorCode::RESPONSE_TOO_BIG {
        (v, Ok(TgsStepResultV::RetryTcp { data: v.last_req_bytes, realm: v.last_realm }))
    } else if fe.err.error_code == ErrorCode::S_PRINCIPAL_UNKNOWN && v.first_referral_attempt && resume is Referrals {
        send_tgs_spec(
            TgsExchangeV { first_referral_attempt: false, ..v },
            target_realm(v),
            false,
            ResumeStateV::NonReferral,
            now,
            d,
        )
    } else {
        (v, Err(Krb5ErrorV::KdcError(fe.err)))
    }
}

/// What a reply of the KDC does to the exchange and gives.
pub open spec fn tgs_reply_step_spec(v: TgsExchangeV, reply: Seq<u8>, resume: ResumeStateV, now: Moment, d: DrawsV) -> (
    TgsExchangeV,
    Result<TgsStepResultV, Krb5ErrorV>,
) {
    if reply.len() == 0 {
        (v, Err(Krb5ErrorV::ReplyValidation("empty KDC reply"@)))
    } else {
        match <TgsRep as Asn1>::parse(reply) {
            Some(rep) => if rep.pvno != 5 || rep.msg_type != 13 {
                (v, Err(Krb5ErrorV::ReplyValidation("invalid TGS-REP pvno/msg_type"@)))
            } else {
                let (w, r) = tgs_rep_spec(v, rep, resume, now, d);
                (if r is Ok { TgsExchangeV { first_referral_attempt: false, ..w } } else { w }, r)
            },
            None => match krb_error_spec(reply) {
                Err(e) => (v, Err(e)),
                Ok(err) => match process_error_spec(v.fast_state, err) {
                    Err(e) => (v, Err(e)),
                    Ok(fe) => tgs_error_spec(v, fe, resume, now, d),
                },
            },
        }
    }
}

/// What a step does to the exchange and gives.
pub open spec fn tgs_step_spec(v: TgsExchangeV, reply: Seq<u8>, now: Moment, d: DrawsV) -> (
    TgsExchangeV,
    Result<TgsStepResultV, Krb5ErrorV>,
) {
    match v.state {
        TgsStateV::Begin => begin_spec(v, now, d),
        TgsStateV::AwaitReply { resume } => tgs_reply_step_spec(v, reply, resume, now, d),
        TgsStateV::Complete => (v, Ok(TgsStepResultV::Complete)),
    }
}

/// Whether a request that is to be sent is the one the exchange remembers:
/// it reads as a TGS-REQ for the target service with the nonce, which is never
/// 0, kept to check the reply.
pub open spec fn tgs_request_kept(v: TgsExchangeV, r: Result<TgsStepResultV, Krb5ErrorV>) -> bool {
    r matches Ok(TgsStepResultV::SendToKdc { data, realm }) ==> {
        &&& data == v.last_req_bytes
        &&& realm == v.last_realm
        &&& <crate::types::TgsReq as Asn1>::parse(data) is Some
        &&& <crate::types::TgsReq as Asn1>::parse(data)->0.req_body.nonce == v.nonce
        &&& 0 < v.nonce < 0x8000_0000
        &&& <crate::types::TgsReq as Asn1>::parse(data)->0.req_body.sname == Some(v.target_server)
    }
}

/// Whether an exchange waits for the reply to a request that asked for
/// referrals.
pub open spec fn refers(v: TgsExchangeV) -> bool {
    v.state matches TgsStateV::AwaitReply { resume } && resume is Referrals
}

/// Whether a request that is to be sent reads as one that asks for what the
/// options say: a forwardable ticket, a renewable ticket and referrals, each
/// exactly where it is wanted and nothing else, with the keys wanted.
pub open spec fn tgs_request_asks(v: TgsExchangeV, r: Result<TgsStepResultV, Krb5ErrorV>, canonicalize: bool) -> bool {
    r matches Ok(TgsStepResultV::SendToKdc { data, realm }) ==> {
        let body = <crate::types::TgsReq as Asn1>::parse(data)->0.req_body;
        &&& body.kdc_options & 0x4000_0000 != 0 <==> v.options.forwardable
        &&& body.kdc_options & 0x0080_0000 != 0 <==> v.options.renewable
        &&& body.kdc_options & 0x0001_0000 != 0 <==> canonicalize
        &&& body.kdc_options & 0xbf7e_ffff == 0
        &&& body.etype == v.options.etypes
        &&& body.cname is None
        &&& body.from is None
        &&& body.rtime is None
        &&& body.addresses is None
        &&& body.enc_authorization_data is None
        &&& body.additional_tickets is None
    }
}

fn dup_realms(v: &Vec<String>) -> (r: Vec<String>)
    ensures
        list_view(r@) == list_view(v@),
{
    let mut out: Vec<String> = Vec::new();
    let mut i: usize = 0;
    while i < v.len()
        invariant
            i <= v@.len(),
            out@.len() == i,
            forall|j: int| 0 <= j < i ==> (#[trigger] out@[j])@ == v@[j]@,
        decreases v@.len() - i,
    {
        out.push(v[i].clone());
        i = i + 1;
    }
    assert(list_view(out@) =~= list_view(v@));
    out
}

impl Dup for ResumeState {
    fn dup(&self) -> (r: Self) {
        match self {
            ResumeState::Referrals { realms_seen, referral_count } => ResumeState::Referrals {
                realms_seen: dup_realms(realms_seen),
                referral_count: *referral_count,
            },
            ResumeState::NonReferral => ResumeState::NonReferral,
        }
    }
}

impl TgsExchange {
    /// Create a new TGS exchange.
    ///
    /// `tgt` is the TGT credential from a prior AS exchange. `target` is the
    /// service principal to get a ticket for.
    pub fn new(tgt: Credential, target: PrincipalName, options: TgsOptions) -> (r: Self)
        ensures
            r@ == fresh_tgs(tgt@, target@, options@),
    {
        let r = TgsExchange {
            state: TgsState::Begin,
            cur_tgt: tgt,
            target_server: target,
            options,
            subkey: None,
            nonce: 0,
            last_req_bytes: Vec::new(),
            last_realm: String::new(),
            credential: None,
            first_referral_attempt: true,
            fast_state: FastState::new(),
        };
        assert(r.last_req_bytes@ =~= Seq::empty());
        assert(r.last_realm@ =~= Seq::empty());
        r
    }

    /// Advance the state machine with the given clock reading and random
    /// values.
    pub fn step_with(&mut self, kdc_reply: &[u8], now: Moment, draws: &Draws) -> (r: Result<TgsStepResult, Krb5Error>)
        ensures
            (final(self)@, outcome(r)) == tgs_step_spec(old(self)@, kdc_reply@, now, draws@),
            tgs_request_kept(final(self)@, outcome(r)),
            tgs_request_asks(final(self)@, outcome(r), refers(final(self)@)),
    {
        let resume = match &self.state {
            TgsState::Begin => return self.begin(now, draws),
            TgsState::Complete => return Ok(TgsStepResult::Complete),
            TgsState::AwaitReply { resume } => resume.dup(),
        };
        self.process_reply(kdc_reply, resume, now, draws)
    }

    /// Advance the state machine.
    ///
    /// On the first call, pass an empty slice. On subsequent calls, pass the
    /// KDC's response bytes.
    pub fn step(&mut self, kdc_reply: &[u8]) -> (r: Result<TgsStepResult, Krb5Error>)
        ensures
            exists|now: Moment, d: DrawsV|
                d.ok() && #[trigger] tgs_step_spec(old(self)@, kdc_reply@, now, d) == (final(self)@, outcome(r)),
            tgs_request_kept(final(self)@, outcome(r)),
            tgs_request_asks(final(self)@, outcome(r), refers(final(self)@)),
    {
        let now = Moment::now();
        let draws = Draws::draw();
        self.step_with(kdc_reply, now, &draws)
    }

    /// Extract the credential after successful completion.
    pub fn credential(&self) -> (r: Result<&Credential, Krb5Error>)
        ensures
            match r {
                Ok(c) => self@.credential == Some(c@),
                Err(e) => self@.credential is None && e@ == Krb5ErrorV::ReplyValidation("TGS exchange not complete"@),
            },
    {
        match &self.credential {
            Some(c) => Ok(c),
            None => Err(Krb5Error::ReplyValidation("TGS exchange not complete")),
        }
    }

    /// The realm to send TGS-REQs to.
    ///
    /// For `krbtgt/X@Y`, the target realm is X (the realm this TGT grants
    /// access to). For a home-realm TGT `krbtgt/MINE@MINE`, this is MINE. For
    /// a cross-realm TGT `krbtgt/OTHER@MINE`, this is OTHER.
    pub fn tgt_target_realm(&self) -> (r: String)
        ensures
            r@ == target_realm(self@),
    {
        if names_tgs(&self.cur_tgt.server) {
            lossy(self.cur_tgt.server.name_string[1].as_bytes())
        } else {
            self.cur_tgt.srealm.clone()
        }
    }

    /// Sends a request to a realm.
    pub(super) fn send_tgs(&mut self, realm: String, canonicalize: bool, resume: ResumeState, now: Moment, draws: &Draws) -> (r:
        Result<TgsStepResult, Krb5Error>)
        ensures
            (final(self)@, outcome(r)) == send_tgs_spec(old(self)@, realm@, canonicalize, resume@, now, draws@),
            tgs_request_kept(final(self)@, outcome(r)),
            tgs_request_asks(final(self)@, outcome(r), canonicalize),
    {
        match self.build_tgs_req(canonicalize, now, draws) {
            Err(e) => Err(e),
            Ok(data) => {
                self.state = TgsState::AwaitReply { resume };
                self.last_realm = realm.clone();
                Ok(TgsStepResult::SendToKdc { data, realm })
            },
        }
    }

    /// Begin the exchange — send the first TGS-REQ.
    fn begin(&mut self, now: Moment, draws: &Draws) -> (r: Result<TgsStepResult, Krb5Error>)
        ensures
            (final(self)@, outcome(r)) == begin_spec(old(self)@, now, draws@),
            tgs_request_kept(final(self)@, outcome(r)),
            tgs_request_asks(final(self)@, outcome(r), refers(final(self)@)),
    {
        let realm = self.tgt_target_realm();
        if self.options.canonicalize {
            let mut realms_seen: Vec<String> = Vec::new();
            realms_seen.push(realm.clone());
            assert(list_view(realms_seen@) =~= seq![realm@]);
            self.send_tgs(realm, true, ResumeState::Referrals { realms_seen, referral_count: 0 }, now, draws)
        } else {
            self.send_tgs(realm, false, ResumeState::NonReferral, now, draws)
        }
    }

    /// Process a KDC reply.
    fn process_reply(&mut self, kdc_reply: &[u8], resume: ResumeState, now: Moment, draws: &Draws) -> (r: Result<
        TgsStepResult,
        Krb5Error,
    >)
        ensures
            (final(self)@, outcome(r)) == tgs_reply_step_spec(old(self)@, kdc_reply@, resume@, now, draws@),
            tgs_request_kept(final(self)@, outcome(r)),
            tgs_request_asks(final(self)@, outcome(r), refers(final(self)@)),
    {
        if kdc_reply.len() == 0 {
            return Err(Krb5Error::ReplyValidation("empty KDC reply"));
        }
        match <TgsRep as Asn1>::decode(kdc_reply) {
            Some(rep) => {
                if rep.0.pvno != 5 || rep.0.msg_type != 13 {
                    return Err(Krb5Error::ReplyValidation("invalid TGS-REP pvno/msg_type"));
                }
                return match self.process_tgs_rep(rep.0, resume, now, draws) {
                    Ok(step) => {
                        // Only disable fallback after successful
                        // decrypt/validation: a malformed TGS-REP must not
                        // permanently kill the fallback path.
                        self.first_referral_attempt = false;
                        Ok(step)
                    },
                    Err(e) => Err(e),
                };
            },
            None => {},
        }
        let err = match decode_krb_error(kdc_reply) {
            Ok(e) => e,
            Err(e) => return Err(e),
        };
        // Unwrap a FAST-wrapped error so the inner KRB-ERROR code drives
        // handling.
        let fe = match self.fast_state.process_error(err) {
            Ok(fe) => fe,
            Err(e) => return Err(e),
        };
        self.process_tgs_error(fe, resume, now, draws)
    }

    /// Acts on an unwrapped error of the KDC.
    pub fn process_tgs_error(&mut self, fe: crate::protocol::fast::FastError, resume: ResumeState, now: Moment, draws: &Draws) -> (r:
        Result<TgsStepResult, Krb5Error>)
        ensures
            (final(self)@, outcome(r)) == tgs_error_spec(old(self)@, fe@, resume@, now, draws@),
            tgs_request_kept(final(self)@, outcome(r)),
            tgs_request_asks(final(self)@, outcome(r), refers(final(self)@)),
    {
        let code: i32 = fe.err.error_code;
        let referring = match &resume {
            ResumeState::Referrals { .. } => true,
            ResumeState::NonReferral => false,
        };
        if code == ErrorCode::RESPONSE_TOO_BIG {
            return Ok(TgsStepResult::RetryTcp { data: copy(&self.last_req_bytes), realm: self.last_realm.clone() });
        }
        if code == ErrorCode::S_PRINCIPAL_UNKNOWN && self.first_referral_attempt && referring {
            // Fallback to non-referral only when in referral mode. Resend to
            // the same KDC that rejected the request.
            let realm = self.tgt_target_realm();
            self.first_referral_attempt = false;
            return self.send_tgs(realm, false, ResumeState::NonReferral, now, draws);
        }
        Err(Krb5Error::from_error_msg(fe.err))
    }

    /// Process a successful TGS-REP.
    fn process_tgs_rep(&mut self, rep: KdcRep, resume: ResumeState, now: Moment, draws: &Draws) -> (r: Result<
        TgsStepResult,
        Krb5Error,
    >)
        ensures
            (final(self)@, outcome(r)) == tgs_rep_spec(old(self)@, rep@, resume@, now, draws@),
            tgs_request_kept(final(self)@, outcome(r)),
            tgs_request_asks(final(self)@, outcome(r), refers(final(self)@)),
    {
        let padata = match &rep.padata {
            Some(ps) => Some(ps.as_slice()),
            None => None,
        };
        // A missing PA-FX-FAST (KDC without FAST) is tolerated for TGS.
        let out = match self.fast_state.process_response(padata, &rep.ticket) {
            Ok(o) => o,
            Err(Krb5Error::FastRequired) => None,
            Err(e) => return Err(e),
        };
        let (rep, strengthen) = merge_response(rep, out);
        let part = match self.decrypt_tgs_rep_enc_part(&rep, &strengthen) {
            Ok(p) => p,
            Err(e) => return Err(e),
        };
        self.accept_tgs_rep(&rep, &part, resume, now, draws)
    }

    /// Accepts a reply whose enc-part is decrypted.
    pub fn accept_tgs_rep(&mut self, rep: &KdcRep, part: &EncKdcRepPart, resume: ResumeState, now: Moment, draws: &Draws) -> (r:
        Result<TgsStepResult, Krb5Error>)
        ensures
            (final(self)@, outcome(r)) == accept_tgs_spec(old(self)@, rep@, part@, resume@, now, draws@),
            tgs_request_kept(final(self)@, outcome(r)),
            tgs_request_asks(final(self)@, outcome(r), refers(final(self)@)),
    {
        match self.validate_tgs_reply_at(rep, part, now) {
            Ok(()) => {},
            Err(e) => return Err(e),
        }
        if self.is_referral_tgt(part) {
            return self.handle_referral_with(rep, part, resume, now, draws);
        }
        self.credential = Some(credential_from_rep(rep, part));
        self.state = TgsState::Complete;
        Ok(TgsStepResult::Complete)
    }

    /// Decrypt the EncTgsRepPart from a TGS-REP.
    ///
    /// Try subkey first (key usage 9), then fall back to TGT session key (key
    /// usage 8). A FAST strengthen key folds into each reply key.
    pub fn decrypt_tgs_rep_enc_part(&self, rep: &KdcRep, strengthen: &Option<EncryptionKey>) -> (r: Result<EncKdcRepPart, Krb5Error>)
        ensures
            outcome(r) == tgs_part_spec(self@, rep@, opt_view(*strengthen)),
    {
        let strengthen = match strengthen {
            Some(k) => Some(k),
            None => None,
        };
        let mut candidates: Vec<(EncryptionKey, i32)> = Vec::new();
        let ghost mut first: Seq<(EncryptionKeyV, i32)> = Seq::empty();
        match &self.subkey {
            Some(sub) => match FastState::reply_key(strengthen, sub) {
                Ok(k) => {
                    proof {
                        first = seq![(k@, key_usage::TGS_REP_ENCPART_SUBKEY)];
                    }
                    candidates.push((k, key_usage::TGS_REP_ENCPART_SUBKEY));
                },
                Err(e) => return Err(e),
            },
            None => {},
        }
        assert(list_view(candidates@) =~= first);
        let last = match FastState::reply_key(strengthen, &self.cur_tgt.session_key) {
            Ok(k) => k,
            Err(e) => return Err(e),
        };
        let ghost lastv = last@;
        candidates.push((last, key_usage::TGS_REP_ENCPART_SESSKEY));
        proof {
            assert(list_view(candidates@) =~= first.push((lastv, key_usage::TGS_REP_ENCPART_SESSKEY)));
            assert(match self@.subkey {
                None => list_view(candidates@) =~= seq![(lastv, key_usage::TGS_REP_ENCPART_SESSKEY)],
                Some(_) => list_view(candidates@) =~= seq![
                    first[0],
                    (lastv, key_usage::TGS_REP_ENCPART_SESSKEY),
                ],
            });
        }
        decrypt_enc_kdc_rep_part(&candidates, &rep.enc_part, RepKind::Tgs)
    }

    /// Validate TGS-REP fields at the given moment.
    pub fn validate_tgs_reply_at(&self, rep: &KdcRep, part: &EncKdcRepPart, now: Moment) -> (r: Result<(), Krb5Error>)
        ensures
            outcome(r) == tgs_reply_spec(self@, rep@, part@, now),
    {
        if !rep.cname.same(&self.cur_tgt.client) {
            return Err(Krb5Error::ReplyValidation("client principal mismatch"));
        }
        if !same(rep.crealm.as_bytes(), self.cur_tgt.crealm.as_str().as_bytes()) {
            return Err(Krb5Error::ReplyValidation("client realm mismatch"));
        }
        if part.nonce != self.nonce {
            return Err(Krb5Error::ReplyValidation("nonce mismatch"));
        }
        if !rep.ticket.sname.same(&part.sname) {
            return Err(Krb5Error::ReplyValidation("ticket/enc-part server mismatch"));
        }
        if !rep.ticket.realm.same(&part.srealm) {
            return Err(Krb5Error::ReplyValidation("ticket/enc-part realm mismatch"));
        }
        // Without canonicalization the service must be the one asked for.
        // Referral TGTs are validated in handle_referral().
        if !self.is_referral_tgt(part) && !self.options.canonicalize && !part.sname.same(&self.target_server) {
            return Err(Krb5Error::ReplyValidation("unexpected service principal in TGS-REP"));
        }
        let (stamp, _) = split_nanos(now.total_nanos());
        let start = start_of(part);
        if is_after(&start, &stamp) && time_diff(&start, &stamp) > self.options.max_clock_skew.total_nanos() {
            return Err(Krb5Error::ClockSkew { max_skew: self.options.max_clock_skew });
        }
        Ok(())
    }

    /// Validate TGS-REP fields.
    pub fn validate_tgs_reply(&self, rep: &KdcRep, part: &EncKdcRepPart) -> (r: Result<(), Krb5Error>)
        ensures
            exists|now: Moment| outcome(r) == #[trigger] tgs_reply_spec(self@, rep@, part@, now),
    {
        let now = Moment::now();
        self.validate_tgs_reply_at(rep, part, now)
    }

    /// Check if a TGS-REP contains a referral TGT (krbtgt/OTHER-REALM).
    ///
    /// If the response matches our target service principal, it's not a
    /// referral.
    pub fn is_referral_tgt(&self, part: &EncKdcRepPart) -> (r: bool)
        ensures
            r == is_referral_spec(self@, part@),
    {
        names_tgs(&part.sname) && !part.sname.same(&self.target_server)
    }
}

} // verus!
