//! TGS-REQ construction and referral handling.
use vstd::prelude::*;
use vstd::utf8::encode_utf8;

use crate::asn1::{general_ok, Asn1, Dup, FlagBits, GeneralString};
use crate::bytes::copy;
use crate::crypto::profile::{cksum_spec, cksum_type, known};
use crate::crypto::{find_etype, key_usage, EtypeProfile};
use crate::der::list_view;
use crate::error::{crypto_err, outcome, Krb5Error, Krb5ErrorV};
use crate::protocol::ap::{fresh_key_spec, seal, seal_spec, Entropy, EntropyV};
use crate::protocol::as_exchange::request::{after_span, dup_i32, end_of_span};
use crate::protocol::credential::CredentialV;
use crate::protocol::draws::{Draws, DrawsV};
use crate::protocol::fast::{fresh_fast, prep_spec, tgs_armor_spec, FastMsgType, FastState};
use crate::protocol::kdc_rep::{credential_from_rep, credential_of};
use crate::protocol::preauth::PaDataType;
use crate::protocol::tgs_exchange::{send_tgs_spec, target_realm, refers, tgs_request_asks, tgs_request_kept, ResumeState, ResumeStateV, TgsExchange, TgsExchangeV, TgsStepResult, TgsStepResultV, MAX_REFERRAL_HOPS};
use crate::text::{lossy, same_text, utf8_lossy};
use crate::time::{split_nanos, stamp_of, usec_of, Duration, Moment};
use crate::types::names::has_flags;
use crate::types::{ApReq, ApReqV, Authenticator, AuthenticatorV, Checksum, ChecksumV, EncKdcRepPart, EncKdcRepPartV, EncryptionKey, EncryptionKeyV, KdcOptions, KdcRep, KdcRepV, KdcReq, KdcReqBody, KdcReqBodyV, KdcReqV, PaData, PaDataV, PaPacOptions, PaPacOptionsV, TgsReq, TicketFlags};

verus! {

/// PA-PAC-OPTIONS flags: Branch Aware (bit 1). Claims (bit 0) is not set.
pub const PA_PAC_OPTIONS_FLAGS: u32 = 0x4000_0000;

/// The authenticator of a TGS request.
pub open spec fn tgs_auth_spec(v: TgsExchangeV, sum: Seq<u8>, subkey: EncryptionKeyV, now: Moment) -> AuthenticatorV {
    AuthenticatorV {
        authenticator_vno: 5,
        crealm: encode_utf8(v.cur_tgt.crealm),
        cname: v.cur_tgt.client,
        cksum: Some(ChecksumV { cksumtype: cksum_type(v.cur_tgt.session_key.keytype), checksum: sum }),
        cusec: usec_of(now.total()),
        ctime: stamp_of(now.total()),
        subkey: Some(subkey),
        seq_number: None,
        authorization_data: None,
    }
}

/// The AP request in PA-TGS-REQ data: the TGT, and an authenticator with a
/// keyed checksum of the request body.
#[verifier::opaque]
pub open spec fn tgs_ap_req_spec(v: TgsExchangeV, body: Seq<u8>, subkey: EncryptionKeyV, now: Moment, env: EntropyV) -> Result<
    Seq<u8>,
    Krb5ErrorV,
> {
    let session = v.cur_tgt.session_key;
    if !known(session.keytype) {
        Err(Krb5ErrorV::UnsupportedEtype(session.keytype))
    } else {
        match cksum_spec(session.keytype, session.keyvalue, key_usage::TGS_REQ_AUTH_CKSUM, body) {
            Err(e) => Err(crypto_err(e)),
            Ok(sum) => if !general_ok(encode_utf8(v.cur_tgt.crealm)) {
                Err(Krb5ErrorV::ReplyValidation("invalid crealm string"@))
            } else {
                match seal_spec(
                    session,
                    key_usage::TGS_REQ_AUTH,
                    env.confounder,
                    <Authenticator as Asn1>::der(tgs_auth_spec(v, sum, subkey, now)),
                ) {
                    Err(e) => Err(e),
                    Ok(sealed) => Ok(
                        <ApReq as Asn1>::der(
                            ApReqV {
                                pvno: 5,
                                msg_type: 14,
                                ap_options: 0,
                                ticket: v.cur_tgt.ticket,
                                authenticator: sealed,
                            },
                        ),
                    ),
                }
            },
        }
    }
}

/// The PAC options data.
pub open spec fn pac_options_spec() -> PaDataV {
    PaDataV {
        padata_type: PaDataType::PAC_OPTIONS,
        padata_value: <PaPacOptions as Asn1>::der(PaPacOptionsV { flags: PA_PAC_OPTIONS_FLAGS }),
    }
}

/// The options of a request.
pub open spec fn tgs_options_spec(renewable: bool, forwardable: bool, canonicalize: bool) -> u32 {
    (if renewable { KdcOptions::RENEWABLE } else { 0 }) | (if forwardable { KdcOptions::FORWARDABLE } else { 0 }) | (
    if canonicalize { KdcOptions::CANONICALIZE } else { 0 })
}

/// Each of the three options is set exactly where it is asked for, and no
/// other is.
pub proof fn lemma_options(renewable: bool, forwardable: bool, canonicalize: bool)
    ensures
        ({
            let o = tgs_options_spec(renewable, forwardable, canonicalize);
            &&& o & 0x4000_0000 != 0 <==> forwardable
            &&& o & 0x0080_0000 != 0 <==> renewable
            &&& o & 0x0001_0000 != 0 <==> canonicalize
            &&& o & 0xbf7e_ffff == 0
        }),
{
    let r: u32 = if renewable { 0x0080_0000 } else { 0 };
    let f: u32 = if forwardable { 0x4000_0000 } else { 0 };
    let c: u32 = if canonicalize { 0x0001_0000 } else { 0 };
    assert((r | f | c) & 0x4000_0000 == f && (r | f | c) & 0x0080_0000 == r && (r | f | c) & 0x0001_0000 == c && (r | f | c)
        & 0xbf7e_ffff == 0) by (bit_vector)
        requires
            r == 0 || r == 0x0080_0000,
            f == 0 || f == 0x4000_0000,
            c == 0 || c == 0x0001_0000,
    ;
}

/// Ten hours: the lifetime asked for; the KDC will cap it to its policy.
pub open spec fn ten_hours() -> Duration {
    Duration { secs: 36_000, nanos: 0 }
}

/// The body of a request.
pub open spec fn tgs_body_spec(v: TgsExchangeV, canonicalize: bool, now: Moment) -> Result<KdcReqBodyV, Krb5ErrorV> {
    let till = end_of_span(now, ten_hours());
    if !general_ok(encode_utf8(target_realm(v))) {
        Err(Krb5ErrorV::ReplyValidation("invalid realm string"@))
    } else if till is None {
        Err(Krb5ErrorV::ReplyValidation("till overflow"@))
    } else {
        Ok(
            KdcReqBodyV {
                kdc_options: tgs_options_spec(v.options.renewable, v.options.forwardable, canonicalize),
                cname: None,
                realm: encode_utf8(target_realm(v)),
                sname: Some(v.target_server),
                from: None,
                till: till->0,
                rtime: None,
                nonce: v.nonce,
                etype: v.options.etypes,
                addresses: None,
                enc_authorization_data: None,
                additional_tickets: None,
            },
        )
    }
}

/// The data of a request.
pub open spec fn tgs_padata_spec(v: TgsExchangeV, ap_req: Seq<u8>) -> Seq<PaDataV> {
    let first = seq![PaDataV { padata_type: PaDataType::TGS_REQ, padata_value: ap_req }];
    if v.options.pac_options { first.push(pac_options_spec()) } else { first }
}

/// An exchange with a fresh nonce and subkey for the next request.
pub open spec fn with_subkey(v: TgsExchangeV, d: DrawsV) -> TgsExchangeV {
    TgsExchangeV {
        nonce: d.request_nonce(),
        subkey: Some(fresh_key_spec(d.auth, v.cur_tgt.session_key.keytype)),
        ..v
    }
}

/// The part of building a request that follows its body: the implicit armor,
/// the AP request and the wrapping.
pub open spec fn wrap_tgs_spec(v: TgsExchangeV, body: KdcReqBodyV, now: Moment, d: DrawsV) -> (
    TgsExchangeV,
    Result<Seq<u8>, Krb5ErrorV>,
) {
    let (f, armed) = tgs_armor_spec(fresh_fast(), v.subkey->0, v.cur_tgt.session_key);
    let v1 = TgsExchangeV { fast_state: f, ..v };
    match armed {
        Err(e) => (v1, Err(e)),
        Ok(()) => match tgs_ap_req_spec(v1, <KdcReqBody as Asn1>::der(body), v.subkey->0, now, d.auth) {
            Err(e) => (v1, Err(e)),
            Ok(ap_req) => {
                let req = KdcReqV { pvno: 5, msg_type: 12, padata: Some(tgs_padata_spec(v1, ap_req)), req_body: body };
                let (g, r) = prep_spec(f, req, ap_req, FastMsgType::Tgs, d.fast);
                let v2 = TgsExchangeV { fast_state: g, ..v1 };
                match r {
                    Err(e) => (v2, Err(e)),
                    Ok(der) => (TgsExchangeV { last_req_bytes: der, ..v2 }, Ok(der)),
                }
            },
        },
    }
}

/// An exchange after a request is built, and the request.
#[verifier::opaque]
pub open spec fn build_tgs_spec(v: TgsExchangeV, canonicalize: bool, now: Moment, d: DrawsV) -> (
    TgsExchangeV,
    Result<Seq<u8>, Krb5ErrorV>,
) {
    let etype = v.cur_tgt.session_key.keytype;
    if !known(etype) {
        (TgsExchangeV { nonce: d.request_nonce(), ..v }, Err(Krb5ErrorV::UnsupportedEtype(etype)))
    } else {
        let v1 = with_subkey(v, d);
        match tgs_body_spec(v1, canonicalize, now) {
            Err(e) => (v1, Err(e)),
            Ok(body) => wrap_tgs_spec(v1, body, now, d),
        }
    }
}

/// The TGT that a referral gives: it is good for delegation only if the TGT
/// it was asked with was, so that a foreign KDC cannot grant that on its own.
pub open spec fn referral_tgt_spec(v: TgsExchangeV, rep: KdcRepV, part: EncKdcRepPartV) -> CredentialV {
    CredentialV {
        flags: if has_flags(v.cur_tgt.flags, TicketFlags::OK_AS_DELEGATE) {
            part.flags
        } else {
            part.flags & !TicketFlags::OK_AS_DELEGATE
        },
        ..credential_of(rep, part)
    }
}

/// The realm that a referral points to.
pub open spec fn referral_realm(part: EncKdcRepPartV) -> Seq<char> {
    utf8_lossy(part.sname.name_string[1])
}

/// What a referral does to the exchange and gives: the next request, to the
/// realm it points to, unless there were too many or the realm was visited
/// before.
pub open spec fn referral_spec(v: TgsExchangeV, rep: KdcRepV, part: EncKdcRepPartV, resume: ResumeStateV, now: Moment, d: DrawsV) -> (
    TgsExchangeV,
    Result<TgsStepResultV, Krb5ErrorV>,
) {
    match resume {
        ResumeStateV::NonReferral => (
            v,
            Err(Krb5ErrorV::ReplyValidation("unexpected referral in non-referral mode"@)),
        ),
        ResumeStateV::Referrals { realms_seen, referral_count } => {
            let realm = referral_realm(part);
            if referral_count >= MAX_REFERRAL_HOPS {
                (v, Err(Krb5ErrorV::ReferralLimitExceeded(MAX_REFERRAL_HOPS)))
            } else if realms_seen.contains(realm) {
                (v, Err(Krb5ErrorV::ReferralLoop { realm }))
            } else {
                send_tgs_spec(
                    TgsExchangeV { cur_tgt: referral_tgt_spec(v, rep, part), ..v },
                    realm,
                    true,
                    ResumeStateV::Referrals {
                        realms_seen: realms_seen.push(realm),
                        referral_count: (referral_count + 1) as u32,
                    },
                    now,
                    d,
                )
            }
        },
    }
}

/// Build PA-PAC-OPTIONS padata with Branch Aware flag.
pub fn build_pa_pac_options() -> (r: PaData)
    ensures
        r@ == pac_options_spec(),
{
    let inner = PaPacOptions { flags: FlagBits::new(PA_PAC_OPTIONS_FLAGS) };
    PaData { padata_type: PaDataType::PAC_OPTIONS, padata_value: inner.encode() }
}

fn has_realm(realms: &Vec<String>, realm: &str) -> (r: bool)
    ensures
        r == list_view(realms@).contains(realm@),
{
    let ghost all = list_view(realms@);
    let mut i: usize = 0;
    while i < realms.len()
        invariant
            i <= realms@.len(),
            all == list_view(realms@),
            forall|j: int| 0 <= j < i ==> #[trigger] all[j] != realm@,
        decreases realms@.len() - i,
    {
        assert(all[i as int] == realms@[i as int]@);
        if same_text(&realms[i], realm) {
            return true;
        }
        i = i + 1;
    }
    false
}

impl TgsExchange {
    fn tgs_body(&self, canonicalize: bool, now: Moment) -> (r: Result<KdcReqBody, Krb5Error>)
        ensures
            outcome(r) == tgs_body_spec(self@, canonicalize, now),
            r matches Ok(body) ==> {
                &&& body@.kdc_options & 0x4000_0000 != 0 <==> self@.options.forwardable
                &&& body@.kdc_options & 0x0080_0000 != 0 <==> self@.options.renewable
                &&& body@.kdc_options & 0x0001_0000 != 0 <==> canonicalize
                &&& body@.kdc_options & 0xbf7e_ffff == 0
            },
    {
        let target = self.tgt_target_realm();
        let realm = match GeneralString::from_bytes(target.as_str().as_bytes()) {
            Some(g) => g,
            None => return Err(Krb5Error::ReplyValidation("invalid realm string")),
        };
        let r: u32 = if self.options.renewable { KdcOptions::RENEWABLE } else { 0 };
        let f: u32 = if self.options.forwardable { KdcOptions::FORWARDABLE } else { 0 };
        let c: u32 = if canonicalize { KdcOptions::CANONICALIZE } else { 0 };
        proof {
            lemma_options(self.options.renewable, self.options.forwardable, canonicalize);
        }
        let till = match after_span(now, Duration::from_secs(36_000)) {
            Some(t) => t,
            None => return Err(Krb5Error::ReplyValidation("till overflow")),
        };
        let etype = dup_i32(&self.options.etypes);
        assert(list_view(etype@) =~= self.options.etypes@);
        Ok(KdcReqBody {
            kdc_options: FlagBits::new(r | f | c),
            cname: None,
            realm,
            sname: Some(self.target_server.dup()),
            from: None,
            till,
            rtime: None,
            nonce: self.nonce,
            etype,
            addresses: None,
            enc_authorization_data: None,
            additional_tickets: None,
        })
    }

    /// Build the AP-REQ of PA-TGS-REQ: the TGT with a keyed checksum of the
    /// request body. It reads back: it carries the TGT's ticket.
    fn build_tgs_ap_req(&self, body: &[u8], subkey: &EncryptionKey, now: Moment, env: &Entropy) -> (r: Result<Vec<u8>, Krb5Error>)
        ensures
            outcome(r) == tgs_ap_req_spec(self@, body@, subkey@, now, env@),
            r is Ok ==> (<ApReq as Asn1>::parse(r->Ok_0@) matches Some(req) && req.ticket == self@.cur_tgt.ticket),
    {
        reveal(tgs_ap_req_spec);
        let session = &self.cur_tgt.session_key;
        let profile = match find_etype(session.keytype) {
            Ok(p) => p,
            Err(_) => return Err(Krb5Error::UnsupportedEtype(session.keytype)),
        };
        let sum = match profile.checksum(session.key_bytes(), key_usage::TGS_REQ_AUTH_CKSUM, body) {
            Ok(s) => s,
            Err(e) => return Err(Krb5Error::from_crypto(e)),
        };
        let cksum = Checksum { cksumtype: profile.checksum_type(), checksum: sum };
        let (ctime, cusec) = split_nanos(now.total_nanos());
        let crealm = match GeneralString::from_bytes(self.cur_tgt.crealm.as_str().as_bytes()) {
            Some(g) => g,
            None => return Err(Krb5Error::ReplyValidation("invalid crealm string")),
        };
        let authenticator = Authenticator {
            authenticator_vno: 5,
            crealm,
            cname: self.cur_tgt.client.dup(),
            cksum: Some(cksum),
            cusec,
            ctime,
            subkey: Some(subkey.dup()),
            seq_number: None,
            authorization_data: None,
        };
        let plain = authenticator.encode();
        match seal(session, key_usage::TGS_REQ_AUTH, env, &plain) {
            Err(e) => Err(e),
            Ok(sealed) => {
                let req = ApReq {
                    pvno: 5,
                    msg_type: 14,
                    ap_options: FlagBits::new(0),
                    ticket: self.cur_tgt.ticket.dup(),
                    authenticator: sealed,
                };
                Ok(req.encode())
            },
        }
    }

    fn wrap_tgs(&mut self, body: KdcReqBody, now: Moment, draws: &Draws) -> (r: Result<Vec<u8>, Krb5Error>)
        requires
            old(self)@.subkey is Some,
        ensures
            (final(self)@, outcome(r)) == wrap_tgs_spec(old(self)@, body@, now, draws@),
            r is Ok ==> <TgsReq as Asn1>::parse(r->Ok_0@) is Some && <TgsReq as Asn1>::parse(r->Ok_0@)->0.req_body == body@,
    {
        let subkey = match &self.subkey {
            Some(k) => k.dup(),
            None => {
                assert(false);
                vstd::pervasive::unreached()
            },
        };
        let mut fast = FastState::new();
        let armed = fast.tgs_armor(&subkey, &self.cur_tgt.session_key);
        self.fast_state = fast;
        match armed {
            Ok(()) => {},
            Err(e) => return Err(e),
        }
        let body_der = body.encode();
        let ap_req = match self.build_tgs_ap_req(&body_der, &subkey, now, &draws.auth) {
            Ok(d) => d,
            Err(e) => return Err(e),
        };
        let mut padata: Vec<PaData> = Vec::new();
        padata.push(PaData { padata_type: PaDataType::TGS_REQ, padata_value: copy(&ap_req) });
        if self.options.pac_options {
            padata.push(build_pa_pac_options());
        }
        assert(list_view(padata@) =~= tgs_padata_spec(self@, ap_req@));
        let req = KdcReq { pvno: 5, msg_type: 12, padata: Some(padata), req_body: body };
        match self.fast_state.prep_req_with(&req, &ap_req, FastMsgType::Tgs, &draws.fast) {
            Err(e) => Err(e),
            Ok(der) => {
                self.last_req_bytes = copy(&der);
                Ok(der)
            },
        }
    }

    /// Build a TGS-REQ message with a fresh subkey and nonce.
    pub(super) fn build_tgs_req(&mut self, canonicalize: bool, now: Moment, draws: &Draws) -> (r: Result<Vec<u8>, Krb5Error>)
        ensures
            (final(self)@, outcome(r)) == build_tgs_spec(old(self)@, canonicalize, now, draws@),
            r is Ok ==> final(self)@.last_req_bytes == r->Ok_0@ && <TgsReq as Asn1>::parse(r->Ok_0@) is Some
                && <TgsReq as Asn1>::parse(r->Ok_0@)->0.req_body.nonce == final(self)@.nonce && 0 < final(self)@.nonce
                < 0x8000_0000 && <TgsReq as Asn1>::parse(
                r->Ok_0@,
            )->0.req_body.sname == Some(final(self)@.target_server),
            tgs_request_asks(
                final(self)@,
                match outcome(r) {
                    Ok(data) => Ok(TgsStepResultV::SendToKdc { data, realm: Seq::empty() }),
                    Err(e) => Err(e),
                },
                canonicalize,
            ),
    {
        reveal(build_tgs_spec);
        self.nonce = draws.request_nonce();
        let etype: i32 = self.cur_tgt.session_key.keytype;
        match find_etype(etype) {
            Ok(_) => {},
            Err(_) => return Err(Krb5Error::UnsupportedEtype(etype)),
        }
        self.subkey = Some(draws.auth.fresh_key(etype));
        let body = match self.tgs_body(canonicalize, now) {
            Ok(b) => b,
            Err(e) => return Err(e),
        };
        self.wrap_tgs(body, now, draws)
    }

    /// Handle a referral TGT response with the given clock reading and random
    /// values.
    pub fn handle_referral_with(&mut self, rep: &KdcRep, part: &EncKdcRepPart, resume: ResumeState, now: Moment, draws: &Draws) -> (r:
        Result<TgsStepResult, Krb5Error>)
        requires
            part@.sname.name_string.len() >= 2,
        ensures
            (final(self)@, outcome(r)) == referral_spec(old(self)@, rep@, part@, resume@, now, draws@),
            tgs_request_kept(final(self)@, outcome(r)),
            tgs_request_asks(final(self)@, outcome(r), refers(final(self)@)),
    {
        let (mut realms_seen, referral_count) = match resume {
            ResumeState::Referrals { realms_seen, referral_count } => (realms_seen, referral_count),
            ResumeState::NonReferral => return Err(
                Krb5Error::ReplyValidation("unexpected referral in non-referral mode"),
            ),
        };
        if referral_count >= MAX_REFERRAL_HOPS {
            return Err(Krb5Error::ReferralLimitExceeded(MAX_REFERRAL_HOPS));
        }
        let realm = lossy(part.sname.name_string[1].as_bytes());
        if has_realm(&realms_seen, &realm) {
            return Err(Krb5Error::ReferralLoop { realm });
        }
        let ghost before = list_view(realms_seen@);
        realms_seen.push(realm.clone());
        assert(list_view(realms_seen@) =~= before.push(realm@));
        let mut tgt = credential_from_rep(rep, part);
        if !self.cur_tgt.flags.contains(TicketFlags::OK_AS_DELEGATE) {
            tgt.flags = FlagBits::new(part.flags.bits & !TicketFlags::OK_AS_DELEGATE);
        }
        self.cur_tgt = tgt;
        self.send_tgs(
            realm,
            true,
            ResumeState::Referrals { realms_seen, referral_count: referral_count + 1 },
            now,
            draws,
        )
    }

    /// Handle a referral TGT response.
    pub fn handle_referral(&mut self, rep: &KdcRep, part: &EncKdcRepPart, resume: ResumeState) -> (r: Result<TgsStepResult, Krb5Error>)
        requires
            part@.sname.name_string.len() >= 2,
        ensures
            exists|now: Moment, d: DrawsV|
                d.ok() && #[trigger] referral_spec(old(self)@, rep@, part@, resume@, now, d) == (
                    final(self)@,
                    outcome(r),
                ),
            tgs_request_kept(final(self)@, outcome(r)),
            tgs_request_asks(final(self)@, outcome(r), refers(final(self)@)),
    {
        let now = Moment::now();
        let draws = Draws::draw();
        self.handle_referral_with(rep, part, resume, now, &draws)
    }
}

} // verus!
