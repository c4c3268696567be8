//! FAST request state and the encrypted-challenge preauth
//! mechanism.
use vstd::prelude::*;

use crate::asn1::{decode_list, dup_list, dup_opt, list_parse, opt_list_view, Asn1, BitOctets, Dup};
use crate::bytes::copy;
use crate::crypto::profile::{cksum_spec, cksum_type, dec_spec, known, text, verify_spec};
use crate::crypto::{find_etype, fx_cf2, fx_cf2_spec, key_usage, CryptoError, EtypeProfile};
use crate::der::{list_view, opt_view};
use crate::error::{crypto_err, outcome, Krb5Error, Krb5ErrorV};
use crate::protocol::ap::req_rep::mk_req_spec;
use crate::protocol::ap::{fresh_context, open_sealed, open_spec, seal, seal_spec, ApReqOptions, AuthContext, Entropy, EntropyV};
use crate::protocol::credential::{Credential, CredentialV};
use crate::protocol::preauth::{find_pa, has_pa, pa_index, seal_time, sealed_time, time_found, PaDataType};
use crate::time::{KerberosTime, Moment, TimeV};
use crate::types::{AsReq, Checksum, ChecksumV, EncryptedData, EncryptedDataV, EncryptionKey, EncryptionKeyV, KdcReq, KdcReqV, KrbErrorMsg, KrbErrorMsgV, KrbFastArmor, KrbFastArmorV, KrbFastArmoredReq, KrbFastArmoredReqV, KrbFastReq, KrbFastReqV, KrbFastResponse, KrbFastResponseV, PaData, PaDataV, PaFxFastReply, PaFxFastRequest, PrincipalName, PrincipalNameV, TgsReq, Ticket, TicketV};

verus! {

/// FX-FAST-ARMOR-AP-REQUEST armor type.
pub const FX_FAST_ARMOR_AP_REQUEST: i32 = 1;

/// Which KDC message a FAST request wraps (encoder selection).
#[derive(Debug, Clone, Copy, PartialEq, Eq, Structural)]
pub enum FastMsgType {
    /// AS-REQ (msg-type 10).
    As,
    /// TGS-REQ (msg-type 12).
    Tgs,
}

/// FAST mode for the AS exchange. The credential is an armor TGT of the
/// request realm.
#[derive(Debug, Clone)]
pub enum FastMode {
    /// Never use FAST (default).
    Disabled,
    /// Armor is available but the first request is sent unarmored; the
    /// exchange upgrades to FAST if the KDC advertises it in a preauth error.
    Opportunistic(Credential),
    /// FAST is required: the first request is already armored and a reply
    /// without PA-FX-FAST fails.
    Required(Credential),
}

/// Model of [`FastMode`].
pub enum FastModeV {
    Disabled,
    Opportunistic(CredentialV),
    Required(CredentialV),
}

impl View for FastMode {
    type V = FastModeV;

    open spec fn view(&self) -> FastModeV {
        match self {
            FastMode::Disabled => FastModeV::Disabled,
            FastMode::Opportunistic(c) => FastModeV::Opportunistic(c@),
            FastMode::Required(c) => FastModeV::Required(c@),
        }
    }
}

impl FastModeV {
    /// The armor credential, if any.
    pub open spec fn armor(self) -> Option<CredentialV> {
        match self {
            FastModeV::Disabled => None,
            FastModeV::Opportunistic(c) => Some(c),
            FastModeV::Required(c) => Some(c),
        }
    }
}

impl Default for FastMode {
    fn default() -> (r: Self)
        ensures
            r@ == FastModeV::Disabled,
    {
        FastMode::Disabled
    }
}

impl FastMode {
    /// The armor credential, if any.
    pub fn armor_credential(&self) -> (r: Option<&Credential>)
        ensures
            match r {
                Some(c) => self@.armor() == Some(c@),
                None => self@.armor() is None,
            },
    {
        match self {
            FastMode::Disabled => None,
            FastMode::Opportunistic(c) => Some(c),
            FastMode::Required(c) => Some(c),
        }
    }

    /// Whether FAST should be used from the first request.
    pub fn required(&self) -> (r: bool)
        ensures
            r == (self@ is Required),
    {
        match self {
            FastMode::Required(_) => true,
            _ => false,
        }
    }
}

/// Result of `FastState::process_error`.
#[derive(Debug)]
pub struct FastError {
    /// The effective error: the inner FX-ERROR KRB-ERROR when one was
    /// successfully unwrapped, otherwise the original outer error.
    pub err: KrbErrorMsg,
    /// The FAST response padata (or the decoded error e-data in the unarmored
    /// case). Used as method data / cookie source.
    pub padata: Option<Vec<PaData>>,
    /// Whether the client should make a follow-up request.
    pub retry: bool,
}

/// Model of [`FastError`].
pub struct FastErrorV {
    pub err: KrbErrorMsgV,
    pub padata: Option<Seq<PaDataV>>,
    pub retry: bool,
}

impl View for FastError {
    type V = FastErrorV;

    open spec fn view(&self) -> FastErrorV {
        FastErrorV { err: self.err@, padata: opt_list_view(self.padata), retry: self.retry }
    }
}

/// Outputs of a successfully processed FAST response.
#[derive(Debug)]
pub struct FastResponseOut {
    /// Client principal asserted by KrbFastFinished (replaces rep.cname).
    pub client: PrincipalName,
    /// Strengthen key for reply-key derivation, if the KDC sent one.
    pub strengthen_key: Option<EncryptionKey>,
    /// Padata carried inside the FAST response (replaces rep.padata).
    pub padata: Vec<PaData>,
}

/// Model of [`FastResponseOut`].
pub struct FastResponseOutV {
    pub client: PrincipalNameV,
    pub strengthen_key: Option<EncryptionKeyV>,
    pub padata: Seq<PaDataV>,
}

impl View for FastResponseOut {
    type V = FastResponseOutV;

    open spec fn view(&self) -> FastResponseOutV {
        FastResponseOutV {
            client: self.client@,
            strengthen_key: opt_view(self.strengthen_key),
            padata: list_view(self.padata@),
        }
    }
}

/// What processing a FAST response returned, by its views.
pub open spec fn response_outcome(r: Result<Option<FastResponseOut>, Krb5Error>) -> Result<
    Option<FastResponseOutV>,
    Krb5ErrorV,
> {
    match r {
        Ok(o) => Ok(opt_view(o)),
        Err(e) => Err(e@),
    }
}

/// Per-request FAST state.
pub struct FastState {
    pub armor: Option<KrbFastArmor>,
    pub armor_key: Option<EncryptionKey>,
    pub nonce: u32,
    pub armor_avail: bool,
}

/// Model of [`FastState`].
pub struct FastStateV {
    pub armor: Option<KrbFastArmorV>,
    pub armor_key: Option<EncryptionKeyV>,
    pub nonce: u32,
    pub armor_avail: bool,
}

impl View for FastState {
    type V = FastStateV;

    open spec fn view(&self) -> FastStateV {
        FastStateV {
            armor: opt_view(self.armor),
            armor_key: opt_view(self.armor_key),
            nonce: self.nonce,
            armor_avail: self.armor_avail,
        }
    }
}

/// An empty FAST state.
pub open spec fn fresh_fast() -> FastStateV {
    FastStateV { armor: None, armor_key: None, nonce: 0, armor_avail: false }
}

/// The options of the request that armors another: a subkey and nothing else.
pub open spec fn armor_options() -> ApReqOptions {
    ApReqOptions {
        mutual_required: false,
        use_session_key: false,
        use_subkey: true,
        etype_negotiation: false,
        cbt: false,
    }
}

/// The armor key of a subkey and a session key.
pub open spec fn armor_key_spec(subkey: EncryptionKeyV, session: EncryptionKeyV) -> Result<EncryptionKeyV, Krb5ErrorV> {
    match fx_cf2_spec(subkey, text("subkeyarmor"@), session, text("ticketarmor"@)) {
        Ok(k) => Ok(k),
        Err(e) => Err(crypto_err(e)),
    }
}

/// A state after it is armored with an AP request for an armor TGT, and what
/// armoring it returns.
pub open spec fn armor_ap_spec(v: FastStateV, tgt: CredentialV, now: Moment, env: EntropyV) -> (
    FastStateV,
    Result<(), Krb5ErrorV>,
) {
    let (c, r) = mk_req_spec(fresh_context(), armor_options(), None, tgt, now, env);
    match r {
        Err(e) => (v, Err(e)),
        Ok(der) => match c.send_subkey {
            None => (v, Err(Krb5ErrorV::ReplyValidation("armor AP-REQ without subkey"@))),
            Some(sub) => match armor_key_spec(sub, tgt.session_key) {
                Err(e) => (v, Err(e)),
                Ok(k) => (
                    FastStateV {
                        armor_key: Some(k),
                        armor: Some(KrbFastArmorV { armor_type: FX_FAST_ARMOR_AP_REQUEST, armor_value: der }),
                        ..v
                    },
                    Ok(()),
                ),
            },
        },
    }
}

/// A state after it is armored implicitly for a TGS request, and what
/// armoring it returns.
pub open spec fn tgs_armor_spec(v: FastStateV, subkey: EncryptionKeyV, session: EncryptionKeyV) -> (
    FastStateV,
    Result<(), Krb5ErrorV>,
) {
    match armor_key_spec(subkey, session) {
        Err(e) => (FastStateV { armor: None, ..v }, Err(e)),
        Ok(k) => (FastStateV { armor: None, armor_key: Some(k), ..v }, Ok(())),
    }
}

/// Data other than PA-TGS-REQ.
pub open spec fn without_tgs(ps: Seq<PaDataV>) -> Seq<PaDataV>
    decreases ps.len(),
{
    if ps.len() == 0 {
        Seq::empty()
    } else if ps[0].padata_type == PaDataType::TGS_REQ {
        without_tgs(ps.drop_first())
    } else {
        seq![ps[0]] + without_tgs(ps.drop_first())
    }
}

/// The data of a request.
pub open spec fn padata_of(req: KdcReqV) -> Seq<PaDataV> {
    match req.padata {
        Some(ps) => ps,
        None => Seq::empty(),
    }
}

/// A request as it is encoded.
pub open spec fn req_der(req: KdcReqV, kind: FastMsgType) -> Seq<u8> {
    match kind {
        FastMsgType::As => <AsReq as Asn1>::der(req),
        FastMsgType::Tgs => <TgsReq as Asn1>::der(req),
    }
}

/// The request inside the armor: the data but for PA-TGS-REQ, and the body.
pub open spec fn inner_req(req: KdcReqV) -> KrbFastReqV {
    KrbFastReqV { fast_options: Seq::empty(), padata: without_tgs(padata_of(req)), req_body: req.req_body }
}

/// The data outside the armor: for AS only PA-FX-FAST; for TGS PA-TGS-REQ
/// first, then PA-FX-FAST, then the rest.
pub open spec fn outer_padata(ps: Seq<PaDataV>, fx: PaDataV, kind: FastMsgType) -> Seq<PaDataV> {
    match find_pa(ps, PaDataType::TGS_REQ) {
        Some(tgs) => if kind == FastMsgType::Tgs {
            seq![tgs, fx] + without_tgs(ps)
        } else {
            seq![fx]
        },
        None => seq![fx],
    }
}

/// The PA-FX-FAST data of a request.
pub open spec fn fx_pa(armor: Option<KrbFastArmorV>, sum: ChecksumV, sealed: EncryptedDataV) -> PaDataV {
    PaDataV {
        padata_type: PaDataType::FX_FAST,
        padata_value: <PaFxFastRequest as Asn1>::der(
            KrbFastArmoredReqV { armor, req_checksum: sum, enc_fast_req: sealed },
        ),
    }
}

/// A request in armor.
pub open spec fn armored_req(
    armor: Option<KrbFastArmorV>,
    key: EncryptionKeyV,
    req: KdcReqV,
    covered: Seq<u8>,
    kind: FastMsgType,
    env: EntropyV,
) -> Result<KdcReqV, Krb5ErrorV> {
    if !known(key.keytype) {
        Err(crypto_err(CryptoError::UnsupportedEtype))
    } else {
        match cksum_spec(key.keytype, key.keyvalue, key_usage::FAST_REQ_CHKSUM, covered) {
            Err(e) => Err(crypto_err(e)),
            Ok(sum) => match seal_spec(
                key,
                key_usage::FAST_ENC,
                env.confounder,
                <KrbFastReq as Asn1>::der(inner_req(req)),
            ) {
                Err(e) => Err(e),
                Ok(sealed) => {
                    let fx = fx_pa(armor, ChecksumV { cksumtype: cksum_type(key.keytype), checksum: sum }, sealed);
                    Ok(KdcReqV { padata: Some(outer_padata(padata_of(req), fx, kind)), ..req })
                },
            },
        }
    }
}

/// A state after a request is prepared, and the request to send: in armor
/// where there is an armor key, else as it is.
pub open spec fn prep_spec(v: FastStateV, req: KdcReqV, covered: Seq<u8>, kind: FastMsgType, env: EntropyV) -> (
    FastStateV,
    Result<Seq<u8>, Krb5ErrorV>,
) {
    match v.armor_key {
        None => (v, Ok(req_der(req, kind))),
        Some(key) => (
            FastStateV { nonce: req.req_body.nonce, ..v },
            match armored_req(v.armor, key, req, covered, kind, env) {
                Err(e) => Err(e),
                Ok(outer) => Ok(req_der(outer, kind)),
            },
        ),
    }
}

/// Whether who holds the armor key finds in a request's armor the request
/// `inner`, and a good checksum of `covered`.
pub open spec fn armor_opens(outer: KdcReqV, key: EncryptionKeyV, inner: KrbFastReqV, covered: Seq<u8>) -> bool {
    &&& outer.padata is Some
    &&& find_pa(outer.padata->0, PaDataType::FX_FAST) is Some
    &&& <PaFxFastRequest as Asn1>::parse(find_pa(outer.padata->0, PaDataType::FX_FAST)->0.padata_value) is Some
    &&& ({
        let a = <PaFxFastRequest as Asn1>::parse(find_pa(outer.padata->0, PaDataType::FX_FAST)->0.padata_value)->0;
        &&& a.req_checksum.cksumtype == cksum_type(key.keytype)
        &&& verify_spec(key.keytype, key.keyvalue, key_usage::FAST_REQ_CHKSUM, covered, a.req_checksum.checksum) is Ok
        &&& open_spec(a.enc_fast_req.etype, key.keyvalue, key_usage::FAST_ENC, a.enc_fast_req.cipher) is Some
        &&& <KrbFastReq as Asn1>::parse(
            open_spec(a.enc_fast_req.etype, key.keyvalue, key_usage::FAST_ENC, a.enc_fast_req.cipher)->0,
        ) == Some(inner)
    })
}

/// The FAST response in PA-FX-FAST data of a reply.
pub open spec fn fast_response_spec(v: FastStateV, pa: PaDataV, key: EncryptionKeyV) -> Result<KrbFastResponseV, Krb5ErrorV> {
    match <PaFxFastReply as Asn1>::parse(pa.padata_value) {
        None => Err(Krb5ErrorV::Asn1Decode),
        Some(armored) => if !known(key.keytype) {
            Err(crypto_err(CryptoError::UnsupportedEtype))
        } else {
            match dec_spec(key.keytype, key.keyvalue, key_usage::FAST_REP, armored.enc_fast_rep.cipher) {
                Err(_) => Err(Krb5ErrorV::DecryptionFailed),
                Ok(plain) => match <KrbFastResponse as Asn1>::parse(plain) {
                    None => Err(Krb5ErrorV::Asn1Decode),
                    Some(resp) => if resp.nonce != v.nonce {
                        Err(Krb5ErrorV::ReplyValidation("nonce modified in FAST response"@))
                    } else {
                        Ok(resp)
                    },
                },
            }
        },
    }
}

/// The data of an error.
pub open spec fn error_data(err: KrbErrorMsgV) -> Seq<u8> {
    match err.e_data {
        Some(d) => d,
        None => Seq::empty(),
    }
}

/// The FAST response of an error, if it has one that holds.
pub open spec fn error_response(v: FastStateV, err: KrbErrorMsgV, key: EncryptionKeyV) -> Option<KrbFastResponseV> {
    match list_parse::<PaData>(error_data(err)) {
        None => None,
        Some(ps) => match find_pa(ps, PaDataType::FX_FAST) {
            None => None,
            Some(pa) => match fast_response_spec(v, pa, key) {
                Err(_) => None,
                Ok(resp) => Some(resp),
            },
        },
    }
}

/// What processing an error returns: unarmored, the error with its data;
/// armored, the inner error, or where there is no FAST response the outer
/// error and no retry.
pub open spec fn process_error_spec(v: FastStateV, err: KrbErrorMsgV) -> Result<FastErrorV, Krb5ErrorV> {
    match v.armor_key {
        None => Ok(
            FastErrorV { err, padata: list_parse::<PaData>(error_data(err)), retry: error_data(err).len() > 0 },
        ),
        Some(key) => match error_response(v, err, key) {
            None => Ok(FastErrorV { err, padata: None, retry: false }),
            Some(resp) => match find_pa(resp.padata, PaDataType::FX_ERROR) {
                None => Err(Krb5ErrorV::ReplyValidation("Expecting FX_ERROR pa-data inside FAST container"@)),
                Some(pa) => match <KrbErrorMsg as Asn1>::parse(pa.padata_value) {
                    None => Err(Krb5ErrorV::Asn1Decode),
                    Some(inner) => Ok(
                        FastErrorV {
                            err: inner,
                            padata: Some(resp.padata),
                            retry: resp.padata.len() > 1 && find_pa(resp.padata, PaDataType::FX_COOKIE) is Some,
                        },
                    ),
                },
            },
        },
    }
}

/// What the end of a FAST response gives: its checksum must be that of the
/// ticket under the armor key.
pub open spec fn finished_spec(resp: KrbFastResponseV, key: EncryptionKeyV, ticket: TicketV) -> Result<
    Option<FastResponseOutV>,
    Krb5ErrorV,
> {
    match resp.finished {
        None => Err(Krb5ErrorV::ReplyValidation("FAST response missing finish message"@)),
        Some(f) => if f.ticket_checksum.cksumtype != cksum_type(key.keytype) || verify_spec(
            key.keytype,
            key.keyvalue,
            key_usage::FAST_FINISHED,
            <Ticket as Asn1>::der(ticket),
            f.ticket_checksum.checksum,
        ) is Err {
            Err(Krb5ErrorV::ReplyValidation("Ticket modified in KDC reply"@))
        } else {
            Ok(
                Some(
                    FastResponseOutV { client: f.cname, strengthen_key: resp.strengthen_key, padata: resp.padata },
                ),
            )
        },
    }
}

/// What processing a reply returns.
pub open spec fn process_response_spec(v: FastStateV, ps: Option<Seq<PaDataV>>, ticket: TicketV) -> Result<
    Option<FastResponseOutV>,
    Krb5ErrorV,
> {
    match v.armor_key {
        None => Ok(None),
        Some(key) => match find_pa(
            match ps {
                Some(ps) => ps,
                None => Seq::empty(),
            },
            PaDataType::FX_FAST,
        ) {
            None => Err(Krb5ErrorV::FastRequired),
            Some(pa) => match fast_response_spec(v, pa, key) {
                Err(e) => Err(e),
                Ok(resp) => finished_spec(resp, key, ticket),
            },
        },
    }
}

/// The reply key: a strengthen key folds into it.
pub open spec fn reply_key_spec(strengthen: Option<EncryptionKeyV>, existing: EncryptionKeyV) -> Result<
    EncryptionKeyV,
    Krb5ErrorV,
> {
    match strengthen {
        None => Ok(existing),
        Some(s) => match fx_cf2_spec(s, text("strengthenkey"@), existing, text("replykey"@)) {
            Ok(k) => Ok(k),
            Err(e) => Err(crypto_err(e)),
        },
    }
}

/// Whether to start again in armor: data advertises FAST, and armor is there
/// but not used yet.
pub open spec fn upgrade_spec(v: FastStateV, ps: Seq<PaDataV>) -> bool {
    v.armor_key is None && v.armor_avail && find_pa(ps, PaDataType::FX_FAST) is Some
}

/// The key of the client's encrypted challenge.
pub open spec fn client_challenge_key(armor: EncryptionKeyV, as_key: EncryptionKeyV) -> Result<EncryptionKeyV, Krb5ErrorV> {
    match fx_cf2_spec(armor, text("clientchallengearmor"@), as_key, text("challengelongterm"@)) {
        Ok(k) => Ok(k),
        Err(e) => Err(crypto_err(e)),
    }
}

/// The client's encrypted challenge.
pub open spec fn challenge_spec(armor: EncryptionKeyV, as_key: EncryptionKeyV, ts: TimeV, usec: Option<i32>, env: EntropyV) -> Result<
    PaDataV,
    Krb5ErrorV,
> {
    match client_challenge_key(armor, as_key) {
        Err(e) => Err(e),
        Ok(k) => sealed_time(PaDataType::ENCRYPTED_CHALLENGE, k, key_usage::ENC_CHALLENGE_CLIENT, ts, usec, env),
    }
}

/// What checking a KDC's encrypted challenge returns.
pub open spec fn kdc_challenge_spec(armor: EncryptionKeyV, as_key: EncryptionKeyV, value: Seq<u8>) -> Result<(), Krb5ErrorV> {
    match fx_cf2_spec(armor, text("kdcchallengearmor"@), as_key, text("challengelongterm"@)) {
        Err(e) => Err(crypto_err(e)),
        Ok(k) => match <EncryptedData as Asn1>::parse(value) {
            None => Err(Krb5ErrorV::Asn1Decode),
            Some(d) => if !known(d.etype) {
                Err(Krb5ErrorV::UnsupportedEtype(d.etype))
            } else if open_spec(d.etype, k.keyvalue, key_usage::ENC_CHALLENGE_KDC, d.cipher) is None {
                Err(Krb5ErrorV::DecryptionFailed)
            } else {
                Ok(())
            },
        },
    }
}

proof fn lemma_outer_fast(ps: Seq<PaDataV>, fx: PaDataV, kind: FastMsgType)
    requires
        fx.padata_type == PaDataType::FX_FAST,
    ensures
        find_pa(outer_padata(ps, fx, kind), PaDataType::FX_FAST) == Some(fx),
{
    reveal_with_fuel(find_pa, 3);
    let out = outer_padata(ps, fx, kind);
    if find_pa(ps, PaDataType::TGS_REQ) is Some && kind == FastMsgType::Tgs {
        lemma_found(ps, PaDataType::TGS_REQ);
        let tgs = find_pa(ps, PaDataType::TGS_REQ)->0;
        assert(out[0] == tgs);
        assert(out.drop_first()[0] == fx);
    } else {
        assert(out[0] == fx);
    }
}

proof fn lemma_found(ps: Seq<PaDataV>, t: i32)
    ensures
        find_pa(ps, t) matches Some(pa) ==> pa.padata_type == t,
    decreases ps.len(),
{
    if ps.len() > 0 {
        lemma_found(ps.drop_first(), t);
    }
}

fn keep_others(ps: &Vec<PaData>) -> (r: Vec<PaData>)
    ensures
        list_view(r@) == without_tgs(list_view(ps@)),
{
    let ghost all = list_view(ps@);
    let mut out: Vec<PaData> = Vec::new();
    let mut i: usize = 0;
    assert(all.skip(0) =~= all);
    assert(list_view(out@) + without_tgs(all) =~= without_tgs(all));
    while i < ps.len()
        invariant
            i <= ps@.len(),
            all == list_view(ps@),
            list_view(out@) + without_tgs(all.skip(i as int)) == without_tgs(all),
        decreases ps@.len() - i,
    {
        let ghost rest = all.skip(i as int);
        assert(rest.drop_first() =~= all.skip(i + 1));
        assert(rest[0] == ps@[i as int]@);
        if ps[i].padata_type != PaDataType::TGS_REQ {
            let ghost before = list_view(out@);
            out.push(ps[i].dup());
            assert(list_view(out@) =~= before.push(rest[0]));
            assert(before + (seq![rest[0]] + without_tgs(all.skip(i + 1))) =~= list_view(out@) + without_tgs(all.skip(i + 1)));
        }
        i = i + 1;
    }
    assert(all.skip(i as int).len() == 0);
    assert(list_view(out@) =~= without_tgs(all));
    out
}

fn make_outer(ps: &Vec<PaData>, fx: PaData, kind: FastMsgType) -> (r: Vec<PaData>)
    ensures
        list_view(r@) == outer_padata(list_view(ps@), fx@, kind),
{
    let mut list: Vec<PaData> = Vec::new();
    let ghost fxv = fx@;
    match pa_index(ps, PaDataType::TGS_REQ) {
        Some(i) => {
            if kind == FastMsgType::Tgs {
                list.push(ps[i].dup());
                list.push(fx);
                assert(list_view(list@) =~= seq![ps@[i as int]@, fxv]);
                let ghost head = list_view(list@);
                let mut rest = keep_others(ps);
                let ghost tail = list_view(rest@);
                let ghost all = list@ + rest@;
                list.append(&mut rest);
                assert(list@ == all);
                assert(list_view(list@) =~= head + tail);
            } else {
                list.push(fx);
                assert(list_view(list@) =~= seq![fxv]);
            }
        },
        None => {
            list.push(fx);
            assert(list_view(list@) =~= seq![fxv]);
        },
    }
    list
}

fn encode_kdc_req(req: KdcReq, kind: FastMsgType) -> (r: Vec<u8>)
    ensures
        r@ == req_der(req@, kind),
        match kind {
            FastMsgType::As => <AsReq as Asn1>::parse(r@) == Some(req@),
            FastMsgType::Tgs => <TgsReq as Asn1>::parse(r@) == Some(req@),
        },
{
    match kind {
        FastMsgType::As => AsReq(req).encode(),
        FastMsgType::Tgs => TgsReq(req).encode(),
    }
}

/// The request that octets encode.
pub open spec fn req_parse(s: Seq<u8>, kind: FastMsgType) -> Option<KdcReqV> {
    match kind {
        FastMsgType::As => <AsReq as Asn1>::parse(s),
        FastMsgType::Tgs => <TgsReq as Asn1>::parse(s),
    }
}

fn combined(k1: &EncryptionKey, p1: &str, k2: &EncryptionKey, p2: &str) -> (r: Result<EncryptionKey, Krb5Error>)
    ensures
        outcome(r) == (match fx_cf2_spec(k1@, text(p1@), k2@, text(p2@)) {
            Ok(k) => Ok(k),
            Err(e) => Err(crypto_err(e)),
        }),
{
    match fx_cf2(k1, p1.as_bytes(), k2, p2.as_bytes()) {
        Ok(k) => Ok(k),
        Err(e) => Err(Krb5Error::from_crypto(e)),
    }
}

impl FastState {
    /// Create an empty FAST state.
    pub fn new() -> (r: Self)
        ensures
            r@ == fresh_fast(),
    {
        FastState { armor: None, armor_key: None, nonce: 0, armor_avail: false }
    }

    /// Record that armor credentials are available.
    pub fn set_armor_available(&mut self, avail: bool)
        ensures
            final(self)@ == (FastStateV { armor_avail: avail, ..old(self)@ }),
    {
        self.armor_avail = avail;
    }

    /// The current armor key, if one has been derived.
    pub fn armor_key(&self) -> (r: Option<&EncryptionKey>)
        ensures
            match r {
                Some(k) => self@.armor_key == Some(k@),
                None => self@.armor_key is None,
            },
    {
        match &self.armor_key {
            Some(k) => Some(k),
            None => None,
        }
    }

    /// Build AP-REQ armor from an armor TGT, with the given clock reading and
    /// random octets.
    pub fn armor_ap_request_with(&mut self, armor_tgt: &Credential, now: Moment, env: &Entropy) -> (r: Result<(), Krb5Error>)
        ensures
            (final(self)@, outcome(r)) == armor_ap_spec(old(self)@, armor_tgt@, now, env@),
    {
        let mut auth_context = AuthContext::new();
        let opts = ApReqOptions {
            mutual_required: false,
            use_session_key: false,
            use_subkey: true,
            etype_negotiation: false,
            cbt: false,
        };
        let der = match auth_context.mk_req_with(&opts, None, armor_tgt, now, env) {
            Ok(d) => d,
            Err(e) => return Err(e),
        };
        let subkey = match &auth_context.send_subkey {
            Some(k) => k,
            None => return Err(Krb5Error::ReplyValidation("armor AP-REQ without subkey")),
        };
        match combined(subkey, "subkeyarmor", &armor_tgt.session_key, "ticketarmor") {
            Err(e) => Err(e),
            Ok(k) => {
                self.armor_key = Some(k);
                self.armor = Some(KrbFastArmor { armor_type: FX_FAST_ARMOR_AP_REQUEST, armor_value: der });
                Ok(())
            },
        }
    }

    /// Build AP-REQ armor from an armor TGT.
    pub fn armor_ap_request(&mut self, armor_tgt: &Credential) -> (r: Result<(), Krb5Error>)
        ensures
            exists|now: Moment, env: EntropyV|
                env.ok() && #[trigger] armor_ap_spec(old(self)@, armor_tgt@, now, env) == (final(self)@, outcome(r)),
    {
        let now = Moment::now();
        let env = Entropy::draw();
        self.armor_ap_request_with(armor_tgt, now, &env)
    }

    /// Derive the implicit TGS armor key used when there is no armor cache.
    pub fn tgs_armor(&mut self, subkey: &EncryptionKey, session: &EncryptionKey) -> (r: Result<(), Krb5Error>)
        ensures
            (final(self)@, outcome(r)) == tgs_armor_spec(old(self)@, subkey@, session@),
    {
        self.armor = None;
        match combined(subkey, "subkeyarmor", session, "ticketarmor") {
            Err(e) => Err(e),
            Ok(k) => {
                self.armor_key = Some(k);
                Ok(())
            },
        }
    }

    /// Wrap a KDC-REQ in PA-FX-FAST if armored, else encode it as-is, with
    /// the given random octets.
    ///
    /// `to_be_checksummed` is the outer request body DER for AS and the
    /// PA-TGS-REQ AP-REQ DER for TGS.
    pub fn prep_req_with(&mut self, req: &KdcReq, to_be_checksummed: &[u8], msg_type: FastMsgType, env: &Entropy) -> (r: Result<
        Vec<u8>,
        Krb5Error,
    >)
        ensures
            (final(self)@, outcome(r)) == prep_spec(old(self)@, req@, to_be_checksummed@, msg_type, env@),
            // The request reads back, and who holds the armor key finds the
            // inner request in it.
            r is Ok ==> req_parse(r->Ok_0@, msg_type) is Some && (match old(self)@.armor_key {
                None => req_parse(r->Ok_0@, msg_type) == Some(req@),
                Some(k) => req_parse(r->Ok_0@, msg_type)->0.req_body == req@.req_body && armor_opens(
                    req_parse(r->Ok_0@, msg_type)->0,
                    k,
                    inner_req(req@),
                    to_be_checksummed@,
                ),
            }),
    {
        let armor_key = match &self.armor_key {
            Some(k) => k.dup(),
            None => return Ok(encode_kdc_req(req.dup(), msg_type)),
        };
        self.nonce = req.req_body.nonce;
        let original = match &req.padata {
            Some(ps) => dup_list(ps),
            None => {
                let none: Vec<PaData> = Vec::new();
                assert(list_view(none@) =~= Seq::empty());
                none
            },
        };
        assert(list_view(original@) == padata_of(req@));
        let options = BitOctets { octets: Vec::new() };
        assert(options@ =~= Seq::empty());
        let fast_req = KrbFastReq {
            fast_options: options,
            padata: keep_others(&original),
            req_body: req.req_body.dup(),
        };
        assert(fast_req@ == inner_req(req@));
        let fast_req_der = fast_req.encode();

        let profile = match find_etype(armor_key.keytype) {
            Ok(p) => p,
            Err(e) => return Err(Krb5Error::from_crypto(e)),
        };
        let sum = match profile.checksum(armor_key.key_bytes(), key_usage::FAST_REQ_CHKSUM, to_be_checksummed) {
            Ok(s) => s,
            Err(e) => return Err(Krb5Error::from_crypto(e)),
        };
        let req_checksum = Checksum { cksumtype: profile.checksum_type(), checksum: sum };
        let enc_fast_req = match seal(&armor_key, key_usage::FAST_ENC, env, &fast_req_der) {
            Ok(d) => d,
            Err(e) => return Err(e),
        };
        let armored = PaFxFastRequest(KrbFastArmoredReq { armor: dup_opt(&self.armor), req_checksum, enc_fast_req });
        let fx = PaData { padata_type: PaDataType::FX_FAST, padata_value: armored.encode() };
        proof {
            lemma_outer_fast(padata_of(req@), fx@, msg_type);
        }
        let outer = KdcReq {
            pvno: req.pvno,
            msg_type: req.msg_type,
            padata: Some(make_outer(&original, fx, msg_type)),
            req_body: req.req_body.dup(),
        };
        assert(armor_opens(outer@, armor_key@, inner_req(req@), to_be_checksummed@));
        Ok(encode_kdc_req(outer, msg_type))
    }

    /// Wrap a KDC-REQ in PA-FX-FAST if armored, else encode it as-is.
    pub fn prep_req(&mut self, req: &KdcReq, to_be_checksummed: &[u8], msg_type: FastMsgType) -> (r: Result<Vec<u8>, Krb5Error>)
        ensures
            exists|env: EntropyV|
                env.ok() && #[trigger] prep_spec(old(self)@, req@, to_be_checksummed@, msg_type, env) == (
                    final(self)@,
                    outcome(r),
                ),
    {
        let env = Entropy::draw();
        self.prep_req_with(req, to_be_checksummed, msg_type, &env)
    }

    /// Decrypt the PA-FX-FAST-REPLY armored data into a KrbFastResponse and
    /// check the echoed nonce.
    fn decrypt_fast_response(&self, pa: &PaData, armor_key: &EncryptionKey) -> (r: Result<KrbFastResponse, Krb5Error>)
        ensures
            outcome(r) == fast_response_spec(self@, pa@, armor_key@),
            r is Ok ==> known(armor_key@.keytype),
    {
        let armored = match <PaFxFastReply as Asn1>::decode(&pa.padata_value) {
            Some(a) => a,
            None => return Err(Krb5Error::Asn1Decode),
        };
        let profile = match find_etype(armor_key.keytype) {
            Ok(p) => p,
            Err(e) => return Err(Krb5Error::from_crypto(e)),
        };
        let plain = match profile.decrypt(armor_key.key_bytes(), key_usage::FAST_REP, &armored.0.enc_fast_rep.cipher) {
            Ok(p) => p,
            Err(_) => return Err(Krb5Error::DecryptionFailed),
        };
        let resp = match <KrbFastResponse as Asn1>::decode(&plain) {
            Some(r) => r,
            None => return Err(Krb5Error::Asn1Decode),
        };
        if resp.nonce != self.nonce {
            return Err(Krb5Error::ReplyValidation("nonce modified in FAST response"));
        }
        Ok(resp)
    }

    fn response_in_error(&self, e_data: &[u8], armor_key: &EncryptionKey) -> (r: Option<KrbFastResponse>)
        ensures
            opt_view(r) == (match list_parse::<PaData>(e_data@) {
                None => None,
                Some(ps) => match find_pa(ps, PaDataType::FX_FAST) {
                    None => None,
                    Some(pa) => match fast_response_spec(self@, pa, armor_key@) {
                        Err(_) => None,
                        Ok(resp) => Some(resp),
                    },
                },
            }),
    {
        let ps = match decode_list::<PaData>(e_data) {
            Some(ps) => ps,
            None => return None,
        };
        match pa_index(&ps, PaDataType::FX_FAST) {
            None => None,
            Some(i) => match self.decrypt_fast_response(&ps[i], armor_key) {
                Ok(resp) => Some(resp),
                Err(_) => None,
            },
        }
    }

    /// Decrypt and validate the FAST padata of a KRB-ERROR.
    pub fn process_error(&self, err: KrbErrorMsg) -> (r: Result<FastError, Krb5Error>)
        ensures
            outcome(r) == process_error_spec(self@, err@),
    {
        let e_data = match &err.e_data {
            Some(d) => copy(d),
            None => Vec::new(),
        };
        assert(e_data@ =~= error_data(err@));
        let armor_key = match &self.armor_key {
            Some(k) => k,
            None => {
                // Unarmored: retry if there's any e_data to process; decode
                // it as METHOD-DATA when possible.
                let padata = decode_list::<PaData>(&e_data);
                return Ok(FastError { err, padata, retry: e_data.len() > 0 });
            },
        };
        let resp = match self.response_in_error(&e_data, armor_key) {
            Some(r) => r,
            None => {
                // Any failure in the FAST decode chain means the KDC does not
                // understand FAST: surface the outer error, no retry.
                return Ok(FastError { err, padata: None, retry: false });
            },
        };
        let i: usize = match pa_index(&resp.padata, PaDataType::FX_ERROR) {
            Some(i) => i,
            None => return Err(Krb5Error::ReplyValidation("Expecting FX_ERROR pa-data inside FAST container")),
        };
        let inner = match <KrbErrorMsg as Asn1>::decode(&resp.padata[i].padata_value) {
            Some(e) => e,
            None => return Err(Krb5Error::Asn1Decode),
        };
        let retry = resp.padata.len() > 1 && has_pa(&resp.padata, PaDataType::FX_COOKIE);
        Ok(FastError { err: inner, padata: Some(resp.padata), retry })
    }

    /// Decrypt and validate the FAST padata of a KDC-REP.
    ///
    /// Returns `Ok(None)` when the request was not FAST-armored.
    pub fn process_response(&self, rep_padata: Option<&[PaData]>, ticket: &Ticket) -> (r: Result<
        Option<FastResponseOut>,
        Krb5Error,
    >)
        ensures
            response_outcome(r) == process_response_spec(
                self@,
                match rep_padata {
                    Some(ps) => Some(list_view(ps@)),
                    None => None,
                },
                ticket@,
            ),
    {
        let armor_key = match &self.armor_key {
            Some(k) => k,
            None => return Ok(None),
        };
        let ps = match rep_padata {
            Some(ps) => ps,
            None => return Err(Krb5Error::FastRequired),
        };
        let resp = match pa_index(ps, PaDataType::FX_FAST) {
            None => return Err(Krb5Error::FastRequired),
            Some(i) => match self.decrypt_fast_response(&ps[i], armor_key) {
                Ok(r) => r,
                Err(e) => return Err(e),
            },
        };
        let finished = match resp.finished {
            Some(f) => f,
            None => return Err(Krb5Error::ReplyValidation("FAST response missing finish message")),
        };
        // Ticket checksum: armor key, usage 53, over DER(ticket), of the armor
        // enctype's mandatory checksum type.
        let profile = match find_etype(armor_key.keytype) {
            Ok(p) => p,
            Err(e) => return Err(Krb5Error::from_crypto(e)),
        };
        if finished.ticket_checksum.cksumtype != profile.checksum_type() {
            return Err(Krb5Error::ReplyValidation("Ticket modified in KDC reply"));
        }
        let ticket_der = ticket.encode();
        match profile.verify_checksum(
            armor_key.key_bytes(),
            key_usage::FAST_FINISHED,
            &ticket_der,
            &finished.ticket_checksum.checksum,
        ) {
            Ok(()) => {},
            Err(_) => return Err(Krb5Error::ReplyValidation("Ticket modified in KDC reply")),
        }
        Ok(
            Some(
                FastResponseOut { client: finished.cname, strengthen_key: resp.strengthen_key, padata: resp.padata },
            ),
        )
    }

    /// Compute the reply decryption key.
    pub fn reply_key(strengthen: Option<&EncryptionKey>, existing: &EncryptionKey) -> (r: Result<EncryptionKey, Krb5Error>)
        ensures
            outcome(r) == reply_key_spec(
                match strengthen {
                    Some(k) => Some(k@),
                    None => None,
                },
                existing@,
            ),
    {
        match strengthen {
            Some(s) => combined(s, "strengthenkey", existing, "replykey"),
            None => Ok(existing.dup()),
        }
    }

    /// Whether an error's padata advertises FAST and we should restart
    /// armored.
    pub fn upgrade_to_fast_p(&self, padata: &[PaData]) -> (r: bool)
        ensures
            r == upgrade_spec(self@, list_view(padata@)),
    {
        if self.armor_key.is_some() || !self.armor_avail {
            return false;
        }
        has_pa(padata, PaDataType::FX_FAST)
    }
}

impl Default for FastState {
    fn default() -> (r: Self)
        ensures
            r@ == fresh_fast(),
    {
        FastState::new()
    }
}

/// Build a PA-ENCRYPTED-CHALLENGE padata for the client direction, with the
/// given random octets. Who has the armor key and the client's key finds the
/// time in it.
pub fn build_pa_encrypted_challenge_with(
    armor_key: &EncryptionKey,
    as_key: &EncryptionKey,
    ts: KerberosTime,
    usec: Option<i32>,
    env: &Entropy,
) -> (r: Result<PaData, Krb5Error>)
    ensures
        outcome(r) == challenge_spec(armor_key@, as_key@, ts@, usec, env@),
        r is Ok ==> client_challenge_key(armor_key@, as_key@) is Ok && time_found(
            r->Ok_0@,
            client_challenge_key(armor_key@, as_key@)->Ok_0,
            key_usage::ENC_CHALLENGE_CLIENT,
            ts@,
            usec,
        ),
{
    match combined(armor_key, "clientchallengearmor", as_key, "challengelongterm") {
        Err(e) => Err(e),
        Ok(k) => seal_time(PaDataType::ENCRYPTED_CHALLENGE, &k, key_usage::ENC_CHALLENGE_CLIENT, ts, usec, env),
    }
}

/// Build a PA-ENCRYPTED-CHALLENGE padata for the client direction.
pub fn build_pa_encrypted_challenge(armor_key: &EncryptionKey, as_key: &EncryptionKey, ts: KerberosTime, usec: Option<i32>) -> (r:
    Result<PaData, Krb5Error>)
    ensures
        exists|env: EntropyV|
            env.ok() && #[trigger] challenge_spec(armor_key@, as_key@, ts@, usec, env) == outcome(r),
{
    let env = Entropy::draw();
    build_pa_encrypted_challenge_with(armor_key, as_key, ts, usec, &env)
}

/// Verify a KDC-direction encrypted challenge found in a reply's FAST padata.
/// The timestamp contents are not checked; successful decryption proves the
/// KDC holds the client's long-term key.
pub fn verify_kdc_challenge(armor_key: &EncryptionKey, as_key: &EncryptionKey, padata_value: &[u8]) -> (r: Result<(), Krb5Error>)
    ensures
        outcome(r) == kdc_challenge_spec(armor_key@, as_key@, padata_value@),
{
    let key = match combined(armor_key, "kdcchallengearmor", as_key, "challengelongterm") {
        Ok(k) => k,
        Err(e) => return Err(e),
    };
    let enc = match <EncryptedData as Asn1>::decode(padata_value) {
        Some(d) => d,
        None => return Err(Krb5Error::Asn1Decode),
    };
    match find_etype(enc.etype) {
        Ok(_) => {},
        Err(_) => return Err(Krb5Error::UnsupportedEtype(enc.etype)),
    }
    match open_sealed(enc.etype, key.key_bytes(), key_usage::ENC_CHALLENGE_KDC, &enc.cipher) {
        Some(_) => Ok(()),
        None => Err(Krb5Error::DecryptionFailed),
    }
}

} // verus!
