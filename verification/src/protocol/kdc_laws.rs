//! What holds of the messages that a client and a KDC exchange.
use vstd::prelude::*;
use vstd::utf8::encode_utf8;

use crate::asn1::{list_parse, Asn1};
use crate::crypto::profile::{cksum_spec, cksum_type, dec_spec, enc_spec, known, s2k_spec, text, verify_spec};
use crate::crypto::{fx_cf2_spec, CryptoError};
use crate::error::Krb5ErrorV;
use crate::protocol::ap::laws::{lemma_bits, nanos, sealed_as};
use crate::protocol::ap::seal_spec;
use crate::protocol::as_exchange::reply::{accept_spec, as_rep_spec, info_entry, key_params_spec, merged, reply_keys_spec, strengthen_of};
use crate::protocol::as_exchange::request::{answer_challenge, answer_timestamp, body_spec, choice_spec, cleared, hint_etype, hint_salt, learn_spec, note_spec, padata_spec, preauth_clock, reset_fast_spec, restart_spec, select_spec, send_preauth_spec, send_spec};
use crate::protocol::as_exchange::{default_config, error_step_spec, fresh_exchange, next_loop, step_spec, with_method, AsExchangeConfigV, AsExchangeV, AsState, StepResultV};
use crate::protocol::as_exchange::laws::law_complete_has_credential;
use crate::protocol::draws::DrawsV;
use crate::protocol::fast::{armored_req, fresh_fast, process_error_spec, process_response_spec, tgs_armor_spec, upgrade_spec, FastErrorV, FastMsgType, FastResponseOutV};
use crate::protocol::kdc_rep::{credential_of, decrypt_part_spec, krb_error_spec, try_key, try_keys, RepKind};
use crate::protocol::preauth::{as_key_spec, default_salt_spec, entry_for, find_pa, hint_spec, joined_parts, preferred_entry, ErrorCode, PaDataType};
use crate::protocol::tgs_exchange::request::{build_tgs_spec, lemma_options, referral_spec, referral_tgt_spec, tgs_ap_req_spec, tgs_auth_spec, tgs_body_spec, tgs_padata_spec, with_subkey};
use crate::protocol::tgs_exchange::{candidates_spec, fresh_tgs, is_referral_spec, refers, target_realm, tgs_error_spec, tgs_fast_spec, tgs_part_spec, tgs_reply_spec, tgs_request_asks, tgs_request_kept, tgs_step_spec, ResumeStateV, TgsExchangeV, TgsOptionsV, TgsStateV, TgsStepResultV};
use crate::protocol::credential::CredentialV;
use crate::protocol::validate::{as_reply_spec, is_tgs_name};
use crate::text::utf8_lossy;
use crate::time::{stamp_of, usec_of, Duration, Moment, TimeV};
use crate::types::names::has_flags;
use crate::types::{ApReq, ApReqV, AsRep, AsReq, Authenticator, AuthenticatorV, Checksum, EncAsRepPart, EncKdcRepPart, EncKdcRepPartV, EncTgsRepPart, EncryptedData, EncryptedDataV, EncryptionKeyV, EtypeInfo2Entry, EtypeInfo2EntryV, KdcOptions, KdcRepV, KdcReqBody, KdcReqBodyV, KdcReqV, KrbErrorMsg, PaDataV, PaEncTsEnc, PaEncTsEncV, PaPacOptions, PaPacOptionsV, PaPacRequest, PaPacRequestV, PrincipalNameV, TgsRep, TgsReq};

verus! {

/// Whether encrypted data opens under a key and a usage to octets that read
/// as `p`.
pub open spec fn part_opens(enc: EncryptedDataV, key: EncryptionKeyV, usage: i32, p: EncKdcRepPartV) -> bool {
    dec_spec(enc.etype, key.keyvalue, usage, enc.cipher) matches Ok(plain) && (<EncAsRepPart as Asn1>::parse(plain) == Some(p)
        || <EncTgsRepPart as Asn1>::parse(plain) == Some(p) || <EncKdcRepPart as Asn1>::parse(plain) == Some(p))
}

/// Whether a key is another one as a strengthen key, if there is one, makes
/// it.
pub open spec fn strengthened(by: Option<EncryptionKeyV>, base: EncryptionKeyV, key: EncryptionKeyV) -> bool {
    match by {
        None => key == base,
        Some(s) => fx_cf2_spec(s, text("strengthenkey"@), base, text("replykey"@)) == Ok::<
            EncryptionKeyV,
            CryptoError,
        >(key),
    }
}

/// A part that keys in their order gave is one that one of them gives.
proof fn lemma_try_keys(keys: Seq<(EncryptionKeyV, i32)>, data: EncryptedDataV, kind: RepKind, last: Krb5ErrorV) -> (i: int)
    requires
        try_keys(keys, data, kind, last) is Ok,
    ensures
        0 <= i < keys.len(),
        try_key(keys[i].0, keys[i].1, data, kind) == try_keys(keys, data, kind, last),
        part_opens(data, keys[i].0, keys[i].1, try_keys(keys, data, kind, last)->Ok_0),
    decreases keys.len(),
{
    let r = try_key(keys[0].0, keys[0].1, data, kind);
    if r is Ok {
        0
    } else {
        lemma_try_keys(keys.drop_first(), data, kind, r->Err_0) + 1
    }
}

/// A decrypted part of a TGS reply opens under one of the two keys.
proof fn lemma_tgs_part(v: TgsExchangeV, rep: KdcRepV, strengthen: Option<EncryptionKeyV>) -> (r: (EncryptionKeyV, EncryptionKeyV, i32))
    requires
        tgs_part_spec(v, rep, strengthen) is Ok,
    ensures
        part_opens(rep.enc_part, r.1, r.2, tgs_part_spec(v, rep, strengthen)->Ok_0),
        strengthened(strengthen, r.0, r.1),
        (r.2 == 9 && v.subkey == Some(r.0)) || (r.2 == 8 && r.0 == v.cur_tgt.session_key),
{
    let keys = candidates_spec(v, strengthen)->Ok_0;
    let i = lemma_try_keys(keys, rep.enc_part, RepKind::Tgs, Krb5ErrorV::DecryptionFailed);
    (if keys[i].1 == 9 { v.subkey->0 } else { v.cur_tgt.session_key }, keys[i].0, keys[i].1)
}

/// What completes a waiting exchange is a TGS-REP that is found valid and is
/// no referral.
proof fn lemma_tgs_complete(v: TgsExchangeV, reply: Seq<u8>, now: Moment, d: DrawsV)
    requires
        v.state is AwaitReply,
        tgs_step_spec(v, reply, now, d).1 == Ok::<TgsStepResultV, Krb5ErrorV>(TgsStepResultV::Complete),
    ensures
        ({
            let rep = <TgsRep as Asn1>::parse(reply)->0;
            let out = tgs_fast_spec(v, rep)->Ok_0;
            let p = tgs_part_spec(v, merged(rep, out), strengthen_of(out))->Ok_0;
            &&& <TgsRep as Asn1>::parse(reply) is Some
            &&& rep.pvno == 5 && rep.msg_type == 13
            &&& tgs_fast_spec(v, rep) is Ok
            &&& tgs_part_spec(v, merged(rep, out), strengthen_of(out)) is Ok
            &&& tgs_reply_spec(v, merged(rep, out), p, now) is Ok
            &&& !is_referral_spec(v, p)
            &&& tgs_step_spec(v, reply, now, d).0.credential == Some(credential_of(merged(rep, out), p))
        }),
{
}

/// A TGS exchange that completes on a reply has decrypted the reply's
/// encrypted part, under the subkey of the request with usage 9 or under the
/// session key of the TGT with usage 8, to a part `p`; and its credential is
/// `p` field by field: the times of authentication, start and end and the
/// time to which it can be renewed, the session key, the server and its
/// realm, the flags and the addresses are those of `p`, the ticket, the
/// client and its realm those of the reply.
pub proof fn law_tgs_credential(v: TgsExchangeV, reply: Seq<u8>, now: Moment, d: DrawsV)
    requires
        v.state is AwaitReply,
        tgs_step_spec(v, reply, now, d).1 == Ok::<TgsStepResultV, Krb5ErrorV>(TgsStepResultV::Complete),
    ensures
        ({
            let c = tgs_step_spec(v, reply, now, d).0.credential->0;
            let rep = <TgsRep as Asn1>::parse(reply)->0;
            let out = tgs_fast_spec(v, rep)->Ok_0;
            &&& tgs_step_spec(v, reply, now, d).0.credential is Some
            &&& <TgsRep as Asn1>::parse(reply) is Some
            &&& tgs_fast_spec(v, rep) is Ok
            &&& exists|p: EncKdcRepPartV, base: EncryptionKeyV, key: EncryptionKeyV, usage: i32|
                {
                    &&& #[trigger] part_opens(rep.enc_part, key, usage, p)
                    &&& #[trigger] strengthened(strengthen_of(out), base, key)
                    &&& (usage == 9 && v.subkey == Some(base)) || (usage == 8 && base == v.cur_tgt.session_key)
                    &&& c.times.authtime == p.authtime
                    &&& c.times.starttime == p.starttime
                    &&& c.times.endtime == p.endtime
                    &&& c.times.renew_till == p.renew_till
                    &&& c.session_key == p.key
                    &&& c.server == p.sname
                    &&& c.srealm == utf8_lossy(p.srealm)
                    &&& c.flags == p.flags
                    &&& c.addresses == p.caddr
                    &&& c.authdata is None
                    &&& c.ticket == rep.ticket
                    &&& c.crealm == utf8_lossy(rep.crealm)
                    &&& c.client == (match out {
                        Some(o) => o.client,
                        None => rep.cname,
                    })
                }
        }),
{
    lemma_tgs_complete(v, reply, now, d);
    let rep = <TgsRep as Asn1>::parse(reply)->0;
    let out = tgs_fast_spec(v, rep)->Ok_0;
    let p = tgs_part_spec(v, merged(rep, out), strengthen_of(out))->Ok_0;
    let (base, key, usage) = lemma_tgs_part(v, merged(rep, out), strengthen_of(out));
    assert(part_opens(rep.enc_part, key, usage, p));
    assert(strengthened(strengthen_of(out), base, key));
}

/// An AS exchange that completes on a reply has decrypted the reply's
/// encrypted part, under the key that the password makes and with usage 3, to
/// a part `p`; and its credential is `p` field by field: the times of
/// authentication, start and end and the time to which it can be renewed, the
/// session key, the server and its realm, the flags and the addresses are
/// those of `p`, the ticket, the client and its realm those of the reply.
pub proof fn law_as_credential(v: AsExchangeV, reply: Seq<u8>, now: Moment, d: DrawsV)
    requires
        v.state == AsState::AwaitReply,
        v.credential is None,
        step_spec(v, reply, now, d).1 == Ok::<StepResultV, Krb5ErrorV>(StepResultV::Complete),
    ensures
        ({
            let c = step_spec(v, reply, now, d).0.credential->0;
            let rep = <AsRep as Asn1>::parse(reply)->0;
            let out = process_response_spec(v.fast_state, rep.padata, rep.ticket)->Ok_0;
            let (salt, params) = key_params_spec(v, merged(rep, out));
            let etype = rep.enc_part.etype;
            &&& step_spec(v, reply, now, d).0.credential is Some
            &&& <AsRep as Asn1>::parse(reply) is Some
            &&& process_response_spec(v.fast_state, rep.padata, rep.ticket) is Ok
            &&& v.config.etypes.contains(etype)
            &&& s2k_spec(etype, encode_utf8(v.password), salt, params) is Ok
            &&& exists|p: EncKdcRepPartV, key: EncryptionKeyV|
                {
                    &&& #[trigger] part_opens(rep.enc_part, key, 3, p)
                    &&& strengthened(
                        strengthen_of(out),
                        EncryptionKeyV { keytype: etype, keyvalue: s2k_spec(etype, encode_utf8(v.password), salt, params)->Ok_0 },
                        key,
                    )
                    &&& p.nonce == v.nonce
                    &&& c.times.authtime == p.authtime
                    &&& c.times.starttime == p.starttime
                    &&& c.times.endtime == p.endtime
                    &&& c.times.renew_till == p.renew_till
                    &&& c.session_key == p.key
                    &&& c.server == p.sname
                    &&& c.srealm == utf8_lossy(p.srealm)
                    &&& c.flags == p.flags
                    &&& c.addresses == p.caddr
                    &&& c.authdata is None
                    &&& c.ticket == rep.ticket
                    &&& c.crealm == utf8_lossy(rep.crealm)
                    &&& c.client == (match out {
                        Some(o) => o.client,
                        None => rep.cname,
                    })
                }
        }),
{
    law_complete_has_credential(v, reply, now, d, v.config, v.password);
    lemma_complete_on_reply(v, reply, now, d);
    let rep = <AsRep as Asn1>::parse(reply)->0;
    let out = process_response_spec(v.fast_state, rep.padata, rep.ticket)->Ok_0;
    let rep1 = merged(rep, out);
    let keys = reply_keys_spec(v, rep1, strengthen_of(out))->Ok_0;
    let cands = seq![(keys.1, 3i32)];
    let p = decrypt_part_spec(cands, rep1.enc_part, RepKind::As)->Ok_0;
    let i = lemma_try_keys(cands, rep1.enc_part, RepKind::As, Krb5ErrorV::DecryptionFailed);
    assert(part_opens(rep.enc_part, keys.1, 3, p));
}

/// What completes a waiting exchange is an AS-REP.
proof fn lemma_complete_on_reply(v: AsExchangeV, reply: Seq<u8>, now: Moment, d: DrawsV)
    requires
        v.state == AsState::AwaitReply,
        v.credential is None,
        step_spec(v, reply, now, d).0.credential is Some,
    ensures
        <AsRep as Asn1>::parse(reply) is Some,
        as_rep_spec(v, <AsRep as Asn1>::parse(reply)->0, now) == step_spec(v, reply, now, d),
{
    if <AsRep as Asn1>::parse(reply) is None {
        crate::protocol::as_exchange::laws::lemma_error_keeps(v, reply, now, d);
    }
}

/// Every request that a TGS step sends is a TGS-REQ with a body in which the
/// bit that asks for a forwardable ticket is set exactly when the options ask
/// for one, likewise the bit for a renewable ticket, and the bit for a
/// canonical name exactly when the exchange then waits for referrals; no other
/// bit is set. The body names the target service, the realm that the request
/// is sent to, the enctypes of the options, an end ten hours from now and the
/// nonce, and nothing else.
pub proof fn law_tgs_request(v: TgsExchangeV, reply: Seq<u8>, now: Moment, d: DrawsV, data: Seq<u8>, realm: Seq<char>)
    requires
        tgs_step_spec(v, reply, now, d).1 == Ok::<TgsStepResultV, Krb5ErrorV>(TgsStepResultV::SendToKdc { data, realm }),
    ensures
        ({
            let w = tgs_step_spec(v, reply, now, d).0;
            exists|req: KdcReqV|
                {
                    let body = req.req_body;
                    &&& data == #[trigger] <TgsReq as Asn1>::der(req)
                    &&& req.pvno == 5
                    &&& req.msg_type == 12
                    &&& body.kdc_options & 0x4000_0000 != 0 <==> v.options.forwardable
                    &&& body.kdc_options & 0x0080_0000 != 0 <==> v.options.renewable
                    &&& body.kdc_options & 0x0001_0000 != 0 <==> (w.state matches TgsStateV::AwaitReply { resume }
                        && resume is Referrals)
                    &&& body.kdc_options & 0xbf7e_ffff == 0
                    &&& body.cname is None
                    &&& body.realm == encode_utf8(realm)
                    &&& body.sname == Some(v.target_server)
                    &&& body.from is None
                    &&& body.till == (TimeV { secs: (stamp_of(now.total()).secs + 36_000) as i64, nanos: 0 })
                    &&& body.rtime is None
                    &&& body.nonce == (if d.nonce % 0x8000_0000 == 0 { 1u32 } else { d.nonce % 0x8000_0000 })
                    &&& body.etype == v.options.etypes
                    &&& body.addresses is None
                    &&& body.enc_authorization_data is None
                    &&& body.additional_tickets is None
                    &&& w.nonce == body.nonce
                    &&& w.last_req_bytes == data
                    &&& w.last_realm == realm
                    &&& w.state is AwaitReply
                    &&& presents_tgt(w, req, now, d)
                }
        }),
{
    match v.state {
        TgsStateV::Begin => {
            lemma_tgs_sent(v, v.options.canonicalize, now, d);
        },
        TgsStateV::AwaitReply { resume } => {
            match <TgsRep as Asn1>::parse(reply) {
                Some(rep) => {
                    let out = tgs_fast_spec(v, rep)->Ok_0;
                    let rep1 = merged(rep, out);
                    let p = tgs_part_spec(v, rep1, strengthen_of(out))->Ok_0;
                    lemma_tgs_sent(TgsExchangeV { cur_tgt: referral_tgt_spec(v, rep1, p), ..v }, true, now, d);
                },
                None => {
                    lemma_tgs_sent(TgsExchangeV { first_referral_attempt: false, ..v }, false, now, d);
                },
            }
        },
        TgsStateV::Complete => {},
    }
}

/// Whether a request shows the TGT of an exchange: its first data is of type
/// 1 and holds an AP-REQ with the ticket of the TGT and an authenticator,
/// under the session key with usage 7, that has the client and its realm, the
/// time, the subkey and a checksum of the body under the session key with
/// usage 6.
pub open spec fn presents_tgt(w: TgsExchangeV, req: KdcReqV, now: Moment, d: DrawsV) -> bool {
    let session = w.cur_tgt.session_key;
    &&& req.padata is Some
    &&& req.padata->0.len() > 0
    &&& req.padata->0[0].padata_type == 1
    &&& exists|ap: ApReqV, a: AuthenticatorV|
        {
            &&& req.padata->0[0].padata_value == #[trigger] <ApReq as Asn1>::der(ap)
            &&& ap.pvno == 5
            &&& ap.msg_type == 14
            &&& ap.ap_options == 0
            &&& ap.ticket == w.cur_tgt.ticket
            &&& ap.authenticator.etype == session.keytype
            &&& ap.authenticator.kvno is None
            &&& enc_spec(session.keytype, session.keyvalue, 7, d.auth.confounder, #[trigger] <Authenticator as Asn1>::der(a)) == Ok::<
                Seq<u8>,
                CryptoError,
            >(ap.authenticator.cipher)
            &&& a.authenticator_vno == 5
            &&& a.crealm == encode_utf8(w.cur_tgt.crealm)
            &&& a.cname == w.cur_tgt.client
            &&& a.cksum is Some
            &&& a.cksum->0.cksumtype == cksum_type(session.keytype)
            &&& cksum_spec(session.keytype, session.keyvalue, 6, <KdcReqBody as Asn1>::der(req.req_body)) == Ok::<
                Seq<u8>,
                CryptoError,
            >(a.cksum->0.checksum)
            &&& a.ctime == stamp_of(now.total())
            &&& a.cusec == usec_of(now.total())
            &&& a.subkey == w.subkey
            &&& a.subkey is Some
            &&& a.seq_number is None
            &&& a.authorization_data is None
        }
}

proof fn lemma_tgs_sent(v: TgsExchangeV, canonicalize: bool, now: Moment, d: DrawsV)
    requires
        build_tgs_spec(v, canonicalize, now, d).1 is Ok,
    ensures
        ({
            let (w, r) = build_tgs_spec(v, canonicalize, now, d);
            let data = r->Ok_0;
            &&& w.last_req_bytes == data
            &&& w.nonce == (if d.nonce % 0x8000_0000 == 0 { 1u32 } else { d.nonce % 0x8000_0000 })
            &&& w.cur_tgt == v.cur_tgt
            &&& w.options == v.options
            &&& exists|req: KdcReqV|
                {
                    let body = req.req_body;
                    &&& data == #[trigger] <TgsReq as Asn1>::der(req)
                    &&& req.pvno == 5
                    &&& req.msg_type == 12
                    &&& body.kdc_options & 0x4000_0000 != 0 <==> v.options.forwardable
                    &&& body.kdc_options & 0x0080_0000 != 0 <==> v.options.renewable
                    &&& body.kdc_options & 0x0001_0000 != 0 <==> canonicalize
                    &&& body.kdc_options & 0xbf7e_ffff == 0
                    &&& body.cname is None
                    &&& body.realm == encode_utf8(target_realm(v))
                    &&& body.sname == Some(v.target_server)
                    &&& body.from is None
                    &&& body.till == (TimeV { secs: (stamp_of(now.total()).secs + 36_000) as i64, nanos: 0 })
                    &&& body.rtime is None
                    &&& body.nonce == w.nonce
                    &&& body.etype == v.options.etypes
                    &&& body.addresses is None
                    &&& body.enc_authorization_data is None
                    &&& body.additional_tickets is None
                    &&& presents_tgt(w, req, now, d)
                }
        }),
{
    reveal(build_tgs_spec);
    lemma_options(v.options.renewable, v.options.forwardable, canonicalize);
    let v1 = with_subkey(v, d);
    let body = tgs_body_spec(v1, canonicalize, now)->Ok_0;
    let f = tgs_armor_spec(fresh_fast(), v1.subkey->0, v1.cur_tgt.session_key).0;
    let v2 = TgsExchangeV { fast_state: f, ..v1 };
    let bd = <KdcReqBody as Asn1>::der(body);
    let ap_req = tgs_ap_req_spec(v2, bd, v1.subkey->0, now, d.auth)->Ok_0;
    let req = KdcReqV { pvno: 5, msg_type: 12, padata: Some(tgs_padata_spec(v2, ap_req)), req_body: body };
    let outer = armored_req(f.armor, f.armor_key->0, req, ap_req, FastMsgType::Tgs, d.fast)->Ok_0;
    let w = build_tgs_spec(v, canonicalize, now, d).0;
    assert(w.last_req_bytes == <TgsReq as Asn1>::der(outer));
    assert(presents_tgt(w, outer, now, d)) by {
        reveal(tgs_ap_req_spec);
        reveal_with_fuel(find_pa, 2);
        let session = v.cur_tgt.session_key;
        let sum = cksum_spec(session.keytype, session.keyvalue, 6, bd)->Ok_0;
        let a = tgs_auth_spec(v2, sum, v1.subkey->0, now);
        let sealed = seal_spec(session, 7, d.auth.confounder, <Authenticator as Asn1>::der(a))->Ok_0;
        let ap = ApReqV { pvno: 5, msg_type: 14, ap_options: 0, ticket: v.cur_tgt.ticket, authenticator: sealed };
        assert(ap_req == <ApReq as Asn1>::der(ap));
        assert(outer.padata->0[0] == req.padata->0[0]);
    }
}

/// A request that a step hands out, where the step says that it is kept and
/// what it asks for, reads back so: the octets parse to a body with the bits
/// that the options ask for, the target service and the nonce.
pub proof fn law_tgs_request_reads(w: TgsExchangeV, r: Result<TgsStepResultV, Krb5ErrorV>, data: Seq<u8>, realm: Seq<char>)
    requires
        r == Ok::<TgsStepResultV, Krb5ErrorV>(TgsStepResultV::SendToKdc { data, realm }),
        tgs_request_kept(w, r),
        tgs_request_asks(w, r, refers(w)),
    ensures
        <TgsReq as Asn1>::parse(data) matches Some(req) && {
            &&& req.req_body.kdc_options & 0x4000_0000 != 0 <==> w.options.forwardable
            &&& req.req_body.kdc_options & 0x0080_0000 != 0 <==> w.options.renewable
            &&& req.req_body.kdc_options & 0x0001_0000 != 0 <==> refers(w)
            &&& req.req_body.sname == Some(w.target_server)
            &&& req.req_body.nonce == w.nonce
            &&& req.req_body.nonce != 0
        },
{
}

/// Whether an exchange has asked for a TGT of its realm: the last request is
/// an AS-REQ whose body names the client, the realm and the realm's
/// ticket-granting service, has the options and enctypes of the configuration,
/// ends the configured time from now, is renewable for the configured time
/// exactly where the options say so, and has the nonce kept for the reply.
pub open spec fn asked_for_tgt(w: AsExchangeV, data: Seq<u8>, now: Moment, d: DrawsV) -> bool {
    let body = w.last_req_body->0;
    let here = stamp_of(now.total()).secs;
    &&& w.last_req_body is Some
    &&& w.last_req_bytes == data
    &&& exists|req: KdcReqV| data == #[trigger] <AsReq as Asn1>::der(req) && req.pvno == 5 && req.msg_type == 10 && req.req_body == body
    &&& body.kdc_options == w.config.kdc_options
    &&& body.cname == Some(w.config.client)
    &&& body.realm == encode_utf8(w.config.realm)
    &&& body.sname is Some
    &&& body.sname->0.name_type == 2
    &&& body.sname->0.name_string.len() == 2
    &&& body.sname->0.name_string[0] == seq![0x6bu8, 0x72u8, 0x62u8, 0x74u8, 0x67u8, 0x74u8]
    &&& body.sname->0.name_string[1] == encode_utf8(w.config.realm)
    &&& body.from is None
    &&& body.till == (TimeV { secs: (here + w.config.tkt_lifetime.secs) as i64, nanos: 0 })
    &&& here + w.config.tkt_lifetime.secs <= 253_402_300_799
    &&& w.config.kdc_options & 0x0080_0000 == 0 ==> body.rtime is None
    &&& w.config.kdc_options & 0x0080_0000 != 0 ==> body.rtime == Some(
        TimeV { secs: (here + w.config.renew_lifetime.secs) as i64, nanos: 0 },
    ) && here + w.config.renew_lifetime.secs <= 253_402_300_799
    &&& body.nonce == w.nonce
    &&& w.nonce == (if d.nonce % 0x8000_0000 == 0 { 1u32 } else { d.nonce % 0x8000_0000 })
    &&& body.etype == w.config.etypes
    &&& body.addresses is None
    &&& body.enc_authorization_data is None
    &&& body.additional_tickets is None
}

proof fn lemma_as_sent(v: AsExchangeV, preauth: Seq<PaDataV>, now: Moment, d: DrawsV)
    requires
        send_spec(v, preauth, now, d).1 is Ok,
    ensures
        ({
            let (w, r) = send_spec(v, preauth, now, d);
            &&& r->Ok_0 == StepResultV::SendToKdc { data: w.last_req_bytes, realm: w.config.realm }
            &&& asked_for_tgt(w, w.last_req_bytes, now, d)
            &&& w.config == v.config
            &&& w.password == v.password
        }),
{
    reveal(send_spec);
    reveal(body_spec);
    let (w, r) = send_spec(v, preauth, now, d);
    let o = v.config.kdc_options;
    lemma_bits(o);
    let v1 = AsExchangeV { nonce: d.request_nonce(), ..v };
    let body = body_spec(v1, now)->Ok_0;
    let req = KdcReqV { pvno: 5, msg_type: 10, padata: Some(padata_spec(v1, preauth)), req_body: body };
    let bd = <KdcReqBody as Asn1>::der(body);
    let outer = if v.fast_state.armor_key is None {
        req
    } else {
        armored_req(v.fast_state.armor, v.fast_state.armor_key->0, req, bd, FastMsgType::As, d.fast)->Ok_0
    };
    assert(w.last_req_bytes == <AsReq as Asn1>::der(outer));
}

proof fn lemma_as_restarted(v: AsExchangeV, upgrade: bool, now: Moment, d: DrawsV)
    requires
        restart_spec(v, upgrade, now, d).1 is Ok,
    ensures
        ({
            let (w, r) = restart_spec(v, upgrade, now, d);
            &&& r->Ok_0 == StepResultV::SendToKdc { data: w.last_req_bytes, realm: w.config.realm }
            &&& asked_for_tgt(w, w.last_req_bytes, now, d)
            &&& w.config == v.config
            &&& w.password == v.password
        }),
{
    reveal(restart_spec);
    let v1 = reset_fast_spec(cleared(v), v.config.fast is Required || upgrade, now, d).0;
    lemma_as_sent(v1, Seq::empty(), now, d);
}

proof fn lemma_as_answered(v: AsExchangeV, now: Moment, d: DrawsV)
    requires
        send_preauth_spec(v, now, d).1 is Ok,
    ensures
        ({
            let (w, r) = send_preauth_spec(v, now, d);
            &&& r->Ok_0 == StepResultV::SendToKdc { data: w.last_req_bytes, realm: w.config.realm }
            &&& asked_for_tgt(w, w.last_req_bytes, now, d)
            &&& w.config == v.config
            &&& w.password == v.password
        }),
{
    reveal(send_preauth_spec);
    let method = v.method_padata->0;
    let v1 = learn_spec(v, method).0;
    let (v2, answer) = select_spec(v1, method, now, d);
    lemma_as_sent(AsExchangeV { preauth_sent: true, ..v2 }, seq![answer->Ok_0], now, d);
}

/// Every request that an AS step sends asks for a TGT of the exchange's realm
/// for its client, and is sent to that realm.
pub proof fn law_as_request(v: AsExchangeV, reply: Seq<u8>, now: Moment, d: DrawsV, data: Seq<u8>, realm: Seq<char>)
    requires
        step_spec(v, reply, now, d).1 == Ok::<StepResultV, Krb5ErrorV>(StepResultV::SendToKdc { data, realm }),
    ensures
        ({
            let w = step_spec(v, reply, now, d).0;
            &&& asked_for_tgt(w, data, now, d)
            &&& realm == w.config.realm
            &&& w.config.client == v.config.client
            &&& w.config.etypes == v.config.etypes
            &&& w.config.kdc_options == v.config.kdc_options
            &&& w.password == v.password
        }),
{
    match v.state {
        AsState::Initial => {
            let v1 = reset_fast_spec(v, v.config.fast is Required, now, d).0;
            lemma_as_sent(v1, Seq::empty(), now, d);
        },
        AsState::AwaitReply => {
            let err = krb_error_spec(reply)->Ok_0;
            let fe = process_error_spec(v.fast_state, err)->Ok_0;
            lemma_as_error_sends(v, fe, now, d);
        },
        AsState::Complete => {},
    }
}

proof fn lemma_as_error_sends(v: AsExchangeV, fe: FastErrorV, now: Moment, d: DrawsV)
    requires
        error_step_spec(v, fe, now, d).1 matches Ok(s) && s is SendToKdc,
    ensures
        ({
            let (w, r) = error_step_spec(v, fe, now, d);
            &&& r->Ok_0 == StepResultV::SendToKdc { data: w.last_req_bytes, realm: w.config.realm }
            &&& asked_for_tgt(w, w.last_req_bytes, now, d)
            &&& w.config.client == v.config.client
            &&& w.config.etypes == v.config.etypes
            &&& w.config.kdc_options == v.config.kdc_options
            &&& w.password == v.password
        }),
{
    let code = fe.err.error_code;
    let padata = if fe.padata is Some { fe.padata->0 } else { Seq::empty() };
    let realm = utf8_lossy(fe.err.realm);
    let v1 = AsExchangeV { loop_count: next_loop(v.loop_count), ..v };
    let v2 = AsExchangeV {
        preauth_failed: match v.selected_preauth_type {
            Some(t) => v.preauth_failed.push(t),
            None => v.preauth_failed,
        },
        selected_preauth_type: None,
        preauth_sent: false,
        ..note_spec(v, fe.err.stime, fe.err.susec, now)
    };
    if !v.restarted && upgrade_spec(v.fast_state, padata) {
        lemma_as_restarted(AsExchangeV { restarted: true, ..v }, true, now, d);
    } else if (code == 25 || code == 91) && fe.retry {
        lemma_as_answered(with_method(note_spec(v1, fe.err.stime, fe.err.susec, now), fe.padata), now, d);
    } else if code == 24 && !v.preauth_sent && !v.restarted {
        lemma_as_restarted(AsExchangeV { info_pa_permitted: false, restarted: true, ..v }, false, now, d);
    } else if code == 24 && fe.retry {
        lemma_as_answered(with_method(v2, fe.padata), now, d);
    } else if code == 90 {
        lemma_as_restarted(AsExchangeV { restarted: false, ..v }, false, now, d);
    } else if code == 68 && has_flags(v.config.kdc_options, KdcOptions::CANONICALIZE) {
        lemma_as_restarted(AsExchangeV { config: AsExchangeConfigV { realm, ..v.config }, ..v }, false, now, d);
    } else if fe.retry && v.selected_preauth_type is Some {
        lemma_as_answered(v, now, d);
    }
}

/// The data of a request, in order: the cookie of the last error, of type 133,
/// where there is one; the preauthentication data; where they are allowed, two
/// without contents of types 150 and 149; and always at the end one of type
/// 128 that says whether a PAC is wanted.
pub proof fn law_as_data(v: AsExchangeV, preauth: Seq<PaDataV>)
    ensures
        ({
            let ps = padata_spec(v, preauth);
            let n = preauth.len() as int;
            let k: int = if v.cookie is Some { 1 } else { 0 };
            let m: int = if v.info_pa_permitted { 2 } else { 0 };
            &&& ps.len() == k + n + m + 1
            &&& v.cookie is Some ==> ps[0].padata_type == 133 && ps[0].padata_value == v.cookie->0
            &&& forall|i: int| 0 <= i < n ==> ps[k + i] == #[trigger] preauth[i]
            &&& v.info_pa_permitted ==> ps[k + n].padata_type == 150 && ps[k + n].padata_value.len() == 0 && ps[k + n + 1].padata_type
                == 149 && ps[k + n + 1].padata_value.len() == 0
            &&& ps.last().padata_type == 128
            &&& ps.last().padata_value == <PaPacRequest as Asn1>::der(PaPacRequestV { pac_wanted: v.config.request_pac })
        }),
{
}

/// An encrypted timestamp is data of type 2: the time, under the key that the
/// password makes with usage 1. The key is of the hinted type, salt and
/// parameters; without a hint it is of type 18 with the client's own salt.
pub proof fn law_timestamp(v: AsExchangeV, now: Moment, d: DrawsV)
    requires
        answer_timestamp(v, now, d) is Ok,
    ensures
        ({
            let pa = answer_timestamp(v, now, d)->Ok_0;
            let t = preauth_clock(v, true, now);
            let etype = if v.last_preauth_etype is Some { v.last_preauth_etype->0 } else { 18i32 };
            let salt = if v.last_preauth_salt is Some {
                v.last_preauth_salt->0
            } else {
                default_salt_spec(v.config.realm, v.config.client.name_string)
            };
            let key = s2k_spec(etype, encode_utf8(v.password), salt, v.last_s2kparams);
            &&& key is Ok
            &&& pa.padata_type == 2
            &&& exists|e: EncryptedDataV, ts: PaEncTsEncV|
                {
                    &&& pa.padata_value == #[trigger] <EncryptedData as Asn1>::der(e)
                    &&& sealed_as(
                        e,
                        EncryptionKeyV { keytype: etype, keyvalue: key->Ok_0 },
                        1,
                        d.pa.confounder,
                        #[trigger] <PaEncTsEnc as Asn1>::der(ts),
                    )
                    &&& ts.patimestamp == stamp_of(t)
                    &&& ts.pausec == Some(usec_of(t))
                }
        }),
{
    let pa = answer_timestamp(v, now, d)->Ok_0;
    let t = preauth_clock(v, true, now);
    let ts = PaEncTsEncV { patimestamp: stamp_of(t), pausec: Some(usec_of(t)) };
    let key = as_key_spec(hint_etype(v), encode_utf8(v.password), hint_salt(v), v.last_s2kparams)->Ok_0;
    let e = seal_spec(key, 1, d.pa.confounder, <PaEncTsEnc as Asn1>::der(ts))->Ok_0;
    assert(pa.padata_value == <EncryptedData as Asn1>::der(e));
}

/// An encrypted challenge is data of type 138: the time, by a clock that only
/// an armored error may have set, under the armor key and the client's key
/// combined, with usage 54.
pub proof fn law_challenge(v: AsExchangeV, armor: EncryptionKeyV, now: Moment, d: DrawsV)
    requires
        answer_challenge(v, armor, now, d) is Ok,
    ensures
        ({
            let pa = answer_challenge(v, armor, now, d)->Ok_0;
            let t = preauth_clock(v, false, now);
            let etype = if v.last_preauth_etype is Some { v.last_preauth_etype->0 } else { 18i32 };
            let salt = if v.last_preauth_salt is Some {
                v.last_preauth_salt->0
            } else {
                default_salt_spec(v.config.realm, v.config.client.name_string)
            };
            let long = s2k_spec(etype, encode_utf8(v.password), salt, v.last_s2kparams);
            let key = fx_cf2_spec(
                armor,
                text("clientchallengearmor"@),
                EncryptionKeyV { keytype: etype, keyvalue: long->Ok_0 },
                text("challengelongterm"@),
            );
            &&& long is Ok
            &&& key is Ok
            &&& pa.padata_type == 138
            &&& exists|e: EncryptedDataV, ts: PaEncTsEncV|
                {
                    &&& pa.padata_value == #[trigger] <EncryptedData as Asn1>::der(e)
                    &&& sealed_as(e, key->Ok_0, 54, d.pa.confounder, #[trigger] <PaEncTsEnc as Asn1>::der(ts))
                    &&& ts.patimestamp == stamp_of(t)
                    &&& ts.pausec == Some(usec_of(t))
                }
        }),
{
    let pa = answer_challenge(v, armor, now, d)->Ok_0;
    let t = preauth_clock(v, false, now);
    let ts = PaEncTsEncV { patimestamp: stamp_of(t), pausec: Some(usec_of(t)) };
    let long = as_key_spec(hint_etype(v), encode_utf8(v.password), hint_salt(v), v.last_s2kparams)->Ok_0;
    let key = fx_cf2_spec(armor, text("clientchallengearmor"@), long, text("challengelongterm"@))->Ok_0;
    let e = seal_spec(key, 54, d.pa.confounder, <PaEncTsEnc as Asn1>::der(ts))->Ok_0;
    assert(pa.padata_value == <EncryptedData as Asn1>::der(e));
}

/// The clock of preauthentication runs as the client's does. Once a KDC's time
/// was noted it is the KDC's: at the moment of the note it shows the KDC's
/// second and microsecond, less the client's own microseconds. A time noted
/// without armor counts only where such a one is allowed, and without a note
/// the clock is the client's.
pub proof fn law_preauth_clock(v: AsExchangeV, stime: TimeV, susec: i32, then: Moment, now: Moment, allow: bool)
    ensures
        ({
            let w = note_spec(v, stime, susec, then);
            let armored = v.fast_state.armor_key is Some;
            &&& preauth_clock(w, allow, now) - preauth_clock(w, allow, then) == now.total() - then.total()
            &&& allow || armored ==> preauth_clock(w, allow, then) == stime.secs * 1_000_000_000 + stime.nanos + (susec - usec_of(
                then.total(),
            )) * 1_000
            &&& !allow && !armored ==> preauth_clock(w, allow, now) == now.total()
            &&& v.pa_offset is None ==> preauth_clock(v, allow, now) == now.total()
        }),
{
}

/// The client's own salt is its realm followed by the parts of its name.
pub proof fn law_own_salt(realm: Seq<char>, parts: Seq<Seq<u8>>, last: Seq<u8>)
    ensures
        default_salt_spec(realm, Seq::empty()) == encode_utf8(realm),
        default_salt_spec(realm, parts.push(last)) == default_salt_spec(realm, parts) + last,
{
    assert(default_salt_spec(realm, Seq::empty()) =~= encode_utf8(realm));
    lemma_joined(parts, last);
    assert(encode_utf8(realm) + (joined_parts(parts) + last) =~= encode_utf8(realm) + joined_parts(parts) + last);
}

proof fn lemma_joined(parts: Seq<Seq<u8>>, last: Seq<u8>)
    ensures
        joined_parts(parts.push(last)) == joined_parts(parts) + last,
    decreases parts.len(),
{
    if parts.len() == 0 {
        assert(parts.push(last).drop_first() =~= parts);
        assert(joined_parts(parts.push(last)) =~= joined_parts(parts) + last);
    } else {
        lemma_joined(parts.drop_first(), last);
        assert(parts.push(last).drop_first() =~= parts.drop_first().push(last));
        assert(joined_parts(parts.push(last)) =~= joined_parts(parts) + last);
    }
}

/// The hint that is taken from method data is the entry, in the data of type
/// 19, for the first of the client's enctypes that has one; its type, salt and
/// parameters are those of the entry.
pub proof fn law_hint(ps: Seq<PaDataV>, etypes: Seq<i32>)
    requires
        hint_spec(ps, etypes) is Ok,
    ensures
        ({
            let h = hint_spec(ps, etypes)->Ok_0;
            let pa = find_pa(ps, 19)->0;
            let es = list_parse::<EtypeInfo2Entry>(pa.padata_value)->0;
            &&& find_pa(ps, 19) is Some
            &&& list_parse::<EtypeInfo2Entry>(pa.padata_value) is Some
            &&& exists|k: int, i: int|
                #![trigger etypes[k], es[i]]
                {
                    &&& 0 <= k < etypes.len()
                    &&& 0 <= i < es.len()
                    &&& es[i].etype == etypes[k]
                    &&& h.etype == es[i].etype
                    &&& h.salt == es[i].salt
                    &&& h.s2kparams == es[i].s2kparams
                    &&& forall|a: int, b: int|
                        #![trigger etypes[a], es[b]]
                        0 <= a < k && 0 <= b < es.len() ==> es[b].etype != etypes[a]
                    &&& forall|b: int| 0 <= b < i ==> (#[trigger] es[b]).etype != etypes[k]
                }
        }),
{
    let pa = find_pa(ps, 19)->0;
    let es = list_parse::<EtypeInfo2Entry>(pa.padata_value)->0;
    let (k, i) = lemma_preferred(es, etypes);
}

proof fn lemma_entry(es: Seq<EtypeInfo2EntryV>, etype: i32) -> (i: int)
    ensures
        entry_for(es, etype) matches Some(e) ==> 0 <= i < es.len() && es[i] == e && e.etype == etype && forall|b: int|
            0 <= b < i ==> (#[trigger] es[b]).etype != etype,
        entry_for(es, etype) is None ==> forall|b: int| 0 <= b < es.len() ==> (#[trigger] es[b]).etype != etype,
    decreases es.len(),
{
    if es.len() == 0 || es[0].etype == etype {
        0
    } else {
        let rest = es.drop_first();
        let i = lemma_entry(rest, etype);
        assert forall|b: int| 0 <= b < es.len() && (entry_for(es, etype) is None || b < i + 1) implies (#[trigger] es[b]).etype
            != etype by {
            if b > 0 {
                assert(es[b] == rest[b - 1]);
            }
        }
        i + 1
    }
}

proof fn lemma_preferred(es: Seq<EtypeInfo2EntryV>, etypes: Seq<i32>) -> (r: (int, int))
    requires
        preferred_entry(es, etypes) is Some,
    ensures
        0 <= r.0 < etypes.len(),
        0 <= r.1 < es.len(),
        es[r.1] == preferred_entry(es, etypes)->0,
        es[r.1].etype == etypes[r.0],
        forall|a: int, b: int|
            #![trigger etypes[a], es[b]]
            0 <= a < r.0 && 0 <= b < es.len() ==> es[b].etype != etypes[a],
        forall|b: int| 0 <= b < r.1 ==> (#[trigger] es[b]).etype != etypes[r.0],
    decreases etypes.len(),
{
    let i = lemma_entry(es, etypes[0]);
    if entry_for(es, etypes[0]) is Some {
        (0, i)
    } else {
        let rest = etypes.drop_first();
        let (k, j) = lemma_preferred(es, rest);
        assert forall|a: int, b: int|
            #![trigger etypes[a], es[b]]
            0 <= a < k + 1 && 0 <= b < es.len() implies es[b].etype != etypes[a] by {
            if a > 0 {
                assert(etypes[a] == rest[a - 1]);
            }
        }
        (k + 1, j)
    }
}

/// The numbers of the data types and error codes of the protocol.
pub proof fn law_numbers_of_kdc()
    ensures
        PaDataType::TGS_REQ == 1,
        PaDataType::ENC_TIMESTAMP == 2,
        PaDataType::ETYPE_INFO2 == 19,
        PaDataType::PAC_REQUEST == 128,
        PaDataType::FX_COOKIE == 133,
        PaDataType::FX_FAST == 136,
        PaDataType::FX_ERROR == 137,
        PaDataType::ENCRYPTED_CHALLENGE == 138,
        PaDataType::REQ_ENC_PA_REP == 149,
        PaDataType::AS_FRESHNESS == 150,
        PaDataType::PAC_OPTIONS == 167,
        ErrorCode::S_PRINCIPAL_UNKNOWN == 7,
        ErrorCode::PREAUTH_FAILED == 24,
        ErrorCode::PREAUTH_REQUIRED == 25,
        ErrorCode::SVC_UNAVAILABLE == 29,
        ErrorCode::RESPONSE_TOO_BIG == 52,
        ErrorCode::WRONG_REALM == 68,
        ErrorCode::PREAUTH_EXPIRED == 90,
        ErrorCode::MORE_PREAUTH_DATA_REQUIRED == 91,
{
}

/// The first data of a type is that, and there is none exactly where the list
/// has none.
pub proof fn law_found_data(ps: Seq<PaDataV>, t: i32)
    ensures
        find_pa(ps, t) matches Some(pa) ==> exists|i: int|
            0 <= i < ps.len() && #[trigger] ps[i] == pa && pa.padata_type == t && forall|j: int|
                0 <= j < i ==> (#[trigger] ps[j]).padata_type != t,
        find_pa(ps, t) is None ==> forall|i: int| 0 <= i < ps.len() ==> (#[trigger] ps[i]).padata_type != t,
    decreases ps.len(),
{
    if ps.len() > 0 {
        let rest = ps.drop_first();
        law_found_data(rest, t);
        if ps[0].padata_type == t {
            assert(ps[0] == ps[0]);
        } else if find_pa(rest, t) is Some {
            let pa = find_pa(rest, t)->0;
            let i = choose|i: int|
                0 <= i < rest.len() && #[trigger] rest[i] == pa && pa.padata_type == t && forall|j: int|
                    0 <= j < i ==> (#[trigger] rest[j]).padata_type != t;
            assert(ps[i + 1] == pa);
            assert forall|j: int| 0 <= j < i + 1 implies (#[trigger] ps[j]).padata_type != t by {
                if j > 0 {
                    assert(ps[j] == rest[j - 1]);
                }
            }
        } else {
            assert forall|i: int| 0 <= i < ps.len() implies (#[trigger] ps[i]).padata_type != t by {
                if i > 0 {
                    assert(ps[i] == rest[i - 1]);
                }
            }
        }
    }
}

/// When an AS reply is found valid: exactly when its nonce is the request's,
/// the names and realms of the ticket and of the part agree, the client, its
/// realm and the server are those asked for, unless a canonical name was asked
/// for and both servers are ticket-granting services, the ticket ends no later
/// than asked for and, where a renewable one was asked for with an end, can be
/// renewed no longer, and its start, or its authentication where it has none,
/// is within the clock skew.
pub proof fn law_as_reply_valid(
    nonce: u32,
    body: KdcReqBodyV,
    rep: KdcRepV,
    p: EncKdcRepPartV,
    canonicalize: bool,
    skew: Duration,
    now: TimeV,
)
    ensures
        ({
            let s = skew.secs * 1_000_000_000 + skew.nanos;
            let start = if p.starttime is Some { nanos(p.starttime->0) } else { nanos(p.authtime) };
            let renamed = canonicalize && body.sname is Some && names_krbtgt(body.sname->0) && names_krbtgt(p.sname);
            as_reply_spec(nonce, body, rep, p, canonicalize, skew, now) is Ok <==> {
                &&& p.nonce == nonce
                &&& rep.ticket.sname == p.sname
                &&& rep.ticket.realm == p.srealm
                &&& renamed || (body.cname == Some(rep.cname) && body.realm == rep.crealm && body.sname == Some(p.sname))
                &&& nanos(p.endtime) <= nanos(body.till)
                &&& body.kdc_options & 0x0080_0000 != 0 && body.rtime is Some && p.renew_till is Some ==> nanos(p.renew_till->0)
                    <= nanos(body.rtime->0)
                &&& -s <= start - nanos(now) <= s
            }
        }),
{
    let o = body.kdc_options;
    lemma_bits(o);
    lemma_names_krbtgt(p.sname);
    if body.sname is Some {
        lemma_names_krbtgt(body.sname->0);
    }
}

/// Whether a name is that of a ticket-granting service: of type 2, with two
/// parts, the first `krbtgt`.
pub open spec fn names_krbtgt(p: PrincipalNameV) -> bool {
    &&& p.name_type == 2
    &&& p.name_string.len() == 2
    &&& p.name_string[0].len() == 6
    &&& p.name_string[0][0] == 0x6b
    &&& p.name_string[0][1] == 0x72
    &&& p.name_string[0][2] == 0x62
    &&& p.name_string[0][3] == 0x74
    &&& p.name_string[0][4] == 0x67
    &&& p.name_string[0][5] == 0x74
}

proof fn lemma_names_krbtgt(p: PrincipalNameV)
    ensures
        is_tgs_name(p) <==> names_krbtgt(p),
{
    if names_krbtgt(p) {
        assert(p.name_string[0] =~= crate::protocol::validate::krbtgt());
    }
}

/// When a TGS reply is found valid: exactly when its client and the client's
/// realm are the TGT's, its nonce is the request's, the names and realms of
/// the ticket and of the part agree, the server is the one asked for, unless a
/// canonical name was asked for or the server is another ticket-granting
/// service, and the ticket does not start later than the clock skew allows.
pub proof fn law_tgs_reply_valid(v: TgsExchangeV, rep: KdcRepV, p: EncKdcRepPartV, now: Moment)
    ensures
        ({
            let skew = v.options.max_clock_skew;
            let s = skew.secs * 1_000_000_000 + skew.nanos;
            let start = if p.starttime is Some { nanos(p.starttime->0) } else { nanos(p.authtime) };
            tgs_reply_spec(v, rep, p, now) is Ok <==> {
                &&& rep.cname == v.cur_tgt.client
                &&& rep.crealm == encode_utf8(v.cur_tgt.crealm)
                &&& p.nonce == v.nonce
                &&& rep.ticket.sname == p.sname
                &&& rep.ticket.realm == p.srealm
                &&& v.options.canonicalize || p.sname == v.target_server || names_krbtgt(p.sname)
                &&& start <= nanos(stamp_of(now.total())) + s
            }
        }),
{
    lemma_names_krbtgt(p.sname);
}

/// What completes a TGS exchange was found valid, and is a ticket for the
/// service asked for or for one that is no ticket-granting service.
pub proof fn law_tgs_completes_on_valid(v: TgsExchangeV, reply: Seq<u8>, now: Moment, d: DrawsV)
    requires
        v.state is AwaitReply,
        tgs_step_spec(v, reply, now, d).1 == Ok::<TgsStepResultV, Krb5ErrorV>(TgsStepResultV::Complete),
    ensures
        ({
            let w = tgs_step_spec(v, reply, now, d).0;
            let c = w.credential->0;
            &&& w.credential is Some
            &&& w.state is Complete
            &&& c.client == v.cur_tgt.client
            &&& c.ticket.sname == c.server
            &&& c.server == v.target_server || !names_krbtgt(c.server)
            &&& !v.options.canonicalize ==> c.server == v.target_server
        }),
{
    lemma_tgs_complete(v, reply, now, d);
    lemma_names_krbtgt(tgs_step_spec(v, reply, now, d).0.credential->0.server);
}

/// The realm that requests go to: that in the name of the ticket-granting
/// service of the TGT, else the realm of the TGT's server.
pub proof fn law_target_realm(v: TgsExchangeV)
    ensures
        names_krbtgt(v.cur_tgt.server) ==> target_realm(v) == utf8_lossy(v.cur_tgt.server.name_string[1]),
        !names_krbtgt(v.cur_tgt.server) ==> target_realm(v) == v.cur_tgt.srealm,
{
    lemma_names_krbtgt(v.cur_tgt.server);
}

/// A referral that is followed makes the ticket of the reply the TGT, field by
/// field, less the right to delegate where the TGT before had none, and asks
/// the realm in its server's name, which counts as visited then.
pub proof fn law_referral_followed(v: TgsExchangeV, rep: KdcRepV, p: EncKdcRepPartV, seen: Seq<Seq<char>>, count: u32, now: Moment, d: DrawsV)
    requires
        referral_spec(v, rep, p, ResumeStateV::Referrals { realms_seen: seen, referral_count: count }, now, d).1 is Ok,
    ensures
        ({
            let (w, r) = referral_spec(v, rep, p, ResumeStateV::Referrals { realms_seen: seen, referral_count: count }, now, d);
            let realm = utf8_lossy(p.sname.name_string[1]);
            let t = w.cur_tgt;
            &&& count < 10
            &&& !seen.contains(realm)
            &&& r->Ok_0 is SendToKdc
            &&& r->Ok_0->SendToKdc_realm == realm
            &&& w.state == TgsStateV::AwaitReply {
                resume: ResumeStateV::Referrals { realms_seen: seen.push(realm), referral_count: (count + 1) as u32 },
            }
            &&& t.client == rep.cname
            &&& t.crealm == utf8_lossy(rep.crealm)
            &&& t.server == p.sname
            &&& t.srealm == utf8_lossy(p.srealm)
            &&& t.session_key == p.key
            &&& t.times.authtime == p.authtime
            &&& t.times.starttime == p.starttime
            &&& t.times.endtime == p.endtime
            &&& t.times.renew_till == p.renew_till
            &&& t.ticket == rep.ticket
            &&& t.addresses == p.caddr
            &&& v.cur_tgt.flags & 0x0004_0000 != 0 ==> t.flags == p.flags
            &&& v.cur_tgt.flags & 0x0004_0000 == 0 ==> t.flags == p.flags & 0xfffb_ffff
        }),
{
    reveal(build_tgs_spec);
    let f = v.cur_tgt.flags;
    lemma_bits(f);
    assert(!0x0004_0000u32 == 0xfffb_ffffu32) by (bit_vector);
}

/// What the reply key is made with: the salt and the parameters of the entry
/// for the reply's enctype in the reply's data of type 19, where there is one;
/// else those that were hinted. A salt that neither gives is the client's own.
pub proof fn law_reply_key_made(v: AsExchangeV, rep: KdcRepV, i: int, k: int, es: Seq<EtypeInfo2EntryV>)
    requires
        rep.padata is Some,
        0 <= i < rep.padata->0.len(),
        rep.padata->0[i].padata_type == 19,
        forall|j: int| 0 <= j < i ==> (#[trigger] rep.padata->0[j]).padata_type != 19,
        list_parse::<EtypeInfo2Entry>(rep.padata->0[i].padata_value) == Some(es),
        0 <= k < es.len(),
        es[k].etype == rep.enc_part.etype,
        forall|j: int| 0 <= j < k ==> (#[trigger] es[j]).etype != rep.enc_part.etype,
    ensures
        key_params_spec(v, rep) == (
            if es[k].salt is Some {
                es[k].salt->0
            } else {
                default_salt_spec(v.config.realm, v.config.client.name_string)
            },
            es[k].s2kparams,
        ),
{
    lemma_entry_at(es, rep.enc_part.etype, k);
    lemma_info_entry(rep.padata->0, rep.enc_part.etype, i, es);
}

proof fn lemma_entry_at(es: Seq<EtypeInfo2EntryV>, etype: i32, k: int)
    requires
        0 <= k < es.len(),
        es[k].etype == etype,
        forall|j: int| 0 <= j < k ==> (#[trigger] es[j]).etype != etype,
    ensures
        entry_for(es, etype) == Some(es[k]),
    decreases es.len(),
{
    if k > 0 {
        let rest = es.drop_first();
        assert(es[0].etype != etype);
        assert forall|j: int| 0 <= j < k - 1 implies (#[trigger] rest[j]).etype != etype by {
            assert(rest[j] == es[j + 1]);
        }
        lemma_entry_at(rest, etype, k - 1);
    }
}

proof fn lemma_info_entry(ps: Seq<PaDataV>, etype: i32, i: int, es: Seq<EtypeInfo2EntryV>)
    requires
        0 <= i < ps.len(),
        ps[i].padata_type == 19,
        forall|j: int| 0 <= j < i ==> (#[trigger] ps[j]).padata_type != 19,
        list_parse::<EtypeInfo2Entry>(ps[i].padata_value) == Some(es),
        entry_for(es, etype) is Some,
    ensures
        info_entry(ps, etype) == entry_for(es, etype),
    decreases ps.len(),
{
    if i > 0 {
        let rest = ps.drop_first();
        assert(ps[0].padata_type != 19);
        assert forall|j: int| 0 <= j < i - 1 implies (#[trigger] rest[j]).padata_type != 19 by {
            assert(rest[j] == ps[j + 1]);
        }
        lemma_info_entry(rest, etype, i - 1, es);
    }
}

/// Without data of type 19 in the reply, the reply key is made with the salt
/// and parameters that were hinted, or the client's own salt.
pub proof fn law_reply_key_hinted(v: AsExchangeV, rep: KdcRepV)
    requires
        rep.padata is Some ==> forall|j: int| 0 <= j < rep.padata->0.len() ==> (#[trigger] rep.padata->0[j]).padata_type != 19,
    ensures
        key_params_spec(v, rep) == (
            if v.last_preauth_salt is Some {
                v.last_preauth_salt->0
            } else {
                default_salt_spec(v.config.realm, v.config.client.name_string)
            },
            v.last_s2kparams,
        ),
{
    if rep.padata is Some {
        lemma_no_info(rep.padata->0, rep.enc_part.etype);
    }
}

proof fn lemma_no_info(ps: Seq<PaDataV>, etype: i32)
    requires
        forall|j: int| 0 <= j < ps.len() ==> (#[trigger] ps[j]).padata_type != 19,
    ensures
        info_entry(ps, etype) is None,
    decreases ps.len(),
{
    if ps.len() > 0 {
        let rest = ps.drop_first();
        assert(ps[0].padata_type != 19);
        assert forall|j: int| 0 <= j < rest.len() implies (#[trigger] rest[j]).padata_type != 19 by {
            assert(rest[j] == ps[j + 1]);
        }
        lemma_no_info(rest, etype);
    }
}

/// A reply whose flags say that its data are protected completes the exchange
/// only with a checksum of the very last request, under the reply key with
/// usage 56, in the encrypted data of type 149; FAST is then available exactly
/// where there is encrypted data of type 136. A reply without the flag leaves
/// what is known of FAST as it is.
pub proof fn law_request_protected(v: AsExchangeV, rep: KdcRepV, p: EncKdcRepPartV, as_key: EncryptionKeyV, key: EncryptionKeyV, now: Moment)
    requires
        accept_spec(v, rep, p, as_key, key, now).1 is Ok,
    ensures
        ({
            let w = accept_spec(v, rep, p, as_key, key, now).0;
            let ps = if p.encrypted_pa_data is Some { p.encrypted_pa_data->0 } else { Seq::empty() };
            let pa = find_pa(ps, 149)->0;
            let sum = <Checksum as Asn1>::parse(pa.padata_value)->0;
            &&& w.state == AsState::Complete
            &&& p.flags & 0x0001_0000 != 0 ==> {
                &&& find_pa(ps, 149) is Some
                &&& <Checksum as Asn1>::parse(pa.padata_value) is Some
                &&& sum.cksumtype == cksum_type(key.keytype)
                &&& verify_spec(key.keytype, key.keyvalue, 56, v.last_req_bytes, sum.checksum) is Ok
                &&& w.fast_avail <==> find_pa(ps, 136) is Some
            }
            &&& p.flags & 0x0001_0000 == 0 ==> w.fast_avail == v.fast_avail
        }),
{
    let f = p.flags;
    lemma_bits(f);
}

/// The KDC counts as verified after a reply exactly when, in armor, the
/// reply's data of type 138 open under the armor key and the client's key
/// combined, with usage 55; without armor or such data as it did before.
pub proof fn law_kdc_verified(v: AsExchangeV, rep: KdcRepV, p: EncKdcRepPartV, as_key: EncryptionKeyV, key: EncryptionKeyV, now: Moment)
    requires
        accept_spec(v, rep, p, as_key, key, now).1 is Ok,
    ensures
        ({
            let w = accept_spec(v, rep, p, as_key, key, now).0;
            let ps = if rep.padata is Some { rep.padata->0 } else { Seq::empty() };
            let armor = v.fast_state.armor_key;
            let k = fx_cf2_spec(armor->0, text("kdcchallengearmor"@), as_key, text("challengelongterm"@));
            let e = <EncryptedData as Asn1>::parse(find_pa(ps, 138)->0.padata_value);
            &&& armor is None || find_pa(ps, 138) is None ==> w.kdc_verified == v.kdc_verified
            &&& armor is Some && find_pa(ps, 138) is Some ==> (w.kdc_verified <==> k is Ok && e is Some && known(e->0.etype) && dec_spec(
                e->0.etype,
                k->Ok_0.keyvalue,
                55,
                e->0.cipher,
            ) is Ok)
        }),
{
}

/// How an exchange without armor answers the errors of a KDC: 52 makes the
/// same request go out again; 68 makes it start again in the realm that the
/// error names, where a canonical name was asked for and the realm is another
/// one; 90 makes it start again; 24 before any preauthentication makes it
/// start again without informational data, once; any other error that cannot
/// be answered is handed on as it is.
pub proof fn law_as_errors(v: AsExchangeV, fe: FastErrorV, now: Moment, d: DrawsV)
    requires
        !v.fast_state.armor_avail,
    ensures
        ({
            let code = fe.err.error_code;
            let r = error_step_spec(v, fe, now, d);
            let named = utf8_lossy(fe.err.realm);
            let canonical = v.config.kdc_options & 0x0001_0000 != 0;
            let failed = (v, Err::<StepResultV, Krb5ErrorV>(Krb5ErrorV::KdcError(fe.err)));
            &&& code == 52 ==> r == (v, Ok::<StepResultV, Krb5ErrorV>(
                StepResultV::RetryTcp { data: v.last_req_bytes, realm: v.config.realm },
            ))
            &&& code == 68 && canonical && named != v.config.realm ==> r == restart_spec(
                AsExchangeV { config: AsExchangeConfigV { realm: named, ..v.config }, ..v },
                false,
                now,
                d,
            )
            &&& code == 68 && canonical && named == v.config.realm ==> r == failed
            &&& code == 90 ==> r == restart_spec(AsExchangeV { restarted: false, ..v }, false, now, d)
            &&& code == 24 && !v.preauth_sent && !v.restarted ==> r == restart_spec(
                AsExchangeV { info_pa_permitted: false, restarted: true, ..v },
                false,
                now,
                d,
            )
            &&& code != 52 && code != 68 && code != 90 && code != 24 && code != 25 && code != 91 && !(fe.retry
                && v.selected_preauth_type is Some) ==> r == failed
            &&& (code == 25 || code == 91) && !fe.retry ==> r == failed
            &&& (code == 25 || code == 91) && fe.retry && v.loop_count >= 16 ==> r.1 == Err::<StepResultV, Krb5ErrorV>(
                Krb5ErrorV::PreauthLoopExceeded(16),
            )
        }),
{
    let o = v.config.kdc_options;
    lemma_bits(o);
}

/// An exchange that starts again forgets what it learned of preauthentication
/// and keeps its configuration and password.
pub proof fn law_restarted(v: AsExchangeV, upgrade: bool, now: Moment, d: DrawsV)
    ensures
        ({
            let w = restart_spec(v, upgrade, now, d).0;
            &&& w.cookie is None
            &&& w.last_preauth_salt is None
            &&& w.last_s2kparams is None
            &&& w.last_preauth_etype is None
            &&& w.method_padata is None
            &&& w.selected_preauth_type is None
            &&& w.preauth_failed.len() == 0
            &&& w.loop_count == 0
            &&& !w.preauth_sent
            &&& w.config == v.config
            &&& w.password == v.password
            &&& w.restarted == v.restarted
            &&& w.info_pa_permitted == v.info_pa_permitted
            &&& restart_spec(v, upgrade, now, d).1 is Ok && !upgrade && !(v.config.fast is Required) ==> w.fast_state.armor_key is None
            &&& restart_spec(v, upgrade, now, d).1 is Ok && v.config.fast is Required ==> w.fast_state.armor_key is Some
            &&& restart_spec(v, upgrade, now, d).1 is Ok && upgrade && v.config.fast is Opportunistic ==> w.fast_state.armor_key is Some
        }),
{
    reveal(restart_spec);
    reveal(send_spec);
}

/// What is learned from method data: the cookie of type 133, and of a usable
/// hint the salt, the parameters and the enctype.
pub proof fn law_learned(v: AsExchangeV, method: Seq<PaDataV>)
    ensures
        ({
            let (w, r) = learn_spec(v, method);
            let h = hint_spec(method, v.config.etypes);
            &&& w.cookie == (if find_pa(method, 133) is Some { Some(find_pa(method, 133)->0.padata_value) } else { None::<Seq<u8>> })
            &&& h is Ok ==> r is Ok && w.last_preauth_salt == h->Ok_0.salt && w.last_s2kparams == h->Ok_0.s2kparams
                && w.last_preauth_etype == Some(h->Ok_0.etype)
            &&& h is Err ==> w.last_preauth_salt == v.last_preauth_salt && w.last_s2kparams == v.last_s2kparams
                && w.last_preauth_etype == v.last_preauth_etype && (r is Ok <==> v.last_preauth_etype is Some)
            &&& w.config == v.config
        }),
{
}

/// The mechanism that is answered is the first in the method data that is an
/// encrypted timestamp, or an encrypted challenge in armor, and did not fail
/// before.
pub proof fn law_mechanism_chosen(v: AsExchangeV, method: Seq<PaDataV>)
    ensures
        choice_spec(v, method) matches Some(t) ==> can_answer(v, t) && exists|i: int|
            0 <= i < method.len() && #[trigger] method[i].padata_type == t && forall|j: int|
                0 <= j < i ==> !can_answer(v, (#[trigger] method[j]).padata_type),
        choice_spec(v, method) is None ==> forall|j: int| 0 <= j < method.len() ==> !can_answer(v, (#[trigger] method[j]).padata_type),
    decreases method.len(),
{
    if method.len() > 0 {
        let rest = method.drop_first();
        law_mechanism_chosen(v, rest);
        if can_answer(v, method[0].padata_type) {
            assert(method[0].padata_type == choice_spec(v, method)->0);
        } else if choice_spec(v, rest) is Some {
            let t = choice_spec(v, rest)->0;
            let i = choose|i: int|
                0 <= i < rest.len() && #[trigger] rest[i].padata_type == t && forall|j: int|
                    0 <= j < i ==> !can_answer(v, (#[trigger] rest[j]).padata_type);
            assert(method[i + 1].padata_type == t);
            assert forall|j: int| 0 <= j < i + 1 implies !can_answer(v, (#[trigger] method[j]).padata_type) by {
                if j > 0 {
                    assert(method[j] == rest[j - 1]);
                }
            }
        } else {
            assert forall|j: int| 0 <= j < method.len() implies !can_answer(v, (#[trigger] method[j]).padata_type) by {
                if j > 0 {
                    assert(method[j] == rest[j - 1]);
                }
            }
        }
    }
}

/// Whether a mechanism is one that can be answered: an encrypted timestamp, or
/// in armor an encrypted challenge, that did not fail before.
pub open spec fn can_answer(v: AsExchangeV, t: i32) -> bool {
    &&& t == 2 || (t == 138 && v.fast_state.armor_key is Some)
    &&& !v.preauth_failed.contains(t)
}

/// How an exchange answers the errors of a KDC on a TGS request: 52 makes the
/// same request go out again; 7 to the first request with referrals makes it
/// ask once more without; any other error is handed on as it is.
pub proof fn law_tgs_errors(v: TgsExchangeV, fe: FastErrorV, resume: ResumeStateV, now: Moment, d: DrawsV)
    ensures
        ({
            let code = fe.err.error_code;
            let r = tgs_error_spec(v, fe, resume, now, d);
            let again = code == 7 && v.first_referral_attempt && resume is Referrals;
            &&& code == 52 ==> r == (v, Ok::<TgsStepResultV, Krb5ErrorV>(
                TgsStepResultV::RetryTcp { data: v.last_req_bytes, realm: v.last_realm },
            ))
            &&& again && r.1 is Ok ==> r.1->Ok_0 is SendToKdc && r.1->Ok_0->SendToKdc_realm == target_realm(v) && r.0.state
                == (TgsStateV::AwaitReply { resume: ResumeStateV::NonReferral }) && !r.0.first_referral_attempt
            &&& code != 52 && !again ==> r == (v, Err::<TgsStepResultV, Krb5ErrorV>(Krb5ErrorV::KdcError(fe.err)))
        }),
{
    reveal(build_tgs_spec);
}

/// An exchange begins by asking the realm of the TGT, with referrals exactly
/// where the options ask for canonical names.
pub proof fn law_tgs_begins(v: TgsExchangeV, reply: Seq<u8>, now: Moment, d: DrawsV)
    requires
        v.state is Begin,
        tgs_step_spec(v, reply, now, d).1 is Ok,
    ensures
        ({
            let (w, r) = tgs_step_spec(v, reply, now, d);
            &&& r->Ok_0 is SendToKdc
            &&& r->Ok_0->SendToKdc_realm == target_realm(v)
            &&& v.options.canonicalize ==> w.state == (TgsStateV::AwaitReply {
                resume: ResumeStateV::Referrals { realms_seen: seq![target_realm(v)], referral_count: 0 },
            })
            &&& !v.options.canonicalize ==> w.state == (TgsStateV::AwaitReply { resume: ResumeStateV::NonReferral })
            &&& w.cur_tgt == v.cur_tgt
            &&& w.subkey is Some
            &&& w.subkey->0.keytype == v.cur_tgt.session_key.keytype
        }),
{
    reveal(build_tgs_spec);
}

/// What is asked for by default: a forwardable, renewable ticket under a
/// canonical name, for ten hours and renewable for a week, with a PAC, in the
/// four enctypes, and a clock skew of five minutes; without FAST.
pub proof fn law_defaults(client: PrincipalNameV, realm: Seq<char>)
    ensures
        ({
            let c = default_config(client, realm);
            &&& c.client == client
            &&& c.realm == realm
            &&& c.etypes == seq![18i32, 17i32, 20i32, 19i32]
            &&& c.kdc_options == 0x4081_0000
            &&& c.tkt_lifetime == (Duration { secs: 36_000, nanos: 0 })
            &&& c.renew_lifetime == (Duration { secs: 604_800, nanos: 0 })
            &&& c.request_pac
            &&& c.max_clock_skew == (Duration { secs: 300, nanos: 0 })
            &&& c.fast is Disabled
        }),
{
}

/// A new exchange has its client's configuration and password, allows
/// informational data, and nothing has been learned or sent yet; a new TGS
/// exchange has its TGT, its target and its options.
pub proof fn law_new_exchanges(config: AsExchangeConfigV, password: Seq<char>, tgt: CredentialV, target: PrincipalNameV, options: TgsOptionsV)
    ensures
        ({
            let v = fresh_exchange(config, password);
            &&& v.state == AsState::Initial
            &&& v.config == config
            &&& v.password == password
            &&& v.info_pa_permitted
            &&& !v.restarted && !v.preauth_sent && !v.kdc_verified && !v.fast_avail
            &&& v.cookie is None && v.pa_offset is None && v.credential is None && v.method_padata is None
            &&& v.last_preauth_salt is None && v.last_s2kparams is None && v.last_preauth_etype is None
            &&& v.loop_count == 0
        }),
        ({
            let w = fresh_tgs(tgt, target, options);
            &&& w.state is Begin
            &&& w.cur_tgt == tgt
            &&& w.target_server == target
            &&& w.options == options
            &&& w.first_referral_attempt
            &&& w.credential is None && w.subkey is None
        }),
{
}

/// The data of a TGS request: its AP request, of type 1, and where it is asked
/// for the PAC option of branch awareness, of type 167.
pub proof fn law_tgs_data(v: TgsExchangeV, ap_req: Seq<u8>)
    ensures
        ({
            let ps = tgs_padata_spec(v, ap_req);
            &&& ps.len() == (if v.options.pac_options { 2int } else { 1int })
            &&& ps[0].padata_type == 1
            &&& ps[0].padata_value == ap_req
            &&& v.options.pac_options ==> ps[1].padata_type == 167 && ps[1].padata_value == <PaPacOptions as Asn1>::der(
                PaPacOptionsV { flags: 0x4000_0000 },
            )
        }),
{
}

/// A reply counts as what the KDC answered only with the right version and
/// type: 5 and 11 for an AS-REP, 13 for a TGS-REP, 30 for a KRB-ERROR.
pub proof fn law_reply_types(v: AsExchangeV, w: TgsExchangeV, reply: Seq<u8>, now: Moment, d: DrawsV)
    requires
        reply.len() > 0,
    ensures
        v.state == AsState::AwaitReply && (<AsRep as Asn1>::parse(reply) matches Some(r) && (r.pvno != 5 || r.msg_type != 11))
            ==> step_spec(v, reply, now, d).0 == v && step_spec(v, reply, now, d).1 is Err,
        w.state is AwaitReply && (<TgsRep as Asn1>::parse(reply) matches Some(r) && (r.pvno != 5 || r.msg_type != 13))
            ==> tgs_step_spec(w, reply, now, d).0 == w && tgs_step_spec(w, reply, now, d).1 is Err,
        krb_error_spec(reply) matches Ok(e) ==> e.pvno == 5 && e.msg_type == 30 && <KrbErrorMsg as Asn1>::parse(reply) == Some(e),
{
}

/// The armor of an exchange: none where FAST is not used; where it is required
/// the armor credential is used at once, else it is kept until the KDC offers
/// FAST.
pub proof fn law_armor_of_exchange(v: AsExchangeV, at_once: bool, now: Moment, d: DrawsV)
    ensures
        ({
            let (w, r) = reset_fast_spec(v, at_once, now, d);
            &&& v.config.fast is Disabled ==> r is Ok && w.fast_state.armor_key is None && !w.fast_state.armor_avail
            &&& !(v.config.fast is Disabled) ==> w.fast_state.armor_avail
            &&& !(v.config.fast is Disabled) && !at_once ==> r is Ok && w.fast_state.armor_key is None
            &&& !(v.config.fast is Disabled) && at_once && r is Ok ==> w.fast_state.armor_key is Some
            &&& w.config == v.config && w.password == v.password
        }),
{
}

/// What a FAST response replaces of a reply: its client and its data, of which
/// none are none; all else stays.
pub proof fn law_response_replaces(rep: KdcRepV, out: Option<FastResponseOutV>)
    ensures
        out is None ==> merged(rep, out) == rep && strengthen_of(out) is None,
        out is Some ==> {
            let r = merged(rep, out);
            &&& r.cname == out->0.client
            &&& r.padata == (if out->0.padata.len() == 0 { None } else { Some(out->0.padata) })
            &&& r.crealm == rep.crealm
            &&& r.ticket == rep.ticket
            &&& r.enc_part == rep.enc_part
            &&& strengthen_of(out) == out->0.strengthen_key
        },
{
}

/// A TGS reply of a KDC without FAST counts as it is; one that is armored as
/// its response says.
pub proof fn law_tgs_response(v: TgsExchangeV, rep: KdcRepV)
    ensures
        ({
            let r = process_response_spec(v.fast_state, rep.padata, rep.ticket);
            &&& r is Ok ==> tgs_fast_spec(v, rep) == r
            &&& r == Err::<Option<FastResponseOutV>, Krb5ErrorV>(Krb5ErrorV::FastRequired) ==> tgs_fast_spec(v, rep) == Ok::<
                Option<FastResponseOutV>,
                Krb5ErrorV,
            >(None)
            &&& r is Err && r->Err_0 != Krb5ErrorV::FastRequired ==> tgs_fast_spec(v, rep) == r
        }),
{
}

/// A mechanism that failed is not tried again: it is noted as failed, and
/// another of the method data is answered, or the KDC's error handed on where
/// there is none.
pub proof fn law_mechanism_failed(v: AsExchangeV, fe: FastErrorV, t: i32, now: Moment, d: DrawsV)
    requires
        fe.err.error_code == 24,
        fe.retry,
        v.preauth_sent,
        v.selected_preauth_type == Some(t),
        !upgrade_spec(v.fast_state, if fe.padata is Some { fe.padata->0 } else { Seq::empty() }),
    ensures
        ({
            let (w, r) = error_step_spec(v, fe, now, d);
            &&& w.preauth_failed == v.preauth_failed.push(t)
            &&& w.preauth_failed.contains(t)
            &&& r is Ok ==> w.preauth_sent && w.selected_preauth_type is Some && w.selected_preauth_type != Some(t)
            &&& r is Err ==> r->Err_0 != Krb5ErrorV::PreauthFailed
        }),
{
    let v1 = AsExchangeV {
        preauth_failed: v.preauth_failed.push(t),
        selected_preauth_type: None,
        preauth_sent: false,
        ..note_spec(v, fe.err.stime, fe.err.susec, now)
    };
    let v2 = with_method(v1, fe.padata);
    assert(v.preauth_failed.push(t)[v.preauth_failed.len() as int] == t);
    reveal(send_preauth_spec);
    reveal(send_spec);
    if v2.method_padata is Some {
        let method = v2.method_padata->0;
        let v3 = learn_spec(v2, method).0;
        law_mechanism_chosen(v3, method);
        assert(choice_spec(v3, method) is Some ==> choice_spec(v3, method)->0 != t);
    }
}

/// An AS reply that is found valid and is under the right key completes the
/// exchange, unless its flags say that its data are protected and they are not.
pub proof fn law_as_completes(v: AsExchangeV, rep: KdcRepV, p: EncKdcRepPartV, as_key: EncryptionKeyV, key: EncryptionKeyV, now: Moment)
    requires
        v.last_req_body is Some,
        as_reply_spec(
            v.nonce,
            v.last_req_body->0,
            rep,
            p,
            v.config.kdc_options & 0x0001_0000 != 0,
            v.config.max_clock_skew,
            stamp_of(now.total()),
        ) is Ok,
        p.flags & 0x0001_0000 == 0,
    ensures
        accept_spec(v, rep, p, as_key, key, now).1 == Ok::<StepResultV, Krb5ErrorV>(StepResultV::Complete),
        accept_spec(v, rep, p, as_key, key, now).0.state == AsState::Complete,
        accept_spec(v, rep, p, as_key, key, now).0.credential is Some,
{
    lemma_bits(v.config.kdc_options);
    lemma_bits(p.flags);
}

/// Which refusal an AS reply gets: that of its nonce before all else, that of
/// a ticket that outlives the request before that of the clock.
pub proof fn law_as_refusals(nonce: u32, body: KdcReqBodyV, rep: KdcRepV, p: EncKdcRepPartV, c: bool, skew: Duration, now: TimeV)
    ensures
        p.nonce != nonce ==> as_reply_spec(nonce, body, rep, p, c, skew, now) == Err::<(), Krb5ErrorV>(
            Krb5ErrorV::ReplyValidation("nonce mismatch"@),
        ),
        p.nonce == nonce && !c && body.cname != Some(rep.cname) ==> as_reply_spec(nonce, body, rep, p, c, skew, now) == Err::<
            (),
            Krb5ErrorV,
        >(Krb5ErrorV::ReplyValidation("client principal mismatch"@)),
        as_reply_spec(nonce, body, rep, p, c, skew, now) == Err::<(), Krb5ErrorV>(Krb5ErrorV::ClockSkew { max_skew: skew })
            ==> p.nonce == nonce && rep.ticket.sname == p.sname && rep.ticket.realm == p.srealm && nanos(p.endtime) <= nanos(
            body.till,
        ),
{
}

/// Method data that an error brings replace those known, and those known stay
/// where it brings none; nothing else changes.
pub proof fn law_method_data_kept(v: AsExchangeV, ps: Seq<PaDataV>)
    ensures
        with_method(v, None) == v,
        with_method(v, Some(ps)) == (AsExchangeV { method_padata: Some(ps), ..v }),
{
}

} // verus!
