//! AS-REP processing and reply validation.
use vstd::prelude::*;
use vstd::utf8::encode_utf8;

use crate::asn1::{decode_list, list_parse, opt_list_view, Asn1, Dup};
use crate::bytes::copy;
use crate::crypto::profile::{cksum_type, known, verify_spec};
use crate::crypto::{find_etype, key_usage, EtypeProfile};
use crate::der::{list_view, opt_view};
use crate::error::{outcome, Krb5Error, Krb5ErrorV};
use crate::protocol::ap::util::has_etype;
use crate::protocol::as_exchange::request::own_salt;
use crate::protocol::as_exchange::{request_kept, AsExchange, AsExchangeV, AsState, StepResult, StepResultV};
use crate::protocol::fast::{kdc_challenge_spec, process_response_spec, reply_key_spec, verify_kdc_challenge, FastResponseOut, FastResponseOutV, FastState};
use crate::protocol::kdc_rep::{credential_from_rep, credential_of, decrypt_enc_kdc_rep_part, decrypt_part_spec, RepKind};
use crate::protocol::preauth::{as_key_spec, client_key, entry_for, entry_hint, entry_index, find_pa, pa_index, PaDataType};
use crate::protocol::validate::{as_reply_spec, validate_as_reply};
use crate::time::{split_nanos, stamp_of, Moment};
use crate::types::names::has_flags;
use crate::types::{Checksum, EncKdcRepPart, EncKdcRepPartV, EncryptionKey, EncryptionKeyV, EtypeInfo2Entry, EtypeInfo2EntryV, KdcOptions, KdcRep, KdcRepV, PaData, PaDataV, TicketFlags};

verus! {

/// A reply with what its FAST response replaces: the client and the data.
pub open spec fn merged(rep: KdcRepV, out: Option<FastResponseOutV>) -> KdcRepV {
    match out {
        None => rep,
        Some(o) => KdcRepV {
            cname: o.client,
            padata: if o.padata.len() == 0 { None } else { Some(o.padata) },
            ..rep
        },
    }
}

/// The strengthen key of a FAST response.
pub open spec fn strengthen_of(out: Option<FastResponseOutV>) -> Option<EncryptionKeyV> {
    match out {
        None => None,
        Some(o) => o.strengthen_key,
    }
}

/// A list of data, empty where there is none.
pub open spec fn listed(ps: Option<Seq<PaDataV>>) -> Seq<PaDataV> {
    match ps {
        Some(ps) => ps,
        None => Seq::empty(),
    }
}

/// The first PA-ETYPE-INFO2 entry for an enctype.
pub open spec fn info_entry(ps: Seq<PaDataV>, etype: i32) -> Option<EtypeInfo2EntryV>
    decreases ps.len(),
{
    if ps.len() == 0 {
        None
    } else {
        let here = if ps[0].padata_type == PaDataType::ETYPE_INFO2 {
            match list_parse::<EtypeInfo2Entry>(ps[0].padata_value) {
                Some(es) => entry_for(es, etype),
                None => None,
            }
        } else {
            None
        };
        match here {
            Some(e) => Some(e),
            None => info_entry(ps.drop_first(), etype),
        }
    }
}

/// The salt and the parameters of the reply key: those in the reply, else
/// those of the preauth hint, else the default salt.
pub open spec fn key_params_spec(v: AsExchangeV, rep: KdcRepV) -> (Seq<u8>, Option<Seq<u8>>) {
    match info_entry(listed(rep.padata), rep.enc_part.etype) {
        Some(e) => (
            match e.salt {
                Some(s) => s,
                None => own_salt(v),
            },
            e.s2kparams,
        ),
        None => match v.last_preauth_salt {
            Some(s) => (s, v.last_s2kparams),
            None => (own_salt(v), v.last_s2kparams),
        },
    }
}

/// Whether a reply with the enc-pa-rep flag proves that the request was not
/// changed: it holds a checksum of the exact last request under the reply
/// key. Gives whether FAST is available.
pub open spec fn nego_spec(sent: Seq<u8>, part: EncKdcRepPartV, key: EncryptionKeyV) -> Result<bool, Krb5ErrorV> {
    match find_pa(listed(part.encrypted_pa_data), PaDataType::REQ_ENC_PA_REP) {
        None => Err(Krb5ErrorV::ReplyValidation("PA-REQ-ENC-PA-REP missing"@)),
        Some(pa) => match <Checksum as Asn1>::parse(pa.padata_value) {
            None => Err(Krb5ErrorV::Asn1Decode),
            Some(sum) => if !known(key.keytype) {
                Err(Krb5ErrorV::UnsupportedEtype(key.keytype))
            } else if sum.cksumtype != cksum_type(key.keytype) {
                Err(Krb5ErrorV::Crypto("checksum type does not match reply key enctype"@))
            } else if verify_spec(key.keytype, key.keyvalue, key_usage::AS_REQ, sent, sum.checksum) is Err {
                Err(Krb5ErrorV::ReplyValidation("PA-REQ-ENC-PA-REP checksum mismatch"@))
            } else {
                Ok(find_pa(listed(part.encrypted_pa_data), PaDataType::FX_FAST) is Some)
            },
        },
    }
}

/// Whether the KDC is verified by an encrypted challenge, if there is one.
pub open spec fn challenge_verified(v: AsExchangeV, rep: KdcRepV, as_key: EncryptionKeyV) -> bool {
    match (v.fast_state.armor_key, find_pa(listed(rep.padata), PaDataType::ENCRYPTED_CHALLENGE)) {
        (Some(armor), Some(pa)) => kdc_challenge_spec(armor, as_key, pa.padata_value) is Ok,
        _ => v.kdc_verified,
    }
}

/// The keys of a reply: the client's, and the one the reply is under.
pub open spec fn reply_keys_spec(v: AsExchangeV, rep: KdcRepV, strengthen: Option<EncryptionKeyV>) -> Result<
    (EncryptionKeyV, EncryptionKeyV),
    Krb5ErrorV,
> {
    let (salt, params) = key_params_spec(v, rep);
    match as_key_spec(rep.enc_part.etype, encode_utf8(v.password), salt, params) {
        Err(e) => Err(e),
        Ok(as_key) => match reply_key_spec(strengthen, as_key) {
            Err(e) => Err(e),
            Ok(k) => Ok((as_key, k)),
        },
    }
}

/// The part of processing a reply that follows the decryption of its
/// enc-part.
pub open spec fn accept_spec(
    v: AsExchangeV,
    rep: KdcRepV,
    part: EncKdcRepPartV,
    as_key: EncryptionKeyV,
    reply_key: EncryptionKeyV,
    now: Moment,
) -> (AsExchangeV, Result<StepResultV, Krb5ErrorV>) {
    match v.last_req_body {
        None => (v, Err(Krb5ErrorV::ReplyValidation("no request body saved"@))),
        Some(body) => match as_reply_spec(
            v.nonce,
            body,
            rep,
            part,
            has_flags(v.config.kdc_options, KdcOptions::CANONICALIZE),
            v.config.max_clock_skew,
            stamp_of(now.total()),
        ) {
            Err(e) => (v, Err(e)),
            Ok(()) => {
                let flagged = has_flags(part.flags, TicketFlags::ENC_PA_REP);
                let nego = nego_spec(v.last_req_bytes, part, reply_key);
                if flagged && nego is Err {
                    (v, Err(nego->Err_0))
                } else {
                    (
                        AsExchangeV {
                            fast_avail: if flagged { nego->Ok_0 } else { v.fast_avail },
                            kdc_verified: challenge_verified(v, rep, as_key),
                            credential: Some(credential_of(rep, part)),
                            state: AsState::Complete,
                            ..v
                        },
                        Ok(StepResultV::Complete),
                    )
                }
            },
        },
    }
}

/// What an AS-REP does to the exchange and gives.
pub open spec fn as_rep_spec(v: AsExchangeV, rep: KdcRepV, now: Moment) -> (AsExchangeV, Result<StepResultV, Krb5ErrorV>) {
    if !v.config.etypes.contains(rep.enc_part.etype) {
        (v, Err(Krb5ErrorV::ReplyValidation("reply enctype was not requested"@)))
    } else {
        match process_response_spec(v.fast_state, rep.padata, rep.ticket) {
            Err(e) => (v, Err(e)),
            Ok(out) => {
                let rep1 = merged(rep, out);
                match reply_keys_spec(v, rep1, strengthen_of(out)) {
                    Err(e) => (v, Err(e)),
                    Ok((as_key, reply_key)) => match decrypt_part_spec(
                        seq![(reply_key, key_usage::AS_REP_ENCPART)],
                        rep1.enc_part,
                        RepKind::As,
                    ) {
                        Err(e) => (v, Err(e)),
                        Ok(part) => accept_spec(v, rep1, part, as_key, reply_key, now),
                    },
                }
            },
        }
    }
}

fn find_entry(ps: &[PaData], etype: i32) -> (r: Option<EtypeInfo2Entry>)
    ensures
        opt_view(r) == info_entry(list_view(ps@), etype),
{
    let ghost all = list_view(ps@);
    let mut i: usize = 0;
    assert(all.skip(0) =~= all);
    while i < ps.len()
        invariant
            i <= ps@.len(),
            all == list_view(ps@),
            info_entry(all.skip(i as int), etype) == info_entry(all, etype),
        decreases ps@.len() - i,
    {
        assert(all.skip(i as int).drop_first() =~= all.skip(i + 1));
        assert(all.skip(i as int)[0] == ps@[i as int]@);
        if ps[i].padata_type == PaDataType::ETYPE_INFO2 {
            match decode_list::<EtypeInfo2Entry>(&ps[i].padata_value) {
                Some(es) => match entry_index(&es, etype) {
                    Some(k) => return Some(es[k].dup()),
                    None => {},
                },
                None => {},
            }
        }
        i = i + 1;
    }
    assert(all.skip(i as int).len() == 0);
    None
}

fn find_in_opt(ps: &Option<Vec<PaData>>, t: i32) -> (r: Option<PaData>)
    ensures
        opt_view(r) == find_pa(listed(opt_list_view(*ps)), t),
{
    match ps {
        Some(ps) => match pa_index(ps, t) {
            Some(i) => Some(ps[i].dup()),
            None => None,
        },
        None => None,
    }
}

/// A reply with what its FAST response replaces, and the strengthen key.
pub fn merge_response(rep: KdcRep, out: Option<FastResponseOut>) -> (r: (KdcRep, Option<EncryptionKey>))
    ensures
        r.0@ == merged(rep@, opt_view(out)),
        opt_view(r.1) == strengthen_of(opt_view(out)),
{
    match out {
        None => (rep, None),
        Some(o) => {
            let padata = if o.padata.len() == 0 { None } else { Some(o.padata) };
            (
                KdcRep {
                    pvno: rep.pvno,
                    msg_type: rep.msg_type,
                    padata,
                    crealm: rep.crealm,
                    cname: o.client,
                    ticket: rep.ticket,
                    enc_part: rep.enc_part,
                },
                o.strengthen_key,
            )
        },
    }
}

fn check_nego(sent: &[u8], part: &EncKdcRepPart, key: &EncryptionKey) -> (r: Result<bool, Krb5Error>)
    ensures
        outcome(r) == nego_spec(sent@, part@, key@),
{
    let pa = match find_in_opt(&part.encrypted_pa_data, PaDataType::REQ_ENC_PA_REP) {
        Some(pa) => pa,
        None => return Err(Krb5Error::ReplyValidation("PA-REQ-ENC-PA-REP missing")),
    };
    let sum = match <Checksum as Asn1>::decode(&pa.padata_value) {
        Some(s) => s,
        None => return Err(Krb5Error::Asn1Decode),
    };
    let profile = match find_etype(key.keytype) {
        Ok(p) => p,
        Err(_) => return Err(Krb5Error::UnsupportedEtype(key.keytype)),
    };
    if sum.cksumtype != profile.checksum_type() {
        return Err(Krb5Error::Crypto(crate::text::owned("checksum type does not match reply key enctype")));
    }
    match profile.verify_checksum(key.key_bytes(), key_usage::AS_REQ, sent, &sum.checksum) {
        Ok(()) => {},
        Err(_) => return Err(Krb5Error::ReplyValidation("PA-REQ-ENC-PA-REP checksum mismatch")),
    }
    Ok(find_in_opt(&part.encrypted_pa_data, PaDataType::FX_FAST).is_some())
}

impl AsExchange {
    /// Salt and s2kparams for reply key derivation.
    ///
    /// Tries AS-REP padata first (PA-ETYPE-INFO2), then falls back to
    /// persisted preauth hint values, then default salt.
    fn compute_reply_key_params(&self, rep: &KdcRep) -> (r: (Vec<u8>, Option<Vec<u8>>))
        ensures
            (r.0@, opt_view(r.1)) == key_params_spec(self@, rep@),
    {
        let entry = match &rep.padata {
            Some(ps) => find_entry(ps, rep.enc_part.etype),
            None => None,
        };
        match entry {
            Some(e) => {
                let hint = entry_hint(&e);
                let salt = match hint.salt {
                    Some(s) => s,
                    None => self.default_salt(),
                };
                (salt, hint.s2kparams)
            },
            None => {
                let params = match &self.last_s2kparams {
                    Some(p) => Some(copy(p)),
                    None => None,
                };
                match &self.last_preauth_salt {
                    Some(s) => (copy(s), params),
                    None => (self.default_salt(), params),
                }
            },
        }
    }

    fn reply_keys(&self, rep: &KdcRep, strengthen: &Option<EncryptionKey>) -> (r: Result<(EncryptionKey, EncryptionKey), Krb5Error>)
        ensures
            outcome(r) == reply_keys_spec(self@, rep@, opt_view(*strengthen)),
    {
        let (salt, params) = self.compute_reply_key_params(rep);
        let params = match &params {
            Some(p) => Some(p.as_slice()),
            None => None,
        };
        let as_key = match client_key(rep.enc_part.etype, self.password.as_str().as_bytes(), &salt, params) {
            Ok(k) => k,
            Err(e) => return Err(e),
        };
        let strengthen = match strengthen {
            Some(k) => Some(k),
            None => None,
        };
        match FastState::reply_key(strengthen, &as_key) {
            Ok(k) => Ok((as_key, k)),
            Err(e) => Err(e),
        }
    }

    fn challenge_outcome(&self, rep: &KdcRep, as_key: &EncryptionKey) -> (r: bool)
        ensures
            r == challenge_verified(self@, rep@, as_key@),
    {
        match (self.fast_state.armor_key(), find_in_opt(&rep.padata, PaDataType::ENCRYPTED_CHALLENGE)) {
            (Some(armor), Some(pa)) => verify_kdc_challenge(armor, as_key, &pa.padata_value).is_ok(),
            _ => self.kdc_verified,
        }
    }

    /// Accepts a reply whose enc-part is decrypted.
    pub fn accept_reply(&mut self, rep: &KdcRep, part: &EncKdcRepPart, as_key: &EncryptionKey, reply_key: &EncryptionKey, now: Moment) -> (r:
        Result<StepResult, Krb5Error>)
        ensures
            (final(self)@, outcome(r)) == accept_spec(old(self)@, rep@, part@, as_key@, reply_key@, now),
    {
        let (stamp, _) = split_nanos(now.total_nanos());
        let canonicalize = self.config.kdc_options.contains(KdcOptions::CANONICALIZE);
        match &self.last_req_body {
            None => return Err(Krb5Error::ReplyValidation("no request body saved")),
            Some(body) => match validate_as_reply(
                self.nonce,
                body,
                rep,
                part,
                canonicalize,
                self.config.max_clock_skew,
                stamp,
            ) {
                Ok(()) => {},
                Err(e) => return Err(e),
            },
        }
        let verified = self.challenge_outcome(rep, as_key);
        if part.flags.contains(TicketFlags::ENC_PA_REP) {
            match check_nego(&self.last_req_bytes, part, reply_key) {
                Ok(avail) => self.fast_avail = avail,
                Err(e) => return Err(e),
            }
        }
        self.kdc_verified = verified;
        self.credential = Some(credential_from_rep(rep, part));
        self.state = AsState::Complete;
        Ok(StepResult::Complete)
    }

    /// Process a successful AS-REP: decrypt enc-part, validate, build
    /// credential.
    pub(super) fn process_as_rep(&mut self, rep: KdcRep, now: Moment) -> (r: Result<StepResult, Krb5Error>)
        ensures
            (final(self)@, outcome(r)) == as_rep_spec(old(self)@, rep@, now),
            request_kept(final(self)@, outcome(r)),
    {
        if !has_etype(&self.config.etypes, rep.enc_part.etype) {
            return Err(Krb5Error::ReplyValidation("reply enctype was not requested"));
        }
        let padata = match &rep.padata {
            Some(ps) => Some(ps.as_slice()),
            None => None,
        };
        let out = match self.fast_state.process_response(padata, &rep.ticket) {
            Ok(o) => o,
            Err(e) => return Err(e),
        };
        let (rep, strengthen) = merge_response(rep, out);
        let (as_key, reply_key) = match self.reply_keys(&rep, &strengthen) {
            Ok(x) => x,
            Err(e) => return Err(e),
        };
        let mut candidates: Vec<(EncryptionKey, i32)> = Vec::new();
        candidates.push((reply_key.dup(), key_usage::AS_REP_ENCPART));
        assert(list_view(candidates@) =~= seq![(reply_key@, key_usage::AS_REP_ENCPART)]);
        let part = match decrypt_enc_kdc_rep_part(&candidates, &rep.enc_part, RepKind::As) {
            Ok(p) => p,
            Err(e) => return Err(e),
        };
        self.accept_reply(&rep, &part, &as_key, &reply_key, now)
    }
}

} // verus!
