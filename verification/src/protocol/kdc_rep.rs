//! Shared KDC reply helpers for the AS and TGS state machines: KRB-ERROR
//! decode checks and enc-part decrypt and decode.
use vstd::prelude::*;

use crate::asn1::{dup_opt_list, Asn1, Dup};
use crate::crypto::find_etype;
use crate::crypto::profile::known;
use crate::der::list_view;
use crate::error::{outcome, Krb5Error, Krb5ErrorV};
use crate::protocol::ap::{open_sealed, open_spec};
use crate::protocol::credential::{Credential, CredentialV, TicketTimes, TicketTimesV};
use crate::text::{lossy, utf8_lossy};
use crate::types::{EncAsRepPart, EncKdcRepPart, EncKdcRepPartV, EncTgsRepPart, EncryptedData, EncryptedDataV, EncryptionKey, EncryptionKeyV, KdcRep, KdcRepV, KrbErrorMsg, KrbErrorMsgV};

verus! {

/// What decoding a KRB-ERROR returns.
pub open spec fn krb_error_spec(bytes: Seq<u8>) -> Result<KrbErrorMsgV, Krb5ErrorV> {
    match <KrbErrorMsg as Asn1>::parse(bytes) {
        None => Err(Krb5ErrorV::Asn1Decode),
        Some(e) => if e.pvno != 5 || e.msg_type != 30 {
            Err(Krb5ErrorV::ReplyValidation("invalid KRB-ERROR pvno/msg_type"@))
        } else {
            Ok(e)
        },
    }
}

/// Decode a KRB-ERROR, checking pvno/msg-type.
pub fn decode_krb_error(bytes: &[u8]) -> (r: Result<KrbErrorMsg, Krb5Error>)
    ensures
        outcome(r) == krb_error_spec(bytes@),
{
    match <KrbErrorMsg as Asn1>::decode(bytes) {
        None => Err(Krb5Error::Asn1Decode),
        Some(e) => {
            if e.pvno != 5 || e.msg_type != 30 {
                return Err(Krb5Error::ReplyValidation("invalid KRB-ERROR pvno/msg_type"));
            }
            Ok(e)
        },
    }
}

/// Which exchange a reply belongs to.
#[derive(Debug, Clone, Copy, PartialEq, Eq, Structural)]
pub enum RepKind {
    /// AS-REP.
    As,
    /// TGS-REP.
    Tgs,
}

/// The enc-part that plaintext stands for: of an AS-REP, EncAsRepPart or
/// EncTgsRepPart, which some KDCs use; of a TGS-REP, EncTgsRepPart or the
/// bare part.
pub open spec fn enc_part_spec(kind: RepKind, plain: Seq<u8>) -> Option<EncKdcRepPartV> {
    match kind {
        RepKind::As => match <EncAsRepPart as Asn1>::parse(plain) {
            Some(p) => Some(p),
            None => <EncTgsRepPart as Asn1>::parse(plain),
        },
        RepKind::Tgs => match <EncTgsRepPart as Asn1>::parse(plain) {
            Some(p) => Some(p),
            None => <EncKdcRepPart as Asn1>::parse(plain),
        },
    }
}

/// What decoding an enc-part returns.
pub open spec fn enc_part_outcome(kind: RepKind, plain: Seq<u8>) -> Result<EncKdcRepPartV, Krb5ErrorV> {
    match enc_part_spec(kind, plain) {
        Some(p) => Ok(p),
        None => Err(Krb5ErrorV::Asn1Decode),
    }
}

/// Decode an AS-REP enc-part: EncAsRepPart [APPLICATION 25], then
/// EncTgsRepPart [APPLICATION 26] (some KDCs use 26 for AS-REP).
pub fn decode_enc_as_rep_part(plaintext: &[u8]) -> (r: Result<EncKdcRepPart, Krb5Error>)
    ensures
        outcome(r) == enc_part_outcome(RepKind::As, plaintext@),
{
    match <EncAsRepPart as Asn1>::decode(plaintext) {
        Some(p) => return Ok(p.0),
        None => {},
    }
    match <EncTgsRepPart as Asn1>::decode(plaintext) {
        Some(p) => Ok(p.0),
        None => Err(Krb5Error::Asn1Decode),
    }
}

/// Decode a TGS-REP enc-part: EncTgsRepPart [APPLICATION 26], then a bare
/// `EncKdcRepPart`.
pub fn decode_enc_tgs_rep_part(plaintext: &[u8]) -> (r: Result<EncKdcRepPart, Krb5Error>)
    ensures
        outcome(r) == enc_part_outcome(RepKind::Tgs, plaintext@),
{
    match <EncTgsRepPart as Asn1>::decode(plaintext) {
        Some(p) => return Ok(p.0),
        None => {},
    }
    match <EncKdcRepPart as Asn1>::decode(plaintext) {
        Some(p) => Ok(p),
        None => Err(Krb5Error::Asn1Decode),
    }
}

/// What one key gives of an enc-part.
pub open spec fn try_key(key: EncryptionKeyV, usage: i32, data: EncryptedDataV, kind: RepKind) -> Result<
    EncKdcRepPartV,
    Krb5ErrorV,
> {
    match open_spec(data.etype, key.keyvalue, usage, data.cipher) {
        None => Err(Krb5ErrorV::DecryptionFailed),
        Some(p) => enc_part_outcome(kind, p),
    }
}

/// What keys give of an enc-part, in their order: the first part that
/// decrypts and decodes, or the error of the last key.
pub open spec fn try_keys(keys: Seq<(EncryptionKeyV, i32)>, data: EncryptedDataV, kind: RepKind, last: Krb5ErrorV) -> Result<
    EncKdcRepPartV,
    Krb5ErrorV,
>
    decreases keys.len(),
{
    if keys.len() == 0 {
        Err(last)
    } else {
        match try_key(keys[0].0, keys[0].1, data, kind) {
            Ok(p) => Ok(p),
            Err(e) => try_keys(keys.drop_first(), data, kind, e),
        }
    }
}

/// What decrypting an enc-part returns.
pub open spec fn decrypt_part_spec(keys: Seq<(EncryptionKeyV, i32)>, data: EncryptedDataV, kind: RepKind) -> Result<
    EncKdcRepPartV,
    Krb5ErrorV,
> {
    if !known(data.etype) {
        Err(Krb5ErrorV::UnsupportedEtype(data.etype))
    } else {
        try_keys(keys, data, kind, Krb5ErrorV::DecryptionFailed)
    }
}

fn decode_part(kind: RepKind, plain: &[u8]) -> (r: Result<EncKdcRepPart, Krb5Error>)
    ensures
        outcome(r) == enc_part_outcome(kind, plain@),
{
    match kind {
        RepKind::As => decode_enc_as_rep_part(plain),
        RepKind::Tgs => decode_enc_tgs_rep_part(plain),
    }
}

/// Decrypt a KDC-REP enc-part trying each `(key, usage)` candidate in order;
/// the first candidate whose plaintext decodes wins.
///
/// AS uses a single candidate (reply key, usage 3); TGS tries the subkey
/// (usage 9) then the TGT session key (usage 8).
pub fn decrypt_enc_kdc_rep_part(key_usages: &[(EncryptionKey, i32)], enc_part: &EncryptedData, kind: RepKind) -> (r: Result<
    EncKdcRepPart,
    Krb5Error,
>)
    ensures
        outcome(r) == decrypt_part_spec(list_view(key_usages@), enc_part@, kind),
{
    let etype: i32 = enc_part.etype;
    match find_etype(etype) {
        Ok(_) => {},
        Err(_) => return Err(Krb5Error::UnsupportedEtype(etype)),
    }
    let ghost ks = list_view(key_usages@);
    let mut last = Krb5Error::DecryptionFailed;
    let mut i: usize = 0;
    assert(ks.skip(0) =~= ks);
    while i < key_usages.len()
        invariant
            i <= key_usages@.len(),
            ks == list_view(key_usages@),
            etype == enc_part@.etype,
            known(etype),
            try_keys(ks, enc_part@, kind, Krb5ErrorV::DecryptionFailed) == try_keys(
                ks.skip(i as int),
                enc_part@,
                kind,
                last@,
            ),
        decreases key_usages@.len() - i,
    {
        assert(ks.skip(i as int).drop_first() =~= ks.skip(i + 1));
        assert(ks.skip(i as int)[0] == key_usages@[i as int]@);
        let (key, usage) = &key_usages[i];
        match open_sealed(etype, key.key_bytes(), *usage, &enc_part.cipher) {
            Some(plain) => match decode_part(kind, &plain) {
                Ok(part) => return Ok(part),
                Err(e) => last = e,
            },
            None => last = Krb5Error::DecryptionFailed,
        }
        i = i + 1;
    }
    assert(ks.skip(i as int).len() == 0);
    Err(last)
}

/// The client's credential in a decoded KDC-REP and its decrypted enc-part.
pub open spec fn credential_of(rep: KdcRepV, part: EncKdcRepPartV) -> CredentialV {
    CredentialV {
        client: rep.cname,
        crealm: utf8_lossy(rep.crealm),
        server: part.sname,
        srealm: utf8_lossy(part.srealm),
        session_key: part.key,
        times: TicketTimesV {
            authtime: part.authtime,
            starttime: part.starttime,
            endtime: part.endtime,
            renew_till: part.renew_till,
        },
        ticket: rep.ticket,
        flags: part.flags,
        addresses: part.caddr,
        authdata: None,
    }
}

/// Build a client `Credential` from a decoded KDC-REP and its decrypted
/// enc-part — identical for AS-REP and TGS-REP.
pub fn credential_from_rep(rep: &KdcRep, enc_part: &EncKdcRepPart) -> (r: Credential)
    ensures
        r@ == credential_of(rep@, enc_part@),
{
    Credential {
        client: rep.cname.dup(),
        crealm: lossy(rep.crealm.as_bytes()),
        server: enc_part.sname.dup(),
        srealm: lossy(enc_part.srealm.as_bytes()),
        session_key: enc_part.key.dup(),
        times: TicketTimes {
            authtime: enc_part.authtime,
            starttime: enc_part.starttime,
            endtime: enc_part.endtime,
            renew_till: enc_part.renew_till,
        },
        ticket: rep.ticket.dup(),
        flags: enc_part.flags,
        addresses: dup_opt_list(&enc_part.caddr),
        authdata: None,
    }
}

} // verus!
