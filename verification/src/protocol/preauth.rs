//! Preauthentication data: its types, what a KDC offers, and what a client
//! answers.
use vstd::prelude::*;
use vstd::utf8::encode_utf8;

use crate::asn1::{decode_list, list_parse, Asn1};
use crate::bytes::{append, copy};
use crate::crypto::profile::{opt_seq, s2k_spec, known, string_to_key_with};
use crate::crypto::{find_etype, key_usage};
use crate::der::{list_view, opt_view};
use crate::error::{crypto_err, outcome, Krb5Error, Krb5ErrorV};
use crate::protocol::ap::{seal, seal_spec, Entropy, EntropyV};
use crate::time::{KerberosTime, TimeV};
use crate::types::{EncryptedData, EncryptionKey, EncryptionKeyV, EtypeInfo2Entry, EtypeInfo2EntryV, PaData, PaDataV, PaEncTsEnc, PaEncTsEncV, PaPacRequest, PaPacRequestV, PrincipalName};

verus! {

/// Types of preauthentication data.
pub struct PaDataType;

impl PaDataType {
    /// PA-TGS-REQ.
    pub const TGS_REQ: i32 = 1;
    /// PA-ENC-TIMESTAMP.
    pub const ENC_TIMESTAMP: i32 = 2;
    /// PA-ETYPE-INFO2.
    pub const ETYPE_INFO2: i32 = 19;
    /// PA-PAC-REQUEST.
    pub const PAC_REQUEST: i32 = 128;
    /// PA-FX-COOKIE.
    pub const FX_COOKIE: i32 = 133;
    /// PA-FX-FAST.
    pub const FX_FAST: i32 = 136;
    /// PA-FX-ERROR.
    pub const FX_ERROR: i32 = 137;
    /// PA-ENCRYPTED-CHALLENGE.
    pub const ENCRYPTED_CHALLENGE: i32 = 138;
    /// PA-REQ-ENC-PA-REP.
    pub const REQ_ENC_PA_REP: i32 = 149;
    /// PA-AS-FRESHNESS.
    pub const AS_FRESHNESS: i32 = 150;
    /// PA-PAC-OPTIONS.
    pub const PAC_OPTIONS: i32 = 167;
}

/// Error codes of a KDC.
pub struct ErrorCode;

impl ErrorCode {
    /// KDC_ERR_S_PRINCIPAL_UNKNOWN.
    pub const S_PRINCIPAL_UNKNOWN: i32 = 7;
    /// KDC_ERR_PREAUTH_FAILED.
    pub const PREAUTH_FAILED: i32 = 24;
    /// KDC_ERR_PREAUTH_REQUIRED.
    pub const PREAUTH_REQUIRED: i32 = 25;
    /// KDC_ERR_SVC_UNAVAILABLE.
    pub const SVC_UNAVAILABLE: i32 = 29;
    /// KRB_ERR_RESPONSE_TOO_BIG.
    pub const RESPONSE_TOO_BIG: i32 = 52;
    /// KDC_ERR_WRONG_REALM.
    pub const WRONG_REALM: i32 = 68;
    /// KDC_ERR_PREAUTH_EXPIRED.
    pub const PREAUTH_EXPIRED: i32 = 90;
    /// KDC_ERR_MORE_PREAUTH_DATA_REQUIRED.
    pub const MORE_PREAUTH_DATA_REQUIRED: i32 = 91;
}

/// The first data of a type.
pub open spec fn find_pa(ps: Seq<PaDataV>, t: i32) -> Option<PaDataV>
    decreases ps.len(),
{
    if ps.len() == 0 {
        None
    } else if ps[0].padata_type == t {
        Some(ps[0])
    } else {
        find_pa(ps.drop_first(), t)
    }
}

/// Index of the first data of a type.
pub fn pa_index(ps: &[PaData], t: i32) -> (r: Option<usize>)
    ensures
        match r {
            Some(i) => i < ps.len() && find_pa(list_view(ps@), t) == Some(ps@[i as int]@) && ps@[i as int].padata_type == t,
            None => find_pa(list_view(ps@), t) is None,
        },
{
    let ghost all = list_view(ps@);
    let mut i: usize = 0;
    assert(all.skip(0) =~= all);
    while i < ps.len()
        invariant
            i <= ps@.len(),
            all == list_view(ps@),
            find_pa(all.skip(i as int), t) == find_pa(all, t),
        decreases ps@.len() - i,
    {
        assert(all.skip(i as int).drop_first() =~= all.skip(i + 1));
        assert(all.skip(i as int)[0] == ps@[i as int]@);
        if ps[i].padata_type == t {
            return Some(i);
        }
        i = i + 1;
    }
    assert(all.skip(i as int).len() == 0);
    None
}

/// Whether data of a type is there.
pub fn has_pa(ps: &[PaData], t: i32) -> (r: bool)
    ensures
        r == (find_pa(list_view(ps@), t) is Some),
{
    pa_index(ps, t).is_some()
}

/// The salt of a principal that no other is given for: its realm and its
/// components, one behind the other.
pub open spec fn default_salt_spec(realm: Seq<char>, components: Seq<Seq<u8>>) -> Seq<u8> {
    encode_utf8(realm) + joined_parts(components)
}

/// Components one behind the other.
pub open spec fn joined_parts(cs: Seq<Seq<u8>>) -> Seq<u8>
    decreases cs.len(),
{
    if cs.len() == 0 {
        Seq::empty()
    } else {
        cs[0] + joined_parts(cs.drop_first())
    }
}

/// The salt of a principal that no other is given for.
pub fn default_salt(realm: &str, name: &PrincipalName) -> (r: Vec<u8>)
    ensures
        r@ == default_salt_spec(realm@, name@.name_string),
{
    let ghost cs = name@.name_string;
    let mut out = copy(realm.as_bytes());
    let mut i: usize = 0;
    assert(cs.skip(0) =~= cs);
    while i < name.name_string.len()
        invariant
            i <= name.name_string@.len(),
            cs == list_view(name.name_string@),
            out@ + joined_parts(cs.skip(i as int)) == default_salt_spec(realm@, cs),
        decreases name.name_string@.len() - i,
    {
        let ghost before = out@;
        let c = name.name_string[i].as_bytes();
        append(&mut out, c);
        proof {
            assert(cs.skip(i as int).drop_first() =~= cs.skip(i + 1));
            assert(cs.skip(i as int)[0] == c@);
            assert(out@ + joined_parts(cs.skip(i + 1)) =~= before + joined_parts(cs.skip(i as int)));
        }
        i = i + 1;
    }
    assert(cs.skip(i as int).len() == 0);
    assert(out@ =~= default_salt_spec(realm@, cs));
    out
}

/// What a KDC says of the client's key: its enctype, and where given its salt
/// and parameters.
#[derive(Debug)]
pub struct PreauthHint {
    /// The enctype of the key.
    pub etype: i32,
    /// The salt, if other than the default.
    pub salt: Option<Vec<u8>>,
    /// The string-to-key parameters.
    pub s2kparams: Option<Vec<u8>>,
}

/// Model of [`PreauthHint`].
pub struct PreauthHintV {
    pub etype: i32,
    pub salt: Option<Seq<u8>>,
    pub s2kparams: Option<Seq<u8>>,
}

impl View for PreauthHint {
    type V = PreauthHintV;

    open spec fn view(&self) -> PreauthHintV {
        PreauthHintV { etype: self.etype, salt: opt_view(self.salt), s2kparams: opt_view(self.s2kparams) }
    }
}

/// The first entry for an enctype.
pub open spec fn entry_for(es: Seq<EtypeInfo2EntryV>, etype: i32) -> Option<EtypeInfo2EntryV>
    decreases es.len(),
{
    if es.len() == 0 {
        None
    } else if es[0].etype == etype {
        Some(es[0])
    } else {
        entry_for(es.drop_first(), etype)
    }
}

/// Index of the first entry for an enctype.
pub fn entry_index(es: &[EtypeInfo2Entry], etype: i32) -> (r: Option<usize>)
    ensures
        match r {
            Some(i) => i < es.len() && entry_for(list_view(es@), etype) == Some(es@[i as int]@) && es@[i as int].etype == etype,
            None => entry_for(list_view(es@), etype) is None,
        },
{
    let ghost all = list_view(es@);
    let mut i: usize = 0;
    assert(all.skip(0) =~= all);
    while i < es.len()
        invariant
            i <= es@.len(),
            all == list_view(es@),
            entry_for(all.skip(i as int), etype) == entry_for(all, etype),
        decreases es@.len() - i,
    {
        assert(all.skip(i as int).drop_first() =~= all.skip(i + 1));
        assert(all.skip(i as int)[0] == es@[i as int]@);
        if es[i].etype == etype {
            return Some(i);
        }
        i = i + 1;
    }
    assert(all.skip(i as int).len() == 0);
    None
}

/// The entry for the enctype that the client prefers most.
pub open spec fn preferred_entry(es: Seq<EtypeInfo2EntryV>, etypes: Seq<i32>) -> Option<EtypeInfo2EntryV>
    decreases etypes.len(),
{
    if etypes.len() == 0 {
        None
    } else {
        match entry_for(es, etypes[0]) {
            Some(e) => Some(e),
            None => preferred_entry(es, etypes.drop_first()),
        }
    }
}

/// The hint of an entry.
pub open spec fn hint_of(e: EtypeInfo2EntryV) -> PreauthHintV {
    PreauthHintV { etype: e.etype, salt: e.salt, s2kparams: e.s2kparams }
}

/// The hint in method data: of its PA-ETYPE-INFO2 the entry that the client
/// prefers most.
pub open spec fn hint_spec(ps: Seq<PaDataV>, etypes: Seq<i32>) -> Result<PreauthHintV, Krb5ErrorV> {
    match find_pa(ps, PaDataType::ETYPE_INFO2) {
        None => Err(Krb5ErrorV::ReplyValidation("no PA-ETYPE-INFO2 in preauth data"@)),
        Some(pa) => match list_parse::<EtypeInfo2Entry>(pa.padata_value) {
            None => Err(Krb5ErrorV::Asn1Decode),
            Some(es) => match preferred_entry(es, etypes) {
                None => Err(Krb5ErrorV::NoCommonEtype),
                Some(e) => Ok(hint_of(e)),
            },
        },
    }
}

fn preferred_index(es: &[EtypeInfo2Entry], etypes: &[i32]) -> (r: Option<usize>)
    ensures
        match r {
            Some(i) => i < es.len() && preferred_entry(list_view(es@), etypes@) == Some(es@[i as int]@),
            None => preferred_entry(list_view(es@), etypes@) is None,
        },
{
    let mut k: usize = 0;
    assert(etypes@.skip(0) =~= etypes@);
    while k < etypes.len()
        invariant
            k <= etypes@.len(),
            preferred_entry(list_view(es@), etypes@.skip(k as int)) == preferred_entry(list_view(es@), etypes@),
        decreases etypes@.len() - k,
    {
        assert(etypes@.skip(k as int).drop_first() =~= etypes@.skip(k + 1));
        assert(etypes@.skip(k as int)[0] == etypes@[k as int]);
        let found = entry_index(es, etypes[k]);
        if found.is_some() {
            return found;
        }
        k = k + 1;
    }
    assert(etypes@.skip(k as int).len() == 0);
    None
}

fn salt_bytes(e: &EtypeInfo2Entry) -> (r: Option<Vec<u8>>)
    ensures
        opt_view(r) == e@.salt,
{
    match &e.salt {
        Some(g) => Some(copy(g.as_bytes())),
        None => None,
    }
}

fn param_bytes(e: &EtypeInfo2Entry) -> (r: Option<Vec<u8>>)
    ensures
        opt_view(r) == e@.s2kparams,
{
    match &e.s2kparams {
        Some(b) => Some(copy(b)),
        None => None,
    }
}

/// The hint of an entry.
pub fn entry_hint(e: &EtypeInfo2Entry) -> (r: PreauthHint)
    ensures
        r@ == hint_of(e@),
{
    PreauthHint { etype: e.etype, salt: salt_bytes(e), s2kparams: param_bytes(e) }
}

/// The hint in method data.
pub fn extract_preauth_hint_padata(ps: &[PaData], etypes: &[i32]) -> (r: Result<PreauthHint, Krb5Error>)
    ensures
        outcome(r) == hint_spec(list_view(ps@), etypes@),
{
    let i: usize = match pa_index(ps, PaDataType::ETYPE_INFO2) {
        Some(i) => i,
        None => return Err(Krb5Error::ReplyValidation("no PA-ETYPE-INFO2 in preauth data")),
    };
    let es = match decode_list::<EtypeInfo2Entry>(&ps[i].padata_value) {
        Some(es) => es,
        None => return Err(Krb5Error::Asn1Decode),
    };
    match preferred_index(&es, etypes) {
        Some(k) => Ok(entry_hint(&es[k])),
        None => Err(Krb5Error::NoCommonEtype),
    }
}

/// The client's key: of its password, salt and parameters.
pub open spec fn as_key_spec(etype: i32, password: Seq<u8>, salt: Seq<u8>, params: Option<Seq<u8>>) -> Result<
    EncryptionKeyV,
    Krb5ErrorV,
> {
    if !known(etype) {
        Err(Krb5ErrorV::UnsupportedEtype(etype))
    } else {
        match s2k_spec(etype, password, salt, params) {
            Ok(k) => Ok(EncryptionKeyV { keytype: etype, keyvalue: k }),
            Err(e) => Err(crypto_err(e)),
        }
    }
}

/// The client's key.
pub fn client_key(etype: i32, password: &[u8], salt: &[u8], params: Option<&[u8]>) -> (r: Result<EncryptionKey, Krb5Error>)
    ensures
        outcome(r) == as_key_spec(etype, password@, salt@, opt_seq(params)),
{
    match find_etype(etype) {
        Ok(_) => {},
        Err(_) => return Err(Krb5Error::UnsupportedEtype(etype)),
    }
    match string_to_key_with(etype, password, salt, params) {
        Ok(k) => Ok(EncryptionKey::new(etype, k)),
        Err(e) => Err(Krb5Error::from_crypto(e)),
    }
}

/// A time as it is encrypted for a KDC.
pub open spec fn timestamp_der(ts: TimeV, usec: Option<i32>) -> Seq<u8> {
    <PaEncTsEnc as Asn1>::der(PaEncTsEncV { patimestamp: ts, pausec: usec })
}

/// Data that holds a time encrypted under a key.
pub open spec fn sealed_time(t: i32, key: EncryptionKeyV, usage: i32, ts: TimeV, usec: Option<i32>, env: EntropyV) -> Result<
    PaDataV,
    Krb5ErrorV,
> {
    match seal_spec(key, usage, env.confounder, timestamp_der(ts, usec)) {
        Err(e) => Err(e),
        Ok(d) => Ok(PaDataV { padata_type: t, padata_value: <EncryptedData as Asn1>::der(d) }),
    }
}

/// Whether a KDC that has the key finds the time in the data.
pub open spec fn time_found(pa: PaDataV, key: EncryptionKeyV, usage: i32, ts: TimeV, usec: Option<i32>) -> bool {
    &&& <EncryptedData as Asn1>::parse(pa.padata_value) is Some
    &&& ({
        let d = <EncryptedData as Asn1>::parse(pa.padata_value)->0;
        &&& d.etype == key.keytype
        &&& crate::protocol::ap::open_spec(d.etype, key.keyvalue, usage, d.cipher) is Some
        &&& <PaEncTsEnc as Asn1>::parse(crate::protocol::ap::open_spec(d.etype, key.keyvalue, usage, d.cipher)->0) == Some(
            PaEncTsEncV { patimestamp: ts, pausec: usec },
        )
    })
}

/// Data that holds a time encrypted under a key. Who has the key finds the
/// time in it.
pub fn seal_time(t: i32, key: &EncryptionKey, usage: i32, ts: KerberosTime, usec: Option<i32>, env: &Entropy) -> (r: Result<
    PaData,
    Krb5Error,
>)
    ensures
        outcome(r) == sealed_time(t, key@, usage, ts@, usec, env@),
        r is Ok ==> time_found(r->Ok_0@, key@, usage, ts@, usec),
{
    let inner = PaEncTsEnc { patimestamp: ts, pausec: usec };
    let plain = inner.encode();
    match seal(key, usage, env, &plain) {
        Err(e) => Err(e),
        Ok(d) => Ok(PaData { padata_type: t, padata_value: d.encode() }),
    }
}

/// The encrypted timestamp that a client answers with.
pub open spec fn enc_timestamp_spec(
    password: Seq<u8>,
    salt: Seq<u8>,
    params: Option<Seq<u8>>,
    etype: i32,
    ts: TimeV,
    usec: Option<i32>,
    env: EntropyV,
) -> Result<PaDataV, Krb5ErrorV> {
    match as_key_spec(etype, password, salt, params) {
        Err(e) => Err(e),
        Ok(key) => sealed_time(PaDataType::ENC_TIMESTAMP, key, key_usage::PA_ENC_TIMESTAMP, ts, usec, env),
    }
}

/// Build PA-ENC-TIMESTAMP: the time under the client's key.
pub fn build_pa_enc_timestamp(
    password: &[u8],
    salt: &[u8],
    params: Option<&[u8]>,
    etype: i32,
    ts: KerberosTime,
    usec: Option<i32>,
    env: &Entropy,
) -> (r: Result<PaData, Krb5Error>)
    ensures
        outcome(r) == enc_timestamp_spec(password@, salt@, opt_seq(params), etype, ts@, usec, env@),
        r is Ok ==> as_key_spec(etype, password@, salt@, opt_seq(params)) is Ok && time_found(
            r->Ok_0@,
            as_key_spec(etype, password@, salt@, opt_seq(params))->Ok_0,
            key_usage::PA_ENC_TIMESTAMP,
            ts@,
            usec,
        ),
{
    match client_key(etype, password, salt, params) {
        Err(e) => Err(e),
        Ok(key) => seal_time(PaDataType::ENC_TIMESTAMP, &key, key_usage::PA_ENC_TIMESTAMP, ts, usec, env),
    }
}

/// Data without a value.
pub open spec fn empty_pa(t: i32) -> PaDataV {
    PaDataV { padata_type: t, padata_value: Seq::empty() }
}

/// Build data without a value.
pub fn build_empty_padata(t: i32) -> (r: PaData)
    ensures
        r@ == empty_pa(t),
{
    let r = PaData { padata_type: t, padata_value: Vec::new() };
    assert(r@.padata_value =~= Seq::empty());
    r
}

/// The data that says whether a PAC is wanted.
pub open spec fn pac_request_spec(wanted: bool) -> PaDataV {
    PaDataV {
        padata_type: PaDataType::PAC_REQUEST,
        padata_value: <PaPacRequest as Asn1>::der(PaPacRequestV { pac_wanted: wanted }),
    }
}

/// Build PA-PAC-REQUEST.
pub fn build_pa_pac_request(wanted: bool) -> (r: PaData)
    ensures
        r@ == pac_request_spec(wanted),
{
    let inner = PaPacRequest { pac_wanted: wanted };
    PaData { padata_type: PaDataType::PAC_REQUEST, padata_value: inner.encode() }
}

} // verus!
