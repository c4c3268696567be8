//! FAST.
use vstd::prelude::*;

use crate::asn1::{der_of_time, dup_list, dup_opt, encode_list, list_der, opt, opt_der, put_opt, put_time, req, req_list, req_time, take_opt, take_req, take_req_list, take_req_time, Asn1, BitOctets, Dup, GeneralString};
use crate::der::{fields_view, lemma_untag, list_view, make_sequence, make_tlv, opt_view, parse_sequence, sequence, sequence_fields, strip_tag, tlv, untag};
use crate::time::{KerberosTime, TimeV};
use crate::types::common::{Checksum, ChecksumV, EncryptedData, EncryptedDataV, EncryptionKey, EncryptionKeyV, PaData, PaDataV, PrincipalName, PrincipalNameV};
use crate::types::kdc::{KdcReqBody, KdcReqBodyV};

verus! {

/// FAST armor.
#[derive(Debug, Clone)]
pub struct KrbFastArmor {
    /// Armor type.
    pub armor_type: i32,
    /// Armor octets.
    pub armor_value: Vec<u8>,
}

/// Model of [`KrbFastArmor`].
pub struct KrbFastArmorV {
    pub armor_type: i32,
    pub armor_value: Seq<u8>,
}

impl View for KrbFastArmor {
    type V = KrbFastArmorV;

    open spec fn view(&self) -> KrbFastArmorV {
        KrbFastArmorV {
            armor_type: self.armor_type@,
            armor_value: self.armor_value@,
        }
    }
}

impl Dup for KrbFastArmor {
    fn dup(&self) -> (r: Self) {
        KrbFastArmor {
            armor_type: self.armor_type,
            armor_value: self.armor_value.dup(),
        }
    }
}

/// The tagged fields of a [`KrbFastArmor`].
#[verifier::opaque]
pub open spec fn krb_fast_armor_fields(v: KrbFastArmorV) -> Seq<Option<Seq<u8>>> {
    seq![
        Some(<i32 as Asn1>::der(v.armor_type)),
        Some(<Vec<u8> as Asn1>::der(v.armor_value)),
    ]
}

/// The [`KrbFastArmor`] of tagged fields.
#[verifier::opaque]
pub open spec fn krb_fast_armor_of(f: Seq<Option<Seq<u8>>>) -> Option<KrbFastArmorV> {
    let armor_type = req::<i32>(f[0]);
    let armor_value = req::<Vec<u8>>(f[1]);
    if armor_type is Some && armor_value is Some {
        Some(KrbFastArmorV { armor_type: armor_type->0, armor_value: armor_value->0 })
    } else {
        None
    }
}

impl Asn1 for KrbFastArmor {
    open spec fn der(v: KrbFastArmorV) -> Seq<u8> {
        sequence(krb_fast_armor_fields(v))
    }

    open spec fn parse(s: Seq<u8>) -> Option<KrbFastArmorV> {
        match sequence_fields(s, 2) {
            Some(f) => krb_fast_armor_of(f),
            None => None,
        }
    }

    fn encode(&self) -> (r: Vec<u8>) {
        proof {
            reveal(krb_fast_armor_fields);
            reveal(krb_fast_armor_of);
        }
        let mut fs: Vec<Option<Vec<u8>>> = Vec::new();
        fs.push(Some(self.armor_type.encode()));
        fs.push(Some(self.armor_value.encode()));
        assert(fields_view(fs@) =~= krb_fast_armor_fields(self@));
        assert(krb_fast_armor_of(fields_view(fs@)) == Some(self@));
        make_sequence(&fs)
    }

    fn decode(s: &[u8]) -> (r: Option<KrbFastArmor>) {
        proof {
            reveal(krb_fast_armor_of);
        }
        let fs = match parse_sequence(s, 2) {
            Some(fs) => fs,
            None => return None,
        };
        let armor_type: i32 = match take_req::<i32>(&fs[0]) {
            Some(x) => x,
            None => return None,
        };
        let armor_value = match take_req::<Vec<u8>>(&fs[1]) {
            Some(x) => x,
            None => return None,
        };
        Some(KrbFastArmor { armor_type, armor_value })
    }
}

/// An armored FAST request.
#[derive(Debug, Clone)]
pub struct KrbFastArmoredReq {
    /// The armor.
    pub armor: Option<KrbFastArmor>,
    /// Checksum of the outer request.
    pub req_checksum: Checksum,
    /// The encrypted request.
    pub enc_fast_req: EncryptedData,
}

/// Model of [`KrbFastArmoredReq`].
pub struct KrbFastArmoredReqV {
    pub armor: Option<KrbFastArmorV>,
    pub req_checksum: ChecksumV,
    pub enc_fast_req: EncryptedDataV,
}

impl View for KrbFastArmoredReq {
    type V = KrbFastArmoredReqV;

    open spec fn view(&self) -> KrbFastArmoredReqV {
        KrbFastArmoredReqV {
            armor: opt_view(self.armor),
            req_checksum: self.req_checksum@,
            enc_fast_req: self.enc_fast_req@,
        }
    }
}

impl Dup for KrbFastArmoredReq {
    fn dup(&self) -> (r: Self) {
        KrbFastArmoredReq {
            armor: dup_opt(&self.armor),
            req_checksum: self.req_checksum.dup(),
            enc_fast_req: self.enc_fast_req.dup(),
        }
    }
}

/// The tagged fields of a [`KrbFastArmoredReq`].
#[verifier::opaque]
pub open spec fn krb_fast_armored_req_fields(v: KrbFastArmoredReqV) -> Seq<Option<Seq<u8>>> {
    seq![
        opt_der::<KrbFastArmor>(v.armor),
        Some(<Checksum as Asn1>::der(v.req_checksum)),
        Some(<EncryptedData as Asn1>::der(v.enc_fast_req)),
    ]
}

/// The [`KrbFastArmoredReq`] of tagged fields.
#[verifier::opaque]
pub open spec fn krb_fast_armored_req_of(f: Seq<Option<Seq<u8>>>) -> Option<KrbFastArmoredReqV> {
    let armor = opt::<KrbFastArmor>(f[0]);
    let req_checksum = req::<Checksum>(f[1]);
    let enc_fast_req = req::<EncryptedData>(f[2]);
    if armor is Some && req_checksum is Some && enc_fast_req is Some {
        Some(KrbFastArmoredReqV { armor: armor->0, req_checksum: req_checksum->0, enc_fast_req: enc_fast_req->0 })
    } else {
        None
    }
}

impl Asn1 for KrbFastArmoredReq {
    open spec fn der(v: KrbFastArmoredReqV) -> Seq<u8> {
        sequence(krb_fast_armored_req_fields(v))
    }

    open spec fn parse(s: Seq<u8>) -> Option<KrbFastArmoredReqV> {
        match sequence_fields(s, 3) {
            Some(f) => krb_fast_armored_req_of(f),
            None => None,
        }
    }

    fn encode(&self) -> (r: Vec<u8>) {
        proof {
            reveal(krb_fast_armored_req_fields);
            reveal(krb_fast_armored_req_of);
        }
        let mut fs: Vec<Option<Vec<u8>>> = Vec::new();
        fs.push(put_opt(&self.armor));
        fs.push(Some(self.req_checksum.encode()));
        fs.push(Some(self.enc_fast_req.encode()));
        assert(fields_view(fs@) =~= krb_fast_armored_req_fields(self@));
        assert(krb_fast_armored_req_of(fields_view(fs@)) == Some(self@));
        make_sequence(&fs)
    }

    fn decode(s: &[u8]) -> (r: Option<KrbFastArmoredReq>) {
        proof {
            reveal(krb_fast_armored_req_of);
        }
        let fs = match parse_sequence(s, 3) {
            Some(fs) => fs,
            None => return None,
        };
        let armor = match take_opt::<KrbFastArmor>(&fs[0]) {
            Some(x) => x,
            None => return None,
        };
        let req_checksum = match take_req::<Checksum>(&fs[1]) {
            Some(x) => x,
            None => return None,
        };
        let enc_fast_req = match take_req::<EncryptedData>(&fs[2]) {
            Some(x) => x,
            None => return None,
        };
        Some(KrbFastArmoredReq { armor, req_checksum, enc_fast_req })
    }
}

/// A FAST request.
#[derive(Debug, Clone)]
pub struct KrbFastReq {
    /// FAST options.
    pub fast_options: BitOctets,
    /// Inner pre-authentication data.
    pub padata: Vec<PaData>,
    /// The inner body.
    pub req_body: KdcReqBody,
}

/// Model of [`KrbFastReq`].
pub struct KrbFastReqV {
    pub fast_options: Seq<u8>,
    pub padata: Seq<PaDataV>,
    pub req_body: KdcReqBodyV,
}

impl View for KrbFastReq {
    type V = KrbFastReqV;

    open spec fn view(&self) -> KrbFastReqV {
        KrbFastReqV {
            fast_options: self.fast_options@,
            padata: list_view(self.padata@),
            req_body: self.req_body@,
        }
    }
}

impl Dup for KrbFastReq {
    fn dup(&self) -> (r: Self) {
        KrbFastReq {
            fast_options: self.fast_options.dup(),
            padata: dup_list(&self.padata),
            req_body: self.req_body.dup(),
        }
    }
}

/// The tagged fields of a [`KrbFastReq`].
#[verifier::opaque]
pub open spec fn krb_fast_req_fields(v: KrbFastReqV) -> Seq<Option<Seq<u8>>> {
    seq![
        Some(<BitOctets as Asn1>::der(v.fast_options)),
        Some(list_der::<PaData>(v.padata)),
        Some(<KdcReqBody as Asn1>::der(v.req_body)),
    ]
}

/// The [`KrbFastReq`] of tagged fields.
#[verifier::opaque]
pub open spec fn krb_fast_req_of(f: Seq<Option<Seq<u8>>>) -> Option<KrbFastReqV> {
    let fast_options = req::<BitOctets>(f[0]);
    let padata = req_list::<PaData>(f[1]);
    let req_body = req::<KdcReqBody>(f[2]);
    if fast_options is Some && padata is Some && req_body is Some {
        Some(KrbFastReqV { fast_options: fast_options->0, padata: padata->0, req_body: req_body->0 })
    } else {
        None
    }
}

impl Asn1 for KrbFastReq {
    open spec fn der(v: KrbFastReqV) -> Seq<u8> {
        sequence(krb_fast_req_fields(v))
    }

    open spec fn parse(s: Seq<u8>) -> Option<KrbFastReqV> {
        match sequence_fields(s, 3) {
            Some(f) => krb_fast_req_of(f),
            None => None,
        }
    }

    fn encode(&self) -> (r: Vec<u8>) {
        proof {
            reveal(krb_fast_req_fields);
            reveal(krb_fast_req_of);
        }
        let mut fs: Vec<Option<Vec<u8>>> = Vec::new();
        fs.push(Some(self.fast_options.encode()));
        fs.push(Some(encode_list(&self.padata)));
        fs.push(Some(self.req_body.encode()));
        assert(fields_view(fs@) =~= krb_fast_req_fields(self@));
        assert(krb_fast_req_of(fields_view(fs@)) == Some(self@));
        make_sequence(&fs)
    }

    fn decode(s: &[u8]) -> (r: Option<KrbFastReq>) {
        proof {
            reveal(krb_fast_req_of);
        }
        let fs = match parse_sequence(s, 3) {
            Some(fs) => fs,
            None => return None,
        };
        let fast_options = match take_req::<BitOctets>(&fs[0]) {
            Some(x) => x,
            None => return None,
        };
        let padata = match take_req_list::<PaData>(&fs[1]) {
            Some(x) => x,
            None => return None,
        };
        let req_body = match take_req::<KdcReqBody>(&fs[2]) {
            Some(x) => x,
            None => return None,
        };
        Some(KrbFastReq { fast_options, padata, req_body })
    }
}

/// An armored FAST reply.
#[derive(Debug, Clone)]
pub struct KrbFastArmoredRep {
    /// The encrypted reply.
    pub enc_fast_rep: EncryptedData,
}

/// Model of [`KrbFastArmoredRep`].
pub struct KrbFastArmoredRepV {
    pub enc_fast_rep: EncryptedDataV,
}

impl View for KrbFastArmoredRep {
    type V = KrbFastArmoredRepV;

    open spec fn view(&self) -> KrbFastArmoredRepV {
        KrbFastArmoredRepV {
            enc_fast_rep: self.enc_fast_rep@,
        }
    }
}

impl Dup for KrbFastArmoredRep {
    fn dup(&self) -> (r: Self) {
        KrbFastArmoredRep {
            enc_fast_rep: self.enc_fast_rep.dup(),
        }
    }
}

/// The tagged fields of a [`KrbFastArmoredRep`].
#[verifier::opaque]
pub open spec fn krb_fast_armored_rep_fields(v: KrbFastArmoredRepV) -> Seq<Option<Seq<u8>>> {
    seq![
        Some(<EncryptedData as Asn1>::der(v.enc_fast_rep)),
    ]
}

/// The [`KrbFastArmoredRep`] of tagged fields.
#[verifier::opaque]
pub open spec fn krb_fast_armored_rep_of(f: Seq<Option<Seq<u8>>>) -> Option<KrbFastArmoredRepV> {
    let enc_fast_rep = req::<EncryptedData>(f[0]);
    if enc_fast_rep is Some {
        Some(KrbFastArmoredRepV { enc_fast_rep: enc_fast_rep->0 })
    } else {
        None
    }
}

impl Asn1 for KrbFastArmoredRep {
    open spec fn der(v: KrbFastArmoredRepV) -> Seq<u8> {
        sequence(krb_fast_armored_rep_fields(v))
    }

    open spec fn parse(s: Seq<u8>) -> Option<KrbFastArmoredRepV> {
        match sequence_fields(s, 1) {
            Some(f) => krb_fast_armored_rep_of(f),
            None => None,
        }
    }

    fn encode(&self) -> (r: Vec<u8>) {
        proof {
            reveal(krb_fast_armored_rep_fields);
            reveal(krb_fast_armored_rep_of);
        }
        let mut fs: Vec<Option<Vec<u8>>> = Vec::new();
        fs.push(Some(self.enc_fast_rep.encode()));
        assert(fields_view(fs@) =~= krb_fast_armored_rep_fields(self@));
        assert(krb_fast_armored_rep_of(fields_view(fs@)) == Some(self@));
        make_sequence(&fs)
    }

    fn decode(s: &[u8]) -> (r: Option<KrbFastArmoredRep>) {
        proof {
            reveal(krb_fast_armored_rep_of);
        }
        let fs = match parse_sequence(s, 1) {
            Some(fs) => fs,
            None => return None,
        };
        let enc_fast_rep = match take_req::<EncryptedData>(&fs[0]) {
            Some(x) => x,
            None => return None,
        };
        Some(KrbFastArmoredRep { enc_fast_rep })
    }
}

/// The end of a FAST exchange.
#[derive(Debug, Clone)]
pub struct KrbFastFinished {
    /// KDC time.
    pub timestamp: KerberosTime,
    /// KDC microseconds.
    pub usec: i32,
    /// Client realm.
    pub crealm: GeneralString,
    /// Client name.
    pub cname: PrincipalName,
    /// Checksum of the ticket.
    pub ticket_checksum: Checksum,
}

/// Model of [`KrbFastFinished`].
pub struct KrbFastFinishedV {
    pub timestamp: TimeV,
    pub usec: i32,
    pub crealm: Seq<u8>,
    pub cname: PrincipalNameV,
    pub ticket_checksum: ChecksumV,
}

impl View for KrbFastFinished {
    type V = KrbFastFinishedV;

    open spec fn view(&self) -> KrbFastFinishedV {
        KrbFastFinishedV {
            timestamp: self.timestamp@,
            usec: self.usec@,
            crealm: self.crealm@,
            cname: self.cname@,
            ticket_checksum: self.ticket_checksum@,
        }
    }
}

impl Dup for KrbFastFinished {
    fn dup(&self) -> (r: Self) {
        KrbFastFinished {
            timestamp: self.timestamp,
            usec: self.usec,
            crealm: self.crealm.dup(),
            cname: self.cname.dup(),
            ticket_checksum: self.ticket_checksum.dup(),
        }
    }
}

/// The tagged fields of a [`KrbFastFinished`].
#[verifier::opaque]
pub open spec fn krb_fast_finished_fields(v: KrbFastFinishedV) -> Seq<Option<Seq<u8>>> {
    seq![
        Some(der_of_time(v.timestamp)),
        Some(<i32 as Asn1>::der(v.usec)),
        Some(<GeneralString as Asn1>::der(v.crealm)),
        Some(<PrincipalName as Asn1>::der(v.cname)),
        Some(<Checksum as Asn1>::der(v.ticket_checksum)),
    ]
}

/// The [`KrbFastFinished`] of tagged fields.
#[verifier::opaque]
pub open spec fn krb_fast_finished_of(f: Seq<Option<Seq<u8>>>) -> Option<KrbFastFinishedV> {
    let timestamp = req_time(f[0]);
    let usec = req::<i32>(f[1]);
    let crealm = req::<GeneralString>(f[2]);
    let cname = req::<PrincipalName>(f[3]);
    let ticket_checksum = req::<Checksum>(f[4]);
    if timestamp is Some && usec is Some && crealm is Some && cname is Some && ticket_checksum is Some {
        Some(KrbFastFinishedV { timestamp: timestamp->0, usec: usec->0, crealm: crealm->0, cname: cname->0, ticket_checksum: ticket_checksum->0 })
    } else {
        None
    }
}

impl Asn1 for KrbFastFinished {
    open spec fn der(v: KrbFastFinishedV) -> Seq<u8> {
        sequence(krb_fast_finished_fields(v))
    }

    open spec fn parse(s: Seq<u8>) -> Option<KrbFastFinishedV> {
        match sequence_fields(s, 5) {
            Some(f) => krb_fast_finished_of(f),
            None => None,
        }
    }

    fn encode(&self) -> (r: Vec<u8>) {
        proof {
            reveal(krb_fast_finished_fields);
            reveal(krb_fast_finished_of);
        }
        let mut fs: Vec<Option<Vec<u8>>> = Vec::new();
        fs.push(put_time(&self.timestamp));
        fs.push(Some(self.usec.encode()));
        fs.push(Some(self.crealm.encode()));
        fs.push(Some(self.cname.encode()));
        fs.push(Some(self.ticket_checksum.encode()));
        assert(fields_view(fs@) =~= krb_fast_finished_fields(self@));
        assert(krb_fast_finished_of(fields_view(fs@)) == Some(self@));
        make_sequence(&fs)
    }

    fn decode(s: &[u8]) -> (r: Option<KrbFastFinished>) {
        proof {
            reveal(krb_fast_finished_of);
        }
        let fs = match parse_sequence(s, 5) {
            Some(fs) => fs,
            None => return None,
        };
        let timestamp = match take_req_time(&fs[0]) {
            Some(x) => x,
            None => return None,
        };
        let usec: i32 = match take_req::<i32>(&fs[1]) {
            Some(x) => x,
            None => return None,
        };
        let crealm = match take_req::<GeneralString>(&fs[2]) {
            Some(x) => x,
            None => return None,
        };
        let cname = match take_req::<PrincipalName>(&fs[3]) {
            Some(x) => x,
            None => return None,
        };
        let ticket_checksum = match take_req::<Checksum>(&fs[4]) {
            Some(x) => x,
            None => return None,
        };
        Some(KrbFastFinished { timestamp, usec, crealm, cname, ticket_checksum })
    }
}

/// A FAST response.
#[derive(Debug, Clone)]
pub struct KrbFastResponse {
    /// Pre-authentication data.
    pub padata: Vec<PaData>,
    /// Strengthen key.
    pub strengthen_key: Option<EncryptionKey>,
    /// End of the exchange.
    pub finished: Option<KrbFastFinished>,
    /// Nonce, echoed.
    pub nonce: u32,
}

/// Model of [`KrbFastResponse`].
pub struct KrbFastResponseV {
    pub padata: Seq<PaDataV>,
    pub strengthen_key: Option<EncryptionKeyV>,
    pub finished: Option<KrbFastFinishedV>,
    pub nonce: u32,
}

impl View for KrbFastResponse {
    type V = KrbFastResponseV;

    open spec fn view(&self) -> KrbFastResponseV {
        KrbFastResponseV {
            padata: list_view(self.padata@),
            strengthen_key: opt_view(self.strengthen_key),
            finished: opt_view(self.finished),
            nonce: self.nonce@,
        }
    }
}

impl Dup for KrbFastResponse {
    fn dup(&self) -> (r: Self) {
        KrbFastResponse {
            padata: dup_list(&self.padata),
            strengthen_key: dup_opt(&self.strengthen_key),
            finished: dup_opt(&self.finished),
            nonce: self.nonce,
        }
    }
}

/// The tagged fields of a [`KrbFastResponse`].
#[verifier::opaque]
pub open spec fn krb_fast_response_fields(v: KrbFastResponseV) -> Seq<Option<Seq<u8>>> {
    seq![
        Some(list_der::<PaData>(v.padata)),
        opt_der::<EncryptionKey>(v.strengthen_key),
        opt_der::<KrbFastFinished>(v.finished),
        Some(<u32 as Asn1>::der(v.nonce)),
    ]
}

/// The [`KrbFastResponse`] of tagged fields.
#[verifier::opaque]
pub open spec fn krb_fast_response_of(f: Seq<Option<Seq<u8>>>) -> Option<KrbFastResponseV> {
    let padata = req_list::<PaData>(f[0]);
    let strengthen_key = opt::<EncryptionKey>(f[1]);
    let finished = opt::<KrbFastFinished>(f[2]);
    let nonce = req::<u32>(f[3]);
    if padata is Some && strengthen_key is Some && finished is Some && nonce is Some {
        Some(KrbFastResponseV { padata: padata->0, strengthen_key: strengthen_key->0, finished: finished->0, nonce: nonce->0 })
    } else {
        None
    }
}

impl Asn1 for KrbFastResponse {
    open spec fn der(v: KrbFastResponseV) -> Seq<u8> {
        sequence(krb_fast_response_fields(v))
    }

    open spec fn parse(s: Seq<u8>) -> Option<KrbFastResponseV> {
        match sequence_fields(s, 4) {
            Some(f) => krb_fast_response_of(f),
            None => None,
        }
    }

    fn encode(&self) -> (r: Vec<u8>) {
        proof {
            reveal(krb_fast_response_fields);
            reveal(krb_fast_response_of);
        }
        let mut fs: Vec<Option<Vec<u8>>> = Vec::new();
        fs.push(Some(encode_list(&self.padata)));
        fs.push(put_opt(&self.strengthen_key));
        fs.push(put_opt(&self.finished));
        fs.push(Some(self.nonce.encode()));
        assert(fields_view(fs@) =~= krb_fast_response_fields(self@));
        assert(krb_fast_response_of(fields_view(fs@)) == Some(self@));
        make_sequence(&fs)
    }

    fn decode(s: &[u8]) -> (r: Option<KrbFastResponse>) {
        proof {
            reveal(krb_fast_response_of);
        }
        let fs = match parse_sequence(s, 4) {
            Some(fs) => fs,
            None => return None,
        };
        let padata = match take_req_list::<PaData>(&fs[0]) {
            Some(x) => x,
            None => return None,
        };
        let strengthen_key = match take_opt::<EncryptionKey>(&fs[1]) {
            Some(x) => x,
            None => return None,
        };
        let finished = match take_opt::<KrbFastFinished>(&fs[2]) {
            Some(x) => x,
            None => return None,
        };
        let nonce: u32 = match take_req::<u32>(&fs[3]) {
            Some(x) => x,
            None => return None,
        };
        Some(KrbFastResponse { padata, strengthen_key, finished, nonce })
    }
}

/// The value of a PA-FX-FAST element in a request: armored data.
#[derive(Debug, Clone)]
pub struct PaFxFastRequest(pub KrbFastArmoredReq);

impl View for PaFxFastRequest {
    type V = KrbFastArmoredReqV;

    open spec fn view(&self) -> KrbFastArmoredReqV {
        self.0@
    }
}

impl Asn1 for PaFxFastRequest {
    open spec fn der(v: KrbFastArmoredReqV) -> Seq<u8> {
        tlv(0xA0, <KrbFastArmoredReq as Asn1>::der(v))
    }

    open spec fn parse(s: Seq<u8>) -> Option<KrbFastArmoredReqV> {
        match untag(s, 0xA0) {
            Some(c) => <KrbFastArmoredReq as Asn1>::parse(c),
            None => None,
        }
    }

    fn encode(&self) -> (r: Vec<u8>) {
        let s = self.0.encode();
        proof {
            assert(s.len() <= usize::MAX);
            lemma_untag(0xA0, s@);
        }
        make_tlv(0xA0, &s)
    }

    fn decode(s: &[u8]) -> (r: Option<PaFxFastRequest>) {
        match strip_tag(s, 0xA0) {
            Some(c) => match <KrbFastArmoredReq as Asn1>::decode(c) {
                Some(x) => Some(PaFxFastRequest(x)),
                None => None,
            },
            None => None,
        }
    }
}

/// The value of a PA-FX-FAST element in a reply: armored data.
#[derive(Debug, Clone)]
pub struct PaFxFastReply(pub KrbFastArmoredRep);

impl View for PaFxFastReply {
    type V = KrbFastArmoredRepV;

    open spec fn view(&self) -> KrbFastArmoredRepV {
        self.0@
    }
}

impl Asn1 for PaFxFastReply {
    open spec fn der(v: KrbFastArmoredRepV) -> Seq<u8> {
        tlv(0xA0, <KrbFastArmoredRep as Asn1>::der(v))
    }

    open spec fn parse(s: Seq<u8>) -> Option<KrbFastArmoredRepV> {
        match untag(s, 0xA0) {
            Some(c) => <KrbFastArmoredRep as Asn1>::parse(c),
            None => None,
        }
    }

    fn encode(&self) -> (r: Vec<u8>) {
        let s = self.0.encode();
        proof {
            assert(s.len() <= usize::MAX);
            lemma_untag(0xA0, s@);
        }
        make_tlv(0xA0, &s)
    }

    fn decode(s: &[u8]) -> (r: Option<PaFxFastReply>) {
        match strip_tag(s, 0xA0) {
            Some(c) => match <KrbFastArmoredRep as Asn1>::decode(c) {
                Some(x) => Some(PaFxFastReply(x)),
                None => None,
            },
            None => None,
        }
    }
}

} // verus!
