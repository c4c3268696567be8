//! The AS and TGS exchanges.
use vstd::prelude::*;

use crate::asn1::{der_of_time, dup_list, dup_opt, dup_opt_list, encode_list, list_der, opt, opt_der, opt_list, opt_list_der, opt_list_view, opt_time, opt_time_der, put_opt, put_opt_list, put_opt_time, put_time, req, req_list, req_time, take_opt, take_opt_list, take_opt_time, take_req, take_req_list, take_req_time, Asn1, Dup, FlagBits, GeneralString};
use crate::der::{fields_view, lemma_untag, list_view, make_sequence, make_tlv, opt_view, parse_sequence, sequence, sequence_fields, strip_tag, tlv, untag};
use crate::time::{KerberosTime, TimeV};
use crate::types::common::{EncryptedData, EncryptedDataV, EncryptionKey, EncryptionKeyV, HostAddress, HostAddressV, PaData, PaDataV, PrincipalName, PrincipalNameV, Ticket, TicketV};

verus! {

/// The body of a KDC request.
#[derive(Debug, Clone)]
pub struct KdcReqBody {
    /// KDC options.
    pub kdc_options: FlagBits,
    /// Client name.
    pub cname: Option<PrincipalName>,
    /// Server realm.
    pub realm: GeneralString,
    /// Server name.
    pub sname: Option<PrincipalName>,
    /// Requested start.
    pub from: Option<KerberosTime>,
    /// Requested end.
    pub till: KerberosTime,
    /// Requested renew-till.
    pub rtime: Option<KerberosTime>,
    /// Nonce.
    pub nonce: u32,
    /// Encryption types, in order of preference.
    pub etype: Vec<i32>,
    /// Addresses.
    pub addresses: Option<Vec<HostAddress>>,
    /// Encrypted authorization data.
    pub enc_authorization_data: Option<EncryptedData>,
    /// Additional tickets.
    pub additional_tickets: Option<Vec<Ticket>>,
}

/// Model of [`KdcReqBody`].
pub struct KdcReqBodyV {
    pub kdc_options: u32,
    pub cname: Option<PrincipalNameV>,
    pub realm: Seq<u8>,
    pub sname: Option<PrincipalNameV>,
    pub from: Option<TimeV>,
    pub till: TimeV,
    pub rtime: Option<TimeV>,
    pub nonce: u32,
    pub etype: Seq<i32>,
    pub addresses: Option<Seq<HostAddressV>>,
    pub enc_authorization_data: Option<EncryptedDataV>,
    pub additional_tickets: Option<Seq<TicketV>>,
}

impl View for KdcReqBody {
    type V = KdcReqBodyV;

    open spec fn view(&self) -> KdcReqBodyV {
        KdcReqBodyV {
            kdc_options: self.kdc_options@,
            cname: opt_view(self.cname),
            realm: self.realm@,
            sname: opt_view(self.sname),
            from: opt_view(self.from),
            till: self.till@,
            rtime: opt_view(self.rtime),
            nonce: self.nonce@,
            etype: list_view(self.etype@),
            addresses: opt_list_view(self.addresses),
            enc_authorization_data: opt_view(self.enc_authorization_data),
            additional_tickets: opt_list_view(self.additional_tickets),
        }
    }
}

impl Dup for KdcReqBody {
    fn dup(&self) -> (r: Self) {
        KdcReqBody {
            kdc_options: self.kdc_options,
            cname: dup_opt(&self.cname),
            realm: self.realm.dup(),
            sname: dup_opt(&self.sname),
            from: self.from,
            till: self.till,
            rtime: self.rtime,
            nonce: self.nonce,
            etype: dup_list(&self.etype),
            addresses: dup_opt_list(&self.addresses),
            enc_authorization_data: dup_opt(&self.enc_authorization_data),
            additional_tickets: dup_opt_list(&self.additional_tickets),
        }
    }
}

/// The tagged fields of a [`KdcReqBody`].
#[verifier::opaque]
pub open spec fn kdc_req_body_fields(v: KdcReqBodyV) -> Seq<Option<Seq<u8>>> {
    seq![
        Some(<FlagBits as Asn1>::der(v.kdc_options)),
        opt_der::<PrincipalName>(v.cname),
        Some(<GeneralString as Asn1>::der(v.realm)),
        opt_der::<PrincipalName>(v.sname),
        opt_time_der(v.from),
        Some(der_of_time(v.till)),
        opt_time_der(v.rtime),
        Some(<u32 as Asn1>::der(v.nonce)),
        Some(list_der::<i32>(v.etype)),
        opt_list_der::<HostAddress>(v.addresses),
        opt_der::<EncryptedData>(v.enc_authorization_data),
        opt_list_der::<Ticket>(v.additional_tickets),
    ]
}

/// The [`KdcReqBody`] of tagged fields.
#[verifier::opaque]
pub open spec fn kdc_req_body_of(f: Seq<Option<Seq<u8>>>) -> Option<KdcReqBodyV> {
    let kdc_options = req::<FlagBits>(f[0]);
    let cname = opt::<PrincipalName>(f[1]);
    let realm = req::<GeneralString>(f[2]);
    let sname = opt::<PrincipalName>(f[3]);
    let from = opt_time(f[4]);
    let till = req_time(f[5]);
    let rtime = opt_time(f[6]);
    let nonce = req::<u32>(f[7]);
    let etype = req_list::<i32>(f[8]);
    let addresses = opt_list::<HostAddress>(f[9]);
    let enc_authorization_data = opt::<EncryptedData>(f[10]);
    let additional_tickets = opt_list::<Ticket>(f[11]);
    if kdc_options is Some && cname is Some && realm is Some && sname is Some && from is Some && till is Some && rtime is Some && nonce is Some && etype is Some && addresses is Some && enc_authorization_data is Some && additional_tickets is Some {
        Some(KdcReqBodyV { kdc_options: kdc_options->0, cname: cname->0, realm: realm->0, sname: sname->0, from: from->0, till: till->0, rtime: rtime->0, nonce: nonce->0, etype: etype->0, addresses: addresses->0, enc_authorization_data: enc_authorization_data->0, additional_tickets: additional_tickets->0 })
    } else {
        None
    }
}

impl Asn1 for KdcReqBody {
    open spec fn der(v: KdcReqBodyV) -> Seq<u8> {
        sequence(kdc_req_body_fields(v))
    }

    open spec fn parse(s: Seq<u8>) -> Option<KdcReqBodyV> {
        match sequence_fields(s, 12) {
            Some(f) => kdc_req_body_of(f),
            None => None,
        }
    }

    fn encode(&self) -> (r: Vec<u8>) {
        proof {
            reveal(kdc_req_body_fields);
            reveal(kdc_req_body_of);
        }
        let mut fs: Vec<Option<Vec<u8>>> = Vec::new();
        fs.push(Some(self.kdc_options.encode()));
        fs.push(put_opt(&self.cname));
        fs.push(Some(self.realm.encode()));
        fs.push(put_opt(&self.sname));
        fs.push(put_opt_time(&self.from));
        fs.push(put_time(&self.till));
        fs.push(put_opt_time(&self.rtime));
        fs.push(Some(self.nonce.encode()));
        fs.push(Some(encode_list(&self.etype)));
        fs.push(put_opt_list(&self.addresses));
        fs.push(put_opt(&self.enc_authorization_data));
        fs.push(put_opt_list(&self.additional_tickets));
        assert(fields_view(fs@) =~= kdc_req_body_fields(self@));
        assert(kdc_req_body_of(fields_view(fs@)) == Some(self@));
        make_sequence(&fs)
    }

    fn decode(s: &[u8]) -> (r: Option<KdcReqBody>) {
        proof {
            reveal(kdc_req_body_of);
        }
        let fs = match parse_sequence(s, 12) {
            Some(fs) => fs,
            None => return None,
        };
        let kdc_options = match take_req::<FlagBits>(&fs[0]) {
            Some(x) => x,
            None => return None,
        };
        let cname = match take_opt::<PrincipalName>(&fs[1]) {
            Some(x) => x,
            None => return None,
        };
        let realm = match take_req::<GeneralString>(&fs[2]) {
            Some(x) => x,
            None => return None,
        };
        let sname = match take_opt::<PrincipalName>(&fs[3]) {
            Some(x) => x,
            None => return None,
        };
        let from = match take_opt_time(&fs[4]) {
            Some(x) => x,
            None => return None,
        };
        let till = match take_req_time(&fs[5]) {
            Some(x) => x,
            None => return None,
        };
        let rtime = match take_opt_time(&fs[6]) {
            Some(x) => x,
            None => return None,
        };
        let nonce: u32 = match take_req::<u32>(&fs[7]) {
            Some(x) => x,
            None => return None,
        };
        let etype = match take_req_list::<i32>(&fs[8]) {
            Some(x) => x,
            None => return None,
        };
        let addresses = match take_opt_list::<HostAddress>(&fs[9]) {
            Some(x) => x,
            None => return None,
        };
        let enc_authorization_data = match take_opt::<EncryptedData>(&fs[10]) {
            Some(x) => x,
            None => return None,
        };
        let additional_tickets = match take_opt_list::<Ticket>(&fs[11]) {
            Some(x) => x,
            None => return None,
        };
        Some(KdcReqBody { kdc_options, cname, realm, sname, from, till, rtime, nonce, etype, addresses, enc_authorization_data, additional_tickets })
    }
}

/// A KDC request.
#[derive(Debug, Clone)]
pub struct KdcReq {
    /// Protocol version.
    pub pvno: i32,
    /// Message type.
    pub msg_type: i32,
    /// Pre-authentication data.
    pub padata: Option<Vec<PaData>>,
    /// The body.
    pub req_body: KdcReqBody,
}

/// Model of [`KdcReq`].
pub struct KdcReqV {
    pub pvno: i32,
    pub msg_type: i32,
    pub padata: Option<Seq<PaDataV>>,
    pub req_body: KdcReqBodyV,
}

impl View for KdcReq {
    type V = KdcReqV;

    open spec fn view(&self) -> KdcReqV {
        KdcReqV {
            pvno: self.pvno@,
            msg_type: self.msg_type@,
            padata: opt_list_view(self.padata),
            req_body: self.req_body@,
        }
    }
}

impl Dup for KdcReq {
    fn dup(&self) -> (r: Self) {
        KdcReq {
            pvno: self.pvno,
            msg_type: self.msg_type,
            padata: dup_opt_list(&self.padata),
            req_body: self.req_body.dup(),
        }
    }
}

/// The tagged fields of a [`KdcReq`].
#[verifier::opaque]
pub open spec fn kdc_req_fields(v: KdcReqV) -> Seq<Option<Seq<u8>>> {
    seq![
        None,
        Some(<i32 as Asn1>::der(v.pvno)),
        Some(<i32 as Asn1>::der(v.msg_type)),
        opt_list_der::<PaData>(v.padata),
        Some(<KdcReqBody as Asn1>::der(v.req_body)),
    ]
}

/// The [`KdcReq`] of tagged fields.
#[verifier::opaque]
pub open spec fn kdc_req_of(f: Seq<Option<Seq<u8>>>) -> Option<KdcReqV> {
    let pvno = req::<i32>(f[1]);
    let msg_type = req::<i32>(f[2]);
    let padata = opt_list::<PaData>(f[3]);
    let req_body = req::<KdcReqBody>(f[4]);
    if f[0] is None && pvno is Some && msg_type is Some && padata is Some && req_body is Some {
        Some(KdcReqV { pvno: pvno->0, msg_type: msg_type->0, padata: padata->0, req_body: req_body->0 })
    } else {
        None
    }
}

impl Asn1 for KdcReq {
    open spec fn der(v: KdcReqV) -> Seq<u8> {
        sequence(kdc_req_fields(v))
    }

    open spec fn parse(s: Seq<u8>) -> Option<KdcReqV> {
        match sequence_fields(s, 5) {
            Some(f) => kdc_req_of(f),
            None => None,
        }
    }

    fn encode(&self) -> (r: Vec<u8>) {
        proof {
            reveal(kdc_req_fields);
            reveal(kdc_req_of);
        }
        let mut fs: Vec<Option<Vec<u8>>> = Vec::new();
        fs.push(None);
        fs.push(Some(self.pvno.encode()));
        fs.push(Some(self.msg_type.encode()));
        fs.push(put_opt_list(&self.padata));
        fs.push(Some(self.req_body.encode()));
        assert(fields_view(fs@) =~= kdc_req_fields(self@));
        assert(kdc_req_of(fields_view(fs@)) == Some(self@));
        make_sequence(&fs)
    }

    fn decode(s: &[u8]) -> (r: Option<KdcReq>) {
        proof {
            reveal(kdc_req_of);
        }
        let fs = match parse_sequence(s, 5) {
            Some(fs) => fs,
            None => return None,
        };
        if fs[0].is_some() {
            return None;
        }
        let pvno: i32 = match take_req::<i32>(&fs[1]) {
            Some(x) => x,
            None => return None,
        };
        let msg_type: i32 = match take_req::<i32>(&fs[2]) {
            Some(x) => x,
            None => return None,
        };
        let padata = match take_opt_list::<PaData>(&fs[3]) {
            Some(x) => x,
            None => return None,
        };
        let req_body = match take_req::<KdcReqBody>(&fs[4]) {
            Some(x) => x,
            None => return None,
        };
        Some(KdcReq { pvno, msg_type, padata, req_body })
    }
}

/// A KDC reply.
#[derive(Debug, Clone)]
pub struct KdcRep {
    /// Protocol version.
    pub pvno: i32,
    /// Message type.
    pub msg_type: i32,
    /// Pre-authentication data.
    pub padata: Option<Vec<PaData>>,
    /// Client realm.
    pub crealm: GeneralString,
    /// Client name.
    pub cname: PrincipalName,
    /// The ticket.
    pub ticket: Ticket,
    /// The encrypted part.
    pub enc_part: EncryptedData,
}

/// Model of [`KdcRep`].
pub struct KdcRepV {
    pub pvno: i32,
    pub msg_type: i32,
    pub padata: Option<Seq<PaDataV>>,
    pub crealm: Seq<u8>,
    pub cname: PrincipalNameV,
    pub ticket: TicketV,
    pub enc_part: EncryptedDataV,
}

impl View for KdcRep {
    type V = KdcRepV;

    open spec fn view(&self) -> KdcRepV {
        KdcRepV {
            pvno: self.pvno@,
            msg_type: self.msg_type@,
            padata: opt_list_view(self.padata),
            crealm: self.crealm@,
            cname: self.cname@,
            ticket: self.ticket@,
            enc_part: self.enc_part@,
        }
    }
}

impl Dup for KdcRep {
    fn dup(&self) -> (r: Self) {
        KdcRep {
            pvno: self.pvno,
            msg_type: self.msg_type,
            padata: dup_opt_list(&self.padata),
            crealm: self.crealm.dup(),
            cname: self.cname.dup(),
            ticket: self.ticket.dup(),
            enc_part: self.enc_part.dup(),
        }
    }
}

/// The tagged fields of a [`KdcRep`].
#[verifier::opaque]
pub open spec fn kdc_rep_fields(v: KdcRepV) -> Seq<Option<Seq<u8>>> {
    seq![
        Some(<i32 as Asn1>::der(v.pvno)),
        Some(<i32 as Asn1>::der(v.msg_type)),
        opt_list_der::<PaData>(v.padata),
        Some(<GeneralString as Asn1>::der(v.crealm)),
        Some(<PrincipalName as Asn1>::der(v.cname)),
        Some(<Ticket as Asn1>::der(v.ticket)),
        Some(<EncryptedData as Asn1>::der(v.enc_part)),
    ]
}

/// The [`KdcRep`] of tagged fields.
#[verifier::opaque]
pub open spec fn kdc_rep_of(f: Seq<Option<Seq<u8>>>) -> Option<KdcRepV> {
    let pvno = req::<i32>(f[0]);
    let msg_type = req::<i32>(f[1]);
    let padata = opt_list::<PaData>(f[2]);
    let crealm = req::<GeneralString>(f[3]);
    let cname = req::<PrincipalName>(f[4]);
    let ticket = req::<Ticket>(f[5]);
    let enc_part = req::<EncryptedData>(f[6]);
    if pvno is Some && msg_type is Some && padata is Some && crealm is Some && cname is Some && ticket is Some && enc_part is Some {
        Some(KdcRepV { pvno: pvno->0, msg_type: msg_type->0, padata: padata->0, crealm: crealm->0, cname: cname->0, ticket: ticket->0, enc_part: enc_part->0 })
    } else {
        None
    }
}

impl Asn1 for KdcRep {
    open spec fn der(v: KdcRepV) -> Seq<u8> {
        sequence(kdc_rep_fields(v))
    }

    open spec fn parse(s: Seq<u8>) -> Option<KdcRepV> {
        match sequence_fields(s, 7) {
            Some(f) => kdc_rep_of(f),
            None => None,
        }
    }

    fn encode(&self) -> (r: Vec<u8>) {
        proof {
            reveal(kdc_rep_fields);
            reveal(kdc_rep_of);
        }
        let mut fs: Vec<Option<Vec<u8>>> = Vec::new();
        fs.push(Some(self.pvno.encode()));
        fs.push(Some(self.msg_type.encode()));
        fs.push(put_opt_list(&self.padata));
        fs.push(Some(self.crealm.encode()));
        fs.push(Some(self.cname.encode()));
        fs.push(Some(self.ticket.encode()));
        fs.push(Some(self.enc_part.encode()));
        assert(fields_view(fs@) =~= kdc_rep_fields(self@));
        assert(kdc_rep_of(fields_view(fs@)) == Some(self@));
        make_sequence(&fs)
    }

    fn decode(s: &[u8]) -> (r: Option<KdcRep>) {
        proof {
            reveal(kdc_rep_of);
        }
        let fs = match parse_sequence(s, 7) {
            Some(fs) => fs,
            None => return None,
        };
        let pvno: i32 = match take_req::<i32>(&fs[0]) {
            Some(x) => x,
            None => return None,
        };
        let msg_type: i32 = match take_req::<i32>(&fs[1]) {
            Some(x) => x,
            None => return None,
        };
        let padata = match take_opt_list::<PaData>(&fs[2]) {
            Some(x) => x,
            None => return None,
        };
        let crealm = match take_req::<GeneralString>(&fs[3]) {
            Some(x) => x,
            None => return None,
        };
        let cname = match take_req::<PrincipalName>(&fs[4]) {
            Some(x) => x,
            None => return None,
        };
        let ticket = match take_req::<Ticket>(&fs[5]) {
            Some(x) => x,
            None => return None,
        };
        let enc_part = match take_req::<EncryptedData>(&fs[6]) {
            Some(x) => x,
            None => return None,
        };
        Some(KdcRep { pvno, msg_type, padata, crealm, cname, ticket, enc_part })
    }
}

/// One last-request entry.
#[derive(Debug, Clone)]
pub struct LastReqEntry {
    /// Entry type.
    pub lr_type: i32,
    /// Entry time.
    pub lr_value: KerberosTime,
}

/// Model of [`LastReqEntry`].
pub struct LastReqEntryV {
    pub lr_type: i32,
    pub lr_value: TimeV,
}

impl View for LastReqEntry {
    type V = LastReqEntryV;

    open spec fn view(&self) -> LastReqEntryV {
        LastReqEntryV {
            lr_type: self.lr_type@,
            lr_value: self.lr_value@,
        }
    }
}

impl Dup for LastReqEntry {
    fn dup(&self) -> (r: Self) {
        LastReqEntry {
            lr_type: self.lr_type,
            lr_value: self.lr_value,
        }
    }
}

/// The tagged fields of a [`LastReqEntry`].
#[verifier::opaque]
pub open spec fn last_req_entry_fields(v: LastReqEntryV) -> Seq<Option<Seq<u8>>> {
    seq![
        Some(<i32 as Asn1>::der(v.lr_type)),
        Some(der_of_time(v.lr_value)),
    ]
}

/// The [`LastReqEntry`] of tagged fields.
#[verifier::opaque]
pub open spec fn last_req_entry_of(f: Seq<Option<Seq<u8>>>) -> Option<LastReqEntryV> {
    let lr_type = req::<i32>(f[0]);
    let lr_value = req_time(f[1]);
    if lr_type is Some && lr_value is Some {
        Some(LastReqEntryV { lr_type: lr_type->0, lr_value: lr_value->0 })
    } else {
        None
    }
}

impl Asn1 for LastReqEntry {
    open spec fn der(v: LastReqEntryV) -> Seq<u8> {
        sequence(last_req_entry_fields(v))
    }

    open spec fn parse(s: Seq<u8>) -> Option<LastReqEntryV> {
        match sequence_fields(s, 2) {
            Some(f) => last_req_entry_of(f),
            None => None,
        }
    }

    fn encode(&self) -> (r: Vec<u8>) {
        proof {
            reveal(last_req_entry_fields);
            reveal(last_req_entry_of);
        }
        let mut fs: Vec<Option<Vec<u8>>> = Vec::new();
        fs.push(Some(self.lr_type.encode()));
        fs.push(put_time(&self.lr_value));
        assert(fields_view(fs@) =~= last_req_entry_fields(self@));
        assert(last_req_entry_of(fields_view(fs@)) == Some(self@));
        make_sequence(&fs)
    }

    fn decode(s: &[u8]) -> (r: Option<LastReqEntry>) {
        proof {
            reveal(last_req_entry_of);
        }
        let fs = match parse_sequence(s, 2) {
            Some(fs) => fs,
            None => return None,
        };
        let lr_type: i32 = match take_req::<i32>(&fs[0]) {
            Some(x) => x,
            None => return None,
        };
        let lr_value = match take_req_time(&fs[1]) {
            Some(x) => x,
            None => return None,
        };
        Some(LastReqEntry { lr_type, lr_value })
    }
}

/// The encrypted part of a KDC reply.
#[derive(Debug, Clone)]
pub struct EncKdcRepPart {
    /// Session key.
    pub key: EncryptionKey,
    /// Last requests.
    pub last_req: Vec<LastReqEntry>,
    /// Nonce, echoed.
    pub nonce: u32,
    /// Expiry of the client key.
    pub key_expiration: Option<KerberosTime>,
    /// Ticket flags.
    pub flags: FlagBits,
    /// Time of initial authentication.
    pub authtime: KerberosTime,
    /// Start of validity.
    pub starttime: Option<KerberosTime>,
    /// End of validity.
    pub endtime: KerberosTime,
    /// Renewable till.
    pub renew_till: Option<KerberosTime>,
    /// Service realm.
    pub srealm: GeneralString,
    /// Service name.
    pub sname: PrincipalName,
    /// Addresses.
    pub caddr: Option<Vec<HostAddress>>,
    /// Encrypted pre-authentication data.
    pub encrypted_pa_data: Option<Vec<PaData>>,
}

/// Model of [`EncKdcRepPart`].
pub struct EncKdcRepPartV {
    pub key: EncryptionKeyV,
    pub last_req: Seq<LastReqEntryV>,
    pub nonce: u32,
    pub key_expiration: Option<TimeV>,
    pub flags: u32,
    pub authtime: TimeV,
    pub starttime: Option<TimeV>,
    pub endtime: TimeV,
    pub renew_till: Option<TimeV>,
    pub srealm: Seq<u8>,
    pub sname: PrincipalNameV,
    pub caddr: Option<Seq<HostAddressV>>,
    pub encrypted_pa_data: Option<Seq<PaDataV>>,
}

impl View for EncKdcRepPart {
    type V = EncKdcRepPartV;

    open spec fn view(&self) -> EncKdcRepPartV {
        EncKdcRepPartV {
            key: self.key@,
            last_req: list_view(self.last_req@),
            nonce: self.nonce@,
            key_expiration: opt_view(self.key_expiration),
            flags: self.flags@,
            authtime: self.authtime@,
            starttime: opt_view(self.starttime),
            endtime: self.endtime@,
            renew_till: opt_view(self.renew_till),
            srealm: self.srealm@,
            sname: self.sname@,
            caddr: opt_list_view(self.caddr),
            encrypted_pa_data: opt_list_view(self.encrypted_pa_data),
        }
    }
}

impl Dup for EncKdcRepPart {
    fn dup(&self) -> (r: Self) {
        EncKdcRepPart {
            key: self.key.dup(),
            last_req: dup_list(&self.last_req),
            nonce: self.nonce,
            key_expiration: self.key_expiration,
            flags: self.flags,
            authtime: self.authtime,
            starttime: self.starttime,
            endtime: self.endtime,
            renew_till: self.renew_till,
            srealm: self.srealm.dup(),
            sname: self.sname.dup(),
            caddr: dup_opt_list(&self.caddr),
            encrypted_pa_data: dup_opt_list(&self.encrypted_pa_data),
        }
    }
}

/// The tagged fields of a [`EncKdcRepPart`].
#[verifier::opaque]
pub open spec fn enc_kdc_rep_part_fields(v: EncKdcRepPartV) -> Seq<Option<Seq<u8>>> {
    seq![
        Some(<EncryptionKey as Asn1>::der(v.key)),
        Some(list_der::<LastReqEntry>(v.last_req)),
        Some(<u32 as Asn1>::der(v.nonce)),
        opt_time_der(v.key_expiration),
        Some(<FlagBits as Asn1>::der(v.flags)),
        Some(der_of_time(v.authtime)),
        opt_time_der(v.starttime),
        Some(der_of_time(v.endtime)),
        opt_time_der(v.renew_till),
        Some(<GeneralString as Asn1>::der(v.srealm)),
        Some(<PrincipalName as Asn1>::der(v.sname)),
        opt_list_der::<HostAddress>(v.caddr),
        opt_list_der::<PaData>(v.encrypted_pa_data),
    ]
}

/// The [`EncKdcRepPart`] of tagged fields.
#[verifier::opaque]
pub open spec fn enc_kdc_rep_part_of(f: Seq<Option<Seq<u8>>>) -> Option<EncKdcRepPartV> {
    let key = req::<EncryptionKey>(f[0]);
    let last_req = req_list::<LastReqEntry>(f[1]);
    let nonce = req::<u32>(f[2]);
    let key_expiration = opt_time(f[3]);
    let flags = req::<FlagBits>(f[4]);
    let authtime = req_time(f[5]);
    let starttime = opt_time(f[6]);
    let endtime = req_time(f[7]);
    let renew_till = opt_time(f[8]);
    let srealm = req::<GeneralString>(f[9]);
    let sname = req::<PrincipalName>(f[10]);
    let caddr = opt_list::<HostAddress>(f[11]);
    let encrypted_pa_data = opt_list::<PaData>(f[12]);
    if key is Some && last_req is Some && nonce is Some && key_expiration is Some && flags is Some && authtime is Some && starttime is Some && endtime is Some && renew_till is Some && srealm is Some && sname is Some && caddr is Some && encrypted_pa_data is Some {
        Some(EncKdcRepPartV { key: key->0, last_req: last_req->0, nonce: nonce->0, key_expiration: key_expiration->0, flags: flags->0, authtime: authtime->0, starttime: starttime->0, endtime: endtime->0, renew_till: renew_till->0, srealm: srealm->0, sname: sname->0, caddr: caddr->0, encrypted_pa_data: encrypted_pa_data->0 })
    } else {
        None
    }
}

impl Asn1 for EncKdcRepPart {
    open spec fn der(v: EncKdcRepPartV) -> Seq<u8> {
        sequence(enc_kdc_rep_part_fields(v))
    }

    open spec fn parse(s: Seq<u8>) -> Option<EncKdcRepPartV> {
        match sequence_fields(s, 13) {
            Some(f) => enc_kdc_rep_part_of(f),
            None => None,
        }
    }

    fn encode(&self) -> (r: Vec<u8>) {
        proof {
            reveal(enc_kdc_rep_part_fields);
            reveal(enc_kdc_rep_part_of);
        }
        let mut fs: Vec<Option<Vec<u8>>> = Vec::new();
        fs.push(Some(self.key.encode()));
        fs.push(Some(encode_list(&self.last_req)));
        fs.push(Some(self.nonce.encode()));
        fs.push(put_opt_time(&self.key_expiration));
        fs.push(Some(self.flags.encode()));
        fs.push(put_time(&self.authtime));
        fs.push(put_opt_time(&self.starttime));
        fs.push(put_time(&self.endtime));
        fs.push(put_opt_time(&self.renew_till));
        fs.push(Some(self.srealm.encode()));
        fs.push(Some(self.sname.encode()));
        fs.push(put_opt_list(&self.caddr));
        fs.push(put_opt_list(&self.encrypted_pa_data));
        assert(fields_view(fs@) =~= enc_kdc_rep_part_fields(self@));
        assert(enc_kdc_rep_part_of(fields_view(fs@)) == Some(self@));
        make_sequence(&fs)
    }

    fn decode(s: &[u8]) -> (r: Option<EncKdcRepPart>) {
        proof {
            reveal(enc_kdc_rep_part_of);
        }
        let fs = match parse_sequence(s, 13) {
            Some(fs) => fs,
            None => return None,
        };
        let key = match take_req::<EncryptionKey>(&fs[0]) {
            Some(x) => x,
            None => return None,
        };
        let last_req = match take_req_list::<LastReqEntry>(&fs[1]) {
            Some(x) => x,
            None => return None,
        };
        let nonce: u32 = match take_req::<u32>(&fs[2]) {
            Some(x) => x,
            None => return None,
        };
        let key_expiration = match take_opt_time(&fs[3]) {
            Some(x) => x,
            None => return None,
        };
        let flags = match take_req::<FlagBits>(&fs[4]) {
            Some(x) => x,
            None => return None,
        };
        let authtime = match take_req_time(&fs[5]) {
            Some(x) => x,
            None => return None,
        };
        let starttime = match take_opt_time(&fs[6]) {
            Some(x) => x,
            None => return None,
        };
        let endtime = match take_req_time(&fs[7]) {
            Some(x) => x,
            None => return None,
        };
        let renew_till = match take_opt_time(&fs[8]) {
            Some(x) => x,
            None => return None,
        };
        let srealm = match take_req::<GeneralString>(&fs[9]) {
            Some(x) => x,
            None => return None,
        };
        let sname = match take_req::<PrincipalName>(&fs[10]) {
            Some(x) => x,
            None => return None,
        };
        let caddr = match take_opt_list::<HostAddress>(&fs[11]) {
            Some(x) => x,
            None => return None,
        };
        let encrypted_pa_data = match take_opt_list::<PaData>(&fs[12]) {
            Some(x) => x,
            None => return None,
        };
        Some(EncKdcRepPart { key, last_req, nonce, key_expiration, flags, authtime, starttime, endtime, renew_till, srealm, sname, caddr, encrypted_pa_data })
    }
}

/// One ETYPE-INFO2 entry.
#[derive(Debug, Clone)]
pub struct EtypeInfo2Entry {
    /// Encryption type.
    pub etype: i32,
    /// Salt.
    pub salt: Option<GeneralString>,
    /// String-to-key parameters.
    pub s2kparams: Option<Vec<u8>>,
}

/// Model of [`EtypeInfo2Entry`].
pub struct EtypeInfo2EntryV {
    pub etype: i32,
    pub salt: Option<Seq<u8>>,
    pub s2kparams: Option<Seq<u8>>,
}

impl View for EtypeInfo2Entry {
    type V = EtypeInfo2EntryV;

    open spec fn view(&self) -> EtypeInfo2EntryV {
        EtypeInfo2EntryV {
            etype: self.etype@,
            salt: opt_view(self.salt),
            s2kparams: opt_view(self.s2kparams),
        }
    }
}

impl Dup for EtypeInfo2Entry {
    fn dup(&self) -> (r: Self) {
        EtypeInfo2Entry {
            etype: self.etype,
            salt: dup_opt(&self.salt),
            s2kparams: dup_opt(&self.s2kparams),
        }
    }
}

/// The tagged fields of a [`EtypeInfo2Entry`].
#[verifier::opaque]
pub open spec fn etype_info2_entry_fields(v: EtypeInfo2EntryV) -> Seq<Option<Seq<u8>>> {
    seq![
        Some(<i32 as Asn1>::der(v.etype)),
        opt_der::<GeneralString>(v.salt),
        opt_der::<Vec<u8>>(v.s2kparams),
    ]
}

/// The [`EtypeInfo2Entry`] of tagged fields.
#[verifier::opaque]
pub open spec fn etype_info2_entry_of(f: Seq<Option<Seq<u8>>>) -> Option<EtypeInfo2EntryV> {
    let etype = req::<i32>(f[0]);
    let salt = opt::<GeneralString>(f[1]);
    let s2kparams = opt::<Vec<u8>>(f[2]);
    if etype is Some && salt is Some && s2kparams is Some {
        Some(EtypeInfo2EntryV { etype: etype->0, salt: salt->0, s2kparams: s2kparams->0 })
    } else {
        None
    }
}

impl Asn1 for EtypeInfo2Entry {
    open spec fn der(v: EtypeInfo2EntryV) -> Seq<u8> {
        sequence(etype_info2_entry_fields(v))
    }

    open spec fn parse(s: Seq<u8>) -> Option<EtypeInfo2EntryV> {
        match sequence_fields(s, 3) {
            Some(f) => etype_info2_entry_of(f),
            None => None,
        }
    }

    fn encode(&self) -> (r: Vec<u8>) {
        proof {
            reveal(etype_info2_entry_fields);
            reveal(etype_info2_entry_of);
        }
        let mut fs: Vec<Option<Vec<u8>>> = Vec::new();
        fs.push(Some(self.etype.encode()));
        fs.push(put_opt(&self.salt));
        fs.push(put_opt(&self.s2kparams));
        assert(fields_view(fs@) =~= etype_info2_entry_fields(self@));
        assert(etype_info2_entry_of(fields_view(fs@)) == Some(self@));
        make_sequence(&fs)
    }

    fn decode(s: &[u8]) -> (r: Option<EtypeInfo2Entry>) {
        proof {
            reveal(etype_info2_entry_of);
        }
        let fs = match parse_sequence(s, 3) {
            Some(fs) => fs,
            None => return None,
        };
        let etype: i32 = match take_req::<i32>(&fs[0]) {
            Some(x) => x,
            None => return None,
        };
        let salt = match take_opt::<GeneralString>(&fs[1]) {
            Some(x) => x,
            None => return None,
        };
        let s2kparams = match take_opt::<Vec<u8>>(&fs[2]) {
            Some(x) => x,
            None => return None,
        };
        Some(EtypeInfo2Entry { etype, salt, s2kparams })
    }
}

/// The plaintext of an encrypted timestamp.
#[derive(Debug, Clone)]
pub struct PaEncTsEnc {
    /// Client time.
    pub patimestamp: KerberosTime,
    /// Client microseconds.
    pub pausec: Option<i32>,
}

/// Model of [`PaEncTsEnc`].
pub struct PaEncTsEncV {
    pub patimestamp: TimeV,
    pub pausec: Option<i32>,
}

impl View for PaEncTsEnc {
    type V = PaEncTsEncV;

    open spec fn view(&self) -> PaEncTsEncV {
        PaEncTsEncV {
            patimestamp: self.patimestamp@,
            pausec: opt_view(self.pausec),
        }
    }
}

impl Dup for PaEncTsEnc {
    fn dup(&self) -> (r: Self) {
        PaEncTsEnc {
            patimestamp: self.patimestamp,
            pausec: self.pausec,
        }
    }
}

/// The tagged fields of a [`PaEncTsEnc`].
#[verifier::opaque]
pub open spec fn pa_enc_ts_enc_fields(v: PaEncTsEncV) -> Seq<Option<Seq<u8>>> {
    seq![
        Some(der_of_time(v.patimestamp)),
        opt_der::<i32>(v.pausec),
    ]
}

/// The [`PaEncTsEnc`] of tagged fields.
#[verifier::opaque]
pub open spec fn pa_enc_ts_enc_of(f: Seq<Option<Seq<u8>>>) -> Option<PaEncTsEncV> {
    let patimestamp = req_time(f[0]);
    let pausec = opt::<i32>(f[1]);
    if patimestamp is Some && pausec is Some {
        Some(PaEncTsEncV { patimestamp: patimestamp->0, pausec: pausec->0 })
    } else {
        None
    }
}

impl Asn1 for PaEncTsEnc {
    open spec fn der(v: PaEncTsEncV) -> Seq<u8> {
        sequence(pa_enc_ts_enc_fields(v))
    }

    open spec fn parse(s: Seq<u8>) -> Option<PaEncTsEncV> {
        match sequence_fields(s, 2) {
            Some(f) => pa_enc_ts_enc_of(f),
            None => None,
        }
    }

    fn encode(&self) -> (r: Vec<u8>) {
        proof {
            reveal(pa_enc_ts_enc_fields);
            reveal(pa_enc_ts_enc_of);
        }
        let mut fs: Vec<Option<Vec<u8>>> = Vec::new();
        fs.push(put_time(&self.patimestamp));
        fs.push(put_opt(&self.pausec));
        assert(fields_view(fs@) =~= pa_enc_ts_enc_fields(self@));
        assert(pa_enc_ts_enc_of(fields_view(fs@)) == Some(self@));
        make_sequence(&fs)
    }

    fn decode(s: &[u8]) -> (r: Option<PaEncTsEnc>) {
        proof {
            reveal(pa_enc_ts_enc_of);
        }
        let fs = match parse_sequence(s, 2) {
            Some(fs) => fs,
            None => return None,
        };
        let patimestamp = match take_req_time(&fs[0]) {
            Some(x) => x,
            None => return None,
        };
        let pausec: Option<i32> = match take_opt::<i32>(&fs[1]) {
            Some(x) => x,
            None => return None,
        };
        Some(PaEncTsEnc { patimestamp, pausec })
    }
}

/// Whether a PAC is asked for.
#[derive(Debug, Clone)]
pub struct PaPacRequest {
    /// Whether the ticket is to hold a PAC.
    pub pac_wanted: bool,
}

/// Model of [`PaPacRequest`].
pub struct PaPacRequestV {
    pub pac_wanted: bool,
}

impl View for PaPacRequest {
    type V = PaPacRequestV;

    open spec fn view(&self) -> PaPacRequestV {
        PaPacRequestV {
            pac_wanted: self.pac_wanted@,
        }
    }
}

impl Dup for PaPacRequest {
    fn dup(&self) -> (r: Self) {
        PaPacRequest {
            pac_wanted: self.pac_wanted,
        }
    }
}

/// The tagged fields of a [`PaPacRequest`].
#[verifier::opaque]
pub open spec fn pa_pac_request_fields(v: PaPacRequestV) -> Seq<Option<Seq<u8>>> {
    seq![
        Some(<bool as Asn1>::der(v.pac_wanted)),
    ]
}

/// The [`PaPacRequest`] of tagged fields.
#[verifier::opaque]
pub open spec fn pa_pac_request_of(f: Seq<Option<Seq<u8>>>) -> Option<PaPacRequestV> {
    let pac_wanted = req::<bool>(f[0]);
    if pac_wanted is Some {
        Some(PaPacRequestV { pac_wanted: pac_wanted->0 })
    } else {
        None
    }
}

impl Asn1 for PaPacRequest {
    open spec fn der(v: PaPacRequestV) -> Seq<u8> {
        sequence(pa_pac_request_fields(v))
    }

    open spec fn parse(s: Seq<u8>) -> Option<PaPacRequestV> {
        match sequence_fields(s, 1) {
            Some(f) => pa_pac_request_of(f),
            None => None,
        }
    }

    fn encode(&self) -> (r: Vec<u8>) {
        proof {
            reveal(pa_pac_request_fields);
            reveal(pa_pac_request_of);
        }
        let mut fs: Vec<Option<Vec<u8>>> = Vec::new();
        fs.push(Some(self.pac_wanted.encode()));
        assert(fields_view(fs@) =~= pa_pac_request_fields(self@));
        assert(pa_pac_request_of(fields_view(fs@)) == Some(self@));
        make_sequence(&fs)
    }

    fn decode(s: &[u8]) -> (r: Option<PaPacRequest>) {
        proof {
            reveal(pa_pac_request_of);
        }
        let fs = match parse_sequence(s, 1) {
            Some(fs) => fs,
            None => return None,
        };
        let pac_wanted = match take_req::<bool>(&fs[0]) {
            Some(x) => x,
            None => return None,
        };
        Some(PaPacRequest { pac_wanted })
    }
}

/// PAC options.
#[derive(Debug, Clone)]
pub struct PaPacOptions {
    /// Option flags.
    pub flags: FlagBits,
}

/// Model of [`PaPacOptions`].
pub struct PaPacOptionsV {
    pub flags: u32,
}

impl View for PaPacOptions {
    type V = PaPacOptionsV;

    open spec fn view(&self) -> PaPacOptionsV {
        PaPacOptionsV {
            flags: self.flags@,
        }
    }
}

impl Dup for PaPacOptions {
    fn dup(&self) -> (r: Self) {
        PaPacOptions {
            flags: self.flags,
        }
    }
}

/// The tagged fields of a [`PaPacOptions`].
#[verifier::opaque]
pub open spec fn pa_pac_options_fields(v: PaPacOptionsV) -> Seq<Option<Seq<u8>>> {
    seq![
        Some(<FlagBits as Asn1>::der(v.flags)),
    ]
}

/// The [`PaPacOptions`] of tagged fields.
#[verifier::opaque]
pub open spec fn pa_pac_options_of(f: Seq<Option<Seq<u8>>>) -> Option<PaPacOptionsV> {
    let flags = req::<FlagBits>(f[0]);
    if flags is Some {
        Some(PaPacOptionsV { flags: flags->0 })
    } else {
        None
    }
}

impl Asn1 for PaPacOptions {
    open spec fn der(v: PaPacOptionsV) -> Seq<u8> {
        sequence(pa_pac_options_fields(v))
    }

    open spec fn parse(s: Seq<u8>) -> Option<PaPacOptionsV> {
        match sequence_fields(s, 1) {
            Some(f) => pa_pac_options_of(f),
            None => None,
        }
    }

    fn encode(&self) -> (r: Vec<u8>) {
        proof {
            reveal(pa_pac_options_fields);
            reveal(pa_pac_options_of);
        }
        let mut fs: Vec<Option<Vec<u8>>> = Vec::new();
        fs.push(Some(self.flags.encode()));
        assert(fields_view(fs@) =~= pa_pac_options_fields(self@));
        assert(pa_pac_options_of(fields_view(fs@)) == Some(self@));
        make_sequence(&fs)
    }

    fn decode(s: &[u8]) -> (r: Option<PaPacOptions>) {
        proof {
            reveal(pa_pac_options_of);
        }
        let fs = match parse_sequence(s, 1) {
            Some(fs) => fs,
            None => return None,
        };
        let flags = match take_req::<FlagBits>(&fs[0]) {
            Some(x) => x,
            None => return None,
        };
        Some(PaPacOptions { flags })
    }
}

/// An AS-REQ message.
#[derive(Debug, Clone)]
pub struct AsReq(pub KdcReq);

impl View for AsReq {
    type V = KdcReqV;

    open spec fn view(&self) -> KdcReqV {
        self.0@
    }
}

impl Asn1 for AsReq {
    open spec fn der(v: KdcReqV) -> Seq<u8> {
        tlv(0x6A, <KdcReq as Asn1>::der(v))
    }

    open spec fn parse(s: Seq<u8>) -> Option<KdcReqV> {
        match untag(s, 0x6A) {
            Some(c) => <KdcReq as Asn1>::parse(c),
            None => None,
        }
    }

    fn encode(&self) -> (r: Vec<u8>) {
        let s = self.0.encode();
        proof {
            assert(s.len() <= usize::MAX);
            lemma_untag(0x6A, s@);
        }
        make_tlv(0x6A, &s)
    }

    fn decode(s: &[u8]) -> (r: Option<AsReq>) {
        match strip_tag(s, 0x6A) {
            Some(c) => match <KdcReq as Asn1>::decode(c) {
                Some(x) => Some(AsReq(x)),
                None => None,
            },
            None => None,
        }
    }
}

/// A TGS-REQ message.
#[derive(Debug, Clone)]
pub struct TgsReq(pub KdcReq);

impl View for TgsReq {
    type V = KdcReqV;

    open spec fn view(&self) -> KdcReqV {
        self.0@
    }
}

impl Asn1 for TgsReq {
    open spec fn der(v: KdcReqV) -> Seq<u8> {
        tlv(0x6C, <KdcReq as Asn1>::der(v))
    }

    open spec fn parse(s: Seq<u8>) -> Option<KdcReqV> {
        match untag(s, 0x6C) {
            Some(c) => <KdcReq as Asn1>::parse(c),
            None => None,
        }
    }

    fn encode(&self) -> (r: Vec<u8>) {
        let s = self.0.encode();
        proof {
            assert(s.len() <= usize::MAX);
            lemma_untag(0x6C, s@);
        }
        make_tlv(0x6C, &s)
    }

    fn decode(s: &[u8]) -> (r: Option<TgsReq>) {
        match strip_tag(s, 0x6C) {
            Some(c) => match <KdcReq as Asn1>::decode(c) {
                Some(x) => Some(TgsReq(x)),
                None => None,
            },
            None => None,
        }
    }
}

/// An AS-REP message.
#[derive(Debug, Clone)]
pub struct AsRep(pub KdcRep);

impl View for AsRep {
    type V = KdcRepV;

    open spec fn view(&self) -> KdcRepV {
        self.0@
    }
}

impl Asn1 for AsRep {
    open spec fn der(v: KdcRepV) -> Seq<u8> {
        tlv(0x6B, <KdcRep as Asn1>::der(v))
    }

    open spec fn parse(s: Seq<u8>) -> Option<KdcRepV> {
        match untag(s, 0x6B) {
            Some(c) => <KdcRep as Asn1>::parse(c),
            None => None,
        }
    }

    fn encode(&self) -> (r: Vec<u8>) {
        let s = self.0.encode();
        proof {
            assert(s.len() <= usize::MAX);
            lemma_untag(0x6B, s@);
        }
        make_tlv(0x6B, &s)
    }

    fn decode(s: &[u8]) -> (r: Option<AsRep>) {
        match strip_tag(s, 0x6B) {
            Some(c) => match <KdcRep as Asn1>::decode(c) {
                Some(x) => Some(AsRep(x)),
                None => None,
            },
            None => None,
        }
    }
}

/// A TGS-REP message.
#[derive(Debug, Clone)]
pub struct TgsRep(pub KdcRep);

impl View for TgsRep {
    type V = KdcRepV;

    open spec fn view(&self) -> KdcRepV {
        self.0@
    }
}

impl Asn1 for TgsRep {
    open spec fn der(v: KdcRepV) -> Seq<u8> {
        tlv(0x6D, <KdcRep as Asn1>::der(v))
    }

    open spec fn parse(s: Seq<u8>) -> Option<KdcRepV> {
        match untag(s, 0x6D) {
            Some(c) => <KdcRep as Asn1>::parse(c),
            None => None,
        }
    }

    fn encode(&self) -> (r: Vec<u8>) {
        let s = self.0.encode();
        proof {
            assert(s.len() <= usize::MAX);
            lemma_untag(0x6D, s@);
        }
        make_tlv(0x6D, &s)
    }

    fn decode(s: &[u8]) -> (r: Option<TgsRep>) {
        match strip_tag(s, 0x6D) {
            Some(c) => match <KdcRep as Asn1>::decode(c) {
                Some(x) => Some(TgsRep(x)),
                None => None,
            },
            None => None,
        }
    }
}

/// The encrypted part of an AS-REP.
#[derive(Debug, Clone)]
pub struct EncAsRepPart(pub EncKdcRepPart);

impl View for EncAsRepPart {
    type V = EncKdcRepPartV;

    open spec fn view(&self) -> EncKdcRepPartV {
        self.0@
    }
}

impl Asn1 for EncAsRepPart {
    open spec fn der(v: EncKdcRepPartV) -> Seq<u8> {
        tlv(0x79, <EncKdcRepPart as Asn1>::der(v))
    }

    open spec fn parse(s: Seq<u8>) -> Option<EncKdcRepPartV> {
        match untag(s, 0x79) {
            Some(c) => <EncKdcRepPart as Asn1>::parse(c),
            None => None,
        }
    }

    fn encode(&self) -> (r: Vec<u8>) {
        let s = self.0.encode();
        proof {
            assert(s.len() <= usize::MAX);
            lemma_untag(0x79, s@);
        }
        make_tlv(0x79, &s)
    }

    fn decode(s: &[u8]) -> (r: Option<EncAsRepPart>) {
        match strip_tag(s, 0x79) {
            Some(c) => match <EncKdcRepPart as Asn1>::decode(c) {
                Some(x) => Some(EncAsRepPart(x)),
                None => None,
            },
            None => None,
        }
    }
}

/// The encrypted part of a TGS-REP.
#[derive(Debug, Clone)]
pub struct EncTgsRepPart(pub EncKdcRepPart);

impl View for EncTgsRepPart {
    type V = EncKdcRepPartV;

    open spec fn view(&self) -> EncKdcRepPartV {
        self.0@
    }
}

impl Asn1 for EncTgsRepPart {
    open spec fn der(v: EncKdcRepPartV) -> Seq<u8> {
        tlv(0x7A, <EncKdcRepPart as Asn1>::der(v))
    }

    open spec fn parse(s: Seq<u8>) -> Option<EncKdcRepPartV> {
        match untag(s, 0x7A) {
            Some(c) => <EncKdcRepPart as Asn1>::parse(c),
            None => None,
        }
    }

    fn encode(&self) -> (r: Vec<u8>) {
        let s = self.0.encode();
        proof {
            assert(s.len() <= usize::MAX);
            lemma_untag(0x7A, s@);
        }
        make_tlv(0x7A, &s)
    }

    fn decode(s: &[u8]) -> (r: Option<EncTgsRepPart>) {
        match strip_tag(s, 0x7A) {
            Some(c) => match <EncKdcRepPart as Asn1>::decode(c) {
                Some(x) => Some(EncTgsRepPart(x)),
                None => None,
            },
            None => None,
        }
    }
}

} // verus!
