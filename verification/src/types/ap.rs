//! The AP exchange and the SAFE, PRIV and CRED messages.
use vstd::prelude::*;

use crate::asn1::{der_of_time, dup_list, dup_opt, dup_opt_list, encode_list, list_der, opt, opt_der, opt_list, opt_list_der, opt_list_view, opt_time, opt_time_der, put_opt, put_opt_list, put_opt_time, put_time, req, req_list, req_time, take_opt, take_opt_list, take_opt_time, take_req, take_req_list, take_req_time, Asn1, Dup, FlagBits, GeneralString};
use crate::der::{fields_view, lemma_untag, list_view, make_sequence, make_tlv, opt_view, parse_sequence, sequence, sequence_fields, strip_tag, tlv, untag};
use crate::time::{KerberosTime, TimeV};
use crate::types::common::{AuthorizationDataElement, AuthorizationDataElementV, Checksum, ChecksumV, EncryptedData, EncryptedDataV, EncryptionKey, EncryptionKeyV, HostAddress, HostAddressV, PrincipalName, PrincipalNameV, Ticket, TicketV};

verus! {

/// The realms a ticket passed.
#[derive(Debug, Clone)]
pub struct TransitedEncoding {
    /// Encoding type.
    pub tr_type: i32,
    /// Encoded realms.
    pub contents: Vec<u8>,
}

/// Model of [`TransitedEncoding`].
pub struct TransitedEncodingV {
    pub tr_type: i32,
    pub contents: Seq<u8>,
}

impl View for TransitedEncoding {
    type V = TransitedEncodingV;

    open spec fn view(&self) -> TransitedEncodingV {
        TransitedEncodingV {
            tr_type: self.tr_type@,
            contents: self.contents@,
        }
    }
}

impl Dup for TransitedEncoding {
    fn dup(&self) -> (r: Self) {
        TransitedEncoding {
            tr_type: self.tr_type,
            contents: self.contents.dup(),
        }
    }
}

/// The tagged fields of a [`TransitedEncoding`].
#[verifier::opaque]
pub open spec fn transited_encoding_fields(v: TransitedEncodingV) -> Seq<Option<Seq<u8>>> {
    seq![
        Some(<i32 as Asn1>::der(v.tr_type)),
        Some(<Vec<u8> as Asn1>::der(v.contents)),
    ]
}

/// The [`TransitedEncoding`] of tagged fields.
#[verifier::opaque]
pub open spec fn transited_encoding_of(f: Seq<Option<Seq<u8>>>) -> Option<TransitedEncodingV> {
    let tr_type = req::<i32>(f[0]);
    let contents = req::<Vec<u8>>(f[1]);
    if tr_type is Some && contents is Some {
        Some(TransitedEncodingV { tr_type: tr_type->0, contents: contents->0 })
    } else {
        None
    }
}

impl Asn1 for TransitedEncoding {
    open spec fn der(v: TransitedEncodingV) -> Seq<u8> {
        sequence(transited_encoding_fields(v))
    }

    open spec fn parse(s: Seq<u8>) -> Option<TransitedEncodingV> {
        match sequence_fields(s, 2) {
            Some(f) => transited_encoding_of(f),
            None => None,
        }
    }

    fn encode(&self) -> (r: Vec<u8>) {
        proof {
            reveal(transited_encoding_fields);
            reveal(transited_encoding_of);
        }
        let mut fs: Vec<Option<Vec<u8>>> = Vec::new();
        fs.push(Some(self.tr_type.encode()));
        fs.push(Some(self.contents.encode()));
        assert(fields_view(fs@) =~= transited_encoding_fields(self@));
        assert(transited_encoding_of(fields_view(fs@)) == Some(self@));
        make_sequence(&fs)
    }

    fn decode(s: &[u8]) -> (r: Option<TransitedEncoding>) {
        proof {
            reveal(transited_encoding_of);
        }
        let fs = match parse_sequence(s, 2) {
            Some(fs) => fs,
            None => return None,
        };
        let tr_type: i32 = match take_req::<i32>(&fs[0]) {
            Some(x) => x,
            None => return None,
        };
        let contents = match take_req::<Vec<u8>>(&fs[1]) {
            Some(x) => x,
            None => return None,
        };
        Some(TransitedEncoding { tr_type, contents })
    }
}

/// The encrypted part of a ticket.
#[derive(Debug, Clone)]
pub struct EncTicketPart {
    /// Ticket flags.
    pub flags: FlagBits,
    /// Session key.
    pub key: EncryptionKey,
    /// Client realm.
    pub crealm: GeneralString,
    /// Client name.
    pub cname: PrincipalName,
    /// Transited realms.
    pub transited: TransitedEncoding,
    /// Time of initial authentication.
    pub authtime: KerberosTime,
    /// Start of validity.
    pub starttime: Option<KerberosTime>,
    /// End of validity.
    pub endtime: KerberosTime,
    /// Renewable till.
    pub renew_till: Option<KerberosTime>,
    /// Addresses the ticket is good from.
    pub caddr: Option<Vec<HostAddress>>,
    /// Authorization data.
    pub authorization_data: Option<Vec<AuthorizationDataElement>>,
}

/// Model of [`EncTicketPart`].
pub struct EncTicketPartV {
    pub flags: u32,
    pub key: EncryptionKeyV,
    pub crealm: Seq<u8>,
    pub cname: PrincipalNameV,
    pub transited: TransitedEncodingV,
    pub authtime: TimeV,
    pub starttime: Option<TimeV>,
    pub endtime: TimeV,
    pub renew_till: Option<TimeV>,
    pub caddr: Option<Seq<HostAddressV>>,
    pub authorization_data: Option<Seq<AuthorizationDataElementV>>,
}

impl View for EncTicketPart {
    type V = EncTicketPartV;

    open spec fn view(&self) -> EncTicketPartV {
        EncTicketPartV {
            flags: self.flags@,
            key: self.key@,
            crealm: self.crealm@,
            cname: self.cname@,
            transited: self.transited@,
            authtime: self.authtime@,
            starttime: opt_view(self.starttime),
            endtime: self.endtime@,
            renew_till: opt_view(self.renew_till),
            caddr: opt_list_view(self.caddr),
            authorization_data: opt_list_view(self.authorization_data),
        }
    }
}

impl Dup for EncTicketPart {
    fn dup(&self) -> (r: Self) {
        EncTicketPart {
            flags: self.flags,
            key: self.key.dup(),
            crealm: self.crealm.dup(),
            cname: self.cname.dup(),
            transited: self.transited.dup(),
            authtime: self.authtime,
            starttime: self.starttime,
            endtime: self.endtime,
            renew_till: self.renew_till,
            caddr: dup_opt_list(&self.caddr),
            authorization_data: dup_opt_list(&self.authorization_data),
        }
    }
}

/// The tagged fields of a [`EncTicketPart`].
#[verifier::opaque]
pub open spec fn enc_ticket_part_fields(v: EncTicketPartV) -> Seq<Option<Seq<u8>>> {
    seq![
        Some(<FlagBits as Asn1>::der(v.flags)),
        Some(<EncryptionKey as Asn1>::der(v.key)),
        Some(<GeneralString as Asn1>::der(v.crealm)),
        Some(<PrincipalName as Asn1>::der(v.cname)),
        Some(<TransitedEncoding as Asn1>::der(v.transited)),
        Some(der_of_time(v.authtime)),
        opt_time_der(v.starttime),
        Some(der_of_time(v.endtime)),
        opt_time_der(v.renew_till),
        opt_list_der::<HostAddress>(v.caddr),
        opt_list_der::<AuthorizationDataElement>(v.authorization_data),
    ]
}

/// The [`EncTicketPart`] of tagged fields.
#[verifier::opaque]
pub open spec fn enc_ticket_part_of(f: Seq<Option<Seq<u8>>>) -> Option<EncTicketPartV> {
    let flags = req::<FlagBits>(f[0]);
    let key = req::<EncryptionKey>(f[1]);
    let crealm = req::<GeneralString>(f[2]);
    let cname = req::<PrincipalName>(f[3]);
    let transited = req::<TransitedEncoding>(f[4]);
    let authtime = req_time(f[5]);
    let starttime = opt_time(f[6]);
    let endtime = req_time(f[7]);
    let renew_till = opt_time(f[8]);
    let caddr = opt_list::<HostAddress>(f[9]);
    let authorization_data = opt_list::<AuthorizationDataElement>(f[10]);
    if flags is Some && key is Some && crealm is Some && cname is Some && transited is Some && authtime is Some && starttime is Some && endtime is Some && renew_till is Some && caddr is Some && authorization_data is Some {
        Some(EncTicketPartV { flags: flags->0, key: key->0, crealm: crealm->0, cname: cname->0, transited: transited->0, authtime: authtime->0, starttime: starttime->0, endtime: endtime->0, renew_till: renew_till->0, caddr: caddr->0, authorization_data: authorization_data->0 })
    } else {
        None
    }
}

impl Asn1 for EncTicketPart {
    open spec fn der(v: EncTicketPartV) -> Seq<u8> {
        tlv(0x63, sequence(enc_ticket_part_fields(v)))
    }

    open spec fn parse(s: Seq<u8>) -> Option<EncTicketPartV> {
        match untag(s, 0x63) {
            Some(c) => match sequence_fields(c, 11) {
                Some(f) => enc_ticket_part_of(f),
                None => None,
            },
            None => None,
        }
    }

    fn encode(&self) -> (r: Vec<u8>) {
        proof {
            reveal(enc_ticket_part_fields);
            reveal(enc_ticket_part_of);
        }
        let mut fs: Vec<Option<Vec<u8>>> = Vec::new();
        fs.push(Some(self.flags.encode()));
        fs.push(Some(self.key.encode()));
        fs.push(Some(self.crealm.encode()));
        fs.push(Some(self.cname.encode()));
        fs.push(Some(self.transited.encode()));
        fs.push(put_time(&self.authtime));
        fs.push(put_opt_time(&self.starttime));
        fs.push(put_time(&self.endtime));
        fs.push(put_opt_time(&self.renew_till));
        fs.push(put_opt_list(&self.caddr));
        fs.push(put_opt_list(&self.authorization_data));
        assert(fields_view(fs@) =~= enc_ticket_part_fields(self@));
        assert(enc_ticket_part_of(fields_view(fs@)) == Some(self@));
        let s = make_sequence(&fs);
        proof {
            assert(s.len() <= usize::MAX);
            lemma_untag(0x63, s@);
        }
        make_tlv(0x63, &s)
    }

    fn decode(s: &[u8]) -> (r: Option<EncTicketPart>) {
        proof {
            reveal(enc_ticket_part_of);
        }
        let c = match strip_tag(s, 0x63) {
            Some(c) => c,
            None => return None,
        };
        let fs = match parse_sequence(c, 11) {
            Some(fs) => fs,
            None => return None,
        };
        let flags = match take_req::<FlagBits>(&fs[0]) {
            Some(x) => x,
            None => return None,
        };
        let key = match take_req::<EncryptionKey>(&fs[1]) {
            Some(x) => x,
            None => return None,
        };
        let crealm = match take_req::<GeneralString>(&fs[2]) {
            Some(x) => x,
            None => return None,
        };
        let cname = match take_req::<PrincipalName>(&fs[3]) {
            Some(x) => x,
            None => return None,
        };
        let transited = match take_req::<TransitedEncoding>(&fs[4]) {
            Some(x) => x,
            None => return None,
        };
        let authtime = match take_req_time(&fs[5]) {
            Some(x) => x,
            None => return None,
        };
        let starttime = match take_opt_time(&fs[6]) {
            Some(x) => x,
            None => return None,
        };
        let endtime = match take_req_time(&fs[7]) {
            Some(x) => x,
            None => return None,
        };
        let renew_till = match take_opt_time(&fs[8]) {
            Some(x) => x,
            None => return None,
        };
        let caddr = match take_opt_list::<HostAddress>(&fs[9]) {
            Some(x) => x,
            None => return None,
        };
        let authorization_data = match take_opt_list::<AuthorizationDataElement>(&fs[10]) {
            Some(x) => x,
            None => return None,
        };
        Some(EncTicketPart { flags, key, crealm, cname, transited, authtime, starttime, endtime, renew_till, caddr, authorization_data })
    }
}

/// An authenticator.
#[derive(Debug, Clone)]
pub struct Authenticator {
    /// Authenticator version.
    pub authenticator_vno: i32,
    /// Client realm.
    pub crealm: GeneralString,
    /// Client name.
    pub cname: PrincipalName,
    /// Application checksum.
    pub cksum: Option<Checksum>,
    /// Client microseconds.
    pub cusec: i32,
    /// Client time.
    pub ctime: KerberosTime,
    /// Client subkey.
    pub subkey: Option<EncryptionKey>,
    /// Initial sequence number.
    pub seq_number: Option<u32>,
    /// Authorization data.
    pub authorization_data: Option<Vec<AuthorizationDataElement>>,
}

/// Model of [`Authenticator`].
pub struct AuthenticatorV {
    pub authenticator_vno: i32,
    pub crealm: Seq<u8>,
    pub cname: PrincipalNameV,
    pub cksum: Option<ChecksumV>,
    pub cusec: i32,
    pub ctime: TimeV,
    pub subkey: Option<EncryptionKeyV>,
    pub seq_number: Option<u32>,
    pub authorization_data: Option<Seq<AuthorizationDataElementV>>,
}

impl View for Authenticator {
    type V = AuthenticatorV;

    open spec fn view(&self) -> AuthenticatorV {
        AuthenticatorV {
            authenticator_vno: self.authenticator_vno@,
            crealm: self.crealm@,
            cname: self.cname@,
            cksum: opt_view(self.cksum),
            cusec: self.cusec@,
            ctime: self.ctime@,
            subkey: opt_view(self.subkey),
            seq_number: opt_view(self.seq_number),
            authorization_data: opt_list_view(self.authorization_data),
        }
    }
}

impl Dup for Authenticator {
    fn dup(&self) -> (r: Self) {
        Authenticator {
            authenticator_vno: self.authenticator_vno,
            crealm: self.crealm.dup(),
            cname: self.cname.dup(),
            cksum: dup_opt(&self.cksum),
            cusec: self.cusec,
            ctime: self.ctime,
            subkey: dup_opt(&self.subkey),
            seq_number: self.seq_number,
            authorization_data: dup_opt_list(&self.authorization_data),
        }
    }
}

/// The tagged fields of a [`Authenticator`].
#[verifier::opaque]
pub open spec fn authenticator_fields(v: AuthenticatorV) -> Seq<Option<Seq<u8>>> {
    seq![
        Some(<i32 as Asn1>::der(v.authenticator_vno)),
        Some(<GeneralString as Asn1>::der(v.crealm)),
        Some(<PrincipalName as Asn1>::der(v.cname)),
        opt_der::<Checksum>(v.cksum),
        Some(<i32 as Asn1>::der(v.cusec)),
        Some(der_of_time(v.ctime)),
        opt_der::<EncryptionKey>(v.subkey),
        opt_der::<u32>(v.seq_number),
        opt_list_der::<AuthorizationDataElement>(v.authorization_data),
    ]
}

/// The [`Authenticator`] of tagged fields.
#[verifier::opaque]
pub open spec fn authenticator_of(f: Seq<Option<Seq<u8>>>) -> Option<AuthenticatorV> {
    let authenticator_vno = req::<i32>(f[0]);
    let crealm = req::<GeneralString>(f[1]);
    let cname = req::<PrincipalName>(f[2]);
    let cksum = opt::<Checksum>(f[3]);
    let cusec = req::<i32>(f[4]);
    let ctime = req_time(f[5]);
    let subkey = opt::<EncryptionKey>(f[6]);
    let seq_number = opt::<u32>(f[7]);
    let authorization_data = opt_list::<AuthorizationDataElement>(f[8]);
    if authenticator_vno is Some && crealm is Some && cname is Some && cksum is Some && cusec is Some && ctime is Some && subkey is Some && seq_number is Some && authorization_data is Some {
        Some(AuthenticatorV { authenticator_vno: authenticator_vno->0, crealm: crealm->0, cname: cname->0, cksum: cksum->0, cusec: cusec->0, ctime: ctime->0, subkey: subkey->0, seq_number: seq_number->0, authorization_data: authorization_data->0 })
    } else {
        None
    }
}

impl Asn1 for Authenticator {
    open spec fn der(v: AuthenticatorV) -> Seq<u8> {
        tlv(0x62, sequence(authenticator_fields(v)))
    }

    open spec fn parse(s: Seq<u8>) -> Option<AuthenticatorV> {
        match untag(s, 0x62) {
            Some(c) => match sequence_fields(c, 9) {
                Some(f) => authenticator_of(f),
                None => None,
            },
            None => None,
        }
    }

    fn encode(&self) -> (r: Vec<u8>) {
        proof {
            reveal(authenticator_fields);
            reveal(authenticator_of);
        }
        let mut fs: Vec<Option<Vec<u8>>> = Vec::new();
        fs.push(Some(self.authenticator_vno.encode()));
        fs.push(Some(self.crealm.encode()));
        fs.push(Some(self.cname.encode()));
        fs.push(put_opt(&self.cksum));
        fs.push(Some(self.cusec.encode()));
        fs.push(put_time(&self.ctime));
        fs.push(put_opt(&self.subkey));
        fs.push(put_opt(&self.seq_number));
        fs.push(put_opt_list(&self.authorization_data));
        assert(fields_view(fs@) =~= authenticator_fields(self@));
        assert(authenticator_of(fields_view(fs@)) == Some(self@));
        let s = make_sequence(&fs);
        proof {
            assert(s.len() <= usize::MAX);
            lemma_untag(0x62, s@);
        }
        make_tlv(0x62, &s)
    }

    fn decode(s: &[u8]) -> (r: Option<Authenticator>) {
        proof {
            reveal(authenticator_of);
        }
        let c = match strip_tag(s, 0x62) {
            Some(c) => c,
            None => return None,
        };
        let fs = match parse_sequence(c, 9) {
            Some(fs) => fs,
            None => return None,
        };
        let authenticator_vno: i32 = match take_req::<i32>(&fs[0]) {
            Some(x) => x,
            None => return None,
        };
        let crealm = match take_req::<GeneralString>(&fs[1]) {
            Some(x) => x,
            None => return None,
        };
        let cname = match take_req::<PrincipalName>(&fs[2]) {
            Some(x) => x,
            None => return None,
        };
        let cksum = match take_opt::<Checksum>(&fs[3]) {
            Some(x) => x,
            None => return None,
        };
        let cusec: i32 = match take_req::<i32>(&fs[4]) {
            Some(x) => x,
            None => return None,
        };
        let ctime = match take_req_time(&fs[5]) {
            Some(x) => x,
            None => return None,
        };
        let subkey = match take_opt::<EncryptionKey>(&fs[6]) {
            Some(x) => x,
            None => return None,
        };
        let seq_number: Option<u32> = match take_opt::<u32>(&fs[7]) {
            Some(x) => x,
            None => return None,
        };
        let authorization_data = match take_opt_list::<AuthorizationDataElement>(&fs[8]) {
            Some(x) => x,
            None => return None,
        };
        Some(Authenticator { authenticator_vno, crealm, cname, cksum, cusec, ctime, subkey, seq_number, authorization_data })
    }
}

/// An AP-REQ message.
#[derive(Debug, Clone)]
pub struct ApReq {
    /// Protocol version.
    pub pvno: i32,
    /// Message type.
    pub msg_type: i32,
    /// AP options.
    pub ap_options: FlagBits,
    /// The ticket.
    pub ticket: Ticket,
    /// The encrypted authenticator.
    pub authenticator: EncryptedData,
}

/// Model of [`ApReq`].
pub struct ApReqV {
    pub pvno: i32,
    pub msg_type: i32,
    pub ap_options: u32,
    pub ticket: TicketV,
    pub authenticator: EncryptedDataV,
}

impl View for ApReq {
    type V = ApReqV;

    open spec fn view(&self) -> ApReqV {
        ApReqV {
            pvno: self.pvno@,
            msg_type: self.msg_type@,
            ap_options: self.ap_options@,
            ticket: self.ticket@,
            authenticator: self.authenticator@,
        }
    }
}

impl Dup for ApReq {
    fn dup(&self) -> (r: Self) {
        ApReq {
            pvno: self.pvno,
            msg_type: self.msg_type,
            ap_options: self.ap_options,
            ticket: self.ticket.dup(),
            authenticator: self.authenticator.dup(),
        }
    }
}

/// The tagged fields of a [`ApReq`].
#[verifier::opaque]
pub open spec fn ap_req_fields(v: ApReqV) -> Seq<Option<Seq<u8>>> {
    seq![
        Some(<i32 as Asn1>::der(v.pvno)),
        Some(<i32 as Asn1>::der(v.msg_type)),
        Some(<FlagBits as Asn1>::der(v.ap_options)),
        Some(<Ticket as Asn1>::der(v.ticket)),
        Some(<EncryptedData as Asn1>::der(v.authenticator)),
    ]
}

/// The [`ApReq`] of tagged fields.
#[verifier::opaque]
pub open spec fn ap_req_of(f: Seq<Option<Seq<u8>>>) -> Option<ApReqV> {
    let pvno = req::<i32>(f[0]);
    let msg_type = req::<i32>(f[1]);
    let ap_options = req::<FlagBits>(f[2]);
    let ticket = req::<Ticket>(f[3]);
    let authenticator = req::<EncryptedData>(f[4]);
    if pvno is Some && msg_type is Some && ap_options is Some && ticket is Some && authenticator is Some {
        Some(ApReqV { pvno: pvno->0, msg_type: msg_type->0, ap_options: ap_options->0, ticket: ticket->0, authenticator: authenticator->0 })
    } else {
        None
    }
}

impl Asn1 for ApReq {
    open spec fn der(v: ApReqV) -> Seq<u8> {
        tlv(0x6E, sequence(ap_req_fields(v)))
    }

    open spec fn parse(s: Seq<u8>) -> Option<ApReqV> {
        match untag(s, 0x6E) {
            Some(c) => match sequence_fields(c, 5) {
                Some(f) => ap_req_of(f),
                None => None,
            },
            None => None,
        }
    }

    fn encode(&self) -> (r: Vec<u8>) {
        proof {
            reveal(ap_req_fields);
            reveal(ap_req_of);
        }
        let mut fs: Vec<Option<Vec<u8>>> = Vec::new();
        fs.push(Some(self.pvno.encode()));
        fs.push(Some(self.msg_type.encode()));
        fs.push(Some(self.ap_options.encode()));
        fs.push(Some(self.ticket.encode()));
        fs.push(Some(self.authenticator.encode()));
        assert(fields_view(fs@) =~= ap_req_fields(self@));
        assert(ap_req_of(fields_view(fs@)) == Some(self@));
        let s = make_sequence(&fs);
        proof {
            assert(s.len() <= usize::MAX);
            lemma_untag(0x6E, s@);
        }
        make_tlv(0x6E, &s)
    }

    fn decode(s: &[u8]) -> (r: Option<ApReq>) {
        proof {
            reveal(ap_req_of);
        }
        let c = match strip_tag(s, 0x6E) {
            Some(c) => c,
            None => return None,
        };
        let fs = match parse_sequence(c, 5) {
            Some(fs) => fs,
            None => return None,
        };
        let pvno: i32 = match take_req::<i32>(&fs[0]) {
            Some(x) => x,
            None => return None,
        };
        let msg_type: i32 = match take_req::<i32>(&fs[1]) {
            Some(x) => x,
            None => return None,
        };
        let ap_options = match take_req::<FlagBits>(&fs[2]) {
            Some(x) => x,
            None => return None,
        };
        let ticket = match take_req::<Ticket>(&fs[3]) {
            Some(x) => x,
            None => return None,
        };
        let authenticator = match take_req::<EncryptedData>(&fs[4]) {
            Some(x) => x,
            None => return None,
        };
        Some(ApReq { pvno, msg_type, ap_options, ticket, authenticator })
    }
}

/// An AP-REP message.
#[derive(Debug, Clone)]
pub struct ApRep {
    /// Protocol version.
    pub pvno: i32,
    /// Message type.
    pub msg_type: i32,
    /// The encrypted part.
    pub enc_part: EncryptedData,
}

/// Model of [`ApRep`].
pub struct ApRepV {
    pub pvno: i32,
    pub msg_type: i32,
    pub enc_part: EncryptedDataV,
}

impl View for ApRep {
    type V = ApRepV;

    open spec fn view(&self) -> ApRepV {
        ApRepV {
            pvno: self.pvno@,
            msg_type: self.msg_type@,
            enc_part: self.enc_part@,
        }
    }
}

impl Dup for ApRep {
    fn dup(&self) -> (r: Self) {
        ApRep {
            pvno: self.pvno,
            msg_type: self.msg_type,
            enc_part: self.enc_part.dup(),
        }
    }
}

/// The tagged fields of a [`ApRep`].
#[verifier::opaque]
pub open spec fn ap_rep_fields(v: ApRepV) -> Seq<Option<Seq<u8>>> {
    seq![
        Some(<i32 as Asn1>::der(v.pvno)),
        Some(<i32 as Asn1>::der(v.msg_type)),
        Some(<EncryptedData as Asn1>::der(v.enc_part)),
    ]
}

/// The [`ApRep`] of tagged fields.
#[verifier::opaque]
pub open spec fn ap_rep_of(f: Seq<Option<Seq<u8>>>) -> Option<ApRepV> {
    let pvno = req::<i32>(f[0]);
    let msg_type = req::<i32>(f[1]);
    let enc_part = req::<EncryptedData>(f[2]);
    if pvno is Some && msg_type is Some && enc_part is Some {
        Some(ApRepV { pvno: pvno->0, msg_type: msg_type->0, enc_part: enc_part->0 })
    } else {
        None
    }
}

impl Asn1 for ApRep {
    open spec fn der(v: ApRepV) -> Seq<u8> {
        tlv(0x6F, sequence(ap_rep_fields(v)))
    }

    open spec fn parse(s: Seq<u8>) -> Option<ApRepV> {
        match untag(s, 0x6F) {
            Some(c) => match sequence_fields(c, 3) {
                Some(f) => ap_rep_of(f),
                None => None,
            },
            None => None,
        }
    }

    fn encode(&self) -> (r: Vec<u8>) {
        proof {
            reveal(ap_rep_fields);
            reveal(ap_rep_of);
        }
        let mut fs: Vec<Option<Vec<u8>>> = Vec::new();
        fs.push(Some(self.pvno.encode()));
        fs.push(Some(self.msg_type.encode()));
        fs.push(Some(self.enc_part.encode()));
        assert(fields_view(fs@) =~= ap_rep_fields(self@));
        assert(ap_rep_of(fields_view(fs@)) == Some(self@));
        let s = make_sequence(&fs);
        proof {
            assert(s.len() <= usize::MAX);
            lemma_untag(0x6F, s@);
        }
        make_tlv(0x6F, &s)
    }

    fn decode(s: &[u8]) -> (r: Option<ApRep>) {
        proof {
            reveal(ap_rep_of);
        }
        let c = match strip_tag(s, 0x6F) {
            Some(c) => c,
            None => return None,
        };
        let fs = match parse_sequence(c, 3) {
            Some(fs) => fs,
            None => return None,
        };
        let pvno: i32 = match take_req::<i32>(&fs[0]) {
            Some(x) => x,
            None => return None,
        };
        let msg_type: i32 = match take_req::<i32>(&fs[1]) {
            Some(x) => x,
            None => return None,
        };
        let enc_part = match take_req::<EncryptedData>(&fs[2]) {
            Some(x) => x,
            None => return None,
        };
        Some(ApRep { pvno, msg_type, enc_part })
    }
}

/// The encrypted part of an AP-REP.
#[derive(Debug, Clone)]
pub struct EncApRepPart {
    /// Client time, echoed.
    pub ctime: KerberosTime,
    /// Client microseconds, echoed.
    pub cusec: i32,
    /// Acceptor subkey.
    pub subkey: Option<EncryptionKey>,
    /// Initial sequence number.
    pub seq_number: Option<u32>,
}

/// Model of [`EncApRepPart`].
pub struct EncApRepPartV {
    pub ctime: TimeV,
    pub cusec: i32,
    pub subkey: Option<EncryptionKeyV>,
    pub seq_number: Option<u32>,
}

impl View for EncApRepPart {
    type V = EncApRepPartV;

    open spec fn view(&self) -> EncApRepPartV {
        EncApRepPartV {
            ctime: self.ctime@,
            cusec: self.cusec@,
            subkey: opt_view(self.subkey),
            seq_number: opt_view(self.seq_number),
        }
    }
}

impl Dup for EncApRepPart {
    fn dup(&self) -> (r: Self) {
        EncApRepPart {
            ctime: self.ctime,
            cusec: self.cusec,
            subkey: dup_opt(&self.subkey),
            seq_number: self.seq_number,
        }
    }
}

/// The tagged fields of a [`EncApRepPart`].
#[verifier::opaque]
pub open spec fn enc_ap_rep_part_fields(v: EncApRepPartV) -> Seq<Option<Seq<u8>>> {
    seq![
        Some(der_of_time(v.ctime)),
        Some(<i32 as Asn1>::der(v.cusec)),
        opt_der::<EncryptionKey>(v.subkey),
        opt_der::<u32>(v.seq_number),
    ]
}

/// The [`EncApRepPart`] of tagged fields.
#[verifier::opaque]
pub open spec fn enc_ap_rep_part_of(f: Seq<Option<Seq<u8>>>) -> Option<EncApRepPartV> {
    let ctime = req_time(f[0]);
    let cusec = req::<i32>(f[1]);
    let subkey = opt::<EncryptionKey>(f[2]);
    let seq_number = opt::<u32>(f[3]);
    if ctime is Some && cusec is Some && subkey is Some && seq_number is Some {
        Some(EncApRepPartV { ctime: ctime->0, cusec: cusec->0, subkey: subkey->0, seq_number: seq_number->0 })
    } else {
        None
    }
}

impl Asn1 for EncApRepPart {
    open spec fn der(v: EncApRepPartV) -> Seq<u8> {
        tlv(0x7B, sequence(enc_ap_rep_part_fields(v)))
    }

    open spec fn parse(s: Seq<u8>) -> Option<EncApRepPartV> {
        match untag(s, 0x7B) {
            Some(c) => match sequence_fields(c, 4) {
                Some(f) => enc_ap_rep_part_of(f),
                None => None,
            },
            None => None,
        }
    }

    fn encode(&self) -> (r: Vec<u8>) {
        proof {
            reveal(enc_ap_rep_part_fields);
            reveal(enc_ap_rep_part_of);
        }
        let mut fs: Vec<Option<Vec<u8>>> = Vec::new();
        fs.push(put_time(&self.ctime));
        fs.push(Some(self.cusec.encode()));
        fs.push(put_opt(&self.subkey));
        fs.push(put_opt(&self.seq_number));
        assert(fields_view(fs@) =~= enc_ap_rep_part_fields(self@));
        assert(enc_ap_rep_part_of(fields_view(fs@)) == Some(self@));
        let s = make_sequence(&fs);
        proof {
            assert(s.len() <= usize::MAX);
            lemma_untag(0x7B, s@);
        }
        make_tlv(0x7B, &s)
    }

    fn decode(s: &[u8]) -> (r: Option<EncApRepPart>) {
        proof {
            reveal(enc_ap_rep_part_of);
        }
        let c = match strip_tag(s, 0x7B) {
            Some(c) => c,
            None => return None,
        };
        let fs = match parse_sequence(c, 4) {
            Some(fs) => fs,
            None => return None,
        };
        let ctime = match take_req_time(&fs[0]) {
            Some(x) => x,
            None => return None,
        };
        let cusec: i32 = match take_req::<i32>(&fs[1]) {
            Some(x) => x,
            None => return None,
        };
        let subkey = match take_opt::<EncryptionKey>(&fs[2]) {
            Some(x) => x,
            None => return None,
        };
        let seq_number: Option<u32> = match take_opt::<u32>(&fs[3]) {
            Some(x) => x,
            None => return None,
        };
        Some(EncApRepPart { ctime, cusec, subkey, seq_number })
    }
}

/// The body of a KRB-SAFE.
#[derive(Debug, Clone)]
pub struct KrbSafeBody {
    /// User data.
    pub user_data: Vec<u8>,
    /// Sender time.
    pub timestamp: Option<KerberosTime>,
    /// Sender microseconds.
    pub usec: Option<i32>,
    /// Sequence number.
    pub seq_number: Option<u32>,
    /// Sender address.
    pub s_address: HostAddress,
    /// Receiver address.
    pub r_address: Option<HostAddress>,
}

/// Model of [`KrbSafeBody`].
pub struct KrbSafeBodyV {
    pub user_data: Seq<u8>,
    pub timestamp: Option<TimeV>,
    pub usec: Option<i32>,
    pub seq_number: Option<u32>,
    pub s_address: HostAddressV,
    pub r_address: Option<HostAddressV>,
}

impl View for KrbSafeBody {
    type V = KrbSafeBodyV;

    open spec fn view(&self) -> KrbSafeBodyV {
        KrbSafeBodyV {
            user_data: self.user_data@,
            timestamp: opt_view(self.timestamp),
            usec: opt_view(self.usec),
            seq_number: opt_view(self.seq_number),
            s_address: self.s_address@,
            r_address: opt_view(self.r_address),
        }
    }
}

impl Dup for KrbSafeBody {
    fn dup(&self) -> (r: Self) {
        KrbSafeBody {
            user_data: self.user_data.dup(),
            timestamp: self.timestamp,
            usec: self.usec,
            seq_number: self.seq_number,
            s_address: self.s_address.dup(),
            r_address: dup_opt(&self.r_address),
        }
    }
}

/// The tagged fields of a [`KrbSafeBody`].
#[verifier::opaque]
pub open spec fn krb_safe_body_fields(v: KrbSafeBodyV) -> Seq<Option<Seq<u8>>> {
    seq![
        Some(<Vec<u8> as Asn1>::der(v.user_data)),
        opt_time_der(v.timestamp),
        opt_der::<i32>(v.usec),
        opt_der::<u32>(v.seq_number),
        Some(<HostAddress as Asn1>::der(v.s_address)),
        opt_der::<HostAddress>(v.r_address),
    ]
}

/// The [`KrbSafeBody`] of tagged fields.
#[verifier::opaque]
pub open spec fn krb_safe_body_of(f: Seq<Option<Seq<u8>>>) -> Option<KrbSafeBodyV> {
    let user_data = req::<Vec<u8>>(f[0]);
    let timestamp = opt_time(f[1]);
    let usec = opt::<i32>(f[2]);
    let seq_number = opt::<u32>(f[3]);
    let s_address = req::<HostAddress>(f[4]);
    let r_address = opt::<HostAddress>(f[5]);
    if user_data is Some && timestamp is Some && usec is Some && seq_number is Some && s_address is Some && r_address is Some {
        Some(KrbSafeBodyV { user_data: user_data->0, timestamp: timestamp->0, usec: usec->0, seq_number: seq_number->0, s_address: s_address->0, r_address: r_address->0 })
    } else {
        None
    }
}

impl Asn1 for KrbSafeBody {
    open spec fn der(v: KrbSafeBodyV) -> Seq<u8> {
        sequence(krb_safe_body_fields(v))
    }

    open spec fn parse(s: Seq<u8>) -> Option<KrbSafeBodyV> {
        match sequence_fields(s, 6) {
            Some(f) => krb_safe_body_of(f),
            None => None,
        }
    }

    fn encode(&self) -> (r: Vec<u8>) {
        proof {
            reveal(krb_safe_body_fields);
            reveal(krb_safe_body_of);
        }
        let mut fs: Vec<Option<Vec<u8>>> = Vec::new();
        fs.push(Some(self.user_data.encode()));
        fs.push(put_opt_time(&self.timestamp));
        fs.push(put_opt(&self.usec));
        fs.push(put_opt(&self.seq_number));
        fs.push(Some(self.s_address.encode()));
        fs.push(put_opt(&self.r_address));
        assert(fields_view(fs@) =~= krb_safe_body_fields(self@));
        assert(krb_safe_body_of(fields_view(fs@)) == Some(self@));
        make_sequence(&fs)
    }

    fn decode(s: &[u8]) -> (r: Option<KrbSafeBody>) {
        proof {
            reveal(krb_safe_body_of);
        }
        let fs = match parse_sequence(s, 6) {
            Some(fs) => fs,
            None => return None,
        };
        let user_data = match take_req::<Vec<u8>>(&fs[0]) {
            Some(x) => x,
            None => return None,
        };
        let timestamp = match take_opt_time(&fs[1]) {
            Some(x) => x,
            None => return None,
        };
        let usec: Option<i32> = match take_opt::<i32>(&fs[2]) {
            Some(x) => x,
            None => return None,
        };
        let seq_number: Option<u32> = match take_opt::<u32>(&fs[3]) {
            Some(x) => x,
            None => return None,
        };
        let s_address = match take_req::<HostAddress>(&fs[4]) {
            Some(x) => x,
            None => return None,
        };
        let r_address = match take_opt::<HostAddress>(&fs[5]) {
            Some(x) => x,
            None => return None,
        };
        Some(KrbSafeBody { user_data, timestamp, usec, seq_number, s_address, r_address })
    }
}

/// A KRB-SAFE message.
#[derive(Debug, Clone)]
pub struct KrbSafe {
    /// Protocol version.
    pub pvno: i32,
    /// Message type.
    pub msg_type: i32,
    /// The body.
    pub safe_body: KrbSafeBody,
    /// Checksum over the message.
    pub cksum: Checksum,
}

/// Model of [`KrbSafe`].
pub struct KrbSafeV {
    pub pvno: i32,
    pub msg_type: i32,
    pub safe_body: KrbSafeBodyV,
    pub cksum: ChecksumV,
}

impl View for KrbSafe {
    type V = KrbSafeV;

    open spec fn view(&self) -> KrbSafeV {
        KrbSafeV {
            pvno: self.pvno@,
            msg_type: self.msg_type@,
            safe_body: self.safe_body@,
            cksum: self.cksum@,
        }
    }
}

impl Dup for KrbSafe {
    fn dup(&self) -> (r: Self) {
        KrbSafe {
            pvno: self.pvno,
            msg_type: self.msg_type,
            safe_body: self.safe_body.dup(),
            cksum: self.cksum.dup(),
        }
    }
}

/// The tagged fields of a [`KrbSafe`].
#[verifier::opaque]
pub open spec fn krb_safe_fields(v: KrbSafeV) -> Seq<Option<Seq<u8>>> {
    seq![
        Some(<i32 as Asn1>::der(v.pvno)),
        Some(<i32 as Asn1>::der(v.msg_type)),
        Some(<KrbSafeBody as Asn1>::der(v.safe_body)),
        Some(<Checksum as Asn1>::der(v.cksum)),
    ]
}

/// The [`KrbSafe`] of tagged fields.
#[verifier::opaque]
pub open spec fn krb_safe_of(f: Seq<Option<Seq<u8>>>) -> Option<KrbSafeV> {
    let pvno = req::<i32>(f[0]);
    let msg_type = req::<i32>(f[1]);
    let safe_body = req::<KrbSafeBody>(f[2]);
    let cksum = req::<Checksum>(f[3]);
    if pvno is Some && msg_type is Some && safe_body is Some && cksum is Some {
        Some(KrbSafeV { pvno: pvno->0, msg_type: msg_type->0, safe_body: safe_body->0, cksum: cksum->0 })
    } else {
        None
    }
}

impl Asn1 for KrbSafe {
    open spec fn der(v: KrbSafeV) -> Seq<u8> {
        tlv(0x74, sequence(krb_safe_fields(v)))
    }

    open spec fn parse(s: Seq<u8>) -> Option<KrbSafeV> {
        match untag(s, 0x74) {
            Some(c) => match sequence_fields(c, 4) {
                Some(f) => krb_safe_of(f),
                None => None,
            },
            None => None,
        }
    }

    fn encode(&self) -> (r: Vec<u8>) {
        proof {
            reveal(krb_safe_fields);
            reveal(krb_safe_of);
        }
        let mut fs: Vec<Option<Vec<u8>>> = Vec::new();
        fs.push(Some(self.pvno.encode()));
        fs.push(Some(self.msg_type.encode()));
        fs.push(Some(self.safe_body.encode()));
        fs.push(Some(self.cksum.encode()));
        assert(fields_view(fs@) =~= krb_safe_fields(self@));
        assert(krb_safe_of(fields_view(fs@)) == Some(self@));
        let s = make_sequence(&fs);
        proof {
            assert(s.len() <= usize::MAX);
            lemma_untag(0x74, s@);
        }
        make_tlv(0x74, &s)
    }

    fn decode(s: &[u8]) -> (r: Option<KrbSafe>) {
        proof {
            reveal(krb_safe_of);
        }
        let c = match strip_tag(s, 0x74) {
            Some(c) => c,
            None => return None,
        };
        let fs = match parse_sequence(c, 4) {
            Some(fs) => fs,
            None => return None,
        };
        let pvno: i32 = match take_req::<i32>(&fs[0]) {
            Some(x) => x,
            None => return None,
        };
        let msg_type: i32 = match take_req::<i32>(&fs[1]) {
            Some(x) => x,
            None => return None,
        };
        let safe_body = match take_req::<KrbSafeBody>(&fs[2]) {
            Some(x) => x,
            None => return None,
        };
        let cksum = match take_req::<Checksum>(&fs[3]) {
            Some(x) => x,
            None => return None,
        };
        Some(KrbSafe { pvno, msg_type, safe_body, cksum })
    }
}

/// A KRB-PRIV message.
#[derive(Debug, Clone)]
pub struct KrbPriv {
    /// Protocol version.
    pub pvno: i32,
    /// Message type.
    pub msg_type: i32,
    /// The encrypted part.
    pub enc_part: EncryptedData,
}

/// Model of [`KrbPriv`].
pub struct KrbPrivV {
    pub pvno: i32,
    pub msg_type: i32,
    pub enc_part: EncryptedDataV,
}

impl View for KrbPriv {
    type V = KrbPrivV;

    open spec fn view(&self) -> KrbPrivV {
        KrbPrivV {
            pvno: self.pvno@,
            msg_type: self.msg_type@,
            enc_part: self.enc_part@,
        }
    }
}

impl Dup for KrbPriv {
    fn dup(&self) -> (r: Self) {
        KrbPriv {
            pvno: self.pvno,
            msg_type: self.msg_type,
            enc_part: self.enc_part.dup(),
        }
    }
}

/// The tagged fields of a [`KrbPriv`].
#[verifier::opaque]
pub open spec fn krb_priv_fields(v: KrbPrivV) -> Seq<Option<Seq<u8>>> {
    seq![
        Some(<i32 as Asn1>::der(v.pvno)),
        Some(<i32 as Asn1>::der(v.msg_type)),
        None,
        Some(<EncryptedData as Asn1>::der(v.enc_part)),
    ]
}

/// The [`KrbPriv`] of tagged fields.
#[verifier::opaque]
pub open spec fn krb_priv_of(f: Seq<Option<Seq<u8>>>) -> Option<KrbPrivV> {
    let pvno = req::<i32>(f[0]);
    let msg_type = req::<i32>(f[1]);
    let enc_part = req::<EncryptedData>(f[3]);
    if pvno is Some && msg_type is Some && f[2] is None && enc_part is Some {
        Some(KrbPrivV { pvno: pvno->0, msg_type: msg_type->0, enc_part: enc_part->0 })
    } else {
        None
    }
}

impl Asn1 for KrbPriv {
    open spec fn der(v: KrbPrivV) -> Seq<u8> {
        tlv(0x75, sequence(krb_priv_fields(v)))
    }

    open spec fn parse(s: Seq<u8>) -> Option<KrbPrivV> {
        match untag(s, 0x75) {
            Some(c) => match sequence_fields(c, 4) {
                Some(f) => krb_priv_of(f),
                None => None,
            },
            None => None,
        }
    }

    fn encode(&self) -> (r: Vec<u8>) {
        proof {
            reveal(krb_priv_fields);
            reveal(krb_priv_of);
        }
        let mut fs: Vec<Option<Vec<u8>>> = Vec::new();
        fs.push(Some(self.pvno.encode()));
        fs.push(Some(self.msg_type.encode()));
        fs.push(None);
        fs.push(Some(self.enc_part.encode()));
        assert(fields_view(fs@) =~= krb_priv_fields(self@));
        assert(krb_priv_of(fields_view(fs@)) == Some(self@));
        let s = make_sequence(&fs);
        proof {
            assert(s.len() <= usize::MAX);
            lemma_untag(0x75, s@);
        }
        make_tlv(0x75, &s)
    }

    fn decode(s: &[u8]) -> (r: Option<KrbPriv>) {
        proof {
            reveal(krb_priv_of);
        }
        let c = match strip_tag(s, 0x75) {
            Some(c) => c,
            None => return None,
        };
        let fs = match parse_sequence(c, 4) {
            Some(fs) => fs,
            None => return None,
        };
        if fs[2].is_some() {
            return None;
        }
        let pvno: i32 = match take_req::<i32>(&fs[0]) {
            Some(x) => x,
            None => return None,
        };
        let msg_type: i32 = match take_req::<i32>(&fs[1]) {
            Some(x) => x,
            None => return None,
        };
        let enc_part = match take_req::<EncryptedData>(&fs[3]) {
            Some(x) => x,
            None => return None,
        };
        Some(KrbPriv { pvno, msg_type, enc_part })
    }
}

/// The encrypted part of a KRB-PRIV.
#[derive(Debug, Clone)]
pub struct EncKrbPrivPart {
    /// User data.
    pub user_data: Vec<u8>,
    /// Sender time.
    pub timestamp: Option<KerberosTime>,
    /// Sender microseconds.
    pub usec: Option<i32>,
    /// Sequence number.
    pub seq_number: Option<u32>,
    /// Sender address.
    pub s_address: HostAddress,
    /// Receiver address.
    pub r_address: Option<HostAddress>,
}

/// Model of [`EncKrbPrivPart`].
pub struct EncKrbPrivPartV {
    pub user_data: Seq<u8>,
    pub timestamp: Option<TimeV>,
    pub usec: Option<i32>,
    pub seq_number: Option<u32>,
    pub s_address: HostAddressV,
    pub r_address: Option<HostAddressV>,
}

impl View for EncKrbPrivPart {
    type V = EncKrbPrivPartV;

    open spec fn view(&self) -> EncKrbPrivPartV {
        EncKrbPrivPartV {
            user_data: self.user_data@,
            timestamp: opt_view(self.timestamp),
            usec: opt_view(self.usec),
            seq_number: opt_view(self.seq_number),
            s_address: self.s_address@,
            r_address: opt_view(self.r_address),
        }
    }
}

impl Dup for EncKrbPrivPart {
    fn dup(&self) -> (r: Self) {
        EncKrbPrivPart {
            user_data: self.user_data.dup(),
            timestamp: self.timestamp,
            usec: self.usec,
            seq_number: self.seq_number,
            s_address: self.s_address.dup(),
            r_address: dup_opt(&self.r_address),
        }
    }
}

/// The tagged fields of a [`EncKrbPrivPart`].
#[verifier::opaque]
pub open spec fn enc_krb_priv_part_fields(v: EncKrbPrivPartV) -> Seq<Option<Seq<u8>>> {
    seq![
        Some(<Vec<u8> as Asn1>::der(v.user_data)),
        opt_time_der(v.timestamp),
        opt_der::<i32>(v.usec),
        opt_der::<u32>(v.seq_number),
        Some(<HostAddress as Asn1>::der(v.s_address)),
        opt_der::<HostAddress>(v.r_address),
    ]
}

/// The [`EncKrbPrivPart`] of tagged fields.
#[verifier::opaque]
pub open spec fn enc_krb_priv_part_of(f: Seq<Option<Seq<u8>>>) -> Option<EncKrbPrivPartV> {
    let user_data = req::<Vec<u8>>(f[0]);
    let timestamp = opt_time(f[1]);
    let usec = opt::<i32>(f[2]);
    let seq_number = opt::<u32>(f[3]);
    let s_address = req::<HostAddress>(f[4]);
    let r_address = opt::<HostAddress>(f[5]);
    if user_data is Some && timestamp is Some && usec is Some && seq_number is Some && s_address is Some && r_address is Some {
        Some(EncKrbPrivPartV { user_data: user_data->0, timestamp: timestamp->0, usec: usec->0, seq_number: seq_number->0, s_address: s_address->0, r_address: r_address->0 })
    } else {
        None
    }
}

impl Asn1 for EncKrbPrivPart {
    open spec fn der(v: EncKrbPrivPartV) -> Seq<u8> {
        tlv(0x7C, sequence(enc_krb_priv_part_fields(v)))
    }

    open spec fn parse(s: Seq<u8>) -> Option<EncKrbPrivPartV> {
        match untag(s, 0x7C) {
            Some(c) => match sequence_fields(c, 6) {
                Some(f) => enc_krb_priv_part_of(f),
                None => None,
            },
            None => None,
        }
    }

    fn encode(&self) -> (r: Vec<u8>) {
        proof {
            reveal(enc_krb_priv_part_fields);
            reveal(enc_krb_priv_part_of);
        }
        let mut fs: Vec<Option<Vec<u8>>> = Vec::new();
        fs.push(Some(self.user_data.encode()));
        fs.push(put_opt_time(&self.timestamp));
        fs.push(put_opt(&self.usec));
        fs.push(put_opt(&self.seq_number));
        fs.push(Some(self.s_address.encode()));
        fs.push(put_opt(&self.r_address));
        assert(fields_view(fs@) =~= enc_krb_priv_part_fields(self@));
        assert(enc_krb_priv_part_of(fields_view(fs@)) == Some(self@));
        let s = make_sequence(&fs);
        proof {
            assert(s.len() <= usize::MAX);
            lemma_untag(0x7C, s@);
        }
        make_tlv(0x7C, &s)
    }

    fn decode(s: &[u8]) -> (r: Option<EncKrbPrivPart>) {
        proof {
            reveal(enc_krb_priv_part_of);
        }
        let c = match strip_tag(s, 0x7C) {
            Some(c) => c,
            None => return None,
        };
        let fs = match parse_sequence(c, 6) {
            Some(fs) => fs,
            None => return None,
        };
        let user_data = match take_req::<Vec<u8>>(&fs[0]) {
            Some(x) => x,
            None => return None,
        };
        let timestamp = match take_opt_time(&fs[1]) {
            Some(x) => x,
            None => return None,
        };
        let usec: Option<i32> = match take_opt::<i32>(&fs[2]) {
            Some(x) => x,
            None => return None,
        };
        let seq_number: Option<u32> = match take_opt::<u32>(&fs[3]) {
            Some(x) => x,
            None => return None,
        };
        let s_address = match take_req::<HostAddress>(&fs[4]) {
            Some(x) => x,
            None => return None,
        };
        let r_address = match take_opt::<HostAddress>(&fs[5]) {
            Some(x) => x,
            None => return None,
        };
        Some(EncKrbPrivPart { user_data, timestamp, usec, seq_number, s_address, r_address })
    }
}

/// A KRB-CRED message.
#[derive(Debug, Clone)]
pub struct KrbCred {
    /// Protocol version.
    pub pvno: i32,
    /// Message type.
    pub msg_type: i32,
    /// The tickets.
    pub tickets: Vec<Ticket>,
    /// The encrypted part.
    pub enc_part: EncryptedData,
}

/// Model of [`KrbCred`].
pub struct KrbCredV {
    pub pvno: i32,
    pub msg_type: i32,
    pub tickets: Seq<TicketV>,
    pub enc_part: EncryptedDataV,
}

impl View for KrbCred {
    type V = KrbCredV;

    open spec fn view(&self) -> KrbCredV {
        KrbCredV {
            pvno: self.pvno@,
            msg_type: self.msg_type@,
            tickets: list_view(self.tickets@),
            enc_part: self.enc_part@,
        }
    }
}

impl Dup for KrbCred {
    fn dup(&self) -> (r: Self) {
        KrbCred {
            pvno: self.pvno,
            msg_type: self.msg_type,
            tickets: dup_list(&self.tickets),
            enc_part: self.enc_part.dup(),
        }
    }
}

/// The tagged fields of a [`KrbCred`].
#[verifier::opaque]
pub open spec fn krb_cred_fields(v: KrbCredV) -> Seq<Option<Seq<u8>>> {
    seq![
        Some(<i32 as Asn1>::der(v.pvno)),
        Some(<i32 as Asn1>::der(v.msg_type)),
        Some(list_der::<Ticket>(v.tickets)),
        Some(<EncryptedData as Asn1>::der(v.enc_part)),
    ]
}

/// The [`KrbCred`] of tagged fields.
#[verifier::opaque]
pub open spec fn krb_cred_of(f: Seq<Option<Seq<u8>>>) -> Option<KrbCredV> {
    let pvno = req::<i32>(f[0]);
    let msg_type = req::<i32>(f[1]);
    let tickets = req_list::<Ticket>(f[2]);
    let enc_part = req::<EncryptedData>(f[3]);
    if pvno is Some && msg_type is Some && tickets is Some && enc_part is Some {
        Some(KrbCredV { pvno: pvno->0, msg_type: msg_type->0, tickets: tickets->0, enc_part: enc_part->0 })
    } else {
        None
    }
}

impl Asn1 for KrbCred {
    open spec fn der(v: KrbCredV) -> Seq<u8> {
        tlv(0x76, sequence(krb_cred_fields(v)))
    }

    open spec fn parse(s: Seq<u8>) -> Option<KrbCredV> {
        match untag(s, 0x76) {
            Some(c) => match sequence_fields(c, 4) {
                Some(f) => krb_cred_of(f),
                None => None,
            },
            None => None,
        }
    }

    fn encode(&self) -> (r: Vec<u8>) {
        proof {
            reveal(krb_cred_fields);
            reveal(krb_cred_of);
        }
        let mut fs: Vec<Option<Vec<u8>>> = Vec::new();
        fs.push(Some(self.pvno.encode()));
        fs.push(Some(self.msg_type.encode()));
        fs.push(Some(encode_list(&self.tickets)));
        fs.push(Some(self.enc_part.encode()));
        assert(fields_view(fs@) =~= krb_cred_fields(self@));
        assert(krb_cred_of(fields_view(fs@)) == Some(self@));
        let s = make_sequence(&fs);
        proof {
            assert(s.len() <= usize::MAX);
            lemma_untag(0x76, s@);
        }
        make_tlv(0x76, &s)
    }

    fn decode(s: &[u8]) -> (r: Option<KrbCred>) {
        proof {
            reveal(krb_cred_of);
        }
        let c = match strip_tag(s, 0x76) {
            Some(c) => c,
            None => return None,
        };
        let fs = match parse_sequence(c, 4) {
            Some(fs) => fs,
            None => return None,
        };
        let pvno: i32 = match take_req::<i32>(&fs[0]) {
            Some(x) => x,
            None => return None,
        };
        let msg_type: i32 = match take_req::<i32>(&fs[1]) {
            Some(x) => x,
            None => return None,
        };
        let tickets = match take_req_list::<Ticket>(&fs[2]) {
            Some(x) => x,
            None => return None,
        };
        let enc_part = match take_req::<EncryptedData>(&fs[3]) {
            Some(x) => x,
            None => return None,
        };
        Some(KrbCred { pvno, msg_type, tickets, enc_part })
    }
}

/// What a KRB-CRED says of one ticket.
#[derive(Debug, Clone)]
pub struct KrbCredInfo {
    /// Session key.
    pub key: EncryptionKey,
    /// Client realm.
    pub prealm: Option<GeneralString>,
    /// Client name.
    pub pname: Option<PrincipalName>,
    /// Ticket flags.
    pub flags: Option<FlagBits>,
    /// Time of initial authentication.
    pub authtime: Option<KerberosTime>,
    /// Start of validity.
    pub starttime: Option<KerberosTime>,
    /// End of validity.
    pub endtime: Option<KerberosTime>,
    /// Renewable till.
    pub renew_till: Option<KerberosTime>,
    /// Service realm.
    pub srealm: Option<GeneralString>,
    /// Service name.
    pub sname: Option<PrincipalName>,
    /// Addresses.
    pub caddr: Option<Vec<HostAddress>>,
}

/// Model of [`KrbCredInfo`].
pub struct KrbCredInfoV {
    pub key: EncryptionKeyV,
    pub prealm: Option<Seq<u8>>,
    pub pname: Option<PrincipalNameV>,
    pub flags: Option<u32>,
    pub authtime: Option<TimeV>,
    pub starttime: Option<TimeV>,
    pub endtime: Option<TimeV>,
    pub renew_till: Option<TimeV>,
    pub srealm: Option<Seq<u8>>,
    pub sname: Option<PrincipalNameV>,
    pub caddr: Option<Seq<HostAddressV>>,
}

impl View for KrbCredInfo {
    type V = KrbCredInfoV;

    open spec fn view(&self) -> KrbCredInfoV {
        KrbCredInfoV {
            key: self.key@,
            prealm: opt_view(self.prealm),
            pname: opt_view(self.pname),
            flags: opt_view(self.flags),
            authtime: opt_view(self.authtime),
            starttime: opt_view(self.starttime),
            endtime: opt_view(self.endtime),
            renew_till: opt_view(self.renew_till),
            srealm: opt_view(self.srealm),
            sname: opt_view(self.sname),
            caddr: opt_list_view(self.caddr),
        }
    }
}

impl Dup for KrbCredInfo {
    fn dup(&self) -> (r: Self) {
        KrbCredInfo {
            key: self.key.dup(),
            prealm: dup_opt(&self.prealm),
            pname: dup_opt(&self.pname),
            flags: self.flags,
            authtime: self.authtime,
            starttime: self.starttime,
            endtime: self.endtime,
            renew_till: self.renew_till,
            srealm: dup_opt(&self.srealm),
            sname: dup_opt(&self.sname),
            caddr: dup_opt_list(&self.caddr),
        }
    }
}

/// The tagged fields of a [`KrbCredInfo`].
#[verifier::opaque]
pub open spec fn krb_cred_info_fields(v: KrbCredInfoV) -> Seq<Option<Seq<u8>>> {
    seq![
        Some(<EncryptionKey as Asn1>::der(v.key)),
        opt_der::<GeneralString>(v.prealm),
        opt_der::<PrincipalName>(v.pname),
        opt_der::<FlagBits>(v.flags),
        opt_time_der(v.authtime),
        opt_time_der(v.starttime),
        opt_time_der(v.endtime),
        opt_time_der(v.renew_till),
        opt_der::<GeneralString>(v.srealm),
        opt_der::<PrincipalName>(v.sname),
        opt_list_der::<HostAddress>(v.caddr),
    ]
}

/// The [`KrbCredInfo`] of tagged fields.
#[verifier::opaque]
pub open spec fn krb_cred_info_of(f: Seq<Option<Seq<u8>>>) -> Option<KrbCredInfoV> {
    let key = req::<EncryptionKey>(f[0]);
    let prealm = opt::<GeneralString>(f[1]);
    let pname = opt::<PrincipalName>(f[2]);
    let flags = opt::<FlagBits>(f[3]);
    let authtime = opt_time(f[4]);
    let starttime = opt_time(f[5]);
    let endtime = opt_time(f[6]);
    let renew_till = opt_time(f[7]);
    let srealm = opt::<GeneralString>(f[8]);
    let sname = opt::<PrincipalName>(f[9]);
    let caddr = opt_list::<HostAddress>(f[10]);
    if key is Some && prealm is Some && pname is Some && flags is Some && authtime is Some && starttime is Some && endtime is Some && renew_till is Some && srealm is Some && sname is Some && caddr is Some {
        Some(KrbCredInfoV { key: key->0, prealm: prealm->0, pname: pname->0, flags: flags->0, authtime: authtime->0, starttime: starttime->0, endtime: endtime->0, renew_till: renew_till->0, srealm: srealm->0, sname: sname->0, caddr: caddr->0 })
    } else {
        None
    }
}

impl Asn1 for KrbCredInfo {
    open spec fn der(v: KrbCredInfoV) -> Seq<u8> {
        sequence(krb_cred_info_fields(v))
    }

    open spec fn parse(s: Seq<u8>) -> Option<KrbCredInfoV> {
        match sequence_fields(s, 11) {
            Some(f) => krb_cred_info_of(f),
            None => None,
        }
    }

    fn encode(&self) -> (r: Vec<u8>) {
        proof {
            reveal(krb_cred_info_fields);
            reveal(krb_cred_info_of);
        }
        let mut fs: Vec<Option<Vec<u8>>> = Vec::new();
        fs.push(Some(self.key.encode()));
        fs.push(put_opt(&self.prealm));
        fs.push(put_opt(&self.pname));
        fs.push(put_opt(&self.flags));
        fs.push(put_opt_time(&self.authtime));
        fs.push(put_opt_time(&self.starttime));
        fs.push(put_opt_time(&self.endtime));
        fs.push(put_opt_time(&self.renew_till));
        fs.push(put_opt(&self.srealm));
        fs.push(put_opt(&self.sname));
        fs.push(put_opt_list(&self.caddr));
        assert(fields_view(fs@) =~= krb_cred_info_fields(self@));
        assert(krb_cred_info_of(fields_view(fs@)) == Some(self@));
        make_sequence(&fs)
    }

    fn decode(s: &[u8]) -> (r: Option<KrbCredInfo>) {
        proof {
            reveal(krb_cred_info_of);
        }
        let fs = match parse_sequence(s, 11) {
            Some(fs) => fs,
            None => return None,
        };
        let key = match take_req::<EncryptionKey>(&fs[0]) {
            Some(x) => x,
            None => return None,
        };
        let prealm = match take_opt::<GeneralString>(&fs[1]) {
            Some(x) => x,
            None => return None,
        };
        let pname = match take_opt::<PrincipalName>(&fs[2]) {
            Some(x) => x,
            None => return None,
        };
        let flags = match take_opt::<FlagBits>(&fs[3]) {
            Some(x) => x,
            None => return None,
        };
        let authtime = match take_opt_time(&fs[4]) {
            Some(x) => x,
            None => return None,
        };
        let starttime = match take_opt_time(&fs[5]) {
            Some(x) => x,
            None => return None,
        };
        let endtime = match take_opt_time(&fs[6]) {
            Some(x) => x,
            None => return None,
        };
        let renew_till = match take_opt_time(&fs[7]) {
            Some(x) => x,
            None => return None,
        };
        let srealm = match take_opt::<GeneralString>(&fs[8]) {
            Some(x) => x,
            None => return None,
        };
        let sname = match take_opt::<PrincipalName>(&fs[9]) {
            Some(x) => x,
            None => return None,
        };
        let caddr = match take_opt_list::<HostAddress>(&fs[10]) {
            Some(x) => x,
            None => return None,
        };
        Some(KrbCredInfo { key, prealm, pname, flags, authtime, starttime, endtime, renew_till, srealm, sname, caddr })
    }
}

/// The encrypted part of a KRB-CRED.
#[derive(Debug, Clone)]
pub struct EncKrbCredPart {
    /// One entry per ticket.
    pub ticket_info: Vec<KrbCredInfo>,
    /// Nonce.
    pub nonce: Option<u32>,
    /// Sender time.
    pub timestamp: Option<KerberosTime>,
    /// Sender microseconds.
    pub usec: Option<i32>,
    /// Sender address.
    pub s_address: Option<HostAddress>,
    /// Receiver address.
    pub r_address: Option<HostAddress>,
}

/// Model of [`EncKrbCredPart`].
pub struct EncKrbCredPartV {
    pub ticket_info: Seq<KrbCredInfoV>,
    pub nonce: Option<u32>,
    pub timestamp: Option<TimeV>,
    pub usec: Option<i32>,
    pub s_address: Option<HostAddressV>,
    pub r_address: Option<HostAddressV>,
}

impl View for EncKrbCredPart {
    type V = EncKrbCredPartV;

    open spec fn view(&self) -> EncKrbCredPartV {
        EncKrbCredPartV {
            ticket_info: list_view(self.ticket_info@),
            nonce: opt_view(self.nonce),
            timestamp: opt_view(self.timestamp),
            usec: opt_view(self.usec),
            s_address: opt_view(self.s_address),
            r_address: opt_view(self.r_address),
        }
    }
}

impl Dup for EncKrbCredPart {
    fn dup(&self) -> (r: Self) {
        EncKrbCredPart {
            ticket_info: dup_list(&self.ticket_info),
            nonce: self.nonce,
            timestamp: self.timestamp,
            usec: self.usec,
            s_address: dup_opt(&self.s_address),
            r_address: dup_opt(&self.r_address),
        }
    }
}

/// The tagged fields of a [`EncKrbCredPart`].
#[verifier::opaque]
pub open spec fn enc_krb_cred_part_fields(v: EncKrbCredPartV) -> Seq<Option<Seq<u8>>> {
    seq![
        Some(list_der::<KrbCredInfo>(v.ticket_info)),
        opt_der::<u32>(v.nonce),
        opt_time_der(v.timestamp),
        opt_der::<i32>(v.usec),
        opt_der::<HostAddress>(v.s_address),
        opt_der::<HostAddress>(v.r_address),
    ]
}

/// The [`EncKrbCredPart`] of tagged fields.
#[verifier::opaque]
pub open spec fn enc_krb_cred_part_of(f: Seq<Option<Seq<u8>>>) -> Option<EncKrbCredPartV> {
    let ticket_info = req_list::<KrbCredInfo>(f[0]);
    let nonce = opt::<u32>(f[1]);
    let timestamp = opt_time(f[2]);
    let usec = opt::<i32>(f[3]);
    let s_address = opt::<HostAddress>(f[4]);
    let r_address = opt::<HostAddress>(f[5]);
    if ticket_info is Some && nonce is Some && timestamp is Some && usec is Some && s_address is Some && r_address is Some {
        Some(EncKrbCredPartV { ticket_info: ticket_info->0, nonce: nonce->0, timestamp: timestamp->0, usec: usec->0, s_address: s_address->0, r_address: r_address->0 })
    } else {
        None
    }
}

impl Asn1 for EncKrbCredPart {
    open spec fn der(v: EncKrbCredPartV) -> Seq<u8> {
        tlv(0x7D, sequence(enc_krb_cred_part_fields(v)))
    }

    open spec fn parse(s: Seq<u8>) -> Option<EncKrbCredPartV> {
        match untag(s, 0x7D) {
            Some(c) => match sequence_fields(c, 6) {
                Some(f) => enc_krb_cred_part_of(f),
                None => None,
            },
            None => None,
        }
    }

    fn encode(&self) -> (r: Vec<u8>) {
        proof {
            reveal(enc_krb_cred_part_fields);
            reveal(enc_krb_cred_part_of);
        }
        let mut fs: Vec<Option<Vec<u8>>> = Vec::new();
        fs.push(Some(encode_list(&self.ticket_info)));
        fs.push(put_opt(&self.nonce));
        fs.push(put_opt_time(&self.timestamp));
        fs.push(put_opt(&self.usec));
        fs.push(put_opt(&self.s_address));
        fs.push(put_opt(&self.r_address));
        assert(fields_view(fs@) =~= enc_krb_cred_part_fields(self@));
        assert(enc_krb_cred_part_of(fields_view(fs@)) == Some(self@));
        let s = make_sequence(&fs);
        proof {
            assert(s.len() <= usize::MAX);
            lemma_untag(0x7D, s@);
        }
        make_tlv(0x7D, &s)
    }

    fn decode(s: &[u8]) -> (r: Option<EncKrbCredPart>) {
        proof {
            reveal(enc_krb_cred_part_of);
        }
        let c = match strip_tag(s, 0x7D) {
            Some(c) => c,
            None => return None,
        };
        let fs = match parse_sequence(c, 6) {
            Some(fs) => fs,
            None => return None,
        };
        let ticket_info = match take_req_list::<KrbCredInfo>(&fs[0]) {
            Some(x) => x,
            None => return None,
        };
        let nonce: Option<u32> = match take_opt::<u32>(&fs[1]) {
            Some(x) => x,
            None => return None,
        };
        let timestamp = match take_opt_time(&fs[2]) {
            Some(x) => x,
            None => return None,
        };
        let usec: Option<i32> = match take_opt::<i32>(&fs[3]) {
            Some(x) => x,
            None => return None,
        };
        let s_address = match take_opt::<HostAddress>(&fs[4]) {
            Some(x) => x,
            None => return None,
        };
        let r_address = match take_opt::<HostAddress>(&fs[5]) {
            Some(x) => x,
            None => return None,
        };
        Some(EncKrbCredPart { ticket_info, nonce, timestamp, usec, s_address, r_address })
    }
}

} // verus!
