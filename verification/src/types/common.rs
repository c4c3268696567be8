//! Types shared by all messages.
use vstd::prelude::*;

use crate::asn1::{der_of_time, dup_list, dup_opt, encode_list, list_der, opt, opt_der, opt_time, opt_time_der, put_opt, put_opt_time, put_time, req, req_list, req_time, take_opt, take_opt_time, take_req, take_req_list, take_req_time, Asn1, Dup, GeneralString};
use crate::der::{fields_view, lemma_untag, list_view, make_sequence, make_tlv, opt_view, parse_sequence, sequence, sequence_fields, strip_tag, tlv, untag};
use crate::time::{KerberosTime, TimeV};

verus! {

/// A principal name: a type and its components.
#[derive(Debug, Clone)]
pub struct PrincipalName {
    /// Name type.
    pub name_type: i32,
    /// Name components.
    pub name_string: Vec<GeneralString>,
}

/// Model of [`PrincipalName`].
pub struct PrincipalNameV {
    pub name_type: i32,
    pub name_string: Seq<Seq<u8>>,
}

impl View for PrincipalName {
    type V = PrincipalNameV;

    open spec fn view(&self) -> PrincipalNameV {
        PrincipalNameV {
            name_type: self.name_type@,
            name_string: list_view(self.name_string@),
        }
    }
}

impl Dup for PrincipalName {
    fn dup(&self) -> (r: Self) {
        PrincipalName {
            name_type: self.name_type,
            name_string: dup_list(&self.name_string),
        }
    }
}

/// The tagged fields of a [`PrincipalName`].
#[verifier::opaque]
pub open spec fn principal_name_fields(v: PrincipalNameV) -> Seq<Option<Seq<u8>>> {
    seq![
        Some(<i32 as Asn1>::der(v.name_type)),
        Some(list_der::<GeneralString>(v.name_string)),
    ]
}

/// The [`PrincipalName`] of tagged fields.
#[verifier::opaque]
pub open spec fn principal_name_of(f: Seq<Option<Seq<u8>>>) -> Option<PrincipalNameV> {
    let name_type = req::<i32>(f[0]);
    let name_string = req_list::<GeneralString>(f[1]);
    if name_type is Some && name_string is Some {
        Some(PrincipalNameV { name_type: name_type->0, name_string: name_string->0 })
    } else {
        None
    }
}

impl Asn1 for PrincipalName {
    open spec fn der(v: PrincipalNameV) -> Seq<u8> {
        sequence(principal_name_fields(v))
    }

    open spec fn parse(s: Seq<u8>) -> Option<PrincipalNameV> {
        match sequence_fields(s, 2) {
            Some(f) => principal_name_of(f),
            None => None,
        }
    }

    fn encode(&self) -> (r: Vec<u8>) {
        proof {
            reveal(principal_name_fields);
            reveal(principal_name_of);
        }
        let mut fs: Vec<Option<Vec<u8>>> = Vec::new();
        fs.push(Some(self.name_type.encode()));
        fs.push(Some(encode_list(&self.name_string)));
        assert(fields_view(fs@) =~= principal_name_fields(self@));
        assert(principal_name_of(fields_view(fs@)) == Some(self@));
        make_sequence(&fs)
    }

    fn decode(s: &[u8]) -> (r: Option<PrincipalName>) {
        proof {
            reveal(principal_name_of);
        }
        let fs = match parse_sequence(s, 2) {
            Some(fs) => fs,
            None => return None,
        };
        let name_type: i32 = match take_req::<i32>(&fs[0]) {
            Some(x) => x,
            None => return None,
        };
        let name_string = match take_req_list::<GeneralString>(&fs[1]) {
            Some(x) => x,
            None => return None,
        };
        Some(PrincipalName { name_type, name_string })
    }
}

/// A key of a given encryption type.
#[derive(Debug, Clone)]
pub struct EncryptionKey {
    /// Encryption type number.
    pub keytype: i32,
    /// The key octets.
    pub keyvalue: Vec<u8>,
}

/// Model of [`EncryptionKey`].
pub struct EncryptionKeyV {
    pub keytype: i32,
    pub keyvalue: Seq<u8>,
}

impl View for EncryptionKey {
    type V = EncryptionKeyV;

    open spec fn view(&self) -> EncryptionKeyV {
        EncryptionKeyV {
            keytype: self.keytype@,
            keyvalue: self.keyvalue@,
        }
    }
}

impl Dup for EncryptionKey {
    fn dup(&self) -> (r: Self) {
        EncryptionKey {
            keytype: self.keytype,
            keyvalue: self.keyvalue.dup(),
        }
    }
}

/// The tagged fields of a [`EncryptionKey`].
#[verifier::opaque]
pub open spec fn encryption_key_fields(v: EncryptionKeyV) -> Seq<Option<Seq<u8>>> {
    seq![
        Some(<i32 as Asn1>::der(v.keytype)),
        Some(<Vec<u8> as Asn1>::der(v.keyvalue)),
    ]
}

/// The [`EncryptionKey`] of tagged fields.
#[verifier::opaque]
pub open spec fn encryption_key_of(f: Seq<Option<Seq<u8>>>) -> Option<EncryptionKeyV> {
    let keytype = req::<i32>(f[0]);
    let keyvalue = req::<Vec<u8>>(f[1]);
    if keytype is Some && keyvalue is Some {
        Some(EncryptionKeyV { keytype: keytype->0, keyvalue: keyvalue->0 })
    } else {
        None
    }
}

impl Asn1 for EncryptionKey {
    open spec fn der(v: EncryptionKeyV) -> Seq<u8> {
        sequence(encryption_key_fields(v))
    }

    open spec fn parse(s: Seq<u8>) -> Option<EncryptionKeyV> {
        match sequence_fields(s, 2) {
            Some(f) => encryption_key_of(f),
            None => None,
        }
    }

    fn encode(&self) -> (r: Vec<u8>) {
        proof {
            reveal(encryption_key_fields);
            reveal(encryption_key_of);
        }
        let mut fs: Vec<Option<Vec<u8>>> = Vec::new();
        fs.push(Some(self.keytype.encode()));
        fs.push(Some(self.keyvalue.encode()));
        assert(fields_view(fs@) =~= encryption_key_fields(self@));
        assert(encryption_key_of(fields_view(fs@)) == Some(self@));
        make_sequence(&fs)
    }

    fn decode(s: &[u8]) -> (r: Option<EncryptionKey>) {
        proof {
            reveal(encryption_key_of);
        }
        let fs = match parse_sequence(s, 2) {
            Some(fs) => fs,
            None => return None,
        };
        let keytype: i32 = match take_req::<i32>(&fs[0]) {
            Some(x) => x,
            None => return None,
        };
        let keyvalue = match take_req::<Vec<u8>>(&fs[1]) {
            Some(x) => x,
            None => return None,
        };
        Some(EncryptionKey { keytype, keyvalue })
    }
}

/// Encrypted data and the key it needs.
#[derive(Debug, Clone)]
pub struct EncryptedData {
    /// Encryption type number.
    pub etype: i32,
    /// Key version number.
    pub kvno: Option<i32>,
    /// The ciphertext.
    pub cipher: Vec<u8>,
}

/// Model of [`EncryptedData`].
pub struct EncryptedDataV {
    pub etype: i32,
    pub kvno: Option<i32>,
    pub cipher: Seq<u8>,
}

impl View for EncryptedData {
    type V = EncryptedDataV;

    open spec fn view(&self) -> EncryptedDataV {
        EncryptedDataV {
            etype: self.etype@,
            kvno: opt_view(self.kvno),
            cipher: self.cipher@,
        }
    }
}

impl Dup for EncryptedData {
    fn dup(&self) -> (r: Self) {
        EncryptedData {
            etype: self.etype,
            kvno: self.kvno,
            cipher: self.cipher.dup(),
        }
    }
}

/// The tagged fields of a [`EncryptedData`].
#[verifier::opaque]
pub open spec fn encrypted_data_fields(v: EncryptedDataV) -> Seq<Option<Seq<u8>>> {
    seq![
        Some(<i32 as Asn1>::der(v.etype)),
        opt_der::<i32>(v.kvno),
        Some(<Vec<u8> as Asn1>::der(v.cipher)),
    ]
}

/// The [`EncryptedData`] of tagged fields.
#[verifier::opaque]
pub open spec fn encrypted_data_of(f: Seq<Option<Seq<u8>>>) -> Option<EncryptedDataV> {
    let etype = req::<i32>(f[0]);
    let kvno = opt::<i32>(f[1]);
    let cipher = req::<Vec<u8>>(f[2]);
    if etype is Some && kvno is Some && cipher is Some {
        Some(EncryptedDataV { etype: etype->0, kvno: kvno->0, cipher: cipher->0 })
    } else {
        None
    }
}

impl Asn1 for EncryptedData {
    open spec fn der(v: EncryptedDataV) -> Seq<u8> {
        sequence(encrypted_data_fields(v))
    }

    open spec fn parse(s: Seq<u8>) -> Option<EncryptedDataV> {
        match sequence_fields(s, 3) {
            Some(f) => encrypted_data_of(f),
            None => None,
        }
    }

    fn encode(&self) -> (r: Vec<u8>) {
        proof {
            reveal(encrypted_data_fields);
            reveal(encrypted_data_of);
        }
        let mut fs: Vec<Option<Vec<u8>>> = Vec::new();
        fs.push(Some(self.etype.encode()));
        fs.push(put_opt(&self.kvno));
        fs.push(Some(self.cipher.encode()));
        assert(fields_view(fs@) =~= encrypted_data_fields(self@));
        assert(encrypted_data_of(fields_view(fs@)) == Some(self@));
        make_sequence(&fs)
    }

    fn decode(s: &[u8]) -> (r: Option<EncryptedData>) {
        proof {
            reveal(encrypted_data_of);
        }
        let fs = match parse_sequence(s, 3) {
            Some(fs) => fs,
            None => return None,
        };
        let etype: i32 = match take_req::<i32>(&fs[0]) {
            Some(x) => x,
            None => return None,
        };
        let kvno: Option<i32> = match take_opt::<i32>(&fs[1]) {
            Some(x) => x,
            None => return None,
        };
        let cipher = match take_req::<Vec<u8>>(&fs[2]) {
            Some(x) => x,
            None => return None,
        };
        Some(EncryptedData { etype, kvno, cipher })
    }
}

/// A checksum and its type.
#[derive(Debug, Clone)]
pub struct Checksum {
    /// Checksum type number.
    pub cksumtype: i32,
    /// The checksum octets.
    pub checksum: Vec<u8>,
}

/// Model of [`Checksum`].
pub struct ChecksumV {
    pub cksumtype: i32,
    pub checksum: Seq<u8>,
}

impl View for Checksum {
    type V = ChecksumV;

    open spec fn view(&self) -> ChecksumV {
        ChecksumV {
            cksumtype: self.cksumtype@,
            checksum: self.checksum@,
        }
    }
}

impl Dup for Checksum {
    fn dup(&self) -> (r: Self) {
        Checksum {
            cksumtype: self.cksumtype,
            checksum: self.checksum.dup(),
        }
    }
}

/// The tagged fields of a [`Checksum`].
#[verifier::opaque]
pub open spec fn checksum_fields(v: ChecksumV) -> Seq<Option<Seq<u8>>> {
    seq![
        Some(<i32 as Asn1>::der(v.cksumtype)),
        Some(<Vec<u8> as Asn1>::der(v.checksum)),
    ]
}

/// The [`Checksum`] of tagged fields.
#[verifier::opaque]
pub open spec fn checksum_of(f: Seq<Option<Seq<u8>>>) -> Option<ChecksumV> {
    let cksumtype = req::<i32>(f[0]);
    let checksum = req::<Vec<u8>>(f[1]);
    if cksumtype is Some && checksum is Some {
        Some(ChecksumV { cksumtype: cksumtype->0, checksum: checksum->0 })
    } else {
        None
    }
}

impl Asn1 for Checksum {
    open spec fn der(v: ChecksumV) -> Seq<u8> {
        sequence(checksum_fields(v))
    }

    open spec fn parse(s: Seq<u8>) -> Option<ChecksumV> {
        match sequence_fields(s, 2) {
            Some(f) => checksum_of(f),
            None => None,
        }
    }

    fn encode(&self) -> (r: Vec<u8>) {
        proof {
            reveal(checksum_fields);
            reveal(checksum_of);
        }
        let mut fs: Vec<Option<Vec<u8>>> = Vec::new();
        fs.push(Some(self.cksumtype.encode()));
        fs.push(Some(self.checksum.encode()));
        assert(fields_view(fs@) =~= checksum_fields(self@));
        assert(checksum_of(fields_view(fs@)) == Some(self@));
        make_sequence(&fs)
    }

    fn decode(s: &[u8]) -> (r: Option<Checksum>) {
        proof {
            reveal(checksum_of);
        }
        let fs = match parse_sequence(s, 2) {
            Some(fs) => fs,
            None => return None,
        };
        let cksumtype: i32 = match take_req::<i32>(&fs[0]) {
            Some(x) => x,
            None => return None,
        };
        let checksum = match take_req::<Vec<u8>>(&fs[1]) {
            Some(x) => x,
            None => return None,
        };
        Some(Checksum { cksumtype, checksum })
    }
}

/// A network address.
#[derive(Debug, Clone)]
pub struct HostAddress {
    /// Address type.
    pub addr_type: i32,
    /// Address octets.
    pub address: Vec<u8>,
}

/// Model of [`HostAddress`].
pub struct HostAddressV {
    pub addr_type: i32,
    pub address: Seq<u8>,
}

impl View for HostAddress {
    type V = HostAddressV;

    open spec fn view(&self) -> HostAddressV {
        HostAddressV {
            addr_type: self.addr_type@,
            address: self.address@,
        }
    }
}

impl Dup for HostAddress {
    fn dup(&self) -> (r: Self) {
        HostAddress {
            addr_type: self.addr_type,
            address: self.address.dup(),
        }
    }
}

/// The tagged fields of a [`HostAddress`].
#[verifier::opaque]
pub open spec fn host_address_fields(v: HostAddressV) -> Seq<Option<Seq<u8>>> {
    seq![
        Some(<i32 as Asn1>::der(v.addr_type)),
        Some(<Vec<u8> as Asn1>::der(v.address)),
    ]
}

/// The [`HostAddress`] of tagged fields.
#[verifier::opaque]
pub open spec fn host_address_of(f: Seq<Option<Seq<u8>>>) -> Option<HostAddressV> {
    let addr_type = req::<i32>(f[0]);
    let address = req::<Vec<u8>>(f[1]);
    if addr_type is Some && address is Some {
        Some(HostAddressV { addr_type: addr_type->0, address: address->0 })
    } else {
        None
    }
}

impl Asn1 for HostAddress {
    open spec fn der(v: HostAddressV) -> Seq<u8> {
        sequence(host_address_fields(v))
    }

    open spec fn parse(s: Seq<u8>) -> Option<HostAddressV> {
        match sequence_fields(s, 2) {
            Some(f) => host_address_of(f),
            None => None,
        }
    }

    fn encode(&self) -> (r: Vec<u8>) {
        proof {
            reveal(host_address_fields);
            reveal(host_address_of);
        }
        let mut fs: Vec<Option<Vec<u8>>> = Vec::new();
        fs.push(Some(self.addr_type.encode()));
        fs.push(Some(self.address.encode()));
        assert(fields_view(fs@) =~= host_address_fields(self@));
        assert(host_address_of(fields_view(fs@)) == Some(self@));
        make_sequence(&fs)
    }

    fn decode(s: &[u8]) -> (r: Option<HostAddress>) {
        proof {
            reveal(host_address_of);
        }
        let fs = match parse_sequence(s, 2) {
            Some(fs) => fs,
            None => return None,
        };
        let addr_type: i32 = match take_req::<i32>(&fs[0]) {
            Some(x) => x,
            None => return None,
        };
        let address = match take_req::<Vec<u8>>(&fs[1]) {
            Some(x) => x,
            None => return None,
        };
        Some(HostAddress { addr_type, address })
    }
}

/// One authorization data element.
#[derive(Debug, Clone)]
pub struct AuthorizationDataElement {
    /// Element type.
    pub ad_type: i32,
    /// Element octets.
    pub ad_data: Vec<u8>,
}

/// Model of [`AuthorizationDataElement`].
pub struct AuthorizationDataElementV {
    pub ad_type: i32,
    pub ad_data: Seq<u8>,
}

impl View for AuthorizationDataElement {
    type V = AuthorizationDataElementV;

    open spec fn view(&self) -> AuthorizationDataElementV {
        AuthorizationDataElementV {
            ad_type: self.ad_type@,
            ad_data: self.ad_data@,
        }
    }
}

impl Dup for AuthorizationDataElement {
    fn dup(&self) -> (r: Self) {
        AuthorizationDataElement {
            ad_type: self.ad_type,
            ad_data: self.ad_data.dup(),
        }
    }
}

/// The tagged fields of a [`AuthorizationDataElement`].
#[verifier::opaque]
pub open spec fn authorization_data_element_fields(v: AuthorizationDataElementV) -> Seq<Option<Seq<u8>>> {
    seq![
        Some(<i32 as Asn1>::der(v.ad_type)),
        Some(<Vec<u8> as Asn1>::der(v.ad_data)),
    ]
}

/// The [`AuthorizationDataElement`] of tagged fields.
#[verifier::opaque]
pub open spec fn authorization_data_element_of(f: Seq<Option<Seq<u8>>>) -> Option<AuthorizationDataElementV> {
    let ad_type = req::<i32>(f[0]);
    let ad_data = req::<Vec<u8>>(f[1]);
    if ad_type is Some && ad_data is Some {
        Some(AuthorizationDataElementV { ad_type: ad_type->0, ad_data: ad_data->0 })
    } else {
        None
    }
}

impl Asn1 for AuthorizationDataElement {
    open spec fn der(v: AuthorizationDataElementV) -> Seq<u8> {
        sequence(authorization_data_element_fields(v))
    }

    open spec fn parse(s: Seq<u8>) -> Option<AuthorizationDataElementV> {
        match sequence_fields(s, 2) {
            Some(f) => authorization_data_element_of(f),
            None => None,
        }
    }

    fn encode(&self) -> (r: Vec<u8>) {
        proof {
            reveal(authorization_data_element_fields);
            reveal(authorization_data_element_of);
        }
        let mut fs: Vec<Option<Vec<u8>>> = Vec::new();
        fs.push(Some(self.ad_type.encode()));
        fs.push(Some(self.ad_data.encode()));
        assert(fields_view(fs@) =~= authorization_data_element_fields(self@));
        assert(authorization_data_element_of(fields_view(fs@)) == Some(self@));
        make_sequence(&fs)
    }

    fn decode(s: &[u8]) -> (r: Option<AuthorizationDataElement>) {
        proof {
            reveal(authorization_data_element_of);
        }
        let fs = match parse_sequence(s, 2) {
            Some(fs) => fs,
            None => return None,
        };
        let ad_type: i32 = match take_req::<i32>(&fs[0]) {
            Some(x) => x,
            None => return None,
        };
        let ad_data = match take_req::<Vec<u8>>(&fs[1]) {
            Some(x) => x,
            None => return None,
        };
        Some(AuthorizationDataElement { ad_type, ad_data })
    }
}

/// A ticket.
#[derive(Debug, Clone)]
pub struct Ticket {
    /// Ticket version.
    pub tkt_vno: i32,
    /// Realm of the issuer.
    pub realm: GeneralString,
    /// Service principal.
    pub sname: PrincipalName,
    /// The encrypted part.
    pub enc_part: EncryptedData,
}

/// Model of [`Ticket`].
pub struct TicketV {
    pub tkt_vno: i32,
    pub realm: Seq<u8>,
    pub sname: PrincipalNameV,
    pub enc_part: EncryptedDataV,
}

impl View for Ticket {
    type V = TicketV;

    open spec fn view(&self) -> TicketV {
        TicketV {
            tkt_vno: self.tkt_vno@,
            realm: self.realm@,
            sname: self.sname@,
            enc_part: self.enc_part@,
        }
    }
}

impl Dup for Ticket {
    fn dup(&self) -> (r: Self) {
        Ticket {
            tkt_vno: self.tkt_vno,
            realm: self.realm.dup(),
            sname: self.sname.dup(),
            enc_part: self.enc_part.dup(),
        }
    }
}

/// The tagged fields of a [`Ticket`].
#[verifier::opaque]
pub open spec fn ticket_fields(v: TicketV) -> Seq<Option<Seq<u8>>> {
    seq![
        Some(<i32 as Asn1>::der(v.tkt_vno)),
        Some(<GeneralString as Asn1>::der(v.realm)),
        Some(<PrincipalName as Asn1>::der(v.sname)),
        Some(<EncryptedData as Asn1>::der(v.enc_part)),
    ]
}

/// The [`Ticket`] of tagged fields.
#[verifier::opaque]
pub open spec fn ticket_of(f: Seq<Option<Seq<u8>>>) -> Option<TicketV> {
    let tkt_vno = req::<i32>(f[0]);
    let realm = req::<GeneralString>(f[1]);
    let sname = req::<PrincipalName>(f[2]);
    let enc_part = req::<EncryptedData>(f[3]);
    if tkt_vno is Some && realm is Some && sname is Some && enc_part is Some {
        Some(TicketV { tkt_vno: tkt_vno->0, realm: realm->0, sname: sname->0, enc_part: enc_part->0 })
    } else {
        None
    }
}

impl Asn1 for Ticket {
    open spec fn der(v: TicketV) -> Seq<u8> {
        tlv(0x61, sequence(ticket_fields(v)))
    }

    open spec fn parse(s: Seq<u8>) -> Option<TicketV> {
        match untag(s, 0x61) {
            Some(c) => match sequence_fields(c, 4) {
                Some(f) => ticket_of(f),
                None => None,
            },
            None => None,
        }
    }

    fn encode(&self) -> (r: Vec<u8>) {
        proof {
            reveal(ticket_fields);
            reveal(ticket_of);
        }
        let mut fs: Vec<Option<Vec<u8>>> = Vec::new();
        fs.push(Some(self.tkt_vno.encode()));
        fs.push(Some(self.realm.encode()));
        fs.push(Some(self.sname.encode()));
        fs.push(Some(self.enc_part.encode()));
        assert(fields_view(fs@) =~= ticket_fields(self@));
        assert(ticket_of(fields_view(fs@)) == Some(self@));
        let s = make_sequence(&fs);
        proof {
            assert(s.len() <= usize::MAX);
            lemma_untag(0x61, s@);
        }
        make_tlv(0x61, &s)
    }

    fn decode(s: &[u8]) -> (r: Option<Ticket>) {
        proof {
            reveal(ticket_of);
        }
        let c = match strip_tag(s, 0x61) {
            Some(c) => c,
            None => return None,
        };
        let fs = match parse_sequence(c, 4) {
            Some(fs) => fs,
            None => return None,
        };
        let tkt_vno: i32 = match take_req::<i32>(&fs[0]) {
            Some(x) => x,
            None => return None,
        };
        let realm = match take_req::<GeneralString>(&fs[1]) {
            Some(x) => x,
            None => return None,
        };
        let sname = match take_req::<PrincipalName>(&fs[2]) {
            Some(x) => x,
            None => return None,
        };
        let enc_part = match take_req::<EncryptedData>(&fs[3]) {
            Some(x) => x,
            None => return None,
        };
        Some(Ticket { tkt_vno, realm, sname, enc_part })
    }
}

/// One pre-authentication data element.
#[derive(Debug, Clone)]
pub struct PaData {
    /// Element type.
    pub padata_type: i32,
    /// Element octets.
    pub padata_value: Vec<u8>,
}

/// Model of [`PaData`].
pub struct PaDataV {
    pub padata_type: i32,
    pub padata_value: Seq<u8>,
}

impl View for PaData {
    type V = PaDataV;

    open spec fn view(&self) -> PaDataV {
        PaDataV {
            padata_type: self.padata_type@,
            padata_value: self.padata_value@,
        }
    }
}

impl Dup for PaData {
    fn dup(&self) -> (r: Self) {
        PaData {
            padata_type: self.padata_type,
            padata_value: self.padata_value.dup(),
        }
    }
}

/// The tagged fields of a [`PaData`].
#[verifier::opaque]
pub open spec fn pa_data_fields(v: PaDataV) -> Seq<Option<Seq<u8>>> {
    seq![
        None,
        Some(<i32 as Asn1>::der(v.padata_type)),
        Some(<Vec<u8> as Asn1>::der(v.padata_value)),
    ]
}

/// The [`PaData`] of tagged fields.
#[verifier::opaque]
pub open spec fn pa_data_of(f: Seq<Option<Seq<u8>>>) -> Option<PaDataV> {
    let padata_type = req::<i32>(f[1]);
    let padata_value = req::<Vec<u8>>(f[2]);
    if f[0] is None && padata_type is Some && padata_value is Some {
        Some(PaDataV { padata_type: padata_type->0, padata_value: padata_value->0 })
    } else {
        None
    }
}

impl Asn1 for PaData {
    open spec fn der(v: PaDataV) -> Seq<u8> {
        sequence(pa_data_fields(v))
    }

    open spec fn parse(s: Seq<u8>) -> Option<PaDataV> {
        match sequence_fields(s, 3) {
            Some(f) => pa_data_of(f),
            None => None,
        }
    }

    fn encode(&self) -> (r: Vec<u8>) {
        proof {
            reveal(pa_data_fields);
            reveal(pa_data_of);
        }
        let mut fs: Vec<Option<Vec<u8>>> = Vec::new();
        fs.push(None);
        fs.push(Some(self.padata_type.encode()));
        fs.push(Some(self.padata_value.encode()));
        assert(fields_view(fs@) =~= pa_data_fields(self@));
        assert(pa_data_of(fields_view(fs@)) == Some(self@));
        make_sequence(&fs)
    }

    fn decode(s: &[u8]) -> (r: Option<PaData>) {
        proof {
            reveal(pa_data_of);
        }
        let fs = match parse_sequence(s, 3) {
            Some(fs) => fs,
            None => return None,
        };
        if fs[0].is_some() {
            return None;
        }
        let padata_type: i32 = match take_req::<i32>(&fs[1]) {
            Some(x) => x,
            None => return None,
        };
        let padata_value = match take_req::<Vec<u8>>(&fs[2]) {
            Some(x) => x,
            None => return None,
        };
        Some(PaData { padata_type, padata_value })
    }
}

/// A KRB-ERROR message.
#[derive(Debug, Clone)]
pub struct KrbErrorMsg {
    /// Protocol version.
    pub pvno: i32,
    /// Message type.
    pub msg_type: i32,
    /// Client time.
    pub ctime: Option<KerberosTime>,
    /// Client microseconds.
    pub cusec: Option<i32>,
    /// Server time.
    pub stime: KerberosTime,
    /// Server microseconds.
    pub susec: i32,
    /// Error code.
    pub error_code: i32,
    /// Client realm.
    pub crealm: Option<GeneralString>,
    /// Client name.
    pub cname: Option<PrincipalName>,
    /// Server realm.
    pub realm: GeneralString,
    /// Server name.
    pub sname: PrincipalName,
    /// Error text.
    pub e_text: Option<GeneralString>,
    /// Error data.
    pub e_data: Option<Vec<u8>>,
}

/// Model of [`KrbErrorMsg`].
pub struct KrbErrorMsgV {
    pub pvno: i32,
    pub msg_type: i32,
    pub ctime: Option<TimeV>,
    pub cusec: Option<i32>,
    pub stime: TimeV,
    pub susec: i32,
    pub error_code: i32,
    pub crealm: Option<Seq<u8>>,
    pub cname: Option<PrincipalNameV>,
    pub realm: Seq<u8>,
    pub sname: PrincipalNameV,
    pub e_text: Option<Seq<u8>>,
    pub e_data: Option<Seq<u8>>,
}

impl View for KrbErrorMsg {
    type V = KrbErrorMsgV;

    open spec fn view(&self) -> KrbErrorMsgV {
        KrbErrorMsgV {
            pvno: self.pvno@,
            msg_type: self.msg_type@,
            ctime: opt_view(self.ctime),
            cusec: opt_view(self.cusec),
            stime: self.stime@,
            susec: self.susec@,
            error_code: self.error_code@,
            crealm: opt_view(self.crealm),
            cname: opt_view(self.cname),
            realm: self.realm@,
            sname: self.sname@,
            e_text: opt_view(self.e_text),
            e_data: opt_view(self.e_data),
        }
    }
}

impl Dup for KrbErrorMsg {
    fn dup(&self) -> (r: Self) {
        KrbErrorMsg {
            pvno: self.pvno,
            msg_type: self.msg_type,
            ctime: self.ctime,
            cusec: self.cusec,
            stime: self.stime,
            susec: self.susec,
            error_code: self.error_code,
            crealm: dup_opt(&self.crealm),
            cname: dup_opt(&self.cname),
            realm: self.realm.dup(),
            sname: self.sname.dup(),
            e_text: dup_opt(&self.e_text),
            e_data: dup_opt(&self.e_data),
        }
    }
}

/// The tagged fields of a [`KrbErrorMsg`].
#[verifier::opaque]
pub open spec fn krb_error_msg_fields(v: KrbErrorMsgV) -> Seq<Option<Seq<u8>>> {
    seq![
        Some(<i32 as Asn1>::der(v.pvno)),
        Some(<i32 as Asn1>::der(v.msg_type)),
        opt_time_der(v.ctime),
        opt_der::<i32>(v.cusec),
        Some(der_of_time(v.stime)),
        Some(<i32 as Asn1>::der(v.susec)),
        Some(<i32 as Asn1>::der(v.error_code)),
        opt_der::<GeneralString>(v.crealm),
        opt_der::<PrincipalName>(v.cname),
        Some(<GeneralString as Asn1>::der(v.realm)),
        Some(<PrincipalName as Asn1>::der(v.sname)),
        opt_der::<GeneralString>(v.e_text),
        opt_der::<Vec<u8>>(v.e_data),
    ]
}

/// The [`KrbErrorMsg`] of tagged fields.
#[verifier::opaque]
pub open spec fn krb_error_msg_of(f: Seq<Option<Seq<u8>>>) -> Option<KrbErrorMsgV> {
    let pvno = req::<i32>(f[0]);
    let msg_type = req::<i32>(f[1]);
    let ctime = opt_time(f[2]);
    let cusec = opt::<i32>(f[3]);
    let stime = req_time(f[4]);
    let susec = req::<i32>(f[5]);
    let error_code = req::<i32>(f[6]);
    let crealm = opt::<GeneralString>(f[7]);
    let cname = opt::<PrincipalName>(f[8]);
    let realm = req::<GeneralString>(f[9]);
    let sname = req::<PrincipalName>(f[10]);
    let e_text = opt::<GeneralString>(f[11]);
    let e_data = opt::<Vec<u8>>(f[12]);
    if pvno is Some && msg_type is Some && ctime is Some && cusec is Some && stime is Some && susec is Some && error_code is Some && crealm is Some && cname is Some && realm is Some && sname is Some && e_text is Some && e_data is Some {
        Some(KrbErrorMsgV { pvno: pvno->0, msg_type: msg_type->0, ctime: ctime->0, cusec: cusec->0, stime: stime->0, susec: susec->0, error_code: error_code->0, crealm: crealm->0, cname: cname->0, realm: realm->0, sname: sname->0, e_text: e_text->0, e_data: e_data->0 })
    } else {
        None
    }
}

impl Asn1 for KrbErrorMsg {
    open spec fn der(v: KrbErrorMsgV) -> Seq<u8> {
        tlv(0x7E, sequence(krb_error_msg_fields(v)))
    }

    open spec fn parse(s: Seq<u8>) -> Option<KrbErrorMsgV> {
        match untag(s, 0x7E) {
            Some(c) => match sequence_fields(c, 13) {
                Some(f) => krb_error_msg_of(f),
                None => None,
            },
            None => None,
        }
    }

    fn encode(&self) -> (r: Vec<u8>) {
        proof {
            reveal(krb_error_msg_fields);
            reveal(krb_error_msg_of);
        }
        let mut fs: Vec<Option<Vec<u8>>> = Vec::new();
        fs.push(Some(self.pvno.encode()));
        fs.push(Some(self.msg_type.encode()));
        fs.push(put_opt_time(&self.ctime));
        fs.push(put_opt(&self.cusec));
        fs.push(put_time(&self.stime));
        fs.push(Some(self.susec.encode()));
        fs.push(Some(self.error_code.encode()));
        fs.push(put_opt(&self.crealm));
        fs.push(put_opt(&self.cname));
        fs.push(Some(self.realm.encode()));
        fs.push(Some(self.sname.encode()));
        fs.push(put_opt(&self.e_text));
        fs.push(put_opt(&self.e_data));
        assert(fields_view(fs@) =~= krb_error_msg_fields(self@));
        assert(krb_error_msg_of(fields_view(fs@)) == Some(self@));
        let s = make_sequence(&fs);
        proof {
            assert(s.len() <= usize::MAX);
            lemma_untag(0x7E, s@);
        }
        make_tlv(0x7E, &s)
    }

    fn decode(s: &[u8]) -> (r: Option<KrbErrorMsg>) {
        proof {
            reveal(krb_error_msg_of);
        }
        let c = match strip_tag(s, 0x7E) {
            Some(c) => c,
            None => return None,
        };
        let fs = match parse_sequence(c, 13) {
            Some(fs) => fs,
            None => return None,
        };
        let pvno: i32 = match take_req::<i32>(&fs[0]) {
            Some(x) => x,
            None => return None,
        };
        let msg_type: i32 = match take_req::<i32>(&fs[1]) {
            Some(x) => x,
            None => return None,
        };
        let ctime = match take_opt_time(&fs[2]) {
            Some(x) => x,
            None => return None,
        };
        let cusec: Option<i32> = match take_opt::<i32>(&fs[3]) {
            Some(x) => x,
            None => return None,
        };
        let stime = match take_req_time(&fs[4]) {
            Some(x) => x,
            None => return None,
        };
        let susec: i32 = match take_req::<i32>(&fs[5]) {
            Some(x) => x,
            None => return None,
        };
        let error_code: i32 = match take_req::<i32>(&fs[6]) {
            Some(x) => x,
            None => return None,
        };
        let crealm = match take_opt::<GeneralString>(&fs[7]) {
            Some(x) => x,
            None => return None,
        };
        let cname = match take_opt::<PrincipalName>(&fs[8]) {
            Some(x) => x,
            None => return None,
        };
        let realm = match take_req::<GeneralString>(&fs[9]) {
            Some(x) => x,
            None => return None,
        };
        let sname = match take_req::<PrincipalName>(&fs[10]) {
            Some(x) => x,
            None => return None,
        };
        let e_text = match take_opt::<GeneralString>(&fs[11]) {
            Some(x) => x,
            None => return None,
        };
        let e_data = match take_opt::<Vec<u8>>(&fs[12]) {
            Some(x) => x,
            None => return None,
        };
        Some(KrbErrorMsg { pvno, msg_type, ctime, cusec, stime, susec, error_code, crealm, cname, realm, sname, e_text, e_data })
    }
}

impl EncryptionKey {
    /// A key of type `keytype` with the octets `keyvalue`.
    pub fn new(keytype: i32, keyvalue: Vec<u8>) -> (r: Self)
        ensures
            r@ == (EncryptionKeyV { keytype, keyvalue: keyvalue@ }),
    {
        EncryptionKey { keytype, keyvalue }
    }

    /// The key octets.
    pub fn key_bytes(&self) -> (r: &[u8])
        ensures
            r@ == self@.keyvalue,
    {
        &self.keyvalue
    }
}

} // verus!
