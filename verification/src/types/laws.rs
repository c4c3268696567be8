//! How the data types are laid out in DER.
use vstd::prelude::*;

use crate::asn1::{der_of_time, list_der, opt_der, opt_list_der, opt_time_der, Asn1, BitOctets, FlagBits, GeneralString};
use crate::der::{ctx_fields, sequence, tlv};
use crate::types::common::{authorization_data_element_fields, checksum_fields, encrypted_data_fields, encryption_key_fields, host_address_fields, krb_error_msg_fields, pa_data_fields, principal_name_fields, ticket_fields};
use crate::types::kdc::{enc_kdc_rep_part_fields, etype_info2_entry_fields, kdc_rep_fields, kdc_req_body_fields, kdc_req_fields, last_req_entry_fields, pa_enc_ts_enc_fields, pa_pac_options_fields, pa_pac_request_fields};
use crate::types::ap::{ap_rep_fields, ap_req_fields, authenticator_fields, enc_ap_rep_part_fields, enc_krb_cred_part_fields, enc_krb_priv_part_fields, enc_ticket_part_fields, krb_cred_fields, krb_cred_info_fields, krb_priv_fields, krb_safe_body_fields, krb_safe_fields, transited_encoding_fields};
use crate::types::fast::{krb_fast_armor_fields, krb_fast_armored_rep_fields, krb_fast_armored_req_fields, krb_fast_finished_fields, krb_fast_req_fields, krb_fast_response_fields};
use crate::types::{ApRep, ApRepV, ApReq, ApReqV, AsRep, AsReq, Authenticator, AuthenticatorV, AuthorizationDataElement, AuthorizationDataElementV, Checksum, ChecksumV, EncApRepPart, EncApRepPartV, EncAsRepPart, EncKdcRepPart, EncKdcRepPartV, EncKrbCredPart, EncKrbCredPartV, EncKrbPrivPart, EncKrbPrivPartV, EncTgsRepPart, EncTicketPart, EncTicketPartV, EncryptedData, EncryptedDataV, EncryptionKey, EncryptionKeyV, EtypeInfo2Entry, EtypeInfo2EntryV, HostAddress, HostAddressV, KdcRep, KdcRepV, KdcReq, KdcReqBody, KdcReqBodyV, KdcReqV, KrbCred, KrbCredInfo, KrbCredInfoV, KrbCredV, KrbErrorMsg, KrbErrorMsgV, KrbFastArmor, KrbFastArmorV, KrbFastArmoredRep, KrbFastArmoredRepV, KrbFastArmoredReq, KrbFastArmoredReqV, KrbFastFinished, KrbFastFinishedV, KrbFastReq, KrbFastReqV, KrbFastResponse, KrbFastResponseV, KrbPriv, KrbPrivV, KrbSafe, KrbSafeBody, KrbSafeBodyV, KrbSafeV, LastReqEntry, LastReqEntryV, PaData, PaDataV, PaEncTsEnc, PaEncTsEncV, PaFxFastReply, PaFxFastRequest, PaPacOptions, PaPacOptionsV, PaPacRequest, PaPacRequestV, PrincipalName, PrincipalNameV, TgsRep, TgsReq, Ticket, TicketV, TransitedEncoding, TransitedEncodingV};

verus! {

/// A sequence is of type 0x30 and holds its fields by their numbers: field `n`
/// under the tag 0xa0 and `n`, where it is there.
pub proof fn law_sequence(fs: Seq<Option<Seq<u8>>>, base: nat)
    ensures
        sequence(fs) == tlv(0x30, ctx_fields(fs, 0)),
        ctx_fields(Seq::empty(), base).len() == 0,
        fs.len() > 0 && fs[0] is Some ==> ctx_fields(fs, base) == tlv((0xa0 + base) as u8, fs[0]->0) + ctx_fields(
            fs.drop_first(),
            base + 1,
        ),
        fs.len() > 0 && fs[0] is None ==> ctx_fields(fs, base) == ctx_fields(fs.drop_first(), base + 1),
{
    if fs.len() > 0 && fs[0] is None {
        assert(ctx_fields(fs, base) =~= ctx_fields(fs.drop_first(), base + 1));
    }
}

/// The application tags of the messages that share their contents.
pub proof fn law_application_tags(q: KdcReqV, r: KdcRepV, p: EncKdcRepPartV, a: KrbFastArmoredReqV, b: KrbFastArmoredRepV)
    ensures
        <AsReq as Asn1>::der(q) == tlv(0x6a, <KdcReq as Asn1>::der(q)),
        <TgsReq as Asn1>::der(q) == tlv(0x6c, <KdcReq as Asn1>::der(q)),
        <AsRep as Asn1>::der(r) == tlv(0x6b, <KdcRep as Asn1>::der(r)),
        <TgsRep as Asn1>::der(r) == tlv(0x6d, <KdcRep as Asn1>::der(r)),
        <EncAsRepPart as Asn1>::der(p) == tlv(0x79, <EncKdcRepPart as Asn1>::der(p)),
        <EncTgsRepPart as Asn1>::der(p) == tlv(0x7a, <EncKdcRepPart as Asn1>::der(p)),
        <PaFxFastRequest as Asn1>::der(a) == tlv(0xa0, <KrbFastArmoredReq as Asn1>::der(a)),
        <PaFxFastReply as Asn1>::der(b) == tlv(0xa0, <KrbFastArmoredRep as Asn1>::der(b)),
{
}

/// The fields of a [`PrincipalName`] by their numbers.
pub proof fn law_principal_name_laid_out(v: PrincipalNameV)
    ensures
        <PrincipalName as Asn1>::der(v) == sequence(principal_name_fields(v)),
        principal_name_fields(v).len() == 2,
        principal_name_fields(v)[0] == Some(<i32 as Asn1>::der(v.name_type)),
        principal_name_fields(v)[1] == Some(list_der::<GeneralString>(v.name_string)),
{
    reveal(principal_name_fields);
}

/// The fields of an [`EncryptionKey`] by their numbers.
pub proof fn law_encryption_key_laid_out(v: EncryptionKeyV)
    ensures
        <EncryptionKey as Asn1>::der(v) == sequence(encryption_key_fields(v)),
        encryption_key_fields(v).len() == 2,
        encryption_key_fields(v)[0] == Some(<i32 as Asn1>::der(v.keytype)),
        encryption_key_fields(v)[1] == Some(<Vec<u8> as Asn1>::der(v.keyvalue)),
{
    reveal(encryption_key_fields);
}

/// The fields of an [`EncryptedData`] by their numbers.
pub proof fn law_encrypted_data_laid_out(v: EncryptedDataV)
    ensures
        <EncryptedData as Asn1>::der(v) == sequence(encrypted_data_fields(v)),
        encrypted_data_fields(v).len() == 3,
        encrypted_data_fields(v)[0] == Some(<i32 as Asn1>::der(v.etype)),
        encrypted_data_fields(v)[1] == opt_der::<i32>(v.kvno),
        encrypted_data_fields(v)[2] == Some(<Vec<u8> as Asn1>::der(v.cipher)),
{
    reveal(encrypted_data_fields);
}

/// The fields of a [`Checksum`] by their numbers.
pub proof fn law_checksum_laid_out(v: ChecksumV)
    ensures
        <Checksum as Asn1>::der(v) == sequence(checksum_fields(v)),
        checksum_fields(v).len() == 2,
        checksum_fields(v)[0] == Some(<i32 as Asn1>::der(v.cksumtype)),
        checksum_fields(v)[1] == Some(<Vec<u8> as Asn1>::der(v.checksum)),
{
    reveal(checksum_fields);
}

/// The fields of a [`HostAddress`] by their numbers.
pub proof fn law_host_address_laid_out(v: HostAddressV)
    ensures
        <HostAddress as Asn1>::der(v) == sequence(host_address_fields(v)),
        host_address_fields(v).len() == 2,
        host_address_fields(v)[0] == Some(<i32 as Asn1>::der(v.addr_type)),
        host_address_fields(v)[1] == Some(<Vec<u8> as Asn1>::der(v.address)),
{
    reveal(host_address_fields);
}

/// The fields of an [`AuthorizationDataElement`] by their numbers.
pub proof fn law_authorization_data_element_laid_out(v: AuthorizationDataElementV)
    ensures
        <AuthorizationDataElement as Asn1>::der(v) == sequence(authorization_data_element_fields(v)),
        authorization_data_element_fields(v).len() == 2,
        authorization_data_element_fields(v)[0] == Some(<i32 as Asn1>::der(v.ad_type)),
        authorization_data_element_fields(v)[1] == Some(<Vec<u8> as Asn1>::der(v.ad_data)),
{
    reveal(authorization_data_element_fields);
}

/// The fields of a [`Ticket`] by their numbers.
pub proof fn law_ticket_laid_out(v: TicketV)
    ensures
        <Ticket as Asn1>::der(v) == tlv(0x61, sequence(ticket_fields(v))),
        ticket_fields(v).len() == 4,
        ticket_fields(v)[0] == Some(<i32 as Asn1>::der(v.tkt_vno)),
        ticket_fields(v)[1] == Some(<GeneralString as Asn1>::der(v.realm)),
        ticket_fields(v)[2] == Some(<PrincipalName as Asn1>::der(v.sname)),
        ticket_fields(v)[3] == Some(<EncryptedData as Asn1>::der(v.enc_part)),
{
    reveal(ticket_fields);
}

/// The fields of a [`PaData`] by their numbers.
pub proof fn law_pa_data_laid_out(v: PaDataV)
    ensures
        <PaData as Asn1>::der(v) == sequence(pa_data_fields(v)),
        pa_data_fields(v).len() == 3,
        pa_data_fields(v)[0] is None,
        pa_data_fields(v)[1] == Some(<i32 as Asn1>::der(v.padata_type)),
        pa_data_fields(v)[2] == Some(<Vec<u8> as Asn1>::der(v.padata_value)),
{
    reveal(pa_data_fields);
}

/// The fields of a [`KrbErrorMsg`] by their numbers.
pub proof fn law_krb_error_msg_laid_out(v: KrbErrorMsgV)
    ensures
        <KrbErrorMsg as Asn1>::der(v) == tlv(0x7e, sequence(krb_error_msg_fields(v))),
        krb_error_msg_fields(v).len() == 13,
        krb_error_msg_fields(v)[0] == Some(<i32 as Asn1>::der(v.pvno)),
        krb_error_msg_fields(v)[1] == Some(<i32 as Asn1>::der(v.msg_type)),
        krb_error_msg_fields(v)[2] == opt_time_der(v.ctime),
        krb_error_msg_fields(v)[3] == opt_der::<i32>(v.cusec),
        krb_error_msg_fields(v)[4] == Some(der_of_time(v.stime)),
        krb_error_msg_fields(v)[5] == Some(<i32 as Asn1>::der(v.susec)),
        krb_error_msg_fields(v)[6] == Some(<i32 as Asn1>::der(v.error_code)),
        krb_error_msg_fields(v)[7] == opt_der::<GeneralString>(v.crealm),
        krb_error_msg_fields(v)[8] == opt_der::<PrincipalName>(v.cname),
        krb_error_msg_fields(v)[9] == Some(<GeneralString as Asn1>::der(v.realm)),
        krb_error_msg_fields(v)[10] == Some(<PrincipalName as Asn1>::der(v.sname)),
        krb_error_msg_fields(v)[11] == opt_der::<GeneralString>(v.e_text),
        krb_error_msg_fields(v)[12] == opt_der::<Vec<u8>>(v.e_data),
{
    reveal(krb_error_msg_fields);
}

/// The fields of a [`KdcReqBody`] by their numbers.
pub proof fn law_kdc_req_body_laid_out(v: KdcReqBodyV)
    ensures
        <KdcReqBody as Asn1>::der(v) == sequence(kdc_req_body_fields(v)),
        kdc_req_body_fields(v).len() == 12,
        kdc_req_body_fields(v)[0] == Some(<FlagBits as Asn1>::der(v.kdc_options)),
        kdc_req_body_fields(v)[1] == opt_der::<PrincipalName>(v.cname),
        kdc_req_body_fields(v)[2] == Some(<GeneralString as Asn1>::der(v.realm)),
        kdc_req_body_fields(v)[3] == opt_der::<PrincipalName>(v.sname),
        kdc_req_body_fields(v)[4] == opt_time_der(v.from),
        kdc_req_body_fields(v)[5] == Some(der_of_time(v.till)),
        kdc_req_body_fields(v)[6] == opt_time_der(v.rtime),
        kdc_req_body_fields(v)[7] == Some(<u32 as Asn1>::der(v.nonce)),
        kdc_req_body_fields(v)[8] == Some(list_der::<i32>(v.etype)),
        kdc_req_body_fields(v)[9] == opt_list_der::<HostAddress>(v.addresses),
        kdc_req_body_fields(v)[10] == opt_der::<EncryptedData>(v.enc_authorization_data),
        kdc_req_body_fields(v)[11] == opt_list_der::<Ticket>(v.additional_tickets),
{
    reveal(kdc_req_body_fields);
}

/// The fields of a [`KdcReq`] by their numbers.
pub proof fn law_kdc_req_laid_out(v: KdcReqV)
    ensures
        <KdcReq as Asn1>::der(v) == sequence(kdc_req_fields(v)),
        kdc_req_fields(v).len() == 5,
        kdc_req_fields(v)[0] is None,
        kdc_req_fields(v)[1] == Some(<i32 as Asn1>::der(v.pvno)),
        kdc_req_fields(v)[2] == Some(<i32 as Asn1>::der(v.msg_type)),
        kdc_req_fields(v)[3] == opt_list_der::<PaData>(v.padata),
        kdc_req_fields(v)[4] == Some(<KdcReqBody as Asn1>::der(v.req_body)),
{
    reveal(kdc_req_fields);
}

/// The fields of a [`KdcRep`] by their numbers.
pub proof fn law_kdc_rep_laid_out(v: KdcRepV)
    ensures
        <KdcRep as Asn1>::der(v) == sequence(kdc_rep_fields(v)),
        kdc_rep_fields(v).len() == 7,
        kdc_rep_fields(v)[0] == Some(<i32 as Asn1>::der(v.pvno)),
        kdc_rep_fields(v)[1] == Some(<i32 as Asn1>::der(v.msg_type)),
        kdc_rep_fields(v)[2] == opt_list_der::<PaData>(v.padata),
        kdc_rep_fields(v)[3] == Some(<GeneralString as Asn1>::der(v.crealm)),
        kdc_rep_fields(v)[4] == Some(<PrincipalName as Asn1>::der(v.cname)),
        kdc_rep_fields(v)[5] == Some(<Ticket as Asn1>::der(v.ticket)),
        kdc_rep_fields(v)[6] == Some(<EncryptedData as Asn1>::der(v.enc_part)),
{
    reveal(kdc_rep_fields);
}

/// The fields of a [`LastReqEntry`] by their numbers.
pub proof fn law_last_req_entry_laid_out(v: LastReqEntryV)
    ensures
        <LastReqEntry as Asn1>::der(v) == sequence(last_req_entry_fields(v)),
        last_req_entry_fields(v).len() == 2,
        last_req_entry_fields(v)[0] == Some(<i32 as Asn1>::der(v.lr_type)),
        last_req_entry_fields(v)[1] == Some(der_of_time(v.lr_value)),
{
    reveal(last_req_entry_fields);
}

/// The fields of an [`EncKdcRepPart`] by their numbers.
pub proof fn law_enc_kdc_rep_part_laid_out(v: EncKdcRepPartV)
    ensures
        <EncKdcRepPart as Asn1>::der(v) == sequence(enc_kdc_rep_part_fields(v)),
        enc_kdc_rep_part_fields(v).len() == 13,
        enc_kdc_rep_part_fields(v)[0] == Some(<EncryptionKey as Asn1>::der(v.key)),
        enc_kdc_rep_part_fields(v)[1] == Some(list_der::<LastReqEntry>(v.last_req)),
        enc_kdc_rep_part_fields(v)[2] == Some(<u32 as Asn1>::der(v.nonce)),
        enc_kdc_rep_part_fields(v)[3] == opt_time_der(v.key_expiration),
        enc_kdc_rep_part_fields(v)[4] == Some(<FlagBits as Asn1>::der(v.flags)),
        enc_kdc_rep_part_fields(v)[5] == Some(der_of_time(v.authtime)),
        enc_kdc_rep_part_fields(v)[6] == opt_time_der(v.starttime),
        enc_kdc_rep_part_fields(v)[7] == Some(der_of_time(v.endtime)),
        enc_kdc_rep_part_fields(v)[8] == opt_time_der(v.renew_till),
        enc_kdc_rep_part_fields(v)[9] == Some(<GeneralString as Asn1>::der(v.srealm)),
        enc_kdc_rep_part_fields(v)[10] == Some(<PrincipalName as Asn1>::der(v.sname)),
        enc_kdc_rep_part_fields(v)[11] == opt_list_der::<HostAddress>(v.caddr),
        enc_kdc_rep_part_fields(v)[12] == opt_list_der::<PaData>(v.encrypted_pa_data),
{
    reveal(enc_kdc_rep_part_fields);
}

/// The fields of an [`EtypeInfo2Entry`] by their numbers.
pub proof fn law_etype_info2_entry_laid_out(v: EtypeInfo2EntryV)
    ensures
        <EtypeInfo2Entry as Asn1>::der(v) == sequence(etype_info2_entry_fields(v)),
        etype_info2_entry_fields(v).len() == 3,
        etype_info2_entry_fields(v)[0] == Some(<i32 as Asn1>::der(v.etype)),
        etype_info2_entry_fields(v)[1] == opt_der::<GeneralString>(v.salt),
        etype_info2_entry_fields(v)[2] == opt_der::<Vec<u8>>(v.s2kparams),
{
    reveal(etype_info2_entry_fields);
}

/// The fields of a [`PaEncTsEnc`] by their numbers.
pub proof fn law_pa_enc_ts_enc_laid_out(v: PaEncTsEncV)
    ensures
        <PaEncTsEnc as Asn1>::der(v) == sequence(pa_enc_ts_enc_fields(v)),
        pa_enc_ts_enc_fields(v).len() == 2,
        pa_enc_ts_enc_fields(v)[0] == Some(der_of_time(v.patimestamp)),
        pa_enc_ts_enc_fields(v)[1] == opt_der::<i32>(v.pausec),
{
    reveal(pa_enc_ts_enc_fields);
}

/// The fields of a [`PaPacRequest`] by their numbers.
pub proof fn law_pa_pac_request_laid_out(v: PaPacRequestV)
    ensures
        <PaPacRequest as Asn1>::der(v) == sequence(pa_pac_request_fields(v)),
        pa_pac_request_fields(v).len() == 1,
        pa_pac_request_fields(v)[0] == Some(<bool as Asn1>::der(v.pac_wanted)),
{
    reveal(pa_pac_request_fields);
}

/// The fields of a [`PaPacOptions`] by their numbers.
pub proof fn law_pa_pac_options_laid_out(v: PaPacOptionsV)
    ensures
        <PaPacOptions as Asn1>::der(v) == sequence(pa_pac_options_fields(v)),
        pa_pac_options_fields(v).len() == 1,
        pa_pac_options_fields(v)[0] == Some(<FlagBits as Asn1>::der(v.flags)),
{
    reveal(pa_pac_options_fields);
}

/// The fields of a [`TransitedEncoding`] by their numbers.
pub proof fn law_transited_encoding_laid_out(v: TransitedEncodingV)
    ensures
        <TransitedEncoding as Asn1>::der(v) == sequence(transited_encoding_fields(v)),
        transited_encoding_fields(v).len() == 2,
        transited_encoding_fields(v)[0] == Some(<i32 as Asn1>::der(v.tr_type)),
        transited_encoding_fields(v)[1] == Some(<Vec<u8> as Asn1>::der(v.contents)),
{
    reveal(transited_encoding_fields);
}

/// The fields of an [`EncTicketPart`] by their numbers.
pub proof fn law_enc_ticket_part_laid_out(v: EncTicketPartV)
    ensures
        <EncTicketPart as Asn1>::der(v) == tlv(0x63, sequence(enc_ticket_part_fields(v))),
        enc_ticket_part_fields(v).len() == 11,
        enc_ticket_part_fields(v)[0] == Some(<FlagBits as Asn1>::der(v.flags)),
        enc_ticket_part_fields(v)[1] == Some(<EncryptionKey as Asn1>::der(v.key)),
        enc_ticket_part_fields(v)[2] == Some(<GeneralString as Asn1>::der(v.crealm)),
        enc_ticket_part_fields(v)[3] == Some(<PrincipalName as Asn1>::der(v.cname)),
        enc_ticket_part_fields(v)[4] == Some(<TransitedEncoding as Asn1>::der(v.transited)),
        enc_ticket_part_fields(v)[5] == Some(der_of_time(v.authtime)),
        enc_ticket_part_fields(v)[6] == opt_time_der(v.starttime),
        enc_ticket_part_fields(v)[7] == Some(der_of_time(v.endtime)),
        enc_ticket_part_fields(v)[8] == opt_time_der(v.renew_till),
        enc_ticket_part_fields(v)[9] == opt_list_der::<HostAddress>(v.caddr),
        enc_ticket_part_fields(v)[10] == opt_list_der::<AuthorizationDataElement>(v.authorization_data),
{
    reveal(enc_ticket_part_fields);
}

/// The fields of an [`Authenticator`] by their numbers.
pub proof fn law_authenticator_laid_out(v: AuthenticatorV)
    ensures
        <Authenticator as Asn1>::der(v) == tlv(0x62, sequence(authenticator_fields(v))),
        authenticator_fields(v).len() == 9,
        authenticator_fields(v)[0] == Some(<i32 as Asn1>::der(v.authenticator_vno)),
        authenticator_fields(v)[1] == Some(<GeneralString as Asn1>::der(v.crealm)),
        authenticator_fields(v)[2] == Some(<PrincipalName as Asn1>::der(v.cname)),
        authenticator_fields(v)[3] == opt_der::<Checksum>(v.cksum),
        authenticator_fields(v)[4] == Some(<i32 as Asn1>::der(v.cusec)),
        authenticator_fields(v)[5] == Some(der_of_time(v.ctime)),
        authenticator_fields(v)[6] == opt_der::<EncryptionKey>(v.subkey),
        authenticator_fields(v)[7] == opt_der::<u32>(v.seq_number),
        authenticator_fields(v)[8] == opt_list_der::<AuthorizationDataElement>(v.authorization_data),
{
    reveal(authenticator_fields);
}

/// The fields of an [`ApReq`] by their numbers.
pub proof fn law_ap_req_laid_out(v: ApReqV)
    ensures
        <ApReq as Asn1>::der(v) == tlv(0x6e, sequence(ap_req_fields(v))),
        ap_req_fields(v).len() == 5,
        ap_req_fields(v)[0] == Some(<i32 as Asn1>::der(v.pvno)),
        ap_req_fields(v)[1] == Some(<i32 as Asn1>::der(v.msg_type)),
        ap_req_fields(v)[2] == Some(<FlagBits as Asn1>::der(v.ap_options)),
        ap_req_fields(v)[3] == Some(<Ticket as Asn1>::der(v.ticket)),
        ap_req_fields(v)[4] == Some(<EncryptedData as Asn1>::der(v.authenticator)),
{
    reveal(ap_req_fields);
}

/// The fields of an [`ApRep`] by their numbers.
pub proof fn law_ap_rep_laid_out(v: ApRepV)
    ensures
        <ApRep as Asn1>::der(v) == tlv(0x6f, sequence(ap_rep_fields(v))),
        ap_rep_fields(v).len() == 3,
        ap_rep_fields(v)[0] == Some(<i32 as Asn1>::der(v.pvno)),
        ap_rep_fields(v)[1] == Some(<i32 as Asn1>::der(v.msg_type)),
        ap_rep_fields(v)[2] == Some(<EncryptedData as Asn1>::der(v.enc_part)),
{
    reveal(ap_rep_fields);
}

/// The fields of an [`EncApRepPart`] by their numbers.
pub proof fn law_enc_ap_rep_part_laid_out(v: EncApRepPartV)
    ensures
        <EncApRepPart as Asn1>::der(v) == tlv(0x7b, sequence(enc_ap_rep_part_fields(v))),
        enc_ap_rep_part_fields(v).len() == 4,
        enc_ap_rep_part_fields(v)[0] == Some(der_of_time(v.ctime)),
        enc_ap_rep_part_fields(v)[1] == Some(<i32 as Asn1>::der(v.cusec)),
        enc_ap_rep_part_fields(v)[2] == opt_der::<EncryptionKey>(v.subkey),
        enc_ap_rep_part_fields(v)[3] == opt_der::<u32>(v.seq_number),
{
    reveal(enc_ap_rep_part_fields);
}

/// The fields of a [`KrbSafeBody`] by their numbers.
pub proof fn law_krb_safe_body_laid_out(v: KrbSafeBodyV)
    ensures
        <KrbSafeBody as Asn1>::der(v) == sequence(krb_safe_body_fields(v)),
        krb_safe_body_fields(v).len() == 6,
        krb_safe_body_fields(v)[0] == Some(<Vec<u8> as Asn1>::der(v.user_data)),
        krb_safe_body_fields(v)[1] == opt_time_der(v.timestamp),
        krb_safe_body_fields(v)[2] == opt_der::<i32>(v.usec),
        krb_safe_body_fields(v)[3] == opt_der::<u32>(v.seq_number),
        krb_safe_body_fields(v)[4] == Some(<HostAddress as Asn1>::der(v.s_address)),
        krb_safe_body_fields(v)[5] == opt_der::<HostAddress>(v.r_address),
{
    reveal(krb_safe_body_fields);
}

/// The fields of a [`KrbSafe`] by their numbers.
pub proof fn law_krb_safe_laid_out(v: KrbSafeV)
    ensures
        <KrbSafe as Asn1>::der(v) == tlv(0x74, sequence(krb_safe_fields(v))),
        krb_safe_fields(v).len() == 4,
        krb_safe_fields(v)[0] == Some(<i32 as Asn1>::der(v.pvno)),
        krb_safe_fields(v)[1] == Some(<i32 as Asn1>::der(v.msg_type)),
        krb_safe_fields(v)[2] == Some(<KrbSafeBody as Asn1>::der(v.safe_body)),
        krb_safe_fields(v)[3] == Some(<Checksum as Asn1>::der(v.cksum)),
{
    reveal(krb_safe_fields);
}

/// The fields of a [`KrbPriv`] by their numbers.
pub proof fn law_krb_priv_laid_out(v: KrbPrivV)
    ensures
        <KrbPriv as Asn1>::der(v) == tlv(0x75, sequence(krb_priv_fields(v))),
        krb_priv_fields(v).len() == 4,
        krb_priv_fields(v)[0] == Some(<i32 as Asn1>::der(v.pvno)),
        krb_priv_fields(v)[1] == Some(<i32 as Asn1>::der(v.msg_type)),
        krb_priv_fields(v)[2] is None,
        krb_priv_fields(v)[3] == Some(<EncryptedData as Asn1>::der(v.enc_part)),
{
    reveal(krb_priv_fields);
}

/// The fields of an [`EncKrbPrivPart`] by their numbers.
pub proof fn law_enc_krb_priv_part_laid_out(v: EncKrbPrivPartV)
    ensures
        <EncKrbPrivPart as Asn1>::der(v) == tlv(0x7c, sequence(enc_krb_priv_part_fields(v))),
        enc_krb_priv_part_fields(v).len() == 6,
        enc_krb_priv_part_fields(v)[0] == Some(<Vec<u8> as Asn1>::der(v.user_data)),
        enc_krb_priv_part_fields(v)[1] == opt_time_der(v.timestamp),
        enc_krb_priv_part_fields(v)[2] == opt_der::<i32>(v.usec),
        enc_krb_priv_part_fields(v)[3] == opt_der::<u32>(v.seq_number),
        enc_krb_priv_part_fields(v)[4] == Some(<HostAddress as Asn1>::der(v.s_address)),
        enc_krb_priv_part_fields(v)[5] == opt_der::<HostAddress>(v.r_address),
{
    reveal(enc_krb_priv_part_fields);
}

/// The fields of a [`KrbCred`] by their numbers.
pub proof fn law_krb_cred_laid_out(v: KrbCredV)
    ensures
        <KrbCred as Asn1>::der(v) == tlv(0x76, sequence(krb_cred_fields(v))),
        krb_cred_fields(v).len() == 4,
        krb_cred_fields(v)[0] == Some(<i32 as Asn1>::der(v.pvno)),
        krb_cred_fields(v)[1] == Some(<i32 as Asn1>::der(v.msg_type)),
        krb_cred_fields(v)[2] == Some(list_der::<Ticket>(v.tickets)),
        krb_cred_fields(v)[3] == Some(<EncryptedData as Asn1>::der(v.enc_part)),
{
    reveal(krb_cred_fields);
}

/// The fields of a [`KrbCredInfo`] by their numbers.
pub proof fn law_krb_cred_info_laid_out(v: KrbCredInfoV)
    ensures
        <KrbCredInfo as Asn1>::der(v) == sequence(krb_cred_info_fields(v)),
        krb_cred_info_fields(v).len() == 11,
        krb_cred_info_fields(v)[0] == Some(<EncryptionKey as Asn1>::der(v.key)),
        krb_cred_info_fields(v)[1] == opt_der::<GeneralString>(v.prealm),
        krb_cred_info_fields(v)[2] == opt_der::<PrincipalName>(v.pname),
        krb_cred_info_fields(v)[3] == opt_der::<FlagBits>(v.flags),
        krb_cred_info_fields(v)[4] == opt_time_der(v.authtime),
        krb_cred_info_fields(v)[5] == opt_time_der(v.starttime),
        krb_cred_info_fields(v)[6] == opt_time_der(v.endtime),
        krb_cred_info_fields(v)[7] == opt_time_der(v.renew_till),
        krb_cred_info_fields(v)[8] == opt_der::<GeneralString>(v.srealm),
        krb_cred_info_fields(v)[9] == opt_der::<PrincipalName>(v.sname),
        krb_cred_info_fields(v)[10] == opt_list_der::<HostAddress>(v.caddr),
{
    reveal(krb_cred_info_fields);
}

/// The fields of an [`EncKrbCredPart`] by their numbers.
pub proof fn law_enc_krb_cred_part_laid_out(v: EncKrbCredPartV)
    ensures
        <EncKrbCredPart as Asn1>::der(v) == tlv(0x7d, sequence(enc_krb_cred_part_fields(v))),
        enc_krb_cred_part_fields(v).len() == 6,
        enc_krb_cred_part_fields(v)[0] == Some(list_der::<KrbCredInfo>(v.ticket_info)),
        enc_krb_cred_part_fields(v)[1] == opt_der::<u32>(v.nonce),
        enc_krb_cred_part_fields(v)[2] == opt_time_der(v.timestamp),
        enc_krb_cred_part_fields(v)[3] == opt_der::<i32>(v.usec),
        enc_krb_cred_part_fields(v)[4] == opt_der::<HostAddress>(v.s_address),
        enc_krb_cred_part_fields(v)[5] == opt_der::<HostAddress>(v.r_address),
{
    reveal(enc_krb_cred_part_fields);
}

/// The fields of a [`KrbFastArmor`] by their numbers.
pub proof fn law_krb_fast_armor_laid_out(v: KrbFastArmorV)
    ensures
        <KrbFastArmor as Asn1>::der(v) == sequence(krb_fast_armor_fields(v)),
        krb_fast_armor_fields(v).len() == 2,
        krb_fast_armor_fields(v)[0] == Some(<i32 as Asn1>::der(v.armor_type)),
        krb_fast_armor_fields(v)[1] == Some(<Vec<u8> as Asn1>::der(v.armor_value)),
{
    reveal(krb_fast_armor_fields);
}

/// The fields of a [`KrbFastArmoredReq`] by their numbers.
pub proof fn law_krb_fast_armored_req_laid_out(v: KrbFastArmoredReqV)
    ensures
        <KrbFastArmoredReq as Asn1>::der(v) == sequence(krb_fast_armored_req_fields(v)),
        krb_fast_armored_req_fields(v).len() == 3,
        krb_fast_armored_req_fields(v)[0] == opt_der::<KrbFastArmor>(v.armor),
        krb_fast_armored_req_fields(v)[1] == Some(<Checksum as Asn1>::der(v.req_checksum)),
        krb_fast_armored_req_fields(v)[2] == Some(<EncryptedData as Asn1>::der(v.enc_fast_req)),
{
    reveal(krb_fast_armored_req_fields);
}

/// The fields of a [`KrbFastReq`] by their numbers.
pub proof fn law_krb_fast_req_laid_out(v: KrbFastReqV)
    ensures
        <KrbFastReq as Asn1>::der(v) == sequence(krb_fast_req_fields(v)),
        krb_fast_req_fields(v).len() == 3,
        krb_fast_req_fields(v)[0] == Some(<BitOctets as Asn1>::der(v.fast_options)),
        krb_fast_req_fields(v)[1] == Some(list_der::<PaData>(v.padata)),
        krb_fast_req_fields(v)[2] == Some(<KdcReqBody as Asn1>::der(v.req_body)),
{
    reveal(krb_fast_req_fields);
}

/// The fields of a [`KrbFastArmoredRep`] by their numbers.
pub proof fn law_krb_fast_armored_rep_laid_out(v: KrbFastArmoredRepV)
    ensures
        <KrbFastArmoredRep as Asn1>::der(v) == sequence(krb_fast_armored_rep_fields(v)),
        krb_fast_armored_rep_fields(v).len() == 1,
        krb_fast_armored_rep_fields(v)[0] == Some(<EncryptedData as Asn1>::der(v.enc_fast_rep)),
{
    reveal(krb_fast_armored_rep_fields);
}

/// The fields of a [`KrbFastFinished`] by their numbers.
pub proof fn law_krb_fast_finished_laid_out(v: KrbFastFinishedV)
    ensures
        <KrbFastFinished as Asn1>::der(v) == sequence(krb_fast_finished_fields(v)),
        krb_fast_finished_fields(v).len() == 5,
        krb_fast_finished_fields(v)[0] == Some(der_of_time(v.timestamp)),
        krb_fast_finished_fields(v)[1] == Some(<i32 as Asn1>::der(v.usec)),
        krb_fast_finished_fields(v)[2] == Some(<GeneralString as Asn1>::der(v.crealm)),
        krb_fast_finished_fields(v)[3] == Some(<PrincipalName as Asn1>::der(v.cname)),
        krb_fast_finished_fields(v)[4] == Some(<Checksum as Asn1>::der(v.ticket_checksum)),
{
    reveal(krb_fast_finished_fields);
}

/// The fields of a [`KrbFastResponse`] by their numbers.
pub proof fn law_krb_fast_response_laid_out(v: KrbFastResponseV)
    ensures
        <KrbFastResponse as Asn1>::der(v) == sequence(krb_fast_response_fields(v)),
        krb_fast_response_fields(v).len() == 4,
        krb_fast_response_fields(v)[0] == Some(list_der::<PaData>(v.padata)),
        krb_fast_response_fields(v)[1] == opt_der::<EncryptionKey>(v.strengthen_key),
        krb_fast_response_fields(v)[2] == opt_der::<KrbFastFinished>(v.finished),
        krb_fast_response_fields(v)[3] == Some(<u32 as Asn1>::der(v.nonce)),
{
    reveal(krb_fast_response_fields);
}

} // verus!
