//! Whole exchanges against a KDC that plays by the rules.
use krb5_rs::asn1::{Asn1, FlagBits, GeneralString};
use krb5_rs::crypto::{find_etype, key_usage, EtypeProfile};
use krb5_rs::protocol::as_exchange::{AsExchange, AsExchangeConfig, StepResult};
use krb5_rs::protocol::fast::FastMode;
use krb5_rs::protocol::preauth::PaDataType;
use krb5_rs::protocol::tgs_exchange::{TgsExchange, TgsOptions, TgsStepResult};
use krb5_rs::protocol::{Credential, TicketTimes};
use krb5_rs::time::{split_nanos, Duration, KerberosTime, Moment};
use krb5_rs::types::{
    AsRep, AsReq, EncAsRepPart, EncKdcRepPart, EncTgsRepPart, EncryptedData, EncryptionKey, KdcRep, KdcReqBody, PrincipalName, TgsRep,
    TgsReq, Ticket, TicketFlags,
};
use krb5_rs::Krb5Error;

const REALM: &str = "EXAMPLE.COM";

fn now_secs() -> i64 {
    split_nanos(Moment::now().total_nanos()).0.timestamp()
}

fn at(secs: i64) -> KerberosTime {
    KerberosTime::new(secs, 0).expect("time")
}

fn realm(s: &str) -> GeneralString {
    GeneralString::from_bytes(s.as_bytes()).expect("realm")
}

fn copy_name(p: &PrincipalName) -> PrincipalName {
    PrincipalName::decode(&p.encode()).expect("name")
}

fn session() -> EncryptionKey {
    EncryptionKey::new(18, vec![0x5a; 32])
}

fn ticket(sname: &PrincipalName) -> Ticket {
    Ticket {
        tkt_vno: 5,
        realm: realm(REALM),
        sname: copy_name(sname),
        enc_part: EncryptedData { etype: 18, kvno: Some(1), cipher: vec![7; 40] },
    }
}

fn part(body: &KdcReqBody, sname: &PrincipalName, start: i64) -> EncKdcRepPart {
    EncKdcRepPart {
        key: session(),
        last_req: vec![],
        nonce: body.nonce,
        key_expiration: None,
        flags: FlagBits::new(TicketFlags::FORWARDABLE | TicketFlags::INITIAL),
        authtime: at(start),
        starttime: Some(at(start)),
        endtime: at(start + 36_000),
        renew_till: None,
        srealm: realm(REALM),
        sname: copy_name(sname),
        caddr: None,
        encrypted_pa_data: None,
    }
}

fn rep(msg_type: i32, sname: &PrincipalName, key: &EncryptionKey, usage: i32, plain: &[u8]) -> KdcRep {
    let profile = find_etype(key.keytype).expect("etype");
    KdcRep {
        pvno: 5,
        msg_type,
        padata: None,
        crealm: realm(REALM),
        cname: PrincipalName::new_principal("user"),
        ticket: ticket(sname),
        enc_part: EncryptedData {
            etype: key.keytype,
            kvno: None,
            cipher: profile.encrypt(&key.keyvalue, usage, plain).expect("cipher"),
        },
    }
}

fn password_key(password: &str) -> EncryptionKey {
    let k = find_etype(18)
        .expect("etype")
        .string_to_key(password.as_bytes(), b"EXAMPLE.COMuser", None)
        .expect("key");
    EncryptionKey::new(18, k)
}

fn as_request(step: StepResult) -> AsReq {
    match step {
        StepResult::SendToKdc { data, .. } => AsReq::decode(&data).expect("AS-REQ"),
        other => panic!("unexpected {other:?}"),
    }
}

fn as_reply(req: &AsReq, password: &str, start: i64) -> Vec<u8> {
    let sname = PrincipalName::new_srv_inst("krbtgt", REALM);
    let plain = EncAsRepPart(part(&req.0.req_body, &sname, start)).encode();
    AsRep(rep(11, &sname, &password_key(password), key_usage::AS_REP_ENCPART, &plain)).encode()
}

fn started() -> (AsExchange, AsReq) {
    let config = AsExchangeConfig::new(PrincipalName::new_principal("user"), REALM);
    let mut ex = AsExchange::new(config, "password");
    let req = as_request(ex.step(&[]).expect("request"));
    (ex, req)
}

#[test]
fn tgt_from_a_password() {
    let (mut ex, req) = started();
    assert!(ex.credential().is_err());
    let reply = as_reply(&req, "password", now_secs());
    assert!(matches!(ex.step(&reply), Ok(StepResult::Complete)));
    let cred = ex.credential().expect("credential");
    assert_eq!(cred.session_key.keyvalue, session().keyvalue);
    assert_eq!(cred.crealm, REALM);
    assert!(cred.flags.contains(TicketFlags::INITIAL));
    // a finished exchange stays finished
    assert!(matches!(ex.step(b"anything"), Ok(StepResult::Complete)));
}

#[test]
fn as_reply_errors() {
    let (mut ex, req) = started();
    let reply = as_reply(&req, "wrong", now_secs());
    assert!(matches!(ex.step(&reply), Err(Krb5Error::DecryptionFailed)));

    let (mut ex, mut req) = started();
    req.0.req_body.nonce ^= 1;
    let reply = as_reply(&req, "password", now_secs());
    assert!(matches!(ex.step(&reply), Err(Krb5Error::ReplyValidation(_))));

    let (mut ex, req) = started();
    let reply = as_reply(&req, "password", now_secs() - 4000);
    assert!(matches!(ex.step(&reply), Err(Krb5Error::ClockSkew { max_skew }) if max_skew == Duration::from_secs(300)));

    // a ticket may not outlive the request
    let (mut ex, req) = started();
    let reply = as_reply(&req, "password", now_secs() + 100);
    assert!(matches!(ex.step(&reply), Err(Krb5Error::ReplyValidation("ticket outlives the request"))));

    let (mut ex, _) = started();
    assert!(matches!(ex.step(b"garbage"), Err(Krb5Error::Asn1Decode)));
}

fn tgt() -> Credential {
    let sname = PrincipalName::new_srv_inst("krbtgt", REALM);
    let now = now_secs();
    Credential {
        client: PrincipalName::new_principal("user"),
        crealm: REALM.to_string(),
        server: copy_name(&sname),
        srealm: REALM.to_string(),
        session_key: session(),
        times: TicketTimes { authtime: at(now), starttime: None, endtime: at(now + 36_000), renew_till: None },
        ticket: ticket(&sname),
        flags: FlagBits::new(TicketFlags::FORWARDABLE),
        addresses: None,
        authdata: None,
    }
}

fn web() -> PrincipalName {
    PrincipalName::new_srv_inst("HTTP", "web.example.com")
}

fn tgs_started(options: TgsOptions) -> (TgsExchange, TgsReq) {
    let mut ex = TgsExchange::new(tgt(), web(), options);
    let req = match ex.step(&[]).expect("request") {
        TgsStepResult::SendToKdc { data, .. } => TgsReq::decode(&data).expect("TGS-REQ"),
        other => panic!("unexpected {other:?}"),
    };
    (ex, req)
}

fn tgs_reply(req: &TgsReq, key: &EncryptionKey, usage: i32, sname: &PrincipalName) -> Vec<u8> {
    let plain = EncTgsRepPart(part(&req.0.req_body, sname, now_secs())).encode();
    TgsRep(rep(13, sname, key, usage, &plain)).encode()
}

#[test]
fn service_ticket_under_subkey_or_session_key() {
    let (mut ex, req) = tgs_started(TgsOptions::default());
    let sub = ex.subkey.as_ref().expect("subkey");
    let key = EncryptionKey::new(sub.keytype, sub.keyvalue.clone());
    let reply = tgs_reply(&req, &key, key_usage::TGS_REP_ENCPART_SUBKEY, &web());
    assert!(matches!(ex.step(&reply), Ok(TgsStepResult::Complete)));
    assert_eq!(ex.credential().expect("credential").server.encode(), web().encode());

    let (mut ex, req) = tgs_started(TgsOptions::default());
    let reply = tgs_reply(&req, &session(), key_usage::TGS_REP_ENCPART_SESSKEY, &web());
    assert!(matches!(ex.step(&reply), Ok(TgsStepResult::Complete)));

    let (mut ex, req) = tgs_started(TgsOptions::default());
    let reply = tgs_reply(&req, &EncryptionKey::new(18, vec![0; 32]), key_usage::TGS_REP_ENCPART_SESSKEY, &web());
    assert!(ex.step(&reply).is_err());
    assert!(matches!(ex.credential(), Err(Krb5Error::ReplyValidation("TGS exchange not complete"))));
}

#[test]
fn referral_is_followed_to_its_realm() {
    let (mut ex, req) = tgs_started(TgsOptions::default());
    let other = PrincipalName::new_srv_inst("krbtgt", "OTHER.COM");
    let reply = tgs_reply(&req, &session(), key_usage::TGS_REP_ENCPART_SESSKEY, &other);
    match ex.step(&reply).expect("followed") {
        TgsStepResult::SendToKdc { data, realm } => {
            assert_eq!(realm, "OTHER.COM");
            let next = TgsReq::decode(&data).expect("TGS-REQ");
            assert_eq!(next.0.req_body.realm.as_bytes(), b"OTHER.COM");
            assert_eq!(next.0.req_body.sname.expect("sname").encode(), web().encode());
        }
        other => panic!("unexpected {other:?}"),
    }
}

#[test]
fn another_service_without_canonicalization() {
    let options = TgsOptions { canonicalize: false, ..TgsOptions::default() };
    let (mut ex, req) = tgs_started(options);
    let reply = tgs_reply(&req, &session(), key_usage::TGS_REP_ENCPART_SESSKEY, &PrincipalName::new_srv_inst("HTTP", "x"));
    assert!(matches!(
        ex.step(&reply),
        Err(Krb5Error::ReplyValidation("unexpected service principal in TGS-REP"))
    ));
}

#[test]
fn required_fast_armors_the_first_request() {
    let mut config = AsExchangeConfig::new(PrincipalName::new_principal("user"), REALM);
    config.fast = FastMode::Required(tgt());
    let mut ex = AsExchange::new(config, "password");
    let req = as_request(ex.step(&[]).expect("request"));
    let padata = req.0.padata.as_ref().expect("padata");
    assert!(padata.iter().any(|p| p.padata_type == PaDataType::FX_FAST));
    // an unarmored reply is refused
    let reply = as_reply(&req, "password", now_secs());
    assert!(matches!(ex.step(&reply), Err(Krb5Error::FastRequired)));
}
