//! AP, SAFE, PRIV and CRED messages between two ends.
use krb5_rs::asn1::{Asn1, FlagBits, GeneralString};
use krb5_rs::keytab::{KeytabEntry, MemoryKeytab};
use krb5_rs::protocol::ap::util::{address_compare, address_search, chk_heimdal_seqnum, make_fulladdr};
use krb5_rs::protocol::ap::{decrypt_ticket, encrypt_ticket_part, ApError, ApReqOptions, AuthContext, AuthContextFlags, Entropy};
use krb5_rs::protocol::{Credential, TicketTimes};
use krb5_rs::time::{split_nanos, Duration, KerberosTime, Moment};
use krb5_rs::types::{ApReq, EncTicketPart, EncryptionKey, HostAddress, PrincipalName, TicketFlags, TransitedEncoding};
use krb5_rs::Krb5Error;

const REALM: &str = "EXAMPLE.COM";

fn service() -> PrincipalName {
    PrincipalName::new_srv_inst("HTTP", "web.example.com")
}

fn service_key() -> EncryptionKey {
    EncryptionKey::new(18, vec![0x11; 32])
}

fn session_key() -> EncryptionKey {
    EncryptionKey::new(17, vec![0x22; 16])
}

fn now_secs() -> i64 {
    split_nanos(Moment::now().total_nanos()).0.timestamp()
}

fn at(secs: i64) -> KerberosTime {
    KerberosTime::new(secs, 0).expect("time")
}

fn part(start: i64, end: i64, flags: u32) -> EncTicketPart {
    EncTicketPart {
        flags: FlagBits::new(flags),
        key: session_key(),
        crealm: GeneralString::from_bytes(REALM.as_bytes()).expect("realm"),
        cname: PrincipalName::new_principal("user"),
        transited: TransitedEncoding { tr_type: 1, contents: Vec::new() },
        authtime: at(start),
        starttime: Some(at(start)),
        endtime: at(end),
        renew_till: None,
        caddr: None,
        authorization_data: None,
    }
}

fn credential(start: i64, end: i64, flags: u32) -> Credential {
    let p = part(start, end, flags);
    let ticket = encrypt_ticket_part(&service_key(), Some(3), REALM, service(), &p).expect("ticket");
    Credential {
        client: PrincipalName::new_principal("user"),
        crealm: REALM.to_string(),
        server: service(),
        srealm: REALM.to_string(),
        session_key: session_key(),
        times: TicketTimes { authtime: at(start), starttime: Some(at(start)), endtime: at(end), renew_till: None },
        ticket,
        flags: FlagBits::new(flags),
        addresses: None,
        authdata: None,
    }
}

fn good_credential() -> Credential {
    let now = now_secs();
    credential(now - 60, now + 3600, TicketFlags::FORWARDABLE)
}

fn keys() -> MemoryKeytab {
    MemoryKeytab::from_entries(vec![KeytabEntry {
        principal: service(),
        realm: REALM.to_string(),
        timestamp: 1,
        kvno: 3,
        key: service_key(),
    }])
}

fn ap_error(r: Krb5Error) -> ApError {
    match r {
        Krb5Error::Ap(e) => e,
        other => panic!("not an AP error: {other:?}"),
    }
}

fn ends() -> (AuthContext, AuthContext) {
    let mut client = AuthContext::new();
    let mut server = AuthContext::new();
    let opts = ApReqOptions { mutual_required: true, use_subkey: true, ..ApReqOptions::default() };
    let req = client.mk_req(&opts, None, &good_credential()).expect("request");
    server.rd_req(&req, Some(&service()), &keys()).expect("accepted");
    let rep = server.mk_rep().expect("reply");
    client.rd_rep(&rep).expect("mutual");
    (client, server)
}

#[test]
fn ticket_reads_back() {
    let p = part(1_700_000_000, 1_700_000_100, TicketFlags::INITIAL);
    let t = encrypt_ticket_part(&service_key(), Some(1), REALM, service(), &p).expect("ticket");
    assert_eq!(decrypt_ticket(&service_key(), &t).expect("part").encode(), p.encode());
    assert!(decrypt_ticket(&EncryptionKey::new(18, vec![0; 32]), &t).is_err());
}

#[test]
fn request_and_reply() {
    let mut client = AuthContext::new();
    let mut server = AuthContext::new();
    let opts = ApReqOptions { mutual_required: true, use_subkey: true, ..ApReqOptions::default() };
    let req = client.mk_req(&opts, Some(b"bound"), &good_credential()).expect("request");
    let res = server.rd_req(&req, Some(&service()), &keys()).expect("accepted");
    assert_eq!(res.ticket.cname.name_string[0].as_bytes(), b"user");
    assert_eq!(res.ap_options.bits, 0x2000_0000);
    assert!(res.authenticator.subkey.is_some());
    assert!(res.authenticator.cksum.is_some());
    let rep = server.mk_rep().expect("reply");
    let part = client.rd_rep(&rep).expect("mutual");
    assert_eq!(part.ctime.timestamp(), res.authenticator.ctime.timestamp());
    // a reply to another request does not fit
    let mut other = AuthContext::new();
    other.mk_req(&opts, None, &good_credential()).expect("request");
    assert!(other.rd_rep(&rep).is_err());
}

#[test]
fn request_errors() {
    let now = now_secs();
    let opts = ApReqOptions::default();
    let req = |c: &Credential| AuthContext::new().mk_req(&opts, None, c).expect("request");
    // a request with a ticket of other times and flags than the client knows
    let with_ticket = |start: i64, end: i64, flags: u32| {
        let mut c = good_credential();
        c.ticket = credential(start, end, flags).ticket;
        req(&c)
    };
    let read = |m: &[u8]| AuthContext::new().rd_req(m, Some(&service()), &keys()).err().map(ap_error);

    assert_eq!(read(&req(&good_credential())), None);
    assert_eq!(read(&with_ticket(now - 7200, now - 3600, 0)), Some(ApError::TktExpired));
    assert_eq!(read(&with_ticket(now + 3600, now + 7200, 0)), Some(ApError::TktNyv));
    assert_eq!(read(&with_ticket(now - 60, now + 60, TicketFlags::INVALID)), Some(ApError::TktInvalid));

    // an expired ticket is not even sent
    let e = AuthContext::new().mk_req(&opts, None, &credential(now - 7200, now - 3600, 0)).expect_err("expired");
    assert!(matches!(ap_error(e), ApError::TktExpired));

    let good = req(&good_credential());
    let other = PrincipalName::new_srv_inst("HTTP", "else.example.com");
    let e = AuthContext::new().rd_req(&good, Some(&other), &keys()).expect_err("another service");
    assert!(matches!(ap_error(e), ApError::NoKey));
    let e = AuthContext::new().rd_req(&good, None, &MemoryKeytab::new()).expect_err("no key");
    assert!(matches!(ap_error(e), ApError::NoKey));

    let mut bad = ApReq::decode(&good).expect("AP-REQ");
    bad.msg_type = 15;
    assert_eq!(read(&bad.encode()), Some(ApError::MsgType));
    let mut bad = ApReq::decode(&good).expect("AP-REQ");
    bad.pvno = 4;
    assert_eq!(read(&bad.encode()), Some(ApError::BadVersion));
    let mut bad = ApReq::decode(&good).expect("AP-REQ");
    bad.authenticator.cipher[20] ^= 1;
    assert_eq!(read(&bad.encode()), Some(ApError::BadIntegrity));
}

#[test]
fn safe_messages() {
    let (mut client, mut server) = ends();
    for c in [&mut client, &mut server] {
        c.set_flags(AuthContextFlags::DO_TIME | AuthContextFlags::RET_TIME);
        c.set_addrs(Some(host(1)), Some(host(1)));
    }
    let (msg, data) = client.mk_safe(b"hello").expect("KRB-SAFE");
    assert!(data.timestamp.is_some());
    let (text, got) = server.rd_safe(&msg).expect("read");
    assert_eq!(text, b"hello");
    assert_eq!(got.usec, data.usec);
    // the same message again is a replay
    assert!(matches!(ap_error(server.rd_safe(&msg).expect_err("replay")), ApError::Repeat));
    let mut bad = msg.clone();
    let n = bad.len();
    bad[n - 1] ^= 1;
    assert!(server.rd_safe(&bad).is_err());
}

#[test]
fn priv_messages_in_sequence() {
    let (mut client, mut server) = ends();
    client.set_flags(AuthContextFlags::DO_SEQUENCE);
    server.set_flags(AuthContextFlags::DO_SEQUENCE);
    for c in [&mut client, &mut server] {
        c.set_addrs(Some(host(1)), Some(host(1)));
    }
    client.set_local_seq_number(7);
    server.set_remote_seq_number(7);
    let (first, _) = client.mk_priv(b"one").expect("KRB-PRIV");
    let (second, _) = client.mk_priv(b"two").expect("KRB-PRIV");
    assert_eq!(server.rd_priv(&first).expect("read").0, b"one");
    assert_eq!(server.rd_priv(&second).expect("read").0, b"two");
    assert!(matches!(ap_error(server.rd_priv(&first).expect_err("again")), ApError::BadOrder));
}

#[test]
fn forwarded_credentials() {
    let (mut client, mut server) = ends();
    for c in [&mut client, &mut server] {
        c.set_flags(AuthContextFlags::DO_TIME);
        c.set_addrs(Some(host(1)), Some(host(1)));
    }
    let cred = good_credential();
    let (msg, _) = client.mk_cred(&[cred]).expect("KRB-CRED");
    let (got, _) = server.rd_cred(&msg).expect("read");
    assert_eq!(got.len(), 1);
    assert_eq!(got[0].session_key.keyvalue, session_key().keyvalue);
    assert_eq!(got[0].srealm, REALM);
    assert_eq!(got[0].flags.bits, TicketFlags::FORWARDABLE);
}

fn host(n: u8) -> HostAddress {
    HostAddress { addr_type: 2, address: vec![10, 0, 0, n] }
}

#[test]
fn addresses() {
    assert!(address_compare(&host(1), &host(1)));
    assert!(!address_compare(&host(1), &host(2)));
    assert!(address_search(&host(1), &None));
    assert!(address_search(&host(1), &Some(vec![host(2), host(1)])));
    assert!(!address_search(&host(1), &Some(vec![host(2)])));
    let port = HostAddress { addr_type: 0x0100, address: vec![0, 88] };
    let full = make_fulladdr(&host(1), &port);
    assert_eq!(full.addr_type, 0x0100);
    assert_eq!(full.address, vec![0, 0, 2, 0, 4, 0, 0, 0, 10, 0, 0, 1, 0, 0, 0, 1, 2, 0, 0, 0, 0, 88]);
}

#[test]
fn heimdal_sequence_numbers() {
    assert!(chk_heimdal_seqnum(0x8a, 0xffff_ff8a));
    assert!(!chk_heimdal_seqnum(0x7a, 0xffff_ff7a));
    assert!(chk_heimdal_seqnum(0x8abc, 0xffff_8abc));
}

#[test]
fn clock_skew_is_configurable() {
    let mut c = AuthContext::new();
    c.set_clockskew(Duration::from_secs(10));
    c.set_time_offset(3_600_000_000);
    let opts = ApReqOptions::default();
    let now = now_secs();
    let cred = credential(now - 60, now + 7200, 0);
    let req = c.mk_req(&opts, None, &cred).expect("request");
    let e = AuthContext::new().rd_req(&req, None, &keys()).expect_err("an hour ahead");
    assert!(matches!(ap_error(e), ApError::Skew));
}

#[test]
fn same_draws_give_the_same_request() {
    let cred = good_credential();
    let now = Moment::now();
    let opts = ApReqOptions { use_subkey: true, ..ApReqOptions::default() };
    let make = |seq: u32| {
        let env = Entropy::from_parts(seq, vec![1; 32], vec![2; 16]).expect("draws");
        AuthContext::new().mk_req_with(&opts, None, &cred, now, &env).expect("request")
    };
    assert_eq!(make(5), make(5));
    assert!(Entropy::from_parts(5, vec![1; 3], vec![2; 16]).is_none());
}
