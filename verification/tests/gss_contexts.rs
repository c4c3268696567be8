//! GSS contexts: krb5 and SPNEGO, from first token to messages.
use krb5_rs::asn1::{FlagBits, GeneralString};
use krb5_rs::gssapi::krb5::{AcceptStep, ChannelBindings, InitStep, Krb5Acceptor, Krb5Context, Krb5Initiator, MECH_KRB5, TOK_AP_REQ};
use krb5_rs::gssapi::seqstate::{SeqState, SeqStatus};
use krb5_rs::gssapi::spnego::{decode_neg_token_init, decode_neg_token_resp, encode_neg_token_resp, is_kerb_mech, NegState, SpnegoAcceptor, SpnegoInitiator, MECH_KRB5_WRONG, MECH_NTLMSSP};
use krb5_rs::gssapi::token::{make_token_header, parse_token_header};
use krb5_rs::gssapi::{GssError, GssFlags};
use krb5_rs::keytab::{KeytabEntry, MemoryKeytab};
use krb5_rs::protocol::ap::encrypt_ticket_part;
use krb5_rs::protocol::{Credential, TicketTimes};
use krb5_rs::time::{split_nanos, KerberosTime, Moment};
use krb5_rs::types::{EncTicketPart, EncryptionKey, PrincipalName, TicketFlags, TransitedEncoding};
use krb5_rs::Krb5Error;

const REALM: &str = "EXAMPLE.COM";

fn service() -> PrincipalName {
    PrincipalName::new_srv_inst("HTTP", "web.example.com")
}

fn service_key() -> EncryptionKey {
    EncryptionKey::new(18, vec![0x11; 32])
}

fn at(secs: i64) -> KerberosTime {
    KerberosTime::new(secs, 0).expect("time")
}

fn credential() -> Credential {
    let now = split_nanos(Moment::now().total_nanos()).0.timestamp();
    let session = EncryptionKey::new(18, vec![0x33; 32]);
    let part = EncTicketPart {
        flags: FlagBits::new(TicketFlags::FORWARDABLE),
        key: EncryptionKey::new(18, vec![0x33; 32]),
        crealm: GeneralString::from_bytes(REALM.as_bytes()).expect("realm"),
        cname: PrincipalName::new_principal("user"),
        transited: TransitedEncoding { tr_type: 1, contents: Vec::new() },
        authtime: at(now),
        starttime: None,
        endtime: at(now + 3600),
        renew_till: None,
        caddr: None,
        authorization_data: None,
    };
    Credential {
        client: PrincipalName::new_principal("user"),
        crealm: REALM.to_string(),
        server: service(),
        srealm: REALM.to_string(),
        session_key: session,
        times: TicketTimes { authtime: at(now), starttime: None, endtime: at(now + 3600), renew_till: None },
        ticket: encrypt_ticket_part(&service_key(), Some(1), REALM, service(), &part).expect("ticket"),
        flags: FlagBits::new(TicketFlags::FORWARDABLE),
        addresses: None,
        authdata: None,
    }
}

fn keys() -> MemoryKeytab {
    MemoryKeytab::from_entries(vec![KeytabEntry {
        principal: service(),
        realm: REALM.to_string(),
        timestamp: 1,
        kvno: 1,
        key: service_key(),
    }])
}

fn bindings(data: &[u8]) -> ChannelBindings {
    ChannelBindings {
        initiator_addrtype: 0,
        initiator_address: Vec::new(),
        acceptor_addrtype: 0,
        acceptor_address: Vec::new(),
        application_data: data.to_vec(),
    }
}

fn gss_error(e: Krb5Error) -> GssError {
    match e {
        Krb5Error::Gss(g) => g,
        other => panic!("not a GSS error: {other:?}"),
    }
}

const FLAGS: u32 = GssFlags::MUTUAL | GssFlags::REPLAY | GssFlags::SEQUENCE | GssFlags::CONF | GssFlags::INTEG;

fn established() -> (Krb5Context, Krb5Context) {
    let mut init = Krb5Initiator::new(credential(), None, FLAGS, None).expect("initiator");
    let mut acc = Krb5Acceptor::new(keys(), Some(service()), None);
    let first = match init.step(None).expect("first token") {
        InitStep::Continue(t) => t,
        other => panic!("unexpected {other:?}"),
    };
    let reply = match acc.step(&first).expect("accepted") {
        AcceptStep::Complete { token: Some(t) } => t,
        other => panic!("unexpected {other:?}"),
    };
    assert!(matches!(init.step(Some(&reply)), Ok(InitStep::Complete(None))));
    assert!(matches!(init.step(Some(&reply)).map_err(gss_error), Err(GssError::ContextEstablished)));
    (init.context().expect("context"), acc.context().expect("context"))
}

#[test]
fn flags_of_established_contexts() {
    let both = GssFlags::TRANS | GssFlags::PROT_READY;
    let (i, a) = established();
    assert_eq!((i.flags() & both, a.flags() & both), (both, both));
    let mut init = Krb5Initiator::new(credential(), None, FLAGS & !GssFlags::MUTUAL, None).expect("initiator");
    let mut acc = Krb5Acceptor::new(keys(), Some(service()), None);
    let token = match init.step(None).expect("token") {
        InitStep::Complete(Some(t)) => t,
        other => panic!("unexpected {other:?}"),
    };
    assert!(matches!(acc.step(&token), Ok(AcceptStep::Complete { token: None })));
    assert_eq!(init.context().expect("context").flags() & both, both);
    assert_eq!(acc.context().expect("context").flags() & both, both);
}

#[test]
fn token_header() {
    let tok = [make_token_header(&MECH_KRB5, 3, Some(TOK_AP_REQ)), vec![9, 8, 7]].concat();
    assert_eq!(tok[0], 0x60);
    let (mech, body) = parse_token_header(&tok).expect("header");
    assert_eq!(mech, &MECH_KRB5[..]);
    assert_eq!(body, &[1, 0, 9, 8, 7]);
    assert!(parse_token_header(&tok[..tok.len() - 1]).is_none());
    assert!(parse_token_header(&[]).is_none());
}

#[test]
fn messages_both_ways() {
    let (mut i, mut a) = established();
    assert!(i.is_initiator() && !a.is_initiator());
    assert_eq!(a.initiator_realm(), REALM);
    assert!(i.lifetime().as_secs() > 3000);
    for conf in [true, false] {
        for n in [0usize, 1, 16, 100] {
            let msg: Vec<u8> = (0..n).map(|x| x as u8).collect();
            let tok = i.wrap(conf, &msg).expect("wrap");
            let got = a.unwrap(&tok).expect("unwrap");
            assert_eq!(got.data, msg);
            assert_eq!(got.conf, conf);
            assert_eq!(got.seq, SeqStatus::Complete);
            let tok = a.wrap(conf, &msg).expect("wrap");
            assert_eq!(i.unwrap(&tok).expect("unwrap").data, msg);
        }
    }
    let mic = i.get_mic(b"signed").expect("mic");
    assert_eq!(a.verify_mic(b"signed", &mic).expect("verified"), SeqStatus::Complete);
    assert_eq!(a.verify_mic(b"signed", &mic).expect("seen"), SeqStatus::Duplicate);
    let mic = i.get_mic(b"signed").expect("mic");
    assert!(matches!(a.verify_mic(b"other", &mic).map_err(gss_error), Err(GssError::BadSig)));
    // an initiator does not take its own tokens
    let tok = i.wrap(true, b"x").expect("wrap");
    assert!(i.unwrap(&tok).is_err());
    assert!(a.unwrap(&tok[..10]).is_err());
}

#[test]
fn size_limit_holds() {
    let (mut i, _) = established();
    for conf in [true, false] {
        let max = i.wrap_size_limit(conf, 200);
        let tok = i.wrap(conf, &vec![0u8; max]).expect("wrap");
        assert!(tok.len() <= 200);
    }
}

#[test]
fn channel_bindings_must_match() {
    for (mine, theirs, ok) in [(Some(&b"a"[..]), Some(&b"a"[..]), true), (Some(&b"a"[..]), Some(&b"b"[..]), false)] {
        let mut init = Krb5Initiator::new(credential(), None, 0, mine.map(bindings)).expect("initiator");
        let tok = match init.step(None).expect("token") {
            InitStep::Complete(Some(t)) => t,
            other => panic!("unexpected {other:?}"),
        };
        let mut acc = Krb5Acceptor::new(keys(), None, theirs.map(bindings));
        let r = acc.step(&tok);
        if ok {
            assert!(matches!(r, Ok(AcceptStep::Complete { token: None })));
            assert_ne!(acc.context().expect("context").flags() & GssFlags::CHANNEL_BOUND, 0);
        } else {
            assert!(matches!(r.map_err(gss_error), Err(GssError::BadBindings)));
        }
    }
}

#[test]
fn defective_tokens() {
    let mut acc = Krb5Acceptor::new(keys(), None, None);
    assert!(matches!(acc.step(b"nonsense").map_err(gss_error), Err(GssError::DefectiveToken)));
    assert!(matches!(acc.context().map_err(gss_error), Err(GssError::NoContext)));
}

#[test]
fn window_of_sequence_numbers() {
    let mut s = SeqState::new(10, true, true, true);
    assert_eq!(s.check(10), SeqStatus::Complete);
    assert_eq!(s.check(12), SeqStatus::Gap);
    assert_eq!(s.check(11), SeqStatus::Unseq);
    assert_eq!(s.check(11), SeqStatus::Duplicate);
    assert_eq!(s.check(200), SeqStatus::Gap);
    assert_eq!(s.check(12), SeqStatus::Unseq);
    let mut replay = SeqState::new(0, true, false, true);
    assert_eq!(replay.check(100), SeqStatus::Complete);
    assert_eq!(replay.check(99), SeqStatus::Complete);
    assert_eq!(replay.check(99), SeqStatus::Duplicate);
    assert_eq!(replay.check(3), SeqStatus::Old);
    let mut free = SeqState::new(0, false, false, true);
    assert_eq!(free.check(99), SeqStatus::Complete);
}

#[test]
fn spnego_negotiates_kerberos() {
    let init = Krb5Initiator::new(credential(), None, FLAGS, None).expect("initiator");
    let mut i = SpnegoInitiator::new(init, vec![MECH_KRB5.to_vec()]);
    let acc = Krb5Acceptor::new(keys(), Some(service()), None);
    let mut a = SpnegoAcceptor::new(acc, vec![MECH_KRB5.to_vec()]);
    let mut token = match i.step(None).expect("first token") {
        InitStep::Continue(t) => t,
        other => panic!("unexpected {other:?}"),
    };
    let (neg, _) = decode_neg_token_init(&token).expect("NegTokenInit");
    assert_eq!(neg.mech_types, vec![MECH_KRB5.to_vec()]);
    assert!(neg.mech_token.is_some());
    let mut rounds = 0;
    loop {
        rounds += 1;
        assert!(rounds < 6);
        token = match a.step(&token).expect("accepted") {
            AcceptStep::Complete { token: Some(t) } | AcceptStep::ContinueNeeded(t) => t,
            AcceptStep::Complete { token: None } => break,
        };
        match i.step(Some(&token)).expect("answered") {
            InitStep::Complete(None) => break,
            InitStep::Continue(t) | InitStep::Complete(Some(t)) => token = t,
        }
    }
    assert_eq!(i.negotiated_mech(), Some(&MECH_KRB5[..]));
    assert_eq!(a.negotiated_mech(), Some(&MECH_KRB5[..]));
    let mut ic = i.context().expect("context");
    let mut ac = a.context().expect("context");
    let tok = ic.wrap(true, b"through").expect("wrap");
    assert_eq!(ac.unwrap(&tok).expect("unwrap").data, b"through");
}

#[test]
fn spnego_tokens() {
    assert!(is_kerb_mech(&MECH_KRB5) && is_kerb_mech(&MECH_KRB5_WRONG));
    assert!(!is_kerb_mech(&MECH_NTLMSSP));
    let tok = encode_neg_token_resp(NegState::AcceptIncomplete, Some(&MECH_KRB5), Some(b"tok"), Some(b"mic"));
    let resp = decode_neg_token_resp(&tok).expect("NegTokenResp");
    assert_eq!(resp.neg_state, Some(NegState::AcceptIncomplete));
    assert_eq!(resp.supported_mech.as_deref(), Some(&MECH_KRB5[..]));
    assert_eq!(resp.response_token.as_deref(), Some(&b"tok"[..]));
    assert_eq!(resp.mech_list_mic.as_deref(), Some(&b"mic"[..]));
    assert!(matches!(decode_neg_token_resp(&[1, 2, 3]), Err(GssError::DefectiveToken)));
    assert!(decode_neg_token_init(b"x").is_err());
}
