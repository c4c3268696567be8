//! Credential caches and keytabs.
use krb5_rs::asn1::{Asn1, FlagBits, GeneralString};
use krb5_rs::ccache::marshal::{marshal_cred, marshal_princ, unmarshal_cred, unmarshal_princ};
use krb5_rs::ccache::{creds_match_request, is_config_principal, retrieve_in, unparse_name, CcCredential, CcError, Ccache, FileCcache, MatchCred, MatchFlags, MemoryCcache};
use krb5_rs::keytab::{FileKeytab, Keytab, KeytabEntry, KtError, MemoryKeytab};
use krb5_rs::order::ByteOrder;
use krb5_rs::protocol::{Credential, TicketTimes};
use krb5_rs::time::KerberosTime;
use krb5_rs::types::{AuthorizationDataElement, EncryptedData, EncryptionKey, HostAddress, PrincipalName, Ticket, TicketFlags};

const REALM: &str = "EXAMPLE.COM";

fn user() -> PrincipalName {
    PrincipalName::new_principal("user")
}

fn cred(service: &str, etype: i32, endtime: u32) -> CcCredential {
    CcCredential {
        client: user(),
        crealm: REALM.to_string(),
        server: PrincipalName::new_srv_inst(service, "host"),
        srealm: REALM.to_string(),
        keyblock: EncryptionKey::new(etype, vec![1, 2, 3]),
        authtime: 100,
        starttime: 0,
        endtime,
        renew_till: 0,
        is_skey: false,
        ticket_flags: TicketFlags::FORWARDABLE,
        addresses: vec![HostAddress { addr_type: 2, address: vec![10, 0, 0, 1] }],
        authdata: vec![AuthorizationDataElement { ad_type: 1, ad_data: vec![9] }],
        ticket: vec![0x61, 0x01, 0x02],
        second_ticket: Vec::new(),
    }
}

fn show(c: &CcCredential) -> String {
    format!("{c:?}")
}

/// What the first file version keeps of a credential: no name types.
fn untyped(mut c: CcCredential) -> CcCredential {
    c.client.name_type = 0;
    c.server.name_type = 0;
    c
}

fn wanted(service: &str) -> MatchCred {
    MatchCred {
        server: Some((PrincipalName::new_srv_inst(service, "host"), REALM.to_string())),
        ..MatchCred::default()
    }
}

fn exercise<C: Ccache>(cache: &mut C, typed: bool) {
    let kept = |c: CcCredential| if typed { show(&c) } else { show(&untyped(c)) };
    cache.initialize(&user(), REALM).expect("initialized");
    let (p, realm) = cache.principal().expect("principal");
    assert_eq!(p.name_string[0].as_bytes(), b"user");
    assert_eq!(p.name_type, if typed { 1 } else { 0 });
    assert_eq!(realm, REALM);
    assert_eq!(cache.creds().expect("creds").len(), 0);
    cache.store(&cred("a", 18, 500)).expect("stored");
    cache.store(&cred("b", 17, 600)).expect("stored");
    let got = cache.creds().expect("creds");
    assert_eq!(got.iter().map(show).collect::<Vec<_>>(), vec![kept(cred("a", 18, 500)), kept(cred("b", 17, 600))]);
    assert_eq!(show(&cache.retrieve(0, &wanted("b"), None).expect("found")), kept(cred("b", 17, 600)));
    assert!(matches!(cache.retrieve(0, &wanted("c"), None), Err(CcError::NotFound)));
    cache.remove_cred(0, &wanted("a")).expect("removed");
    assert_eq!(cache.creds().expect("creds").len(), 1);
    assert!(matches!(cache.remove_cred(0, &wanted("a")), Err(CcError::NotFound)));
    assert_eq!(cache.get_config(None, "fast_avail").expect("config"), None);
    cache.set_config(None, "fast_avail", Some(b"yes")).expect("set");
    assert_eq!(cache.get_config(None, "fast_avail").expect("config").as_deref(), Some(&b"yes"[..]));
    cache.set_config(None, "fast_avail", Some(b"no")).expect("replaced");
    assert_eq!(cache.get_config(None, "fast_avail").expect("config").as_deref(), Some(&b"no"[..]));
    let tgs = PrincipalName::new_srv_inst("krbtgt", REALM);
    assert_eq!(cache.get_config(Some((&tgs, REALM)), "fast_avail").expect("config"), None);
    cache.set_config(None, "fast_avail", None).expect("unset");
    assert_eq!(cache.get_config(None, "fast_avail").expect("config"), None);
    cache.initialize(&user(), REALM).expect("reset");
    assert_eq!(cache.creds().expect("creds").len(), 0);
}

#[test]
fn memory_cache() {
    exercise(&mut MemoryCcache::new(), true);
}

#[test]
fn file_cache_of_every_version() {
    for version in 1..=4 {
        exercise(&mut FileCcache::new(None).with_version(version), version != 1);
    }
    exercise(&mut FileCcache::new(None).with_version(1).with_order(ByteOrder::Little), false);
    exercise(&mut FileCcache::new(None).with_version(2).with_order(ByteOrder::Big), true);
}

#[test]
fn file_header() {
    let mut c = FileCcache::new(None);
    c.set_time_offset(5, 6);
    c.initialize(&user(), REALM).expect("initialized");
    let data = c.contents().expect("contents").to_vec();
    assert_eq!(&data[..16], &[5, 4, 0, 12, 0, 1, 0, 8, 0, 0, 0, 5, 0, 0, 0, 6]);
    let mut again = FileCcache::new(Some(data.clone()));
    assert_eq!(again.time_offset(), None);
    again.principal().expect("principal");
    assert_eq!(again.time_offset(), Some((5, 6)));
    assert!(matches!(FileCcache::new(Some(vec![5])).principal(), Err(CcError::Format)));
    assert!(matches!(FileCcache::new(Some(vec![5, 9])).principal(), Err(CcError::BadVno)));
    assert!(matches!(FileCcache::new(Some(vec![4, 4, 0, 0])).principal(), Err(CcError::BadVno)));
    assert!(matches!(FileCcache::new(Some(data[..20].to_vec())).principal(), Err(CcError::Format)));
    assert!(FileCcache::new(None).principal().is_err());
}

#[test]
fn marshalled_records() {
    for version in 1..=4 {
        let c = if version == 1 { untyped(cred("a", 18, 500)) } else { cred("a", 18, 500) };
        let bytes = marshal_cred(&c, version);
        assert_eq!(show(&unmarshal_cred(&bytes, version).expect("cred")), show(&c));
        assert!(unmarshal_cred(&bytes[..bytes.len() - 1], version).is_err());
        let p = marshal_princ(&user(), REALM, version);
        let (name, realm) = unmarshal_princ(&p, version).expect("principal");
        assert_eq!(realm, REALM);
        assert_eq!(name.name_string[0].as_bytes(), b"user");
    }
    assert_eq!(
        marshal_princ(&user(), "R", 4),
        vec![0, 0, 0, 1, 0, 0, 0, 1, 0, 0, 0, 1, b'R', 0, 0, 0, 4, b'u', b's', b'e', b'r']
    );
}

#[test]
fn matching_rules() {
    let all = [cred("a", 18, 500), cred("a", 17, 900)];
    let mut m = wanted("a");
    m.endtime = 600;
    assert_eq!(retrieve_in(&all, MatchFlags::TIMES, &m, None).expect("no later").endtime, 500);
    assert!(creds_match_request(MatchFlags::TIMES, &m, &cred("a", 18, 600)));
    assert!(!creds_match_request(MatchFlags::TIMES, &m, &cred("a", 18, 601)));
    m.endtime = 499;
    assert!(matches!(retrieve_in(&all, MatchFlags::TIMES, &m, None), Err(CcError::NotFound)));
    assert_eq!(retrieve_in(&all, 0, &m, None).expect("any time").endtime, 500);
    m.endtime = 0;
    m.renew_till = 50;
    let mut renewable = cred("a", 18, 500);
    renewable.renew_till = 50;
    assert!(creds_match_request(MatchFlags::TIMES, &m, &renewable));
    renewable.renew_till = 51;
    assert!(!creds_match_request(MatchFlags::TIMES, &m, &renewable));
    m.etype = 17;
    assert_eq!(retrieve_in(&all, MatchFlags::KTYPE, &m, None).expect("etype").keyblock.keytype, 17);
    assert_eq!(
        retrieve_in(&all, MatchFlags::SUPPORTED_KTYPES, &wanted("a"), Some(&[17, 18])).expect("preferred").keyblock.keytype,
        17
    );
    assert!(matches!(
        retrieve_in(&all, MatchFlags::SUPPORTED_KTYPES, &wanted("a"), Some(&[20])),
        Err(CcError::NotKtype)
    ));
    let mut m = wanted("a");
    m.ticket_flags = TicketFlags::RENEWABLE;
    assert!(matches!(retrieve_in(&all, MatchFlags::FLAGS, &m, None), Err(CcError::NotFound)));
    m.ticket_flags = TicketFlags::FORWARDABLE;
    assert!(retrieve_in(&all, MatchFlags::FLAGS_EXACT, &m, None).is_ok());
}

#[test]
fn names_of_configuration_entries() {
    assert_eq!(unparse_name(&PrincipalName::new_srv_inst("krbtgt", "A/B"), "R"), "krbtgt/A\\/B@R");
    let p = krb5_rs::ccache::config_principal(None, "key");
    assert!(is_config_principal(&p, "X-CACHECONF:"));
    assert!(!is_config_principal(&p, REALM));
}

#[test]
fn credentials_go_in_and_come_out() {
    let at = |s| KerberosTime::new(s, 0).expect("time");
    let c = Credential {
        client: user(),
        crealm: REALM.to_string(),
        server: PrincipalName::new_srv_inst("krbtgt", REALM),
        srealm: REALM.to_string(),
        session_key: EncryptionKey::new(18, vec![4; 32]),
        times: TicketTimes { authtime: at(10), starttime: Some(at(20)), endtime: at(30), renew_till: None },
        ticket: Ticket {
            tkt_vno: 5,
            realm: GeneralString::from_bytes(REALM.as_bytes()).expect("realm"),
            sname: PrincipalName::new_srv_inst("krbtgt", REALM),
            enc_part: EncryptedData { etype: 18, kvno: Some(2), cipher: vec![1, 2, 3] },
        },
        flags: FlagBits::new(TicketFlags::INITIAL),
        addresses: None,
        authdata: None,
    };
    let stored = CcCredential::from_credential(&c);
    assert_eq!((stored.starttime, stored.endtime, stored.renew_till), (20, 30, 0));
    assert_eq!(stored.ticket, c.ticket.encode());
    let back = stored.to_credential().expect("credential");
    assert_eq!(format!("{back:?}"), format!("{c:?}"));
    assert!(cred("a", 18, 1).to_credential().is_err());
}

fn entry(service: &str, kvno: u32, etype: i32, timestamp: u32) -> KeytabEntry {
    KeytabEntry {
        principal: PrincipalName::new_srv_inst(service, "host"),
        realm: REALM.to_string(),
        timestamp,
        kvno,
        key: EncryptionKey::new(etype, vec![kvno as u8; 16]),
    }
}

fn exercise_keytab<K: Keytab>(kt: &mut K) {
    for e in [entry("a", 1, 18, 10), entry("a", 300, 18, 20), entry("b", 2, 17, 30)] {
        kt.add_entry(&e).expect("added");
    }
    let a = PrincipalName::new_srv_inst("a", "host");
    assert_eq!(kt.entries().expect("entries").len(), 3);
    assert_eq!(kt.get_entry(&a, REALM, None, None).expect("latest").kvno, 300);
    assert_eq!(kt.get_entry(&a, REALM, Some(1), None).expect("kvno").kvno, 1);
    assert!(matches!(kt.get_entry(&a, REALM, Some(9), None), Err(KtError::KvnoNotFound)));
    assert!(matches!(kt.get_entry(&a, "OTHER", None, None), Err(KtError::NotFound)));
    assert!(matches!(kt.get_entry(&a, REALM, None, Some(17)), Err(KtError::NotFound)));
    kt.remove_entry(&entry("a", 300, 18, 0)).expect("removed");
    assert_eq!(kt.get_entry(&a, REALM, None, None).expect("latest").kvno, 1);
    assert!(matches!(kt.remove_entry(&entry("a", 300, 18, 0)), Err(KtError::NotFound)));
    kt.add_entry(&entry("c", 1, 18, 40)).expect("added");
    assert_eq!(kt.entries().expect("entries").len(), 3);
}

#[test]
fn keytabs() {
    exercise_keytab(&mut MemoryKeytab::new());
    exercise_keytab(&mut FileKeytab::new(None));
}

#[test]
fn keytab_file_layout() {
    let mut kt = FileKeytab::new(None);
    assert_eq!(kt.entries().expect("no file").len(), 0);
    kt.add_entry(&entry("a", 300, 18, 20)).expect("added");
    let data = kt.contents().expect("contents").to_vec();
    assert_eq!(&data[..2], &[5, 2]);
    let size = i32::from_be_bytes([data[2], data[3], data[4], data[5]]);
    assert_eq!(size as usize + 6, data.len());
    assert_eq!(&data[6..8], &[0, 2]);
    assert_eq!(&data[data.len() - 4..], &300u32.to_be_bytes());
    // a removed entry leaves a hole that a new one takes
    kt.remove_entry(&entry("a", 300, 18, 20)).expect("removed");
    let hole = kt.contents().expect("contents").to_vec();
    assert_eq!(hole.len(), data.len());
    assert_eq!(i32::from_be_bytes([hole[2], hole[3], hole[4], hole[5]]), -size);
    kt.add_entry(&entry("b", 300, 18, 20)).expect("added");
    assert_eq!(kt.contents().expect("contents").len(), data.len());
    assert!(matches!(FileKeytab::new(Some(vec![5])).entries(), Err(KtError::Format)));
    assert!(matches!(FileKeytab::new(Some(vec![5, 3])).entries(), Err(KtError::Format)));
    assert!(matches!(FileKeytab::new(Some(vec![5, 1])).add_entry(&entry("a", 1, 18, 1)), Err(KtError::Format)));
}

#[test]
fn first_version_keytab_in_both_orders() {
    for order in [ByteOrder::Little, ByteOrder::Big] {
        let w16 = |x: u16| if order == ByteOrder::Little { x.to_le_bytes() } else { x.to_be_bytes() };
        let w32 = |x: u32| if order == ByteOrder::Little { x.to_le_bytes() } else { x.to_be_bytes() };
        let mut body = Vec::new();
        body.extend_from_slice(&w16(2));
        body.extend_from_slice(&w16(1));
        body.push(b'R');
        body.extend_from_slice(&w16(4));
        body.extend_from_slice(b"user");
        body.extend_from_slice(&w32(77));
        body.push(3);
        body.extend_from_slice(&w16(18));
        body.extend_from_slice(&w16(2));
        body.extend_from_slice(&[8, 9]);
        let mut data = vec![5, 1];
        data.extend_from_slice(&w32(body.len() as u32));
        data.extend_from_slice(&body);
        let got = FileKeytab::with_order(Some(data), order).entries().expect("entries");
        assert_eq!(got.len(), 1);
        assert_eq!((got[0].kvno, got[0].timestamp, got[0].key.keytype), (3, 77, 18));
        assert_eq!(got[0].realm, "R");
        assert_eq!(got[0].key.keyvalue, vec![8, 9]);
    }
}

#[test]
fn native_order_is_that_of_the_machine() {
    let mut body = Vec::new();
    for x in [2u16, 1] {
        body.extend_from_slice(&x.to_ne_bytes());
    }
    body.push(b'R');
    body.extend_from_slice(&1u16.to_ne_bytes());
    body.push(b'u');
    body.extend_from_slice(&1u32.to_ne_bytes());
    body.push(1);
    body.extend_from_slice(&18u16.to_ne_bytes());
    body.extend_from_slice(&1u16.to_ne_bytes());
    body.push(7);
    let mut data = vec![5, 1];
    data.extend_from_slice(&(body.len() as u32).to_ne_bytes());
    data.extend_from_slice(&body);
    let got = FileKeytab::new(Some(data)).entries().expect("entries");
    assert_eq!(got[0].key.keytype, 18);
}
