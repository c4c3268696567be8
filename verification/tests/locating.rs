//! Locating servers: host strings, URIs, DNS records and realms of hosts.
use krb5_rs::locate::dns::{srv_entries, uri_entries};
use krb5_rs::locate::{
    default_realm, fallback_host_realm, host_realm, is_string_numeric, make_lookup_name, parse_host_string, parse_uri_fields,
    parse_uri_if_https, realm_domain, sort_srv, DnsResolver, LocateError, LocateService, Locator, NoDns, ServerEntry, SrvRecord,
    Transport, UriRecord,
};
use krb5_rs::profile::Profile;
use std::cell::RefCell;

/// A resolver with fixed answers that remembers what it was asked.
struct Table {
    srv: Vec<(&'static str, Vec<SrvRecord>)>,
    uri: Vec<(&'static str, Vec<UriRecord>)>,
    asked: RefCell<Vec<String>>,
}

impl Table {
    fn new(srv: Vec<(&'static str, Vec<SrvRecord>)>, uri: Vec<(&'static str, Vec<UriRecord>)>) -> Table {
        Table { srv, uri, asked: RefCell::new(Vec::new()) }
    }
}

impl DnsResolver for Table {
    fn srv(&self, name: &str) -> Result<Vec<SrvRecord>, ()> {
        self.asked.borrow_mut().push(format!("srv {name}"));
        self.srv.iter().find(|x| x.0 == name).map(|x| x.1.clone()).ok_or(())
    }

    fn uri(&self, name: &str) -> Result<Vec<UriRecord>, ()> {
        self.asked.borrow_mut().push(format!("uri {name}"));
        self.uri.iter().find(|x| x.0 == name).map(|x| x.1.clone()).ok_or(())
    }
}

fn srv(priority: u16, port: u16, target: &str) -> SrvRecord {
    SrvRecord { priority, weight: 0, port, target: target.to_string() }
}

fn uri(priority: u16, target: &str) -> UriRecord {
    UriRecord { priority, weight: 0, target: target.to_string() }
}

fn entry(hostname: &str, port: u16, transport: Transport, primary: Option<bool>) -> ServerEntry {
    ServerEntry { hostname: hostname.to_string(), port, transport, uri_path: None, primary }
}

#[test]
fn host_strings() {
    assert_eq!(parse_host_string("kdc", 88), Ok((Some("kdc".to_string()), 88)));
    assert_eq!(parse_host_string("kdc:750", 88), Ok((Some("kdc".to_string()), 750)));
    assert_eq!(parse_host_string("750", 88), Ok((None, 750)));
    assert_eq!(parse_host_string("[::1]", 88), Ok((Some("::1".to_string()), 88)));
    assert_eq!(parse_host_string("[::1]:90", 88), Ok((Some("::1".to_string()), 90)));
    let bad = |s: &str| match parse_host_string(s, 88) {
        Err(LocateError::Invalid(m)) => m,
        other => panic!("{other:?}"),
    };
    assert_eq!(bad(""), "empty or missing host");
    assert_eq!(bad(":88"), "empty or missing host");
    assert_eq!(bad("[::1"), "unclosed '['");
    assert_eq!(bad("[::1]x"), "garbage after ']'");
    assert_eq!(bad("kdc x"), "garbage after host");
    assert_eq!(bad("[]"), "empty host");
    assert_eq!(bad("kdc:"), "bad port \"\"");
    assert_eq!(bad("kdc:8x"), "bad port \"8x\"");
    assert_eq!(bad("kdc:65536"), "port out of range \"65536\"");
    assert_eq!(parse_host_string("kdc:65535", 88), Ok((Some("kdc".to_string()), 65535)));
}

#[test]
fn numbers() {
    assert!(is_string_numeric("0123"));
    assert!(!is_string_numeric(""));
    assert!(!is_string_numeric("12a"));
}

#[test]
fn uris() {
    assert_eq!(parse_uri_fields("krb5srv:m:tcp:host:88"), Some((Transport::Tcp, "host:88", true)));
    assert_eq!(parse_uri_fields("KRB5SRV::UDP:host"), Some((Transport::Udp, "host", false)));
    assert_eq!(
        parse_uri_fields("krb5srv:M:kkdcp:https://host/KdcProxy"),
        Some((Transport::Https, "https://host/KdcProxy", true))
    );
    for bad in ["", "krb5", "http:m:tcp:host", "krb5srv:m", "krb5srv:m:sctp:host", "krb5srv:m:tcp", "krb5srv::\u{e9}\u{e9}"] {
        assert_eq!(parse_uri_fields(bad), None, "{bad}");
    }
    assert_eq!(parse_uri_if_https("https://host/path"), (Some(Transport::Https), "host", Some("/path")));
    assert_eq!(parse_uri_if_https("https://host"), (Some(Transport::Https), "host", None));
    assert_eq!(parse_uri_if_https("host"), (None, "host", None));
}

#[test]
fn lookup_names() {
    assert_eq!(
        make_lookup_name("EXAMPLE.COM", "_kerberos", Some("_udp"), None).as_deref(),
        Some("_kerberos._udp.EXAMPLE.COM.")
    );
    assert_eq!(
        make_lookup_name("EXAMPLE.COM.", "_kerberos", None, Some("oslo")).as_deref(),
        Some("_kerberos.oslo._sites.EXAMPLE.COM.")
    );
    assert_eq!(make_lookup_name("A\0B", "_kerberos", None, None), None);
}

#[test]
fn sorting_keeps_the_order_of_equals() {
    let sorted = sort_srv(vec![srv(5, 1, "a"), srv(1, 2, "b"), srv(5, 3, "c"), srv(0, 4, "d"), srv(1, 5, "e")]);
    let names: Vec<&str> = sorted.iter().map(|r| r.target.as_str()).collect();
    assert_eq!(names, vec!["d", "b", "e", "a", "c"]);
}

#[test]
fn records_to_entries() {
    assert_eq!(srv_entries(&[srv(0, 88, ".")], Transport::Udp), Err(LocateError::NoService));
    assert_eq!(srv_entries(&[srv(0, 88, "")], Transport::Udp), Err(LocateError::NoService));
    assert_eq!(srv_entries(&[], Transport::Udp), Ok(vec![]));
    assert_eq!(
        srv_entries(&[srv(0, 88, "kdc.x.."), srv(0, 89, ".")], Transport::Tcp),
        Ok(vec![entry("kdc.x.", 88, Transport::Tcp, None), entry(".", 89, Transport::Tcp, None)])
    );
    let answers = [uri(0, "krb5srv:m:udp:a"), uri(0, "bad"), uri(0, "krb5srv::tcp:b:99"), uri(0, "krb5srv::kkdcp:c")];
    assert_eq!(
        uri_entries(&answers, Transport::TcpOrUdp, 88),
        vec![entry("a", 88, Transport::Udp, Some(true)), entry("b", 99, Transport::Tcp, Some(false))]
    );
    assert_eq!(uri_entries(&answers, Transport::Tcp, 88), vec![entry("b", 99, Transport::Tcp, Some(false))]);
}

const CONF: &str = "[libdefaults]
default_realm = EXAMPLE.COM
[realms]
EXAMPLE.COM = {
  kdc = kdc1:750
  kdc = /run/kdc.sock
  kdc = https://proxy/KdcProxy
  master_kdc = main
  default_domain = example.com
}
SITED.COM = {
  sitename = oslo
}
BAD.COM = {
  kdc = 88
}
[domain_realm]
.example.com = EXAMPLE.COM
special.example.com = SPECIAL.COM
org = ORG.REALM
";

#[test]
fn servers_of_the_profile() {
    let p = Profile::parse(CONF).expect("profile");
    let l: Locator<NoDns> = Locator::new(&p, None);
    let list = l.locate_kdc("EXAMPLE.COM", false, false).expect("servers");
    assert_eq!(list[0], entry("kdc1", 750, Transport::TcpOrUdp, None));
    assert_eq!(list[1], entry("/run/kdc.sock", 0, Transport::Tcp, None));
    assert_eq!(list[2].transport, Transport::Https);
    assert_eq!(list[2].port, 443);
    assert_eq!(list[2].uri_path.as_deref(), Some("/KdcProxy"));
    assert_eq!(l.locate_kdc("EXAMPLE.COM", true, true), Ok(vec![entry("main", 88, Transport::Tcp, None)]));
    assert_eq!(l.locate_kdc("", false, false), Err(LocateError::RealmCantResolve));
    assert_eq!(l.locate_kdc("NOWHERE", false, false), Err(LocateError::RealmUnknown));
    assert_eq!(l.locate_kdc("BAD.COM", false, false), Err(LocateError::Invalid("88".to_string())));
    assert_eq!(l.locate_server("EXAMPLE.COM", LocateService::Kpasswd, false), Err(LocateError::RealmUnknown));
}

#[test]
fn profile_comes_before_dns() {
    let p = Profile::parse(CONF).expect("profile");
    let dns = Table::new(vec![("_kerberos._udp.EXAMPLE.COM.", vec![srv(0, 1, "dns")])], vec![]);
    let l = Locator::new(&p, Some(&dns));
    assert_eq!(l.locate_kdc("EXAMPLE.COM", false, false).expect("servers").len(), 3);
    assert!(dns.asked.borrow().is_empty());
}

#[test]
fn uri_records_come_before_srv_records() {
    let p = Profile::parse("").expect("profile");
    let dns = Table::new(
        vec![
            ("_kerberos._udp.X.", vec![srv(2, 88, "b"), srv(1, 88, "a")]),
            ("_kerberos._tcp.X.", vec![srv(1, 88, "a")]),
        ],
        vec![("_kerberos.U.", vec![uri(1, "krb5srv::udp:u")])],
    );
    let l = Locator::new(&p, Some(&dns));
    assert_eq!(l.locate_kdc("U", false, false), Ok(vec![entry("u", 88, Transport::Udp, Some(false))]));
    assert_eq!(*dns.asked.borrow(), vec!["uri _kerberos.U."]);
    dns.asked.borrow_mut().clear();
    assert_eq!(
        l.locate_kdc("X", false, false),
        Ok(vec![
            entry("a.", 88, Transport::Udp, None),
            entry("b.", 88, Transport::Udp, None),
            entry("a.", 88, Transport::Tcp, None)
        ])
    );
    assert_eq!(
        *dns.asked.borrow(),
        vec!["uri _kerberos.X.", "srv _kerberos._udp.X.", "srv _kerberos._tcp.X."]
    );
    assert_eq!(l.locate_kdc("X", false, true), Ok(vec![entry("a.", 88, Transport::Tcp, None)]));
}

#[test]
fn site_is_asked_first_and_retried_on_failure_only() {
    let p = Profile::parse(CONF).expect("profile");
    let dns = Table::new(
        vec![("_kerberos._udp.oslo._sites.SITED.COM.", vec![]), ("_kerberos._tcp.SITED.COM.", vec![srv(0, 88, "k")])],
        vec![],
    );
    let l = Locator::new(&p, Some(&dns));
    assert_eq!(l.locate_kdc("SITED.COM", false, false), Ok(vec![entry("k.", 88, Transport::Tcp, None)]));
    assert_eq!(
        *dns.asked.borrow(),
        vec![
            "uri _kerberos.oslo._sites.SITED.COM.",
            "uri _kerberos.SITED.COM.",
            "srv _kerberos._udp.oslo._sites.SITED.COM.",
            "srv _kerberos._tcp.oslo._sites.SITED.COM.",
            "srv _kerberos._tcp.SITED.COM."
        ]
    );
}

#[test]
fn dns_can_be_turned_off() {
    let dns = Table::new(vec![("_kerberos._udp.X.", vec![srv(0, 88, "k")])], vec![]);
    let off = Profile::parse("[libdefaults]\ndns_fallback = no\n").expect("profile");
    assert_eq!(Locator::new(&off, Some(&dns)).locate_kdc("X", false, false), Err(LocateError::RealmUnknown));
    assert!(dns.asked.borrow().is_empty());
    let no_uri = Profile::parse("[libdefaults]\ndns_uri_lookup = off\n").expect("profile");
    assert!(Locator::new(&no_uri, Some(&dns)).locate_kdc("X", false, false).is_ok());
    assert!(!dns.asked.borrow().iter().any(|q| q.starts_with("uri")));
}

#[test]
fn no_service() {
    let p = Profile::parse("").expect("profile");
    let dns = Table::new(vec![("_kerberos._udp.X.", vec![srv(0, 88, ".")])], vec![]);
    assert_eq!(Locator::new(&p, Some(&dns)).locate_kdc("X", false, false), Err(LocateError::NoService));
    assert!(!dns.asked.borrow().iter().any(|q| q.contains("_tcp")));
}

#[test]
fn realms_of_hosts() {
    let p = Profile::parse(CONF).expect("profile");
    assert_eq!(host_realm(&p, "www.example.com"), vec!["EXAMPLE.COM"]);
    assert_eq!(host_realm(&p, "WWW.EXAMPLE.COM."), vec!["EXAMPLE.COM"]);
    assert_eq!(host_realm(&p, "special.example.com"), vec!["SPECIAL.COM"]);
    assert_eq!(host_realm(&p, "a.b.org"), vec!["ORG.REALM"]);
    assert_eq!(host_realm(&p, "elsewhere.net"), vec![""]);
    assert_eq!(host_realm(&p, "10.0.0.1"), vec![""]);
    assert_eq!(host_realm(&p, "::1"), vec![""]);
    assert_eq!(host_realm(&p, ""), vec![""]);
    assert_eq!(host_realm(&p, "odd.."), vec![""]);
    assert_eq!(default_realm(&p).as_deref(), Some("EXAMPLE.COM"));
    assert_eq!(realm_domain(&p, "EXAMPLE.COM").as_deref(), Some("example.com"));
}

#[test]
fn fallback_realms() {
    let p = Profile::parse(CONF).expect("profile");
    assert_eq!(fallback_host_realm(&p, "www.sub.example.com"), vec!["SUB.EXAMPLE.COM"]);
    assert_eq!(fallback_host_realm(&p, "localhost"), vec!["EXAMPLE.COM"]);
    assert_eq!(fallback_host_realm(&p, "10.0.0.1"), vec!["EXAMPLE.COM"]);
    let empty = Profile::parse("").expect("profile");
    assert_eq!(fallback_host_realm(&empty, "localhost"), Vec::<String>::new());
    let tries = Profile::parse(&format!("{CONF}[libdefaults]\nrealm_try_domains = 2\n")).expect("profile");
    assert_eq!(fallback_host_realm(&tries, "www.sub.example.com"), vec!["EXAMPLE.COM"]);
    let few = Profile::parse(&format!("{CONF}[libdefaults]\nrealm_try_domains = 1\n")).expect("profile");
    assert_eq!(fallback_host_realm(&few, "www.sub.example.com"), vec!["SUB.EXAMPLE.COM"]);
}
