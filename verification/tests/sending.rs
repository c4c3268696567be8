//! Sending requests: strategies, passes, recorded KDCs and the primary rule.
use krb5_rs::asn1::{Asn1, GeneralString};
use krb5_rs::client::primary::{after_first, after_retry, gives_way, is_unreach, FallbackStep};
use krb5_rs::locate::{LocateError, NoDns, ServerEntry, Transport};
use krb5_rs::profile::Profile;
use krb5_rs::time::{Duration, KerberosTime};
use krb5_rs::transport::located::LocatedTransport;
use krb5_rs::transport::sendto::passes::{SendAction, SendEvent, Sending, SendtoKdc};
use krb5_rs::transport::sendto::{
    frame, plan_targets, reply_len, response_too_big, strategy_for, svc_unavailable, udp_pref_limit, SendtoConfig, SendtoError,
    SendtoTiming, Strategy, Target,
};
use krb5_rs::types::{KrbErrorMsg, PrincipalName};
use krb5_rs::Krb5Error;

fn entry(hostname: &str, transport: Transport) -> ServerEntry {
    ServerEntry { hostname: hostname.to_string(), port: 88, transport, uri_path: None, primary: None }
}

fn krb_error(code: i32) -> Vec<u8> {
    KrbErrorMsg {
        pvno: 5,
        msg_type: 30,
        ctime: None,
        cusec: None,
        stime: KerberosTime::new(1_700_000_000, 0).expect("time"),
        susec: 0,
        error_code: code,
        crealm: None,
        cname: None,
        realm: GeneralString::from_bytes(b"X").expect("realm"),
        sname: PrincipalName::new_srv_inst("krbtgt", "X"),
        e_text: None,
        e_data: None,
    }
    .encode()
}

#[test]
fn limits_and_strategies() {
    assert_eq!(udp_pref_limit(None), 1465);
    assert_eq!(udp_pref_limit(Some(-1)), 1465);
    assert_eq!(udp_pref_limit(Some(0)), 0);
    assert_eq!(udp_pref_limit(Some(32700)), 32700);
    assert_eq!(udp_pref_limit(Some(i64::MAX)), 32700);
    assert_eq!(strategy_for(10, true, 100), Strategy::NoUdp);
    assert_eq!(strategy_for(100, false, 100), Strategy::UdpFirst);
    assert_eq!(strategy_for(101, false, 100), Strategy::UdpLast);
    let d = SendtoConfig::default();
    assert_eq!(d.udp_preference_limit, 1465);
    assert_eq!(d.timing.max_pass, 3);
    assert_eq!(d.timing.initial_backoff, Duration::from_secs(4));
}

#[test]
fn targets_in_order() {
    let servers = [
        entry("a", Transport::TcpOrUdp),
        entry("b", Transport::Udp),
        entry("c", Transport::Tcp),
        entry("d", Transport::Https),
        entry("/run/kdc", Transport::TcpOrUdp),
    ];
    let show = |ts: &[Target]| -> Vec<(usize, Transport)> { ts.iter().map(|t| (t.server_index, t.transport)).collect() };
    let (now, later) = plan_targets(&servers, Strategy::UdpFirst);
    assert_eq!(show(&now), vec![(0, Transport::Udp), (1, Transport::Udp)]);
    assert_eq!(show(&later), vec![(0, Transport::Tcp), (2, Transport::Tcp), (4, Transport::Tcp)]);
    let (now, later) = plan_targets(&servers, Strategy::UdpLast);
    assert_eq!(show(&now), vec![(0, Transport::Tcp), (2, Transport::Tcp), (4, Transport::Tcp)]);
    assert_eq!(show(&later), vec![(0, Transport::Udp), (1, Transport::Udp)]);
    let (now, later) = plan_targets(&servers, Strategy::NoUdp);
    assert_eq!(show(&now), vec![(0, Transport::Tcp), (4, Transport::Tcp)]);
    assert_eq!(show(&later), vec![(2, Transport::Tcp)]);
}

#[test]
fn framing() {
    assert_eq!(frame(b"abc"), vec![0, 0, 0, 3, b'a', b'b', b'c']);
    assert_eq!(reply_len(&frame(b"abc")), Some(3));
    assert_eq!(reply_len(&[0, 0, 0, 0]), None);
    assert_eq!(reply_len(&1_048_576u32.to_be_bytes()), Some(1_048_576));
    assert_eq!(reply_len(&1_048_577u32.to_be_bytes()), None);
}

fn targets(ts: &[Transport]) -> Vec<Target> {
    ts.iter().enumerate().map(|(i, t)| Target { server_index: 10 + i, transport: *t }).collect()
}

fn wait(secs: u64) -> Option<Duration> {
    Some(Duration::from_secs(secs))
}

fn is_wait(a: &SendAction, limit: Option<Duration>) -> bool {
    matches!(a, SendAction::Wait { limit: l } if *l == limit)
}

#[test]
fn udp_passes() {
    let mut s = Sending::new(targets(&[Transport::Udp, Transport::Udp]), SendtoTiming::default());
    assert!(matches!(s.step(SendEvent::Begin, None), SendAction::Start { id: 0 }));
    assert!(is_wait(&s.step(SendEvent::Sent, None), wait(1)));
    assert!(matches!(s.step(SendEvent::Elapsed, None), SendAction::Start { id: 1 }));
    assert!(is_wait(&s.step(SendEvent::Sent, None), wait(1)));
    assert!(is_wait(&s.step(SendEvent::Elapsed, None), wait(2)));
    // second pass: both are sent to again, then the backoff
    assert!(matches!(s.step(SendEvent::Elapsed, None), SendAction::Resend { id: 0 }));
    assert!(is_wait(&s.step(SendEvent::Sent, None), wait(1)));
    assert!(matches!(s.step(SendEvent::Elapsed, None), SendAction::Resend { id: 1 }));
    assert!(is_wait(&s.step(SendEvent::Sent, None), wait(1)));
    assert!(is_wait(&s.step(SendEvent::Elapsed, None), wait(4)));
    // third pass: the first cannot be sent to, the second still is
    assert!(matches!(s.step(SendEvent::Elapsed, None), SendAction::Resend { id: 0 }));
    assert!(matches!(s.step(SendEvent::SendFailed, None), SendAction::Resend { id: 1 }));
    assert!(is_wait(&s.step(SendEvent::Sent, None), wait(1)));
    assert!(is_wait(&s.step(SendEvent::Elapsed, None), wait(8)));
    assert!(matches!(s.step(SendEvent::Elapsed, None), SendAction::Done(Err(SendtoError::KdcUnreach))));
}

#[test]
fn established_tcp_waits_without_bound() {
    let mut s = Sending::new(targets(&[Transport::Tcp]), SendtoTiming::default());
    assert!(matches!(s.step(SendEvent::Begin, None), SendAction::Start { id: 0 }));
    assert!(is_wait(&s.step(SendEvent::Sent, None), wait(1)));
    assert!(is_wait(&s.step(SendEvent::Established { id: 0 }, None), None));
    assert!(is_wait(&s.step(SendEvent::Established { id: 0 }, wait(9)), wait(9)));
    // a TCP connection is never sent to again; a dead one leaves nothing live
    assert!(is_wait(&s.step(SendEvent::Dead { id: 0 }, None), wait(1)));
    assert!(is_wait(&s.step(SendEvent::Elapsed, None), wait(2)));
    assert!(matches!(s.step(SendEvent::Elapsed, None), SendAction::Done(Err(SendtoError::KdcUnreach))));
}

#[test]
fn deadline_ends_all_waits() {
    let mut s = Sending::new(targets(&[Transport::Udp, Transport::Udp]), SendtoTiming::default());
    assert!(matches!(s.step(SendEvent::Begin, wait(3)), SendAction::Start { id: 0 }));
    assert!(is_wait(
        &s.step(SendEvent::Sent, Some(Duration { secs: 0, nanos: 5 })),
        Some(Duration { secs: 0, nanos: 5 })
    ));
    assert!(matches!(s.step(SendEvent::Elapsed, wait(0)), SendAction::Start { id: 1 }));
    assert!(matches!(s.step(SendEvent::SendFailed, wait(0)), SendAction::Resend { id: 0 }));
    assert!(matches!(s.step(SendEvent::SendFailed, wait(0)), SendAction::Done(Err(SendtoError::KdcUnreach))));
}

#[test]
fn replies() {
    let mut s = Sending::new(targets(&[Transport::Udp, Transport::Tcp]), SendtoTiming::default());
    s.step(SendEvent::Begin, None);
    s.step(SendEvent::Sent, None);
    let bad = SendEvent::Reply { id: 0, data: b"no".to_vec(), acceptable: false };
    assert!(is_wait(&s.step(bad, None), wait(1)));
    assert_eq!(s.last_reply, Some((10, Transport::Udp)));
    assert!(matches!(s.step(SendEvent::Elapsed, None), SendAction::Start { id: 1 }));
    s.step(SendEvent::Sent, None);
    let good = SendEvent::Reply { id: 1, data: b"yes".to_vec(), acceptable: true };
    match s.step(good, None) {
        SendAction::Done(Ok(r)) => {
            assert_eq!(r.data, b"yes");
            assert_eq!(r.server_index, 11);
            assert_eq!(r.transport, Transport::Tcp);
        }
        other => panic!("unexpected {other:?}"),
    }
}

#[test]
fn unavailable_service() {
    assert!(svc_unavailable(&krb_error(29)));
    assert!(!svc_unavailable(&krb_error(52)) && response_too_big(&krb_error(52)));
    assert!(!svc_unavailable(b"garbage") && !response_too_big(b"garbage"));
    let mut s = SendtoKdc::new(targets(&[Transport::Udp]), SendtoTiming::default());
    s.step(SendEvent::Begin, None);
    s.step(SendEvent::Sent, None);
    let ev = SendEvent::Reply { id: 0, data: krb_error(29), acceptable: true };
    assert!(is_wait(&s.step(ev, None), wait(1)));
    s.step(SendEvent::Elapsed, None);
    assert!(matches!(s.step(SendEvent::Elapsed, None), SendAction::Done(Err(SendtoError::SvcUnavailable))));
    assert_eq!(s.last_reply(), Some((10, Transport::Udp)));
    let mut s = SendtoKdc::new(targets(&[Transport::Udp]), SendtoTiming::default());
    s.step(SendEvent::Begin, None);
    s.step(SendEvent::Sent, None);
    let ev = SendEvent::Reply { id: 0, data: krb_error(25), acceptable: false };
    assert!(matches!(s.step(ev, None), SendAction::Done(Ok(_))));
}

fn transport(conf: &str) -> LocatedTransport<NoDns> {
    LocatedTransport::new(Profile::parse(conf).expect("profile"), None)
}

#[test]
fn configuration_from_the_profile() {
    let t = transport("[libdefaults]\nudp_preference_limit = 99999\nrequest_timeout = 2m\n");
    assert_eq!(t.cfg.udp_preference_limit, 32700);
    assert_eq!(t.cfg.request_timeout, Some(Duration::from_secs(120)));
    let t = transport("[libdefaults]\nudp_preference_limit = x\nrequest_timeout = 0\n");
    assert_eq!(t.cfg, SendtoConfig::default());
}

const PRIMARIES: &str = "[realms]\nX = {\n kdc = a\n kdc = b\n primary_kdc = a\n}\nY = {\n kdc = c\n}\n";

#[test]
fn replicas() {
    let mut t = transport(PRIMARIES);
    assert!(!t.any_replicas());
    t.record_for_test("X", entry("a", Transport::Udp));
    assert!(!t.any_replicas());
    assert_eq!(t.kdcs_used()[0].1.primary, Some(true));
    t.record_for_test("Y", entry("c", Transport::Udp));
    assert!(!t.any_replicas());
    assert_eq!(t.kdcs_used()[1].1.primary, Some(true));
    t.record_for_test("X", entry("b", Transport::Tcp));
    assert!(t.any_replicas());
    assert_eq!(t.kdcs_used()[2].1.primary, Some(false));
    t.clear_kdcs();
    assert!(t.kdcs_used().is_empty() && !t.any_replicas());
}

#[test]
fn recorded_replies() {
    let mut t = transport(PRIMARIES);
    let servers = t.servers_for("X", false).expect("servers");
    assert_eq!(servers.len(), 2);
    t.record_reply("X", &servers, Some((1, Transport::Tcp)));
    t.record_reply("X", &servers, Some((7, Transport::Tcp)));
    t.record_reply("X", &servers, None);
    let used = t.kdcs_used();
    assert_eq!(used.len(), 1);
    assert_eq!((used[0].0.as_str(), used[0].1.hostname.as_str(), used[0].1.transport), ("X", "b", Transport::Tcp));
    t.set_use_primary(true);
    assert!(t.use_primary());
    let servers = t.servers_for("X", false).expect("servers");
    assert_eq!(servers.len(), 1);
    assert_eq!(servers[0].hostname, "a");
}

#[test]
fn primary_rule() {
    let unreach = || Krb5Error::Sendto(SendtoError::KdcUnreach);
    assert!(is_unreach(&unreach()));
    assert!(is_unreach(&Krb5Error::Locate(LocateError::RealmCantResolve)));
    assert!(!is_unreach(&Krb5Error::Locate(LocateError::RealmUnknown)));
    assert!(gives_way(&Krb5Error::Locate(LocateError::RealmUnknown)));

    let mut t = transport(PRIMARIES);
    t.record_for_test("X", entry("b", Transport::Udp));
    assert!(matches!(after_first(&mut t, Ok(1)), FallbackStep::Done(Ok(1))));
    assert!(matches!(after_first::<_, u8>(&mut t, Err(unreach())), FallbackStep::Done(Err(_))));
    assert!(!t.use_primary());
    let orig = match after_first::<_, u8>(&mut t, Err(Krb5Error::DecryptionFailed)) {
        FallbackStep::Retry(e) => e,
        FallbackStep::Done(_) => panic!("a replica was used"),
    };
    assert!(t.use_primary());
    assert!(matches!(after_retry::<_, u8>(&mut t, orig, Err(unreach())), Err(Krb5Error::DecryptionFailed)));
    assert!(!t.use_primary());
    assert!(matches!(
        after_retry::<_, u8>(&mut t, Krb5Error::DecryptionFailed, Err(Krb5Error::PreauthFailed)),
        Err(Krb5Error::PreauthFailed)
    ));
    assert!(matches!(after_retry(&mut t, Krb5Error::DecryptionFailed, Ok(2)), Ok(2)));

    let mut t = transport(PRIMARIES);
    t.record_for_test("X", entry("a", Transport::Udp));
    assert!(matches!(
        after_first::<_, u8>(&mut t, Err(Krb5Error::DecryptionFailed)),
        FallbackStep::Done(Err(Krb5Error::DecryptionFailed))
    ));
}
