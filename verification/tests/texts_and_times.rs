//! Error messages, text conversions and times.
use krb5_rs::asn1::{Asn1, GeneralString};
use krb5_rs::ccache::CcError;
use krb5_rs::gssapi::GssError;
use krb5_rs::keytab::KtError;
use krb5_rs::locate::LocateError;
use krb5_rs::profile::ProfileError;
use krb5_rs::protocol::ap::ApError;
use krb5_rs::protocol::draws::Draws;
use krb5_rs::text::{decimal, lowered, utf8_text};
use krb5_rs::time::{Duration, KerberosTime, Moment};
use krb5_rs::transport::sendto::SendtoError;
use krb5_rs::types::{KrbErrorMsg, PrincipalName};
use krb5_rs::Krb5Error;

fn kdc_error(e_text: Option<&[u8]>) -> Krb5Error {
    Krb5Error::from_error_msg(KrbErrorMsg {
        pvno: 5,
        msg_type: 30,
        ctime: None,
        cusec: None,
        stime: KerberosTime::new(0, 0).expect("time"),
        susec: 0,
        error_code: 6,
        crealm: None,
        cname: None,
        realm: GeneralString::from_bytes(b"X").expect("realm"),
        sname: PrincipalName::new_principal("x"),
        e_text: e_text.map(|t| GeneralString::from_bytes(t).expect("text")),
        e_data: None,
    })
}

#[test]
fn messages() {
    assert_eq!(kdc_error(None).message(), "KDC error 6: (no message)");
    assert_eq!(kdc_error(Some(b"CLIENT_NOT_FOUND")).message(), "KDC error 6: CLIENT_NOT_FOUND");
    assert_eq!(Krb5Error::ReplyValidation("why").message(), "reply validation failed: why");
    assert_eq!(Krb5Error::ClockSkew { max_skew: Duration::from_secs(300) }.message(), "clock skew exceeds 300s");
    assert_eq!(Krb5Error::ReferralLoop { realm: "X".to_string() }.message(), "referral loop detected: visited X twice");
    assert_eq!(Krb5Error::ReferralLimitExceeded(10).message(), "exceeded maximum referral hops (10)");
    assert_eq!(Krb5Error::UnsupportedEtype(-3).message(), "unsupported etype -3");
    assert_eq!(Krb5Error::Ap(ApError::TktExpired).message(), "AP error: ticket expired");
    assert_eq!(Krb5Error::Gss(GssError::BadSig).message(), "GSS error: bad signature");
    assert_eq!(Krb5Error::Ccache(CcError::End).message(), "ccache error: end of ccache");
    assert_eq!(Krb5Error::Keytab(KtError::NotFound).message(), "keytab error: keytab entry not found");
    assert_eq!(Krb5Error::Sendto(SendtoError::KdcUnreach).message(), "sendto error: cannot contact any KDC");
    assert_eq!(
        Krb5Error::Locate(LocateError::Invalid("x".to_string())).message(),
        "locate error: invalid server spec: x"
    );
    assert_eq!(ProfileError::BadInteger("a\"b".to_string()).message(), "bad integer value \"a\\\"b\"");
    assert_eq!(
        ProfileError::Syntax { line: 12, msg: "what".to_string() }.message(),
        "profile syntax error line 12: what"
    );
}

#[test]
fn text_of_octets() {
    assert_eq!(utf8_text("\u{e9}t\u{e9}".as_bytes()).as_deref(), Some("\u{e9}t\u{e9}"));
    assert_eq!(utf8_text(&[0xff, 0x41]), None);
    assert_eq!(lowered("AbC\u{c9}"), "abc\u{c9}");
    assert_eq!(decimal(0), "0");
    assert_eq!(decimal(u64::MAX), "18446744073709551615");
}

#[test]
fn times_on_the_wire() {
    let t = KerberosTime::new(1_700_000_000, 0).expect("time");
    let der = t.to_der();
    assert_eq!(der, b"\x18\x0f20231114221320Z");
    assert_eq!(KerberosTime::from_der(&der).expect("time").timestamp(), 1_700_000_000);
    assert!(KerberosTime::from_der(b"\x18\x0320Z").is_none());
    assert!(KerberosTime::new(i64::MAX, 0).is_none());
}

#[test]
fn the_clock_runs() {
    let a = Moment::now().total_nanos();
    let b = Moment::now().total_nanos();
    assert!(a <= b);
    // some time in this century
    assert!(a > 1_600_000_000_000_000_000 && a < 4_102_444_800_000_000_000);
}

#[test]
fn spans() {
    assert_eq!(Duration::from_secs(3).doubled(), Duration::from_secs(6));
    assert_eq!(Duration { secs: 1, nanos: 600_000_000 }.doubled(), Duration { secs: 3, nanos: 200_000_000 });
    assert_eq!(Duration::from_secs(u64::MAX).doubled(), Duration { secs: u64::MAX, nanos: 999_999_999 });
    assert_eq!(Duration::from_secs(3).min_with(&Duration::from_secs(2)), Duration::from_secs(2));
}

#[test]
fn draws_differ() {
    let a = Draws::draw();
    let b = Draws::draw();
    assert!(0 < a.request_nonce() && a.request_nonce() < 0x8000_0000);
    let mut c = Draws::draw();
    c.nonce = 0x8000_0000;
    assert_eq!(c.request_nonce(), 1);
    c.nonce = 0x8000_0007;
    assert_eq!(c.request_nonce(), 7);
    assert_ne!(a.auth.confounder(), b.auth.confounder());
}

#[test]
fn strings_of_the_protocol() {
    let n = PrincipalName::new_srv_hst("host", "a.b");
    assert_eq!(PrincipalName::decode(&n.encode()).expect("name").encode(), n.encode());
    assert!(PrincipalName::decode(b"\x30\x00").is_none());
}
