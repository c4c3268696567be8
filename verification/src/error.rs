//! Error types of the library.
use vstd::prelude::*;
use vstd::utf8::{decode_utf8, valid_utf8};

use crate::asn1::GeneralString;
use crate::ccache::CcError;
use crate::crypto::CryptoError;
use crate::der::opt_view;
use crate::gssapi::GssError;
use crate::keytab::KtError;
use crate::locate::{LocateError, LocateErrorV};
use crate::protocol::ap::ApError;
use crate::text::{decimal, digits_of, joined, owned, signed_decimal, signed_digits, utf8_text};
use crate::time::{span_text, Duration};
use crate::transport::sendto::SendtoError;
use crate::types::{KrbErrorMsg, KrbErrorMsgV};

verus! {

/// Errors that can occur during Kerberos operations.
#[derive(Debug)]
pub enum Krb5Error {
    /// KDC returned a protocol error (KRB-ERROR message).
    KdcError(Box<KrbErrorMsg>),
    /// AS-REP/TGS-REP validation failed.
    ReplyValidation(&'static str),
    /// Decryption failed (wrong password or key).
    DecryptionFailed,
    /// Clock skew between client and KDC exceeds tolerance.
    ClockSkew {
        /// Maximum allowed skew.
        max_skew: Duration,
    },
    /// Referral loop detected during TGS exchange.
    ReferralLoop {
        /// Realm that was visited twice.
        realm: String,
    },
    /// Too many referral hops.
    ReferralLimitExceeded(u32),
    /// Exceeded maximum pre-authentication retry count.
    PreauthLoopExceeded(u32),
    /// The KDC did not send a FAST armored reply although the request was
    /// FAST-armored.
    FastRequired,
    /// Pre-authentication was required but no offered mechanism succeeded.
    PreauthFailed,
    /// No mutually supported encryption type.
    NoCommonEtype,
    /// Unsupported encryption type encountered.
    UnsupportedEtype(i32),
    /// ASN.1 decoding failure.
    Asn1Decode,
    /// AP exchange error.
    Ap(ApError),
    /// GSS-API error (GSS_S_* major status).
    Gss(GssError),
    /// Cryptographic operation failed.
    Crypto(String),
    /// Credential cache error.
    Ccache(CcError),
    /// Keytab error.
    Keytab(KtError),
    /// Network/transport error.
    Transport(String),
    /// KDC/service location error.
    Locate(LocateError),
    /// Send/receive error.
    Sendto(SendtoError),
    /// Miscellaneous protocol failure.
    Protocol(String),
}

/// Model of [`Krb5Error`].
pub enum Krb5ErrorV {
    KdcError(KrbErrorMsgV),
    ReplyValidation(Seq<char>),
    DecryptionFailed,
    ClockSkew { max_skew: Duration },
    ReferralLoop { realm: Seq<char> },
    ReferralLimitExceeded(u32),
    PreauthLoopExceeded(u32),
    FastRequired,
    PreauthFailed,
    NoCommonEtype,
    UnsupportedEtype(i32),
    Asn1Decode,
    Ap(ApError),
    Gss(GssError),
    Crypto(Seq<char>),
    Ccache(CcError),
    Keytab(KtError),
    Transport(Seq<char>),
    Locate(LocateErrorV),
    Sendto(SendtoError),
    Protocol(Seq<char>),
}

impl View for Krb5Error {
    type V = Krb5ErrorV;

    open spec fn view(&self) -> Krb5ErrorV {
        match self {
            Krb5Error::KdcError(m) => Krb5ErrorV::KdcError((**m)@),
            Krb5Error::ReplyValidation(s) => Krb5ErrorV::ReplyValidation(s@),
            Krb5Error::DecryptionFailed => Krb5ErrorV::DecryptionFailed,
            Krb5Error::ClockSkew { max_skew } => Krb5ErrorV::ClockSkew { max_skew: *max_skew },
            Krb5Error::ReferralLoop { realm } => Krb5ErrorV::ReferralLoop { realm: realm@ },
            Krb5Error::ReferralLimitExceeded(n) => Krb5ErrorV::ReferralLimitExceeded(*n),
            Krb5Error::PreauthLoopExceeded(n) => Krb5ErrorV::PreauthLoopExceeded(*n),
            Krb5Error::FastRequired => Krb5ErrorV::FastRequired,
            Krb5Error::PreauthFailed => Krb5ErrorV::PreauthFailed,
            Krb5Error::NoCommonEtype => Krb5ErrorV::NoCommonEtype,
            Krb5Error::UnsupportedEtype(e) => Krb5ErrorV::UnsupportedEtype(*e),
            Krb5Error::Asn1Decode => Krb5ErrorV::Asn1Decode,
            Krb5Error::Ap(e) => Krb5ErrorV::Ap(*e),
            Krb5Error::Gss(e) => Krb5ErrorV::Gss(*e),
            Krb5Error::Crypto(s) => Krb5ErrorV::Crypto(s@),
            Krb5Error::Ccache(e) => Krb5ErrorV::Ccache(*e),
            Krb5Error::Keytab(e) => Krb5ErrorV::Keytab(*e),
            Krb5Error::Transport(s) => Krb5ErrorV::Transport(s@),
            Krb5Error::Locate(e) => Krb5ErrorV::Locate(e@),
            Krb5Error::Sendto(e) => Krb5ErrorV::Sendto(*e),
            Krb5Error::Protocol(s) => Krb5ErrorV::Protocol(s@),
        }
    }
}

/// The error of a failed cryptographic operation.
pub open spec fn crypto_err(e: CryptoError) -> Krb5ErrorV {
    Krb5ErrorV::Crypto(e.text())
}

/// What a fallible operation returned, by its views.
pub open spec fn outcome<T: View>(r: Result<T, Krb5Error>) -> Result<T::V, Krb5ErrorV> {
    match r {
        Ok(x) => Ok(x@),
        Err(e) => Err(e@),
    }
}

/// The text of a KDC's error, for a message.
pub open spec fn e_text_spec(e_text: Option<Seq<u8>>) -> Seq<char> {
    match e_text {
        None => "(no message)"@,
        Some(b) => if valid_utf8(b) { decode_utf8(b) } else { "(invalid utf8)"@ },
    }
}

impl Krb5ErrorV {
    /// The message text of this error.
    pub open spec fn text(self) -> Seq<char> {
        match self {
            Krb5ErrorV::KdcError(m) => "KDC error "@ + signed_digits(m.error_code as int) + ": "@ + e_text_spec(m.e_text),
            Krb5ErrorV::ReplyValidation(s) => "reply validation failed: "@ + s,
            Krb5ErrorV::DecryptionFailed => "decryption failed"@,
            Krb5ErrorV::ClockSkew { max_skew } => "clock skew exceeds "@ + span_text(
                max_skew.whole().secs,
                max_skew.whole().nanos,
            ),
            Krb5ErrorV::ReferralLoop { realm } => "referral loop detected: visited "@ + realm + " twice"@,
            Krb5ErrorV::ReferralLimitExceeded(n) => "exceeded maximum referral hops ("@ + digits_of(n as nat) + ")"@,
            Krb5ErrorV::PreauthLoopExceeded(n) => "exceeded maximum preauth retries ("@ + digits_of(n as nat) + ")"@,
            Krb5ErrorV::FastRequired => "KDC reply is not FAST-armored"@,
            Krb5ErrorV::PreauthFailed => "pre-authentication failed"@,
            Krb5ErrorV::NoCommonEtype => "no common encryption type with KDC"@,
            Krb5ErrorV::UnsupportedEtype(e) => "unsupported etype "@ + signed_digits(e as int),
            Krb5ErrorV::Asn1Decode => "ASN.1 decode error"@,
            Krb5ErrorV::Ap(e) => "AP error: "@ + e.text(),
            Krb5ErrorV::Gss(e) => "GSS error: "@ + e.text(),
            Krb5ErrorV::Crypto(s) => "crypto error: "@ + s,
            Krb5ErrorV::Ccache(e) => "ccache error: "@ + e.text(),
            Krb5ErrorV::Keytab(e) => "keytab error: "@ + e.text(),
            Krb5ErrorV::Transport(s) => "transport error: "@ + s,
            Krb5ErrorV::Locate(e) => "locate error: "@ + e.text(),
            Krb5ErrorV::Sendto(e) => "sendto error: "@ + e.text(),
            Krb5ErrorV::Protocol(s) => "protocol error: "@ + s,
        }
    }
}

fn e_text_message(e_text: &Option<GeneralString>) -> (r: String)
    ensures
        r@ == e_text_spec(opt_view(*e_text)),
{
    match e_text {
        None => owned("(no message)"),
        Some(g) => match utf8_text(g.as_bytes()) {
            Some(s) => s,
            None => owned("(invalid utf8)"),
        },
    }
}

impl Krb5Error {
    /// The message text of this error.
    pub fn message(&self) -> (r: String)
        ensures
            r@ == self@.text(),
    {
        match self {
            Krb5Error::KdcError(m) => joined("KDC error ", signed_decimal(m.error_code).as_str()).concat(": ").concat(
                e_text_message(&m.e_text).as_str(),
            ),
            Krb5Error::ReplyValidation(s) => joined("reply validation failed: ", s),
            Krb5Error::DecryptionFailed => owned("decryption failed"),
            Krb5Error::ClockSkew { max_skew } => joined("clock skew exceeds ", max_skew.text().as_str()),
            Krb5Error::ReferralLoop { realm } => joined("referral loop detected: visited ", realm.as_str()).concat(
                " twice",
            ),
            Krb5Error::ReferralLimitExceeded(n) => joined(
                "exceeded maximum referral hops (",
                decimal(*n as u64).as_str(),
            ).concat(")"),
            Krb5Error::PreauthLoopExceeded(n) => joined(
                "exceeded maximum preauth retries (",
                decimal(*n as u64).as_str(),
            ).concat(")"),
            Krb5Error::FastRequired => owned("KDC reply is not FAST-armored"),
            Krb5Error::PreauthFailed => owned("pre-authentication failed"),
            Krb5Error::NoCommonEtype => owned("no common encryption type with KDC"),
            Krb5Error::UnsupportedEtype(e) => joined("unsupported etype ", signed_decimal(*e).as_str()),
            Krb5Error::Asn1Decode => owned("ASN.1 decode error"),
            Krb5Error::Ap(e) => joined("AP error: ", e.message().as_str()),
            Krb5Error::Gss(e) => joined("GSS error: ", e.message().as_str()),
            Krb5Error::Crypto(s) => joined("crypto error: ", s.as_str()),
            Krb5Error::Ccache(e) => joined("ccache error: ", e.message().as_str()),
            Krb5Error::Keytab(e) => joined("keytab error: ", e.message().as_str()),
            Krb5Error::Transport(s) => joined("transport error: ", s.as_str()),
            Krb5Error::Locate(e) => joined("locate error: ", e.message().as_str()),
            Krb5Error::Sendto(e) => joined("sendto error: ", e.message().as_str()),
            Krb5Error::Protocol(s) => joined("protocol error: ", s.as_str()),
        }
    }

    /// Create a KDC error from a KRB-ERROR message.
    pub fn from_error_msg(msg: KrbErrorMsg) -> (r: Self)
        ensures
            r@ == Krb5ErrorV::KdcError(msg@),
    {
        Krb5Error::KdcError(Box::new(msg))
    }

    /// The error of a failed cryptographic operation.
    pub fn from_crypto(e: CryptoError) -> (r: Self)
        ensures
            r@ == crypto_err(e),
    {
        Krb5Error::Crypto(e.message())
    }
}

} // verus!
