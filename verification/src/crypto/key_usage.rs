//! Standard Kerberos key usage values.
use vstd::prelude::*;

verus! {

/// Client pre-auth encrypted timestamp.
pub const PA_ENC_TIMESTAMP: i32 = 1;
/// Ticket encrypted part (KDC uses service key).
pub const TICKET: i32 = 2;
/// AS-REP encrypted part (client's key).
pub const AS_REP_ENCPART: i32 = 3;
/// TGS-REQ authenticator checksum (session key).
pub const TGS_REQ_AUTH_CKSUM: i32 = 6;
/// TGS-REQ authenticator (encrypted with session key).
pub const TGS_REQ_AUTH: i32 = 7;
/// TGS-REP enc-part (session key).
pub const TGS_REP_ENCPART_SESSKEY: i32 = 8;
/// TGS-REP enc-part (subkey -- preferred).
pub const TGS_REP_ENCPART_SUBKEY: i32 = 9;
/// AP-REQ authenticator checksum.
pub const AP_REQ_AUTH_CKSUM: i32 = 10;
/// AP-REQ authenticator.
pub const AP_REQ_AUTH: i32 = 11;
/// AP-REP encrypted part.
pub const AP_REP_ENCPART: i32 = 12;
/// KRB-PRIV encrypted part.
pub const KRB_PRIV_ENCPART: i32 = 13;
/// KRB-CRED encrypted part.
pub const KRB_CRED_ENCPART: i32 = 14;
/// KRB-SAFE checksum.
pub const KRB_SAFE_CKSUM: i32 = 15;
/// PA-REQ-ENC-PA-REP checksum over the AS-REQ.
pub const AS_REQ: i32 = 56;
/// FAST request checksum over the request body / AP-REQ.
pub const FAST_REQ_CHKSUM: i32 = 50;
/// FAST encrypted KrbFastReq.
pub const FAST_ENC: i32 = 51;
/// FAST encrypted KrbFastResponse.
pub const FAST_REP: i32 = 52;
/// FAST finished ticket checksum.
pub const FAST_FINISHED: i32 = 53;
/// Client-direction encrypted challenge.
pub const ENC_CHALLENGE_CLIENT: i32 = 54;
/// KDC-direction encrypted challenge.
pub const ENC_CHALLENGE_KDC: i32 = 55;

} // verus!
