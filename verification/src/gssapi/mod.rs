//! GSS-API support, with the Kerberos 5 mechanism.
use vstd::prelude::*;

pub mod krb5;
pub mod seqstate;
pub mod spnego;
pub mod token;

verus! {

/// GSS major-status-equivalent errors.
#[derive(Debug, Clone, Copy, PartialEq, Eq, Structural)]
pub enum GssError {
    /// Malformed or incorrectly framed token (GSS_S_DEFECTIVE_TOKEN).
    DefectiveToken,
    /// Signature/decryption verification failed (GSS_S_BAD_SIG).
    BadSig,
    /// Channel bindings mismatch (GSS_S_BAD_BINDINGS).
    BadBindings,
    /// No usable credential (GSS_S_NO_CRED).
    NoCred,
    /// Context has expired (GSS_S_CONTEXT_EXPIRED).
    ContextExpired,
    /// General failure (GSS_S_FAILURE).
    Failure,
    /// Unsupported mechanism (GSS_S_BAD_MECH).
    BadMech,
    /// No context established (GSS_S_NO_CONTEXT).
    NoContext,
    /// Credential unusable (GSS_S_DEFECTIVE_CREDENTIAL).
    DefectiveCredential,
    /// Credentials expired (GSS_S_CREDENTIALS_EXPIRED).
    CredentialsExpired,
    /// Malformed name (GSS_S_BAD_NAME).
    BadName,
    /// Context already fully established.
    ContextEstablished,
}

impl GssError {
    /// The message text of this error.
    pub open spec fn text(self) -> Seq<char> {
        match self {
            GssError::DefectiveToken => "defective token"@,
            GssError::BadSig => "bad signature"@,
            GssError::BadBindings => "channel bindings mismatch"@,
            GssError::NoCred => "no credential"@,
            GssError::ContextExpired => "context expired"@,
            GssError::Failure => "general failure"@,
            GssError::BadMech => "unsupported mechanism"@,
            GssError::NoContext => "no context"@,
            GssError::DefectiveCredential => "defective credential"@,
            GssError::CredentialsExpired => "credentials expired"@,
            GssError::BadName => "bad name"@,
            GssError::ContextEstablished => "context already established"@,
        }
    }

    /// The message text of this error.
    pub fn message(&self) -> (r: String)
        ensures
            r@ == self.text(),
    {
        let s = match self {
            GssError::DefectiveToken => "defective token",
            GssError::BadSig => "bad signature",
            GssError::BadBindings => "channel bindings mismatch",
            GssError::NoCred => "no credential",
            GssError::ContextExpired => "context expired",
            GssError::Failure => "general failure",
            GssError::BadMech => "unsupported mechanism",
            GssError::NoContext => "no context",
            GssError::DefectiveCredential => "defective credential",
            GssError::CredentialsExpired => "credentials expired",
            GssError::BadName => "bad name",
            GssError::ContextEstablished => "context already established",
        };
        s.to_string()
    }
}

/// GSS context flags.
pub struct GssFlags;

impl GssFlags {
    /// Delegation (GSS_C_DELEG_FLAG).
    pub const DELEG: u32 = 0x1;
    /// Mutual authentication (GSS_C_MUTUAL_FLAG).
    pub const MUTUAL: u32 = 0x2;
    /// Replay detection (GSS_C_REPLAY_FLAG).
    pub const REPLAY: u32 = 0x4;
    /// Strict sequencing (GSS_C_SEQUENCE_FLAG).
    pub const SEQUENCE: u32 = 0x8;
    /// Confidentiality (GSS_C_CONF_FLAG).
    pub const CONF: u32 = 0x10;
    /// Integrity (GSS_C_INTEG_FLAG).
    pub const INTEG: u32 = 0x20;
    /// Anonymous initiator (GSS_C_ANON_FLAG).
    pub const ANON: u32 = 0x40;
    /// Per-message ops ready before establishment (GSS_C_PROT_READY_FLAG).
    pub const PROT_READY: u32 = 0x80;
    /// Mechanism is transferable (GSS_C_TRANS_FLAG).
    pub const TRANS: u32 = 0x100;
    /// Channel bindings verified (GSS_C_CHANNEL_BOUND_FLAG).
    pub const CHANNEL_BOUND: u32 = 0x800;
    /// DCE-style framing (GSS_C_DCE_STYLE).
    pub const DCE_STYLE: u32 = 0x1000;
    /// Identify-versus-delegation naming (GSS_C_IDENTIFY_FLAG).
    pub const IDENTIFY: u32 = 0x2000;
    /// Extended error info wanted (GSS_C_EXTENDED_ERROR_FLAG).
    pub const EXTENDED_ERROR: u32 = 0x4000;
    /// Delegate only with OK_AS_DELEGATE (GSS_C_DELEG_POLICY_FLAG).
    pub const DELEG_POLICY: u32 = 0x8000;
}

} // verus!
