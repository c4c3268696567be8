//! GSS-API (CFX) Kerberos 5 mechanism.
//!
//! Only CFX tokens are produced and accepted.
use vstd::prelude::*;

use crate::asn1::Dup;
use crate::bytes::{append, copy, le32, put_le32};
use crate::crypto::primitives::{compute_md5, md5_digest};
use crate::der::opt_view;
use crate::error::{Krb5Error, Krb5ErrorV};
use crate::gssapi::GssError;

pub mod acceptor;
pub mod context;
pub mod initiator;
pub mod laws;

pub use crate::gssapi::GssFlags;
pub use acceptor::{Krb5Acceptor, Krb5AcceptorV};
pub use initiator::{Krb5Initiator, Krb5InitiatorV};
pub use context::{Krb5Context, Krb5ContextV, Unwrapped, UnwrappedV};

verus! {

/// DER encoding of the krb5 mechanism OID 1.2.840.113554.1.2.2.
pub const MECH_KRB5: [u8; 9] = [0x2a, 0x86, 0x48, 0x86, 0xf7, 0x12, 0x01, 0x02, 0x02];

/// Token identifier of an AP-REQ.
pub const TOK_AP_REQ: u16 = 0x0100;
/// Token identifier of an AP-REP.
pub const TOK_AP_REP: u16 = 0x0200;
/// Token identifier of a context error.
pub const TOK_CTX_ERROR: u16 = 0x0300;
/// Token identifier of a MIC.
pub const TOK_MIC: u16 = 0x0404;
/// Token identifier of a wrapped message.
pub const TOK_WRAP: u16 = 0x0504;

/// Key usage of messages that the acceptor wraps.
pub const USAGE_ACCEPTOR_SEAL: i32 = 22;
/// Key usage of MICs that the acceptor makes.
pub const USAGE_ACCEPTOR_SIGN: i32 = 23;
/// Key usage of messages that the initiator wraps.
pub const USAGE_INITIATOR_SEAL: i32 = 24;
/// Key usage of MICs that the initiator makes.
pub const USAGE_INITIATOR_SIGN: i32 = 25;

/// The checksum type of the GSS authenticator checksum.
pub const CKSUM_GSS_CBINDINGS: i32 = 0x8003;
/// The option number of a delegated credential.
pub const KRB5_GSS_FOR_CREDS_OPTION: u16 = 1;

/// Channel bindings (gss_channel_bindings_struct).
#[derive(Debug, Clone, PartialEq, Eq)]
pub struct ChannelBindings {
    /// Initiator address family.
    pub initiator_addrtype: u32,
    /// Initiator address bytes.
    pub initiator_address: Vec<u8>,
    /// Acceptor address family.
    pub acceptor_addrtype: u32,
    /// Acceptor address bytes.
    pub acceptor_address: Vec<u8>,
    /// Application-supplied data.
    pub application_data: Vec<u8>,
}

/// Model of [`ChannelBindings`].
pub struct ChannelBindingsV {
    pub initiator_addrtype: u32,
    pub initiator_address: Seq<u8>,
    pub acceptor_addrtype: u32,
    pub acceptor_address: Seq<u8>,
    pub application_data: Seq<u8>,
}

impl View for ChannelBindings {
    type V = ChannelBindingsV;

    open spec fn view(&self) -> ChannelBindingsV {
        ChannelBindingsV {
            initiator_addrtype: self.initiator_addrtype,
            initiator_address: self.initiator_address@,
            acceptor_addrtype: self.acceptor_addrtype,
            acceptor_address: self.acceptor_address@,
            application_data: self.application_data@,
        }
    }
}

impl Dup for ChannelBindings {
    fn dup(&self) -> (r: Self) {
        ChannelBindings {
            initiator_addrtype: self.initiator_addrtype,
            initiator_address: copy(&self.initiator_address),
            acceptor_addrtype: self.acceptor_addrtype,
            acceptor_address: copy(&self.acceptor_address),
            application_data: copy(&self.application_data),
        }
    }
}

/// A length in 32 bits, little-endian, and what it counts.
pub open spec fn counted(s: Seq<u8>) -> Seq<u8> {
    le32((s.len() % 0x1_0000_0000) as u32) + s
}

/// The digest of channel bindings: MD5 over their little-endian form.
pub open spec fn cb_spec(cb: ChannelBindingsV) -> Seq<u8> {
    md5_digest(
        le32(cb.initiator_addrtype) + counted(cb.initiator_address) + le32(cb.acceptor_addrtype) + counted(
            cb.acceptor_address,
        ) + counted(cb.application_data),
    )
}

fn put_counted(out: &mut Vec<u8>, s: &[u8])
    ensures
        final(out)@ == old(out)@ + counted(s@),
{
    put_le32(out, (s.len() as u64 % 0x1_0000_0000) as u32);
    append(out, s);
    assert(out@ =~= old(out)@ + counted(s@));
}

pub(crate) fn cb_checksum(cb: &ChannelBindings) -> (r: Vec<u8>)
    ensures
        r@ == cb_spec(cb@),
        r@.len() == 16,
{
    let mut input: Vec<u8> = Vec::new();
    put_le32(&mut input, cb.initiator_addrtype);
    put_counted(&mut input, &cb.initiator_address);
    put_le32(&mut input, cb.acceptor_addrtype);
    put_counted(&mut input, &cb.acceptor_address);
    put_counted(&mut input, &cb.application_data);
    assert(input@ =~= le32(cb.initiator_addrtype) + counted(cb.initiator_address@) + le32(cb.acceptor_addrtype)
        + counted(cb.acceptor_address@) + counted(cb.application_data@));
    compute_md5(&input)
}

/// The GSS error `e`.
pub open spec fn gss_err(e: GssError) -> Krb5ErrorV {
    Krb5ErrorV::Gss(e)
}

pub(crate) fn gss(e: GssError) -> (r: Krb5Error)
    ensures
        r@ == gss_err(e),
{
    Krb5Error::Gss(e)
}

/// Result of an initiator step.
#[derive(Debug)]
pub enum InitStep {
    /// Send this token and wait for the peer's reply.
    Continue(Vec<u8>),
    /// Context established; the inner token (if any) still needs sending.
    /// Normal completion is `Complete(None)`, except that a *non-mutual*
    /// first step completes with its AP-REQ token.
    Complete(Option<Vec<u8>>),
}

/// Model of [`InitStep`].
pub enum InitStepV {
    Continue(Seq<u8>),
    Complete(Option<Seq<u8>>),
}

impl View for InitStep {
    type V = InitStepV;

    open spec fn view(&self) -> InitStepV {
        match self {
            InitStep::Continue(t) => InitStepV::Continue(t@),
            InitStep::Complete(o) => InitStepV::Complete(opt_view(*o)),
        }
    }
}

/// Result of an acceptor step.
#[derive(Debug)]
pub enum AcceptStep {
    /// Context established; `token` carries the AP-REP when mutual.
    Complete {
        /// Token to send to the initiator (AP-REP), if any.
        token: Option<Vec<u8>>,
    },
    /// Send this token and wait for more input (unused without DCE style).
    ContinueNeeded(Vec<u8>),
}

/// Model of [`AcceptStep`].
pub enum AcceptStepV {
    Complete { token: Option<Seq<u8>> },
    ContinueNeeded(Seq<u8>),
}

impl View for AcceptStep {
    type V = AcceptStepV;

    open spec fn view(&self) -> AcceptStepV {
        match self {
            AcceptStep::Complete { token } => AcceptStepV::Complete { token: opt_view(*token) },
            AcceptStep::ContinueNeeded(t) => AcceptStepV::ContinueNeeded(t@),
        }
    }
}

} // verus!
