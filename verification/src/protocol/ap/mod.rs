//! AP exchange and KRB-SAFE/PRIV/CRED.
use vstd::prelude::*;

use crate::asn1::{dup_opt, Asn1, Dup, FlagBits};
use crate::bytes::same;
use crate::crypto::primitives::{generate_random, random_word};
use crate::crypto::profile::{decrypt_with, dec_spec, enc_spec, encrypt_with, key_len, known};
use crate::crypto::{find_etype, key_usage, CryptoError, EtypeProfile};
use crate::der::{list_view, opt_view};
use crate::error::{crypto_err, outcome, Krb5Error, Krb5ErrorV};
use crate::time::{split_nanos, stamp_of, usec_of, Duration, KerberosTime, Moment, TimeV};
use crate::types::{Authenticator, AuthenticatorV, EncTicketPart, EncTicketPartV, EncryptedData, EncryptedDataV, EncryptionKey, EncryptionKeyV, HostAddress, HostAddressV, PrincipalName, PrincipalNameV, Ticket, TicketV};

pub mod cred;
pub mod laws;
pub mod req_rep;
pub mod safe_priv;
pub mod util;

use util::{address_compare, chk_heimdal_seqnum, fulladdr_spec, heimdal_extends, make_fulladdr};

verus! {

/// Auth-context flags.
pub struct AuthContextFlags;

impl AuthContextFlags {
    /// Use timestamps / detect replays.
    pub const DO_TIME: u32 = 0x01;
    /// Return timestamps to the caller.
    pub const RET_TIME: u32 = 0x02;
    /// Use sequence numbers.
    pub const DO_SEQUENCE: u32 = 0x04;
    /// Return sequence numbers to the caller.
    pub const RET_SEQUENCE: u32 = 0x08;
    /// Permit any enctype during enctype negotiation.
    pub const PERMIT_ALL: u32 = 0x10;
    /// Generate a subkey in AP-REP (server side).
    pub const USE_SUBKEY: u32 = 0x20;
}

/// AP-layer errors.
#[derive(Debug, Clone, Copy, PartialEq, Eq, Structural)]
pub enum ApError {
    /// Ticket/authenticator decrypt or integrity failure.
    BadIntegrity,
    /// Ticket expired.
    TktExpired,
    /// Ticket not yet valid.
    TktNyv,
    /// Request is a replay.
    Repeat,
    /// Ticket isn't for us.
    NotUs,
    /// Clock skew too great.
    Skew,
    /// Client/server address mismatch.
    BadAddr,
    /// Bad protocol version.
    BadVersion,
    /// Bad message type.
    MsgType,
    /// Message stream modified.
    Modified,
    /// Message out of order.
    BadOrder,
    /// Incorrect key version.
    BadKeyver,
    /// No key available.
    NoKey,
    /// Mutual authentication failed.
    MutualFailed,
    /// Client name mismatch.
    BadMatch,
    /// Ticket is invalid.
    TktInvalid,
    /// Inappropriate checksum type.
    InappCksum,
    /// Checksum type not supported.
    SumTypeNoSupp,
    /// Illegal cross-realm ticket.
    IllCrTkt,
    /// Enctype not permitted.
    NoPermEtype,
    /// Local address required but not set.
    LocalAddrRequired,
    /// No ticket supplied to mk_req.
    NoTktSupplied,
}

impl ApError {
    /// The message text of this error.
    pub open spec fn text(self) -> Seq<char> {
        match self {
            ApError::BadIntegrity => "decrypt integrity check failed"@,
            ApError::TktExpired => "ticket expired"@,
            ApError::TktNyv => "ticket not yet valid"@,
            ApError::Repeat => "request is a replay"@,
            ApError::NotUs => "ticket is not for us"@,
            ApError::Skew => "clock skew too great"@,
            ApError::BadAddr => "incorrect net address"@,
            ApError::BadVersion => "bad protocol version"@,
            ApError::MsgType => "bad message type"@,
            ApError::Modified => "message stream modified"@,
            ApError::BadOrder => "message out of order"@,
            ApError::BadKeyver => "incorrect kvno"@,
            ApError::NoKey => "no key available"@,
            ApError::MutualFailed => "mutual authentication failed"@,
            ApError::BadMatch => "bad client name"@,
            ApError::TktInvalid => "ticket is invalid"@,
            ApError::InappCksum => "inappropriate checksum type"@,
            ApError::SumTypeNoSupp => "checksum type not supported"@,
            ApError::IllCrTkt => "illegal cross-realm ticket"@,
            ApError::NoPermEtype => "enctype not permitted"@,
            ApError::LocalAddrRequired => "local address required"@,
            ApError::NoTktSupplied => "no ticket supplied"@,
        }
    }

    /// The message text of this error.
    pub fn message(&self) -> (r: String)
        ensures
            r@ == self.text(),
    {
        let s = match self {
            ApError::BadIntegrity => "decrypt integrity check failed",
            ApError::TktExpired => "ticket expired",
            ApError::TktNyv => "ticket not yet valid",
            ApError::Repeat => "request is a replay",
            ApError::NotUs => "ticket is not for us",
            ApError::Skew => "clock skew too great",
            ApError::BadAddr => "incorrect net address",
            ApError::BadVersion => "bad protocol version",
            ApError::MsgType => "bad message type",
            ApError::Modified => "message stream modified",
            ApError::BadOrder => "message out of order",
            ApError::BadKeyver => "incorrect kvno",
            ApError::NoKey => "no key available",
            ApError::MutualFailed => "mutual authentication failed",
            ApError::BadMatch => "bad client name",
            ApError::TktInvalid => "ticket is invalid",
            ApError::InappCksum => "inappropriate checksum type",
            ApError::SumTypeNoSupp => "checksum type not supported",
            ApError::IllCrTkt => "illegal cross-realm ticket",
            ApError::NoPermEtype => "enctype not permitted",
            ApError::LocalAddrRequired => "local address required",
            ApError::NoTktSupplied => "no ticket supplied",
        };
        s.to_string()
    }
}

/// Replay/timing data returned by mk_safe/mk_priv/mk_cred-style calls
/// when RET_TIME/RET_SEQUENCE are set.
#[derive(Debug, Clone, Copy)]
pub struct ReplayData {
    /// Timestamp in the message.
    pub timestamp: Option<KerberosTime>,
    /// Microseconds in the message.
    pub usec: Option<i32>,
    /// Sequence number in the message.
    pub seq: Option<u32>,
}

/// Model of [`ReplayData`].
pub struct ReplayDataV {
    pub timestamp: Option<TimeV>,
    pub usec: Option<i32>,
    pub seq: Option<u32>,
}

impl View for ReplayData {
    type V = ReplayDataV;

    open spec fn view(&self) -> ReplayDataV {
        ReplayDataV { timestamp: opt_view(self.timestamp), usec: self.usec, seq: self.seq }
    }
}

impl Default for ReplayData {
    fn default() -> (r: Self)
        ensures
            r@ == (ReplayDataV { timestamp: None, usec: None, seq: None }),
    {
        ReplayData { timestamp: None, usec: None, seq: None }
    }
}

/// What a key lookup returned.
pub open spec fn lookup_view(r: Result<EncryptionKey, ApError>) -> Result<EncryptionKeyV, ApError> {
    match r {
        Ok(k) => Ok(k@),
        Err(e) => Err(e),
    }
}

/// Source of long-term service keys (keytab abstraction).
///
/// Implementations return [`ApError::NoKey`] (no entry),
/// [`ApError::BadKeyver`] (kvno mismatch), or [`ApError::NotUs`] (principal
/// not ours).
pub trait KeySource {
    /// What this source holds for a principal, key version and etype.
    spec fn lookup(&self, server: PrincipalNameV, realm: Seq<u8>, kvno: Option<i32>, etype: i32) -> Result<
        EncryptionKeyV,
        ApError,
    >;

    /// Fetch the key for `server` in `realm` matching `kvno`/`etype`.
    fn get_key(&self, server: &PrincipalName, realm: &[u8], kvno: Option<i32>, etype: i32) -> (r: Result<
        EncryptionKey,
        ApError,
    >)
        ensures
            lookup_view(r) == self.lookup(server@, realm@, kvno, etype),
    ;
}

/// AP-REQ options.
#[derive(Debug, Clone, Copy, PartialEq, Eq, Structural)]
pub struct ApReqOptions {
    /// Request mutual authentication.
    pub mutual_required: bool,
    /// Use the session key for the ticket encryption (user-to-user).
    pub use_session_key: bool,
    /// Generate and send a subkey in the authenticator.
    pub use_subkey: bool,
    /// Send an enctype-negotiation list.
    pub etype_negotiation: bool,
    /// Channel-bindings awareness (KERB_AP_OPTIONS_CBT authdata).
    pub cbt: bool,
}

impl Default for ApReqOptions {
    fn default() -> (r: Self)
        ensures
            r == (ApReqOptions {
                mutual_required: false,
                use_session_key: false,
                use_subkey: false,
                etype_negotiation: false,
                cbt: false,
            }),
    {
        ApReqOptions {
            mutual_required: false,
            use_session_key: false,
            use_subkey: false,
            etype_negotiation: false,
            cbt: false,
        }
    }
}

/// Result of a successful rd_req.
#[derive(Debug)]
pub struct RdReqResult {
    /// Decrypted ticket.
    pub ticket: EncTicketPart,
    /// AP options from the request (wire mask only).
    pub ap_options: FlagBits,
    /// Decoded authenticator.
    pub authenticator: Authenticator,
}

/// Model of [`RdReqResult`].
pub struct RdReqResultV {
    pub ticket: EncTicketPartV,
    pub ap_options: u32,
    pub authenticator: AuthenticatorV,
}

impl View for RdReqResult {
    type V = RdReqResultV;

    open spec fn view(&self) -> RdReqResultV {
        RdReqResultV {
            ticket: self.ticket@,
            ap_options: self.ap_options@,
            authenticator: self.authenticator@,
        }
    }
}

/// Random octets for one message: for a sequence number, a subkey and a
/// confounder.
#[derive(Debug)]
pub struct Entropy {
    seq: u32,
    subkey: Vec<u8>,
    confounder: Vec<u8>,
}

/// Model of [`Entropy`].
pub struct EntropyV {
    pub seq: u32,
    pub subkey: Seq<u8>,
    pub confounder: Seq<u8>,
}

impl EntropyV {
    /// Enough for the longest subkey and for a confounder.
    pub open spec fn ok(self) -> bool {
        self.subkey.len() == 32 && self.confounder.len() == 16
    }
}

impl View for Entropy {
    type V = EntropyV;

    closed spec fn view(&self) -> EntropyV {
        EntropyV { seq: self.seq, subkey: self.subkey@, confounder: self.confounder@ }
    }
}

impl Entropy {
    #[verifier::type_invariant]
    spec fn wf(self) -> bool {
        self.subkey@.len() == 32 && self.confounder@.len() == 16
    }

    /// Fresh random octets.
    pub fn draw() -> (r: Entropy)
        ensures
            r@.ok(),
    {
        Entropy { seq: random_word(), subkey: generate_random(32), confounder: generate_random(16) }
    }

    /// The given octets: 32 for a subkey, 16 for a confounder.
    pub fn from_parts(seq: u32, subkey: Vec<u8>, confounder: Vec<u8>) -> (r: Option<Entropy>)
        ensures
            match r {
                Some(e) => e@ == (EntropyV { seq, subkey: subkey@, confounder: confounder@ }) && e@.ok(),
                None => subkey@.len() != 32 || confounder@.len() != 16,
            },
    {
        if subkey.len() != 32 || confounder.len() != 16 {
            return None;
        }
        Some(Entropy { seq, subkey, confounder })
    }

    /// The octets for a confounder.
    pub fn confounder(&self) -> (r: &[u8])
        ensures
            r@ == self@.confounder,
            self@.ok(),
    {
        proof {
            use_type_invariant(self);
        }
        &self.confounder
    }

    /// The sequence number: random, below 2^30, never 0.
    pub fn fresh_seq(&self) -> (r: u32)
        ensures
            r == fresh_seq_spec(self@),
    {
        let n: u32 = self.seq % 0x4000_0000;
        if n == 0 { 1 } else { n }
    }

    /// The subkey of a known etype.
    pub fn fresh_key(&self, etype: i32) -> (r: EncryptionKey)
        requires
            known(etype),
        ensures
            r@ == fresh_key_spec(self@, etype),
            self@.ok(),
    {
        proof {
            use_type_invariant(self);
        }
        let n: usize = if etype == 17 || etype == 19 { 16 } else { 32 };
        EncryptionKey::new(etype, crate::bytes::first_n(&self.subkey, n))
    }
}

/// The sequence number that entropy gives.
pub open spec fn fresh_seq_spec(e: EntropyV) -> u32 {
    let n = e.seq % 0x4000_0000;
    if n == 0 { 1u32 } else { n }
}

/// The subkey that entropy gives.
pub open spec fn fresh_key_spec(e: EntropyV, etype: i32) -> EncryptionKeyV {
    EncryptionKeyV { keytype: etype, keyvalue: crate::bytes::head(e.subkey, key_len(etype)) }
}

/// Encrypts under an optional etype: what an unknown etype and a bad key
/// give is an error.
pub open spec fn seal_spec(key: EncryptionKeyV, usage: i32, confounder: Seq<u8>, plain: Seq<u8>) -> Result<
    EncryptedDataV,
    Krb5ErrorV,
> {
    if !known(key.keytype) {
        Err(crypto_err(CryptoError::UnsupportedEtype))
    } else {
        match enc_spec(key.keytype, key.keyvalue, usage, confounder, plain) {
            Ok(c) => Ok(EncryptedDataV { etype: key.keytype, kvno: None, cipher: c }),
            Err(e) => Err(crypto_err(e)),
        }
    }
}

/// Encrypts `plain` under `key`.
pub fn seal(key: &EncryptionKey, usage: i32, env: &Entropy, plain: &[u8]) -> (r: Result<
    EncryptedData,
    Krb5Error,
>)
    ensures
        outcome(r) == seal_spec(key@, usage, env@.confounder, plain@),
        r is Ok ==> known(key@.keytype) && dec_spec(key@.keytype, key@.keyvalue, usage, r->Ok_0@.cipher)
            == Ok::<Seq<u8>, CryptoError>(plain@),
        r is Ok ==> r->Ok_0@.cipher.len() == plain@.len() + 16 + crate::crypto::profile::mac_len(key@.keytype),
{
    match find_etype(key.keytype) {
        Ok(_) => {},
        Err(x) => return Err(Krb5Error::from_crypto(x)),
    }
    match encrypt_with(key.keytype, key.key_bytes(), usage, env.confounder(), plain) {
        Ok(cipher) => Ok(EncryptedData { etype: key.keytype, kvno: None, cipher }),
        Err(x) => Err(Krb5Error::from_crypto(x)),
    }
}

/// Decrypts with `key` under the etype of the data; `None` when the etype is
/// unknown or the data does not decrypt.
pub open spec fn open_spec(etype: i32, key: Seq<u8>, usage: i32, cipher: Seq<u8>) -> Option<Seq<u8>> {
    if !known(etype) {
        None
    } else {
        match dec_spec(etype, key, usage, cipher) {
            Ok(p) => Some(p),
            Err(_) => None,
        }
    }
}

/// Decrypts `cipher` under etype `etype`.
pub fn open_sealed(etype: i32, key: &[u8], usage: i32, cipher: &[u8]) -> (r: Option<Vec<u8>>)
    ensures
        opt_view(r) == open_spec(etype, key@, usage, cipher@),
{
    match find_etype(etype) {
        Ok(_) => {},
        Err(_) => return None,
    }
    match decrypt_with(etype, key, usage, cipher) {
        Ok(p) => Some(p),
        Err(_) => None,
    }
}

/// What decrypting a ticket returns.
pub open spec fn decrypt_ticket_spec(key: EncryptionKeyV, ticket: TicketV) -> Result<EncTicketPartV, Krb5ErrorV> {
    match open_spec(ticket.enc_part.etype, key.keyvalue, key_usage::TICKET, ticket.enc_part.cipher) {
        None => Err(Krb5ErrorV::Ap(ApError::BadIntegrity)),
        Some(p) => match <EncTicketPart as Asn1>::parse(p) {
            Some(t) => Ok(t),
            None => Err(Krb5ErrorV::Asn1Decode),
        },
    }
}

/// Decrypt a ticket's enc-part with `key` (key usage 2).
pub fn decrypt_ticket(key: &EncryptionKey, ticket: &Ticket) -> (r: Result<EncTicketPart, Krb5Error>)
    ensures
        outcome(r) == decrypt_ticket_spec(key@, ticket@),
{
    match open_sealed(ticket.enc_part.etype, key.key_bytes(), key_usage::TICKET, &ticket.enc_part.cipher) {
        None => Err(Krb5Error::Ap(ApError::BadIntegrity)),
        Some(p) => match <EncTicketPart as Asn1>::decode(&p) {
            Some(t) => Ok(t),
            None => Err(Krb5Error::Asn1Decode),
        },
    }
}

/// Build a Ticket from an EncTicketPart with given random octets. The ticket
/// decrypts to that part again under the same key.
pub fn encrypt_ticket_part_with(
    key: &EncryptionKey,
    kvno: Option<i32>,
    realm: &str,
    sname: PrincipalName,
    part: &EncTicketPart,
    env: &Entropy,
) -> (r: Result<Ticket, Krb5Error>)
    ensures
        outcome(r) == encrypt_ticket_spec(key@, kvno, vstd::utf8::encode_utf8(realm@), sname@, part@, env@),
        r is Ok ==> decrypt_ticket_spec(key@, r->Ok_0@) == Ok::<EncTicketPartV, Krb5ErrorV>(part@),
{
    let plain = part.encode();
    let sealed = match seal(key, key_usage::TICKET, env, &plain) {
        Ok(d) => d,
        Err(e) => return Err(e),
    };
    let realm = match crate::asn1::GeneralString::from_bytes(realm.as_bytes()) {
        Some(g) => g,
        None => return Err(Krb5Error::ReplyValidation("invalid realm")),
    };
    Ok(Ticket {
        tkt_vno: 5,
        realm,
        sname,
        enc_part: EncryptedData { etype: key.keytype, kvno, cipher: sealed.cipher },
    })
}

/// What building a ticket returns.
pub open spec fn encrypt_ticket_spec(
    key: EncryptionKeyV,
    kvno: Option<i32>,
    realm: Seq<u8>,
    sname: PrincipalNameV,
    part: EncTicketPartV,
    env: EntropyV,
) -> Result<TicketV, Krb5ErrorV> {
    match seal_spec(key, key_usage::TICKET, env.confounder, <EncTicketPart as Asn1>::der(part)) {
        Err(e) => Err(e),
        Ok(d) => if !crate::asn1::general_ok(realm) {
            Err(Krb5ErrorV::ReplyValidation("invalid realm"@))
        } else {
            Ok(
                TicketV {
                    tkt_vno: 5,
                    realm,
                    sname,
                    enc_part: EncryptedDataV { etype: key.keytype, kvno, cipher: d.cipher },
                },
            )
        },
    }
}

/// Build a Ticket from an EncTicketPart (the mirror of [`decrypt_ticket`],
/// key usage 2).
pub fn encrypt_ticket_part(
    key: &EncryptionKey,
    kvno: Option<i32>,
    realm: &str,
    sname: PrincipalName,
    part: &EncTicketPart,
) -> (r: Result<Ticket, Krb5Error>)
    ensures
        exists|env: EntropyV|
            env.ok() && #[trigger] encrypt_ticket_spec(
                key@,
                kvno,
                vstd::utf8::encode_utf8(realm@),
                sname@,
                part@,
                env,
            ) == outcome(r),
        r is Ok ==> decrypt_ticket_spec(key@, r->Ok_0@) == Ok::<EncTicketPartV, Krb5ErrorV>(part@),
{
    let env = Entropy::draw();
    encrypt_ticket_part_with(key, kvno, realm, sname, part, &env)
}

/// Authentication context: the state of one side of an AP exchange.
pub struct AuthContext {
    pub flags: u32,
    pub clockskew: Duration,
    /// Added to every clock reading, in microseconds.
    pub time_offset: i64,
    pub local_addr: Option<HostAddress>,
    pub remote_addr: Option<HostAddress>,
    pub local_port: Option<HostAddress>,
    pub remote_port: Option<HostAddress>,
    pub permitted_etypes: Option<Vec<i32>>,
    pub req_cksumtype: i32,
    pub key: Option<EncryptionKey>,
    /// User-to-user ticket-decryption key; consumed by one rd_req.
    pub tkt_key: Option<EncryptionKey>,
    pub send_subkey: Option<EncryptionKey>,
    pub recv_subkey: Option<EncryptionKey>,
    pub local_seq: u32,
    pub remote_seq: u32,
    pub negotiated_etype: i32,
    pub authentp: Option<Authenticator>,
    /// Tags of the messages seen, none of them twice.
    pub rcache: Vec<Vec<u8>>,
    pub conn_sane_seq: bool,
    pub conn_heimdal_seq: bool,
}

/// Model of [`AuthContext`].
pub struct AuthContextV {
    pub flags: u32,
    pub clockskew: Duration,
    pub time_offset: i64,
    pub local_addr: Option<HostAddressV>,
    pub remote_addr: Option<HostAddressV>,
    pub local_port: Option<HostAddressV>,
    pub remote_port: Option<HostAddressV>,
    pub permitted_etypes: Option<Seq<i32>>,
    pub req_cksumtype: i32,
    pub key: Option<EncryptionKeyV>,
    pub tkt_key: Option<EncryptionKeyV>,
    pub send_subkey: Option<EncryptionKeyV>,
    pub recv_subkey: Option<EncryptionKeyV>,
    pub local_seq: u32,
    pub remote_seq: u32,
    pub negotiated_etype: i32,
    pub authentp: Option<AuthenticatorV>,
    pub rcache: Seq<Seq<u8>>,
    pub conn_sane_seq: bool,
    pub conn_heimdal_seq: bool,
}

impl View for AuthContext {
    type V = AuthContextV;

    open spec fn view(&self) -> AuthContextV {
        AuthContextV {
            flags: self.flags,
            clockskew: self.clockskew,
            time_offset: self.time_offset,
            local_addr: opt_view(self.local_addr),
            remote_addr: opt_view(self.remote_addr),
            local_port: opt_view(self.local_port),
            remote_port: opt_view(self.remote_port),
            permitted_etypes: opt_view(self.permitted_etypes),
            req_cksumtype: self.req_cksumtype,
            key: opt_view(self.key),
            tkt_key: opt_view(self.tkt_key),
            send_subkey: opt_view(self.send_subkey),
            recv_subkey: opt_view(self.recv_subkey),
            local_seq: self.local_seq,
            remote_seq: self.remote_seq,
            negotiated_etype: self.negotiated_etype,
            authentp: opt_view(self.authentp),
            rcache: list_view(self.rcache@),
            conn_sane_seq: self.conn_sane_seq,
            conn_heimdal_seq: self.conn_heimdal_seq,
        }
    }
}

/// A fresh context: DO_TIME, clockskew 300 s, nothing else set.
pub open spec fn fresh_context() -> AuthContextV {
    AuthContextV {
        flags: AuthContextFlags::DO_TIME,
        clockskew: Duration { secs: 300, nanos: 0 },
        time_offset: 0,
        local_addr: None,
        remote_addr: None,
        local_port: None,
        remote_port: None,
        permitted_etypes: None,
        req_cksumtype: 0,
        key: None,
        tkt_key: None,
        send_subkey: None,
        recv_subkey: None,
        local_seq: 0,
        remote_seq: 0,
        negotiated_etype: 0,
        authentp: None,
        rcache: Seq::empty(),
        conn_sane_seq: false,
        conn_heimdal_seq: false,
    }
}

/// Whether any flag of `mask` is set.
pub open spec fn any_flag(flags: u32, mask: u32) -> bool {
    flags & mask != 0
}

/// The sequence flags, DO_SEQUENCE and RET_SEQUENCE.
pub const SEQ_FLAGS: u32 = 0x0C;
/// The time flags, DO_TIME and RET_TIME.
pub const TIME_FLAGS: u32 = 0x03;

impl AuthContextV {
    /// The context's clock at `now`, in nanoseconds.
    pub open spec fn clock(self, now: Moment) -> int {
        now.total() + self.time_offset * 1_000
    }

    /// The comparison address of this side, with its port folded in.
    pub open spec fn local(self) -> Option<HostAddressV> {
        match (self.local_addr, self.local_port) {
            (Some(a), Some(p)) => Some(fulladdr_spec(a, p)),
            (a, _) => a,
        }
    }

    /// The comparison address of the other side, with its port folded in.
    pub open spec fn remote(self) -> Option<HostAddressV> {
        match (self.remote_addr, self.remote_port) {
            (Some(a), Some(p)) => Some(fulladdr_spec(a, p)),
            (a, _) => a,
        }
    }

    /// The key of outgoing messages.
    pub open spec fn send_key(self) -> Option<EncryptionKeyV> {
        if self.send_subkey is Some { self.send_subkey } else { self.key }
    }

    /// The key of incoming messages.
    pub open spec fn recv_key(self) -> Option<EncryptionKeyV> {
        if self.recv_subkey is Some { self.recv_subkey } else { self.key }
    }

    /// Whether sequence numbers are in use or returned.
    pub open spec fn seq_on(self) -> bool {
        any_flag(self.flags, SEQ_FLAGS)
    }

    /// The context after an outgoing message took its sequence number.
    pub open spec fn seq_taken(self) -> AuthContextV {
        if self.seq_on() {
            AuthContextV { local_seq: ((self.local_seq + 1) % 0x1_0000_0000) as u32, ..self }
        } else {
            self
        }
    }

    /// No message tag is recorded twice.
    pub open spec fn rcache_ok(self) -> bool {
        self.rcache.no_duplicates()
    }
}

/// Whether the clock skew is one that times can be compared with.
pub open spec fn skew_ok(d: Duration) -> bool {
    d.total() <= 0x7fff_ffff_ffff_ffff * 1_000_000
}

/// Whether a ticket is valid at `clock`, give or take the skew.
pub open spec fn validate_times_spec(skew: Duration, clock: int, authtime: TimeV, starttime: Option<TimeV>, endtime: TimeV) -> Result<
    (),
    ApError,
> {
    let start = match starttime {
        Some(t) => t,
        None => authtime,
    };
    if !skew_ok(skew) {
        Err(ApError::BadVersion)
    } else if start.total() > clock + skew.total() {
        Err(ApError::TktNyv)
    } else if clock > endtime.total() + skew.total() {
        Err(ApError::TktExpired)
    } else {
        Ok(())
    }
}

/// Whether a date is within the skew of `clock`.
pub open spec fn clockskew_spec(skew: Duration, clock: int, date: TimeV) -> Result<(), ApError> {
    if skew_ok(skew) && clock - skew.total() <= date.total() <= clock + skew.total() {
        Ok(())
    } else {
        Err(ApError::Skew)
    }
}

/// Whether a message's addresses are those of the two sides.
pub open spec fn addrs_ok(c: AuthContextV, s_addr: HostAddressV, r_addr: Option<HostAddressV>) -> bool {
    &&& c.remote() matches Some(a) ==> a == s_addr
    &&& (r_addr is Some && c.local() is Some) ==> c.local()->0 == r_addr->0
}

/// The replay check: with DO_TIME a date must be within the skew and the tag
/// must be new; a new tag is recorded.
pub open spec fn replay_spec(c: AuthContextV, clock: int, date: Option<TimeV>, tag: Seq<u8>) -> (
    AuthContextV,
    Result<(), ApError>,
) {
    if !any_flag(c.flags, AuthContextFlags::DO_TIME) {
        (c, Ok(()))
    } else if date is Some && clockskew_spec(c.clockskew, clock, date->0) is Err {
        (c, Err(ApError::Skew))
    } else if c.rcache.contains(tag) {
        (c, Err(ApError::Repeat))
    } else {
        (AuthContextV { rcache: c.rcache.push(tag), ..c }, Ok(()))
    }
}

/// The sequence check of an incoming message, with the heuristics for peers
/// that sign-extend their counter.
pub open spec fn seqnum_spec(c: AuthContextV, in_seq: u32) -> (AuthContextV, bool) {
    let exp = c.remote_seq;
    if c.conn_sane_seq {
        (c, in_seq == exp)
    } else if in_seq >= 0xFF80_0000 {
        if in_seq == exp && (exp >= 0xFF80_0000 || !c.conn_heimdal_seq) {
            (c, true)
        } else if heimdal_extends(exp, in_seq) {
            (AuthContextV { conn_heimdal_seq: true, ..c }, true)
        } else {
            (c, false)
        }
    } else if in_seq == exp {
        if 0x80 <= exp < 0x100 || 0x8000 <= exp < 0x1_0000 || 0x80_0000 <= exp < 0x100_0000 {
            (AuthContextV { conn_sane_seq: true, ..c }, true)
        } else {
            (c, true)
        }
    } else if exp == 0 && !c.conn_heimdal_seq && (in_seq == 0x100 || in_seq == 0x1_0000 || in_seq
        == 0x100_0000) {
        (AuthContextV { conn_heimdal_seq: true, remote_seq: in_seq, ..c }, true)
    } else {
        (c, false)
    }
}

/// The replay data an outgoing message carries.
pub open spec fn rdata_spec(c: AuthContextV, now: Moment) -> ReplayDataV {
    let timed = any_flag(c.flags, TIME_FLAGS);
    ReplayDataV {
        timestamp: if timed { Some(stamp_of(c.clock(now))) } else { None },
        usec: if timed { Some(usec_of(c.clock(now))) } else { None },
        seq: if c.seq_on() { Some(c.local_seq) } else { None },
    }
}

/// The part of a message's replay data that the caller gets to see.
pub open spec fn ret_rdata_spec(c: AuthContextV, d: ReplayDataV) -> ReplayDataV {
    let t = any_flag(c.flags, AuthContextFlags::RET_TIME);
    ReplayDataV {
        timestamp: if t { d.timestamp } else { None },
        usec: if t { d.usec } else { None },
        seq: if any_flag(c.flags, AuthContextFlags::RET_SEQUENCE) { d.seq } else { None },
    }
}

impl Default for AuthContext {
    fn default() -> (r: Self)
        ensures
            r@ == fresh_context(),
    {
        AuthContext::new()
    }
}

impl AuthContext {
    /// A fresh context: DO_TIME, clockskew 300s.
    pub fn new() -> (r: Self)
        ensures
            r@ == fresh_context(),
    {
        let rcache: Vec<Vec<u8>> = Vec::new();
        assert(list_view(rcache@) =~= Seq::empty());
        AuthContext {
            flags: AuthContextFlags::DO_TIME,
            clockskew: Duration::from_secs(300),
            time_offset: 0,
            local_addr: None,
            remote_addr: None,
            local_port: None,
            remote_port: None,
            permitted_etypes: None,
            req_cksumtype: 0,
            key: None,
            tkt_key: None,
            send_subkey: None,
            recv_subkey: None,
            local_seq: 0,
            remote_seq: 0,
            negotiated_etype: 0,
            authentp: None,
            rcache,
            conn_sane_seq: false,
            conn_heimdal_seq: false,
        }
    }

    /// Set the auth-context flags.
    pub fn set_flags(&mut self, f: u32)
        ensures
            final(self)@ == (AuthContextV { flags: f, ..old(self)@ }),
    {
        self.flags = f;
    }

    /// Current auth-context flags.
    pub fn flags(&self) -> (r: u32)
        ensures
            r == self@.flags,
    {
        self.flags
    }

    /// Set local/remote addresses used in SAFE/PRIV/CRED and rd_req checks.
    pub fn set_addrs(&mut self, local: Option<HostAddress>, remote: Option<HostAddress>)
        ensures
            final(self)@ == (AuthContextV {
                local_addr: opt_view(local),
                remote_addr: opt_view(remote),
                ..old(self)@
            }),
    {
        self.local_addr = local;
        self.remote_addr = remote;
    }

    /// Set local/remote ports; when set, address comparisons and generated
    /// addresses use combined fulladdr form.
    pub fn set_ports(&mut self, local: Option<HostAddress>, remote: Option<HostAddress>)
        ensures
            final(self)@ == (AuthContextV {
                local_port: opt_view(local),
                remote_port: opt_view(remote),
                ..old(self)@
            }),
    {
        self.local_port = local;
        self.remote_port = remote;
    }

    /// Set the permitted enctypes for enctype negotiation; `None`
    /// restores the default list.
    pub fn set_permitted_etypes(&mut self, e: Option<Vec<i32>>)
        ensures
            final(self)@ == (AuthContextV { permitted_etypes: opt_view(e), ..old(self)@ }),
    {
        self.permitted_etypes = e;
    }

    /// Set the accepted clock skew (default 300 s).
    pub fn set_clockskew(&mut self, d: Duration)
        ensures
            final(self)@ == (AuthContextV { clockskew: d, ..old(self)@ }),
    {
        self.clockskew = d;
    }

    /// Set a time offset, in microseconds, added to every clock read.
    pub fn set_time_offset(&mut self, micros: i64)
        ensures
            final(self)@ == (AuthContextV { time_offset: micros, ..old(self)@ }),
    {
        self.time_offset = micros;
    }

    /// Set the checksum type for authenticator checksums; `0x8003` stores
    /// the raw `in_data` bytes (GSS-API path); `0` uses the etype's mandatory
    /// checksum.
    pub fn set_req_cksumtype(&mut self, t: i32)
        ensures
            final(self)@ == (AuthContextV { req_cksumtype: t, ..old(self)@ }),
    {
        self.req_cksumtype = t;
    }

    /// Pre-set the context key (user-to-user rd_req path). The key also
    /// decrypts the ticket on the next rd_req; it is consumed by that call.
    pub fn set_session_key(&mut self, k: EncryptionKey)
        ensures
            final(self)@ == (AuthContextV { tkt_key: Some(k@), key: Some(k@), ..old(self)@ }),
    {
        self.tkt_key = Some(k.dup());
        self.key = Some(k);
    }

    /// Set the local (outgoing) sequence number.
    pub fn set_local_seq_number(&mut self, n: u32)
        ensures
            final(self)@ == (AuthContextV { local_seq: n, ..old(self)@ }),
    {
        self.local_seq = n;
    }

    /// Set the remote (incoming) sequence number.
    pub fn set_remote_seq_number(&mut self, n: u32)
        ensures
            final(self)@ == (AuthContextV { remote_seq: n, ..old(self)@ }),
    {
        self.remote_seq = n;
    }

    /// The context protocol/session key.
    pub fn session_key(&self) -> (r: Option<&EncryptionKey>)
        ensures
            opt_view(r) == self@.key,
    {
        self.key.as_ref()
    }

    /// Subkey for outgoing messages.
    pub fn send_subkey(&self) -> (r: Option<&EncryptionKey>)
        ensures
            opt_view(r) == self@.send_subkey,
    {
        self.send_subkey.as_ref()
    }

    /// Subkey for incoming messages.
    pub fn recv_subkey(&self) -> (r: Option<&EncryptionKey>)
        ensures
            opt_view(r) == self@.recv_subkey,
    {
        self.recv_subkey.as_ref()
    }

    /// Current local sequence number.
    pub fn local_seq_number(&self) -> (r: u32)
        ensures
            r == self@.local_seq,
    {
        self.local_seq
    }

    /// Current remote sequence number.
    pub fn remote_seq_number(&self) -> (r: u32)
        ensures
            r == self@.remote_seq,
    {
        self.remote_seq
    }

    /// Enctype that was negotiated (0 = none).
    pub fn negotiated_etype(&self) -> (r: i32)
        ensures
            r == self@.negotiated_etype,
    {
        self.negotiated_etype
    }

    /// The last stored authenticator.
    pub fn authenticator(&self) -> (r: Option<&Authenticator>)
        ensures
            opt_view(r) == self@.authentp,
    {
        self.authentp.as_ref()
    }

    pub(crate) fn clock_at(&self, now: Moment) -> (r: i128)
        ensures
            r == self@.clock(now),
            -0x20_0000_0000_0000_0000_0000_0000 <= r <= 0x20_0000_0000_0000_0000_0000_0000,
    {
        now.total_nanos() + self.time_offset as i128 * 1_000
    }

    pub(crate) fn stamp(&self, now: Moment) -> (r: (KerberosTime, i32))
        ensures
            r.0@ == stamp_of(self@.clock(now)),
            r.1 == usec_of(self@.clock(now)),
    {
        split_nanos(self.clock_at(now))
    }

    /// Whether a ticket with these times is valid now, give or take the
    /// clock skew.
    pub(crate) fn validate_times(&self, now: Moment, authtime: KerberosTime, starttime: Option<KerberosTime>, endtime: KerberosTime) -> (r: Result<
        (),
        ApError,
    >)
        ensures
            r == validate_times_spec(self@.clockskew, self@.clock(now), authtime@, opt_view(starttime), endtime@),
    {
        let skew: i128 = self.clockskew.total_nanos();
        if skew > 0x7fff_ffff_ffff_ffff * 1_000_000 {
            return Err(ApError::BadVersion);
        }
        let clock: i128 = self.clock_at(now);
        let start: i128 = match starttime {
            Some(t) => t.total_nanos(),
            None => authtime.total_nanos(),
        };
        let end: i128 = endtime.total_nanos();
        if start > clock + skew {
            return Err(ApError::TktNyv);
        }
        if clock > end + skew {
            return Err(ApError::TktExpired);
        }
        Ok(())
    }

    /// Whether a date is within the clock skew of now.
    pub(crate) fn check_clockskew(&self, now: Moment, date: KerberosTime) -> (r: Result<(), ApError>)
        ensures
            r == clockskew_spec(self@.clockskew, self@.clock(now), date@),
    {
        let skew: i128 = self.clockskew.total_nanos();
        if skew > 0x7fff_ffff_ffff_ffff * 1_000_000 {
            return Err(ApError::Skew);
        }
        let clock: i128 = self.clock_at(now);
        let d: i128 = date.total_nanos();
        if d < clock - skew || d > clock + skew {
            return Err(ApError::Skew);
        }
        Ok(())
    }

    pub(crate) fn effective_local_addr(&self) -> (r: Option<HostAddress>)
        ensures
            opt_view(r) == self@.local(),
    {
        match (&self.local_addr, &self.local_port) {
            (Some(a), Some(p)) => Some(make_fulladdr(a, p)),
            (Some(a), None) => Some(a.dup()),
            (None, _) => None,
        }
    }

    pub(crate) fn effective_remote_addr(&self) -> (r: Option<HostAddress>)
        ensures
            opt_view(r) == self@.remote(),
    {
        match (&self.remote_addr, &self.remote_port) {
            (Some(a), Some(p)) => Some(make_fulladdr(a, p)),
            (Some(a), None) => Some(a.dup()),
            (None, _) => None,
        }
    }

    /// Whether a message's addresses are those of the two sides. A receiver
    /// address is accepted when this side has no address set.
    pub(crate) fn check_addrs(&self, msg_s_addr: &HostAddress, msg_r_addr: &Option<HostAddress>) -> (r: Result<
        (),
        ApError,
    >)
        ensures
            r == (if addrs_ok(self@, msg_s_addr@, opt_view(*msg_r_addr)) {
                Ok(())
            } else {
                Err(ApError::BadAddr)
            }),
    {
        match self.effective_remote_addr() {
            Some(remote) => {
                if !address_compare(&remote, msg_s_addr) {
                    return Err(ApError::BadAddr);
                }
            },
            None => {},
        }
        match msg_r_addr {
            Some(r) => match self.effective_local_addr() {
                Some(local) => {
                    if !address_compare(&local, r) {
                        return Err(ApError::BadAddr);
                    }
                },
                None => {},
            },
            None => {},
        }
        Ok(())
    }

    fn tag_seen(&self, tag: &Vec<u8>) -> (r: bool)
        ensures
            r == self@.rcache.contains(tag@),
    {
        let mut i: usize = 0;
        while i < self.rcache.len()
            invariant
                i <= self.rcache@.len(),
                forall|j: int| 0 <= j < i ==> (#[trigger] self.rcache@[j])@ != tag@,
            decreases self.rcache@.len() - i,
        {
            if same(&self.rcache[i], tag) {
                assert(self@.rcache[i as int] == tag@);
                return true;
            }
            i = i + 1;
        }
        proof {
            if self@.rcache.contains(tag@) {
                let k = choose|k: int| 0 <= k < self@.rcache.len() && self@.rcache[k] == tag@;
                assert(self.rcache@[k]@ == tag@);
            }
        }
        false
    }

    /// Records the tag of a message; an error if it was seen before.
    pub(crate) fn insert_tag(&mut self, tag: Vec<u8>) -> (r: Result<(), ApError>)
        ensures
            old(self)@.rcache.contains(tag@) ==> r == Err::<(), ApError>(ApError::Repeat) && final(self)@
                == old(self)@,
            !old(self)@.rcache.contains(tag@) ==> r == Ok::<(), ApError>(()) && final(self)@ == (AuthContextV {
                rcache: old(self)@.rcache.push(tag@),
                ..old(self)@
            }),
    {
        if self.tag_seen(&tag) {
            return Err(ApError::Repeat);
        }
        self.rcache.push(tag);
        assert(list_view(self.rcache@) =~= old(self)@.rcache.push(tag@));
        Ok(())
    }

    /// Replay-cache check of one message.
    pub(crate) fn check_replay(&mut self, now: Moment, rdata_time: Option<KerberosTime>, tag: Vec<u8>) -> (r: Result<
        (),
        ApError,
    >)
        ensures
            (final(self)@, r) == replay_spec(old(self)@, old(self)@.clock(now), opt_view(rdata_time), tag@),
    {
        if self.flags & AuthContextFlags::DO_TIME == 0 {
            return Ok(());
        }
        match rdata_time {
            Some(t) => match self.check_clockskew(now, t) {
                Ok(()) => {},
                Err(e) => return Err(e),
            },
            None => {},
        }
        self.insert_tag(tag)
    }

    /// Sequence check of one incoming message, including the heuristics for
    /// sign-extending counters.
    pub(crate) fn check_seqnum(&mut self, in_seq: u32) -> (r: bool)
        ensures
            (final(self)@, r) == seqnum_spec(old(self)@, in_seq),
    {
        let exp_seq: u32 = self.remote_seq;
        if self.conn_sane_seq {
            return in_seq == exp_seq;
        }
        if in_seq >= 0xFF80_0000 {
            if in_seq == exp_seq && (exp_seq >= 0xFF80_0000 || !self.conn_heimdal_seq) {
                return true;
            }
            if chk_heimdal_seqnum(exp_seq, in_seq) {
                self.conn_heimdal_seq = true;
                return true;
            }
            return false;
        }
        if in_seq == exp_seq {
            if (exp_seq >= 0x80 && exp_seq < 0x100) || (exp_seq >= 0x8000 && exp_seq < 0x1_0000)
                || (exp_seq >= 0x80_0000 && exp_seq < 0x100_0000) {
                self.conn_sane_seq = true;
            }
            return true;
        }
        if exp_seq == 0 && !self.conn_heimdal_seq && (in_seq == 0x100 || in_seq == 0x1_0000 || in_seq
            == 0x100_0000) {
            self.conn_heimdal_seq = true;
            self.remote_seq = in_seq;
            return true;
        }
        false
    }

    pub(crate) fn gen_rdata(&self, now: Moment) -> (r: ReplayData)
        ensures
            r@ == rdata_spec(self@, now),
    {
        let (ts, us) = self.stamp(now);
        let timed = self.flags & TIME_FLAGS != 0;
        ReplayData {
            timestamp: if timed { Some(ts) } else { None },
            usec: if timed { Some(us) } else { None },
            seq: if self.flags & SEQ_FLAGS != 0 { Some(self.local_seq) } else { None },
        }
    }

    pub(crate) fn ret_rdata(&self, d: ReplayData) -> (r: ReplayData)
        ensures
            r@ == ret_rdata_spec(self@, d@),
    {
        let t = self.flags & AuthContextFlags::RET_TIME != 0;
        ReplayData {
            timestamp: if t { d.timestamp } else { None },
            usec: if t { d.usec } else { None },
            seq: if self.flags & AuthContextFlags::RET_SEQUENCE != 0 { d.seq } else { None },
        }
    }

    pub(crate) fn take_seq(&mut self)
        ensures
            final(self)@ == old(self)@.seq_taken(),
    {
        if self.flags & SEQ_FLAGS != 0 {
            self.local_seq = self.local_seq.wrapping_add(1);
        }
    }

    pub(crate) fn sending_key(&self) -> (r: Option<EncryptionKey>)
        ensures
            opt_view(r) == self@.send_key(),
    {
        match &self.send_subkey {
            Some(k) => Some(k.dup()),
            None => dup_opt(&self.key),
        }
    }

    pub(crate) fn receiving_key(&self) -> (r: Option<EncryptionKey>)
        ensures
            opt_view(r) == self@.recv_key(),
    {
        match &self.recv_subkey {
            Some(k) => Some(k.dup()),
            None => dup_opt(&self.key),
        }
    }
}

/// A message whose tag was recorded is refused when it comes again: with
/// DO_TIME on, the check that accepts a tag makes every later check of the
/// same tag fail, whatever other tags are recorded in between.
pub proof fn law_replay_detected(c: AuthContextV, clock: int, date: Option<TimeV>, tag: Seq<u8>, d: AuthContextV, clock2: int, date2: Option<TimeV>)
    requires
        any_flag(c.flags, AuthContextFlags::DO_TIME),
        replay_spec(c, clock, date, tag).1 is Ok,
        replay_spec(c, clock, date, tag).0.rcache.is_prefix_of(d.rcache),
        d.flags == c.flags,
    ensures
        replay_spec(d, clock2, date2, tag).1 is Err,
{
    let c1 = replay_spec(c, clock, date, tag).0;
    assert(c1.rcache[c.rcache.len() as int] == tag);
    assert(d.rcache[c.rcache.len() as int] == tag);
}

/// The replay check never records a tag twice.
pub proof fn law_rcache_no_duplicates(c: AuthContextV, clock: int, date: Option<TimeV>, tag: Seq<u8>)
    requires
        c.rcache_ok(),
    ensures
        replay_spec(c, clock, date, tag).0.rcache_ok(),
{
}

/// The sequence check accepts the expected number in every state.
pub proof fn law_expected_seq_accepted(c: AuthContextV)
    ensures
        seqnum_spec(c, c.remote_seq).1,
{
}

} // verus!
