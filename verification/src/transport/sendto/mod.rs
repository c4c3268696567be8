//! Sending a request to a list of located servers, with the pass and timing
//! rules, transport strategy, and service-unavailable handling. See `passes`
//! for the pass structure.
use vstd::prelude::*;

use crate::asn1::Asn1;
use crate::bytes::{append, be32, get_be32, put_be32, read_be32};
use crate::der::list_view;
use crate::locate::{ServerEntry, ServerEntryV, Transport};
use crate::protocol::preauth::ErrorCode;
use crate::text::{begins, begins_with};
use crate::time::Duration;
use crate::transport::MAX_KDC_RESPONSE_SIZE;
use crate::types::KrbErrorMsg;

pub mod passes;

verus! {

/// Total number of passes.
pub const MAX_PASS: u32 = 3;
/// Default for the longest request that goes over UDP first.
pub const DEFAULT_UDP_PREF_LIMIT: usize = 1465;
/// Upper bound on the longest request that goes over UDP first.
pub const HARD_UDP_LIMIT: usize = 32700;

/// Timing knobs for the sendto pass loop.
#[derive(Debug, Clone, Copy, PartialEq, Eq, Structural)]
pub struct SendtoTiming {
    /// Wait after each individual send/retransmit.
    pub per_server: Duration,
    /// Tail wait at the end of pass 1.
    pub first_pass_tail: Duration,
    /// First backoff; doubles each subsequent pass.
    pub initial_backoff: Duration,
    /// Total number of passes.
    pub max_pass: u32,
}

impl Default for SendtoTiming {
    fn default() -> (r: Self)
        ensures
            r == (SendtoTiming {
                per_server: Duration { secs: 1, nanos: 0 },
                first_pass_tail: Duration { secs: 2, nanos: 0 },
                initial_backoff: Duration { secs: 4, nanos: 0 },
                max_pass: 3,
            }),
    {
        // 1s per server, 2s first-pass tail, 4s/8s backoffs, 3 passes.
        SendtoTiming {
            per_server: Duration::from_secs(1),
            first_pass_tail: Duration::from_secs(2),
            initial_backoff: Duration::from_secs(4),
            max_pass: MAX_PASS,
        }
    }
}

/// Configuration for sending.
#[derive(Debug, Clone, Copy, PartialEq, Eq, Structural)]
pub struct SendtoConfig {
    /// `udp_preference_limit` (already clamped via [`udp_pref_limit`]).
    pub udp_preference_limit: usize,
    /// `request_timeout` — absolute bound on the whole request.
    pub request_timeout: Option<Duration>,
    /// Pass timing.
    pub timing: SendtoTiming,
}

impl Default for SendtoConfig {
    fn default() -> (r: Self)
        ensures
            r == (SendtoConfig {
                udp_preference_limit: 1465,
                request_timeout: None,
                timing: SendtoTiming {
                    per_server: Duration { secs: 1, nanos: 0 },
                    first_pass_tail: Duration { secs: 2, nanos: 0 },
                    initial_backoff: Duration { secs: 4, nanos: 0 },
                    max_pass: 3,
                },
            }),
    {
        SendtoConfig {
            udp_preference_limit: DEFAULT_UDP_PREF_LIMIT,
            request_timeout: None,
            timing: SendtoTiming::default(),
        }
    }
}

/// The UDP preference limit for a profile's value.
pub open spec fn pref_limit_spec(value: Option<i64>) -> int {
    match value {
        None => 1465,
        Some(v) => if v < 0 {
            1465
        } else if v > 32700 {
            32700
        } else {
            v as int
        },
    }
}

/// `udp_preference_limit` profile clamping: absent or negative -> 1465; above
/// `HARD_UDP_LIMIT` (32700) -> 32700.
pub fn udp_pref_limit(profile_value: Option<i64>) -> (r: usize)
    ensures
        r == pref_limit_spec(profile_value),
{
    match profile_value {
        None => DEFAULT_UDP_PREF_LIMIT,
        Some(v) => if v < 0 {
            DEFAULT_UDP_PREF_LIMIT
        } else if v > 32700 {
            HARD_UDP_LIMIT
        } else {
            v as usize
        },
    }
}

/// Which transports to try in which order.
#[derive(Debug, Clone, Copy, PartialEq, Eq, Structural)]
pub enum Strategy {
    /// Try UDP before TCP (request fits the UDP preference limit).
    UdpFirst,
    /// Try TCP before UDP (request over the limit, UDP still allowed).
    UdpLast,
    /// TCP only (`no_udp` set, e.g. after KRB_ERR_RESPONSE_TOO_BIG).
    NoUdp,
}

/// The strategy for a message.
pub open spec fn strategy_spec(message_len: int, no_udp: bool, limit: int) -> Strategy {
    if no_udp {
        Strategy::NoUdp
    } else if message_len <= limit {
        Strategy::UdpFirst
    } else {
        Strategy::UdpLast
    }
}

/// Strategy selection: `no_udp` forces TCP-only; otherwise the message length
/// against `limit` picks the order.
pub fn strategy_for(message_len: usize, no_udp: bool, limit: usize) -> (r: Strategy)
    ensures
        r == strategy_spec(message_len as int, no_udp, limit as int),
{
    if no_udp {
        Strategy::NoUdp
    } else if message_len <= limit {
        Strategy::UdpFirst
    } else {
        Strategy::UdpLast
    }
}

/// Errors from sending a request.
#[derive(Debug, Clone, Copy, PartialEq, Eq, Structural)]
pub enum SendtoError {
    /// All connections failed or timed out (KRB5_KDC_UNREACH).
    KdcUnreach,
    /// Every contacted KDC reported `KDC_ERR_SVC_UNAVAILABLE` (error 29)
    /// and nothing usable arrived.
    SvcUnavailable,
    /// I/O error.
    Io,
}

impl SendtoError {
    /// The message text of this error.
    pub open spec fn text(self) -> Seq<char> {
        match self {
            SendtoError::KdcUnreach => "cannot contact any KDC"@,
            SendtoError::SvcUnavailable => "KDC service unavailable"@,
            SendtoError::Io => "sendto I/O error"@,
        }
    }

    /// The message text of this error.
    pub fn message(&self) -> (r: String)
        ensures
            r@ == self.text(),
    {
        let s = match self {
            SendtoError::KdcUnreach => "cannot contact any KDC",
            SendtoError::SvcUnavailable => "KDC service unavailable",
            SendtoError::Io => "sendto I/O error",
        };
        s.to_string()
    }
}

/// A successful KDC reply.
#[derive(Debug)]
pub struct KdcReply {
    /// Raw reply bytes.
    pub data: Vec<u8>,
    /// Index into the `servers` slice of the entry that answered.
    pub server_index: usize,
    /// Actual transport the reply arrived on (Udp or Tcp).
    pub transport: Transport,
}

/// Model of [`KdcReply`].
pub struct KdcReplyV {
    pub data: Seq<u8>,
    pub server_index: usize,
    pub transport: Transport,
}

impl View for KdcReply {
    type V = KdcReplyV;

    open spec fn view(&self) -> KdcReplyV {
        KdcReplyV { data: self.data@, server_index: self.server_index, transport: self.transport }
    }
}

/// A server to contact over a transport.
#[derive(Debug, Clone, Copy, PartialEq, Eq, Structural)]
pub struct Target {
    /// Index into the server list.
    pub server_index: usize,
    /// Udp or Tcp.
    pub transport: Transport,
}

impl View for Target {
    type V = Target;

    open spec fn view(&self) -> Target {
        *self
    }
}

/// The transport of a server entry that is tried at once, if any. KKDCP is
/// not spoken: such an entry is skipped.
pub open spec fn preferred(t: Transport, strategy: Strategy) -> Option<Transport> {
    match t {
        Transport::Udp => if strategy == Strategy::UdpFirst { Some(Transport::Udp) } else { None },
        Transport::Tcp => if strategy == Strategy::UdpLast { Some(Transport::Tcp) } else { None },
        Transport::TcpOrUdp => if strategy == Strategy::UdpFirst {
            Some(Transport::Udp)
        } else {
            Some(Transport::Tcp)
        },
        Transport::Https => None,
    }
}

/// The transport of a server entry that is tried once the others were, if
/// any.
pub open spec fn deferred(t: Transport, strategy: Strategy) -> Option<Transport> {
    match t {
        Transport::Udp => if strategy == Strategy::UdpLast { Some(Transport::Udp) } else { None },
        Transport::Tcp => if strategy == Strategy::UdpLast { None } else { Some(Transport::Tcp) },
        Transport::TcpOrUdp => match strategy {
            Strategy::UdpFirst => Some(Transport::Tcp),
            Strategy::UdpLast => Some(Transport::Udp),
            Strategy::NoUdp => None,
        },
        Transport::Https => None,
    }
}

/// Whether a server can be contacted over a transport: a UNIX socket carries
/// the TCP framing, so never UDP.
pub open spec fn reachable(e: ServerEntryV, t: Transport) -> bool {
    !(begins(e.hostname, '/') && t == Transport::Udp)
}

/// The targets of a server list that are contacted at once, or, if `later`,
/// once the others were; in the order of the list.
pub open spec fn targets_spec(servers: Seq<ServerEntryV>, strategy: Strategy, later: bool) -> Seq<Target>
    decreases servers.len(),
{
    if servers.len() == 0 {
        Seq::empty()
    } else {
        let rest = targets_spec(servers.drop_last(), strategy, later);
        let e = servers.last();
        let t = if later { deferred(e.transport, strategy) } else { preferred(e.transport, strategy) };
        if t is Some && reachable(e, t->0) {
            rest.push(Target { server_index: (servers.len() - 1) as usize, transport: t->0 })
        } else {
            rest
        }
    }
}

/// Split a server entry into preferred and deferred transports for a given
/// strategy.
pub fn entry_transports(t: Transport, strategy: Strategy) -> (r: (Option<Transport>, Option<Transport>))
    ensures
        r == (preferred(t, strategy), deferred(t, strategy)),
{
    match t {
        Transport::Udp => match strategy {
            Strategy::UdpFirst => (Some(Transport::Udp), None),
            Strategy::UdpLast => (None, Some(Transport::Udp)),
            Strategy::NoUdp => (None, None),
        },
        Transport::Tcp => match strategy {
            Strategy::UdpLast => (Some(Transport::Tcp), None),
            _ => (None, Some(Transport::Tcp)),
        },
        Transport::TcpOrUdp => match strategy {
            Strategy::UdpFirst => (Some(Transport::Udp), Some(Transport::Tcp)),
            Strategy::UdpLast => (Some(Transport::Tcp), Some(Transport::Udp)),
            Strategy::NoUdp => (Some(Transport::Tcp), None),
        },
        Transport::Https => (None, None),
    }
}

/// The servers to contact, each with its transport, in order: those that are
/// contacted at once, and those that are deferred.
pub fn plan_targets(servers: &[ServerEntry], strategy: Strategy) -> (r: (Vec<Target>, Vec<Target>))
    ensures
        r.0@ == targets_spec(list_view(servers@), strategy, false),
        r.1@ == targets_spec(list_view(servers@), strategy, true),
{
    let ghost all = list_view(servers@);
    let mut now: Vec<Target> = Vec::new();
    let mut later: Vec<Target> = Vec::new();
    assert(all.take(0) =~= Seq::empty());
    let mut i: usize = 0;
    while i < servers.len()
        invariant
            i <= servers@.len(),
            all == list_view(servers@),
            now@ == targets_spec(all.take(i as int), strategy, false),
            later@ == targets_spec(all.take(i as int), strategy, true),
        decreases servers@.len() - i,
    {
        let e = &servers[i];
        proof {
            assert(all.take(i + 1).drop_last() =~= all.take(i as int));
            assert(all.take(i + 1).last() == e@);
        }
        let (p, d) = entry_transports(e.transport, strategy);
        let unix = begins_with(e.hostname.as_str(), '/');
        if let Some(t) = p {
            if !(unix && t == Transport::Udp) {
                now.push(Target { server_index: i, transport: t });
            }
        }
        if let Some(t) = d {
            if !(unix && t == Transport::Udp) {
                later.push(Target { server_index: i, transport: t });
            }
        }
        i = i + 1;
    }
    assert(all.take(i as int) =~= all);
    (now, later)
}

/// Whether a reply says that the KDC's service is unavailable.
pub open spec fn unavailable_spec(data: Seq<u8>) -> bool {
    match <KrbErrorMsg as Asn1>::parse(data) {
        Some(e) => e.msg_type == 30 && e.error_code == ErrorCode::SVC_UNAVAILABLE,
        None => false,
    }
}

/// Whether a reply says that the KDC's service is unavailable: only a decoded
/// KRB-ERROR carrying error 29 does.
pub fn svc_unavailable(data: &[u8]) -> (r: bool)
    ensures
        r == unavailable_spec(data@),
{
    match <KrbErrorMsg as Asn1>::decode(data) {
        Some(e) => e.msg_type == 30 && e.error_code == ErrorCode::SVC_UNAVAILABLE,
        None => false,
    }
}

/// Whether a reply says that the response was too big for UDP.
pub open spec fn too_big_spec(data: Seq<u8>) -> bool {
    match <KrbErrorMsg as Asn1>::parse(data) {
        Some(e) => e.msg_type == 30 && e.error_code == ErrorCode::RESPONSE_TOO_BIG,
        None => false,
    }
}

/// Whether a reply says that the response was too big for UDP: the request
/// is then sent once more with UDP disabled.
pub fn response_too_big(data: &[u8]) -> (r: bool)
    ensures
        r == too_big_spec(data@),
{
    match <KrbErrorMsg as Asn1>::decode(data) {
        Some(e) => e.msg_type == 30 && e.error_code == ErrorCode::RESPONSE_TOO_BIG,
        None => false,
    }
}

/// A message as it goes over a stream: its length in four octets, then the
/// message.
pub open spec fn frame_spec(message: Seq<u8>) -> Seq<u8> {
    be32(if message.len() <= u32::MAX { message.len() as u32 } else { u32::MAX }) + message
}

/// A message as it goes over a stream.
pub fn frame(message: &[u8]) -> (r: Vec<u8>)
    ensures
        r@ == frame_spec(message@),
{
    let n: u64 = message.len() as u64;
    let len: u32 = if n <= 0xFFFF_FFFF { n as u32 } else { 0xFFFF_FFFF };
    let mut out: Vec<u8> = Vec::new();
    put_be32(&mut out, len);
    append(&mut out, message);
    assert(out@ =~= frame_spec(message@));
    out
}

/// How many octets follow the header of a stream reply; none if the length
/// is zero or over the bound: the connection is then dropped.
pub open spec fn reply_len_spec(header: Seq<u8>) -> Option<int> {
    let n = get_be32(header, 0) as int;
    if n == 0 || n > MAX_KDC_RESPONSE_SIZE { None } else { Some(n) }
}

/// How many octets follow the header of a stream reply.
pub fn reply_len(header: &[u8]) -> (r: Option<usize>)
    requires
        header@.len() >= 4,
    ensures
        match r {
            Some(n) => reply_len_spec(header@) == Some(n as int),
            None => reply_len_spec(header@) is None,
        },
{
    let n: u32 = read_be32(header, 0);
    if n == 0 || n > 1_048_576 {
        None
    } else {
        Some(n as usize)
    }
}

/// A framed message that is not empty and within the bound is read back with
/// its own length.
pub proof fn law_framed(message: Seq<u8>)
    requires
        0 < message.len() <= MAX_KDC_RESPONSE_SIZE,
    ensures
        reply_len_spec(frame_spec(message)) == Some(message.len() as int),
        frame_spec(message).skip(4) == message,
{
    let n = message.len() as u32;
    crate::bytes::lemma_word_round_trip(0, n, 0);
    let f = frame_spec(message);
    assert(f[0] == be32(n)[0] && f[1] == be32(n)[1] && f[2] == be32(n)[2] && f[3] == be32(n)[3]);
    assert(frame_spec(message).skip(4) =~= message);
}

/// With UDP ruled out no target uses it; otherwise a strategy puts all
/// targets of one of the transports before those of the other.
pub proof fn law_strategy(servers: Seq<ServerEntryV>, i: int)
    ensures
        0 <= i < targets_spec(servers, Strategy::NoUdp, false).len() ==> targets_spec(
            servers,
            Strategy::NoUdp,
            false,
        )[i].transport == Transport::Tcp,
        0 <= i < targets_spec(servers, Strategy::NoUdp, true).len() ==> targets_spec(
            servers,
            Strategy::NoUdp,
            true,
        )[i].transport == Transport::Tcp,
        0 <= i < targets_spec(servers, Strategy::UdpFirst, false).len() ==> targets_spec(
            servers,
            Strategy::UdpFirst,
            false,
        )[i].transport == Transport::Udp,
        0 <= i < targets_spec(servers, Strategy::UdpFirst, true).len() ==> targets_spec(
            servers,
            Strategy::UdpFirst,
            true,
        )[i].transport == Transport::Tcp,
        0 <= i < targets_spec(servers, Strategy::UdpLast, false).len() ==> targets_spec(
            servers,
            Strategy::UdpLast,
            false,
        )[i].transport == Transport::Tcp,
        0 <= i < targets_spec(servers, Strategy::UdpLast, true).len() ==> targets_spec(
            servers,
            Strategy::UdpLast,
            true,
        )[i].transport == Transport::Udp,
    decreases servers.len(),
{
    if servers.len() > 0 {
        law_strategy(servers.drop_last(), i);
    }
}

} // verus!
