//! What holds of every attempt to reach a KDC.
use vstd::prelude::*;

use crate::asn1::Asn1;
use crate::locate::{ServerEntryV, Transport};
use crate::profile::deltat::deltat_spec;
use crate::profile::parse::NodeV;
use crate::profile::{first_spec, integer_spec};
use crate::text::{begins, trim_start};
use crate::time::Duration;
use crate::transport::located::{counts_primary, marked_kdcs, on_list, profile_config};
use crate::transport::sendto::passes::{fresh_sending, judged, kdc_step_spec, killed, limit_spec, marked, next_pass, next_udp, pass_spec, phase_wait, second_pass, send_step_spec, started, LiveConn, Phase, SendActionV, SendEventV, SendingV, SendtoKdcV};
use crate::transport::sendto::{deferred, frame_spec, pref_limit_spec, preferred, reply_len_spec, strategy_spec, targets_spec, too_big_spec, unavailable_spec, KdcReplyV, SendtoError, Strategy, Target};
use crate::types::KrbErrorMsg;

verus! {

/// The length up to which a message goes by UDP first: 1465 octets where none
/// is set, else the one that is set, up to 32700.
pub proof fn law_udp_limit(v: i64)
    ensures
        pref_limit_spec(None) == 1465,
        v < 0 ==> pref_limit_spec(Some(v)) == 1465,
        0 <= v <= 32_700 ==> pref_limit_spec(Some(v)) == v,
        v > 32_700 ==> pref_limit_spec(Some(v)) == 32_700,
{
}

/// A message goes by UDP first exactly where UDP is allowed and it is no longer
/// than the limit, by UDP last where it is longer.
pub proof fn law_way_chosen(n: int, no_udp: bool, limit: int)
    ensures
        no_udp ==> strategy_spec(n, no_udp, limit) == Strategy::NoUdp,
        !no_udp && n <= limit ==> strategy_spec(n, no_udp, limit) == Strategy::UdpFirst,
        !no_udp && n > limit ==> strategy_spec(n, no_udp, limit) == Strategy::UdpLast,
{
}

/// A server of either transport is tried by both, in the order of the way that
/// was chosen, and by TCP alone where UDP is not allowed; a server of one is
/// tried by that one, at once where the way begins with it and later where it
/// does not; and one of HTTPS is not tried here.
pub proof fn law_ways(s: Strategy)
    ensures
        preferred(Transport::TcpOrUdp, Strategy::UdpFirst) == Some(Transport::Udp),
        deferred(Transport::TcpOrUdp, Strategy::UdpFirst) == Some(Transport::Tcp),
        preferred(Transport::TcpOrUdp, Strategy::UdpLast) == Some(Transport::Tcp),
        deferred(Transport::TcpOrUdp, Strategy::UdpLast) == Some(Transport::Udp),
        preferred(Transport::TcpOrUdp, Strategy::NoUdp) == Some(Transport::Tcp),
        deferred(Transport::TcpOrUdp, Strategy::NoUdp) is None,
        preferred(Transport::Udp, Strategy::UdpFirst) == Some(Transport::Udp),
        deferred(Transport::Udp, Strategy::UdpFirst) is None,
        preferred(Transport::Udp, Strategy::UdpLast) is None,
        deferred(Transport::Udp, Strategy::UdpLast) == Some(Transport::Udp),
        preferred(Transport::Udp, Strategy::NoUdp) is None && deferred(Transport::Udp, Strategy::NoUdp) is None,
        preferred(Transport::Tcp, Strategy::UdpFirst) is None,
        deferred(Transport::Tcp, Strategy::UdpFirst) == Some(Transport::Tcp),
        preferred(Transport::Tcp, Strategy::UdpLast) == Some(Transport::Tcp),
        deferred(Transport::Tcp, Strategy::UdpLast) is None,
        preferred(Transport::Tcp, Strategy::NoUdp) is None,
        deferred(Transport::Tcp, Strategy::NoUdp) == Some(Transport::Tcp),
        preferred(Transport::Https, s) is None && deferred(Transport::Https, s) is None,
{
}

/// Whether a server is tried, and by what: as its transport and the way that
/// was chosen say, but never a local socket by UDP.
pub open spec fn tried(e: ServerEntryV, s: Strategy, later: bool, t: Transport) -> bool {
    (if later { deferred(e.transport, s) } else { preferred(e.transport, s) }) == Some(t) && !(begins(e.hostname, '/') && t
        == Transport::Udp)
}

/// The servers are tried in their order, each once at the most, and each that
/// can be is.
pub proof fn law_targets(servers: Seq<ServerEntryV>, s: Strategy, later: bool)
    requires
        servers.len() <= usize::MAX,
    ensures
        ({
            let ts = targets_spec(servers, s, later);
            &&& forall|k: int|
                0 <= k < ts.len() ==> (#[trigger] ts[k]).server_index < servers.len() && tried(
                    servers[ts[k].server_index as int],
                    s,
                    later,
                    ts[k].transport,
                )
            &&& forall|j: int, k: int|
                0 <= j < k < ts.len() ==> (#[trigger] ts[j]).server_index < (#[trigger] ts[k]).server_index
            &&& forall|i: int, t: Transport|
                0 <= i < servers.len() && #[trigger] tried(servers[i], s, later, t) ==> ts.contains(
                    Target { server_index: i as usize, transport: t },
                )
        }),
    decreases servers.len(),
{
    if servers.len() > 0 {
        let before = servers.drop_last();
        law_targets(before, s, later);
        let old_ts = targets_spec(before, s, later);
        let ts = targets_spec(servers, s, later);
        let e = servers.last();
        let n = servers.len() - 1;
        assert forall|k: int| 0 <= k < ts.len() implies (#[trigger] ts[k]).server_index < servers.len() && tried(
            servers[ts[k].server_index as int],
            s,
            later,
            ts[k].transport,
        ) by {
            if k < old_ts.len() {
                assert(ts[k] == old_ts[k]);
                assert(before[old_ts[k].server_index as int] == servers[old_ts[k].server_index as int]);
            }
        }
        assert forall|j: int, k: int| 0 <= j < k < ts.len() implies (#[trigger] ts[j]).server_index < (#[trigger] ts[k]).server_index by {
            assert(ts[j] == old_ts[j]);
            if k < old_ts.len() {
                assert(ts[k] == old_ts[k]);
            }
        }
        assert forall|i: int, t: Transport| 0 <= i < servers.len() && #[trigger] tried(servers[i], s, later, t) implies ts.contains(
            Target { server_index: i as usize, transport: t },
        ) by {
            let x = Target { server_index: i as usize, transport: t };
            if i < n {
                assert(before[i] == servers[i]);
                assert(old_ts.contains(x));
                let k = choose|k: int| 0 <= k < old_ts.len() && old_ts[k] == x;
                assert(ts[k] == x);
            } else {
                assert(ts.last() == x);
                assert(ts[ts.len() - 1] == x);
            }
        }
    }
}

/// A reply says that the service is unavailable where it is a KRB-ERROR of code
/// 29, and that it is too big for UDP where it is one of code 52.
pub proof fn law_reply_kinds(data: Seq<u8>)
    ensures
        unavailable_spec(data) <==> (<KrbErrorMsg as Asn1>::parse(data) matches Some(e) && e.msg_type == 30 && e.error_code == 29),
        too_big_spec(data) <==> (<KrbErrorMsg as Asn1>::parse(data) matches Some(e) && e.msg_type == 30 && e.error_code == 52),
{
}

/// By TCP a message goes behind its length in four octets, the most
/// significant first; a reply of no octets, or of more than a mebibyte, is not
/// read.
pub proof fn law_length_before(m: Seq<u8>, h: Seq<u8>)
    requires
        m.len() < 0x1_0000_0000,
        h.len() >= 4,
    ensures
        ({
            let f = frame_spec(m);
            let n = h[0] * 0x100_0000 + h[1] * 0x1_0000 + h[2] * 0x100 + h[3];
            &&& f.len() == 4 + m.len()
            &&& f[0] * 0x100_0000 + f[1] * 0x1_0000 + f[2] * 0x100 + f[3] == m.len()
            &&& f.skip(4) == m
            &&& reply_len_spec(h) == (if 0 < n <= 1_048_576 { Some(n) } else { None::<int> })
        }),
{
    assert(frame_spec(m).skip(4) =~= m);
}

/// The times of an attempt: a second for each server, two more after the last,
/// then passes with waits that begin at four seconds, three in all. They are
/// not set by the profile, which sets the UDP limit and, where it is a span
/// above zero, the time for the whole request.
pub proof fn law_times_of_attempts(nodes: Seq<NodeV>)
    ensures
        ({
            let c = profile_config(nodes);
            let limit = first_spec(nodes, seq!["libdefaults"@, "udp_preference_limit"@]);
            let whole = first_spec(nodes, seq!["libdefaults"@, "request_timeout"@]);
            &&& c.timing.per_server == (Duration { secs: 1, nanos: 0 })
            &&& c.timing.first_pass_tail == (Duration { secs: 2, nanos: 0 })
            &&& c.timing.initial_backoff == (Duration { secs: 4, nanos: 0 })
            &&& c.timing.max_pass == 3
            &&& limit is None ==> c.udp_preference_limit == 1465
            &&& limit is Some ==> c.udp_preference_limit == pref_limit_spec(integer_spec(trim_start(limit->0)))
            &&& whole is None ==> c.request_timeout is None
            &&& whole is Some && deltat_spec(whole->0) is Ok && deltat_spec(whole->0)->Ok_0 > 0 ==> c.request_timeout == Some(
                Duration { secs: deltat_spec(whole->0)->Ok_0 as u64, nanos: 0 },
            )
            &&& whole is Some && !(deltat_spec(whole->0) is Ok && deltat_spec(whole->0)->Ok_0 > 0) ==> c.request_timeout is None
        }),
{
}

/// In the first pass the targets are started one by one from the first on; one
/// that was started is live, one that could not be is not.
pub proof fn law_first_pass(targets: Seq<Target>, timing: crate::transport::sendto::SendtoTiming, v: SendingV, ev: SendEventV, left: Option<Duration>)
    requires
        v.targets.len() <= usize::MAX,
    ensures
        targets.len() > 0 ==> send_step_spec(fresh_sending(targets, timing), ev, left).1 == (SendActionV::Start { id: 0 }),
        v.next < v.targets.len() ==> started(v, true).next == v.next + 1 && started(v, true).live == v.live.push(
            LiveConn { id: v.next, transport: v.targets[v.next as int].transport, established: false },
        ),
        v.next < v.targets.len() ==> started(v, false).next == v.next + 1 && started(v, false).live == v.live,
{
}

/// While it waits, an attempt that gets a reply found acceptable is done with
/// it, from the server that it was sent to; one that was found wanting only
/// loses that connection.
pub proof fn law_reply_taken(v: SendingV, id: usize, data: Seq<u8>, left: Option<Duration>)
    requires
        v.phase == Phase::Started || v.phase == Phase::Tail || v.phase == Phase::Resent || v.phase == Phase::Backoff,
        id < v.targets.len(),
    ensures
        send_step_spec(v, SendEventV::Reply { id, data, acceptable: true }, left).1 == SendActionV::Done(
            Ok(
                KdcReplyV {
                    data,
                    server_index: v.targets[id as int].server_index,
                    transport: v.targets[id as int].transport,
                },
            ),
        ),
        send_step_spec(v, SendEventV::Reply { id, data, acceptable: true }, left).0.last_reply == Some(
            (v.targets[id as int].server_index, v.targets[id as int].transport),
        ),
{
}

/// A wait lasts as long as its phase says or as is left, whichever is less;
/// with a TCP connection open it lasts as long as is left.
pub proof fn law_waits(v: SendingV, tcp: bool, dur: Duration, left: Duration)
    ensures
        limit_spec(false, dur, None) == Some(dur),
        limit_spec(true, dur, None) is None,
        limit_spec(true, dur, Some(left)) == Some(left),
        left.total() < dur.total() ==> limit_spec(false, dur, Some(left)) == Some(left),
        left.total() >= dur.total() ==> limit_spec(false, dur, Some(left)) == Some(dur),
        v.phase == Phase::Tail ==> phase_wait(v) == v.timing.first_pass_tail,
        v.phase == Phase::Backoff ==> phase_wait(v) == v.backoff,
        v.phase != Phase::Tail && v.phase != Phase::Backoff ==> phase_wait(v) == v.timing.per_server,
        second_pass(v).pass == 2 && second_pass(v).backoff == v.timing.initial_backoff && second_pass(v).cursor == 0,
        v.pass < u64::MAX ==> next_pass(v).pass == v.pass + 1,
        v.backoff.secs < 0x4000_0000_0000_0000 ==> next_pass(v).backoff.total() == 2 * v.backoff.total(),
{
    let b = v.backoff;
    let n = 2 * b.nanos;
    assert(n == n / 1_000_000_000 * 1_000_000_000 + n % 1_000_000_000) by (nonlinear_arith);
}

/// To a KDC, a reply is acceptable exactly where it does not say that the
/// service is unavailable; an attempt that saw such a reply and reached no
/// other KDC says so.
pub proof fn law_unavailable_told(v: SendtoKdcV, id: usize, data: Seq<u8>, any: bool, left: Option<Duration>)
    ensures
        judged(SendEventV::Reply { id, data, acceptable: any }) == (SendEventV::Reply {
            id,
            data,
            acceptable: !unavailable_spec(data),
        }),
        send_step_spec(v.sending, SendEventV::Elapsed, left).1 == SendActionV::Done(Err(SendtoError::KdcUnreach)) ==> kdc_step_spec(
            v,
            SendEventV::Elapsed,
            left,
        ).1 == SendActionV::Done(Err(if v.saw_unavailable { SendtoError::SvcUnavailable } else { SendtoError::KdcUnreach })),
        kdc_step_spec(v, SendEventV::Elapsed, left).0.saw_unavailable == v.saw_unavailable,
{
}

/// A KDC counts as a primary one where it is listed by host and port, or where
/// no primaries are known; the servers of a realm and a transport are marked so
/// and the others left as they are.
pub proof fn law_primaries(e: ServerEntryV, ps: Seq<ServerEntryV>, kdcs: Seq<(Seq<char>, ServerEntryV)>, realm: Seq<char>, t: Transport, i: int)
    requires
        0 <= i < kdcs.len(),
    ensures
        on_list(e, ps) <==> exists|j: int| 0 <= j < ps.len() && (#[trigger] ps[j]).hostname == e.hostname && ps[j].port == e.port,
        counts_primary(e, ps) <==> ps.len() == 0 || on_list(e, ps),
        ({
            let (r, x) = kdcs[i];
            let (q, y) = marked_kdcs(kdcs, realm, t, ps)[i];
            &&& q == r
            &&& y.hostname == x.hostname && y.port == x.port && y.transport == x.transport && y.uri_path == x.uri_path
            &&& r == realm && x.transport == t ==> y.primary == Some(counts_primary(x, ps))
            &&& r != realm || x.transport != t ==> y.primary == x.primary
        }),
{
}

/// The first connection of a number is the one that is lost, or that is
/// established; the others stay as they are, and a number that none has
/// changes nothing.
pub proof fn law_connections(a: Seq<LiveConn>, c: LiveConn, b: Seq<LiveConn>, id: usize)
    requires
        forall|i: int| 0 <= i < a.len() ==> (#[trigger] a[i]).id != id,
        c.id == id,
    ensures
        killed(a + seq![c] + b, id) == a + b,
        killed(a, id) == a,
        marked(a + seq![c] + b, id) == a + seq![LiveConn { id, transport: c.transport, established: true }] + b,
        marked(a, id) == a,
    decreases a.len(),
{
    let s = a + seq![c] + b;
    if a.len() == 0 {
        assert(s[0] == c);
        assert(s.drop_first() =~= b);
        assert(a + b =~= b);
        assert(a + seq![LiveConn { id, transport: c.transport, established: true }] + b =~= seq![
            LiveConn { established: true, ..c },
        ] + b);
    } else {
        let t = a.drop_first();
        assert(s[0] == a[0]);
        assert(s.drop_first() =~= t + seq![c] + b);
        assert forall|i: int| 0 <= i < t.len() implies (#[trigger] t[i]).id != id by {
            assert(t[i] == a[i + 1]);
        }
        law_connections(t, c, b, id);
        assert(seq![a[0]] + (t + b) =~= a + b);
        assert(seq![a[0]] + t =~= a);
        let m = seq![LiveConn { id, transport: c.transport, established: true }];
        assert(seq![a[0]] + (t + m + b) =~= a + m + b);
    }
}

/// What is sent again next is the first connection by UDP whose number is not
/// behind the cursor.
pub proof fn law_sent_again(live: Seq<LiveConn>, from: usize)
    ensures
        next_udp(live, from) matches Some(id) ==> exists|i: int|
            {
                &&& 0 <= i < live.len()
                &&& (#[trigger] live[i]).id == id
                &&& id >= from
                &&& live[i].transport == Transport::Udp
                &&& forall|j: int| 0 <= j < i ==> (#[trigger] live[j]).transport != Transport::Udp || live[j].id < from
            },
        next_udp(live, from) is None ==> forall|j: int|
            0 <= j < live.len() ==> (#[trigger] live[j]).transport != Transport::Udp || live[j].id < from,
    decreases live.len(),
{
    if live.len() > 0 && !(live[0].transport == Transport::Udp && live[0].id >= from) {
        let rest = live.drop_first();
        law_sent_again(rest, from);
        assert forall|j: int| 0 < j < live.len() implies live[j] == rest[j - 1] by {}
        if next_udp(rest, from) is Some {
            let id = next_udp(rest, from)->0;
            let i = choose|i: int|
                {
                    &&& 0 <= i < rest.len()
                    &&& (#[trigger] rest[i]).id == id
                    &&& id >= from
                    &&& rest[i].transport == Transport::Udp
                    &&& forall|j: int| 0 <= j < i ==> (#[trigger] rest[j]).transport != Transport::Udp || rest[j].id < from
                };
            assert(live[i + 1].id == id);
            assert forall|j: int| 0 <= j < i + 1 implies (#[trigger] live[j]).transport != Transport::Udp || live[j].id < from by {
                if j > 0 {
                    assert(live[j] == rest[j - 1]);
                }
            }
        } else {
            assert forall|j: int| 0 <= j < live.len() implies (#[trigger] live[j]).transport != Transport::Udp || live[j].id < from by {
                if j > 0 {
                    assert(live[j] == rest[j - 1]);
                }
            }
        }
    }
}

/// When a wait is over the next target is begun; after the last of them the
/// message is sent again to those that it went to by UDP, at most up to the
/// last pass; with no connection left, or after that pass, nothing was
/// reached.
pub proof fn law_wait_over(v: SendingV, left: Option<Duration>, id: usize)
    ensures
        ({
            let (w, a) = send_step_spec(v, SendEventV::Elapsed, left);
            let unreached = SendActionV::Done(Err(SendtoError::KdcUnreach));
            &&& v.phase == Phase::Started && v.next < v.targets.len() ==> a == (SendActionV::Start { id: v.next }) && w.live == v.live
            &&& v.phase == Phase::Tail && v.live.len() == 0 ==> a == unreached
            &&& v.phase == Phase::Tail && v.live.len() > 0 && v.timing.max_pass >= 2 && next_udp(v.live, 0) == Some(id) ==> a == (
            SendActionV::Resend { id }) && w.pass == 2
            &&& v.phase == Phase::Backoff && v.live.len() == 0 ==> a == unreached
            &&& v.phase == Phase::Backoff && v.timing.max_pass <= v.pass < u64::MAX ==> a == unreached
            &&& v.phase == Phase::Backoff && v.live.len() > 0 && v.pass < v.timing.max_pass && next_udp(v.live, 0) == Some(id) ==> a == (
            SendActionV::Resend { id }) && w.pass == v.pass + 1
            &&& v.phase == Phase::Finished ==> a == unreached
        }),
{
}

/// A connection that is lost while others are waited for is waited for no
/// longer; one that is established is waited for still.
pub proof fn law_connection_events(v: SendingV, id: usize, left: Option<Duration>)
    requires
        v.phase == Phase::Started || v.phase == Phase::Tail || v.phase == Phase::Resent || v.phase == Phase::Backoff,
    ensures
        send_step_spec(v, SendEventV::Dead { id }, left) == send_step_spec(
            SendingV { live: killed(v.live, id), ..v },
            SendEventV::Sent,
            left,
        ),
        send_step_spec(v, SendEventV::Established { id }, left) == send_step_spec(
            SendingV { live: marked(v.live, id), ..v },
            SendEventV::Sent,
            left,
        ),
        ({
            let (w, a) = send_step_spec(v, SendEventV::Sent, left);
            a is Wait ==> w.live == v.live && w.targets == v.targets
        }),
{
    lemma_pass_keeps(second_pass(v), left, true);
    lemma_pass_keeps(v, left, false);
    lemma_pass_keeps(next_pass(v), left, true);
}

proof fn lemma_pass_keeps(v: SendingV, left: Option<Duration>, fresh: bool)
    ensures
        pass_spec(v, left, fresh).0.live == v.live,
        pass_spec(v, left, fresh).0.targets == v.targets,
    decreases v.timing.max_pass + 2 - v.pass,
{
    if !((fresh && v.live.len() == 0) || v.pass > v.timing.max_pass) && next_udp(v.live, v.cursor) is None {
        if v.pass < u64::MAX {
            lemma_pass_keeps(next_pass(v), left, true);
        }
    }
}

} // verus!
