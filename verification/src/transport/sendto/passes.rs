//! Pass structure and timing.
//!
//! - pass 1: the connections that are not deferred are contacted in order,
//!   with a per-server wait after each, then each deferred connection with a
//!   per-server wait after each, then comes a tail wait.
//! - passes 2..=max_pass: retransmit every live UDP connection with a
//!   per-server wait after each, then an exponentially growing backoff.
//!
//! While any TCP connection is established the waits are unbounded; only the
//! request's deadline bounds the whole request.
//!
//! [`Sending`] decides what to do next; its caller does it, and hands back
//! what came of it.
use vstd::prelude::*;

use crate::locate::Transport;
use crate::time::Duration;
use crate::transport::sendto::{svc_unavailable, unavailable_spec, KdcReply, KdcReplyV, SendtoError, SendtoTiming, Target};

verus! {

/// A started connection.
#[derive(Debug, Clone, Copy, PartialEq, Eq, Structural)]
pub struct LiveConn {
    /// Index of its target.
    pub id: usize,
    /// Actual transport.
    pub transport: Transport,
    /// TCP connection that has connected and written the request.
    pub established: bool,
}

/// Where a request stands.
#[derive(Debug, Clone, Copy, PartialEq, Eq, Structural)]
pub enum Phase {
    /// Nothing was done yet.
    Fresh,
    /// The next target is being contacted.
    Starting,
    /// Waiting after a target was contacted.
    Started,
    /// Waiting at the end of the first pass.
    Tail,
    /// A connection is being sent to again.
    Resending,
    /// Waiting after a connection was sent to again.
    Resent,
    /// Waiting at the end of a later pass.
    Backoff,
    /// The request is over.
    Finished,
}

/// What to do next.
#[derive(Debug)]
pub enum SendAction {
    /// Contact the target with this index: connect, and over UDP send the
    /// request.
    Start {
        /// Index of the target.
        id: usize,
    },
    /// Send the request again over the UDP connection of this target.
    Resend {
        /// Index of the target.
        id: usize,
    },
    /// Wait for an event, for this long at most; forever if there is no
    /// limit.
    Wait {
        /// How long.
        limit: Option<Duration>,
    },
    /// The request is over.
    Done(Result<KdcReply, SendtoError>),
}

/// Model of [`SendAction`].
pub enum SendActionV {
    Start { id: usize },
    Resend { id: usize },
    Wait { limit: Option<Duration> },
    Done(Result<KdcReplyV, SendtoError>),
}

impl View for SendAction {
    type V = SendActionV;

    open spec fn view(&self) -> SendActionV {
        match self {
            SendAction::Start { id } => SendActionV::Start { id: *id },
            SendAction::Resend { id } => SendActionV::Resend { id: *id },
            SendAction::Wait { limit } => SendActionV::Wait { limit: *limit },
            SendAction::Done(Ok(r)) => SendActionV::Done(Ok(r@)),
            SendAction::Done(Err(e)) => SendActionV::Done(Err(*e)),
        }
    }
}

/// What came of an action.
#[derive(Debug)]
pub enum SendEvent {
    /// The request starts.
    Begin,
    /// A target was contacted, or the request was sent again.
    Sent,
    /// The request could not be sent.
    SendFailed,
    /// The wait is over.
    Elapsed,
    /// A reply arrived.
    Reply {
        /// Index of the target.
        id: usize,
        /// The reply.
        data: Vec<u8>,
        /// Whether the reply is acceptable.
        acceptable: bool,
    },
    /// The connection died and must not be retried.
    Dead {
        /// Index of the target.
        id: usize,
    },
    /// A TCP connection has connected and written the request.
    Established {
        /// Index of the target.
        id: usize,
    },
}

/// Model of [`SendEvent`].
pub enum SendEventV {
    Begin,
    Sent,
    SendFailed,
    Elapsed,
    Reply { id: usize, data: Seq<u8>, acceptable: bool },
    Dead { id: usize },
    Established { id: usize },
}

impl View for SendEvent {
    type V = SendEventV;

    open spec fn view(&self) -> SendEventV {
        match self {
            SendEvent::Begin => SendEventV::Begin,
            SendEvent::Sent => SendEventV::Sent,
            SendEvent::SendFailed => SendEventV::SendFailed,
            SendEvent::Elapsed => SendEventV::Elapsed,
            SendEvent::Reply { id, data, acceptable } => SendEventV::Reply {
                id: *id,
                data: data@,
                acceptable: *acceptable,
            },
            SendEvent::Dead { id } => SendEventV::Dead { id: *id },
            SendEvent::Established { id } => SendEventV::Established { id: *id },
        }
    }
}

/// A request on its way to a list of targets.
pub struct Sending {
    /// The targets, in the order in which they are contacted.
    pub targets: Vec<Target>,
    /// Timing.
    pub timing: SendtoTiming,
    /// Where the request stands.
    pub phase: Phase,
    /// Index of the next target to contact.
    pub next: usize,
    /// The live connections, in the order in which they were started.
    pub live: Vec<LiveConn>,
    /// The current pass.
    pub pass: u64,
    /// Connections of lower index were sent to in this pass.
    pub cursor: usize,
    /// The wait at the end of the current pass.
    pub backoff: Duration,
    /// Server and transport of the most recent reply, accepted or not.
    pub last_reply: Option<(usize, Transport)>,
}

/// Model of [`Sending`].
pub struct SendingV {
    pub targets: Seq<Target>,
    pub timing: SendtoTiming,
    pub phase: Phase,
    pub next: usize,
    pub live: Seq<LiveConn>,
    pub pass: u64,
    pub cursor: usize,
    pub backoff: Duration,
    pub last_reply: Option<(usize, Transport)>,
}

impl View for Sending {
    type V = SendingV;

    open spec fn view(&self) -> SendingV {
        SendingV {
            targets: self.targets@,
            timing: self.timing,
            phase: self.phase,
            next: self.next,
            live: self.live@,
            pass: self.pass,
            cursor: self.cursor,
            backoff: self.backoff,
            last_reply: self.last_reply,
        }
    }
}

/// A request before anything was done.
pub open spec fn fresh_sending(targets: Seq<Target>, timing: SendtoTiming) -> SendingV {
    SendingV {
        targets,
        timing,
        phase: Phase::Fresh,
        next: 0,
        live: Seq::empty(),
        pass: 1,
        cursor: 0,
        backoff: timing.initial_backoff,
        last_reply: None,
    }
}

/// Whether a TCP connection is established.
pub open spec fn any_tcp(live: Seq<LiveConn>) -> bool {
    exists|i: int| 0 <= i < live.len() && (#[trigger] live[i]).transport == Transport::Tcp && live[i].established
}

/// How long a wait of a given length lasts at most, with this much time left
/// until the deadline.
pub open spec fn limit_spec(tcp: bool, dur: Duration, left: Option<Duration>) -> Option<Duration> {
    match (tcp, left) {
        (false, Some(d)) => Some(dur.shorter(d)),
        (false, None) => Some(dur),
        (true, Some(d)) => Some(d),
        (true, None) => None,
    }
}

/// Whether a wait is over before it began.
pub open spec fn no_wait(limit: Option<Duration>) -> bool {
    limit is Some && limit->0.total() == 0
}

/// The live connections without one.
pub open spec fn killed(live: Seq<LiveConn>, id: usize) -> Seq<LiveConn>
    decreases live.len(),
{
    if live.len() == 0 {
        live
    } else if live[0].id == id {
        live.drop_first()
    } else {
        seq![live[0]] + killed(live.drop_first(), id)
    }
}

/// The live connections with one of them established.
pub open spec fn marked(live: Seq<LiveConn>, id: usize) -> Seq<LiveConn>
    decreases live.len(),
{
    if live.len() == 0 {
        live
    } else if live[0].id == id {
        seq![LiveConn { established: true, ..live[0] }] + live.drop_first()
    } else {
        seq![live[0]] + marked(live.drop_first(), id)
    }
}

/// The first live UDP connection of a given index or a higher one.
pub open spec fn next_udp(live: Seq<LiveConn>, from: usize) -> Option<usize>
    decreases live.len(),
{
    if live.len() == 0 {
        None
    } else if live[0].transport == Transport::Udp && live[0].id >= from {
        Some(live[0].id)
    } else {
        next_udp(live.drop_first(), from)
    }
}

/// The end of a request that no reply came to.
pub open spec fn gave_up(v: SendingV) -> (SendingV, SendActionV) {
    (SendingV { phase: Phase::Finished, ..v }, SendActionV::Done(Err(SendtoError::KdcUnreach)))
}

/// A request at the start of its next pass.
pub open spec fn next_pass(v: SendingV) -> SendingV {
    SendingV { pass: if v.pass < u64::MAX { (v.pass + 1) as u64 } else { v.pass }, cursor: 0, backoff: v.backoff.twice(), ..v }
}

/// What to do in a later pass: send to the next live UDP connection, or wait
/// at the end of the pass. A pass that is `fresh` begins only within the
/// number of passes and while a connection is live.
pub open spec fn pass_spec(v: SendingV, left: Option<Duration>, fresh: bool) -> (SendingV, SendActionV)
    decreases v.timing.max_pass + 2 - v.pass,
{
    if (fresh && v.live.len() == 0) || v.pass > v.timing.max_pass {
        gave_up(v)
    } else {
        match next_udp(v.live, v.cursor) {
            Some(id) => (
                SendingV { phase: Phase::Resending, cursor: id, ..v },
                SendActionV::Resend { id },
            ),
            None => {
                let limit = limit_spec(any_tcp(v.live), v.backoff, left);
                if no_wait(limit) {
                    pass_spec(next_pass(v), left, true)
                } else {
                    (SendingV { phase: Phase::Backoff, ..v }, SendActionV::Wait { limit })
                }
            },
        }
    }
}

/// A request at the start of the second pass.
pub open spec fn second_pass(v: SendingV) -> SendingV {
    SendingV { pass: 2, cursor: 0, backoff: v.timing.initial_backoff, ..v }
}

/// What to do at the end of the first pass.
pub open spec fn tail_spec(v: SendingV, left: Option<Duration>) -> (SendingV, SendActionV) {
    let limit = limit_spec(any_tcp(v.live), v.timing.first_pass_tail, left);
    if no_wait(limit) {
        pass_spec(second_pass(v), left, true)
    } else {
        (SendingV { phase: Phase::Tail, ..v }, SendActionV::Wait { limit })
    }
}

/// What to do in the first pass: contact the next target, or wait at the end
/// of the pass.
pub open spec fn first_pass_spec(v: SendingV, left: Option<Duration>) -> (SendingV, SendActionV) {
    if v.next < v.targets.len() {
        (SendingV { phase: Phase::Starting, ..v }, SendActionV::Start { id: v.next })
    } else {
        tail_spec(v, left)
    }
}

/// What to do when a wait is over.
pub open spec fn close_spec(v: SendingV, left: Option<Duration>) -> (SendingV, SendActionV) {
    match v.phase {
        Phase::Started => first_pass_spec(v, left),
        Phase::Tail => pass_spec(second_pass(v), left, true),
        Phase::Resent => pass_spec(v, left, false),
        Phase::Backoff => pass_spec(next_pass(v), left, true),
        _ => gave_up(v),
    }
}

/// How long the wait of a phase is.
pub open spec fn phase_wait(v: SendingV) -> Duration {
    match v.phase {
        Phase::Tail => v.timing.first_pass_tail,
        Phase::Backoff => v.backoff,
        _ => v.timing.per_server,
    }
}

/// What to do in a phase of waiting.
pub open spec fn open_spec(v: SendingV, left: Option<Duration>) -> (SendingV, SendActionV) {
    let limit = limit_spec(any_tcp(v.live), phase_wait(v), left);
    if no_wait(limit) {
        close_spec(v, left)
    } else {
        (v, SendActionV::Wait { limit })
    }
}

/// A request whose next target was contacted.
pub open spec fn started(v: SendingV, ok: bool) -> SendingV {
    if v.next < v.targets.len() {
        SendingV {
            phase: Phase::Started,
            next: (v.next + 1) as usize,
            live: if ok {
                v.live.push(
                    LiveConn { id: v.next, transport: v.targets[v.next as int].transport, established: false },
                )
            } else {
                v.live
            },
            ..v
        }
    } else {
        SendingV { phase: Phase::Started, ..v }
    }
}

/// A request that goes on behind the connection it was at.
pub open spec fn past_cursor(v: SendingV) -> SendingV {
    SendingV { cursor: if v.cursor < usize::MAX { (v.cursor + 1) as usize } else { v.cursor }, ..v }
}

/// What an event during a wait does, and what to do next.
pub open spec fn wait_event_spec(v: SendingV, ev: SendEventV, left: Option<Duration>) -> (SendingV, SendActionV) {
    match ev {
        SendEventV::Elapsed => close_spec(v, left),
        SendEventV::Dead { id } => open_spec(SendingV { live: killed(v.live, id), ..v }, left),
        SendEventV::Established { id } => open_spec(SendingV { live: marked(v.live, id), ..v }, left),
        SendEventV::Reply { id, data, acceptable } => if id >= v.targets.len() {
            open_spec(v, left)
        } else {
            let t = v.targets[id as int];
            let w = SendingV { last_reply: Some((t.server_index, t.transport)), ..v };
            if acceptable {
                (
                    SendingV { phase: Phase::Finished, ..w },
                    SendActionV::Done(
                        Ok(KdcReplyV { data, server_index: t.server_index, transport: t.transport }),
                    ),
                )
            } else {
                open_spec(SendingV { live: killed(v.live, id), ..w }, left)
            }
        },
        _ => open_spec(v, left),
    }
}

/// What an event does to a request, and what to do next, with this much time
/// left until the deadline. An event that does not fit where the request
/// stands changes nothing.
pub open spec fn send_step_spec(v: SendingV, ev: SendEventV, left: Option<Duration>) -> (SendingV, SendActionV) {
    match v.phase {
        Phase::Fresh => first_pass_spec(v, left),
        Phase::Starting => match ev {
            SendEventV::Sent => open_spec(started(v, true), left),
            SendEventV::SendFailed => open_spec(started(v, false), left),
            _ => (v, SendActionV::Start { id: v.next }),
        },
        Phase::Resending => match ev {
            SendEventV::Sent => open_spec(past_cursor(SendingV { phase: Phase::Resent, ..v }), left),
            // A failed retransmit kills the connection; no wait follows.
            SendEventV::SendFailed => pass_spec(
                past_cursor(SendingV { live: killed(v.live, v.cursor), ..v }),
                left,
                false,
            ),
            _ => (v, SendActionV::Resend { id: v.cursor }),
        },
        Phase::Finished => gave_up(v),
        _ => wait_event_spec(v, ev, left),
    }
}

fn has_tcp(live: &Vec<LiveConn>) -> (r: bool)
    ensures
        r == any_tcp(live@),
{
    let mut i: usize = 0;
    while i < live.len()
        invariant
            i <= live@.len(),
            forall|j: int| 0 <= j < i ==> !((#[trigger] live@[j]).transport == Transport::Tcp && live@[j].established),
        decreases live@.len() - i,
    {
        if live[i].transport == Transport::Tcp && live[i].established {
            return true;
        }
        i = i + 1;
    }
    false
}

fn find_udp(live: &Vec<LiveConn>, from: usize) -> (r: Option<usize>)
    ensures
        r == next_udp(live@, from),
{
    let mut i: usize = 0;
    assert(live@.skip(0) =~= live@);
    while i < live.len()
        invariant
            i <= live@.len(),
            next_udp(live@, from) == next_udp(live@.skip(i as int), from),
        decreases live@.len() - i,
    {
        assert(live@.skip(i as int).drop_first() =~= live@.skip(i + 1));
        assert(live@.skip(i as int)[0] == live@[i as int]);
        if live[i].transport == Transport::Udp && live[i].id >= from {
            return Some(live[i].id);
        }
        i = i + 1;
    }
    None
}

fn kill(live: &mut Vec<LiveConn>, id: usize)
    ensures
        final(live)@ == killed(old(live)@, id),
{
    let ghost all = live@;
    let mut i: usize = 0;
    assert(all.skip(0) =~= all);
    assert(all.take(0) + killed(all, id) =~= killed(all, id));
    while i < live.len()
        invariant
            i <= live@.len(),
            live@ == all,
            all == old(live)@,
            killed(all, id) == all.take(i as int) + killed(all.skip(i as int), id),
        decreases live@.len() - i,
    {
        proof {
            assert(all.skip(i as int).drop_first() =~= all.skip(i + 1));
            assert(all.skip(i as int)[0] == all[i as int]);
        }
        if live[i].id == id {
            live.remove(i);
            assert(live@ =~= all.take(i as int) + all.skip(i + 1));
            return;
        }
        assert(all.take(i as int) + (seq![all[i as int]] + killed(all.skip(i + 1), id)) =~= all.take(i + 1) + killed(
            all.skip(i + 1),
            id,
        ));
        i = i + 1;
    }
    assert(all.take(i as int) + all.skip(i as int) =~= all);
}

fn mark_established(live: &mut Vec<LiveConn>, id: usize)
    ensures
        final(live)@ == marked(old(live)@, id),
{
    let ghost all = live@;
    let mut i: usize = 0;
    assert(all.skip(0) =~= all);
    assert(all.take(0) + marked(all, id) =~= marked(all, id));
    while i < live.len()
        invariant
            i <= live@.len(),
            live@ == all,
            all == old(live)@,
            marked(all, id) == all.take(i as int) + marked(all.skip(i as int), id),
        decreases live@.len() - i,
    {
        proof {
            assert(all.skip(i as int).drop_first() =~= all.skip(i + 1));
            assert(all.skip(i as int)[0] == all[i as int]);
        }
        let c = live[i];
        if c.id == id {
            let m = LiveConn { id: c.id, transport: c.transport, established: true };
            live.set(i, m);
            assert(live@ =~= all.take(i as int) + (seq![m] + all.skip(i + 1)));
            return;
        }
        assert(all.take(i as int) + (seq![all[i as int]] + marked(all.skip(i + 1), id)) =~= all.take(i + 1) + marked(
            all.skip(i + 1),
            id,
        ));
        i = i + 1;
    }
    assert(all.take(i as int) + all.skip(i as int) =~= all);
}

fn is_over(limit: &Option<Duration>) -> (r: bool)
    ensures
        r == no_wait(*limit),
{
    match limit {
        Some(d) => d.is_zero(),
        None => false,
    }
}

impl Sending {
    /// A request to a list of targets, in the order in which they are to be
    /// contacted: those that are deferred come last.
    pub fn new(targets: Vec<Target>, timing: SendtoTiming) -> (r: Sending)
        ensures
            r@ == fresh_sending(targets@, timing),
    {
        let backoff = timing.initial_backoff;
        let live: Vec<LiveConn> = Vec::new();
        assert(live@ =~= Seq::empty());
        Sending {
            targets,
            timing,
            phase: Phase::Fresh,
            next: 0,
            live,
            pass: 1,
            cursor: 0,
            backoff,
            last_reply: None,
        }
    }

    fn limit(&self, dur: Duration, left: Option<Duration>) -> (r: Option<Duration>)
        ensures
            r == limit_spec(any_tcp(self@.live), dur, left),
    {
        let tcp = has_tcp(&self.live);
        match left {
            Some(d) => if tcp {
                Some(d)
            } else {
                Some(dur.min_with(&d))
            },
            None => if tcp {
                None
            } else {
                Some(dur)
            },
        }
    }

    fn gave_up(&mut self) -> (r: SendAction)
        ensures
            (final(self)@, r@) == gave_up(old(self)@),
    {
        self.phase = Phase::Finished;
        SendAction::Done(Err(SendtoError::KdcUnreach))
    }

    fn go_to_next_pass(&mut self)
        ensures
            final(self)@ == next_pass(old(self)@),
    {
        if self.pass < u64::MAX {
            self.pass = self.pass + 1;
        }
        self.cursor = 0;
        self.backoff = self.backoff.doubled();
    }

    fn later_pass(&mut self, left: Option<Duration>, fresh: bool) -> (r: SendAction)
        ensures
            (final(self)@, r@) == pass_spec(old(self)@, left, fresh),
    {
        let ghost start = self@;
        let mut fresh_now = fresh;
        loop
            invariant
                start == old(self)@,
                pass_spec(start, left, fresh) == pass_spec(self@, left, fresh_now),
            decreases
                    if self@.pass > self@.timing.max_pass {
                        0int
                    } else {
                        self@.timing.max_pass + 2 - self@.pass
                    },
        {
            if (fresh_now && self.live.len() == 0) || self.pass > self.timing.max_pass as u64 {
                return self.gave_up();
            }
            if let Some(id) = find_udp(&self.live, self.cursor) {
                self.phase = Phase::Resending;
                self.cursor = id;
                return SendAction::Resend { id };
            }
            let limit = self.limit(self.backoff, left);
            if !is_over(&limit) {
                self.phase = Phase::Backoff;
                return SendAction::Wait { limit };
            }
            self.go_to_next_pass();
            fresh_now = true;
        }
    }

    fn go_to_second_pass(&mut self)
        ensures
            final(self)@ == second_pass(old(self)@),
    {
        self.pass = 2;
        self.cursor = 0;
        self.backoff = self.timing.initial_backoff;
    }

    fn first_pass(&mut self, left: Option<Duration>) -> (r: SendAction)
        ensures
            (final(self)@, r@) == first_pass_spec(old(self)@, left),
    {
        if self.next < self.targets.len() {
            self.phase = Phase::Starting;
            return SendAction::Start { id: self.next };
        }
        let limit = self.limit(self.timing.first_pass_tail, left);
        if is_over(&limit) {
            self.go_to_second_pass();
            return self.later_pass(left, true);
        }
        self.phase = Phase::Tail;
        SendAction::Wait { limit }
    }

    fn close(&mut self, left: Option<Duration>) -> (r: SendAction)
        ensures
            (final(self)@, r@) == close_spec(old(self)@, left),
    {
        match self.phase {
            Phase::Started => self.first_pass(left),
            Phase::Tail => {
                self.go_to_second_pass();
                self.later_pass(left, true)
            },
            Phase::Resent => self.later_pass(left, false),
            Phase::Backoff => {
                self.go_to_next_pass();
                self.later_pass(left, true)
            },
            _ => self.gave_up(),
        }
    }

    fn open(&mut self, left: Option<Duration>) -> (r: SendAction)
        ensures
            (final(self)@, r@) == open_spec(old(self)@, left),
    {
        let dur = match self.phase {
            Phase::Tail => self.timing.first_pass_tail,
            Phase::Backoff => self.backoff,
            _ => self.timing.per_server,
        };
        let limit = self.limit(dur, left);
        if is_over(&limit) {
            return self.close(left);
        }
        SendAction::Wait { limit }
    }

    fn contacted(&mut self, ok: bool)
        ensures
            final(self)@ == started(old(self)@, ok),
    {
        self.phase = Phase::Started;
        if self.next < self.targets.len() {
            if ok {
                let id: usize = self.next;
                self.live.push(LiveConn { id, transport: self.targets[id].transport, established: false });
            }
            self.next = self.next + 1;
        }
    }

    fn wait_event(&mut self, ev: SendEvent, left: Option<Duration>) -> (r: SendAction)
        ensures
            (final(self)@, r@) == wait_event_spec(old(self)@, ev@, left),
    {
        match ev {
            SendEvent::Elapsed => self.close(left),
            SendEvent::Dead { id } => {
                kill(&mut self.live, id);
                self.open(left)
            },
            SendEvent::Established { id } => {
                mark_established(&mut self.live, id);
                self.open(left)
            },
            SendEvent::Reply { id, data, acceptable } => {
                if id >= self.targets.len() {
                    return self.open(left);
                }
                let t = self.targets[id];
                // The responding server is recorded on receipt, before the
                // reply is judged.
                self.last_reply = Some((t.server_index, t.transport));
                if acceptable {
                    self.phase = Phase::Finished;
                    return SendAction::Done(
                        Ok(KdcReply { data, server_index: t.server_index, transport: t.transport }),
                    );
                }
                kill(&mut self.live, id);
                self.open(left)
            },
            _ => self.open(left),
        }
    }

    /// Takes in what came of the last action, with this much time left until
    /// the deadline, if there is one; says what to do next.
    pub fn step(&mut self, ev: SendEvent, left: Option<Duration>) -> (r: SendAction)
        ensures
            (final(self)@, r@) == send_step_spec(old(self)@, ev@, left),
    {
        match self.phase {
            Phase::Fresh => self.first_pass(left),
            Phase::Starting => match ev {
                SendEvent::Sent => {
                    self.contacted(true);
                    self.open(left)
                },
                SendEvent::SendFailed => {
                    self.contacted(false);
                    self.open(left)
                },
                _ => SendAction::Start { id: self.next },
            },
            Phase::Resending => match ev {
                SendEvent::Sent => {
                    self.phase = Phase::Resent;
                    if self.cursor < usize::MAX {
                        self.cursor = self.cursor + 1;
                    }
                    self.open(left)
                },
                SendEvent::SendFailed => {
                    kill(&mut self.live, self.cursor);
                    if self.cursor < usize::MAX {
                        self.cursor = self.cursor + 1;
                    }
                    self.later_pass(left, false)
                },
                _ => SendAction::Resend { id: self.cursor },
            },
            Phase::Finished => self.gave_up(),
            _ => self.wait_event(ev, left),
        }
    }
}

/// A request to a list of KDC targets: a reply that says the service is
/// unavailable is rejected, so the walk continues.
pub struct SendtoKdc {
    /// The request.
    pub sending: Sending,
    /// Whether a KDC reported its service unavailable.
    pub saw_unavailable: bool,
}

/// Model of [`SendtoKdc`].
pub struct SendtoKdcV {
    pub sending: SendingV,
    pub saw_unavailable: bool,
}

impl View for SendtoKdc {
    type V = SendtoKdcV;

    open spec fn view(&self) -> SendtoKdcV {
        SendtoKdcV { sending: self.sending@, saw_unavailable: self.saw_unavailable }
    }
}

/// An event with its reply, if it holds one, judged.
pub open spec fn judged(ev: SendEventV) -> SendEventV {
    match ev {
        SendEventV::Reply { id, data, .. } => SendEventV::Reply { id, data, acceptable: !unavailable_spec(data) },
        _ => ev,
    }
}

/// Whether an event is a reply that the service is unavailable.
pub open spec fn reports_unavailable(ev: SendEventV) -> bool {
    ev matches SendEventV::Reply { data, .. } && unavailable_spec(data)
}

/// What an event does to a request to KDCs, and what to do next. If all
/// servers fail after one reported its service unavailable, that is the
/// error.
pub open spec fn kdc_step_spec(v: SendtoKdcV, ev: SendEventV, left: Option<Duration>) -> (SendtoKdcV, SendActionV) {
    let saw = v.saw_unavailable || reports_unavailable(ev);
    let (sending, action) = send_step_spec(v.sending, judged(ev), left);
    (
        SendtoKdcV { sending, saw_unavailable: saw },
        if saw && action == SendActionV::Done(Err(SendtoError::KdcUnreach)) {
            SendActionV::Done(Err(SendtoError::SvcUnavailable))
        } else {
            action
        },
    )
}

impl SendtoKdc {
    /// A request to a list of targets, in the order in which they are to be
    /// contacted.
    pub fn new(targets: Vec<Target>, timing: SendtoTiming) -> (r: SendtoKdc)
        ensures
            r@ == (SendtoKdcV { sending: fresh_sending(targets@, timing), saw_unavailable: false }),
    {
        SendtoKdc { sending: Sending::new(targets, timing), saw_unavailable: false }
    }

    /// Server and transport of the most recent reply received — also one
    /// that was rejected.
    pub fn last_reply(&self) -> (r: Option<(usize, Transport)>)
        ensures
            r == self@.sending.last_reply,
    {
        self.sending.last_reply
    }

    /// Takes in what came of the last action, with this much time left until
    /// the deadline, if there is one; says what to do next. Whether a reply
    /// is acceptable is decided here.
    pub fn step(&mut self, ev: SendEvent, left: Option<Duration>) -> (r: SendAction)
        ensures
            (final(self)@, r@) == kdc_step_spec(old(self)@, ev@, left),
    {
        let ev = match ev {
            SendEvent::Reply { id, data, .. } => {
                let bad = svc_unavailable(&data);
                if bad {
                    self.saw_unavailable = true;
                }
                SendEvent::Reply { id, data, acceptable: !bad }
            },
            other => other,
        };
        let action = self.sending.step(ev, left);
        match action {
            SendAction::Done(Err(SendtoError::KdcUnreach)) => if self.saw_unavailable {
                SendAction::Done(Err(SendtoError::SvcUnavailable))
            } else {
                SendAction::Done(Err(SendtoError::KdcUnreach))
            },
            other => other,
        }
    }
}

/// Whether the live connections are as they should be: each is one of a
/// target that was contacted, with its transport, and they stand in the order
/// in which they were started.
pub open spec fn live_ok(v: SendingV) -> bool {
    &&& v.next <= v.targets.len() <= usize::MAX
    &&& forall|i: int|
        0 <= i < v.live.len() ==> (#[trigger] v.live[i]).id < v.next && v.live[i].transport
            == v.targets[v.live[i].id as int].transport
    &&& forall|i: int, j: int| 0 <= i < j < v.live.len() ==> (#[trigger] v.live[i]).id < (#[trigger] v.live[j]).id
}

proof fn lemma_next_udp(live: Seq<LiveConn>, from: usize)
    ensures
        next_udp(live, from) matches Some(id) ==> id >= from && exists|i: int|
            0 <= i < live.len() && (#[trigger] live[i]).id == id && live[i].transport == Transport::Udp,
        next_udp(live, from) is None ==> forall|i: int|
            0 <= i < live.len() && (#[trigger] live[i]).transport == Transport::Udp ==> live[i].id < from,
    decreases live.len(),
{
    if live.len() > 0 {
        let rest = live.drop_first();
        lemma_next_udp(rest, from);
        if live[0].transport == Transport::Udp && live[0].id >= from {
            assert(live[0].id == next_udp(live, from)->0);
        } else if next_udp(rest, from) is Some {
            let i = choose|i: int|
                0 <= i < rest.len() && (#[trigger] rest[i]).id == next_udp(rest, from)->0 && rest[i].transport
                    == Transport::Udp;
            assert(live[i + 1] == rest[i]);
        } else {
            assert forall|i: int| 0 <= i < live.len() && (#[trigger] live[i]).transport == Transport::Udp implies live[i].id
                < from by {
                if i > 0 {
                    assert(live[i] == rest[i - 1]);
                }
            }
        }
    }
}

proof fn lemma_killed(live: Seq<LiveConn>, id: usize)
    requires
        forall|i: int, j: int| 0 <= i < j < live.len() ==> (#[trigger] live[i]).id < (#[trigger] live[j]).id,
    ensures
        forall|i: int|
            0 <= i < killed(live, id).len() ==> live.contains(#[trigger] killed(live, id)[i]) && killed(live, id)[i].id
                != id,
        forall|i: int, j: int|
            0 <= i < j < killed(live, id).len() ==> (#[trigger] killed(live, id)[i]).id < (#[trigger] killed(
                live,
                id,
            )[j]).id,
    decreases live.len(),
{
    if live.len() > 0 {
        let rest = live.drop_first();
        assert forall|i: int, j: int| 0 <= i < j < rest.len() implies (#[trigger] rest[i]).id < (#[trigger] rest[j]).id by {
            assert(rest[i] == live[i + 1] && rest[j] == live[j + 1]);
        }
        lemma_killed(rest, id);
        let k = killed(live, id);
        let q = killed(rest, id);
        assert forall|i: int| 0 <= i < rest.len() implies live.contains(#[trigger] rest[i]) && live[0].id < rest[i].id by {
            assert(rest[i] == live[i + 1]);
        }
        if live[0].id == id {
            assert(k == rest);
        } else {
            assert(k == seq![live[0]] + q);
            assert forall|i: int| 0 <= i < k.len() implies live.contains(#[trigger] k[i]) && k[i].id != id by {
                if i > 0 {
                    assert(k[i] == q[i - 1]);
                    let m = choose|m: int| 0 <= m < rest.len() && rest[m] == q[i - 1];
                    assert(live[m + 1] == k[i]);
                } else {
                    assert(live[0] == k[0]);
                }
            }
            assert forall|i: int, j: int| 0 <= i < j < k.len() implies (#[trigger] k[i]).id < (#[trigger] k[j]).id by {
                assert(k[j] == q[j - 1]);
                if i > 0 {
                    assert(k[i] == q[i - 1]);
                } else {
                    let m = choose|m: int| 0 <= m < rest.len() && rest[m] == q[j - 1];
                    assert(live[0].id < rest[m].id);
                }
            }
        }
    }
}

proof fn lemma_marked(live: Seq<LiveConn>, id: usize)
    ensures
        marked(live, id).len() == live.len(),
        forall|i: int|
            0 <= i < live.len() ==> (#[trigger] marked(live, id)[i]).id == live[i].id && marked(live, id)[i].transport
                == live[i].transport,
    decreases live.len(),
{
    if live.len() > 0 {
        let rest = live.drop_first();
        lemma_marked(rest, id);
        let m = marked(live, id);
        assert forall|i: int| 0 <= i < live.len() implies (#[trigger] m[i]).id == live[i].id && m[i].transport
            == live[i].transport by {
            if i > 0 {
                assert(live[i] == rest[i - 1]);
                if live[0].id != id {
                    assert(m[i] == marked(rest, id)[i - 1]);
                } else {
                    assert(m[i] == rest[i - 1]);
                }
            }
        }
    }
}

/// What holds of an action that a request comes to: it speaks of targets; a
/// connection that is sent to again is a live one over UDP; a wait is that of
/// its phase; and the wait at the end of a pass comes when no live UDP
/// connection is left to send to.
pub open spec fn action_ok(w: SendingV, action: SendActionV, left: Option<Duration>) -> bool {
    match action {
        SendActionV::Start { id } => id == w.next && id < w.targets.len(),
        SendActionV::Resend { id } => id == w.cursor && exists|i: int|
            0 <= i < w.live.len() && (#[trigger] w.live[i]).id == id && w.live[i].transport == Transport::Udp,
        SendActionV::Wait { limit } => {
            &&& limit == limit_spec(any_tcp(w.live), phase_wait(w), left)
            &&& !no_wait(limit)
            &&& w.phase == Phase::Backoff ==> forall|i: int|
                0 <= i < w.live.len() && (#[trigger] w.live[i]).transport == Transport::Udp ==> w.live[i].id < w.cursor
        },
        SendActionV::Done(Ok(_)) => true,
        SendActionV::Done(Err(e)) => e == SendtoError::KdcUnreach,
    }
}

/// Whether a request waits for what it was told to do.
pub open spec fn phase_ok(v: SendingV) -> bool {
    &&& v.phase == Phase::Starting ==> v.next < v.targets.len()
    &&& v.phase == Phase::Resending ==> exists|i: int|
        0 <= i < v.live.len() && (#[trigger] v.live[i]).id == v.cursor && v.live[i].transport == Transport::Udp
    &&& v.phase == Phase::Backoff ==> forall|i: int|
        0 <= i < v.live.len() && (#[trigger] v.live[i]).transport == Transport::Udp ==> v.live[i].id < v.cursor
}

proof fn lemma_pass_ok(v: SendingV, left: Option<Duration>, fresh: bool)
    requires
        live_ok(v),
    ensures
        live_ok(pass_spec(v, left, fresh).0),
        phase_ok(pass_spec(v, left, fresh).0),
        action_ok(pass_spec(v, left, fresh).0, pass_spec(v, left, fresh).1, left),
        pass_spec(v, left, fresh).1 !is Start,
        pass_spec(v, left, fresh).1 matches SendActionV::Done(r) ==> r is Err,
        pass_spec(v, left, fresh).0.pass >= v.pass,
        (pass_spec(v, left, fresh).1 is Resend && pass_spec(v, left, fresh).0.pass == v.pass) ==> pass_spec(
            v,
            left,
            fresh,
        ).0.cursor >= v.cursor,
    decreases v.timing.max_pass + 2 - v.pass,
{
    if !((fresh && v.live.len() == 0) || v.pass > v.timing.max_pass) {
        lemma_next_udp(v.live, v.cursor);
        if next_udp(v.live, v.cursor) is None && no_wait(limit_spec(any_tcp(v.live), v.backoff, left)) {
            lemma_pass_ok(next_pass(v), left, true);
        }
    }
}

proof fn lemma_open_ok(v: SendingV, left: Option<Duration>)
    requires
        live_ok(v),
        phase_ok(v),
        v.phase != Phase::Starting && v.phase != Phase::Resending,
    ensures
        live_ok(open_spec(v, left).0),
        phase_ok(open_spec(v, left).0),
        action_ok(open_spec(v, left).0, open_spec(v, left).1, left),
        open_spec(v, left).1 matches SendActionV::Done(r) ==> r is Err,
        open_spec(v, left).0.pass >= v.pass || v.phase == Phase::Started || v.phase == Phase::Tail,
{
    lemma_close_ok(v, left);
}

proof fn lemma_close_ok(v: SendingV, left: Option<Duration>)
    requires
        live_ok(v),
        v.phase != Phase::Starting && v.phase != Phase::Resending,
    ensures
        live_ok(close_spec(v, left).0),
        phase_ok(close_spec(v, left).0),
        action_ok(close_spec(v, left).0, close_spec(v, left).1, left),
        close_spec(v, left).1 matches SendActionV::Done(r) ==> r is Err,
        close_spec(v, left).0.pass >= v.pass || v.phase == Phase::Started || v.phase == Phase::Tail,
{
    lemma_pass_ok(second_pass(v), left, true);
    lemma_pass_ok(v, left, false);
    lemma_pass_ok(next_pass(v), left, true);
}

/// The connections of a request stay in order, and each thing it says to do
/// fits: what is contacted is the next target, only a live UDP connection is
/// sent to again — never a TCP one, and never one that was killed — and each
/// wait is as long as its phase and the deadline allow, without any bound of
/// its own while a TCP connection is established. A pass ends only when every
/// live UDP connection was sent to.
pub proof fn law_actions_fit(v: SendingV, ev: SendEventV, left: Option<Duration>, targets: Seq<Target>, timing: SendtoTiming)
    requires
        live_ok(v),
        phase_ok(v),
        targets.len() <= usize::MAX,
    ensures
        live_ok(fresh_sending(targets, timing)) && phase_ok(fresh_sending(targets, timing)),
        live_ok(send_step_spec(v, ev, left).0),
        phase_ok(send_step_spec(v, ev, left).0),
        action_ok(send_step_spec(v, ev, left).0, send_step_spec(v, ev, left).1, left),
{
    match v.phase {
        Phase::Fresh => {
            lemma_pass_ok(second_pass(v), left, true);
        },
        Phase::Starting => {
            let a = started(v, true);
            assert forall|i: int| 0 <= i < a.live.len() implies (#[trigger] a.live[i]).id < a.next && a.live[i].transport
                == a.targets[a.live[i].id as int].transport by {
                if i < v.live.len() {
                    assert(a.live[i] == v.live[i]);
                }
            }
            assert forall|i: int, j: int| 0 <= i < j < a.live.len() implies (#[trigger] a.live[i]).id < (
            #[trigger] a.live[j]).id by {
                assert(a.live[i] == v.live[i]);
                if j < v.live.len() {
                    assert(a.live[j] == v.live[j]);
                }
            }
            lemma_open_ok(started(v, true), left);
            lemma_open_ok(started(v, false), left);
        },
        Phase::Resending => {
            lemma_open_ok(past_cursor(SendingV { phase: Phase::Resent, ..v }), left);
            lemma_killed(v.live, v.cursor);
            let k = past_cursor(SendingV { live: killed(v.live, v.cursor), ..v });
            lemma_live_sub(v, k.live);
            lemma_pass_ok(k, left, false);
        },
        Phase::Finished => {},
        _ => {
            lemma_close_ok(v, left);
            lemma_open_ok(v, left);
            match ev {
                SendEventV::Dead { id } => {
                    lemma_killed(v.live, id);
                    lemma_live_sub(v, killed(v.live, id));
                    lemma_open_ok(SendingV { live: killed(v.live, id), ..v }, left);
                },
                SendEventV::Established { id } => {
                    lemma_marked(v.live, id);
                    lemma_open_ok(SendingV { live: marked(v.live, id), ..v }, left);
                },
                SendEventV::Reply { id, data, acceptable } => {
                    if id < v.targets.len() {
                        let t = v.targets[id as int];
                        lemma_killed(v.live, id);
                        lemma_live_sub(v, killed(v.live, id));
                        lemma_open_ok(
                            SendingV {
                                live: killed(v.live, id),
                                last_reply: Some((t.server_index, t.transport)),
                                ..v
                            },
                            left,
                        );
                    }
                },
                _ => {},
            }
        },
    }
}

proof fn lemma_live_sub(v: SendingV, live: Seq<LiveConn>)
    requires
        live_ok(v),
        forall|i: int| 0 <= i < live.len() ==> v.live.contains(#[trigger] live[i]),
    ensures
        forall|i: int|
            0 <= i < live.len() ==> (#[trigger] live[i]).id < v.next && live[i].transport
                == v.targets[live[i].id as int].transport,
        (forall|i: int|
            0 <= i < v.live.len() && (#[trigger] v.live[i]).transport == Transport::Udp ==> v.live[i].id < v.cursor)
            ==> (forall|i: int|
            0 <= i < live.len() && (#[trigger] live[i]).transport == Transport::Udp ==> live[i].id < v.cursor),
{
    assert forall|i: int| 0 <= i < live.len() implies (#[trigger] live[i]).id < v.next && live[i].transport
        == v.targets[live[i].id as int].transport && exists|m: int| 0 <= m < v.live.len() && v.live[m] == live[i] by {
        assert(v.live.contains(live[i]));
        let m = choose|m: int| 0 <= m < v.live.len() && v.live[m] == live[i];
        assert(v.live[m].id < v.next);
    }
}

/// A request ends with a reply only when that reply arrived and is
/// acceptable; it names the server and the transport of the connection.
pub proof fn law_only_acceptable_replies(v: SendingV, ev: SendEventV, left: Option<Duration>)
    ensures
        send_step_spec(v, ev, left).1 matches SendActionV::Done(Ok(r)) ==> (ev matches SendEventV::Reply {
            id,
            data,
            acceptable,
        } && acceptable && id < v.targets.len() && r == (KdcReplyV {
            data,
            server_index: v.targets[id as int].server_index,
            transport: v.targets[id as int].transport,
        })),
{
    assert forall|w: SendingV, fresh: bool| !(#[trigger] pass_spec(w, left, fresh).1 matches SendActionV::Done(Ok(_))) by {
        lemma_pass_no_reply(w, left, fresh);
    }
}

proof fn lemma_pass_no_reply(v: SendingV, left: Option<Duration>, fresh: bool)
    ensures
        !(pass_spec(v, left, fresh).1 matches SendActionV::Done(Ok(_))),
        left is Some && left->0.total() == 0 ==> pass_spec(v, left, fresh).1 !is Wait,
    decreases v.timing.max_pass + 2 - v.pass,
{
    if !((fresh && v.live.len() == 0) || v.pass > v.timing.max_pass) && next_udp(v.live, v.cursor) is None && no_wait(
        limit_spec(any_tcp(v.live), v.backoff, left),
    ) {
        lemma_pass_no_reply(next_pass(v), left, true);
    }
}

/// Once the deadline is reached there is no more waiting.
pub proof fn law_deadline(v: SendingV, ev: SendEventV, left: Duration)
    requires
        left.total() == 0,
    ensures
        send_step_spec(v, ev, Some(left)).1 !is Wait,
{
    assert forall|w: SendingV, fresh: bool| #[trigger] pass_spec(w, Some(left), fresh).1 !is Wait by {
        lemma_pass_no_reply(w, Some(left), fresh);
    }
}

/// A reply of a KDC that its service is unavailable never ends a request
/// with success; the request can only end with that as its error, if no
/// other KDC answers.
pub proof fn law_unavailable(v: SendtoKdcV, ev: SendEventV, left: Option<Duration>)
    requires
        v.saw_unavailable || reports_unavailable(ev),
    ensures
        kdc_step_spec(v, ev, left).0.saw_unavailable,
        kdc_step_spec(v, ev, left).1 != SendActionV::Done(Err(SendtoError::KdcUnreach)),
        reports_unavailable(ev) ==> !(kdc_step_spec(v, ev, left).1 matches SendActionV::Done(Ok(_))),
{
    law_only_acceptable_replies(v.sending, judged(ev), left);
}

} // verus!
