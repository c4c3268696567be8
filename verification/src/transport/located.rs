//! Profile/DNS-located KDC transport: locate KDCs for the realm, send to
//! them, record which KDC was used, and retry without UDP when the response
//! was too big for it.
use vstd::prelude::*;

use crate::asn1::Dup;
use crate::der::list_view;
use crate::locate::{list_outcome, locates, DnsResolver, LocateError, LocateErrorV, LocateService, Locator, ServerEntry, ServerEntryV, Transport};
use crate::profile::deltat::deltat_spec;
use crate::profile::parse::NodeV;
use crate::profile::{first_spec, integer_spec, Profile};
use crate::text::{owned, same_text, trim_start};
use crate::time::Duration;
use crate::transport::sendto::{pref_limit_spec, udp_pref_limit, SendtoConfig, SendtoTiming};

verus! {

/// KDC transport that locates servers from the profile/DNS for each realm.
pub struct LocatedTransport<R: DnsResolver> {
    /// The profile.
    pub profile: Profile,
    /// The resolver.
    pub dns: Option<R>,
    /// How to send.
    pub cfg: SendtoConfig,
    /// Whether only primary KDCs are located.
    pub use_primary: bool,
    /// `(realm, entry)` for each KDC that produced a reply, in order.
    pub kdcs: Vec<(String, ServerEntry)>,
}

/// Model of [`LocatedTransport`].
pub struct LocatedTransportV<R> {
    pub profile: Seq<NodeV>,
    pub dns: Option<R>,
    pub cfg: SendtoConfig,
    pub use_primary: bool,
    pub kdcs: Seq<(Seq<char>, ServerEntryV)>,
}

impl<R: DnsResolver> View for LocatedTransport<R> {
    type V = LocatedTransportV<R>;

    open spec fn view(&self) -> LocatedTransportV<R> {
        LocatedTransportV {
            profile: self.profile@,
            dns: self.dns,
            cfg: self.cfg,
            use_primary: self.use_primary,
            kdcs: list_view(self.kdcs@),
        }
    }
}

/// How to send, as a profile says: `[libdefaults] udp_preference_limit`,
/// clamped, and `request_timeout`, if it is a positive delta time.
pub open spec fn profile_config(nodes: Seq<NodeV>) -> SendtoConfig {
    SendtoConfig {
        udp_preference_limit: pref_limit_spec(
            match first_spec(nodes, seq!["libdefaults"@, "udp_preference_limit"@]) {
                None => Some(-1i64),
                Some(s) => integer_spec(trim_start(s)),
            },
        ) as usize,
        request_timeout: match first_spec(nodes, seq!["libdefaults"@, "request_timeout"@]) {
            None => None,
            Some(s) => match deltat_spec(s) {
                Ok(v) => if v > 0 { Some(Duration { secs: v as u64, nanos: 0 }) } else { None },
                Err(_) => None,
            },
        },
        timing: SendtoTiming {
            per_server: Duration { secs: 1, nanos: 0 },
            first_pass_tail: Duration { secs: 2, nanos: 0 },
            initial_backoff: Duration { secs: 4, nanos: 0 },
            max_pass: 3,
        },
    }
}

/// Whether a server is on a list of primary ones.
pub open spec fn on_list(e: ServerEntryV, primaries: Seq<ServerEntryV>) -> bool {
    exists|i: int| 0 <= i < primaries.len() && (#[trigger] primaries[i]).hostname == e.hostname && primaries[i].port == e.port
}

/// Whether a recorded KDC is of a realm and a transport.
pub open spec fn of_group(k: (Seq<char>, ServerEntryV), realm: Seq<char>, transport: Transport) -> bool {
    k.0 == realm && k.1.transport == transport
}

/// Whether a KDC counts as primary, given the primary list of its realm: one
/// that is on it, or any if there is none.
pub open spec fn counts_primary(e: ServerEntryV, primaries: Seq<ServerEntryV>) -> bool {
    primaries.len() == 0 || on_list(e, primaries)
}

/// The recorded KDCs with those of a realm and a transport marked.
pub open spec fn marked_kdcs(
    kdcs: Seq<(Seq<char>, ServerEntryV)>,
    realm: Seq<char>,
    transport: Transport,
    primaries: Seq<ServerEntryV>,
) -> Seq<(Seq<char>, ServerEntryV)> {
    Seq::new(
        kdcs.len(),
        |i: int|
            if of_group(kdcs[i], realm, transport) {
                (kdcs[i].0, ServerEntryV { primary: Some(counts_primary(kdcs[i].1, primaries)), ..kdcs[i].1 })
            } else {
                kdcs[i]
            },
    )
}

/// Whether one of the recorded KDCs of a realm and a transport is a replica.
pub open spec fn has_replica(kdcs: Seq<(Seq<char>, ServerEntryV)>, realm: Seq<char>, transport: Transport, primaries: Seq<ServerEntryV>) -> bool {
    exists|i: int|
        0 <= i < kdcs.len() && of_group(#[trigger] kdcs[i], realm, transport) && !counts_primary(kdcs[i].1, primaries)
}

/// The primary list that locating came to; none where it failed.
pub open spec fn primary_list(found: Result<Seq<ServerEntryV>, LocateErrorV>) -> Seq<ServerEntryV> {
    match found {
        Ok(list) => list,
        Err(_) => Seq::empty(),
    }
}

/// Whether locating the primary KDCs of a recorded KDC's realm can come to
/// this.
pub open spec fn primaries_found<R: DnsResolver>(
    v: LocatedTransportV<R>,
    k: (Seq<char>, ServerEntryV),
    found: Result<Seq<ServerEntryV>, LocateErrorV>,
) -> bool {
    locates(v.profile, v.dns, k.0, LocateService::PrimaryKdc, k.1.transport == Transport::Tcp, found)
}

/// Whether looking for replicas, from a recorded KDC on, can come to a result
/// and leave the KDCs marked so: entries already known primary are skipped;
/// all entries of the same realm and transport are marked in one pass.
pub open spec fn replicas_from<R: DnsResolver>(
    v: LocatedTransportV<R>,
    kdcs: Seq<(Seq<char>, ServerEntryV)>,
    pos: int,
    after: Seq<(Seq<char>, ServerEntryV)>,
    result: bool,
) -> bool
    decreases kdcs.len() - pos,
{
    if pos < 0 || pos >= kdcs.len() {
        after == kdcs && !result
    } else if kdcs[pos].1.primary == Some(true) {
        replicas_from(v, kdcs, pos + 1, after, result)
    } else {
        exists|found: Result<Seq<ServerEntryV>, LocateErrorV>| #[trigger]
            primaries_found(v, kdcs[pos], found) && ({
                let realm = kdcs[pos].0;
                let transport = kdcs[pos].1.transport;
                let list = primary_list(found);
                let marked = marked_kdcs(kdcs, realm, transport, list);
                if has_replica(kdcs, realm, transport, list) {
                    after == marked && result
                } else {
                    replicas_from(v, marked, pos + 1, after, result)
                }
            })
    }
}

impl Dup for ServerEntry {
    fn dup(&self) -> (r: Self) {
        ServerEntry {
            hostname: self.hostname.clone(),
            port: self.port,
            transport: self.transport,
            uri_path: match &self.uri_path {
                Some(p) => Some(p.clone()),
                None => None,
            },
            primary: self.primary,
        }
    }
}

fn listed(e: &ServerEntry, primaries: &[ServerEntry]) -> (r: bool)
    ensures
        r == on_list(e@, list_view(primaries@)),
{
    let ghost all = list_view(primaries@);
    let mut i: usize = 0;
    while i < primaries.len()
        invariant
            i <= primaries@.len(),
            all == list_view(primaries@),
            forall|j: int| 0 <= j < i ==> !((#[trigger] all[j]).hostname == e@.hostname && all[j].port == e@.port),
        decreases primaries@.len() - i,
    {
        assert(all[i as int] == primaries@[i as int]@);
        if same_text(primaries[i].hostname.as_str(), e.hostname.as_str()) && primaries[i].port == e.port {
            return true;
        }
        i = i + 1;
    }
    false
}

/// Marks the recorded KDCs of a realm and a transport, given the primary list
/// of the realm; says whether one of them is a replica.
pub fn mark_kdcs(kdcs: &mut Vec<(String, ServerEntry)>, realm: &str, transport: Transport, primaries: &[ServerEntry]) -> (r: bool)
    ensures
        list_view(final(kdcs)@) == marked_kdcs(list_view(old(kdcs)@), realm@, transport, list_view(primaries@)),
        r == has_replica(list_view(old(kdcs)@), realm@, transport, list_view(primaries@)),
{
    let ghost all = list_view(kdcs@);
    let ghost ps = list_view(primaries@);
    let ghost want = marked_kdcs(all, realm@, transport, ps);
    let mut out: Vec<(String, ServerEntry)> = Vec::new();
    let mut replica = false;
    let mut i: usize = 0;
    while i < kdcs.len()
        invariant
            i <= kdcs@.len(),
            kdcs@ == old(kdcs)@,
            all == list_view(kdcs@),
            ps == list_view(primaries@),
            want == marked_kdcs(all, realm@, transport, ps),
            out@.len() == i,
            forall|j: int| 0 <= j < i ==> (#[trigger] out@[j])@ == want[j],
            replica == (exists|j: int|
                0 <= j < i && of_group(#[trigger] all[j], realm@, transport) && !counts_primary(all[j].1, ps)),
        decreases kdcs@.len() - i,
    {
        assert(all[i as int] == kdcs@[i as int]@);
        let name = kdcs[i].0.clone();
        let mut e = kdcs[i].1.dup();
        if same_text(name.as_str(), realm) && e.transport == transport {
            let primary = primaries.len() == 0 || listed(&e, primaries);
            e.primary = Some(primary);
            if !primary {
                assert(of_group(all[i as int], realm@, transport));
                replica = true;
            }
        }
        out.push((name, e));
        i = i + 1;
    }
    *kdcs = out;
    assert(list_view(kdcs@) =~= want);
    replica
}

fn dup_kdcs(v: &Vec<(String, ServerEntry)>) -> (r: Vec<(String, ServerEntry)>)
    ensures
        list_view(r@) == list_view(v@),
{
    let mut out: Vec<(String, ServerEntry)> = Vec::new();
    let mut i: usize = 0;
    while i < v.len()
        invariant
            i <= v@.len(),
            out@.len() == i,
            forall|j: int| 0 <= j < i ==> (#[trigger] out@[j])@ == v@[j]@,
        decreases v@.len() - i,
    {
        out.push((v[i].0.clone(), v[i].1.dup()));
        i = i + 1;
    }
    assert(list_view(out@) =~= list_view(v@));
    out
}

impl<R: DnsResolver> LocatedTransport<R> {
    /// Build a transport whose sendto config is taken from the profile:
    /// `[libdefaults] udp_preference_limit` (clamped) and `request_timeout`
    /// (deltat seconds).
    pub fn new(profile: Profile, dns: Option<R>) -> (r: LocatedTransport<R>)
        ensures
            r@ == (LocatedTransportV {
                profile: profile@,
                dns,
                cfg: profile_config(profile@),
                use_primary: false,
                kdcs: Seq::empty(),
            }),
    {
        let names: [&str; 2] = ["libdefaults", "udp_preference_limit"];
        assert(list_view(names@) =~= seq!["libdefaults"@, "udp_preference_limit"@]);
        let limit: usize = udp_pref_limit(
            match profile.get_integer(&names, -1) {
                Ok(v) => Some(v),
                Err(_) => None,
            },
        );
        let names: [&str; 2] = ["libdefaults", "request_timeout"];
        assert(list_view(names@) =~= seq!["libdefaults"@, "request_timeout"@]);
        let request_timeout = match profile.get_deltat(&names, 0) {
            Ok(v) => if v > 0 {
                Some(Duration::from_secs(v as u64))
            } else {
                None
            },
            Err(_) => None,
        };
        let cfg = SendtoConfig { udp_preference_limit: limit, request_timeout, timing: SendtoTiming::default() };
        Self::with_config(profile, dns, cfg)
    }

    /// Build with an explicit sendto config (tests / custom timing).
    pub fn with_config(profile: Profile, dns: Option<R>, cfg: SendtoConfig) -> (r: LocatedTransport<R>)
        ensures
            r@ == (LocatedTransportV { profile: profile@, dns, cfg, use_primary: false, kdcs: Seq::empty() }),
    {
        let kdcs: Vec<(String, ServerEntry)> = Vec::new();
        assert(list_view(kdcs@) =~= Seq::empty());
        LocatedTransport { profile, dns, cfg, use_primary: false, kdcs }
    }

    /// Select primary KDCs only, used by the "retry with primary KDC" rule.
    pub fn set_use_primary(&mut self, v: bool)
        ensures
            final(self)@ == (LocatedTransportV { use_primary: v, ..old(self)@ }),
    {
        self.use_primary = v;
    }

    /// Whether primary-only location is in effect.
    pub fn use_primary(&self) -> (r: bool)
        ensures
            r == self@.use_primary,
    {
        self.use_primary
    }

    /// `(realm, entry)` for each KDC that produced a reply, in order.
    pub fn kdcs_used(&self) -> (r: Vec<(String, ServerEntry)>)
        ensures
            list_view(r@) == self@.kdcs,
    {
        dup_kdcs(&self.kdcs)
    }

    /// Clear the recorded KDC list.
    pub fn clear_kdcs(&mut self)
        ensures
            final(self)@ == (LocatedTransportV { kdcs: Seq::empty(), ..old(self)@ }),
    {
        self.kdcs = Vec::new();
        assert(list_view(self.kdcs@) =~= Seq::empty());
    }

    /// Test helper: record a used KDC without contacting it.
    pub fn record_for_test(&mut self, realm: &str, entry: ServerEntry)
        ensures
            final(self)@ == (LocatedTransportV { kdcs: old(self)@.kdcs.push((realm@, entry@)), ..old(self)@ }),
    {
        let ghost before = list_view(self.kdcs@);
        self.kdcs.push((owned(realm), entry));
        assert(list_view(self.kdcs@) =~= before.push((realm@, entry@)));
    }

    fn locate(&self, realm: &str, primaries: bool, no_udp: bool) -> (r: Result<Vec<ServerEntry>, LocateError>)
        ensures
            locates(
                self@.profile,
                self@.dns,
                realm@,
                if primaries { LocateService::PrimaryKdc } else { LocateService::Kdc },
                no_udp,
                list_outcome(r),
            ),
    {
        let dns = match &self.dns {
            Some(d) => Some(d),
            None => None,
        };
        let locator = Locator::new(&self.profile, dns);
        locator.locate_kdc(realm, primaries, no_udp)
    }

    /// The KDCs to send a request for a realm to: the primary ones only,
    /// where that is in effect.
    pub fn servers_for(&self, realm: &str, no_udp: bool) -> (r: Result<Vec<ServerEntry>, LocateError>)
        ensures
            locates(
                self@.profile,
                self@.dns,
                realm@,
                if self@.use_primary { LocateService::PrimaryKdc } else { LocateService::Kdc },
                no_udp,
                list_outcome(r),
            ),
    {
        self.locate(realm, self.use_primary, no_udp)
    }

    /// Records the last server that produced a reply, accepted or not, with
    /// the transport it came over.
    pub fn record_reply(&mut self, realm: &str, servers: &[ServerEntry], last: Option<(usize, Transport)>)
        ensures
            final(self)@ == (match last {
                Some((i, t)) => if i < servers@.len() {
                    LocatedTransportV {
                        kdcs: old(self)@.kdcs.push(
                            (realm@, ServerEntryV { transport: t, ..servers@[i as int]@ }),
                        ),
                        ..old(self)@
                    }
                } else {
                    old(self)@
                },
                None => old(self)@,
            }),
    {
        if let Some((i, t)) = last {
            if i < servers.len() {
                let mut e = servers[i].dup();
                e.transport = t;
                let ghost before = list_view(self.kdcs@);
                let ghost ev = e@;
                self.kdcs.push((owned(realm), e));
                assert(list_view(self.kdcs@) =~= before.push((realm@, ev)));
            }
        }
    }

    /// True if any recorded KDC is a replica — i.e., the realm has a primary
    /// list and the entry is not on it. Entries already known primary are
    /// skipped; all same-realm+transport entries are marked in one pass.
    pub fn any_replicas(&mut self) -> (r: bool)
        ensures
            replicas_from(old(self)@, old(self)@.kdcs, 0, final(self)@.kdcs, r),
            final(self)@ == (LocatedTransportV { kdcs: final(self)@.kdcs, ..old(self)@ }),
    {
        let ghost start = self@;
        let n: usize = self.kdcs.len();
        let mut pos: usize = 0;
        while pos < n
            invariant
                pos <= n == self.kdcs@.len(),
                start == old(self)@,
                self@ == (LocatedTransportV { kdcs: self@.kdcs, ..start }),
                forall|after: Seq<(Seq<char>, ServerEntryV)>, result: bool|
                    replicas_from(start, self@.kdcs, pos as int, after, result) ==> #[trigger] replicas_from(
                        start,
                        start.kdcs,
                        0,
                        after,
                        result,
                    ),
            decreases n - pos,
        {
            let ghost cur = self@.kdcs;
            assert(cur[pos as int] == self.kdcs@[pos as int]@);
            if self.kdcs[pos].1.primary != Some(true) {
                let realm = self.kdcs[pos].0.clone();
                let transport = self.kdcs[pos].1.transport;
                let located = self.locate(realm.as_str(), true, transport == Transport::Tcp);
                let ghost found = list_outcome(located);
                let primaries = match located {
                    Ok(l) => l,
                    Err(_) => Vec::new(),
                };
                proof {
                    assert(primaries@.len() == 0 ==> list_view(primaries@) =~= Seq::empty());
                    assert(list_view(primaries@) =~= primary_list(found));
                    assert(primaries_found(start, cur[pos as int], found));
                }
                let replica = mark_kdcs(&mut self.kdcs, realm.as_str(), transport, &primaries);
                assert(self@.kdcs.len() == self.kdcs@.len());
                if replica {
                    assert(replicas_from(start, cur, pos as int, self@.kdcs, true));
                    return true;
                }
                assert forall|after: Seq<(Seq<char>, ServerEntryV)>, result: bool| replicas_from(
                    start,
                    self@.kdcs,
                    pos + 1,
                    after,
                    result,
                ) implies #[trigger] replicas_from(start, start.kdcs, 0, after, result) by {
                    assert(replicas_from(start, cur, pos as int, after, result));
                }
            } else {
                assert forall|after: Seq<(Seq<char>, ServerEntryV)>, result: bool| replicas_from(
                    start,
                    self@.kdcs,
                    pos + 1,
                    after,
                    result,
                ) implies #[trigger] replicas_from(start, start.kdcs, 0, after, result) by {
                    assert(replicas_from(start, cur, pos as int, after, result));
                }
            }
            pos = pos + 1;
        }
        assert(replicas_from(start, self@.kdcs, pos as int, self@.kdcs, false));
        false
    }
}

/// Once all recorded KDCs are known to be primary, none is a replica, and
/// nothing is looked up.
pub proof fn law_known_primaries<R: DnsResolver>(v: LocatedTransportV<R>, pos: int, after: Seq<(Seq<char>, ServerEntryV)>, result: bool)
    requires
        0 <= pos,
        forall|i: int| 0 <= i < v.kdcs.len() ==> (#[trigger] v.kdcs[i]).1.primary == Some(true),
        replicas_from(v, v.kdcs, pos, after, result),
    ensures
        !result,
        after == v.kdcs,
    decreases v.kdcs.len() - pos,
{
    if pos < v.kdcs.len() {
        assert(v.kdcs[pos].1.primary == Some(true));
        law_known_primaries(v, pos + 1, after, result);
    }
}

} // verus!
