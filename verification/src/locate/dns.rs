//! DNS SRV/URI KDC discovery behind an injectable resolver.
use vstd::prelude::*;

use crate::der::{list_view, opt_view};
use crate::locate::uri::{host_string_spec, https_spec, parse_host_string, parse_uri_fields, parse_uri_if_https, uri_fields_spec};
use crate::locate::{list_outcome, LocateError, LocateErrorV, ServerEntry, ServerEntryV, Transport};
use crate::text::{chars_of, ends_in, ends_with, find_text, owned, same_text, text_to};

verus! {

/// A DNS SRV answer.
#[derive(Debug, Clone)]
pub struct SrvRecord {
    /// SRV priority (lower wins).
    pub priority: u16,
    /// SRV weight (not used by the ordering).
    pub weight: u16,
    /// SRV port.
    pub port: u16,
    /// SRV target hostname.
    pub target: String,
}

/// Model of [`SrvRecord`].
pub struct SrvRecordV {
    pub priority: u16,
    pub weight: u16,
    pub port: u16,
    pub target: Seq<char>,
}

impl View for SrvRecord {
    type V = SrvRecordV;

    open spec fn view(&self) -> SrvRecordV {
        SrvRecordV { priority: self.priority, weight: self.weight, port: self.port, target: self.target@ }
    }
}

/// A DNS URI answer (RR type 256).
#[derive(Debug, Clone)]
pub struct UriRecord {
    /// URI priority (lower wins).
    pub priority: u16,
    /// URI weight.
    pub weight: u16,
    /// URI target (e.g. "krb5srv:m:tcp:host:port").
    pub target: String,
}

/// Model of [`UriRecord`].
pub struct UriRecordV {
    pub priority: u16,
    pub weight: u16,
    pub target: Seq<char>,
}

impl View for UriRecord {
    type V = UriRecordV;

    open spec fn view(&self) -> UriRecordV {
        UriRecordV { priority: self.priority, weight: self.weight, target: self.target@ }
    }
}

/// What a query answered, by its views; none where it failed.
pub open spec fn answer_view<T: View>(r: Result<Vec<T>, ()>) -> Option<Seq<T::V>> {
    match r {
        Ok(v) => Some(list_view(v@)),
        Err(()) => None,
    }
}

/// Injectable DNS resolver. `Err` = query failed (triggers the sitename
/// retry); `Ok(vec![])` = successful empty answer (no retry).
pub trait DnsResolver {
    /// Whether an SRV query for a name can get an answer; any, unless a
    /// resolver says more of itself.
    open spec fn srv_answers(&self, name: Seq<char>, answer: Option<Seq<SrvRecordV>>) -> bool {
        true
    }

    /// Whether a URI query for a name can get an answer; any, unless a
    /// resolver says more of itself.
    open spec fn uri_answers(&self, name: Seq<char>, answer: Option<Seq<UriRecordV>>) -> bool {
        true
    }

    /// SRV query for `name` (already fully formed, e.g.
    /// "_kerberos._udp.EXAMPLE.COM.").
    fn srv(&self, name: &str) -> (r: Result<Vec<SrvRecord>, ()>)
        ensures
            self.srv_answers(name@, answer_view(r)),
    ;

    /// URI query for `name` (e.g. "_kerberos.EXAMPLE.COM.").
    fn uri(&self, name: &str) -> (r: Result<Vec<UriRecord>, ()>)
        ensures
            self.uri_answers(name@, answer_view(r)),
    ;
}

/// A resolver that knows no name: every query fails.
pub struct NoDns;

impl DnsResolver for NoDns {
    open spec fn srv_answers(&self, name: Seq<char>, answer: Option<Seq<SrvRecordV>>) -> bool {
        answer is None
    }

    open spec fn uri_answers(&self, name: Seq<char>, answer: Option<Seq<UriRecordV>>) -> bool {
        answer is None
    }

    fn srv(&self, _name: &str) -> (r: Result<Vec<SrvRecord>, ()>) {
        Err(())
    }

    fn uri(&self, _name: &str) -> (r: Result<Vec<UriRecord>, ()>) {
        Err(())
    }
}

/// The name to look up: `service.[protocol.][site._sites.]realm.`; none for a
/// realm with a NUL.
pub open spec fn lookup_name_spec(realm: Seq<char>, service: Seq<char>, protocol: Option<Seq<char>>, site: Option<Seq<char>>) -> Option<
    Seq<char>,
> {
    if realm.contains('\0') {
        None
    } else {
        let s0 = service.push('.');
        let s1 = match protocol {
            Some(p) => (s0 + p).push('.'),
            None => s0,
        };
        let s2 = match site {
            Some(t) => s1 + t + "._sites."@,
            None => s1,
        };
        let s3 = s2 + realm;
        Some(if ends_in(s3, '.') { s3 } else { s3.push('.') })
    }
}

/// Builds `service.[protocol.][site._sites.]realm.`
/// Realm containing NUL -> None; a realm already ending in '.' isn't doubled.
pub fn make_lookup_name(realm: &str, service: &str, protocol: Option<&str>, sitename: Option<&str>) -> (r: Option<String>)
    ensures
        opt_view(r) == lookup_name_spec(realm@, service@, opt_view(protocol), opt_view(sitename)),
{
    proof {
        crate::text::lemma_find_char(realm@, '\0');
    }
    if find_text(realm, '\0').is_some() {
        return None;
    }
    let mut s = owned(service);
    s.push('.');
    if let Some(p) = protocol {
        s.append(p);
        s.push('.');
    }
    if let Some(site) = sitename {
        s.append(site);
        s.append("._sites.");
    }
    s.append(realm);
    if !ends_with(s.as_str(), '.') {
        s.push('.');
    }
    Some(s)
}

/// What has a priority.
pub trait Ranked: View + Sized {
    /// The priority of a value; lower wins.
    spec fn rank_of(v: Self::V) -> u16;

    /// The priority.
    fn rank(&self) -> (r: u16)
        ensures
            r == Self::rank_of(self@),
    ;
}

impl Ranked for SrvRecord {
    open spec fn rank_of(v: SrvRecordV) -> u16 {
        v.priority
    }

    fn rank(&self) -> (r: u16) {
        self.priority
    }
}

impl Ranked for UriRecord {
    open spec fn rank_of(v: UriRecordV) -> u16 {
        v.priority
    }

    fn rank(&self) -> (r: u16) {
        self.priority
    }
}

/// `x` placed in front of the first value with no lower priority.
pub open spec fn place<T: Ranked>(x: T::V, s: Seq<T::V>) -> Seq<T::V>
    decreases s.len(),
{
    if s.len() == 0 || T::rank_of(s[0]) >= T::rank_of(x) {
        seq![x] + s
    } else {
        seq![s[0]] + place::<T>(x, s.drop_first())
    }
}

/// Values by ascending priority; those with equal priority keep their order.
pub open spec fn by_rank<T: Ranked>(s: Seq<T::V>) -> Seq<T::V>
    decreases s.len(),
{
    if s.len() == 0 {
        s
    } else {
        place::<T>(s[0], by_rank::<T>(s.drop_first()))
    }
}

/// The values of one priority, in order.
pub open spec fn of_rank<T: Ranked>(s: Seq<T::V>, rank: u16) -> Seq<T::V>
    decreases s.len(),
{
    if s.len() == 0 {
        s
    } else if T::rank_of(s[0]) == rank {
        seq![s[0]] + of_rank::<T>(s.drop_first(), rank)
    } else {
        of_rank::<T>(s.drop_first(), rank)
    }
}

/// Whether values stand by ascending priority.
pub open spec fn ascending<T: Ranked>(s: Seq<T::V>) -> bool {
    forall|i: int, j: int| 0 <= i < j < s.len() ==> T::rank_of(#[trigger] s[i]) <= T::rank_of(#[trigger] s[j])
}

proof fn lemma_place<T: Ranked>(x: T::V, s: Seq<T::V>, p: int)
    requires
        0 <= p <= s.len(),
        forall|j: int| 0 <= j < p ==> T::rank_of(#[trigger] s[j]) < T::rank_of(x),
        p < s.len() ==> T::rank_of(s[p]) >= T::rank_of(x),
    ensures
        place::<T>(x, s) == s.insert(p, x),
    decreases s.len(),
{
    if p == 0 {
        assert(seq![x] + s =~= s.insert(0, x));
    } else {
        let t = s.drop_first();
        assert forall|j: int| 0 <= j < p - 1 implies T::rank_of(#[trigger] t[j]) < T::rank_of(x) by {
            assert(t[j] == s[j + 1]);
        }
        assert(T::rank_of(s[0]) < T::rank_of(x));
        lemma_place::<T>(x, t, p - 1);
        assert(seq![s[0]] + t.insert(p - 1, x) =~= s.insert(p, x));
    }
}

proof fn lemma_place_keeps<T: Ranked>(x: T::V, s: Seq<T::V>)
    requires
        ascending::<T>(s),
    ensures
        ascending::<T>(place::<T>(x, s)),
        place::<T>(x, s).to_multiset() == s.to_multiset().insert(x),
        forall|i: int|
            0 <= i < place::<T>(x, s).len() ==> #[trigger] place::<T>(x, s)[i] == x || s.contains(place::<T>(x, s)[i]),
        forall|k: u16| #[trigger]
            of_rank::<T>(place::<T>(x, s), k) == (if T::rank_of(x) == k {
                seq![x] + of_rank::<T>(s, k)
            } else {
                of_rank::<T>(s, k)
            }),
    decreases s.len(),
{
    broadcast use vstd::seq_lib::group_to_multiset_ensures;

    let r = place::<T>(x, s);
    if s.len() == 0 || T::rank_of(s[0]) >= T::rank_of(x) {
        assert(r =~= s.insert(0, x));
        assert(r.drop_first() =~= s);
        assert forall|i: int| 0 <= i < r.len() implies #[trigger] r[i] == x || s.contains(r[i]) by {
            if i > 0 {
                assert(r[i] == s[i - 1]);
            }
        }
        assert forall|i: int, j: int| 0 <= i < j < r.len() implies T::rank_of(#[trigger] r[i]) <= T::rank_of(
            #[trigger] r[j],
        ) by {
            assert(r[j] == s[j - 1]);
            if i > 0 {
                assert(r[i] == s[i - 1]);
            } else if j > 1 {
                assert(T::rank_of(s[0]) <= T::rank_of(s[j - 1]));
            }
        }
    } else {
        let t = s.drop_first();
        assert forall|i: int, j: int| 0 <= i < j < t.len() implies T::rank_of(#[trigger] t[i]) <= T::rank_of(
            #[trigger] t[j],
        ) by {
            assert(t[i] == s[i + 1] && t[j] == s[j + 1]);
        }
        lemma_place_keeps::<T>(x, t);
        let q = place::<T>(x, t);
        assert(r == seq![s[0]] + q);
        assert(r =~= q.insert(0, s[0]));
        assert(s =~= t.insert(0, s[0]));
        assert(r.to_multiset() =~= s.to_multiset().insert(x));
        assert(r.drop_first() =~= q);
        assert forall|i: int| 0 <= i < r.len() implies #[trigger] r[i] == x || s.contains(r[i]) by {
            if i > 0 {
                assert(r[i] == q[i - 1]);
                if q[i - 1] != x {
                    let m = choose|m: int| 0 <= m < t.len() && t[m] == q[i - 1];
                    assert(s[m + 1] == t[m]);
                }
            }
        }
        assert forall|i: int, j: int| 0 <= i < j < r.len() implies T::rank_of(#[trigger] r[i]) <= T::rank_of(
            #[trigger] r[j],
        ) by {
            assert(r[j] == q[j - 1]);
            if i > 0 {
                assert(r[i] == q[i - 1]);
            } else if q[j - 1] != x {
                let m = choose|m: int| 0 <= m < t.len() && t[m] == q[j - 1];
                assert(s[m + 1] == t[m]);
                assert(T::rank_of(s[0]) <= T::rank_of(s[m + 1]));
            }
        }
        assert forall|k: u16| #[trigger]
            of_rank::<T>(r, k) == (if T::rank_of(x) == k {
                seq![x] + of_rank::<T>(s, k)
            } else {
                of_rank::<T>(s, k)
            }) by {
            assert(of_rank::<T>(q, k) == (if T::rank_of(x) == k {
                seq![x] + of_rank::<T>(t, k)
            } else {
                of_rank::<T>(t, k)
            }));
        }
    }
}

/// Records sorted by priority are the same records, by ascending priority;
/// those with equal priority keep the order they came in.
pub proof fn law_sorted<T: Ranked>(s: Seq<T::V>)
    ensures
        ascending::<T>(by_rank::<T>(s)),
        by_rank::<T>(s).to_multiset() == s.to_multiset(),
        forall|k: u16| #[trigger] of_rank::<T>(by_rank::<T>(s), k) == of_rank::<T>(s, k),
    decreases s.len(),
{
    broadcast use vstd::seq_lib::group_to_multiset_ensures;

    if s.len() > 0 {
        let t = s.drop_first();
        law_sorted::<T>(t);
        lemma_place_keeps::<T>(s[0], by_rank::<T>(t));
        assert(s =~= t.insert(0, s[0]));
    }
}

fn sorted_by_rank<T: Ranked>(records: Vec<T>) -> (r: Vec<T>)
    ensures
        list_view(r@) == by_rank::<T>(list_view(records@)),
{
    let mut left = records;
    let mut out: Vec<T> = Vec::new();
    let ghost all = list_view(records@);
    assert(all.skip(all.len() as int) =~= Seq::empty());
    assert(list_view(out@) =~= Seq::empty());
    assert(list_view(left@) =~= all.take(all.len() as int));
    while left.len() > 0
        invariant
            left@.len() <= all.len(),
            list_view(left@) == all.take(left@.len() as int),
            list_view(out@) == by_rank::<T>(all.skip(left@.len() as int)),
        decreases left@.len(),
    {
        let ghost n = left@.len() as int;
        let ghost before = left@;
        let ghost sorted = out@;
        let x = match left.pop() {
            Some(x) => x,
            None => {
                assert(false);
                return out;
            },
        };
        let k: u16 = x.rank();
        let mut p: usize = 0;
        while p < out.len() && out[p].rank() < k
            invariant
                p <= out@.len(),
                out@ == sorted,
                k == T::rank_of(x@),
                forall|j: int| 0 <= j < p ==> T::rank_of((#[trigger] out@[j])@) < k,
            decreases out@.len() - p,
        {
            p = p + 1;
        }
        proof {
            assert(x == before[n - 1]);
            assert(all[n - 1] == x@) by {
                assert(list_view(before)[n - 1] == x@);
            }
            assert(all.skip(n - 1).drop_first() =~= all.skip(n));
            assert(all.skip(n - 1)[0] == x@);
            let v = list_view(sorted);
            assert forall|j: int| 0 <= j < p implies T::rank_of(#[trigger] v[j]) < T::rank_of(x@) by {
                assert(v[j] == out@[j]@);
            }
            lemma_place::<T>(x@, v, p as int);
            assert(list_view(left@) =~= all.take(n - 1)) by {
                assert forall|j: int| 0 <= j < n - 1 implies (#[trigger] left@[j])@ == all[j] by {
                    assert(list_view(before)[j] == before[j]@);
                }
            }
        }
        let ghost xv = x@;
        out.insert(p, x);
        assert(list_view(out@) =~= list_view(sorted).insert(p as int, xv));
    }
    assert(all.skip(0) =~= all);
    out
}

/// Ascending priority; entries with equal priority keep insertion order.
pub fn sort_srv(records: Vec<SrvRecord>) -> (r: Vec<SrvRecord>)
    ensures
        list_view(r@) == by_rank::<SrvRecord>(list_view(records@)),
{
    sorted_by_rank(records)
}

fn sort_uri(records: Vec<UriRecord>) -> (r: Vec<UriRecord>)
    ensures
        list_view(r@) == by_rank::<UriRecord>(list_view(records@)),
{
    sorted_by_rank(records)
}

/// Whether an SRV query for a name can get an answer, and leave records: those
/// of the answer, sorted, or none if the query failed.
pub open spec fn srv_leaves<R: DnsResolver>(resolver: R, name: Seq<char>, a: Option<Seq<SrvRecordV>>, out: Seq<SrvRecordV>) -> bool {
    resolver.srv_answers(name, a) && (if a is Some {
        out == by_rank::<SrvRecord>(a->0)
    } else {
        out == Seq::<SrvRecordV>::empty()
    })
}

/// Whether an SRV query for one name, if there is one, can leave records.
pub open spec fn srv_once<R: DnsResolver>(resolver: R, name: Option<Seq<char>>, out: Seq<SrvRecordV>) -> bool {
    if name is None {
        out == Seq::<SrvRecordV>::empty()
    } else {
        exists|a: Option<Seq<SrvRecordV>>| #[trigger] srv_leaves(resolver, name->0, a, out)
    }
}

/// Whether an SRV query of a realm can leave records: the sitename form goes
/// first; only where that query fails, the one without the site follows.
pub open spec fn srv_finds<R: DnsResolver>(
    resolver: R,
    realm: Seq<char>,
    service: Seq<char>,
    protocol: Seq<char>,
    site: Option<Seq<char>>,
    out: Seq<SrvRecordV>,
) -> bool {
    let plain = lookup_name_spec(realm, service, Some(protocol), None);
    let sited = lookup_name_spec(realm, service, Some(protocol), site);
    if site is None || sited is None {
        srv_once(resolver, plain, out)
    } else {
        exists|a: Option<Seq<SrvRecordV>>|
            #[trigger] resolver.srv_answers(sited->0, a) && (if a is Some {
                out == by_rank::<SrvRecord>(a->0)
            } else {
                srv_once(resolver, plain, out)
            })
    }
}

/// Whether a URI query for a name can get an answer, and leave records: those
/// of the answer, sorted, or none if the query failed.
pub open spec fn uri_leaves<R: DnsResolver>(resolver: R, name: Seq<char>, a: Option<Seq<UriRecordV>>, out: Seq<UriRecordV>) -> bool {
    resolver.uri_answers(name, a) && (if a is Some {
        out == by_rank::<UriRecord>(a->0)
    } else {
        out == Seq::<UriRecordV>::empty()
    })
}

/// Whether a URI query for one name, if there is one, can leave records.
pub open spec fn uri_once<R: DnsResolver>(resolver: R, name: Option<Seq<char>>, out: Seq<UriRecordV>) -> bool {
    if name is None {
        out == Seq::<UriRecordV>::empty()
    } else {
        exists|a: Option<Seq<UriRecordV>>| #[trigger] uri_leaves(resolver, name->0, a, out)
    }
}

/// Whether a URI query of a realm can leave records; the sitename rule is
/// that of SRV queries.
pub open spec fn uri_finds<R: DnsResolver>(resolver: R, realm: Seq<char>, service: Seq<char>, site: Option<Seq<char>>, out: Seq<UriRecordV>) -> bool {
    let plain = lookup_name_spec(realm, service, None, None);
    let sited = lookup_name_spec(realm, service, None, site);
    if site is None || sited is None {
        uri_once(resolver, plain, out)
    } else {
        exists|a: Option<Seq<UriRecordV>>|
            #[trigger] resolver.uri_answers(sited->0, a) && (if a is Some {
                out == by_rank::<UriRecord>(a->0)
            } else {
                uri_once(resolver, plain, out)
            })
    }
}

/// Queries `service.protocol.realm` with the sitename form first, retrying
/// without the site only when the query itself fails. A successful empty
/// answer does not retry. Returns the priority-sorted record list.
pub(crate) fn srv_query_realm<R: DnsResolver>(resolver: &R, realm: &str, service: &str, protocol: &str, sitename: Option<&str>) -> (r: Vec<
    SrvRecord,
>)
    ensures
        srv_finds(*resolver, realm@, service@, protocol@, opt_view(sitename), list_view(r@)),
{
    let ghost site = opt_view(sitename);
    let plain = make_lookup_name(realm, service, Some(protocol), None);
    if sitename.is_some() {
        if let Some(name) = make_lookup_name(realm, service, Some(protocol), sitename) {
            let answer = resolver.srv(name.as_str());
            assert(resolver.srv_answers(lookup_name_spec(realm@, service@, Some(protocol@), site)->0, answer_view(answer)));
            if let Ok(v) = answer {
                return sort_srv(v);
            }
        }
    }
    let out = match plain {
        Some(n) => {
            let answer = resolver.srv(n.as_str());
            let ghost heard = answer_view(answer);
            let found = match answer {
                Ok(v) => sort_srv(v),
                Err(()) => Vec::new(),
            };
            assert(heard is None ==> list_view(found@) =~= Seq::empty());
            assert(srv_leaves(
                *resolver,
                lookup_name_spec(realm@, service@, Some(protocol@), None)->0,
                heard,
                list_view(found@),
            ));
            found
        },
        None => {
            let none: Vec<SrvRecord> = Vec::new();
            assert(list_view(none@) =~= Seq::empty());
            none
        },
    };
    assert(srv_once(*resolver, lookup_name_spec(realm@, service@, Some(protocol@), None), list_view(out@)));
    out
}

/// Queries `service.realm` for URI records: same sitename-retry rule,
/// priority-sorted.
pub(crate) fn uri_query_realm<R: DnsResolver>(resolver: &R, realm: &str, service: &str, sitename: Option<&str>) -> (r: Vec<UriRecord>)
    ensures
        uri_finds(*resolver, realm@, service@, opt_view(sitename), list_view(r@)),
{
    let ghost site = opt_view(sitename);
    let plain = make_lookup_name(realm, service, None, None);
    if sitename.is_some() {
        if let Some(name) = make_lookup_name(realm, service, None, sitename) {
            let answer = resolver.uri(name.as_str());
            assert(resolver.uri_answers(lookup_name_spec(realm@, service@, None, site)->0, answer_view(answer)));
            if let Ok(v) = answer {
                return sort_uri(v);
            }
        }
    }
    let out = match plain {
        Some(n) => {
            let answer = resolver.uri(n.as_str());
            let ghost heard = answer_view(answer);
            let found = match answer {
                Ok(v) => sort_uri(v),
                Err(()) => Vec::new(),
            };
            assert(heard is None ==> list_view(found@) =~= Seq::empty());
            assert(uri_leaves(*resolver, lookup_name_spec(realm@, service@, None, None)->0, heard, list_view(found@)));
            found
        },
        None => {
            let none: Vec<UriRecord> = Vec::new();
            assert(list_view(none@) =~= Seq::empty());
            none
        },
    };
    assert(uri_once(*resolver, lookup_name_spec(realm@, service@, None, None), list_view(out@)));
    out
}

/// The server that a krb5srv URI names; none where it has a problem or is of
/// another transport than the one asked for.
pub open spec fn uri_entry_spec(target: Seq<char>, req_transport: Transport, default_port: u16) -> Option<ServerEntryV> {
    match uri_fields_spec(target) {
        None => None,
        Some((transport, field, primary)) => if req_transport != Transport::TcpOrUdp && req_transport != transport {
            None
        } else {
            let https = transport == Transport::Https;
            let (t, h, p) = https_spec(field);
            if https && t != Some(Transport::Https) {
                None
            } else {
                match host_string_spec(if https { h } else { field }, if https { 443 } else { default_port }) {
                    Ok((Some(host), port)) => Some(
                        ServerEntryV {
                            hostname: host,
                            port,
                            transport,
                            uri_path: if https { p } else { None },
                            primary: Some(primary),
                        },
                    ),
                    _ => None,
                }
            }
        },
    }
}

/// The servers that URI answers name; problematic entries are skipped.
pub open spec fn uri_entries_spec(answers: Seq<UriRecordV>, req_transport: Transport, default_port: u16) -> Seq<ServerEntryV>
    decreases answers.len(),
{
    if answers.len() == 0 {
        Seq::empty()
    } else {
        let rest = uri_entries_spec(answers.drop_last(), req_transport, default_port);
        match uri_entry_spec(answers.last().target, req_transport, default_port) {
            Some(e) => rest.push(e),
            None => rest,
        }
    }
}

fn uri_entry(target: &str, req_transport: Transport, default_port: u16) -> (r: Option<ServerEntry>)
    ensures
        opt_view(r) == uri_entry_spec(target@, req_transport, default_port),
{
    let (transport, field, primary) = match parse_uri_fields(target) {
        Some(x) => x,
        None => return None,
    };
    // TcpOrUdp accepts all; otherwise require a transport match.
    if req_transport != Transport::TcpOrUdp && req_transport != transport {
        return None;
    }
    let (host_s, path, def_port) = if transport == Transport::Https {
        let (t, h, p) = parse_uri_if_https(field);
        if t != Some(Transport::Https) {
            return None;
        }
        (h, p, 443u16)
    } else {
        (field, None, default_port)
    };
    match parse_host_string(host_s, def_port) {
        Ok((Some(host), port)) => Some(
            ServerEntry {
                hostname: host,
                port,
                transport,
                uri_path: match path {
                    Some(p) => Some(owned(p)),
                    None => None,
                },
                primary: Some(primary),
            },
        ),
        _ => None,
    }
}

/// The servers that URI answers name. Problematic entries are skipped.
pub fn uri_entries(answers: &[UriRecord], req_transport: Transport, default_port: u16) -> (r: Vec<ServerEntry>)
    ensures
        list_view(r@) == uri_entries_spec(list_view(answers@), req_transport, default_port),
{
    let ghost all = list_view(answers@);
    let mut out: Vec<ServerEntry> = Vec::new();
    assert(list_view(out@) =~= Seq::empty());
    assert(all.take(0) =~= Seq::empty());
    let mut i: usize = 0;
    while i < answers.len()
        invariant
            i <= answers@.len(),
            all == list_view(answers@),
            list_view(out@) == uri_entries_spec(all.take(i as int), req_transport, default_port),
        decreases answers@.len() - i,
    {
        proof {
            assert(all.take(i + 1).drop_last() =~= all.take(i as int));
            assert(all.take(i + 1).last() == answers@[i as int]@);
        }
        if let Some(e) = uri_entry(answers[i].target.as_str(), req_transport, default_port) {
            let ghost before = list_view(out@);
            let ghost ev = e@;
            out.push(e);
            assert(list_view(out@) =~= before.push(ev));
        }
        i = i + 1;
    }
    assert(all.take(i as int) =~= all);
    out
}

/// Parses krb5srv: URI answers into server entries.
pub(crate) fn locate_uri<R: DnsResolver>(
    resolver: &R,
    realm: &str,
    service: &str,
    sitename: Option<&str>,
    req_transport: Transport,
    default_port: u16,
) -> (r: Vec<ServerEntry>)
    ensures
        exists|answers: Seq<UriRecordV>|
            #[trigger] uri_finds(*resolver, realm@, service@, opt_view(sitename), answers) && list_view(r@)
                == uri_entries_spec(answers, req_transport, default_port),
{
    let answers = uri_query_realm(resolver, realm, service, sitename);
    uri_entries(&answers, req_transport, default_port)
}

/// A text without the dots at its end.
pub open spec fn without_dots(s: Seq<char>) -> Seq<char>
    decreases s.len(),
{
    if ends_in(s, '.') {
        without_dots(s.drop_last())
    } else {
        s
    }
}

/// The server that an SRV record names; the name ends in one dot.
pub open spec fn srv_entry_spec(r: SrvRecordV, transport: Transport) -> ServerEntryV {
    ServerEntryV {
        hostname: without_dots(r.target).push('.'),
        port: r.port,
        transport,
        uri_path: None,
        primary: None,
    }
}

/// The servers that SRV answers name. A single answer with an empty or root
/// target says that the realm offers no service.
pub open spec fn srv_entries_spec(records: Seq<SrvRecordV>, transport: Transport) -> Result<Seq<ServerEntryV>, LocateErrorV> {
    if records.len() == 1 && (records[0].target.len() == 0 || records[0].target == "."@) {
        Err(LocateErrorV::NoService)
    } else {
        Ok(Seq::new(records.len(), |i: int| srv_entry_spec(records[i], transport)))
    }
}

fn strip_dots(s: &str) -> (r: String)
    ensures
        r@ == without_dots(s@),
{
    let cs = chars_of(s);
    let mut n: usize = cs.len();
    assert(cs@.take(n as int) =~= s@);
    while n > 0 && cs[n - 1] == '.'
        invariant
            n <= cs@.len(),
            cs@ == s@,
            without_dots(s@) == without_dots(s@.take(n as int)),
        decreases n,
    {
        assert(s@.take(n as int).drop_last() =~= s@.take(n - 1));
        assert(s@.take(n as int).last() == s@[n - 1]);
        n = n - 1;
    }
    assert(n > 0 ==> s@.take(n as int).last() == s@[n - 1]);
    owned(text_to(s, n))
}

/// The servers that SRV answers of one protocol name. Single "."-target
/// answer -> NoService.
pub fn srv_entries(records: &[SrvRecord], transport: Transport) -> (r: Result<Vec<ServerEntry>, LocateError>)
    ensures
        list_outcome(r) == srv_entries_spec(list_view(records@), transport),
{
    let ghost all = list_view(records@);
    assert(records@.len() == 1 ==> all[0] == records@[0]@);
    if records.len() == 1 && (records[0].target.as_str().unicode_len() == 0 || same_text(
        records[0].target.as_str(),
        ".",
    )) {
        return Err(LocateError::NoService);
    }
    let mut out: Vec<ServerEntry> = Vec::new();
    let mut i: usize = 0;
    while i < records.len()
        invariant
            i <= records@.len(),
            all == list_view(records@),
            out@.len() == i,
            forall|j: int| 0 <= j < i ==> (#[trigger] out@[j])@ == srv_entry_spec(all[j], transport),
        decreases records@.len() - i,
    {
        let rec = &records[i];
        let mut hostname = strip_dots(rec.target.as_str());
        hostname.push('.');
        out.push(ServerEntry { hostname, port: rec.port, transport, uri_path: None, primary: None });
        i = i + 1;
    }
    assert(list_view(out@) =~= Seq::new(all.len(), |j: int| srv_entry_spec(all[j], transport)));
    Ok(out)
}

/// The transport of an SRV protocol label.
pub open spec fn protocol_transport(protocol: Seq<char>) -> Transport {
    if protocol == "_tcp"@ { Transport::Tcp } else { Transport::Udp }
}

/// SRV answers for one protocol.
pub(crate) fn locate_srv_dns<R: DnsResolver>(resolver: &R, realm: &str, service: &str, protocol: &str, sitename: Option<&str>) -> (r: Result<
    Vec<ServerEntry>,
    LocateError,
>)
    ensures
        exists|records: Seq<SrvRecordV>|
            #[trigger] srv_finds(*resolver, realm@, service@, protocol@, opt_view(sitename), records) && list_outcome(r)
                == srv_entries_spec(records, protocol_transport(protocol@)),
{
    let records = srv_query_realm(resolver, realm, service, protocol, sitename);
    let transport = if same_text(protocol, "_tcp") { Transport::Tcp } else { Transport::Udp };
    srv_entries(&records, transport)
}

} // verus!
