//! KDC/service location: profile entries, then DNS URI records, then SRV
//! records.
use vstd::prelude::*;

pub mod dns;
pub mod hostrealm;
pub mod laws;
pub mod uri;

use crate::der::{list_view, opt_view};
use crate::profile::parse::NodeV;
use crate::profile::{boolean_spec, conf_boolean, first_spec, lookup_spec, Profile};
use crate::text::{begins, begins_with, joined, owned};

pub use dns::{make_lookup_name, sort_srv, DnsResolver, NoDns, SrvRecord, UriRecord};
pub use hostrealm::{default_realm, fallback_host_realm, host_realm, realm_domain};
pub use uri::{is_string_numeric, parse_host_string, parse_uri_fields, parse_uri_if_https};

use dns::{locate_srv_dns, locate_uri, protocol_transport, srv_entries_spec, srv_finds, uri_entries_spec, uri_finds, SrvRecordV, UriRecordV};
use uri::{host_string_spec, https_spec};

verus! {

/// Transport of a located server.
#[derive(Debug, Clone, Copy, PartialEq, Eq, Structural)]
pub enum Transport {
    /// UDP only.
    Udp,
    /// TCP only.
    Tcp,
    /// Profile entries carry the requested transport.
    TcpOrUdp,
    /// KKDCP over HTTPS.
    Https,
}

/// One located server.
#[derive(Debug, Clone, PartialEq, Eq)]
pub struct ServerEntry {
    /// Hostname (SRV-derived names keep the trailing dot).
    pub hostname: String,
    /// Port number.
    pub port: u16,
    /// Transport.
    pub transport: Transport,
    /// KKDCP path (e.g. "/KdcProxy") for HTTPS entries.
    pub uri_path: Option<String>,
    /// Whether the server is a primary one, where known.
    pub primary: Option<bool>,
}

/// Model of [`ServerEntry`].
pub struct ServerEntryV {
    pub hostname: Seq<char>,
    pub port: u16,
    pub transport: Transport,
    pub uri_path: Option<Seq<char>>,
    pub primary: Option<bool>,
}

impl View for ServerEntry {
    type V = ServerEntryV;

    open spec fn view(&self) -> ServerEntryV {
        ServerEntryV {
            hostname: self.hostname@,
            port: self.port,
            transport: self.transport,
            uri_path: opt_view(self.uri_path),
            primary: self.primary,
        }
    }
}

/// Which service to locate.
#[derive(Debug, Clone, Copy, PartialEq, Eq, Structural)]
pub enum LocateService {
    /// _kerberos / `kdc` profile key, port 88.
    Kdc,
    /// _kerberos-master / `primary_kdc` (falls back to `master_kdc` when the
    /// relation is absent).
    PrimaryKdc,
    /// _kerberos-adm / `admin_server`, port 749.
    Kadmin,
    /// _kpasswd / `kpasswd_server`, port 464.
    Kpasswd,
}

/// Location errors.
#[derive(Debug, PartialEq, Eq)]
pub enum LocateError {
    /// Empty realm (KRB5_REALM_CANT_RESOLVE).
    RealmCantResolve,
    /// No servers found (KRB5_REALM_UNKNOWN).
    RealmUnknown,
    /// SRV "." answer: realm advertises no service (KRB5_ERR_NO_SERVICE).
    NoService,
    /// Malformed profile entry etc. (EINVAL).
    Invalid(String),
}

/// Model of [`LocateError`].
pub enum LocateErrorV {
    RealmCantResolve,
    RealmUnknown,
    NoService,
    Invalid(Seq<char>),
}

impl View for LocateError {
    type V = LocateErrorV;

    open spec fn view(&self) -> LocateErrorV {
        match self {
            LocateError::RealmCantResolve => LocateErrorV::RealmCantResolve,
            LocateError::RealmUnknown => LocateErrorV::RealmUnknown,
            LocateError::NoService => LocateErrorV::NoService,
            LocateError::Invalid(s) => LocateErrorV::Invalid(s@),
        }
    }
}

impl LocateErrorV {
    /// The message text of this error.
    pub open spec fn text(self) -> Seq<char> {
        match self {
            LocateErrorV::RealmCantResolve => "cannot resolve realm"@,
            LocateErrorV::RealmUnknown => "unknown realm"@,
            LocateErrorV::NoService => "no service"@,
            LocateErrorV::Invalid(m) => "invalid server spec: "@ + m,
        }
    }
}

impl LocateError {
    /// The message text of this error.
    pub fn message(&self) -> (r: String)
        ensures
            r@ == self@.text(),
    {
        match self {
            LocateError::RealmCantResolve => owned("cannot resolve realm"),
            LocateError::RealmUnknown => owned("unknown realm"),
            LocateError::NoService => owned("no service"),
            LocateError::Invalid(m) => joined("invalid server spec: ", m.as_str()),
        }
    }
}

/// What a list of servers returned, by its views.
pub open spec fn list_outcome(r: Result<Vec<ServerEntry>, LocateError>) -> Result<Seq<ServerEntryV>, LocateErrorV> {
    match r {
        Ok(v) => Ok(list_view(v@)),
        Err(e) => Err(e@),
    }
}

/// The profile key of a service.
pub open spec fn service_key(svc: LocateService) -> Seq<char> {
    match svc {
        LocateService::Kdc => "kdc"@,
        LocateService::PrimaryKdc => "primary_kdc"@,
        LocateService::Kadmin => "admin_server"@,
        LocateService::Kpasswd => "kpasswd_server"@,
    }
}

/// The default port of a service.
pub open spec fn service_port(svc: LocateService) -> u16 {
    match svc {
        LocateService::Kdc => 88,
        LocateService::PrimaryKdc => 88,
        LocateService::Kadmin => 749,
        LocateService::Kpasswd => 464,
    }
}

/// The DNS label of a service in SRV queries.
pub open spec fn service_label(svc: LocateService) -> Seq<char> {
    match svc {
        LocateService::Kdc => "_kerberos"@,
        LocateService::PrimaryKdc => "_kerberos-master"@,
        LocateService::Kadmin => "_kerberos-adm"@,
        LocateService::Kpasswd => "_kpasswd"@,
    }
}

/// The DNS label of a service in URI queries.
pub open spec fn uri_label(svc: LocateService) -> Seq<char> {
    match svc {
        LocateService::Kdc => "_kerberos"@,
        LocateService::PrimaryKdc => "_kerberos"@,
        LocateService::Kadmin => "_kerberos-adm"@,
        LocateService::Kpasswd => "_kpasswd"@,
    }
}

/// The transport to ask for.
pub open spec fn wanted_transport(no_udp: bool) -> Transport {
    if no_udp { Transport::Tcp } else { Transport::TcpOrUdp }
}

/// The server that a profile entry names. An entry that starts with '/' is
/// the path of a UNIX socket.
pub open spec fn profile_entry_spec(entry: Seq<char>, transport: Transport, port: u16) -> Result<ServerEntryV, LocateErrorV> {
    if begins(entry, '/') {
        Ok(ServerEntryV { hostname: entry, port: 0, transport: Transport::Tcp, uri_path: None, primary: None })
    } else {
        let (t, field, path) = https_spec(entry);
        let this = if t is Some { t->0 } else { transport };
        match host_string_spec(field, if this == Transport::Https { 443 } else { port }) {
            Err(e) => Err(e),
            Ok((None, _)) => Err(LocateErrorV::Invalid(entry)),
            Ok((Some(host), p)) => Ok(
                ServerEntryV { hostname: host, port: p, transport: this, uri_path: path, primary: None },
            ),
        }
    }
}

/// The servers that profile entries name; the first bad entry is an error.
pub open spec fn profile_entries_spec(entries: Seq<Seq<char>>, transport: Transport, port: u16) -> Result<Seq<ServerEntryV>, LocateErrorV>
    decreases entries.len(),
{
    if entries.len() == 0 {
        Ok(Seq::empty())
    } else {
        match profile_entries_spec(entries.drop_last(), transport, port) {
            Err(e) => Err(e),
            Ok(list) => match profile_entry_spec(entries.last(), transport, port) {
                Err(e) => Err(e),
                Ok(x) => Ok(list.push(x)),
            },
        }
    }
}

/// The profile entries of a service of a realm: primary KDCs are those of
/// `master_kdc` where there is no `primary_kdc`.
pub open spec fn service_entries(nodes: Seq<NodeV>, realm: Seq<char>, svc: LocateService) -> Seq<Seq<char>> {
    let named = lookup_spec(nodes, seq!["realms"@, realm, service_key(svc)]);
    if named.len() == 0 && svc == LocateService::PrimaryKdc {
        lookup_spec(nodes, seq!["realms"@, realm, "master_kdc"@])
    } else {
        named
    }
}

/// The servers of a service of a realm that the profile names.
pub open spec fn profile_servers_spec(nodes: Seq<NodeV>, realm: Seq<char>, svc: LocateService, no_udp: bool) -> Result<
    Seq<ServerEntryV>,
    LocateErrorV,
> {
    profile_entries_spec(service_entries(nodes, realm, svc), wanted_transport(no_udp), service_port(svc))
}

/// Whether the profile allows DNS lookups: the named key, else dns_fallback,
/// else a default.
pub open spec fn use_dns_spec(nodes: Seq<NodeV>, name: Seq<char>, default: bool) -> bool {
    let named = first_spec(nodes, seq!["libdefaults"@, name]);
    let v = if named is Some { named } else { first_spec(nodes, seq!["libdefaults"@, "dns_fallback"@]) };
    match v {
        None => default,
        Some(s) => match boolean_spec(s) {
            Some(b) => b,
            None => default,
        },
    }
}

/// Whether the profile allows URI lookups: dns_uri_lookup only, default true.
pub open spec fn use_uri_spec(nodes: Seq<NodeV>) -> bool {
    match first_spec(nodes, seq!["libdefaults"@, "dns_uri_lookup"@]) {
        None => true,
        Some(s) => match boolean_spec(s) {
            Some(b) => b,
            None => true,
        },
    }
}

/// A list of servers; an empty one is no answer.
pub open spec fn some_servers(list: Seq<ServerEntryV>) -> Result<Seq<ServerEntryV>, LocateErrorV> {
    if list.len() == 0 {
        Err(LocateErrorV::RealmUnknown)
    } else {
        Ok(list)
    }
}

/// What SRV records, over UDP and over TCP, come to.
pub open spec fn srv_result_spec(udp: Seq<SrvRecordV>, tcp: Seq<SrvRecordV>) -> Result<Seq<ServerEntryV>, LocateErrorV> {
    match srv_entries_spec(udp, Transport::Udp) {
        Err(e) => Err(e),
        Ok(first) => match srv_entries_spec(tcp, Transport::Tcp) {
            Err(e) => Err(e),
            Ok(second) => some_servers(first + second),
        },
    }
}

/// Whether SRV queries of a realm can come to a result: `_udp` unless UDP is
/// ruled out, then `_tcp`.
pub open spec fn srv_locates<R: DnsResolver>(
    resolver: R,
    realm: Seq<char>,
    svc: LocateService,
    no_udp: bool,
    site: Option<Seq<char>>,
    result: Result<Seq<ServerEntryV>, LocateErrorV>,
) -> bool {
    exists|udp: Seq<SrvRecordV>, tcp: Seq<SrvRecordV>| #[trigger]
        srv_pair(resolver, realm, svc, no_udp, site, udp, tcp) && result == srv_result_spec(udp, tcp)
}

/// Whether SRV queries of a realm can find these records over UDP and TCP.
/// Where the answer over UDP is that there is no service, TCP is not asked.
pub open spec fn srv_pair<R: DnsResolver>(
    resolver: R,
    realm: Seq<char>,
    svc: LocateService,
    no_udp: bool,
    site: Option<Seq<char>>,
    udp: Seq<SrvRecordV>,
    tcp: Seq<SrvRecordV>,
) -> bool {
    &&& if no_udp {
        udp == Seq::<SrvRecordV>::empty()
    } else {
        srv_finds(resolver, realm, service_label(svc), "_udp"@, site, udp)
    }
    &&& srv_entries_spec(udp, Transport::Udp) is Ok ==> srv_finds(
        resolver,
        realm,
        service_label(svc),
        "_tcp"@,
        site,
        tcp,
    )
}

/// Whether DNS queries of a realm can come to a result: URI records, where
/// the profile allows it; SRV records where those name no server.
pub open spec fn dns_locates<R: DnsResolver>(
    nodes: Seq<NodeV>,
    resolver: R,
    realm: Seq<char>,
    svc: LocateService,
    no_udp: bool,
    result: Result<Seq<ServerEntryV>, LocateErrorV>,
) -> bool {
    exists|answers: Seq<UriRecordV>| #[trigger]
        uri_part(nodes, resolver, realm, svc, answers) && ({
            let list = uri_entries_spec(answers, wanted_transport(no_udp), service_port(svc));
            if list.len() > 0 {
                result == Ok::<Seq<ServerEntryV>, LocateErrorV>(list)
            } else {
                srv_locates(resolver, realm, svc, no_udp, sitename_spec(nodes, realm), result)
            }
        })
}

/// The site of a realm.
pub open spec fn sitename_spec(nodes: Seq<NodeV>, realm: Seq<char>) -> Option<Seq<char>> {
    first_spec(nodes, seq!["realms"@, realm, "sitename"@])
}

/// Whether the URI query of a realm can find these records.
pub open spec fn uri_part<R: DnsResolver>(nodes: Seq<NodeV>, resolver: R, realm: Seq<char>, svc: LocateService, answers: Seq<UriRecordV>) -> bool {
    if use_uri_spec(nodes) {
        uri_finds(resolver, realm, uri_label(svc), sitename_spec(nodes, realm), answers)
    } else {
        answers == Seq::<UriRecordV>::empty()
    }
}

/// Whether locating a service of a realm can come to a result: the servers of
/// the profile first; where it names none, those that DNS gives, if there is
/// a resolver and the profile allows it.
pub open spec fn locates<R: DnsResolver>(
    nodes: Seq<NodeV>,
    dns: Option<R>,
    realm: Seq<char>,
    svc: LocateService,
    no_udp: bool,
    result: Result<Seq<ServerEntryV>, LocateErrorV>,
) -> bool {
    if realm.len() == 0 {
        result == Err::<Seq<ServerEntryV>, LocateErrorV>(LocateErrorV::RealmCantResolve)
    } else {
        match profile_servers_spec(nodes, realm, svc, no_udp) {
            Err(e) => result == Err::<Seq<ServerEntryV>, LocateErrorV>(e),
            Ok(list) => if list.len() > 0 {
                result == Ok::<Seq<ServerEntryV>, LocateErrorV>(list)
            } else if dns is Some && use_dns_spec(nodes, "dns_lookup_kdc"@, true) {
                dns_locates(nodes, dns->0, realm, svc, no_udp, result)
            } else {
                result == Err::<Seq<ServerEntryV>, LocateErrorV>(LocateErrorV::RealmUnknown)
            },
        }
    }
}

fn service_names(svc: LocateService) -> (r: (&'static str, u16, &'static str, &'static str))
    ensures
        r.0@ == service_key(svc),
        r.1 == service_port(svc),
        r.2@ == service_label(svc),
        r.3@ == uri_label(svc),
{
    match svc {
        LocateService::Kdc => ("kdc", 88, "_kerberos", "_kerberos"),
        LocateService::PrimaryKdc => ("primary_kdc", 88, "_kerberos-master", "_kerberos"),
        LocateService::Kadmin => ("admin_server", 749, "_kerberos-adm", "_kerberos-adm"),
        LocateService::Kpasswd => ("kpasswd_server", 464, "_kpasswd", "_kpasswd"),
    }
}

fn profile_entry(entry: &str, transport: Transport, port: u16) -> (r: Result<ServerEntry, LocateError>)
    ensures
        match r {
            Ok(x) => profile_entry_spec(entry@, transport, port) == Ok::<ServerEntryV, LocateErrorV>(x@),
            Err(e) => profile_entry_spec(entry@, transport, port) == Err::<ServerEntryV, LocateErrorV>(e@),
        },
{
    if begins_with(entry, '/') {
        return Ok(
            ServerEntry {
                hostname: owned(entry),
                port: 0,
                transport: Transport::Tcp,
                uri_path: None,
                primary: None,
            },
        );
    }
    let (t, field, path) = parse_uri_if_https(entry);
    let this = match t {
        Some(t) => t,
        None => transport,
    };
    let default_port: u16 = if this == Transport::Https { 443 } else { port };
    match parse_host_string(field, default_port) {
        Err(e) => Err(e),
        Ok((None, _)) => Err(LocateError::Invalid(owned(entry))),
        Ok((Some(host), p)) => Ok(
            ServerEntry {
                hostname: host,
                port: p,
                transport: this,
                uri_path: match path {
                    Some(x) => Some(owned(x)),
                    None => None,
                },
                primary: None,
            },
        ),
    }
}

fn profile_entries(entries: &Vec<String>, transport: Transport, port: u16) -> (r: Result<Vec<ServerEntry>, LocateError>)
    ensures
        list_outcome(r) == profile_entries_spec(list_view(entries@), transport, port),
{
    let ghost all = list_view(entries@);
    let mut out: Vec<ServerEntry> = Vec::new();
    assert(list_view(out@) =~= Seq::empty());
    assert(all.take(0) =~= Seq::empty());
    let mut i: usize = 0;
    while i < entries.len()
        invariant
            i <= entries@.len(),
            all == list_view(entries@),
            profile_entries_spec(all.take(i as int), transport, port) == Ok::<Seq<ServerEntryV>, LocateErrorV>(
                list_view(out@),
            ),
        decreases entries@.len() - i,
    {
        proof {
            assert(all.take(i + 1).drop_last() =~= all.take(i as int));
            assert(all.take(i + 1).last() == entries@[i as int]@);
        }
        match profile_entry(entries[i].as_str(), transport, port) {
            Ok(x) => {
                let ghost before = list_view(out@);
                let ghost xv = x@;
                out.push(x);
                assert(list_view(out@) =~= before.push(xv));
            },
            Err(e) => {
                proof {
                    lemma_entries_error(all, i + 1, transport, port);
                }
                return Err(e);
            },
        }
        i = i + 1;
    }
    assert(all.take(i as int) =~= all);
    Ok(out)
}

proof fn lemma_entries_error(all: Seq<Seq<char>>, k: int, transport: Transport, port: u16)
    requires
        0 <= k <= all.len(),
        profile_entries_spec(all.take(k), transport, port) is Err,
    ensures
        profile_entries_spec(all, transport, port) == profile_entries_spec(all.take(k), transport, port),
    decreases all.len() - k,
{
    if k == all.len() {
        assert(all.take(k) =~= all);
    } else {
        assert(all.take(k + 1).drop_last() =~= all.take(k));
        lemma_entries_error(all, k + 1, transport, port);
    }
}

/// KDC locator bound to a profile and an optional injected DNS resolver.
pub struct Locator<'a, R: DnsResolver> {
    /// The profile.
    pub profile: &'a Profile,
    /// The resolver.
    pub dns: Option<&'a R>,
}

/// The resolver of a locator.
pub open spec fn resolver_of<R: DnsResolver>(dns: Option<&R>) -> Option<R> {
    match dns {
        Some(r) => Some(*r),
        None => None,
    }
}

impl<'a, R: DnsResolver> Locator<'a, R> {
    /// Create a locator; `dns` None disables all DNS discovery.
    pub fn new(profile: &'a Profile, dns: Option<&'a R>) -> (r: Locator<'a, R>)
        ensures
            r.profile == profile,
            r.dns == dns,
    {
        Locator { profile, dns }
    }

    fn use_dns(&self, name: &str, default: bool) -> (r: bool)
        ensures
            r == use_dns_spec(self.profile@, name@, default),
    {
        let names: [&str; 2] = ["libdefaults", name];
        assert(list_view(names@) =~= seq!["libdefaults"@, name@]);
        let v = match self.profile.get_string(&names) {
            Some(s) => Some(s),
            None => {
                let names: [&str; 2] = ["libdefaults", "dns_fallback"];
                assert(list_view(names@) =~= seq!["libdefaults"@, "dns_fallback"@]);
                self.profile.get_string(&names)
            },
        };
        match v {
            None => default,
            Some(s) => match conf_boolean(s.as_str()) {
                Some(b) => b,
                None => default,
            },
        }
    }

    fn use_dns_uri(&self) -> (r: bool)
        ensures
            r == use_uri_spec(self.profile@),
    {
        let names: [&str; 2] = ["libdefaults", "dns_uri_lookup"];
        assert(list_view(names@) =~= seq!["libdefaults"@, "dns_uri_lookup"@]);
        match self.profile.get_boolean(&names, true) {
            Ok(b) => b,
            Err(_) => true,
        }
    }

    fn sitename(&self, realm: &str) -> (r: Option<String>)
        ensures
            opt_view(r) == sitename_spec(self.profile@, realm@),
    {
        let names: [&str; 3] = ["realms", realm, "sitename"];
        assert(list_view(names@) =~= seq!["realms"@, realm@, "sitename"@]);
        self.profile.get_string(&names)
    }

    /// Profile entries for the service. '/'-prefixed entries are UNIX sockets
    /// — represented as a host entry with port 0/Tcp.
    pub fn profile_servers(&self, realm: &str, svc: LocateService, no_udp: bool) -> (r: Result<Vec<ServerEntry>, LocateError>)
        ensures
            list_outcome(r) == profile_servers_spec(self.profile@, realm@, svc, no_udp),
    {
        let (key, port, _, _) = service_names(svc);
        let names: [&str; 3] = ["realms", realm, key];
        assert(list_view(names@) =~= seq!["realms"@, realm@, service_key(svc)]);
        let mut entries = self.profile.get_values(&names);
        assert(list_view(entries@).len() == entries@.len());
        if entries.len() == 0 && svc == LocateService::PrimaryKdc {
            // master_kdc only when primary_kdc is absent.
            let names: [&str; 3] = ["realms", realm, "master_kdc"];
            assert(list_view(names@) =~= seq!["realms"@, realm@, "master_kdc"@]);
            entries = self.profile.get_values(&names);
        }
        let transport = if no_udp { Transport::Tcp } else { Transport::TcpOrUdp };
        profile_entries(&entries, transport, port)
    }

    fn locate_srv(&self, resolver: &R, realm: &str, svc: LocateService, no_udp: bool, site: Option<&str>) -> (r: Result<
        Vec<ServerEntry>,
        LocateError,
    >)
        ensures
            srv_locates(*resolver, realm@, svc, no_udp, opt_view(site), list_outcome(r)),
    {
        let (_, _, label, _) = service_names(svc);
        let ghost mut udp: Seq<SrvRecordV> = Seq::empty();
        let mut list: Vec<ServerEntry> = Vec::new();
        assert(list_view(list@) =~= Seq::empty());
        assert(srv_entries_spec(Seq::empty(), Transport::Udp)->Ok_0 =~= Seq::empty());
        assert("_udp"@ != "_tcp"@) by {
            reveal_strlit("_udp");
            reveal_strlit("_tcp");
            assert("_udp"@[1] == 'u' && "_tcp"@[1] == 't');
        }
        if !no_udp {
            let found = locate_srv_dns(resolver, realm, label, "_udp", site);
            proof {
                udp = choose|records: Seq<SrvRecordV>| #[trigger]
                    srv_finds(*resolver, realm@, label@, "_udp"@, opt_view(site), records) && list_outcome(found)
                        == srv_entries_spec(records, protocol_transport("_udp"@));
            }
            match found {
                Ok(l) => {
                    list = l;
                },
                Err(e) => {
                    assert(srv_pair(*resolver, realm@, svc, no_udp, opt_view(site), udp, Seq::empty()));
                    return Err(e);
                },
            }
        }
        let ghost first = list_view(list@);
        let found = locate_srv_dns(resolver, realm, label, "_tcp", site);
        let ghost tcp = choose|records: Seq<SrvRecordV>| #[trigger]
            srv_finds(*resolver, realm@, label@, "_tcp"@, opt_view(site), records) && list_outcome(found)
                == srv_entries_spec(records, protocol_transport("_tcp"@));
        assert(srv_pair(*resolver, realm@, svc, no_udp, opt_view(site), udp, tcp));
        let mut second = match found {
            Ok(l) => l,
            Err(e) => return Err(e),
        };
        let ghost secondv = list_view(second@);
        list.append(&mut second);
        assert(list_view(list@) =~= first + secondv);
        if list.len() == 0 {
            return Err(LocateError::RealmUnknown);
        }
        Ok(list)
    }

    fn locate_dns(&self, resolver: &R, realm: &str, svc: LocateService, no_udp: bool) -> (r: Result<Vec<ServerEntry>, LocateError>)
        ensures
            dns_locates(self.profile@, *resolver, realm@, svc, no_udp, list_outcome(r)),
    {
        let (_, port, _, label) = service_names(svc);
        let transport = if no_udp { Transport::Tcp } else { Transport::TcpOrUdp };
        let held = self.sitename(realm);
        let site = match &held {
            Some(s) => Some(s.as_str()),
            None => None,
        };
        let ghost mut answers: Seq<UriRecordV> = Seq::empty();
        // URI first when enabled.
        if self.use_dns_uri() {
            let list = locate_uri(resolver, realm, label, site, transport, port);
            proof {
                answers = choose|answers: Seq<UriRecordV>| #[trigger]
                    uri_finds(*resolver, realm@, label@, opt_view(site), answers) && list_view(list@)
                        == uri_entries_spec(answers, transport, port);
                assert(uri_part(self.profile@, *resolver, realm@, svc, answers));
            }
            if list.len() > 0 {
                assert(list_view(list@).len() > 0);
                return Ok(list);
            }
        } else {
            assert(uri_part(self.profile@, *resolver, realm@, svc, answers));
        }
        self.locate_srv(resolver, realm, svc, no_udp, site)
    }

    /// Profile first; if empty and DNS enabled, URI records, then SRV
    /// _udp/_tcp.
    pub fn locate_server(&self, realm: &str, svc: LocateService, no_udp: bool) -> (r: Result<Vec<ServerEntry>, LocateError>)
        ensures
            locates(self.profile@, resolver_of(self.dns), realm@, svc, no_udp, list_outcome(r)),
    {
        if realm.unicode_len() == 0 {
            return Err(LocateError::RealmCantResolve);
        }
        let list = match self.profile_servers(realm, svc, no_udp) {
            Ok(l) => l,
            Err(e) => return Err(e),
        };
        assert(list_view(list@).len() == list@.len());
        if list.len() > 0 {
            return Ok(list);
        }
        if let Some(resolver) = self.dns {
            if self.use_dns("dns_lookup_kdc", true) {
                return self.locate_dns(resolver, realm, svc, no_udp);
            }
        }
        Err(LocateError::RealmUnknown)
    }

    /// Locates the KDCs of a realm, or only the primary ones.
    pub fn locate_kdc(&self, realm: &str, get_primaries: bool, no_udp: bool) -> (r: Result<Vec<ServerEntry>, LocateError>)
        ensures
            locates(
                self.profile@,
                resolver_of(self.dns),
                realm@,
                if get_primaries { LocateService::PrimaryKdc } else { LocateService::Kdc },
                no_udp,
                list_outcome(r),
            ),
    {
        let svc = if get_primaries { LocateService::PrimaryKdc } else { LocateService::Kdc };
        self.locate_server(realm, svc, no_udp)
    }
}

/// The profile comes first: where it names servers of a service, those are
/// the result, whatever DNS holds.
pub proof fn law_profile_first<R: DnsResolver>(
    nodes: Seq<NodeV>,
    dns: Option<R>,
    realm: Seq<char>,
    svc: LocateService,
    no_udp: bool,
    result: Result<Seq<ServerEntryV>, LocateErrorV>,
)
    requires
        realm.len() > 0,
        profile_servers_spec(nodes, realm, svc, no_udp) matches Ok(list) && list.len() > 0,
        locates(nodes, dns, realm, svc, no_udp, result),
    ensures
        result == profile_servers_spec(nodes, realm, svc, no_udp),
{
}

/// A realm that is located has at least one server.
pub proof fn law_located_is_some<R: DnsResolver>(
    nodes: Seq<NodeV>,
    dns: Option<R>,
    realm: Seq<char>,
    svc: LocateService,
    no_udp: bool,
    result: Result<Seq<ServerEntryV>, LocateErrorV>,
)
    requires
        locates(nodes, dns, realm, svc, no_udp, result),
    ensures
        result matches Ok(list) ==> list.len() > 0,
{
}

/// Without a resolver, or where the profile turns DNS off, a realm that the
/// profile does not list is unknown.
pub proof fn law_unknown_without_dns<R: DnsResolver>(
    nodes: Seq<NodeV>,
    dns: Option<R>,
    realm: Seq<char>,
    svc: LocateService,
    no_udp: bool,
    result: Result<Seq<ServerEntryV>, LocateErrorV>,
)
    requires
        realm.len() > 0,
        service_entries(nodes, realm, svc).len() == 0,
        dns is None || !use_dns_spec(nodes, "dns_lookup_kdc"@, true),
        locates(nodes, dns, realm, svc, no_udp, result),
    ensures
        result == Err::<Seq<ServerEntryV>, LocateErrorV>(LocateErrorV::RealmUnknown),
{
}

} // verus!
