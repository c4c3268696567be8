//! What holds of every search for a realm's servers.
use vstd::prelude::*;

use crate::locate::dns::{lookup_name_spec, srv_entries_spec, srv_entry_spec, uri_entry_spec, SrvRecordV};
use crate::locate::hostrealm::{clean_spec, default_realm_spec, domain_realm_spec, fallback_spec, host_realm_spec, numeric_address_spec, try_domains_spec};
use crate::locate::uri::{host_end, host_string_spec, https_spec, marks_primary, port_spec, uri_fields_spec};
use crate::locate::{profile_entries_spec, profile_entry_spec, service_entries, service_key, service_label, service_port, srv_result_spec, uri_label, use_dns_spec, wanted_transport, LocateErrorV, LocateService, ServerEntryV, Transport};
use crate::profile::parse::NodeV;
use crate::profile::{all_digits, boolean_spec, digit_char, digits_value, first_spec, integer_spec, lookup_spec};
use crate::text::{begins, ends_in, find_char, lowercase, trim_start, uppercase};

verus! {

/// What each service is called in the profile and in DNS, and its port.
pub proof fn law_services()
    ensures
        service_key(LocateService::Kdc) == "kdc"@,
        service_key(LocateService::PrimaryKdc) == "primary_kdc"@,
        service_key(LocateService::Kadmin) == "admin_server"@,
        service_key(LocateService::Kpasswd) == "kpasswd_server"@,
        service_port(LocateService::Kdc) == 88,
        service_port(LocateService::PrimaryKdc) == 88,
        service_port(LocateService::Kadmin) == 749,
        service_port(LocateService::Kpasswd) == 464,
        service_label(LocateService::Kdc) == "_kerberos"@,
        service_label(LocateService::PrimaryKdc) == "_kerberos-master"@,
        service_label(LocateService::Kadmin) == "_kerberos-adm"@,
        service_label(LocateService::Kpasswd) == "_kpasswd"@,
        uri_label(LocateService::Kdc) == "_kerberos"@,
        uri_label(LocateService::PrimaryKdc) == "_kerberos"@,
        uri_label(LocateService::Kadmin) == "_kerberos-adm"@,
        uri_label(LocateService::Kpasswd) == "_kpasswd"@,
        wanted_transport(true) == Transport::Tcp,
        wanted_transport(false) == Transport::TcpOrUdp,
{
}

/// The servers that a profile names for a realm are the values of the
/// service's key in the realm's section, in their order; for the primary KDC
/// an older key counts where that one has none.
pub proof fn law_profile_keys(nodes: Seq<NodeV>, realm: Seq<char>, svc: LocateService)
    ensures
        ({
            let named = lookup_spec(nodes, seq!["realms"@, realm, service_key(svc)]);
            &&& svc != LocateService::PrimaryKdc || named.len() > 0 ==> service_entries(nodes, realm, svc) == named
            &&& svc == LocateService::PrimaryKdc && named.len() == 0 ==> service_entries(nodes, realm, svc) == lookup_spec(
                nodes,
                seq!["realms"@, realm, "master_kdc"@],
            )
        }),
{
}

/// A server that the profile names: a path is a local socket, reached by TCP;
/// with `https://` it is a proxy, at port 443 unless another is given, with
/// the path behind it; else a host, at the service's port unless another is
/// given.
pub proof fn law_named_server(entry: Seq<char>, t: Transport, port: u16)
    requires
        t != Transport::Https,
    ensures
        begins(entry, '/') ==> profile_entry_spec(entry, t, port) == Ok::<ServerEntryV, LocateErrorV>(
            ServerEntryV { hostname: entry, port: 0, transport: Transport::Tcp, uri_path: None, primary: None },
        ),
        !begins(entry, '/') && profile_entry_spec(entry, t, port) is Ok ==> {
            let e = profile_entry_spec(entry, t, port)->Ok_0;
            let (proxy, host, path) = https_spec(entry);
            &&& proxy is Some ==> e.transport == Transport::Https && e.uri_path == path && host_string_spec(host, 443) == Ok::<
                (Option<Seq<char>>, u16),
                LocateErrorV,
            >((Some(e.hostname), e.port))
            &&& proxy is None ==> e.transport == t && e.uri_path is None && host_string_spec(entry, port) == Ok::<
                (Option<Seq<char>>, u16),
                LocateErrorV,
            >((Some(e.hostname), e.port))
            &&& e.primary is None
        },
{
}

/// Each server named in the profile is one of the list, in the same order.
pub proof fn law_named_servers(entries: Seq<Seq<char>>, t: Transport, port: u16)
    requires
        profile_entries_spec(entries, t, port) is Ok,
    ensures
        profile_entries_spec(entries, t, port)->Ok_0.len() == entries.len(),
        forall|i: int|
            0 <= i < entries.len() ==> profile_entry_spec(#[trigger] entries[i], t, port) == Ok::<ServerEntryV, LocateErrorV>(
                profile_entries_spec(entries, t, port)->Ok_0[i],
            ),
    decreases entries.len(),
{
    if entries.len() > 0 {
        let before = entries.drop_last();
        law_named_servers(before, t, port);
        assert forall|i: int| 0 <= i < entries.len() implies profile_entry_spec(#[trigger] entries[i], t, port) == Ok::<
            ServerEntryV,
            LocateErrorV,
        >(profile_entries_spec(entries, t, port)->Ok_0[i]) by {
            if i < entries.len() - 1 {
                assert(before[i] == entries[i]);
            }
        }
    }
}

/// A port is a decimal number up to 65535; a host with a port behind a colon
/// has that port, a host alone the default.
pub proof fn law_ports(s: Seq<char>, p: u16)
    ensures
        port_spec(s) is Ok <==> s.len() > 0 && all_digits(s) && digits_value(s) <= 65_535,
        port_spec(s) is Ok ==> port_spec(s)->Ok_0 == digits_value(s),
        host_string_spec(s, p) matches Ok((Some(host), port)) ==> host.len() > 0,
        s.len() == 0 || s[0] == ':' ==> host_string_spec(s, p) is Err,
{
}

/// What a proxy's address is made of: what stands between `https://` and the
/// next slash, and the path from that slash on.
pub proof fn law_proxy_address(host: Seq<char>, path: Seq<char>)
    requires
        find_char(host, '/') is None,
        path.len() == 0 || path[0] == '/',
    ensures
        ({
            let s = "https://"@ + host + path;
            https_spec(s) == (Some(Transport::Https), host, if path.len() == 0 { None } else { Some(path) })
        }),
{
    let n = "https://"@.len() as int;
    let s = "https://"@ + host + path;
    assert(s.take(n) =~= "https://"@);
    assert(s.skip(n) =~= host + path);
    lemma_find_behind(host, path);
    if path.len() == 0 {
        assert(host + path =~= host);
    } else {
        assert((host + path).take(host.len() as int) =~= host);
        assert((host + path).skip(host.len() as int) =~= path);
    }
}

proof fn lemma_find_behind(a: Seq<char>, b: Seq<char>)
    requires
        find_char(a, '/') is None,
        b.len() == 0 || b[0] == '/',
    ensures
        find_char(a + b, '/') == (if b.len() == 0 { None } else { Some(a.len() as int) }),
    decreases a.len(),
{
    if a.len() == 0 {
        assert(a + b =~= b);
    } else {
        assert((a + b).drop_first() =~= a.drop_first() + b);
        lemma_find_behind(a.drop_first(), b);
    }
}

/// The name that is looked up in DNS: the service, the protocol where there is
/// one, the site where there is one, and the realm, each with a dot behind it;
/// no name is made of a realm with a NUL.
pub proof fn law_dns_name(realm: Seq<char>, service: Seq<char>, protocol: Option<Seq<char>>, site: Option<Seq<char>>)
    requires
        realm.len() > 0,
    ensures
        realm.contains('\0') ==> lookup_name_spec(realm, service, protocol, site) is None,
        !realm.contains('\0') ==> lookup_name_spec(realm, service, protocol, site) == Some(
            service + seq!['.'] + (if protocol is Some { protocol->0 + seq!['.'] } else { Seq::empty() }) + (if site is Some {
                site->0 + "._sites."@
            } else {
                Seq::empty()
            }) + realm + (if realm.last() == '.' { Seq::empty() } else { seq!['.'] }),
        ),
{
    let s0 = service.push('.');
    let s1 = match protocol {
        Some(p) => (s0 + p).push('.'),
        None => s0,
    };
    let s2 = match site {
        Some(t) => s1 + t + "._sites."@,
        None => s1,
    };
    let s3 = s2 + realm;
    let a = service + seq!['.'];
    let b = if protocol is Some { protocol->0 + seq!['.'] } else { Seq::empty() };
    let c = if site is Some { site->0 + "._sites."@ } else { Seq::empty() };
    assert(s0 =~= a);
    assert(s1 =~= a + b);
    assert(s2 =~= a + b + c);
    assert(s3.last() == realm.last());
    assert(s3.push('.') =~= s3 + seq!['.']);
    assert(s3 =~= s3 + Seq::empty());
}

/// A server of an SRV record has the record's port, the transport asked by,
/// and the record's host with one dot behind it; the one record of a service
/// that a domain does not have says so.
pub proof fn law_srv_servers(r: SrvRecordV, rs: Seq<SrvRecordV>, t: Transport, i: int)
    ensures
        srv_entry_spec(r, t).port == r.port,
        srv_entry_spec(r, t).transport == t,
        srv_entry_spec(r, t).uri_path is None,
        srv_entry_spec(r, t).primary is None,
        !ends_in(r.target, '.') ==> srv_entry_spec(r, t).hostname == r.target.push('.'),
        rs.len() == 1 && (rs[0].target == "."@ || rs[0].target.len() == 0) ==> srv_entries_spec(rs, t) == Err::<
            Seq<ServerEntryV>,
            LocateErrorV,
        >(LocateErrorV::NoService),
        srv_entries_spec(rs, t) is Ok ==> srv_entries_spec(rs, t)->Ok_0.len() == rs.len() && (0 <= i < rs.len()
            ==> srv_entries_spec(rs, t)->Ok_0[i] == srv_entry_spec(rs[i], t)),
        rs.len() > 1 || rs.len() == 0 ==> srv_entries_spec(rs, t) is Ok,
{
}

/// The servers that SRV records give are those of UDP, then those of TCP; none
/// at all is an unknown realm.
pub proof fn law_srv_order(udp: Seq<SrvRecordV>, tcp: Seq<SrvRecordV>)
    ensures
        srv_result_spec(udp, tcp) matches Ok(list) ==> list.len() > 0 && list == srv_entries_spec(udp, Transport::Udp)->Ok_0
            + srv_entries_spec(tcp, Transport::Tcp)->Ok_0,
        udp.len() == 0 && tcp.len() == 0 ==> srv_result_spec(udp, tcp) == Err::<Seq<ServerEntryV>, LocateErrorV>(
            LocateErrorV::RealmUnknown,
        ),
{
}

/// A server of a URI record has the transport that the record says, which must
/// be one that is asked for, counts as primary where its flags have an `m`,
/// and is at the default port, or 443 for a proxy, unless it gives another.
pub proof fn law_uri_server(target: Seq<char>, want: Transport, port: u16)
    requires
        uri_entry_spec(target, want, port) is Some,
    ensures
        ({
            let e = uri_entry_spec(target, want, port)->0;
            let (t, rest, primary) = uri_fields_spec(target)->0;
            let (_, host, path) = https_spec(rest);
            &&& uri_fields_spec(target) is Some
            &&& e.transport == t
            &&& want == Transport::TcpOrUdp || want == t
            &&& e.primary == Some(primary)
            &&& t == Transport::Https ==> e.uri_path == path && host_string_spec(host, 443) == Ok::<
                (Option<Seq<char>>, u16),
                LocateErrorV,
            >((Some(e.hostname), e.port))
            &&& t != Transport::Https ==> e.uri_path is None && host_string_spec(rest, port) == Ok::<
                (Option<Seq<char>>, u16),
                LocateErrorV,
            >((Some(e.hostname), e.port))
        }),
{
}

/// Flags mark a primary server exactly where they have an `m` in either case.
pub proof fn law_primary_mark(flags: Seq<char>)
    ensures
        marks_primary(flags) <==> flags.contains('m') || flags.contains('M'),
{
}

/// Whether DNS is asked: as the named setting says, else as the general one
/// does, else by default; what is no truth value counts as the default.
pub proof fn law_dns_asked(nodes: Seq<NodeV>, name: Seq<char>, default: bool)
    ensures
        ({
            let own = first_spec(nodes, seq!["libdefaults"@, name]);
            let all = first_spec(nodes, seq!["libdefaults"@, "dns_fallback"@]);
            let r = use_dns_spec(nodes, name, default);
            &&& own is Some && boolean_spec(own->0) is Some ==> r == boolean_spec(own->0)->0
            &&& own is Some && boolean_spec(own->0) is None ==> r == default
            &&& own is None && all is Some && boolean_spec(all->0) is Some ==> r == boolean_spec(all->0)->0
            &&& own is None && all is None ==> r == default
        }),
{
}

/// The realm of a host: that of its own entry, else that of the domain it is
/// in, with and without the leading dot, from the nearest on; a numeric
/// address has none. The host is taken in lower case without a dot at its end.
pub proof fn law_host_domain(nodes: Seq<NodeV>, host: Seq<char>, name: Seq<char>, i: int)
    ensures
        ends_in(lowercase(host), '.') ==> clean_spec(host) == lowercase(host).drop_last(),
        !ends_in(lowercase(host), '.') ==> clean_spec(host) == lowercase(host),
        numeric_address_spec(clean_spec(host)) ==> host_realm_spec(nodes, host).len() == 0,
        first_spec(nodes, seq!["domain_realm"@, name]) is Some ==> domain_realm_spec(nodes, name) == first_spec(
            nodes,
            seq!["domain_realm"@, name],
        )->0,
        first_spec(nodes, seq!["domain_realm"@, name]) is None && name.len() > 0 && name[0] == '.' ==> domain_realm_spec(nodes, name)
            == domain_realm_spec(nodes, name.skip(1)),
        first_spec(nodes, seq!["domain_realm"@, name]) is None && name.len() > 0 && name[0] != '.' && find_char(name, '.') == Some(i)
            && 0 < i <= name.len() ==> domain_realm_spec(nodes, name) == domain_realm_spec(nodes, name.skip(i)),
        first_spec(nodes, seq!["domain_realm"@, name]) is None && name.len() > 0 && name[0] != '.' && find_char(name, '.') is None
            ==> domain_realm_spec(nodes, name).len() == 0,
{
}

/// Where nothing is known of a host's domain its realm is the domain in upper
/// case, and for a host without one, or a numeric address, the default realm.
pub proof fn law_host_fallback(nodes: Seq<NodeV>, host: Seq<char>)
    ensures
        numeric_address_spec(clean_spec(host)) ==> fallback_spec(nodes, host) == default_realm_spec(nodes),
        find_char(uppercase(clean_spec(host)), '.') is None ==> fallback_spec(nodes, host) == default_realm_spec(nodes),
        default_realm_spec(nodes) == first_spec(nodes, seq!["libdefaults"@, "default_realm"@]),
        ({
            let h = uppercase(clean_spec(host));
            first_spec(nodes, seq!["libdefaults"@, "realm_try_domains"@]) is None && !numeric_address_spec(clean_spec(host))
                && find_char(h, '.') is Some ==> fallback_spec(nodes, host) == Some(h.skip(find_char(h, '.')->0 + 1))
        }),
{
}

/// A host with a port behind a colon is that host at that port; alone it is at
/// the default port.
pub proof fn law_host_and_port(host: Seq<char>, digits: Seq<char>, p: u16)
    requires
        host.len() > 0,
        host[0] != '[',
        !all_digits(host),
        forall|i: int| 0 <= i < host.len() ==> (#[trigger] host[i]) != ' ' && host[i] != '\t' && host[i] != ':',
    ensures
        host_string_spec(host, p) == Ok::<(Option<Seq<char>>, u16), LocateErrorV>((Some(host), p)),
        digits.len() > 0 && all_digits(digits) && digits_value(digits) <= 65_535 ==> host_string_spec(host + seq![':'] + digits, p)
            == Ok::<(Option<Seq<char>>, u16), LocateErrorV>((Some(host), digits_value(digits) as u16)),
{
    lemma_host_end(host, Seq::empty());
    assert(host + Seq::<char>::empty() =~= host);
    let tail = seq![':'] + digits;
    let s = host + seq![':'] + digits;
    assert(s =~= host + tail);
    lemma_host_end(host, tail);
    let k = choose|k: int| 0 <= k < host.len() && !digit_char(#[trigger] host[k]);
    assert(s[k] == host[k]);
    assert(s[0] == host[0]);
    assert(!all_digits(s));
    assert(s.take(host.len() as int) =~= host);
    assert(s.skip(host.len() as int) =~= tail);
    assert(tail.skip(1) =~= digits);
}

proof fn lemma_host_end(a: Seq<char>, b: Seq<char>)
    requires
        forall|i: int| 0 <= i < a.len() ==> (#[trigger] a[i]) != ' ' && a[i] != '\t' && a[i] != ':',
        b.len() == 0 || b[0] == ':',
    ensures
        host_end(a + b) == (if b.len() == 0 { None } else { Some(a.len() as int) }),
    decreases a.len(),
{
    if a.len() == 0 {
        assert(a + b =~= b);
    } else {
        assert((a + b).drop_first() =~= a.drop_first() + b);
        assert((a + b)[0] == a[0]);
        assert forall|i: int| 0 <= i < a.drop_first().len() implies (#[trigger] a.drop_first()[i]) != ' ' && a.drop_first()[i] != '\t'
            && a.drop_first()[i] != ':' by {
            assert(a.drop_first()[i] == a[i + 1]);
        }
        lemma_host_end(a.drop_first(), b);
    }
}

/// A host in brackets, such as an address with colons in it, is what stands
/// between them, at the port behind the colon that follows.
pub proof fn law_host_in_brackets(host: Seq<char>, digits: Seq<char>, p: u16)
    requires
        host.len() > 0,
        forall|i: int| 0 <= i < host.len() ==> (#[trigger] host[i]) != ']',
        digits.len() > 0 && all_digits(digits) && digits_value(digits) <= 65_535,
    ensures
        host_string_spec(seq!['['] + host + seq![']'], p) == Ok::<(Option<Seq<char>>, u16), LocateErrorV>((Some(host), p)),
        host_string_spec(seq!['['] + host + seq![']', ':'] + digits, p) == Ok::<(Option<Seq<char>>, u16), LocateErrorV>(
            (Some(host), digits_value(digits) as u16),
        ),
{
    let a = seq!['['] + host + seq![']'];
    assert(a[0] == '[' && !digit_char(a[0]));
    assert(a.skip(1) =~= host + seq![']']);
    lemma_bracket(host, seq![']']);
    assert((host + seq![']']).take(host.len() as int) =~= host);
    assert((host + seq![']']).skip(host.len() as int + 1) =~= Seq::empty());
    let tail = seq![']', ':'] + digits;
    let b = seq!['['] + host + seq![']', ':'] + digits;
    assert(b[0] == '[' && !digit_char(b[0]));
    assert(b.skip(1) =~= host + tail);
    lemma_bracket(host, tail);
    assert((host + tail).take(host.len() as int) =~= host);
    let rest = (host + tail).skip(host.len() as int + 1);
    assert(rest =~= seq![':'] + digits);
    assert(rest.skip(1) =~= digits);
}

proof fn lemma_bracket(a: Seq<char>, b: Seq<char>)
    requires
        forall|i: int| 0 <= i < a.len() ==> (#[trigger] a[i]) != ']',
        b.len() > 0 && b[0] == ']',
    ensures
        find_char(a + b, ']') == Some(a.len() as int),
    decreases a.len(),
{
    let s = a + b;
    if a.len() == 0 {
        assert(s[0] == ']');
    } else {
        assert(s[0] == a[0]);
        assert(s.drop_first() =~= a.drop_first() + b);
        lemma_bracket(a.drop_first(), b);
    }
}

/// Where realms are to be sought among domains, a host's own name in upper
/// case is its realm if KDCs are listed for it, else the domain that it is in
/// if KDCs are listed for that and one step up is allowed.
pub proof fn law_host_domain_sought(nodes: Seq<NodeV>, host: Seq<char>, n: int)
    requires
        !numeric_address_spec(clean_spec(host)),
        first_spec(nodes, seq!["libdefaults"@, "realm_try_domains"@]) is Some,
        integer_spec(trim_start(first_spec(nodes, seq!["libdefaults"@, "realm_try_domains"@])->0)) is Some,
        integer_spec(trim_start(first_spec(nodes, seq!["libdefaults"@, "realm_try_domains"@])->0))->0 == n,
        find_char(uppercase(clean_spec(host)), '.') is Some,
    ensures
        ({
            let h = uppercase(clean_spec(host));
            let up = h.skip(find_char(h, '.')->0 + 1);
            let own = lookup_spec(nodes, seq!["realms"@, h, "kdc"@]).len() > 0;
            let above = lookup_spec(nodes, seq!["realms"@, up, "kdc"@]).len() > 0;
            &&& n >= 0 && own ==> fallback_spec(nodes, host) == Some(h)
            &&& n >= 1 && !own && above && find_char(up, '.') is Some ==> fallback_spec(nodes, host) == Some(up)
            &&& n == 0 && !own ==> fallback_spec(nodes, host) == Some(up)
            &&& n < 0 ==> fallback_spec(nodes, host) == Some(up)
        }),
{
    reveal_with_fuel(try_domains_spec, 3);
    lemma_dot_inside(uppercase(clean_spec(host)));
}

proof fn lemma_dot_inside(s: Seq<char>)
    ensures
        find_char(s, '.') matches Some(i) ==> 0 <= i < s.len(),
    decreases s.len(),
{
    if s.len() > 0 {
        lemma_dot_inside(s.drop_first());
    }
}

} // verus!
