//! Host-to-realm mapping: `host_realm` searches the profile's
//! `[domain_realm]` section by suffixes, and `fallback_host_realm` applies the
//! realm_try_domains and parent-domain heuristics, then the default realm.
use vstd::prelude::*;

use crate::der::{list_view, opt_view};
use crate::profile::parse::NodeV;
use crate::profile::{digit_char, first_spec, integer_spec, lookup_spec, Profile};
use crate::text::{begins_with, chars_of, ends_in, ends_with, find_char, find_text, lemma_find_char, lowercase, owned, text_from, text_to, to_lower, to_upper, trim_start, uppercase};

verus! {

/// A host name in lower case, without one dot at its end.
pub open spec fn clean_spec(host: Seq<char>) -> Seq<char> {
    let h = lowercase(host);
    if ends_in(h, '.') { h.drop_last() } else { h }
}

/// How many dots a text holds.
pub open spec fn dots(s: Seq<char>) -> nat
    decreases s.len(),
{
    if s.len() == 0 {
        0
    } else {
        dots(s.drop_last()) + (if s.last() == '.' { 1nat } else { 0nat })
    }
}

/// Whether a name is a numeric address: digits and dots with exactly three
/// dots, or any colon.
pub open spec fn numeric_address_spec(name: Seq<char>) -> bool {
    ||| (forall|i: int| 0 <= i < name.len() ==> digit_char(#[trigger] name[i]) || name[i] == '.') && dots(name) == 3
    ||| name.contains(':')
}

/// The realm that `[domain_realm]` gives for a name: the name itself is
/// looked up, then each suffix of it, with the dot in front and without; the
/// first match wins. The empty realm where none matches.
pub open spec fn domain_realm_spec(nodes: Seq<NodeV>, name: Seq<char>) -> Seq<char>
    decreases name.len(),
{
    match first_spec(nodes, seq!["domain_realm"@, name]) {
        Some(realm) => realm,
        None => if name.len() == 0 {
            Seq::empty()
        } else if name[0] == '.' {
            domain_realm_spec(nodes, name.skip(1))
        } else {
            match find_char(name, '.') {
                None => Seq::empty(),
                Some(dot) => if 0 < dot <= name.len() {
                    domain_realm_spec(nodes, name.skip(dot))
                } else {
                    Seq::empty()
                },
            }
        },
    }
}

/// The realm of a host; the empty one is the referral realm.
pub open spec fn host_realm_spec(nodes: Seq<NodeV>, host: Seq<char>) -> Seq<char> {
    let h = clean_spec(host);
    if numeric_address_spec(h) {
        Seq::empty()
    } else {
        domain_realm_spec(nodes, h)
    }
}

/// Whether the profile has KDCs of a realm.
pub open spec fn locatable_spec(nodes: Seq<NodeV>, realm: Seq<char>) -> bool {
    lookup_spec(nodes, seq!["realms"@, realm, "kdc"@]).len() > 0
}

/// The first of a domain and its parents, up to a limit, that is a realm with
/// KDCs; a single label is never tried.
pub open spec fn try_domains_spec(nodes: Seq<NodeV>, domain: Seq<char>, limit: int) -> Option<Seq<char>>
    decreases domain.len(),
{
    if limit < 0 {
        None
    } else {
        match find_char(domain, '.') {
            None => None,
            Some(dot) => if locatable_spec(nodes, domain) {
                Some(domain)
            } else if 0 <= dot < domain.len() {
                try_domains_spec(nodes, domain.skip(dot + 1), limit - 1)
            } else {
                None
            },
        }
    }
}

/// How many domains to try as realms: -1 means no search, 0 only the full
/// domain, and so on.
pub open spec fn try_limit_spec(nodes: Seq<NodeV>) -> int {
    match first_spec(nodes, seq!["libdefaults"@, "realm_try_domains"@]) {
        None => -1,
        Some(s) => match integer_spec(trim_start(s)) {
            Some(v) => v as int,
            None => -1,
        },
    }
}

/// The realms that a domain falls back to: one found by trying domains, else
/// the parent domain.
pub open spec fn domain_fallback_spec(nodes: Seq<NodeV>, domain: Seq<char>) -> Option<Seq<char>> {
    match try_domains_spec(nodes, domain, try_limit_spec(nodes)) {
        Some(realm) => Some(realm),
        None => match find_char(domain, '.') {
            Some(dot) => Some(domain.skip(dot + 1)),
            None => None,
        },
    }
}

/// The default realm.
pub open spec fn default_realm_spec(nodes: Seq<NodeV>) -> Option<Seq<char>> {
    first_spec(nodes, seq!["libdefaults"@, "default_realm"@])
}

/// The realm to fall back to for a host, if there is one.
pub open spec fn fallback_spec(nodes: Seq<NodeV>, host: Seq<char>) -> Option<Seq<char>> {
    let h = clean_spec(host);
    let found = if numeric_address_spec(h) { None } else { domain_fallback_spec(nodes, uppercase(h)) };
    if found is Some { found } else { default_realm_spec(nodes) }
}

/// A list of what is there.
pub open spec fn as_list(o: Option<Seq<char>>) -> Seq<Seq<char>> {
    match o {
        Some(x) => seq![x],
        None => Seq::empty(),
    }
}

fn clean(host: &str) -> (r: String)
    ensures
        r@ == clean_spec(host@),
{
    let h = to_lower(host);
    if ends_with(h.as_str(), '.') {
        let n: usize = h.as_str().unicode_len();
        let r = owned(text_to(h.as_str(), n - 1));
        assert(r@ =~= h@.drop_last());
        return r;
    }
    h
}

fn is_numeric_address(name: &str) -> (r: bool)
    ensures
        r == numeric_address_spec(name@),
{
    let cs = chars_of(name);
    let mut count: usize = 0;
    let mut plain = true;
    let mut colon = false;
    let mut i: usize = 0;
    assert(cs@.take(0) =~= Seq::empty());
    while i < cs.len()
        invariant
            i <= cs@.len(),
            cs@ == name@,
            count <= i,
            count == dots(cs@.take(i as int)),
            plain == (forall|j: int| 0 <= j < i ==> digit_char(#[trigger] cs@[j]) || cs@[j] == '.'),
            colon == cs@.take(i as int).contains(':'),
        decreases cs@.len() - i,
    {
        let c = cs[i];
        let ghost before = cs@.take(i as int);
        let ghost after = cs@.take(i + 1);
        proof {
            assert(after.drop_last() =~= before);
            assert(after.last() == c);
            assert(after =~= before.push(c));
            if before.contains(':') {
                let k = choose|k: int| 0 <= k < before.len() && before[k] == ':';
                assert(after[k] == ':');
            }
            if after.contains(':') && c != ':' {
                let k = choose|k: int| 0 <= k < after.len() && after[k] == ':';
                assert(before[k] == ':');
            }
            if c == ':' {
                assert(after[i as int] == ':');
            }
        }
        if c == '.' {
            count = count + 1;
        } else if c < '0' || c > '9' {
            assert(!(digit_char(cs@[i as int]) || cs@[i as int] == '.'));
            plain = false;
        }
        if c == ':' {
            colon = true;
        }
        i = i + 1;
    }
    assert(cs@.take(i as int) =~= name@);
    (plain && count == 3) || colon
}

fn domain_realm(profile: &Profile, name: &str) -> (r: String)
    ensures
        r@ == domain_realm_spec(profile@, name@),
{
    let mut rest = name;
    let mut more: usize = name.unicode_len();
    loop
        invariant
            more == rest@.len(),
            domain_realm_spec(profile@, name@) == domain_realm_spec(profile@, rest@),
        decreases more,
    {
        let names: [&str; 2] = ["domain_realm", rest];
        assert(list_view(names@) =~= seq!["domain_realm"@, rest@]);
        if let Some(realm) = profile.get_string(&names) {
            return realm;
        }
        proof {
            lemma_find_char(rest@, '.');
        }
        if more == 0 {
            return String::new();
        }
        let at: usize = if begins_with(rest, '.') {
            1
        } else {
            match find_text(rest, '.') {
                Some(dot) => dot,
                None => return String::new(),
            }
        };
        rest = text_from(rest, at);
        more = more - at;
    }
}

/// Searches the profile's `[domain_realm]` for the host, then each suffix,
/// with and without the dot in front, so ".dom" keys match; the first match
/// wins. Unmapped hosts give `[""]`, the referral realm.
pub fn host_realm(profile: &Profile, host: &str) -> (r: Vec<String>)
    ensures
        list_view(r@) == seq![host_realm_spec(profile@, host@)],
{
    let host = clean(host);
    let realm = if is_numeric_address(host.as_str()) {
        String::new()
    } else {
        domain_realm(profile, host.as_str())
    };
    let mut out: Vec<String> = Vec::new();
    out.push(realm);
    assert(list_view(out@) =~= seq![realm@]);
    out
}

fn realm_is_locatable(profile: &Profile, realm: &str) -> (r: bool)
    ensures
        r == locatable_spec(profile@, realm@),
{
    let names: [&str; 3] = ["realms", realm, "kdc"];
    assert(list_view(names@) =~= seq!["realms"@, realm@, "kdc"@]);
    let values = profile.get_values(&names);
    assert(list_view(values@).len() == values@.len());
    values.len() > 0
}

fn try_domains(profile: &Profile, domain: &str, limit: i64) -> (r: Option<String>)
    ensures
        opt_view(r) == try_domains_spec(profile@, domain@, limit as int),
{
    let mut rest = domain;
    let mut left: i64 = limit;
    let mut more: usize = domain.unicode_len();
    while left >= 0
        invariant
            more == rest@.len(),
            left >= -1 || left == limit,
            try_domains_spec(profile@, domain@, limit as int) == try_domains_spec(profile@, rest@, left as int),
        decreases more,
    {
        proof {
            lemma_find_char(rest@, '.');
        }
        let dot: usize = match find_text(rest, '.') {
            Some(d) => d,
            None => return None,
        };
        if realm_is_locatable(profile, rest) {
            return Some(owned(rest));
        }
        rest = text_from(rest, dot + 1);
        more = more - (dot + 1);
        left = left - 1;
    }
    None
}

fn domain_fallback(profile: &Profile, domain: &str) -> (r: Option<String>)
    ensures
        opt_view(r) == domain_fallback_spec(profile@, domain@),
{
    let names: [&str; 2] = ["libdefaults", "realm_try_domains"];
    assert(list_view(names@) =~= seq!["libdefaults"@, "realm_try_domains"@]);
    let limit: i64 = match profile.get_integer(&names, -1) {
        Ok(v) => v,
        Err(_) => -1,
    };
    if let Some(realm) = try_domains(profile, domain, limit) {
        return Some(realm);
    }
    // Upper-cased parent domain, regardless of locatability.
    match find_text(domain, '.') {
        Some(dot) => Some(owned(text_from(domain, dot + 1))),
        None => None,
    }
}

/// The domain heuristics (realm_try_domains, then the parent domain), then
/// the default realm.
pub fn fallback_host_realm(profile: &Profile, host: &str) -> (r: Vec<String>)
    ensures
        list_view(r@) == as_list(fallback_spec(profile@, host@)),
{
    let host = clean(host);
    let found = if is_numeric_address(host.as_str()) {
        None
    } else {
        domain_fallback(profile, to_upper(host.as_str()).as_str())
    };
    let realm = if found.is_some() { found } else { default_realm(profile) };
    let mut out: Vec<String> = Vec::new();
    let ghost want = opt_view(realm);
    if let Some(r) = realm {
        out.push(r);
    }
    assert(list_view(out@) =~= as_list(want));
    out
}

/// `[libdefaults]` default_realm.
pub fn default_realm(profile: &Profile) -> (r: Option<String>)
    ensures
        opt_view(r) == default_realm_spec(profile@),
{
    let names: [&str; 2] = ["libdefaults", "default_realm"];
    assert(list_view(names@) =~= seq!["libdefaults"@, "default_realm"@]);
    profile.get_string(&names)
}

/// `[realms]` `<realm>` default_domain.
pub fn realm_domain(profile: &Profile, realm: &str) -> (r: Option<String>)
    ensures
        opt_view(r) == first_spec(profile@, seq!["realms"@, realm@, "default_domain"@]),
{
    let names: [&str; 3] = ["realms", realm, "default_domain"];
    assert(list_view(names@) =~= seq!["realms"@, realm@, "default_domain"@]);
    profile.get_string(&names)
}

/// A host whose own name `[domain_realm]` maps is of that realm, whatever is
/// said of the domains it is in.
pub proof fn law_host_entry_wins(nodes: Seq<NodeV>, host: Seq<char>)
    requires
        !numeric_address_spec(clean_spec(host)),
        first_spec(nodes, seq!["domain_realm"@, clean_spec(host)]) is Some,
    ensures
        host_realm_spec(nodes, host) == first_spec(nodes, seq!["domain_realm"@, clean_spec(host)])->0,
{
}

/// Without a limit for trying domains, a host of a domain falls back to its
/// parent domain in upper case, whichever realms the profile has.
pub proof fn law_parent_domain(nodes: Seq<NodeV>, host: Seq<char>)
    requires
        !numeric_address_spec(clean_spec(host)),
        first_spec(nodes, seq!["libdefaults"@, "realm_try_domains"@]) is None,
        find_char(uppercase(clean_spec(host)), '.') is Some,
    ensures
        fallback_spec(nodes, host) == Some(
            uppercase(clean_spec(host)).skip(find_char(uppercase(clean_spec(host)), '.')->0 + 1),
        ),
{
}

} // verus!
