//! Config entries: values kept in a cache as credentials of a reserved realm.
use vstd::prelude::*;
use vstd::utf8::encode_utf8;

use crate::asn1::{general_ok, Dup, GeneralString};
use crate::bytes::{copy, same};
use crate::ccache::retrieve::match_spec;
use crate::ccache::{match_any, CcCredential, CcCredentialV, MatchCred, MatchCredV, CONFIG_PRINC, CONFIG_REALM};
use crate::der::{list_view, opt_view};
use crate::text::{is_ascii, lemma_ascii, same_text};
use crate::types::{EncryptionKey, EncryptionKeyV, PrincipalName, PrincipalNameV};

verus! {

/// A principal and its realm.
pub type Whom = Option<(PrincipalNameV, Seq<char>)>;

/// Whether `name` and `realm` name a config entry.
pub open spec fn is_config_spec(name: PrincipalNameV, realm: Seq<char>) -> bool {
    realm == CONFIG_REALM@ && name.name_string.len() > 0 && name.name_string[0] == encode_utf8(CONFIG_PRINC@)
}

/// An octet of an unparsed name: separators, the escape character itself and
/// some control characters are escaped.
pub open spec fn escaped_octet(b: u8) -> Seq<char> {
    if b == 0x2f {
        seq!['\\', '/']
    } else if b == 0x40 {
        seq!['\\', '@']
    } else if b == 0x5c {
        seq!['\\', '\\']
    } else if b == 0x09 {
        seq!['\\', 't']
    } else if b == 0x0a {
        seq!['\\', 'n']
    } else if b == 0x08 {
        seq!['\\', 'b']
    } else if b == 0 {
        seq!['\\', '0']
    } else {
        seq![b as char]
    }
}

/// The octets of a part of a name, escaped.
pub open spec fn escaped(s: Seq<u8>) -> Seq<char>
    decreases s.len(),
{
    if s.len() == 0 {
        Seq::empty()
    } else {
        escaped_octet(s[0]) + escaped(s.drop_first())
    }
}

/// Components behind a first one, each behind a slash.
pub open spec fn more_components(cs: Seq<Seq<u8>>) -> Seq<char>
    decreases cs.len(),
{
    if cs.len() == 0 {
        Seq::empty()
    } else {
        seq!['/'] + escaped(cs[0]) + more_components(cs.drop_first())
    }
}

/// Components, separated by slashes.
pub open spec fn all_components(cs: Seq<Seq<u8>>) -> Seq<char> {
    if cs.len() == 0 {
        Seq::empty()
    } else {
        escaped(cs[0]) + more_components(cs.drop_first())
    }
}

/// A principal as text: `a/b@REALM`.
pub open spec fn unparse_spec(name: PrincipalNameV, realm: Seq<char>) -> Seq<char> {
    all_components(name.name_string) + seq!['@'] + escaped(encode_utf8(realm))
}

/// Octets as a name component, empty where a component cannot hold them.
pub open spec fn component_spec(b: Seq<u8>) -> Seq<u8> {
    if general_ok(b) { b } else { Seq::empty() }
}

/// The components of a config entry's server principal.
pub open spec fn config_parts(principal: Whom, key: Seq<char>) -> Seq<Seq<u8>> {
    let two = seq![component_spec(encode_utf8(CONFIG_PRINC@)), component_spec(encode_utf8(key))];
    match principal {
        None => two,
        Some((p, realm)) => two.push(component_spec(encode_utf8(unparse_spec(p, realm)))),
    }
}

/// The server principal of a config entry.
pub open spec fn config_principal_spec(principal: Whom, key: Seq<char>) -> PrincipalNameV {
    PrincipalNameV { name_type: 0, name_string: config_parts(principal, key) }
}

/// The credential that holds a config value.
pub open spec fn config_cred_spec(client: PrincipalNameV, crealm: Seq<char>, principal: Whom, key: Seq<char>, data: Seq<u8>) -> CcCredentialV {
    CcCredentialV {
        client,
        crealm,
        server: config_principal_spec(principal, key),
        srealm: CONFIG_REALM@,
        keyblock: EncryptionKeyV { keytype: 0, keyvalue: Seq::empty() },
        authtime: 0,
        starttime: 0,
        endtime: 0,
        renew_till: 0,
        is_skey: false,
        ticket_flags: 0,
        addresses: Seq::empty(),
        authdata: Seq::empty(),
        ticket: data,
        second_ticket: Seq::empty(),
    }
}

/// Whether a credential holds the config value of a key and a principal.
pub open spec fn config_matches_spec(c: CcCredentialV, principal: Whom, key: Seq<char>) -> bool {
    let comps = c.server.name_string;
    &&& is_config_spec(c.server, c.srealm)
    &&& comps.len() > 1 && comps[1] == encode_utf8(key)
    &&& match principal {
        None => comps.len() == 2,
        Some((p, realm)) => comps.len() == 3 && comps[2] == encode_utf8(unparse_spec(p, realm)),
    }
}

/// The config value of a key and a principal: that of the first entry.
pub open spec fn find_config(cs: Seq<CcCredentialV>, principal: Whom, key: Seq<char>) -> Option<Seq<u8>>
    decreases cs.len(),
{
    if cs.len() == 0 {
        None
    } else if config_matches_spec(cs[0], principal, key) {
        Some(cs[0].ticket)
    } else {
        find_config(cs.drop_first(), principal, key)
    }
}

/// The request for a config entry's server principal.
pub open spec fn config_request_spec(target: PrincipalNameV) -> MatchCredV {
    MatchCredV { server: Some((target, CONFIG_REALM@)), ..match_any() }
}

/// Whether name components can hold a key and a principal.
pub open spec fn nameable(principal: Whom, key: Seq<char>) -> bool {
    &&& general_ok(encode_utf8(key))
    &&& principal matches Some((p, realm)) ==> general_ok(encode_utf8(unparse_spec(p, realm)))
}

proof fn lemma_config_princ()
    ensures
        general_ok(encode_utf8(CONFIG_PRINC@)),
{
    reveal_strlit("krb5_ccache_conf_data");
    assert(is_ascii(CONFIG_PRINC@));
    lemma_ascii(CONFIG_PRINC@);
}

/// A config entry is found by its key and principal, and its request fits
/// all entries of theirs and no others.
pub proof fn law_config_entry(c: CcCredentialV, principal: Whom, key: Seq<char>)
    requires
        nameable(principal, key),
        !c.is_skey,
    ensures
        config_matches_spec(c, principal, key) == match_spec(
            0,
            config_request_spec(config_principal_spec(principal, key)),
            c,
        ),
        forall|client: PrincipalNameV, crealm: Seq<char>, data: Seq<u8>|
            config_matches_spec(#[trigger] config_cred_spec(client, crealm, principal, key, data), principal, key),
{
    lemma_config_princ();
    let target = config_principal_spec(principal, key);
    assert forall|f: u32| f != 0 implies !#[trigger] crate::types::names::has_flags(0, f) by {
        assert(f != 0u32 ==> 0u32 & f != f) by (bit_vector);
    }
    if config_matches_spec(c, principal, key) {
        assert(c.server.name_string =~= target.name_string);
    }
}

/// Credentials without the first that fits a request.
pub open spec fn without_first(cs: Seq<CcCredentialV>, flags: u32, m: MatchCredV) -> Seq<CcCredentialV>
    decreases cs.len(),
{
    if cs.len() == 0 {
        cs
    } else if match_spec(flags, m, cs[0]) {
        cs.drop_first()
    } else {
        seq![cs[0]] + without_first(cs.drop_first(), flags, m)
    }
}

/// How many entries hold a value of the key and the principal.
pub open spec fn config_count(cs: Seq<CcCredentialV>, principal: Whom, key: Seq<char>) -> nat
    decreases cs.len(),
{
    if cs.len() == 0 {
        0
    } else {
        config_count(cs.drop_first(), principal, key) + if config_matches_spec(cs[0], principal, key) { 1nat } else { 0nat }
    }
}

/// Whether config entries are no user-to-user credentials.
pub open spec fn plain_config(cs: Seq<CcCredentialV>) -> bool {
    forall|i: int| 0 <= i < cs.len() && is_config_spec((#[trigger] cs[i]).server, cs[i].srealm) ==> !cs[i].is_skey
}

proof fn lemma_plain_rest(cs: Seq<CcCredentialV>)
    requires
        plain_config(cs),
        cs.len() > 0,
    ensures
        plain_config(cs.drop_first()),
        is_config_spec(cs[0].server, cs[0].srealm) ==> !cs[0].is_skey,
{
    let rest = cs.drop_first();
    assert forall|i: int| 0 <= i < rest.len() && is_config_spec((#[trigger] rest[i]).server, rest[i].srealm) implies !rest[i].is_skey by {
        assert(rest[i] == cs[i + 1]);
    }
}

proof fn lemma_find_push(cs: Seq<CcCredentialV>, c: CcCredentialV, principal: Whom, key: Seq<char>)
    ensures
        find_config(cs.push(c), principal, key) == (match find_config(cs, principal, key) {
            Some(d) => Some(d),
            None => if config_matches_spec(c, principal, key) { Some(c.ticket) } else { None },
        }),
    decreases cs.len(),
{
    if cs.len() == 0 {
        assert(cs.push(c).drop_first() =~= cs);
        reveal_with_fuel(find_config, 2);
    } else {
        assert(cs.push(c).drop_first() =~= cs.drop_first().push(c));
        lemma_find_push(cs.drop_first(), c, principal, key);
    }
}

/// Removing a key's entry: one less of its own, and none of another's.
proof fn lemma_removed(cs: Seq<CcCredentialV>, principal: Whom, key: Seq<char>, other: Whom, name: Seq<char>)
    requires
        nameable(principal, key),
        plain_config(cs),
    ensures
        ({
            let after = without_first(cs, 0, config_request_spec(config_principal_spec(principal, key)));
            let n = config_count(cs, principal, key);
            &&& config_count(after, principal, key) == (if n == 0 { 0 } else { n - 1 })
            &&& config_parts(principal, key) != config_parts(other, name) && nameable(other, name) ==> find_config(
                after,
                other,
                name,
            ) == find_config(cs, other, name)
        }),
    decreases cs.len(),
{
    let m = config_request_spec(config_principal_spec(principal, key));
    if cs.len() > 0 {
        let rest = cs.drop_first();
        lemma_plain_rest(cs);
        lemma_removed(rest, principal, key, other, name);
        lemma_config_princ();
        let c = CcCredentialV { is_skey: false, ..cs[0] };
        law_config_entry(c, principal, key);
        if match_spec(0, m, cs[0]) {
            assert(!cs[0].is_skey) by {
                assert(0u32 & 2u32 != 2u32) by (bit_vector);
            }
            assert(cs[0] == c);
            if nameable(other, name) && config_matches_spec(cs[0], other, name) {
                lemma_count_parts(cs[0], principal, key, other, name);
            }
        } else {
            if config_matches_spec(cs[0], principal, key) {
                assert(cs[0] == c);
            }
            let after = seq![cs[0]] + without_first(rest, 0, m);
            assert(after.drop_first() =~= without_first(rest, 0, m));
        }
    }
}

/// An entry holds the value of one key and principal only.
proof fn lemma_count_parts(c: CcCredentialV, principal: Whom, key: Seq<char>, other: Whom, name: Seq<char>)
    requires
        nameable(principal, key),
        nameable(other, name),
        config_matches_spec(c, principal, key),
        config_matches_spec(c, other, name),
    ensures
        config_parts(principal, key) == config_parts(other, name),
{
    lemma_config_princ();
    assert(c.server.name_string =~= config_parts(principal, key));
    assert(c.server.name_string =~= config_parts(other, name));
}

proof fn lemma_find_none(cs: Seq<CcCredentialV>, principal: Whom, key: Seq<char>)
    ensures
        find_config(cs, principal, key) is None == (config_count(cs, principal, key) == 0),
    decreases cs.len(),
{
    if cs.len() > 0 {
        lemma_find_none(cs.drop_first(), principal, key);
    }
}

/// Setting a config value: where a key has at most one entry, the value set
/// is the value found, without one set none is found, and the values of
/// other keys and principals stay as they are.
pub proof fn law_config_set(
    cs: Seq<CcCredentialV>,
    client: PrincipalNameV,
    crealm: Seq<char>,
    principal: Whom,
    key: Seq<char>,
    data: Seq<u8>,
    other: Whom,
    name: Seq<char>,
)
    requires
        nameable(principal, key),
        nameable(other, name),
        plain_config(cs),
        config_count(cs, principal, key) <= 1,
    ensures
        ({
            let gone = without_first(cs, 0, config_request_spec(config_principal_spec(principal, key)));
            let after = gone.push(config_cred_spec(client, crealm, principal, key, data));
            &&& find_config(gone, principal, key) is None
            &&& find_config(after, principal, key) == Some(data)
            &&& config_parts(principal, key) != config_parts(other, name) ==> find_config(gone, other, name) == find_config(
                cs,
                other,
                name,
            ) && find_config(after, other, name) == find_config(cs, other, name)
        }),
{
    let gone = without_first(cs, 0, config_request_spec(config_principal_spec(principal, key)));
    let c = config_cred_spec(client, crealm, principal, key, data);
    lemma_removed(cs, principal, key, other, name);
    lemma_find_none(gone, principal, key);
    law_config_entry(c, principal, key);
    lemma_find_push(gone, c, principal, key);
    lemma_find_push(gone, c, other, name);
    if config_matches_spec(c, other, name) {
        lemma_count_parts(c, principal, key, other, name);
    }
}

/// Whether `name` and `realm` name a config entry.
pub fn is_config_principal(name: &PrincipalName, realm: &str) -> (r: bool)
    ensures
        r == is_config_spec(name@, realm@),
{
    same_text(realm, CONFIG_REALM) && name.name_string.len() > 0 && same(
        name.name_string[0].as_bytes(),
        CONFIG_PRINC.as_bytes(),
    )
}

fn escape(s: &[u8], out: &mut String)
    ensures
        final(out)@ == old(out)@ + escaped(s@),
{
    let mut i: usize = 0;
    assert(s@.skip(0) =~= s@);
    while i < s.len()
        invariant
            i <= s@.len(),
            out@ + escaped(s@.skip(i as int)) == old(out)@ + escaped(s@),
        decreases s@.len() - i,
    {
        let ghost before = out@;
        let b: u8 = s[i];
        let mark: Option<char> = match b {
            0x2f => Some('/'),
            0x40 => Some('@'),
            0x5c => Some('\\'),
            0x09 => Some('t'),
            0x0a => Some('n'),
            0x08 => Some('b'),
            0 => Some('0'),
            _ => None,
        };
        match mark {
            Some(c) => {
                out.push('\\');
                out.push(c);
            },
            None => out.push(b as char),
        }
        proof {
            assert(out@ =~= before + escaped_octet(b));
            assert(s@.skip(i as int).drop_first() =~= s@.skip(i + 1));
            assert(out@ + escaped(s@.skip(i + 1)) =~= before + escaped(s@.skip(i as int)));
        }
        i = i + 1;
    }
    assert(s@.skip(i as int).len() == 0);
    assert(out@ + Seq::empty() =~= out@);
}

/// A principal as text: '/' in components and '@' in the realm are
/// separators; these plus '\\', tab, newline, backspace and NUL are
/// backslash-escaped.
pub fn unparse_name(name: &PrincipalName, realm: &str) -> (r: String)
    ensures
        r@ == unparse_spec(name@, realm@),
{
    let ghost cs = name@.name_string;
    let mut out = String::new();
    let mut i: usize = 0;
    if name.name_string.len() > 0 {
        escape(name.name_string[0].as_bytes(), &mut out);
        i = 1;
        assert(cs.drop_first() =~= cs.skip(1));
    }
    assert(i == 0 ==> cs.skip(0).len() == 0);
    assert(out@ + more_components(cs.skip(i as int)) =~= all_components(cs));
    while i < name.name_string.len()
        invariant
            i <= name.name_string@.len(),
            cs == list_view(name.name_string@),
            out@ + more_components(cs.skip(i as int)) == all_components(cs),
        decreases name.name_string@.len() - i,
    {
        let ghost before = out@;
        let c = name.name_string[i].as_bytes();
        out.push('/');
        escape(c, &mut out);
        proof {
            assert(cs.skip(i as int).drop_first() =~= cs.skip(i + 1));
            assert(cs.skip(i as int)[0] == c@);
            assert(out@ + more_components(cs.skip(i + 1)) =~= before + more_components(cs.skip(i as int)));
        }
        i = i + 1;
    }
    assert(cs.skip(i as int).len() == 0);
    assert(out@ =~= all_components(cs));
    out.push('@');
    escape(realm.as_bytes(), &mut out);
    assert(out@ =~= unparse_spec(name@, realm@));
    out
}

fn component(b: &[u8]) -> (r: GeneralString)
    ensures
        r@ == component_spec(b@),
{
    match GeneralString::from_bytes(b) {
        Some(g) => g,
        None => GeneralString::default(),
    }
}

/// The server principal of a config entry:
/// `krb5_ccache_conf_data/<key>[/<unparsed principal>]@X-CACHECONF:`.
pub fn config_principal(principal: Option<(&PrincipalName, &str)>, key: &str) -> (r: PrincipalName)
    ensures
        r@ == config_principal_spec(opt_view(principal), key@),
{
    let mut comps: Vec<GeneralString> = Vec::new();
    comps.push(component(CONFIG_PRINC.as_bytes()));
    comps.push(component(key.as_bytes()));
    match principal {
        Some((p, realm)) => {
            let text = unparse_name(p, realm);
            comps.push(component(text.as_str().as_bytes()));
        },
        None => {},
    }
    assert(list_view(comps@) =~= config_parts(opt_view(principal), key@));
    PrincipalName { name_type: 0, name_string: comps }
}

/// The request for a config entry's server principal.
pub fn config_request(target: PrincipalName) -> (r: MatchCred)
    ensures
        r@ == config_request_spec(target@),
{
    let mut m = MatchCred::default();
    m.server = Some((target, crate::text::owned(CONFIG_REALM)));
    m
}

/// The credential that holds a config value.
pub fn config_cred(client: &PrincipalName, crealm: &str, principal: Option<(&PrincipalName, &str)>, key: &str, data: &[u8]) -> (r:
    CcCredential)
    ensures
        r@ == config_cred_spec(client@, crealm@, opt_view(principal), key@, data@),
{
    let r = CcCredential {
        client: client.dup(),
        crealm: crate::text::owned(crealm),
        server: config_principal(principal, key),
        srealm: crate::text::owned(CONFIG_REALM),
        keyblock: EncryptionKey::new(0, Vec::new()),
        authtime: 0,
        starttime: 0,
        endtime: 0,
        renew_till: 0,
        is_skey: false,
        ticket_flags: 0,
        addresses: Vec::new(),
        authdata: Vec::new(),
        ticket: copy(data),
        second_ticket: Vec::new(),
    };
    assert(r@ =~= config_cred_spec(client@, crealm@, opt_view(principal), key@, data@));
    r
}

/// Whether a credential holds the config value of a key and a principal.
pub fn config_matches(cred: &CcCredential, principal: Option<(&PrincipalName, &str)>, key: &str) -> (r: bool)
    ensures
        r == config_matches_spec(cred@, opt_view(principal), key@),
{
    if !is_config_principal(&cred.server, &cred.srealm) {
        return false;
    }
    let comps = &cred.server.name_string;
    if comps.len() < 2 || !same(comps[1].as_bytes(), key.as_bytes()) {
        return false;
    }
    match principal {
        None => comps.len() == 2,
        Some((p, realm)) => {
            let text = unparse_name(p, realm);
            comps.len() == 3 && same(comps[2].as_bytes(), text.as_str().as_bytes())
        },
    }
}

/// The config value of a key and a principal.
pub fn config_in(creds: &[CcCredential], principal: Option<(&PrincipalName, &str)>, key: &str) -> (r: Option<Vec<u8>>)
    ensures
        opt_view(r) == find_config(list_view(creds@), opt_view(principal), key@),
{
    let ghost cs = list_view(creds@);
    let mut i: usize = 0;
    assert(cs.skip(0) =~= cs);
    while i < creds.len()
        invariant
            i <= creds@.len(),
            cs == list_view(creds@),
            find_config(cs.skip(i as int), opt_view(principal), key@) == find_config(cs, opt_view(principal), key@),
        decreases creds@.len() - i,
    {
        assert(cs.skip(i as int).drop_first() =~= cs.skip(i + 1));
        assert(cs.skip(i as int)[0] == creds@[i as int]@);
        if config_matches(&creds[i], principal, key) {
            return Some(copy(&creds[i].ticket));
        }
        i = i + 1;
    }
    assert(cs.skip(i as int).len() == 0);
    None
}

} // verus!
