//! What holds of the form in which credentials are cached.
use vstd::prelude::*;
use vstd::utf8::encode_utf8;

use crate::asn1::Asn1;
use crate::bytes::{be32, u32_of};
use crate::ccache::config::{config_cred_spec, escaped, escaped_octet, config_matches_spec, is_config_spec, unparse_spec, Whom};
use crate::ccache::file::{erased, header_bytes, header_spec, live};
use crate::ccache::marshal::{cred_bytes, data_bytes, key_bytes, len32, lists_bytes, low16, names_bytes, order_for, princ_bytes, times_bytes, typed_addresses, typed_authdata, typed_bytes, wr16, wr32};
use crate::ccache::memory::{MemoryCcache, MemoryCcacheV};
use crate::ccache::retrieve::{best_index, best_match, listed_match, match_spec, rank, retrieve_spec};
use crate::ccache::{cached_form, credential_form, match_any, Ccache, CcCredentialV, CcError, MatchCredV, CONFIG_PRINC, CONFIG_REALM, REMOVED_CONFIG_REALM};
use crate::order::{octets16, octets32, ByteOrder};
use crate::protocol::credential::CredentialV;
use crate::time::TimeV;
use crate::types::{EncryptionKeyV, PrincipalNameV, Ticket};

verus! {

/// Whether a time of the cache stands for a time: the same second where 32
/// bits hold it, else the last that they do.
pub open spec fn stands_for(u: u32, t: TimeV) -> bool {
    if 0 <= t.secs < 0x1_0000_0000 { u == t.secs } else { u == 0xffff_ffff }
}

/// A credential is cached field by field: its client, server and their realms,
/// its session key, its times, flags, addresses and authorization data, and
/// its ticket in octets. A time that it does not have is 0.
pub proof fn law_cached_fields(c: CredentialV)
    ensures
        ({
            let x = cached_form(c);
            &&& x.client == c.client
            &&& x.crealm == c.crealm
            &&& x.server == c.server
            &&& x.srealm == c.srealm
            &&& x.keyblock == c.session_key
            &&& stands_for(x.authtime, c.times.authtime)
            &&& c.times.starttime is Some ==> stands_for(x.starttime, c.times.starttime->0)
            &&& c.times.starttime is None ==> x.starttime == 0
            &&& stands_for(x.endtime, c.times.endtime)
            &&& c.times.renew_till is Some ==> stands_for(x.renew_till, c.times.renew_till->0)
            &&& c.times.renew_till is None ==> x.renew_till == 0
            &&& !x.is_skey
            &&& x.ticket_flags == c.flags
            &&& x.addresses == (if c.addresses is Some { c.addresses->0 } else { Seq::empty() })
            &&& x.authdata == (if c.authdata is Some { c.authdata->0 } else { Seq::empty() })
            &&& x.ticket == <Ticket as Asn1>::der(c.ticket)
            &&& x.second_ticket.len() == 0
        }),
{
}

/// A credential comes out of the cache field by field as it is there; a time
/// of 0 for its start or its renewal is none, and only the flags that mean
/// something are kept.
pub proof fn law_credential_fields(x: CcCredentialV)
    requires
        credential_form(x) is Ok,
    ensures
        ({
            let c = credential_form(x)->Ok_0;
            &&& c.client == x.client
            &&& c.crealm == x.crealm
            &&& c.server == x.server
            &&& c.srealm == x.srealm
            &&& c.session_key == x.keyblock
            &&& c.times.authtime == (TimeV { secs: x.authtime as i64, nanos: 0 })
            &&& c.times.starttime == (if x.starttime == 0 { None } else { Some(TimeV { secs: x.starttime as i64, nanos: 0 }) })
            &&& c.times.endtime == (TimeV { secs: x.endtime as i64, nanos: 0 })
            &&& c.times.renew_till == (if x.renew_till == 0 { None } else { Some(TimeV { secs: x.renew_till as i64, nanos: 0 }) })
            &&& c.flags == x.ticket_flags & 0x7ffd_0000
            &&& c.addresses == (if x.addresses.len() == 0 { None } else { Some(x.addresses) })
            &&& c.authdata == (if x.authdata.len() == 0 { None } else { Some(x.authdata) })
            &&& <Ticket as Asn1>::parse(x.ticket) == Some(c.ticket)
        }),
        <Ticket as Asn1>::parse(x.ticket) is None ==> credential_form(x) == Err::<CredentialV, CcError>(CcError::Format),
{
}

/// The octets of a cached credential, in their order: client and server, the
/// key, the times of authentication, start, end and renewal, whether it is a
/// session key, the flags, the addresses, the authorization data and the two
/// tickets.
pub proof fn law_credential_octets(c: CcCredentialV, version: u8, o: ByteOrder)
    ensures
        cred_bytes(c, version, o) == princ_bytes(c.client, c.crealm, version, o) + princ_bytes(c.server, c.srealm, version, o)
            + key_bytes(c.keyblock, version, o) + wr32(o, c.authtime) + wr32(o, c.starttime) + wr32(o, c.endtime)
            + wr32(o, c.renew_till) + seq![if c.is_skey { 1u8 } else { 0u8 }] + wr32(o, c.ticket_flags) + typed_bytes(
            o,
            typed_addresses(c.addresses),
        ) + typed_bytes(o, typed_authdata(c.authdata)) + data_bytes(o, c.ticket) + data_bytes(o, c.second_ticket),
{
    let n = princ_bytes(c.client, c.crealm, version, o) + princ_bytes(c.server, c.srealm, version, o) + key_bytes(
        c.keyblock,
        version,
        o,
    );
    reveal(cred_bytes);
    let t = times_bytes(c, o);
    let l = lists_bytes(c, o);
    assert(cred_bytes(c, version, o) == n + t + l);
    lemma_ten(
        n,
        wr32(o, c.authtime),
        wr32(o, c.starttime),
        wr32(o, c.endtime),
        wr32(o, c.renew_till),
        seq![if c.is_skey { 1u8 } else { 0u8 }],
        wr32(o, c.ticket_flags),
        typed_bytes(o, typed_addresses(c.addresses)),
        typed_bytes(o, typed_authdata(c.authdata)),
        data_bytes(o, c.ticket),
        data_bytes(o, c.second_ticket),
    );
}

proof fn lemma_ten(
    n: Seq<u8>,
    a: Seq<u8>,
    b: Seq<u8>,
    c: Seq<u8>,
    d: Seq<u8>,
    e: Seq<u8>,
    f: Seq<u8>,
    g: Seq<u8>,
    h: Seq<u8>,
    i: Seq<u8>,
    j: Seq<u8>,
)
    ensures
        n + (a + b + c + d + e + f) + (g + h + i + j) == n + a + b + c + d + e + f + g + h + i + j,
{
    assert(n + (a + b + c + d + e + f) =~= n + a + b + c + d + e + f);
    let x = n + a + b + c + d + e + f;
    assert(x + (g + h + i + j) =~= x + g + h + i + j);
}

/// The octets of a principal: from version 2 on its name's type, the number of
/// its parts, which in version 1 counts the realm, the realm and the parts;
/// and those of a key: its type, in version 3 twice, and its value.
pub proof fn law_principal_octets(p: PrincipalNameV, realm: Seq<char>, version: u8, o: ByteOrder, k: EncryptionKeyV)
    requires
        p.name_string.len() < 0x1_0000_0000 - 1,
        0 <= k.keytype < 0x8000,
        p.name_string.len() > 0 ==> p.name_string[0].len() < 0x1_0000_0000,
    ensures
        princ_bytes(p, realm, version, o) == (if version == 1 {
            wr32(o, (p.name_string.len() + 1) as u32)
        } else {
            wr32(o, u32_of(p.name_type)) + wr32(o, p.name_string.len() as u32)
        }) + data_bytes(o, encode_utf8(realm)) + names_bytes(o, p.name_string),
        names_bytes(o, Seq::empty()).len() == 0,
        p.name_string.len() > 0 ==> names_bytes(o, p.name_string) == wr32(o, p.name_string[0].len() as u32) + p.name_string[0]
            + names_bytes(o, p.name_string.drop_first()),
        key_bytes(k, version, o) == (if version == 3 {
            wr16(o, k.keytype as u16) + wr16(o, k.keytype as u16)
        } else {
            wr16(o, k.keytype as u16)
        }) + data_bytes(o, k.keyvalue),
{
    let n = p.name_string.len();
    assert(n % 0x1_0000_0000 == n && (n + 1) % 0x1_0000_0000 == n + 1);
    assert((n % 0x1_0000_0000) as u32 == n as u32 && ((n + 1) % 0x1_0000_0000) as u32 == (n + 1) as u32);
    assert(len32(o, n) == wr32(o, n as u32));
    assert(len32(o, n + 1) == wr32(o, (n + 1) as u32));
    if n > 0 {
        let q = p.name_string[0].len();
        assert(q % 0x1_0000_0000 == q);
    }
    assert(u32_of(k.keytype) % 0x1_0000 == k.keytype);
    assert(low16(o, k.keytype) == wr16(o, k.keytype as u16));
}

/// Versions 1 and 2 are in the order of the machine, later ones have the most
/// significant octet first; numbers are of two or four octets in that order.
pub proof fn law_orders(version: u8, native: ByteOrder, o: ByteOrder, x: u16, y: u32)
    ensures
        wr16(o, x) == octets16(o, x),
        wr32(o, y) == octets32(o, y),
        version >= 3 ==> order_for(version, native) == ByteOrder::Big,
        version < 3 ==> order_for(version, native) == native,
{
    reveal(wr16);
    reveal(wr32);
}

/// A cache file starts with 5 and its version, of 1 to 4; version 4 goes on
/// with the length of its header, in which a field of type 1 holds the time
/// offset.
pub proof fn law_file_header(d: Seq<u8>, version: u8, secs: u32, usecs: u32)
    ensures
        header_spec(d) is Ok ==> d.len() >= 2 && d[0] == 5 && 1 <= d[1] <= 4 && header_spec(d)->Ok_0.0 == d[1],
        header_spec(d) is Ok && d[1] != 4 ==> header_spec(d)->Ok_0.1 == 2 && header_spec(d)->Ok_0.2 is None,
        d.len() >= 2 && (d[0] != 5 || d[1] == 0 || d[1] > 4) ==> header_spec(d) == Err::<
            (u8, int, Option<(u32, u32)>),
            CcError,
        >(CcError::BadVno),
        version != 4 ==> header_bytes(version, Some((secs, usecs))) == seq![5u8, version],
        header_bytes(4, None) == seq![5u8, 4u8, 0u8, 0u8],
        header_bytes(4, Some((secs, usecs))) == seq![5u8, 4u8, 0u8, 12u8, 0u8, 1u8, 0u8, 8u8] + be32(secs) + be32(usecs),
{
    assert(header_bytes(4, None) =~= seq![5u8, 4u8, 0u8, 0u8]);
    assert(header_bytes(4, Some((secs, usecs))) =~= seq![5u8, 4u8, 0u8, 12u8, 0u8, 1u8, 0u8, 8u8] + be32(secs) + be32(usecs));
    assert(version != 4 ==> header_bytes(version, Some((secs, usecs))) =~= seq![5u8, version]);
}

/// A credential that is removed from a file stays as one that ended at 0 after
/// it was authenticated, which is how one that was removed is told; a setting
/// is moved to another realm. All else of it stays.
pub proof fn law_removed_marked(c: CcCredentialV)
    ensures
        live(c) <==> c.endtime != 0 || c.authtime == 0,
        !live(erased(c)),
        erased(c).endtime == 0,
        erased(c).authtime == 0xffff_ffff,
        c.srealm != "X-CACHECONF:"@ ==> erased(c).srealm == c.srealm,
        c.srealm == "X-CACHECONF:"@ ==> erased(c).srealm == "X-RMED-CONF:"@,
        erased(c).client == c.client && erased(c).crealm == c.crealm && erased(c).server == c.server,
        erased(c).keyblock == c.keyblock && erased(c).ticket == c.ticket && erased(c).ticket_flags == c.ticket_flags,
        erased(c).starttime == c.starttime && erased(c).renew_till == c.renew_till,
        CONFIG_REALM@ == "X-CACHECONF:"@,
        REMOVED_CONFIG_REALM@ == "X-RMED-CONF:"@,
        CONFIG_PRINC@ == "krb5_ccache_conf_data"@,
{
}

/// When a cached credential is one that is asked for: its client and server
/// are those asked for, by name and realm, the server with flag 0x40 by name
/// alone; it is a session key exactly when one is asked for with flag 0x02;
/// and with the flag for each its times are equal (0x08) or end no later
/// (0x01), its flags are equal (0x10) or hold those asked for (0x04), its
/// authorization data (0x20), second ticket (0x80) and enctype (0x100) are
/// equal.
pub proof fn law_matches(f: u32, m: MatchCredV, c: CcCredentialV)
    ensures
        match_spec(f, m, c) <==> {
            &&& m.client is Some ==> (m.client->0).0.name_string == c.client.name_string && (m.client->0).1 == c.crealm
            &&& m.server is Some ==> (m.server->0).0.name_string == c.server.name_string && (f & 0x40 != 0 || (m.server->0).1
                == c.srealm)
            &&& c.is_skey == (f & 0x02 != 0 && m.is_skey)
            &&& f & 0x10 != 0 ==> c.ticket_flags == m.ticket_flags
            &&& f & 0x04 != 0 ==> c.ticket_flags & m.ticket_flags == m.ticket_flags
            &&& f & 0x08 != 0 ==> c.authtime == m.authtime && c.starttime == m.starttime && c.endtime == m.endtime && c.renew_till
                == m.renew_till
            &&& f & 0x01 != 0 ==> (m.endtime == 0 || c.endtime <= m.endtime) && (m.renew_till == 0 || c.renew_till
                <= m.renew_till)
            &&& f & 0x20 != 0 ==> c.authdata == (if m.authdata is Some { m.authdata->0 } else { Seq::empty() })
            &&& f & 0x80 != 0 ==> c.second_ticket == (if m.second_ticket is Some { m.second_ticket->0 } else { Seq::empty() })
            &&& f & 0x100 != 0 ==> c.keyblock.keytype == m.etype
        },
{
    assert((f & 0x40 == 0x40 <==> f & 0x40 != 0) && (f & 0x02 == 0x02 <==> f & 0x02 != 0) && (f & 0x10 == 0x10 <==> f & 0x10 != 0)
        && (f & 0x04 == 0x04 <==> f & 0x04 != 0) && (f & 0x08 == 0x08 <==> f & 0x08 != 0) && (f & 0x01 == 0x01 <==> f & 0x01 != 0) && (f
        & 0x20 == 0x20 <==> f & 0x20 != 0) && (f & 0x80 == 0x80 <==> f & 0x80 != 0) && (f & 0x100 == 0x100 <==> f & 0x100 != 0))
        by (bit_vector);
}

/// Without a list of enctypes the first credential that matches is taken.
pub proof fn law_first_taken(cs: Seq<CcCredentialV>, f: u32, m: MatchCredV, i: int)
    requires
        0 <= i < cs.len(),
        match_spec(f, m, cs[i]),
        forall|j: int| 0 <= j < i ==> !match_spec(f, m, #[trigger] cs[j]),
    ensures
        retrieve_spec(cs, f, m, None) == Ok::<CcCredentialV, CcError>(cs[i]),
    decreases cs.len(),
{
    if i > 0 {
        let rest = cs.drop_first();
        assert(!match_spec(f, m, cs[0]));
        assert forall|j: int| 0 <= j < i - 1 implies !match_spec(f, m, #[trigger] rest[j]) by {
            assert(rest[j] == cs[j + 1]);
        }
        law_first_taken(rest, f, m, i - 1);
    }
}

/// A setting is kept as a credential of the cache's owner for a server named
/// by the marker, the setting's name and the principal it is about, in the
/// realm of settings, with its value for a ticket and nothing else; and it is
/// found by that name.
pub proof fn law_setting(client: PrincipalNameV, crealm: Seq<char>, whom: Whom, key: Seq<char>, data: Seq<u8>, c: CcCredentialV)
    ensures
        ({
            let x = config_cred_spec(client, crealm, whom, key, data);
            &&& x.client == client
            &&& x.crealm == crealm
            &&& x.srealm == "X-CACHECONF:"@
            &&& x.ticket == data
            &&& x.server.name_string.len() == (if whom is None { 2int } else { 3int })
            &&& x.authtime == 0 && x.starttime == 0 && x.endtime == 0 && x.renew_till == 0
            &&& x.ticket_flags == 0
            &&& !x.is_skey
            &&& x.keyblock.keytype == 0 && x.keyblock.keyvalue.len() == 0
            &&& x.second_ticket.len() == 0
        }),
        is_config_spec(c.server, c.srealm) <==> c.srealm == "X-CACHECONF:"@ && c.server.name_string.len() > 0
            && c.server.name_string[0] == encode_utf8("krb5_ccache_conf_data"@),
        config_matches_spec(c, whom, key) <==> c.srealm == "X-CACHECONF:"@ && c.server.name_string.len() == (if whom is None {
            2int
        } else {
            3int
        }) && c.server.name_string[0] == encode_utf8("krb5_ccache_conf_data"@) && c.server.name_string[1] == encode_utf8(key) && (
        whom is Some ==> c.server.name_string[2] == encode_utf8(unparse_spec((whom->0).0, (whom->0).1))),
{
}

/// A cache in memory lists what was stored, in that order, for the principal
/// it was initialized with; removing takes out the first that matches.
pub proof fn law_memory(v: MemoryCcacheV, p: PrincipalNameV, realm: Seq<char>, c: CcCredentialV, f: u32, m: MatchCredV)
    ensures
        MemoryCcache::owner(MemoryCcache::initialized(v, p, realm)) == Ok::<(PrincipalNameV, Seq<char>), CcError>((p, realm)),
        MemoryCcache::listed(MemoryCcache::initialized(v, p, realm)) == Ok::<Seq<CcCredentialV>, CcError>(Seq::empty()),
        MemoryCcache::stored(v, c).1 is Ok,
        MemoryCcache::listed(MemoryCcache::stored(v, c).0) == Ok::<Seq<CcCredentialV>, CcError>(v.creds.push(c)),
        MemoryCcache::stored(v, c).0.principal == v.principal,
        v.creds.len() > 0 && match_spec(f, m, v.creds[0]) ==> MemoryCcache::removed(v, f, m).0.creds == v.creds.drop_first(),
        MemoryCcache::removed(v, f, m).0.principal == v.principal,
        (forall|i: int| 0 <= i < v.creds.len() ==> !match_spec(f, m, #[trigger] v.creds[i])) ==> MemoryCcache::removed(v, f, m) == (
            v,
            Err::<(), CcError>(CcError::NotFound),
        ),
        v.principal is None ==> MemoryCcache::owner(v) == Err::<(PrincipalNameV, Seq<char>), CcError>(CcError::NotFound),
{
    if v.creds.len() > 0 && match_spec(f, m, v.creds[0]) {
        assert(crate::ccache::retrieve::any_match(v.creds, f, m));
    }
}

/// How a principal is written in a setting's name: its parts with slashes
/// between them, an at sign and its realm, with a backslash before a slash, an
/// at sign or a backslash, and the letters t, n, b and 0 behind one for a tab,
/// a line end, a backspace and a NUL.
pub proof fn law_principal_written(name: PrincipalNameV, realm: Seq<char>, b: u8)
    ensures
        escaped_octet(0x2f) == seq!['\\', '/'],
        escaped_octet(0x40) == seq!['\\', '@'],
        escaped_octet(0x5c) == seq!['\\', '\\'],
        escaped_octet(0x09) == seq!['\\', 't'],
        escaped_octet(0x0a) == seq!['\\', 'n'],
        escaped_octet(0x08) == seq!['\\', 'b'],
        escaped_octet(0) == seq!['\\', '0'],
        0x20 < b < 0x7f && b != 0x2f && b != 0x40 && b != 0x5c ==> escaped_octet(b) == seq![b as char],
        name.name_string.len() == 1 ==> unparse_spec(name, realm) == escaped(name.name_string[0]) + seq!['@'] + escaped(
            encode_utf8(realm),
        ),
        name.name_string.len() == 2 ==> unparse_spec(name, realm) == escaped(name.name_string[0]) + seq!['/'] + escaped(
            name.name_string[1],
        ) + seq!['@'] + escaped(encode_utf8(realm)),
{
    reveal_with_fuel(crate::ccache::config::more_components, 3);
    let cs = name.name_string;
    if cs.len() == 1 {
        assert(crate::ccache::config::all_components(cs) =~= escaped(cs[0]));
    } else if cs.len() == 2 {
        assert(cs.drop_first()[0] == cs[1]);
        assert(crate::ccache::config::all_components(cs) =~= escaped(cs[0]) + seq!['/'] + escaped(cs[1]));
    }
}

/// With a list of enctypes the credential taken is one that matches and whose
/// enctype is listed; none that matches has an enctype listed earlier, and
/// none before it one listed as early.
pub proof fn law_preferred_taken(cs: Seq<CcCredentialV>, f: u32, m: MatchCredV, ks: Seq<i32>)
    requires
        retrieve_spec(cs, f, m, Some(ks)) is Ok,
    ensures
        exists|i: int, p: int|
            {
                &&& 0 <= i < cs.len()
                &&& 0 <= p < ks.len()
                &&& retrieve_spec(cs, f, m, Some(ks)) == Ok::<CcCredentialV, CcError>(#[trigger] cs[i])
                &&& match_spec(f, m, cs[i])
                &&& #[trigger] ks[p] == cs[i].keyblock.keytype
                &&& forall|j: int, q: int|
                    0 <= j < cs.len() && 0 <= q < p && match_spec(f, m, #[trigger] cs[j]) ==> cs[j].keyblock.keytype != #[trigger] ks[q]
                &&& forall|j: int|
                    0 <= j < i && match_spec(f, m, #[trigger] cs[j]) ==> cs[j].keyblock.keytype != cs[i].keyblock.keytype
            },
{
    let i = best_index(cs, f, m, ks);
    assert(best_match(cs, f, m, ks, i));
    assert(listed_match(cs, f, m, ks, i));
    let t = cs[i].keyblock.keytype;
    lemma_rank(ks, t);
    let p = rank(ks, t)->0;
    assert forall|j: int, q: int| 0 <= j < cs.len() && 0 <= q < p && match_spec(f, m, #[trigger] cs[j]) implies cs[j].keyblock.keytype
        != #[trigger] ks[q] by {
        let u = cs[j].keyblock.keytype;
        lemma_rank(ks, u);
        if u == ks[q] {
            assert(listed_match(cs, f, m, ks, j));
        }
    }
    assert forall|j: int| 0 <= j < i && match_spec(f, m, #[trigger] cs[j]) implies cs[j].keyblock.keytype != t by {
        if cs[j].keyblock.keytype == t {
            assert(listed_match(cs, f, m, ks, j));
        }
    }
    assert(ks[p] == cs[i].keyblock.keytype);
}

proof fn lemma_rank(ks: Seq<i32>, t: i32)
    ensures
        rank(ks, t) matches Some(p) ==> 0 <= p < ks.len() && ks[p] == t && forall|q: int| 0 <= q < p ==> #[trigger] ks[q] != t,
        rank(ks, t) is None ==> forall|q: int| 0 <= q < ks.len() ==> #[trigger] ks[q] != t,
    decreases ks.len(),
{
    if ks.len() > 0 && ks[0] != t {
        let rest = ks.drop_first();
        lemma_rank(rest, t);
        assert forall|q: int| 0 < q < ks.len() implies #[trigger] ks[q] == rest[q - 1] by {}
        if rank(rest, t) is Some {
            assert(ks[rank(rest, t)->0 + 1] == rest[rank(rest, t)->0]);
        }
    }
}

/// A request that says nothing is met by every credential that is not of a
/// user-to-user session.
pub proof fn law_anything_matches(c: CcCredentialV)
    ensures
        match_spec(0, match_any(), c) <==> !c.is_skey,
        match_any().client is None && match_any().server is None && match_any().authdata is None && match_any().second_ticket is None,
        match_any().endtime == 0 && match_any().renew_till == 0 && match_any().starttime == 0 && match_any().authtime == 0,
        match_any().ticket_flags == 0 && match_any().etype == 0 && !match_any().is_skey,
{
    law_matches(0, match_any(), c);
    assert(0u32 & 0x40 == 0 && 0u32 & 0x02 == 0 && 0u32 & 0x10 == 0 && 0u32 & 0x04 == 0 && 0u32 & 0x08 == 0 && 0u32 & 0x01 == 0 && 0u32
        & 0x20 == 0 && 0u32 & 0x80 == 0 && 0u32 & 0x100 == 0) by (bit_vector);
}

} // verus!
