//! Credential (un)marshalling.
//!
//! Versions 1-2 use native byte order; versions 3-4 use big-endian.
//! Version 1 omits the principal name type and counts the realm in the
//! component count. Version 3 writes the keyblock enctype twice.
use vstd::prelude::*;
use vstd::utf8::encode_utf8;

use crate::asn1::{general_ok, GeneralString};
use crate::bytes::{append, cut, i16_of, i32_of, lemma_word_round_trip, to_i32, to_u32, u32_of};
use crate::ccache::{cc_outcome, CcCredential, CcCredentialV, CcError};
use crate::der::list_view;
use crate::order::{native_order, octets16, octets32, put_word16, put_word32, read_word16, read_word32, tail, word16, word32, ByteOrder};
use crate::text::{lemma_lossy, lossy, utf8_lossy};
use crate::types::{AuthorizationDataElement, AuthorizationDataElementV, EncryptionKey, EncryptionKeyV, HostAddress, HostAddressV, PrincipalName, PrincipalNameV};

verus! {

/// The byte order of a version on a machine of the given order.
pub open spec fn order_for(version: u8, native: ByteOrder) -> ByteOrder {
    if version >= 3 { ByteOrder::Big } else { native }
}

/// A 16-bit number.
#[verifier::opaque]
pub open spec fn wr16(o: ByteOrder, n: u16) -> Seq<u8> {
    octets16(o, n)
}

/// A 32-bit number.
#[verifier::opaque]
pub open spec fn wr32(o: ByteOrder, n: u32) -> Seq<u8> {
    octets32(o, n)
}

/// A length in four octets.
pub open spec fn len32(o: ByteOrder, n: nat) -> Seq<u8> {
    wr32(o, (n % 0x1_0000_0000) as u32)
}

/// Octets behind their length.
pub open spec fn data_bytes(o: ByteOrder, b: Seq<u8>) -> Seq<u8> {
    len32(o, b.len()) + b
}

/// Name components, each behind its length.
pub open spec fn names_bytes(o: ByteOrder, cs: Seq<Seq<u8>>) -> Seq<u8>
    decreases cs.len(),
{
    if cs.len() == 0 {
        Seq::empty()
    } else {
        data_bytes(o, cs[0]) + names_bytes(o, cs.drop_first())
    }
}

/// What stands before the realm of a principal: the name type and the number
/// of components, or in version 1 that number with the realm counted.
pub open spec fn princ_head(p: PrincipalNameV, version: u8, o: ByteOrder) -> Seq<u8> {
    if version == 1 {
        len32(o, p.name_string.len() + 1)
    } else {
        wr32(o, u32_of(p.name_type)) + len32(o, p.name_string.len())
    }
}

/// A principal with its realm.
pub open spec fn princ_bytes(p: PrincipalNameV, realm: Seq<char>, version: u8, o: ByteOrder) -> Seq<u8> {
    princ_head(p, version, o) + data_bytes(o, encode_utf8(realm)) + names_bytes(o, p.name_string)
}

/// The 16 low bits of a number.
pub open spec fn low16(o: ByteOrder, n: i32) -> Seq<u8> {
    wr16(o, (u32_of(n) % 0x1_0000) as u16)
}

/// A session key, whose enctype version 3 writes twice.
pub open spec fn key_bytes(k: EncryptionKeyV, version: u8, o: ByteOrder) -> Seq<u8> {
    let t = low16(o, k.keytype);
    (if version == 3 { t + t } else { t }) + data_bytes(o, k.keyvalue)
}

/// Typed octets, each behind its type and its length.
pub open spec fn typed_items(o: ByteOrder, ts: Seq<(i32, Seq<u8>)>) -> Seq<u8>
    decreases ts.len(),
{
    if ts.len() == 0 {
        Seq::empty()
    } else {
        low16(o, ts[0].0) + data_bytes(o, ts[0].1) + typed_items(o, ts.drop_first())
    }
}

/// A list of typed octets behind its number.
pub open spec fn typed_bytes(o: ByteOrder, ts: Seq<(i32, Seq<u8>)>) -> Seq<u8> {
    len32(o, ts.len()) + typed_items(o, ts)
}

/// Addresses as typed octets.
pub open spec fn typed_addresses(a: Seq<HostAddressV>) -> Seq<(i32, Seq<u8>)> {
    Seq::new(a.len(), |i: int| (a[i].addr_type, a[i].address))
}

/// Authorization data as typed octets.
pub open spec fn typed_authdata(a: Seq<AuthorizationDataElementV>) -> Seq<(i32, Seq<u8>)> {
    Seq::new(a.len(), |i: int| (a[i].ad_type, a[i].ad_data))
}

/// The times, the user-to-user mark and the flags.
pub open spec fn times_bytes(c: CcCredentialV, o: ByteOrder) -> Seq<u8> {
    wr32(o, c.authtime) + wr32(o, c.starttime) + wr32(o, c.endtime) + wr32(o, c.renew_till) + seq![
        if c.is_skey { 1u8 } else { 0u8 },
    ] + wr32(o, c.ticket_flags)
}

/// The lists and the tickets.
pub open spec fn lists_bytes(c: CcCredentialV, o: ByteOrder) -> Seq<u8> {
    typed_bytes(o, typed_addresses(c.addresses)) + typed_bytes(o, typed_authdata(c.authdata)) + data_bytes(o, c.ticket)
        + data_bytes(o, c.second_ticket)
}

/// The names and the key.
pub open spec fn names_and_key(c: CcCredentialV, version: u8, o: ByteOrder) -> Seq<u8> {
    princ_bytes(c.client, c.crealm, version, o) + princ_bytes(c.server, c.srealm, version, o) + key_bytes(
        c.keyblock,
        version,
        o,
    )
}

/// A credential.
#[verifier::opaque]
pub open spec fn cred_bytes(c: CcCredentialV, version: u8, o: ByteOrder) -> Seq<u8> {
    names_and_key(c, version, o) + times_bytes(c, o) + lists_bytes(c, o)
}

/// Reads a 16-bit number.
#[verifier::opaque]
pub open spec fn rd16(o: ByteOrder, s: Seq<u8>) -> Option<(i16, Seq<u8>)> {
    if s.len() < 2 { None } else { Some((word16(o, s), s.skip(2))) }
}

/// Reads a 32-bit number.
#[verifier::opaque]
pub open spec fn rd32(o: ByteOrder, s: Seq<u8>) -> Option<(u32, Seq<u8>)> {
    if s.len() < 4 { None } else { Some((word32(o, s), s.skip(4))) }
}

/// Reads a length, which is not negative, and as many octets.
pub open spec fn rd_data(o: ByteOrder, s: Seq<u8>) -> Option<(Seq<u8>, Seq<u8>)> {
    match rd32(o, s) {
        None => None,
        Some((n, t)) => if n >= 0x8000_0000 || t.len() < n {
            None
        } else {
            Some((t.take(n as int), t.skip(n as int)))
        },
    }
}

/// Reads a number of items, which is not negative and not larger than the
/// number of octets behind it.
pub open spec fn rd_count(o: ByteOrder, s: Seq<u8>) -> Option<(u32, Seq<u8>)> {
    match rd32(o, s) {
        None => None,
        Some((n, t)) => if n >= 0x8000_0000 || t.len() < n { None } else { Some((n, t)) },
    }
}

/// Reads `n` name components.
pub open spec fn rd_names(o: ByteOrder, s: Seq<u8>, n: nat) -> Option<(Seq<Seq<u8>>, Seq<u8>)>
    decreases n,
{
    if n == 0 {
        Some((Seq::empty(), s))
    } else {
        match rd_data(o, s) {
            None => None,
            Some((c, t)) => if !general_ok(c) {
                None
            } else {
                match rd_names(o, t, (n - 1) as nat) {
                    None => None,
                    Some((cs, rest)) => Some((seq![c] + cs, rest)),
                }
            },
        }
    }
}

/// Reads what stands before the realm of a principal: the name type and the
/// number that counts the components.
pub open spec fn rd_head(s: Seq<u8>, version: u8, o: ByteOrder) -> Option<(i32, u32, Seq<u8>)> {
    if version == 1 {
        match rd_count(o, s) {
            None => None,
            Some((n, t)) => Some((0, n, t)),
        }
    } else {
        match rd32(o, s) {
            None => None,
            Some((w, t)) => match rd_count(o, t) {
                None => None,
                Some((n, u)) => Some((i32_of(w), n, u)),
            },
        }
    }
}

/// How many components a count stands for.
pub open spec fn component_count(version: u8, n: u32) -> nat {
    if version == 1 && n > 0 { (n - 1) as nat } else { n as nat }
}

/// Reads a principal with its realm.
pub open spec fn rd_princ(s: Seq<u8>, version: u8, o: ByteOrder) -> Option<((PrincipalNameV, Seq<char>), Seq<u8>)> {
    match rd_head(s, version, o) {
        None => None,
        Some((name_type, n, t)) => match rd_data(o, t) {
            None => None,
            Some((realm, u)) => match rd_names(o, u, component_count(version, n)) {
                None => None,
                Some((name_string, rest)) => Some(
                    ((PrincipalNameV { name_type, name_string }, utf8_lossy(realm)), rest),
                ),
            },
        },
    }
}

/// Reads a session key.
pub open spec fn rd_key(s: Seq<u8>, version: u8, o: ByteOrder) -> Option<(EncryptionKeyV, Seq<u8>)> {
    match rd16(o, s) {
        None => None,
        Some((t, u)) => match (if version == 3 { rd16(o, u) } else { Some((t, u)) }) {
            None => None,
            Some((_, w)) => match rd_data(o, w) {
                None => None,
                Some((key, rest)) => Some((EncryptionKeyV { keytype: t as i32, keyvalue: key }, rest)),
            },
        },
    }
}

/// Reads `n` typed octets.
pub open spec fn rd_items(o: ByteOrder, s: Seq<u8>, n: nat) -> Option<(Seq<(i32, Seq<u8>)>, Seq<u8>)>
    decreases n,
{
    if n == 0 {
        Some((Seq::empty(), s))
    } else {
        match rd16(o, s) {
            None => None,
            Some((t, u)) => match rd_data(o, u) {
                None => None,
                Some((b, w)) => match rd_items(o, w, (n - 1) as nat) {
                    None => None,
                    Some((ts, rest)) => Some((seq![(t as i32, b)] + ts, rest)),
                },
            },
        }
    }
}

/// Reads a list of typed octets.
pub open spec fn rd_typed(o: ByteOrder, s: Seq<u8>) -> Option<(Seq<(i32, Seq<u8>)>, Seq<u8>)> {
    match rd_count(o, s) {
        None => None,
        Some((n, t)) => rd_items(o, t, n as nat),
    }
}

/// Typed octets as addresses.
pub open spec fn as_addresses(ts: Seq<(i32, Seq<u8>)>) -> Seq<HostAddressV> {
    Seq::new(ts.len(), |i: int| HostAddressV { addr_type: ts[i].0, address: ts[i].1 })
}

/// Typed octets as authorization data.
pub open spec fn as_authdata(ts: Seq<(i32, Seq<u8>)>) -> Seq<AuthorizationDataElementV> {
    Seq::new(ts.len(), |i: int| AuthorizationDataElementV { ad_type: ts[i].0, ad_data: ts[i].1 })
}

/// The times, the user-to-user mark and the flags of a credential.
pub struct TimesV {
    pub authtime: u32,
    pub starttime: u32,
    pub endtime: u32,
    pub renew_till: u32,
    pub is_skey: bool,
    pub ticket_flags: u32,
}

/// Reads an octet that says yes or no.
pub open spec fn rd_mark(s: Seq<u8>) -> Option<(bool, Seq<u8>)> {
    if s.len() < 1 { None } else { Some((s[0] != 0, s.skip(1))) }
}

/// Reads the times, the user-to-user mark and the flags.
pub open spec fn rd_times(o: ByteOrder, s: Seq<u8>) -> Option<(TimesV, Seq<u8>)> {
    match rd32(o, s) {
        None => None,
        Some((authtime, s1)) => match rd32(o, s1) {
            None => None,
            Some((starttime, s2)) => match rd32(o, s2) {
                None => None,
                Some((endtime, s3)) => match rd32(o, s3) {
                    None => None,
                    Some((renew_till, s4)) => match rd_mark(s4) {
                        None => None,
                        Some((is_skey, s5)) => match rd32(o, s5) {
                            None => None,
                            Some((ticket_flags, rest)) => Some(
                                (TimesV { authtime, starttime, endtime, renew_till, is_skey, ticket_flags }, rest),
                            ),
                        },
                    },
                },
            },
        },
    }
}

/// Reads the lists and the tickets.
pub open spec fn rd_lists(o: ByteOrder, s: Seq<u8>) -> Option<
    (Seq<HostAddressV>, Seq<AuthorizationDataElementV>, Seq<u8>, Seq<u8>, Seq<u8>),
> {
    match rd_typed(o, s) {
        None => None,
        Some((a, t)) => match rd_typed(o, t) {
            None => None,
            Some((d, u)) => match rd_data(o, u) {
                None => None,
                Some((ticket, w)) => match rd_data(o, w) {
                    None => None,
                    Some((second, rest)) => Some((as_addresses(a), as_authdata(d), ticket, second, rest)),
                },
            },
        },
    }
}

/// Reads a credential.
#[verifier::opaque]
pub open spec fn rd_cred(s: Seq<u8>, version: u8, o: ByteOrder) -> Option<(CcCredentialV, Seq<u8>)> {
    match rd_princ(s, version, o) {
        None => None,
        Some(((client, crealm), s1)) => match rd_princ(s1, version, o) {
            None => None,
            Some(((server, srealm), s2)) => match rd_key(s2, version, o) {
                None => None,
                Some((keyblock, s3)) => match rd_times(o, s3) {
                    None => None,
                    Some((t, s4)) => match rd_lists(o, s4) {
                        None => None,
                        Some((addresses, authdata, ticket, second_ticket, rest)) => Some(
                            (
                                CcCredentialV {
                                    client,
                                    crealm,
                                    server,
                                    srealm,
                                    keyblock,
                                    authtime: t.authtime,
                                    starttime: t.starttime,
                                    endtime: t.endtime,
                                    renew_till: t.renew_till,
                                    is_skey: t.is_skey,
                                    ticket_flags: t.ticket_flags,
                                    addresses,
                                    authdata,
                                    ticket,
                                    second_ticket,
                                },
                                rest,
                            ),
                        ),
                    },
                },
            },
        },
    }
}

/// Whether a number of octets can be written as a length.
pub open spec fn short_enough(n: nat) -> bool {
    n < 0x8000_0000
}

/// Whether a type fits in 16 bits.
pub open spec fn small_type(t: i32) -> bool {
    -0x8000 <= t < 0x8000
}

/// Whether a principal reads back: lengths that can be written, components
/// that a name can hold, and in version 1 no name type.
pub open spec fn princ_keeps(p: PrincipalNameV, realm: Seq<char>, version: u8) -> bool {
    &&& (if version == 1 { p.name_string.len() + 1 } else { p.name_string.len() }) < 0x8000_0000
    &&& forall|i: int| 0 <= i < p.name_string.len() ==> short_enough((#[trigger] p.name_string[i]).len()) && general_ok(
        p.name_string[i],
    )
    &&& short_enough(encode_utf8(realm).len())
    &&& version == 1 ==> p.name_type == 0
}

/// Whether typed octets read back.
pub open spec fn typed_keeps(ts: Seq<(i32, Seq<u8>)>) -> bool {
    &&& short_enough(ts.len())
    &&& forall|i: int| 0 <= i < ts.len() ==> small_type((#[trigger] ts[i]).0) && short_enough(ts[i].1.len())
}

/// Whether a credential reads back: lengths that can be written and types of
/// 16 bits.
#[verifier::opaque]
pub open spec fn cred_keeps(c: CcCredentialV, version: u8) -> bool {
    &&& princ_keeps(c.client, c.crealm, version)
    &&& princ_keeps(c.server, c.srealm, version)
    &&& small_type(c.keyblock.keytype)
    &&& short_enough(c.keyblock.keyvalue.len())
    &&& typed_keeps(typed_addresses(c.addresses))
    &&& typed_keeps(typed_authdata(c.authdata))
    &&& short_enough(c.ticket.len())
    &&& short_enough(c.second_ticket.len())
}

proof fn lemma_rd32(o: ByteOrder, n: u32, rest: Seq<u8>)
    ensures
        rd32(o, wr32(o, n) + rest) == Some((n, rest)),
        wr32(o, n).len() == 4,
{
    reveal(wr32);
    reveal(rd32);
    lemma_word_round_trip(0, n, 0);
    assert((wr32(o, n) + rest).skip(4) =~= rest);
}

proof fn lemma_rd16(o: ByteOrder, t: i32, rest: Seq<u8>)
    requires
        small_type(t),
    ensures
        rd16(o, low16(o, t) + rest) == Some((t as i16, rest)),
        low16(o, t).len() == 2,
{
    reveal(wr16);
    reveal(rd16);
    let n = (u32_of(t) % 0x1_0000) as u16;
    lemma_word_round_trip(n, 0, 0);
    assert(i16_of(n) == t);
    assert((low16(o, t) + rest).skip(2) =~= rest);
}

proof fn lemma_rd_data(o: ByteOrder, b: Seq<u8>, rest: Seq<u8>)
    requires
        short_enough(b.len()),
    ensures
        rd_data(o, data_bytes(o, b) + rest) == Some((b, rest)),
        data_bytes(o, b).len() == b.len() + 4,
{
    assert(data_bytes(o, b) + rest =~= len32(o, b.len()) + (b + rest));
    lemma_rd32(o, b.len() as u32, b + rest);
    assert((b + rest).take(b.len() as int) =~= b);
    assert((b + rest).skip(b.len() as int) =~= rest);
}

proof fn lemma_rd_names(o: ByteOrder, cs: Seq<Seq<u8>>, rest: Seq<u8>)
    requires
        forall|i: int| 0 <= i < cs.len() ==> short_enough((#[trigger] cs[i]).len()) && general_ok(cs[i]),
    ensures
        rd_names(o, names_bytes(o, cs) + rest, cs.len()) == Some((cs, rest)),
        names_bytes(o, cs).len() >= 4 * cs.len(),
    decreases cs.len(),
{
    if cs.len() == 0 {
        assert(names_bytes(o, cs) + rest =~= rest);
        assert(cs =~= Seq::empty());
    } else {
        let more = cs.drop_first();
        assert forall|i: int| 0 <= i < more.len() implies short_enough((#[trigger] more[i]).len()) && general_ok(more[i]) by {
            assert(more[i] == cs[i + 1]);
        }
        lemma_rd_names(o, more, rest);
        lemma_rd_data(o, cs[0], names_bytes(o, more) + rest);
        assert(names_bytes(o, cs) + rest =~= data_bytes(o, cs[0]) + (names_bytes(o, more) + rest));
        assert(seq![cs[0]] + more =~= cs);
    }
}

proof fn lemma_rd_head(p: PrincipalNameV, version: u8, o: ByteOrder, rest: Seq<u8>)
    requires
        (if version == 1 { p.name_string.len() + 1 } else { p.name_string.len() }) < 0x8000_0000,
        version == 1 ==> p.name_type == 0,
        rest.len() >= p.name_string.len() + 1,
    ensures
        ({
            let n = if version == 1 { p.name_string.len() + 1 } else { p.name_string.len() };
            rd_head(princ_head(p, version, o) + rest, version, o) == Some((p.name_type, n as u32, rest))
        }),
{
    let n = if version == 1 { p.name_string.len() + 1 } else { p.name_string.len() };
    lemma_rd32(o, n as u32, rest);
    if version != 1 {
        let w = u32_of(p.name_type);
        let t = len32(o, n) + rest;
        assert(princ_head(p, version, o) + rest =~= wr32(o, w) + t);
        lemma_rd32(o, w, t);
        assert(i32_of(w) == p.name_type);
    }
}

/// A written principal reads back.
pub proof fn law_princ_round_trip(p: PrincipalNameV, realm: Seq<char>, version: u8, o: ByteOrder, rest: Seq<u8>)
    requires
        princ_keeps(p, realm, version),
    ensures
        rd_princ(princ_bytes(p, realm, version, o) + rest, version, o) == Some(((p, realm), rest)),
{
    let names = names_bytes(o, p.name_string) + rest;
    let t = data_bytes(o, encode_utf8(realm)) + names;
    lemma_rd_names(o, p.name_string, rest);
    lemma_rd_data(o, encode_utf8(realm), names);
    lemma_rd_head(p, version, o, t);
    lemma_lossy(realm);
    assert(princ_bytes(p, realm, version, o) + rest =~= princ_head(p, version, o) + t);
}

proof fn lemma_rd_key(k: EncryptionKeyV, version: u8, o: ByteOrder, rest: Seq<u8>)
    requires
        small_type(k.keytype),
        short_enough(k.keyvalue.len()),
    ensures
        rd_key(key_bytes(k, version, o) + rest, version, o) == Some((k, rest)),
{
    let t = low16(o, k.keytype);
    let d = data_bytes(o, k.keyvalue) + rest;
    lemma_rd_data(o, k.keyvalue, rest);
    lemma_rd16(o, k.keytype, d);
    if version == 3 {
        lemma_rd16(o, k.keytype, t + d);
        assert(key_bytes(k, version, o) + rest =~= t + (t + d));
    } else {
        assert(key_bytes(k, version, o) + rest =~= t + d);
    }
}

proof fn lemma_rd_items(o: ByteOrder, ts: Seq<(i32, Seq<u8>)>, rest: Seq<u8>)
    requires
        forall|i: int| 0 <= i < ts.len() ==> small_type((#[trigger] ts[i]).0) && short_enough(ts[i].1.len()),
    ensures
        rd_items(o, typed_items(o, ts) + rest, ts.len()) == Some((ts, rest)),
        typed_items(o, ts).len() >= 6 * ts.len(),
    decreases ts.len(),
{
    if ts.len() == 0 {
        assert(typed_items(o, ts) + rest =~= rest);
        assert(ts =~= Seq::empty());
    } else {
        let more = ts.drop_first();
        assert forall|i: int| 0 <= i < more.len() implies small_type((#[trigger] more[i]).0) && short_enough(more[i].1.len()) by {
            assert(more[i] == ts[i + 1]);
        }
        lemma_rd_items(o, more, rest);
        let tail = typed_items(o, more) + rest;
        let d = data_bytes(o, ts[0].1) + tail;
        lemma_rd_data(o, ts[0].1, tail);
        lemma_rd16(o, ts[0].0, d);
        assert(typed_items(o, ts) + rest =~= low16(o, ts[0].0) + d);
        assert(seq![ts[0]] + more =~= ts);
    }
}

proof fn lemma_rd_typed(o: ByteOrder, ts: Seq<(i32, Seq<u8>)>, rest: Seq<u8>)
    requires
        typed_keeps(ts),
    ensures
        rd_typed(o, typed_bytes(o, ts) + rest) == Some((ts, rest)),
{
    lemma_rd_items(o, ts, rest);
    let t = typed_items(o, ts) + rest;
    lemma_rd32(o, ts.len() as u32, t);
    assert(typed_bytes(o, ts) + rest =~= len32(o, ts.len()) + t);
}

proof fn lemma_rd_times(c: CcCredentialV, o: ByteOrder, rest: Seq<u8>)
    ensures
        rd_times(o, times_bytes(c, o) + rest) == Some(
            (
                TimesV {
                    authtime: c.authtime,
                    starttime: c.starttime,
                    endtime: c.endtime,
                    renew_till: c.renew_till,
                    is_skey: c.is_skey,
                    ticket_flags: c.ticket_flags,
                },
                rest,
            ),
        ),
{
    let mark = seq![if c.is_skey { 1u8 } else { 0u8 }];
    let s5 = wr32(o, c.ticket_flags) + rest;
    let s4 = mark + s5;
    let s3 = wr32(o, c.renew_till) + s4;
    let s2 = wr32(o, c.endtime) + s3;
    let s1 = wr32(o, c.starttime) + s2;
    assert(times_bytes(c, o) + rest =~= wr32(o, c.authtime) + s1);
    lemma_rd32(o, c.authtime, s1);
    lemma_rd32(o, c.starttime, s2);
    lemma_rd32(o, c.endtime, s3);
    lemma_rd32(o, c.renew_till, s4);
    lemma_rd32(o, c.ticket_flags, rest);
    assert(s4.skip(1) =~= s5);
}

proof fn lemma_rd_lists(c: CcCredentialV, o: ByteOrder, rest: Seq<u8>)
    requires
        typed_keeps(typed_addresses(c.addresses)),
        typed_keeps(typed_authdata(c.authdata)),
        short_enough(c.ticket.len()),
        short_enough(c.second_ticket.len()),
    ensures
        rd_lists(o, lists_bytes(c, o) + rest) == Some((c.addresses, c.authdata, c.ticket, c.second_ticket, rest)),
{
    let a = typed_addresses(c.addresses);
    let d = typed_authdata(c.authdata);
    let s3 = data_bytes(o, c.second_ticket) + rest;
    let s2 = data_bytes(o, c.ticket) + s3;
    let s1 = typed_bytes(o, d) + s2;
    assert(lists_bytes(c, o) + rest =~= typed_bytes(o, a) + s1);
    lemma_rd_typed(o, a, s1);
    lemma_rd_typed(o, d, s2);
    lemma_rd_data(o, c.ticket, s3);
    lemma_rd_data(o, c.second_ticket, rest);
    assert(as_addresses(a) =~= c.addresses);
    assert(as_authdata(d) =~= c.authdata);
}

/// A written credential reads back, whatever follows it.
pub proof fn law_cred_round_trip(c: CcCredentialV, version: u8, o: ByteOrder, rest: Seq<u8>)
    requires
        cred_keeps(c, version),
    ensures
        rd_cred(cred_bytes(c, version, o) + rest, version, o) == Some((c, rest)),
{
    reveal(rd_cred);
    reveal(cred_bytes);
    reveal(cred_keeps);
    let s4 = lists_bytes(c, o) + rest;
    let s3 = times_bytes(c, o) + s4;
    let s2 = key_bytes(c.keyblock, version, o) + s3;
    let s1 = princ_bytes(c.server, c.srealm, version, o) + s2;
    assert(cred_bytes(c, version, o) + rest =~= princ_bytes(c.client, c.crealm, version, o) + s1);
    law_princ_round_trip(c.client, c.crealm, version, o, s1);
    law_princ_round_trip(c.server, c.srealm, version, o, s2);
    lemma_rd_key(c.keyblock, version, o, s3);
    lemma_rd_times(c, o, s4);
    lemma_rd_lists(c, o, rest);
}

fn order_of(version: u8, native: ByteOrder) -> (r: ByteOrder)
    ensures
        r == order_for(version, native),
{
    if version >= 3 { ByteOrder::Big } else { native }
}

fn put32(out: &mut Vec<u8>, o: ByteOrder, n: u32)
    ensures
        final(out)@ == old(out)@ + wr32(o, n),
{
    reveal(wr32);
    put_word32(out, o, n)
}

fn put_low16(out: &mut Vec<u8>, o: ByteOrder, n: i32)
    ensures
        final(out)@ == old(out)@ + low16(o, n),
{
    reveal(wr16);
    put_word16(out, o, (to_u32(n) % 0x1_0000) as u16)
}

fn put_len(out: &mut Vec<u8>, o: ByteOrder, n: usize)
    ensures
        final(out)@ == old(out)@ + len32(o, n as nat),
{
    put32(out, o, (n as u64 % 0x1_0000_0000) as u32)
}

fn put_data(out: &mut Vec<u8>, o: ByteOrder, b: &[u8])
    ensures
        final(out)@ == old(out)@ + data_bytes(o, b@),
{
    put_len(out, o, b.len());
    append(out, b);
    assert(out@ =~= old(out)@ + data_bytes(o, b@));
}

fn put_princ(out: &mut Vec<u8>, p: &PrincipalName, realm: &str, version: u8, o: ByteOrder)
    ensures
        final(out)@ == old(out)@ + princ_bytes(p@, realm@, version, o),
{
    let ghost cs = p@.name_string;
    let n: usize = p.name_string.len();
    if version == 1 {
        // The count covers the realm; no name type.
        put32(out, o, ((n as u128 + 1) % 0x1_0000_0000) as u32);
    } else {
        put32(out, o, to_u32(p.name_type));
        put_len(out, o, n);
    }
    assert(out@ =~= old(out)@ + princ_head(p@, version, o));
    put_data(out, o, realm.as_bytes());
    let ghost head = old(out)@ + princ_head(p@, version, o) + data_bytes(o, encode_utf8(realm@));
    assert(out@ =~= head);
    let mut i: usize = 0;
    assert(cs.skip(0) =~= cs);
    while i < n
        invariant
            i <= n == p.name_string@.len(),
            cs == list_view(p.name_string@),
            out@ + names_bytes(o, cs.skip(i as int)) == head + names_bytes(o, cs),
        decreases n - i,
    {
        let ghost before = out@;
        let c = p.name_string[i].as_bytes();
        put_data(out, o, c);
        proof {
            assert(cs.skip(i as int).drop_first() =~= cs.skip(i + 1));
            assert(cs.skip(i as int)[0] == c@);
            assert(out@ + names_bytes(o, cs.skip(i + 1)) =~= before + names_bytes(o, cs.skip(i as int)));
        }
        i = i + 1;
    }
    assert(cs.skip(i as int).len() == 0);
    assert(out@ =~= head + names_bytes(o, cs));
    assert(out@ =~= old(out)@ + princ_bytes(p@, realm@, version, o));
}

/// A principal as it is written, versions 1 and 2 in the given order.
pub fn marshal_princ_in(p: &PrincipalName, realm: &str, version: u8, native: ByteOrder) -> (r: Vec<u8>)
    ensures
        r@ == princ_bytes(p@, realm@, version, order_for(version, native)),
{
    let mut out: Vec<u8> = Vec::new();
    put_princ(&mut out, p, realm, version, order_of(version, native));
    assert(out@ =~= princ_bytes(p@, realm@, version, order_for(version, native)));
    out
}

/// A principal as it is written on this machine.
pub fn marshal_princ(p: &PrincipalName, realm: &str, version: u8) -> (r: Vec<u8>)
    ensures
        r@ == princ_bytes(p@, realm@, version, ByteOrder::Big) || (version < 3 && r@ == princ_bytes(
            p@,
            realm@,
            version,
            ByteOrder::Little,
        )),
{
    marshal_princ_in(p, realm, version, native_order())
}

fn put_key(out: &mut Vec<u8>, k: &EncryptionKey, version: u8, o: ByteOrder)
    ensures
        final(out)@ == old(out)@ + key_bytes(k@, version, o),
{
    put_low16(out, o, k.keytype);
    if version == 3 {
        put_low16(out, o, k.keytype);
    }
    put_data(out, o, k.key_bytes());
    assert(out@ =~= old(out)@ + key_bytes(k@, version, o));
}

fn put_addrs(out: &mut Vec<u8>, addrs: &[HostAddress], o: ByteOrder)
    ensures
        final(out)@ == old(out)@ + typed_bytes(o, typed_addresses(list_view(addrs@))),
{
    let ghost ts = typed_addresses(list_view(addrs@));
    let n: usize = addrs.len();
    put_len(out, o, n);
    let ghost head = old(out)@ + len32(o, ts.len());
    let mut i: usize = 0;
    assert(ts.skip(0) =~= ts);
    while i < n
        invariant
            i <= n == addrs@.len(),
            ts == typed_addresses(list_view(addrs@)),
            out@ + typed_items(o, ts.skip(i as int)) == head + typed_items(o, ts),
        decreases n - i,
    {
        let ghost before = out@;
        put_low16(out, o, addrs[i].addr_type);
        put_data(out, o, &addrs[i].address);
        proof {
            let rest = ts.skip(i as int);
            assert(rest.drop_first() =~= ts.skip(i + 1));
            assert(rest[0] == (addrs@[i as int].addr_type, addrs@[i as int].address@));
            assert(out@ + typed_items(o, ts.skip(i + 1)) =~= before + typed_items(o, rest));
        }
        i = i + 1;
    }
    assert(ts.skip(i as int).len() == 0);
    assert(out@ =~= head + typed_items(o, ts));
    assert(out@ =~= old(out)@ + typed_bytes(o, ts));
}

fn put_authdata(out: &mut Vec<u8>, ad: &[AuthorizationDataElement], o: ByteOrder)
    ensures
        final(out)@ == old(out)@ + typed_bytes(o, typed_authdata(list_view(ad@))),
{
    let ghost ts = typed_authdata(list_view(ad@));
    let n: usize = ad.len();
    put_len(out, o, n);
    let ghost head = old(out)@ + len32(o, ts.len());
    let mut i: usize = 0;
    assert(ts.skip(0) =~= ts);
    while i < n
        invariant
            i <= n == ad@.len(),
            ts == typed_authdata(list_view(ad@)),
            out@ + typed_items(o, ts.skip(i as int)) == head + typed_items(o, ts),
        decreases n - i,
    {
        let ghost before = out@;
        put_low16(out, o, ad[i].ad_type);
        put_data(out, o, &ad[i].ad_data);
        proof {
            let rest = ts.skip(i as int);
            assert(rest.drop_first() =~= ts.skip(i + 1));
            assert(rest[0] == (ad@[i as int].ad_type, ad@[i as int].ad_data@));
            assert(out@ + typed_items(o, ts.skip(i + 1)) =~= before + typed_items(o, rest));
        }
        i = i + 1;
    }
    assert(ts.skip(i as int).len() == 0);
    assert(out@ =~= head + typed_items(o, ts));
    assert(out@ =~= old(out)@ + typed_bytes(o, ts));
}

fn put_times(out: &mut Vec<u8>, c: &CcCredential, o: ByteOrder)
    ensures
        final(out)@ == old(out)@ + times_bytes(c@, o),
{
    put32(out, o, c.authtime);
    put32(out, o, c.starttime);
    put32(out, o, c.endtime);
    put32(out, o, c.renew_till);
    out.push(if c.is_skey { 1 } else { 0 });
    put32(out, o, c.ticket_flags);
    assert(out@ =~= old(out)@ + times_bytes(c@, o));
}

/// A credential as it is written, versions 1 and 2 in the given order.
pub fn marshal_cred_in(c: &CcCredential, version: u8, native: ByteOrder) -> (r: Vec<u8>)
    ensures
        r@ == cred_bytes(c@, version, order_for(version, native)),
{
    let o = order_of(version, native);
    let mut out: Vec<u8> = Vec::new();
    put_princ(&mut out, &c.client, &c.crealm, version, o);
    put_princ(&mut out, &c.server, &c.srealm, version, o);
    put_key(&mut out, &c.keyblock, version, o);
    assert(out@ =~= names_and_key(c@, version, o));
    put_times(&mut out, c, o);
    let ghost head = out@;
    put_addrs(&mut out, &c.addresses, o);
    put_authdata(&mut out, &c.authdata, o);
    put_data(&mut out, o, &c.ticket);
    put_data(&mut out, o, &c.second_ticket);
    assert(out@ =~= head + lists_bytes(c@, o));
    reveal(cred_bytes);
    out
}

/// A credential as it is written on this machine.
pub fn marshal_cred(c: &CcCredential, version: u8) -> (r: Vec<u8>)
    ensures
        r@ == cred_bytes(c@, version, ByteOrder::Big) || (version < 3 && r@ == cred_bytes(c@, version, ByteOrder::Little)),
{
    marshal_cred_in(c, version, native_order())
}

fn take16<'a>(o: ByteOrder, s: &'a [u8]) -> (r: Option<(i16, &'a [u8])>)
    ensures
        match r {
            Some((n, t)) => rd16(o, s@) == Some((n, t@)),
            None => rd16(o, s@) is None,
        },
{
    reveal(rd16);
    if s.len() < 2 {
        return None;
    }
    Some((read_word16(o, s), tail(s, 2)))
}

fn take32<'a>(o: ByteOrder, s: &'a [u8]) -> (r: Option<(u32, &'a [u8])>)
    ensures
        match r {
            Some((n, t)) => rd32(o, s@) == Some((n, t@)),
            None => rd32(o, s@) is None,
        },
{
    reveal(rd32);
    if s.len() < 4 {
        return None;
    }
    Some((read_word32(o, s), tail(s, 4)))
}

fn take_count<'a>(o: ByteOrder, s: &'a [u8]) -> (r: Option<(usize, &'a [u8])>)
    ensures
        match r {
            Some((n, t)) => rd_count(o, s@) == Some((n as u32, t@)) && n < 0x8000_0000,
            None => rd_count(o, s@) is None,
        },
{
    let (n, t) = match take32(o, s) {
        Some(x) => x,
        None => return None,
    };
    if n >= 0x8000_0000 || t.len() < n as usize {
        return None;
    }
    Some((n as usize, t))
}

fn take_data<'a>(o: ByteOrder, s: &'a [u8]) -> (r: Option<(Vec<u8>, &'a [u8])>)
    ensures
        match r {
            Some((b, t)) => rd_data(o, s@) == Some((b@, t@)),
            None => rd_data(o, s@) is None,
        },
{
    let (n, t) = match take_count(o, s) {
        Some(x) => x,
        None => return None,
    };
    let b = cut(t, 0, n);
    assert(b@ =~= t@.take(n as int));
    Some((b, tail(t, n)))
}

fn take_names<'a>(o: ByteOrder, s: &'a [u8], n: usize) -> (r: Option<(Vec<GeneralString>, &'a [u8])>)
    ensures
        match r {
            Some((cs, t)) => rd_names(o, s@, n as nat) == Some((list_view(cs@), t@)),
            None => rd_names(o, s@, n as nat) is None,
        },
{
    let mut rest: &[u8] = s;
    let mut cs: Vec<GeneralString> = Vec::new();
    let mut left: usize = n;
    assert(list_view(cs@) =~= Seq::empty());
    while left > 0
        invariant
            left <= n,
            match rd_names(o, rest@, left as nat) {
                Some((more, t)) => rd_names(o, s@, n as nat) == Some((list_view(cs@) + more, t)),
                None => rd_names(o, s@, n as nat) is None,
            },
        decreases left,
    {
        let (c, t) = match take_data(o, rest) {
            Some(x) => x,
            None => return None,
        };
        let g = match GeneralString::from_bytes(&c) {
            Some(g) => g,
            None => return None,
        };
        let ghost before = list_view(cs@);
        cs.push(g);
        proof {
            assert(list_view(cs@) =~= before.push(c@));
            match rd_names(o, t@, (left - 1) as nat) {
                Some((more, _)) => {
                    assert(before + (seq![c@] + more) =~= list_view(cs@) + more);
                },
                None => {},
            }
        }
        rest = t;
        left = left - 1;
    }
    assert(list_view(cs@) + Seq::empty() =~= list_view(cs@));
    Some((cs, rest))
}

fn take_princ<'a>(s: &'a [u8], version: u8, o: ByteOrder) -> (r: Option<((PrincipalName, String), &'a [u8])>)
    ensures
        match r {
            Some((p, t)) => rd_princ(s@, version, o) == Some((p@, t@)),
            None => rd_princ(s@, version, o) is None,
        },
{
    let (name_type, s) = if version == 1 {
        (0, s)
    } else {
        match take32(o, s) {
            Some((w, t)) => (to_i32(w), t),
            None => return None,
        }
    };
    // The count cannot exceed the remaining input.
    let (n, s) = match take_count(o, s) {
        Some(x) => x,
        None => return None,
    };
    let (realm, s) = match take_data(o, s) {
        Some(x) => x,
        None => return None,
    };
    let n: usize = if version == 1 && n > 0 { n - 1 } else { n };
    let (name_string, s) = match take_names(o, s, n) {
        Some(x) => x,
        None => return None,
    };
    Some(((PrincipalName { name_type, name_string }, lossy(&realm)), s))
}

fn take_key<'a>(s: &'a [u8], version: u8, o: ByteOrder) -> (r: Option<(EncryptionKey, &'a [u8])>)
    ensures
        match r {
            Some((k, t)) => rd_key(s@, version, o) == Some((k@, t@)),
            None => rd_key(s@, version, o) is None,
        },
{
    let (etype, s) = match take16(o, s) {
        Some(x) => x,
        None => return None,
    };
    let s = if version == 3 {
        match take16(o, s) {
            Some((_, t)) => t,
            None => return None,
        }
    } else {
        s
    };
    match take_data(o, s) {
        Some((key, t)) => Some((EncryptionKey::new(etype as i32, key), t)),
        None => None,
    }
}

fn take_typed<'a>(o: ByteOrder, s: &'a [u8]) -> (r: Option<(Vec<(i32, Vec<u8>)>, &'a [u8])>)
    ensures
        match r {
            Some((ts, t)) => rd_typed(o, s@) == Some((list_view(ts@), t@)),
            None => rd_typed(o, s@) is None,
        },
{
    let (n, start) = match take_count(o, s) {
        Some(x) => x,
        None => return None,
    };
    let mut rest: &[u8] = start;
    let mut ts: Vec<(i32, Vec<u8>)> = Vec::new();
    let mut left: usize = n;
    assert(list_view(ts@) =~= Seq::empty());
    while left > 0
        invariant
            left <= n,
            match rd_items(o, rest@, left as nat) {
                Some((more, t)) => rd_items(o, start@, n as nat) == Some((list_view(ts@) + more, t)),
                None => rd_items(o, start@, n as nat) is None,
            },
            n < 0x8000_0000,
            rd_typed(o, s@) == rd_items(o, start@, n as nat),
        decreases left,
    {
        let (kind, t) = match take16(o, rest) {
            Some(x) => x,
            None => return None,
        };
        let (b, t) = match take_data(o, t) {
            Some(x) => x,
            None => return None,
        };
        let ghost before = list_view(ts@);
        let ghost item = (kind as i32, b@);
        ts.push((kind as i32, b));
        proof {
            assert(list_view(ts@) =~= before.push(item));
            match rd_items(o, t@, (left - 1) as nat) {
                Some((more, _)) => {
                    assert(before + (seq![item] + more) =~= list_view(ts@) + more);
                },
                None => {},
            }
        }
        rest = t;
        left = left - 1;
    }
    assert(list_view(ts@) + Seq::empty() =~= list_view(ts@));
    Some((ts, rest))
}

fn to_addresses(ts: &Vec<(i32, Vec<u8>)>) -> (r: Vec<HostAddress>)
    ensures
        list_view(r@) == as_addresses(list_view(ts@)),
{
    let mut out: Vec<HostAddress> = Vec::new();
    let mut i: usize = 0;
    while i < ts.len()
        invariant
            i <= ts@.len(),
            out@.len() == i,
            forall|j: int| 0 <= j < i ==> (#[trigger] out@[j])@ == as_addresses(list_view(ts@))[j],
        decreases ts@.len() - i,
    {
        out.push(HostAddress { addr_type: ts[i].0, address: crate::bytes::copy(&ts[i].1) });
        i = i + 1;
    }
    assert(list_view(out@) =~= as_addresses(list_view(ts@)));
    out
}

fn to_authdata(ts: &Vec<(i32, Vec<u8>)>) -> (r: Vec<AuthorizationDataElement>)
    ensures
        list_view(r@) == as_authdata(list_view(ts@)),
{
    let mut out: Vec<AuthorizationDataElement> = Vec::new();
    let mut i: usize = 0;
    while i < ts.len()
        invariant
            i <= ts@.len(),
            out@.len() == i,
            forall|j: int| 0 <= j < i ==> (#[trigger] out@[j])@ == as_authdata(list_view(ts@))[j],
        decreases ts@.len() - i,
    {
        out.push(AuthorizationDataElement { ad_type: ts[i].0, ad_data: crate::bytes::copy(&ts[i].1) });
        i = i + 1;
    }
    assert(list_view(out@) =~= as_authdata(list_view(ts@)));
    out
}

struct Times {
    authtime: u32,
    starttime: u32,
    endtime: u32,
    renew_till: u32,
    is_skey: bool,
    ticket_flags: u32,
}

fn take_times<'a>(o: ByteOrder, s: &'a [u8]) -> (r: Option<(Times, &'a [u8])>)
    ensures
        match r {
            Some((x, t)) => rd_times(o, s@) == Some(
                (
                    TimesV {
                        authtime: x.authtime,
                        starttime: x.starttime,
                        endtime: x.endtime,
                        renew_till: x.renew_till,
                        is_skey: x.is_skey,
                        ticket_flags: x.ticket_flags,
                    },
                    t@,
                ),
            ),
            None => rd_times(o, s@) is None,
        },
{
    let (authtime, s) = match take32(o, s) {
        Some(x) => x,
        None => return None,
    };
    let (starttime, s) = match take32(o, s) {
        Some(x) => x,
        None => return None,
    };
    let (endtime, s) = match take32(o, s) {
        Some(x) => x,
        None => return None,
    };
    let (renew_till, s) = match take32(o, s) {
        Some(x) => x,
        None => return None,
    };
    if s.len() < 1 {
        return None;
    }
    let is_skey = s[0] != 0;
    match take32(o, tail(s, 1)) {
        Some((ticket_flags, t)) => Some((Times { authtime, starttime, endtime, renew_till, is_skey, ticket_flags }, t)),
        None => None,
    }
}

fn take_cred<'a>(s: &'a [u8], version: u8, o: ByteOrder) -> (r: Option<(CcCredential, &'a [u8])>)
    ensures
        match r {
            Some((c, t)) => rd_cred(s@, version, o) == Some((c@, t@)),
            None => rd_cred(s@, version, o) is None,
        },
{
    reveal(rd_cred);
    let ((client, crealm), s) = match take_princ(s, version, o) {
        Some(x) => x,
        None => return None,
    };
    let ((server, srealm), s) = match take_princ(s, version, o) {
        Some(x) => x,
        None => return None,
    };
    let (keyblock, s) = match take_key(s, version, o) {
        Some(x) => x,
        None => return None,
    };
    let (t, s) = match take_times(o, s) {
        Some(x) => x,
        None => return None,
    };
    let (addrs, s) = match take_typed(o, s) {
        Some(x) => x,
        None => return None,
    };
    let (ad, s) = match take_typed(o, s) {
        Some(x) => x,
        None => return None,
    };
    let (ticket, s) = match take_data(o, s) {
        Some(x) => x,
        None => return None,
    };
    let (second_ticket, s) = match take_data(o, s) {
        Some(x) => x,
        None => return None,
    };
    let c = CcCredential {
        client,
        crealm,
        server,
        srealm,
        keyblock,
        authtime: t.authtime,
        starttime: t.starttime,
        endtime: t.endtime,
        renew_till: t.renew_till,
        is_skey: t.is_skey,
        ticket_flags: t.ticket_flags,
        addresses: to_addresses(&addrs),
        authdata: to_authdata(&ad),
        ticket,
        second_ticket,
    };
    Some((c, s))
}

/// Reads a principal, versions 1 and 2 in the given order; also the consumed
/// length.
pub fn unmarshal_princ_len(data: &[u8], version: u8, native: ByteOrder) -> (r: Result<(PrincipalName, String, usize), CcError>)
    ensures
        match r {
            Ok((p, realm, n)) => n <= data@.len() && rd_princ(data@, version, order_for(version, native)) == Some(
                ((p@, realm@), data@.skip(n as int)),
            ),
            Err(e) => e == CcError::Format && rd_princ(data@, version, order_for(version, native)) is None,
        },
{
    match take_princ(data, version, order_of(version, native)) {
        Some(((p, realm), t)) => {
            proof {
                lemma_princ_suffix(data@, version, order_for(version, native));
            }
            let n: usize = data.len() - t.len();
            Ok((p, realm, n))
        },
        None => Err(CcError::Format),
    }
}

/// Reads a credential, versions 1 and 2 in the given order; also the
/// consumed length.
pub fn unmarshal_cred_len(data: &[u8], version: u8, native: ByteOrder) -> (r: Result<(CcCredential, usize), CcError>)
    ensures
        match r {
            Ok((c, n)) => 0 < n <= data@.len() && rd_cred(data@, version, order_for(version, native)) == Some(
                (c@, data@.skip(n as int)),
            ),
            Err(e) => e == CcError::Format && rd_cred(data@, version, order_for(version, native)) is None,
        },
{
    match take_cred(data, version, order_of(version, native)) {
        Some((c, t)) => {
            proof {
                lemma_cred_suffix(data@, version, order_for(version, native));
            }
            let n: usize = data.len() - t.len();
            Ok((c, n))
        },
        None => Err(CcError::Format),
    }
}

/// Reads a principal as written on this machine. Trailing bytes are ignored.
pub fn unmarshal_princ(data: &[u8], version: u8) -> (r: Result<(PrincipalName, String), CcError>)
    ensures
        exists|native: ByteOrder|
            cc_outcome(r) == first_read(#[trigger] rd_princ(data@, version, order_for(version, native))),
{
    let native = native_order();
    match unmarshal_princ_len(data, version, native) {
        Ok((p, realm, _)) => {
            assert(first_read(rd_princ(data@, version, order_for(version, native))) is Ok);
            Ok((p, realm))
        },
        Err(e) => {
            assert(first_read(rd_princ(data@, version, order_for(version, native))) is Err);
            Err(e)
        },
    }
}

/// Reads a credential as written on this machine. Trailing bytes are
/// ignored.
pub fn unmarshal_cred(data: &[u8], version: u8) -> (r: Result<CcCredential, CcError>)
    ensures
        exists|native: ByteOrder|
            cc_outcome(r) == first_read(#[trigger] rd_cred(data@, version, order_for(version, native))),
{
    let native = native_order();
    match unmarshal_cred_len(data, version, native) {
        Ok((c, _)) => {
            assert(first_read(rd_cred(data@, version, order_for(version, native))) is Ok);
            Ok(c)
        },
        Err(e) => {
            assert(first_read(rd_cred(data@, version, order_for(version, native))) is Err);
            Err(e)
        },
    }
}

/// What was read, without what follows it.
pub open spec fn first_read<T>(r: Option<(T, Seq<u8>)>) -> Result<T, CcError> {
    match r {
        Some((x, _)) => Ok(x),
        None => Err(CcError::Format),
    }
}

/// Whether `t` is what follows some octets of `s`.
pub open spec fn follows(s: Seq<u8>, t: Seq<u8>) -> bool {
    t.len() <= s.len() && t == s.skip(s.len() - t.len())
}

proof fn lemma_follows(s: Seq<u8>, t: Seq<u8>, u: Seq<u8>)
    requires
        follows(s, t),
        follows(t, u),
    ensures
        follows(s, u),
{
    assert(u =~= s.skip(s.len() - u.len()));
}

proof fn lemma_word_suffix(o: ByteOrder, s: Seq<u8>)
    ensures
        rd32(o, s) matches Some((_, t)) ==> follows(s, t) && t.len() + 4 == s.len(),
        rd16(o, s) matches Some((_, t)) ==> follows(s, t),
        rd_count(o, s) matches Some((_, t)) ==> follows(s, t) && t.len() + 4 == s.len(),
{
    reveal(rd32);
    reveal(rd16);
}

proof fn lemma_data_suffix(o: ByteOrder, s: Seq<u8>)
    ensures
        rd_data(o, s) matches Some((_, t)) ==> follows(s, t),
{
    lemma_word_suffix(o, s);
    match rd32(o, s) {
        Some((n, t)) => {
            if t.len() >= n {
                lemma_follows(s, t, t.skip(n as int));
            }
        },
        None => {},
    }
}

proof fn lemma_names_suffix(o: ByteOrder, s: Seq<u8>, n: nat)
    ensures
        rd_names(o, s, n) matches Some((_, t)) ==> follows(s, t),
    decreases n,
{
    if n == 0 {
        assert(s =~= s.skip(0));
    } else {
        lemma_data_suffix(o, s);
        match rd_data(o, s) {
            Some((_, t)) => {
                lemma_names_suffix(o, t, (n - 1) as nat);
                match rd_names(o, t, (n - 1) as nat) {
                    Some((_, u)) => {
                        lemma_follows(s, t, u);
                    },
                    None => {},
                }
            },
            None => {},
        }
    }
}

proof fn lemma_items_suffix(o: ByteOrder, s: Seq<u8>, n: nat)
    ensures
        rd_items(o, s, n) matches Some((_, t)) ==> follows(s, t),
    decreases n,
{
    if n == 0 {
        assert(s =~= s.skip(0));
    } else {
        lemma_word_suffix(o, s);
        match rd16(o, s) {
            Some((_, t)) => {
                lemma_data_suffix(o, t);
                match rd_data(o, t) {
                    Some((_, u)) => {
                        lemma_follows(s, t, u);
                        lemma_items_suffix(o, u, (n - 1) as nat);
                        match rd_items(o, u, (n - 1) as nat) {
                            Some((_, w)) => {
                                lemma_follows(s, u, w);
                            },
                            None => {},
                        }
                    },
                    None => {},
                }
            },
            None => {},
        }
    }
}

proof fn lemma_princ_suffix(s: Seq<u8>, version: u8, o: ByteOrder)
    ensures
        rd_princ(s, version, o) matches Some((_, t)) ==> follows(s, t) && t.len() + 4 <= s.len(),
{
    lemma_word_suffix(o, s);
    if version != 1 {
        match rd32(o, s) {
            Some((_, t)) => {
                lemma_word_suffix(o, t);
                match rd_count(o, t) {
                    Some((_, u)) => {
                        lemma_follows(s, t, u);
                    },
                    None => {},
                }
            },
            None => {},
        }
    }
    match rd_head(s, version, o) {
        Some((_, n, t)) => {
            lemma_data_suffix(o, t);
            match rd_data(o, t) {
                Some((_, u)) => {
                    lemma_follows(s, t, u);
                    let k = component_count(version, n);
                    lemma_names_suffix(o, u, k);
                    match rd_names(o, u, k) {
                        Some((_, w)) => {
                            lemma_follows(s, u, w);
                        },
                        None => {},
                    }
                },
                None => {},
            }
        },
        None => {},
    }
}

proof fn lemma_key_suffix(s: Seq<u8>, version: u8, o: ByteOrder)
    ensures
        rd_key(s, version, o) matches Some((_, t)) ==> follows(s, t),
{
    lemma_word_suffix(o, s);
    match rd16(o, s) {
        Some((_, t)) => {
            lemma_word_suffix(o, t);
            lemma_data_suffix(o, t);
            if version == 3 {
                match rd16(o, t) {
                    Some((_, u)) => {
                        lemma_follows(s, t, u);
                        lemma_data_suffix(o, u);
                        match rd_data(o, u) {
                            Some((_, w)) => {
                                lemma_follows(s, u, w);
                            },
                            None => {},
                        }
                    },
                    None => {},
                }
            } else {
                match rd_data(o, t) {
                    Some((_, w)) => {
                        lemma_follows(s, t, w);
                    },
                    None => {},
                }
            }
        },
        None => {},
    }
}

proof fn lemma_times_suffix(o: ByteOrder, s: Seq<u8>)
    ensures
        rd_times(o, s) matches Some((_, t)) ==> follows(s, t),
{
    if rd_times(o, s) is Some {
        let s1 = rd32(o, s)->Some_0.1;
        let s2 = rd32(o, s1)->Some_0.1;
        let s3 = rd32(o, s2)->Some_0.1;
        let s4 = rd32(o, s3)->Some_0.1;
        let s5 = rd_mark(s4)->Some_0.1;
        let s6 = rd32(o, s5)->Some_0.1;
        lemma_word_suffix(o, s);
        lemma_word_suffix(o, s1);
        lemma_word_suffix(o, s2);
        lemma_word_suffix(o, s3);
        lemma_word_suffix(o, s5);
        lemma_follows(s, s1, s2);
        lemma_follows(s, s2, s3);
        lemma_follows(s, s3, s4);
        lemma_follows(s, s4, s5);
        lemma_follows(s, s5, s6);
    }
}

proof fn lemma_typed_suffix(o: ByteOrder, s: Seq<u8>)
    ensures
        rd_typed(o, s) matches Some((_, t)) ==> follows(s, t),
{
    if rd_typed(o, s) is Some {
        let (n, t) = rd_count(o, s)->0;
        lemma_word_suffix(o, s);
        lemma_items_suffix(o, t, n as nat);
        lemma_follows(s, t, rd_typed(o, s)->Some_0.1);
    }
}

proof fn lemma_lists_suffix(o: ByteOrder, s: Seq<u8>)
    ensures
        rd_lists(o, s) matches Some((_, _, _, _, t)) ==> follows(s, t),
{
    if rd_lists(o, s) is Some {
        let t = rd_typed(o, s)->Some_0.1;
        let u = rd_typed(o, t)->Some_0.1;
        let w = rd_data(o, u)->Some_0.1;
        let x = rd_data(o, w)->Some_0.1;
        lemma_typed_suffix(o, s);
        lemma_typed_suffix(o, t);
        lemma_data_suffix(o, u);
        lemma_data_suffix(o, w);
        lemma_follows(s, t, u);
        lemma_follows(s, u, w);
        lemma_follows(s, w, x);
    }
}

/// Reading a credential takes octets from the front.
pub proof fn lemma_cred_suffix(s: Seq<u8>, version: u8, o: ByteOrder)
    ensures
        rd_cred(s, version, o) matches Some((_, t)) ==> follows(s, t) && t.len() < s.len(),
{
    reveal(rd_cred);
    if rd_cred(s, version, o) is Some {
        let s1 = rd_princ(s, version, o)->Some_0.1;
        let s2 = rd_princ(s1, version, o)->Some_0.1;
        let s3 = rd_key(s2, version, o)->Some_0.1;
        let s4 = rd_times(o, s3)->Some_0.1;
        let t = rd_cred(s, version, o)->Some_0.1;
        lemma_princ_suffix(s, version, o);
        lemma_princ_suffix(s1, version, o);
        lemma_key_suffix(s2, version, o);
        lemma_times_suffix(o, s3);
        lemma_lists_suffix(o, s4);
        lemma_follows(s, s1, s2);
        lemma_follows(s, s2, s3);
        lemma_follows(s, s3, s4);
        lemma_follows(s, s4, t);
    }
}

} // verus!
