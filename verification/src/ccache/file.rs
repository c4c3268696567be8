//! FILE credential cache: versions 1 to 4. A [`FileCcache`] holds the contents
//! of the file.
use vstd::prelude::*;
use vstd::utf8::encode_utf8;

use crate::bytes::{append, be16, be32, copy, cut, get_be16, get_be32, lemma_word_round_trip, put_be16, put_be32, read_be16, read_be32};
use crate::ccache::config::{config_cred_spec, config_count, config_parts, config_principal_spec, config_request_spec, find_config, law_config_set, nameable, plain_config, without_first, Whom};
use crate::ccache::marshal::{cred_bytes, cred_keeps, law_cred_round_trip, law_princ_round_trip, lemma_cred_suffix, marshal_cred_in, marshal_princ_in, order_for, princ_bytes, princ_keeps, rd_cred, rd_princ, unmarshal_cred_len, unmarshal_princ_len};
use crate::ccache::retrieve::{any_match, match_spec};
use crate::ccache::{creds_match_request, CcCredential, CcCredentialV, CcError, Ccache, MatchCred, MatchCredV, CONFIG_REALM, REMOVED_CONFIG_REALM};
use crate::der::{list_view, opt_view};
use crate::order::{native_order, tail, ByteOrder};
use crate::text::{lemma_ascii, owned, same_text};
use crate::types::{PrincipalName, PrincipalNameV};

verus! {

/// A FILE credential cache: the contents of the file, none when it does not
/// exist.
#[derive(Debug)]
pub struct FileCcache {
    data: Option<Vec<u8>>,
    /// Version written by `initialize` (default 4). Reading uses the version
    /// found in the file.
    version: u8,
    /// KDC time offset from a v4 DELTATIME tag (or set for writing).
    time_offset: Option<(u32, u32)>,
    /// Byte order of versions 1 and 2.
    order: ByteOrder,
}

/// Model of [`FileCcache`].
pub struct FileCcacheV {
    pub data: Option<Seq<u8>>,
    pub version: u8,
    pub time_offset: Option<(u32, u32)>,
    pub order: ByteOrder,
}

impl View for FileCcache {
    type V = FileCcacheV;

    closed spec fn view(&self) -> FileCcacheV {
        FileCcacheV {
            data: opt_view(self.data),
            version: self.version,
            time_offset: self.time_offset,
            order: self.order,
        }
    }
}

/// The time offset among the tagged fields `s` of a v4 header, if they are
/// well formed; `seen` is the one of the fields before.
pub open spec fn fields_spec(s: Seq<u8>, seen: Option<(u32, u32)>) -> Option<Option<(u32, u32)>>
    decreases s.len(),
{
    let flen = get_be16(s, 2) as int;
    if s.len() == 0 {
        Some(seen)
    } else if s.len() < 4 || s.len() < 4 + flen {
        None
    } else if get_be16(s, 0) == 1 {
        if flen != 8 {
            None
        } else {
            fields_spec(s.skip(12), Some((get_be32(s, 4), get_be32(s, 8))))
        }
    } else {
        fields_spec(s.skip(4 + flen), seen)
    }
}

/// The version, the header's length and the time offset of a file.
pub open spec fn header_spec(d: Seq<u8>) -> Result<(u8, int, Option<(u32, u32)>), CcError> {
    let fl = get_be16(d, 2) as int;
    if d.len() < 2 {
        Err(CcError::Format)
    } else if d[0] != 5 || !(1 <= d[1] <= 4) {
        Err(CcError::BadVno)
    } else if d[1] != 4 {
        Ok((d[1], 2, None))
    } else if d.len() < 4 || d.len() < 4 + fl {
        Err(CcError::Format)
    } else {
        match fields_spec(d.subrange(4, 4 + fl), None) {
            None => Err(CcError::Format),
            Some(offset) => Ok((4, 4 + fl, offset)),
        }
    }
}

/// The version, the default principal and the records of a cache.
pub open spec fn body_spec(v: FileCcacheV) -> Result<(u8, (PrincipalNameV, Seq<char>), Seq<u8>), CcError> {
    match v.data {
        None => Err(CcError::Io),
        Some(d) => match header_spec(d) {
            Err(e) => Err(e),
            Ok((version, n, _)) => match rd_princ(d.skip(n), version, order_for(version, v.order)) {
                None => Err(CcError::Format),
                Some((p, rest)) => Ok((version, p, rest)),
            },
        },
    }
}

/// A cache once its header is read: the time offset found there is kept.
pub open spec fn seen_spec(v: FileCcacheV) -> FileCcacheV {
    match v.data {
        None => v,
        Some(d) => match header_spec(d) {
            Ok((_, _, Some(offset))) => FileCcacheV { time_offset: Some(offset), ..v },
            _ => v,
        },
    }
}

/// The credentials of records, the removed ones among them.
pub open spec fn records_spec(s: Seq<u8>, version: u8, o: ByteOrder) -> Option<Seq<CcCredentialV>>
    decreases s.len(),
{
    if s.len() == 0 {
        Some(Seq::empty())
    } else {
        match rd_cred(s, version, o) {
            None => None,
            Some((c, t)) => if t.len() < s.len() {
                match records_spec(t, version, o) {
                    None => None,
                    Some(cs) => Some(seq![c] + cs),
                }
            } else {
                Some(Seq::empty())
            },
        }
    }
}

/// Whether a record was not removed in place.
pub open spec fn live(c: CcCredentialV) -> bool {
    !(c.endtime == 0 && c.authtime != 0)
}

/// The credentials that were not removed in place.
pub open spec fn live_only(cs: Seq<CcCredentialV>) -> Seq<CcCredentialV>
    decreases cs.len(),
{
    if cs.len() == 0 {
        Seq::empty()
    } else if live(cs[0]) {
        seq![cs[0]] + live_only(cs.drop_first())
    } else {
        live_only(cs.drop_first())
    }
}

/// The form that a removed credential takes: a config entry gets another
/// realm, so that it is not taken for one.
pub open spec fn erased(c: CcCredentialV) -> CcCredentialV {
    CcCredentialV {
        authtime: u32::MAX,
        endtime: 0,
        srealm: if c.srealm == CONFIG_REALM@ { REMOVED_CONFIG_REALM@ } else { c.srealm },
        ..c
    }
}

/// Records with the first live credential that fits removed in place.
pub open spec fn erase_spec(s: Seq<u8>, version: u8, o: ByteOrder, flags: u32, m: MatchCredV) -> Result<Seq<u8>, CcError>
    decreases s.len(),
{
    if s.len() == 0 {
        Err(CcError::NotFound)
    } else {
        match rd_cred(s, version, o) {
            None => Err(CcError::Format),
            Some((c, t)) => {
                let n = s.len() - t.len();
                let b = cred_bytes(erased(c), version, o);
                if n <= 0 {
                    Err(CcError::NotFound)
                } else if live(c) && match_spec(flags, m, c) {
                    if b.len() != n { Err(CcError::Format) } else { Ok(b + t) }
                } else {
                    match erase_spec(t, version, o, flags, m) {
                        Ok(u) => Ok(s.take(n) + u),
                        Err(e) => Err(e),
                    }
                }
            },
        }
    }
}

/// The credentials of a cache that were not removed.
pub open spec fn file_listed(v: FileCcacheV) -> Result<Seq<CcCredentialV>, CcError> {
    match body_spec(v) {
        Err(e) => Err(e),
        Ok((version, _, s)) => match records_spec(s, version, order_for(version, v.order)) {
            None => Err(CcError::Format),
            Some(cs) => Ok(live_only(cs)),
        },
    }
}

/// A cache after a credential is stored at its end.
pub open spec fn file_stored(v: FileCcacheV, c: CcCredentialV) -> (FileCcacheV, Result<(), CcError>) {
    match body_spec(v) {
        Err(e) => (seen_spec(v), Err(e)),
        Ok((version, _, _)) => (
            FileCcacheV {
                data: Some(v.data->0 + cred_bytes(c, version, order_for(version, v.order))),
                ..seen_spec(v)
            },
            Ok(()),
        ),
    }
}

/// A cache after the first live credential that fits is removed in place.
pub open spec fn file_removed(v: FileCcacheV, flags: u32, m: MatchCredV) -> (FileCcacheV, Result<(), CcError>) {
    match body_spec(v) {
        Err(e) => (seen_spec(v), Err(e)),
        Ok((version, _, s)) => {
            let o = order_for(version, v.order);
            let d = v.data->0;
            match records_spec(s, version, o) {
                None => (seen_spec(v), Err(CcError::Format)),
                Some(_) => match erase_spec(s, version, o, flags, m) {
                    Err(e) => (seen_spec(v), Err(e)),
                    Ok(t) => (FileCcacheV { data: Some(d.take(d.len() - s.len()) + t), ..seen_spec(v) }, Ok(())),
                },
            }
        },
    }
}

/// The header of a file: version 4 has tagged fields, of which the time
/// offset is written.
pub open spec fn header_bytes(version: u8, offset: Option<(u32, u32)>) -> Seq<u8> {
    seq![5u8, version] + (if version == 4 {
        match offset {
            Some((secs, usecs)) => be16(12) + be16(1) + be16(8) + be32(secs) + be32(usecs),
            None => be16(0),
        }
    } else {
        Seq::empty()
    })
}

/// A cache after it is initialized.
pub open spec fn file_initialized(v: FileCcacheV, client: PrincipalNameV, realm: Seq<char>) -> FileCcacheV {
    FileCcacheV {
        data: Some(
            header_bytes(v.version, v.time_offset) + princ_bytes(client, realm, v.version, order_for(v.version, v.order)),
        ),
        ..v
    }
}

/// Credentials one behind the other.
pub open spec fn all_bytes(cs: Seq<CcCredentialV>, version: u8, o: ByteOrder) -> Seq<u8>
    decreases cs.len(),
{
    if cs.len() == 0 {
        Seq::empty()
    } else {
        cred_bytes(cs[0], version, o) + all_bytes(cs.drop_first(), version, o)
    }
}

/// The contents of a cache with a principal and credentials.
pub open spec fn image(
    version: u8,
    offset: Option<(u32, u32)>,
    p: PrincipalNameV,
    realm: Seq<char>,
    cs: Seq<CcCredentialV>,
    o: ByteOrder,
) -> Seq<u8> {
    header_bytes(version, offset) + princ_bytes(p, realm, version, o) + all_bytes(cs, version, o)
}

/// Whether all credentials read back.
pub open spec fn all_keep(cs: Seq<CcCredentialV>, version: u8) -> bool {
    forall|i: int| 0 <= i < cs.len() ==> cred_keeps(#[trigger] cs[i], version)
}

/// Whether a cache holds just a principal and credentials, each as it was
/// stored.
pub open spec fn holds(v: FileCcacheV, version: u8, p: PrincipalNameV, realm: Seq<char>, cs: Seq<CcCredentialV>) -> bool {
    &&& 1 <= version <= 4
    &&& princ_keeps(p, realm, version)
    &&& all_keep(cs, version)
    &&& exists|offset: Option<(u32, u32)>|
        v.data == Some(#[trigger] image(version, offset, p, realm, cs, order_for(version, v.order)))
}

proof fn lemma_header(version: u8, offset: Option<(u32, u32)>, rest: Seq<u8>)
    requires
        1 <= version <= 4,
    ensures
        header_spec(header_bytes(version, offset) + rest) == Ok::<(u8, int, Option<(u32, u32)>), CcError>(
            (version, header_bytes(version, offset).len() as int, if version == 4 { offset } else { None }),
        ),
{
    let d = header_bytes(version, offset) + rest;
    if version == 4 {
        match offset {
            None => {
                assert(get_be16(d, 2) == 0);
                assert(d.subrange(4, 4).len() == 0);
            },
            Some((secs, usecs)) => {
                let f = be16(1) + be16(8) + be32(secs) + be32(usecs);
                lemma_word_round_trip(12, secs, 0);
                lemma_word_round_trip(1, usecs, 0);
                lemma_word_round_trip(8, 0, 0);
                assert(d =~= seq![5u8, version] + be16(12) + f + rest);
                assert(get_be16(d, 2) == get_be16(be16(12), 0));
                assert(d.subrange(4, 16) =~= f);
                assert(get_be16(f, 0) == get_be16(be16(1), 0));
                assert(get_be16(f, 2) == get_be16(be16(8), 0));
                assert(get_be32(f, 4) == get_be32(be32(secs), 0));
                assert(get_be32(f, 8) == get_be32(be32(usecs), 0));
                assert(f.skip(12).len() == 0);
                reveal_with_fuel(fields_spec, 2);
            },
        }
    }
}

proof fn lemma_all_read(cs: Seq<CcCredentialV>, version: u8, o: ByteOrder)
    requires
        all_keep(cs, version),
    ensures
        records_spec(all_bytes(cs, version, o), version, o) == Some(cs),
    decreases cs.len(),
{
    let s = all_bytes(cs, version, o);
    if cs.len() == 0 {
        assert(cs =~= Seq::empty());
    } else {
        let more = cs.drop_first();
        lemma_keep_rest(cs, version);
        lemma_all_read(more, version, o);
        law_cred_round_trip(cs[0], version, o, all_bytes(more, version, o));
        lemma_cred_suffix(s, version, o);
        assert(seq![cs[0]] + more =~= cs);
    }
}

proof fn lemma_keep_rest(cs: Seq<CcCredentialV>, version: u8)
    requires
        all_keep(cs, version),
        cs.len() > 0,
    ensures
        all_keep(cs.drop_first(), version),
        cred_keeps(cs[0], version),
{
    let more = cs.drop_first();
    assert forall|i: int| 0 <= i < more.len() implies cred_keeps(#[trigger] more[i], version) by {
        assert(more[i] == cs[i + 1]);
    }
}

/// What a cache holds is read from it: its principal, and of its credentials
/// those that are live.
pub proof fn law_held_is_read(v: FileCcacheV, version: u8, p: PrincipalNameV, realm: Seq<char>, cs: Seq<CcCredentialV>)
    requires
        holds(v, version, p, realm, cs),
    ensures
        body_spec(v) == Ok::<(u8, (PrincipalNameV, Seq<char>), Seq<u8>), CcError>(
            (version, (p, realm), all_bytes(cs, version, order_for(version, v.order))),
        ),
        FileCcache::owner(v) == Ok::<(PrincipalNameV, Seq<char>), CcError>((p, realm)),
        FileCcache::listed(v) == Ok::<Seq<CcCredentialV>, CcError>(live_only(cs)),
        holds(FileCcache::seen(v), version, p, realm, cs),
{
    let o = order_for(version, v.order);
    let offset = choose|offset: Option<(u32, u32)>| v.data == Some(#[trigger] image(version, offset, p, realm, cs, o));
    let h = header_bytes(version, offset);
    let rest = princ_bytes(p, realm, version, o) + all_bytes(cs, version, o);
    let d = image(version, offset, p, realm, cs, o);
    assert(d =~= h + rest);
    lemma_header(version, offset, rest);
    assert(d.skip(h.len() as int) =~= rest);
    law_princ_round_trip(p, realm, version, o, all_bytes(cs, version, o));
    lemma_all_read(cs, version, o);
    assert(FileCcache::seen(v).data == Some(image(version, offset, p, realm, cs, o)));
}

/// An initialized cache holds its principal and no credentials, and the time
/// offset that it had is found in it.
pub proof fn law_initialized_is_empty(v: FileCcacheV, p: PrincipalNameV, realm: Seq<char>)
    requires
        1 <= v.version <= 4,
        princ_keeps(p, realm, v.version),
    ensures
        holds(FileCcache::initialized(v, p, realm), v.version, p, realm, Seq::empty()),
        FileCcache::seen(FileCcache::initialized(v, p, realm)) == FileCcache::initialized(v, p, realm),
        v.version == 4 ==> (header_spec(FileCcache::initialized(v, p, realm).data->0) matches Ok((_, _, found)) && found
            == v.time_offset),
{
    let o = order_for(v.version, v.order);
    let none: Seq<CcCredentialV> = Seq::empty();
    let r = princ_bytes(p, realm, v.version, o);
    assert(all_bytes(none, v.version, o).len() == 0);
    assert(header_bytes(v.version, v.time_offset) + r =~= image(v.version, v.time_offset, p, realm, none, o));
    lemma_header(v.version, v.time_offset, r);
}

proof fn lemma_all_push(cs: Seq<CcCredentialV>, c: CcCredentialV, version: u8, o: ByteOrder)
    ensures
        all_bytes(cs.push(c), version, o) == all_bytes(cs, version, o) + cred_bytes(c, version, o),
    decreases cs.len(),
{
    let b = cred_bytes(c, version, o);
    if cs.len() == 0 {
        reveal_with_fuel(all_bytes, 2);
        assert(cs.push(c).drop_first() =~= cs);
        assert(all_bytes(cs.push(c), version, o) =~= all_bytes(cs, version, o) + b);
    } else {
        assert(cs.push(c).drop_first() =~= cs.drop_first().push(c));
        lemma_all_push(cs.drop_first(), c, version, o);
        assert(cred_bytes(cs[0], version, o) + (all_bytes(cs.drop_first(), version, o) + b) =~= all_bytes(cs, version, o) + b);
    }
}

proof fn lemma_live_push(cs: Seq<CcCredentialV>, c: CcCredentialV)
    ensures
        live_only(cs.push(c)) == (if live(c) { live_only(cs).push(c) } else { live_only(cs) }),
    decreases cs.len(),
{
    if cs.len() == 0 {
        reveal_with_fuel(live_only, 2);
        assert(cs.push(c).drop_first() =~= cs);
        assert(live_only(cs.push(c)) =~= (if live(c) { live_only(cs).push(c) } else { live_only(cs) }));
    } else {
        assert(cs.push(c).drop_first() =~= cs.drop_first().push(c));
        lemma_live_push(cs.drop_first(), c);
        assert(live_only(cs.push(c)) =~= (if live(c) { live_only(cs).push(c) } else { live_only(cs) }));
    }
}

/// A stored credential is held behind those there were, and is listed there
/// if it is live.
pub proof fn law_stored_is_held(v: FileCcacheV, version: u8, p: PrincipalNameV, realm: Seq<char>, cs: Seq<CcCredentialV>, c: CcCredentialV)
    requires
        holds(v, version, p, realm, cs),
        cred_keeps(c, version),
    ensures
        FileCcache::stored(v, c).1 is Ok,
        holds(FileCcache::stored(v, c).0, version, p, realm, cs.push(c)),
        live_only(cs.push(c)) == (if live(c) { live_only(cs).push(c) } else { live_only(cs) }),
{
    law_held_is_read(v, version, p, realm, cs);
    lemma_live_push(cs, c);
    let o = order_for(version, v.order);
    let offset = choose|offset: Option<(u32, u32)>| v.data == Some(#[trigger] image(version, offset, p, realm, cs, o));
    lemma_all_push(cs, c, version, o);
    assert(image(version, offset, p, realm, cs, o) + cred_bytes(c, version, o) =~= image(
        version,
        offset,
        p,
        realm,
        cs.push(c),
        o,
    ));
}

/// Credentials with the first live one that fits in its removed form.
pub open spec fn erase_first(cs: Seq<CcCredentialV>, flags: u32, m: MatchCredV) -> Seq<CcCredentialV>
    decreases cs.len(),
{
    if cs.len() == 0 {
        cs
    } else if live(cs[0]) && match_spec(flags, m, cs[0]) {
        seq![erased(cs[0])] + cs.drop_first()
    } else {
        seq![cs[0]] + erase_first(cs.drop_first(), flags, m)
    }
}

/// A removed form takes as many octets and reads back.
proof fn lemma_erased(c: CcCredentialV, version: u8, o: ByteOrder)
    requires
        cred_keeps(c, version),
    ensures
        cred_keeps(erased(c), version),
        cred_bytes(erased(c), version, o).len() == cred_bytes(c, version, o).len(),
        !live(erased(c)),
{
    reveal(cred_bytes);
    reveal(cred_keeps);
    reveal_strlit("X-CACHECONF:");
    reveal_strlit("X-RMED-CONF:");
    lemma_ascii(CONFIG_REALM@);
    lemma_ascii(REMOVED_CONFIG_REALM@);
    let e = erased(c);
    assert(encode_utf8(e.srealm).len() == encode_utf8(c.srealm).len());
    assert(princ_bytes(e.server, e.srealm, version, o).len() == princ_bytes(c.server, c.srealm, version, o).len());
    lemma_times_len(c, o);
    lemma_times_len(e, o);
    assert(crate::ccache::marshal::lists_bytes(e, o) == crate::ccache::marshal::lists_bytes(c, o));
    assert(crate::ccache::marshal::names_and_key(e, version, o).len() == crate::ccache::marshal::names_and_key(c, version, o).len());
}

proof fn lemma_times_len(c: CcCredentialV, o: ByteOrder)
    ensures
        crate::ccache::marshal::times_bytes(c, o).len() == 21,
{
    reveal(crate::ccache::marshal::wr32);
}

proof fn lemma_erase(cs: Seq<CcCredentialV>, version: u8, o: ByteOrder, flags: u32, m: MatchCredV)
    requires
        all_keep(cs, version),
    ensures
        erase_spec(all_bytes(cs, version, o), version, o, flags, m) == (if any_match(live_only(cs), flags, m) {
            Ok::<Seq<u8>, CcError>(all_bytes(erase_first(cs, flags, m), version, o))
        } else {
            Err::<Seq<u8>, CcError>(CcError::NotFound)
        }),
    decreases cs.len(),
{
    let s = all_bytes(cs, version, o);
    let all = live_only(cs);
    if cs.len() > 0 {
        let c = cs[0];
        let more = cs.drop_first();
        let t = all_bytes(more, version, o);
        let b = cred_bytes(c, version, o);
        let after = erase_first(cs, flags, m);
        lemma_keep_rest(cs, version);
        law_cred_round_trip(c, version, o, t);
        lemma_cred_suffix(s, version, o);
        lemma_erased(c, version, o);
        assert(live(c) ==> all[0] == c && all.drop_first() =~= live_only(more));
        if live(c) && match_spec(flags, m, c) {
            assert(any_match(all, flags, m)) by {
                assert(match_spec(flags, m, all[0]));
            }
            assert(after[0] == erased(c) && after.drop_first() =~= more);
        } else {
            lemma_erase(more, version, o, flags, m);
            assert(after[0] == c && after.drop_first() =~= erase_first(more, flags, m));
            assert(s.take(b.len() as int) =~= b);
            lemma_any_rest(all, live_only(more), live(c), flags, m);
        }
    } else {
        assert(all.len() == 0);
    }
}

proof fn lemma_erased_list(cs: Seq<CcCredentialV>, version: u8, flags: u32, m: MatchCredV)
    requires
        all_keep(cs, version),
    ensures
        live_only(erase_first(cs, flags, m)) == without_first(live_only(cs), flags, m),
        all_keep(erase_first(cs, flags, m), version),
    decreases cs.len(),
{
    let all = live_only(cs);
    if cs.len() > 0 {
        let c = cs[0];
        let more = cs.drop_first();
        let after = erase_first(cs, flags, m);
        lemma_keep_rest(cs, version);
        lemma_erased_list(more, version, flags, m);
        lemma_erased(c, version, ByteOrder::Big);
        assert(live(c) ==> all[0] == c && all.drop_first() =~= live_only(more));
        let rest = if live(c) && match_spec(flags, m, c) { more } else { erase_first(more, flags, m) };
        assert(after.drop_first() =~= rest);
        assert forall|i: int| 0 <= i < after.len() implies cred_keeps(#[trigger] after[i], version) by {
            if i > 0 {
                assert(after[i] == rest[i - 1]);
            }
        }
    } else {
        assert(all.len() == 0);
    }
}

proof fn lemma_any_rest(all: Seq<CcCredentialV>, rest: Seq<CcCredentialV>, first: bool, flags: u32, m: MatchCredV)
    requires
        first ==> all.len() > 0 && all.drop_first() == rest && !match_spec(flags, m, all[0]),
        !first ==> all == rest,
    ensures
        any_match(all, flags, m) == any_match(rest, flags, m),
{
    if first {
        if any_match(all, flags, m) {
            let j = choose|j: int| 0 <= j < all.len() && match_spec(flags, m, #[trigger] all[j]);
            assert(rest[j - 1] == all[j]);
        }
        if any_match(rest, flags, m) {
            let j = choose|j: int| 0 <= j < rest.len() && match_spec(flags, m, #[trigger] rest[j]);
            assert(all[j + 1] == rest[j]);
        }
    }
}

/// Removing takes the first listed credential that fits from those listed
/// and leaves the others; it fails exactly when none fits.
pub proof fn law_removed_is_gone(
    v: FileCcacheV,
    version: u8,
    p: PrincipalNameV,
    realm: Seq<char>,
    cs: Seq<CcCredentialV>,
    flags: u32,
    m: MatchCredV,
)
    requires
        holds(v, version, p, realm, cs),
    ensures
        if any_match(live_only(cs), flags, m) {
            &&& FileCcache::removed(v, flags, m).1 is Ok
            &&& holds(FileCcache::removed(v, flags, m).0, version, p, realm, erase_first(cs, flags, m))
            &&& live_only(erase_first(cs, flags, m)) == without_first(live_only(cs), flags, m)
        } else {
            &&& FileCcache::removed(v, flags, m) == (FileCcache::seen(v), Err::<(), CcError>(CcError::NotFound))
            &&& without_first(live_only(cs), flags, m) == live_only(cs)
        },
{
    law_held_is_read(v, version, p, realm, cs);
    let o = order_for(version, v.order);
    lemma_all_read(cs, version, o);
    lemma_erase(cs, version, o, flags, m);
    lemma_erased_list(cs, version, flags, m);
    let offset = choose|offset: Option<(u32, u32)>| v.data == Some(#[trigger] image(version, offset, p, realm, cs, o));
    let d = image(version, offset, p, realm, cs, o);
    let s = all_bytes(cs, version, o);
    if any_match(live_only(cs), flags, m) {
        let t = all_bytes(erase_first(cs, flags, m), version, o);
        assert(d.take(d.len() - s.len()) + t =~= image(version, offset, p, realm, erase_first(cs, flags, m), o));
    } else {
        lemma_none_removed(live_only(cs), flags, m);
    }
}

/// Where none fits none is taken away.
pub proof fn lemma_none_removed(cs: Seq<CcCredentialV>, flags: u32, m: MatchCredV)
    requires
        !any_match(cs, flags, m),
    ensures
        without_first(cs, flags, m) == cs,
    decreases cs.len(),
{
    if cs.len() > 0 {
        assert(!match_spec(flags, m, cs[0]));
        lemma_any_rest(cs, cs.drop_first(), true, flags, m);
        lemma_none_removed(cs.drop_first(), flags, m);
        assert(seq![cs[0]] + cs.drop_first() =~= cs);
    }
}

/// Setting a config value in a cache that held at most one entry for the key
/// makes it the value found, and leaves the values of other keys and
/// principals as they are.
pub proof fn law_file_config(
    v: FileCcacheV,
    version: u8,
    p: PrincipalNameV,
    realm: Seq<char>,
    cs: Seq<CcCredentialV>,
    principal: Whom,
    key: Seq<char>,
    data: Seq<u8>,
    other: Whom,
    name: Seq<char>,
)
    requires
        holds(v, version, p, realm, cs),
        nameable(principal, key),
        nameable(other, name),
        plain_config(live_only(cs)),
        config_count(live_only(cs), principal, key) <= 1,
        cred_keeps(config_cred_spec(p, realm, principal, key, data), version),
    ensures
        ({
            let gone = FileCcache::removed(v, 0, config_request_spec(config_principal_spec(principal, key))).0;
            let after = FileCcache::stored(
                FileCcache::seen(gone),
                config_cred_spec(p, realm, principal, key, data),
            );
            &&& FileCcache::owner(gone) == Ok::<(PrincipalNameV, Seq<char>), CcError>((p, realm))
            &&& after.1 is Ok
            &&& FileCcache::listed(after.0) is Ok
            &&& find_config(FileCcache::listed(after.0)->Ok_0, principal, key) == Some(data)
            &&& config_parts(principal, key) != config_parts(other, name) ==> find_config(
                FileCcache::listed(after.0)->Ok_0,
                other,
                name,
            ) == find_config(live_only(cs), other, name)
        }),
{
    let m = config_request_spec(config_principal_spec(principal, key));
    let c = config_cred_spec(p, realm, principal, key, data);
    law_removed_is_gone(v, version, p, realm, cs, 0, m);
    law_held_is_read(v, version, p, realm, cs);
    let gone = FileCcache::removed(v, 0, m).0;
    let cs1 = if any_match(live_only(cs), 0, m) { erase_first(cs, 0, m) } else { cs };
    law_held_is_read(gone, version, p, realm, cs1);
    law_stored_is_held(FileCcache::seen(gone), version, p, realm, cs1, c);
    law_held_is_read(FileCcache::stored(FileCcache::seen(gone), c).0, version, p, realm, cs1.push(c));
    law_config_set(live_only(cs), p, realm, principal, key, data, other, name);
}

impl FileCcache {
    /// A cache with the given contents, none for a file that does not exist;
    /// version 4 by default. Versions 1 and 2 are in the machine's own byte
    /// order.
    pub fn new(contents: Option<Vec<u8>>) -> (r: Self)
        ensures
            r@.data == opt_view(contents),
            r@.version == 4,
            r@.time_offset is None,
    {
        FileCcache { data: contents, version: 4, time_offset: None, order: native_order() }
    }

    /// Set the version written by `initialize` (1-4).
    pub fn with_version(self, version: u8) -> (r: Self)
        ensures
            r@ == (FileCcacheV { version, ..self@ }),
    {
        FileCcache { version, ..self }
    }

    /// Set the byte order of versions 1 and 2.
    pub fn with_order(self, order: ByteOrder) -> (r: Self)
        ensures
            r@ == (FileCcacheV { order, ..self@ }),
    {
        FileCcache { order, ..self }
    }

    /// Set the KDC time offset (secs, usecs); written as a DELTATIME tag in
    /// v4 caches.
    pub fn set_time_offset(&mut self, secs: u32, usecs: u32)
        ensures
            final(self)@ == (FileCcacheV { time_offset: Some((secs, usecs)), ..old(self)@ }),
    {
        self.time_offset = Some((secs, usecs));
    }

    /// The time offset read from (or configured for) this cache.
    pub fn time_offset(&self) -> (r: Option<(u32, u32)>)
        ensures
            r == self@.time_offset,
    {
        self.time_offset
    }

    /// The contents to be written back.
    pub fn contents(&self) -> (r: Option<&[u8]>)
        ensures
            match r {
                Some(d) => self@.data == Some(d@),
                None => self@.data is None,
            },
    {
        match &self.data {
            Some(d) => Some(d.as_slice()),
            None => None,
        }
    }

    /// Reads the header and the principal: the version, the principal, and
    /// where the records begin. Also keeps a time offset found.
    fn read_all(&mut self) -> (r: Result<(u8, (PrincipalName, String), usize), CcError>)
        ensures
            final(self)@ == seen_spec(old(self)@),
            match r {
                Ok((version, p, pos)) => old(self)@.data is Some && pos <= old(self)@.data->0.len() && body_spec(old(self)@)
                    == Ok::<(u8, (PrincipalNameV, Seq<char>), Seq<u8>), CcError>(
                    (version, p@, old(self)@.data->0.skip(pos as int)),
                ),
                Err(e) => body_spec(old(self)@) == Err::<(u8, (PrincipalNameV, Seq<char>), Seq<u8>), CcError>(e),
            },
    {
        let d = match &self.data {
            Some(d) => d,
            None => return Err(CcError::Io),
        };
        let (version, n, offset) = match parse_header(d) {
            Ok(x) => x,
            Err(e) => return Err(e),
        };
        let r = unmarshal_princ_len(tail(d, n), version, self.order);
        if offset.is_some() {
            self.time_offset = offset;
        }
        match r {
            Ok((p, realm, k)) => {
                assert(old(self)@.data->0.skip(n as int).skip(k as int) =~= old(self)@.data->0.skip(n + k));
                Ok((version, (p, realm), n + k))
            },
            Err(e) => Err(e),
        }
    }
}

fn parse_fields(s: &[u8]) -> (r: Option<Option<(u32, u32)>>)
    ensures
        r == fields_spec(s@, None),
{
    let mut offset: Option<(u32, u32)> = None;
    let mut pos: usize = 0;
    assert(s@.skip(0) =~= s@);
    while s.len() - pos >= 4
        invariant
            pos <= s@.len(),
            fields_spec(s@, None) == fields_spec(s@.skip(pos as int), offset),
        decreases s@.len() - pos,
    {
        let ghost rest = s@.skip(pos as int);
        let tag: u16 = read_be16(s, pos);
        let flen: usize = read_be16(s, pos + 2) as usize;
        assert(tag == get_be16(rest, 0) && flen == get_be16(rest, 2));
        if s.len() - pos - 4 < flen {
            return None;
        }
        if tag == 1 {
            if flen != 8 {
                return None;
            }
            let secs: u32 = read_be32(s, pos + 4);
            let usecs: u32 = read_be32(s, pos + 8);
            assert(secs == get_be32(rest, 4) && usecs == get_be32(rest, 8));
            offset = Some((secs, usecs));
        }
        assert(rest.skip(4 + flen) =~= s@.skip(pos + 4 + flen));
        pos = pos + 4 + flen;
    }
    if pos != s.len() {
        return None;
    }
    Some(offset)
}

/// Parses a file header: the version, the header's length and the time
/// offset.
pub fn parse_header(data: &[u8]) -> (r: Result<(u8, usize, Option<(u32, u32)>), CcError>)
    ensures
        match r {
            Ok((version, n, offset)) => header_spec(data@) == Ok::<(u8, int, Option<(u32, u32)>), CcError>(
                (version, n as int, offset),
            ) && n <= data.len(),
            Err(e) => header_spec(data@) == Err::<(u8, int, Option<(u32, u32)>), CcError>(e),
        },
{
    if data.len() < 2 {
        return Err(CcError::Format);
    }
    if data[0] != 5 {
        return Err(CcError::BadVno);
    }
    let version: u8 = data[1];
    if version < 1 || version > 4 {
        return Err(CcError::BadVno);
    }
    if version != 4 {
        return Ok((version, 2, None));
    }
    if data.len() < 4 {
        return Err(CcError::Format);
    }
    let fl: usize = read_be16(data, 2) as usize;
    if data.len() - 4 < fl {
        return Err(CcError::Format);
    }
    match parse_fields(vstd::slice::slice_subrange(data, 4, 4 + fl)) {
        Some(offset) => Ok((version, 4 + fl, offset)),
        None => Err(CcError::Format),
    }
}

fn records(s: &[u8], version: u8, native: ByteOrder) -> (r: Option<Vec<CcCredential>>)
    ensures
        match r {
            Some(cs) => records_spec(s@, version, order_for(version, native)) == Some(list_view(cs@)),
            None => records_spec(s@, version, order_for(version, native)) is None,
        },
{
    let ghost o = order_for(version, native);
    let mut rest: &[u8] = s;
    let mut out: Vec<CcCredential> = Vec::new();
    assert(list_view(out@) =~= Seq::empty());
    while rest.len() > 0
        invariant
            o == order_for(version, native),
            match records_spec(rest@, version, o) {
                Some(more) => records_spec(s@, version, o) == Some(list_view(out@) + more),
                None => records_spec(s@, version, o) is None,
            },
        decreases rest@.len(),
    {
        let (c, n) = match unmarshal_cred_len(rest, version, native) {
            Ok(x) => x,
            Err(_) => return None,
        };
        let ghost before = list_view(out@);
        let ghost c0 = c@;
        out.push(c);
        proof {
            assert(list_view(out@) =~= before.push(c0));
            match records_spec(rest@.skip(n as int), version, o) {
                Some(more) => {
                    assert(before + (seq![c0] + more) =~= list_view(out@) + more);
                },
                None => {},
            }
        }
        rest = tail(rest, n);
    }
    assert(list_view(out@) + Seq::empty() =~= list_view(out@));
    Some(out)
}

fn is_live(c: &CcCredential) -> (r: bool)
    ensures
        r == live(c@),
{
    !(c.endtime == 0 && c.authtime != 0)
}

fn only_live(cs: Vec<CcCredential>) -> (r: Vec<CcCredential>)
    ensures
        list_view(r@) == live_only(list_view(cs@)),
{
    let ghost all = list_view(cs@);
    let mut left: Vec<CcCredential> = cs;
    let mut out: Vec<CcCredential> = Vec::new();
    let n: usize = left.len();
    let mut i: usize = 0;
    assert(list_view(out@) =~= Seq::empty());
    assert(all.skip(0) =~= all);
    assert(list_view(out@) + live_only(all.skip(0)) =~= live_only(all));
    while i < n
        invariant
            i <= n == left@.len(),
            all == list_view(left@),
            list_view(out@) + live_only(all.skip(i as int)) == live_only(all),
        decreases n - i,
    {
        let ghost rest = all.skip(i as int);
        assert(rest.drop_first() =~= all.skip(i + 1));
        assert(rest[0] == left@[i as int]@);
        if is_live(&left[i]) {
            let ghost before = list_view(out@);
            let c = crate::asn1::Dup::dup(&left[i]);
            out.push(c);
            assert(list_view(out@) =~= before.push(rest[0]));
            assert(before + (seq![rest[0]] + live_only(all.skip(i + 1))) =~= list_view(out@) + live_only(all.skip(i + 1)));
        }
        i = i + 1;
    }
    assert(all.skip(i as int).len() == 0);
    assert(list_view(out@) =~= live_only(all));
    out
}

fn erase(c: CcCredential) -> (r: CcCredential)
    ensures
        r@ == erased(c@),
{
    let config = same_text(&c.srealm, CONFIG_REALM);
    let mut e = c;
    e.authtime = u32::MAX;
    e.endtime = 0;
    if config {
        e.srealm = owned(REMOVED_CONFIG_REALM);
    }
    e
}

fn erase_in(s: &[u8], version: u8, native: ByteOrder, flags: u32, m: &MatchCred) -> (r: Result<Vec<u8>, CcError>)
    ensures
        crate::ccache::cc_outcome(r) == erase_spec(s@, version, order_for(version, native), flags, m@),
{
    let ghost o = order_for(version, native);
    let mut pos: usize = 0;
    assert(s@.skip(0) =~= s@);
    assert(s@.take(0) =~= Seq::empty());
    while pos < s.len()
        invariant
            pos <= s@.len(),
            o == order_for(version, native),
            erase_spec(s@, version, o, flags, m@) == (match erase_spec(s@.skip(pos as int), version, o, flags, m@) {
                Ok(t) => Ok::<Seq<u8>, CcError>(s@.take(pos as int) + t),
                Err(e) => Err::<Seq<u8>, CcError>(e),
            }),
        decreases s@.len() - pos,
    {
        let ghost rest = s@.skip(pos as int);
        let (c, n) = match unmarshal_cred_len(tail(s, pos), version, native) {
            Ok(x) => x,
            Err(e) => return Err(e),
        };
        assert(rest.skip(n as int) =~= s@.skip(pos + n));
        if is_live(&c) && creds_match_request(flags, m, &c) {
            let b = marshal_cred_in(&erase(c), version, native);
            if b.len() != n {
                return Err(CcError::Format);
            }
            let mut out = cut(s, 0, pos);
            append(&mut out, &b);
            append(&mut out, tail(s, pos + n));
            assert(out@ =~= s@.take(pos as int) + (b@ + s@.skip(pos + n)));
            return Ok(out);
        }
        proof {
            match erase_spec(s@.skip(pos + n), version, o, flags, m@) {
                Ok(t) => {
                    assert(s@.take(pos as int) + (rest.take(n as int) + t) =~= s@.take(pos + n) + t);
                },
                Err(_) => {},
            }
        }
        pos = pos + n;
    }
    Err(CcError::NotFound)
}

impl Ccache for FileCcache {
    open spec fn seen(v: FileCcacheV) -> FileCcacheV {
        seen_spec(v)
    }

    open spec fn initialized(v: FileCcacheV, client: PrincipalNameV, realm: Seq<char>) -> FileCcacheV {
        file_initialized(v, client, realm)
    }

    open spec fn owner(v: FileCcacheV) -> Result<(PrincipalNameV, Seq<char>), CcError> {
        match body_spec(v) {
            Ok((_, p, _)) => Ok(p),
            Err(e) => Err(e),
        }
    }

    open spec fn listed(v: FileCcacheV) -> Result<Seq<CcCredentialV>, CcError> {
        file_listed(v)
    }

    open spec fn stored(v: FileCcacheV, cred: CcCredentialV) -> (FileCcacheV, Result<(), CcError>) {
        file_stored(v, cred)
    }

    open spec fn removed(v: FileCcacheV, flags: u32, m: MatchCredV) -> (FileCcacheV, Result<(), CcError>) {
        file_removed(v, flags, m)
    }

    fn initialize(&mut self, client: &PrincipalName, realm: &str) -> (r: Result<(), CcError>) {
        let mut out: Vec<u8> = Vec::new();
        let v: u8 = self.version;
        out.push(5);
        out.push(v);
        if v == 4 {
            match self.time_offset {
                Some((secs, usecs)) => {
                    put_be16(&mut out, 12);
                    put_be16(&mut out, 1);
                    put_be16(&mut out, 8);
                    put_be32(&mut out, secs);
                    put_be32(&mut out, usecs);
                },
                None => put_be16(&mut out, 0),
            }
        }
        assert(out@ =~= header_bytes(v, self.time_offset));
        let p = marshal_princ_in(client, realm, v, self.order);
        append(&mut out, &p);
        self.data = Some(out);
        Ok(())
    }

    fn principal(&mut self) -> (r: Result<(PrincipalName, String), CcError>) {
        match self.read_all() {
            Ok((_, p, _)) => Ok(p),
            Err(e) => Err(e),
        }
    }

    fn store(&mut self, cred: &CcCredential) -> (r: Result<(), CcError>) {
        let (version, _, _) = match self.read_all() {
            Ok(x) => x,
            Err(e) => return Err(e),
        };
        let b = marshal_cred_in(cred, version, self.order);
        let mut d = match &self.data {
            Some(d) => copy(d),
            None => return Err(CcError::Io),
        };
        append(&mut d, &b);
        self.data = Some(d);
        Ok(())
    }

    fn creds(&mut self) -> (r: Result<Vec<CcCredential>, CcError>) {
        let (version, _, pos) = match self.read_all() {
            Ok(x) => x,
            Err(e) => return Err(e),
        };
        match &self.data {
            Some(d) => match records(tail(d, pos), version, self.order) {
                Some(cs) => Ok(only_live(cs)),
                None => Err(CcError::Format),
            },
            None => Err(CcError::Io),
        }
    }

    fn remove_cred(&mut self, flags: u32, m: &MatchCred) -> (r: Result<(), CcError>) {
        let (version, _, pos) = match self.read_all() {
            Ok(x) => x,
            Err(e) => return Err(e),
        };
        let d = match &self.data {
            Some(d) => copy(d),
            None => return Err(CcError::Io),
        };
        let s = tail(&d, pos);
        match records(s, version, self.order) {
            Some(_) => {},
            None => return Err(CcError::Format),
        }
        match erase_in(s, version, self.order, flags, m) {
            Ok(t) => {
                let mut out = cut(&d, 0, pos);
                append(&mut out, &t);
                assert(out@ =~= d@.take(d@.len() - s@.len()) + t@);
                self.data = Some(out);
                Ok(())
            },
            Err(e) => Err(e),
        }
    }
}

} // verus!
