//! FILE keytab: reads v1 (0x0501, native order) and v2 (0x0502, big-endian);
//! writes v2 only. A [`FileKeytab`] holds the contents of the file.
use vstd::prelude::*;
use vstd::utf8::encode_utf8;

use crate::asn1::{general_ok, GeneralString};
use crate::bytes::{append, be16, be32, copy, cut, get_be16, i16_of, i32_of, lemma_word_round_trip, put_be16, put_be32, read_be16, read_be32, to_i32, to_u32, u32_of, zero_bytes, zeros};
use crate::der::{list_view, opt_view};
use crate::keytab::memory::position_of;
use crate::keytab::{ap_key_for, ap_key_spec, get_entry_in, is_same_entry, kt_list, kt_outcome, same_entry, Keytab, KeytabEntry, KeytabEntryV, KtError};
use crate::order::{native_order, read_word16, read_word32, tail, word16, word32, ByteOrder};
use crate::protocol::ap::{ApError, KeySource};
use crate::text::{lemma_lossy, lossy, utf8_lossy};
use crate::types::{EncryptionKey, EncryptionKeyV, PrincipalName, PrincipalNameV};

verus! {

/// Reads a 16-bit number.
pub open spec fn rd16(o: ByteOrder, s: Seq<u8>) -> Result<(i16, Seq<u8>), KtError> {
    if s.len() < 2 {
        Err(KtError::Format)
    } else {
        Ok((word16(o, s), s.skip(2)))
    }
}

/// Reads a 32-bit number.
pub open spec fn rd32(o: ByteOrder, s: Seq<u8>) -> Result<(u32, Seq<u8>), KtError> {
    if s.len() < 4 {
        Err(KtError::Format)
    } else {
        Ok((word32(o, s), s.skip(4)))
    }
}

/// Reads a 16-bit count and as many octets. A count that is not positive
/// ends the keytab.
pub open spec fn rd_counted(o: ByteOrder, s: Seq<u8>) -> Result<(Seq<u8>, Seq<u8>), KtError> {
    match rd16(o, s) {
        Err(e) => Err(e),
        Ok((n, t)) => if n <= 0 {
            Err(KtError::End)
        } else if t.len() < n {
            Err(KtError::Format)
        } else {
            Ok((t.take(n as int), t.skip(n as int)))
        },
    }
}

/// Reads `n` name components.
pub open spec fn rd_comps(o: ByteOrder, s: Seq<u8>, n: nat) -> Result<(Seq<Seq<u8>>, Seq<u8>), KtError>
    decreases n,
{
    if n == 0 {
        Ok((Seq::empty(), s))
    } else {
        match rd_counted(o, s) {
            Err(e) => Err(e),
            Ok((c, t)) => if !general_ok(c) {
                Err(KtError::Format)
            } else {
                match rd_comps(o, t, (n - 1) as nat) {
                    Err(e) => Err(e),
                    Ok((cs, rest)) => Ok((seq![c] + cs, rest)),
                }
            },
        }
    }
}

/// Reads a principal: its realm and its components. In v1 the count includes
/// the realm.
pub open spec fn rd_principal(d: Seq<u8>, v1: bool, o: ByteOrder) -> Result<(Seq<u8>, Seq<Seq<u8>>, Seq<u8>), KtError> {
    match rd16(o, d) {
        Err(e) => Err(e),
        Ok((n, s)) => {
            let count = if v1 { n - 1 } else { n as int };
            if count <= 0 {
                Err(KtError::End)
            } else {
                match rd_counted(o, s) {
                    Err(e) => Err(e),
                    Ok((realm, t)) => match rd_comps(o, t, count as nat) {
                        Err(e) => Err(e),
                        Ok((cs, rest)) => Ok((realm, cs, rest)),
                    },
                }
            }
        },
    }
}

/// Reads the name type, which v1 does not have.
pub open spec fn rd_name_type(s: Seq<u8>, v1: bool, o: ByteOrder) -> Result<(i32, Seq<u8>), KtError> {
    if v1 {
        Ok((0, s))
    } else {
        match rd32(o, s) {
            Err(e) => Err(e),
            Ok((n, t)) => Ok((i32_of(n), t)),
        }
    }
}

/// Reads the key: the 8-bit kvno, the etype and the octets, then the 32-bit
/// kvno if four or more octets remain, which counts unless it is zero.
pub open spec fn rd_key(s: Seq<u8>, o: ByteOrder) -> Result<(u32, EncryptionKeyV), KtError> {
    if s.len() < 1 {
        Err(KtError::Format)
    } else {
        match rd16(o, s.skip(1)) {
            Err(e) => Err(e),
            Ok((etype, t)) => match rd_counted(o, t) {
                Err(e) => Err(e),
                Ok((key, rest)) => {
                    let wide = word32(o, rest);
                    Ok(
                        (
                            if rest.len() >= 4 && wide != 0 { wide } else { s[0] as u32 },
                            EncryptionKeyV { keytype: etype as i32, keyvalue: key },
                        ),
                    )
                },
            },
        }
    }
}

/// The entry of a record body. `v1`: count includes realm, no name type.
#[verifier::opaque]
pub open spec fn parse_entry_spec(d: Seq<u8>, v1: bool, o: ByteOrder) -> Result<KeytabEntryV, KtError> {
    match rd_principal(d, v1, o) {
        Err(e) => Err(e),
        Ok((realm, name_string, s1)) => match rd_name_type(s1, v1, o) {
            Err(e) => Err(e),
            Ok((name_type, s2)) => match rd32(o, s2) {
                Err(e) => Err(e),
                Ok((timestamp, s3)) => match rd_key(s3, o) {
                    Err(e) => Err(e),
                    Ok((kvno, key)) => Ok(
                        KeytabEntryV {
                            principal: PrincipalNameV { name_type, name_string },
                            realm: utf8_lossy(realm),
                            timestamp,
                            kvno,
                            key,
                        },
                    ),
                },
            },
        },
    }
}

/// The size field of a record, negative for a deleted hole.
pub open spec fn size_of_record(o: ByteOrder, s: Seq<u8>) -> i32 {
    i32_of(word32(o, s))
}

/// The length of the record body that a size stands for.
pub open spec fn span(size: i32) -> int {
    if size < 0 { -size } else { size as int }
}

/// The entries of the records in `s`: a zero size or an entry that says so
/// ends the keytab; holes are passed over.
pub open spec fn walk_spec(s: Seq<u8>, v1: bool, o: ByteOrder) -> Result<Seq<KeytabEntryV>, KtError>
    decreases s.len(),
{
    let size = size_of_record(o, s);
    let n = span(size);
    if s.len() < 4 {
        Ok(Seq::empty())
    } else if size == i32::MIN {
        Err(KtError::Format)
    } else if size == 0 {
        Ok(Seq::empty())
    } else if s.len() < 4 + n {
        Err(KtError::Format)
    } else if size < 0 {
        walk_spec(s.skip(4 + n), v1, o)
    } else {
        match parse_entry_spec(s.subrange(4, 4 + n), v1, o) {
            Err(KtError::End) => Ok(Seq::empty()),
            Err(e) => Err(e),
            Ok(x) => match walk_spec(s.skip(4 + n), v1, o) {
                Err(e) => Err(e),
                Ok(rest) => Ok(seq![x] + rest),
            },
        }
    }
}

/// The entries of a keytab's contents.
pub open spec fn contents_spec(v: FileKeytabV) -> Result<Seq<KeytabEntryV>, KtError> {
    match v.data {
        None => Ok(Seq::empty()),
        Some(d) => if d.len() < 2 {
            Err(KtError::Format)
        } else if get_be16(d, 0) == 0x0501 {
            walk_spec(d.skip(2), true, v.order)
        } else if get_be16(d, 0) == 0x0502 {
            walk_spec(d.skip(2), false, ByteOrder::Big)
        } else {
            Err(KtError::Format)
        },
    }
}

/// The 16 low bits of a length.
pub open spec fn short(n: nat) -> Seq<u8> {
    be16((n % 0x1_0000) as u16)
}

/// Components, each behind its length.
pub open spec fn comps_body(cs: Seq<Seq<u8>>) -> Seq<u8>
    decreases cs.len(),
{
    if cs.len() == 0 {
        Seq::empty()
    } else {
        short(cs[0].len()) + cs[0] + comps_body(cs.drop_first())
    }
}

/// The name in a v2 record body.
pub open spec fn name_body(e: KeytabEntryV) -> Seq<u8> {
    let realm = encode_utf8(e.realm);
    short(e.principal.name_string.len()) + short(realm.len()) + realm + comps_body(e.principal.name_string)
}

/// The key in a v2 record body.
pub open spec fn key_body(e: KeytabEntryV) -> Seq<u8> {
    seq![(e.kvno % 256) as u8] + be16((u32_of(e.key.keytype) % 0x1_0000) as u16) + short(e.key.keyvalue.len())
        + e.key.keyvalue + be32(e.kvno)
}

/// The part of a v2 record body behind the name.
pub open spec fn tail_body(e: KeytabEntryV) -> Seq<u8> {
    be32(u32_of(e.principal.name_type)) + be32(e.timestamp) + key_body(e)
}

/// The v2 record body of an entry.
#[verifier::opaque]
pub open spec fn body_spec(e: KeytabEntryV) -> Seq<u8> {
    name_body(e) + tail_body(e)
}

/// Records with a body put in: into the first hole that is large enough, the
/// rest of which is zeroed, else in place of a zero size, else at the end.
pub open spec fn put_spec(s: Seq<u8>, body: Seq<u8>) -> Result<Seq<u8>, KtError>
    decreases s.len(),
{
    let size = size_of_record(ByteOrder::Big, s);
    let n = span(size);
    let rec = be32(body.len() as u32) + body;
    if s.len() < 4 {
        Ok(s + rec)
    } else if size == i32::MIN {
        Err(KtError::Format)
    } else if size == 0 {
        Ok(rec + s.skip(4))
    } else if size < 0 && n >= body.len() {
        if s.len() < 4 + n {
            Err(KtError::Format)
        } else {
            Ok(be32(n as u32) + body + zeros((n - body.len()) as nat) + s.skip(4 + n))
        }
    } else if s.len() < 4 + n {
        Ok(s + rec)
    } else {
        match put_spec(s.skip(4 + n), body) {
            Ok(t) => Ok(s.take(4 + n) + t),
            Err(e) => Err(e),
        }
    }
}

/// Records with the first entry that a deletion names turned into a hole.
pub open spec fn drop_spec(s: Seq<u8>, target: KeytabEntryV) -> Option<Seq<u8>>
    decreases s.len(),
{
    let size = size_of_record(ByteOrder::Big, s);
    let n = span(size);
    if s.len() < 4 || size == i32::MIN || size == 0 || s.len() < 4 + n {
        None
    } else {
        let body = s.subrange(4, 4 + n);
        let x = parse_entry_spec(body, false, ByteOrder::Big);
        if size > 0 && x is Err {
            None
        } else if size > 0 && same_entry(x->Ok_0, target) {
            Some(be32(u32_of((-n) as i32)) + zeros(n as nat) + s.skip(4 + n))
        } else {
            match drop_spec(s.skip(4 + n), target) {
                Some(t) => Some(s.take(4 + n) + t),
                None => None,
            }
        }
    }
}

/// Whether contents may be written: not those of a v1 keytab.
pub open spec fn writable(data: Option<Seq<u8>>) -> bool {
    match data {
        None => true,
        Some(d) => d.len() >= 2 && get_be16(d, 0) != 0x0501,
    }
}

/// A keytab after an entry is added. A missing file starts as an empty v2
/// keytab.
pub open spec fn file_added(v: FileKeytabV, e: KeytabEntryV) -> Result<FileKeytabV, KtError> {
    let d = match v.data {
        Some(d) => d,
        None => seq![0x05u8, 0x02u8],
    };
    if !writable(v.data) || body_spec(e).len() > i32::MAX {
        Err(KtError::Format)
    } else {
        match put_spec(d.skip(2), body_spec(e)) {
            Ok(t) => Ok(FileKeytabV { data: Some(d.take(2) + t), ..v }),
            Err(x) => Err(x),
        }
    }
}

/// A keytab after an entry is deleted.
pub open spec fn file_removed(v: FileKeytabV, e: KeytabEntryV) -> Result<FileKeytabV, KtError> {
    if !writable(v.data) {
        Err(KtError::Format)
    } else {
        match v.data {
            None => Err(KtError::Io),
            Some(d) => match contents_spec(v) {
                Err(x) => Err(x),
                Ok(_) => match drop_spec(d.skip(2), e) {
                    Some(t) => Ok(FileKeytabV { data: Some(d.take(2) + t), ..v }),
                    None => Err(KtError::NotFound),
                },
            },
        }
    }
}

/// A FILE keytab: the contents of the file, none when it does not exist, and
/// the byte order in which v1 contents are read.
#[derive(Debug)]
pub struct FileKeytab {
    data: Option<Vec<u8>>,
    order: ByteOrder,
}

/// Model of [`FileKeytab`].
pub struct FileKeytabV {
    pub data: Option<Seq<u8>>,
    pub order: ByteOrder,
}

impl View for FileKeytab {
    type V = FileKeytabV;

    closed spec fn view(&self) -> FileKeytabV {
        FileKeytabV { data: opt_view(self.data), order: self.order }
    }
}

/// Whether an entry can be told from its record: a name, a realm, components
/// and a key that are neither empty nor too long, and an etype of 16 bits.
pub open spec fn recordable(e: KeytabEntryV) -> bool {
    let cs = e.principal.name_string;
    &&& 0 < cs.len() < 0x8000
    &&& forall|i: int| 0 <= i < cs.len() ==> 0 < (#[trigger] cs[i]).len() < 0x8000 && general_ok(cs[i])
    &&& 0 < encode_utf8(e.realm).len() < 0x8000
    &&& -0x8000 <= e.key.keytype < 0x8000
    &&& 0 < e.key.keyvalue.len() < 0x8000
}

proof fn lemma_short(n: nat, rest: Seq<u8>)
    requires
        n < 0x8000,
    ensures
        rd16(ByteOrder::Big, short(n) + rest) == Ok::<(i16, Seq<u8>), KtError>((n as i16, rest)),
{
    lemma_word_round_trip(n as u16, 0, 0);
    assert((short(n) + rest).skip(2) =~= rest);
}

proof fn lemma_counted(c: Seq<u8>, rest: Seq<u8>)
    requires
        0 < c.len() < 0x8000,
    ensures
        rd_counted(ByteOrder::Big, short(c.len()) + c + rest) == Ok::<(Seq<u8>, Seq<u8>), KtError>((c, rest)),
{
    assert(short(c.len()) + c + rest =~= short(c.len()) + (c + rest));
    lemma_short(c.len(), c + rest);
    assert((c + rest).take(c.len() as int) =~= c);
    assert((c + rest).skip(c.len() as int) =~= rest);
}

proof fn lemma_word32(n: u32, rest: Seq<u8>)
    ensures
        rd32(ByteOrder::Big, be32(n) + rest) == Ok::<(u32, Seq<u8>), KtError>((n, rest)),
{
    lemma_word_round_trip(0, n, 0);
    assert((be32(n) + rest).skip(4) =~= rest);
}

proof fn lemma_comps(cs: Seq<Seq<u8>>, rest: Seq<u8>)
    requires
        forall|i: int| 0 <= i < cs.len() ==> 0 < (#[trigger] cs[i]).len() < 0x8000 && general_ok(cs[i]),
    ensures
        rd_comps(ByteOrder::Big, comps_body(cs) + rest, cs.len()) == Ok::<(Seq<Seq<u8>>, Seq<u8>), KtError>((cs, rest)),
    decreases cs.len(),
{
    if cs.len() == 0 {
        assert(comps_body(cs) + rest =~= rest);
        assert(cs =~= Seq::empty());
    } else {
        let more = comps_body(cs.drop_first()) + rest;
        assert(comps_body(cs) + rest =~= short(cs[0].len()) + cs[0] + more);
        lemma_counted(cs[0], more);
        assert forall|i: int| 0 <= i < cs.drop_first().len() implies 0 < (#[trigger] cs.drop_first()[i]).len() < 0x8000
            && general_ok(cs.drop_first()[i]) by {
            assert(cs.drop_first()[i] == cs[i + 1]);
        }
        lemma_comps(cs.drop_first(), rest);
        assert(seq![cs[0]] + cs.drop_first() =~= cs);
    }
}

proof fn lemma_etype(keytype: i32)
    requires
        -0x8000 <= keytype < 0x8000,
    ensures
        i16_of((u32_of(keytype) % 0x1_0000) as u16) == keytype,
{
}

proof fn lemma_key(e: KeytabEntryV, rest: Seq<u8>)
    requires
        recordable(e),
    ensures
        rd_key(key_body(e) + rest, ByteOrder::Big) == Ok::<(u32, EncryptionKeyV), KtError>((e.kvno, e.key)),
{
    let k = e.key.keyvalue;
    let et = (u32_of(e.key.keytype) % 0x1_0000) as u16;
    let s = key_body(e) + rest;
    let after = short(k.len()) + k + (be32(e.kvno) + rest);
    assert(s.skip(1) =~= be16(et) + after);
    lemma_word_round_trip(et, e.kvno, 0);
    assert((be16(et) + after).skip(2) =~= after);
    assert(rd16(ByteOrder::Big, be16(et) + after) == Ok::<(i16, Seq<u8>), KtError>((i16_of(et), after)));
    lemma_etype(e.key.keytype);
    lemma_counted(k, be32(e.kvno) + rest);
    lemma_word32(e.kvno, rest);
}

proof fn lemma_principal(e: KeytabEntryV, rest: Seq<u8>)
    requires
        recordable(e),
    ensures
        rd_principal(name_body(e) + rest, false, ByteOrder::Big) == Ok::<(Seq<u8>, Seq<Seq<u8>>, Seq<u8>), KtError>(
            (encode_utf8(e.realm), e.principal.name_string, rest),
        ),
{
    let realm = encode_utf8(e.realm);
    let cs = e.principal.name_string;
    let s1 = short(realm.len()) + realm + (comps_body(cs) + rest);
    assert(name_body(e) + rest =~= short(cs.len()) + s1);
    lemma_short(cs.len(), s1);
    lemma_counted(realm, comps_body(cs) + rest);
    lemma_comps(cs, rest);
}

/// A record reads back: the body of an entry, with zeros behind it as in a
/// reused hole, gives the entry.
pub proof fn law_record_round_trip(e: KeytabEntryV, padding: nat)
    requires
        recordable(e),
    ensures
        parse_entry_spec(body_spec(e) + zeros(padding), false, ByteOrder::Big) == Ok::<KeytabEntryV, KtError>(e),
{
    reveal(parse_entry_spec);
    lemma_lossy(e.realm);
    let z = zeros(padding);
    lemma_principal(e, tail_body(e) + z);
    let key = key_body(e) + z;
    let s3 = be32(e.timestamp) + key;
    assert(tail_body(e) + z =~= be32(u32_of(e.principal.name_type)) + s3);
    lemma_word32(u32_of(e.principal.name_type), s3);
    lemma_word32(e.timestamp, key);
    lemma_key(e, z);
    assert(body_spec(e) + z =~= name_body(e) + (tail_body(e) + z)) by {
        reveal(body_spec);
    }
    assert(i32_of(u32_of(e.principal.name_type)) == e.principal.name_type);
}

/// Records that fill their keytab to the end, each of them readable.
pub open spec fn clean(s: Seq<u8>) -> bool
    decreases s.len(),
{
    let size = size_of_record(ByteOrder::Big, s);
    let n = span(size);
    s.len() == 0 || (s.len() >= 4 && size != i32::MIN && size != 0 && s.len() >= 4 + n && (size < 0
        || parse_entry_spec(s.subrange(4, 4 + n), false, ByteOrder::Big) is Ok) && clean(s.skip(4 + n)))
}

/// A record at the front of clean records.
proof fn lemma_front(rec: Seq<u8>, n: int, rest: Seq<u8>, x: KeytabEntryV)
    requires
        0 < n <= i32::MAX,
        rec.len() == 4 + n,
        size_of_record(ByteOrder::Big, rec) == n,
        parse_entry_spec(rec.subrange(4, 4 + n), false, ByteOrder::Big) == Ok::<KeytabEntryV, KtError>(x),
        clean(rest),
    ensures
        clean(rec + rest),
        walk_spec(rest, false, ByteOrder::Big) is Ok,
        walk_spec(rec + rest, false, ByteOrder::Big) == Ok::<Seq<KeytabEntryV>, KtError>(
            walk_spec(rest, false, ByteOrder::Big)->Ok_0.insert(0, x),
        ),
{
    let t = rec + rest;
    lemma_clean_walks(rest);
    assert(size_of_record(ByteOrder::Big, t) == n);
    assert(t.subrange(4, 4 + n) =~= rec.subrange(4, 4 + n));
    assert(t.skip(4 + n) =~= rest);
    let es = walk_spec(rest, false, ByteOrder::Big)->Ok_0;
    assert(seq![x] + es =~= es.insert(0, x));
}

/// Changing what follows the first record.
proof fn lemma_behind(s: Seq<u8>, t: Seq<u8>, x: KeytabEntryV, j: int)
    requires
        s.len() > 0,
        clean(s),
        ({
            let rest = s.skip(4 + span(size_of_record(ByteOrder::Big, s)));
            &&& clean(t)
            &&& walk_spec(rest, false, ByteOrder::Big) is Ok
            &&& 0 <= j <= walk_spec(rest, false, ByteOrder::Big)->Ok_0.len()
            &&& walk_spec(t, false, ByteOrder::Big) == Ok::<Seq<KeytabEntryV>, KtError>(
                walk_spec(rest, false, ByteOrder::Big)->Ok_0.insert(j, x),
            )
        }),
    ensures
        ({
            let size = size_of_record(ByteOrder::Big, s);
            let u = s.take(4 + span(size)) + t;
            let i = if size < 0 { j } else { j + 1 };
            &&& clean(u)
            &&& walk_spec(s, false, ByteOrder::Big) is Ok
            &&& 0 <= i <= walk_spec(s, false, ByteOrder::Big)->Ok_0.len()
            &&& walk_spec(u, false, ByteOrder::Big) == Ok::<Seq<KeytabEntryV>, KtError>(
                walk_spec(s, false, ByteOrder::Big)->Ok_0.insert(i, x),
            )
        }),
{
    let size = size_of_record(ByteOrder::Big, s);
    let n = span(size);
    let u = s.take(4 + n) + t;
    assert(size_of_record(ByteOrder::Big, u) == size);
    assert(u.subrange(4, 4 + n) =~= s.subrange(4, 4 + n));
    assert(u.skip(4 + n) =~= t);
    let es = walk_spec(s.skip(4 + n), false, ByteOrder::Big)->Ok_0;
    if size > 0 {
        let y = parse_entry_spec(s.subrange(4, 4 + n), false, ByteOrder::Big)->Ok_0;
        assert(seq![y] + es.insert(j, x) =~= (seq![y] + es).insert(j + 1, x));
    }
}

/// Adding an entry to a clean keytab leaves it clean, with all its entries
/// and the new one among them.
pub proof fn law_added_is_listed(s: Seq<u8>, e: KeytabEntryV) -> (i: int)
    requires
        clean(s),
        recordable(e),
        body_spec(e).len() <= i32::MAX,
    ensures
        put_spec(s, body_spec(e)) is Ok,
        clean(put_spec(s, body_spec(e))->Ok_0),
        walk_spec(s, false, ByteOrder::Big) is Ok,
        0 <= i <= walk_spec(s, false, ByteOrder::Big)->Ok_0.len(),
        walk_spec(put_spec(s, body_spec(e))->Ok_0, false, ByteOrder::Big) == Ok::<Seq<KeytabEntryV>, KtError>(
            walk_spec(s, false, ByteOrder::Big)->Ok_0.insert(i, e),
        ),
    decreases s.len(),
{
    let body = body_spec(e);
    let size = size_of_record(ByteOrder::Big, s);
    let n = span(size);
    assert(body.len() >= 2) by {
        reveal(body_spec);
    }
    if s.len() == 0 {
        let rec = be32(body.len() as u32) + body;
        lemma_word_round_trip(0, body.len() as u32, 0);
        assert(rec.subrange(4, 4 + body.len() as int) =~= body);
        law_record_round_trip(e, 0);
        assert(body + zeros(0) =~= body);
        assert(size_of_record(ByteOrder::Big, rec) == body.len());
        lemma_front(rec, body.len() as int, s, e);
        assert(rec + s =~= s + rec);
        0
    } else if size < 0 && n >= body.len() {
        let rest = s.skip(4 + n);
        let pad = (n - body.len()) as nat;
        let rec = be32(n as u32) + body + zeros(pad);
        lemma_word_round_trip(0, n as u32, 0);
        assert(size_of_record(ByteOrder::Big, rec) == n);
        assert(rec.subrange(4, 4 + n) =~= body + zeros(pad));
        law_record_round_trip(e, pad);
        lemma_front(rec, n, rest, e);
        0
    } else {
        let rest = s.skip(4 + n);
        let j = law_added_is_listed(rest, e);
        lemma_behind(s, put_spec(rest, body)->Ok_0, e, j);
        if size < 0 { j } else { j + 1 }
    }
}

proof fn lemma_clean_walks(s: Seq<u8>)
    requires
        clean(s),
    ensures
        walk_spec(s, false, ByteOrder::Big) is Ok,
    decreases s.len(),
{
    if s.len() > 0 {
        lemma_clean_walks(s.skip(4 + span(size_of_record(ByteOrder::Big, s))));
    }
}

/// Deleting an entry from a clean keytab leaves it clean and takes just the
/// first entry of that kind from it; there is none exactly when the deletion
/// fails.
pub proof fn law_removed_is_gone(s: Seq<u8>, target: KeytabEntryV)
    requires
        clean(s),
    ensures
        walk_spec(s, false, ByteOrder::Big) is Ok,
        match (drop_spec(s, target), position_of(walk_spec(s, false, ByteOrder::Big)->Ok_0, target)) {
            (Some(t), Some(i)) => clean(t) && 0 <= i < walk_spec(s, false, ByteOrder::Big)->Ok_0.len() && walk_spec(
                t,
                false,
                ByteOrder::Big,
            ) == Ok::<Seq<KeytabEntryV>, KtError>(walk_spec(s, false, ByteOrder::Big)->Ok_0.remove(i)),
            (None, None) => true,
            _ => false,
        },
    decreases s.len(),
{
    lemma_clean_walks(s);
    if s.len() > 0 {
        let size = size_of_record(ByteOrder::Big, s);
        let n = span(size);
        let rest = s.skip(4 + n);
        lemma_clean_walks(rest);
        law_removed_is_gone(rest, target);
        let es = walk_spec(rest, false, ByteOrder::Big)->Ok_0;
        let x = parse_entry_spec(s.subrange(4, 4 + n), false, ByteOrder::Big);
        if size > 0 {
            let all = seq![x->Ok_0] + es;
            assert(all.drop_first() =~= es);
            assert(walk_spec(s, false, ByteOrder::Big)->Ok_0 == all);
            if same_entry(x->Ok_0, target) {
                let h = u32_of((-n) as i32);
                let t = be32(h) + zeros(n as nat) + rest;
                lemma_word_round_trip(0, h, 0);
                assert(size_of_record(ByteOrder::Big, t) == -n);
                assert(t.skip(4 + n) =~= rest);
                assert(all.remove(0) =~= es);
            } else if drop_spec(rest, target) is Some {
                let t = drop_spec(rest, target)->0;
                let u = s.take(4 + n) + t;
                let i = position_of(es, target)->0;
                assert(size_of_record(ByteOrder::Big, u) == size);
                assert(u.subrange(4, 4 + n) =~= s.subrange(4, 4 + n));
                assert(u.skip(4 + n) =~= t);
                assert(all.remove(i + 1) =~= seq![x->Ok_0] + es.remove(i));
            }
        } else if drop_spec(rest, target) is Some {
            let t = drop_spec(rest, target)->0;
            let u = s.take(4 + n) + t;
            assert(size_of_record(ByteOrder::Big, u) == size);
            assert(u.skip(4 + n) =~= t);
        }
    }
}

fn read16<'a>(o: ByteOrder, s: &'a [u8]) -> (r: Result<(i16, &'a [u8]), KtError>)
    ensures
        match r {
            Ok((n, t)) => rd16(o, s@) == Ok::<(i16, Seq<u8>), KtError>((n, t@)),
            Err(e) => rd16(o, s@) == Err::<(i16, Seq<u8>), KtError>(e),
        },
{
    if s.len() < 2 {
        return Err(KtError::Format);
    }
    Ok((read_word16(o, s), tail(s, 2)))
}

fn read32<'a>(o: ByteOrder, s: &'a [u8]) -> (r: Result<(u32, &'a [u8]), KtError>)
    ensures
        match r {
            Ok((n, t)) => rd32(o, s@) == Ok::<(u32, Seq<u8>), KtError>((n, t@)),
            Err(e) => rd32(o, s@) == Err::<(u32, Seq<u8>), KtError>(e),
        },
{
    if s.len() < 4 {
        return Err(KtError::Format);
    }
    Ok((read_word32(o, s), tail(s, 4)))
}

fn read_counted<'a>(o: ByteOrder, s: &'a [u8]) -> (r: Result<(Vec<u8>, &'a [u8]), KtError>)
    ensures
        match r {
            Ok((c, t)) => rd_counted(o, s@) == Ok::<(Seq<u8>, Seq<u8>), KtError>((c@, t@)),
            Err(e) => rd_counted(o, s@) == Err::<(Seq<u8>, Seq<u8>), KtError>(e),
        },
{
    let (n, t) = match read16(o, s) {
        Ok(x) => x,
        Err(e) => return Err(e),
    };
    if n <= 0 {
        return Err(KtError::End);
    }
    let n: usize = n as usize;
    if t.len() < n {
        return Err(KtError::Format);
    }
    let c = cut(t, 0, n);
    assert(c@ =~= t@.take(n as int));
    Ok((c, tail(t, n)))
}

fn read_comps<'a>(o: ByteOrder, s: &'a [u8], n: usize) -> (r: Result<(Vec<GeneralString>, &'a [u8]), KtError>)
    ensures
        match r {
            Ok((cs, t)) => rd_comps(o, s@, n as nat) == Ok::<(Seq<Seq<u8>>, Seq<u8>), KtError>((list_view(cs@), t@)),
            Err(e) => rd_comps(o, s@, n as nat) == Err::<(Seq<Seq<u8>>, Seq<u8>), KtError>(e),
        },
{
    let mut rest: &[u8] = s;
    let mut cs: Vec<GeneralString> = Vec::new();
    let mut left: usize = n;
    assert(list_view(cs@) =~= Seq::empty());
    while left > 0
        invariant
            left <= n,
            match rd_comps(o, rest@, left as nat) {
                Ok((more, t)) => rd_comps(o, s@, n as nat) == Ok::<(Seq<Seq<u8>>, Seq<u8>), KtError>(
                    (list_view(cs@) + more, t),
                ),
                Err(e) => rd_comps(o, s@, n as nat) == Err::<(Seq<Seq<u8>>, Seq<u8>), KtError>(e),
            },
        decreases left,
    {
        let (c, t) = match read_counted(o, rest) {
            Ok(x) => x,
            Err(e) => return Err(e),
        };
        let g = match GeneralString::from_bytes(&c) {
            Some(g) => g,
            None => return Err(KtError::Format),
        };
        let ghost before = list_view(cs@);
        cs.push(g);
        proof {
            assert(list_view(cs@) =~= before.push(c@));
            match rd_comps(o, t@, (left - 1) as nat) {
                Ok((more, _)) => {
                    assert(before + (seq![c@] + more) =~= list_view(cs@) + more);
                },
                Err(_) => {},
            }
        }
        rest = t;
        left = left - 1;
    }
    assert(list_view(cs@) + Seq::empty() =~= list_view(cs@));
    Ok((cs, rest))
}

fn read_key(s: &[u8], o: ByteOrder) -> (r: Result<(u32, EncryptionKey), KtError>)
    ensures
        match r {
            Ok((n, k)) => rd_key(s@, o) == Ok::<(u32, EncryptionKeyV), KtError>((n, k@)),
            Err(e) => rd_key(s@, o) == Err::<(u32, EncryptionKeyV), KtError>(e),
        },
{
    if s.len() < 1 {
        return Err(KtError::Format);
    }
    let mut kvno: u32 = s[0] as u32;
    let (etype, t) = match read16(o, tail(s, 1)) {
        Ok(x) => x,
        Err(e) => return Err(e),
    };
    let (key, rest) = match read_counted(o, t) {
        Ok(x) => x,
        Err(e) => return Err(e),
    };
    if rest.len() >= 4 {
        let wide: u32 = read_word32(o, rest);
        if wide != 0 {
            kvno = wide;
        }
    }
    Ok((kvno, EncryptionKey::new(etype as i32, key)))
}

/// Parse one record body. `v1`: count includes realm, no name type.
pub fn parse_entry(d: &[u8], v1: bool, o: ByteOrder) -> (r: Result<KeytabEntry, KtError>)
    ensures
        kt_outcome(r) == parse_entry_spec(d@, v1, o),
{
    reveal(parse_entry_spec);
    let (n, s) = match read16(o, d) {
        Ok(x) => x,
        Err(e) => return Err(e),
    };
    // v1 counts the realm as a component.
    let floor: i16 = if v1 { 1 } else { 0 };
    if n <= floor {
        return Err(KtError::End);
    }
    let (realm, s) = match read_counted(o, s) {
        Ok(x) => x,
        Err(e) => return Err(e),
    };
    let (name_string, s) = match read_comps(o, s, (n - floor) as usize) {
        Ok(x) => x,
        Err(e) => return Err(e),
    };
    let (name_type, s) = if v1 {
        (0, s)
    } else {
        match read32(o, s) {
            Ok((w, t)) => (to_i32(w), t),
            Err(e) => return Err(e),
        }
    };
    let (timestamp, s) = match read32(o, s) {
        Ok(x) => x,
        Err(e) => return Err(e),
    };
    let (kvno, key) = match read_key(s, o) {
        Ok(x) => x,
        Err(e) => return Err(e),
    };
    Ok(KeytabEntry {
        principal: PrincipalName { name_type, name_string },
        realm: lossy(&realm),
        timestamp,
        kvno,
        key,
    })
}

fn walk(s: &[u8], v1: bool, o: ByteOrder) -> (r: Result<Vec<KeytabEntry>, KtError>)
    ensures
        kt_list(r) == walk_spec(s@, v1, o),
{
    let mut rest: &[u8] = s;
    let mut out: Vec<KeytabEntry> = Vec::new();
    assert(list_view(out@) =~= Seq::empty());
    while rest.len() >= 4
        invariant
            match walk_spec(rest@, v1, o) {
                Ok(more) => walk_spec(s@, v1, o) == Ok::<Seq<KeytabEntryV>, KtError>(list_view(out@) + more),
                Err(e) => walk_spec(s@, v1, o) == Err::<Seq<KeytabEntryV>, KtError>(e),
            },
        decreases rest@.len(),
    {
        let size: i32 = to_i32(read_word32(o, rest));
        if size == i32::MIN {
            return Err(KtError::Format);
        }
        if size == 0 {
            assert(list_view(out@) + Seq::empty() =~= list_view(out@));
            return Ok(out);
        }
        let n: usize = if size < 0 { (-size) as usize } else { size as usize };
        if rest.len() - 4 < n {
            return Err(KtError::Format);
        }
        if size > 0 {
            let body = vstd::slice::slice_subrange(rest, 4, 4 + n);
            match parse_entry(body, v1, o) {
                Ok(e) => {
                    let ghost before = list_view(out@);
                    out.push(e);
                    proof {
                        assert(list_view(out@) =~= before.push(e@));
                        match walk_spec(rest@.skip(4 + n), v1, o) {
                            Ok(more) => {
                                assert(before + (seq![e@] + more) =~= list_view(out@) + more);
                            },
                            Err(_) => {},
                        }
                    }
                },
                Err(e) => {
                    if e == KtError::End {
                        assert(list_view(out@) + Seq::empty() =~= list_view(out@));
                        return Ok(out);
                    }
                    return Err(e);
                },
            }
        }
        rest = tail(rest, 4 + n);
    }
    assert(list_view(out@) + Seq::empty() =~= list_view(out@));
    Ok(out)
}

fn put_short(out: &mut Vec<u8>, n: usize)
    ensures
        final(out)@ == old(out)@ + short(n as nat),
{
    put_be16(out, (n % 0x1_0000) as u16);
}

/// The v2 record body of an entry.
pub fn entry_body(e: &KeytabEntry) -> (r: Vec<u8>)
    ensures
        r@ == body_spec(e@),
{
    let ghost cs = e@.principal.name_string;
    let mut b: Vec<u8> = Vec::new();
    put_short(&mut b, e.principal.name_string.len());
    let realm = e.realm.as_str().as_bytes();
    put_short(&mut b, realm.len());
    append(&mut b, realm);
    let ghost head = short(cs.len()) + short(realm@.len()) + realm@;
    assert(b@ =~= head);
    let mut i: usize = 0;
    assert(cs.skip(0) =~= cs);
    while i < e.principal.name_string.len()
        invariant
            i <= e.principal.name_string@.len(),
            cs == list_view(e.principal.name_string@),
            b@ + comps_body(cs.skip(i as int)) == head + comps_body(cs),
        decreases e.principal.name_string@.len() - i,
    {
        let ghost before = b@;
        let c = e.principal.name_string[i].as_bytes();
        put_short(&mut b, c.len());
        append(&mut b, c);
        proof {
            assert(cs.skip(i as int).drop_first() =~= cs.skip(i + 1));
            assert(cs.skip(i as int)[0] == c@);
            assert(b@ + comps_body(cs.skip(i + 1)) =~= before + comps_body(cs.skip(i as int)));
        }
        i = i + 1;
    }
    assert(cs.skip(i as int).len() == 0);
    assert(b@ =~= head + comps_body(cs));
    put_be32(&mut b, to_u32(e.principal.name_type));
    put_be32(&mut b, e.timestamp);
    b.push((e.kvno % 256) as u8);
    put_be16(&mut b, (to_u32(e.key.keytype) % 0x1_0000) as u16);
    let k = e.key.key_bytes();
    put_short(&mut b, k.len());
    append(&mut b, k);
    put_be32(&mut b, e.kvno);
    reveal(body_spec);
    assert(b@ =~= body_spec(e@));
    b
}

fn be32_vec(n: u32) -> (r: Vec<u8>)
    ensures
        r@ == be32(n),
{
    let mut v: Vec<u8> = Vec::new();
    put_be32(&mut v, n);
    assert(v@ =~= be32(n));
    v
}

#[verifier::rlimit(50)]
fn put_record(s: &[u8], body: &[u8]) -> (r: Result<Vec<u8>, KtError>)
    requires
        body@.len() <= i32::MAX,
    ensures
        kt_outcome(r) == put_spec(s@, body@),
{
    let mut pos: usize = 0;
    assert(s@.skip(0) =~= s@);
    assert(s@.take(0) =~= Seq::empty());
    while s.len() - pos >= 4
        invariant
            pos <= s@.len(),
            body@.len() <= i32::MAX,
            put_spec(s@, body@) == (match put_spec(s@.skip(pos as int), body@) {
                Ok(t) => Ok::<Seq<u8>, KtError>(s@.take(pos as int) + t),
                Err(e) => Err::<Seq<u8>, KtError>(e),
            }),
        decreases s@.len() - pos,
    {
        let ghost rest = s@.skip(pos as int);
        let size: i32 = to_i32(read_be32(s, pos));
        assert(size == size_of_record(ByteOrder::Big, rest));
        if size == i32::MIN {
            return Err(KtError::Format);
        }
        if size == 0 {
            let mut out = cut(s, 0, pos);
            let h = be32_vec(body.len() as u32);
            append(&mut out, &h);
            append(&mut out, body);
            append(&mut out, tail(s, pos + 4));
            assert(rest.skip(4) =~= s@.skip(pos + 4));
            assert(out@ =~= s@.take(pos as int) + (be32(body@.len() as u32) + body@ + rest.skip(4)));
            return Ok(out);
        }
        let n: usize = if size < 0 { (-size) as usize } else { size as usize };
        let fits = n <= s.len() - pos - 4;
        if size < 0 && n >= body.len() {
            if !fits {
                return Err(KtError::Format);
            }
            let mut out = cut(s, 0, pos);
            let h = be32_vec(n as u32);
            append(&mut out, &h);
            append(&mut out, body);
            let z = zero_bytes(n - body.len());
            append(&mut out, &z);
            append(&mut out, tail(s, pos + 4 + n));
            assert(rest.skip(4 + n) =~= s@.skip(pos + 4 + n));
            assert(out@ =~= s@.take(pos as int) + (be32(n as u32) + body@ + zeros((n - body@.len()) as nat) + rest.skip(
                4 + n,
            )));
            return Ok(out);
        }
        if !fits {
            let mut out = copy(s);
            let h = be32_vec(body.len() as u32);
            append(&mut out, &h);
            append(&mut out, body);
            assert(out@ =~= s@.take(pos as int) + (rest + (be32(body@.len() as u32) + body@)));
            return Ok(out);
        }
        proof {
            assert(rest.skip(4 + n) =~= s@.skip(pos + 4 + n));
            match put_spec(s@.skip(pos + 4 + n), body@) {
                Ok(t) => {
                    assert(s@.take(pos as int) + (rest.take(4 + n) + t) =~= s@.take(pos + 4 + n) + t);
                },
                Err(_) => {},
            }
        }
        pos = pos + 4 + n;
    }
    let mut out = copy(s);
    let h = be32_vec(body.len() as u32);
    append(&mut out, &h);
    append(&mut out, body);
    assert(out@ =~= s@.take(pos as int) + (s@.skip(pos as int) + (be32(body@.len() as u32) + body@)));
    Ok(out)
}

fn drop_record(s: &[u8], target: &KeytabEntry) -> (r: Option<Vec<u8>>)
    ensures
        opt_view(r) == drop_spec(s@, target@),
{
    let mut pos: usize = 0;
    assert(s@.skip(0) =~= s@);
    assert(s@.take(0) =~= Seq::empty());
    while s.len() - pos >= 4
        invariant
            pos <= s@.len(),
            drop_spec(s@, target@) == (match drop_spec(s@.skip(pos as int), target@) {
                Some(t) => Some(s@.take(pos as int) + t),
                None => None,
            }),
        decreases s@.len() - pos,
    {
        let ghost rest = s@.skip(pos as int);
        let size: i32 = to_i32(read_be32(s, pos));
        assert(size == size_of_record(ByteOrder::Big, rest));
        if size == i32::MIN || size == 0 {
            return None;
        }
        let n: usize = if size < 0 { (-size) as usize } else { size as usize };
        if n > s.len() - pos - 4 {
            return None;
        }
        if size > 0 {
            let body = vstd::slice::slice_subrange(s, pos + 4, pos + 4 + n);
            assert(body@ =~= rest.subrange(4, 4 + n));
            match parse_entry(body, false, ByteOrder::Big) {
                Err(_) => return None,
                Ok(x) => {
                    if is_same_entry(&x, target) {
                        let mut out = cut(s, 0, pos);
                        let h = be32_vec(to_u32(-size));
                        append(&mut out, &h);
                        let z = zero_bytes(n);
                        append(&mut out, &z);
                        append(&mut out, tail(s, pos + 4 + n));
                        assert(rest.skip(4 + n) =~= s@.skip(pos + 4 + n));
                        assert(out@ =~= s@.take(pos as int) + (be32(u32_of((-n) as i32)) + zeros(n as nat) + rest.skip(
                            4 + n,
                        )));
                        return Some(out);
                    }
                },
            }
        }
        proof {
            assert(rest.skip(4 + n) =~= s@.skip(pos + 4 + n));
            match drop_spec(s@.skip(pos + 4 + n), target@) {
                Some(t) => {
                    assert(s@.take(pos as int) + (rest.take(4 + n) + t) =~= s@.take(pos + 4 + n) + t);
                },
                None => {},
            }
        }
        pos = pos + 4 + n;
    }
    None
}

impl FileKeytab {
    /// A keytab with the given contents, none for a file that does not exist.
    /// v1 contents are read in the machine's own byte order.
    pub fn new(contents: Option<Vec<u8>>) -> (r: Self)
        ensures
            r@.data == opt_view(contents),
    {
        FileKeytab { data: contents, order: native_order() }
    }

    /// A keytab with the given contents, v1 ones in the given byte order.
    pub fn with_order(contents: Option<Vec<u8>>, order: ByteOrder) -> (r: Self)
        ensures
            r@ == (FileKeytabV { data: opt_view(contents), order }),
    {
        FileKeytab { data: contents, order }
    }

    /// The contents to be written back.
    pub fn contents(&self) -> (r: Option<&[u8]>)
        ensures
            match r {
                Some(d) => self@.data == Some(d@),
                None => self@.data is None,
            },
    {
        match &self.data {
            Some(d) => Some(d.as_slice()),
            None => None,
        }
    }

    fn ensure_writable(&self) -> (r: bool)
        ensures
            r == writable(self@.data),
    {
        match &self.data {
            None => true,
            Some(d) => d.len() >= 2 && read_be16(d, 0) != 0x0501,
        }
    }
}

impl Keytab for FileKeytab {
    open spec fn listed(v: FileKeytabV) -> Result<Seq<KeytabEntryV>, KtError> {
        contents_spec(v)
    }

    open spec fn added(v: FileKeytabV, entry: KeytabEntryV) -> Result<FileKeytabV, KtError> {
        file_added(v, entry)
    }

    open spec fn removed(v: FileKeytabV, entry: KeytabEntryV) -> Result<FileKeytabV, KtError> {
        file_removed(v, entry)
    }

    fn entries(&self) -> (r: Result<Vec<KeytabEntry>, KtError>) {
        match &self.data {
            None => {
                let none: Vec<KeytabEntry> = Vec::new();
                assert(list_view(none@) =~= Seq::empty());
                Ok(none)
            },
            Some(d) => {
                if d.len() < 2 {
                    return Err(KtError::Format);
                }
                let vno: u16 = read_be16(d, 0);
                if vno == 0x0501 {
                    walk(tail(d, 2), true, self.order)
                } else if vno == 0x0502 {
                    walk(tail(d, 2), false, ByteOrder::Big)
                } else {
                    Err(KtError::Format)
                }
            },
        }
    }

    fn get_entry(&self, principal: &PrincipalName, realm: &str, kvno: Option<u32>, etype: Option<i32>) -> (r: Result<
        KeytabEntry,
        KtError,
    >) {
        match self.entries() {
            Ok(es) => get_entry_in(&es, principal, realm, kvno, etype),
            Err(e) => Err(e),
        }
    }

    fn add_entry(&mut self, entry: &KeytabEntry) -> (r: Result<(), KtError>) {
        if !self.ensure_writable() {
            return Err(KtError::Format);
        }
        let body = entry_body(entry);
        if body.len() > 0x7fff_ffff {
            return Err(KtError::Format);
        }
        let d = match &self.data {
            Some(d) => copy(d),
            None => {
                let mut fresh: Vec<u8> = Vec::new();
                fresh.push(0x05);
                fresh.push(0x02);
                assert(fresh@ =~= seq![0x05u8, 0x02u8]);
                fresh
            },
        };
        match put_record(tail(&d, 2), &body) {
            Ok(t) => {
                let mut out = cut(&d, 0, 2);
                append(&mut out, &t);
                assert(out@ =~= d@.take(2) + t@);
                self.data = Some(out);
                Ok(())
            },
            Err(e) => Err(e),
        }
    }

    fn remove_entry(&mut self, entry: &KeytabEntry) -> (r: Result<(), KtError>) {
        if !self.ensure_writable() {
            return Err(KtError::Format);
        }
        let d = match &self.data {
            Some(d) => copy(d),
            None => return Err(KtError::Io),
        };
        match self.entries() {
            Ok(_) => {},
            Err(e) => return Err(e),
        }
        match drop_record(tail(&d, 2), entry) {
            Some(t) => {
                let mut out = cut(&d, 0, 2);
                append(&mut out, &t);
                assert(out@ =~= d@.take(2) + t@);
                self.data = Some(out);
                Ok(())
            },
            None => Err(KtError::NotFound),
        }
    }
}

impl KeySource for FileKeytab {
    open spec fn lookup(&self, server: PrincipalNameV, realm: Seq<u8>, kvno: Option<i32>, etype: i32) -> Result<
        EncryptionKeyV,
        ApError,
    > {
        ap_key_spec(contents_spec(self@), server, realm, kvno, etype)
    }

    fn get_key(&self, server: &PrincipalName, realm: &[u8], kvno: Option<i32>, etype: i32) -> (r: Result<
        EncryptionKey,
        ApError,
    >) {
        ap_key_for(self, server, realm, kvno, etype)
    }
}

} // verus!
