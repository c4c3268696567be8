//! What holds of keys in keytabs.
use vstd::prelude::*;
use vstd::utf8::encode_utf8;

use crate::bytes::{be16, be32, u32_of, zeros};
use crate::keytab::file::{body_spec, comps_body, contents_spec, file_added, key_body, name_body, put_spec, short, size_of_record, walk_spec, FileKeytabV};
use crate::keytab::{ap_key_spec, entry_fits, fitting, get_entry_spec, more_recent_spec, same_entry, search_spec, KeytabEntryV, KtError};
use crate::order::ByteOrder;
use crate::protocol::ap::ApError;
use crate::text::utf8_lossy;
use crate::types::{EncryptionKeyV, PrincipalNameV};

verus! {

/// One entry is newer than another where its key's number is greater, but for
/// numbers of eight bits that went round: a number below 128 that was written
/// no earlier than one above 240 is newer than it.
pub proof fn law_newer(a: KeytabEntryV, b: KeytabEntryV)
    ensures
        a.kvno < 128 && b.kvno > 240 && a.timestamp >= b.timestamp ==> more_recent_spec(a, b),
        a.kvno > 240 && b.kvno < 128 && b.timestamp >= a.timestamp ==> !more_recent_spec(a, b),
        !(a.kvno < 128 && b.kvno > 240) && !(a.kvno > 240 && b.kvno < 128) ==> (more_recent_spec(a, b) <==> a.kvno > b.kvno),
        a.kvno < 128 && b.kvno > 240 && a.timestamp < b.timestamp ==> !more_recent_spec(a, b),
        a.kvno > 240 && b.kvno < 128 && b.timestamp < a.timestamp ==> more_recent_spec(a, b),
{
}

/// An entry fits a request by the parts of its name, its realm and, where one
/// is asked for, its enctype; and two entries are the same by these and the
/// number of their key.
pub proof fn law_fits(e: KeytabEntryV, p: PrincipalNameV, realm: Seq<char>, etype: Option<i32>, f: KeytabEntryV)
    ensures
        entry_fits(e, p, realm, etype) <==> e.principal.name_string == p.name_string && e.realm == realm && (etype is Some
            ==> e.key.keytype == etype->0),
        same_entry(e, f) <==> e.principal.name_string == f.principal.name_string && e.realm == f.realm && e.kvno == f.kvno
            && e.key.keytype == f.key.keytype,
{
}

/// Where no number is asked for, no entry that fits is newer than the one that
/// is found, or it was before it in the file and gave way to it: the entry
/// found is newer than every one that was chosen before it, and none behind it
/// is newer than it.
pub proof fn law_newest_found(es: Seq<KeytabEntryV>, cur: Option<KeytabEntryV>, wrong: bool)
    requires
        es.len() > 0 || cur is Some,
    ensures
        ({
            let r = search_spec(es, None, cur, wrong);
            &&& r is Ok
            &&& cur == Some(r->Ok_0) || es.contains(r->Ok_0)
            &&& es.len() == 0 ==> cur == Some(r->Ok_0)
            &&& es.len() == 1 && cur is Some ==> r->Ok_0 == (if more_recent_spec(es[0], cur->0) { es[0] } else { cur->0 })
            &&& es.len() == 1 && cur is None ==> r->Ok_0 == es[0]
        }),
        forall|x: KeytabEntryV|
            #![trigger search_spec(es.push(x), None, cur, wrong)]
            search_spec(es.push(x), None, cur, wrong) == Ok::<KeytabEntryV, KtError>(
                if more_recent_spec(x, search_spec(es, None, cur, wrong)->Ok_0) {
                    x
                } else {
                    search_spec(es, None, cur, wrong)->Ok_0
                },
            ),
    decreases es.len(),
{
    reveal_with_fuel(search_spec, 3);
    if es.len() > 0 {
        let e = es[0];
        let rest = es.drop_first();
        let next = if cur is None || more_recent_spec(e, cur->0) { Some(e) } else { cur };
        law_newest_found(rest, next, wrong);
        let r = search_spec(rest, None, next, wrong)->Ok_0;
        assert(search_spec(es, None, cur, wrong) == search_spec(rest, None, next, wrong));
        if rest.contains(r) {
            let i = choose|i: int| 0 <= i < rest.len() && rest[i] == r;
            assert(es[i + 1] == r);
        } else {
            assert(es[0] == e);
        }
        assert forall|x: KeytabEntryV|
            #![trigger search_spec(es.push(x), None, cur, wrong)]
            search_spec(es.push(x), None, cur, wrong) == Ok::<KeytabEntryV, KtError>(
                if more_recent_spec(x, search_spec(es, None, cur, wrong)->Ok_0) {
                    x
                } else {
                    search_spec(es, None, cur, wrong)->Ok_0
                },
            ) by {
            assert(es.push(x).drop_first() =~= rest.push(x));
            assert(es.push(x)[0] == e);
            assert(search_spec(es.push(x), None, cur, wrong) == search_spec(rest.push(x), None, next, wrong));
        }
    } else {
        assert forall|x: KeytabEntryV|
            #![trigger search_spec(es.push(x), None, cur, wrong)]
            search_spec(es.push(x), None, cur, wrong) == Ok::<KeytabEntryV, KtError>(
                if more_recent_spec(x, search_spec(es, None, cur, wrong)->Ok_0) {
                    x
                } else {
                    search_spec(es, None, cur, wrong)->Ok_0
                },
            ) by {
            assert(es.push(x).drop_first() =~= es);
            assert(es.push(x)[0] == x);
        }
    }
}

/// Where no entry fits there is none; where some fit and none has the number
/// asked for, nor its last eight bits, nor 0, the number is missing.
pub proof fn law_not_found(es: Seq<KeytabEntryV>, p: PrincipalNameV, realm: Seq<char>, kvno: u32, etype: Option<i32>)
    ensures
        fitting(es, p, realm, etype).len() == 0 ==> get_entry_spec(es, p, realm, Some(kvno), etype) == Err::<KeytabEntryV, KtError>(
            KtError::NotFound,
        ) && get_entry_spec(es, p, realm, None, etype) == Err::<KeytabEntryV, KtError>(KtError::NotFound),
        fitting(es, p, realm, etype).len() > 0 && (forall|i: int|
            0 <= i < fitting(es, p, realm, etype).len() ==> {
                let k = (#[trigger] fitting(es, p, realm, etype)[i]).kvno;
                k != kvno && k != kvno % 256 && k != 0
            }) ==> get_entry_spec(es, p, realm, Some(kvno), etype) == Err::<KeytabEntryV, KtError>(KtError::KvnoNotFound),
{
    let fs = fitting(es, p, realm, etype);
    if fs.len() > 0 && (forall|i: int|
        0 <= i < fs.len() ==> {
            let k = (#[trigger] fs[i]).kvno;
            k != kvno && k != kvno % 256 && k != 0
        }) {
        lemma_missing(fs, kvno, false);
    }
}

proof fn lemma_missing(fs: Seq<KeytabEntryV>, kvno: u32, wrong: bool)
    requires
        wrong || fs.len() > 0,
        forall|i: int|
            0 <= i < fs.len() ==> {
                let k = (#[trigger] fs[i]).kvno;
                k != kvno && k != kvno % 256 && k != 0
            },
    ensures
        search_spec(fs, Some(kvno), None, wrong) == Err::<KeytabEntryV, KtError>(KtError::KvnoNotFound),
    decreases fs.len(),
{
    if fs.len() > 0 {
        let rest = fs.drop_first();
        assert(fs[0].kvno != kvno);
        assert forall|i: int| 0 <= i < rest.len() implies {
            let k = (#[trigger] rest[i]).kvno;
            k != kvno && k != kvno % 256 && k != 0
        } by {
            assert(rest[i] == fs[i + 1]);
        }
        lemma_missing(rest, kvno, true);
    }
}

/// The key that a server reads a ticket with is that of the entry for the
/// server, its realm and the key's number and enctype; an entry that is
/// missing only its number is told from one that is missing.
pub proof fn law_server_key(es: Seq<KeytabEntryV>, server: PrincipalNameV, realm: Seq<u8>, kvno: Option<i32>, etype: i32)
    ensures
        ({
            let k = if kvno is Some { Some(u32_of(kvno->0)) } else { None::<u32> };
            let found = get_entry_spec(es, server, utf8_lossy(realm), k, Some(etype));
            let r = ap_key_spec(Ok(es), server, realm, kvno, etype);
            &&& found is Ok ==> r == Ok::<EncryptionKeyV, ApError>(found->Ok_0.key)
            &&& found == Err::<KeytabEntryV, KtError>(KtError::KvnoNotFound) ==> r == Err::<EncryptionKeyV, ApError>(
                ApError::BadKeyver,
            )
            &&& found == Err::<KeytabEntryV, KtError>(KtError::NotFound) ==> r == Err::<EncryptionKeyV, ApError>(ApError::NoKey)
        }),
{
}

/// The octets of an entry, in their order: the number of its name's parts, the
/// realm and each part behind its length, the name's type, the time, the last
/// eight bits of the key's number, its type, the key behind its length, and
/// the whole number.
pub proof fn law_entry_octets(e: KeytabEntryV)
    requires
        e.principal.name_string.len() < 0x1_0000,
        encode_utf8(e.realm).len() < 0x1_0000,
        e.key.keyvalue.len() < 0x1_0000,
        0 <= e.key.keytype < 0x1_0000,
        e.principal.name_string.len() > 0 ==> e.principal.name_string[0].len() < 0x1_0000,
    ensures
        body_spec(e) == (be16(e.principal.name_string.len() as u16) + be16(encode_utf8(e.realm).len() as u16) + encode_utf8(
            e.realm,
        ) + comps_body(e.principal.name_string)) + (be32(u32_of(e.principal.name_type)) + be32(e.timestamp) + (seq![
            (e.kvno % 256) as u8,
        ] + be16(e.key.keytype as u16) + be16(e.key.keyvalue.len() as u16) + e.key.keyvalue + be32(e.kvno))),
        comps_body(Seq::empty()).len() == 0,
        e.principal.name_string.len() > 0 ==> comps_body(e.principal.name_string) == be16(
            e.principal.name_string[0].len() as u16,
        ) + e.principal.name_string[0] + comps_body(e.principal.name_string.drop_first()),
{
    let n = e.principal.name_string.len();
    let r = encode_utf8(e.realm).len();
    let k = e.key.keyvalue.len();
    assert(n % 0x1_0000 == n && r % 0x1_0000 == r && k % 0x1_0000 == k);
    assert(u32_of(e.key.keytype) % 0x1_0000 == e.key.keytype);
    assert(short(n) == be16(n as u16) && short(r) == be16(r as u16) && short(k) == be16(k as u16));
    assert(be16((u32_of(e.key.keytype) % 0x1_0000) as u16) == be16(e.key.keytype as u16));
    reveal(body_spec);
    assert(body_spec(e) == name_body(e) + (be32(u32_of(e.principal.name_type)) + be32(e.timestamp) + key_body(e)));
    assert(name_body(e) == be16(n as u16) + be16(r as u16) + encode_utf8(e.realm) + comps_body(e.principal.name_string));
    assert(key_body(e) == seq![(e.kvno % 256) as u8] + be16(e.key.keytype as u16) + be16(k as u16) + e.key.keyvalue + be32(e.kvno));
    if n > 0 {
        let q = e.principal.name_string[0].len();
        assert(q % 0x1_0000 == q);
    }
}

/// A keytab file starts with the octets 5 and 1, of the machine's order, or 5
/// and 2, with the most significant octet first; no other is read, one that is
/// not there is empty, and a new one is of the second kind.
pub proof fn law_file_versions(v: FileKeytabV, e: KeytabEntryV)
    ensures
        v.data is None ==> contents_spec(v) == Ok::<Seq<KeytabEntryV>, KtError>(Seq::empty()),
        v.data is Some && v.data->0.len() >= 2 && v.data->0[0] == 5 && v.data->0[1] == 1 ==> contents_spec(v) == walk_spec(
            v.data->0.skip(2),
            true,
            v.order,
        ) && file_added(v, e) == Err::<FileKeytabV, KtError>(KtError::Format),
        v.data is Some && v.data->0.len() >= 2 && v.data->0[0] == 5 && v.data->0[1] == 2 ==> contents_spec(v) == walk_spec(
            v.data->0.skip(2),
            false,
            ByteOrder::Big,
        ),
        v.data is Some && (v.data->0.len() < 2 || v.data->0[0] != 5 || (v.data->0[1] != 1 && v.data->0[1] != 2)) ==> contents_spec(v)
            == Err::<Seq<KeytabEntryV>, KtError>(KtError::Format),
        v.data is None && file_added(v, e) is Ok ==> file_added(v, e)->Ok_0.data->0.take(2) == seq![5u8, 2u8],
{
    if v.data is None && file_added(v, e) is Ok {
        assert(file_added(v, e)->Ok_0.data->0.take(2) =~= seq![5u8, 2u8]);
    }
}

/// An entry added goes into the first hole that it fits in, which keeps its
/// length and is zeroed behind the entry; what is before and behind stays.
pub proof fn law_hole_filled(s: Seq<u8>, body: Seq<u8>, n: int)
    requires
        s.len() >= 4 + n,
        0 < n <= 0x7fff_ffff,
    ensures
        size_of_record(ByteOrder::Big, s) == -n && n >= body.len() ==> {
            let r = put_spec(s, body);
            let t = r->Ok_0;
            &&& r is Ok
            &&& t.len() == s.len()
            &&& t.take(4) == be32(n as u32)
            &&& t.subrange(4, 4 + body.len() as int) == body
            &&& forall|i: int| 4 + body.len() <= i < 4 + n ==> #[trigger] t[i] == 0
            &&& t.skip(4 + n) == s.skip(4 + n)
        },
        (size_of_record(ByteOrder::Big, s) == n || (size_of_record(ByteOrder::Big, s) == -n && n < body.len())) && put_spec(s, body) is Ok
            ==> {
            let t = put_spec(s, body)->Ok_0;
            &&& t.take(4 + n) == s.take(4 + n)
            &&& put_spec(s.skip(4 + n), body) == Ok::<Seq<u8>, KtError>(t.skip(4 + n))
        },
{
    let r = put_spec(s, body);
    if r is Ok {
        let t = r->Ok_0;
        if size_of_record(ByteOrder::Big, s) == -n && n >= body.len() {
            let z = zeros((n - body.len()) as nat);
            assert(t == be32(n as u32) + body + z + s.skip(4 + n));
            assert(t.take(4) =~= be32(n as u32));
            assert(t.subrange(4, 4 + body.len() as int) =~= body);
            assert(t.skip(4 + n) =~= s.skip(4 + n));
        } else if size_of_record(ByteOrder::Big, s) == n || size_of_record(ByteOrder::Big, s) == -n {
            let x = put_spec(s.skip(4 + n), body)->Ok_0;
            assert(t == s.take(4 + n) + x);
            assert(t.take(4 + n) =~= s.take(4 + n));
            assert(t.skip(4 + n) =~= x);
        }
    }
}

} // verus!
