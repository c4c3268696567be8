//! Kerberos keytabs: FILE (v1/v2) and MEMORY formats.
use vstd::prelude::*;

use crate::asn1::Dup;
use crate::bytes::{to_u32, u32_of};
use crate::der::list_view;
use crate::protocol::ap::ApError;
use crate::text::{lossy, same_text, utf8_lossy};
use crate::types::{EncryptionKey, EncryptionKeyV, PrincipalName, PrincipalNameV};

pub mod file;
pub mod laws;
pub mod memory;

pub use file::{FileKeytab, FileKeytabV};
pub use memory::MemoryKeytab;

verus! {

/// A keytab entry.
#[derive(Debug, Clone)]
pub struct KeytabEntry {
    /// Service principal (name type preserved, ignored on compare).
    pub principal: PrincipalName,
    /// Principal realm.
    pub realm: String,
    /// Entry write timestamp (unix seconds).
    pub timestamp: u32,
    /// Key version number (full 32-bit value).
    pub kvno: u32,
    /// The key.
    pub key: EncryptionKey,
}

/// Model of [`KeytabEntry`].
pub struct KeytabEntryV {
    pub principal: PrincipalNameV,
    pub realm: Seq<char>,
    pub timestamp: u32,
    pub kvno: u32,
    pub key: EncryptionKeyV,
}

impl View for KeytabEntry {
    type V = KeytabEntryV;

    open spec fn view(&self) -> KeytabEntryV {
        KeytabEntryV {
            principal: self.principal@,
            realm: self.realm@,
            timestamp: self.timestamp,
            kvno: self.kvno,
            key: self.key@,
        }
    }
}

impl Dup for KeytabEntry {
    fn dup(&self) -> (r: Self) {
        KeytabEntry {
            principal: self.principal.dup(),
            realm: self.realm.clone(),
            timestamp: self.timestamp,
            kvno: self.kvno,
            key: self.key.dup(),
        }
    }
}

/// Keytab errors.
#[derive(Debug, Clone, Copy, PartialEq, Eq, Structural)]
pub enum KtError {
    /// No entry for the principal (KRB5_KT_NOTFOUND).
    NotFound,
    /// Principal found but not the requested kvno (KRB5_KT_KVNONOTFOUND).
    KvnoNotFound,
    /// Malformed data (KRB5_KT_FORMAT).
    Format,
    /// Iteration reached the end (KRB5_KT_END).
    End,
    /// I/O error.
    Io,
}

impl KtError {
    /// The message text of this error.
    pub open spec fn text(self) -> Seq<char> {
        match self {
            KtError::NotFound => "keytab entry not found"@,
            KtError::KvnoNotFound => "keytab kvno not found"@,
            KtError::Format => "keytab format error"@,
            KtError::End => "end of keytab"@,
            KtError::Io => "keytab I/O error"@,
        }
    }

    /// The message text of this error.
    pub fn message(&self) -> (r: String)
        ensures
            r@ == self.text(),
    {
        let s = match self {
            KtError::NotFound => "keytab entry not found",
            KtError::KvnoNotFound => "keytab kvno not found",
            KtError::Format => "keytab format error",
            KtError::End => "end of keytab",
            KtError::Io => "keytab I/O error",
        };
        s.to_string()
    }
}

/// What a keytab operation returned, by its views.
pub open spec fn kt_outcome<T: View>(r: Result<T, KtError>) -> Result<T::V, KtError> {
    match r {
        Ok(x) => Ok(x@),
        Err(e) => Err(e),
    }
}

/// What listing a keytab returned, by its views.
pub open spec fn kt_list(r: Result<Vec<KeytabEntry>, KtError>) -> Result<Seq<KeytabEntryV>, KtError> {
    match r {
        Ok(v) => Ok(list_view(v@)),
        Err(e) => Err(e),
    }
}

/// What an operation that changes a keytab does to it: on an error nothing.
pub open spec fn kt_change<V>(before: V, after: V, r: Result<(), KtError>, want: Result<V, KtError>) -> bool {
    match want {
        Ok(v) => r is Ok && after == v,
        Err(e) => r == Err::<(), KtError>(e) && after == before,
    }
}

/// A keytab.
pub trait Keytab: View {
    /// The entries of a keytab.
    spec fn listed(v: Self::V) -> Result<Seq<KeytabEntryV>, KtError>;

    /// The keytab after an entry is added.
    spec fn added(v: Self::V, entry: KeytabEntryV) -> Result<Self::V, KtError>;

    /// The keytab after an entry is deleted.
    spec fn removed(v: Self::V, entry: KeytabEntryV) -> Result<Self::V, KtError>;

    /// All entries in the keytab.
    fn entries(&self) -> (r: Result<Vec<KeytabEntry>, KtError>)
        ensures
            kt_list(r) == Self::listed(self@),
    ;

    /// Fetch an entry. `None` kvno selects the most recent per wraparound
    /// heuristics; an explicit kvno matches exactly, falling back to the low
    /// 8 bits for keytabs that hold no more.
    fn get_entry(&self, principal: &PrincipalName, realm: &str, kvno: Option<u32>, etype: Option<i32>) -> (r: Result<
        KeytabEntry,
        KtError,
    >)
        ensures
            kt_outcome(r) == find_spec(Self::listed(self@), principal@, realm@, kvno, etype),
    ;

    /// Add an entry (reusing deleted holes). FILE keytabs in the v1 (0x0501)
    /// format are read-only: only v2 records are written, so mutation of a v1
    /// file fails with `KtError::Format`.
    fn add_entry(&mut self, entry: &KeytabEntry) -> (r: Result<(), KtError>)
        ensures
            kt_change(old(self)@, final(self)@, r, Self::added(old(self)@, entry@)),
    ;

    /// Delete the entry matching principal+realm+kvno+etype. v1 FILE keytabs
    /// are read-only (`KtError::Format`), as for `add_entry`.
    fn remove_entry(&mut self, entry: &KeytabEntry) -> (r: Result<(), KtError>)
        ensures
            kt_change(old(self)@, final(self)@, r, Self::removed(old(self)@, entry@)),
    ;
}

/// Whether `k1` is more recent than `k2`: a small kvno written at the same
/// time or later than a large kvno probably wrapped.
pub open spec fn more_recent_spec(k1: KeytabEntryV, k2: KeytabEntryV) -> bool {
    if k2.timestamp <= k1.timestamp && k1.kvno < 128 && k2.kvno > 240 {
        true
    } else if k1.timestamp <= k2.timestamp && k1.kvno > 240 && k2.kvno < 128 {
        false
    } else {
        k1.kvno > k2.kvno
    }
}

/// Whether an entry is for the principal and, where one is asked for, of the
/// etype. Name types are not compared.
pub open spec fn entry_fits(e: KeytabEntryV, principal: PrincipalNameV, realm: Seq<char>, etype: Option<i32>) -> bool {
    &&& e.principal.name_string == principal.name_string
    &&& e.realm == realm
    &&& etype matches Some(t) ==> t == e.key.keytype
}

/// Whether `e` takes the place of the candidate `cur`.
pub open spec fn supersedes(e: KeytabEntryV, cur: Option<KeytabEntryV>) -> bool {
    match cur {
        None => true,
        Some(c) => more_recent_spec(e, c),
    }
}

/// The low eight bits of a kvno.
pub open spec fn low8(k: u32) -> u32 {
    k % 256
}

/// The search through entries that fit, with a candidate so far and whether
/// a wrong kvno was seen: an exact kvno ends it.
pub open spec fn search_spec(es: Seq<KeytabEntryV>, kvno: Option<u32>, cur: Option<KeytabEntryV>, wrong: bool) -> Result<
    KeytabEntryV,
    KtError,
>
    decreases es.len(),
{
    if es.len() == 0 {
        match cur {
            Some(e) => Ok(e),
            None => Err(if wrong { KtError::KvnoNotFound } else { KtError::NotFound }),
        }
    } else {
        let e = es[0];
        let rest = es.drop_first();
        if kvno is None || e.kvno == 0 {
            search_spec(rest, kvno, if supersedes(e, cur) { Some(e) } else { cur }, wrong)
        } else if e.kvno == kvno->0 {
            Ok(e)
        } else if e.kvno == low8(kvno->0) && cur is None {
            search_spec(rest, kvno, Some(e), wrong)
        } else {
            search_spec(rest, kvno, cur, true)
        }
    }
}

/// The entries that fit a request.
pub open spec fn fitting(es: Seq<KeytabEntryV>, principal: PrincipalNameV, realm: Seq<char>, etype: Option<i32>) -> Seq<KeytabEntryV> {
    es.filter(|e: KeytabEntryV| entry_fits(e, principal, realm, etype))
}

/// What fetching an entry returns.
pub open spec fn get_entry_spec(es: Seq<KeytabEntryV>, principal: PrincipalNameV, realm: Seq<char>, kvno: Option<u32>, etype: Option<i32>) -> Result<
    KeytabEntryV,
    KtError,
> {
    search_spec(fitting(es, principal, realm, etype), kvno, None, false)
}

/// What fetching an entry returns, of a keytab that may fail to list.
pub open spec fn find_spec(
    listed: Result<Seq<KeytabEntryV>, KtError>,
    principal: PrincipalNameV,
    realm: Seq<char>,
    kvno: Option<u32>,
    etype: Option<i32>,
) -> Result<KeytabEntryV, KtError> {
    match listed {
        Ok(es) => get_entry_spec(es, principal, realm, kvno, etype),
        Err(e) => Err(e),
    }
}

/// What fetching an entry finds fits the request.
pub proof fn law_found_entry_fits(es: Seq<KeytabEntryV>, principal: PrincipalNameV, realm: Seq<char>, kvno: Option<u32>, etype: Option<i32>)
    requires
        get_entry_spec(es, principal, realm, kvno, etype) is Ok,
    ensures
        ({
            let e = get_entry_spec(es, principal, realm, kvno, etype)->Ok_0;
            &&& es.contains(e)
            &&& entry_fits(e, principal, realm, etype)
            &&& kvno matches Some(k) ==> e.kvno == k || e.kvno == low8(k) || e.kvno == 0
        }),
{
    let p = |e: KeytabEntryV| entry_fits(e, principal, realm, etype);
    lemma_search_found(es.filter(p), kvno, None, false);
    lemma_filter_member(es, p, get_entry_spec(es, principal, realm, kvno, etype)->Ok_0);
}

proof fn lemma_search_found(es: Seq<KeytabEntryV>, kvno: Option<u32>, cur: Option<KeytabEntryV>, wrong: bool)
    requires
        search_spec(es, kvno, cur, wrong) is Ok,
    ensures
        ({
            let e = search_spec(es, kvno, cur, wrong)->Ok_0;
            (es.contains(e) && (kvno matches Some(k) ==> e.kvno == k || e.kvno == low8(k) || e.kvno == 0)) || cur
                == Some(e)
        }),
    decreases es.len(),
{
    if es.len() > 0 {
        let e = es[0];
        let rest = es.drop_first();
        let r = search_spec(es, kvno, cur, wrong)->Ok_0;
        if kvno is None || e.kvno == 0 {
            lemma_search_found(rest, kvno, if supersedes(e, cur) { Some(e) } else { cur }, wrong);
        } else if e.kvno == kvno->0 {
        } else if e.kvno == low8(kvno->0) && cur is None {
            lemma_search_found(rest, kvno, Some(e), wrong);
        } else {
            lemma_search_found(rest, kvno, cur, true);
        }
        assert(es[0] == e);
        if rest.contains(r) {
            let k = choose|k: int| 0 <= k < rest.len() && rest[k] == r;
            assert(es[k + 1] == r);
        }
    }
}

/// An exact key version wins: when an entry that fits has the kvno asked for,
/// the first such entry is fetched, whatever stands before it.
pub proof fn law_exact_kvno(es: Seq<KeytabEntryV>, principal: PrincipalNameV, realm: Seq<char>, kvno: u32, etype: Option<i32>, i: int)
    requires
        kvno != 0,
        0 <= i < fitting(es, principal, realm, etype).len(),
        fitting(es, principal, realm, etype)[i].kvno == kvno,
        forall|j: int| 0 <= j < i ==> (#[trigger] fitting(es, principal, realm, etype)[j]).kvno != kvno,
    ensures
        get_entry_spec(es, principal, realm, Some(kvno), etype) == Ok::<KeytabEntryV, KtError>(
            fitting(es, principal, realm, etype)[i],
        ),
{
    lemma_exact(fitting(es, principal, realm, etype), kvno, None, false, i);
}

proof fn lemma_exact(es: Seq<KeytabEntryV>, kvno: u32, cur: Option<KeytabEntryV>, wrong: bool, i: int)
    requires
        kvno != 0,
        0 <= i < es.len(),
        es[i].kvno == kvno,
        forall|j: int| 0 <= j < i ==> (#[trigger] es[j]).kvno != kvno,
    ensures
        search_spec(es, Some(kvno), cur, wrong) == Ok::<KeytabEntryV, KtError>(es[i]),
    decreases es.len(),
{
    if i > 0 {
        let e = es[0];
        let rest = es.drop_first();
        assert(rest[i - 1] == es[i]);
        assert forall|j: int| 0 <= j < i - 1 implies (#[trigger] rest[j]).kvno != kvno by {
            assert(rest[j] == es[j + 1]);
        }
        if e.kvno == 0 {
            lemma_exact(rest, kvno, if supersedes(e, cur) { Some(e) } else { cur }, wrong, i - 1);
        } else if e.kvno == low8(kvno) && cur is None {
            lemma_exact(rest, kvno, Some(e), wrong, i - 1);
        } else {
            lemma_exact(rest, kvno, cur, true, i - 1);
        }
    }
}

/// Whether an entry is the one that a deletion names.
pub open spec fn same_entry(e: KeytabEntryV, target: KeytabEntryV) -> bool {
    &&& e.principal.name_string == target.principal.name_string
    &&& e.realm == target.realm
    &&& e.kvno == target.kvno
    &&& e.key.keytype == target.key.keytype
}

pub(crate) fn is_same_entry(e: &KeytabEntry, target: &KeytabEntry) -> (r: bool)
    ensures
        r == same_entry(e@, target@),
{
    e.principal.same_components(&target.principal) && same_text(e.realm.as_str(), target.realm.as_str()) && e.kvno
        == target.kvno && e.key.keytype == target.key.keytype
}

pub(crate) fn more_recent(k1: &KeytabEntry, k2: &KeytabEntry) -> (r: bool)
    ensures
        r == more_recent_spec(k1@, k2@),
{
    if k2.timestamp <= k1.timestamp && k1.kvno < 128 && k2.kvno > 240 {
        return true;
    }
    if k1.timestamp <= k2.timestamp && k1.kvno > 240 && k2.kvno < 128 {
        return false;
    }
    k1.kvno > k2.kvno
}

fn fits(e: &KeytabEntry, principal: &PrincipalName, realm: &str, etype: Option<i32>) -> (r: bool)
    ensures
        r == entry_fits(e@, principal@, realm@, etype),
{
    e.principal.same_components(principal) && same_text(e.realm.as_str(), realm) && match etype {
        Some(t) => t == e.key.keytype,
        None => true,
    }
}

fn takes_over(e: &KeytabEntry, cur: &Option<KeytabEntry>) -> (r: bool)
    ensures
        r == supersedes(e@, crate::der::opt_view(*cur)),
{
    match cur {
        None => true,
        Some(c) => more_recent(e, c),
    }
}

/// The entry of a list that answers a request.
pub(crate) fn get_entry_in(
    entries: &[KeytabEntry],
    principal: &PrincipalName,
    realm: &str,
    kvno: Option<u32>,
    etype: Option<i32>,
) -> (r: Result<KeytabEntry, KtError>)
    ensures
        kt_outcome(r) == get_entry_spec(list_view(entries@), principal@, realm@, kvno, etype),
{
    let ghost es = list_view(entries@);
    let ghost p = |e: KeytabEntryV| entry_fits(e, principal@, realm@, etype);
    let mut cur: Option<KeytabEntry> = None;
    let mut wrong: bool = false;
    let mut i: usize = 0;
    assert(es.skip(0) =~= es);
    while i < entries.len()
        invariant
            i <= entries@.len(),
            es == list_view(entries@),
            p == (|e: KeytabEntryV| entry_fits(e, principal@, realm@, etype)),
            get_entry_spec(es, principal@, realm@, kvno, etype) == search_spec(
                es.skip(i as int).filter(p),
                kvno,
                crate::der::opt_view(cur),
                wrong,
            ),
        decreases entries@.len() - i,
    {
        let e = &entries[i];
        let ghost s = es.skip(i as int);
        proof {
            assert(s.drop_first() =~= es.skip(i + 1));
            assert(s[0] == e@);
            lemma_filter_first(s, p);
        }
        i = i + 1;
        if !fits(e, principal, realm, etype) {
            continue;
        }
        assert(s.filter(p).drop_first() =~= s.drop_first().filter(p));
        let k: u32 = match kvno {
            None => {
                if takes_over(e, &cur) {
                    cur = Some(e.dup());
                }
                continue;
            },
            Some(k) => k,
        };
        if e.kvno == 0 {
            if takes_over(e, &cur) {
                cur = Some(e.dup());
            }
        } else if e.kvno == k {
            return Ok(e.dup());
        } else if e.kvno == k % 256 && cur.is_none() {
            cur = Some(e.dup());
        } else {
            wrong = true;
        }
    }
    assert(es.skip(i as int) =~= Seq::empty());
    assert(es.skip(i as int).filter(p) =~= Seq::empty()) by {
        reveal(Seq::filter);
    }
    match cur {
        Some(e) => Ok(e),
        None => Err(if wrong { KtError::KvnoNotFound } else { KtError::NotFound }),
    }
}

/// Filtering takes the first item or leaves it out.
pub(crate) proof fn lemma_filter_first<A>(s: Seq<A>, p: spec_fn(A) -> bool)
    requires
        s.len() > 0,
    ensures
        s.filter(p) == (if p(s[0]) { seq![s[0]] + s.drop_first().filter(p) } else { s.drop_first().filter(p) }),
{
    let one = seq![s[0]];
    assert(one + s.drop_first() =~= s);
    Seq::filter_distributes_over_add(one, s.drop_first(), p);
    assert(one.filter(p) =~= (if p(s[0]) { one } else { Seq::empty() })) by {
        reveal_with_fuel(Seq::filter, 2);
        assert(one.drop_last() =~= Seq::empty());
    }
    assert(Seq::empty() + s.drop_first().filter(p) =~= s.drop_first().filter(p));
}

/// What a filter leaves was there before, and satisfies it.
pub(crate) proof fn lemma_filter_member<A>(s: Seq<A>, p: spec_fn(A) -> bool, x: A)
    requires
        s.filter(p).contains(x),
    ensures
        s.contains(x) && p(x),
    decreases s.len(),
{
    if s.len() == 0 {
        reveal(Seq::filter);
    } else {
        lemma_filter_first(s, p);
        if s.drop_first().filter(p).contains(x) {
            lemma_filter_member(s.drop_first(), p, x);
            let k = choose|k: int| 0 <= k < s.drop_first().len() && s.drop_first()[k] == x;
            assert(s[k + 1] == x);
        } else {
            let k = choose|k: int| 0 <= k < s.filter(p).len() && s.filter(p)[k] == x;
            if k > 0 {
                assert(s.drop_first().filter(p)[k - 1] == x);
            }
        }
    }
}

/// The AP error of a failed lookup.
pub open spec fn ap_error_of(e: KtError) -> ApError {
    match e {
        KtError::KvnoNotFound => ApError::BadKeyver,
        _ => ApError::NoKey,
    }
}

pub(crate) fn kt_to_ap(e: KtError) -> (r: ApError)
    ensures
        r == ap_error_of(e),
{
    match e {
        KtError::KvnoNotFound => ApError::BadKeyver,
        _ => ApError::NoKey,
    }
}

/// The key a keytab holds for a service.
pub open spec fn ap_key_spec(
    listed: Result<Seq<KeytabEntryV>, KtError>,
    server: PrincipalNameV,
    realm: Seq<u8>,
    kvno: Option<i32>,
    etype: i32,
) -> Result<EncryptionKeyV, ApError> {
    let k = match kvno {
        Some(n) => Some(u32_of(n)),
        None => None,
    };
    match find_spec(listed, server, utf8_lossy(realm), k, Some(etype)) {
        Ok(e) => Ok(e.key),
        Err(e) => Err(ap_error_of(e)),
    }
}

pub(crate) fn ap_key_for<T: Keytab>(kt: &T, server: &PrincipalName, realm: &[u8], kvno: Option<i32>, etype: i32) -> (r: Result<
    EncryptionKey,
    ApError,
>)
    ensures
        crate::protocol::ap::lookup_view(r) == ap_key_spec(T::listed(kt@), server@, realm@, kvno, etype),
{
    let name = lossy(realm);
    let k = match kvno {
        Some(n) => Some(to_u32(n)),
        None => None,
    };
    match kt.get_entry(server, name.as_str(), k, Some(etype)) {
        Ok(e) => Ok(e.key),
        Err(e) => Err(kt_to_ap(e)),
    }
}

} // verus!
