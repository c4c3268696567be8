//! MEMORY keytab: an entry list.
use vstd::prelude::*;

use crate::asn1::{dup_list, Dup};
use crate::der::list_view;
use crate::keytab::{ap_key_for, ap_key_spec, get_entry_in, is_same_entry, same_entry, Keytab, KeytabEntry, KeytabEntryV, KtError};
use crate::protocol::ap::{ApError, KeySource};
use crate::types::{EncryptionKey, EncryptionKeyV, PrincipalName, PrincipalNameV};

verus! {

/// An in-memory keytab.
#[derive(Debug)]
pub struct MemoryKeytab {
    entries: Vec<KeytabEntry>,
}

impl View for MemoryKeytab {
    type V = Seq<KeytabEntryV>;

    closed spec fn view(&self) -> Seq<KeytabEntryV> {
        list_view(self.entries@)
    }
}

impl Default for MemoryKeytab {
    fn default() -> (r: Self)
        ensures
            r@ == Seq::<KeytabEntryV>::empty(),
    {
        MemoryKeytab::new()
    }
}

/// Index of the first entry that a deletion names.
pub open spec fn position_of(es: Seq<KeytabEntryV>, target: KeytabEntryV) -> Option<int>
    decreases es.len(),
{
    if es.len() == 0 {
        None
    } else if same_entry(es[0], target) {
        Some(0)
    } else {
        match position_of(es.drop_first(), target) {
            Some(i) => Some(i + 1),
            None => None,
        }
    }
}

/// A list after a deletion.
pub open spec fn list_removed(es: Seq<KeytabEntryV>, target: KeytabEntryV) -> Result<Seq<KeytabEntryV>, KtError> {
    match position_of(es, target) {
        Some(i) => Ok(es.remove(i)),
        None => Err(KtError::NotFound),
    }
}

/// Deleting an entry that was just added to a keytab without one of its kind
/// gives the keytab back.
pub proof fn law_add_remove(es: Seq<KeytabEntryV>, e: KeytabEntryV)
    requires
        position_of(es, e) is None,
    ensures
        list_removed(es.push(e), e) == Ok::<Seq<KeytabEntryV>, KtError>(es),
{
    lemma_position_last(es, e);
    assert(es.push(e).remove(es.len() as int) =~= es);
}

proof fn lemma_position_last(es: Seq<KeytabEntryV>, e: KeytabEntryV)
    requires
        position_of(es, e) is None,
    ensures
        position_of(es.push(e), e) == Some(es.len() as int),
    decreases es.len(),
{
    if es.len() > 0 {
        assert(es.push(e).drop_first() =~= es.drop_first().push(e));
        lemma_position_last(es.drop_first(), e);
    }
}

impl MemoryKeytab {
    /// An empty keytab.
    pub fn new() -> (r: Self)
        ensures
            r@ == Seq::<KeytabEntryV>::empty(),
    {
        let entries: Vec<KeytabEntry> = Vec::new();
        assert(list_view(entries@) =~= Seq::empty());
        MemoryKeytab { entries }
    }

    /// A keytab pre-populated with `entries`.
    pub fn from_entries(entries: Vec<KeytabEntry>) -> (r: Self)
        ensures
            r@ == list_view(entries@),
    {
        MemoryKeytab { entries }
    }

    fn position(&self, target: &KeytabEntry) -> (r: Option<usize>)
        ensures
            match r {
                Some(i) => position_of(self@, target@) == Some(i as int) && i < self.entries@.len(),
                None => position_of(self@, target@) is None,
            },
    {
        let ghost all = self@;
        let mut i: usize = 0;
        assert(all.skip(0) =~= all);
        while i < self.entries.len()
            invariant
                i <= self.entries@.len(),
                all == list_view(self.entries@),
                match position_of(all.skip(i as int), target@) {
                    Some(k) => position_of(all, target@) == Some(k + i),
                    None => position_of(all, target@) is None,
                },
            decreases self.entries@.len() - i,
        {
            assert(all.skip(i as int).drop_first() =~= all.skip(i + 1));
            assert(all.skip(i as int)[0] == self.entries@[i as int]@);
            if is_same_entry(&self.entries[i], target) {
                return Some(i);
            }
            i = i + 1;
        }
        assert(all.skip(i as int).len() == 0);
        None
    }
}

impl Keytab for MemoryKeytab {
    open spec fn listed(v: Seq<KeytabEntryV>) -> Result<Seq<KeytabEntryV>, KtError> {
        Ok(v)
    }

    open spec fn added(v: Seq<KeytabEntryV>, entry: KeytabEntryV) -> Result<Seq<KeytabEntryV>, KtError> {
        Ok(v.push(entry))
    }

    open spec fn removed(v: Seq<KeytabEntryV>, entry: KeytabEntryV) -> Result<Seq<KeytabEntryV>, KtError> {
        list_removed(v, entry)
    }

    fn entries(&self) -> (r: Result<Vec<KeytabEntry>, KtError>) {
        Ok(dup_list(&self.entries))
    }

    fn get_entry(&self, principal: &PrincipalName, realm: &str, kvno: Option<u32>, etype: Option<i32>) -> (r: Result<
        KeytabEntry,
        KtError,
    >) {
        get_entry_in(&self.entries, principal, realm, kvno, etype)
    }

    fn add_entry(&mut self, entry: &KeytabEntry) -> (r: Result<(), KtError>) {
        self.entries.push(entry.dup());
        assert(list_view(self.entries@) =~= old(self)@.push(entry@));
        Ok(())
    }

    fn remove_entry(&mut self, entry: &KeytabEntry) -> (r: Result<(), KtError>) {
        match self.position(entry) {
            Some(i) => {
                let _gone = self.entries.remove(i);
                assert(list_view(self.entries@) =~= old(self)@.remove(i as int));
                Ok(())
            },
            None => Err(KtError::NotFound),
        }
    }
}

impl KeySource for MemoryKeytab {
    open spec fn lookup(&self, server: PrincipalNameV, realm: Seq<u8>, kvno: Option<i32>, etype: i32) -> Result<
        EncryptionKeyV,
        ApError,
    > {
        ap_key_spec(Ok(self@), server, realm, kvno, etype)
    }

    fn get_key(&self, server: &PrincipalName, realm: &[u8], kvno: Option<i32>, etype: i32) -> (r: Result<
        EncryptionKey,
        ApError,
    >) {
        ap_key_for(self, server, realm, kvno, etype)
    }
}

} // verus!
