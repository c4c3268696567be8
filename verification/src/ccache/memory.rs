//! MEMORY credential cache: a list of credentials.
use vstd::prelude::*;

use crate::asn1::{dup_list, Dup};
use crate::ccache::config::{config_count, config_cred_spec, config_parts, config_principal_spec, config_request_spec, find_config, law_config_set, nameable, plain_config, without_first, Whom};
use crate::ccache::file::lemma_none_removed;
use crate::ccache::retrieve::match_spec;
use crate::ccache::{creds_match_request, CcCredential, CcCredentialV, CcError, Ccache, MatchCred, MatchCredV};
use crate::der::{list_view, opt_view};
use crate::text::owned;
use crate::types::{PrincipalName, PrincipalNameV};

verus! {

/// An in-memory credential cache.
#[derive(Debug)]
pub struct MemoryCcache {
    principal: Option<(PrincipalName, String)>,
    creds: Vec<CcCredential>,
}

/// Model of [`MemoryCcache`].
pub struct MemoryCcacheV {
    pub principal: Option<(PrincipalNameV, Seq<char>)>,
    pub creds: Seq<CcCredentialV>,
}

impl View for MemoryCcache {
    type V = MemoryCcacheV;

    closed spec fn view(&self) -> MemoryCcacheV {
        MemoryCcacheV { principal: opt_view(self.principal), creds: list_view(self.creds@) }
    }
}

/// Whether some credential fits a request.
pub open spec fn has_match(cs: Seq<CcCredentialV>, flags: u32, m: MatchCredV) -> bool {
    crate::ccache::retrieve::any_match(cs, flags, m)
}

impl MemoryCcache {
    /// An uninitialized cache.
    pub fn new() -> (r: Self)
        ensures
            r@ == (MemoryCcacheV { principal: None, creds: Seq::empty() }),
    {
        let r = MemoryCcache { principal: None, creds: Vec::new() };
        assert(list_view(r.creds@) =~= Seq::empty());
        r
    }
}

impl Default for MemoryCcache {
    fn default() -> (r: Self)
        ensures
            r@ == (MemoryCcacheV { principal: None, creds: Seq::empty() }),
    {
        MemoryCcache::new()
    }
}

fn position(creds: &[CcCredential], flags: u32, m: &MatchCred) -> (r: Option<usize>)
    ensures
        match r {
            Some(i) => i < creds@.len() && has_match(list_view(creds@), flags, m@) && without_first(
                list_view(creds@),
                flags,
                m@,
            ) == list_view(creds@).remove(i as int),
            None => !has_match(list_view(creds@), flags, m@) && without_first(list_view(creds@), flags, m@) == list_view(
                creds@,
            ),
        },
{
    let ghost cs = list_view(creds@);
    let mut i: usize = 0;
    assert(cs.skip(0) =~= cs);
    assert(cs.take(0) + without_first(cs, flags, m@) =~= without_first(cs, flags, m@));
    while i < creds.len()
        invariant
            i <= creds@.len(),
            cs == list_view(creds@),
            forall|j: int| 0 <= j < i ==> !match_spec(flags, m@, #[trigger] cs[j]),
            cs.take(i as int) + without_first(cs.skip(i as int), flags, m@) == without_first(cs, flags, m@),
        decreases creds@.len() - i,
    {
        let ghost rest = cs.skip(i as int);
        assert(rest.drop_first() =~= cs.skip(i + 1));
        assert(rest[0] == creds@[i as int]@);
        if creds_match_request(flags, m, &creds[i]) {
            assert(match_spec(flags, m@, cs[i as int]));
            assert(cs.take(i as int) + cs.skip(i + 1) =~= cs.remove(i as int));
            return Some(i);
        }
        assert(cs.take(i as int) + (seq![rest[0]] + without_first(rest.drop_first(), flags, m@)) =~= cs.take(i + 1)
            + without_first(cs.skip(i + 1), flags, m@));
        i = i + 1;
    }
    assert(cs.skip(i as int).len() == 0);
    assert(cs.take(i as int) + cs.skip(i as int) =~= cs);
    None
}

impl Ccache for MemoryCcache {
    open spec fn seen(v: MemoryCcacheV) -> MemoryCcacheV {
        v
    }

    open spec fn initialized(v: MemoryCcacheV, client: PrincipalNameV, realm: Seq<char>) -> MemoryCcacheV {
        MemoryCcacheV { principal: Some((client, realm)), creds: Seq::empty() }
    }

    open spec fn owner(v: MemoryCcacheV) -> Result<(PrincipalNameV, Seq<char>), CcError> {
        match v.principal {
            Some(p) => Ok(p),
            None => Err(CcError::NotFound),
        }
    }

    open spec fn listed(v: MemoryCcacheV) -> Result<Seq<CcCredentialV>, CcError> {
        Ok(v.creds)
    }

    open spec fn stored(v: MemoryCcacheV, cred: CcCredentialV) -> (MemoryCcacheV, Result<(), CcError>) {
        (MemoryCcacheV { creds: v.creds.push(cred), ..v }, Ok(()))
    }

    open spec fn removed(v: MemoryCcacheV, flags: u32, m: MatchCredV) -> (MemoryCcacheV, Result<(), CcError>) {
        if has_match(v.creds, flags, m) {
            (MemoryCcacheV { creds: without_first(v.creds, flags, m), ..v }, Ok(()))
        } else {
            (v, Err(CcError::NotFound))
        }
    }

    fn initialize(&mut self, client: &PrincipalName, realm: &str) -> (r: Result<(), CcError>) {
        self.principal = Some((client.dup(), owned(realm)));
        self.creds = Vec::new();
        assert(list_view(self.creds@) =~= Seq::empty());
        Ok(())
    }

    fn principal(&mut self) -> (r: Result<(PrincipalName, String), CcError>) {
        match &self.principal {
            Some((p, realm)) => Ok((p.dup(), realm.clone())),
            None => Err(CcError::NotFound),
        }
    }

    fn store(&mut self, cred: &CcCredential) -> (r: Result<(), CcError>) {
        self.creds.push(cred.dup());
        assert(self@.creds =~= old(self)@.creds.push(cred@));
        Ok(())
    }

    fn creds(&mut self) -> (r: Result<Vec<CcCredential>, CcError>) {
        Ok(dup_list(&self.creds))
    }

    fn remove_cred(&mut self, flags: u32, m: &MatchCred) -> (r: Result<(), CcError>) {
        match position(&self.creds, flags, m) {
            Some(i) => {
                self.creds.remove(i);
                assert(self@.creds =~= old(self)@.creds.remove(i as int));
                Ok(())
            },
            None => Err(CcError::NotFound),
        }
    }
}

/// Setting a config value in a cache that held at most one entry for the key
/// makes it the value found, and leaves the values of other keys and
/// principals as they are.
pub proof fn law_memory_config(
    v: MemoryCcacheV,
    principal: Whom,
    key: Seq<char>,
    data: Seq<u8>,
    other: Whom,
    name: Seq<char>,
)
    requires
        v.principal is Some,
        nameable(principal, key),
        nameable(other, name),
        plain_config(v.creds),
        config_count(v.creds, principal, key) <= 1,
    ensures
        ({
            let gone = MemoryCcache::removed(v, 0, config_request_spec(config_principal_spec(principal, key))).0;
            let (p, realm) = v.principal->0;
            let after = MemoryCcache::stored(gone, config_cred_spec(p, realm, principal, key, data)).0;
            &&& MemoryCcache::owner(gone) == Ok::<(PrincipalNameV, Seq<char>), CcError>((p, realm))
            &&& find_config(gone.creds, principal, key) is None
            &&& find_config(after.creds, principal, key) == Some(data)
            &&& config_parts(principal, key) != config_parts(other, name) ==> find_config(after.creds, other, name)
                == find_config(v.creds, other, name)
        }),
{
    let m = config_request_spec(config_principal_spec(principal, key));
    let (p, realm) = v.principal->0;
    law_config_set(v.creds, p, realm, principal, key, data, other, name);
    if !has_match(v.creds, 0, m) {
        lemma_none_removed(v.creds, 0, m);
    }
}

} // verus!
