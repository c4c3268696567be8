//! Credential retrieval matching.
use vstd::prelude::*;

use crate::asn1::Dup;
use crate::bytes::same;
use crate::ccache::{cc_outcome, or_empty, CcCredential, CcCredentialV, CcError, MatchCred, MatchCredV, MatchFlags};
use crate::der::{list_view, opt_view};
use crate::text::same_text;
use crate::types::names::has_flags;
use crate::types::{AuthorizationDataElement, PrincipalName, PrincipalNameV};

verus! {

/// Whether a principal and its realm are those asked for; name types are not
/// compared.
pub open spec fn princ_eq_spec(p: (PrincipalNameV, Seq<char>), name: PrincipalNameV, realm: Seq<char>) -> bool {
    p.1 == realm && p.0.name_string == name.name_string
}

/// Whether the client and the server are those asked for.
pub open spec fn princs_match(flags: u32, m: MatchCredV, c: CcCredentialV) -> bool {
    &&& m.client matches Some(p) ==> princ_eq_spec(p, c.client, c.crealm)
    &&& m.server matches Some(p) ==> (if has_flags(flags, MatchFlags::SRV_NAMEONLY) {
        p.0.name_string == c.server.name_string
    } else {
        princ_eq_spec(p, c.server, c.srealm)
    })
}

/// Whether the times are those asked for: all four of them, or an expiration
/// and a renew-till no later than asked for.
pub open spec fn times_match(flags: u32, m: MatchCredV, c: CcCredentialV) -> bool {
    &&& has_flags(flags, MatchFlags::TIMES_EXACT) ==> m.authtime == c.authtime && m.starttime == c.starttime && m.endtime
        == c.endtime && m.renew_till == c.renew_till
    &&& has_flags(flags, MatchFlags::TIMES) ==> (m.renew_till == 0 || c.renew_till <= m.renew_till) && (m.endtime == 0
        || c.endtime <= m.endtime)
}

/// Whether a credential fits a request. User-to-user credentials fit only
/// where they are asked for.
pub open spec fn match_spec(flags: u32, m: MatchCredV, c: CcCredentialV) -> bool {
    &&& princs_match(flags, m, c)
    &&& c.is_skey == (has_flags(flags, MatchFlags::IS_SKEY) && m.is_skey)
    &&& has_flags(flags, MatchFlags::FLAGS_EXACT) ==> m.ticket_flags == c.ticket_flags
    &&& has_flags(flags, MatchFlags::FLAGS) ==> has_flags(c.ticket_flags, m.ticket_flags)
    &&& times_match(flags, m, c)
    &&& has_flags(flags, MatchFlags::AUTHDATA) ==> or_empty(m.authdata) == c.authdata
    &&& has_flags(flags, MatchFlags::SECOND_TKT) ==> or_empty(m.second_ticket) == c.second_ticket
    &&& has_flags(flags, MatchFlags::KTYPE) ==> m.etype == c.keyblock.keytype
}

/// Index of the first `t` in `ktypes`.
pub open spec fn rank(ktypes: Seq<i32>, t: i32) -> Option<int>
    decreases ktypes.len(),
{
    if ktypes.len() == 0 {
        None
    } else if ktypes[0] == t {
        Some(0)
    } else {
        match rank(ktypes.drop_first(), t) {
            Some(i) => Some(i + 1),
            None => None,
        }
    }
}

/// The first credential that fits.
pub open spec fn first_match(cs: Seq<CcCredentialV>, flags: u32, m: MatchCredV) -> Result<CcCredentialV, CcError>
    decreases cs.len(),
{
    if cs.len() == 0 {
        Err(CcError::NotFound)
    } else if match_spec(flags, m, cs[0]) {
        Ok(cs[0])
    } else {
        first_match(cs.drop_first(), flags, m)
    }
}

/// Whether index `i` holds a credential that fits and whose enctype is
/// listed.
pub open spec fn listed_match(cs: Seq<CcCredentialV>, flags: u32, m: MatchCredV, ktypes: Seq<i32>, i: int) -> bool {
    0 <= i < cs.len() && match_spec(flags, m, cs[i]) && rank(ktypes, cs[i].keyblock.keytype) is Some
}

/// Whether index `i` is the one to choose: no credential that fits has an
/// enctype listed earlier, and none of those before it one listed as early.
pub open spec fn best_match(cs: Seq<CcCredentialV>, flags: u32, m: MatchCredV, ktypes: Seq<i32>, i: int) -> bool {
    &&& listed_match(cs, flags, m, ktypes, i)
    &&& forall|j: int| #[trigger]
        listed_match(cs, flags, m, ktypes, j) ==> rank(ktypes, cs[i].keyblock.keytype)->0 < rank(
            ktypes,
            cs[j].keyblock.keytype,
        )->0 || (rank(ktypes, cs[i].keyblock.keytype) == rank(ktypes, cs[j].keyblock.keytype) && i <= j)
}

/// Whether there is an index to choose.
pub open spec fn has_best(cs: Seq<CcCredentialV>, flags: u32, m: MatchCredV, ktypes: Seq<i32>) -> bool {
    exists|i: int| best_match(cs, flags, m, ktypes, i)
}

/// The index to choose.
pub open spec fn best_index(cs: Seq<CcCredentialV>, flags: u32, m: MatchCredV, ktypes: Seq<i32>) -> int {
    choose|i: int| best_match(cs, flags, m, ktypes, i)
}

/// Whether some credential fits.
pub open spec fn any_match(cs: Seq<CcCredentialV>, flags: u32, m: MatchCredV) -> bool {
    exists|j: int| 0 <= j < cs.len() && match_spec(flags, m, #[trigger] cs[j])
}

/// The credential that a search finds: the first that fits, or where
/// enctypes are listed the best one.
pub open spec fn retrieve_spec(cs: Seq<CcCredentialV>, flags: u32, m: MatchCredV, ktypes: Option<Seq<i32>>) -> Result<
    CcCredentialV,
    CcError,
> {
    match ktypes {
        None => first_match(cs, flags, m),
        Some(ks) => if has_best(cs, flags, m, ks) {
            Ok(cs[best_index(cs, flags, m, ks)])
        } else if any_match(cs, flags, m) {
            Err(CcError::NotKtype)
        } else {
            Err(CcError::NotFound)
        },
    }
}

/// At most one credential is the best.
proof fn lemma_best_unique(cs: Seq<CcCredentialV>, flags: u32, m: MatchCredV, ktypes: Seq<i32>, i: int)
    requires
        best_match(cs, flags, m, ktypes, i),
    ensures
        i == best_index(cs, flags, m, ktypes),
{
    let k = best_index(cs, flags, m, ktypes);
    assert(best_match(cs, flags, m, ktypes, k));
    assert(listed_match(cs, flags, m, ktypes, i));
    assert(listed_match(cs, flags, m, ktypes, k));
}

/// A search finds exactly when there is something to find: where some
/// credential fits and, with listed enctypes, has one of them; and what it
/// finds fits the request.
pub proof fn law_retrieved_fits(cs: Seq<CcCredentialV>, flags: u32, m: MatchCredV, ktypes: Option<Seq<i32>>)
    ensures
        match retrieve_spec(cs, flags, m, ktypes) {
            Ok(c) => cs.contains(c) && match_spec(flags, m, c) && (ktypes matches Some(ks) ==> ks.contains(
                c.keyblock.keytype,
            )),
            Err(e) => forall|i: int|
                0 <= i < cs.len() && match_spec(flags, m, #[trigger] cs[i]) ==> e == CcError::NotKtype && (
                ktypes matches Some(ks) && !ks.contains(cs[i].keyblock.keytype)),
        },
{
    match ktypes {
        None => {
            lemma_first_match(cs, flags, m);
        },
        Some(ks) => {
            if exists|i: int| best_match(cs, flags, m, ks, i) {
                let i = best_index(cs, flags, m, ks);
                lemma_rank(ks, cs[i].keyblock.keytype);
            } else {
                assert forall|i: int|
                    0 <= i < cs.len() && match_spec(flags, m, #[trigger] cs[i]) implies !ks.contains(
                    cs[i].keyblock.keytype,
                ) by {
                    lemma_rank(ks, cs[i].keyblock.keytype);
                    if listed_match(cs, flags, m, ks, i) {
                        lemma_best_exists(cs, flags, m, ks, i);
                    }
                }
            }
        },
    }
}

proof fn lemma_first_match(cs: Seq<CcCredentialV>, flags: u32, m: MatchCredV)
    ensures
        match first_match(cs, flags, m) {
            Ok(c) => cs.contains(c) && match_spec(flags, m, c),
            Err(_) => forall|i: int| 0 <= i < cs.len() ==> !match_spec(flags, m, #[trigger] cs[i]),
        },
    decreases cs.len(),
{
    if cs.len() > 0 && !match_spec(flags, m, cs[0]) {
        let rest = cs.drop_first();
        lemma_first_match(rest, flags, m);
        match first_match(rest, flags, m) {
            Ok(c) => {
                let j = choose|j: int| 0 <= j < rest.len() && rest[j] == c;
                assert(cs[j + 1] == c);
            },
            Err(_) => {
                assert forall|i: int| 0 <= i < cs.len() implies !match_spec(flags, m, #[trigger] cs[i]) by {
                    if i > 0 {
                        assert(rest[i - 1] == cs[i]);
                    }
                }
            },
        }
    }
}

proof fn lemma_rank(ks: Seq<i32>, t: i32)
    ensures
        rank(ks, t) is Some == ks.contains(t),
        rank(ks, t) matches Some(i) ==> 0 <= i < ks.len() && ks[i] == t,
    decreases ks.len(),
{
    if ks.len() > 0 {
        let rest = ks.drop_first();
        lemma_rank(rest, t);
        if ks[0] != t && ks.contains(t) {
            let j = choose|j: int| 0 <= j < ks.len() && ks[j] == t;
            assert(rest[j - 1] == t);
        }
    }
}

/// Where a credential fits with a listed enctype, one of them is the best.
proof fn lemma_best_exists(cs: Seq<CcCredentialV>, flags: u32, m: MatchCredV, ks: Seq<i32>, i: int)
    requires
        listed_match(cs, flags, m, ks, i),
    ensures
        exists|k: int| best_match(cs, flags, m, ks, k),
    decreases rank(ks, cs[i].keyblock.keytype)->0, i,
{
    lemma_rank(ks, cs[i].keyblock.keytype);
    if !best_match(cs, flags, m, ks, i) {
        let j = choose|j: int| #[trigger]
            listed_match(cs, flags, m, ks, j) && !(rank(ks, cs[i].keyblock.keytype)->0 < rank(
                ks,
                cs[j].keyblock.keytype,
            )->0 || (rank(ks, cs[i].keyblock.keytype) == rank(ks, cs[j].keyblock.keytype) && i <= j));
        lemma_rank(ks, cs[j].keyblock.keytype);
        lemma_best_exists(cs, flags, m, ks, j);
    }
}

fn princ_eq(p: &(PrincipalName, String), name: &PrincipalName, realm: &str) -> (r: bool)
    ensures
        r == princ_eq_spec(p@, name@, realm@),
{
    same_text(&p.1, realm) && p.0.same_components(name)
}

fn same_authdata(a: &[AuthorizationDataElement], b: &[AuthorizationDataElement]) -> (r: bool)
    ensures
        r == (list_view(a@) == list_view(b@)),
{
    if a.len() != b.len() {
        assert(list_view(a@).len() != list_view(b@).len());
        return false;
    }
    let mut i: usize = 0;
    while i < a.len()
        invariant
            a@.len() == b@.len(),
            i <= a@.len(),
            forall|j: int| 0 <= j < i ==> a@[j]@ == b@[j]@,
        decreases a@.len() - i,
    {
        if a[i].ad_type != b[i].ad_type || !same(&a[i].ad_data, &b[i].ad_data) {
            assert(list_view(a@)[i as int] != list_view(b@)[i as int]);
            return false;
        }
        i = i + 1;
    }
    assert(list_view(a@) =~= list_view(b@));
    true
}

/// Whether a credential fits a request.
pub fn creds_match_request(flags: u32, m: &MatchCred, c: &CcCredential) -> (r: bool)
    ensures
        r == match_spec(flags, m@, c@),
{
    match &m.client {
        Some(client) => {
            if !princ_eq(client, &c.client, &c.crealm) {
                return false;
            }
        },
        None => {},
    }
    match &m.server {
        Some(server) => {
            let ok = if flags & MatchFlags::SRV_NAMEONLY == MatchFlags::SRV_NAMEONLY {
                server.0.same_components(&c.server)
            } else {
                princ_eq(server, &c.server, &c.srealm)
            };
            if !ok {
                return false;
            }
        },
        None => {},
    }

    // Only match user-to-user creds when explicitly asked.
    let want_skey = flags & MatchFlags::IS_SKEY == MatchFlags::IS_SKEY && m.is_skey;
    if c.is_skey != want_skey {
        return false;
    }

    if flags & MatchFlags::FLAGS_EXACT == MatchFlags::FLAGS_EXACT && m.ticket_flags != c.ticket_flags {
        return false;
    }
    if flags & MatchFlags::FLAGS == MatchFlags::FLAGS && (c.ticket_flags & m.ticket_flags) != m.ticket_flags {
        return false;
    }

    if flags & MatchFlags::TIMES_EXACT == MatchFlags::TIMES_EXACT && (m.authtime != c.authtime || m.starttime
        != c.starttime || m.endtime != c.endtime || m.renew_till != c.renew_till) {
        return false;
    }
    // The stored expiration must be no later than requested.
    if flags & MatchFlags::TIMES == MatchFlags::TIMES && ((m.renew_till != 0 && c.renew_till > m.renew_till) || (m.endtime
        != 0 && c.endtime > m.endtime)) {
        return false;
    }

    if flags & MatchFlags::AUTHDATA == MatchFlags::AUTHDATA {
        let eq = match &m.authdata {
            Some(want) => same_authdata(want, &c.authdata),
            None => c.authdata.len() == 0,
        };
        assert(list_view(c.authdata@).len() == 0 ==> list_view(c.authdata@) =~= Seq::empty());
        if !eq {
            return false;
        }
    }

    if flags & MatchFlags::SECOND_TKT == MatchFlags::SECOND_TKT {
        let eq = match &m.second_ticket {
            Some(want) => same(want, &c.second_ticket),
            None => c.second_ticket.len() == 0,
        };
        assert(c.second_ticket@.len() == 0 ==> c.second_ticket@ =~= Seq::empty());
        if !eq {
            return false;
        }
    }

    if flags & MatchFlags::KTYPE == MatchFlags::KTYPE && m.etype != c.keyblock.keytype {
        return false;
    }

    true
}

fn find_rank(ktypes: &[i32], t: i32) -> (r: Option<usize>)
    ensures
        match r {
            Some(i) => rank(ktypes@, t) == Some(i as int),
            None => rank(ktypes@, t) is None,
        },
{
    let mut i: usize = 0;
    assert(ktypes@.skip(0) =~= ktypes@);
    while i < ktypes.len()
        invariant
            i <= ktypes@.len(),
            match rank(ktypes@.skip(i as int), t) {
                Some(k) => rank(ktypes@, t) == Some(k + i),
                None => rank(ktypes@, t) is None,
            },
        decreases ktypes@.len() - i,
    {
        assert(ktypes@.skip(i as int).drop_first() =~= ktypes@.skip(i + 1));
        assert(ktypes@.skip(i as int)[0] == ktypes@[i as int]);
        if ktypes[i] == t {
            return Some(i);
        }
        i = i + 1;
    }
    assert(ktypes@.skip(i as int).len() == 0);
    None
}

fn first_in(creds: &[CcCredential], flags: u32, m: &MatchCred) -> (r: Result<CcCredential, CcError>)
    ensures
        cc_outcome(r) == first_match(list_view(creds@), flags, m@),
{
    let ghost cs = list_view(creds@);
    let mut i: usize = 0;
    assert(cs.skip(0) =~= cs);
    while i < creds.len()
        invariant
            i <= creds@.len(),
            cs == list_view(creds@),
            first_match(cs.skip(i as int), flags, m@) == first_match(cs, flags, m@),
        decreases creds@.len() - i,
    {
        assert(cs.skip(i as int).drop_first() =~= cs.skip(i + 1));
        assert(cs.skip(i as int)[0] == creds@[i as int]@);
        if creds_match_request(flags, m, &creds[i]) {
            return Ok(creds[i].dup());
        }
        i = i + 1;
    }
    assert(cs.skip(i as int).len() == 0);
    Err(CcError::NotFound)
}

/// The first match, or with `ktypes` the matching entry whose enctype
/// appears earliest in the list. A match with no listed enctype yields
/// NotKtype.
pub fn retrieve_in(creds: &[CcCredential], flags: u32, m: &MatchCred, ktypes: Option<&[i32]>) -> (r: Result<
    CcCredential,
    CcError,
>)
    ensures
        cc_outcome(r) == retrieve_spec(list_view(creds@), flags, m@, opt_view(ktypes)),
{
    let ktypes = match ktypes {
        Some(k) => k,
        None => return first_in(creds, flags, m),
    };
    let ghost cs = list_view(creds@);
    let ghost ks = ktypes@;
    let mut best: Option<(usize, usize)> = None;
    let mut seen = false;
    let mut i: usize = 0;
    while i < creds.len()
        invariant
            i <= creds@.len(),
            cs == list_view(creds@),
            ks == ktypes@,
            seen ==> any_match(cs, flags, m@),
            forall|j: int| 0 <= j < i && match_spec(flags, m@, #[trigger] cs[j]) ==> seen || listed_match(cs, flags, m@, ks, j),
            match best {
                None => forall|j: int| 0 <= j < i ==> !#[trigger] listed_match(cs, flags, m@, ks, j),
                Some((p, k)) => k < i && listed_match(cs, flags, m@, ks, k as int) && rank(ks, cs[k as int].keyblock.keytype)
                    == Some(p as int) && forall|j: int| #[trigger]
                    listed_match(cs, flags, m@, ks, j) && j < i ==> p < rank(ks, cs[j].keyblock.keytype)->0 || (Some(p as int)
                        == rank(ks, cs[j].keyblock.keytype) && k <= j),
            },
        decreases creds@.len() - i,
    {
        assert(cs[i as int] == creds@[i as int]@);
        if creds_match_request(flags, m, &creds[i]) {
            match find_rank(ktypes, creds[i].keyblock.keytype) {
                None => {
                    seen = true;
                },
                Some(pref) => {
                    assert(listed_match(cs, flags, m@, ks, i as int));
                    let better = match best {
                        None => true,
                        Some((p, _)) => pref < p,
                    };
                    if better {
                        best = Some((pref, i));
                    }
                },
            }
        }
        i = i + 1;
    }
    match best {
        Some((_, k)) => {
            proof {
                assert(best_match(cs, flags, m@, ks, k as int));
                lemma_best_unique(cs, flags, m@, ks, k as int);
                assert(has_best(cs, flags, m@, ks));
                assert(retrieve_spec(cs, flags, m@, Some(ks)) == Ok::<CcCredentialV, CcError>(cs[k as int]));
                assert(cs[k as int] == creds@[k as int]@);
            }
            let r = creds[k].dup();
            assert(r@ == cs[k as int]);
            Ok(r)
        },
        None => {
            assert forall|k: int| !best_match(cs, flags, m@, ks, k) by {
                if best_match(cs, flags, m@, ks, k) {
                    assert(listed_match(cs, flags, m@, ks, k));
                }
            }
            if seen {
                Err(CcError::NotKtype)
            } else {
                assert(!any_match(cs, flags, m@)) by {
                    if any_match(cs, flags, m@) {
                        let j = choose|j: int| 0 <= j < cs.len() && match_spec(flags, m@, #[trigger] cs[j]);
                        assert(listed_match(cs, flags, m@, ks, j));
                    }
                }
                Err(CcError::NotFound)
            }
        },
    }
}

} // verus!
