//! Validation of AS replies.
use vstd::prelude::*;

use crate::der::opt_view;
use crate::error::{outcome, Krb5Error, Krb5ErrorV};
use crate::time::{Duration, KerberosTime, TimeV};
use crate::types::names::has_flags;
use crate::types::{EncKdcRepPart, EncKdcRepPartV, KdcOptions, KdcRep, KdcRepV, KdcReqBody, KdcReqBodyV, PrincipalName, PrincipalNameV};

verus! {

/// Default clock skew: five minutes.
pub open spec fn default_skew() -> Duration {
    Duration { secs: 300, nanos: 0 }
}

/// Default clock skew.
pub fn default_max_clock_skew() -> (r: Duration)
    ensures
        r == default_skew(),
{
    Duration::from_secs(300)
}

/// The distance of two times, in nanoseconds.
pub open spec fn time_distance(a: TimeV, b: TimeV) -> int {
    if a.total() >= b.total() { a.total() - b.total() } else { b.total() - a.total() }
}

/// The distance of two times, in nanoseconds.
pub fn time_diff(a: &KerberosTime, b: &KerberosTime) -> (r: i128)
    ensures
        r == time_distance(a@, b@),
{
    let x: i128 = a.total_nanos();
    let y: i128 = b.total_nanos();
    if x >= y { x - y } else { y - x }
}

/// Whether `a` is later than `b`.
pub fn is_after(a: &KerberosTime, b: &KerberosTime) -> (r: bool)
    ensures
        r == (a@.total() > b@.total()),
{
    a.total_nanos() > b.total_nanos()
}

/// The first component of a ticket-granting service's name.
pub open spec fn krbtgt() -> Seq<u8> {
    seq![0x6bu8, 0x72u8, 0x62u8, 0x74u8, 0x67u8, 0x74u8]
}

/// Whether a name is that of a ticket-granting service: a service and
/// instance of two components, the first `krbtgt`.
pub open spec fn is_tgs_name(p: PrincipalNameV) -> bool {
    p.name_type == 2 && p.name_string.len() == 2 && p.name_string[0] == krbtgt()
}

/// Whether a name is that of a ticket-granting service.
pub fn names_tgs(p: &PrincipalName) -> (r: bool)
    ensures
        r == is_tgs_name(p@),
{
    if p.name_type != 2 || p.name_string.len() != 2 {
        return false;
    }
    let b = p.name_string[0].as_bytes();
    let r = b.len() == 6 && b[0] == 0x6b && b[1] == 0x72 && b[2] == 0x62 && b[3] == 0x74 && b[4] == 0x67 && b[5] == 0x74;
    assert(r ==> b@ =~= krbtgt());
    r
}

/// The time from which a ticket counts.
pub open spec fn effective_start(p: EncKdcRepPartV) -> TimeV {
    match p.starttime {
        Some(t) => t,
        None => p.authtime,
    }
}

/// Whether the names in a reply may differ from those asked for: a
/// canonical name was asked for, and a ticket-granting service.
pub open spec fn may_rename(body: KdcReqBodyV, part: EncKdcRepPartV, canonicalize: bool) -> bool {
    canonicalize && (body.sname matches Some(s) && is_tgs_name(s)) && is_tgs_name(part.sname)
}

/// What validating an AS reply returns.
pub open spec fn as_reply_spec(
    nonce: u32,
    body: KdcReqBodyV,
    rep: KdcRepV,
    part: EncKdcRepPartV,
    canonicalize: bool,
    skew: Duration,
    now: TimeV,
) -> Result<(), Krb5ErrorV> {
    let renames = may_rename(body, part, canonicalize);
    if part.nonce != nonce {
        Err(Krb5ErrorV::ReplyValidation("nonce mismatch"@))
    } else if !renames && body.cname != Some(rep.cname) {
        Err(Krb5ErrorV::ReplyValidation("client principal mismatch"@))
    } else if !renames && body.realm != rep.crealm {
        Err(Krb5ErrorV::ReplyValidation("client realm mismatch"@))
    } else if rep.ticket.sname != part.sname {
        Err(Krb5ErrorV::ReplyValidation("ticket/enc-part server mismatch"@))
    } else if rep.ticket.realm != part.srealm {
        Err(Krb5ErrorV::ReplyValidation("ticket/enc-part realm mismatch"@))
    } else if !renames && body.sname != Some(part.sname) {
        Err(Krb5ErrorV::ReplyValidation("unexpected service principal in AS-REP"@))
    } else if part.endtime.total() > body.till.total() {
        Err(Krb5ErrorV::ReplyValidation("ticket outlives the request"@))
    } else if has_flags(body.kdc_options, KdcOptions::RENEWABLE) && (body.rtime matches Some(rt) && (
    part.renew_till matches Some(till) && till.total() > rt.total())) {
        Err(Krb5ErrorV::ReplyValidation("ticket is renewable beyond the request"@))
    } else if time_distance(effective_start(part), now) > skew.total() {
        Err(Krb5ErrorV::ClockSkew { max_skew: skew })
    } else {
        Ok(())
    }
}

fn same_name(a: &Option<PrincipalName>, b: &PrincipalName) -> (r: bool)
    ensures
        r == (opt_view(*a) == Some(b@)),
{
    match a {
        Some(a) => a.same(b),
        None => false,
    }
}

/// The time from which a ticket counts.
pub fn start_of(p: &EncKdcRepPart) -> (r: KerberosTime)
    ensures
        r@ == effective_start(p@),
{
    match p.starttime {
        Some(t) => t,
        None => p.authtime,
    }
}

/// Validate an AS reply against the request.
pub fn validate_as_reply(
    nonce: u32,
    body: &KdcReqBody,
    rep: &KdcRep,
    part: &EncKdcRepPart,
    canonicalize: bool,
    skew: Duration,
    now: KerberosTime,
) -> (r: Result<(), Krb5Error>)
    ensures
        outcome(r) == as_reply_spec(nonce, body@, rep@, part@, canonicalize, skew, now@),
{
    let asked = match &body.sname {
        Some(s) => names_tgs(s),
        None => false,
    };
    let renames = canonicalize && asked && names_tgs(&part.sname);
    if part.nonce != nonce {
        return Err(Krb5Error::ReplyValidation("nonce mismatch"));
    }
    if !renames && !same_name(&body.cname, &rep.cname) {
        return Err(Krb5Error::ReplyValidation("client principal mismatch"));
    }
    if !renames && !body.realm.same(&rep.crealm) {
        return Err(Krb5Error::ReplyValidation("client realm mismatch"));
    }
    if !rep.ticket.sname.same(&part.sname) {
        return Err(Krb5Error::ReplyValidation("ticket/enc-part server mismatch"));
    }
    if !rep.ticket.realm.same(&part.srealm) {
        return Err(Krb5Error::ReplyValidation("ticket/enc-part realm mismatch"));
    }
    if !renames && !same_name(&body.sname, &part.sname) {
        return Err(Krb5Error::ReplyValidation("unexpected service principal in AS-REP"));
    }
    if is_after(&part.endtime, &body.till) {
        return Err(Krb5Error::ReplyValidation("ticket outlives the request"));
    }
    if body.kdc_options.contains(KdcOptions::RENEWABLE) {
        match (&body.rtime, &part.renew_till) {
            (Some(asked), Some(till)) => {
                if is_after(till, asked) {
                    return Err(Krb5Error::ReplyValidation("ticket is renewable beyond the request"));
                }
            },
            _ => {},
        }
    }
    if time_diff(&start_of(part), &now) > skew.total_nanos() {
        return Err(Krb5Error::ClockSkew { max_skew: skew });
    }
    Ok(())
}

} // verus!
