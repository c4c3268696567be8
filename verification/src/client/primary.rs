//! The "retry with primary KDCs" rule.
//!
//! After a non-successful AS/TGS result that is *not* a reachability error,
//! if any contacted KDC was a replica the request is retried once using only
//! primary KDCs. If the retry itself fails with an unreachability/realm
//! error, the *original* error is returned.
use vstd::prelude::*;

use crate::error::{Krb5Error, Krb5ErrorV};
use crate::locate::{DnsResolver, LocateError, LocateErrorV};
use crate::transport::located::{replicas_from, LocatedTransport, LocatedTransportV};
use crate::transport::sendto::SendtoError;

verus! {

/// Whether an error says that no KDC was reached.
pub open spec fn unreach_spec(e: Krb5ErrorV) -> bool {
    e == Krb5ErrorV::Sendto(SendtoError::KdcUnreach) || e == Krb5ErrorV::Locate(LocateErrorV::RealmCantResolve)
}

/// Whether an error of the retry gives way to the original error.
pub open spec fn gives_way_spec(e: Krb5ErrorV) -> bool {
    unreach_spec(e) || e == Krb5ErrorV::Locate(LocateErrorV::RealmUnknown)
}

/// Errors for which the primary retry is *not* attempted: no KDC could be
/// reached, or the realm cannot be resolved.
pub fn is_unreach(e: &Krb5Error) -> (r: bool)
    ensures
        r == unreach_spec(e@),
{
    match e {
        Krb5Error::Sendto(SendtoError::KdcUnreach) => true,
        Krb5Error::Locate(LocateError::RealmCantResolve) => true,
        _ => false,
    }
}

/// Errors of the retry for which the original error is returned.
pub fn gives_way(e: &Krb5Error) -> (r: bool)
    ensures
        r == gives_way_spec(e@),
{
    match e {
        Krb5Error::Locate(LocateError::RealmUnknown) => true,
        _ => is_unreach(e),
    }
}

/// What follows a first attempt.
pub enum FallbackStep<T> {
    /// Its result stands.
    Done(Result<T, Krb5Error>),
    /// It is tried again with primary KDCs only; this is the original error.
    Retry(Krb5Error),
}

/// Whether what follows a first attempt that failed can be this, with the
/// recorded KDCs marked: a retry exactly when one of them is a replica.
pub open spec fn fallback_step<R: DnsResolver, T>(
    before: LocatedTransportV<R>,
    e: Krb5Error,
    after: LocatedTransportV<R>,
    step: FallbackStep<T>,
    replica: bool,
) -> bool {
    &&& replicas_from(before, before.kdcs, 0, after.kdcs, replica)
    &&& after == (LocatedTransportV {
        kdcs: after.kdcs,
        use_primary: before.use_primary || replica,
        ..before
    })
    &&& step == (if replica { FallbackStep::<T>::Retry(e) } else { FallbackStep::<T>::Done(Err(e)) })
}

/// Decides what follows a first attempt: a success stands, and so does an
/// error that says no KDC was reached; another error leads to a retry when
/// the transport's recorded KDCs hold a replica, and the transport then goes
/// to primary KDCs only.
pub fn after_first<R: DnsResolver, T>(transport: &mut LocatedTransport<R>, first: Result<T, Krb5Error>) -> (r: FallbackStep<T>)
    ensures
        match first {
            Ok(_) => r == FallbackStep::Done(first) && final(transport)@ == old(transport)@,
            Err(e) => if unreach_spec(e@) {
                r == FallbackStep::Done(first) && final(transport)@ == old(transport)@
            } else {
                exists|replica: bool| #[trigger]
                    fallback_step(old(transport)@, e, final(transport)@, r, replica)
            },
        },
{
    let orig = match first {
        Ok(v) => return FallbackStep::Done(Ok(v)),
        Err(e) => e,
    };
    if is_unreach(&orig) {
        return FallbackStep::Done(Err(orig));
    }
    let ghost before = transport@;
    let replica = transport.any_replicas();
    if replica {
        transport.set_use_primary(true);
        let r: FallbackStep<T> = FallbackStep::Retry(orig);
        assert(fallback_step(before, orig, transport@, r, true));
        return r;
    }
    let r: FallbackStep<T> = FallbackStep::Done(Err(orig));
    assert(fallback_step(before, orig, transport@, r, false));
    r
}

/// Decides what a retry comes to: the original error where the retry reached
/// no KDC or does not know the realm, else the retry's own result. The
/// transport goes to all KDCs again.
pub fn after_retry<R: DnsResolver, T>(transport: &mut LocatedTransport<R>, orig: Krb5Error, retry: Result<T, Krb5Error>) -> (r: Result<
    T,
    Krb5Error,
>)
    ensures
        r == (match retry {
            Ok(_) => retry,
            Err(e) => if gives_way_spec(e@) { Err(orig) } else { retry },
        }),
        final(transport)@ == (LocatedTransportV { use_primary: false, ..old(transport)@ }),
{
    transport.set_use_primary(false);
    match retry {
        Ok(v) => Ok(v),
        Err(e) => if gives_way(&e) {
            Err(orig)
        } else {
            Err(e)
        },
    }
}

} // verus!
