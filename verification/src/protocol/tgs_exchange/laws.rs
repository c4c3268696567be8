//! What holds of every TGS exchange.
use vstd::prelude::*;

use crate::asn1::Asn1;
use crate::error::Krb5ErrorV;
use crate::protocol::as_exchange::reply::{merged, strengthen_of};
use crate::protocol::credential::CredentialV;
use crate::protocol::draws::DrawsV;
use crate::protocol::fast::FastErrorV;
use crate::protocol::preauth::ErrorCode;
use crate::protocol::tgs_exchange::request::{build_tgs_spec, referral_realm, referral_spec, referral_tgt_spec};
use crate::protocol::tgs_exchange::{fresh_tgs, target_realm, tgs_error_spec, tgs_fast_spec, tgs_part_spec, tgs_step_spec, ResumeStateV, TgsExchangeV, TgsOptionsV, TgsStateV, TgsStepResultV, MAX_REFERRAL_HOPS};
use crate::time::Moment;
use crate::types::names::has_flags;
use crate::types::{EncKdcRepPartV, KdcRepV, PrincipalNameV, TgsRep, TicketFlags};

verus! {

/// Whether no realm occurs twice among those visited, and the referrals
/// followed are within the limit, one for each realm but the first.
pub open spec fn resume_ok(r: ResumeStateV) -> bool {
    match r {
        ResumeStateV::NonReferral => true,
        ResumeStateV::Referrals { realms_seen, referral_count } => realms_seen.no_duplicates() && referral_count
            <= MAX_REFERRAL_HOPS && realms_seen.len() == referral_count + 1,
    }
}

/// Whether an exchange visited no realm twice, within the limit of referrals,
/// and has a credential exactly when it is complete.
pub open spec fn tgs_coherent(v: TgsExchangeV) -> bool {
    &&& v.state is Complete <==> v.credential is Some
    &&& v.state matches TgsStateV::AwaitReply { resume } ==> resume_ok(resume)
}

proof fn lemma_build(v: TgsExchangeV, canonicalize: bool, now: Moment, d: DrawsV)
    ensures
        build_tgs_spec(v, canonicalize, now, d).0.state == v.state,
        build_tgs_spec(v, canonicalize, now, d).0.credential == v.credential,
        build_tgs_spec(v, canonicalize, now, d).0.cur_tgt == v.cur_tgt,
        build_tgs_spec(v, canonicalize, now, d).0.first_referral_attempt == v.first_referral_attempt,
{
    reveal(build_tgs_spec);
}

proof fn lemma_referral(v: TgsExchangeV, rep: KdcRepV, part: EncKdcRepPartV, resume: ResumeStateV, now: Moment, d: DrawsV)
    requires
        tgs_coherent(v),
        v.state is AwaitReply,
        resume_ok(resume),
    ensures
        tgs_coherent(referral_spec(v, rep, part, resume, now, d).0),
        referral_spec(v, rep, part, resume, now, d).0.state is AwaitReply,
{
    let w = TgsExchangeV { cur_tgt: referral_tgt_spec(v, rep, part), ..v };
    lemma_build(w, true, now, d);
    if let ResumeStateV::Referrals { realms_seen, referral_count } = resume {
        let realm = referral_realm(part);
        if referral_count < MAX_REFERRAL_HOPS && !realms_seen.contains(realm) {
            assert(realms_seen.push(realm).no_duplicates());
        }
    }
}

/// Every exchange follows at most ten referrals and visits no realm twice,
/// and it has a credential exactly when it is complete: so is a new one, and
/// every step keeps it so; and a step says that the exchange is complete
/// exactly when it then is.
pub proof fn law_tgs_invariant(
    v: TgsExchangeV,
    reply: Seq<u8>,
    now: Moment,
    d: DrawsV,
    tgt: CredentialV,
    target: PrincipalNameV,
    options: TgsOptionsV,
)
    requires
        tgs_coherent(v),
    ensures
        tgs_coherent(fresh_tgs(tgt, target, options)),
        tgs_coherent(tgs_step_spec(v, reply, now, d).0),
        tgs_step_spec(v, reply, now, d).1 == Ok::<TgsStepResultV, Krb5ErrorV>(TgsStepResultV::Complete) <==> tgs_step_spec(
            v,
            reply,
            now,
            d,
        ).0.state is Complete,
{
    match v.state {
        TgsStateV::Begin => {
            lemma_build(v, v.options.canonicalize, now, d);
            let realm = target_realm(v);
            assert(seq![realm].no_duplicates());
        },
        TgsStateV::AwaitReply { resume } => {
            lemma_build(TgsExchangeV { first_referral_attempt: false, ..v }, false, now, d);
            match <TgsRep as Asn1>::parse(reply) {
                Some(rep) => match tgs_fast_spec(v, rep) {
                    Ok(out) => {
                        let rep1 = merged(rep, out);
                        match tgs_part_spec(v, rep1, strengthen_of(out)) {
                            Ok(part) => {
                                lemma_referral(v, rep1, part, resume, now, d);
                            },
                            Err(_) => {},
                        }
                    },
                    Err(_) => {},
                },
                None => {},
            }
        },
        TgsStateV::Complete => {},
    }
}

/// A referral to a realm visited before is refused, and so is one referral
/// too many; both leave the exchange as it was.
pub proof fn law_referral_refused(v: TgsExchangeV, rep: KdcRepV, part: EncKdcRepPartV, seen: Seq<Seq<char>>, count: u32, now: Moment, d: DrawsV)
    requires
        count >= MAX_REFERRAL_HOPS || seen.contains(referral_realm(part)),
    ensures
        referral_spec(v, rep, part, ResumeStateV::Referrals { realms_seen: seen, referral_count: count }, now, d) == (
            v,
            Err::<TgsStepResultV, Krb5ErrorV>(
                if count >= MAX_REFERRAL_HOPS {
                    Krb5ErrorV::ReferralLimitExceeded(MAX_REFERRAL_HOPS)
                } else {
                    Krb5ErrorV::ReferralLoop { realm: referral_realm(part) }
                },
            ),
        ),
{
}

/// A referral never makes a TGT good for delegation that was asked for with
/// one that was not.
pub proof fn law_delegation_not_gained(v: TgsExchangeV, rep: KdcRepV, part: EncKdcRepPartV)
    ensures
        has_flags(referral_tgt_spec(v, rep, part).flags, TicketFlags::OK_AS_DELEGATE) ==> has_flags(
            v.cur_tgt.flags,
            TicketFlags::OK_AS_DELEGATE,
        ),
        has_flags(v.cur_tgt.flags, TicketFlags::OK_AS_DELEGATE) ==> referral_tgt_spec(v, rep, part).flags == part.flags,
{
    let f = part.flags;
    assert((f & !0x0004_0000u32) & 0x0004_0000u32 == 0) by (bit_vector);
}

/// An unknown service makes the exchange ask without referrals once; asked
/// again it gives the KDC's error.
pub proof fn law_fallback_once(v: TgsExchangeV, fe: FastErrorV, again: FastErrorV, resume: ResumeStateV, now: Moment, d: DrawsV, later: Moment, e: DrawsV)
    requires
        fe.err.error_code == ErrorCode::S_PRINCIPAL_UNKNOWN,
        again.err.error_code == ErrorCode::S_PRINCIPAL_UNKNOWN,
        v.first_referral_attempt,
        resume is Referrals,
        tgs_error_spec(v, fe, resume, now, d).1 is Ok,
    ensures
        ({
            let w = tgs_error_spec(v, fe, resume, now, d).0;
            &&& w.state == TgsStateV::AwaitReply { resume: ResumeStateV::NonReferral }
            &&& !w.first_referral_attempt
            &&& tgs_error_spec(w, again, ResumeStateV::NonReferral, later, e) == (
                w,
                Err::<TgsStepResultV, Krb5ErrorV>(Krb5ErrorV::KdcError(again.err)),
            )
        }),
{
    lemma_build(TgsExchangeV { first_referral_attempt: false, ..v }, false, now, d);
}

/// A complete exchange stays as it is, and a response that was too big makes
/// the same request go out again and changes nothing.
pub proof fn law_tgs_same(v: TgsExchangeV, reply: Seq<u8>, fe: FastErrorV, resume: ResumeStateV, now: Moment, d: DrawsV)
    ensures
        v.state is Complete ==> tgs_step_spec(v, reply, now, d) == (
            v,
            Ok::<TgsStepResultV, Krb5ErrorV>(TgsStepResultV::Complete),
        ),
        fe.err.error_code == ErrorCode::RESPONSE_TOO_BIG ==> tgs_error_spec(v, fe, resume, now, d) == (
            v,
            Ok::<TgsStepResultV, Krb5ErrorV>(
                TgsStepResultV::RetryTcp { data: v.last_req_bytes, realm: v.last_realm },
            ),
        ),
{
}

} // verus!
