//! What holds of every AS exchange.
use vstd::prelude::*;
use vstd::utf8::encode_utf8;

use crate::asn1::{general_ok, list_parse, Asn1};
use crate::crypto::profile::{known, rounds_spec};
use crate::error::Krb5ErrorV;
use crate::protocol::as_exchange::reply::{as_rep_spec, listed};
use crate::protocol::as_exchange::request::{answer_spec, answer_timestamp, answerable, body_spec, choice_spec, cleared, end_of_span, hint_etype, learn_spec, note_spec, padata_spec, reset_fast_spec, restart_spec, select_spec, send_preauth_spec, send_spec};
use crate::protocol::as_exchange::{error_step_spec, fresh_exchange, next_loop, plain_request, preauth_of, preauth_required_spec, request_reads, starts_plain, step_spec, with_method, AsExchangeConfigV, AsExchangeV, AsState, StepResultV, MAX_PREAUTH_LOOPS};
use crate::protocol::draws::DrawsV;
use crate::protocol::fast::{error_data, process_error_spec, upgrade_spec, FastErrorV};
use crate::protocol::kdc_rep::krb_error_spec;
use crate::protocol::preauth::{empty_pa, find_pa, hint_spec, pac_request_spec, ErrorCode, PaDataType};
use crate::time::Moment;
use crate::types::names::has_flags;
use crate::types::{AsReq, KdcOptions, KdcRepV, KdcReqV, PaData, PaDataV};

verus! {

/// Whether an exchange has a credential exactly when it is complete.
pub open spec fn coherent(v: AsExchangeV) -> bool {
    v.state == AsState::Complete <==> v.credential is Some
}

/// Whether `w` is as far as `v` in its exchange: the same state, the same
/// credential, no more preauth rounds.
pub open spec fn as_far(v: AsExchangeV, w: AsExchangeV) -> bool {
    w.state == v.state && w.credential == v.credential && w.loop_count <= v.loop_count
}

proof fn lemma_send(v: AsExchangeV, preauth: Seq<PaDataV>, now: Moment, d: DrawsV)
    ensures
        as_far(v, send_spec(v, preauth, now, d).0),
        send_spec(v, preauth, now, d).1 matches Ok(s) ==> s is SendToKdc,
{
    reveal(send_spec);
}

proof fn lemma_restart(v: AsExchangeV, upgrade: bool, now: Moment, d: DrawsV)
    ensures
        as_far(v, restart_spec(v, upgrade, now, d).0),
        restart_spec(v, upgrade, now, d).0.loop_count == 0,
        restart_spec(v, upgrade, now, d).1 matches Ok(s) ==> s is SendToKdc,
{
    reveal(restart_spec);
    let v1 = reset_fast_spec(cleared(v), v.config.fast is Required || upgrade, now, d).0;
    lemma_send(v1, Seq::empty(), now, d);
}

proof fn lemma_send_preauth(v: AsExchangeV, now: Moment, d: DrawsV)
    ensures
        as_far(v, send_preauth_spec(v, now, d).0),
        send_preauth_spec(v, now, d).1 matches Ok(s) ==> s is SendToKdc,
{
    reveal(send_preauth_spec);
    if v.method_padata is Some {
        let method = v.method_padata->0;
        let v1 = learn_spec(v, method).0;
        let (v2, answer) = select_spec(v1, method, now, d);
        if answer is Ok {
            lemma_send(AsExchangeV { preauth_sent: true, ..v2 }, seq![answer->Ok_0], now, d);
        }
    }
}

/// What an error leaves of an exchange: its state and its credential, and
/// unless it fails no more preauth rounds than allowed.
proof fn lemma_error_step(v: AsExchangeV, fe: FastErrorV, now: Moment, d: DrawsV)
    ensures
        ({
            let (w, r) = error_step_spec(v, fe, now, d);
            &&& w.state == v.state
            &&& w.credential == v.credential
            &&& r is Ok ==> w.loop_count <= v.loop_count || w.loop_count <= MAX_PREAUTH_LOOPS
            &&& r matches Ok(s) ==> !(s is Complete)
        }),
{
    lemma_restart(AsExchangeV { restarted: true, ..v }, true, now, d);
    lemma_restart(AsExchangeV { info_pa_permitted: false, restarted: true, ..v }, false, now, d);
    lemma_restart(AsExchangeV { restarted: false, ..v }, false, now, d);
    let realm = crate::text::utf8_lossy(fe.err.realm);
    lemma_restart(AsExchangeV { config: AsExchangeConfigV { realm, ..v.config }, ..v }, false, now, d);
    lemma_send_preauth(v, now, d);
    let v1 = AsExchangeV { loop_count: crate::protocol::as_exchange::next_loop(v.loop_count), ..v };
    lemma_send_preauth(with_method(note_spec(v1, fe.err.stime, fe.err.susec, now), fe.padata), now, d);
    let v2 = AsExchangeV {
        preauth_failed: match v.selected_preauth_type {
            Some(t) => v.preauth_failed.push(t),
            None => v.preauth_failed,
        },
        selected_preauth_type: None,
        preauth_sent: false,
        ..note_spec(v, fe.err.stime, fe.err.susec, now)
    };
    lemma_send_preauth(with_method(v2, fe.padata), now, d);
}

/// An exchange has a credential exactly when it is complete: a new one has
/// none, every step keeps it so, and a step says that the exchange is
/// complete exactly when it then is.
pub proof fn law_complete_has_credential(v: AsExchangeV, reply: Seq<u8>, now: Moment, d: DrawsV, config: AsExchangeConfigV, password: Seq<char>)
    requires
        coherent(v),
    ensures
        coherent(fresh_exchange(config, password)),
        coherent(step_spec(v, reply, now, d).0),
        step_spec(v, reply, now, d).1 == Ok::<StepResultV, Krb5ErrorV>(StepResultV::Complete) <==> step_spec(
            v,
            reply,
            now,
            d,
        ).0.state == AsState::Complete,
{
    match v.state {
        AsState::Initial => {
            let v1 = reset_fast_spec(v, v.config.fast is Required, now, d).0;
            lemma_send(v1, Seq::empty(), now, d);
        },
        AsState::AwaitReply => {
            match krb_error_spec(reply) {
                Ok(err) => match process_error_spec(v.fast_state, err) {
                    Ok(fe) => {
                        lemma_error_step(v, fe, now, d);
                    },
                    Err(_) => {},
                },
                Err(_) => {},
            }
        },
        AsState::Complete => {},
    }
}

/// What is no AS-REP leaves the credential of a waiting exchange as it is.
pub proof fn lemma_error_keeps(v: AsExchangeV, reply: Seq<u8>, now: Moment, d: DrawsV)
    requires
        v.state == AsState::AwaitReply,
        <crate::types::AsRep as Asn1>::parse(reply) is None,
    ensures
        step_spec(v, reply, now, d).0.credential == v.credential,
{
    match krb_error_spec(reply) {
        Ok(err) => match process_error_spec(v.fast_state, err) {
            Ok(fe) => {
                lemma_error_step(v, fe, now, d);
            },
            Err(_) => {},
        },
        Err(_) => {},
    }
}

/// No preauthentication counts as sent before the first request: so it is in
/// a new exchange, and every step keeps it so.
pub proof fn law_starts_plain(v: AsExchangeV, reply: Seq<u8>, now: Moment, d: DrawsV, config: AsExchangeConfigV, password: Seq<char>)
    requires
        starts_plain(v),
    ensures
        starts_plain(fresh_exchange(config, password)),
        starts_plain(step_spec(v, reply, now, d).0),
{
    reveal(send_spec);
    if v.state == AsState::AwaitReply {
        match krb_error_spec(reply) {
            Ok(err) => match process_error_spec(v.fast_state, err) {
                Ok(fe) => {
                    lemma_error_step(v, fe, now, d);
                },
                Err(_) => {},
            },
            Err(_) => {},
        }
    }
}

/// A complete exchange stays as it is.
pub proof fn law_complete_is_final(v: AsExchangeV, reply: Seq<u8>, now: Moment, d: DrawsV)
    requires
        v.state == AsState::Complete,
    ensures
        step_spec(v, reply, now, d) == (v, Ok::<StepResultV, Krb5ErrorV>(StepResultV::Complete)),
{
}

/// There are at most sixteen preauth rounds: a step that goes on keeps the
/// count within them, and after sixteen rounds another demand for
/// preauthentication ends the exchange with an error, unless it makes the
/// exchange start again in armor.
pub proof fn law_preauth_rounds_bounded(v: AsExchangeV, fe: FastErrorV, now: Moment, d: DrawsV)
    requires
        v.loop_count <= MAX_PREAUTH_LOOPS,
    ensures
        error_step_spec(v, fe, now, d).1 is Ok ==> error_step_spec(v, fe, now, d).0.loop_count <= MAX_PREAUTH_LOOPS,
        v.loop_count == MAX_PREAUTH_LOOPS && fe.retry && fe.err.error_code == ErrorCode::PREAUTH_REQUIRED && !(!v.restarted
            && upgrade_spec(v.fast_state, listed(fe.padata))) ==> error_step_spec(v, fe, now, d).1 == Err::<
            StepResultV,
            Krb5ErrorV,
        >(Krb5ErrorV::PreauthLoopExceeded(MAX_PREAUTH_LOOPS)),
{
    lemma_error_step(v, fe, now, d);
}

/// One input of an exchange: a reply of the KDC, a clock reading and random
/// values.
pub struct Input {
    pub reply: Seq<u8>,
    pub now: Moment,
    pub draws: DrawsV,
}

/// An exchange after it took the inputs one by one.
pub open spec fn after_inputs(v: AsExchangeV, ins: Seq<Input>) -> AsExchangeV
    decreases ins.len(),
{
    if ins.len() == 0 {
        v
    } else {
        let x = ins.last();
        step_spec(after_inputs(v, ins.drop_last()), x.reply, x.now, x.draws).0
    }
}

/// Whether a request can be made: the realm is one that can be encoded, and
/// the ticket asked for ends within the years that can be.
#[verifier::opaque]
pub open spec fn can_ask(config: AsExchangeConfigV, now: Moment) -> bool {
    &&& general_ok(encode_utf8(config.realm))
    &&& end_of_span(now, config.tkt_lifetime) is Some
    &&& has_flags(config.kdc_options, KdcOptions::RENEWABLE) ==> end_of_span(now, config.renew_lifetime) is Some
}

/// Whether a reply is a KRB-ERROR that demands preauthentication, takes an
/// encrypted timestamp, and gives a key hint that the client can use. It does
/// not offer FAST to a client that has armor.
#[verifier::opaque]
pub open spec fn demands_timestamp(config: AsExchangeConfigV, reply: Seq<u8>) -> bool {
    &&& krb_error_spec(reply) matches Ok(err)
    &&& err.error_code == ErrorCode::PREAUTH_REQUIRED || err.error_code == ErrorCode::MORE_PREAUTH_DATA_REQUIRED
    &&& list_parse::<PaData>(error_data(err)) matches Some(method)
    &&& find_pa(method, PaDataType::ENC_TIMESTAMP) is Some
    &&& config.fast is Disabled || find_pa(method, PaDataType::FX_FAST) is None
    &&& hint_spec(method, config.etypes) matches Ok(h)
    &&& known(h.etype)
    &&& rounds_spec(h.etype, h.s2kparams) is Ok
}

/// Whether an exchange without armor waits for the reply to a request, after
/// `n` demands for preauthentication.
spec fn waits(v: AsExchangeV, config: AsExchangeConfigV, n: nat) -> bool {
    &&& v.state == AsState::AwaitReply
    &&& v.config == config
    &&& v.fast_state.armor_key is None
    &&& v.fast_state.armor_avail ==> !(config.fast is Disabled)
    &&& v.preauth_failed.len() == 0
    &&& v.loop_count == if n <= u32::MAX { n } else { u32::MAX as nat }
}

/// A request without armor goes out wherever it can be made.
proof fn lemma_plain_send(v: AsExchangeV, preauth: Seq<PaDataV>, now: Moment, d: DrawsV)
    requires
        v.fast_state.armor_key is None,
        can_ask(v.config, now),
    ensures
        ({
            let (w, r) = send_spec(v, preauth, now, d);
            let req = KdcReqV { pvno: 5, msg_type: 10, padata: Some(padata_spec(w, preauth)), req_body: w.last_req_body->0 };
            &&& w == (AsExchangeV {
                nonce: w.nonce,
                last_req_body: w.last_req_body,
                last_req_bytes: w.last_req_bytes,
                ..v
            })
            &&& w.last_req_bytes == <AsReq as Asn1>::der(req)
            &&& r == Ok::<StepResultV, Krb5ErrorV>(
                StepResultV::SendToKdc { data: w.last_req_bytes, realm: v.config.realm },
            )
        }),
{
    reveal(send_spec);
    reveal(body_spec);
    reveal(can_ask);
}

/// Without armor and with no mechanism failed, an encrypted timestamp is what
/// the exchange answers.
proof fn lemma_choice(v: AsExchangeV, method: Seq<PaDataV>)
    requires
        v.fast_state.armor_key is None,
        v.preauth_failed.len() == 0,
    ensures
        choice_spec(v, method) == (if find_pa(method, PaDataType::ENC_TIMESTAMP) is Some {
            Some(PaDataType::ENC_TIMESTAMP)
        } else {
            None::<i32>
        }),
    decreases method.len(),
{
    if method.len() > 0 {
        lemma_choice(v, method.drop_first());
    }
}

/// A usable hint makes a key, and the key an encrypted timestamp.
proof fn lemma_answer(v: AsExchangeV, now: Moment, d: DrawsV)
    requires
        known(hint_etype(v)),
        rounds_spec(hint_etype(v), v.last_s2kparams) is Ok,
    ensures
        answer_timestamp(v, now, d) is Ok,
        answer_timestamp(v, now, d)->Ok_0.padata_type == PaDataType::ENC_TIMESTAMP,
{
}

/// The preauthentication data of a request is found in it.
proof fn lemma_answer_sent(v: AsExchangeV, pa: PaDataV)
    requires
        pa.padata_type == PaDataType::ENC_TIMESTAMP,
    ensures
        find_pa(padata_spec(v, seq![pa]), PaDataType::ENC_TIMESTAMP) == Some(pa),
{
    let ps = padata_spec(v, seq![pa]);
    reveal_with_fuel(find_pa, 3);
    if v.cookie is Some {
        assert(ps[0].padata_type == PaDataType::FX_COOKIE);
        assert(ps.drop_first()[0] == pa);
    } else {
        assert(ps[0] == pa);
    }
}

/// Whether a step answered a demand: a request goes out that holds the
/// client's encrypted timestamp.
#[verifier::opaque]
pub open spec fn answered(w: AsExchangeV, r: Result<StepResultV, Krb5ErrorV>, now: Moment, d: DrawsV) -> bool {
    &&& r == Ok::<StepResultV, Krb5ErrorV>(StepResultV::SendToKdc { data: w.last_req_bytes, realm: w.config.realm })
    &&& w.last_req_bytes == <AsReq as Asn1>::der(plain_request(w, now, d))
    &&& w.fast_state.armor_key is None
    &&& answer_timestamp(w, now, d) is Ok
    &&& find_pa(plain_request(w, now, d).padata->0, PaDataType::ENC_TIMESTAMP) == Some(answer_timestamp(w, now, d)->Ok_0)
}

proof fn lemma_demand(v: AsExchangeV, config: AsExchangeConfigV, n: nat, x: Input)
    requires
        waits(v, config, n),
        can_ask(config, x.now),
        demands_timestamp(config, x.reply),
    ensures
        ({
            let (w, r) = step_spec(v, x.reply, x.now, x.draws);
            &&& waits(w, config, n + 1)
            &&& n < MAX_PREAUTH_LOOPS ==> answered(w, r, x.now, x.draws)
            &&& n >= MAX_PREAUTH_LOOPS ==> r == Err::<StepResultV, Krb5ErrorV>(
                Krb5ErrorV::PreauthLoopExceeded(MAX_PREAUTH_LOOPS),
            )
        }),
{
    reveal(demands_timestamp);
    let err = krb_error_spec(x.reply)->Ok_0;
    let method = list_parse::<PaData>(error_data(err))->0;
    let fe = process_error_spec(v.fast_state, err)->Ok_0;
    assert(fe.padata == Some(method) && fe.retry);
    let (w, r) = step_spec(v, x.reply, x.now, x.draws);
    assert((w, r) == preauth_required_spec(v, fe, x.now, x.draws));
    if n < MAX_PREAUTH_LOOPS {
        reveal(send_preauth_spec);
        let v1 = AsExchangeV { loop_count: next_loop(v.loop_count), ..v };
        let v2 = with_method(note_spec(v1, err.stime, err.susec, x.now), fe.padata);
        let v3 = learn_spec(v2, method).0;
        lemma_choice(v3, method);
        lemma_answer(v3, x.now, x.draws);
        let v4 = select_spec(v3, method, x.now, x.draws).0;
        let pa = answer_timestamp(v3, x.now, x.draws)->Ok_0;
        let v5 = AsExchangeV { preauth_sent: true, ..v4 };
        lemma_plain_send(v5, seq![pa], x.now, x.draws);
        assert((w, r) == send_spec(v5, seq![pa], x.now, x.draws));
        reveal(answered);
        assert(answer_timestamp(w, x.now, x.draws) == Ok::<PaDataV, Krb5ErrorV>(pa));
        assert(preauth_of(w, x.now, x.draws) =~= seq![pa]);
        lemma_answer_sent(w, pa);
    }
}

proof fn lemma_demands(config: AsExchangeConfigV, password: Seq<char>, ins: Seq<Input>)
    requires
        !(config.fast is Required),
        ins.len() >= 1,
        forall|i: int| 0 <= i < ins.len() ==> can_ask(config, (#[trigger] ins[i]).now),
        forall|i: int| 1 <= i < ins.len() ==> demands_timestamp(config, (#[trigger] ins[i]).reply),
    ensures
        waits(after_inputs(fresh_exchange(config, password), ins), config, (ins.len() - 1) as nat),
    decreases ins.len(),
{
    let v = fresh_exchange(config, password);
    let x = ins.last();
    let before = ins.drop_last();
    if ins.len() == 1 {
        assert(after_inputs(v, before) == v);
        let v1 = reset_fast_spec(v, false, x.now, x.draws).0;
        lemma_plain_send(v1, Seq::empty(), x.now, x.draws);
    } else {
        assert forall|i: int| 0 <= i < before.len() implies can_ask(config, (#[trigger] before[i]).now) by {
            assert(before[i] == ins[i]);
        }
        assert forall|i: int| 1 <= i < before.len() implies demands_timestamp(config, (#[trigger] before[i]).reply) by {
            assert(before[i] == ins[i]);
        }
        lemma_demands(config, password, before);
        assert(ins[ins.len() - 1] == x);
        lemma_demand(after_inputs(v, before), config, (before.len() - 1) as nat, x);
    }
}

/// A new exchange without armor that is met again and again by a demand for
/// preauthentication answers each of the first sixteen with a request that
/// holds the client's encrypted timestamp, and every later one with the error
/// that says so. The first input is that of the first step; input `k` is the
/// `k`-th demand.
pub proof fn law_preauth_rounds_answered(config: AsExchangeConfigV, password: Seq<char>, ins: Seq<Input>, k: int)
    requires
        !(config.fast is Required),
        1 <= k < ins.len(),
        forall|i: int| 0 <= i < ins.len() ==> can_ask(config, (#[trigger] ins[i]).now),
        forall|i: int| 1 <= i < ins.len() ==> demands_timestamp(config, (#[trigger] ins[i]).reply),
    ensures
        ({
            let x = ins[k];
            let (w, r) = step_spec(after_inputs(fresh_exchange(config, password), ins.take(k)), x.reply, x.now, x.draws);
            if k <= MAX_PREAUTH_LOOPS {
                answered(w, r, x.now, x.draws) && w.config.realm == config.realm
            } else {
                r == Err::<StepResultV, Krb5ErrorV>(Krb5ErrorV::PreauthLoopExceeded(MAX_PREAUTH_LOOPS))
            }
        }),
{
    let before = ins.take(k);
    assert forall|i: int| 0 <= i < before.len() implies can_ask(config, (#[trigger] before[i]).now) by {
        assert(before[i] == ins[i]);
    }
    assert forall|i: int| 1 <= i < before.len() implies demands_timestamp(config, (#[trigger] before[i]).reply) by {
        assert(before[i] == ins[i]);
    }
    lemma_demands(config, password, before);
    assert(can_ask(config, ins[k].now));
    lemma_demand(after_inputs(fresh_exchange(config, password), before), config, (k - 1) as nat, ins[k]);
}

/// A request that answers a demand, as a step hands it out, reads as an
/// AS-REQ with an encrypted timestamp.
pub proof fn law_answer_reads(w: AsExchangeV, r: Result<StepResultV, Krb5ErrorV>, now: Moment, d: DrawsV)
    requires
        answered(w, r, now, d),
        request_reads(w, r, now, d),
    ensures
        r matches Ok(StepResultV::SendToKdc { data, realm }) && realm == w.config.realm && (<AsReq as Asn1>::parse(
            data,
        ) matches Some(req) && req.pvno == 5 && req.msg_type == 10 && (req.padata matches Some(ps) && find_pa(
            ps,
            PaDataType::ENC_TIMESTAMP,
        ) is Some)),
{
    reveal(answered);
}

/// The first data of a type in a list behind others is the first in the list,
/// where those others have none.
proof fn lemma_find_behind(a: Seq<PaDataV>, b: Seq<PaDataV>, t: i32)
    requires
        find_pa(a, t) is None,
    ensures
        find_pa(a + b, t) == find_pa(b, t),
    decreases a.len(),
{
    if a.len() == 0 {
        assert(a + b =~= b);
    } else {
        assert((a + b).drop_first() =~= a.drop_first() + b);
        lemma_find_behind(a.drop_first(), b, t);
    }
}

/// The cookie of a request is found in its data, and no other is.
proof fn lemma_cookie_sent(v: AsExchangeV, preauth: Seq<PaDataV>)
    requires
        find_pa(preauth, PaDataType::FX_COOKIE) is None,
    ensures
        find_pa(padata_spec(v, preauth), PaDataType::FX_COOKIE) == (match v.cookie {
            Some(c) => Some(PaDataV { padata_type: PaDataType::FX_COOKIE, padata_value: c }),
            None => None::<PaDataV>,
        }),
{
    let ps = padata_spec(v, preauth);
    if v.cookie is Some {
        assert(ps[0] == PaDataV { padata_type: PaDataType::FX_COOKIE, padata_value: v.cookie->0 });
    } else {
        let rest = (if v.info_pa_permitted {
            seq![empty_pa(PaDataType::AS_FRESHNESS), empty_pa(PaDataType::REQ_ENC_PA_REP)]
        } else {
            Seq::empty()
        }) + seq![pac_request_spec(v.config.request_pac)];
        assert(ps =~= preauth + rest);
        lemma_find_behind(preauth, rest, PaDataType::FX_COOKIE);
        reveal_with_fuel(find_pa, 4);
        if v.info_pa_permitted {
            assert(rest.drop_first()[0] == empty_pa(PaDataType::REQ_ENC_PA_REP));
            assert(rest.drop_first().drop_first()[0] == pac_request_spec(v.config.request_pac));
        } else {
            assert(rest[0] == pac_request_spec(v.config.request_pac));
        }
    }
}

/// The cookie in the method data of a demand for preauthentication is echoed
/// as it is in the request that answers the demand; a demand without a cookie
/// clears it.
pub proof fn law_cookie_echoed(v: AsExchangeV, fe: FastErrorV, method: Seq<PaDataV>, now: Moment, d: DrawsV)
    requires
        fe.retry,
        fe.err.error_code == ErrorCode::PREAUTH_REQUIRED || fe.err.error_code == ErrorCode::MORE_PREAUTH_DATA_REQUIRED,
        fe.padata == Some(method),
        !(!v.restarted && upgrade_spec(v.fast_state, method)),
        error_step_spec(v, fe, now, d).1 is Ok,
    ensures
        ({
            let w = error_step_spec(v, fe, now, d).0;
            &&& w.cookie == (match find_pa(method, PaDataType::FX_COOKIE) {
                Some(pa) => Some(pa.padata_value),
                None => None::<Seq<u8>>,
            })
            &&& find_pa(padata_spec(w, preauth_of(w, now, d)), PaDataType::FX_COOKIE) == find_pa(method, PaDataType::FX_COOKIE)
        }),
{
    let (w, r) = error_step_spec(v, fe, now, d);
    let v1 = AsExchangeV { loop_count: next_loop(v.loop_count), ..v };
    let v2 = with_method(note_spec(v1, fe.err.stime, fe.err.susec, now), fe.padata);
    reveal(send_preauth_spec);
    reveal(send_spec);
    let v3 = learn_spec(v2, method).0;
    lemma_choice_answerable(v3, method);
    let t = choice_spec(v3, method)->0;
    let pa = answer_spec(v3, t, now, d)->Ok_0;
    assert(w.selected_preauth_type == Some(t) && w.preauth_sent);
    assert(answer_spec(w, t, now, d) == answer_spec(v3, t, now, d));
    assert(preauth_of(w, now, d) =~= seq![pa]);
    assert(pa.padata_type == t);
    reveal_with_fuel(find_pa, 2);
    lemma_cookie_sent(w, seq![pa]);
    lemma_find_typed(method, PaDataType::FX_COOKIE);
}

proof fn lemma_choice_answerable(v: AsExchangeV, method: Seq<PaDataV>)
    ensures
        choice_spec(v, method) matches Some(t) ==> answerable(v, t),
    decreases method.len(),
{
    if method.len() > 0 {
        lemma_choice_answerable(v, method.drop_first());
    }
}

proof fn lemma_find_typed(ps: Seq<PaDataV>, t: i32)
    ensures
        find_pa(ps, t) matches Some(pa) ==> pa.padata_type == t,
    decreases ps.len(),
{
    if ps.len() > 0 {
        lemma_find_typed(ps.drop_first(), t);
    }
}

/// A response that was too big changes nothing: the same request goes out
/// again.
pub proof fn law_retry_sends_the_same(v: AsExchangeV, fe: FastErrorV, now: Moment, d: DrawsV)
    requires
        fe.err.error_code == ErrorCode::RESPONSE_TOO_BIG,
        !(!v.restarted && upgrade_spec(v.fast_state, listed(fe.padata))),
    ensures
        error_step_spec(v, fe, now, d) == (
            v,
            Ok::<StepResultV, Krb5ErrorV>(StepResultV::RetryTcp { data: v.last_req_bytes, realm: v.config.realm }),
        ),
{
}

/// Once a request was armored, a reply without FAST data is refused.
pub proof fn law_unarmored_reply_refused(v: AsExchangeV, rep: KdcRepV, now: Moment)
    requires
        v.fast_state.armor_key is Some,
        v.config.etypes.contains(rep.enc_part.etype),
        find_pa(listed(rep.padata), PaDataType::FX_FAST) is None,
    ensures
        as_rep_spec(v, rep, now) == (v, Err::<StepResultV, Krb5ErrorV>(Krb5ErrorV::FastRequired)),
{
}

/// A failure before any preauthentication makes the exchange start again
/// without informational data once, and then no more.
pub proof fn law_one_restart_on_failure(v: AsExchangeV, fe: FastErrorV, now: Moment, d: DrawsV)
    requires
        fe.err.error_code == ErrorCode::PREAUTH_FAILED,
        !v.preauth_sent,
        !fe.retry,
        !upgrade_spec(v.fast_state, listed(fe.padata)),
    ensures
        !v.restarted ==> error_step_spec(v, fe, now, d) == restart_spec(
            AsExchangeV { info_pa_permitted: false, restarted: true, ..v },
            false,
            now,
            d,
        ),
        v.restarted ==> error_step_spec(v, fe, now, d) == (
            v,
            Err::<StepResultV, Krb5ErrorV>(Krb5ErrorV::KdcError(fe.err)),
        ),
{
}

} // verus!
