//! AS-REQ construction and preauth helpers.
use vstd::prelude::*;
use vstd::utf8::encode_utf8;

use crate::asn1::{dup_list, general_ok, Asn1, Dup, GeneralString};
use crate::bytes::copy;
use crate::der::{list_view, opt_view};
use crate::error::{outcome, Krb5Error, Krb5ErrorV};
use crate::protocol::ap::util::has_etype;
use crate::protocol::as_exchange::{preauth_of, request_kept, request_reads, AsExchange, AsExchangeV, StepResult, StepResultV};
use crate::protocol::draws::{Draws, DrawsV};
use crate::protocol::fast::{armor_ap_spec, build_pa_encrypted_challenge_with, challenge_spec, fresh_fast, prep_spec, FastMsgType, FastState, FastStateV};
use crate::protocol::preauth::{as_key_spec, build_empty_padata, build_pa_enc_timestamp, build_pa_pac_request, client_key, default_salt, default_salt_spec, empty_pa, enc_timestamp_spec, extract_preauth_hint_padata, find_pa, hint_spec, pa_index, pac_request_spec, PaDataType};
use crate::protocol::validate::krbtgt;
use crate::text::{is_ascii, lemma_ascii};
use crate::time::{split_nanos, stamp_of, usec_of, Duration, KerberosTime, Moment, TimeV};
use crate::types::names::{has_flags, name_of, NT_SRV_INST};
use crate::types::{KdcOptions, KdcReq, KdcReqBody, KdcReqBodyV, KdcReqV, PaData, PaDataV, PrincipalName, PrincipalNameV};

verus! {

/// KDC time offset learned from a preauth error.
#[derive(Debug, Clone, Copy)]
pub struct PaOffset {
    delta: i128,
    usec: i64,
    auth: bool,
}

/// Model of [`PaOffset`].
pub struct PaOffsetV {
    /// The KDC's time less the local time at receipt, in nanoseconds.
    pub delta: int,
    /// The KDC's microseconds less the local microseconds at receipt.
    pub usec: int,
    /// Whether it was learned while armored.
    pub auth: bool,
}

impl View for PaOffset {
    type V = PaOffsetV;

    closed spec fn view(&self) -> PaOffsetV {
        PaOffsetV { delta: self.delta as int, usec: self.usec as int, auth: self.auth }
    }
}

impl PaOffset {
    #[verifier::type_invariant]
    spec fn wf(self) -> bool {
        &&& -0x20_0000_0000_0000_0000_0000_0000 <= self.delta <= 0x20_0000_0000_0000_0000_0000_0000
        &&& -0x1_0000_0000 <= self.usec <= 0x1_0000_0000
    }

    /// The offset between a KDC's time and a clock reading.
    pub fn between(stime: KerberosTime, susec: i32, now: Moment, auth: bool) -> (r: PaOffset)
        ensures
            r@ == offset_spec(stime@, susec, now, auth),
    {
        let here: i128 = now.total_nanos();
        let (_, usec) = split_nanos(here);
        PaOffset { delta: stime.total_nanos() - here, usec: susec as i64 - usec as i64, auth }
    }

    /// Nanoseconds to put to a clock reading, and whether the offset was
    /// learned while armored.
    pub fn nanos(&self) -> (r: (i128, bool))
        ensures
            r.0 == self@.delta + self@.usec * 1_000,
            r.1 == self@.auth,
            -0x40_0000_0000_0000_0000_0000_0000 <= r.0 <= 0x40_0000_0000_0000_0000_0000_0000,
    {
        proof {
            use_type_invariant(self);
        }
        (self.delta + self.usec as i128 * 1_000, self.auth)
    }
}

/// The offset between a KDC's time and a clock reading.
pub open spec fn offset_spec(stime: TimeV, susec: i32, now: Moment, auth: bool) -> PaOffsetV {
    PaOffsetV { delta: stime.total() - now.total(), usec: susec - usec_of(now.total()), auth }
}

/// An exchange after the KDC's time is noted; it counts as authenticated
/// only when the error was armored.
pub open spec fn note_spec(v: AsExchangeV, stime: TimeV, susec: i32, now: Moment) -> AsExchangeV {
    AsExchangeV { pa_offset: Some(offset_spec(stime, susec, now, v.fast_state.armor_key is Some)), ..v }
}

/// The time for preauthentication, in nanoseconds: that of the KDC where it
/// is known and may be used. `allow_unauth` permits an offset learned from
/// an unarmored error.
pub open spec fn preauth_clock(v: AsExchangeV, allow_unauth: bool, now: Moment) -> int {
    now.total() + match v.pa_offset {
        Some(o) => if allow_unauth || o.auth { o.delta + o.usec * 1_000 } else { 0 },
        None => 0,
    }
}

/// An exchange with a fresh FAST state, armored if `do_fast` and there is an
/// armor credential; and what arming it returns.
pub open spec fn reset_fast_spec(v: AsExchangeV, do_fast: bool, now: Moment, d: DrawsV) -> (
    AsExchangeV,
    Result<(), Krb5ErrorV>,
) {
    match v.config.fast.armor() {
        None => (AsExchangeV { fast_state: fresh_fast(), ..v }, Ok(())),
        Some(cred) => {
            let f = FastStateV { armor_avail: true, ..fresh_fast() };
            if do_fast {
                let (g, r) = armor_ap_spec(f, cred, now, d.auth);
                (AsExchangeV { fast_state: g, ..v }, r)
            } else {
                (AsExchangeV { fast_state: f, ..v }, Ok(()))
            }
        },
    }
}

/// The time a span after the whole second of a clock reading, unless it lies
/// beyond the year 9999.
pub open spec fn end_of_span(now: Moment, span: Duration) -> Option<TimeV> {
    let secs = stamp_of(now.total()).secs + span.secs;
    if secs <= 253_402_300_799 {
        Some(TimeV { secs: secs as i64, nanos: 0 })
    } else {
        None
    }
}

/// The name of the ticket-granting service of a realm.
pub open spec fn tgs_name(realm: Seq<char>) -> PrincipalNameV {
    name_of(NT_SRV_INST, seq![krbtgt(), encode_utf8(realm)])
}

/// The body of a request.
#[verifier::opaque]
pub open spec fn body_spec(v: AsExchangeV, now: Moment) -> Result<KdcReqBodyV, Krb5ErrorV> {
    let till = end_of_span(now, v.config.tkt_lifetime);
    let renewable = has_flags(v.config.kdc_options, KdcOptions::RENEWABLE);
    let rtime = end_of_span(now, v.config.renew_lifetime);
    if !general_ok(encode_utf8(v.config.realm)) {
        Err(Krb5ErrorV::ReplyValidation("invalid realm string"@))
    } else if till is None {
        Err(Krb5ErrorV::ReplyValidation("ticket lifetime overflow when computing till"@))
    } else if renewable && rtime is None {
        Err(Krb5ErrorV::ReplyValidation("renewable lifetime overflow when computing rtime"@))
    } else {
        Ok(
            KdcReqBodyV {
                kdc_options: v.config.kdc_options,
                cname: Some(v.config.client),
                realm: encode_utf8(v.config.realm),
                sname: Some(tgs_name(v.config.realm)),
                from: None,
                till: till->0,
                rtime: if renewable { rtime } else { None },
                nonce: v.nonce,
                etype: v.config.etypes,
                addresses: None,
                enc_authorization_data: None,
                additional_tickets: None,
            },
        )
    }
}

/// The data of a request: the cookie of the most recent error, the preauth
/// data, the informational data while it is permitted, and whether a PAC is
/// wanted.
pub open spec fn padata_spec(v: AsExchangeV, preauth: Seq<PaDataV>) -> Seq<PaDataV> {
    (match v.cookie {
        Some(c) => seq![PaDataV { padata_type: PaDataType::FX_COOKIE, padata_value: c }],
        None => Seq::empty(),
    }) + preauth + (if v.info_pa_permitted {
        seq![empty_pa(PaDataType::AS_FRESHNESS), empty_pa(PaDataType::REQ_ENC_PA_REP)]
    } else {
        Seq::empty()
    }) + seq![pac_request_spec(v.config.request_pac)]
}

/// An exchange after a request is built, and the request with its body.
pub open spec fn build_spec(v: AsExchangeV, preauth: Seq<PaDataV>, now: Moment, d: DrawsV) -> (
    AsExchangeV,
    Result<(Seq<u8>, KdcReqBodyV), Krb5ErrorV>,
) {
    let v1 = AsExchangeV { nonce: d.request_nonce(), ..v };
    match body_spec(v1, now) {
        Err(e) => (v1, Err(e)),
        Ok(body) => {
            let req = KdcReqV { pvno: 5, msg_type: 10, padata: Some(padata_spec(v1, preauth)), req_body: body };
            let (f, r) = prep_spec(v1.fast_state, req, <KdcReqBody as Asn1>::der(body), FastMsgType::As, d.fast);
            (
                AsExchangeV { fast_state: f, ..v1 },
                match r {
                    Err(e) => Err(e),
                    Ok(der) => Ok((der, body)),
                },
            )
        },
    }
}

/// An exchange after a request is built to be sent, and the step to take.
#[verifier::opaque]
pub open spec fn send_spec(v: AsExchangeV, preauth: Seq<PaDataV>, now: Moment, d: DrawsV) -> (
    AsExchangeV,
    Result<StepResultV, Krb5ErrorV>,
) {
    let (v1, r) = build_spec(v, preauth, now, d);
    match r {
        Err(e) => (v1, Err(e)),
        Ok((der, body)) => (
            AsExchangeV { last_req_body: Some(body), last_req_bytes: der, ..v1 },
            Ok(StepResultV::SendToKdc { data: der, realm: v1.config.realm }),
        ),
    }
}

/// An exchange without what it learned of preauthentication.
pub open spec fn cleared(v: AsExchangeV) -> AsExchangeV {
    AsExchangeV {
        cookie: None,
        last_preauth_salt: None,
        last_s2kparams: None,
        last_preauth_etype: None,
        method_padata: None,
        selected_preauth_type: None,
        preauth_failed: Seq::empty(),
        loop_count: 0,
        preauth_sent: false,
        ..v
    }
}

/// An exchange that starts again from the first request, and the step to
/// take.
#[verifier::opaque]
pub open spec fn restart_spec(v: AsExchangeV, fast_upgrade: bool, now: Moment, d: DrawsV) -> (
    AsExchangeV,
    Result<StepResultV, Krb5ErrorV>,
) {
    let (v1, armed) = reset_fast_spec(cleared(v), v.config.fast is Required || fast_upgrade, now, d);
    match armed {
        Err(e) => (v1, Err(e)),
        Ok(()) => send_spec(v1, Seq::empty(), now, d),
    }
}

/// The salt of the client that no other is given for.
pub open spec fn own_salt(v: AsExchangeV) -> Seq<u8> {
    default_salt_spec(v.config.realm, v.config.client.name_string)
}

/// The enctype that a hint gave, or the default.
pub open spec fn hint_etype(v: AsExchangeV) -> i32 {
    match v.last_preauth_etype {
        Some(e) => e,
        None => 18,
    }
}

/// The salt that a hint gave, or the client's own.
pub open spec fn hint_salt(v: AsExchangeV) -> Seq<u8> {
    match v.last_preauth_salt {
        Some(s) => s,
        None => own_salt(v),
    }
}

/// The answer to an encrypted challenge; it uses an authenticated time only.
pub open spec fn answer_challenge(v: AsExchangeV, armor: crate::types::EncryptionKeyV, now: Moment, d: DrawsV) -> Result<
    PaDataV,
    Krb5ErrorV,
> {
    let t = preauth_clock(v, false, now);
    match as_key_spec(hint_etype(v), encode_utf8(v.password), hint_salt(v), v.last_s2kparams) {
        Err(e) => Err(e),
        Ok(key) => challenge_spec(armor, key, stamp_of(t), Some(usec_of(t)), d.pa),
    }
}

/// The encrypted timestamp; it uses the KDC's time whenever it is known.
pub open spec fn answer_timestamp(v: AsExchangeV, now: Moment, d: DrawsV) -> Result<PaDataV, Krb5ErrorV> {
    let t = preauth_clock(v, true, now);
    enc_timestamp_spec(
        encode_utf8(v.password),
        hint_salt(v),
        v.last_s2kparams,
        hint_etype(v),
        stamp_of(t),
        Some(usec_of(t)),
        d.pa,
    )
}

/// Whether a mechanism is one that the exchange can answer: it has not
/// failed before, and an encrypted challenge needs armor.
pub open spec fn answerable(v: AsExchangeV, t: i32) -> bool {
    &&& !v.preauth_failed.contains(t)
    &&& t == PaDataType::ENC_TIMESTAMP || (t == PaDataType::ENCRYPTED_CHALLENGE && v.fast_state.armor_key is Some)
}

/// The answer to a mechanism.
pub open spec fn answer_spec(v: AsExchangeV, t: i32, now: Moment, d: DrawsV) -> Result<PaDataV, Krb5ErrorV> {
    if t == PaDataType::ENC_TIMESTAMP {
        answer_timestamp(v, now, d)
    } else {
        answer_challenge(v, v.fast_state.armor_key->0, now, d)
    }
}

/// The first mechanism of method data that the exchange can answer.
pub open spec fn choice_spec(v: AsExchangeV, method: Seq<PaDataV>) -> Option<i32>
    decreases method.len(),
{
    if method.len() == 0 {
        None
    } else if answerable(v, method[0].padata_type) {
        Some(method[0].padata_type)
    } else {
        choice_spec(v, method.drop_first())
    }
}

/// An exchange after a mechanism is chosen, and the answer to it.
pub open spec fn select_spec(v: AsExchangeV, method: Seq<PaDataV>, now: Moment, d: DrawsV) -> (
    AsExchangeV,
    Result<PaDataV, Krb5ErrorV>,
) {
    match choice_spec(v, method) {
        None => (v, Err(Krb5ErrorV::PreauthFailed)),
        Some(t) => match answer_spec(v, t, now, d) {
            Err(e) => (v, Err(e)),
            Ok(pa) => (AsExchangeV { selected_preauth_type: Some(t), ..v }, Ok(pa)),
        },
    }
}

/// An exchange after it takes the cookie and the hint of method data, and
/// whether it can go on.
pub open spec fn learn_spec(v: AsExchangeV, method: Seq<PaDataV>) -> (AsExchangeV, Result<(), Krb5ErrorV>) {
    let v1 = AsExchangeV {
        cookie: match find_pa(method, PaDataType::FX_COOKIE) {
            Some(pa) => Some(pa.padata_value),
            None => None,
        },
        ..v
    };
    match hint_spec(method, v.config.etypes) {
        Ok(h) => (
            AsExchangeV {
                last_preauth_salt: h.salt,
                last_s2kparams: h.s2kparams,
                last_preauth_etype: Some(h.etype),
                ..v1
            },
            Ok(()),
        ),
        Err(e) => (v1, if v.last_preauth_etype is None { Err(e) } else { Ok(()) }),
    }
}

/// An exchange after it answers the preauthentication asked for, and the step
/// to take.
#[verifier::opaque]
pub open spec fn send_preauth_spec(v: AsExchangeV, now: Moment, d: DrawsV) -> (AsExchangeV, Result<StepResultV, Krb5ErrorV>) {
    match v.method_padata {
        None => (v, Err(Krb5ErrorV::ReplyValidation("PREAUTH_REQUIRED without e-data"@))),
        Some(method) => {
            let (v1, learned) = learn_spec(v, method);
            match learned {
                Err(e) => (v1, Err(e)),
                Ok(()) => {
                    let (v2, answer) = select_spec(v1, method, now, d);
                    match answer {
                        Err(e) => (v2, Err(e)),
                        Ok(pa) => send_spec(AsExchangeV { preauth_sent: true, ..v2 }, seq![pa], now, d),
                    }
                },
            }
        },
    }
}

/// The name of a realm's ticket-granting service is made of its two parts.
pub proof fn lemma_krbtgt()
    ensures
        encode_utf8("krbtgt"@) == krbtgt(),
        general_ok(krbtgt()),
{
    reveal_strlit("krbtgt");
    assert(is_ascii("krbtgt"@));
    lemma_ascii("krbtgt"@);
    assert(encode_utf8("krbtgt"@) =~= krbtgt());
}

/// The time a span after the whole second of a clock reading.
pub fn after_span(now: Moment, span: Duration) -> (r: Option<KerberosTime>)
    ensures
        opt_view(r) == end_of_span(now, span),
{
    let (stamp, _) = split_nanos(now.total_nanos());
    let secs: i128 = stamp.timestamp() as i128 + span.as_secs() as i128;
    if secs > 253_402_300_799 {
        return None;
    }
    proof {
        assert(stamp@.secs >= -62_167_219_200);
    }
    Some(KerberosTime::from_secs(secs as i64))
}

impl AsExchange {
    /// Rebuild the FAST request state for a (re)start.
    pub(super) fn reset_fast_state(&mut self, do_fast: bool, now: Moment, draws: &Draws) -> (r: Result<(), Krb5Error>)
        ensures
            (final(self)@, outcome(r)) == reset_fast_spec(old(self)@, do_fast, now, draws@),
    {
        self.fast_state = FastState::new();
        let mut f = FastState::new();
        match self.config.fast.armor_credential() {
            None => {},
            Some(cred) => {
                f.set_armor_available(true);
                if do_fast {
                    let r = f.armor_ap_request_with(cred, now, &draws.auth);
                    self.fast_state = f;
                    return r;
                }
                self.fast_state = f;
            },
        }
        Ok(())
    }

    fn request_body(&self, now: Moment) -> (r: Result<KdcReqBody, Krb5Error>)
        ensures
            outcome(r) == body_spec(self@, now),
    {
        reveal(body_spec);
        let realm = match GeneralString::from_bytes(self.config.realm.as_str().as_bytes()) {
            Some(g) => g,
            None => return Err(Krb5Error::ReplyValidation("invalid realm string")),
        };
        proof {
            lemma_krbtgt();
        }
        let sname = PrincipalName::new_srv_inst("krbtgt", &self.config.realm);
        let till = match after_span(now, self.config.tkt_lifetime) {
            Some(t) => t,
            None => return Err(Krb5Error::ReplyValidation("ticket lifetime overflow when computing till")),
        };
        let rtime = if self.config.kdc_options.contains(KdcOptions::RENEWABLE) {
            match after_span(now, self.config.renew_lifetime) {
                Some(t) => Some(t),
                None => return Err(Krb5Error::ReplyValidation("renewable lifetime overflow when computing rtime")),
            }
        } else {
            None
        };
        let etype = dup_i32(&self.config.etypes);
        assert(list_view(etype@) =~= self.config.etypes@);
        Ok(KdcReqBody {
            kdc_options: self.config.kdc_options,
            cname: Some(self.config.client.dup()),
            realm,
            sname: Some(sname),
            from: None,
            till,
            rtime,
            nonce: self.nonce,
            etype,
            addresses: None,
            enc_authorization_data: None,
            additional_tickets: None,
        })
    }

    fn request_padata(&self, preauth: Vec<PaData>) -> (r: Vec<PaData>)
        ensures
            list_view(r@) == padata_spec(self@, list_view(preauth@)),
    {
        let mut padata: Vec<PaData> = Vec::new();
        match &self.cookie {
            Some(c) => padata.push(PaData { padata_type: PaDataType::FX_COOKIE, padata_value: copy(c) }),
            None => {},
        }
        let ghost head = list_view(padata@);
        assert(head =~= match self@.cookie {
            Some(c) => seq![PaDataV { padata_type: PaDataType::FX_COOKIE, padata_value: c }],
            None => Seq::empty(),
        });
        let mut preauth = preauth;
        let ghost mid = list_view(preauth@);
        let ghost joined = padata@ + preauth@;
        padata.append(&mut preauth);
        assert(padata@ == joined);
        assert(list_view(padata@) =~= head + mid);
        if self.info_pa_permitted {
            padata.push(build_empty_padata(PaDataType::AS_FRESHNESS));
            padata.push(build_empty_padata(PaDataType::REQ_ENC_PA_REP));
        }
        padata.push(build_pa_pac_request(self.config.request_pac));
        assert(list_view(padata@) =~= padata_spec(self@, mid));
        padata
    }

    /// Build an AS-REQ message: its DER bytes, and the request body for
    /// validation.
    fn build_as_req(&mut self, preauth: Vec<PaData>, now: Moment, draws: &Draws) -> (r: Result<(Vec<u8>, KdcReqBody), Krb5Error>)
        ensures
            (final(self)@, outcome(r)) == build_spec(old(self)@, list_view(preauth@), now, draws@),
            r is Ok ==> <crate::types::AsReq as Asn1>::parse(r->Ok_0.0@) is Some && <crate::types::AsReq as Asn1>::parse(
                r->Ok_0.0@,
            )->0.req_body == r->Ok_0.1@,
            r is Ok && old(self)@.fast_state.armor_key is None ==> <crate::types::AsReq as Asn1>::parse(r->Ok_0.0@) == Some(
                KdcReqV {
                    pvno: 5,
                    msg_type: 10,
                    padata: Some(padata_spec(final(self)@, list_view(preauth@))),
                    req_body: r->Ok_0.1@,
                },
            ),
    {
        self.nonce = draws.request_nonce();
        let req_body = match self.request_body(now) {
            Ok(b) => b,
            Err(e) => return Err(e),
        };
        let padata = self.request_padata(preauth);
        let body_der = req_body.encode();
        let kdc_req = KdcReq { pvno: 5, msg_type: 10, padata: Some(padata), req_body: req_body.dup() };
        match self.fast_state.prep_req_with(&kdc_req, &body_der, FastMsgType::As, &draws.fast) {
            Ok(der) => Ok((der, req_body)),
            Err(e) => Err(e),
        }
    }

    /// Builds a request to be sent.
    pub(super) fn send_request(&mut self, preauth: Vec<PaData>, now: Moment, draws: &Draws) -> (r: Result<StepResult, Krb5Error>)
        ensures
            (final(self)@, outcome(r)) == send_spec(old(self)@, list_view(preauth@), now, draws@),
            request_kept(final(self)@, outcome(r)),
            list_view(preauth@) == preauth_of(old(self)@, now, draws@) ==> request_reads(
                final(self)@,
                outcome(r),
                now,
                draws@,
            ),
    {
        reveal(send_spec);
        reveal(body_spec);
        match self.build_as_req(preauth, now, draws) {
            Err(e) => Err(e),
            Ok((der, body)) => {
                self.last_req_body = Some(body);
                self.last_req_bytes = copy(&der);
                Ok(StepResult::SendToKdc { data: der, realm: self.config.realm.clone() })
            },
        }
    }

    /// Restart the exchange from the initial (no-preauth) request: drops the
    /// cookie, preauth hint and loop state, and rebuilds the FAST state,
    /// arming it when `fast_upgrade` or FAST-required is set. `restarted` is
    /// caller-managed.
    pub(super) fn restart(&mut self, fast_upgrade: bool, now: Moment, draws: &Draws) -> (r: Result<StepResult, Krb5Error>)
        ensures
            (final(self)@, outcome(r)) == restart_spec(old(self)@, fast_upgrade, now, draws@),
            request_kept(final(self)@, outcome(r)),
            request_reads(final(self)@, outcome(r), now, draws@),
    {
        reveal(restart_spec);
        self.cookie = None;
        self.last_preauth_salt = None;
        self.last_s2kparams = None;
        self.last_preauth_etype = None;
        self.method_padata = None;
        self.selected_preauth_type = None;
        self.preauth_failed = Vec::new();
        assert(self.preauth_failed@ =~= Seq::empty());
        self.loop_count = 0;
        self.preauth_sent = false;
        let do_fast = self.config.fast.required() || fast_upgrade;
        match self.reset_fast_state(do_fast, now, draws) {
            Ok(()) => {},
            Err(e) => return Err(e),
        }
        let none: Vec<PaData> = Vec::new();
        assert(list_view(none@) =~= Seq::empty());
        self.send_request(none, now, draws)
    }

    /// Current time for preauth, applying the KDC offset when permitted.
    pub fn preauth_time(&self, allow_unauth: bool, now: Moment) -> (r: (KerberosTime, i32))
        ensures
            r.0@ == stamp_of(preauth_clock(self@, allow_unauth, now)),
            r.1 == usec_of(preauth_clock(self@, allow_unauth, now)),
    {
        let here: i128 = now.total_nanos();
        let shift: i128 = match &self.pa_offset {
            Some(o) => {
                let (n, auth) = o.nanos();
                if allow_unauth || auth { n } else { 0 }
            },
            None => 0,
        };
        split_nanos(here + shift)
    }

    /// Record the KDC time offset from a preauth error.
    pub(super) fn note_req_timestamp(&mut self, stime: KerberosTime, susec: i32, now: Moment)
        ensures
            final(self)@ == note_spec(old(self)@, stime@, susec, now),
    {
        self.pa_offset = Some(PaOffset::between(stime, susec, now, self.fast_state.armor_key.is_some()));
    }

    /// Default salt from realm and client principal components.
    pub fn default_salt(&self) -> (r: Vec<u8>)
        ensures
            r@ == own_salt(self@),
    {
        default_salt(&self.config.realm, &self.config.client)
    }

    fn salt_in_use(&self) -> (r: Vec<u8>)
        ensures
            r@ == hint_salt(self@),
    {
        match &self.last_preauth_salt {
            Some(s) => copy(s),
            None => self.default_salt(),
        }
    }

    fn etype_in_use(&self) -> (r: i32)
        ensures
            r == hint_etype(self@),
    {
        match self.last_preauth_etype {
            Some(e) => e,
            None => 18,
        }
    }

    fn params_in_use(&self) -> (r: Option<&[u8]>)
        ensures
            crate::crypto::profile::opt_seq(r) == self@.last_s2kparams,
    {
        match &self.last_s2kparams {
            Some(p) => Some(p.as_slice()),
            None => None,
        }
    }

    fn challenge_answer(&self, armor_key: &crate::types::EncryptionKey, now: Moment, draws: &Draws) -> (r: Result<PaData, Krb5Error>)
        ensures
            outcome(r) == answer_challenge(self@, armor_key@, now, draws@),
    {
        let salt = self.salt_in_use();
        let key = match client_key(self.etype_in_use(), self.password.as_str().as_bytes(), &salt, self.params_in_use()) {
            Ok(k) => k,
            Err(e) => return Err(e),
        };
        let (ts, usec) = self.preauth_time(false, now);
        build_pa_encrypted_challenge_with(armor_key, &key, ts, Some(usec), &draws.pa)
    }

    fn timestamp_answer(&self, now: Moment, draws: &Draws) -> (r: Result<PaData, Krb5Error>)
        ensures
            outcome(r) == answer_timestamp(self@, now, draws@),
    {
        let (ts, usec) = self.preauth_time(true, now);
        let salt = self.salt_in_use();
        build_pa_enc_timestamp(
            self.password.as_str().as_bytes(),
            &salt,
            self.params_in_use(),
            self.etype_in_use(),
            ts,
            Some(usec),
            &draws.pa,
        )
    }

    /// The first real preauth mechanism the method data offers that we can
    /// answer.
    pub fn choose_preauth(&self, method: &[PaData]) -> (r: Option<i32>)
        ensures
            r == choice_spec(self@, list_view(method@)),
            r matches Some(t) ==> answerable(self@, t),
    {
        let ghost all = list_view(method@);
        let mut i: usize = 0;
        assert(all.skip(0) =~= all);
        while i < method.len()
            invariant
                i <= method@.len(),
                all == list_view(method@),
                choice_spec(self@, all.skip(i as int)) == choice_spec(self@, all),
            decreases method@.len() - i,
        {
            assert(all.skip(i as int).drop_first() =~= all.skip(i + 1));
            assert(all.skip(i as int)[0] == method@[i as int]@);
            let t: i32 = method[i].padata_type;
            let known = t == PaDataType::ENC_TIMESTAMP || (t == PaDataType::ENCRYPTED_CHALLENGE
                && self.fast_state.armor_key.is_some());
            if known && !has_etype(&self.preauth_failed, t) {
                return Some(t);
            }
            i = i + 1;
        }
        assert(all.skip(i as int).len() == 0);
        None
    }

    fn select_preauth(&mut self, method: &[PaData], now: Moment, draws: &Draws) -> (r: Result<PaData, Krb5Error>)
        ensures
            (final(self)@, outcome(r)) == select_spec(old(self)@, list_view(method@), now, draws@),
    {
        let t: i32 = match self.choose_preauth(method) {
            Some(t) => t,
            None => return Err(Krb5Error::PreauthFailed),
        };
        let answer = if t == PaDataType::ENC_TIMESTAMP {
            self.timestamp_answer(now, draws)
        } else {
            match self.fast_state.armor_key() {
                Some(k) => self.challenge_answer(k, now, draws),
                None => Err(Krb5Error::PreauthFailed),
            }
        };
        match answer {
            Ok(pa) => {
                self.selected_preauth_type = Some(t);
                Ok(pa)
            },
            Err(e) => Err(e),
        }
    }

    fn learn(&mut self, method: &[PaData]) -> (r: Result<(), Krb5Error>)
        ensures
            (final(self)@, outcome(r)) == learn_spec(old(self)@, list_view(method@)),
    {
        self.cookie = match pa_index(method, PaDataType::FX_COOKIE) {
            Some(i) => Some(copy(&method[i].padata_value)),
            None => None,
        };
        match extract_preauth_hint_padata(method, &self.config.etypes) {
            Ok(h) => {
                self.last_preauth_salt = h.salt;
                self.last_s2kparams = h.s2kparams;
                self.last_preauth_etype = Some(h.etype);
                Ok(())
            },
            Err(e) => {
                if self.last_preauth_etype.is_none() {
                    return Err(e);
                }
                Ok(())
            },
        }
    }

    /// Build the next AS-REQ carrying preauth answered from the method data.
    pub(super) fn send_preauth_request(&mut self, now: Moment, draws: &Draws) -> (r: Result<StepResult, Krb5Error>)
        ensures
            (final(self)@, outcome(r)) == send_preauth_spec(old(self)@, now, draws@),
            request_kept(final(self)@, outcome(r)),
            request_reads(final(self)@, outcome(r), now, draws@),
    {
        reveal(send_preauth_spec);
        let method = match &self.method_padata {
            Some(m) => dup_list(m),
            None => return Err(Krb5Error::ReplyValidation("PREAUTH_REQUIRED without e-data")),
        };
        match self.learn(&method) {
            Ok(()) => {},
            Err(e) => return Err(e),
        }
        let pa = match self.select_preauth(&method, now, draws) {
            Ok(p) => p,
            Err(e) => return Err(e),
        };
        self.preauth_sent = true;
        let mut list: Vec<PaData> = Vec::new();
        let ghost pav = pa@;
        list.push(pa);
        assert(list_view(list@) =~= seq![pav]);
        self.send_request(list, now, draws)
    }
}

/// A copy of a list of numbers.
pub fn dup_i32(v: &Vec<i32>) -> (r: Vec<i32>)
    ensures
        r@ == v@,
{
    let mut out: Vec<i32> = Vec::new();
    let mut i: usize = 0;
    while i < v.len()
        invariant
            i <= v@.len(),
            out@ == v@.take(i as int),
        decreases v@.len() - i,
    {
        out.push(v[i]);
        i = i + 1;
        assert(out@ =~= v@.take(i as int));
    }
    assert(v@.take(i as int) =~= v@);
    out
}

} // verus!
