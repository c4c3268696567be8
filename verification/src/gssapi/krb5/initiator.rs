//! Initiator-side context establishment.
use vstd::prelude::*;

use crate::asn1::{Asn1, Dup};
use crate::bytes::{append, cut, get_be16, le16, le32, put_le16, put_le32, read_be16, same, zero_bytes, zeros};
use crate::der::{list_view, opt_view};
use crate::error::{outcome, Krb5Error, Krb5ErrorV};
use crate::gssapi::krb5::context::{partial_spec, Krb5Context, Krb5ContextV};
use crate::gssapi::krb5::{cb_checksum, cb_spec, gss, gss_err, ChannelBindings, ChannelBindingsV, InitStep, InitStepV, CKSUM_GSS_CBINDINGS, KRB5_GSS_FOR_CREDS_OPTION, MECH_KRB5, TOK_AP_REP, TOK_AP_REQ, TOK_CTX_ERROR};
use crate::gssapi::seqstate::{fresh_seq_state, SeqState};
use crate::gssapi::token::{frame_token, header_spec, parse_header_spec, parse_token_header};
use crate::gssapi::{GssError, GssFlags};
use crate::protocol::ap::cred::mk_cred_spec;
use crate::protocol::ap::req_rep::{mk_req_spec, rd_rep_spec};
use crate::protocol::ap::{fresh_context, fresh_seq_spec, ApReqOptions, AuthContext, AuthContextFlags, AuthContextV, Entropy, EntropyV};
use crate::protocol::credential::{Credential, CredentialV};
use crate::time::Moment;
use crate::types::names::has_flags;
use crate::types::{KrbErrorMsg, TicketFlags};

verus! {

/// The requested flags that go on the wire.
pub const WIRE_FLAGS: u32 = 0x703F;
/// The flags that are always on: TRANS, CONF and INTEG.
pub const ALWAYS_FLAGS: u32 = 0x130;
/// DELEG and DELEG_POLICY.
pub const DELEG_FLAGS: u32 = 0x8001;
/// All flags but DELEG and DELEG_POLICY.
pub const NOT_DELEG: u32 = 0xFFFF_7FFE;
/// The most octets of a delegated credential's message.
pub const MAX_CREDMSG: usize = 0x7FE3;

/// Initiator-side context establishment.
pub struct Krb5Initiator {
    pub cred: Credential,
    pub tgt: Option<Credential>,
    pub req_flags: u32,
    pub cb: Option<ChannelBindings>,
    pub ac: Option<AuthContext>,
    pub gss_flags: u32,
    pub ctx: Option<Krb5Context>,
    /// Set after the AP-REQ is emitted; `step` then expects the AP-REP.
    pub awaiting_rep: bool,
    pub done: bool,
}

/// Model of [`Krb5Initiator`].
pub struct Krb5InitiatorV {
    pub cred: CredentialV,
    pub tgt: Option<CredentialV>,
    pub req_flags: u32,
    pub cb: Option<ChannelBindingsV>,
    pub ac: Option<AuthContextV>,
    pub gss_flags: u32,
    pub ctx: Option<Krb5ContextV>,
    pub awaiting_rep: bool,
    pub done: bool,
}

impl View for Krb5Initiator {
    type V = Krb5InitiatorV;

    open spec fn view(&self) -> Krb5InitiatorV {
        Krb5InitiatorV {
            cred: self.cred@,
            tgt: opt_view(self.tgt),
            req_flags: self.req_flags,
            cb: opt_view(self.cb),
            ac: opt_view(self.ac),
            gss_flags: self.gss_flags,
            ctx: opt_view(self.ctx),
            awaiting_rep: self.awaiting_rep,
            done: self.done,
        }
    }
}

/// The flags a new initiator asks for: DELEG_POLICY asks for delegation where
/// the ticket allows it, and without a TGT there is none.
pub open spec fn initiator_flags(cred: CredentialV, has_tgt: bool, req_flags: u32) -> u32 {
    let base = (req_flags & WIRE_FLAGS) | ALWAYS_FLAGS;
    let f = if has_flags(req_flags, GssFlags::DELEG_POLICY) && has_flags(cred.flags, TicketFlags::OK_AS_DELEGATE) {
        base | DELEG_FLAGS
    } else {
        base
    };
    if has_flags(f, GssFlags::DELEG) && !has_tgt {
        f & NOT_DELEG
    } else {
        f
    }
}

/// The scratch context in which the delegated credential is sent: under the
/// session key, with a fresh sequence number.
pub open spec fn deleg_context(cred: CredentialV, env: EntropyV) -> AuthContextV {
    AuthContextV {
        flags: AuthContextFlags::DO_SEQUENCE,
        key: Some(cred.session_key),
        tkt_key: Some(cred.session_key),
        local_seq: fresh_seq_spec(env),
        ..fresh_context()
    }
}

/// The delegated credential's message, or why there is none.
pub open spec fn deleg_spec(i: Krb5InitiatorV, now: Moment, env: EntropyV) -> Result<Seq<u8>, Krb5ErrorV> {
    match i.tgt {
        None => Err(gss_err(GssError::NoCred)),
        Some(tgt) => match mk_cred_spec(deleg_context(i.cred, env), seq![tgt], now, env).1 {
            Ok((m, _)) => Ok(m),
            Err(e) => Err(e),
        },
    }
}

/// The body of the GSS authenticator checksum.
pub open spec fn gss_cksum_body(cb: Option<ChannelBindingsV>, flags: u32, credmsg: Option<Seq<u8>>) -> Seq<u8> {
    le32(16) + (match cb {
        Some(c) => cb_spec(c),
        None => zeros(16),
    }) + le32(flags) + (match credmsg {
        Some(m) => le16(KRB5_GSS_FOR_CREDS_OPTION) + le16(m.len() as u16) + m,
        None => Seq::empty(),
    })
}

/// The AP-REQ options that flags ask for.
pub open spec fn gss_req_options(flags: u32, req_flags: u32) -> ApReqOptions {
    ApReqOptions {
        mutual_required: has_flags(flags, GssFlags::MUTUAL),
        use_session_key: false,
        use_subkey: true,
        etype_negotiation: has_flags(flags, GssFlags::MUTUAL),
        cbt: has_flags(req_flags, GssFlags::CHANNEL_BOUND),
    }
}

/// The context in which the AP-REQ is made.
pub open spec fn gss_req_context(local_seq: u32) -> AuthContextV {
    AuthContextV {
        flags: AuthContextFlags::DO_SEQUENCE,
        req_cksumtype: CKSUM_GSS_CBINDINGS,
        local_seq,
        ..fresh_context()
    }
}

/// The GSS context of an initiator whose AP-REQ was made in `ac`.
pub open spec fn initiator_context(cred: CredentialV, ac: AuthContextV, flags: u32) -> Krb5ContextV {
    partial_spec(
        flags,
        true,
        cred.client,
        cred.crealm,
        cred.server,
        cred.times.endtime,
        match ac.send_subkey {
            Some(k) => k,
            None => cred.session_key,
        },
        ac.local_seq as u64,
    )
}

/// An initiator's state after its AP-REQ was made in `ac`, and what it
/// returns: without mutual authentication the context is established at once.
pub open spec fn req_made_spec(i: Krb5InitiatorV, flags: u32, ac: AuthContextV, ap_req: Seq<u8>) -> (
    Krb5InitiatorV,
    InitStepV,
) {
    let token = header_spec(MECH_KRB5@, ap_req.len(), Some(TOK_AP_REQ)) + ap_req;
    if has_flags(flags, GssFlags::MUTUAL) {
        (
            Krb5InitiatorV {
                gss_flags: flags,
                ac: Some(ac),
                ctx: Some(initiator_context(i.cred, ac, flags)),
                awaiting_rep: true,
                ..i
            },
            InitStepV::Continue(token),
        )
    } else {
        (
            Krb5InitiatorV {
                gss_flags: flags,
                ctx: Some(
                    Krb5ContextV {
                        seqstate: fresh_seq_state(
                            ac.local_seq as u64,
                            has_flags(flags, GssFlags::REPLAY),
                            has_flags(flags, GssFlags::SEQUENCE),
                            true,
                        ),
                        ..initiator_context(i.cred, ac, flags | GssFlags::PROT_READY)
                    },
                ),
                done: true,
                ..i
            },
            InitStepV::Complete(Some(token)),
        )
    }
}

/// The first step of an initiator: `credmsg` is the delegated credential's
/// message where there is one.
pub open spec fn send_req_spec(i: Krb5InitiatorV, flags: u32, credmsg: Option<Seq<u8>>, local_seq: u32, now: Moment, env: EntropyV) -> (
    Krb5InitiatorV,
    Result<InitStepV, Krb5ErrorV>,
) {
    let (ac, r) = mk_req_spec(
        gss_req_context(local_seq),
        gss_req_options(flags, i.req_flags),
        Some(gss_cksum_body(i.cb, flags, credmsg)),
        i.cred,
        now,
        env,
    );
    match r {
        Err(e) => (i, Err(e)),
        Ok(ap_req) => {
            let (i2, out) = req_made_spec(i, flags, ac, ap_req);
            (i2, Ok(out))
        },
    }
}

/// The first step of an initiator. A delegation that fails is left out; a
/// message too long for the checksum is an error.
pub open spec fn first_step_spec(i: Krb5InitiatorV, now: Moment, deleg_env: EntropyV, env: EntropyV) -> (
    Krb5InitiatorV,
    Result<InitStepV, Krb5ErrorV>,
) {
    if !has_flags(i.gss_flags, GssFlags::DELEG) {
        send_req_spec(i, i.gss_flags, None, 0, now, env)
    } else {
        match deleg_spec(i, now, deleg_env) {
            Err(_) => send_req_spec(i, i.gss_flags & NOT_DELEG, None, 0, now, env),
            Ok(m) => if m.len() > MAX_CREDMSG {
                (i, Err(gss_err(GssError::Failure)))
            } else {
                send_req_spec(i, i.gss_flags, Some(m), (fresh_seq_spec(deleg_env) + 1) as u32, now, env)
            },
        }
    }
}

/// The second step of an initiator: the acceptor's AP-REP or error.
pub open spec fn mutual_auth_spec(i: Krb5InitiatorV, token: Seq<u8>) -> (Krb5InitiatorV, Result<InitStepV, Krb5ErrorV>) {
    let defective = (i, Err(gss_err(GssError::DefectiveToken)));
    match parse_header_spec(token) {
        None => defective,
        Some((mech, body)) => if mech != MECH_KRB5@ || body.len() < 2 {
            defective
        } else if get_be16(body, 0) == TOK_CTX_ERROR {
            match <KrbErrorMsg as Asn1>::parse(body.skip(2)) {
                None => defective,
                Some(m) => (i, Err(Krb5ErrorV::KdcError(m))),
            }
        } else if get_be16(body, 0) != TOK_AP_REP {
            defective
        } else {
            match i.ac {
                None => (i, Err(gss_err(GssError::NoContext))),
                Some(ac) => {
                    let (ac2, r) = rd_rep_spec(ac, body.skip(2));
                    match r {
                        Err(e) => (Krb5InitiatorV { ac: Some(ac2), ..i }, Err(e)),
                        Ok(enc) => match i.ctx {
                            None => (Krb5InitiatorV { ac: Some(ac2), ..i }, Err(gss_err(GssError::NoContext))),
                            Some(ctx) => (
                                Krb5InitiatorV {
                                    ac: Some(ac2),
                                    ctx: Some(
                                        Krb5ContextV {
                                            seqstate: fresh_seq_state(
                                                ac2.remote_seq as u64,
                                                has_flags(ctx.flags, GssFlags::REPLAY),
                                                has_flags(ctx.flags, GssFlags::SEQUENCE),
                                                true,
                                            ),
                                            acceptor_subkey: if enc.subkey is Some {
                                                enc.subkey
                                            } else {
                                                ctx.acceptor_subkey
                                            },
                                            flags: ctx.flags | GssFlags::PROT_READY,
                                            ..ctx
                                        },
                                    ),
                                    done: true,
                                    ..i
                                },
                                Ok(InitStepV::Complete(None)),
                            ),
                        },
                    }
                },
            }
        },
    }
}

/// What one step of an initiator does and returns.
pub open spec fn init_step_spec(i: Krb5InitiatorV, input: Option<Seq<u8>>, now: Moment, deleg_env: EntropyV, env: EntropyV) -> (
    Krb5InitiatorV,
    Result<InitStepV, Krb5ErrorV>,
) {
    if i.done {
        (i, Err(gss_err(GssError::ContextEstablished)))
    } else if !i.awaiting_rep {
        match input {
            Some(_) => (i, Err(gss_err(GssError::DefectiveToken))),
            None => first_step_spec(i, now, deleg_env, env),
        }
    } else {
        match input {
            None => (i, Err(gss_err(GssError::DefectiveToken))),
            Some(t) => mutual_auth_spec(i, t),
        }
    }
}

/// A context is handed out once the exchange is done, and then there is one,
/// with TRANS and PROT_READY among its flags: this holds of a new initiator
/// and every step keeps it.
pub open spec fn initiator_ok(i: Krb5InitiatorV) -> bool {
    &&& has_flags(i.gss_flags, GssFlags::TRANS)
    &&& i.ctx matches Some(c) ==> has_flags(c.flags, GssFlags::TRANS)
    &&& i.done ==> i.ctx is Some && has_flags(i.ctx->0.flags, GssFlags::PROT_READY)
}

proof fn lemma_flags_kept(f: u32)
    ensures
        has_flags(f | GssFlags::PROT_READY, GssFlags::PROT_READY),
        has_flags(f, GssFlags::TRANS) ==> has_flags(f | GssFlags::PROT_READY, GssFlags::TRANS) && has_flags(
            f & NOT_DELEG,
            GssFlags::TRANS,
        ),
{
    assert((f | 0x80u32) & 0x80u32 == 0x80u32) by (bit_vector);
    assert(f & 0x100u32 == 0x100u32 ==> (f | 0x80u32) & 0x100u32 == 0x100u32 && (f & 0xFFFF_7FFEu32) & 0x100u32
        == 0x100u32) by (bit_vector);
}

/// Every step of an initiator keeps its invariant, and a step that completes
/// leaves an established context behind, whose flags hold TRANS and
/// PROT_READY.
pub proof fn law_initiator_invariant(i: Krb5InitiatorV, input: Option<Seq<u8>>, now: Moment, deleg_env: EntropyV, env: EntropyV)
    requires
        initiator_ok(i),
    ensures
        initiator_ok(init_step_spec(i, input, now, deleg_env, env).0),
        init_step_spec(i, input, now, deleg_env, env).1 matches Ok(InitStepV::Complete(_)) ==> init_step_spec(
            i,
            input,
            now,
            deleg_env,
            env,
        ).0.done,
{
    lemma_flags_kept(i.gss_flags);
    lemma_flags_kept(i.gss_flags & NOT_DELEG);
    if i.ctx is Some {
        lemma_flags_kept(i.ctx->0.flags);
    }
}

/// An established initiator takes no more tokens.
pub proof fn law_initiator_done(i: Krb5InitiatorV, input: Option<Seq<u8>>, now: Moment, deleg_env: EntropyV, env: EntropyV)
    requires
        i.done,
    ensures
        init_step_spec(i, input, now, deleg_env, env) == (i, Err::<InitStepV, Krb5ErrorV>(
            gss_err(GssError::ContextEstablished),
        )),
{
}

impl Krb5Initiator {
    /// Create an initiator.
    ///
    /// `cred` is the service ticket; `tgt` is the credential to forward when
    /// DELEG applies, forwarded as supplied.
    pub fn new(cred: Credential, tgt: Option<Credential>, req_flags: u32, cb: Option<ChannelBindings>) -> (r: Result<
        Self,
        Krb5Error,
    >)
        ensures
            r is Ok,
            r->Ok_0@ == (Krb5InitiatorV {
                cred: cred@,
                tgt: opt_view(tgt),
                req_flags,
                cb: opt_view(cb),
                ac: None,
                gss_flags: initiator_flags(cred@, tgt is Some, req_flags),
                ctx: None,
                awaiting_rep: false,
                done: false,
            }),
            initiator_ok(r->Ok_0@),
    {
        proof {
            let base = (req_flags & WIRE_FLAGS) | ALWAYS_FLAGS;
            assert(((req_flags & 0x703Fu32) | 0x130u32) & 0x100u32 == 0x100u32) by (bit_vector);
            assert(base & 0x100u32 == 0x100u32 ==> (base | 0x8001u32) & 0x100u32 == 0x100u32) by (bit_vector);
            lemma_flags_kept(base);
            lemma_flags_kept(base | DELEG_FLAGS);
        }
        let mut gss_flags: u32 = (req_flags & WIRE_FLAGS) | ALWAYS_FLAGS;
        if req_flags & GssFlags::DELEG_POLICY == GssFlags::DELEG_POLICY && cred.flags.contains(
            TicketFlags::OK_AS_DELEGATE,
        ) {
            gss_flags = gss_flags | DELEG_FLAGS;
        }
        if gss_flags & GssFlags::DELEG == GssFlags::DELEG && tgt.is_none() {
            gss_flags = gss_flags & NOT_DELEG;
        }
        Ok(Krb5Initiator {
            cred,
            tgt,
            req_flags,
            cb,
            ac: None,
            gss_flags,
            ctx: None,
            awaiting_rep: false,
            done: false,
        })
    }

    /// Drive the exchange one step with the given clock reading and random
    /// octets, those of `deleg_env` for the delegated credential.
    pub fn step_with(&mut self, input: Option<&[u8]>, now: Moment, deleg_env: &Entropy, env: &Entropy) -> (r: Result<
        InitStep,
        Krb5Error,
    >)
        ensures
            (final(self)@, outcome(r)) == init_step_spec(
                old(self)@,
                crate::crypto::profile::opt_seq(input),
                now,
                deleg_env@,
                env@,
            ),
    {
        if self.done {
            return Err(gss(GssError::ContextEstablished));
        }
        if !self.awaiting_rep {
            if input.is_some() {
                return Err(gss(GssError::DefectiveToken));
            }
            return self.first_step(now, deleg_env, env);
        }
        match input {
            None => Err(gss(GssError::DefectiveToken)),
            Some(t) => self.mutual_auth(t),
        }
    }

    /// Drive the exchange one step.
    pub fn step(&mut self, input: Option<&[u8]>) -> (r: Result<InitStep, Krb5Error>)
        ensures
            exists|now: Moment, deleg_env: EntropyV, env: EntropyV|
                deleg_env.ok() && env.ok() && (final(self)@, outcome(r)) == #[trigger] init_step_spec(
                    old(self)@,
                    crate::crypto::profile::opt_seq(input),
                    now,
                    deleg_env,
                    env,
                ),
    {
        let now = Moment::now();
        let deleg_env = Entropy::draw();
        let env = Entropy::draw();
        self.step_with(input, now, &deleg_env, &env)
    }

    fn build_credmsg(&self, now: Moment, env: &Entropy) -> (r: Result<Vec<u8>, Krb5Error>)
        ensures
            outcome(r) == deleg_spec(self@, now, env@),
    {
        let tgt = match &self.tgt {
            Some(t) => t.dup(),
            None => return Err(gss(GssError::NoCred)),
        };
        let mut scratch = AuthContext::new();
        scratch.set_flags(AuthContextFlags::DO_SEQUENCE);
        scratch.set_session_key(self.cred.session_key.dup());
        scratch.set_local_seq_number(env.fresh_seq());
        let mut creds: Vec<Credential> = Vec::new();
        creds.push(tgt);
        assert(list_view(creds@) =~= seq![tgt@]);
        match scratch.mk_cred_with(&creds, now, env) {
            Ok((m, _)) => Ok(m),
            Err(e) => Err(e),
        }
    }

    fn cksum_body(&self, flags: u32, credmsg: &Option<Vec<u8>>) -> (r: Vec<u8>)
        requires
            credmsg matches Some(m) ==> m@.len() <= MAX_CREDMSG,
        ensures
            r@ == gss_cksum_body(self@.cb, flags, opt_view(*credmsg)),
    {
        let mut body: Vec<u8> = Vec::new();
        put_le32(&mut body, 16);
        match &self.cb {
            Some(cb) => {
                let sum = cb_checksum(cb);
                append(&mut body, &sum);
            },
            None => {
                let z = zero_bytes(16);
                append(&mut body, &z);
            },
        }
        put_le32(&mut body, flags);
        match credmsg {
            Some(m) => {
                put_le16(&mut body, KRB5_GSS_FOR_CREDS_OPTION);
                put_le16(&mut body, m.len() as u16);
                append(&mut body, m);
            },
            None => {},
        }
        assert(body@ =~= gss_cksum_body(self@.cb, flags, opt_view(*credmsg)));
        body
    }

    /// Sends the AP-REQ, with the delegated credential's message where there
    /// is one.
    pub fn send_req(&mut self, flags: u32, credmsg: Option<Vec<u8>>, local_seq: u32, now: Moment, env: &Entropy) -> (r: Result<
        InitStep,
        Krb5Error,
    >)
        requires
            credmsg matches Some(m) ==> m@.len() <= MAX_CREDMSG,
        ensures
            (final(self)@, outcome(r)) == send_req_spec(old(self)@, flags, opt_view(credmsg), local_seq, now, env@),
    {
        let mutual = flags & GssFlags::MUTUAL == GssFlags::MUTUAL;
        let mut ac = AuthContext::new();
        ac.set_flags(AuthContextFlags::DO_SEQUENCE);
        ac.set_req_cksumtype(CKSUM_GSS_CBINDINGS);
        ac.set_local_seq_number(local_seq);
        let body = self.cksum_body(flags, &credmsg);
        let opts = ApReqOptions {
            mutual_required: mutual,
            use_session_key: false,
            use_subkey: true,
            etype_negotiation: mutual,
            cbt: self.req_flags & GssFlags::CHANNEL_BOUND == GssFlags::CHANNEL_BOUND,
        };
        let ap_req = match ac.mk_req_with(&opts, Some(&body), &self.cred, now, env) {
            Ok(b) => b,
            Err(e) => return Err(e),
        };
        Ok(self.req_made(flags, ac, &ap_req))
    }

    fn req_made(&mut self, flags: u32, ac: AuthContext, ap_req: &[u8]) -> (r: InitStep)
        ensures
            (final(self)@, r@) == req_made_spec(old(self)@, flags, ac@, ap_req@),
    {
        let token = frame_token(&MECH_KRB5, TOK_AP_REQ, ap_req);
        let mutual = flags & GssFlags::MUTUAL == GssFlags::MUTUAL;
        let key = match &ac.send_subkey {
            Some(k) => k.dup(),
            None => self.cred.session_key.dup(),
        };
        let seq_send: u64 = ac.local_seq as u64;
        self.gss_flags = flags;
        let mut ctx = Krb5Context::partial(
            if mutual { flags } else { flags | GssFlags::PROT_READY },
            true,
            self.cred.client.dup(),
            self.cred.crealm.clone(),
            self.cred.server.dup(),
            self.cred.times.endtime,
            key,
            seq_send,
        );
        if mutual {
            self.ac = Some(ac);
            self.ctx = Some(ctx);
            self.awaiting_rep = true;
            InitStep::Continue(token)
        } else {
            ctx.seqstate = SeqState::new(
                seq_send,
                flags & GssFlags::REPLAY == GssFlags::REPLAY,
                flags & GssFlags::SEQUENCE == GssFlags::SEQUENCE,
                true,
            );
            self.ctx = Some(ctx);
            self.done = true;
            InitStep::Complete(Some(token))
        }
    }

    fn first_step(&mut self, now: Moment, deleg_env: &Entropy, env: &Entropy) -> (r: Result<InitStep, Krb5Error>)
        ensures
            (final(self)@, outcome(r)) == first_step_spec(old(self)@, now, deleg_env@, env@),
    {
        let flags: u32 = self.gss_flags;
        if flags & GssFlags::DELEG != GssFlags::DELEG {
            return self.send_req(flags, None, 0, now, env);
        }
        match self.build_credmsg(now, deleg_env) {
            Err(_) => self.send_req(flags & NOT_DELEG, None, 0, now, env),
            Ok(m) => {
                if m.len() > MAX_CREDMSG {
                    return Err(gss(GssError::Failure));
                }
                self.send_req(flags, Some(m), deleg_env.fresh_seq() + 1, now, env)
            },
        }
    }

    fn mutual_auth(&mut self, token: &[u8]) -> (r: Result<InitStep, Krb5Error>)
        ensures
            (final(self)@, outcome(r)) == mutual_auth_spec(old(self)@, token@),
    {
        let (mech, body) = match parse_token_header(token) {
            Some(x) => x,
            None => return Err(gss(GssError::DefectiveToken)),
        };
        if !same(mech, &MECH_KRB5) || body.len() < 2 {
            return Err(gss(GssError::DefectiveToken));
        }
        let toktype: u16 = read_be16(body, 0);
        let rest = cut(body, 2, body.len());
        assert(rest@ =~= body@.skip(2));
        if toktype == TOK_CTX_ERROR {
            return match <KrbErrorMsg as Asn1>::decode(&rest) {
                Some(m) => Err(Krb5Error::from_error_msg(m)),
                None => Err(gss(GssError::DefectiveToken)),
            };
        }
        if toktype != TOK_AP_REP {
            return Err(gss(GssError::DefectiveToken));
        }
        let mut ac = match self.ac.take() {
            Some(a) => a,
            None => return Err(gss(GssError::NoContext)),
        };
        let r = ac.rd_rep(&rest);
        let remote_seq: u64 = ac.remote_seq as u64;
        self.ac = Some(ac);
        let enc = match r {
            Ok(e) => e,
            Err(e) => return Err(e),
        };
        let mut ctx = match self.ctx.take() {
            Some(c) => c,
            None => return Err(gss(GssError::NoContext)),
        };
        ctx.seqstate = SeqState::new(
            remote_seq,
            ctx.flags & GssFlags::REPLAY == GssFlags::REPLAY,
            ctx.flags & GssFlags::SEQUENCE == GssFlags::SEQUENCE,
            true,
        );
        match enc.subkey {
            Some(sub) => {
                ctx.acceptor_subkey = Some(sub);
            },
            None => {},
        }
        ctx.flags = ctx.flags | GssFlags::PROT_READY;
        self.ctx = Some(ctx);
        self.done = true;
        Ok(InitStep::Complete(None))
    }

    /// Extract the established context.
    pub fn context(self) -> (r: Result<Krb5Context, Krb5Error>)
        ensures
            outcome(r) == (if self@.done && self@.ctx is Some {
                Ok::<Krb5ContextV, Krb5ErrorV>(self@.ctx->0)
            } else {
                Err::<Krb5ContextV, Krb5ErrorV>(gss_err(GssError::NoContext))
            }),
    {
        if !self.done {
            return Err(gss(GssError::NoContext));
        }
        match self.ctx {
            Some(c) => Ok(c),
            None => Err(gss(GssError::NoContext)),
        }
    }
}

} // verus!
