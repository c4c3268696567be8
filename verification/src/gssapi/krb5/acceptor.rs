//! Acceptor-side context establishment.
use vstd::prelude::*;

use crate::asn1::{decode_list, list_parse, opt_list_view, Asn1, Dup};
use crate::bytes::{cut, get_be16, get_be32, get_le16, get_le32, le32, put_le32, read_be16, read_be32, read_le16, read_le32, same, zeros};
use crate::crypto::profile::verify_spec;
use crate::crypto::{etype_of_cksum, find_cksumtype, key_usage, EtypeProfile};
use crate::der::{list_view, opt_view};
use crate::error::{outcome, Krb5Error, Krb5ErrorV};
use crate::gssapi::krb5::context::{ends, partial_spec, Krb5Context, Krb5ContextV};
use crate::gssapi::krb5::initiator::{mutual_auth_spec, Krb5InitiatorV};
use crate::gssapi::krb5::{cb_checksum, cb_spec, gss, gss_err, AcceptStep, AcceptStepV, ChannelBindings, ChannelBindingsV, CKSUM_GSS_CBINDINGS, KRB5_GSS_FOR_CREDS_OPTION, MECH_KRB5, TOK_AP_REP, TOK_AP_REQ};
use crate::gssapi::seqstate::{fresh_seq_state, SeqState};
use crate::gssapi::token::{frame_token, header_spec, id_octets, law_token_round_trip, parse_header_spec, parse_token_header};
use crate::gssapi::{GssError, GssFlags};
use crate::protocol::ap::cred::rd_cred_spec;
use crate::protocol::ap::req_rep::{mk_rep_spec, rd_req_spec, rep_agrees};
use crate::protocol::ap::{any_flag, fresh_context, AuthContext, AuthContextFlags, AuthContextV, Entropy, EntropyV, KeySource, RdReqResult, RdReqResultV};
use crate::protocol::credential::{Credential, CredentialV};
use crate::text::{lossy, utf8_lossy};
use crate::time::Moment;
use crate::types::names::has_flags;
use crate::types::{ApOptions, ApReq, Authenticator, AuthenticatorV, AuthorizationDataElement, AuthorizationDataElementV, Checksum, ChecksumV, EncryptionKey, EncryptionKeyV, PrincipalName, PrincipalNameV};

verus! {

/// The flags that mean something to an acceptor.
pub const ACCEPT_FLAGS: u32 = 0x703E;
/// REPLAY and SEQUENCE.
pub const REPLAY_SEQUENCE: u32 = 0x0C;
/// The authorization-data type of AP options.
pub const AD_AP_OPTIONS: i32 = 143;
/// The AP option that asks for channel bindings.
pub const AP_OPTIONS_CBT: u32 = 0x4000;

/// Acceptor-side context establishment.
pub struct Krb5Acceptor<K: KeySource> {
    pub keys: K,
    pub server: Option<PrincipalName>,
    pub cb: Option<ChannelBindings>,
    pub ctx: Option<Krb5Context>,
    pub delegated: Option<Vec<Credential>>,
    pub done: bool,
}

/// Model of [`Krb5Acceptor`], without its keys.
pub struct Krb5AcceptorV {
    pub server: Option<PrincipalNameV>,
    pub cb: Option<ChannelBindingsV>,
    pub ctx: Option<Krb5ContextV>,
    pub delegated: Option<Seq<CredentialV>>,
    pub done: bool,
}

impl<K: KeySource> View for Krb5Acceptor<K> {
    type V = Krb5AcceptorV;

    open spec fn view(&self) -> Krb5AcceptorV {
        Krb5AcceptorV {
            server: opt_view(self.server),
            cb: opt_view(self.cb),
            ctx: opt_view(self.ctx),
            delegated: opt_list_view(self.delegated),
            done: self.done,
        }
    }
}

/// Whether an element asserts the channel-bindings AP option.
pub open spec fn is_cbt(e: AuthorizationDataElementV) -> bool {
    e.ad_type == AD_AP_OPTIONS && e.ad_data == le32(AP_OPTIONS_CBT)
}

/// Whether any element of a list asserts the option.
pub open spec fn any_cbt(es: Seq<AuthorizationDataElementV>) -> bool {
    exists|i: int| 0 <= i < es.len() && is_cbt(#[trigger] es[i])
}

/// Whether an element, or one inside an if-relevant element, asserts it.
pub open spec fn element_cbt(e: AuthorizationDataElementV) -> bool {
    if e.ad_type == 1 {
        match list_parse::<AuthorizationDataElement>(e.ad_data) {
            Some(inner) => any_cbt(inner),
            None => false,
        }
    } else {
        is_cbt(e)
    }
}

/// Whether the client asserts that it knows of channel bindings.
pub open spec fn client_cbt(auth: AuthenticatorV) -> bool {
    match auth.authorization_data {
        Some(es) => any_element_cbt(es),
        None => false,
    }
}

/// Whether any element of a list asserts the option, itself or inside.
pub open spec fn any_element_cbt(es: Seq<AuthorizationDataElementV>) -> bool {
    exists|i: int| 0 <= i < es.len() && element_cbt(#[trigger] es[i])
}

/// Whether extensions are well framed: an identifier, a length, as many
/// octets, and so on to the end.
pub open spec fn extensions_ok(s: Seq<u8>) -> bool
    decreases s.len(),
{
    if s.len() == 0 {
        true
    } else if s.len() < 8 || s.len() < 8 + get_be32(s, 4) {
        false
    } else {
        extensions_ok(s.skip(8 + get_be32(s, 4)))
    }
}

/// Reading a delegated credential: with the context's keys, else without.
/// No replay or sequence check applies.
pub open spec fn read_delegated(ac: AuthContextV, msg: Seq<u8>, now: Moment) -> Result<Seq<CredentialV>, Krb5ErrorV> {
    match rd_cred_spec(AuthContextV { flags: 0, ..ac }, msg, now).1 {
        Ok((cs, _)) => Ok(cs),
        Err(_) => match rd_cred_spec(AuthContextV { flags: 0, ..fresh_context() }, msg, now).1 {
            Ok((cs, _)) => Ok(cs),
            Err(e) => Err(e),
        },
    }
}

/// The GSS checksum's part behind the flags: a delegated credential where
/// the token's flags say so, then extensions. The first component is the
/// delegated credential, which is kept even where the rest is malformed.
pub open spec fn tail_spec(ac: AuthContextV, rest: Seq<u8>, deleg: bool, now: Moment) -> (
    Option<Seq<CredentialV>>,
    Result<(), Krb5ErrorV>,
) {
    let failure = Err(gss_err(GssError::Failure));
    if rest.len() >= 4 && deleg {
        let n = get_le16(rest, 2) as int;
        if get_le16(rest, 0) != KRB5_GSS_FOR_CREDS_OPTION || rest.len() < 4 + n {
            (None, failure)
        } else {
            match read_delegated(ac, rest.subrange(4, 4 + n), now) {
                Err(e) => (None, Err(e)),
                Ok(cs) => (Some(cs), if extensions_ok(rest.skip(4 + n)) { Ok(()) } else { failure }),
            }
        }
    } else {
        (None, if extensions_ok(rest) { Ok(()) } else { failure })
    }
}

/// What an authenticator's checksum says: the flags, whether the channel
/// bindings match, and a delegated credential.
pub open spec fn gss_cksum_spec(cb: Option<ChannelBindingsV>, ac: AuthContextV, data: Seq<u8>, now: Moment) -> (
    Option<Seq<CredentialV>>,
    Result<(u32, bool), Krb5ErrorV>,
) {
    let bound = data.subrange(4, 20);
    let matches = cb is Some && bound == cb_spec(cb->0);
    let token_flags = get_le32(data, 20);
    let deleg = any_flag(token_flags, GssFlags::DELEG);
    let masked = token_flags & ACCEPT_FLAGS;
    let flags = if matches { masked | GssFlags::CHANNEL_BOUND } else { masked };
    if data.len() < 24 {
        (None, Err(gss_err(GssError::BadBindings)))
    } else if get_le32(data, 0) != 16 {
        (None, Err(gss_err(GssError::Failure)))
    } else if cb is Some && bound != zeros(16) && !matches {
        (None, Err(gss_err(GssError::BadBindings)))
    } else {
        let (creds, r) = tail_spec(ac, data.skip(24), deleg, now);
        (
            creds,
            match r {
                Err(e) => Err(e),
                Ok(_) => Ok((if creds is Some { flags | GssFlags::DELEG } else { flags }, matches)),
            },
        )
    }
}

/// What a keyed checksum over nothing says.
pub open spec fn keyed_cksum_spec(c: ChecksumV, session: EncryptionKeyV, ap_options: u32) -> Result<(u32, bool), Krb5ErrorV> {
    match etype_of_cksum(c.cksumtype) {
        None => Err(gss_err(GssError::BadSig)),
        Some(e) => if verify_spec(e, session.keyvalue, key_usage::AP_REQ_AUTH_CKSUM, Seq::empty(), c.checksum) is Ok {
            Ok(
                (
                    if has_flags(ap_options, ApOptions::MUTUAL_REQUIRED) {
                        REPLAY_SEQUENCE | GssFlags::MUTUAL
                    } else {
                        REPLAY_SEQUENCE
                    },
                    false,
                ),
            )
        } else {
            Err(gss_err(GssError::BadSig))
        },
    }
}

/// What the checksum of an authenticator says of any type.
pub open spec fn any_cksum_spec(
    cb: Option<ChannelBindingsV>,
    ac: AuthContextV,
    auth: AuthenticatorV,
    session: EncryptionKeyV,
    ap_options: u32,
    now: Moment,
) -> (Option<Seq<CredentialV>>, Result<(u32, bool), Krb5ErrorV>) {
    match auth.cksum {
        None => (None, Ok((0, false))),
        Some(c) => if c.cksumtype != CKSUM_GSS_CBINDINGS {
            (None, keyed_cksum_spec(c, session, ap_options))
        } else {
            gss_cksum_spec(cb, ac, c.checksum, now)
        },
    }
}

/// The flags of a request: those its checksum says, unless the client knows
/// of channel bindings, the acceptor has some, and they do not match.
#[verifier::opaque]
pub open spec fn process_checksum_spec(
    cb: Option<ChannelBindingsV>,
    ac: AuthContextV,
    auth: AuthenticatorV,
    session: EncryptionKeyV,
    ap_options: u32,
    now: Moment,
) -> (Option<Seq<CredentialV>>, Result<u32, Krb5ErrorV>) {
    let (creds, r) = any_cksum_spec(cb, ac, auth, session, ap_options, now);
    (
        creds,
        match r {
            Err(e) => Err(e),
            Ok((flags, bound)) => if client_cbt(auth) && cb is Some && !bound {
                Err(gss_err(GssError::BadBindings))
            } else {
                Ok(flags)
            },
        },
    )
}

/// The GSS context of an acceptor that took a request in `ac`.
pub open spec fn acceptor_context(ac: AuthContextV, res: RdReqResultV, sname: PrincipalNameV, flags: u32) -> Krb5ContextV {
    Krb5ContextV {
        seqstate: fresh_seq_state(
            ac.remote_seq as u64,
            has_flags(flags, GssFlags::REPLAY),
            has_flags(flags, GssFlags::SEQUENCE),
            true,
        ),
        ..partial_spec(
            flags,
            false,
            res.authenticator.cname,
            utf8_lossy(res.authenticator.crealm),
            sname,
            res.ticket.endtime,
            if ac.recv_subkey is Some { ac.recv_subkey->0 } else { res.ticket.key },
            ac.remote_seq as u64,
        )
    }
}

/// Establishment once the flags are known: with MUTUAL an AP-REP goes back
/// that carries an acceptor subkey.
#[verifier::opaque]
pub open spec fn establish_spec(a: Krb5AcceptorV, ac: AuthContextV, res: RdReqResultV, sname: PrincipalNameV, gss_flags: u32, env: EntropyV) -> (
    Krb5AcceptorV,
    Result<AcceptStepV, Krb5ErrorV>,
) {
    let trans = gss_flags | GssFlags::TRANS;
    let flags = if has_flags(trans, GssFlags::DCE_STYLE) { trans | GssFlags::MUTUAL } else { trans };
    let ctx = acceptor_context(ac, res, sname, flags);
    if has_flags(flags, GssFlags::MUTUAL) {
        let (ac2, r) = mk_rep_spec(
            AuthContextV { flags: ac.flags | AuthContextFlags::USE_SUBKEY, ..ac },
            env,
        );
        match r {
            Err(e) => (a, Err(e)),
            Ok(ap_rep) => (
                Krb5AcceptorV {
                    ctx: Some(
                        Krb5ContextV {
                            seq_send: ac2.local_seq as u64,
                            acceptor_subkey: ac2.send_subkey,
                            flags: flags | GssFlags::PROT_READY,
                            ..ctx
                        },
                    ),
                    done: true,
                    ..a
                },
                Ok(
                    AcceptStepV::Complete {
                        token: Some(header_spec(MECH_KRB5@, ap_rep.len(), Some(TOK_AP_REP)) + ap_rep),
                    },
                ),
            ),
        }
    } else {
        (
            Krb5AcceptorV {
                ctx: Some(Krb5ContextV { flags: flags | GssFlags::PROT_READY, ..ctx }),
                done: true,
                ..a
            },
            Ok(AcceptStepV::Complete { token: None }),
        )
    }
}

/// The AP-REQ in an initial token.
pub open spec fn init_token_body(input: Seq<u8>) -> Option<Seq<u8>> {
    match parse_header_spec(input) {
        None => None,
        Some((mech, body)) => if mech != MECH_KRB5@ || body.len() < 2 || get_be16(body, 0) != TOK_AP_REQ {
            None
        } else {
            Some(body.skip(2))
        },
    }
}

/// An acceptor's step on an AP-REQ that was read in `ac`.
pub open spec fn req_read_spec(a: Krb5AcceptorV, ac: AuthContextV, res: RdReqResultV, sname: PrincipalNameV, now: Moment, env: EntropyV) -> (
    Krb5AcceptorV,
    Result<AcceptStepV, Krb5ErrorV>,
) {
    let (creds, r) = process_checksum_spec(a.cb, ac, res.authenticator, res.ticket.key, res.ap_options, now);
    let a2 = if creds is Some { Krb5AcceptorV { delegated: creds, ..a } } else { a };
    match r {
        Err(e) => (a2, Err(e)),
        Ok(flags) => establish_spec(
            a2,
            AuthContextV { flags: ac.flags | AuthContextFlags::DO_SEQUENCE, ..ac },
            res,
            sname,
            flags,
            env,
        ),
    }
}

/// What one step of an acceptor does and returns.
pub open spec fn accept_step_spec<K: KeySource>(a: Krb5AcceptorV, keys: K, input: Seq<u8>, now: Moment, env: EntropyV) -> (
    Krb5AcceptorV,
    Result<AcceptStepV, Krb5ErrorV>,
) {
    if a.done {
        (a, Err(gss_err(GssError::ContextEstablished)))
    } else {
        match init_token_body(input) {
            None => (a, Err(gss_err(GssError::DefectiveToken))),
            Some(req) => {
                let (ac, r) = rd_req_spec(fresh_context(), req, a.server, keys, now);
                match r {
                    Err(e) => (a, Err(e)),
                    Ok(res) => req_read_spec(
                        a,
                        ac,
                        res,
                        (<ApReq as Asn1>::parse(req)->0).ticket.sname,
                        now,
                        env,
                    ),
                }
            },
        }
    }
}

/// An acceptor's step that completes establishes a context whose flags hold
/// TRANS and PROT_READY, with and without mutual authentication.
pub proof fn law_acceptor_established<K: KeySource>(a: Krb5AcceptorV, keys: K, input: Seq<u8>, now: Moment, env: EntropyV)
    requires
        accept_step_spec(a, keys, input, now, env).1 is Ok,
    ensures
        ({
            let after = accept_step_spec(a, keys, input, now, env).0;
            &&& after.done
            &&& after.ctx is Some
            &&& has_flags(after.ctx->0.flags, GssFlags::TRANS)
            &&& has_flags(after.ctx->0.flags, GssFlags::PROT_READY)
        }),
{
    reveal(establish_spec);
    assert forall|f: u32| has_flags(#[trigger] ((f | GssFlags::TRANS) | GssFlags::PROT_READY), GssFlags::TRANS) && has_flags(
        (f | GssFlags::TRANS) | GssFlags::PROT_READY,
        GssFlags::PROT_READY,
    ) by {
        assert(((f | 0x100u32) | 0x80u32) & 0x100u32 == 0x100u32 && ((f | 0x100u32) | 0x80u32) & 0x80u32 == 0x80u32)
            by (bit_vector);
    }
    assert forall|f: u32|
        has_flags(
            #[trigger] (((f | GssFlags::TRANS) | GssFlags::MUTUAL) | GssFlags::PROT_READY),
            GssFlags::TRANS,
        ) && has_flags(((f | GssFlags::TRANS) | GssFlags::MUTUAL) | GssFlags::PROT_READY, GssFlags::PROT_READY) by {
        assert((((f | 0x100u32) | 0x2u32) | 0x80u32) & 0x100u32 == 0x100u32 && (((f | 0x100u32) | 0x2u32) | 0x80u32)
            & 0x80u32 == 0x80u32) by (bit_vector);
    }
}

/// Whether an initiator that waits for a reply ends up with the acceptor
/// context `ctx` as its other end once it reads `token`.
#[verifier::opaque]
pub open spec fn reply_establishes(i: Krb5InitiatorV, token: Seq<u8>, ctx: Krb5ContextV) -> bool {
    let (after, r) = mutual_auth_spec(i, token);
    r is Ok && after.done && after.ctx is Some && ends(after.ctx->0, ctx)
}

/// Whether an initiator waits for the reply to the request that `ac` holds.
#[verifier::opaque]
pub open spec fn waits_for(i: Krb5InitiatorV, ac: AuthContextV, key: EncryptionKeyV) -> bool {
    &&& i.ac is Some
    &&& i.ac->0.key == ac.key
    &&& i.ac->0.authentp == ac.authentp
    &&& i.ctx is Some
    &&& i.ctx->0.initiate
    &&& i.ctx->0.key == key
}

proof fn lemma_no_flags(m: u32)
    ensures
        !any_flag(0, m),
{
    assert(0u32 & m == 0) by (bit_vector);
}

/// Reading a credential without any flag leaves the context as it was.
proof fn lemma_rd_cred_pure(ac: AuthContextV, msg: Seq<u8>, now: Moment)
    requires
        ac.flags == 0,
    ensures
        rd_cred_spec(ac, msg, now).0 == ac,
{
    lemma_no_flags(AuthContextFlags::DO_TIME);
    lemma_no_flags(AuthContextFlags::DO_SEQUENCE);
}

fn element_is_cbt(e: &AuthorizationDataElement) -> (r: bool)
    ensures
        r == is_cbt(e@),
{
    if e.ad_type != AD_AP_OPTIONS {
        return false;
    }
    let mut want: Vec<u8> = Vec::new();
    put_le32(&mut want, AP_OPTIONS_CBT);
    assert(want@ =~= le32(AP_OPTIONS_CBT));
    same(&e.ad_data, &want)
}

fn list_has_cbt(es: &Vec<AuthorizationDataElement>) -> (r: bool)
    ensures
        r == any_cbt(list_view(es@)),
{
    let mut i: usize = 0;
    while i < es.len()
        invariant
            i <= es@.len(),
            forall|j: int| 0 <= j < i ==> !is_cbt(#[trigger] list_view(es@)[j]),
        decreases es@.len() - i,
    {
        if element_is_cbt(&es[i]) {
            assert(is_cbt(list_view(es@)[i as int]));
            return true;
        }
        i = i + 1;
    }
    false
}

fn element_has_cbt(e: &AuthorizationDataElement) -> (r: bool)
    ensures
        r == element_cbt(e@),
{
    if e.ad_type == 1 {
        match decode_list::<AuthorizationDataElement>(&e.ad_data) {
            Some(inner) => list_has_cbt(&inner),
            None => false,
        }
    } else {
        element_is_cbt(e)
    }
}

fn list_asserts_cbt(es: &Vec<AuthorizationDataElement>) -> (r: bool)
    ensures
        r == any_element_cbt(list_view(es@)),
{
    let mut i: usize = 0;
    while i < es.len()
        invariant
            i <= es@.len(),
            forall|j: int| 0 <= j < i ==> !element_cbt(#[trigger] list_view(es@)[j]),
        decreases es@.len() - i,
    {
        if element_has_cbt(&es[i]) {
            assert(element_cbt(list_view(es@)[i as int]));
            return true;
        }
        i = i + 1;
    }
    false
}

fn asserts_cbt(auth: &Authenticator) -> (r: bool)
    ensures
        r == client_cbt(auth@),
{
    match &auth.authorization_data {
        None => false,
        Some(es) => {
            assert(auth@.authorization_data == Some(list_view(es@)));
            list_asserts_cbt(es)
        },
    }
}

fn check_extensions(s: &[u8]) -> (r: bool)
    ensures
        r == extensions_ok(s@),
{
    let mut i: usize = 0;
    assert(s@.skip(0) =~= s@);
    while i < s.len()
        invariant
            i <= s@.len(),
            extensions_ok(s@) == extensions_ok(s@.skip(i as int)),
        decreases s@.len() - i,
    {
        let ghost rest = s@.skip(i as int);
        if s.len() - i < 8 {
            return false;
        }
        let n: usize = read_be32(s, i + 4) as usize;
        assert(get_be32(rest, 4) == n);
        if n > s.len() - i - 8 {
            return false;
        }
        assert(rest.skip(8 + n) =~= s@.skip(i + 8 + n));
        i = i + 8 + n;
    }
    assert(s@.skip(i as int).len() == 0);
    true
}

fn all_zero(s: &[u8]) -> (r: bool)
    ensures
        r == (s@ == zeros(s@.len())),
{
    let mut i: usize = 0;
    while i < s.len()
        invariant
            i <= s@.len(),
            forall|j: int| 0 <= j < i ==> s@[j] == 0,
        decreases s@.len() - i,
    {
        if s[i] != 0 {
            assert(zeros(s@.len())[i as int] == 0);
            return false;
        }
        i = i + 1;
    }
    assert(s@ =~= zeros(s@.len()));
    true
}

/// What reading a list of credentials returned, by its views.
pub open spec fn cred_list_outcome(r: Result<Vec<Credential>, Krb5Error>) -> Result<Seq<CredentialV>, Krb5ErrorV> {
    match r {
        Ok(cs) => Ok(list_view(cs@)),
        Err(e) => Err(e@),
    }
}

fn open_delegated(ac: &mut AuthContext, msg: &[u8], now: Moment) -> (r: Result<Vec<Credential>, Krb5Error>)
    ensures
        final(ac)@ == old(ac)@,
        cred_list_outcome(r) == read_delegated(old(ac)@, msg@, now),
{
    let saved: u32 = ac.flags;
    ac.set_flags(0);
    proof {
        lemma_rd_cred_pure(ac@, msg@, now);
    }
    let first = ac.rd_cred_at(msg, now);
    ac.set_flags(saved);
    match first {
        Ok((cs, _)) => Ok(cs),
        Err(_) => {
            let mut fresh = AuthContext::new();
            fresh.set_flags(0);
            match fresh.rd_cred_at(msg, now) {
                Ok((cs, _)) => Ok(cs),
                Err(e) => Err(e),
            }
        },
    }
}

fn read_tail(ac: &mut AuthContext, rest: &[u8], deleg: bool, now: Moment) -> (r: (
    Option<Vec<Credential>>,
    Result<(), Krb5Error>,
))
    ensures
        final(ac)@ == old(ac)@,
        opt_list_view(r.0) == tail_spec(old(ac)@, rest@, deleg, now).0,
        outcome(r.1) == tail_spec(old(ac)@, rest@, deleg, now).1,
{
    if rest.len() >= 4 && deleg {
        let n: usize = read_le16(rest, 2) as usize;
        if read_le16(rest, 0) != KRB5_GSS_FOR_CREDS_OPTION || rest.len() - 4 < n {
            return (None, Err(gss(GssError::Failure)));
        }
        let msg = cut(rest, 4, 4 + n);
        let ext = cut(rest, 4 + n, rest.len());
        assert(ext@ =~= rest@.skip(4 + n));
        match open_delegated(ac, &msg, now) {
            Err(e) => (None, Err(e)),
            Ok(cs) => {
                if check_extensions(&ext) {
                    (Some(cs), Ok(()))
                } else {
                    (Some(cs), Err(gss(GssError::Failure)))
                }
            },
        }
    } else if check_extensions(rest) {
        (None, Ok(()))
    } else {
        (None, Err(gss(GssError::Failure)))
    }
}

/// The flags of a checksum, and whether the channel bindings match, by view.
pub open spec fn flags_outcome(r: Result<(u32, bool), Krb5Error>) -> Result<(u32, bool), Krb5ErrorV> {
    match r {
        Ok(x) => Ok(x),
        Err(e) => Err(e@),
    }
}

/// Reads the GSS authenticator checksum.
pub fn read_gss_cksum(cb: &Option<ChannelBindings>, ac: &mut AuthContext, data: &[u8], now: Moment) -> (r: (
    Option<Vec<Credential>>,
    Result<(u32, bool), Krb5Error>,
))
    ensures
        final(ac)@ == old(ac)@,
        opt_list_view(r.0) == gss_cksum_spec(opt_view(*cb), old(ac)@, data@, now).0,
        flags_outcome(r.1) == gss_cksum_spec(opt_view(*cb), old(ac)@, data@, now).1,
{
    if data.len() < 24 {
        return (None, Err(gss(GssError::BadBindings)));
    }
    if read_le32(data, 0) != 16 {
        return (None, Err(gss(GssError::Failure)));
    }
    let bound = cut(data, 4, 20);
    let matches = match cb {
        Some(c) => {
            let sum = cb_checksum(c);
            let m = same(&bound, &sum);
            if !all_zero(&bound) && !m {
                return (None, Err(gss(GssError::BadBindings)));
            }
            m
        },
        None => false,
    };
    let token_flags: u32 = read_le32(data, 20);
    let masked: u32 = token_flags & ACCEPT_FLAGS;
    let flags: u32 = if matches { masked | GssFlags::CHANNEL_BOUND } else { masked };
    let rest = cut(data, 24, data.len());
    assert(rest@ =~= data@.skip(24));
    let (creds, r) = read_tail(ac, &rest, token_flags & GssFlags::DELEG != 0, now);
    match r {
        Err(e) => (creds, Err(e)),
        Ok(()) => {
            let all: u32 = if creds.is_some() { flags | GssFlags::DELEG } else { flags };
            (creds, Ok((all, matches)))
        },
    }
}

fn read_keyed_cksum(c: &Checksum, session: &EncryptionKey, ap_options: u32) -> (r: Result<(u32, bool), Krb5Error>)
    ensures
        flags_outcome(r) == keyed_cksum_spec(c@, session@, ap_options),
{
    let profile = match find_cksumtype(c.cksumtype) {
        Ok(p) => p,
        Err(_) => return Err(gss(GssError::BadSig)),
    };
    let empty: Vec<u8> = Vec::new();
    assert(empty@ =~= Seq::empty());
    match profile.verify_checksum(session.key_bytes(), key_usage::AP_REQ_AUTH_CKSUM, &empty, &c.checksum) {
        Ok(()) => {},
        Err(_) => return Err(gss(GssError::BadSig)),
    }
    if ap_options & ApOptions::MUTUAL_REQUIRED == ApOptions::MUTUAL_REQUIRED {
        Ok((REPLAY_SEQUENCE | GssFlags::MUTUAL, false))
    } else {
        Ok((REPLAY_SEQUENCE, false))
    }
}

impl<K: KeySource> Krb5Acceptor<K> {
    /// Create an acceptor. `keys` resolves the service ticket key; `server`
    /// restricts the accepted service principal.
    pub fn new(keys: K, server: Option<PrincipalName>, cb: Option<ChannelBindings>) -> (r: Self)
        ensures
            r.keys == keys,
            r@ == (Krb5AcceptorV {
                server: opt_view(server),
                cb: opt_view(cb),
                ctx: None,
                delegated: None,
                done: false,
            }),
    {
        Krb5Acceptor { keys, server, cb, ctx: None, delegated: None, done: false }
    }

    /// The flags of a request, from its authenticator's checksum; a delegated
    /// credential is kept.
    pub fn process_checksum(&mut self, ac: &mut AuthContext, auth: &Authenticator, session: &EncryptionKey, ap_options: u32, now: Moment) -> (r: Result<
        u32,
        Krb5Error,
    >)
        ensures
            final(ac)@ == old(ac)@,
            final(self).keys == old(self).keys,
            ({
                let (creds, out) = process_checksum_spec(
                    old(self)@.cb,
                    old(ac)@,
                    auth@,
                    session@,
                    ap_options,
                    now,
                );
                &&& outcome(r) == out
                &&& final(self)@ == (Krb5AcceptorV {
                    delegated: if creds is Some { creds } else { old(self)@.delegated },
                    ..old(self)@
                })
            }),
    {
        reveal(process_checksum_spec);
        let (creds, r) = match &auth.cksum {
            None => (None, Ok((0, false))),
            Some(c) => if c.cksumtype != CKSUM_GSS_CBINDINGS {
                (None, read_keyed_cksum(c, session, ap_options))
            } else {
                read_gss_cksum(&self.cb, ac, &c.checksum, now)
            },
        };
        if creds.is_some() {
            self.delegated = creds;
        }
        let (flags, bound) = match r {
            Ok(x) => x,
            Err(e) => return Err(e),
        };
        if asserts_cbt(auth) && self.cb.is_some() && !bound {
            return Err(gss(GssError::BadBindings));
        }
        Ok(flags)
    }

    /// Process an initial context token with the given clock reading and
    /// random octets. Where a reply goes back, the initiator that waits for
    /// it ends up with the other end of the established context.
    pub fn step_with(&mut self, input: &[u8], now: Moment, env: &Entropy) -> (r: Result<AcceptStep, Krb5Error>)
        ensures
            (final(self)@, outcome(r)) == accept_step_spec(old(self)@, old(self).keys, input@, now, env@),
            final(self).keys == old(self).keys,
            r matches Ok(AcceptStep::Complete { token: Some(t) }) ==> t@.len() < 0x1_0000_0000 ==> ({
                let ac = rd_req_spec(
                    fresh_context(),
                    init_token_body(input@)->0,
                    old(self)@.server,
                    old(self).keys,
                    now,
                ).0;
                forall|i: Krb5InitiatorV|
                    waits_for(i, ac, final(self)@.ctx->0.key) ==> #[trigger] reply_establishes(
                        i,
                        t@,
                        final(self)@.ctx->0,
                    )
            }),
    {
        reveal(waits_for);
        if self.done {
            return Err(gss(GssError::ContextEstablished));
        }
        let (mech, body) = match parse_token_header(input) {
            Some(x) => x,
            None => return Err(gss(GssError::DefectiveToken)),
        };
        if !same(mech, &MECH_KRB5) || body.len() < 2 || read_be16(body, 0) != TOK_AP_REQ {
            return Err(gss(GssError::DefectiveToken));
        }
        let req = cut(body, 2, body.len());
        assert(req@ =~= body@.skip(2));
        let mut ac = AuthContext::new();
        let sname = match <ApReq as Asn1>::decode(&req) {
            Some(q) => q.ticket.sname,
            None => PrincipalName::empty(),
        };
        let res = match ac.rd_req_at(&req, self.server.as_ref(), &self.keys, now) {
            Ok(x) => x,
            Err(e) => return Err(e),
        };
        let flags = match self.process_checksum(
            &mut ac,
            &res.authenticator,
            &res.ticket.key,
            res.ap_options.bits,
            now,
        ) {
            Ok(f) => f,
            Err(e) => return Err(e),
        };
        ac.set_flags(ac.flags | AuthContextFlags::DO_SEQUENCE);
        self.establish(ac, &res, sname, flags, env)
    }

    /// Process an initial context token.
    pub fn step(&mut self, input: &[u8]) -> (r: Result<AcceptStep, Krb5Error>)
        ensures
            exists|now: Moment, env: EntropyV|
                env.ok() && (final(self)@, outcome(r)) == #[trigger] accept_step_spec(
                    old(self)@,
                    old(self).keys,
                    input@,
                    now,
                    env,
                ),
            final(self).keys == old(self).keys,
    {
        let now = Moment::now();
        let env = Entropy::draw();
        self.step_with(input, now, &env)
    }

    fn establish(&mut self, ac: AuthContext, res: &RdReqResult, sname: PrincipalName, gss_flags: u32, env: &Entropy) -> (r: Result<
        AcceptStep,
        Krb5Error,
    >)
        ensures
            (final(self)@, outcome(r)) == establish_spec(old(self)@, ac@, res@, sname@, gss_flags, env@),
            final(self).keys == old(self).keys,
            r matches Ok(AcceptStep::Complete { token: Some(t) }) ==> t@.len() < 0x1_0000_0000 ==> forall|
                i: Krb5InitiatorV,
            |
                waits_for(i, ac@, final(self)@.ctx->0.key) ==> #[trigger] reply_establishes(
                    i,
                    t@,
                    final(self)@.ctx->0,
                ),
    {
        reveal(establish_spec);
        let trans: u32 = gss_flags | GssFlags::TRANS;
        let flags: u32 = if trans & GssFlags::DCE_STYLE == GssFlags::DCE_STYLE { trans | GssFlags::MUTUAL } else { trans };
        let key = match &ac.recv_subkey {
            Some(k) => k.dup(),
            None => res.ticket.key.dup(),
        };
        let seq_recv: u64 = ac.remote_seq as u64;
        let mut ctx = Krb5Context::partial(
            flags,
            false,
            res.authenticator.cname.dup(),
            lossy(res.authenticator.crealm.as_bytes()),
            sname,
            res.ticket.endtime,
            key,
            seq_recv,
        );
        ctx.seqstate = SeqState::new(
            seq_recv,
            flags & GssFlags::REPLAY == GssFlags::REPLAY,
            flags & GssFlags::SEQUENCE == GssFlags::SEQUENCE,
            true,
        );
        if flags & GssFlags::MUTUAL != GssFlags::MUTUAL {
            ctx.flags = ctx.flags | GssFlags::PROT_READY;
            self.ctx = Some(ctx);
            self.done = true;
            return Ok(AcceptStep::Complete { token: None });
        }
        let mut ac = ac;
        let ghost before = ac@;
        ac.set_flags(ac.flags | AuthContextFlags::USE_SUBKEY);
        let ap_rep = match ac.mk_rep_with(env) {
            Ok(b) => b,
            Err(e) => return Err(e),
        };
        ctx.seq_send = ac.local_seq as u64;
        ctx.acceptor_subkey = match &ac.send_subkey {
            Some(k) => Some(k.dup()),
            None => None,
        };
        ctx.flags = ctx.flags | GssFlags::PROT_READY;
        let token = frame_token(&MECH_KRB5, TOK_AP_REP, &ap_rep);
        proof {
            let f = before.flags;
            assert((f | 0x20u32) & 0x20u32 != 0) by (bit_vector);
            lemma_reply_establishes(before, ac@, ctx@, ap_rep@, token@);
        }
        self.ctx = Some(ctx);
        self.done = true;
        Ok(AcceptStep::Complete { token: Some(token) })
    }

    /// Extract the established context.
    pub fn context(self) -> (r: Result<Krb5Context, Krb5Error>)
        ensures
            outcome(r) == (if self@.done && self@.ctx is Some {
                Ok::<Krb5ContextV, Krb5ErrorV>(self@.ctx->0)
            } else {
                Err::<Krb5ContextV, Krb5ErrorV>(gss_err(GssError::NoContext))
            }),
    {
        if !self.done {
            return Err(gss(GssError::NoContext));
        }
        match self.ctx {
            Some(c) => Ok(c),
            None => Err(gss(GssError::NoContext)),
        }
    }

    /// Delegated credentials received in the initial token, if any.
    pub fn delegated_creds(&self) -> (r: Option<&[Credential]>)
        ensures
            match r {
                Some(cs) => self@.delegated == Some(list_view(cs@)),
                None => self@.delegated is None,
            },
    {
        match &self.delegated {
            Some(v) => Some(v.as_slice()),
            None => None,
        }
    }
}

proof fn lemma_token_body(ap_rep: Seq<u8>, token: Seq<u8>)
    requires
        token == header_spec(MECH_KRB5@, ap_rep.len(), Some(TOK_AP_REP)) + ap_rep,
        token.len() < 0x1_0000_0000,
    ensures
        parse_header_spec(token) matches Some((mech, body)) && mech == MECH_KRB5@ && body.len() >= 2 && get_be16(body, 0)
            == TOK_AP_REP && body.skip(2) == ap_rep,
{
    law_token_round_trip(MECH_KRB5@, Some(TOK_AP_REP), ap_rep);
    let body = id_octets(Some(TOK_AP_REP)) + ap_rep;
    assert(body.skip(2) =~= ap_rep);
    assert(get_be16(body, 0) == TOK_AP_REP);
}

proof fn lemma_reply_establishes(before: AuthContextV, after: AuthContextV, ctx: Krb5ContextV, ap_rep: Seq<u8>, token: Seq<u8>)
    requires
        token == header_spec(MECH_KRB5@, ap_rep.len(), Some(TOK_AP_REP)) + ap_rep,
        any_flag(after.flags, AuthContextFlags::USE_SUBKEY),
        after.send_subkey is Some,
        !ctx.initiate,
        ctx.acceptor_subkey == after.send_subkey,
        forall|i: AuthContextV|
            i.key == before.key && i.authentp == before.authentp ==> #[trigger] rep_agrees(i, ap_rep, after),
    ensures
        token.len() < 0x1_0000_0000 ==> forall|i: Krb5InitiatorV|
            waits_for(i, before, ctx.key) ==> #[trigger] reply_establishes(i, token, ctx),
{
    reveal(reply_establishes);
    reveal(waits_for);
    if token.len() < 0x1_0000_0000 {
        lemma_token_body(ap_rep, token);
        assert forall|i: Krb5InitiatorV| waits_for(i, before, ctx.key) implies #[trigger] reply_establishes(
            i,
            token,
            ctx,
        ) by {
            assert(rep_agrees(i.ac->0, ap_rep, after));
        }
    }
}

} // verus!
