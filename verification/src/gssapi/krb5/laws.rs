//! What holds of every Kerberos security context.
use vstd::prelude::*;

use crate::asn1::{list_parse, Asn1};
use crate::bytes::{be64, get_be32, get_le32, le16, le32};
use crate::crypto::primitives::md5_digest;
use crate::crypto::profile::{cksum_spec, dec_spec, enc_spec, mac_len, verify_spec};
use crate::crypto::{etype_of_cksum, CryptoError};
use crate::error::Krb5ErrorV;
use crate::gssapi::krb5::acceptor::{accept_step_spec, client_cbt, element_cbt, establish_spec, extensions_ok, gss_cksum_spec, is_cbt, process_checksum_spec, tail_spec, Krb5AcceptorV};
use crate::gssapi::krb5::context::{cfx_header, lifetime_spec, mic_spec, rotated, unwrap_spec, verify_mic_spec, wrap_spec, Krb5ContextV};
use crate::gssapi::krb5::initiator::{first_step_spec, gss_cksum_body, initiator_flags, mutual_auth_spec, send_req_spec, Krb5InitiatorV};
use crate::gssapi::krb5::{cb_spec, counted, AcceptStepV, ChannelBindingsV, InitStepV, MECH_KRB5};
use crate::gssapi::seqstate::{fresh_seq_state, seq_check_spec};
use crate::gssapi::token::{header_spec, parse_header_spec};
use crate::gssapi::GssError;
use crate::protocol::ap::cred::{mk_cred_spec, rd_cred_spec};
use crate::protocol::ap::laws::{law_req_read, lemma_bits, ticket_key};
use crate::protocol::ap::req_rep::{mk_rep_spec, mk_req_spec, rd_rep_spec, rd_req_spec};
use crate::protocol::ap::{fresh_context, ApReqOptions, AuthContextV, EntropyV, KeySource};
use crate::protocol::credential::CredentialV;
use crate::text::utf8_lossy;
use crate::time::Moment;
use crate::types::{ApReq, ApReqV, Authenticator, AuthenticatorV, AuthorizationDataElement, AuthorizationDataElementV, EncTicketPart, EncTicketPartV, EncryptionKeyV};

verus! {

/// The Kerberos mechanism is 1.2.840.113554.1.2.2.
pub proof fn law_mechanism()
    ensures
        MECH_KRB5@ == seq![0x2au8, 0x86u8, 0x48u8, 0x86u8, 0xf7u8, 0x12u8, 0x01u8, 0x02u8, 0x02u8],
{
    assert(MECH_KRB5@ =~= seq![0x2au8, 0x86u8, 0x48u8, 0x86u8, 0xf7u8, 0x12u8, 0x01u8, 0x02u8, 0x02u8]);
}

/// Whether an AP-REQ holds a ticket and an authenticator: the ticket opens
/// under a key for it with usage 2, and the authenticator under the ticket's
/// session key with usage 11.
pub open spec fn req_holds(req: ApReqV, key: EncryptionKeyV, t: EncTicketPartV, a: AuthenticatorV) -> bool {
    &&& dec_spec(req.ticket.enc_part.etype, key.keyvalue, 2, req.ticket.enc_part.cipher) matches Ok(p)
        && <EncTicketPart as Asn1>::parse(p) == Some(t)
    &&& dec_spec(t.key.keytype, t.key.keyvalue, 11, req.authenticator.cipher) matches Ok(p) && <Authenticator as Asn1>::parse(
        p,
    ) == Some(a)
}

/// When an acceptor's step completes, its token was a Kerberos token that
/// starts with the octets 01 00 and goes on with an AP-REQ, and the context
/// that is established is of that request: its initiator and the initiator's
/// realm are the client and the realm in the authenticator, its acceptor is
/// the server of the ticket, it ends when the ticket does, its key is the
/// authenticator's subkey, or the ticket's session key where there is none,
/// and the first message expected has the authenticator's sequence number.
pub proof fn law_accepted<K: KeySource>(a: Krb5AcceptorV, keys: K, input: Seq<u8>, now: Moment, env: EntropyV)
    requires
        accept_step_spec(a, keys, input, now, env).1 is Ok,
    ensures
        ({
            let (after, r) = accept_step_spec(a, keys, input, now, env);
            let (mech, body) = parse_header_spec(input)->0;
            let req = <ApReq as Asn1>::parse(body.skip(2))->0;
            let ctx = after.ctx->0;
            &&& !a.done
            &&& after.done
            &&& after.ctx is Some
            &&& parse_header_spec(input) is Some
            &&& mech == MECH_KRB5@
            &&& body.len() > 2 && body[0] == 0x01 && body[1] == 0x00
            &&& <ApReq as Asn1>::parse(body.skip(2)) is Some
            &&& exists|key: EncryptionKeyV, t: EncTicketPartV, au: AuthenticatorV|
                {
                    &&& ticket_key(fresh_context(), req, a.server, keys, key)
                    &&& #[trigger] req_holds(req, key, t, au)
                    &&& ctx.initiator == au.cname
                    &&& ctx.crealm == utf8_lossy(au.crealm)
                    &&& ctx.acceptor == req.ticket.sname
                    &&& ctx.endtime == t.endtime
                    &&& ctx.key == (if au.subkey is Some { au.subkey->0 } else { t.key })
                    &&& !ctx.initiate
                    &&& ctx.seqstate.base == (if au.seq_number is Some { au.seq_number->0 } else { 0u32 })
                    &&& ctx.seqstate.next == 0
                    &&& ctx.seqstate.wide
                    &&& ctx.seqstate.do_replay <==> ctx.flags & 0x4 == 0x4
                    &&& ctx.seqstate.do_sequence <==> ctx.flags & 0x8 == 0x8
                    &&& r->Ok_0 == (AcceptStepV::Complete { token: None }) ==> ctx.seq_send == ctx.seqstate.base
                        && ctx.acceptor_subkey is None
                }
        }),
{
    let (mech, body) = parse_header_spec(input)->0;
    let bytes = body.skip(2);
    let req = <ApReq as Asn1>::parse(bytes)->0;
    law_req_read(fresh_context(), bytes, a.server, keys, now);
    let (ac, rr) = rd_req_spec(fresh_context(), bytes, a.server, keys, now);
    let res = rr->Ok_0;
    let key = choose|key: EncryptionKeyV| #[trigger]
        ticket_key(fresh_context(), req, a.server, keys, key) && (dec_spec(
            req.ticket.enc_part.etype,
            key.keyvalue,
            2,
            req.ticket.enc_part.cipher,
        ) matches Ok(p) && <EncTicketPart as Asn1>::parse(p) == Some(res.ticket));
    assert(req_holds(req, key, res.ticket, res.authenticator));
    reveal(process_checksum_spec);
    reveal(establish_spec);
    let flags = process_checksum_spec(a.cb, ac, res.authenticator, res.ticket.key, res.ap_options, now).1->Ok_0;
    lemma_ready_bits(flags);
}

/// The readiness bits leave the others as they are.
proof fn lemma_ready_bits(f: u32)
    ensures
        forall|g: u32| #[trigger] (g | 0x80) & 0x4 == g & 0x4,
        forall|g: u32| #[trigger] (g | 0x80) & 0x8 == g & 0x8,
{
    assert(forall|g: u32| #[trigger] (g | 0x80) & 0x4 == g & 0x4) by (bit_vector);
    assert(forall|g: u32| #[trigger] (g | 0x80) & 0x8 == g & 0x8) by (bit_vector);
}

/// What an acceptor answers: where the flags in the token, or a request for
/// DCE style, ask for mutual authentication, a Kerberos token that starts with
/// the octets 02 00 and goes on with an AP-REP, and the context sends with the
/// subkey and the sequence number of that reply; else nothing. The context's
/// flags are those of the request, with those of a context that is ready and
/// can be handed on.
pub proof fn law_accept_answers(a: Krb5AcceptorV, ac: AuthContextV, res: crate::protocol::ap::RdReqResultV, sname: crate::types::PrincipalNameV, f: u32, env: EntropyV)
    requires
        establish_spec(a, ac, res, sname, f, env).1 is Ok,
    ensures
        ({
            let (after, r) = establish_spec(a, ac, res, sname, f, env);
            let ctx = after.ctx->0;
            let mutual = f & 0x2 != 0 || f & 0x1000 != 0;
            let (ac2, rep) = mk_rep_spec(AuthContextV { flags: ac.flags | 0x20, ..ac }, env);
            &&& after.done
            &&& after.ctx is Some
            &&& after.delegated == a.delegated
            &&& ctx.flags == f | 0x180 | (if f & 0x1000 != 0 { 0x2u32 } else { 0 })
            &&& !mutual ==> r->Ok_0 == (AcceptStepV::Complete { token: None })
            &&& mutual ==> rep is Ok && r->Ok_0 == (AcceptStepV::Complete {
                token: Some(header_spec(MECH_KRB5@, rep->Ok_0.len(), Some(0x0200u16)) + rep->Ok_0),
            })
            &&& mutual ==> ctx.acceptor_subkey == ac2.send_subkey && ctx.acceptor_subkey is Some && ctx.seq_send
                == ac2.local_seq
        }),
{
    reveal(establish_spec);
    let g = ac.flags;
    assert((g | 0x20) & 0x20 != 0) by (bit_vector);
    assert((f | 0x100) & 0x1000 == f & 0x1000 && ((f | 0x100) & 0x2 == f & 0x2) && ((f | 0x100 | 0x2) & 0x2 == 0x2) && (f & 0x1000
        != 0 ==> f & 0x1000 == 0x1000) && (f & 0x2 != 0 ==> f & 0x2 == 0x2) && ((f | 0x100) | 0x80 == f | 0x180 | 0) && ((f | 0x100
        | 0x2) | 0x80 == f | 0x180 | 0x2)) by (bit_vector);
}

/// What the checksum of the GSS type in a request means: its first four
/// octets are 16, 0, 0, 0; the next sixteen are the channel bindings, which
/// must be those of the acceptor unless they are all zero or the acceptor has
/// none; the next four are the flags, of which mutual authentication, replay
/// detection, sequencing, confidentiality, integrity, DCE style,
/// identification and extended errors are taken as they are. A context is
/// channel bound exactly when the bindings are the acceptor's, and has
/// delegated credentials exactly when some came with the request.
pub proof fn law_checksum_flags(cb: Option<ChannelBindingsV>, ac: AuthContextV, data: Seq<u8>, now: Moment)
    requires
        gss_cksum_spec(cb, ac, data, now).1 is Ok,
    ensures
        ({
            let (creds, r) = gss_cksum_spec(cb, ac, data, now);
            let f = r->Ok_0.0;
            let bound = data.subrange(4, 20);
            let token = get_le32(data, 20);
            let matching = cb is Some && bound == cb_spec(cb->0);
            &&& data.len() >= 24
            &&& get_le32(data, 0) == 16
            &&& cb is Some && !matching ==> forall|i: int| 4 <= i < 20 ==> #[trigger] data[i] == 0
            &&& r->Ok_0.1 == matching
            &&& f & 0x703e == token & 0x703e
            &&& f & 0x800 != 0 <==> matching
            &&& f & 0x1 != 0 <==> creds is Some
            &&& f & 0xffff_87c0 == 0
            &&& creds is Some ==> token & 0x1 != 0
        }),
{
    let (creds, r) = gss_cksum_spec(cb, ac, data, now);
    let t = get_le32(data, 20);
    let bound = data.subrange(4, 20);
    let b: u32 = if cb is Some && bound == cb_spec(cb->0) { 0x800 } else { 0 };
    let d: u32 = if creds is Some { 1 } else { 0 };
    let f = ((t & 0x703e) | b) | d;
    let g = t & 0x703e;
    assert(g | 0 == g && (g | 0x800) | 0 == g | 0x800) by (bit_vector);
    assert(r->Ok_0.0 == f);
    assert(f & 0x703e == t & 0x703e && f & 0x800 == b && f & 0x1 == d && f & 0xffff_87c0 == 0) by (bit_vector)
        requires
            f == ((t & 0x703e) | b) | d,
            b == 0 || b == 0x800,
            d == 0 || d == 1,
    ;
    if cb is Some && bound != cb_spec(cb->0) {
        assert forall|i: int| 4 <= i < 20 implies #[trigger] data[i] == 0 by {
            assert(bound[i - 4] == data[i]);
        }
    }
}

/// Channel bindings that are not the acceptor's are refused, and so is a
/// checksum that is too short for them.
pub proof fn law_bindings_refused(cb: ChannelBindingsV, ac: AuthContextV, data: Seq<u8>, now: Moment, i: int)
    ensures
        data.len() < 24 ==> gss_cksum_spec(Some(cb), ac, data, now).1 == Err::<(u32, bool), Krb5ErrorV>(
            Krb5ErrorV::Gss(GssError::BadBindings),
        ),
        data.len() >= 24 && get_le32(data, 0) == 16 && data.subrange(4, 20) != cb_spec(cb) && 4 <= i < 20 && data[i] != 0
            ==> gss_cksum_spec(Some(cb), ac, data, now).1 == Err::<(u32, bool), Krb5ErrorV>(
            Krb5ErrorV::Gss(GssError::BadBindings),
        ),
{
    if data.len() >= 24 && 4 <= i < 20 && data[i] != 0 {
        assert(data.subrange(4, 20)[i - 4] == data[i]);
    }
}

/// The octets of channel bindings: the MD5 digest of the initiator's address
/// type and address, the acceptor's, and the application's data, each type
/// and each length in four octets, the least significant first.
pub proof fn law_bindings_digest(cb: ChannelBindingsV)
    requires
        cb.initiator_address.len() < 0x1_0000_0000,
        cb.acceptor_address.len() < 0x1_0000_0000,
        cb.application_data.len() < 0x1_0000_0000,
    ensures
        cb_spec(cb) == md5_digest(
            le32(cb.initiator_addrtype) + le32(cb.initiator_address.len() as u32) + cb.initiator_address + le32(
                cb.acceptor_addrtype,
            ) + le32(cb.acceptor_address.len() as u32) + cb.acceptor_address + le32(cb.application_data.len() as u32)
                + cb.application_data,
        ),
{
    lemma_counted(cb.initiator_address);
    lemma_counted(cb.acceptor_address);
    lemma_counted(cb.application_data);
    lemma_flat(
        le32(cb.initiator_addrtype),
        le32(cb.initiator_address.len() as u32),
        cb.initiator_address,
        le32(cb.acceptor_addrtype),
        le32(cb.acceptor_address.len() as u32),
        cb.acceptor_address,
        le32(cb.application_data.len() as u32),
        cb.application_data,
    );
}

proof fn lemma_counted(s: Seq<u8>)
    requires
        s.len() < 0x1_0000_0000,
    ensures
        counted(s) == le32(s.len() as u32) + s,
{
    assert(s.len() % 0x1_0000_0000 == s.len());
}

proof fn lemma_flat(a: Seq<u8>, b: Seq<u8>, c: Seq<u8>, d: Seq<u8>, e: Seq<u8>, f: Seq<u8>, g: Seq<u8>, h: Seq<u8>)
    ensures
        a + (b + c) + d + (e + f) + (g + h) == a + b + c + d + e + f + g + h,
{
    assert(a + (b + c) =~= a + b + c);
    let x = a + b + c + d;
    assert(x + (e + f) =~= x + e + f);
    let y = x + e + f;
    assert(y + (g + h) =~= y + g + h);
}

/// The flags that an initiator goes on with: those asked for that go over the
/// wire, with confidentiality, integrity and the right to hand the context on
/// always; delegation exactly when it is asked for, or the policy allows it
/// and the ticket is good for it, and there is a TGT to delegate.
pub proof fn law_init_flags(cred: CredentialV, has_tgt: bool, asked: u32)
    ensures
        ({
            let f = initiator_flags(cred, has_tgt, asked);
            &&& f & 0x703e == (asked | 0x30) & 0x703e
            &&& f & 0x130 == 0x130
            &&& f & 0x1 != 0 <==> has_tgt && (asked & 0x1 != 0 || (asked & 0x8000 != 0 && cred.flags & 0x0004_0000 != 0))
            &&& f & 0x8000 != 0 <==> has_tgt && asked & 0x8000 != 0 && cred.flags & 0x0004_0000 != 0
            &&& f & 0xffff_0ec0 == 0
        }),
{
    let f = initiator_flags(cred, has_tgt, asked);
    let fl = cred.flags;
    let base = (asked & 0x703f) | 0x130;
    let d = if asked & 0x8000 == 0x8000 && fl & 0x0004_0000 == 0x0004_0000 { base | 0x8001 } else { base };
    assert(f == (if d & 0x1 == 0x1 && !has_tgt { d & 0xffff_7ffe } else { d }));
    assert((f & 0x703e == (asked | 0x30) & 0x703e) && f & 0x130 == 0x130 && (f & 0x1 != 0 <==> has_tgt && (asked & 0x1 != 0 || (asked
        & 0x8000 != 0 && fl & 0x0004_0000 != 0))) && (f & 0x8000 != 0 <==> has_tgt && asked & 0x8000 != 0 && fl & 0x0004_0000 != 0)
        && f & 0xffff_0ec0 == 0) by (bit_vector)
        requires
            base == (asked & 0x703f) | 0x130,
            d == (if asked & 0x8000 == 0x8000 && fl & 0x0004_0000 == 0x0004_0000 { base | 0x8001 } else { base }),
            f == (if d & 0x1 == 0x1 && !has_tgt { d & 0xffff_7ffe } else { d }),
    ;
}

/// An initiator's first token starts with the octets 01 00 and goes on with an
/// AP-REQ, and its context is of the credential: its initiator and the
/// initiator's realm are the client and its realm, its acceptor the server,
/// it ends when the ticket does, and its key is the subkey of the request.
/// With mutual authentication the initiator goes on to wait; without it is
/// done.
pub proof fn law_init_sent(i: Krb5InitiatorV, f: u32, credmsg: Option<Seq<u8>>, seq: u32, now: Moment, env: EntropyV)
    requires
        send_req_spec(i, f, credmsg, seq, now, env).1 is Ok,
    ensures
        ({
            let (after, r) = send_req_spec(i, f, credmsg, seq, now, env);
            let (ac, req) = mk_req_spec(
                AuthContextV { flags: 4, req_cksumtype: 0x8003, local_seq: seq, ..fresh_context() },
                ApReqOptions {
                    mutual_required: f & 0x2 != 0,
                    use_session_key: false,
                    use_subkey: true,
                    etype_negotiation: f & 0x2 != 0,
                    cbt: i.req_flags & 0x800 != 0,
                },
                Some(gss_cksum_body(i.cb, f, credmsg)),
                i.cred,
                now,
                env,
            );
            let token = header_spec(MECH_KRB5@, req->Ok_0.len(), Some(0x0100u16)) + req->Ok_0;
            let ctx = after.ctx->0;
            &&& req is Ok
            &&& after.ctx is Some
            &&& after.gss_flags == f
            &&& after.cred == i.cred
            &&& ctx.initiate
            &&& ctx.initiator == i.cred.client
            &&& ctx.crealm == i.cred.crealm
            &&& ctx.acceptor == i.cred.server
            &&& ctx.endtime == i.cred.times.endtime
            &&& Some(ctx.key) == ac.send_subkey
            &&& ctx.acceptor_subkey is None
            &&& ctx.seq_send == ac.local_seq
            &&& f & 0x2 != 0 ==> r->Ok_0 == InitStepV::Continue(token) && after.awaiting_rep && after.ac == Some(ac)
                && after.done == i.done && ctx.flags == f
            &&& f & 0x2 == 0 ==> r->Ok_0 == InitStepV::Complete(Some(token)) && after.done && ctx.flags == f | 0x80
                && ctx.seqstate == fresh_seq_state(ac.local_seq as u64, f & 0x4 != 0, f & 0x8 != 0, true)
        }),
{
    assert((f & 0x2 == 0x2 <==> f & 0x2 != 0) && (f & 0x4 == 0x4 <==> f & 0x4 != 0) && (f & 0x8 == 0x8 <==> f & 0x8 != 0))
        by (bit_vector);
    let g = i.req_flags;
    assert(g & 0x800 == 0x800 <==> g & 0x800 != 0) by (bit_vector);
}

/// The octets of the checksum in an initiator's request: 16, the channel
/// bindings or sixteen zeros, the flags, and where credentials are delegated
/// the number 1, their length and the message with them; the numbers in four
/// octets, those of the delegation in two, the least significant first.
pub proof fn law_checksum_octets(cb: Option<ChannelBindingsV>, flags: u32, credmsg: Option<Seq<u8>>)
    ensures
        gss_cksum_body(cb, flags, credmsg) == seq![16u8, 0u8, 0u8, 0u8] + (match cb {
            Some(c) => cb_spec(c),
            None => Seq::new(16, |i: int| 0u8),
        }) + le32(flags) + (match credmsg {
            Some(m) => seq![1u8, 0u8] + le16(m.len() as u16) + m,
            None => Seq::empty(),
        }),
{
    assert(le32(16) =~= seq![16u8, 0u8, 0u8, 0u8]);
    assert(le16(1) =~= seq![1u8, 0u8]);
    assert(crate::bytes::zeros(16) =~= Seq::new(16, |i: int| 0u8));
}

/// What an initiator delegates: the TGT, in a KRB-CRED message under the
/// session key with a sequence number that the request then goes on from;
/// where no such message can be made, the request goes out without
/// delegation.
pub proof fn law_delegated(i: Krb5InitiatorV, now: Moment, denv: EntropyV, env: EntropyV)
    ensures
        ({
            let c = AuthContextV {
                flags: 4,
                key: Some(i.cred.session_key),
                tkt_key: Some(i.cred.session_key),
                local_seq: if denv.seq % 0x4000_0000 == 0 { 1u32 } else { denv.seq % 0x4000_0000 },
                ..fresh_context()
            };
            let made = mk_cred_spec(c, seq![i.tgt->0], now, denv).1;
            &&& i.gss_flags & 0x1 == 0 ==> first_step_spec(i, now, denv, env) == send_req_spec(i, i.gss_flags, None, 0, now, env)
            &&& i.gss_flags & 0x1 != 0 && (i.tgt is None || made is Err) ==> first_step_spec(i, now, denv, env) == send_req_spec(
                i,
                i.gss_flags & 0xffff_7ffe,
                None,
                0,
                now,
                env,
            )
            &&& i.gss_flags & 0x1 != 0 && i.tgt is Some && made is Ok && made->Ok_0.0.len() <= 0x7fe3 ==> first_step_spec(
                i,
                now,
                denv,
                env,
            ) == send_req_spec(i, i.gss_flags, Some(made->Ok_0.0), (c.local_seq + 1) as u32, now, env)
            &&& i.gss_flags & 0x1 != 0 && i.tgt is Some && made is Ok && made->Ok_0.0.len() > 0x7fe3 ==> first_step_spec(
                i,
                now,
                denv,
                env,
            ).1 == Err::<InitStepV, Krb5ErrorV>(Krb5ErrorV::Gss(GssError::Failure))
        }),
{
    let f = i.gss_flags;
    assert(f & 0x1 == 0x1 <==> f & 0x1 != 0) by (bit_vector);
}

/// An initiator that is done by a reply has read a Kerberos token that starts
/// with the octets 02 00 and goes on with an AP-REP for its request. Its
/// context is the one it had, with the reply's subkey, expecting the reply's
/// sequence number first, and ready.
pub proof fn law_init_done(i: Krb5InitiatorV, token: Seq<u8>)
    requires
        mutual_auth_spec(i, token).1 is Ok,
    ensures
        ({
            let (after, r) = mutual_auth_spec(i, token);
            let (mech, body) = parse_header_spec(token)->0;
            let (ac, rep) = rd_rep_spec(i.ac->0, body.skip(2));
            let old_ctx = i.ctx->0;
            let ctx = after.ctx->0;
            &&& r->Ok_0 == InitStepV::Complete(None)
            &&& parse_header_spec(token) is Some
            &&& mech == MECH_KRB5@
            &&& body.len() >= 2 && body[0] == 0x02 && body[1] == 0x00
            &&& i.ac is Some
            &&& rep is Ok
            &&& i.ctx is Some
            &&& after.ctx is Some
            &&& after.done
            &&& ctx.initiate == old_ctx.initiate
            &&& ctx.initiator == old_ctx.initiator
            &&& ctx.crealm == old_ctx.crealm
            &&& ctx.acceptor == old_ctx.acceptor
            &&& ctx.endtime == old_ctx.endtime
            &&& ctx.key == old_ctx.key
            &&& ctx.seq_send == old_ctx.seq_send
            &&& ctx.flags == old_ctx.flags | 0x80
            &&& ctx.acceptor_subkey == (if rep->Ok_0.subkey is Some { rep->Ok_0.subkey } else { old_ctx.acceptor_subkey })
            &&& ctx.seqstate.base == (if rep->Ok_0.seq_number is Some { rep->Ok_0.seq_number->0 } else { 0u32 })
            &&& ctx.seqstate.next == 0
            &&& ctx.seqstate.wide
            &&& ctx.seqstate.do_replay <==> old_ctx.flags & 0x4 == 0x4
            &&& ctx.seqstate.do_sequence <==> old_ctx.flags & 0x8 == 0x8
        }),
{
}

/// The header of a message token: two octets of its type, one of flags, one
/// that is always 255, two of the extra count, two of the rotation and eight
/// of the sequence number. The flags say in their lowest bit that the acceptor
/// sent it, in the next that it is sealed, in the third that it is under the
/// acceptor's subkey.
pub open spec fn message_header(c: Krb5ContextV, kind: u8, sealed: bool, count: Seq<u8>, rotation: Seq<u8>) -> Seq<u8> {
    let flags = (if c.initiate { 0int } else { 1int }) + (if sealed { 2int } else { 0int }) + (if c.acceptor_subkey is Some {
        4int
    } else {
        0int
    });
    seq![kind, 0x04u8, flags as u8, 0xffu8] + count + rotation + be64(c.seq_send)
}

/// The key of a context's messages: the acceptor's subkey where there is one.
pub open spec fn message_key(c: Krb5ContextV) -> EncryptionKeyV {
    if c.acceptor_subkey is Some { c.acceptor_subkey->0 } else { c.key }
}

/// A message that is sealed is a header of type 05 04 and the encryption,
/// with usage 24 from an initiator and 22 from an acceptor, of the message and
/// the header; one that is only signed is the header with the length of the
/// checksum, the message, and the checksum of the message and the header
/// without that length. Either way the next sequence number is one more.
pub proof fn law_wrapped(c: Krb5ContextV, conf: bool, msg: Seq<u8>, confounder: Seq<u8>)
    requires
        wrap_spec(c, conf, msg, confounder).1 is Ok,
    ensures
        ({
            let (w, r) = wrap_spec(c, conf, msg, confounder);
            let token = r->Ok_0;
            let key = message_key(c);
            let usage: i32 = if c.initiate { 24 } else { 22 };
            let plain = message_header(c, 0x05, conf, seq![0u8, 0u8], seq![0u8, 0u8]);
            let counted = message_header(c, 0x05, conf, seq![0u8, mac_len(key.keytype) as u8], seq![0u8, 0u8]);
            &&& conf ==> exists|x: Seq<u8>|
                token == #[trigger] (plain + x) && enc_spec(key.keytype, key.keyvalue, usage, confounder, msg + plain) == Ok::<
                    Seq<u8>,
                    CryptoError,
                >(x)
            &&& !conf ==> exists|x: Seq<u8>|
                token == #[trigger] (counted + msg + x) && cksum_spec(key.keytype, key.keyvalue, usage, msg + plain) == Ok::<Seq<u8>, CryptoError>(x)
            &&& w == (Krb5ContextV { seq_send: if c.seq_send == u64::MAX { 0u64 } else { (c.seq_send + 1) as u64 }, ..c })
        }),
{
    let key = message_key(c);
    let usage: i32 = if c.initiate { 24 } else { 22 };
    let plain = message_header(c, 0x05, conf, seq![0u8, 0u8], seq![0u8, 0u8]);
    let n = mac_len(key.keytype);
    assert(cfx_header(0x0504, c.flag_octet(conf), 0, 0, c.seq_send) =~= plain);
    assert(cfx_header(0x0504, c.flag_octet(conf), n as u16, 0, c.seq_send) =~= message_header(
        c,
        0x05,
        conf,
        seq![0u8, n as u8],
        seq![0u8, 0u8],
    ));
    let token = wrap_spec(c, conf, msg, confounder).1->Ok_0;
    if conf {
        let x = enc_spec(key.keytype, key.keyvalue, usage, confounder, msg + plain)->Ok_0;
        assert(token == plain + x);
    } else {
        let x = cksum_spec(key.keytype, key.keyvalue, usage, msg + plain)->Ok_0;
        assert(token == message_header(c, 0x05, conf, seq![0u8, n as u8], seq![0u8, 0u8]) + msg + x);
    }
}

/// A signature is a header of type 04 04 filled up with 255 and the checksum,
/// with usage 25 from an initiator and 23 from an acceptor, of the message and
/// the header. The next sequence number is one more.
pub proof fn law_signed(c: Krb5ContextV, msg: Seq<u8>)
    requires
        mic_spec(c, msg).1 is Ok,
    ensures
        ({
            let (w, r) = mic_spec(c, msg);
            let key = message_key(c);
            let usage: i32 = if c.initiate { 25 } else { 23 };
            let head = message_header(c, 0x04, false, seq![0xffu8, 0xffu8], seq![0xffu8, 0xffu8]);
            &&& exists|x: Seq<u8>|
                r->Ok_0 == #[trigger] (head + x) && cksum_spec(key.keytype, key.keyvalue, usage, msg + head) == Ok::<
                    Seq<u8>,
                    CryptoError,
                >(x)
            &&& w == (Krb5ContextV { seq_send: if c.seq_send == u64::MAX { 0u64 } else { (c.seq_send + 1) as u64 }, ..c })
        }),
{
    let key = message_key(c);
    let usage: i32 = if c.initiate { 25 } else { 23 };
    let head = message_header(c, 0x04, false, seq![0xffu8, 0xffu8], seq![0xffu8, 0xffu8]);
    assert(cfx_header(0x0404, c.flag_octet(false), 0xffff, 0xffff, c.seq_send) =~= head);
    let x = cksum_spec(key.keytype, key.keyvalue, usage, msg + head)->Ok_0;
    assert(mic_spec(c, msg).1->Ok_0 == head + x);
}

/// A signature that is found good starts with the octets 04 04, was sent by
/// the other end, and is the checksum, under the acceptor's subkey where the
/// header says so and there is one and with usage 25 from an initiator and 23
/// from an acceptor, of the message and the header. Its sequence number is
/// taken note of.
pub proof fn law_signature_good(c: Krb5ContextV, msg: Seq<u8>, mic: Seq<u8>)
    requires
        verify_mic_spec(c, msg, mic).1 is Ok,
    ensures
        ({
            let (w, r) = verify_mic_spec(c, msg, mic);
            let key = if c.acceptor_subkey is Some && mic[2] as int / 4 % 2 == 1 { c.acceptor_subkey->0 } else { c.key };
            let usage: i32 = if c.initiate { 23 } else { 25 };
            let seq = crate::bytes::get_be64(mic, 8);
            &&& mic.len() >= 16
            &&& mic[0] == 0x04 && mic[1] == 0x04 && mic[3] == 0xff
            &&& mic[2] % 2 == 1 <==> c.initiate
            &&& verify_spec(key.keytype, key.keyvalue, usage, msg + mic.take(16), mic.skip(16)) is Ok
            &&& r->Ok_0 == seq_check_spec(c.seqstate, seq).1
            &&& w == (Krb5ContextV { seqstate: seq_check_spec(c.seqstate, seq).0, ..c })
        }),
{
}

/// A message token that is taken starts with the octets 05 04 and was sent by
/// the other end; a sealed one opens, under the acceptor's subkey where the
/// header says so and there is one and with usage 24 from an initiator and 22
/// from an acceptor, to the message, the filler and the header again; an
/// unsealed one ends with the checksum of the message and the header without
/// its counts. Its sequence number is taken note of.
pub proof fn law_unwrapped(c: Krb5ContextV, token: Seq<u8>)
    requires
        unwrap_spec(c, token).1 is Ok,
    ensures
        ({
            let (w, r) = unwrap_spec(c, token);
            let u = r->Ok_0;
            let key = if c.acceptor_subkey is Some && token[2] as int / 4 % 2 == 1 { c.acceptor_subkey->0 } else { c.key };
            let usage: i32 = if c.initiate { 22 } else { 24 };
            let seq = crate::bytes::get_be64(token, 8);
            let ec = token[4] * 0x100 + token[5];
            let body = rotated(token.skip(16), (token[6] * 0x100 + token[7]) as nat);
            let n = u.data.len() as int;
            &&& token.len() >= 16
            &&& token[0] == 0x05 && token[1] == 0x04 && token[3] == 0xff
            &&& token[2] % 2 == 1 <==> c.initiate
            &&& u.conf <==> token[2] as int / 2 % 2 == 1
            &&& u.conf ==> (dec_spec(key.keytype, key.keyvalue, usage, body) matches Ok(plain) && {
                &&& plain.len() == n + ec + 16
                &&& plain.take(n) == u.data
                &&& plain.subrange(n + ec, n + ec + 6) == token.subrange(0, 6)
                &&& plain.subrange(n + ec + 8, n + ec + 16) == token.subrange(8, 16)
            })
            &&& !u.conf ==> {
                &&& body.len() == n + mac_len(key.keytype)
                &&& ec == mac_len(key.keytype)
                &&& body.take(n) == u.data
                &&& verify_spec(
                    key.keytype,
                    key.keyvalue,
                    usage,
                    u.data + (token.subrange(0, 4) + seq![0u8, 0u8, 0u8, 0u8] + token.subrange(8, 16)),
                    body.skip(n),
                ) is Ok
            }
            &&& u.seq == seq_check_spec(c.seqstate, seq).1
            &&& w == (Krb5ContextV { seqstate: seq_check_spec(c.seqstate, seq).0, ..c })
        }),
{
}

/// To rotate octets is to read them from a later place on, round the end.
pub proof fn law_rotated(s: Seq<u8>, n: nat, i: int)
    requires
        0 <= i < s.len(),
    ensures
        rotated(s, n).len() == s.len(),
        rotated(s, n)[i] == s[(i + n) % (s.len() as int)],
{
    let m = s.len() as int;
    let k = n as int % m;
    vstd::arithmetic::div_mod::lemma_add_mod_noop_right(i, n as int, m);
    if i < m - k {
        vstd::arithmetic::div_mod::lemma_small_mod((i + k) as nat, m as nat);
    } else {
        vstd::arithmetic::div_mod::lemma_mod_sub_multiples_vanish(i + k, m);
        vstd::arithmetic::div_mod::lemma_small_mod((i + k - m) as nat, m as nat);
    }
}

/// What is left of a context is the time from now to its end, and nothing
/// after it.
pub proof fn law_lifetime(c: Krb5ContextV, now: Moment)
    ensures
        ({
            let end = c.endtime.secs * 1_000_000_000 + c.endtime.nanos;
            let here = now.secs * 1_000_000_000 + now.nanos;
            &&& here < end ==> lifetime_spec(c, now) == end - here
            &&& here >= end ==> lifetime_spec(c, now) == 0
        }),
{
}

/// Credentials come with a request exactly where its flags say that it
/// delegates and four octets or more stand behind them: those octets are the
/// number 1 and the length of a KRB-CRED message, which opens by the request's
/// keys or else in the clear, and what follows is extensions.
pub proof fn law_delegation_read(ac: AuthContextV, rest: Seq<u8>, deleg: bool, now: Moment)
    requires
        tail_spec(ac, rest, deleg, now).1 is Ok,
    ensures
        ({
            let creds = tail_spec(ac, rest, deleg, now).0;
            let n = rest[2] + rest[3] * 0x100;
            let msg = rest.subrange(4, 4 + n);
            let by_key = rd_cred_spec(AuthContextV { flags: 0, ..ac }, msg, now).1;
            let clear = rd_cred_spec(AuthContextV { flags: 0, ..fresh_context() }, msg, now).1;
            &&& creds is Some <==> deleg && rest.len() >= 4
            &&& creds is Some ==> rest[0] == 1 && rest[1] == 0 && rest.len() >= 4 + n
            &&& creds is Some && by_key is Ok ==> creds->0 == (by_key->Ok_0).0
            &&& creds is Some && by_key is Err ==> clear is Ok && creds->0 == (clear->Ok_0).0
            &&& creds is Some ==> extensions_ok(rest.skip(4 + n))
            &&& creds is None ==> extensions_ok(rest)
        }),
{
}

/// Extensions are one behind the other, each of four octets of type, four of
/// length and that many of data.
pub proof fn law_extensions(s: Seq<u8>)
    ensures
        extensions_ok(Seq::empty()),
        0 < s.len() < 8 ==> !extensions_ok(s),
        s.len() >= 8 ==> (extensions_ok(s) <==> s.len() >= 8 + get_be32(s, 4) && extensions_ok(s.skip(8 + get_be32(s, 4)))),
{
}

/// A client asks for channel bindings to be enforced with authorization data
/// of type 143 that are the octets 00 40 00 00, by themselves or in a
/// container of type 1.
pub proof fn law_bindings_enforced(e: AuthorizationDataElementV, a: AuthenticatorV)
    ensures
        is_cbt(e) <==> e.ad_type == 143 && e.ad_data == seq![0x00u8, 0x40u8, 0x00u8, 0x00u8],
        e.ad_type != 1 ==> (element_cbt(e) <==> is_cbt(e)),
        e.ad_type == 1 ==> (element_cbt(e) <==> (list_parse::<AuthorizationDataElement>(e.ad_data) matches Some(es) && exists|i: int|
            0 <= i < es.len() && is_cbt(#[trigger] es[i]))),
        client_cbt(a) <==> (a.authorization_data matches Some(es) && exists|i: int|
            0 <= i < es.len() && element_cbt(#[trigger] es[i])),
{
    assert(le32(0x4000) =~= seq![0x00u8, 0x40u8, 0x00u8, 0x00u8]);
}

/// What an acceptor makes of the checksum in a request: without one no flags;
/// one of type 0x8003 as its octets say; any other must be right, under the
/// session key with usage 10, of no octets, and asks for replay detection and
/// sequencing and, where the options do, for mutual authentication. Where the
/// client asks for channel bindings to be enforced and the acceptor has some,
/// they must have matched.
pub proof fn law_checksum_kinds(
    cb: Option<ChannelBindingsV>,
    ac: AuthContextV,
    a: AuthenticatorV,
    session: EncryptionKeyV,
    options: u32,
    now: Moment,
)
    ensures
        ({
            let (creds, r) = process_checksum_spec(cb, ac, a, session, options, now);
            let c = a.cksum->0;
            let enforced = client_cbt(a) && cb is Some;
            let e = etype_of_cksum(c.cksumtype);
            let (came, gss) = gss_cksum_spec(cb, ac, c.checksum, now);
            &&& a.cksum is None && !enforced ==> r == Ok::<u32, Krb5ErrorV>(0) && creds is None
            &&& a.cksum is Some && c.cksumtype == 0x8003 ==> creds == came
            &&& a.cksum is Some && c.cksumtype == 0x8003 && gss is Ok && (!enforced || (gss->Ok_0).1) ==> r == Ok::<u32, Krb5ErrorV>(
                (gss->Ok_0).0,
            )
            &&& a.cksum is Some && c.cksumtype == 0x8003 && gss is Ok && enforced && !(gss->Ok_0).1 ==> r == Err::<u32, Krb5ErrorV>(
                Krb5ErrorV::Gss(GssError::BadBindings),
            )
            &&& a.cksum is Some && c.cksumtype != 0x8003 && r is Ok ==> e is Some && verify_spec(
                e->0,
                session.keyvalue,
                10,
                Seq::empty(),
                c.checksum,
            ) is Ok && r->Ok_0 == (if options & 0x2000_0000 != 0 { 0xeu32 } else { 0xcu32 }) && creds is None
            &&& (a.cksum is None || c.cksumtype != 0x8003) && enforced ==> r is Err
        }),
{
    reveal(process_checksum_spec);
    lemma_bits(options);
    assert(0xcu32 | 0x2u32 == 0xeu32) by (bit_vector);
}

} // verus!
