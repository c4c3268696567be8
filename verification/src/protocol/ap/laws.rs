//! What holds of the messages between a client and a server.
use vstd::prelude::*;
use vstd::utf8::encode_utf8;

use crate::asn1::{general_ok, list_der, list_parse, Asn1};
use crate::bytes::{le16, le32};
use crate::crypto::profile::{cksum_spec, cksum_type, dec_spec, enc_spec, key_len, known, mac_len, verify_spec};
use crate::crypto::{etype_of_cksum, CryptoError};
use crate::error::Krb5ErrorV;
use crate::protocol::ap::cred::{cred_part, infos_spec, mk_cred_spec, rd_cred_spec, read_cred_part, tickets_of};
use crate::protocol::ap::req_rep::{accept_req_spec, ap_option_bits, auth_data_spec, mk_rep_spec, mk_req_spec, rd_rep_spec, permitted_spec, rd_req_spec, req_context};
use crate::protocol::ap::safe_priv::{mk_priv_spec, mk_safe_spec, rd_priv_spec, rd_safe_spec, safe_body_spec, zero_safe};
use crate::protocol::ap::util::{addr_listed, addr_part, ap_authdata, ap_authdata_inner, etype_list, first_nego, first_shared, fulladdr_spec, negotiate_spec, up_to_etype};
use crate::protocol::ap::{clockskew_spec, decrypt_ticket_spec, encrypt_ticket_spec, fresh_context, rdata_spec, ret_rdata_spec, seal_spec, seqnum_spec, skew_ok, validate_times_spec, ApError, ApReqOptions, AuthContextV, EntropyV, KeySource, RdReqResultV, ReplayDataV};
use crate::protocol::credential::CredentialV;
use crate::text::utf8_lossy;
use crate::time::{stamp_of, usec_of, Duration, Moment, TimeV};
use crate::types::{ApRep, ApRepV, ApReq, ApReqV, Authenticator, AuthenticatorV, AuthorizationDataElement, AuthorizationDataElementV, ChecksumV, EncApRepPart, EncApRepPartV, EncKrbCredPart, EncKrbCredPartV, EncKrbPrivPart, EncKrbPrivPartV, EncTicketPart, EncTicketPartV, EncryptedDataV, EncryptionKeyV, HostAddressV, KrbCred, KrbCredInfoV, KrbCredV, KrbPriv, KrbPrivV, KrbSafe, KrbSafeBody, KrbSafeV, PrincipalNameV, TicketV};

verus! {

/// A time in nanoseconds.
pub open spec fn nanos(t: TimeV) -> int {
    t.secs * 1_000_000_000 + t.nanos
}

/// The clock of a context in nanoseconds: the reading and the offset, which
/// is in microseconds.
pub open spec fn clock_of(c: AuthContextV, now: Moment) -> int {
    now.secs * 1_000_000_000 + now.nanos + c.time_offset * 1_000
}

/// Whether encrypted data is what encrypting `plain` under a key and a usage
/// gives.
pub open spec fn sealed_as(d: EncryptedDataV, key: EncryptionKeyV, usage: i32, confounder: Seq<u8>, plain: Seq<u8>) -> bool {
    &&& d.etype == key.keytype
    &&& d.kvno is None
    &&& enc_spec(key.keytype, key.keyvalue, usage, confounder, plain) == Ok::<Seq<u8>, CryptoError>(d.cipher)
}

/// A bit of flags is set or it is not.
pub proof fn lemma_bits(f: u32)
    ensures
        f & 0x0001_0000 == 0x0001_0000 || f & 0x0001_0000 == 0,
        f & 0x0004_0000 == 0x0004_0000 || f & 0x0004_0000 == 0,
        f & 0x0008_0000 == 0x0008_0000 || f & 0x0008_0000 == 0,
        f & 0x0080_0000 == 0x0080_0000 || f & 0x0080_0000 == 0,
        f & 0x0100_0000 == 0x0100_0000 || f & 0x0100_0000 == 0,
        f & 0x2000_0000 == 0x2000_0000 || f & 0x2000_0000 == 0,
{
    assert((f & 0x0001_0000 == 0x0001_0000 || f & 0x0001_0000 == 0) && (f & 0x0004_0000 == 0x0004_0000 || f & 0x0004_0000 == 0) && (f
        & 0x0008_0000 == 0x0008_0000 || f & 0x0008_0000 == 0) && (f & 0x0080_0000 == 0x0080_0000 || f & 0x0080_0000 == 0) && (f
        & 0x0100_0000 == 0x0100_0000 || f & 0x0100_0000 == 0) && (f & 0x2000_0000 == 0x2000_0000 || f & 0x2000_0000 == 0))
        by (bit_vector);
}

/// A request that is made holds the ticket of the credential, the options
/// asked for, and an authenticator under the session key with usage 11: of
/// the credential's client and realm at the context's time, with the subkey
/// and the sequence number that the context then has and the checksum of the
/// data under usage 10, or the data itself where the checksum is of the GSS
/// type. The context keeps the authenticator and the session key.
pub proof fn law_req_made(c: AuthContextV, opts: ApReqOptions, data: Option<Seq<u8>>, cred: CredentialV, now: Moment, env: EntropyV)
    requires
        mk_req_spec(c, opts, data, cred, now, env).1 is Ok,
    ensures
        ({
            let (w, r) = mk_req_spec(c, opts, data, cred, now, env);
            let session = cred.session_key;
            exists|req: ApReqV, a: AuthenticatorV|
                {
                    &&& r->Ok_0 == #[trigger] <ApReq as Asn1>::der(req)
                    &&& req.pvno == 5
                    &&& req.msg_type == 14
                    &&& req.ap_options & 0x2000_0000 != 0 <==> opts.mutual_required
                    &&& req.ap_options & 0x4000_0000 != 0 <==> opts.use_session_key
                    &&& req.ap_options & 0x9fff_ffff == 0
                    &&& req.ticket == cred.ticket
                    &&& sealed_as(req.authenticator, session, 11, env.confounder, #[trigger] <Authenticator as Asn1>::der(a))
                    &&& a.authenticator_vno == 5
                    &&& a.cname == cred.client
                    &&& a.crealm == encode_utf8(cred.crealm)
                    &&& a.ctime == stamp_of(clock_of(c, now))
                    &&& a.cusec == usec_of(clock_of(c, now))
                    &&& a.subkey == w.send_subkey
                    &&& a.seq_number == (if w.local_seq != 0 { Some(w.local_seq) } else { None::<u32> })
                    &&& data is None ==> a.cksum is None
                    &&& data is Some && c.req_cksumtype == 0x8003 ==> a.cksum is Some && a.cksum->0.cksumtype == 0x8003
                        && a.cksum->0.checksum == data->0
                    &&& data is Some && c.req_cksumtype != 0x8003 ==> a.cksum is Some && a.cksum->0.cksumtype == cksum_type(
                        session.keytype,
                    ) && cksum_spec(session.keytype, session.keyvalue, 10, data->0) == Ok::<Seq<u8>, CryptoError>(
                        a.cksum->0.checksum,
                    )
                    &&& w.authentp == Some(a)
                    &&& w.key == Some(session)
                }
        }),
{
    let (w, r) = mk_req_spec(c, opts, data, cred, now, env);
    let c1 = req_context(c, opts, cred, env);
    let session = cred.session_key;
    let a = w.authentp->0;
    let sealed = seal_spec(session, 11, env.confounder, <Authenticator as Asn1>::der(a))->Ok_0;
    let req = ApReqV { pvno: 5, msg_type: 14, ap_options: ap_option_bits(opts), ticket: cred.ticket, authenticator: sealed };
    assert(r->Ok_0 == <ApReq as Asn1>::der(req));
    let m = opts.mutual_required;
    let u = opts.use_session_key;
    let bits = ap_option_bits(opts);
    assert((bits & 0x2000_0000 != 0 <==> m) && (bits & 0x4000_0000 != 0 <==> u) && bits & 0x9fff_ffff == 0) by (bit_vector)
        requires
            bits == (if m { if u { 0x6000_0000u32 } else { 0x2000_0000u32 } } else { if u { 0x4000_0000u32 } else { 0 } }),
    ;
    assert(c.clock(now) == clock_of(c, now));
}

/// A request that is made gives the context a subkey where one is asked for
/// and there is none: of the session key's type, the first octets of what was
/// drawn, for both directions. It draws a sequence number below 2^30, not 0,
/// exactly where sequence numbers are on and there is none.
pub proof fn law_req_keys(c: AuthContextV, opts: ApReqOptions, data: Option<Seq<u8>>, cred: CredentialV, now: Moment, env: EntropyV)
    requires
        mk_req_spec(c, opts, data, cred, now, env).1 is Ok,
        env.ok(),
    ensures
        ({
            let w = mk_req_spec(c, opts, data, cred, now, env).0;
            let t = cred.session_key.keytype;
            let drawn = env.seq % 0x4000_0000;
            &&& opts.use_subkey && c.send_subkey is None ==> {
                &&& w.send_subkey is Some
                &&& w.send_subkey->0.keytype == t
                &&& w.send_subkey->0.keyvalue == env.subkey.take(key_len(t) as int)
                &&& w.recv_subkey == w.send_subkey
            }
            &&& !(opts.use_subkey && c.send_subkey is None) ==> w.send_subkey == c.send_subkey && w.recv_subkey == c.recv_subkey
            &&& c.flags & 0x0c != 0 && c.local_seq == 0 ==> w.local_seq == (if drawn == 0 { 1u32 } else { drawn })
            &&& !(c.flags & 0x0c != 0 && c.local_seq == 0) ==> w.local_seq == c.local_seq
            &&& w.flags == c.flags
            &&& w.remote_seq == c.remote_seq
            &&& w.rcache == c.rcache
            &&& w.clockskew == c.clockskew
            &&& w.time_offset == c.time_offset
            &&& w.req_cksumtype == c.req_cksumtype
        }),
{
}

/// When a request is made: exactly when the credential has a ticket that
/// counts now, its key's type is known and its realm and checksum can be
/// encoded, and an enctype is negotiated only with mutual authentication.
pub proof fn law_req_refused(c: AuthContextV, opts: ApReqOptions, data: Option<Seq<u8>>, cred: CredentialV, now: Moment, env: EntropyV)
    ensures
        cred.ticket.enc_part.cipher.len() == 0 ==> mk_req_spec(c, opts, data, cred, now, env) == (
            c,
            Err::<Seq<u8>, Krb5ErrorV>(Krb5ErrorV::Ap(ApError::NoTktSupplied)),
        ),
        opts.etype_negotiation && !opts.mutual_required ==> mk_req_spec(c, opts, data, cred, now, env).1 is Err,
        mk_req_spec(c, opts, data, cred, now, env).1 is Ok ==> known(cred.session_key.keytype) && clock_of(c, now) <= nanos(
            cred.times.endtime,
        ) + c.clockskew.total(),
{
    assert(c.clock(now) == clock_of(c, now));
}

/// The times of a ticket count, within the clock skew, from its start, or its
/// authentication where it has none, to its end: before it is not yet valid,
/// after it is expired.
pub proof fn law_times(skew: Duration, clock: int, authtime: TimeV, starttime: Option<TimeV>, endtime: TimeV)
    requires
        skew_ok(skew),
    ensures
        ({
            let r = validate_times_spec(skew, clock, authtime, starttime, endtime);
            let start = if starttime is Some { nanos(starttime->0) } else { nanos(authtime) };
            let s = skew.secs * 1_000_000_000 + skew.nanos;
            &&& r is Ok <==> start - s <= clock <= nanos(endtime) + s
            &&& start - s > clock ==> r == Err::<(), ApError>(ApError::TktNyv)
            &&& start - s <= clock && clock > nanos(endtime) + s ==> r == Err::<(), ApError>(ApError::TktExpired)
        }),
{
}

/// A time is within the clock skew exactly when it differs from the clock by
/// no more than it, either way.
pub proof fn law_skew(skew: Duration, clock: int, t: TimeV)
    requires
        skew_ok(skew),
    ensures
        ({
            let r = clockskew_spec(skew, clock, t);
            let s = skew.secs * 1_000_000_000 + skew.nanos;
            &&& r is Ok <==> -s <= nanos(t) - clock <= s
            &&& r is Err ==> r == Err::<(), ApError>(ApError::Skew)
        }),
{
}

/// A new context checks times within five minutes and nothing else; it has no
/// keys, addresses or numbers.
pub proof fn law_fresh_context()
    ensures
        fresh_context().flags == 1,
        fresh_context().clockskew == (Duration { secs: 300, nanos: 0 }),
        fresh_context().time_offset == 0,
        fresh_context().local_addr is None && fresh_context().remote_addr is None,
        fresh_context().local_port is None && fresh_context().remote_port is None,
        fresh_context().permitted_etypes is None,
        fresh_context().req_cksumtype == 0,
        fresh_context().key is None && fresh_context().tkt_key is None,
        fresh_context().send_subkey is None && fresh_context().recv_subkey is None,
        fresh_context().local_seq == 0 && fresh_context().remote_seq == 0,
        fresh_context().negotiated_etype == 0,
        fresh_context().authentp is None,
        fresh_context().rcache.len() == 0,
{
}

/// The key that a request's ticket is read with: the one set for it, else the
/// one that is looked up by the server's name, or the name in the ticket
/// where none is given, the ticket's realm, and the number and type of the
/// key it is under.
pub open spec fn ticket_key<K: KeySource>(c: AuthContextV, req: ApReqV, server: Option<PrincipalNameV>, keys: K, key: EncryptionKeyV) -> bool {
    match c.tkt_key {
        Some(k) => k == key,
        None => keys.lookup(
            if server is Some { server->0 } else { req.ticket.sname },
            req.ticket.realm,
            req.ticket.enc_part.kvno,
            req.ticket.enc_part.etype,
        ) == Ok::<EncryptionKeyV, ApError>(key),
    }
}

/// A request that is accepted is an AP-REQ whose ticket opens with usage 2 and
/// whose authenticator opens under the ticket's session key with usage 11:
/// what is returned is those two as they read, and the two options that mean
/// anything. The client's name and realm are the same in both, the ticket
/// counts now, it is not invalid, the authenticator's time is within the clock
/// skew, and where times are checked it was not seen before.
pub proof fn law_req_read<K: KeySource>(c: AuthContextV, bytes: Seq<u8>, server: Option<PrincipalNameV>, keys: K, now: Moment)
    requires
        rd_req_spec(c, bytes, server, keys, now).1 is Ok,
    ensures
        ({
            let (w, r) = rd_req_spec(c, bytes, server, keys, now);
            let res = r->Ok_0;
            let req = <ApReq as Asn1>::parse(bytes)->0;
            let session = res.ticket.key;
            let a = res.authenticator;
            let t = res.ticket;
            let clock = clock_of(c, now);
            let s = c.clockskew.secs * 1_000_000_000 + c.clockskew.nanos;
            &&& bytes.len() > 0 && bytes[0] == 0x6e
            &&& <ApReq as Asn1>::parse(bytes) is Some
            &&& req.pvno == 5 && req.msg_type == 14
            &&& exists|key: EncryptionKeyV| #[trigger]
                ticket_key(c, req, server, keys, key) && (dec_spec(
                    req.ticket.enc_part.etype,
                    key.keyvalue,
                    2,
                    req.ticket.enc_part.cipher,
                ) matches Ok(p) && <EncTicketPart as Asn1>::parse(p) == Some(t))
            &&& dec_spec(session.keytype, session.keyvalue, 11, req.authenticator.cipher) matches Ok(p) && <Authenticator as Asn1>::parse(
                p,
            ) == Some(a)
            &&& res.ap_options == req.ap_options & 0x6000_0000
            &&& a.cname.name_string == t.cname.name_string
            &&& a.crealm == t.crealm
            &&& (if t.starttime is Some { nanos(t.starttime->0) } else { nanos(t.authtime) }) - s <= clock <= nanos(t.endtime) + s
            &&& -s <= nanos(a.ctime) - clock <= s
            &&& t.flags & 0x0100_0000 == 0
            &&& t.flags & 0x0008_0000 == 0 ==> t.transited.contents.len() == 0
            &&& w.key == Some(session)
            &&& w.recv_subkey == a.subkey
            &&& w.send_subkey == a.subkey
            &&& w.remote_seq == (if a.seq_number is Some { a.seq_number->0 } else { 0u32 })
            &&& w.authentp == Some(a)
            &&& w.tkt_key is None
            &&& c.remote() is Some ==> addr_listed(c.remote()->0, t.caddr)
            &&& c.flags & 1 != 0 ==> w.rcache.len() == c.rcache.len() + 1 && !c.rcache.contains(w.rcache.last())
        }),
{
    let (w, r) = rd_req_spec(c, bytes, server, keys, now);
    let res = r->Ok_0;
    let req = <ApReq as Asn1>::parse(bytes)->0;
    assert(c.clock(now) == clock_of(c, now));
    let key = if c.tkt_key is Some {
        c.tkt_key->0
    } else {
        keys.lookup(
            if server is Some { server->0 } else { req.ticket.sname },
            req.ticket.realm,
            req.ticket.enc_part.kvno,
            req.ticket.enc_part.etype,
        )->Ok_0
    };
    assert(ticket_key(c, req, server, keys, key));
    let f = res.ticket.flags;
    lemma_bits(f);
}

/// A reply that is made repeats the time of the authenticator that was
/// accepted, and holds a fresh subkey of the negotiated type where the context
/// makes its own, else the client's, and the sequence number that the context
/// then has; it is under the session key with usage 12.
pub proof fn law_rep_made(c: AuthContextV, env: EntropyV)
    requires
        mk_rep_spec(c, env).1 is Ok,
        env.ok(),
    ensures
        ({
            let (w, r) = mk_rep_spec(c, env);
            let a = c.authentp->0;
            let own = c.flags & 0x20 != 0;
            let t = c.negotiated_etype;
            let drawn = env.seq % 0x4000_0000;
            &&& c.authentp is Some
            &&& c.key is Some
            &&& exists|rep: ApRepV, enc: EncApRepPartV|
                {
                    &&& r->Ok_0 == #[trigger] <ApRep as Asn1>::der(rep)
                    &&& rep.pvno == 5
                    &&& rep.msg_type == 15
                    &&& sealed_as(rep.enc_part, c.key->0, 12, env.confounder, #[trigger] <EncApRepPart as Asn1>::der(enc))
                    &&& enc.ctime == a.ctime
                    &&& enc.cusec == a.cusec
                    &&& enc.subkey == (if own { w.send_subkey } else { a.subkey })
                    &&& enc.seq_number == (if w.local_seq != 0 { Some(w.local_seq) } else { None::<u32> })
                }
            &&& own ==> w.send_subkey == Some(EncryptionKeyV { keytype: t, keyvalue: env.subkey.take(key_len(t) as int) })
                && w.recv_subkey == w.send_subkey
            &&& !own ==> w.send_subkey == c.send_subkey && w.recv_subkey == c.recv_subkey
            &&& c.flags & 0x0c != 0 && c.local_seq == 0 ==> w.local_seq == (if drawn == 0 { 1u32 } else { drawn })
            &&& !(c.flags & 0x0c != 0 && c.local_seq == 0) ==> w.local_seq == c.local_seq
            &&& w.key == c.key
            &&& w.remote_seq == c.remote_seq
        }),
{
    let (w, r) = mk_rep_spec(c, env);
    let a = c.authentp->0;
    let own = c.flags & 0x20 != 0;
    if own {
        let n = key_len(c.negotiated_etype);
        assert(crate::bytes::head(env.subkey, n) =~= env.subkey.take(n as int));
    }
    let enc = EncApRepPartV {
        ctime: a.ctime,
        cusec: a.cusec,
        subkey: if own { w.send_subkey } else { a.subkey },
        seq_number: if w.local_seq != 0 { Some(w.local_seq) } else { None },
    };
    let sealed = seal_spec(c.key->0, 12, env.confounder, <EncApRepPart as Asn1>::der(enc))->Ok_0;
    let rep = ApRepV { pvno: 5, msg_type: 15, enc_part: sealed };
    assert(r->Ok_0 == <ApRep as Asn1>::der(rep));
}

/// A reply that is accepted is an AP-REP that opens under the session key with
/// usage 12 to a part with the time of the authenticator that was sent. The
/// context takes over the part's subkey, if it has one, for both directions,
/// and its sequence number; one with another time is refused.
pub proof fn law_rep_read(c: AuthContextV, bytes: Seq<u8>)
    requires
        rd_rep_spec(c, bytes).1 is Ok,
    ensures
        ({
            let (w, r) = rd_rep_spec(c, bytes);
            let enc = r->Ok_0;
            let rep = <ApRep as Asn1>::parse(bytes)->0;
            &&& bytes.len() > 0 && bytes[0] == 0x6f
            &&& <ApRep as Asn1>::parse(bytes) is Some
            &&& c.key is Some
            &&& dec_spec(rep.enc_part.etype, c.key->0.keyvalue, 12, rep.enc_part.cipher) matches Ok(p)
                && <EncApRepPart as Asn1>::parse(p) == Some(enc)
            &&& c.authentp is Some
            &&& enc.ctime == c.authentp->0.ctime
            &&& enc.cusec == c.authentp->0.cusec
            &&& enc.subkey is Some ==> w.send_subkey == enc.subkey && w.recv_subkey == enc.subkey && w.negotiated_etype
                == enc.subkey->0.keytype
            &&& enc.subkey is None ==> w.send_subkey == c.send_subkey && w.recv_subkey == c.recv_subkey && w.negotiated_etype
                == c.negotiated_etype
            &&& w.remote_seq == (if enc.seq_number is Some { enc.seq_number->0 } else { 0u32 })
            &&& w.local_seq == c.local_seq
            &&& w.key == c.key
        }),
{
}

/// A reply with another time than the authenticator's is refused.
pub proof fn law_rep_refused(c: AuthContextV, bytes: Seq<u8>, rep: ApRepV, plain: Seq<u8>, enc: EncApRepPartV)
    requires
        bytes.len() > 0,
        bytes[0] == 0x6f,
        <ApRep as Asn1>::parse(bytes) == Some(rep),
        c.key is Some,
        c.authentp is Some,
        known(rep.enc_part.etype),
        dec_spec(rep.enc_part.etype, c.key->0.keyvalue, 12, rep.enc_part.cipher) == Ok::<Seq<u8>, CryptoError>(plain),
        <EncApRepPart as Asn1>::parse(plain) == Some(enc),
        enc.ctime != c.authentp->0.ctime || enc.cusec != c.authentp->0.cusec,
    ensures
        rd_rep_spec(c, bytes) == (c, Err::<EncApRepPartV, Krb5ErrorV>(Krb5ErrorV::Ap(ApError::MutualFailed))),
{
}

/// The time and the number that a context puts into its messages: the time
/// where times are checked or returned, the number where sequence numbers
/// are; and what of them it returns to its caller.
pub proof fn law_message_data(c: AuthContextV, now: Moment, d: ReplayDataV)
    ensures
        ({
            let m = rdata_spec(c, now);
            &&& c.flags & 0x03 != 0 ==> m.timestamp == Some(stamp_of(clock_of(c, now))) && m.usec == Some(usec_of(clock_of(c, now)))
            &&& c.flags & 0x03 == 0 ==> m.timestamp is None && m.usec is None
            &&& m.seq == (if c.flags & 0x0c != 0 { Some(c.local_seq) } else { None::<u32> })
            &&& c.flags & 0x02 != 0 ==> ret_rdata_spec(c, d).timestamp == d.timestamp && ret_rdata_spec(c, d).usec == d.usec
            &&& c.flags & 0x02 == 0 ==> ret_rdata_spec(c, d).timestamp is None && ret_rdata_spec(c, d).usec is None
            &&& ret_rdata_spec(c, d).seq == (if c.flags & 0x08 != 0 { d.seq } else { None::<u32> })
        }),
{
    assert(c.clock(now) == clock_of(c, now));
}

/// The number of the next message: one more, round the end of 32 bits, where
/// sequence numbers are on.
pub open spec fn next_number(c: AuthContextV) -> u32 {
    if c.flags & 0x0c == 0 {
        c.local_seq
    } else if c.local_seq == u32::MAX {
        0
    } else {
        (c.local_seq + 1) as u32
    }
}

/// A private message holds the data, the time and the number, the sender's
/// address and the receiver's, under the key to send with and usage 13; then
/// the number goes up.
pub proof fn law_priv_made(c: AuthContextV, data: Seq<u8>, now: Moment, env: EntropyV)
    requires
        mk_priv_spec(c, data, now, env).1 is Ok,
    ensures
        ({
            let (w, r) = mk_priv_spec(c, data, now, env);
            let m = rdata_spec(c, now);
            let key = if c.send_subkey is Some { c.send_subkey->0 } else { c.key->0 };
            &&& c.send_subkey is Some || c.key is Some
            &&& c.local_addr is Some
            &&& exists|msg: KrbPrivV, part: EncKrbPrivPartV|
                {
                    &&& r->Ok_0.0 == #[trigger] <KrbPriv as Asn1>::der(msg)
                    &&& msg.pvno == 5
                    &&& msg.msg_type == 21
                    &&& sealed_as(msg.enc_part, key, 13, env.confounder, #[trigger] <EncKrbPrivPart as Asn1>::der(part))
                    &&& part.user_data == data
                    &&& part.timestamp == m.timestamp
                    &&& part.usec == m.usec
                    &&& part.seq_number == m.seq
                    &&& Some(part.s_address) == c.local()
                    &&& part.r_address == c.remote()
                }
            &&& r->Ok_0.1 == ret_rdata_spec(c, m)
            &&& w.local_seq == next_number(c)
            &&& w.key == c.key && w.send_subkey == c.send_subkey && w.recv_subkey == c.recv_subkey && w.remote_seq == c.remote_seq
        }),
{
    let (w, r) = mk_priv_spec(c, data, now, env);
    let m = rdata_spec(c, now);
    let key = c.send_key()->0;
    let part = EncKrbPrivPartV {
        user_data: data,
        timestamp: m.timestamp,
        usec: m.usec,
        seq_number: m.seq,
        s_address: c.local()->0,
        r_address: c.remote(),
    };
    let sealed = seal_spec(key, 13, env.confounder, <EncKrbPrivPart as Asn1>::der(part))->Ok_0;
    let msg = KrbPrivV { pvno: 5, msg_type: 21, enc_part: sealed };
    assert(r->Ok_0.0 == <KrbPriv as Asn1>::der(msg));
}

/// A private message that is taken is a KRB-PRIV that opens, under the key to
/// receive with and usage 13, to a part whose data is what is returned; its
/// sender is the other side, where its address is known, and its receiver this
/// one, where both addresses are; its time is within the clock skew and it was
/// not seen before, where times are checked.
pub proof fn law_priv_read(c: AuthContextV, bytes: Seq<u8>, now: Moment)
    requires
        rd_priv_spec(c, bytes, now).1 is Ok,
    ensures
        ({
            let (w, r) = rd_priv_spec(c, bytes, now);
            let msg = <KrbPriv as Asn1>::parse(bytes)->0;
            let key = if c.recv_subkey is Some { c.recv_subkey->0 } else { c.key->0 };
            let plain = dec_spec(msg.enc_part.etype, key.keyvalue, 13, msg.enc_part.cipher)->Ok_0;
            let part = <EncKrbPrivPart as Asn1>::parse(plain)->0;
            let s = c.clockskew.secs * 1_000_000_000 + c.clockskew.nanos;
            &&& bytes.len() > 0 && bytes[0] == 0x75
            &&& <KrbPriv as Asn1>::parse(bytes) is Some
            &&& msg.pvno == 5 && msg.msg_type == 21
            &&& c.recv_subkey is Some || c.key is Some
            &&& dec_spec(msg.enc_part.etype, key.keyvalue, 13, msg.enc_part.cipher) is Ok
            &&& <EncKrbPrivPart as Asn1>::parse(plain) is Some
            &&& r->Ok_0.0 == part.user_data
            &&& r->Ok_0.1 == ret_rdata_spec(
                c,
                ReplayDataV { timestamp: part.timestamp, usec: part.usec, seq: part.seq_number },
            )
            &&& c.remote() is Some ==> part.s_address == c.remote()->0
            &&& c.local() is Some && part.r_address is Some ==> part.r_address == c.local()
            &&& c.flags & 0x01 != 0 && part.timestamp is Some ==> -s <= nanos(part.timestamp->0) - clock_of(c, now) <= s
            &&& c.flags & 0x01 != 0 ==> w.rcache.len() == c.rcache.len() + 1 && !c.rcache.contains(w.rcache.last())
            &&& c.flags & 0x04 != 0 ==> seqnum_spec(c, if part.seq_number is Some { part.seq_number->0 } else { 0 }).1
            &&& w.local_seq == c.local_seq
        }),
{
    assert(c.clock(now) == clock_of(c, now));
}

/// A safe message holds the data, the time and the number, the sender's
/// address and the receiver's, and a checksum, under the key to send with and
/// usage 15, of the message with an empty checksum of type 0; then the number
/// goes up.
pub proof fn law_safe_made(c: AuthContextV, data: Seq<u8>, now: Moment)
    requires
        mk_safe_spec(c, data, now).1 is Ok,
    ensures
        ({
            let (w, r) = mk_safe_spec(c, data, now);
            let m = rdata_spec(c, now);
            let key = if c.send_subkey is Some { c.send_subkey->0 } else { c.key->0 };
            &&& c.send_subkey is Some || c.key is Some
            &&& c.local_addr is Some
            &&& exists|msg: KrbSafeV, bare: KrbSafeV|
                {
                    &&& r->Ok_0.0 == #[trigger] <KrbSafe as Asn1>::der(msg)
                    &&& msg.pvno == 5
                    &&& msg.msg_type == 20
                    &&& msg.safe_body.user_data == data
                    &&& msg.safe_body.timestamp == m.timestamp
                    &&& msg.safe_body.usec == m.usec
                    &&& msg.safe_body.seq_number == m.seq
                    &&& Some(msg.safe_body.s_address) == c.local()
                    &&& msg.safe_body.r_address == c.remote()
                    &&& bare.pvno == 5
                    &&& bare.msg_type == 20
                    &&& bare.safe_body == msg.safe_body
                    &&& bare.cksum.cksumtype == 0
                    &&& bare.cksum.checksum.len() == 0
                    &&& msg.cksum.cksumtype == cksum_type(key.keytype)
                    &&& cksum_spec(key.keytype, key.keyvalue, 15, #[trigger] <KrbSafe as Asn1>::der(bare)) == Ok::<Seq<u8>, CryptoError>(
                        msg.cksum.checksum,
                    )
                }
            &&& r->Ok_0.1 == ret_rdata_spec(c, m)
            &&& w.local_seq == next_number(c)
            &&& w.key == c.key && w.send_subkey == c.send_subkey && w.recv_subkey == c.recv_subkey && w.remote_seq == c.remote_seq
        }),
{
    let (w, r) = mk_safe_spec(c, data, now);
    let key = c.send_key()->0;
    let body = safe_body_spec(c, data, rdata_spec(c, now));
    let bare = zero_safe(body);
    let sum = cksum_spec(key.keytype, key.keyvalue, 15, <KrbSafe as Asn1>::der(bare))->Ok_0;
    let msg = KrbSafeV { cksum: ChecksumV { cksumtype: cksum_type(key.keytype), checksum: sum }, ..bare };
    assert(r->Ok_0.0 == <KrbSafe as Asn1>::der(msg));
}

/// A safe message that is taken is a KRB-SAFE with a keyed checksum of a known
/// type that is right, under the key to receive with and usage 15, of the
/// message with an empty checksum or of the body alone; what is returned is
/// the body's data; addresses and times are checked as in a private message.
pub proof fn law_safe_read(c: AuthContextV, bytes: Seq<u8>, now: Moment)
    requires
        rd_safe_spec(c, bytes, now).1 is Ok,
    ensures
        ({
            let (w, r) = rd_safe_spec(c, bytes, now);
            let msg = <KrbSafe as Asn1>::parse(bytes)->0;
            let body = msg.safe_body;
            let key = if c.recv_subkey is Some { c.recv_subkey->0 } else { c.key->0 };
            let e = etype_of_cksum(msg.cksum.cksumtype)->0;
            let bare = KrbSafeV { pvno: 5, msg_type: 20, safe_body: body, cksum: ChecksumV { cksumtype: 0, checksum: Seq::empty() } };
            let s = c.clockskew.secs * 1_000_000_000 + c.clockskew.nanos;
            &&& bytes.len() > 0 && bytes[0] == 0x74
            &&& <KrbSafe as Asn1>::parse(bytes) is Some
            &&& msg.pvno == 5 && msg.msg_type == 20
            &&& c.recv_subkey is Some || c.key is Some
            &&& etype_of_cksum(msg.cksum.cksumtype) is Some
            &&& verify_spec(e, key.keyvalue, 15, <KrbSafe as Asn1>::der(bare), msg.cksum.checksum) is Ok || verify_spec(
                e,
                key.keyvalue,
                15,
                <KrbSafeBody as Asn1>::der(body),
                msg.cksum.checksum,
            ) is Ok
            &&& r->Ok_0.0 == body.user_data
            &&& r->Ok_0.1 == ret_rdata_spec(
                c,
                ReplayDataV { timestamp: body.timestamp, usec: body.usec, seq: body.seq_number },
            )
            &&& c.remote() is Some ==> body.s_address == c.remote()->0
            &&& c.local() is Some && body.r_address is Some ==> body.r_address == c.local()
            &&& c.flags & 0x01 != 0 && body.timestamp is Some ==> -s <= nanos(body.timestamp->0) - clock_of(c, now) <= s
            &&& c.flags & 0x01 != 0 ==> w.rcache == c.rcache.push(msg.cksum.checksum) && !c.rcache.contains(msg.cksum.checksum)
            &&& c.flags & 0x04 != 0 ==> seqnum_spec(c, if body.seq_number is Some { body.seq_number->0 } else { 0 }).1
        }),
{
    assert(c.clock(now) == clock_of(c, now));
}

/// A message with credentials holds their tickets in order and, under the key
/// to send with and usage 14, for each its session key, client, server,
/// realms, flags, times and addresses; where there is no key it is in the
/// clear.
pub proof fn law_cred_made(c: AuthContextV, creds: Seq<CredentialV>, now: Moment, env: EntropyV)
    requires
        mk_cred_spec(c, creds, now, env).1 is Ok,
    ensures
        ({
            let (w, r) = mk_cred_spec(c, creds, now, env);
            let key = if c.send_subkey is Some { c.send_subkey } else { c.key };
            &&& exists|msg: KrbCredV, part: EncKrbCredPartV|
                {
                    &&& r->Ok_0.0 == #[trigger] <KrbCred as Asn1>::der(msg)
                    &&& msg.pvno == 5
                    &&& msg.msg_type == 22
                    &&& msg.tickets.len() == creds.len()
                    &&& forall|i: int| 0 <= i < creds.len() ==> #[trigger] msg.tickets[i] == creds[i].ticket
                    &&& key is Some ==> sealed_as(
                        msg.enc_part,
                        key->0,
                        14,
                        env.confounder,
                        #[trigger] <EncKrbCredPart as Asn1>::der(part),
                    )
                    &&& key is None ==> msg.enc_part.etype == 0 && msg.enc_part.kvno is None && msg.enc_part.cipher
                        == <EncKrbCredPart as Asn1>::der(part)
                    &&& part.ticket_info.len() == creds.len()
                    &&& forall|i: int| 0 <= i < creds.len() ==> tells(#[trigger] part.ticket_info[i], creds[i])
                    &&& part.timestamp == Some(stamp_of(clock_of(c, now)))
                    &&& part.usec == Some(usec_of(clock_of(c, now)))
                    &&& part.nonce == (if c.flags & 0x0c != 0 { Some(c.local_seq) } else { None::<u32> })
                    &&& part.s_address == c.local()
                    &&& part.r_address == c.remote()
                }
            &&& w.local_seq == next_number(c)
        }),
{
    let (w, r) = mk_cred_spec(c, creds, now, env);
    assert(c.clock(now) == clock_of(c, now));
    let infos = infos_spec(creds)->Ok_0;
    lemma_infos(creds);
    let part = cred_part(c, infos, now);
    let plain = <EncKrbCredPart as Asn1>::der(part);
    let enc = if c.send_key() is Some {
        seal_spec(c.send_key()->0, 14, env.confounder, plain)->Ok_0
    } else {
        EncryptedDataV { etype: 0, kvno: None, cipher: plain }
    };
    let msg = KrbCredV { pvno: 5, msg_type: 22, tickets: tickets_of(creds), enc_part: enc };
    assert(r->Ok_0.0 == <KrbCred as Asn1>::der(msg));
}

/// Whether what is told of a ticket is what its credential says.
pub open spec fn tells(i: KrbCredInfoV, c: CredentialV) -> bool {
    &&& i.key == c.session_key
    &&& i.prealm == Some(encode_utf8(c.crealm))
    &&& i.pname == Some(c.client)
    &&& i.flags == Some(c.flags)
    &&& i.authtime == Some(c.times.authtime)
    &&& i.starttime == c.times.starttime
    &&& i.endtime == Some(c.times.endtime)
    &&& i.renew_till == c.times.renew_till
    &&& i.srealm == Some(encode_utf8(c.srealm))
    &&& i.sname == Some(c.server)
    &&& i.caddr == c.addresses
}

proof fn lemma_infos(creds: Seq<CredentialV>)
    requires
        infos_spec(creds) is Ok,
    ensures
        infos_spec(creds)->Ok_0.len() == creds.len(),
        forall|i: int| 0 <= i < creds.len() ==> tells(#[trigger] infos_spec(creds)->Ok_0[i], creds[i]),
    decreases creds.len(),
{
    if creds.len() > 0 {
        lemma_infos(creds.drop_last());
        let before = infos_spec(creds.drop_last())->Ok_0;
        let all = infos_spec(creds)->Ok_0;
        assert forall|i: int| 0 <= i < creds.len() implies tells(#[trigger] all[i], creds[i]) by {
            if i < creds.len() - 1 {
                assert(all[i] == before[i]);
                assert(creds.drop_last()[i] == creds[i]);
            }
        }
    }
}

/// Credentials that are taken are those of a KRB-CRED message: for each ticket
/// in order one with that ticket and the session key, client, server, realms,
/// flags, times and addresses told of it, under the key to receive with and
/// usage 14, or in the clear where there is none. What is not told is empty, a
/// time that is not told is now.
pub proof fn law_cred_read(c: AuthContextV, bytes: Seq<u8>, now: Moment)
    requires
        rd_cred_spec(c, bytes, now).1 is Ok,
    ensures
        ({
            let (w, r) = rd_cred_spec(c, bytes, now);
            let msg = <KrbCred as Asn1>::parse(bytes)->0;
            let part = read_cred_part(c, msg.enc_part)->Ok_0;
            let creds = r->Ok_0.0;
            &&& bytes.len() > 0 && bytes[0] == 0x76
            &&& <KrbCred as Asn1>::parse(bytes) is Some
            &&& msg.pvno == 5 && msg.msg_type == 22
            &&& cred_part_opens(c, msg.enc_part, part)
            &&& creds.len() == msg.tickets.len()
            &&& forall|i: int|
                0 <= i < creds.len() ==> {
                    let x = #[trigger] creds[i];
                    let t = part.ticket_info[i];
                    &&& x.ticket == msg.tickets[i]
                    &&& x.session_key == t.key
                    &&& t.pname is Some ==> x.client == t.pname->0
                    &&& t.prealm is Some ==> x.crealm == utf8_lossy(t.prealm->0)
                    &&& t.sname is Some ==> x.server == t.sname->0
                    &&& t.srealm is Some ==> x.srealm == utf8_lossy(t.srealm->0)
                    &&& x.times.authtime == (if t.authtime is Some { t.authtime->0 } else { stamp_of(now.total()) })
                    &&& x.times.starttime == t.starttime
                    &&& x.times.endtime == (if t.endtime is Some { t.endtime->0 } else { stamp_of(now.total()) })
                    &&& x.times.renew_till == t.renew_till
                    &&& x.flags == (if t.flags is Some { t.flags->0 } else { 0 })
                    &&& x.addresses == t.caddr
                    &&& x.authdata is None
                }
            &&& c.flags & 0x04 != 0 ==> c.remote_seq == (if part.nonce is Some { part.nonce->0 } else { 0u32 })
            &&& r->Ok_0.1 == ret_rdata_spec(c, ReplayDataV { timestamp: part.timestamp, usec: part.usec, seq: part.nonce })
        }),
{
}

/// Whether the encrypted part of a message with credentials reads as `part`:
/// in the clear where the context has no key, else under its subkey to receive
/// with or its session key, with usage 14.
pub open spec fn cred_part_opens(c: AuthContextV, d: EncryptedDataV, part: EncKrbCredPartV) -> bool {
    if c.recv_subkey is None && c.key is None {
        <EncKrbCredPart as Asn1>::parse(d.cipher) == Some(part)
    } else {
        ||| c.recv_subkey is Some && (dec_spec(d.etype, c.recv_subkey->0.keyvalue, 14, d.cipher) matches Ok(p)
            && <EncKrbCredPart as Asn1>::parse(p) == Some(part))
        ||| c.key is Some && (dec_spec(d.etype, c.key->0.keyvalue, 14, d.cipher) matches Ok(p)
            && <EncKrbCredPart as Asn1>::parse(p) == Some(part))
    }
}

/// An address with a port is of type 256: for each of the two two zero octets,
/// the type in two octets and the length in four, the least significant first,
/// and the address.
pub proof fn law_address_with_port(a: HostAddressV, p: HostAddressV)
    requires
        0 <= a.addr_type < 0x1_0000,
        0 <= p.addr_type < 0x1_0000,
        a.address.len() < 0x1_0000_0000,
        p.address.len() < 0x1_0000_0000,
    ensures
        fulladdr_spec(a, p).addr_type == 0x100,
        fulladdr_spec(a, p).address == (seq![0u8, 0u8] + le16(a.addr_type as u16) + le32(a.address.len() as u32) + a.address) + (
        seq![0u8, 0u8] + le16(p.addr_type as u16) + le32(p.address.len() as u32) + p.address),
{
    lemma_addr_part(a);
    lemma_addr_part(p);
}

proof fn lemma_addr_part(a: HostAddressV)
    requires
        0 <= a.addr_type < 0x1_0000,
        a.address.len() < 0x1_0000_0000,
    ensures
        addr_part(a) == seq![0u8, 0u8] + le16(a.addr_type as u16) + le32(a.address.len() as u32) + a.address,
{
    assert(a.addr_type % 0x1_0000 == a.addr_type);
    assert(a.address.len() % 0x1_0000_0000 == a.address.len());
}

/// An address is allowed by a list that holds it and by none at all, and by a
/// list of one NetBIOS name.
pub proof fn law_address_allowed(a: HostAddressV, list: Seq<HostAddressV>)
    ensures
        addr_listed(a, None),
        addr_listed(a, Some(list)) <==> list.contains(a) || (list.len() == 1 && list[0].addr_type == 20),
{
}

/// The address of a side is the plain one, or the one with its port where the
/// port is set.
pub proof fn law_addresses(c: AuthContextV)
    ensures
        c.local_addr is None ==> c.local() is None,
        c.local_addr is Some && c.local_port is None ==> c.local() == c.local_addr,
        c.local_addr is Some && c.local_port is Some ==> c.local() == Some(fulladdr_spec(c.local_addr->0, c.local_port->0)),
        c.remote_addr is None ==> c.remote() is None,
        c.remote_addr is Some && c.remote_port is None ==> c.remote() == c.remote_addr,
        c.remote_addr is Some && c.remote_port is Some ==> c.remote() == Some(
            fulladdr_spec(c.remote_addr->0, c.remote_port->0),
        ),
{
}

/// The type that is negotiated is one that is desired and, where some are
/// permitted, permitted: the first of these that is desired. A type that is
/// mandatory and not permitted ends the negotiation.
pub proof fn law_negotiated(desired: Seq<i32>, mandatory: int, permitted: Seq<i32>)
    requires
        0 <= mandatory <= desired.len(),
    ensures
        ({
            let r = negotiate_spec(desired, mandatory, Some(permitted));
            let bad = exists|i: int| mandatory <= i < desired.len() && !permitted.contains(#[trigger] desired[i]);
            &&& r matches Ok(e) ==> desired.contains(e) && !bad && exists|k: int|
                0 <= k < permitted.len() && #[trigger] permitted[k] == e && forall|j: int|
                    0 <= j < k ==> !desired.contains(#[trigger] permitted[j])
            &&& r is Err ==> r == Err::<i32, ApError>(ApError::NoPermEtype) && (bad || forall|k: int|
                0 <= k < permitted.len() ==> !desired.contains(#[trigger] permitted[k]))
        }),
        desired.len() > 0 ==> negotiate_spec(desired, mandatory, None) == Ok::<i32, ApError>(desired[0]),
        desired.len() == 0 ==> negotiate_spec(desired, mandatory, None) == Err::<i32, ApError>(ApError::NoPermEtype),
{
    lemma_first_shared(permitted, desired);
}

proof fn lemma_first_shared(prefs: Seq<i32>, have: Seq<i32>)
    ensures
        first_shared(prefs, have) matches Some(e) ==> have.contains(e) && exists|k: int|
            0 <= k < prefs.len() && #[trigger] prefs[k] == e && forall|j: int| 0 <= j < k ==> !have.contains(#[trigger] prefs[j]),
        first_shared(prefs, have) is None ==> forall|k: int| 0 <= k < prefs.len() ==> !have.contains(#[trigger] prefs[k]),
    decreases prefs.len(),
{
    if prefs.len() > 0 {
        let rest = prefs.drop_first();
        lemma_first_shared(rest, have);
        if !have.contains(prefs[0]) {
            match first_shared(rest, have) {
                Some(e) => {
                    let k = choose|k: int|
                        0 <= k < rest.len() && #[trigger] rest[k] == e && forall|j: int|
                            0 <= j < k ==> !have.contains(#[trigger] rest[j]);
                    assert(prefs[k + 1] == e);
                    assert forall|j: int| 0 <= j < k + 1 implies !have.contains(#[trigger] prefs[j]) by {
                        if j > 0 {
                            assert(prefs[j] == rest[j - 1]);
                        }
                    }
                },
                None => {
                    assert forall|k: int| 0 <= k < prefs.len() implies !have.contains(#[trigger] prefs[k]) by {
                        if k > 0 {
                            assert(prefs[k] == rest[k - 1]);
                        }
                    }
                },
            }
        } else {
            assert(prefs[0] == prefs[0]);
        }
    }
}

/// The types that are negotiated by default: AES of 256 and 128 bits with
/// SHA-1, then of 256 and 128 bits with SHA-2.
pub proof fn law_default_etypes(c: AuthContextV)
    requires
        c.permitted_etypes is None,
    ensures
        permitted_spec(c) == seq![18i32, 17i32, 20i32, 19i32],
{
}

/// A message's number is taken where it is the one expected and refused where
/// it is not, but for a peer that extends the sign of small numbers or writes
/// the first ones the wrong way round, as long as the peer has not shown
/// otherwise.
pub proof fn law_numbers(c: AuthContextV, n: u32)
    ensures
        ({
            let e = c.remote_seq;
            let (w, fits) = seqnum_spec(c, n);
            &&& c.conn_sane_seq ==> (fits <==> n == e) && w == c
            &&& n == e && n < 0xff80_0000 ==> fits
            &&& fits && n != e ==> !c.conn_sane_seq && w.conn_heimdal_seq && ((n == e + 0xffff_ff00 && 0x80 <= e < 0x100) || (n == e
                + 0xffff_0000 && 0x8000 <= e < 0x1_0000) || (n == e + 0xff00_0000 && 0x80_0000 <= e < 0x100_0000) || (e == 0
                && !c.conn_heimdal_seq && (n == 0x100 || n == 0x1_0000 || n == 0x100_0000)))
            &&& w.local_seq == c.local_seq
            &&& w.rcache == c.rcache
            &&& w.key == c.key
            &&& !fits ==> w == c
        }),
{
}

/// Why an AP request that reads is refused, in this order: the client's name
/// or realm differ between ticket and authenticator; the client's address is
/// not one of the ticket's; the ticket passed through realms that were not
/// checked; it was seen before, where times are checked; it does not count
/// now; the authenticator's time is off; it is invalid; no enctype is left.
pub proof fn law_request_refused(c: AuthContextV, req: ApReqV, t: EncTicketPartV, a: AuthenticatorV, now: Moment)
    ensures
        ({
            let r = accept_req_spec(c, req, t, a, now).1;
            let named = a.cname.name_string == t.cname.name_string && a.crealm == t.crealm;
            let near = c.remote() is None || addr_listed(c.remote()->0, t.caddr);
            let checked = t.flags & 0x0008_0000 != 0 || t.transited.contents.len() == 0;
            let n = req.authenticator.cipher.len() - mac_len(t.key.keytype);
            let seen = c.flags & 0x01 != 0 && c.rcache.contains(req.authenticator.cipher.subrange(n, n + mac_len(t.key.keytype)));
            let times = validate_times_spec(c.clockskew, clock_of(c, now), t.authtime, t.starttime, t.endtime);
            let near_time = clockskew_spec(c.clockskew, clock_of(c, now), a.ctime) is Ok;
            &&& !named ==> r == Err::<RdReqResultV, Krb5ErrorV>(Krb5ErrorV::Ap(ApError::BadMatch))
            &&& named && !near ==> r == Err::<RdReqResultV, Krb5ErrorV>(Krb5ErrorV::Ap(ApError::BadAddr))
            &&& named && near && !checked ==> r == Err::<RdReqResultV, Krb5ErrorV>(Krb5ErrorV::Ap(ApError::IllCrTkt))
            &&& named && near && checked && seen ==> r == Err::<RdReqResultV, Krb5ErrorV>(Krb5ErrorV::Ap(ApError::Repeat))
            &&& named && near && checked && !seen && times is Err ==> r == Err::<RdReqResultV, Krb5ErrorV>(
                Krb5ErrorV::Ap(times->Err_0),
            )
            &&& named && near && checked && !seen && times is Ok && !near_time ==> r == Err::<RdReqResultV, Krb5ErrorV>(
                Krb5ErrorV::Ap(ApError::Skew),
            )
            &&& named && near && checked && !seen && times is Ok && near_time && t.flags & 0x0100_0000 != 0 ==> r == Err::<
                RdReqResultV,
                Krb5ErrorV,
            >(Krb5ErrorV::Ap(ApError::TktInvalid))
        }),
{
    assert(c.clock(now) == clock_of(c, now));
    let f = t.flags;
    lemma_bits(f);
}

/// What accepting a request settles: the enctype is negotiated from those the
/// client lists, its subkey's and the session key's, the last two of which are
/// mandatory, among those permitted; without mutual authentication the number
/// to send with is made of the client's own; the end of the authenticator's
/// octets is what is kept against replays.
pub proof fn law_request_settles(c: AuthContextV, req: ApReqV, t: EncTicketPartV, a: AuthenticatorV, now: Moment)
    requires
        accept_req_spec(c, req, t, a, now).1 is Ok,
    ensures
        ({
            let w = accept_req_spec(c, req, t, a, now).0;
            let listed = if a.authorization_data is Some { etype_list(a.authorization_data->0) } else { Seq::empty() };
            let wanted = (if a.subkey is Some { listed.push(a.subkey->0.keytype) } else { listed }).push(t.key.keytype);
            let allowed = if c.flags & 0x10 != 0 {
                None
            } else if c.permitted_etypes is Some {
                c.permitted_etypes
            } else {
                Some(seq![18i32, 17i32, 20i32, 19i32])
            };
            let n = req.authenticator.cipher.len() - mac_len(t.key.keytype);
            let seq = if a.seq_number is Some { a.seq_number->0 } else { 0 };
            &&& negotiate_spec(wanted, listed.len() as int, allowed) == Ok::<i32, ApError>(w.negotiated_etype)
            &&& req.ap_options & 0x2000_0000 == 0 && seq != 0 ==> w.local_seq == c.local_seq ^ seq
            &&& req.ap_options & 0x2000_0000 != 0 || seq == 0 ==> w.local_seq == c.local_seq
            &&& c.flags & 0x01 != 0 ==> w.rcache == c.rcache.push(
                req.authenticator.cipher.subrange(n, n + mac_len(t.key.keytype)),
            )
            &&& c.flags & 0x01 == 0 ==> w.rcache == c.rcache
            &&& w.flags == c.flags
        }),
{
    let o = req.ap_options;
    lemma_bits(o);
}

/// The authorization data of a request: first, in a container of type 1 and
/// only where there is any, the enctypes preferred to the ticket's, of type
/// 129, where one is negotiated, and four octets of type 143 where channel
/// bindings are asked for; then the credential's own.
pub proof fn law_request_data(c: AuthContextV, opts: ApReqOptions, cred: CredentialV)
    ensures
        ({
            let r = auth_data_spec(c, opts, cred);
            let own = if cred.authdata is Some { cred.authdata->0 } else { Seq::empty() };
            let wanted = if c.permitted_etypes is Some { c.permitted_etypes->0 } else { seq![18i32, 17i32, 20i32, 19i32] };
            let t = cred.session_key.keytype;
            let list = AuthorizationDataElementV { ad_type: 129, ad_data: list_der::<i32>(up_to_etype(wanted, t)) };
            let bound = AuthorizationDataElementV { ad_type: 143, ad_data: seq![0x00u8, 0x40u8, 0x00u8, 0x00u8] };
            let negotiates = opts.etype_negotiation && !(wanted.len() > 0 && wanted[0] == t);
            let inner = if negotiates && opts.cbt {
                seq![list, bound]
            } else if negotiates {
                seq![list]
            } else {
                seq![bound]
            };
            let first = AuthorizationDataElementV { ad_type: 1, ad_data: list_der::<AuthorizationDataElement>(inner) };
            &&& negotiates || opts.cbt ==> r == Some(seq![first] + own)
            &&& !negotiates && !opts.cbt ==> r == (if own.len() == 0 { None } else { Some(own) })
        }),
{
    assert(le32(0x4000) =~= seq![0x00u8, 0x40u8, 0x00u8, 0x00u8]);
    let wanted = permitted_spec(c);
    let desired = if opts.etype_negotiation { Some(wanted) } else { None };
    let t = cred.session_key.keytype;
    let list = AuthorizationDataElementV { ad_type: 129, ad_data: list_der::<i32>(up_to_etype(wanted, t)) };
    let bound = AuthorizationDataElementV { ad_type: 143, ad_data: le32(0x4000) };
    let negotiates = opts.etype_negotiation && !(wanted.len() > 0 && wanted[0] == t);
    let x = ap_authdata_inner(desired, t, opts.cbt);
    if negotiates && opts.cbt {
        assert(x =~= seq![list, bound]);
    } else if negotiates {
        assert(x =~= seq![list]);
    } else if opts.cbt {
        assert(x =~= seq![bound]);
    } else {
        assert(x.len() == 0);
        let own = if cred.authdata is Some { cred.authdata->0 } else { Seq::empty() };
        assert(Seq::<AuthorizationDataElementV>::empty() + own =~= own);
    }
    assert(seq![0i32].len() == 1);
    if cred.authdata is None {
        let e = ap_authdata(desired, t, opts.cbt);
        if e is Some {
            assert(seq![e->0] =~= seq![e->0] + Seq::<AuthorizationDataElementV>::empty());
        }
    }
}

/// The enctypes preferred to a ticket's are those before it, and it.
pub proof fn law_preferred_etypes(wanted: Seq<i32>, e: i32, i: int)
    requires
        0 <= i < wanted.len(),
        wanted[i] == e,
        forall|j: int| 0 <= j < i ==> #[trigger] wanted[j] != e,
    ensures
        up_to_etype(wanted, e) == wanted.take(i + 1),
    decreases wanted.len(),
{
    if i == 0 {
        assert(up_to_etype(wanted, e) =~= wanted.take(1));
    } else {
        let rest = wanted.drop_first();
        assert(wanted[0] != e);
        assert forall|j: int| 0 <= j < i - 1 implies #[trigger] rest[j] != e by {
            assert(rest[j] == wanted[j + 1]);
        }
        law_preferred_etypes(rest, e, i - 1);
        assert(seq![wanted[0]] + rest.take(i) =~= wanted.take(i + 1));
    }
}

/// A ticket that is made is of version 5, for the server and realm, and its
/// part is under the server's key with usage 2; and a ticket opens under the
/// same.
pub proof fn law_tickets(
    key: EncryptionKeyV,
    kvno: Option<i32>,
    realm: Seq<u8>,
    sname: PrincipalNameV,
    part: EncTicketPartV,
    env: EntropyV,
    ticket: TicketV,
)
    ensures
        encrypt_ticket_spec(key, kvno, realm, sname, part, env) matches Ok(t) ==> t.tkt_vno == 5 && t.realm == realm && t.sname == sname
            && t.enc_part.etype == key.keytype && t.enc_part.kvno == kvno && enc_spec(
            key.keytype,
            key.keyvalue,
            2,
            env.confounder,
            <EncTicketPart as Asn1>::der(part),
        ) == Ok::<Seq<u8>, CryptoError>(t.enc_part.cipher),
        decrypt_ticket_spec(key, ticket) matches Ok(p) ==> (dec_spec(ticket.enc_part.etype, key.keyvalue, 2, ticket.enc_part.cipher) matches Ok(
            plain,
        ) && <EncTicketPart as Asn1>::parse(plain) == Some(p)),
{
}

/// A request is accepted wherever none of the reasons to refuse it holds.
pub proof fn law_request_accepted(c: AuthContextV, req: ApReqV, t: EncTicketPartV, a: AuthenticatorV, now: Moment)
    requires
        skew_ok(c.clockskew),
        a.cname.name_string == t.cname.name_string,
        a.crealm == t.crealm,
        c.remote() is Some ==> addr_listed(c.remote()->0, t.caddr),
        t.transited.contents.len() == 0 || t.flags & 0x0008_0000 != 0,
        c.flags & 0x01 == 0,
        t.flags & 0x0100_0000 == 0,
        ({
            let s = c.clockskew.secs * 1_000_000_000 + c.clockskew.nanos;
            let start = if t.starttime is Some { nanos(t.starttime->0) } else { nanos(t.authtime) };
            start - s <= clock_of(c, now) <= nanos(t.endtime) + s && -s <= nanos(a.ctime) - clock_of(c, now) <= s
        }),
        c.flags & 0x10 != 0,
    ensures
        accept_req_spec(c, req, t, a, now).1 == Ok::<RdReqResultV, Krb5ErrorV>(
            RdReqResultV { ticket: t, ap_options: req.ap_options & 0x6000_0000, authenticator: a },
        ),
{
    assert(c.clock(now) == clock_of(c, now));
    lemma_bits(t.flags);
}

/// A request is made wherever the credential has a ticket that counts now, its
/// session key is of a known type and length, its realm can be encoded, and no
/// enctype is negotiated without mutual authentication.
pub proof fn law_req_owed(c: AuthContextV, opts: ApReqOptions, cred: CredentialV, now: Moment, env: EntropyV)
    requires
        skew_ok(c.clockskew),
        cred.ticket.enc_part.cipher.len() > 0,
        opts.etype_negotiation ==> opts.mutual_required,
        ({
            let s = c.clockskew.secs * 1_000_000_000 + c.clockskew.nanos;
            let t = cred.times;
            let start = if t.starttime is Some { nanos(t.starttime->0) } else { nanos(t.authtime) };
            start - s <= clock_of(c, now) <= nanos(t.endtime) + s
        }),
        known(cred.session_key.keytype),
        cred.session_key.keyvalue.len() == key_len(cred.session_key.keytype),
        general_ok(encode_utf8(cred.crealm)),
    ensures
        mk_req_spec(c, opts, None, cred, now, env).1 is Ok,
{
    assert(c.clock(now) == clock_of(c, now));
}

/// The enctypes that a client offers are those of the first element of its
/// authorization data that lists some: of the element for it, or of one for it
/// among those that need not be understood. Other elements are passed over.
pub proof fn law_offered_etypes(
    es: Seq<AuthorizationDataElementV>,
    inner: Seq<AuthorizationDataElementV>,
    l: Seq<i32>,
)
    requires
        es.len() > 0,
    ensures
        etype_list(Seq::empty()).len() == 0,
        es[0].ad_type == 129 && list_parse::<i32>(es[0].ad_data) == Some(l) ==> etype_list(es) == l,
        es[0].ad_type == 1 && list_parse::<AuthorizationDataElement>(es[0].ad_data) == Some(inner) && inner.len() > 0 && inner[0].ad_type
            == 129 && list_parse::<i32>(inner[0].ad_data) == Some(l) ==> etype_list(es) == l,
        es[0].ad_type == 1 && list_parse::<AuthorizationDataElement>(es[0].ad_data) == Some(inner) && (forall|i: int|
            0 <= i < inner.len() ==> (#[trigger] inner[i]).ad_type != 129) ==> etype_list(es) == etype_list(es.drop_first()),
        es[0].ad_type != 1 && es[0].ad_type != 129 ==> etype_list(es) == etype_list(es.drop_first()),
{
    lemma_none_offered(inner);
}

proof fn lemma_none_offered(es: Seq<AuthorizationDataElementV>)
    ensures
        (forall|i: int| 0 <= i < es.len() ==> (#[trigger] es[i]).ad_type != 129) ==> first_nego(es) is None,
    decreases es.len(),
{
    if es.len() > 0 {
        let rest = es.drop_first();
        lemma_none_offered(rest);
        assert forall|i: int| 0 <= i < rest.len() implies #[trigger] rest[i] == es[i + 1] by {}
    }
}

} // verus!
