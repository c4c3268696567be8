//! AP-REQ and AP-REP.
use vstd::prelude::*;
use vstd::utf8::encode_utf8;

use crate::asn1::{dup_list, dup_opt, general_ok, opt_list_view, Asn1, Dup, FlagBits, GeneralString};
use crate::bytes::{copy, cut};
use crate::crypto::profile::{checksum_with, cksum_spec, cksum_type, known, mac_len, opt_seq};
use crate::crypto::{find_etype, key_usage, CryptoError, EtypeProfile};
use crate::der::{list_view, opt_view};
use crate::error::{crypto_err, outcome, Krb5Error, Krb5ErrorV};
use crate::protocol::ap::util::{addr_listed, address_search, ap_authdata, decode_etype_list, etype_list, make_ap_authdata, negotiate_etype, negotiate_spec};
use crate::protocol::ap::{any_flag, clockskew_spec, decrypt_ticket, decrypt_ticket_spec, fresh_key_spec, fresh_seq_spec, open_sealed, open_spec, seal, seal_spec, validate_times_spec, ApError, ApReqOptions, AuthContext, AuthContextFlags, AuthContextV, Entropy, EntropyV, KeySource, RdReqResult, RdReqResultV, SEQ_FLAGS};
use crate::protocol::credential::{Credential, CredentialV};
use crate::time::{stamp_of, usec_of, Moment};
use crate::types::names::has_flags;
use crate::types::{ApOptions, ApRep, ApRepV, ApReq, ApReqV, Authenticator, AuthenticatorV, AuthorizationDataElement, AuthorizationDataElementV, Checksum, ChecksumV, EncApRepPart, EncApRepPartV, EncTicketPart, EncTicketPartV, EncryptionKey, EncryptionKeyV, PrincipalName, PrincipalNameV, TicketFlags};

verus! {

/// The AP options that travel: USE_SESSION_KEY and MUTUAL_REQUIRED.
pub const AP_OPTS_WIRE: u32 = 0x6000_0000;

/// The default enctypes, most preferred first.
pub open spec fn default_etypes() -> Seq<i32> {
    seq![18i32, 17i32, 20i32, 19i32]
}

/// The default enctypes, most preferred first.
pub fn default_etype_list() -> (r: Vec<i32>)
    ensures
        r@ == default_etypes(),
{
    let mut v: Vec<i32> = Vec::new();
    v.push(18);
    v.push(17);
    v.push(20);
    v.push(19);
    assert(v@ =~= default_etypes());
    v
}

/// The enctypes a context permits.
pub open spec fn permitted_spec(c: AuthContextV) -> Seq<i32> {
    match c.permitted_etypes {
        Some(p) => p,
        None => default_etypes(),
    }
}

/// The checksum of an authenticator over application data: the raw data for
/// the GSS type, else the session key's mandatory checksum.
pub open spec fn auth_cksum_spec(c: AuthContextV, session: EncryptionKeyV, data: Option<Seq<u8>>) -> Result<
    Option<ChecksumV>,
    CryptoError,
> {
    match data {
        None => Ok(None),
        Some(d) => if c.req_cksumtype == 0x8003 {
            Ok(Some(ChecksumV { cksumtype: 0x8003, checksum: d }))
        } else {
            match cksum_spec(session.keytype, session.keyvalue, key_usage::AP_REQ_AUTH_CKSUM, d) {
                Ok(s) => Ok(Some(ChecksumV { cksumtype: cksum_type(session.keytype), checksum: s })),
                Err(e) => Err(e),
            }
        },
    }
}

/// The authorization data of an authenticator: the if-relevant element, then
/// the credential's own.
pub open spec fn auth_data_spec(c: AuthContextV, opts: ApReqOptions, cred: CredentialV) -> Option<
    Seq<AuthorizationDataElementV>,
> {
    let desired = if opts.etype_negotiation { Some(permitted_spec(c)) } else { None };
    let first = match ap_authdata(desired, cred.session_key.keytype, opts.cbt) {
        Some(e) => seq![e],
        None => Seq::empty(),
    };
    let all = match cred.authdata {
        Some(ad) => first + ad,
        None => first,
    };
    if all.len() == 0 {
        None
    } else {
        Some(all)
    }
}

/// A context that has taken over a credential's session key, with a sequence
/// number and a subkey where they are asked for and not there yet.
pub open spec fn req_context(c: AuthContextV, opts: ApReqOptions, cred: CredentialV, env: EntropyV) -> AuthContextV {
    let seq = if c.seq_on() && c.local_seq == 0 { fresh_seq_spec(env) } else { c.local_seq };
    let fresh = opts.use_subkey && c.send_subkey is None;
    let sub = fresh_key_spec(env, cred.session_key.keytype);
    AuthContextV {
        key: Some(cred.session_key),
        local_seq: seq,
        send_subkey: if fresh { Some(sub) } else { c.send_subkey },
        recv_subkey: if fresh { Some(sub) } else { c.recv_subkey },
        ..c
    }
}

/// The authenticator of an AP-REQ that context `c` sends.
pub open spec fn authenticator_spec(
    c: AuthContextV,
    opts: ApReqOptions,
    cksum: Option<ChecksumV>,
    cred: CredentialV,
    now: Moment,
) -> AuthenticatorV {
    AuthenticatorV {
        authenticator_vno: 5,
        crealm: encode_utf8(cred.crealm),
        cname: cred.client,
        cksum,
        cusec: usec_of(c.clock(now)),
        ctime: stamp_of(c.clock(now)),
        subkey: c.send_subkey,
        seq_number: if c.local_seq != 0 { Some(c.local_seq) } else { None },
        authorization_data: auth_data_spec(c, opts, cred),
    }
}

/// The option bits of an AP-REQ.
pub open spec fn ap_option_bits(opts: ApReqOptions) -> u32 {
    if opts.mutual_required {
        if opts.use_session_key { AP_OPTS_WIRE } else { ApOptions::MUTUAL_REQUIRED }
    } else {
        if opts.use_session_key { ApOptions::USE_SESSION_KEY } else { 0 }
    }
}

/// What making an AP-REQ does to the context and returns.
pub open spec fn mk_req_spec(
    c: AuthContextV,
    opts: ApReqOptions,
    data: Option<Seq<u8>>,
    cred: CredentialV,
    now: Moment,
    env: EntropyV,
) -> (AuthContextV, Result<Seq<u8>, Krb5ErrorV>) {
    let session = cred.session_key;
    let times = validate_times_spec(
        c.clockskew,
        c.clock(now),
        cred.times.authtime,
        cred.times.starttime,
        cred.times.endtime,
    );
    if cred.ticket.enc_part.cipher.len() == 0 {
        (c, Err(Krb5ErrorV::Ap(ApError::NoTktSupplied)))
    } else if opts.etype_negotiation && !opts.mutual_required {
        (c, Err(Krb5ErrorV::ReplyValidation("etype negotiation requires mutual auth"@)))
    } else if times is Err {
        (c, Err(Krb5ErrorV::Ap(times->Err_0)))
    } else if !known(session.keytype) {
        (AuthContextV { key: Some(session), ..c }, Err(crypto_err(CryptoError::UnsupportedEtype)))
    } else {
        let c1 = req_context(c, opts, cred, env);
        match auth_cksum_spec(c1, session, data) {
            Err(e) => (c1, Err(crypto_err(e))),
            Ok(cksum) => if !general_ok(encode_utf8(cred.crealm)) {
                (c1, Err(Krb5ErrorV::ReplyValidation("invalid crealm"@)))
            } else {
                let auth = authenticator_spec(c1, opts, cksum, cred, now);
                match seal_spec(session, key_usage::AP_REQ_AUTH, env.confounder, <Authenticator as Asn1>::der(auth)) {
                    Err(e) => (c1, Err(e)),
                    Ok(sealed) => (
                        AuthContextV { authentp: Some(auth), ..c1 },
                        Ok(
                            <ApReq as Asn1>::der(
                                ApReqV {
                                    pvno: 5,
                                    msg_type: 14,
                                    ap_options: ap_option_bits(opts),
                                    ticket: cred.ticket,
                                    authenticator: sealed,
                                },
                            ),
                        ),
                    ),
                }
            },
        }
    }
}

/// Decrypting and decoding an authenticator under a session key.
pub open spec fn open_auth_spec(session: EncryptionKeyV, cipher: Seq<u8>) -> Result<AuthenticatorV, Krb5ErrorV> {
    if !known(session.keytype) {
        Err(crypto_err(CryptoError::UnsupportedEtype))
    } else {
        match open_spec(session.keytype, session.keyvalue, key_usage::AP_REQ_AUTH, cipher) {
            None => Err(Krb5ErrorV::Ap(ApError::BadIntegrity)),
            Some(p) => match <Authenticator as Asn1>::parse(p) {
                None => Err(Krb5ErrorV::Ap(ApError::BadIntegrity)),
                Some(a) => Ok(a),
            },
        }
    }
}

/// The last `n` octets.
pub open spec fn tail_of(s: Seq<u8>, n: nat) -> Seq<u8> {
    s.subrange(s.len() - n, s.len() as int)
}

/// The enctypes a request stands for: its negotiation list, its subkey's and
/// its session key's.
pub open spec fn desired_spec(auth: AuthenticatorV, session: EncryptionKeyV) -> Seq<i32> {
    let listed = match auth.authorization_data {
        Some(es) => etype_list(es),
        None => Seq::empty(),
    };
    (match auth.subkey {
        Some(k) => listed.push(k.keytype),
        None => listed,
    }).push(session.keytype)
}

/// The part of reading an AP-REQ that follows the decryption of its ticket
/// and authenticator.
pub open spec fn accept_req_spec(
    c: AuthContextV,
    req: ApReqV,
    tkt: EncTicketPartV,
    auth: AuthenticatorV,
    now: Moment,
) -> (AuthContextV, Result<RdReqResultV, Krb5ErrorV>) {
    let session = tkt.key;
    let timed = any_flag(c.flags, AuthContextFlags::DO_TIME);
    let tag = tail_of(req.authenticator.cipher, mac_len(session.keytype));
    let c1 = if timed { AuthContextV { rcache: c.rcache.push(tag), ..c } } else { c };
    let times = validate_times_spec(c.clockskew, c.clock(now), tkt.authtime, tkt.starttime, tkt.endtime);
    let skew = clockskew_spec(c.clockskew, c.clock(now), auth.ctime);
    let listed = match auth.authorization_data {
        Some(es) => etype_list(es),
        None => Seq::empty(),
    };
    let permitted = if any_flag(c.flags, AuthContextFlags::PERMIT_ALL) {
        None
    } else {
        Some(permitted_spec(c))
    };
    let nego = negotiate_spec(desired_spec(auth, session), listed.len() as int, permitted);
    if auth.cname.name_string != tkt.cname.name_string || auth.crealm != tkt.crealm {
        (c, Err(Krb5ErrorV::Ap(ApError::BadMatch)))
    } else if c.remote() is Some && !addr_listed(c.remote()->0, tkt.caddr) {
        (c, Err(Krb5ErrorV::Ap(ApError::BadAddr)))
    } else if !has_flags(tkt.flags, TicketFlags::TRANSITED_POLICY_CHECKED) && tkt.transited.contents.len()
        > 0 {
        (c, Err(Krb5ErrorV::Ap(ApError::IllCrTkt)))
    } else if timed && c.rcache.contains(tag) {
        (c, Err(Krb5ErrorV::Ap(ApError::Repeat)))
    } else if times is Err {
        (c1, Err(Krb5ErrorV::Ap(times->Err_0)))
    } else if skew is Err {
        (c1, Err(Krb5ErrorV::Ap(ApError::Skew)))
    } else if has_flags(tkt.flags, TicketFlags::INVALID) {
        (c1, Err(Krb5ErrorV::Ap(ApError::TktInvalid)))
    } else if nego is Err {
        (c1, Err(Krb5ErrorV::Ap(ApError::NoPermEtype)))
    } else {
        let remote_seq = match auth.seq_number {
            Some(n) => n,
            None => 0,
        };
        (
            AuthContextV {
                negotiated_etype: nego->Ok_0,
                remote_seq,
                recv_subkey: auth.subkey,
                send_subkey: auth.subkey,
                key: Some(session),
                local_seq: if !has_flags(req.ap_options, ApOptions::MUTUAL_REQUIRED) && remote_seq != 0 {
                    c.local_seq ^ remote_seq
                } else {
                    c.local_seq
                },
                authentp: Some(auth),
                ..c1
            },
            Ok(RdReqResultV { ticket: tkt, ap_options: req.ap_options & AP_OPTS_WIRE, authenticator: auth }),
        )
    }
}

/// The message an AP-REQ's octets stand for.
pub open spec fn read_ap_req_spec(bytes: Seq<u8>) -> Result<ApReqV, Krb5ErrorV> {
    if bytes.len() == 0 || bytes[0] != 0x6E {
        Err(Krb5ErrorV::Ap(ApError::MsgType))
    } else {
        match <ApReq as Asn1>::parse(bytes) {
            None => Err(Krb5ErrorV::Asn1Decode),
            Some(req) => if req.msg_type != 14 {
                Err(Krb5ErrorV::Ap(ApError::MsgType))
            } else if req.pvno != 5 {
                Err(Krb5ErrorV::Ap(ApError::BadVersion))
            } else {
                Ok(req)
            },
        }
    }
}

/// The part of reading an AP-REQ that follows the choice of the ticket key.
pub open spec fn rd_req_key_spec(c: AuthContextV, req: ApReqV, key: EncryptionKeyV, now: Moment) -> (
    AuthContextV,
    Result<RdReqResultV, Krb5ErrorV>,
) {
    match decrypt_ticket_spec(key, req.ticket) {
        Err(e) => (c, Err(e)),
        Ok(tkt) => match open_auth_spec(tkt.key, req.authenticator.cipher) {
            Err(e) => (c, Err(e)),
            Ok(auth) => accept_req_spec(c, req, tkt, auth, now),
        },
    }
}

/// What reading an AP-REQ does to the context and returns. A preset ticket
/// key is used up; without one the key comes from `keys`.
pub open spec fn rd_req_spec<K: KeySource>(
    c: AuthContextV,
    bytes: Seq<u8>,
    server: Option<PrincipalNameV>,
    keys: K,
    now: Moment,
) -> (AuthContextV, Result<RdReqResultV, Krb5ErrorV>) {
    match read_ap_req_spec(bytes) {
        Err(e) => (c, Err(e)),
        Ok(req) => match c.tkt_key {
            Some(key) => rd_req_key_spec(AuthContextV { tkt_key: None, ..c }, req, key, now),
            None => {
                let sname = match server {
                    Some(s) => s,
                    None => req.ticket.sname,
                };
                match keys.lookup(sname, req.ticket.realm, req.ticket.enc_part.kvno, req.ticket.enc_part.etype) {
                    Err(e) => (c, Err(Krb5ErrorV::Ap(e))),
                    Ok(key) => rd_req_key_spec(c, req, key, now),
                }
            },
        },
    }
}

/// What making an AP-REP does to the context and returns.
pub open spec fn mk_rep_spec(c: AuthContextV, env: EntropyV) -> (AuthContextV, Result<Seq<u8>, Krb5ErrorV>) {
    if c.authentp is None {
        (c, Err(Krb5ErrorV::ReplyValidation("no authenticator"@)))
    } else if c.key is None {
        (c, Err(Krb5ErrorV::ReplyValidation("no key"@)))
    } else {
        let auth = c.authentp->0;
        let key = c.key->0;
        let c1 = if c.seq_on() && c.local_seq == 0 {
            AuthContextV { local_seq: fresh_seq_spec(env), ..c }
        } else {
            c
        };
        let own = any_flag(c.flags, AuthContextFlags::USE_SUBKEY);
        let sub = fresh_key_spec(env, c.negotiated_etype);
        let c2 = if own {
            AuthContextV { send_subkey: Some(sub), recv_subkey: Some(sub), ..c1 }
        } else {
            c1
        };
        if own && c.negotiated_etype == 0 {
            (c1, Err(Krb5ErrorV::ReplyValidation("no negotiated etype"@)))
        } else if own && !known(c.negotiated_etype) {
            (c1, Err(crypto_err(CryptoError::UnsupportedEtype)))
        } else {
            let enc = EncApRepPartV {
                ctime: auth.ctime,
                cusec: auth.cusec,
                subkey: if own { Some(sub) } else { auth.subkey },
                seq_number: if c1.local_seq != 0 { Some(c1.local_seq) } else { None },
            };
            match seal_spec(key, key_usage::AP_REP_ENCPART, env.confounder, <EncApRepPart as Asn1>::der(enc)) {
                Err(e) => (c2, Err(e)),
                Ok(sealed) => (
                    c2,
                    Ok(<ApRep as Asn1>::der(ApRepV { pvno: 5, msg_type: 15, enc_part: sealed })),
                ),
            }
        }
    }
}

/// What reading an AP-REP does to the context and returns.
pub open spec fn rd_rep_spec(c: AuthContextV, bytes: Seq<u8>) -> (AuthContextV, Result<EncApRepPartV, Krb5ErrorV>) {
    if bytes.len() == 0 || bytes[0] != 0x6F {
        (c, Err(Krb5ErrorV::Ap(ApError::MsgType)))
    } else {
        match <ApRep as Asn1>::parse(bytes) {
            None => (c, Err(Krb5ErrorV::Ap(ApError::MsgType))),
            Some(rep) => if c.key is None {
                (c, Err(Krb5ErrorV::ReplyValidation("no key"@)))
            } else if !known(rep.enc_part.etype) {
                (c, Err(crypto_err(CryptoError::UnsupportedEtype)))
            } else {
                match open_spec(rep.enc_part.etype, c.key->0.keyvalue, key_usage::AP_REP_ENCPART, rep.enc_part.cipher) {
                    None => (c, Err(Krb5ErrorV::Ap(ApError::BadIntegrity))),
                    Some(p) => match <EncApRepPart as Asn1>::parse(p) {
                        None => (c, Err(Krb5ErrorV::Ap(ApError::BadIntegrity))),
                        Some(enc) => accept_rep_spec(c, enc),
                    },
                }
            },
        }
    }
}

/// The part of reading an AP-REP that follows its decryption: the echoed time
/// must be the authenticator's.
pub open spec fn accept_rep_spec(c: AuthContextV, enc: EncApRepPartV) -> (AuthContextV, Result<EncApRepPartV, Krb5ErrorV>) {
    match c.authentp {
        None => (c, Err(Krb5ErrorV::ReplyValidation("no authenticator"@))),
        Some(auth) => if enc.ctime != auth.ctime || enc.cusec != auth.cusec {
            (c, Err(Krb5ErrorV::Ap(ApError::MutualFailed)))
        } else {
            let c1 = match enc.subkey {
                Some(sub) => AuthContextV {
                    recv_subkey: Some(sub),
                    send_subkey: Some(sub),
                    negotiated_etype: sub.keytype,
                    ..c
                },
                None => c,
            };
            (
                AuthContextV {
                    remote_seq: match enc.seq_number {
                        Some(n) => n,
                        None => 0,
                    },
                    ..c1
                },
                Ok(enc),
            )
        },
    }
}

/// Whether the initiator `i` accepts the reply and then agrees with the
/// acceptor `c` on the counter and, where the acceptor made one, the subkey.
pub open spec fn rep_agrees(i: AuthContextV, bytes: Seq<u8>, c: AuthContextV) -> bool {
    let (after, r) = rd_rep_spec(i, bytes);
    &&& r is Ok
    &&& after.remote_seq == c.local_seq
    &&& any_flag(c.flags, AuthContextFlags::USE_SUBKEY) ==> r->Ok_0.subkey == c.send_subkey && after.recv_subkey
        == c.send_subkey && after.send_subkey == c.recv_subkey
}

/// The last `n` octets of `s`.
pub(crate) fn take_tail(s: &[u8], n: usize) -> (r: Vec<u8>)
    requires
        n <= s@.len(),
    ensures
        r@ == tail_of(s@, n as nat),
{
    cut(s, s.len() - n, s.len())
}

/// Decodes an AP-REQ and checks its type and version.
pub fn read_ap_req(bytes: &[u8]) -> (r: Result<ApReq, Krb5Error>)
    ensures
        outcome(r) == read_ap_req_spec(bytes@),
{
    if bytes.len() == 0 || bytes[0] != 0x6E {
        return Err(Krb5Error::Ap(ApError::MsgType));
    }
    let req = match <ApReq as Asn1>::decode(bytes) {
        Some(q) => q,
        None => return Err(Krb5Error::Asn1Decode),
    };
    if req.msg_type != 14 {
        return Err(Krb5Error::Ap(ApError::MsgType));
    }
    if req.pvno != 5 {
        return Err(Krb5Error::Ap(ApError::BadVersion));
    }
    Ok(req)
}

fn open_auth(session: &EncryptionKey, cipher: &[u8]) -> (r: Result<Authenticator, Krb5Error>)
    ensures
        outcome(r) == open_auth_spec(session@, cipher@),
        r is Ok ==> known(session@.keytype) && cipher@.len() >= mac_len(session@.keytype),
{
    match find_etype(session.keytype) {
        Ok(_) => {},
        Err(x) => return Err(Krb5Error::from_crypto(x)),
    }
    match open_sealed(session.keytype, session.key_bytes(), key_usage::AP_REQ_AUTH, cipher) {
        None => Err(Krb5Error::Ap(ApError::BadIntegrity)),
        Some(p) => match <Authenticator as Asn1>::decode(&p) {
            None => Err(Krb5Error::Ap(ApError::BadIntegrity)),
            Some(a) => Ok(a),
        },
    }
}

pub(crate) fn mac_size(e: i32) -> (r: usize)
    requires
        known(e),
    ensures
        r == mac_len(e),
{
    if e == 17 || e == 18 { 12 } else if e == 19 { 16 } else { 24 }
}

impl AuthContext {
    fn auth_cksum(&self, session: &EncryptionKey, in_data: Option<&[u8]>) -> (r: Result<Option<Checksum>, CryptoError>)
        requires
            known(session@.keytype),
        ensures
            match r {
                Ok(o) => auth_cksum_spec(self@, session@, opt_seq(in_data)) == Ok::<Option<ChecksumV>, CryptoError>(opt_view(o)),
                Err(e) => auth_cksum_spec(self@, session@, opt_seq(in_data)) == Err::<Option<ChecksumV>, CryptoError>(e),
            },
    {
        match in_data {
            None => Ok(None),
            Some(data) => if self.req_cksumtype == 0x8003 {
                Ok(Some(Checksum { cksumtype: 0x8003, checksum: copy(data) }))
            } else {
                match checksum_with(session.keytype, session.key_bytes(), key_usage::AP_REQ_AUTH_CKSUM, data) {
                    Ok(checksum) => {
                        let t: i32 = if session.keytype == 17 { 15 } else if session.keytype == 18 { 16 } else { session.keytype };
                        Ok(Some(Checksum { cksumtype: t, checksum }))
                    },
                    Err(x) => Err(x),
                }
            },
        }
    }

    fn permitted(&self) -> (r: Vec<i32>)
        ensures
            r@ == permitted_spec(self@),
    {
        match &self.permitted_etypes {
            Some(p) => {
                let r = dup_list(p);
                assert(list_view::<i32>(r@) =~= r@);
                assert(list_view::<i32>(p@) =~= p@);
                r
            },
            None => default_etype_list(),
        }
    }

    fn auth_data(&self, opts: &ApReqOptions, cred: &Credential) -> (r: Option<Vec<AuthorizationDataElement>>)
        ensures
            opt_list_view(r) == auth_data_spec(self@, *opts, cred@),
    {
        let desired = if opts.etype_negotiation { Some(self.permitted()) } else { None };
        let mut all: Vec<AuthorizationDataElement> = Vec::new();
        match make_ap_authdata(&desired, cred.session_key.keytype, opts.cbt) {
            Some(e) => {
                all.push(e);
            },
            None => {},
        }
        let ghost first = list_view(all@);
        match &cred.authdata {
            Some(ad) => {
                let mut more = dup_list(ad);
                let ghost moreview = list_view(more@);
                all.append(&mut more);
                assert(list_view(all@) =~= first + moreview);
            },
            None => {},
        }
        if all.len() == 0 {
            None
        } else {
            Some(all)
        }
    }

    /// Build an AP-REQ with the given clock reading and random octets.
    pub fn mk_req_with(&mut self, opts: &ApReqOptions, in_data: Option<&[u8]>, cred: &Credential, now: Moment, env: &Entropy) -> (r: Result<
        Vec<u8>,
        Krb5Error,
    >)
        ensures
            (final(self)@, outcome(r)) == mk_req_spec(old(self)@, *opts, opt_seq(in_data), cred@, now, env@),
            // The message reads back: it carries the ticket, and under the
            // session key the authenticator that the context keeps.
            r is Ok ==> (read_ap_req_spec(r->Ok_0@) matches Ok(req) && req.ticket == cred@.ticket
                && req.ap_options == ap_option_bits(*opts) && open_auth_spec(
                cred@.session_key,
                req.authenticator.cipher,
            ) == Ok::<AuthenticatorV, Krb5ErrorV>(final(self)@.authentp->0)),
    {
        if cred.ticket.enc_part.cipher.len() == 0 {
            return Err(Krb5Error::Ap(ApError::NoTktSupplied));
        }
        if opts.etype_negotiation && !opts.mutual_required {
            return Err(Krb5Error::ReplyValidation("etype negotiation requires mutual auth"));
        }
        match self.validate_times(now, cred.times.authtime, cred.times.starttime, cred.times.endtime) {
            Ok(()) => {},
            Err(e) => return Err(Krb5Error::Ap(e)),
        }
        self.key = Some(cred.session_key.dup());
        let etype: i32 = cred.session_key.keytype;
        match find_etype(etype) {
            Ok(_) => {},
            Err(x) => return Err(Krb5Error::from_crypto(x)),
        }
        if self.flags & SEQ_FLAGS != 0 && self.local_seq == 0 {
            self.local_seq = env.fresh_seq();
        }
        if opts.use_subkey && self.send_subkey.is_none() {
            self.send_subkey = Some(env.fresh_key(etype));
            self.recv_subkey = Some(env.fresh_key(etype));
        }
        assert(self@ == req_context(old(self)@, *opts, cred@, env@));
        let cksum = match self.auth_cksum(&cred.session_key, in_data) {
            Ok(c) => c,
            Err(x) => return Err(Krb5Error::from_crypto(x)),
        };
        let (ctime, cusec) = self.stamp(now);
        let authorization_data = self.auth_data(opts, cred);
        let crealm = match GeneralString::from_bytes(cred.crealm.as_str().as_bytes()) {
            Some(g) => g,
            None => return Err(Krb5Error::ReplyValidation("invalid crealm")),
        };
        let auth = Authenticator {
            authenticator_vno: 5,
            crealm,
            cname: cred.client.dup(),
            cksum,
            cusec,
            ctime,
            subkey: dup_opt(&self.send_subkey),
            seq_number: if self.local_seq != 0 { Some(self.local_seq) } else { None },
            authorization_data,
        };
        let auth_der = auth.encode();
        let sealed = match seal(&cred.session_key, key_usage::AP_REQ_AUTH, env, &auth_der) {
            Ok(d) => d,
            Err(e) => return Err(e),
        };
        let bits: u32 = if opts.mutual_required {
            if opts.use_session_key { AP_OPTS_WIRE } else { ApOptions::MUTUAL_REQUIRED }
        } else {
            if opts.use_session_key { ApOptions::USE_SESSION_KEY } else { 0 }
        };
        let req = ApReq {
            pvno: 5,
            msg_type: 14,
            ap_options: FlagBits { bits },
            ticket: cred.ticket.dup(),
            authenticator: sealed,
        };
        self.authentp = Some(auth);
        let out = req.encode();
        Ok(out)
    }

    /// Build an AP-REQ.
    pub fn mk_req(&mut self, opts: &ApReqOptions, in_data: Option<&[u8]>, cred: &Credential) -> (r: Result<
        Vec<u8>,
        Krb5Error,
    >)
        ensures
            exists|now: Moment, env: EntropyV|
                env.ok() && #[trigger] mk_req_spec(old(self)@, *opts, opt_seq(in_data), cred@, now, env) == (
                    final(self)@,
                    outcome(r),
                ),
    {
        let now = Moment::now();
        let env = Entropy::draw();
        self.mk_req_with(opts, in_data, cred, now, &env)
    }

    /// Accepts a request whose ticket and authenticator are decrypted.
    pub fn accept_req(&mut self, req: &ApReq, tkt: EncTicketPart, auth: Authenticator, now: Moment) -> (r: Result<
        RdReqResult,
        Krb5Error,
    >)
        requires
            known(tkt@.key.keytype),
            req@.authenticator.cipher.len() >= mac_len(tkt@.key.keytype),
        ensures
            (final(self)@, outcome(r)) == accept_req_spec(old(self)@, req@, tkt@, auth@, now),
    {
        if !auth.cname.same_components(&tkt.cname) || !auth.crealm.same(&tkt.crealm) {
            return Err(Krb5Error::Ap(ApError::BadMatch));
        }
        match self.effective_remote_addr() {
            Some(remote) => {
                if !address_search(&remote, &tkt.caddr) {
                    return Err(Krb5Error::Ap(ApError::BadAddr));
                }
            },
            None => {},
        }
        if !tkt.flags.contains(TicketFlags::TRANSITED_POLICY_CHECKED) && tkt.transited.contents.len() > 0 {
            return Err(Krb5Error::Ap(ApError::IllCrTkt));
        }
        if self.flags & AuthContextFlags::DO_TIME != 0 {
            let tag = take_tail(&req.authenticator.cipher, mac_size(tkt.key.keytype));
            match self.insert_tag(tag) {
                Ok(()) => {},
                Err(e) => return Err(Krb5Error::Ap(e)),
            }
        }
        match self.validate_times(now, tkt.authtime, tkt.starttime, tkt.endtime) {
            Ok(()) => {},
            Err(e) => return Err(Krb5Error::Ap(e)),
        }
        match self.check_clockskew(now, auth.ctime) {
            Ok(()) => {},
            Err(e) => return Err(Krb5Error::Ap(e)),
        }
        if tkt.flags.contains(TicketFlags::INVALID) {
            return Err(Krb5Error::Ap(ApError::TktInvalid));
        }
        let mut desired = decode_etype_list(&auth.authorization_data);
        let mandatory_index: usize = desired.len();
        match &auth.subkey {
            Some(sub) => {
                desired.push(sub.keytype);
            },
            None => {},
        }
        desired.push(tkt.key.keytype);
        assert(desired@ =~= desired_spec(auth@, tkt@.key));
        let permitted = if self.flags & AuthContextFlags::PERMIT_ALL != 0 {
            None
        } else {
            Some(self.permitted())
        };
        self.negotiated_etype = match negotiate_etype(&desired, mandatory_index, &permitted) {
            Ok(e) => e,
            Err(e) => return Err(Krb5Error::Ap(e)),
        };
        self.remote_seq = match auth.seq_number {
            Some(n) => n,
            None => 0,
        };
        self.recv_subkey = dup_opt(&auth.subkey);
        self.send_subkey = dup_opt(&auth.subkey);
        self.key = Some(tkt.key.dup());
        if !req.ap_options.contains(ApOptions::MUTUAL_REQUIRED) && self.remote_seq != 0 {
            self.local_seq = self.local_seq ^ self.remote_seq;
        }
        self.authentp = Some(auth.dup());
        Ok(RdReqResult {
            ticket: tkt,
            ap_options: FlagBits { bits: req.ap_options.bits & AP_OPTS_WIRE },
            authenticator: auth,
        })
    }

    /// Reads a decoded AP-REQ whose ticket is under `key`.
    pub fn rd_req_key(&mut self, req: &ApReq, key: &EncryptionKey, now: Moment) -> (r: Result<RdReqResult, Krb5Error>)
        ensures
            (final(self)@, outcome(r)) == rd_req_key_spec(old(self)@, req@, key@, now),
    {
        let tkt = match decrypt_ticket(key, &req.ticket) {
            Ok(t) => t,
            Err(e) => return Err(e),
        };
        let auth = match open_auth(&tkt.key, &req.authenticator.cipher) {
            Ok(a) => a,
            Err(e) => return Err(e),
        };
        self.accept_req(req, tkt, auth, now)
    }

    /// Read and verify an AP-REQ at the given clock reading.
    pub fn rd_req_at<K: KeySource>(&mut self, ap_req: &[u8], server: Option<&PrincipalName>, keys: &K, now: Moment) -> (r: Result<
        RdReqResult,
        Krb5Error,
    >)
        ensures
            (final(self)@, outcome(r)) == rd_req_spec(old(self)@, ap_req@, opt_view(server), *keys, now),
    {
        let req = match read_ap_req(ap_req) {
            Ok(q) => q,
            Err(e) => return Err(e),
        };
        match self.tkt_key.take() {
            Some(key) => self.rd_req_key(&req, &key, now),
            None => {
                let sname = match server {
                    Some(s) => s,
                    None => &req.ticket.sname,
                };
                match keys.get_key(sname, req.ticket.realm.as_bytes(), req.ticket.enc_part.kvno, req.ticket.enc_part.etype) {
                    Err(e) => Err(Krb5Error::Ap(e)),
                    Ok(key) => self.rd_req_key(&req, &key, now),
                }
            },
        }
    }

    /// Read and verify an AP-REQ.
    pub fn rd_req<K: KeySource>(&mut self, ap_req: &[u8], server: Option<&PrincipalName>, keys: &K) -> (r: Result<
        RdReqResult,
        Krb5Error,
    >)
        ensures
            exists|now: Moment|
                #[trigger] rd_req_spec(old(self)@, ap_req@, opt_view(server), *keys, now) == (
                    final(self)@,
                    outcome(r),
                ),
    {
        let now = Moment::now();
        self.rd_req_at(ap_req, server, keys, now)
    }

    /// Build an AP-REP with the given random octets.
    pub fn mk_rep_with(&mut self, env: &Entropy) -> (r: Result<Vec<u8>, Krb5Error>)
        ensures
            (final(self)@, outcome(r)) == mk_rep_spec(old(self)@, env@),
            // The other side, which sent the authenticator, accepts the
            // reply and ends up with the same keys and counter.
            r is Ok ==> forall|i: AuthContextV|
                i.key == old(self)@.key && i.authentp == old(self)@.authentp ==> #[trigger] rep_agrees(
                    i,
                    r->Ok_0@,
                    final(self)@,
                ),
    {
        let (ctime, cusec, auth_subkey) = match &self.authentp {
            Some(a) => (a.ctime, a.cusec, dup_opt(&a.subkey)),
            None => return Err(Krb5Error::ReplyValidation("no authenticator")),
        };
        let key = match &self.key {
            Some(k) => k.dup(),
            None => return Err(Krb5Error::ReplyValidation("no key")),
        };
        if self.flags & SEQ_FLAGS != 0 && self.local_seq == 0 {
            self.local_seq = env.fresh_seq();
        }
        let subkey = if self.flags & AuthContextFlags::USE_SUBKEY != 0 {
            if self.negotiated_etype == 0 {
                return Err(Krb5Error::ReplyValidation("no negotiated etype"));
            }
            match find_etype(self.negotiated_etype) {
                Ok(_) => {},
                Err(x) => return Err(Krb5Error::from_crypto(x)),
            }
            self.send_subkey = Some(env.fresh_key(self.negotiated_etype));
            self.recv_subkey = Some(env.fresh_key(self.negotiated_etype));
            Some(env.fresh_key(self.negotiated_etype))
        } else {
            auth_subkey
        };
        let enc = EncApRepPart {
            ctime,
            cusec,
            subkey,
            seq_number: if self.local_seq != 0 { Some(self.local_seq) } else { None },
        };
        let der = enc.encode();
        let sealed = match seal(&key, key_usage::AP_REP_ENCPART, env, &der) {
            Ok(d) => d,
            Err(e) => return Err(e),
        };
        let rep = ApRep { pvno: 5, msg_type: 15, enc_part: sealed };
        Ok(rep.encode())
    }

    /// Build an AP-REP.
    pub fn mk_rep(&mut self) -> (r: Result<Vec<u8>, Krb5Error>)
        ensures
            exists|env: EntropyV|
                env.ok() && #[trigger] mk_rep_spec(old(self)@, env) == (final(self)@, outcome(r)),
    {
        let env = Entropy::draw();
        self.mk_rep_with(&env)
    }

    /// Read and verify an AP-REP.
    pub fn rd_rep(&mut self, ap_rep: &[u8]) -> (r: Result<EncApRepPart, Krb5Error>)
        ensures
            (final(self)@, outcome(r)) == rd_rep_spec(old(self)@, ap_rep@),
    {
        if ap_rep.len() == 0 || ap_rep[0] != 0x6F {
            return Err(Krb5Error::Ap(ApError::MsgType));
        }
        let rep = match <ApRep as Asn1>::decode(ap_rep) {
            Some(p) => p,
            None => return Err(Krb5Error::Ap(ApError::MsgType)),
        };
        let plain = match &self.key {
            None => return Err(Krb5Error::ReplyValidation("no key")),
            Some(key) => {
                match find_etype(rep.enc_part.etype) {
                    Ok(_) => {},
                    Err(x) => return Err(Krb5Error::from_crypto(x)),
                }
                open_sealed(rep.enc_part.etype, key.key_bytes(), key_usage::AP_REP_ENCPART, &rep.enc_part.cipher)
            },
        };
        let plain = match plain {
            Some(p) => p,
            None => return Err(Krb5Error::Ap(ApError::BadIntegrity)),
        };
        let enc = match <EncApRepPart as Asn1>::decode(&plain) {
            Some(e) => e,
            None => return Err(Krb5Error::Ap(ApError::BadIntegrity)),
        };
        match &self.authentp {
            None => return Err(Krb5Error::ReplyValidation("no authenticator")),
            Some(auth) => {
                if !enc.ctime.same(&auth.ctime) || enc.cusec != auth.cusec {
                    return Err(Krb5Error::Ap(ApError::MutualFailed));
                }
            },
        }
        match &enc.subkey {
            Some(sub) => {
                self.recv_subkey = Some(sub.dup());
                self.send_subkey = Some(sub.dup());
                self.negotiated_etype = sub.keytype;
            },
            None => {},
        }
        self.remote_seq = match enc.seq_number {
            Some(n) => n,
            None => 0,
        };
        Ok(enc)
    }
}

} // verus!
