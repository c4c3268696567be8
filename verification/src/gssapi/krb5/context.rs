//! Established contexts: wrapped messages and MICs.
use vstd::prelude::*;

use crate::bytes::{append, be16, be64, concat, copy, cut, get_be16, get_be64, lemma_word_round_trip, put_be16, put_be64, read_be16, read_be64, same};
use crate::crypto::profile::{cksum_spec, dec_spec, enc_spec, encrypt_with, known, mac_len, verify_spec};
use crate::crypto::{find_etype, CryptoError, EtypeProfile};
use crate::der::opt_view;
use crate::error::{crypto_err, outcome, Krb5Error, Krb5ErrorV};
use crate::gssapi::krb5::{gss, gss_err, TOK_MIC, TOK_WRAP, USAGE_ACCEPTOR_SEAL, USAGE_ACCEPTOR_SIGN, USAGE_INITIATOR_SEAL, USAGE_INITIATOR_SIGN};
use crate::gssapi::seqstate::{fresh_seq_state, seq_check_spec, SeqState, SeqStateV, SeqStatus};
use crate::gssapi::GssError;
use crate::protocol::ap::{Entropy, EntropyV};
use crate::time::{Duration, KerberosTime, Moment, TimeV};
use crate::types::{EncryptionKey, EncryptionKeyV, PrincipalName, PrincipalNameV};

verus! {

/// All flags but PROT_READY.
pub const NOT_PROT_READY: u32 = 0xF97F;

/// Output of [`Krb5Context::unwrap`]. `seq` carries the supplementary
/// sequence status (the message is still valid even when it is
/// Gap/Unseq/Old/Duplicate — callers decide whether to drop it).
#[derive(Debug)]
pub struct Unwrapped {
    /// Plaintext message.
    pub data: Vec<u8>,
    /// Whether the token was confidentiality-protected.
    pub conf: bool,
    /// Sequence/replay status.
    pub seq: SeqStatus,
}

/// Model of [`Unwrapped`].
pub struct UnwrappedV {
    pub data: Seq<u8>,
    pub conf: bool,
    pub seq: SeqStatus,
}

impl View for Unwrapped {
    type V = UnwrappedV;

    open spec fn view(&self) -> UnwrappedV {
        UnwrappedV { data: self.data@, conf: self.conf, seq: self.seq }
    }
}

/// An established krb5 GSS context.
pub struct Krb5Context {
    pub flags: u32,
    pub initiate: bool,
    pub initiator: PrincipalName,
    pub crealm: String,
    pub acceptor: PrincipalName,
    pub endtime: KerberosTime,
    /// The initiator's subkey, or the session key if there is none.
    pub key: EncryptionKey,
    pub acceptor_subkey: Option<EncryptionKey>,
    pub seq_send: u64,
    pub seqstate: SeqState,
}

/// Model of [`Krb5Context`].
pub struct Krb5ContextV {
    pub flags: u32,
    pub initiate: bool,
    pub initiator: PrincipalNameV,
    pub crealm: Seq<char>,
    pub acceptor: PrincipalNameV,
    pub endtime: TimeV,
    pub key: EncryptionKeyV,
    pub acceptor_subkey: Option<EncryptionKeyV>,
    pub seq_send: u64,
    pub seqstate: SeqStateV,
}

impl View for Krb5Context {
    type V = Krb5ContextV;

    open spec fn view(&self) -> Krb5ContextV {
        Krb5ContextV {
            flags: self.flags,
            initiate: self.initiate,
            initiator: self.initiator@,
            crealm: self.crealm@,
            acceptor: self.acceptor@,
            endtime: self.endtime@,
            key: self.key@,
            acceptor_subkey: opt_view(self.acceptor_subkey),
            seq_send: self.seq_send,
            seqstate: self.seqstate@,
        }
    }
}

impl Krb5ContextV {
    /// The key of outgoing messages: the acceptor subkey when there is one.
    pub open spec fn msg_key(self) -> EncryptionKeyV {
        match self.acceptor_subkey {
            Some(k) => k,
            None => self.key,
        }
    }

    /// The key of an incoming message: the acceptor subkey when there is one
    /// and the message's flags call for it.
    pub open spec fn recv_key(self, flags: u8) -> EncryptionKeyV {
        if self.acceptor_subkey is Some && flag_bit(flags, 4) {
            self.acceptor_subkey->0
        } else {
            self.key
        }
    }

    /// The context after a message went out. The counter has 64 bits.
    pub open spec fn sent(self) -> Krb5ContextV {
        Krb5ContextV { seq_send: ((self.seq_send + 1) % 0x1_0000_0000_0000_0000) as u64, ..self }
    }

    /// The context after message number `seq` came in.
    pub open spec fn took(self, seq: u64) -> Krb5ContextV {
        Krb5ContextV { seqstate: seq_check_spec(self.seqstate, seq).0, ..self }
    }

    /// The flag octet of outgoing messages.
    pub open spec fn flag_octet(self, conf: bool) -> u8 {
        ((if self.initiate { 0int } else { 1 }) + (if conf { 2int } else { 0 }) + (if self.acceptor_subkey is Some {
            4int
        } else {
            0
        })) as u8
    }

    /// The usage of outgoing messages.
    pub open spec fn send_usage(self, seal: bool) -> i32 {
        match (seal, self.initiate) {
            (true, true) => USAGE_INITIATOR_SEAL,
            (true, false) => USAGE_ACCEPTOR_SEAL,
            (false, true) => USAGE_INITIATOR_SIGN,
            (false, false) => USAGE_ACCEPTOR_SIGN,
        }
    }

    /// The usage of incoming messages.
    pub open spec fn recv_usage(self, seal: bool) -> i32 {
        (Krb5ContextV { initiate: !self.initiate, ..self }).send_usage(seal)
    }
}

/// Whether the flag of weight `w` (1, 2 or 4) is set in a flag octet.
pub open spec fn flag_bit(flags: u8, w: int) -> bool {
    (flags as int / w) % 2 == 1
}

/// A token header: identifier, flags, filler, EC, RRC and sequence number.
pub open spec fn cfx_header(tok_id: u16, flags: u8, ec: u16, rrc: u16, seq: u64) -> Seq<u8> {
    be16(tok_id) + seq![flags, 0xffu8] + be16(ec) + be16(rrc) + be64(seq)
}

/// What wrapping a message does to the context and returns.
pub open spec fn wrap_spec(c: Krb5ContextV, conf: bool, msg: Seq<u8>, confounder: Seq<u8>) -> (
    Krb5ContextV,
    Result<Seq<u8>, Krb5ErrorV>,
) {
    let key = c.msg_key();
    let hdr = cfx_header(TOK_WRAP, c.flag_octet(conf), 0, 0, c.seq_send);
    if !known(key.keytype) {
        (c, Err(crypto_err(CryptoError::UnsupportedEtype)))
    } else if conf {
        match enc_spec(key.keytype, key.keyvalue, c.send_usage(true), confounder, msg + hdr) {
            Err(e) => (c, Err(crypto_err(e))),
            Ok(cipher) => (c.sent(), Ok(hdr + cipher)),
        }
    } else {
        match cksum_spec(key.keytype, key.keyvalue, c.send_usage(true), msg + hdr) {
            Err(e) => (c, Err(crypto_err(e))),
            Ok(sum) => (
                c.sent(),
                Ok(
                    cfx_header(TOK_WRAP, c.flag_octet(conf), mac_len(key.keytype) as u16, 0, c.seq_send) + msg
                        + sum,
                ),
            ),
        }
    }
}

/// Header checks shared by wrapped messages and MICs: length, direction,
/// identifier, filler.
pub open spec fn common_spec(c: Krb5ContextV, token: Seq<u8>, tok_id: u16) -> Option<GssError> {
    if token.len() < 16 {
        Some(GssError::DefectiveToken)
    } else if flag_bit(token[2], 1) != c.initiate {
        Some(GssError::BadSig)
    } else if get_be16(token, 0) != tok_id || token[3] != 0xff {
        Some(GssError::DefectiveToken)
    } else {
        None
    }
}

/// `s` rotated left by `n`, read cyclically.
pub open spec fn rotated(s: Seq<u8>, n: nat) -> Seq<u8> {
    if s.len() == 0 {
        s
    } else {
        let k = n % s.len();
        s.skip(k as int) + s.take(k as int)
    }
}

/// The message in an encrypted body, whose embedded header must agree with
/// the token's in all but the RRC.
pub open spec fn unwrap_sealed(token: Seq<u8>, plain: Seq<u8>) -> Result<Seq<u8>, GssError> {
    let ec = get_be16(token, 4) as int;
    let n = plain.len() as int;
    if n < 16 + ec {
        Err(GssError::DefectiveToken)
    } else if plain.subrange(n - 16, n - 10) != token.subrange(0, 6) || plain.subrange(n - 8, n)
        != token.subrange(8, 16) {
        Err(GssError::DefectiveToken)
    } else {
        Ok(plain.take(n - 16 - ec))
    }
}

/// The message in the body of a wrap token.
pub open spec fn unwrap_body(key: EncryptionKeyV, usage: i32, token: Seq<u8>, body: Seq<u8>) -> Result<Seq<u8>, GssError> {
    let e = key.keytype;
    let ec = get_be16(token, 4) as int;
    if flag_bit(token[2], 2) {
        match dec_spec(e, key.keyvalue, usage, body) {
            Err(_) => Err(GssError::BadSig),
            Ok(plain) => unwrap_sealed(token, plain),
        }
    } else if ec != mac_len(e) || body.len() < mac_len(e) {
        Err(GssError::DefectiveToken)
    } else {
        let n = body.len() - mac_len(e);
        let zeroed = token.subrange(0, 4) + seq![0u8, 0u8, 0u8, 0u8] + token.subrange(8, 16);
        match verify_spec(e, key.keyvalue, usage, body.take(n) + zeroed, body.skip(n)) {
            Err(_) => Err(GssError::BadSig),
            Ok(_) => Ok(body.take(n)),
        }
    }
}

/// What unwrapping a token does to the context and returns.
pub open spec fn unwrap_spec(c: Krb5ContextV, token: Seq<u8>) -> (Krb5ContextV, Result<UnwrappedV, Krb5ErrorV>) {
    match common_spec(c, token, TOK_WRAP) {
        Some(e) => (c, Err(gss_err(e))),
        None => {
            let key = c.recv_key(token[2]);
            let seq = get_be64(token, 8);
            if !known(key.keytype) {
                (c, Err(crypto_err(CryptoError::UnsupportedEtype)))
            } else {
                match unwrap_body(key, c.recv_usage(true), token, rotated(token.skip(16), get_be16(token, 6) as nat)) {
                    Err(e) => (c, Err(gss_err(e))),
                    Ok(data) => (
                        c.took(seq),
                        Ok(
                            UnwrappedV {
                                data,
                                conf: flag_bit(token[2], 2),
                                seq: seq_check_spec(c.seqstate, seq).1,
                            },
                        ),
                    ),
                }
            }
        },
    }
}

/// What making a MIC does to the context and returns.
pub open spec fn mic_spec(c: Krb5ContextV, msg: Seq<u8>) -> (Krb5ContextV, Result<Seq<u8>, Krb5ErrorV>) {
    let key = c.msg_key();
    let hdr = cfx_header(TOK_MIC, c.flag_octet(false), 0xffff, 0xffff, c.seq_send);
    if !known(key.keytype) {
        (c, Err(crypto_err(CryptoError::UnsupportedEtype)))
    } else {
        match cksum_spec(key.keytype, key.keyvalue, c.send_usage(false), msg + hdr) {
            Err(e) => (c, Err(crypto_err(e))),
            Ok(sum) => (c.sent(), Ok(hdr + sum)),
        }
    }
}

/// What verifying a MIC does to the context and returns.
pub open spec fn verify_mic_spec(c: Krb5ContextV, msg: Seq<u8>, mic: Seq<u8>) -> (
    Krb5ContextV,
    Result<SeqStatus, Krb5ErrorV>,
) {
    match common_spec(c, mic, TOK_MIC) {
        Some(e) => (c, Err(gss_err(e))),
        None => {
            let key = c.recv_key(mic[2]);
            let seq = get_be64(mic, 8);
            if !known(key.keytype) {
                (c, Err(crypto_err(CryptoError::UnsupportedEtype)))
            } else {
                match verify_spec(
                    key.keytype,
                    key.keyvalue,
                    c.recv_usage(false),
                    msg + mic.take(16),
                    mic.skip(16),
                ) {
                    Err(_) => (c, Err(gss_err(GssError::BadSig))),
                    Ok(_) => (c.took(seq), Ok(seq_check_spec(c.seqstate, seq).1)),
                }
            }
        },
    }
}

/// The two ends of one context: opposite roles, the same keys.
pub open spec fn ends(c: Krb5ContextV, p: Krb5ContextV) -> bool {
    &&& c.initiate != p.initiate
    &&& c.key == p.key
    &&& c.acceptor_subkey == p.acceptor_subkey
}

/// Whether `p` unwraps `token` to `msg`, as message number `seq`.
pub open spec fn unwraps_to(p: Krb5ContextV, token: Seq<u8>, seq: u64, conf: bool, msg: Seq<u8>) -> bool {
    unwrap_spec(p, token) == (
        p.took(seq),
        Ok::<UnwrappedV, Krb5ErrorV>(UnwrappedV { data: msg, conf, seq: seq_check_spec(p.seqstate, seq).1 }),
    )
}

/// Whether `p` verifies `mic` over `msg`, as message number `seq`.
pub open spec fn verifies(p: Krb5ContextV, mic: Seq<u8>, seq: u64, msg: Seq<u8>) -> bool {
    verify_mic_spec(p, msg, mic) == (p.took(seq), Ok::<SeqStatus, Krb5ErrorV>(seq_check_spec(p.seqstate, seq).1))
}

/// The length of a wrapped message of `n` octets.
pub open spec fn wrapped_len(e: i32, conf: bool, n: int) -> int {
    if conf { 16 + 16 + n + 16 + mac_len(e) } else { 16 + n + mac_len(e) }
}

/// Nanoseconds from `now` to the end of the credential's life.
pub open spec fn lifetime_spec(c: Krb5ContextV, now: Moment) -> int {
    if c.endtime.total() > now.total() {
        c.endtime.total() - now.total()
    } else {
        0
    }
}

/// Largest plaintext that fits `out` octets when wrapped.
pub open spec fn size_limit_spec(c: Krb5ContextV, conf: bool, out: nat) -> nat {
    let e = c.msg_key().keytype;
    if !known(e) || out < wrapped_len(e, conf, 0) {
        0
    } else {
        (out - wrapped_len(e, conf, 0)) as nat
    }
}

/// The size limit is exact: where it is above zero, a message of that length
/// wraps to just the given size, and a longer one does not fit.
pub proof fn law_size_limit(c: Krb5ContextV, conf: bool, out: nat, n: nat)
    requires
        size_limit_spec(c, conf, out) > 0,
    ensures
        n <= size_limit_spec(c, conf, out) <==> wrapped_len(c.msg_key().keytype, conf, n as int) <= out,
{
}

proof fn lemma_header(tok_id: u16, flags: u8, ec: u16, rrc: u16, seq: u64, rest: Seq<u8>)
    ensures
        ({
            let h = cfx_header(tok_id, flags, ec, rrc, seq);
            let t = h + rest;
            &&& h.len() == 16
            &&& t.take(16) == h
            &&& t.skip(16) == rest
            &&& get_be16(t, 0) == tok_id
            &&& t[2] == flags
            &&& t[3] == 0xff
            &&& get_be16(t, 4) == ec
            &&& get_be16(t, 6) == rrc
            &&& get_be64(t, 8) == seq
            &&& t.subrange(0, 6) == be16(tok_id) + seq![flags, 0xffu8] + be16(ec)
            &&& t.subrange(0, 4) == be16(tok_id) + seq![flags, 0xffu8]
            &&& t.subrange(8, 16) == be64(seq)
        }),
{
    let h = cfx_header(tok_id, flags, ec, rrc, seq);
    let t = h + rest;
    lemma_word_round_trip(tok_id, 0, seq);
    lemma_word_round_trip(ec, 0, seq);
    lemma_word_round_trip(rrc, 0, seq);
    assert(be16(tok_id).len() == 2 && be16(ec).len() == 2 && be16(rrc).len() == 2 && be64(seq).len() == 8);
    assert(t.take(16) =~= h);
    assert(t.skip(16) =~= rest);
    assert(t.subrange(0, 6) =~= be16(tok_id) + seq![flags, 0xffu8] + be16(ec));
    assert(t.subrange(0, 4) =~= be16(tok_id) + seq![flags, 0xffu8]);
    assert(t.subrange(8, 16) =~= be64(seq));
    assert(t[0] == be16(tok_id)[0] && t[1] == be16(tok_id)[1]);
    assert(t[4] == be16(ec)[0] && t[5] == be16(ec)[1]);
    assert(t[6] == be16(rrc)[0] && t[7] == be16(rrc)[1]);
    assert forall|i: int| 0 <= i < 8 implies t[8 + i] == #[trigger] be64(seq)[i] by {
        assert(t.subrange(8, 16)[i] == be64(seq)[i]);
    }
}

proof fn lemma_flags(c: Krb5ContextV, conf: bool)
    ensures
        flag_bit(c.flag_octet(conf), 1) == !c.initiate,
        flag_bit(c.flag_octet(conf), 2) == conf,
        flag_bit(c.flag_octet(conf), 4) == (c.acceptor_subkey is Some),
{
}

/// A sealed message unwraps at the other end.
proof fn lemma_unwrap_sealed(c: Krb5ContextV, p: Krb5ContextV, msg: Seq<u8>, cipher: Seq<u8>)
    requires
        ends(c, p),
        known(c.msg_key().keytype),
        dec_spec(
            c.msg_key().keytype,
            c.msg_key().keyvalue,
            c.send_usage(true),
            cipher,
        ) == Ok::<Seq<u8>, CryptoError>(
            msg + cfx_header(TOK_WRAP, c.flag_octet(true), 0, 0, c.seq_send),
        ),
    ensures
        unwraps_to(
            p,
            cfx_header(TOK_WRAP, c.flag_octet(true), 0, 0, c.seq_send) + cipher,
            c.seq_send,
            true,
            msg,
        ),
{
    let hdr = cfx_header(TOK_WRAP, c.flag_octet(true), 0, 0, c.seq_send);
    let token = hdr + cipher;
    lemma_header(TOK_WRAP, c.flag_octet(true), 0, 0, c.seq_send, cipher);
    lemma_flags(c, true);
    assert(p.recv_key(token[2]) == c.msg_key());
    assert(p.recv_usage(true) == c.send_usage(true));
    let body = rotated(token.skip(16), 0);
    assert(body =~= cipher);
    let plain = msg + hdr;
    let n = plain.len() as int;
    assert(plain.subrange(n - 16, n - 10) =~= token.subrange(0, 6));
    assert(plain.subrange(n - 8, n) =~= token.subrange(8, 16));
    assert(plain.take(n - 16) =~= msg);
}

/// A signed message unwraps at the other end.
proof fn lemma_unwrap_signed(c: Krb5ContextV, p: Krb5ContextV, msg: Seq<u8>, sum: Seq<u8>)
    requires
        ends(c, p),
        known(c.msg_key().keytype),
        cksum_spec(
            c.msg_key().keytype,
            c.msg_key().keyvalue,
            c.send_usage(true),
            msg + cfx_header(TOK_WRAP, c.flag_octet(false), 0, 0, c.seq_send),
        ) == Ok::<Seq<u8>, CryptoError>(sum),
    ensures
        unwraps_to(
            p,
            cfx_header(TOK_WRAP, c.flag_octet(false), mac_len(c.msg_key().keytype) as u16, 0, c.seq_send) + msg
                + sum,
            c.seq_send,
            false,
            msg,
        ),
{
    let e = c.msg_key().keytype;
    let ec = mac_len(e) as u16;
    let hdr = cfx_header(TOK_WRAP, c.flag_octet(false), ec, 0, c.seq_send);
    let zero = cfx_header(TOK_WRAP, c.flag_octet(false), 0, 0, c.seq_send);
    let token = hdr + msg + sum;
    assert(token =~= hdr + (msg + sum));
    lemma_header(TOK_WRAP, c.flag_octet(false), ec, 0, c.seq_send, msg + sum);
    lemma_flags(c, false);
    assert(p.recv_key(token[2]) == c.msg_key());
    assert(p.recv_usage(true) == c.send_usage(true));
    let body = rotated(token.skip(16), 0);
    assert(body =~= msg + sum);
    assert(sum.len() == mac_len(e));
    let n = body.len() - mac_len(e);
    assert(body.take(n) =~= msg);
    assert(body.skip(n) =~= sum);
    let zeroed = token.subrange(0, 4) + seq![0u8, 0u8, 0u8, 0u8] + token.subrange(8, 16);
    assert(zeroed =~= zero);
}

/// A MIC verifies at the other end.
proof fn lemma_verify_mic(c: Krb5ContextV, p: Krb5ContextV, msg: Seq<u8>, sum: Seq<u8>)
    requires
        ends(c, p),
        known(c.msg_key().keytype),
        cksum_spec(
            c.msg_key().keytype,
            c.msg_key().keyvalue,
            c.send_usage(false),
            msg + cfx_header(TOK_MIC, c.flag_octet(false), 0xffff, 0xffff, c.seq_send),
        ) == Ok::<Seq<u8>, CryptoError>(sum),
    ensures
        verifies(
            p,
            cfx_header(TOK_MIC, c.flag_octet(false), 0xffff, 0xffff, c.seq_send) + sum,
            c.seq_send,
            msg,
        ),
{
    let hdr = cfx_header(TOK_MIC, c.flag_octet(false), 0xffff, 0xffff, c.seq_send);
    lemma_header(TOK_MIC, c.flag_octet(false), 0xffff, 0xffff, c.seq_send, sum);
    lemma_flags(c, false);
    assert(p.recv_key((hdr + sum)[2]) == c.msg_key());
    assert(p.recv_usage(false) == c.send_usage(false));
}

fn make_header(tok_id: u16, flags: u8, ec: u16, rrc: u16, seq: u64) -> (r: Vec<u8>)
    ensures
        r@ == cfx_header(tok_id, flags, ec, rrc, seq),
{
    let mut hdr: Vec<u8> = Vec::new();
    put_be16(&mut hdr, tok_id);
    hdr.push(flags);
    hdr.push(0xff);
    put_be16(&mut hdr, ec);
    put_be16(&mut hdr, rrc);
    put_be64(&mut hdr, seq);
    assert(hdr@ =~= cfx_header(tok_id, flags, ec, rrc, seq));
    hdr
}

fn has_bit(flags: u8, w: u8) -> (r: bool)
    requires
        w == 1 || w == 2 || w == 4,
    ensures
        r == flag_bit(flags, w as int),
{
    (flags / w) % 2 == 1
}

fn rotate(s: &[u8], n: usize) -> (r: Vec<u8>)
    ensures
        r@ == rotated(s@, n as nat),
{
    if s.len() == 0 {
        return copy(s);
    }
    let k: usize = n % s.len();
    let a = cut(s, k, s.len());
    let b = cut(s, 0, k);
    let r = concat(&a, &b);
    assert(r@ =~= rotated(s@, n as nat));
    r
}

/// A context as establishment starts it: no acceptor subkey, no sequence
/// checks.
pub open spec fn partial_spec(
    flags: u32,
    initiate: bool,
    initiator: PrincipalNameV,
    crealm: Seq<char>,
    acceptor: PrincipalNameV,
    endtime: TimeV,
    key: EncryptionKeyV,
    seq_send: u64,
) -> Krb5ContextV {
    Krb5ContextV {
        flags,
        initiate,
        initiator,
        crealm,
        acceptor,
        endtime,
        key,
        acceptor_subkey: None,
        seq_send,
        seqstate: fresh_seq_state(0, false, false, true),
    }
}

impl Krb5Context {
    pub(crate) fn partial(
        flags: u32,
        initiate: bool,
        initiator: PrincipalName,
        crealm: String,
        acceptor: PrincipalName,
        endtime: KerberosTime,
        key: EncryptionKey,
        seq_send: u64,
    ) -> (r: Self)
        ensures
            r@ == partial_spec(flags, initiate, initiator@, crealm@, acceptor@, endtime@, key@, seq_send),
    {
        Krb5Context {
            flags,
            initiate,
            initiator,
            crealm,
            acceptor,
            endtime,
            key,
            acceptor_subkey: None,
            seq_send,
            seqstate: SeqState::new(0, false, false, true),
        }
    }

    fn flag_octet(&self, conf: bool) -> (r: u8)
        ensures
            r == self@.flag_octet(conf),
    {
        let a: u8 = if self.initiate { 0 } else { 1 };
        let b: u8 = if conf { 2 } else { 0 };
        let c: u8 = if self.acceptor_subkey.is_some() { 4 } else { 0 };
        a + b + c
    }

    fn send_usage(&self, seal: bool) -> (r: i32)
        ensures
            r == self@.send_usage(seal),
    {
        if seal {
            if self.initiate { USAGE_INITIATOR_SEAL } else { USAGE_ACCEPTOR_SEAL }
        } else {
            if self.initiate { USAGE_INITIATOR_SIGN } else { USAGE_ACCEPTOR_SIGN }
        }
    }

    fn recv_usage(&self, seal: bool) -> (r: i32)
        ensures
            r == self@.recv_usage(seal),
    {
        if seal {
            if self.initiate { USAGE_ACCEPTOR_SEAL } else { USAGE_INITIATOR_SEAL }
        } else {
            if self.initiate { USAGE_ACCEPTOR_SIGN } else { USAGE_INITIATOR_SIGN }
        }
    }

    fn msg_key(&self) -> (r: &EncryptionKey)
        ensures
            r@ == self@.msg_key(),
    {
        match &self.acceptor_subkey {
            Some(k) => k,
            None => &self.key,
        }
    }

    fn recv_key(&self, flags: u8) -> (r: &EncryptionKey)
        ensures
            r@ == self@.recv_key(flags),
    {
        match &self.acceptor_subkey {
            Some(k) => if has_bit(flags, 4) { k } else { &self.key },
            None => &self.key,
        }
    }

    fn check_common(&self, token: &[u8], tok_id: u16) -> (r: Option<GssError>)
        ensures
            r == common_spec(self@, token@, tok_id),
    {
        if token.len() < 16 {
            return Some(GssError::DefectiveToken);
        }
        if has_bit(token[2], 1) != self.initiate {
            return Some(GssError::BadSig);
        }
        if read_be16(token, 0) != tok_id || token[3] != 0xff {
            return Some(GssError::DefectiveToken);
        }
        None
    }

    /// Established context flags (incl. TRANS and PROT_READY).
    pub fn flags(&self) -> (r: u32)
        ensures
            r == self@.flags,
    {
        self.flags
    }

    pub(crate) fn clear_prot_ready(&mut self)
        ensures
            final(self)@ == (Krb5ContextV { flags: old(self)@.flags & NOT_PROT_READY, ..old(self)@ }),
    {
        self.flags = self.flags & NOT_PROT_READY;
    }

    /// Initiator principal.
    pub fn initiator(&self) -> (r: &PrincipalName)
        ensures
            r@ == self@.initiator,
    {
        &self.initiator
    }

    /// Initiator realm.
    pub fn initiator_realm(&self) -> (r: &str)
        ensures
            r@ == self@.crealm,
    {
        self.crealm.as_str()
    }

    /// Acceptor (service) principal.
    pub fn acceptor(&self) -> (r: &PrincipalName)
        ensures
            r@ == self@.acceptor,
    {
        &self.acceptor
    }

    /// True on the initiator side.
    pub fn is_initiator(&self) -> (r: bool)
        ensures
            r == self@.initiate,
    {
        self.initiate
    }

    /// Credential lifetime that remains at `now` (saturates at zero).
    pub fn lifetime_at(&self, now: Moment) -> (r: Duration)
        ensures
            r.total() == lifetime_spec(self@, now),
            r.nanos < 1_000_000_000,
    {
        let left: i128 = self.endtime.total_nanos() - now.total_nanos();
        if left <= 0 {
            return Duration { secs: 0, nanos: 0 };
        }
        Duration { secs: (left / 1_000_000_000) as u64, nanos: (left % 1_000_000_000) as u32 }
    }

    /// Remaining credential lifetime (saturates at zero).
    pub fn lifetime(&self) -> (r: Duration)
        ensures
            exists|now: Moment| #[trigger] lifetime_spec(self@, now) == r.total(),
    {
        let now = Moment::now();
        self.lifetime_at(now)
    }

    fn wrap_sealed(&self, msg: &[u8], env: &Entropy) -> (r: Result<Vec<u8>, Krb5Error>)
        ensures
            outcome(r) == wrap_spec(self@, true, msg@, env@.confounder).1,
            r is Ok ==> wrap_spec(self@, true, msg@, env@.confounder).0 == self@.sent(),
            r is Err ==> wrap_spec(self@, true, msg@, env@.confounder).0 == self@,
            r is Ok ==> r->Ok_0@.len() == wrapped_len(self@.msg_key().keytype, true, msg@.len() as int),
            r is Ok ==> forall|p: Krb5ContextV|
                ends(self@, p) ==> #[trigger] unwraps_to(p, r->Ok_0@, self@.seq_send, true, msg@),
    {
        let ghost c = self@;
        let hdr = make_header(TOK_WRAP, self.flag_octet(true), 0, 0, self.seq_send);
        let plain = concat(msg, &hdr);
        let key = self.msg_key();
        match find_etype(key.keytype) {
            Ok(_) => {},
            Err(x) => return Err(Krb5Error::from_crypto(x)),
        }
        let cipher = match encrypt_with(key.keytype, key.key_bytes(), self.send_usage(true), env.confounder(), &plain) {
            Ok(x) => x,
            Err(x) => return Err(Krb5Error::from_crypto(x)),
        };
        let token = concat(&hdr, &cipher);
        proof {
            lemma_header(TOK_WRAP, c.flag_octet(true), 0, 0, c.seq_send, Seq::empty());
            assert forall|p: Krb5ContextV| ends(c, p) implies #[trigger] unwraps_to(p, token@, c.seq_send, true, msg@) by {
                lemma_unwrap_sealed(c, p, msg@, cipher@);
            }
        }
        Ok(token)
    }

    fn wrap_signed(&self, msg: &[u8], Ghost(confounder): Ghost<Seq<u8>>) -> (r: Result<Vec<u8>, Krb5Error>)
        ensures
            outcome(r) == wrap_spec(self@, false, msg@, confounder).1,
            r is Ok ==> wrap_spec(self@, false, msg@, confounder).0 == self@.sent(),
            r is Err ==> wrap_spec(self@, false, msg@, confounder).0 == self@,
            r is Ok ==> r->Ok_0@.len() == wrapped_len(self@.msg_key().keytype, false, msg@.len() as int),
            r is Ok ==> forall|p: Krb5ContextV|
                ends(self@, p) ==> #[trigger] unwraps_to(p, r->Ok_0@, self@.seq_send, false, msg@),
    {
        let ghost c = self@;
        let flags: u8 = self.flag_octet(false);
        let hdr = make_header(TOK_WRAP, flags, 0, 0, self.seq_send);
        let plain = concat(msg, &hdr);
        let key = self.msg_key();
        let profile = match find_etype(key.keytype) {
            Ok(p) => p,
            Err(x) => return Err(Krb5Error::from_crypto(x)),
        };
        let sum = match profile.checksum(key.key_bytes(), self.send_usage(true), &plain) {
            Ok(x) => x,
            Err(x) => return Err(Krb5Error::from_crypto(x)),
        };
        let mut token = make_header(TOK_WRAP, flags, sum.len() as u16, 0, self.seq_send);
        append(&mut token, msg);
        append(&mut token, &sum);
        proof {
            lemma_header(TOK_WRAP, flags, sum@.len() as u16, 0, c.seq_send, Seq::empty());
            assert forall|p: Krb5ContextV| ends(c, p) implies #[trigger] unwraps_to(p, token@, c.seq_send, false, msg@) by {
                lemma_unwrap_signed(c, p, msg@, sum@);
            }
        }
        Ok(token)
    }

    /// Wrap a message with the given random octets. The other end unwraps it
    /// to the same message.
    pub fn wrap_with(&mut self, conf: bool, msg: &[u8], env: &Entropy) -> (r: Result<Vec<u8>, Krb5Error>)
        ensures
            (final(self)@, outcome(r)) == wrap_spec(old(self)@, conf, msg@, env@.confounder),
            r is Ok ==> r->Ok_0@.len() == wrapped_len(old(self)@.msg_key().keytype, conf, msg@.len() as int),
            r is Ok ==> forall|p: Krb5ContextV|
                ends(old(self)@, p) ==> #[trigger] unwraps_to(p, r->Ok_0@, old(self)@.seq_send, conf, msg@),
    {
        let r = if conf {
            self.wrap_sealed(msg, env)
        } else {
            self.wrap_signed(msg, Ghost(env@.confounder))
        };
        if r.is_ok() {
            self.seq_send = self.seq_send.wrapping_add(1);
        }
        r
    }

    /// Wrap a message.
    pub fn wrap(&mut self, conf: bool, msg: &[u8]) -> (r: Result<Vec<u8>, Krb5Error>)
        ensures
            exists|env: EntropyV|
                env.ok() && (final(self)@, outcome(r)) == #[trigger] wrap_spec(
                    old(self)@,
                    conf,
                    msg@,
                    env.confounder,
                ),
            r is Ok ==> forall|p: Krb5ContextV|
                ends(old(self)@, p) ==> #[trigger] unwraps_to(p, r->Ok_0@, old(self)@.seq_send, conf, msg@),
    {
        let env = Entropy::draw();
        self.wrap_with(conf, msg, &env)
    }

    fn open_body(&self, token: &[u8]) -> (r: Result<Vec<u8>, GssError>)
        requires
            token@.len() >= 16,
            known(self@.recv_key(token@[2]).keytype),
        ensures
            (match r {
                Ok(v) => Ok::<Seq<u8>, GssError>(v@),
                Err(e) => Err::<Seq<u8>, GssError>(e),
            }) == unwrap_body(
                self@.recv_key(token@[2]),
                self@.recv_usage(true),
                token@,
                rotated(token@.skip(16), get_be16(token@, 6) as nat),
            ),
    {
        let key = self.recv_key(token[2]);
        let usage: i32 = self.recv_usage(true);
        let ec: usize = read_be16(token, 4) as usize;
        let rrc: usize = read_be16(token, 6) as usize;
        let raw = cut(token, 16, token.len());
        assert(raw@ =~= token@.skip(16));
        let body = rotate(&raw, rrc);
        let profile = match find_etype(key.keytype) {
            Ok(p) => p,
            Err(_) => return Err(GssError::Failure),
        };
        if has_bit(token[2], 2) {
            let plain = match profile.decrypt(key.key_bytes(), usage, &body) {
                Ok(p) => p,
                Err(_) => return Err(GssError::BadSig),
            };
            let n: usize = plain.len();
            if n < 16 || n - 16 < ec {
                return Err(GssError::DefectiveToken);
            }
            let a = cut(&plain, n - 16, n - 10);
            let b = cut(&plain, n - 8, n);
            let x = cut(token, 0, 6);
            let y = cut(token, 8, 16);
            if !same(&a, &x) || !same(&b, &y) {
                return Err(GssError::DefectiveToken);
            }
            let data = cut(&plain, 0, n - 16 - ec);
            assert(data@ =~= plain@.take(n - 16 - ec));
            Ok(data)
        } else {
            let size: usize = profile.checksum_size();
            if ec != size || body.len() < size {
                return Err(GssError::DefectiveToken);
            }
            let n: usize = body.len() - size;
            let msg = cut(&body, 0, n);
            let sum = cut(&body, n, body.len());
            let mut input = copy(&msg);
            let h1 = cut(token, 0, 4);
            let h2 = cut(token, 8, 16);
            append(&mut input, &h1);
            input.push(0);
            input.push(0);
            input.push(0);
            input.push(0);
            append(&mut input, &h2);
            assert(msg@ =~= body@.take(n as int));
            assert(sum@ =~= body@.skip(n as int));
            assert(input@ =~= msg@ + (token@.subrange(0, 4) + seq![0u8, 0u8, 0u8, 0u8] + token@.subrange(8, 16)));
            match profile.verify_checksum(key.key_bytes(), usage, &input, &sum) {
                Ok(()) => Ok(msg),
                Err(_) => Err(GssError::BadSig),
            }
        }
    }

    /// Unwrap a message. Any RRC is accepted: the body is first rotated left
    /// by it.
    pub fn unwrap(&mut self, token: &[u8]) -> (r: Result<Unwrapped, Krb5Error>)
        ensures
            (final(self)@, outcome(r)) == unwrap_spec(old(self)@, token@),
    {
        match self.check_common(token, TOK_WRAP) {
            Some(e) => return Err(gss(e)),
            None => {},
        }
        match find_etype(self.recv_key(token[2]).keytype) {
            Ok(_) => {},
            Err(x) => return Err(Krb5Error::from_crypto(x)),
        }
        let data = match self.open_body(token) {
            Ok(d) => d,
            Err(e) => return Err(gss(e)),
        };
        let seq: u64 = read_be64(token, 8);
        let status = self.seqstate.check(seq);
        Ok(Unwrapped { data, conf: has_bit(token[2], 2), seq: status })
    }

    /// Generate a MIC token. The other end verifies it.
    pub fn get_mic(&mut self, msg: &[u8]) -> (r: Result<Vec<u8>, Krb5Error>)
        ensures
            (final(self)@, outcome(r)) == mic_spec(old(self)@, msg@),
            r is Ok ==> forall|p: Krb5ContextV|
                ends(old(self)@, p) ==> #[trigger] verifies(p, r->Ok_0@, old(self)@.seq_send, msg@),
    {
        let ghost c = self@;
        let usage: i32 = self.send_usage(false);
        let hdr = make_header(TOK_MIC, self.flag_octet(false), 0xffff, 0xffff, self.seq_send);
        let input = concat(msg, &hdr);
        let key = self.msg_key();
        let profile = match find_etype(key.keytype) {
            Ok(p) => p,
            Err(x) => return Err(Krb5Error::from_crypto(x)),
        };
        let sum = match profile.checksum(key.key_bytes(), usage, &input) {
            Ok(x) => x,
            Err(x) => return Err(Krb5Error::from_crypto(x)),
        };
        let token = concat(&hdr, &sum);
        self.seq_send = self.seq_send.wrapping_add(1);
        proof {
            assert forall|p: Krb5ContextV| ends(c, p) implies #[trigger] verifies(p, token@, c.seq_send, msg@) by {
                lemma_verify_mic(c, p, msg@, sum@);
            }
        }
        Ok(token)
    }

    /// Verify a MIC token over `msg`; the Ok value is the supplementary
    /// sequence status (like `unwrap`, verification still succeeds).
    pub fn verify_mic(&mut self, msg: &[u8], mic: &[u8]) -> (r: Result<SeqStatus, Krb5Error>)
        ensures
            (final(self)@, outcome(r)) == verify_mic_spec(old(self)@, msg@, mic@),
    {
        match self.check_common(mic, TOK_MIC) {
            Some(e) => return Err(gss(e)),
            None => {},
        }
        let key = self.recv_key(mic[2]);
        let profile = match find_etype(key.keytype) {
            Ok(p) => p,
            Err(x) => return Err(Krb5Error::from_crypto(x)),
        };
        let hdr = cut(mic, 0, 16);
        let sum = cut(mic, 16, mic.len());
        let input = concat(msg, &hdr);
        assert(hdr@ =~= mic@.take(16));
        assert(sum@ =~= mic@.skip(16));
        match profile.verify_checksum(key.key_bytes(), self.recv_usage(false), &input, &sum) {
            Ok(()) => {},
            Err(_) => return Err(gss(GssError::BadSig)),
        }
        let seq: u64 = read_be64(mic, 8);
        Ok(self.seqstate.check(seq))
    }

    /// Largest plaintext fitting `output_size`.
    pub fn wrap_size_limit(&self, conf: bool, output_size: usize) -> (r: usize)
        ensures
            r == size_limit_spec(self@, conf, output_size as nat),
    {
        let profile = match find_etype(self.msg_key().keytype) {
            Ok(p) => p,
            Err(_) => return 0,
        };
        let framing: usize = if conf {
            16 + profile.confounder_size() + 16 + profile.checksum_size()
        } else {
            16 + profile.checksum_size()
        };
        if output_size < framing {
            return 0;
        }
        output_size - framing
    }
}

} // verus!
