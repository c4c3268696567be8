//! KRB-SAFE and KRB-PRIV.
use vstd::prelude::*;

use crate::asn1::{Asn1, Dup};
use crate::bytes::copy;
use crate::crypto::profile::{cksum_spec, cksum_type, known, mac_len, verify_spec};
use crate::crypto::{etype_of_cksum, find_cksumtype, find_etype, key_usage, CryptoError, EtypeProfile};
use crate::error::{crypto_err, outcome, Krb5Error, Krb5ErrorV};
use crate::protocol::ap::req_rep::{mac_size, tail_of, take_tail};
use crate::protocol::ap::{addrs_ok, any_flag, open_sealed, open_spec, rdata_spec, replay_spec, ret_rdata_spec, seal, seal_spec, seqnum_spec, ApError, AuthContext, AuthContextFlags, AuthContextV, Entropy, EntropyV, ReplayData, ReplayDataV};
use crate::time::Moment;
use crate::types::{Checksum, ChecksumV, EncKrbPrivPart, EncKrbPrivPartV, KrbPriv, KrbPrivV, KrbSafe, KrbSafeBody, KrbSafeBodyV, KrbSafeV};

verus! {

/// An outgoing message: its tag is recorded and its sequence number taken.
pub open spec fn sent_spec(c: AuthContextV, now: Moment, tag: Seq<u8>, out: Seq<u8>, d: ReplayDataV) -> (
    AuthContextV,
    Result<(Seq<u8>, ReplayDataV), Krb5ErrorV>,
) {
    let (c1, r) = replay_spec(c, c.clock(now), None, tag);
    match r {
        Err(e) => (c1, Err(Krb5ErrorV::Ap(e))),
        Ok(_) => (c1.seq_taken(), Ok((out, ret_rdata_spec(c, d)))),
    }
}

/// An incoming message that verified: the replay check, then the sequence
/// check, then the next expected number.
pub open spec fn received_spec(c: AuthContextV, now: Moment, tag: Seq<u8>, data: Seq<u8>, d: ReplayDataV) -> (
    AuthContextV,
    Result<(Seq<u8>, ReplayDataV), Krb5ErrorV>,
) {
    let (c1, r) = replay_spec(c, c.clock(now), d.timestamp, tag);
    let ret = ret_rdata_spec(c, d);
    match r {
        Err(e) => (c1, Err(Krb5ErrorV::Ap(e))),
        Ok(_) => if any_flag(c.flags, AuthContextFlags::DO_SEQUENCE) {
            let (c2, fits) = seqnum_spec(
                c1,
                match d.seq {
                    Some(n) => n,
                    None => 0,
                },
            );
            if !fits {
                (c2, Err(Krb5ErrorV::Ap(ApError::BadOrder)))
            } else {
                (next_expected(c2), Ok((data, ret)))
            }
        } else {
            (c1, Ok((data, ret)))
        },
    }
}

/// The context that expects the next sequence number.
pub open spec fn next_expected(c: AuthContextV) -> AuthContextV {
    AuthContextV { remote_seq: ((c.remote_seq + 1) % 0x1_0000_0000) as u32, ..c }
}

/// The KRB-SAFE message with the checksum left empty.
pub open spec fn zero_safe(body: KrbSafeBodyV) -> KrbSafeV {
    KrbSafeV {
        pvno: 5,
        msg_type: 20,
        safe_body: body,
        cksum: ChecksumV { cksumtype: 0, checksum: Seq::empty() },
    }
}

/// The body of a KRB-SAFE message.
pub open spec fn safe_body_spec(c: AuthContextV, data: Seq<u8>, d: ReplayDataV) -> KrbSafeBodyV {
    KrbSafeBodyV {
        user_data: data,
        timestamp: d.timestamp,
        usec: d.usec,
        seq_number: d.seq,
        s_address: c.local()->0,
        r_address: c.remote(),
    }
}

/// What making a KRB-SAFE message does to the context and returns.
pub open spec fn mk_safe_spec(c: AuthContextV, data: Seq<u8>, now: Moment) -> (
    AuthContextV,
    Result<(Seq<u8>, ReplayDataV), Krb5ErrorV>,
) {
    let d = rdata_spec(c, now);
    let body = safe_body_spec(c, data, d);
    if c.local_addr is None {
        (c, Err(Krb5ErrorV::Ap(ApError::LocalAddrRequired)))
    } else {
        match c.send_key() {
            None => (c, Err(Krb5ErrorV::ReplyValidation("no key"@))),
            Some(key) => if !known(key.keytype) {
                (c, Err(crypto_err(CryptoError::UnsupportedEtype)))
            } else {
                match cksum_spec(
                    key.keytype,
                    key.keyvalue,
                    key_usage::KRB_SAFE_CKSUM,
                    <KrbSafe as Asn1>::der(zero_safe(body)),
                ) {
                    Err(e) => (c, Err(crypto_err(e))),
                    Ok(sum) => sent_spec(
                        c,
                        now,
                        sum,
                        <KrbSafe as Asn1>::der(
                            KrbSafeV {
                                cksum: ChecksumV { cksumtype: cksum_type(key.keytype), checksum: sum },
                                ..zero_safe(body)
                            },
                        ),
                        d,
                    ),
                }
            },
        }
    }
}

/// Whether a checksum type is a known one without a key.
pub open spec fn unkeyed_cksum(t: i32) -> bool {
    1 <= t <= 8 || t == 12 || t == 14
}

/// Whether a KRB-SAFE checksum verifies: over the message with the checksum
/// left empty or, as older peers do it, over the body alone.
pub open spec fn safe_valid(e: i32, key: Seq<u8>, m: KrbSafeV) -> bool {
    verify_spec(
        e,
        key,
        key_usage::KRB_SAFE_CKSUM,
        <KrbSafe as Asn1>::der(zero_safe(m.safe_body)),
        m.cksum.checksum,
    ) is Ok || verify_spec(
        e,
        key,
        key_usage::KRB_SAFE_CKSUM,
        <KrbSafeBody as Asn1>::der(m.safe_body),
        m.cksum.checksum,
    ) is Ok
}

/// What reading a KRB-SAFE message does to the context and returns.
pub open spec fn rd_safe_spec(c: AuthContextV, msg: Seq<u8>, now: Moment) -> (
    AuthContextV,
    Result<(Seq<u8>, ReplayDataV), Krb5ErrorV>,
) {
    let wrong = (c, Err(Krb5ErrorV::Ap(ApError::MsgType)));
    if msg.len() == 0 || msg[0] != 0x74 {
        wrong
    } else {
        match <KrbSafe as Asn1>::parse(msg) {
            None => wrong,
            Some(m) => if m.pvno != 5 || m.msg_type != 20 {
                wrong
            } else {
                match etype_of_cksum(m.cksum.cksumtype) {
                    None => (
                        c,
                        Err(
                            Krb5ErrorV::Ap(
                                if unkeyed_cksum(m.cksum.cksumtype) {
                                    ApError::InappCksum
                                } else {
                                    ApError::SumTypeNoSupp
                                },
                            ),
                        ),
                    ),
                    Some(e) => if !addrs_ok(c, m.safe_body.s_address, m.safe_body.r_address) {
                        (c, Err(Krb5ErrorV::Ap(ApError::BadAddr)))
                    } else {
                        match c.recv_key() {
                            None => (c, Err(Krb5ErrorV::ReplyValidation("no key"@))),
                            Some(key) => if !safe_valid(e, key.keyvalue, m) {
                                (c, Err(Krb5ErrorV::Ap(ApError::Modified)))
                            } else {
                                received_spec(c, now, m.cksum.checksum, m.safe_body.user_data, safe_rdata(m))
                            },
                        }
                    },
                }
            },
        }
    }
}

/// The replay data of a KRB-SAFE message.
pub open spec fn safe_rdata(m: KrbSafeV) -> ReplayDataV {
    ReplayDataV { timestamp: m.safe_body.timestamp, usec: m.safe_body.usec, seq: m.safe_body.seq_number }
}

/// The tag of a KRB-PRIV message: the integrity tag of its ciphertext.
pub open spec fn priv_tag(msg: Seq<u8>) -> Seq<u8> {
    match <KrbPriv as Asn1>::parse(msg) {
        Some(m) => tail_of(m.enc_part.cipher, mac_len(m.enc_part.etype)),
        None => Seq::empty(),
    }
}

/// The tag of a KRB-SAFE message: its checksum.
pub open spec fn safe_tag(msg: Seq<u8>) -> Seq<u8> {
    match <KrbSafe as Asn1>::parse(msg) {
        Some(m) => m.cksum.checksum,
        None => Seq::empty(),
    }
}

/// What making a KRB-PRIV message does to the context and returns.
pub open spec fn mk_priv_spec(c: AuthContextV, data: Seq<u8>, now: Moment, env: EntropyV) -> (
    AuthContextV,
    Result<(Seq<u8>, ReplayDataV), Krb5ErrorV>,
) {
    let d = rdata_spec(c, now);
    let part = EncKrbPrivPartV {
        user_data: data,
        timestamp: d.timestamp,
        usec: d.usec,
        seq_number: d.seq,
        s_address: c.local()->0,
        r_address: c.remote(),
    };
    if c.local_addr is None {
        (c, Err(Krb5ErrorV::Ap(ApError::LocalAddrRequired)))
    } else {
        match c.send_key() {
            None => (c, Err(Krb5ErrorV::ReplyValidation("no key"@))),
            Some(key) => match seal_spec(
                key,
                key_usage::KRB_PRIV_ENCPART,
                env.confounder,
                <EncKrbPrivPart as Asn1>::der(part),
            ) {
                Err(e) => (c, Err(e)),
                Ok(sealed) => sent_spec(
                    c,
                    now,
                    tail_of(sealed.cipher, mac_len(key.keytype)),
                    <KrbPriv as Asn1>::der(KrbPrivV { pvno: 5, msg_type: 21, enc_part: sealed }),
                    d,
                ),
            },
        }
    }
}

/// What reading a KRB-PRIV message does to the context and returns.
pub open spec fn rd_priv_spec(c: AuthContextV, msg: Seq<u8>, now: Moment) -> (
    AuthContextV,
    Result<(Seq<u8>, ReplayDataV), Krb5ErrorV>,
) {
    let wrong = (c, Err(Krb5ErrorV::Ap(ApError::MsgType)));
    let broken = (c, Err(Krb5ErrorV::Ap(ApError::BadIntegrity)));
    if msg.len() == 0 || msg[0] != 0x75 {
        wrong
    } else {
        match <KrbPriv as Asn1>::parse(msg) {
            None => wrong,
            Some(m) => if m.pvno != 5 || m.msg_type != 21 {
                wrong
            } else {
                match c.recv_key() {
                    None => (c, Err(Krb5ErrorV::ReplyValidation("no key"@))),
                    Some(key) => if !known(m.enc_part.etype) {
                        (c, Err(crypto_err(CryptoError::UnsupportedEtype)))
                    } else {
                        match open_spec(
                            m.enc_part.etype,
                            key.keyvalue,
                            key_usage::KRB_PRIV_ENCPART,
                            m.enc_part.cipher,
                        ) {
                            None => broken,
                            Some(p) => match <EncKrbPrivPart as Asn1>::parse(p) {
                                None => broken,
                                Some(part) => if !addrs_ok(c, part.s_address, part.r_address) {
                                    (c, Err(Krb5ErrorV::Ap(ApError::BadAddr)))
                                } else {
                                    received_spec(
                                        c,
                                        now,
                                        priv_tag(msg),
                                        part.user_data,
                                        ReplayDataV {
                                            timestamp: part.timestamp,
                                            usec: part.usec,
                                            seq: part.seq_number,
                                        },
                                    )
                                },
                            },
                        }
                    },
                }
            },
        }
    }
}

/// Whether `p` reads with the key that `c` sends with, and takes messages
/// between the addresses that `c` puts in them.
pub open spec fn peers(c: AuthContextV, p: AuthContextV) -> bool {
    &&& p.recv_key() == c.send_key()
    &&& c.local() is Some
    &&& addrs_ok(p, c.local()->0, c.remote())
}

/// A verified message is taken when it is timely and new to a receiver that
/// keeps time, and carries the number that a receiver which keeps sequence
/// expects.
pub proof fn law_expected_message_received(p: AuthContextV, now: Moment, tag: Seq<u8>, data: Seq<u8>, d: ReplayDataV)
    requires
        any_flag(p.flags, AuthContextFlags::DO_TIME) ==> !p.rcache.contains(tag) && (d.timestamp matches Some(t)
            ==> crate::protocol::ap::clockskew_spec(p.clockskew, p.clock(now), t) is Ok),
        any_flag(p.flags, AuthContextFlags::DO_SEQUENCE) ==> d.seq == Some(p.remote_seq),
    ensures
        received_spec(p, now, tag, data, d).1 == Ok::<(Seq<u8>, ReplayDataV), Krb5ErrorV>((data, ret_rdata_spec(p, d))),
        any_flag(p.flags, AuthContextFlags::DO_SEQUENCE) ==> received_spec(p, now, tag, data, d).0.remote_seq
            == (p.remote_seq + 1) % 0x1_0000_0000,
{
}

/// A receiver that keeps time takes no message twice.
pub proof fn law_message_taken_once(p: AuthContextV, now: Moment, later: Moment, tag: Seq<u8>, data: Seq<u8>, d: ReplayDataV)
    requires
        any_flag(p.flags, AuthContextFlags::DO_TIME),
        received_spec(p, now, tag, data, d).1 is Ok,
    ensures
        received_spec(received_spec(p, now, tag, data, d).0, later, tag, data, d).1 is Err,
{
    let p2 = received_spec(p, now, tag, data, d).0;
    assert(p2.rcache == p.rcache.push(tag));
    assert(p2.rcache[p.rcache.len() as int] == tag);
}

impl AuthContext {
    fn sent(&mut self, now: Moment, tag: Vec<u8>, out: Vec<u8>, d: ReplayData) -> (r: Result<
        (Vec<u8>, ReplayData),
        Krb5Error,
    >)
        ensures
            (final(self)@, outcome(r)) == sent_spec(old(self)@, now, tag@, out@, d@),
            r is Ok ==> r->Ok_0.0@ == out@,
    {
        match self.check_replay(now, None, tag) {
            Ok(()) => {},
            Err(e) => return Err(Krb5Error::Ap(e)),
        }
        self.take_seq();
        Ok((out, self.ret_rdata(d)))
    }

    /// Takes a message that verified.
    pub fn received(&mut self, now: Moment, tag: Vec<u8>, data: Vec<u8>, d: ReplayData) -> (r: Result<
        (Vec<u8>, ReplayData),
        Krb5Error,
    >)
        ensures
            (final(self)@, outcome(r)) == received_spec(old(self)@, now, tag@, data@, d@),
    {
        match self.check_replay(now, d.timestamp, tag) {
            Ok(()) => {},
            Err(e) => return Err(Krb5Error::Ap(e)),
        }
        if self.flags & AuthContextFlags::DO_SEQUENCE != 0 {
            let n: u32 = match d.seq {
                Some(n) => n,
                None => 0,
            };
            if !self.check_seqnum(n) {
                return Err(Krb5Error::Ap(ApError::BadOrder));
            }
            self.remote_seq = self.remote_seq.wrapping_add(1);
        }
        Ok((data, self.ret_rdata(d)))
    }

    /// Build a KRB-SAFE message at the given clock reading. A peer verifies
    /// it and goes on to the replay and sequence checks.
    pub fn mk_safe_at(&mut self, user_data: &[u8], now: Moment) -> (r: Result<(Vec<u8>, ReplayData), Krb5Error>)
        ensures
            (final(self)@, outcome(r)) == mk_safe_spec(old(self)@, user_data@, now),
            r is Ok ==> forall|p: AuthContextV, t: Moment|
                peers(old(self)@, p) ==> #[trigger] rd_safe_spec(p, r->Ok_0.0@, t) == received_spec(
                    p,
                    t,
                    safe_tag(r->Ok_0.0@),
                    user_data@,
                    rdata_spec(old(self)@, now),
                ),
    {
        let local = match self.effective_local_addr() {
            Some(a) => a,
            None => return Err(Krb5Error::Ap(ApError::LocalAddrRequired)),
        };
        let d = self.gen_rdata(now);
        let remote = self.effective_remote_addr();
        let key = match self.sending_key() {
            Some(k) => k,
            None => return Err(Krb5Error::ReplyValidation("no key")),
        };
        let profile = match find_etype(key.keytype) {
            Ok(p) => p,
            Err(x) => return Err(Krb5Error::from_crypto(x)),
        };
        let body = KrbSafeBody {
            user_data: copy(user_data),
            timestamp: d.timestamp,
            usec: d.usec,
            seq_number: d.seq,
            s_address: local,
            r_address: remote,
        };
        let mut safe = KrbSafe {
            pvno: 5,
            msg_type: 20,
            safe_body: body,
            cksum: Checksum { cksumtype: 0, checksum: Vec::new() },
        };
        assert(safe@ == zero_safe(safe_body_spec(self@, user_data@, d@)));
        let zero_der = safe.encode();
        let sum = match profile.checksum(key.key_bytes(), key_usage::KRB_SAFE_CKSUM, &zero_der) {
            Ok(s) => s,
            Err(x) => return Err(Krb5Error::from_crypto(x)),
        };
        safe.cksum = Checksum { cksumtype: profile.checksum_type(), checksum: copy(&sum) };
        let der = safe.encode();
        self.sent(now, sum, der, d)
    }

    /// Build a KRB-SAFE message.
    pub fn mk_safe(&mut self, user_data: &[u8]) -> (r: Result<(Vec<u8>, ReplayData), Krb5Error>)
        ensures
            exists|now: Moment| #[trigger]
                mk_safe_spec(old(self)@, user_data@, now) == (final(self)@, outcome(r)),
    {
        let now = Moment::now();
        self.mk_safe_at(user_data, now)
    }

    /// Read and verify a KRB-SAFE message at the given clock reading.
    pub fn rd_safe_at(&mut self, msg: &[u8], now: Moment) -> (r: Result<(Vec<u8>, ReplayData), Krb5Error>)
        ensures
            (final(self)@, outcome(r)) == rd_safe_spec(old(self)@, msg@, now),
    {
        if msg.len() == 0 || msg[0] != 0x74 {
            return Err(Krb5Error::Ap(ApError::MsgType));
        }
        let safe = match <KrbSafe as Asn1>::decode(msg) {
            Some(m) => m,
            None => return Err(Krb5Error::Ap(ApError::MsgType)),
        };
        if safe.pvno != 5 || safe.msg_type != 20 {
            return Err(Krb5Error::Ap(ApError::MsgType));
        }
        let t: i32 = safe.cksum.cksumtype;
        let profile = match find_cksumtype(t) {
            Ok(p) => p,
            Err(_) => {
                if (t >= 1 && t <= 8) || t == 12 || t == 14 {
                    return Err(Krb5Error::Ap(ApError::InappCksum));
                }
                return Err(Krb5Error::Ap(ApError::SumTypeNoSupp));
            },
        };
        match self.check_addrs(&safe.safe_body.s_address, &safe.safe_body.r_address) {
            Ok(()) => {},
            Err(e) => return Err(Krb5Error::Ap(e)),
        }
        let key = match self.receiving_key() {
            Some(k) => k,
            None => return Err(Krb5Error::ReplyValidation("no key")),
        };
        let zero = KrbSafe {
            pvno: 5,
            msg_type: 20,
            safe_body: safe.safe_body.dup(),
            cksum: Checksum { cksumtype: 0, checksum: Vec::new() },
        };
        assert(zero@ == zero_safe(safe@.safe_body));
        let zero_der = zero.encode();
        let mut valid = profile.verify_checksum(
            key.key_bytes(),
            key_usage::KRB_SAFE_CKSUM,
            &zero_der,
            &safe.cksum.checksum,
        ).is_ok();
        if !valid {
            let body_der = safe.safe_body.encode();
            valid = profile.verify_checksum(
                key.key_bytes(),
                key_usage::KRB_SAFE_CKSUM,
                &body_der,
                &safe.cksum.checksum,
            ).is_ok();
        }
        if !valid {
            return Err(Krb5Error::Ap(ApError::Modified));
        }
        let d = ReplayData {
            timestamp: safe.safe_body.timestamp,
            usec: safe.safe_body.usec,
            seq: safe.safe_body.seq_number,
        };
        self.received(now, safe.cksum.checksum, safe.safe_body.user_data, d)
    }

    /// Read and verify a KRB-SAFE message.
    pub fn rd_safe(&mut self, msg: &[u8]) -> (r: Result<(Vec<u8>, ReplayData), Krb5Error>)
        ensures
            exists|now: Moment| #[trigger]
                rd_safe_spec(old(self)@, msg@, now) == (final(self)@, outcome(r)),
    {
        let now = Moment::now();
        self.rd_safe_at(msg, now)
    }

    /// Build a KRB-PRIV message with the given clock reading and random
    /// octets. A peer decrypts it and goes on to the replay and sequence
    /// checks.
    pub fn mk_priv_with(&mut self, user_data: &[u8], now: Moment, env: &Entropy) -> (r: Result<
        (Vec<u8>, ReplayData),
        Krb5Error,
    >)
        ensures
            (final(self)@, outcome(r)) == mk_priv_spec(old(self)@, user_data@, now, env@),
            r is Ok ==> forall|p: AuthContextV, t: Moment|
                peers(old(self)@, p) ==> #[trigger] rd_priv_spec(p, r->Ok_0.0@, t) == received_spec(
                    p,
                    t,
                    priv_tag(r->Ok_0.0@),
                    user_data@,
                    rdata_spec(old(self)@, now),
                ),
    {
        let local = match self.effective_local_addr() {
            Some(a) => a,
            None => return Err(Krb5Error::Ap(ApError::LocalAddrRequired)),
        };
        let d = self.gen_rdata(now);
        let remote = self.effective_remote_addr();
        let key = match self.sending_key() {
            Some(k) => k,
            None => return Err(Krb5Error::ReplyValidation("no key")),
        };
        let part = EncKrbPrivPart {
            user_data: copy(user_data),
            timestamp: d.timestamp,
            usec: d.usec,
            seq_number: d.seq,
            s_address: local,
            r_address: remote,
        };
        let der = part.encode();
        let sealed = match seal(&key, key_usage::KRB_PRIV_ENCPART, env, &der) {
            Ok(s) => s,
            Err(e) => return Err(e),
        };
        let tag = take_tail(&sealed.cipher, mac_size(key.keytype));
        let msg = KrbPriv { pvno: 5, msg_type: 21, enc_part: sealed };
        let out = msg.encode();
        self.sent(now, tag, out, d)
    }

    /// Build a KRB-PRIV message.
    pub fn mk_priv(&mut self, user_data: &[u8]) -> (r: Result<(Vec<u8>, ReplayData), Krb5Error>)
        ensures
            exists|now: Moment, env: EntropyV|
                env.ok() && #[trigger] mk_priv_spec(old(self)@, user_data@, now, env) == (
                    final(self)@,
                    outcome(r),
                ),
    {
        let now = Moment::now();
        let env = Entropy::draw();
        self.mk_priv_with(user_data, now, &env)
    }

    /// Read and verify a KRB-PRIV message at the given clock reading.
    pub fn rd_priv_at(&mut self, msg: &[u8], now: Moment) -> (r: Result<(Vec<u8>, ReplayData), Krb5Error>)
        ensures
            (final(self)@, outcome(r)) == rd_priv_spec(old(self)@, msg@, now),
    {
        if msg.len() == 0 || msg[0] != 0x75 {
            return Err(Krb5Error::Ap(ApError::MsgType));
        }
        let m = match <KrbPriv as Asn1>::decode(msg) {
            Some(m) => m,
            None => return Err(Krb5Error::Ap(ApError::MsgType)),
        };
        if m.pvno != 5 || m.msg_type != 21 {
            return Err(Krb5Error::Ap(ApError::MsgType));
        }
        let key = match self.receiving_key() {
            Some(k) => k,
            None => return Err(Krb5Error::ReplyValidation("no key")),
        };
        let etype: i32 = m.enc_part.etype;
        match find_etype(etype) {
            Ok(_) => {},
            Err(x) => return Err(Krb5Error::from_crypto(x)),
        }
        let plain = match open_sealed(etype, key.key_bytes(), key_usage::KRB_PRIV_ENCPART, &m.enc_part.cipher) {
            Some(p) => p,
            None => return Err(Krb5Error::Ap(ApError::BadIntegrity)),
        };
        let part = match <EncKrbPrivPart as Asn1>::decode(&plain) {
            Some(p) => p,
            None => return Err(Krb5Error::Ap(ApError::BadIntegrity)),
        };
        match self.check_addrs(&part.s_address, &part.r_address) {
            Ok(()) => {},
            Err(e) => return Err(Krb5Error::Ap(e)),
        }
        let tag = take_tail(&m.enc_part.cipher, mac_size(etype));
        let d = ReplayData { timestamp: part.timestamp, usec: part.usec, seq: part.seq_number };
        self.received(now, tag, part.user_data, d)
    }

    /// Read and verify a KRB-PRIV message.
    pub fn rd_priv(&mut self, msg: &[u8]) -> (r: Result<(Vec<u8>, ReplayData), Krb5Error>)
        ensures
            exists|now: Moment| #[trigger]
                rd_priv_spec(old(self)@, msg@, now) == (final(self)@, outcome(r)),
    {
        let now = Moment::now();
        self.rd_priv_at(msg, now)
    }
}

} // verus!
