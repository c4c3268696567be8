//! KRB-CRED: handing credentials over.
use vstd::prelude::*;
use vstd::utf8::encode_utf8;

use crate::asn1::{dup_opt_list, general_ok, Asn1, Dup, FlagBits, GeneralString};
use crate::crypto::profile::{checksum_with, cksum_spec, known, mac_len};
use crate::crypto::key_usage;
use crate::der::list_view;
use crate::error::{crypto_err, outcome, Krb5Error, Krb5ErrorV};
use crate::protocol::ap::req_rep::{mac_size, tail_of, take_tail};
use crate::protocol::ap::safe_priv::next_expected;
use crate::protocol::ap::{any_flag, open_sealed, open_spec, rdata_spec, replay_spec, ret_rdata_spec, seal, seal_spec, ApError, AuthContext, AuthContextFlags, AuthContextV, Entropy, EntropyV, ReplayData, ReplayDataV};
use crate::protocol::credential::{Credential, CredentialV, TicketTimes, TicketTimesV};
use crate::text::{lemma_lossy, lossy, utf8_lossy};
use crate::time::{split_nanos, stamp_of, usec_of, KerberosTime, Moment, TimeV};
use crate::types::{EncKrbCredPart, EncKrbCredPartV, EncryptedData, EncryptedDataV, EncryptionKeyV, KrbCred, KrbCredInfo, KrbCredInfoV, KrbCredV, PrincipalName, PrincipalNameV, Ticket, TicketV};

verus! {

/// What a KRB-CRED message says of one credential.
pub open spec fn info_spec(c: CredentialV) -> Result<KrbCredInfoV, Krb5ErrorV> {
    if !general_ok(encode_utf8(c.crealm)) {
        Err(Krb5ErrorV::ReplyValidation("invalid crealm"@))
    } else if !general_ok(encode_utf8(c.srealm)) {
        Err(Krb5ErrorV::ReplyValidation("invalid srealm"@))
    } else {
        Ok(
            KrbCredInfoV {
                key: c.session_key,
                prealm: Some(encode_utf8(c.crealm)),
                pname: Some(c.client),
                flags: Some(c.flags),
                authtime: Some(c.times.authtime),
                starttime: c.times.starttime,
                endtime: Some(c.times.endtime),
                renew_till: c.times.renew_till,
                srealm: Some(encode_utf8(c.srealm)),
                sname: Some(c.server),
                caddr: c.addresses,
            },
        )
    }
}

/// What a KRB-CRED message says of its credentials, or the first error.
pub open spec fn infos_spec(cs: Seq<CredentialV>) -> Result<Seq<KrbCredInfoV>, Krb5ErrorV>
    decreases cs.len(),
{
    if cs.len() == 0 {
        Ok(Seq::empty())
    } else {
        match infos_spec(cs.drop_last()) {
            Err(e) => Err(e),
            Ok(head) => match info_spec(cs.last()) {
                Err(e) => Err(e),
                Ok(i) => Ok(head.push(i)),
            },
        }
    }
}

/// The tickets of credentials.
pub open spec fn tickets_of(cs: Seq<CredentialV>) -> Seq<TicketV> {
    cs.map_values(|c: CredentialV| c.ticket)
}

/// The replay data of a KRB-CRED message: always with a timestamp.
pub open spec fn cred_rdata(c: AuthContextV, now: Moment) -> ReplayDataV {
    ReplayDataV {
        timestamp: Some(stamp_of(c.clock(now))),
        usec: Some(usec_of(c.clock(now))),
        seq: rdata_spec(c, now).seq,
    }
}

/// The part of a KRB-CRED message that is encrypted.
pub open spec fn cred_part(c: AuthContextV, infos: Seq<KrbCredInfoV>, now: Moment) -> EncKrbCredPartV {
    let d = cred_rdata(c, now);
    EncKrbCredPartV {
        ticket_info: infos,
        nonce: d.seq,
        timestamp: d.timestamp,
        usec: d.usec,
        s_address: c.local(),
        r_address: c.remote(),
    }
}

/// What making a KRB-CRED message does to the context and returns. Without a
/// key the message goes unencrypted, under etype 0.
pub open spec fn mk_cred_spec(c: AuthContextV, creds: Seq<CredentialV>, now: Moment, env: EntropyV) -> (
    AuthContextV,
    Result<(Seq<u8>, ReplayDataV), Krb5ErrorV>,
) {
    let ret = ret_rdata_spec(c, cred_rdata(c, now));
    match infos_spec(creds) {
        Err(e) => (c, Err(e)),
        Ok(infos) => {
            let plain = <EncKrbCredPart as Asn1>::der(cred_part(c, infos, now));
            match c.send_key() {
                None => (
                    c.seq_taken(),
                    Ok((cred_msg_der(tickets_of(creds), EncryptedDataV { etype: 0, kvno: None, cipher: plain }), ret)),
                ),
                Some(key) => match seal_spec(key, key_usage::KRB_CRED_ENCPART, env.confounder, plain) {
                    Err(e) => (c, Err(e)),
                    Ok(sealed) => {
                        let (c1, r) = replay_spec(c, c.clock(now), None, tail_of(sealed.cipher, mac_len(key.keytype)));
                        match r {
                            Err(e) => (c1, Err(Krb5ErrorV::Ap(e))),
                            Ok(_) => (c1.seq_taken(), Ok((cred_msg_der(tickets_of(creds), sealed), ret))),
                        }
                    },
                },
            }
        },
    }
}

/// The octets of a KRB-CRED message.
pub open spec fn cred_msg_der(tickets: Seq<TicketV>, enc_part: EncryptedDataV) -> Seq<u8> {
    <KrbCred as Asn1>::der(KrbCredV { pvno: 5, msg_type: 22, tickets, enc_part })
}

/// A name that was left out.
pub open spec fn name_or_empty(o: Option<PrincipalNameV>) -> PrincipalNameV {
    match o {
        Some(n) => n,
        None => PrincipalNameV { name_type: 0, name_string: Seq::empty() },
    }
}

/// A realm as text; empty when it was left out.
pub open spec fn realm_or_empty(o: Option<Seq<u8>>) -> Seq<char> {
    match o {
        Some(b) => utf8_lossy(b),
        None => Seq::empty(),
    }
}

/// A time; `now` when it was left out.
pub open spec fn time_or(o: Option<TimeV>, now: TimeV) -> TimeV {
    match o {
        Some(t) => t,
        None => now,
    }
}

/// The credential that a ticket and what the message says of it make.
pub open spec fn cred_of(ticket: TicketV, info: KrbCredInfoV, now: TimeV) -> CredentialV {
    CredentialV {
        client: name_or_empty(info.pname),
        crealm: realm_or_empty(info.prealm),
        server: name_or_empty(info.sname),
        srealm: realm_or_empty(info.srealm),
        session_key: info.key,
        times: TicketTimesV {
            authtime: time_or(info.authtime, now),
            starttime: info.starttime,
            endtime: time_or(info.endtime, now),
            renew_till: info.renew_till,
        },
        ticket,
        flags: match info.flags {
            Some(f) => f,
            None => 0,
        },
        addresses: info.caddr,
        authdata: None,
    }
}

/// The credentials of a message: one for each ticket.
pub open spec fn creds_of(tickets: Seq<TicketV>, infos: Seq<KrbCredInfoV>, now: TimeV) -> Seq<CredentialV> {
    Seq::new(tickets.len(), |i: int| cred_of(tickets[i], infos[i], now))
}

/// Opening the encrypted part with the receiving subkey, else the session
/// key.
pub open spec fn open_cred(c: AuthContextV, d: EncryptedDataV) -> Option<Seq<u8>> {
    let with = |k: Option<EncryptionKeyV>|
        match k {
            Some(key) => open_spec(d.etype, key.keyvalue, key_usage::KRB_CRED_ENCPART, d.cipher),
            None => None,
        };
    match with(c.recv_subkey) {
        Some(p) => Some(p),
        None => with(c.key),
    }
}

/// The encrypted part of a KRB-CRED message, or why it cannot be read.
pub open spec fn read_cred_part(c: AuthContextV, d: EncryptedDataV) -> Result<EncKrbCredPartV, Krb5ErrorV> {
    if c.recv_key() is None {
        match <EncKrbCredPart as Asn1>::parse(d.cipher) {
            Some(p) => Ok(p),
            None => Err(Krb5ErrorV::Asn1Decode),
        }
    } else {
        match open_cred(c, d) {
            None => Err(Krb5ErrorV::Ap(ApError::BadIntegrity)),
            Some(plain) => match <EncKrbCredPart as Asn1>::parse(plain) {
                Some(p) => Ok(p),
                None => Err(Krb5ErrorV::Ap(ApError::BadIntegrity)),
            },
        }
    }
}

/// The checks of a KRB-CRED message that follow the reading of its
/// credentials: replay, for which the key must fit the etype, then sequence.
pub open spec fn cred_received(c: AuthContextV, now: Moment, d: EncryptedDataV, part: EncKrbCredPartV, creds: Seq<CredentialV>) -> (
    AuthContextV,
    Result<(Seq<CredentialV>, ReplayDataV), Krb5ErrorV>,
) {
    let ret = ret_rdata_spec(c, ReplayDataV { timestamp: part.timestamp, usec: part.usec, seq: part.nonce });
    let (c1, replay) = match c.recv_key() {
        None => (c, Ok(())),
        Some(key) => match cksum_spec(d.etype, key.keyvalue, 0, Seq::empty()) {
            Err(e) => (c, Err(crypto_err(e))),
            Ok(_) => {
                let (c1, r) = replay_spec(c, c.clock(now), part.timestamp, tail_of(d.cipher, mac_len(d.etype)));
                (
                    c1,
                    match r {
                        Ok(_) => Ok(()),
                        Err(e) => Err(Krb5ErrorV::Ap(e)),
                    },
                )
            },
        },
    };
    let nonce = match part.nonce {
        Some(n) => n,
        None => 0,
    };
    match replay {
        Err(e) => (c1, Err(e)),
        Ok(_) => if any_flag(c.flags, AuthContextFlags::DO_SEQUENCE) {
            if nonce != c.remote_seq {
                (c1, Err(Krb5ErrorV::Ap(ApError::BadOrder)))
            } else {
                (next_expected(c1), Ok((creds, ret)))
            }
        } else {
            (c1, Ok((creds, ret)))
        },
    }
}

/// What reading a KRB-CRED message does to the context and returns.
pub open spec fn rd_cred_spec(c: AuthContextV, msg: Seq<u8>, now: Moment) -> (
    AuthContextV,
    Result<(Seq<CredentialV>, ReplayDataV), Krb5ErrorV>,
) {
    let wrong = (c, Err(Krb5ErrorV::Ap(ApError::MsgType)));
    if msg.len() == 0 || msg[0] != 0x76 {
        wrong
    } else {
        match <KrbCred as Asn1>::parse(msg) {
            None => wrong,
            Some(m) => if m.pvno != 5 || m.msg_type != 22 {
                wrong
            } else {
                match read_cred_part(c, m.enc_part) {
                    Err(e) => (c, Err(e)),
                    Ok(part) => if part.ticket_info.len() < m.tickets.len() {
                        (c, Err(Krb5ErrorV::Ap(ApError::Modified)))
                    } else {
                        cred_received(
                            c,
                            now,
                            m.enc_part,
                            part,
                            creds_of(m.tickets, part.ticket_info, stamp_of(now.total())),
                        )
                    },
                }
            },
        }
    }
}

/// A credential as a KRB-CRED message hands it over: without authorization
/// data.
pub open spec fn handed_over(c: CredentialV) -> CredentialV {
    CredentialV { authdata: None, ..c }
}

/// Credentials as a KRB-CRED message hands them over.
pub open spec fn all_handed_over(cs: Seq<CredentialV>) -> Seq<CredentialV> {
    cs.map_values(|c: CredentialV| handed_over(c))
}

/// Whether `p`, which reads with the key that `c` sends with, reads in the
/// message exactly the credentials `creds`, and goes on to the replay and
/// sequence checks.
pub open spec fn cred_reads_back(c: AuthContextV, p: AuthContextV, msg: Seq<u8>, creds: Seq<CredentialV>, sent: Moment, now: Moment) -> bool {
    p.recv_key() == c.send_key() ==> exists|d: EncryptedDataV, part: EncKrbCredPartV|
        part.nonce == cred_rdata(c, sent).seq && part.timestamp == cred_rdata(c, sent).timestamp && rd_cred_spec(
            p,
            msg,
            now,
        ) == #[trigger] cred_received(p, now, d, part, all_handed_over(creds))
}

/// What reading credentials returned, by its views.
pub open spec fn creds_outcome(r: Result<(Vec<Credential>, ReplayData), Krb5Error>) -> Result<
    (Seq<CredentialV>, ReplayDataV),
    Krb5ErrorV,
> {
    match r {
        Ok((cs, rd)) => Ok((list_view(cs@), rd@)),
        Err(e) => Err(e@),
    }
}

fn make_info(c: &Credential) -> (r: Result<KrbCredInfo, Krb5Error>)
    ensures
        outcome(r) == info_spec(c@),
{
    let prealm = match GeneralString::from_bytes(c.crealm.as_str().as_bytes()) {
        Some(g) => g,
        None => return Err(Krb5Error::ReplyValidation("invalid crealm")),
    };
    let srealm = match GeneralString::from_bytes(c.srealm.as_str().as_bytes()) {
        Some(g) => g,
        None => return Err(Krb5Error::ReplyValidation("invalid srealm")),
    };
    Ok(KrbCredInfo {
        key: c.session_key.dup(),
        prealm: Some(prealm),
        pname: Some(c.client.dup()),
        flags: Some(c.flags),
        authtime: Some(c.times.authtime),
        starttime: c.times.starttime,
        endtime: Some(c.times.endtime),
        renew_till: c.times.renew_till,
        srealm: Some(srealm),
        sname: Some(c.server.dup()),
        caddr: dup_opt_list(&c.addresses),
    })
}

proof fn lemma_infos_error(cs: Seq<CredentialV>, n: int)
    requires
        0 <= n <= cs.len(),
        infos_spec(cs.take(n)) is Err,
    ensures
        infos_spec(cs) == infos_spec(cs.take(n)),
    decreases cs.len() - n,
{
    if n < cs.len() {
        assert(cs.take(n + 1).drop_last() =~= cs.take(n));
        lemma_infos_error(cs, n + 1);
    } else {
        assert(cs.take(n) =~= cs);
    }
}

proof fn lemma_infos(cs: Seq<CredentialV>)
    requires
        infos_spec(cs) is Ok,
    ensures
        infos_spec(cs)->Ok_0.len() == cs.len(),
        forall|i: int|
            0 <= i < cs.len() ==> Ok::<KrbCredInfoV, Krb5ErrorV>(#[trigger] infos_spec(cs)->Ok_0[i]) == info_spec(cs[i]),
    decreases cs.len(),
{
    if cs.len() > 0 {
        lemma_infos(cs.drop_last());
    }
}

fn make_infos(creds: &[Credential]) -> (r: Result<Vec<KrbCredInfo>, Krb5Error>)
    ensures
        match r {
            Ok(v) => infos_spec(list_view(creds@)) == Ok::<Seq<KrbCredInfoV>, Krb5ErrorV>(list_view(v@)),
            Err(e) => infos_spec(list_view(creds@)) == Err::<Seq<KrbCredInfoV>, Krb5ErrorV>(e@),
        },
{
    let ghost cs = list_view(creds@);
    let mut infos: Vec<KrbCredInfo> = Vec::new();
    let mut i: usize = 0;
    assert(list_view(infos@) =~= Seq::empty());
    while i < creds.len()
        invariant
            i <= creds@.len(),
            cs == list_view(creds@),
            infos_spec(cs.take(i as int)) == Ok::<Seq<KrbCredInfoV>, Krb5ErrorV>(list_view(infos@)),
        decreases creds@.len() - i,
    {
        assert(cs.take(i + 1).drop_last() =~= cs.take(i as int));
        assert(cs.take(i + 1).last() == creds@[i as int]@);
        match make_info(&creds[i]) {
            Ok(x) => {
                let ghost before = list_view(infos@);
                infos.push(x);
                assert(list_view(infos@) =~= before.push(x@));
            },
            Err(e) => {
                proof {
                    lemma_infos_error(cs, i + 1);
                }
                return Err(e);
            },
        }
        i = i + 1;
    }
    assert(cs.take(i as int) =~= cs);
    Ok(infos)
}

fn collect_tickets(creds: &[Credential]) -> (r: Vec<Ticket>)
    ensures
        list_view(r@) == tickets_of(list_view(creds@)),
{
    let ghost cs = list_view(creds@);
    let mut tickets: Vec<Ticket> = Vec::new();
    let mut i: usize = 0;
    while i < creds.len()
        invariant
            i <= creds@.len(),
            cs == list_view(creds@),
            tickets@.len() == i,
            forall|j: int| 0 <= j < i ==> (#[trigger] tickets@[j])@ == creds@[j]@.ticket,
        decreases creds@.len() - i,
    {
        tickets.push(creds[i].ticket.dup());
        i = i + 1;
    }
    assert(list_view(tickets@) =~= tickets_of(cs));
    tickets
}

fn realm_text(o: &Option<GeneralString>) -> (r: String)
    ensures
        r@ == realm_or_empty(crate::der::opt_view(*o)),
{
    match o {
        Some(g) => lossy(g.as_bytes()),
        None => String::new(),
    }
}

fn name_copy(o: &Option<PrincipalName>) -> (r: PrincipalName)
    ensures
        r@ == name_or_empty(crate::der::opt_view(*o)),
{
    match o {
        Some(n) => n.dup(),
        None => PrincipalName::empty(),
    }
}

fn make_cred(ticket: &Ticket, info: &KrbCredInfo, now: KerberosTime) -> (r: Credential)
    ensures
        r@ == cred_of(ticket@, info@, now@),
{
    Credential {
        client: name_copy(&info.pname),
        crealm: realm_text(&info.prealm),
        server: name_copy(&info.sname),
        srealm: realm_text(&info.srealm),
        session_key: info.key.dup(),
        times: TicketTimes {
            authtime: match info.authtime {
                Some(t) => t,
                None => now,
            },
            starttime: info.starttime,
            endtime: match info.endtime {
                Some(t) => t,
                None => now,
            },
            renew_till: info.renew_till,
        },
        ticket: ticket.dup(),
        flags: match info.flags {
            Some(f) => f,
            None => FlagBits { bits: 0 },
        },
        addresses: dup_opt_list(&info.caddr),
        authdata: None,
    }
}

impl AuthContext {
    /// Build a KRB-CRED message with the given clock reading and random
    /// octets. A peer reads the same credentials in it.
    #[verifier::rlimit(40)]
    pub fn mk_cred_with(&mut self, creds: &[Credential], now: Moment, env: &Entropy) -> (r: Result<
        (Vec<u8>, ReplayData),
        Krb5Error,
    >)
        ensures
            (final(self)@, outcome(r)) == mk_cred_spec(old(self)@, list_view(creds@), now, env@),
            r is Ok ==> forall|p: AuthContextV, t: Moment| #[trigger]
                cred_reads_back(old(self)@, p, r->Ok_0.0@, list_view(creds@), now, t),
    {
        let ghost cs = list_view(creds@);
        let rd = self.gen_rdata(now);
        let (ts, us) = self.stamp(now);
        let d = ReplayData { timestamp: Some(ts), usec: Some(us), seq: rd.seq };
        assert(d@ == cred_rdata(self@, now));
        let infos = match make_infos(creds) {
            Ok(v) => v,
            Err(e) => return Err(e),
        };
        let tickets = collect_tickets(creds);
        let part = EncKrbCredPart {
            ticket_info: infos,
            nonce: d.seq,
            timestamp: d.timestamp,
            usec: d.usec,
            s_address: self.effective_local_addr(),
            r_address: self.effective_remote_addr(),
        };
        assert(part@ == cred_part(self@, list_view(infos@), now));
        proof {
            lemma_infos(cs);
        }
        let plain = part.encode();
        let (enc_part, tag) = match self.sending_key() {
            Some(key) => match seal(&key, key_usage::KRB_CRED_ENCPART, env, &plain) {
                Ok(s) => {
                    let tag = take_tail(&s.cipher, mac_size(key.keytype));
                    (s, Some(tag))
                },
                Err(e) => return Err(e),
            },
            None => (EncryptedData { etype: 0, kvno: None, cipher: plain }, None),
        };
        let msg = KrbCred { pvno: 5, msg_type: 22, tickets, enc_part };
        let out = msg.encode();
        proof {
            assert forall|p: AuthContextV, t: Moment| #[trigger]
                cred_reads_back(self@, p, out@, cs, now, t) by {
                if p.recv_key() == self@.send_key() {
                    assert(read_cred_part(p, msg@.enc_part) == Ok::<EncKrbCredPartV, Krb5ErrorV>(part@));
                    let back = creds_of(msg@.tickets, part@.ticket_info, stamp_of(t.total()));
                    let want = all_handed_over(cs);
                    assert forall|i: int| 0 <= i < cs.len() implies back[i] == want[i] by {
                        assert(Ok::<KrbCredInfoV, Krb5ErrorV>(part@.ticket_info[i]) == info_spec(cs[i]));
                        lemma_lossy(cs[i].crealm);
                        lemma_lossy(cs[i].srealm);
                    }
                    assert(back =~= want);
                    assert(rd_cred_spec(p, out@, t) == cred_received(p, t, msg@.enc_part, part@, want));
                }
            }
        }
        match tag {
            Some(tag) => match self.check_replay(now, None, tag) {
                Ok(()) => {},
                Err(e) => return Err(Krb5Error::Ap(e)),
            },
            None => {},
        }
        self.take_seq();
        Ok((out, self.ret_rdata(d)))
    }

    /// Build a KRB-CRED message.
    pub fn mk_cred(&mut self, creds: &[Credential]) -> (r: Result<(Vec<u8>, ReplayData), Krb5Error>)
        ensures
            exists|now: Moment, env: EntropyV|
                env.ok() && #[trigger] mk_cred_spec(old(self)@, list_view(creds@), now, env) == (
                    final(self)@,
                    outcome(r),
                ),
    {
        let now = Moment::now();
        let env = Entropy::draw();
        self.mk_cred_with(creds, now, &env)
    }

    fn open_cred_part(&self, d: &EncryptedData) -> (r: Result<EncKrbCredPart, Krb5Error>)
        ensures
            outcome(r) == read_cred_part(self@, d@),
            r is Ok && self@.recv_key() is Some ==> known(d@.etype) && d@.cipher.len() >= mac_len(d@.etype),
    {
        if self.recv_subkey.is_none() && self.key.is_none() {
            return match <EncKrbCredPart as Asn1>::decode(&d.cipher) {
                Some(p) => Ok(p),
                None => Err(Krb5Error::Asn1Decode),
            };
        }
        let first = match &self.recv_subkey {
            Some(k) => open_sealed(d.etype, k.key_bytes(), key_usage::KRB_CRED_ENCPART, &d.cipher),
            None => None,
        };
        let plain = match first {
            Some(p) => Some(p),
            None => match &self.key {
                Some(k) => open_sealed(d.etype, k.key_bytes(), key_usage::KRB_CRED_ENCPART, &d.cipher),
                None => None,
            },
        };
        match plain {
            None => Err(Krb5Error::Ap(ApError::BadIntegrity)),
            Some(p) => match <EncKrbCredPart as Asn1>::decode(&p) {
                Some(part) => Ok(part),
                None => Err(Krb5Error::Ap(ApError::BadIntegrity)),
            },
        }
    }

    /// Takes the credentials of a message that was read.
    pub fn take_creds(&mut self, now: Moment, d: &EncryptedData, part: &EncKrbCredPart, creds: Vec<Credential>) -> (r: Result<
        (Vec<Credential>, ReplayData),
        Krb5Error,
    >)
        requires
            old(self)@.recv_key() is Some ==> known(d@.etype) && d@.cipher.len() >= mac_len(d@.etype),
        ensures
            (final(self)@, creds_outcome(r)) == cred_received(old(self)@, now, d@, part@, list_view(creds@)),
    {
        match self.receiving_key() {
            Some(key) => {
                let empty: Vec<u8> = Vec::new();
                assert(empty@ =~= Seq::empty());
                match checksum_with(d.etype, key.key_bytes(), 0, &empty) {
                    Ok(_) => {},
                    Err(x) => return Err(Krb5Error::from_crypto(x)),
                }
                let tag = take_tail(&d.cipher, mac_size(d.etype));
                match self.check_replay(now, part.timestamp, tag) {
                    Ok(()) => {},
                    Err(e) => return Err(Krb5Error::Ap(e)),
                }
            },
            None => {},
        }
        if self.flags & AuthContextFlags::DO_SEQUENCE != 0 {
            let nonce: u32 = match part.nonce {
                Some(n) => n,
                None => 0,
            };
            if nonce != self.remote_seq {
                return Err(Krb5Error::Ap(ApError::BadOrder));
            }
            self.remote_seq = self.remote_seq.wrapping_add(1);
        }
        let ret = self.ret_rdata(ReplayData { timestamp: part.timestamp, usec: part.usec, seq: part.nonce });
        Ok((creds, ret))
    }

    /// Read and verify a KRB-CRED message at the given clock reading.
    pub fn rd_cred_at(&mut self, msg: &[u8], now: Moment) -> (r: Result<(Vec<Credential>, ReplayData), Krb5Error>)
        ensures
            (final(self)@, creds_outcome(r)) == rd_cred_spec(old(self)@, msg@, now),
    {
        if msg.len() == 0 || msg[0] != 0x76 {
            return Err(Krb5Error::Ap(ApError::MsgType));
        }
        let m = match <KrbCred as Asn1>::decode(msg) {
            Some(m) => m,
            None => return Err(Krb5Error::Ap(ApError::MsgType)),
        };
        if m.pvno != 5 || m.msg_type != 22 {
            return Err(Krb5Error::Ap(ApError::MsgType));
        }
        let part = match self.open_cred_part(&m.enc_part) {
            Ok(p) => p,
            Err(e) => return Err(e),
        };
        if part.ticket_info.len() < m.tickets.len() {
            return Err(Krb5Error::Ap(ApError::Modified));
        }
        let (stamp, _) = split_nanos(now.total_nanos());
        let mut creds: Vec<Credential> = Vec::new();
        let mut i: usize = 0;
        while i < m.tickets.len()
            invariant
                i <= m.tickets@.len() <= part.ticket_info@.len(),
                creds@.len() == i,
                forall|j: int|
                    0 <= j < i ==> (#[trigger] creds@[j])@ == cred_of(m.tickets@[j]@, part.ticket_info@[j]@, stamp@),
            decreases m.tickets@.len() - i,
        {
            creds.push(make_cred(&m.tickets[i], &part.ticket_info[i], stamp));
            i = i + 1;
        }
        assert(list_view(creds@) =~= creds_of(m@.tickets, part@.ticket_info, stamp@));
        self.take_creds(now, &m.enc_part, &part, creds)
    }

    /// Read and verify a KRB-CRED message.
    pub fn rd_cred(&mut self, msg: &[u8]) -> (r: Result<(Vec<Credential>, ReplayData), Krb5Error>)
        ensures
            exists|now: Moment| #[trigger]
                rd_cred_spec(old(self)@, msg@, now) == (
                    final(self)@,
                    creds_outcome(r),
                ),
    {
        let now = Moment::now();
        self.rd_cred_at(msg, now)
    }
}

} // verus!
