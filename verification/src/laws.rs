//! What holds of numbers in octets, of times and of flags.
use vstd::prelude::*;

use crate::bytes::{be16, be32, be64, get_be16, get_be32, get_be64, get_le16, get_le32, i16_of, i32_of, le16, le32, u32_of};
use crate::gssapi::seqstate::{fresh_seq_state, seq_check_spec, SeqStateV, SeqStatus};
use crate::gssapi::token::{header_spec, id_octets, value_len};
use crate::gssapi::GssFlags;
use crate::der::{be_min, len_octets, tlv};
use crate::protocol::ap::AuthContextFlags;
use crate::protocol::draws::DrawsV;
use crate::time::{stamp_of, usec_of, Duration, Moment, TimeV};
use crate::types::names::{has_flags, NT_PRINCIPAL, NT_SRV_HST, NT_SRV_INST};
use crate::types::{ApOptions, KdcOptions, TicketFlags};

verus! {

/// A number in octets: the value of the octets, each 256 times as much as the
/// next in one order and as the one before in the other, is the number.
pub proof fn law_octets(x: u16, y: u32, z: u64)
    ensures
        be16(x).len() == 2 && be16(x)[0] * 0x100 + be16(x)[1] == x,
        le16(x).len() == 2 && le16(x)[1] * 0x100 + le16(x)[0] == x,
        be32(y).len() == 4 && be32(y)[0] * 0x100_0000 + be32(y)[1] * 0x1_0000 + be32(y)[2] * 0x100 + be32(y)[3] == y,
        le32(y).len() == 4 && le32(y)[3] * 0x100_0000 + le32(y)[2] * 0x1_0000 + le32(y)[1] * 0x100 + le32(y)[0] == y,
        be64(z).len() == 8 && be64(z).subrange(0, 4) == be32((z / 0x1_0000_0000) as u32) && be64(z).subrange(4, 8) == be32(
            (z % 0x1_0000_0000) as u32,
        ),
{
    assert(be64(z).subrange(0, 4) =~= be32((z / 0x1_0000_0000) as u32));
    assert(be64(z).subrange(4, 8) =~= be32((z % 0x1_0000_0000) as u32));
}

/// The number that octets stand for.
pub proof fn law_numbers_of_octets(s: Seq<u8>, i: int)
    requires
        0 <= i,
        i + 8 <= s.len(),
    ensures
        get_be16(s, i) == s[i] * 0x100 + s[i + 1],
        get_le16(s, i) == s[i + 1] * 0x100 + s[i],
        get_be32(s, i) == s[i] * 0x100_0000 + s[i + 1] * 0x1_0000 + s[i + 2] * 0x100 + s[i + 3],
        get_le32(s, i) == s[i + 3] * 0x100_0000 + s[i + 2] * 0x1_0000 + s[i + 1] * 0x100 + s[i],
        get_be64(s, i) == get_be32(s, i) * 0x1_0000_0000 + get_be32(s, i + 4),
{
}

/// A negative number is written as it is above zero, all bits more.
pub proof fn law_signs(x: i32, y: u32, z: u16)
    ensures
        u32_of(x) == (if x >= 0 { x as int } else { x + 0x1_0000_0000 }),
        i32_of(u32_of(x)) == x,
        i32_of(y) == (if y < 0x8000_0000 { y as int } else { y - 0x1_0000_0000 }),
        i16_of(z) == (if z < 0x8000 { z as int } else { z - 0x1_0000 }),
{
}

/// A clock reading splits into its second and its microsecond: together they
/// are the reading, less what is below a microsecond.
pub proof fn law_time_split(total: int)
    requires
        -62_167_219_200_000_000_000 <= total < 253_402_300_800_000_000_000,
    ensures
        0 <= total - stamp_of(total).secs * 1_000_000_000 - usec_of(total) * 1_000 < 1_000,
        0 <= usec_of(total) < 1_000_000,
        stamp_of(total).nanos == 0,
{
    let q = total / 1_000_000_000;
    let r = total % 1_000_000_000;
    assert(total == q * 1_000_000_000 + r && 0 <= r < 1_000_000_000);
    assert(r / 1_000 * 1_000 <= r < r / 1_000 * 1_000 + 1_000);
    assert(-62_167_219_200 <= q <= 253_402_300_799);
}

/// Spans and times in nanoseconds; of two spans the shorter is shorter.
pub proof fn law_spans(d: Duration, e: Duration, t: TimeV, m: Moment)
    ensures
        d.total() == d.secs * 1_000_000_000 + d.nanos,
        t.total() == t.secs * 1_000_000_000 + t.nanos,
        m.total() == m.secs * 1_000_000_000 + m.nanos,
        d.shorter(e) == d || d.shorter(e) == e,
        d.shorter(e).total() <= d.total() && d.shorter(e).total() <= e.total(),
{
}

/// The nonce of a request is the lower 31 bits that were drawn, or 1.
pub proof fn law_nonce(d: DrawsV)
    ensures
        0 < d.request_nonce() < 0x8000_0000,
        d.nonce % 0x8000_0000 != 0 ==> d.request_nonce() == d.nonce % 0x8000_0000,
        d.nonce % 0x8000_0000 == 0 ==> d.request_nonce() == 1,
{
}

/// The bits of the flags and options of the protocol, and the types of names.
pub proof fn law_flag_bits(bits: u32, f: u32)
    ensures
        TicketFlags::FORWARDABLE == 0x4000_0000,
        TicketFlags::FORWARDED == 0x2000_0000,
        TicketFlags::PROXIABLE == 0x1000_0000,
        TicketFlags::PROXY == 0x0800_0000,
        TicketFlags::MAY_POSTDATE == 0x0400_0000,
        TicketFlags::POSTDATED == 0x0200_0000,
        TicketFlags::INVALID == 0x0100_0000,
        TicketFlags::RENEWABLE == 0x0080_0000,
        TicketFlags::INITIAL == 0x0040_0000,
        TicketFlags::PRE_AUTHENT == 0x0020_0000,
        TicketFlags::HW_AUTHENT == 0x0010_0000,
        TicketFlags::TRANSITED_POLICY_CHECKED == 0x0008_0000,
        TicketFlags::OK_AS_DELEGATE == 0x0004_0000,
        TicketFlags::ENC_PA_REP == 0x0001_0000,
        KdcOptions::FORWARDABLE == 0x4000_0000,
        KdcOptions::RENEWABLE == 0x0080_0000,
        KdcOptions::CANONICALIZE == 0x0001_0000,
        ApOptions::USE_SESSION_KEY == 0x4000_0000,
        ApOptions::MUTUAL_REQUIRED == 0x2000_0000,
        AuthContextFlags::DO_TIME == 0x01,
        AuthContextFlags::RET_TIME == 0x02,
        AuthContextFlags::DO_SEQUENCE == 0x04,
        AuthContextFlags::RET_SEQUENCE == 0x08,
        AuthContextFlags::PERMIT_ALL == 0x10,
        AuthContextFlags::USE_SUBKEY == 0x20,
        GssFlags::DELEG == 0x1,
        GssFlags::MUTUAL == 0x2,
        GssFlags::REPLAY == 0x4,
        GssFlags::SEQUENCE == 0x8,
        GssFlags::CONF == 0x10,
        GssFlags::INTEG == 0x20,
        GssFlags::ANON == 0x40,
        GssFlags::PROT_READY == 0x80,
        GssFlags::TRANS == 0x100,
        GssFlags::CHANNEL_BOUND == 0x800,
        GssFlags::DCE_STYLE == 0x1000,
        GssFlags::IDENTIFY == 0x2000,
        GssFlags::EXTENDED_ERROR == 0x4000,
        GssFlags::DELEG_POLICY == 0x8000,
        NT_PRINCIPAL == 1,
        NT_SRV_INST == 2,
        NT_SRV_HST == 3,
        has_flags(bits, f) <==> bits & f == f,
{
}

/// A length is one octet below 128, and above an octet that says how many
/// follow; a value is its tag, its length and its contents.
pub proof fn law_values_tagged(tag: u8, c: Seq<u8>, n: nat)
    ensures
        n < 128 ==> len_octets(n) == seq![n as u8],
        n >= 128 ==> len_octets(n) == seq![(0x80 + be_min(n).len()) as u8] + be_min(n),
        n < 256 ==> be_min(n) == seq![n as u8],
        n >= 256 ==> be_min(n) == be_min(n / 256).push((n % 256) as u8),
        tlv(tag, c) == seq![tag] + len_octets(c.len()) + c,
{
}

/// A token is framed by the octet 0x60, the length of what follows, the
/// mechanism under the tag 6 and, where there is one, the token's type in two
/// octets.
pub proof fn law_token_framed(mech: Seq<u8>, n: nat, id: u16)
    requires
        mech.len() < 128,
    ensures
        header_spec(mech, n, Some(id)) == seq![0x60u8] + len_octets(2 + mech.len() + n + 2) + seq![0x06u8, mech.len() as u8] + mech
            + be16(id),
        header_spec(mech, n, None) == seq![0x60u8] + len_octets(2 + mech.len() + n) + seq![0x06u8, mech.len() as u8] + mech,
{
    assert(value_len(mech.len()) == 2 + mech.len());
    assert(id_octets(Some(id)).len() == 2);
    let a = seq![0x60u8] + len_octets(2 + mech.len() + n + 2);
    assert(a + seq![0x06u8] + len_octets(mech.len()) =~= a + seq![0x06u8, mech.len() as u8]);
    let b = seq![0x60u8] + len_octets(2 + mech.len() + n);
    assert(b + seq![0x06u8] + len_octets(mech.len()) =~= b + seq![0x06u8, mech.len() as u8]);
    let c = b + seq![0x06u8, mech.len() as u8] + mech;
    assert(c + id_octets(None) =~= c);
}

/// The number of a message, counted from the first: the one after the last is
/// complete and moves the count on; one further on is complete too, but a gap
/// where order is checked; one seen before is a duplicate where replays are
/// checked; one of the last 64 that was not seen is complete, but out of
/// sequence where order is checked; an older one is old.
pub proof fn law_message_order(s: SeqStateV, n: u64)
    requires
        s.ok(),
        s.do_replay || s.do_sequence,
        s.rel(n) + 1 < s.modulus(),
    ensures
        ({
            let (w, r) = seq_check_spec(s, n);
            let rel = s.rel(n);
            let age = s.next - rel;
            &&& rel == s.next ==> r == SeqStatus::Complete && w.next == s.next + 1
            &&& rel > s.next ==> w.next == rel + 1 && r == (if s.do_sequence { SeqStatus::Gap } else { SeqStatus::Complete })
            &&& 0 < age <= 64 && s.recv[age - 1] && s.do_replay ==> r == SeqStatus::Duplicate && w == s
            &&& 0 < age <= 64 && !s.recv[age - 1] ==> w.next == s.next && r == (if s.do_sequence {
                SeqStatus::Unseq
            } else {
                SeqStatus::Complete
            })
            &&& age > 64 ==> w == s && r == (if s.do_sequence { SeqStatus::Unseq } else { SeqStatus::Old })
            &&& w.base == s.base && w.do_replay == s.do_replay && w.do_sequence == s.do_sequence && w.wide == s.wide
        }),
        s.wide ==> s.modulus() == 0x1_0000_0000_0000_0000,
        !s.wide ==> s.modulus() == 0x1_0000_0000,
        s.base <= n ==> s.rel(n) == (n - s.base) % s.modulus(),
{
    vstd::arithmetic::div_mod::lemma_small_mod((s.rel(n) + 1) as nat, s.modulus() as nat);
}

/// Where neither replays nor order are checked every message is complete.
pub proof fn law_unchecked_order(s: SeqStateV, n: u64, base: u64, r: bool, q: bool, w: bool)
    ensures
        !s.do_replay && !s.do_sequence ==> seq_check_spec(s, n) == (s, SeqStatus::Complete),
        fresh_seq_state(base, r, q, w).base == base,
        fresh_seq_state(base, r, q, w).next == 0,
        fresh_seq_state(base, r, q, w).do_replay == r,
        fresh_seq_state(base, r, q, w).do_sequence == q,
        fresh_seq_state(base, r, q, w).wide == w,
{
}

} // verus!
