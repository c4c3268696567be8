//! Delta-time strings.
//!
//! Accepted forms:
//! - `N` — bare seconds (optionally signed).
//! - `Nd`, `Nh`, `Nm`, `Ns` — components in strictly decreasing unit order
//!   (d > h > m > s), each signed, separated by optional whitespace.
//! - `H:M`, `H:M:S` — hours/minutes[/seconds], no whitespace, minute and
//!   second fields at most two digits.
//! - `D-H:M:S` — days-hours:minutes:seconds.
//!
//! Whitespace may stand before the whole and behind it. The accumulated value
//! must fit 32 bits; overflow is an error.
use vstd::prelude::*;
use vstd::utf8::encode_utf8;

use crate::profile::{profile_outcome, ProfileError, ProfileErrorV};
use crate::text::{chars_of, text_of};

verus! {

/// Whether an octet is white space.
pub open spec fn is_space(b: u8) -> bool {
    b == 0x20 || 0x09 <= b <= 0x0d
}

/// Whether an octet is a decimal digit.
pub open spec fn is_digit(b: u8) -> bool {
    0x30 <= b <= 0x39
}

/// The first position from `i` on that is no white space.
pub open spec fn skip_spaces(b: Seq<u8>, i: int) -> int
    decreases b.len() - i,
{
    if 0 <= i < b.len() && is_space(b[i]) {
        skip_spaces(b, i + 1)
    } else {
        i
    }
}

/// The first position from `i` on that is no digit.
pub open spec fn digits_end(b: Seq<u8>, i: int) -> int
    decreases b.len() - i,
{
    if 0 <= i < b.len() && is_digit(b[i]) {
        digits_end(b, i + 1)
    } else {
        i
    }
}

/// The number of the digits from `i` up to `j`.
pub open spec fn decimal(b: Seq<u8>, i: int, j: int) -> nat
    decreases j - i,
{
    if i >= j {
        0
    } else {
        decimal(b, i, j - 1) * 10 + (b[j - 1] - 0x30) as nat
    }
}

/// Whether a number fits 64 bits.
pub open spec fn in64(x: int) -> bool {
    i64::MIN <= x <= i64::MAX
}

/// The signed number at `i`, behind white space, and where it ends.
pub open spec fn num_spec(b: Seq<u8>, i: int) -> Option<(int, int)> {
    let k = skip_spaces(b, i);
    let neg = k < b.len() && b[k] == 0x2d;
    let s = if neg { k + 1 } else { k };
    let e = digits_end(b, s);
    let v = decimal(b, s, e) as int;
    if e == s || !in64(v) {
        None
    } else {
        Some((if neg { -v } else { v }, e))
    }
}

/// The number of one or two digits at `i`, and where it ends.
pub open spec fn num2_spec(b: Seq<u8>, i: int) -> Option<(int, int)> {
    let e = digits_end(b, i);
    if e == i || e > i + 2 {
        None
    } else {
        Some((decimal(b, i, e) as int, e))
    }
}

/// The rank and the seconds of a unit letter.
pub open spec fn unit_spec(b: u8) -> Option<(nat, int)> {
    if b == 0x64 {
        Some((3, 86400))
    } else if b == 0x68 {
        Some((2, 3600))
    } else if b == 0x6d {
        Some((1, 60))
    } else if b == 0x73 {
        Some((0, 1))
    } else {
        None
    }
}

/// Whether the octet at `i` is `c`.
pub open spec fn at(b: Seq<u8>, i: int, c: u8) -> bool {
    i < b.len() && b[i] == c
}

/// The total of the components from `i` on, below rank `rank`, and what came
/// before them.
pub open spec fn components_spec(b: Seq<u8>, i: int, rank: nat, total: int) -> Option<int>
    decreases rank,
{
    let k = skip_spaces(b, i);
    if k >= b.len() {
        Some(total)
    } else {
        match num_spec(b, k) {
            None => None,
            Some((v, e)) => if e >= b.len() {
                None
            } else {
                match unit_spec(b[e]) {
                    None => None,
                    Some((r, m)) => if r >= rank || !in64(v * m) || !in64(total + v * m) {
                        None
                    } else {
                        components_spec(b, e + 1, r, total + v * m)
                    },
                }
            },
        }
    }
}

/// `t`, if only white space follows from `i` on.
pub open spec fn ends_with_spec(b: Seq<u8>, i: int, t: int) -> Option<int> {
    if skip_spaces(b, i) == b.len() {
        Some(t)
    } else {
        None
    }
}

/// `n` hours, minutes and perhaps seconds.
pub open spec fn clock_spec(b: Seq<u8>, n: int, i: int) -> Option<int> {
    match num2_spec(b, i) {
        None => None,
        Some((m, j)) => {
            let t = n * 3600 + m * 60;
            if at(b, j, 0x3a) {
                match num2_spec(b, j + 1) {
                    None => None,
                    Some((sec, k)) => if in64(n * 3600) && in64(t) && in64(t + sec) {
                        ends_with_spec(b, k, t + sec)
                    } else {
                        None
                    },
                }
            } else if in64(n * 3600) && in64(t) {
                ends_with_spec(b, j, t)
            } else {
                None
            }
        },
    }
}

/// `n` days, then hours, minutes and seconds.
pub open spec fn days_spec(b: Seq<u8>, n: int, i: int) -> Option<int> {
    match num2_spec(b, i) {
        None => None,
        Some((h, j)) => if !at(b, j, 0x3a) {
            None
        } else {
            match num2_spec(b, j + 1) {
                None => None,
                Some((m, k)) => if !at(b, k, 0x3a) {
                    None
                } else {
                    match num2_spec(b, k + 1) {
                        None => None,
                        Some((sec, l)) => {
                            let t1 = n * 86400 + h * 3600;
                            let t2 = t1 + m * 60;
                            if in64(n * 86400) && in64(t1) && in64(t2) && in64(t2 + sec) {
                                ends_with_spec(b, l, t2 + sec)
                            } else {
                                None
                            }
                        },
                    }
                },
            }
        },
    }
}

/// The seconds of a delta-time string before the limit of 32 bits.
pub open spec fn total_spec(b: Seq<u8>) -> Option<int> {
    match num_spec(b, 0) {
        None => None,
        Some((n, i)) => if at(b, i, 0x3a) {
            clock_spec(b, n, i + 1)
        } else if at(b, i, 0x2d) {
            days_spec(b, n, i + 1)
        } else if i < b.len() && unit_spec(b[i]) is Some {
            let (r, m) = unit_spec(b[i])->0;
            if in64(n * m) {
                components_spec(b, i + 1, r, n * m)
            } else {
                None
            }
        } else {
            ends_with_spec(b, i, n)
        },
    }
}

/// What parsing a delta-time string returns.
pub open spec fn deltat_spec(s: Seq<char>) -> Result<i32, ProfileErrorV> {
    match total_spec(encode_utf8(s)) {
        Some(t) => if i32::MIN <= t <= i32::MAX {
            Ok(t as i32)
        } else {
            Err(ProfileErrorV::BadDeltat(s))
        },
        None => Err(ProfileErrorV::BadDeltat(s)),
    }
}

proof fn lemma_skip_spaces(b: Seq<u8>, i: int)
    requires
        0 <= i <= b.len(),
    ensures
        i <= skip_spaces(b, i) <= b.len(),
        skip_spaces(b, skip_spaces(b, i)) == skip_spaces(b, i),
    decreases b.len() - i,
{
    if i < b.len() && is_space(b[i]) {
        lemma_skip_spaces(b, i + 1);
    }
}

proof fn lemma_digits_end(b: Seq<u8>, i: int)
    requires
        0 <= i <= b.len(),
    ensures
        i <= digits_end(b, i) <= b.len(),
        forall|j: int| i <= j < digits_end(b, i) ==> is_digit(#[trigger] b[j]),
    decreases b.len() - i,
{
    if i < b.len() && is_digit(b[i]) {
        lemma_digits_end(b, i + 1);
    }
}

proof fn lemma_decimal_grows(b: Seq<u8>, i: int, j: int, e: int)
    requires
        0 <= i <= j <= e <= b.len(),
    ensures
        decimal(b, i, j) <= decimal(b, i, e),
    decreases e - j,
{
    if j < e {
        lemma_decimal_grows(b, i, j, e - 1);
    }
}

fn skip_ws(b: &[u8], i: usize) -> (r: usize)
    requires
        i <= b@.len(),
    ensures
        r == skip_spaces(b@, i as int),
        i <= r <= b@.len(),
{
    let mut k: usize = i;
    while k < b.len() && (b[k] == 0x20 || (b[k] >= 0x09 && b[k] <= 0x0d))
        invariant
            i <= k <= b@.len(),
            skip_spaces(b@, i as int) == skip_spaces(b@, k as int),
        decreases b@.len() - k,
    {
        k = k + 1;
    }
    k
}

/// The value of the digits from `s` on, if it fits, and where they end.
fn read_digits(b: &[u8], s: usize) -> (r: (Option<i64>, usize))
    requires
        s <= b@.len(),
    ensures
        match r.0 {
            Some(v) => r.1 == digits_end(b@, s as int) && v == decimal(b@, s as int, r.1 as int),
            None => !in64(decimal(b@, s as int, digits_end(b@, s as int)) as int),
        },
        s <= r.1 <= b@.len(),
{
    let mut e: usize = s;
    let mut v: i64 = 0;
    proof {
        lemma_digits_end(b@, s as int);
    }
    while e < b.len() && b[e] >= 0x30 && b[e] <= 0x39
        invariant
            s <= e <= digits_end(b@, s as int) <= b@.len(),
            digits_end(b@, s as int) == digits_end(b@, e as int),
            v == decimal(b@, s as int, e as int),
        decreases b@.len() - e,
    {
        let wide: i128 = v as i128 * 10 + (b[e] - 0x30) as i128;
        proof {
            lemma_digits_end(b@, e + 1);
            lemma_decimal_grows(b@, s as int, e + 1, digits_end(b@, s as int));
        }
        if wide > 0x7fff_ffff_ffff_ffff {
            return (None, e);
        }
        v = wide as i64;
        e = e + 1;
    }
    (Some(v), e)
}

fn num(b: &[u8], i: usize) -> (r: Option<(i64, usize)>)
    requires
        i <= b@.len(),
    ensures
        match r {
            Some((v, e)) => num_spec(b@, i as int) == Some((v as int, e as int)) && i <= e <= b@.len()
                && v > i64::MIN,
            None => num_spec(b@, i as int) is None,
        },
{
    let k: usize = skip_ws(b, i);
    let neg = k < b.len() && b[k] == 0x2d;
    let s: usize = if neg { k + 1 } else { k };
    match read_digits(b, s) {
        (None, _) => None,
        (Some(v), e) => {
            if e == s {
                return None;
            }
            Some((if neg { -v } else { v }, e))
        },
    }
}

fn num2(b: &[u8], i: usize) -> (r: Option<(i64, usize)>)
    requires
        i <= b@.len(),
    ensures
        match r {
            Some((v, e)) => num2_spec(b@, i as int) == Some((v as int, e as int)) && i <= e <= b@.len() && 0 <= v <= 99,
            None => num2_spec(b@, i as int) is None,
        },
{
    proof {
        lemma_digits_end(b@, i as int);
        reveal_with_fuel(digits_end, 4);
        reveal_with_fuel(decimal, 4);
    }
    let d0 = i < b.len() && b[i] >= 0x30 && b[i] <= 0x39;
    if !d0 {
        return None;
    }
    let d1 = i + 1 < b.len() && b[i + 1] >= 0x30 && b[i + 1] <= 0x39;
    let first: i64 = (b[i] - 0x30) as i64;
    if !d1 {
        return Some((first, i + 1));
    }
    let d2 = i + 2 < b.len() && b[i + 2] >= 0x30 && b[i + 2] <= 0x39;
    if d2 {
        proof {
            lemma_digits_end(b@, i + 3);
        }
        return None;
    }
    Some((first * 10 + (b[i + 1] - 0x30) as i64, i + 2))
}

fn unit_rank(b: u8) -> (r: Option<(u8, i64)>)
    ensures
        match r {
            Some((k, m)) => unit_spec(b) == Some((k as nat, m as int)) && k <= 3 && 1 <= m <= 86400,
            None => unit_spec(b) is None,
        },
{
    if b == 0x64 {
        Some((3, 86400))
    } else if b == 0x68 {
        Some((2, 3600))
    } else if b == 0x6d {
        Some((1, 60))
    } else if b == 0x73 {
        Some((0, 1))
    } else {
        None
    }
}

fn narrow(x: i128) -> (r: Option<i64>)
    ensures
        match r {
            Some(v) => v == x && in64(x as int),
            None => !in64(x as int),
        },
{
    if x < -0x8000_0000_0000_0000 || x > 0x7fff_ffff_ffff_ffff {
        None
    } else {
        Some(x as i64)
    }
}

fn components(b: &[u8], i: usize, rank: u8, total: i64) -> (r: Option<i64>)
    requires
        i <= b@.len(),
        rank <= 3,
    ensures
        match r {
            Some(t) => components_spec(b@, i as int, rank as nat, total as int) == Some(t as int),
            None => components_spec(b@, i as int, rank as nat, total as int) is None,
        },
    decreases rank,
{
    let k: usize = skip_ws(b, i);
    if k >= b.len() {
        return Some(total);
    }
    let (v, e) = match num(b, k) {
        Some(x) => x,
        None => return None,
    };
    if e >= b.len() {
        return None;
    }
    let (r, m) = match unit_rank(b[e]) {
        Some(x) => x,
        None => return None,
    };
    if r >= rank {
        return None;
    }
    proof {
        assert(v * m >= -0x8000_0000_0000_0000 * 86400 && v * m <= 0x7fff_ffff_ffff_ffff * 86400) by (nonlinear_arith)
            requires
                -0x8000_0000_0000_0000 <= v <= 0x7fff_ffff_ffff_ffff,
                1 <= m <= 86400,
        ;
    }
    let part: i64 = match narrow(v as i128 * m as i128) {
        Some(x) => x,
        None => return None,
    };
    let sum: i64 = match narrow(total as i128 + part as i128) {
        Some(x) => x,
        None => return None,
    };
    components(b, e + 1, r, sum)
}

fn only_spaces(b: &[u8], i: usize, t: i64) -> (r: Option<i64>)
    requires
        i <= b@.len(),
    ensures
        match r {
            Some(x) => ends_with_spec(b@, i as int, t as int) == Some(x as int),
            None => ends_with_spec(b@, i as int, t as int) is None,
        },
{
    if skip_ws(b, i) == b.len() { Some(t) } else { None }
}

fn clock(b: &[u8], n: i64, i: usize) -> (r: Option<i64>)
    requires
        i <= b@.len(),
    ensures
        match r {
            Some(x) => clock_spec(b@, n as int, i as int) == Some(x as int),
            None => clock_spec(b@, n as int, i as int) is None,
        },
{
    let (m, j) = match num2(b, i) {
        Some(x) => x,
        None => return None,
    };
    let (sec, k): (i64, usize) = if j < b.len() && b[j] == 0x3a {
        match num2(b, j + 1) {
            Some(x) => x,
            None => return None,
        }
    } else {
        (0, j)
    };
    let hours: i64 = match narrow(n as i128 * 3600) {
        Some(x) => x,
        None => return None,
    };
    let minutes: i64 = match narrow(hours as i128 + m as i128 * 60) {
        Some(x) => x,
        None => return None,
    };
    let total: i64 = match narrow(minutes as i128 + sec as i128) {
        Some(x) => x,
        None => return None,
    };
    only_spaces(b, k, total)
}

fn days(b: &[u8], n: i64, i: usize) -> (r: Option<i64>)
    requires
        i <= b@.len(),
    ensures
        match r {
            Some(x) => days_spec(b@, n as int, i as int) == Some(x as int),
            None => days_spec(b@, n as int, i as int) is None,
        },
{
    let (h, j) = match num2(b, i) {
        Some(x) => x,
        None => return None,
    };
    if j >= b.len() || b[j] != 0x3a {
        return None;
    }
    let (m, k) = match num2(b, j + 1) {
        Some(x) => x,
        None => return None,
    };
    if k >= b.len() || b[k] != 0x3a {
        return None;
    }
    let (sec, l) = match num2(b, k + 1) {
        Some(x) => x,
        None => return None,
    };
    let t0: i64 = match narrow(n as i128 * 86400) {
        Some(x) => x,
        None => return None,
    };
    let t1: i64 = match narrow(t0 as i128 + h as i128 * 3600) {
        Some(x) => x,
        None => return None,
    };
    let t2: i64 = match narrow(t1 as i128 + m as i128 * 60) {
        Some(x) => x,
        None => return None,
    };
    let total: i64 = match narrow(t2 as i128 + sec as i128) {
        Some(x) => x,
        None => return None,
    };
    only_spaces(b, l, total)
}

fn total_seconds(b: &[u8]) -> (r: Option<i64>)
    ensures
        match r {
            Some(x) => total_spec(b@) == Some(x as int),
            None => total_spec(b@) is None,
        },
{
    let (n, i) = match num(b, 0) {
        Some(x) => x,
        None => return None,
    };
    if i < b.len() && b[i] == 0x3a {
        return clock(b, n, i + 1);
    }
    if i < b.len() && b[i] == 0x2d {
        return days(b, n, i + 1);
    }
    if i < b.len() {
        match unit_rank(b[i]) {
            Some((rank, mul)) => {
                proof {
                    assert(n * mul >= -0x8000_0000_0000_0000 * 86400 && n * mul <= 0x7fff_ffff_ffff_ffff * 86400)
                        by (nonlinear_arith)
                        requires
                            -0x8000_0000_0000_0000 <= n <= 0x7fff_ffff_ffff_ffff,
                            1 <= mul <= 86400,
                    ;
                }
                return match narrow(n as i128 * mul as i128) {
                    Some(t) => components(b, i + 1, rank, t),
                    None => None,
                };
            },
            None => {},
        }
    }
    only_spaces(b, i, n)
}

/// Parse a delta-time string.
pub fn string_to_deltat(s: &str) -> (r: Result<i32, ProfileError>)
    ensures
        profile_outcome(r) == deltat_spec(s@),
{
    match total_seconds(s.as_bytes()) {
        Some(t) => {
            if t >= -0x8000_0000 && t <= 0x7fff_ffff {
                return Ok(t as i32);
            }
            Err(ProfileError::BadDeltat(text_of(&chars_of(s))))
        },
        None => Err(ProfileError::BadDeltat(text_of(&chars_of(s)))),
    }
}

} // verus!
