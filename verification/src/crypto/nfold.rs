//! The n-fold operation to 128 bits, and the key derivation
//! function DK built on it.
use vstd::prelude::*;

use crate::bytes::{concat, first_n, head};
use crate::crypto::primitives::{aes_enc, aes_encrypt_block};

verus! {

/// 256 to the power `n`.
pub open spec fn pow256(n: nat) -> nat
    decreases n,
{
    if n == 0 {
        1
    } else {
        256 * pow256((n - 1) as nat)
    }
}

/// The number whose big-endian octets are `s`.
pub open spec fn be_val(s: Seq<u8>) -> nat
    decreases s.len(),
{
    if s.len() == 0 {
        0
    } else {
        be_val(s.drop_last()) * 256 + s.last() as nat
    }
}

/// The `n` low big-endian octets of `x`.
pub open spec fn be_n(x: nat, n: nat) -> Seq<u8>
    decreases n,
{
    if n == 0 {
        Seq::empty()
    } else {
        be_n(x / 256, (n - 1) as nat).push((x % 256) as u8)
    }
}

/// 2 to the power `s`, for `s` up to 7.
pub open spec fn two_pow(s: int) -> int {
    if s == 0 { 1 } else if s == 1 { 2 } else if s == 2 { 4 } else if s == 3 { 8 }
    else if s == 4 { 16 } else if s == 5 { 32 } else if s == 6 { 64 } else { 128 }
}

/// The eight bits that start at bit `p` of `k`, read cyclically, bit 0 being
/// the most significant bit of the first octet.
pub open spec fn cyclic_octet(k: Seq<u8>, p: int) -> u8 {
    let a = p / 8;
    let b = (a + 1) % (k.len() as int);
    ((k[a] * 256 + k[b]) * two_pow(p % 8) / 256 % 256) as u8
}

/// Octet `i` of the copies of `k`, each rotated right by 13 bits more than
/// the one before.
pub open spec fn spread_octet(k: Seq<u8>, i: int) -> u8 {
    let n = k.len() as int;
    cyclic_octet(k, (8 * (i % n) - 13 * (i / n)) % (8 * n))
}

/// The greatest common divisor of `n` and 16.
pub open spec fn gcd16(n: int) -> int {
    if n % 16 == 0 { 16 } else if n % 8 == 0 { 8 } else if n % 4 == 0 { 4 }
    else if n % 2 == 0 { 2 } else { 1 }
}

/// The `t`-th 16-octet chunk of the spread copies, as a number.
pub open spec fn chunk(k: Seq<u8>, t: int) -> nat {
    be_val(Seq::new(16, |j: int| spread_octet(k, 16 * t + j)))
}

/// Ones'-complement addition of 128-bit numbers.
pub open spec fn ones_add(a: nat, b: nat) -> nat {
    if a + b < 0x1_0000_0000_0000_0000_0000_0000_0000_0000nat {
        a + b
    } else {
        (a + b - 0x1_0000_0000_0000_0000_0000_0000_0000_0000nat + 1) as nat
    }
}

/// The ones'-complement sum of the first `t` chunks.
pub open spec fn chunk_sum(k: Seq<u8>, t: nat) -> nat
    decreases t,
{
    if t == 0 {
        0
    } else {
        ones_add(chunk_sum(k, (t - 1) as nat), chunk(k, t - 1))
    }
}

/// 128-fold of `k`: the sum over lcm(length, 16) octets of rotated copies.
pub open spec fn nfold128(k: Seq<u8>) -> Seq<u8> {
    be_n(chunk_sum(k, (k.len() as int / gcd16(k.len() as int)) as nat), 16)
}

/// DK(key, constant): the constant, folded to a block, is encrypted over and
/// over; the first `len` octets are the derived key.
pub open spec fn dk_spec(key: Seq<u8>, constant: Seq<u8>, len: nat) -> Seq<u8> {
    let k1 = aes_enc(key, nfold128(constant));
    head(k1 + aes_enc(key, k1), len)
}

proof fn lemma_pow256(n: nat)
    requires
        n <= 16,
    ensures
        pow256(16) == 0x1_0000_0000_0000_0000_0000_0000_0000_0000nat,
        pow256(n) >= 1,
        n < 16 ==> 256 * pow256(n) <= pow256(16),
    decreases 16 - n,
{
    reveal_with_fuel(pow256, 17);
    if n < 15 {
        lemma_pow256(n + 1);
    }
    lemma_pow256_pos(n);
}

proof fn lemma_pow256_pos(n: nat)
    ensures
        pow256(n) >= 1,
    decreases n,
{
    if n > 0 {
        lemma_pow256_pos((n - 1) as nat);
    }
}

fn shift_factor(s: u32) -> (r: u32)
    requires
        s < 8,
    ensures
        r == two_pow(s as int),
        1 <= r <= 128,
{
    if s == 0 { 1 } else if s == 1 { 2 } else if s == 2 { 4 } else if s == 3 { 8 }
    else if s == 4 { 16 } else if s == 5 { 32 } else if s == 6 { 64 } else { 128 }
}

fn spread(k: &[u8], i: usize) -> (r: u8)
    requires
        1 <= k@.len() <= 0x100,
        i <= 0x2000,
    ensures
        r == spread_octet(k@, i as int),
{
    let n: usize = k.len();
    let bits: usize = 8 * n;
    let turn: usize = 13 * (i / n) % bits;
    assert(i / n <= i) by (nonlinear_arith)
        requires
            n >= 1,
            i >= 0,
    ;
    let start: usize = 8 * (i % n);
    let p: usize = if start >= turn { start - turn } else { start + bits - turn };
    proof {
        let c = (i / n) as int;
        let x = 8 * (i as int % n as int) - 13 * c;
        // p and x differ by a multiple of the bit count, and p is in range.
        let q = 13 * c / (bits as int);
        assert(13 * c == bits as int * q + turn) by {
            vstd::arithmetic::div_mod::lemma_fundamental_div_mod(13 * c, bits as int);
        }
        if start >= turn {
            assert(x == p as int + bits as int * (-q)) by (nonlinear_arith)
                requires
                    x == start as int - 13 * c,
                    13 * c == bits as int * q + turn,
                    p as int == start - turn,
            ;
            vstd::arithmetic::div_mod::lemma_fundamental_div_mod_converse(x, bits as int, -q, p as int);
        } else {
            assert(x == p as int + bits as int * (-q - 1)) by (nonlinear_arith)
                requires
                    x == start as int - 13 * c,
                    13 * c == bits as int * q + turn,
                    p as int == start + bits - turn,
            ;
            vstd::arithmetic::div_mod::lemma_fundamental_div_mod_converse(x, bits as int, -q - 1, p as int);
        }
    }
    let a: usize = p / 8;
    let b: usize = (a + 1) % n;
    let w: u32 = k[a] as u32 * 256 + k[b] as u32;
    let f: u32 = shift_factor((p % 8) as u32);
    assert(w * f <= 0xffff * 128) by (nonlinear_arith)
        requires
            w <= 0xffff,
            f <= 128,
    ;
    (w * f / 256 % 256) as u8
}

fn chunk_value(k: &[u8], t: usize) -> (r: u128)
    requires
        1 <= k@.len() <= 0x100,
        t < 0x100,
    ensures
        r == chunk(k@, t as int),
{
    let ghost full = Seq::new(16, |j: int| spread_octet(k@, 16 * t + j));
    let mut v: u128 = 0;
    let mut j: usize = 0;
    while j < 16
        invariant
            1 <= k@.len() <= 0x100,
            t < 0x100,
            j <= 16,
            full == Seq::new(16, |j: int| spread_octet(k@, 16 * t + j)),
            v == be_val(full.subrange(0, j as int)),
            v < pow256(j as nat),
        decreases 16 - j,
    {
        let b: u8 = spread(k, 16 * t + j);
        proof {
            lemma_pow256(j as nat);
            let s = full.subrange(0, j + 1);
            assert(s.drop_last() =~= full.subrange(0, j as int));
            assert(s.last() == b);
            assert(pow256((j + 1) as nat) == 256 * pow256(j as nat));
        }
        v = v * 256 + b as u128;
        j = j + 1;
    }
    assert(full.subrange(0, 16) =~= full);
    v
}

fn octets_of(x: u128) -> (r: Vec<u8>)
    ensures
        r@ == be_n(x as nat, 16),
        r@.len() == 16,
{
    let mut low: Vec<u8> = Vec::new();
    let mut y: u128 = x;
    let mut j: usize = 0;
    while j < 16
        invariant
            j <= 16,
            low@.len() == j,
            be_n(x as nat, 16) == be_n(y as nat, (16 - j) as nat) + low@.reverse(),
        decreases 16 - j,
    {
        let ghost before = low@;
        let b: u8 = (y % 256) as u8;
        low.push(b);
        proof {
            let rest = be_n((y / 256) as nat, (15 - j) as nat);
            assert(be_n(y as nat, (16 - j) as nat) == rest.push(b));
            assert(rest.push(b) + before.reverse() =~= rest + low@.reverse());
        }
        y = y / 256;
        j = j + 1;
    }
    let mut r: Vec<u8> = Vec::new();
    let mut i: usize = 16;
    while i > 0
        invariant
            i <= 16,
            low@.len() == 16,
            r@ == low@.reverse().subrange(0, 16 - i),
        decreases i,
    {
        i = i - 1;
        r.push(low[i]);
        assert(r@ =~= low@.reverse().subrange(0, 16 - i));
    }
    assert(r@ =~= low@.reverse());
    assert(be_n(x as nat, 16) =~= r@);
    r
}

/// 128-fold of a constant of 1 to 256 octets.
pub fn nfold(k: &[u8]) -> (r: Vec<u8>)
    requires
        1 <= k@.len() <= 0x100,
    ensures
        r@ == nfold128(k@),
        r@.len() == 16,
{
    let n: usize = k.len();
    let g: usize = if n % 16 == 0 { 16 } else if n % 8 == 0 { 8 } else if n % 4 == 0 { 4 }
    else if n % 2 == 0 { 2 } else { 1 };
    let count: usize = n / g;
    assert(count <= n) by (nonlinear_arith)
        requires
            g >= 1,
            count == n / g,
    ;
    let mut sum: u128 = 0;
    let mut t: usize = 0;
    while t < count
        invariant
            1 <= k@.len() <= 0x100,
            count <= k@.len(),
            t <= count,
            sum == chunk_sum(k@, t as nat),
        decreases count - t,
    {
        let c: u128 = chunk_value(k, t);
        sum = match sum.checked_add(c) {
            Some(s) => s,
            None => {
                let room: u128 = u128::MAX - sum;
                c - room
            },
        };
        t = t + 1;
    }
    octets_of(sum)
}

/// DK for a key and derived key of 16 or 32 octets each.
pub fn dk(key: &[u8], constant: &[u8], len: usize) -> (r: Vec<u8>)
    requires
        key@.len() == 16 || key@.len() == 32,
        1 <= constant@.len() <= 0x100,
        len <= 32,
    ensures
        r@ == dk_spec(key@, constant@, len as nat),
        r@.len() == len,
{
    let k1 = aes_encrypt_block(key, &nfold(constant));
    let k2 = aes_encrypt_block(key, &k1);
    let both = concat(&k1, &k2);
    first_n(&both, len)
}

} // verus!
