//! Byte-sequence helpers: fixed-width integers in both byte orders, slicing,
//! concatenation and comparison.
use vstd::prelude::*;

verus! {

/// The two big-endian octets of `x`.
pub open spec fn be16(x: u16) -> Seq<u8> {
    seq![(x / 0x100) as u8, (x % 0x100) as u8]
}

/// The two little-endian octets of `x`.
pub open spec fn le16(x: u16) -> Seq<u8> {
    seq![(x % 0x100) as u8, (x / 0x100) as u8]
}

/// The four big-endian octets of `x`.
pub open spec fn be32(x: u32) -> Seq<u8> {
    seq![
        (x / 0x100_0000) as u8,
        (x / 0x1_0000 % 0x100) as u8,
        (x / 0x100 % 0x100) as u8,
        (x % 0x100) as u8,
    ]
}

/// The four little-endian octets of `x`.
pub open spec fn le32(x: u32) -> Seq<u8> {
    seq![
        (x % 0x100) as u8,
        (x / 0x100 % 0x100) as u8,
        (x / 0x1_0000 % 0x100) as u8,
        (x / 0x100_0000) as u8,
    ]
}

/// The eight big-endian octets of `x`.
pub open spec fn be64(x: u64) -> Seq<u8> {
    be32((x / 0x1_0000_0000) as u32) + be32((x % 0x1_0000_0000) as u32)
}

/// The number whose big-endian octets are the two at `i`.
pub open spec fn get_be16(s: Seq<u8>, i: int) -> u16 {
    (s[i] * 0x100 + s[i + 1]) as u16
}

/// The number whose little-endian octets are the two at `i`.
pub open spec fn get_le16(s: Seq<u8>, i: int) -> u16 {
    (s[i] + s[i + 1] * 0x100) as u16
}

/// The number whose big-endian octets are the four at `i`.
pub open spec fn get_be32(s: Seq<u8>, i: int) -> u32 {
    (s[i] * 0x100_0000 + s[i + 1] * 0x1_0000 + s[i + 2] * 0x100 + s[i + 3]) as u32
}

/// The number whose little-endian octets are the four at `i`.
pub open spec fn get_le32(s: Seq<u8>, i: int) -> u32 {
    (s[i] + s[i + 1] * 0x100 + s[i + 2] * 0x1_0000 + s[i + 3] * 0x100_0000) as u32
}

/// The number whose big-endian octets are the eight at `i`.
pub open spec fn get_be64(s: Seq<u8>, i: int) -> u64 {
    (get_be32(s, i) * 0x1_0000_0000 + get_be32(s, i + 4)) as u64
}

/// The two's-complement bit pattern of `x`.
pub open spec fn u32_of(x: i32) -> u32 {
    if x >= 0 {
        x as u32
    } else {
        (x + 0x1_0000_0000) as u32
    }
}

/// The number whose two's-complement bit pattern is `x`.
pub open spec fn i32_of(x: u32) -> i32 {
    if x < 0x8000_0000 {
        x as i32
    } else {
        (x - 0x1_0000_0000) as i32
    }
}

/// The number whose two's-complement bit pattern is `x`.
pub open spec fn i16_of(x: u16) -> i16 {
    if x < 0x8000 {
        x as i16
    } else {
        (x - 0x1_0000) as i16
    }
}

/// The first `n` elements of `s`, a sequence of exactly `n` elements.
pub open spec fn head(s: Seq<u8>, n: nat) -> Seq<u8> {
    Seq::new(n, |i: int| s[i])
}

/// `n` zero octets.
pub open spec fn zeros(n: nat) -> Seq<u8> {
    Seq::new(n, |i: int| 0u8)
}

/// Reading a written number gives it back, in both widths and byte orders.
pub proof fn lemma_word_round_trip(a: u16, b: u32, c: u64)
    ensures
        get_be16(be16(a), 0) == a,
        get_le16(le16(a), 0) == a,
        get_be32(be32(b), 0) == b,
        get_le32(le32(b), 0) == b,
        get_be64(be64(c), 0) == c,
        i32_of(b) as int == (if b < 0x8000_0000 { b as int } else { b - 0x1_0000_0000 }),
        u32_of(i32_of(b)) == b,
{
    let hi = (c / 0x1_0000_0000) as u32;
    let lo = (c % 0x1_0000_0000) as u32;
    assert(get_be32(be32(hi), 0) == hi);
    assert(get_be32(be32(lo), 0) == lo);
    let s = be64(c);
    assert(s[0] == be32(hi)[0] && s[1] == be32(hi)[1] && s[2] == be32(hi)[2] && s[3] == be32(hi)[3]);
    assert(s[4] == be32(lo)[0] && s[5] == be32(lo)[1] && s[6] == be32(lo)[2] && s[7] == be32(lo)[3]);
}

/// Appends `s` to `v`.
pub fn append(v: &mut Vec<u8>, s: &[u8])
    ensures
        final(v)@ == old(v)@ + s@,
{
    v.extend_from_slice(s);
    assert(v@ =~= old(v)@ + s@);
}

/// The bytes of `s` from `i` up to `j`.
pub fn cut(s: &[u8], i: usize, j: usize) -> (r: Vec<u8>)
    requires
        i <= j <= s@.len(),
    ensures
        r@ == s@.subrange(i as int, j as int),
{
    vstd::slice::slice_to_vec(vstd::slice::slice_subrange(s, i, j))
}

/// A copy of `s`.
pub fn copy(s: &[u8]) -> (r: Vec<u8>)
    ensures
        r@ == s@,
{
    vstd::slice::slice_to_vec(s)
}

/// `a` followed by `b`.
pub fn concat(a: &[u8], b: &[u8]) -> (r: Vec<u8>)
    ensures
        r@ == a@ + b@,
{
    let mut r = copy(a);
    append(&mut r, b);
    r
}

/// Whether `a` and `b` hold the same bytes.
pub fn same(a: &[u8], b: &[u8]) -> (r: bool)
    ensures
        r == (a@ == b@),
{
    if a.len() != b.len() {
        return false;
    }
    let mut i: usize = 0;
    while i < a.len()
        invariant
            a@.len() == b@.len(),
            i <= a@.len(),
            forall|j: int| 0 <= j < i ==> a@[j] == b@[j],
        decreases a@.len() - i,
    {
        if a[i] != b[i] {
            return false;
        }
        i = i + 1;
    }
    assert(a@ =~= b@);
    true
}

/// Appends the two big-endian octets of `x`.
pub fn put_be16(v: &mut Vec<u8>, x: u16)
    ensures
        final(v)@ == old(v)@ + be16(x),
{
    v.push((x / 0x100) as u8);
    v.push((x % 0x100) as u8);
    assert(v@ =~= old(v)@ + be16(x));
}

/// Appends the two little-endian octets of `x`.
pub fn put_le16(v: &mut Vec<u8>, x: u16)
    ensures
        final(v)@ == old(v)@ + le16(x),
{
    v.push((x % 0x100) as u8);
    v.push((x / 0x100) as u8);
    assert(v@ =~= old(v)@ + le16(x));
}

/// Appends the four big-endian octets of `x`.
pub fn put_be32(v: &mut Vec<u8>, x: u32)
    ensures
        final(v)@ == old(v)@ + be32(x),
{
    v.push((x / 0x100_0000) as u8);
    v.push((x / 0x1_0000 % 0x100) as u8);
    v.push((x / 0x100 % 0x100) as u8);
    v.push((x % 0x100) as u8);
    assert(v@ =~= old(v)@ + be32(x));
}

/// Appends the four little-endian octets of `x`.
pub fn put_le32(v: &mut Vec<u8>, x: u32)
    ensures
        final(v)@ == old(v)@ + le32(x),
{
    v.push((x % 0x100) as u8);
    v.push((x / 0x100 % 0x100) as u8);
    v.push((x / 0x1_0000 % 0x100) as u8);
    v.push((x / 0x100_0000) as u8);
    assert(v@ =~= old(v)@ + le32(x));
}

/// Appends the eight big-endian octets of `x`.
pub fn put_be64(v: &mut Vec<u8>, x: u64)
    ensures
        final(v)@ == old(v)@ + be64(x),
{
    put_be32(v, (x / 0x1_0000_0000) as u32);
    put_be32(v, (x % 0x1_0000_0000) as u32);
    assert(v@ =~= old(v)@ + be64(x));
}

/// Reads two big-endian octets at `i`.
pub fn read_be16(s: &[u8], i: usize) -> (r: u16)
    requires
        i + 2 <= s.len(),
    ensures
        r == get_be16(s@, i as int),
{
    s[i] as u16 * 0x100 + s[i + 1] as u16
}

/// Reads two little-endian octets at `i`.
pub fn read_le16(s: &[u8], i: usize) -> (r: u16)
    requires
        i + 2 <= s.len(),
    ensures
        r == get_le16(s@, i as int),
{
    s[i] as u16 + s[i + 1] as u16 * 0x100
}

/// Reads four big-endian octets at `i`.
pub fn read_be32(s: &[u8], i: usize) -> (r: u32)
    requires
        i + 4 <= s.len(),
    ensures
        r == get_be32(s@, i as int),
{
    s[i] as u32 * 0x100_0000 + s[i + 1] as u32 * 0x1_0000 + s[i + 2] as u32 * 0x100 + s[i + 3] as u32
}

/// Reads four little-endian octets at `i`.
pub fn read_le32(s: &[u8], i: usize) -> (r: u32)
    requires
        i + 4 <= s.len(),
    ensures
        r == get_le32(s@, i as int),
{
    s[i] as u32 + s[i + 1] as u32 * 0x100 + s[i + 2] as u32 * 0x1_0000 + s[i + 3] as u32 * 0x100_0000
}

/// Reads eight big-endian octets at `i`.
pub fn read_be64(s: &[u8], i: usize) -> (r: u64)
    requires
        i + 8 <= s.len(),
    ensures
        r == get_be64(s@, i as int),
{
    let hi: u32 = read_be32(s, i);
    let lo: u32 = read_be32(s, i + 4);
    hi as u64 * 0x1_0000_0000 + lo as u64
}

/// The two's-complement bit pattern of `x`.
pub fn to_u32(x: i32) -> (r: u32)
    ensures
        r == u32_of(x),
{
    if x >= 0 {
        x as u32
    } else {
        (x as i64 + 0x1_0000_0000) as u32
    }
}

/// The number whose two's-complement bit pattern is `x`.
pub fn to_i32(x: u32) -> (r: i32)
    ensures
        r == i32_of(x),
{
    if x < 0x8000_0000 {
        x as i32
    } else {
        (x as i64 - 0x1_0000_0000) as i32
    }
}

/// The number whose two's-complement bit pattern is `x`.
pub fn to_i16(x: u16) -> (r: i16)
    ensures
        r == i16_of(x),
{
    if x < 0x8000 {
        x as i16
    } else {
        (x as i32 - 0x1_0000) as i16
    }
}

/// `n` zero octets.
pub fn zero_bytes(n: usize) -> (r: Vec<u8>)
    ensures
        r@ == zeros(n as nat),
{
    let mut r: Vec<u8> = Vec::new();
    let mut i: usize = 0;
    while i < n
        invariant
            i <= n,
            r@ == zeros(i as nat),
        decreases n - i,
    {
        r.push(0);
        i = i + 1;
        assert(r@ =~= zeros(i as nat));
    }
    r
}

/// The first `n` bytes of `s`.
pub fn first_n(s: &[u8], n: usize) -> (r: Vec<u8>)
    requires
        n <= s@.len(),
    ensures
        r@ == head(s@, n as nat),
{
    let r = cut(s, 0, n);
    assert(r@ =~= head(s@, n as nat));
    r
}

} // verus!
