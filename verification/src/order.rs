//! The two byte orders of numbers in files, and reading and writing in either.
use vstd::prelude::*;

use crate::bytes::{be16, be32, get_be16, get_be32, get_le16, get_le32, i16_of, le16, le32, put_be16, put_be32, put_le16, put_le32, read_be16, read_be32, read_le16, read_le32, to_i16};

verus! {

/// The order of the octets of a number.
#[derive(Debug, Clone, Copy, PartialEq, Eq, Structural)]
pub enum ByteOrder {
    /// Most significant first.
    Big,
    /// Least significant first.
    Little,
}

/// `u16::from_ne_bytes`: the number whose octets in the machine's own order
/// are `a`, `b`. Which order that is the contract leaves open.
#[verifier::external_body]
fn native_u16(a: u8, b: u8) -> (r: u16)
    ensures
        r == a * 256 + b || r == b * 256 + a,
{
    u16::from_ne_bytes([a, b])
}

/// The machine's own order.
pub(crate) fn native_order() -> ByteOrder {
    if native_u16(1, 0) == 1 { ByteOrder::Little } else { ByteOrder::Big }
}

/// The 16-bit number at the start of `s`.
pub open spec fn word16(o: ByteOrder, s: Seq<u8>) -> i16 {
    i16_of(if o == ByteOrder::Big { get_be16(s, 0) } else { get_le16(s, 0) })
}

/// The 32-bit number at the start of `s`.
pub open spec fn word32(o: ByteOrder, s: Seq<u8>) -> u32 {
    if o == ByteOrder::Big { get_be32(s, 0) } else { get_le32(s, 0) }
}

/// The octets of a 16-bit number.
pub open spec fn octets16(o: ByteOrder, x: u16) -> Seq<u8> {
    if o == ByteOrder::Big { be16(x) } else { le16(x) }
}

/// The octets of a 32-bit number.
pub open spec fn octets32(o: ByteOrder, x: u32) -> Seq<u8> {
    if o == ByteOrder::Big { be32(x) } else { le32(x) }
}

/// The bytes of `s` from `n` on.
pub fn tail<'a>(s: &'a [u8], n: usize) -> (r: &'a [u8])
    requires
        n <= s@.len(),
    ensures
        r@ == s@.skip(n as int),
{
    let r = vstd::slice::slice_subrange(s, n, s.len());
    assert(r@ =~= s@.skip(n as int));
    r
}

/// Reads the 32-bit number at the start of `s`.
pub fn read_word32(o: ByteOrder, s: &[u8]) -> (r: u32)
    requires
        s@.len() >= 4,
    ensures
        r == word32(o, s@),
{
    if o == ByteOrder::Big { read_be32(s, 0) } else { read_le32(s, 0) }
}

/// Reads the 16-bit number at the start of `s`.
pub fn read_word16(o: ByteOrder, s: &[u8]) -> (r: i16)
    requires
        s@.len() >= 2,
    ensures
        r == word16(o, s@),
{
    let w: u16 = if o == ByteOrder::Big { read_be16(s, 0) } else { read_le16(s, 0) };
    to_i16(w)
}

/// Appends the octets of a 16-bit number.
pub fn put_word16(v: &mut Vec<u8>, o: ByteOrder, x: u16)
    ensures
        final(v)@ == old(v)@ + octets16(o, x),
{
    if o == ByteOrder::Big {
        put_be16(v, x)
    } else {
        put_le16(v, x)
    }
}

/// Appends the octets of a 32-bit number.
pub fn put_word32(v: &mut Vec<u8>, o: ByteOrder, x: u32)
    ensures
        final(v)@ == old(v)@ + octets32(o, x),
{
    if o == ByteOrder::Big {
        put_be32(v, x)
    } else {
        put_le32(v, x)
    }
}

} // verus!
