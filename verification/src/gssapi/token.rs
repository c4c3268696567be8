//! Generic token framing.
use vstd::prelude::*;

use crate::bytes::{append, be16, put_be16};
use crate::crypto::nfold::pow256;
use crate::der::{be_min, lemma_be_min, len_octets, parse_len, put_len, read_len};

verus! {

/// How many octets a value of `n` octets takes up with its framing.
pub open spec fn value_len(n: nat) -> nat {
    1 + n + if n < 0x80 { 1nat } else if n <= 0xff { 2 } else if n <= 0xffff { 3 } else { 4 }
}

/// The octets of an optional token identifier.
pub open spec fn id_octets(tok_id: Option<u16>) -> Seq<u8> {
    match tok_id {
        Some(id) => be16(id),
        None => Seq::empty(),
    }
}

/// The framing of a token with `body_len` octets behind it.
pub open spec fn header_spec(mech: Seq<u8>, body_len: nat, tok_id: Option<u16>) -> Seq<u8> {
    seq![0x60u8] + len_octets(value_len(mech.len()) + body_len + id_octets(tok_id).len()) + seq![0x06u8]
        + len_octets(mech.len()) + mech + id_octets(tok_id)
}

/// A length of at most four octets behind its count.
pub open spec fn token_len(s: Seq<u8>, i: int) -> Option<(nat, int)> {
    if i < s.len() && s[i] > 0x84 {
        None
    } else {
        read_len(s, i)
    }
}

/// The mechanism and the body of a framed token.
pub open spec fn parse_header_spec(tok: Seq<u8>) -> Option<(Seq<u8>, Seq<u8>)> {
    if tok.len() == 0 || tok[0] != 0x60 {
        None
    } else {
        match token_len(tok, 1) {
            None => None,
            Some((n, p)) => if p + n != tok.len() || p >= tok.len() || tok[p] != 0x06 {
                None
            } else {
                match token_len(tok, p + 1) {
                    None => None,
                    Some((k, q)) => if q + k > tok.len() {
                        None
                    } else {
                        Some((tok.subrange(q, q + k), tok.skip(q + k)))
                    },
                }
            },
        }
    }
}

/// Build the generic token framing: `0x60` application tag wrapping
/// `0x06`-tagged mechanism OID, followed by an optional two-byte big-endian
/// token identifier.
pub fn make_token_header(mech: &[u8], body_len: usize, tok_id: Option<u16>) -> (r: Vec<u8>)
    requires
        value_len(mech@.len()) + body_len + id_octets(tok_id).len() <= usize::MAX,
    ensures
        r@ == header_spec(mech@, body_len as nat, tok_id),
{
    let tok_len: usize = if tok_id.is_some() { 2 } else { 0 };
    let n: usize = mech.len();
    let extra: usize = if n < 0x80 { 1 } else if n <= 0xff { 2 } else if n <= 0xffff { 3 } else { 4 };
    let mut out: Vec<u8> = Vec::new();
    out.push(0x60);
    put_len(&mut out, 1 + n + extra + body_len + tok_len);
    out.push(0x06);
    put_len(&mut out, n);
    append(&mut out, mech);
    match tok_id {
        Some(id) => put_be16(&mut out, id),
        None => {},
    }
    assert(out@ =~= header_spec(mech@, body_len as nat, tok_id));
    out
}

/// A token: its framing, its identifier and its body.
pub(crate) fn frame_token(mech: &[u8], tok_id: u16, body: &[u8]) -> (r: Vec<u8>)
    requires
        mech@.len() < 0x80,
    ensures
        r@ == header_spec(mech@, body@.len(), Some(tok_id)) + body@,
{
    let mut inner: Vec<u8> = Vec::new();
    inner.push(0x06);
    put_len(&mut inner, mech.len());
    append(&mut inner, mech);
    put_be16(&mut inner, tok_id);
    append(&mut inner, body);
    let mut out: Vec<u8> = Vec::new();
    out.push(0x60);
    put_len(&mut out, inner.len());
    append(&mut out, &inner);
    assert(out@ =~= header_spec(mech@, body@.len(), Some(tok_id)) + body@);
    out
}

/// Parse a generic token header, returning the mechanism OID bytes and the
/// token body (everything after the framing). Returns None if the framing is
/// malformed or the indicated token length does not equal `tok.len()`.
pub fn parse_token_header(tok: &[u8]) -> (r: Option<(&[u8], &[u8])>)
    ensures
        match r {
            Some((m, b)) => parse_header_spec(tok@) == Some((m@, b@)),
            None => parse_header_spec(tok@) is None,
        },
{
    if tok.len() < 2 || tok[0] != 0x60 || tok[1] > 0x84 {
        return None;
    }
    let (n, p) = match parse_len(tok, 1) {
        Some(x) => x,
        None => return None,
    };
    if n != tok.len() - p || p >= tok.len() || tok[p] != 0x06 {
        return None;
    }
    if p + 1 >= tok.len() || tok[p + 1] > 0x84 {
        return None;
    }
    let (k, q) = match parse_len(tok, p + 1) {
        Some(x) => x,
        None => return None,
    };
    if k > tok.len() - q {
        return None;
    }
    let body = vstd::slice::slice_subrange(tok, q + k, tok.len());
    assert(body@ =~= tok@.skip(q + k));
    Some((vstd::slice::slice_subrange(tok, q, q + k), body))
}

proof fn lemma_len_octets(s: Seq<u8>, i: int, n: nat)
    requires
        0 <= i,
        i + len_octets(n).len() <= s.len(),
        s.subrange(i, i + len_octets(n).len()) == len_octets(n),
        n < 0x1_0000_0000,
    ensures
        token_len(s, i) == Some((n, i + len_octets(n).len())),
{
    let o = len_octets(n);
    assert(s[i] == s.subrange(i, i + o.len())[0]);
    if n >= 128 {
        lemma_be_min(n);
        reveal_with_fuel(pow256, 6);
        assert(be_min(n).len() <= 4) by {
            reveal_with_fuel(be_min, 5);
        }
        assert(s.subrange(i + 1, i + 1 + be_min(n).len()) =~= be_min(n)) by {
            assert forall|j: int| 0 <= j < be_min(n).len() implies s[i + 1 + j] == be_min(n)[j] by {
                assert(s.subrange(i, i + o.len())[1 + j] == o[1 + j]);
            }
        }
    }
}

/// A framed token reads back: the parser finds the mechanism, and behind the
/// framing the token identifier and the body. It holds of mechanism OIDs
/// below 2^24 octets and tokens whose length fits four octets, the most that
/// the framing can carry.
pub proof fn law_token_round_trip(mech: Seq<u8>, tok_id: Option<u16>, body: Seq<u8>)
    requires
        mech.len() < 0x100_0000,
        value_len(mech.len()) + body.len() + id_octets(tok_id).len() < 0x1_0000_0000,
    ensures
        parse_header_spec(header_spec(mech, body.len(), tok_id) + body) == Some((mech, id_octets(tok_id) + body)),
{
    let n = value_len(mech.len()) + body.len() + id_octets(tok_id).len();
    let tok = header_spec(mech, body.len(), tok_id) + body;
    let p = 1 + len_octets(n).len() as int;
    assert(tok.subrange(1, p) =~= len_octets(n));
    lemma_len_octets(tok, 1, n);
    let q = p + 1 + len_octets(mech.len()).len();
    assert(tok[p] == 0x06);
    assert(tok.subrange(p + 1, q) =~= len_octets(mech.len()));
    lemma_len_octets(tok, p + 1, mech.len());
    assert(len_octets(mech.len()).len() == value_len(mech.len()) - 1 - mech.len()) by {
        reveal_with_fuel(be_min, 5);
    }
    assert(tok.subrange(q, q + mech.len()) =~= mech);
    assert(tok.skip(q + mech.len()) =~= id_octets(tok_id) + body);
    assert(p + n == tok.len());
}

} // verus!
