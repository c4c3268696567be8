//! AES in CBC mode with ciphertext stealing (CBC-CS3), zero
//! initial vector.
use vstd::prelude::*;

use crate::bytes::{append, cut, zeros, zero_bytes};
use crate::crypto::primitives::{aes_decrypt_block, aes_encrypt_block, aes_dec, aes_enc};
use crate::crypto::CryptoError;

verus! {

/// Octet-wise exclusive or of two sequences, as long as the first.
pub open spec fn xor_seq(a: Seq<u8>, b: Seq<u8>) -> Seq<u8> {
    Seq::new(a.len(), |i: int| a[i] ^ b[i])
}

/// CBC encryption of the whole blocks of `p`, with initial vector `iv`.
pub open spec fn cbc_enc(key: Seq<u8>, iv: Seq<u8>, p: Seq<u8>) -> Seq<u8>
    decreases p.len(),
{
    if p.len() < 16 {
        Seq::empty()
    } else {
        let c = aes_enc(key, xor_seq(p.subrange(0, 16), iv));
        c + cbc_enc(key, c, p.skip(16))
    }
}

/// CBC decryption of the whole blocks of `c`, with initial vector `iv`.
pub open spec fn cbc_dec(key: Seq<u8>, iv: Seq<u8>, c: Seq<u8>) -> Seq<u8>
    decreases c.len(),
{
    if c.len() < 16 {
        Seq::empty()
    } else {
        let b = c.subrange(0, 16);
        xor_seq(aes_dec(key, b), iv) + cbc_dec(key, b, c.skip(16))
    }
}

/// How many octets the last block of `n` octets holds, 1 to 16.
pub open spec fn tail_len(n: nat) -> nat
    recommends
        n >= 1,
{
    ((n - 1) % 16 + 1) as nat
}

/// `p` with zero octets up to a whole number of blocks.
pub open spec fn pad_zero(p: Seq<u8>) -> Seq<u8> {
    p + zeros((16 - tail_len(p.len())) as nat)
}

/// Ciphertext stealing: swaps the last two blocks of `c` and cuts to `n`
/// octets; one block stays as it is.
pub open spec fn steal(c: Seq<u8>, n: nat) -> Seq<u8> {
    if c.len() <= 16 {
        c
    } else {
        let m = c.len() - 16;
        c.subrange(0, m - 16) + c.subrange(m, m + 16) + c.subrange(m - 16, m - 16 + tail_len(n))
    }
}

/// CTS encryption of at least one block.
pub open spec fn cts_enc(key: Seq<u8>, p: Seq<u8>) -> Seq<u8> {
    steal(cbc_enc(key, zeros(16), pad_zero(p)), p.len())
}

/// The CBC ciphertext that `y` was stolen from: the octets cut off the last
/// but one block are those of the deciphered last block.
pub open spec fn unsteal(key: Seq<u8>, y: Seq<u8>) -> Seq<u8> {
    if y.len() <= 16 {
        y
    } else {
        let t = tail_len(y.len());
        let m = y.len() - t;
        let last = y.subrange(m - 16, m);
        y.subrange(0, m - 16) + y.subrange(m, m + t) + aes_dec(key, last).subrange(t as int, 16) + last
    }
}

/// CTS decryption of at least one block.
pub open spec fn cts_dec(key: Seq<u8>, y: Seq<u8>) -> Seq<u8> {
    cbc_dec(key, zeros(16), unsteal(key, y)).subrange(0, y.len() as int)
}

proof fn lemma_xor_back(a: Seq<u8>, b: Seq<u8>)
    requires
        a.len() == b.len(),
    ensures
        xor_seq(xor_seq(a, b), b) == a,
{
    assert forall|i: int| 0 <= i < a.len() implies xor_seq(xor_seq(a, b), b)[i] == a[i] by {
        let x = a[i];
        let y = b[i];
        assert((x ^ y) ^ y == x) by (bit_vector);
    }
    assert(xor_seq(xor_seq(a, b), b) =~= a);
}

proof fn lemma_xor_zero(a: u8)
    ensures
        0u8 ^ a == a,
        a ^ 0u8 == a,
{
    assert(0u8 ^ a == a) by (bit_vector);
    assert(a ^ 0u8 == a) by (bit_vector);
}

/// Whether inverse AES takes back every block that CBC encryption of `p`
/// feeds to AES.
spec fn blocks_invertible(key: Seq<u8>, iv: Seq<u8>, p: Seq<u8>) -> bool
    decreases p.len(),
{
    p.len() >= 16 ==> {
        let x = xor_seq(p.subrange(0, 16), iv);
        let c = aes_enc(key, x);
        c.len() == 16 && aes_dec(key, c) == x && blocks_invertible(key, c, p.skip(16))
    }
}

proof fn lemma_cbc_len(key: Seq<u8>, iv: Seq<u8>, p: Seq<u8>)
    requires
        blocks_invertible(key, iv, p),
    ensures
        cbc_enc(key, iv, p).len() == p.len() - p.len() % 16,
    decreases p.len(),
{
    if p.len() >= 16 {
        let c = aes_enc(key, xor_seq(p.subrange(0, 16), iv));
        lemma_cbc_len(key, c, p.skip(16));
    }
}

proof fn lemma_cbc_round_trip(key: Seq<u8>, iv: Seq<u8>, p: Seq<u8>)
    requires
        blocks_invertible(key, iv, p),
        iv.len() == 16,
        p.len() % 16 == 0,
    ensures
        cbc_dec(key, iv, cbc_enc(key, iv, p)) == p,
    decreases p.len(),
{
    if p.len() >= 16 {
        let b = p.subrange(0, 16);
        let c = aes_enc(key, xor_seq(b, iv));
        let rest = cbc_enc(key, c, p.skip(16));
        let e = cbc_enc(key, iv, p);
        lemma_cbc_round_trip(key, c, p.skip(16));
        assert(e.subrange(0, 16) =~= c);
        assert(e.skip(16) =~= rest);
        lemma_xor_back(b, iv);
        assert(cbc_dec(key, iv, e) == b + p.skip(16));
        assert(b + p.skip(16) =~= p);
    } else {
        assert(cbc_enc(key, iv, p) =~= Seq::empty());
        assert(p =~= Seq::empty());
    }
}

/// The last block of a CBC encryption deciphers to the exclusive or of the
/// last plaintext block and the ciphertext block before it.
proof fn lemma_cbc_last(key: Seq<u8>, iv: Seq<u8>, p: Seq<u8>)
    requires
        blocks_invertible(key, iv, p),
        iv.len() == 16,
        p.len() % 16 == 0,
        p.len() >= 32,
    ensures
        ({
            let e = cbc_enc(key, iv, p);
            let n = p.len() as int;
            &&& e.len() == n
            &&& aes_dec(key, e.subrange(n - 16, n)) == xor_seq(
                p.subrange(n - 16, n),
                e.subrange(n - 32, n - 16),
            )
        }),
    decreases p.len(),
{
    lemma_cbc_len(key, iv, p);
    let n = p.len() as int;
    let b = p.subrange(0, 16);
    let c = aes_enc(key, xor_seq(b, iv));
    let q = p.skip(16);
    let rest = cbc_enc(key, c, q);
    let e = cbc_enc(key, iv, p);
    lemma_cbc_len(key, c, q);
    assert(e.subrange(0, 16) =~= c);
    assert(e.skip(16) =~= rest);
    if n == 32 {
        let x = xor_seq(q.subrange(0, 16), c);
        let d = aes_enc(key, x);
        assert(rest =~= d + cbc_enc(key, d, q.skip(16)));
        assert(cbc_enc(key, d, q.skip(16)) =~= Seq::empty());
        assert(blocks_invertible(key, c, q));
        assert(e.subrange(16, 32) =~= d);
        assert(e.subrange(0, 16) =~= c);
        assert(p.subrange(16, 32) =~= q.subrange(0, 16));
        assert(aes_dec(key, d) == x);
    } else {
        lemma_cbc_last(key, c, q);
        assert(e.subrange(n - 16, n) =~= rest.subrange(n - 32, n - 16));
        assert(e.subrange(n - 32, n - 16) =~= rest.subrange(n - 48, n - 32));
        assert(p.subrange(n - 16, n) =~= q.subrange(n - 32, n - 16));
    }
}

proof fn lemma_cts_round_trip(key: Seq<u8>, p: Seq<u8>)
    requires
        p.len() >= 16,
        blocks_invertible(key, zeros(16), pad_zero(p)),
    ensures
        cts_enc(key, p).len() == p.len(),
        cts_dec(key, cts_enc(key, p)) == p,
{
    let q = pad_zero(p);
    let iv = zeros(16);
    let e = cbc_enc(key, iv, q);
    let n = p.len() as int;
    let t = tail_len(p.len()) as int;
    assert(q.len() == n + 16 - t);
    assert(q.len() % 16 == 0);
    lemma_cbc_len(key, iv, q);
    lemma_cbc_round_trip(key, iv, q);
    let y = cts_enc(key, p);
    if e.len() <= 16 {
        assert(n == 16);
        assert(y == e);
        assert(unsteal(key, y) == e);
    } else {
        let m = e.len() - 16;
        assert(m == n - t);
        assert(y.len() == n);
        lemma_cbc_last(key, iv, q);
        let last = e.subrange(m, m + 16);
        let prev = e.subrange(m - 16, m);
        assert(y.subrange(m - 16, m) =~= last);
        assert(y.subrange(0, m - 16) =~= e.subrange(0, m - 16));
        assert(y.subrange(m, m + t) =~= prev.subrange(0, t));
        let d = aes_dec(key, last);
        assert(d == xor_seq(q.subrange(m, m + 16), prev));
        assert forall|i: int| t <= i < 16 implies d[i] == prev[i] by {
            assert(q.subrange(m, m + 16)[i] == 0);
            lemma_xor_zero(prev[i]);
        }
        assert(unsteal(key, y) =~= e);
    }
    assert(cbc_dec(key, iv, unsteal(key, y)) == q);
    assert(q.subrange(0, n) =~= p);
}

/// Encrypts `data`, at least one block, under a 16- or 32-octet key. What
/// comes out decrypts to `data` again.
pub fn aes_cts_encrypt(key: &[u8], data: &[u8]) -> (r: Result<Vec<u8>, CryptoError>)
    ensures
        match r {
            Ok(c) => {
                &&& key@.len() == 16 || key@.len() == 32
                &&& data@.len() >= 16
                &&& c@ == cts_enc(key@, data@)
                &&& c@.len() == data@.len()
                &&& cts_dec(key@, c@) == data@
            },
            Err(e) => {
                ||| e == CryptoError::BadKeySize && key@.len() != 16 && key@.len() != 32
                ||| e == CryptoError::InputTooShort && (key@.len() == 16 || key@.len() == 32) && data@.len() < 16
            },
        },
{
    if key.len() != 16 && key.len() != 32 {
        return Err(CryptoError::BadKeySize);
    }
    if data.len() < 16 {
        return Err(CryptoError::InputTooShort);
    }
    let n: usize = data.len();
    let t: usize = (n - 1) % 16 + 1;
    let mut q = zero_bytes(0);
    append(&mut q, data);
    append(&mut q, &zero_bytes(16 - t));
    assert(q@ =~= pad_zero(data@));
    let total: usize = q.len();
    let mut out: Vec<u8> = Vec::new();
    let mut prev = zero_bytes(16);
    let mut i: usize = 0;
    assert(q@.skip(0) =~= q@);
    assert(out@ + cbc_enc(key@, prev@, q@) =~= cbc_enc(key@, zeros(16), q@));
    while i < total
        invariant
            key@.len() == 16 || key@.len() == 32,
            q@ == pad_zero(data@),
            total == q@.len(),
            total % 16 == 0,
            i % 16 == 0,
            i <= total,
            prev@.len() == 16,
            out@.len() == i,
            out@ + cbc_enc(key@, prev@, q@.skip(i as int)) == cbc_enc(key@, zeros(16), q@),
            blocks_invertible(key@, prev@, q@.skip(i as int)) ==> blocks_invertible(
                key@,
                zeros(16),
                q@,
            ),
        decreases total - i,
    {
        let ghost rest = q@.skip(i as int);
        let mut x: Vec<u8> = Vec::new();
        let mut j: usize = 0;
        while j < 16
            invariant
                j <= 16,
                i + 16 <= q.len(),
                prev@.len() == 16,
                x@.len() == j,
                forall|k: int| 0 <= k < j ==> x@[k] == q@[i + k] ^ prev@[k],
            decreases 16 - j,
        {
            x.push(q[i + j] ^ prev[j]);
            j = j + 1;
        }
        assert(x@ =~= xor_seq(rest.subrange(0, 16), prev@));
        let c = aes_encrypt_block(key, &x);
        append(&mut out, &c);
        proof {
            assert(rest.skip(16) =~= q@.skip(i + 16));
            let tail = cbc_enc(key@, c@, rest.skip(16));
            assert(cbc_enc(key@, prev@, rest) == c@ + tail);
        }
        prev = c;
        i = i + 16;
        assert(out@ + cbc_enc(key@, prev@, q@.skip(i as int)) =~= cbc_enc(key@, zeros(16), q@));
    }
    proof {
        assert(q@.skip(i as int) =~= Seq::empty());
        assert(out@ =~= cbc_enc(key@, zeros(16), q@));
        lemma_cts_round_trip(key@, data@);
    }
    if total <= 16 {
        return Ok(out);
    }
    let m: usize = total - 16;
    let mut r = cut(&out, 0, m - 16);
    append(&mut r, &cut(&out, m, m + 16));
    append(&mut r, &cut(&out, m - 16, m - 16 + t));
    assert(r@ =~= cts_enc(key@, data@));
    Ok(r)
}

/// The CBC ciphertext behind a stolen one.
fn undo_steal(key: &[u8], data: &[u8]) -> (q: Vec<u8>)
    requires
        key@.len() == 16 || key@.len() == 32,
        data@.len() >= 16,
    ensures
        q@ == unsteal(key@, data@),
        q@.len() % 16 == 0,
        q@.len() >= data@.len(),
{
    let n: usize = data.len();
    let mut q: Vec<u8> = Vec::new();
    if n <= 16 {
        append(&mut q, data);
    } else {
        let t: usize = (n - 1) % 16 + 1;
        let m: usize = n - t;
        let last = cut(data, m - 16, m);
        let d = aes_decrypt_block(key, &last);
        append(&mut q, &cut(data, 0, m - 16));
        append(&mut q, &cut(data, m, m + t));
        append(&mut q, &cut(&d, t, 16));
        append(&mut q, &last);
    }
    assert(q@ =~= unsteal(key@, data@));
    q
}

/// CBC decryption of whole blocks.
fn cbc_decrypt(key: &[u8], q: &[u8]) -> (out: Vec<u8>)
    requires
        key@.len() == 16 || key@.len() == 32,
        q@.len() % 16 == 0,
    ensures
        out@ == cbc_dec(key@, zeros(16), q@),
        out@.len() == q@.len(),
{
    let total: usize = q.len();
    let mut out: Vec<u8> = Vec::new();
    let mut prev = zero_bytes(16);
    let mut i: usize = 0;
    assert(q@.skip(0) =~= q@);
    assert(out@ + cbc_dec(key@, prev@, q@) =~= cbc_dec(key@, zeros(16), q@));
    while i < total
        invariant
            key@.len() == 16 || key@.len() == 32,
            total == q@.len(),
            total % 16 == 0,
            i % 16 == 0,
            i <= total,
            prev@.len() == 16,
            out@.len() == i,
            out@ + cbc_dec(key@, prev@, q@.skip(i as int)) == cbc_dec(key@, zeros(16), q@),
        decreases total - i,
    {
        let ghost rest = q@.skip(i as int);
        let c = cut(q, i, i + 16);
        let d = aes_decrypt_block(key, &c);
        assert(c@ =~= rest.subrange(0, 16));
        let ghost before = out@;
        let mut j: usize = 0;
        while j < 16
            invariant
                j <= 16,
                prev@.len() == 16,
                d@.len() == 16,
                out@.len() == before.len() + j,
                forall|k: int| 0 <= k < before.len() ==> out@[k] == before[k],
                forall|k: int| before.len() <= k < before.len() + j ==> #[trigger] out@[k] == d@[k
                    - before.len()] ^ prev@[k - before.len()],
            decreases 16 - j,
        {
            out.push(d[j] ^ prev[j]);
            j = j + 1;
        }
        assert(out@ =~= before + xor_seq(d@, prev@));
        proof {
            assert(rest.skip(16) =~= q@.skip(i + 16));
            let tail = cbc_dec(key@, c@, rest.skip(16));
            assert(cbc_dec(key@, prev@, rest) == xor_seq(d@, prev@) + tail);
            assert(before + (xor_seq(d@, prev@) + tail) =~= out@ + tail);
        }
        prev = c;
        i = i + 16;
    }
    assert(q@.skip(i as int) =~= Seq::empty());
    assert(out@ =~= cbc_dec(key@, zeros(16), q@));
    out
}

/// Decrypts `data`, at least one block, under a 16- or 32-octet key.
pub fn aes_cts_decrypt(key: &[u8], data: &[u8]) -> (r: Result<Vec<u8>, CryptoError>)
    ensures
        match r {
            Ok(p) => {
                &&& key@.len() == 16 || key@.len() == 32
                &&& data@.len() >= 16
                &&& p@ == cts_dec(key@, data@)
                &&& p@.len() == data@.len()
            },
            Err(e) => {
                ||| e == CryptoError::BadKeySize && key@.len() != 16 && key@.len() != 32
                ||| e == CryptoError::InputTooShort && (key@.len() == 16 || key@.len() == 32) && data@.len() < 16
            },
        },
{
    if key.len() != 16 && key.len() != 32 {
        return Err(CryptoError::BadKeySize);
    }
    if data.len() < 16 {
        return Err(CryptoError::InputTooShort);
    }
    let q = undo_steal(key, data);
    let mut out = cbc_decrypt(key, &q);
    out.truncate(data.len());
    Ok(out)
}

} // verus!
