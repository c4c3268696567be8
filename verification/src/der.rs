//! DER: tag-length-value encodings, explicitly tagged fields, and the basic
//! ASN.1 types the Kerberos messages are made of.
use vstd::prelude::*;

use crate::bytes::{append, cut};
use crate::crypto::nfold::{be_val, pow256};

verus! {

/// An optional value, by its view.
pub open spec fn opt_view<T: View>(o: Option<T>) -> Option<T::V> {
    match o {
        Some(x) => Some(x@),
        None => None,
    }
}

/// A list, by the views of its items.
pub open spec fn list_view<T: View>(s: Seq<T>) -> Seq<T::V> {
    Seq::new(s.len(), |i: int| s[i]@)
}

/// Optional encodings, as sequences.
pub open spec fn fields_view(fs: Seq<Option<Vec<u8>>>) -> Seq<Option<Seq<u8>>> {
    Seq::new(fs.len(), |i: int| opt_view(fs[i]))
}

/// The fewest big-endian octets of `n`.
pub open spec fn be_min(n: nat) -> Seq<u8>
    decreases n,
{
    if n < 256 {
        seq![n as u8]
    } else {
        be_min(n / 256).push((n % 256) as u8)
    }
}

/// The length octets of `n`: one for a length below 128, else a count and
/// the big-endian length.
pub open spec fn len_octets(n: nat) -> Seq<u8> {
    if n < 128 {
        seq![n as u8]
    } else {
        seq![(0x80 + be_min(n).len()) as u8] + be_min(n)
    }
}

/// The encoding of `content` under the identifier octet `tag`.
pub open spec fn tlv(tag: u8, content: Seq<u8>) -> Seq<u8> {
    seq![tag] + len_octets(content.len()) + content
}

/// The length that the octets at `i` announce, and where they end.
pub open spec fn read_len(s: Seq<u8>, i: int) -> Option<(nat, int)> {
    if i >= s.len() {
        None
    } else if s[i] < 0x80 {
        Some((s[i] as nat, i + 1))
    } else {
        let k = s[i] - 0x80;
        if k == 0 || k == 0x7f || i + 1 + k > s.len() {
            None
        } else {
            Some((be_val(s.subrange(i + 1, i + 1 + k)), i + 1 + k))
        }
    }
}

/// The value at the start of `s`: its identifier octet and where its content
/// starts and ends. Identifiers of several octets and end-of-contents marks
/// are not values.
pub open spec fn read_tlv(s: Seq<u8>) -> Option<(u8, int, int)> {
    if s.len() == 0 || s[0] % 32 == 31 || s[0] == 0 {
        None
    } else {
        match read_len(s, 1) {
            None => None,
            Some((n, start)) => if start + n <= s.len() {
                Some((s[0], start, start + n))
            } else {
                None
            },
        }
    }
}

/// The content of `s` when it is exactly one value under `tag`.
pub open spec fn untag(s: Seq<u8>, tag: u8) -> Option<Seq<u8>> {
    match read_tlv(s) {
        Some((t, a, b)) => if t == tag && b == s.len() {
            Some(s.subrange(a, b))
        } else {
            None
        },
        None => None,
    }
}

/// The present fields of `fs`, field `i` under the context tag `base + i`.
pub open spec fn ctx_fields(fs: Seq<Option<Seq<u8>>>, base: nat) -> Seq<u8>
    decreases fs.len(),
{
    if fs.len() == 0 {
        Seq::empty()
    } else {
        (match fs[0] {
            Some(f) => tlv((0xA0 + base) as u8, f),
            None => Seq::empty(),
        }) + ctx_fields(fs.drop_first(), base + 1)
    }
}

/// The fields under the context tags `base` up to `base + n` that make up
/// `s`, in ascending order, each optional.
pub open spec fn split_fields(s: Seq<u8>, base: nat, n: nat) -> Option<Seq<Option<Seq<u8>>>>
    decreases n,
{
    if n == 0 {
        if s.len() == 0 {
            Some(Seq::empty())
        } else {
            None
        }
    } else {
        match read_tlv(s) {
            Some((tag, a, b)) if tag == 0xA0 + base => match split_fields(
                s.skip(b),
                base + 1,
                (n - 1) as nat,
            ) {
                Some(rest) => Some(seq![Some(s.subrange(a, b))] + rest),
                None => None,
            },
            _ => match split_fields(s, base + 1, (n - 1) as nat) {
                Some(rest) => Some(seq![None] + rest),
                None => None,
            },
        }
    }
}

/// A SEQUENCE of tagged fields.
pub open spec fn sequence(fs: Seq<Option<Seq<u8>>>) -> Seq<u8> {
    tlv(0x30, ctx_fields(fs, 0))
}

/// The `n` tagged fields of a SEQUENCE.
pub open spec fn sequence_fields(s: Seq<u8>, n: nat) -> Option<Seq<Option<Seq<u8>>>> {
    match untag(s, 0x30) {
        Some(c) => split_fields(c, 0, n),
        None => None,
    }
}

/// The encodings of a SEQUENCE OF, one after another.
pub open spec fn joined(items: Seq<Seq<u8>>) -> Seq<u8>
    decreases items.len(),
{
    if items.len() == 0 {
        Seq::empty()
    } else {
        items[0] + joined(items.drop_first())
    }
}

/// The values that make up `s`.
pub open spec fn split_items(s: Seq<u8>) -> Option<Seq<Seq<u8>>>
    decreases s.len(),
{
    if s.len() == 0 {
        Some(Seq::empty())
    } else {
        match read_tlv(s) {
            None => None,
            Some((_, _, b)) => if b <= 0 {
                None
            } else {
                match split_items(s.skip(b)) {
                    None => None,
                    Some(rest) => Some(seq![s.subrange(0, b)] + rest),
                }
            },
        }
    }
}

pub proof fn lemma_be_min(n: nat)
    ensures
        be_val(be_min(n)) == n,
        1 <= be_min(n).len(),
        n < 0x1_0000_0000_0000_0000 ==> be_min(n).len() <= 8,
    decreases n,
{
    if n < 256 {
        reveal_with_fuel(be_val, 2);
        let s = be_min(n);
        assert(s.drop_last() =~= Seq::empty());
    } else {
        lemma_be_min(n / 256);
        let s = be_min(n);
        assert(s.drop_last() =~= be_min(n / 256));
        if n < 0x1_0000_0000_0000_0000 {
            reveal_with_fuel(pow256, 9);
            lemma_be_min_len(n, 8);
        }
    }
}

proof fn lemma_be_min_len(n: nat, k: nat)
    requires
        n < pow256(k),
        k >= 1,
    ensures
        be_min(n).len() <= k,
    decreases n,
{
    if n >= 256 {
        assert(pow256(1) == 256) by {
            reveal_with_fuel(pow256, 2);
        }
        if k == 1 {
            assert(false);
        }
        assert(pow256(k) == 256 * pow256((k - 1) as nat));
        assert(n / 256 < pow256((k - 1) as nat));
        lemma_be_min_len(n / 256, (k - 1) as nat);
    }
}

/// Where a value at the start of a sequence lies.
pub proof fn lemma_read_tlv(tag: u8, c: Seq<u8>, rest: Seq<u8>)
    requires
        tag % 32 != 31,
        tag != 0,
        c.len() < 0x1_0000_0000_0000_0000,
    ensures
        ({
            let s = tlv(tag, c) + rest;
            &&& read_tlv(s) == Some((tag, tlv(tag, c).len() - c.len(), tlv(tag, c).len() as int))
            &&& s.subrange(tlv(tag, c).len() - c.len(), tlv(tag, c).len() as int) == c
            &&& s.skip(tlv(tag, c).len() as int) == rest
        }),
{
    let n = c.len();
    let v = tlv(tag, c);
    let s = v + rest;
    let h = len_octets(n);
    reveal_with_fuel(pow256, 9);
    lemma_be_min(n);
    assert(s[1] == h[0]);
    if n >= 128 {
        let k = be_min(n).len();
        assert(k <= 8);
        assert(s.subrange(2, 2 + k as int) =~= be_min(n));
    }
    assert(s.subrange(v.len() - n, v.len() as int) =~= c);
    assert(s.skip(v.len() as int) =~= rest);
}

/// Untagging what was tagged.
pub proof fn lemma_untag(tag: u8, c: Seq<u8>)
    requires
        tag % 32 != 31,
        tag != 0,
        c.len() < 0x1_0000_0000_0000_0000,
    ensures
        untag(tlv(tag, c), tag) == Some(c),
{
    lemma_read_tlv(tag, c, Seq::empty());
    assert(tlv(tag, c) + Seq::empty() =~= tlv(tag, c));
}

proof fn lemma_fields_first(fs: Seq<Option<Seq<u8>>>, base: nat)
    requires
        base + fs.len() <= 31,
    ensures
        ctx_fields(fs, base).len() == 0 || ctx_fields(fs, base)[0] >= 0xA0 + base,
    decreases fs.len(),
{
    if fs.len() > 0 {
        lemma_fields_first(fs.drop_first(), base + 1);
        if fs[0] is Some {
            assert(tlv((0xA0 + base) as u8, fs[0]->0)[0] == 0xA0 + base);
        } else {
            assert(ctx_fields(fs, base) =~= ctx_fields(fs.drop_first(), base + 1));
        }
    }
}

/// Splitting joined fields gives the fields back.
pub proof fn lemma_split_fields(fs: Seq<Option<Seq<u8>>>, base: nat)
    requires
        base + fs.len() <= 31,
        ctx_fields(fs, base).len() < 0x1_0000_0000_0000_0000,
    ensures
        split_fields(ctx_fields(fs, base), base, fs.len()) == Some(fs),
    decreases fs.len(),
{
    let s = ctx_fields(fs, base);
    if fs.len() == 0 {
        assert(fs =~= Seq::empty());
    } else {
        let rest = ctx_fields(fs.drop_first(), base + 1);
        lemma_fields_first(fs.drop_first(), base + 1);
        match fs[0] {
            Some(f) => {
                lemma_read_tlv((0xA0 + base) as u8, f, rest);
                lemma_split_fields(fs.drop_first(), base + 1);
                assert(seq![Some(f)] + fs.drop_first() =~= fs);
            },
            None => {
                assert(s =~= rest);
                lemma_split_fields(fs.drop_first(), base + 1);
                assert(seq![None] + fs.drop_first() =~= fs);
            },
        }
    }
}

/// The fields of a SEQUENCE are those it was made of.
pub proof fn lemma_sequence_fields(fs: Seq<Option<Seq<u8>>>)
    requires
        fs.len() <= 31,
        ctx_fields(fs, 0).len() < 0x1_0000_0000_0000_0000,
    ensures
        sequence_fields(sequence(fs), fs.len()) == Some(fs),
{
    lemma_untag(0x30, ctx_fields(fs, 0));
    lemma_split_fields(fs, 0);
}

/// The number in the `k` big-endian octets at `i`, unless it is more than
/// the length of `s`.
pub fn octets_within(s: &[u8], i: usize, k: usize) -> (r: Option<usize>)
    requires
        i + k <= s@.len(),
    ensures
        match r {
            Some(n) => n == be_val(s@.subrange(i as int, i + k)) && n <= s@.len(),
            None => be_val(s@.subrange(i as int, i + k)) > s@.len(),
        },
{
    let total: usize = s.len();
    let mut n: usize = 0;
    let mut j: usize = 0;
    let ghost octets = s@.subrange(i as int, i + k);
    while j < k
        invariant
            j <= k,
            total == s@.len(),
            i + k <= s.len(),
            octets == s@.subrange(i as int, i + k),
            n == be_val(octets.subrange(0, j as int)),
            n <= total,
        decreases k - j,
    {
        proof {
            let t = octets.subrange(0, j + 1);
            assert(t.drop_last() =~= octets.subrange(0, j as int));
            lemma_be_val_grows(octets, (j + 1) as nat);
        }
        let wide: u128 = n as u128 * 256 + s[i + j] as u128;
        if wide > total as u128 {
            return None;
        }
        n = wide as usize;
        j = j + 1;
    }
    assert(octets.subrange(0, k as int) =~= octets);
    Some(n)
}

/// Reads length octets at `i`.
pub fn parse_len(s: &[u8], i: usize) -> (r: Option<(usize, usize)>)
    ensures
        match r {
            Some((n, next)) => read_len(s@, i as int) == Some((n as nat, next as int)) && next <= s@.len(),
            None => match read_len(s@, i as int) {
                None => true,
                Some((n, next)) => next + n > s@.len(),
            },
        },
{
    if i >= s.len() {
        return None;
    }
    let b: u8 = s[i];
    if b < 0x80 {
        return Some((b as usize, i + 1));
    }
    let k: usize = (b - 0x80) as usize;
    if k == 0 || k == 0x7f || k > s.len() - i - 1 {
        return None;
    }
    match octets_within(s, i + 1, k) {
        Some(n) => Some((n, i + 1 + k)),
        None => None,
    }
}

/// The value of a prefix is no more than that of the whole.
proof fn lemma_be_val_grows(s: Seq<u8>, k: nat)
    requires
        k <= s.len(),
    ensures
        be_val(s.subrange(0, k as int)) <= be_val(s),
    decreases s.len() - k,
{
    if k == s.len() {
        assert(s.subrange(0, k as int) =~= s);
    } else {
        lemma_be_val_grows(s, k + 1);
        let t = s.subrange(0, k as int + 1);
        assert(t.drop_last() =~= s.subrange(0, k as int));
    }
}

/// Reads the value at the start of `s`.
pub fn parse_tlv(s: &[u8]) -> (r: Option<(u8, usize, usize)>)
    ensures
        match r {
            Some((tag, a, b)) => read_tlv(s@) == Some((tag, a as int, b as int)) && 2 <= a <= b <= s@.len(),
            None => read_tlv(s@) is None,
        },
{
    if s.len() == 0 || s[0] % 32 == 31 || s[0] == 0 {
        return None;
    }
    match parse_len(s, 1) {
        None => None,
        Some((n, start)) => {
            if n > s.len() - start {
                None
            } else {
                Some((s[0], start, start + n))
            }
        },
    }
}

/// The content of `s` when it is exactly one value under `tag`.
pub fn strip_tag(s: &[u8], tag: u8) -> (r: Option<&[u8]>)
    ensures
        match r {
            Some(c) => untag(s@, tag) == Some(c@),
            None => untag(s@, tag) is None,
        },
{
    match parse_tlv(s) {
        Some((t, a, b)) => {
            if t == tag && b == s.len() {
                Some(vstd::slice::slice_subrange(s, a, b))
            } else {
                None
            }
        },
        None => None,
    }
}

fn put_be_min(out: &mut Vec<u8>, n: usize) -> (k: usize)
    ensures
        final(out)@ == old(out)@ + be_min(n as nat),
        k == be_min(n as nat).len(),
    decreases n,
{
    if n < 256 {
        out.push(n as u8);
        assert(out@ =~= old(out)@ + be_min(n as nat));
        1
    } else {
        let k: usize = put_be_min(out, n / 256);
        out.push((n % 256) as u8);
        assert(out@ =~= old(out)@ + be_min(n as nat));
        proof {
            reveal_with_fuel(pow256, 9);
            lemma_be_min(n as nat);
        }
        k + 1
    }
}

/// Appends the length octets of `n`.
pub fn put_len(out: &mut Vec<u8>, n: usize)
    ensures
        final(out)@ == old(out)@ + len_octets(n as nat),
{
    if n < 128 {
        out.push(n as u8);
        assert(out@ =~= old(out)@ + len_octets(n as nat));
    } else {
        let mut low: Vec<u8> = Vec::new();
        let k: usize = put_be_min(&mut low, n);
        proof {
            reveal_with_fuel(pow256, 9);
            lemma_be_min(n as nat);
        }
        out.push((0x80 + k) as u8);
        append(out, &low);
        assert(low@ =~= be_min(n as nat));
        assert(out@ =~= old(out)@ + len_octets(n as nat));
    }
}

/// The encoding of `content` under `tag`.
pub fn make_tlv(tag: u8, content: &[u8]) -> (r: Vec<u8>)
    ensures
        r@ == tlv(tag, content@),
{
    let mut r: Vec<u8> = Vec::new();
    r.push(tag);
    put_len(&mut r, content.len());
    append(&mut r, content);
    assert(r@ =~= tlv(tag, content@));
    r
}

/// A SEQUENCE of the given tagged fields. Its fields are read back.
pub fn make_sequence(fs: &Vec<Option<Vec<u8>>>) -> (r: Vec<u8>)
    requires
        fs@.len() <= 31,
    ensures
        r@ == sequence(fields_view(fs@)),
        ctx_fields(fields_view(fs@), 0).len() < 0x1_0000_0000_0000_0000,
        sequence_fields(r@, fs@.len()) == Some(fields_view(fs@)),
{
    let mut out: Vec<u8> = Vec::new();
    let ghost all = fields_view(fs@);
    let mut i: usize = 0;
    assert(all.skip(0) =~= all);
    assert(out@ + ctx_fields(all, 0) =~= ctx_fields(all, 0));
    while i < fs.len()
        invariant
            fs@.len() <= 31,
            all == fields_view(fs@),
            i <= fs@.len(),
            out@ + ctx_fields(all.skip(i as int), i as nat) == ctx_fields(all, 0),
        decreases fs@.len() - i,
    {
        let ghost before = out@;
        let ghost rest = all.skip(i as int);
        assert(rest.drop_first() =~= all.skip(i + 1));
        assert(rest[0] == all[i as int]);
        match &fs[i] {
            Some(f) => {
                let t = make_tlv(0xA0 + i as u8, f);
                append(&mut out, &t);
                assert(out@ + ctx_fields(all.skip(i + 1), (i + 1) as nat) =~= before + ctx_fields(rest, i as nat));
            },
            None => {
                assert(ctx_fields(rest, i as nat) =~= ctx_fields(all.skip(i + 1), (i + 1) as nat));
            },
        }
        i = i + 1;
    }
    assert(all.skip(i as int) =~= Seq::empty());
    assert(out@ =~= ctx_fields(all, 0));
    proof {
        assert(out.len() <= usize::MAX);
        lemma_sequence_fields(all);
    }
    make_tlv(0x30, &out)
}

/// The `n` tagged fields of a SEQUENCE.
pub fn parse_sequence(s: &[u8], n: usize) -> (r: Option<Vec<Option<Vec<u8>>>>)
    requires
        n <= 31,
    ensures
        match r {
            Some(fs) => sequence_fields(s@, n as nat) == Some(fields_view(fs@)) && fs@.len() == n,
            None => sequence_fields(s@, n as nat) is None,
        },
{
    let c = match strip_tag(s, 0x30) {
        Some(c) => c,
        None => return None,
    };
    let mut fs: Vec<Option<Vec<u8>>> = Vec::new();
    let mut pos: usize = 0;
    let mut i: usize = 0;
    assert(c@.skip(0) =~= c@);
    proof {
        match split_fields(c@, 0, n as nat) {
            Some(r) => assert(fields_view(fs@) + r =~= r),
            None => {},
        }
    }
    while i < n
        invariant
            n <= 31,
            i <= n,
            pos <= c@.len(),
            fs@.len() == i,
            split_fields(c@, 0, n as nat) == (match split_fields(
                c@.skip(pos as int),
                i as nat,
                (n - i) as nat,
            ) {
                Some(r) => Some(fields_view(fs@) + r),
                None => None,
            }),
        decreases n - i,
    {
        let rest = vstd::slice::slice_subrange(c, pos, c.len());
        assert(rest@ =~= c@.skip(pos as int));
        let ghost before = fields_view(fs@);
        let mut step: usize = 0;
        let mut found: Option<Vec<u8>> = None;
        match parse_tlv(rest) {
            Some((tag, a, b)) => {
                if tag == 0xA0 + i as u8 {
                    found = Some(cut(rest, a, b));
                    step = b;
                }
            },
            None => {},
        }
        assert(rest@.skip(step as int) =~= c@.skip(pos + step));
        proof {
            if step == 0 {
                assert(rest@.skip(0) =~= rest@);
            }
        }
        let ghost fv = opt_view(found);
        fs.push(found);
        assert(fields_view(fs@) =~= before.push(fv));
        proof {
            let k = (n - i - 1) as nat;
            assert(split_fields(rest@, i as nat, (n - i) as nat) == (match split_fields(
                rest@.skip(step as int),
                (i + 1) as nat,
                k,
            ) {
                Some(r) => Some(seq![fv] + r),
                None => None,
            }));
            match split_fields(c@.skip(pos + step), (i + 1) as nat, k) {
                Some(r) => {
                    assert(before + (seq![fv] + r) =~= fields_view(fs@) + r);
                },
                None => {},
            }
        }
        pos = pos + step;
        i = i + 1;
    }
    if pos != c.len() {
        return None;
    }
    assert(c@.skip(pos as int) =~= Seq::empty());
    assert(fields_view(fs@) + Seq::empty() =~= fields_view(fs@));
    Some(fs)
}

} // verus!
