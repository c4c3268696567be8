//! ASN.1 values with a DER form, and the basic types among them.
use vstd::prelude::*;

use crate::bytes::{append, be32, copy, cut, get_be32, put_be32, read_be32, same};
use crate::crypto::nfold::pow256;
use crate::der::{joined, lemma_read_tlv, lemma_untag, list_view, make_tlv, opt_view, parse_tlv, split_items, strip_tag, tlv, untag};
use crate::time::{time_der, time_parse, KerberosTime, TimeV};

verus! {

/// Whether `s` is one whole encoded value.
pub open spec fn is_value(s: Seq<u8>) -> bool {
    exists|tag: u8, c: Seq<u8>| #[trigger]
        tlv(tag, c) == s && tag % 32 != 31 && tag != 0 && c.len() < 0x1_0000_0000_0000_0000
}

/// A type whose values have a DER encoding.
pub trait Asn1: Sized + View {
    /// The encoding of a value.
    spec fn der(v: Self::V) -> Seq<u8>;

    /// The value that `s` encodes, if it does encode one.
    spec fn parse(s: Seq<u8>) -> Option<Self::V>;

    /// Encodes this value. Decoding gives it back.
    fn encode(&self) -> (r: Vec<u8>)
        ensures
            r@ == Self::der(self@),
            is_value(r@),
            Self::parse(r@) == Some(self@),
    ;

    /// Decodes a value that takes up all of `s`.
    fn decode(s: &[u8]) -> (r: Option<Self>)
        ensures
            opt_view(r) == Self::parse(s@),
    ;
}

/// The `k` low octets of `x` in two's complement, most significant first.
pub open spec fn int_octets(x: int, k: nat) -> Seq<u8>
    decreases k,
{
    if k == 0 {
        Seq::empty()
    } else {
        int_octets(x / 0x100, (k - 1) as nat).push((x % 0x100) as u8)
    }
}

/// How many octets hold `x` in two's complement, up to five.
pub open spec fn int_width(x: int) -> nat {
    if -0x80 <= x < 0x80 {
        1
    } else if -0x8000 <= x < 0x8000 {
        2
    } else if -0x80_0000 <= x < 0x80_0000 {
        3
    } else if -0x8000_0000 <= x < 0x8000_0000 {
        4
    } else {
        5
    }
}

/// The content octets of the integer `x`: two's complement, as few as hold it.
pub open spec fn int_content(x: int) -> Seq<u8> {
    int_octets(x, int_width(x))
}

/// The integer that content octets stand for in two's complement.
pub open spec fn signed_val(c: Seq<u8>) -> int
    decreases c.len(),
{
    if c.len() == 0 {
        0
    } else if c.len() == 1 {
        if c[0] < 0x80 {
            c[0] as int
        } else {
            c[0] - 0x100
        }
    } else {
        signed_val(c.drop_last()) * 0x100 + c.last()
    }
}

/// The integer of an INTEGER value of one to eight content octets.
pub open spec fn int_parse(s: Seq<u8>) -> Option<int> {
    match untag(s, 0x02) {
        Some(c) => if 1 <= c.len() <= 8 {
            Some(signed_val(c))
        } else {
            None
        },
        None => None,
    }
}

proof fn lemma_int_octets(x: int, k: nat)
    requires
        k >= 1,
        -0x80 * pow256((k - 1) as nat) <= x < 0x80 * pow256((k - 1) as nat),
    ensures
        signed_val(int_octets(x, k)) == x,
        int_octets(x, k).len() == k,
    decreases k,
{
    reveal_with_fuel(int_octets, 2);
    let s = int_octets(x, k);
    let p = int_octets(x / 0x100, (k - 1) as nat);
    assert(s.drop_last() =~= p);
    if k == 1 {
        assert(pow256(0) == 1);
        assert(s =~= seq![(x % 0x100) as u8]);
    } else {
        assert(pow256((k - 1) as nat) == 0x100 * pow256((k - 2) as nat));
        let q = pow256((k - 2) as nat) as int;
        assert(-0x80 * q <= x / 0x100 < 0x80 * q) by (nonlinear_arith)
            requires
                -0x80 * (0x100 * q) <= x < 0x80 * (0x100 * q),
        ;
        lemma_int_octets(x / 0x100, (k - 1) as nat);
    }
}

fn floor_256(x: i64) -> (r: i64)
    requires
        -0x8000_0000 <= x < 0x1_0000_0000,
    ensures
        r as int == (x as int) / 0x100,
{
    if x >= 0 {
        x / 0x100
    } else {
        -((0xFF - x) / 0x100)
    }
}

fn put_int_octets(out: &mut Vec<u8>, x: i64, k: usize)
    requires
        -0x8000_0000 <= x < 0x1_0000_0000,
    ensures
        final(out)@ == old(out)@ + int_octets(x as int, k as nat),
    decreases k,
{
    if k == 0 {
        assert(out@ =~= old(out)@ + int_octets(x as int, 0));
        return;
    }
    let q: i64 = floor_256(x);
    put_int_octets(out, q, k - 1);
    out.push((x - q * 0x100) as u8);
    assert(out@ =~= old(out)@ + int_octets(x as int, k as nat));
}

fn encode_int(x: i64) -> (r: Vec<u8>)
    requires
        -0x8000_0000 <= x < 0x1_0000_0000,
    ensures
        r@ == tlv(0x02, int_content(x as int)),
        is_value(r@),
        int_parse(r@) == Some(x as int),
{
    let k: usize = if -0x80 <= x && x < 0x80 {
        1
    } else if -0x8000 <= x && x < 0x8000 {
        2
    } else if -0x80_0000 <= x && x < 0x80_0000 {
        3
    } else if -0x8000_0000 <= x && x < 0x8000_0000 {
        4
    } else {
        5
    };
    let mut c: Vec<u8> = Vec::new();
    put_int_octets(&mut c, x, k);
    proof {
        assert(c@ =~= int_content(x as int));
        lemma_pow256_8();
        lemma_int_octets(x as int, k as nat);
        lemma_untag(0x02, c@);
    }
    make_tlv(0x02, &c)
}

proof fn lemma_pow256_8()
    ensures
        pow256(0) == 1,
        pow256(1) == 0x100,
        pow256(2) == 0x1_0000,
        pow256(3) == 0x100_0000,
        pow256(4) == 0x1_0000_0000,
        pow256(5) == 0x100_0000_0000,
        pow256(6) == 0x1_0000_0000_0000,
        pow256(7) == 0x100_0000_0000_0000,
{
    reveal_with_fuel(pow256, 9);
}

fn decode_int(s: &[u8]) -> (r: Option<i128>)
    ensures
        match r {
            Some(x) => int_parse(s@) == Some(x as int),
            None => int_parse(s@) is None,
        },
{
    let c = match strip_tag(s, 0x02) {
        Some(c) => c,
        None => return None,
    };
    if c.len() == 0 || c.len() > 8 {
        return None;
    }
    let mut v: i128 = if c[0] < 0x80 { c[0] as i128 } else { c[0] as i128 - 0x100 };
    let mut i: usize = 1;
    assert(c@.subrange(0, 1) =~= seq![c@[0]]);
    while i < c.len()
        invariant
            1 <= i <= c@.len() <= 8,
            v == signed_val(c@.subrange(0, i as int)),
            -0x80 * pow256((i - 1) as nat) <= v < 0x80 * pow256((i - 1) as nat),
        decreases c@.len() - i,
    {
        proof {
            lemma_pow256_8();
            let t = c@.subrange(0, i + 1);
            assert(t.drop_last() =~= c@.subrange(0, i as int));
            assert(pow256(i as nat) == 0x100 * pow256((i - 1) as nat));
            assert(i == 1 || i == 2 || i == 3 || i == 4 || i == 5 || i == 6 || i == 7);
        }
        v = v * 0x100 + c[i] as i128;
        i = i + 1;
    }
    assert(c@.subrange(0, i as int) =~= c@);
    Some(v)
}

impl Asn1 for i32 {
    open spec fn der(v: i32) -> Seq<u8> {
        tlv(0x02, int_content(v as int))
    }

    open spec fn parse(s: Seq<u8>) -> Option<i32> {
        match int_parse(s) {
            Some(x) => if -0x8000_0000 <= x < 0x8000_0000 {
                Some(x as i32)
            } else {
                None
            },
            None => None,
        }
    }

    fn encode(&self) -> (r: Vec<u8>) {
        encode_int(*self as i64)
    }

    fn decode(s: &[u8]) -> (r: Option<i32>) {
        match decode_int(s) {
            Some(x) => if x >= -0x8000_0000 && x < 0x8000_0000 {
                Some(x as i32)
            } else {
                None
            },
            None => None,
        }
    }
}

impl Asn1 for u32 {
    open spec fn der(v: u32) -> Seq<u8> {
        tlv(0x02, int_content(v as int))
    }

    open spec fn parse(s: Seq<u8>) -> Option<u32> {
        match int_parse(s) {
            Some(x) => if 0 <= x < 0x1_0000_0000 {
                Some(x as u32)
            } else {
                None
            },
            None => None,
        }
    }

    fn encode(&self) -> (r: Vec<u8>) {
        encode_int(*self as i64)
    }

    fn decode(s: &[u8]) -> (r: Option<u32>) {
        match decode_int(s) {
            Some(x) => if x >= 0 && x < 0x1_0000_0000 {
                Some(x as u32)
            } else {
                None
            },
            None => None,
        }
    }
}

/// BOOLEAN.
impl Asn1 for bool {
    open spec fn der(v: bool) -> Seq<u8> {
        tlv(0x01, seq![if v { 0xFFu8 } else { 0u8 }])
    }

    open spec fn parse(s: Seq<u8>) -> Option<bool> {
        match untag(s, 0x01) {
            Some(c) => if c.len() == 1 && c[0] == 0 {
                Some(false)
            } else if c.len() == 1 && c[0] == 0xFF {
                Some(true)
            } else {
                None
            },
            None => None,
        }
    }

    fn encode(&self) -> (r: Vec<u8>) {
        let mut c: Vec<u8> = Vec::new();
        c.push(if *self { 0xFF } else { 0 });
        proof {
            assert(c@ =~= seq![if *self { 0xFFu8 } else { 0u8 }]);
            lemma_untag(0x01, c@);
        }
        make_tlv(0x01, &c)
    }

    fn decode(s: &[u8]) -> (r: Option<bool>) {
        match strip_tag(s, 0x01) {
            Some(c) => if c.len() == 1 && c[0] == 0 {
                Some(false)
            } else if c.len() == 1 && c[0] == 0xFF {
                Some(true)
            } else {
                None
            },
            None => None,
        }
    }
}

/// OCTET STRING.
impl Asn1 for Vec<u8> {
    open spec fn der(v: Seq<u8>) -> Seq<u8> {
        tlv(0x04, v)
    }

    open spec fn parse(s: Seq<u8>) -> Option<Seq<u8>> {
        untag(s, 0x04)
    }

    fn encode(&self) -> (r: Vec<u8>) {
        proof {
            assert(self.len() <= usize::MAX);
            lemma_untag(0x04, self@);
        }
        make_tlv(0x04, self)
    }

    fn decode(s: &[u8]) -> (r: Option<Vec<u8>>) {
        match strip_tag(s, 0x04) {
            Some(c) => Some(copy(c)),
            None => None,
        }
    }
}

/// Whether every octet is one a general string may hold: the C1 control
/// plane and no-break space are not.
pub open spec fn general_ok(s: Seq<u8>) -> bool {
    forall|i: int| 0 <= i < s.len() ==> !(0x80 <= #[trigger] s[i] <= 0xA0)
}

/// A GeneralString: the KerberosString of realms and principal components.
#[derive(Debug)]
pub struct GeneralString {
    bytes: Vec<u8>,
}

impl View for GeneralString {
    type V = Seq<u8>;

    closed spec fn view(&self) -> Seq<u8> {
        self.bytes@
    }
}

impl Clone for GeneralString {
    fn clone(&self) -> (r: Self)
        ensures
            r@ == self@,
    {
        proof {
            use_type_invariant(self);
        }
        GeneralString { bytes: copy(&self.bytes) }
    }
}

impl Default for GeneralString {
    fn default() -> (r: Self)
        ensures
            r@ == Seq::<u8>::empty(),
    {
        GeneralString { bytes: Vec::new() }
    }
}

impl GeneralString {
    #[verifier::type_invariant]
    spec fn wf(self) -> bool {
        general_ok(self.bytes@)
    }

    /// The string of `bytes`, if it may hold each of them.
    pub fn from_bytes(bytes: &[u8]) -> (r: Option<GeneralString>)
        ensures
            match r {
                Some(g) => general_ok(bytes@) && g@ == bytes@,
                None => !general_ok(bytes@),
            },
    {
        let mut i: usize = 0;
        while i < bytes.len()
            invariant
                i <= bytes@.len(),
                forall|j: int| 0 <= j < i ==> !(0x80 <= #[trigger] bytes@[j] <= 0xA0),
            decreases bytes@.len() - i,
        {
            if bytes[i] >= 0x80 && bytes[i] <= 0xA0 {
                return None;
            }
            i = i + 1;
        }
        Some(GeneralString { bytes: copy(bytes) })
    }

    /// The octets of this string, each of them one it may hold.
    pub fn as_bytes(&self) -> (r: &[u8])
        ensures
            r@ == self@,
            general_ok(self@),
    {
        proof {
            use_type_invariant(self);
        }
        &self.bytes
    }

    /// Whether two strings hold the same octets.
    pub fn same(&self, other: &GeneralString) -> (r: bool)
        ensures
            r == (self@ == other@),
    {
        same(&self.bytes, &other.bytes)
    }
}

impl Asn1 for GeneralString {
    open spec fn der(v: Seq<u8>) -> Seq<u8> {
        tlv(0x1B, v)
    }

    open spec fn parse(s: Seq<u8>) -> Option<Seq<u8>> {
        match untag(s, 0x1B) {
            Some(c) => if general_ok(c) {
                Some(c)
            } else {
                None
            },
            None => None,
        }
    }

    fn encode(&self) -> (r: Vec<u8>) {
        let b = self.as_bytes();
        proof {
            assert(b.len() <= usize::MAX);
            lemma_untag(0x1B, b@);
        }
        make_tlv(0x1B, b)
    }

    fn decode(s: &[u8]) -> (r: Option<GeneralString>) {
        match strip_tag(s, 0x1B) {
            Some(c) => GeneralString::from_bytes(c),
            None => None,
        }
    }
}

/// 32 flag bits, the first being the most significant: a BIT STRING.
#[derive(Debug, Clone, Copy, PartialEq, Eq, Structural)]
pub struct FlagBits {
    /// The bits as a number.
    pub bits: u32,
}

impl View for FlagBits {
    type V = u32;

    open spec fn view(&self) -> u32 {
        self.bits
    }
}

/// The first 32 bits of a bit string's octets, those missing being clear.
pub open spec fn flag_octets(c: Seq<u8>) -> Seq<u8> {
    Seq::new(4, |i: int| if i + 1 < c.len() { c[i + 1] } else { 0u8 })
}

impl Asn1 for FlagBits {
    open spec fn der(v: u32) -> Seq<u8> {
        tlv(0x03, seq![0u8] + be32(v))
    }

    open spec fn parse(s: Seq<u8>) -> Option<u32> {
        match untag(s, 0x03) {
            Some(c) => if c.len() == 0 || c[0] > 7 || (c.len() == 1 && c[0] > 0) {
                None
            } else {
                Some(get_be32(flag_octets(c), 0))
            },
            None => None,
        }
    }

    fn encode(&self) -> (r: Vec<u8>) {
        let mut c: Vec<u8> = Vec::new();
        c.push(0);
        put_be32(&mut c, self.bits);
        proof {
            assert(c@ =~= seq![0u8] + be32(self.bits));
            assert(flag_octets(c@) =~= be32(self.bits));
            crate::bytes::lemma_word_round_trip(0, self.bits, 0);
            lemma_untag(0x03, c@);
        }
        make_tlv(0x03, &c)
    }

    fn decode(s: &[u8]) -> (r: Option<FlagBits>) {
        match strip_tag(s, 0x03) {
            Some(c) => {
                if c.len() == 0 || c[0] > 7 || (c.len() == 1 && c[0] > 0) {
                    return None;
                }
                let mut o: Vec<u8> = Vec::new();
                let mut i: usize = 0;
                while i < 4
                    invariant
                        i <= 4,
                        o@ == flag_octets(c@).subrange(0, i as int),
                    decreases 4 - i,
                {
                    o.push(if i + 1 < c.len() { c[i + 1] } else { 0 });
                    i = i + 1;
                    assert(o@ =~= flag_octets(c@).subrange(0, i as int));
                }
                assert(o@ =~= flag_octets(c@));
                Some(FlagBits { bits: read_be32(&o, 0) })
            },
            None => None,
        }
    }
}

/// A whole number of octets as a BIT STRING.
#[derive(Debug, Clone)]
pub struct BitOctets {
    /// The octets.
    pub octets: Vec<u8>,
}

impl View for BitOctets {
    type V = Seq<u8>;

    open spec fn view(&self) -> Seq<u8> {
        self.octets@
    }
}

impl Asn1 for BitOctets {
    open spec fn der(v: Seq<u8>) -> Seq<u8> {
        tlv(0x03, seq![0u8] + v)
    }

    open spec fn parse(s: Seq<u8>) -> Option<Seq<u8>> {
        match untag(s, 0x03) {
            Some(c) => if c.len() >= 1 && c[0] == 0 {
                Some(c.skip(1))
            } else {
                None
            },
            None => None,
        }
    }

    fn encode(&self) -> (r: Vec<u8>) {
        let mut c: Vec<u8> = Vec::new();
        c.push(0);
        append(&mut c, &self.octets);
        proof {
            assert(c@ =~= seq![0u8] + self@);
            assert(c@.skip(1) =~= self@);
            assert(c.len() <= usize::MAX);
            lemma_untag(0x03, c@);
        }
        make_tlv(0x03, &c)
    }

    fn decode(s: &[u8]) -> (r: Option<BitOctets>) {
        match strip_tag(s, 0x03) {
            Some(c) => if c.len() >= 1 && c[0] == 0 {
                let octets = cut(c, 1, c.len());
                assert(octets@ =~= c@.skip(1));
                Some(BitOctets { octets })
            } else {
                None
            },
            None => None,
        }
    }
}

/// A type whose values can be duplicated faithfully.
pub trait Dup: Sized + View {
    /// A value of the same content.
    fn dup(&self) -> (r: Self)
        ensures
            r@ == self@,
    ;
}

impl Dup for i32 {
    fn dup(&self) -> (r: i32) {
        *self
    }
}

impl Dup for Vec<u8> {
    fn dup(&self) -> (r: Vec<u8>) {
        copy(self)
    }
}

impl Dup for BitOctets {
    fn dup(&self) -> (r: BitOctets) {
        BitOctets { octets: copy(&self.octets) }
    }
}

impl Dup for GeneralString {
    fn dup(&self) -> (r: GeneralString) {
        self.clone()
    }
}

/// Duplicates an optional value.
pub fn dup_opt<T: Dup>(o: &Option<T>) -> (r: Option<T>)
    ensures
        opt_view(r) == opt_view(*o),
{
    match o {
        Some(x) => Some(x.dup()),
        None => None,
    }
}

/// Duplicates a list.
pub fn dup_list<T: Dup>(v: &Vec<T>) -> (r: Vec<T>)
    ensures
        list_view(r@) == list_view(v@),
{
    let mut r: Vec<T> = Vec::new();
    let mut i: usize = 0;
    while i < v.len()
        invariant
            i <= v@.len(),
            r@.len() == i,
            forall|j: int| 0 <= j < i ==> (#[trigger] r@[j])@ == v@[j]@,
        decreases v@.len() - i,
    {
        r.push(v[i].dup());
        i = i + 1;
    }
    assert(list_view(r@) =~= list_view(v@));
    r
}

/// Duplicates an optional list.
pub fn dup_opt_list<T: Dup>(o: &Option<Vec<T>>) -> (r: Option<Vec<T>>)
    ensures
        opt_list_view(r) == opt_list_view(*o),
{
    match o {
        Some(v) => Some(dup_list(v)),
        None => None,
    }
}

/// The encoding of a SEQUENCE OF.
pub open spec fn list_der<T: Asn1>(vs: Seq<T::V>) -> Seq<u8> {
    tlv(0x30, joined(Seq::new(vs.len(), |i: int| T::der(vs[i]))))
}

/// The items of a SEQUENCE OF.
pub open spec fn list_parse<T: Asn1>(s: Seq<u8>) -> Option<Seq<T::V>> {
    match untag(s, 0x30) {
        None => None,
        Some(c) => match split_items(c) {
            None => None,
            Some(items) => if forall|i: int|
                0 <= i < items.len() ==> T::parse(#[trigger] items[i]) is Some {
                Some(Seq::new(items.len(), |i: int| T::parse(items[i])->0))
            } else {
                None
            },
        },
    }
}

/// Splitting joined values gives them back.
proof fn lemma_split_items(items: Seq<Seq<u8>>)
    requires
        forall|i: int| 0 <= i < items.len() ==> is_value(#[trigger] items[i]),
    ensures
        split_items(joined(items)) == Some(items),
    decreases items.len(),
{
    if items.len() == 0 {
        assert(items =~= Seq::empty());
    } else {
        let rest = items.drop_first();
        assert forall|i: int| 0 <= i < rest.len() implies is_value(#[trigger] rest[i]) by {
            assert(is_value(items[i + 1]));
        }
        lemma_split_items(rest);
        assert(is_value(items[0]));
        let (tag, c) = choose|tag: u8, c: Seq<u8>| #[trigger]
            tlv(tag, c) == items[0] && tag % 32 != 31 && tag != 0 && c.len()
                < 0x1_0000_0000_0000_0000;
        lemma_read_tlv(tag, c, joined(rest));
        let s = joined(items);
        assert(s.subrange(0, items[0].len() as int) =~= items[0]);
        assert(seq![items[0]] + rest =~= items);
    }
}

proof fn lemma_joined_push(items: Seq<Seq<u8>>, x: Seq<u8>)
    ensures
        joined(items.push(x)) == joined(items) + x,
    decreases items.len(),
{
    if items.len() == 0 {
        assert(items.push(x).drop_first() =~= Seq::empty());
        assert(joined(Seq::<Seq<u8>>::empty()) =~= Seq::<u8>::empty());
        assert(joined(items.push(x)) =~= x + Seq::<u8>::empty());
        assert(joined(items) + x =~= x);
    } else {
        lemma_joined_push(items.drop_first(), x);
        assert(items.push(x).drop_first() =~= items.drop_first().push(x));
        assert(items[0] + (joined(items.drop_first()) + x) =~= (items[0] + joined(items.drop_first()))
            + x);
    }
}

/// Encodes a SEQUENCE OF. Decoding gives the list back.
pub fn encode_list<T: Asn1>(v: &Vec<T>) -> (r: Vec<u8>)
    ensures
        r@ == list_der::<T>(list_view(v@)),
        is_value(r@),
        list_parse::<T>(r@) == Some(list_view(v@)),
{
    let mut out: Vec<u8> = Vec::new();
    let ghost mut items: Seq<Seq<u8>> = Seq::empty();
    let mut i: usize = 0;
    while i < v.len()
        invariant
            i <= v@.len(),
            items.len() == i,
            forall|j: int| 0 <= j < i ==> is_value(#[trigger] items[j]),
            forall|j: int|
                0 <= j < i ==> #[trigger] items[j] == T::der(v@[j]@) && T::parse(items[j]) == Some(
                    v@[j]@,
                ),
            out@ == joined(items),
        decreases v@.len() - i,
    {
        let e = v[i].encode();
        append(&mut out, &e);
        proof {
            lemma_joined_push(items, e@);
            items = items.push(e@);
        }
        i = i + 1;
    }
    proof {
        let vs = list_view(v@);
        assert(items =~= Seq::new(vs.len(), |i: int| T::der(vs[i])));
        lemma_split_items(items);
        assert(out.len() <= usize::MAX);
        lemma_untag(0x30, out@);
        assert(Seq::new(items.len(), |i: int| T::parse(items[i])->0) =~= vs);
    }
    make_tlv(0x30, &out)
}

/// Decodes a SEQUENCE OF.
pub fn decode_list<T: Asn1>(s: &[u8]) -> (r: Option<Vec<T>>)
    ensures
        match r {
            Some(v) => list_parse::<T>(s@) == Some(list_view(v@)),
            None => list_parse::<T>(s@) is None,
        },
{
    let c = match strip_tag(s, 0x30) {
        Some(c) => c,
        None => return None,
    };
    let mut v: Vec<T> = Vec::new();
    let ghost mut done: Seq<Seq<u8>> = Seq::empty();
    let mut pos: usize = 0;
    assert(c@.skip(0) =~= c@);
    proof {
        match split_items(c@) {
            Some(r) => assert(done + r =~= r),
            None => {},
        }
    }
    while pos < c.len()
        invariant
            untag(s@, 0x30) == Some(c@),
            pos <= c@.len(),
            done.len() == v@.len(),
            forall|j: int| 0 <= j < done.len() ==> T::parse(#[trigger] done[j]) == Some(v@[j]@),
            split_items(c@) == (match split_items(c@.skip(pos as int)) {
                Some(r) => Some(done + r),
                None => None,
            }),
        decreases c@.len() - pos,
    {
        let rest = vstd::slice::slice_subrange(c, pos, c.len());
        assert(rest@ =~= c@.skip(pos as int));
        let b: usize = match parse_tlv(rest) {
            None => return None,
            Some((_, _, b)) => b,
        };
        let item = cut(rest, 0, b);
        assert(rest@.skip(b as int) =~= c@.skip(pos + b));
        let x = match T::decode(&item) {
            Some(x) => x,
            None => {
                proof {
                    match split_items(c@.skip(pos + b)) {
                        Some(r) => {
                            let all = done + (seq![item@] + r);
                            assert(split_items(c@) == Some(all));
                            assert(all[done.len() as int] == item@);
                        },
                        None => {},
                    }
                }
                return None;
            },
        };
        proof {
            match split_items(c@.skip(pos + b)) {
                Some(r) => {
                    assert(done + (seq![item@] + r) =~= done.push(item@) + r);
                },
                None => {},
            }
            done = done.push(item@);
        }
        v.push(x);
        pos = pos + b;
    }
    proof {
        assert(c@.skip(pos as int) =~= Seq::empty());
        assert(done + Seq::empty() =~= done);
        assert(Seq::new(done.len(), |i: int| T::parse(done[i])->0) =~= list_view(v@));
    }
    Some(v)
}

/// A field that must be there.
pub open spec fn req<T: Asn1>(f: Option<Seq<u8>>) -> Option<T::V> {
    match f {
        Some(s) => T::parse(s),
        None => None,
    }
}

/// A field that may be left out.
pub open spec fn opt<T: Asn1>(f: Option<Seq<u8>>) -> Option<Option<T::V>> {
    match f {
        Some(s) => match T::parse(s) {
            Some(x) => Some(Some(x)),
            None => None,
        },
        None => Some(None),
    }
}

/// The encoding of an optional field.
pub open spec fn opt_der<T: Asn1>(o: Option<T::V>) -> Option<Seq<u8>> {
    match o {
        Some(x) => Some(T::der(x)),
        None => None,
    }
}

/// A list that must be there.
pub open spec fn req_list<T: Asn1>(f: Option<Seq<u8>>) -> Option<Seq<T::V>> {
    match f {
        Some(s) => list_parse::<T>(s),
        None => None,
    }
}

/// A list that may be left out.
pub open spec fn opt_list<T: Asn1>(f: Option<Seq<u8>>) -> Option<Option<Seq<T::V>>> {
    match f {
        Some(s) => match list_parse::<T>(s) {
            Some(x) => Some(Some(x)),
            None => None,
        },
        None => Some(None),
    }
}

/// The encoding of an optional list.
pub open spec fn opt_list_der<T: Asn1>(o: Option<Seq<T::V>>) -> Option<Seq<u8>> {
    match o {
        Some(x) => Some(list_der::<T>(x)),
        None => None,
    }
}

/// An optional list, by its items' views.
pub open spec fn opt_list_view<T: View>(o: Option<Vec<T>>) -> Option<Seq<T::V>> {
    match o {
        Some(v) => Some(list_view(v@)),
        None => None,
    }
}

/// A timestamp that must be there.
pub open spec fn req_time(f: Option<Seq<u8>>) -> Option<TimeV> {
    match f {
        Some(s) => match time_parse(s) {
            Some((secs, nanos)) => Some(TimeV { secs, nanos }),
            None => None,
        },
        None => None,
    }
}

/// A timestamp that may be left out.
pub open spec fn opt_time(f: Option<Seq<u8>>) -> Option<Option<TimeV>> {
    match f {
        Some(s) => match time_parse(s) {
            Some((secs, nanos)) => Some(Some(TimeV { secs, nanos })),
            None => None,
        },
        None => Some(None),
    }
}

/// The encoding of a timestamp.
pub open spec fn der_of_time(t: TimeV) -> Seq<u8> {
    time_der(t.secs, t.nanos)
}

/// The encoding of an optional timestamp.
pub open spec fn opt_time_der(o: Option<TimeV>) -> Option<Seq<u8>> {
    match o {
        Some(t) => Some(der_of_time(t)),
        None => None,
    }
}

/// Reads a field that must be there.
pub fn take_req<T: Asn1>(f: &Option<Vec<u8>>) -> (r: Option<T>)
    ensures
        opt_view(r) == req::<T>(opt_view(*f)),
{
    match f {
        Some(s) => T::decode(s),
        None => None,
    }
}

/// Reads a field that may be left out.
pub fn take_opt<T: Asn1>(f: &Option<Vec<u8>>) -> (r: Option<Option<T>>)
    ensures
        match r {
            Some(o) => opt::<T>(opt_view(*f)) == Some(opt_view(o)),
            None => opt::<T>(opt_view(*f)) is None,
        },
{
    match f {
        Some(s) => match T::decode(s) {
            Some(x) => Some(Some(x)),
            None => None,
        },
        None => Some(None),
    }
}

/// Writes a field that may be left out.
pub fn put_opt<T: Asn1>(o: &Option<T>) -> (r: Option<Vec<u8>>)
    ensures
        opt_view(r) == opt_der::<T>(opt_view(*o)),
        opt::<T>(opt_view(r)) == Some(opt_view(*o)),
{
    match o {
        Some(x) => Some(x.encode()),
        None => None,
    }
}

/// Reads a list that must be there.
pub fn take_req_list<T: Asn1>(f: &Option<Vec<u8>>) -> (r: Option<Vec<T>>)
    ensures
        match r {
            Some(v) => req_list::<T>(opt_view(*f)) == Some(list_view(v@)),
            None => req_list::<T>(opt_view(*f)) is None,
        },
{
    match f {
        Some(s) => decode_list::<T>(s),
        None => None,
    }
}

/// Reads a list that may be left out.
pub fn take_opt_list<T: Asn1>(f: &Option<Vec<u8>>) -> (r: Option<Option<Vec<T>>>)
    ensures
        match r {
            Some(o) => opt_list::<T>(opt_view(*f)) == Some(opt_list_view(o)),
            None => opt_list::<T>(opt_view(*f)) is None,
        },
{
    match f {
        Some(s) => match decode_list::<T>(s) {
            Some(v) => Some(Some(v)),
            None => None,
        },
        None => Some(None),
    }
}

/// Writes a list that may be left out.
pub fn put_opt_list<T: Asn1>(o: &Option<Vec<T>>) -> (r: Option<Vec<u8>>)
    ensures
        opt_view(r) == opt_list_der::<T>(opt_list_view(*o)),
        opt_list::<T>(opt_view(r)) == Some(opt_list_view(*o)),
{
    match o {
        Some(v) => Some(encode_list(v)),
        None => None,
    }
}

/// Reads a timestamp that must be there.
pub fn take_req_time(f: &Option<Vec<u8>>) -> (r: Option<KerberosTime>)
    ensures
        opt_view(r) == req_time(opt_view(*f)),
{
    match f {
        Some(s) => KerberosTime::from_der(s),
        None => None,
    }
}

/// Reads a timestamp that may be left out.
pub fn take_opt_time(f: &Option<Vec<u8>>) -> (r: Option<Option<KerberosTime>>)
    ensures
        match r {
            Some(o) => opt_time(opt_view(*f)) == Some(opt_view(o)),
            None => opt_time(opt_view(*f)) is None,
        },
{
    match f {
        Some(s) => match KerberosTime::from_der(s) {
            Some(x) => Some(Some(x)),
            None => None,
        },
        None => Some(None),
    }
}

/// Writes a timestamp.
pub fn put_time(t: &KerberosTime) -> (r: Option<Vec<u8>>)
    ensures
        opt_view(r) == Some(der_of_time(t@)),
        req_time(opt_view(r)) == Some(t@),
{
    Some(t.to_der())
}

/// Writes a timestamp that may be left out.
pub fn put_opt_time(o: &Option<KerberosTime>) -> (r: Option<Vec<u8>>)
    ensures
        opt_view(r) == opt_time_der(opt_view(*o)),
        opt_time(opt_view(r)) == Some(opt_view(*o)),
{
    match o {
        Some(t) => Some(t.to_der()),
        None => None,
    }
}

} // verus!
