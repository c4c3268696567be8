//! Address, sequence-number, and authdata helpers shared by the AP
//! request/reply and safe/priv paths.
use vstd::prelude::*;

use crate::asn1::{encode_list, decode_list, list_der, list_parse, opt_list_view};
use crate::bytes::{append, le16, le32, put_le16, put_le32};
use crate::der::{list_view, opt_view};
use crate::protocol::ap::ApError;
use crate::types::{AuthorizationDataElement, AuthorizationDataElementV, HostAddress, HostAddressV};

verus! {

/// Combined address and port.
pub const ADDRTYPE_ADDRPORT: i32 = 0x0100;
/// A lone NetBIOS address list counts as empty.
pub const ADDRTYPE_NETBIOS: i32 = 0x0014;
/// Authorization data holding optional elements.
pub const AD_IF_RELEVANT: i32 = 1;
/// Enctype negotiation list.
pub const AD_ETYPE_NEGOTIATION: i32 = 129;
/// AP options authorization data.
pub const AD_AP_OPTIONS: i32 = 143;

/// The low 16 bits of an address type.
pub open spec fn low16(x: i32) -> u16 {
    (x % 0x1_0000) as u16
}

/// One part of a full address: two zero octets, the type, the length and the
/// octets, little-endian.
pub open spec fn addr_part(a: HostAddressV) -> Seq<u8> {
    seq![0u8, 0u8] + le16(low16(a.addr_type)) + le32((a.address.len() % 0x1_0000_0000) as u32) + a.address
}

/// The combined address of an address and a port.
pub open spec fn fulladdr_spec(addr: HostAddressV, port: HostAddressV) -> HostAddressV {
    HostAddressV { addr_type: ADDRTYPE_ADDRPORT, address: addr_part(addr) + addr_part(port) }
}

fn low16_of(x: i32) -> (r: u16)
    ensures
        r == low16(x),
{
    let t: i64 = x as i64 + 0x1_0000_0000;
    (t % 0x1_0000) as u16
}

fn put_addr_part(out: &mut Vec<u8>, a: &HostAddress)
    ensures
        final(out)@ == old(out)@ + addr_part(a@),
{
    let mut part: Vec<u8> = Vec::new();
    part.push(0);
    part.push(0);
    assert(part@ =~= seq![0u8, 0u8]);
    put_le16(&mut part, low16_of(a.addr_type));
    put_le32(&mut part, (a.address.len() as u64 % 0x1_0000_0000) as u32);
    append(&mut part, &a.address);
    append(out, &part);
}

/// Combine an address and port address into an ADDRTYPE_ADDRPORT
/// "full address".
pub fn make_fulladdr(addr: &HostAddress, port: &HostAddress) -> (r: HostAddress)
    ensures
        r@ == fulladdr_spec(addr@, port@),
{
    let mut contents: Vec<u8> = Vec::new();
    put_addr_part(&mut contents, addr);
    put_addr_part(&mut contents, port);
    assert(contents@ =~= addr_part(addr@) + addr_part(port@));
    HostAddress { addr_type: ADDRTYPE_ADDRPORT, address: contents }
}

/// Whether two addresses are the same.
pub fn address_compare(a: &HostAddress, b: &HostAddress) -> (r: bool)
    ensures
        r == (a@ == b@),
{
    a.same(b)
}

/// Whether `addr` is covered by a list: no list covers anything, and one with
/// only a NetBIOS address counts as none.
pub open spec fn addr_listed(addr: HostAddressV, list: Option<Seq<HostAddressV>>) -> bool {
    match list {
        None => true,
        Some(l) => (l.len() == 1 && l[0].addr_type == ADDRTYPE_NETBIOS) || l.contains(addr),
    }
}

/// Whether `addr` is covered by `list`.
#[verifier::loop_isolation(false)]
pub fn address_search(addr: &HostAddress, list: &Option<Vec<HostAddress>>) -> (r: bool)
    ensures
        r == addr_listed(addr@, opt_list_view(*list)),
{
    match list {
        None => true,
        Some(l) => {
            let ghost lv = list_view(l@);
            if l.len() == 1 && l[0].addr_type == ADDRTYPE_NETBIOS {
                assert(lv[0].addr_type == ADDRTYPE_NETBIOS);
                return true;
            }
            let mut i: usize = 0;
            while i < l.len()
                invariant
                    i <= l@.len(),
                    lv == list_view(l@),
                    forall|j: int| 0 <= j < i ==> #[trigger] lv[j] != addr@,
                decreases l@.len() - i,
            {
                if address_compare(addr, &l[i]) {
                    assert(lv[i as int] == addr@);
                    return true;
                }
                i = i + 1;
            }
            assert(l@.len() == 1 ==> lv[0].addr_type == l@[0].addr_type);
            false
        },
    }
}

/// Whether `in_seq` is what a peer that sign-extends its counter sends for
/// the number `exp_seq` with its top bit set in `1`, `2` or `3` octets.
pub open spec fn heimdal_extends(exp_seq: u32, in_seq: u32) -> bool {
    ||| 0x80_0000 <= exp_seq < 0x100_0000 && in_seq == exp_seq + 0xFF00_0000
    ||| 0x8000 <= exp_seq < 0x1_0000 && in_seq == exp_seq + 0xFFFF_0000
    ||| 0x80 <= exp_seq < 0x100 && in_seq == exp_seq + 0xFFFF_FF00
}

/// Whether a sequence number is the expected one as a sign-extending peer
/// would send it.
pub fn chk_heimdal_seqnum(exp_seq: u32, in_seq: u32) -> (r: bool)
    ensures
        r == heimdal_extends(exp_seq, in_seq),
{
    (exp_seq >= 0x80_0000 && exp_seq < 0x100_0000 && in_seq == exp_seq + 0xFF00_0000)
        || (exp_seq >= 0x8000 && exp_seq < 0x1_0000 && in_seq == exp_seq + 0xFFFF_0000)
        || (exp_seq >= 0x80 && exp_seq < 0x100 && in_seq == exp_seq + 0xFFFF_FF00)
}

/// The enctype list of a negotiation element, if it is one that decodes.
pub open spec fn nego_list(e: AuthorizationDataElementV) -> Option<Seq<i32>> {
    if e.ad_type == AD_ETYPE_NEGOTIATION {
        list_parse::<i32>(e.ad_data)
    } else {
        None
    }
}

/// The first enctype list among elements.
pub open spec fn first_nego(es: Seq<AuthorizationDataElementV>) -> Option<Seq<i32>>
    decreases es.len(),
{
    if es.len() == 0 {
        None
    } else {
        match nego_list(es[0]) {
            Some(l) => Some(l),
            None => first_nego(es.drop_first()),
        }
    }
}

/// The enctype list of one authenticator element: of a negotiation element
/// itself, or of the first one inside an if-relevant container.
pub open spec fn element_etypes(e: AuthorizationDataElementV) -> Option<Seq<i32>> {
    if e.ad_type == AD_IF_RELEVANT {
        match list_parse::<AuthorizationDataElement>(e.ad_data) {
            Some(inner) => first_nego(inner),
            None => None,
        }
    } else {
        nego_list(e)
    }
}

/// The etype-negotiation list in authorization data: the first that decodes, or
/// none at all.
pub open spec fn etype_list(es: Seq<AuthorizationDataElementV>) -> Seq<i32>
    decreases es.len(),
{
    if es.len() == 0 {
        Seq::empty()
    } else {
        match element_etypes(es[0]) {
            Some(l) => l,
            None => etype_list(es.drop_first()),
        }
    }
}

proof fn lemma_i32_list(s: Seq<i32>)
    ensures
        list_view::<i32>(s) == s,
{
    assert(list_view::<i32>(s) =~= s);
}

fn nego_of(e: &AuthorizationDataElement) -> (r: Option<Vec<i32>>)
    ensures
        opt_view(r) == nego_list(e@),
{
    if e.ad_type == AD_ETYPE_NEGOTIATION {
        let r = decode_list::<i32>(&e.ad_data);
        proof {
            if r is Some {
                lemma_i32_list(r->0@);
            }
        }
        r
    } else {
        None
    }
}

fn first_nego_of(v: &Vec<AuthorizationDataElement>) -> (r: Option<Vec<i32>>)
    ensures
        opt_view(r) == first_nego(list_view(v@)),
{
    let ghost all = list_view(v@);
    let mut i: usize = 0;
    assert(all.skip(0) =~= all);
    while i < v.len()
        invariant
            i <= v@.len(),
            all == list_view(v@),
            first_nego(all) == first_nego(all.skip(i as int)),
        decreases v@.len() - i,
    {
        proof {
            assert(all.skip(i as int).drop_first() =~= all.skip(i + 1));
            assert(all.skip(i as int)[0] == v@[i as int]@);
        }
        let l = nego_of(&v[i]);
        if l.is_some() {
            return l;
        }
        i = i + 1;
    }
    None
}

/// Extract the etype-negotiation list from authenticator authdata: an
/// if-relevant container is unwrapped; a bare negotiation element is also
/// accepted.
#[verifier::loop_isolation(false)]
pub fn decode_etype_list(ad: &Option<Vec<AuthorizationDataElement>>) -> (r: Vec<i32>)
    ensures
        r@ == (match opt_list_view(*ad) {
            Some(es) => etype_list(es),
            None => Seq::empty(),
        }),
{
    let v = match ad {
        Some(v) => v,
        None => return Vec::new(),
    };
    let ghost all = list_view(v@);
    let mut i: usize = 0;
    assert(all.skip(0) =~= all);
    while i < v.len()
        invariant
            i <= v@.len(),
            all == list_view(v@),
            etype_list(all) == etype_list(all.skip(i as int)),
        decreases v@.len() - i,
    {
        proof {
            assert(all.skip(i as int).drop_first() =~= all.skip(i + 1));
            assert(all.skip(i as int)[0] == v@[i as int]@);
        }
        let found = if v[i].ad_type == AD_IF_RELEVANT {
            match decode_list::<AuthorizationDataElement>(&v[i].ad_data) {
                Some(inner) => first_nego_of(&inner),
                None => None,
            }
        } else {
            nego_of(&v[i])
        };
        match found {
            Some(l) => return l,
            None => {},
        }
        i = i + 1;
    }
    Vec::new()
}

/// The first of `prefs` that `have` contains.
pub open spec fn first_shared(prefs: Seq<i32>, have: Seq<i32>) -> Option<i32>
    decreases prefs.len(),
{
    if prefs.len() == 0 {
        None
    } else if have.contains(prefs[0]) {
        Some(prefs[0])
    } else {
        first_shared(prefs.drop_first(), have)
    }
}

/// Enctype negotiation: with no permitted list the first desired one; else,
/// when every mandatory one (from `mandatory` on) is permitted, the first
/// permitted one that is desired.
pub open spec fn negotiate_spec(desired: Seq<i32>, mandatory: int, permitted: Option<Seq<i32>>) -> Result<
    i32,
    ApError,
> {
    match permitted {
        None => if desired.len() > 0 {
            Ok(desired[0])
        } else {
            Err(ApError::NoPermEtype)
        },
        Some(p) => if exists|i: int| mandatory <= i < desired.len() && 0 <= i && !p.contains(#[trigger] desired[i]) {
            Err(ApError::NoPermEtype)
        } else {
            match first_shared(p, desired) {
                Some(e) => Ok(e),
                None => Err(ApError::NoPermEtype),
            }
        },
    }
}

/// Whether `v` holds `x`.
pub fn has_etype(v: &Vec<i32>, x: i32) -> (r: bool)
    ensures
        r == v@.contains(x),
{
    let mut i: usize = 0;
    while i < v.len()
        invariant
            i <= v@.len(),
            forall|j: int| 0 <= j < i ==> v@[j] != x,
        decreases v@.len() - i,
    {
        if v[i] == x {
            assert(v@[i as int] == x);
            return true;
        }
        i = i + 1;
    }
    false
}

/// Negotiate an enctype: the mandatory segment (from `mandatory_index` on)
/// must each be permitted, then the first permitted etype present anywhere
/// in `desired` is taken. Without a permitted list the first desired wins.
#[verifier::loop_isolation(false)]
pub fn negotiate_etype(desired: &Vec<i32>, mandatory_index: usize, permitted: &Option<Vec<i32>>) -> (r: Result<
    i32,
    ApError,
>)
    ensures
        r == negotiate_spec(desired@, mandatory_index as int, opt_view(*permitted)),
{
    let p = match permitted {
        Some(p) => p,
        None => {
            if desired.len() > 0 {
                return Ok(desired[0]);
            }
            return Err(ApError::NoPermEtype);
        },
    };
    let mut i: usize = mandatory_index;
    while i < desired.len()
        invariant
            mandatory_index <= i,
            forall|j: int| mandatory_index <= j < i && j < desired@.len() ==> p@.contains(#[trigger] desired@[j]),
        decreases desired@.len() - i,
    {
        if !has_etype(p, desired[i]) {
            return Err(ApError::NoPermEtype);
        }
        i = i + 1;
    }
    let mut k: usize = 0;
    assert(p@.skip(0) =~= p@);
    while k < p.len()
        invariant
            k <= p@.len(),
            first_shared(p@, desired@) == first_shared(p@.skip(k as int), desired@),
        decreases p@.len() - k,
    {
        assert(p@.skip(k as int).drop_first() =~= p@.skip(k + 1));
        if has_etype(desired, p[k]) {
            return Ok(p[k]);
        }
        k = k + 1;
    }
    Err(ApError::NoPermEtype)
}

/// The etypes preferred over the ticket's, up to and with it.
pub open spec fn up_to_etype(desired: Seq<i32>, e: i32) -> Seq<i32>
    decreases desired.len(),
{
    if desired.len() == 0 {
        Seq::empty()
    } else if desired[0] == e {
        seq![e]
    } else {
        seq![desired[0]] + up_to_etype(desired.drop_first(), e)
    }
}

/// The elements an AP-REQ asks to be relevant: the enctype negotiation list,
/// unless the ticket's etype is the most preferred already, and the channel
/// binding option.
pub open spec fn ap_authdata_inner(desired: Option<Seq<i32>>, tkt_etype: i32, cbt: bool) -> Seq<
    AuthorizationDataElementV,
> {
    (match desired {
        Some(d) => if d.len() > 0 && d[0] == tkt_etype {
            Seq::empty()
        } else {
            seq![
                AuthorizationDataElementV {
                    ad_type: AD_ETYPE_NEGOTIATION,
                    ad_data: list_der::<i32>(up_to_etype(d, tkt_etype)),
                },
            ]
        },
        None => Seq::empty(),
    }) + (if cbt {
        seq![AuthorizationDataElementV { ad_type: AD_AP_OPTIONS, ad_data: le32(0x4000) }]
    } else {
        Seq::empty()
    })
}

/// The if-relevant element of an AP-REQ, if it has anything to hold.
pub open spec fn ap_authdata(desired: Option<Seq<i32>>, tkt_etype: i32, cbt: bool) -> Option<
    AuthorizationDataElementV,
> {
    let inner = ap_authdata_inner(desired, tkt_etype, cbt);
    if inner.len() == 0 {
        None
    } else {
        Some(
            AuthorizationDataElementV {
                ad_type: AD_IF_RELEVANT,
                ad_data: list_der::<AuthorizationDataElement>(inner),
            },
        )
    }
}

fn take_up_to(d: &Vec<i32>, e: i32) -> (r: Vec<i32>)
    ensures
        r@ == up_to_etype(d@, e),
{
    let mut r: Vec<i32> = Vec::new();
    let mut i: usize = 0;
    assert(d@.skip(0) =~= d@);
    assert(r@ + up_to_etype(d@, e) =~= up_to_etype(d@, e));
    while i < d.len()
        invariant
            i <= d@.len(),
            r@ + up_to_etype(d@.skip(i as int), e) == up_to_etype(d@, e),
        decreases d@.len() - i,
    {
        let ghost before = r@;
        let ghost rest = d@.skip(i as int);
        assert(rest.drop_first() =~= d@.skip(i + 1));
        r.push(d[i]);
        if d[i] == e {
            assert(r@ =~= before + seq![e]);
            return r;
        }
        assert(before + (seq![rest[0]] + up_to_etype(d@.skip(i + 1), e)) =~= r@ + up_to_etype(d@.skip(i + 1), e));
        i = i + 1;
    }
    assert(d@.skip(i as int) =~= Seq::empty());
    assert(r@ =~= up_to_etype(d@, e));
    r
}

/// Build the AD-IF-RELEVANT element holding enctype negotiation and AP
/// options entries.
pub fn make_ap_authdata(desired: &Option<Vec<i32>>, tkt_etype: i32, cbt: bool) -> (r: Option<
    AuthorizationDataElement,
>)
    ensures
        opt_view(r) == ap_authdata(opt_view(*desired), tkt_etype, cbt),
{
    let mut inner: Vec<AuthorizationDataElement> = Vec::new();
    match desired {
        Some(d) => {
            if !(d.len() > 0 && d[0] == tkt_etype) {
                let list = take_up_to(d, tkt_etype);
                let data = encode_list(&list);
                proof {
                    lemma_i32_list(list@);
                }
                inner.push(AuthorizationDataElement { ad_type: AD_ETYPE_NEGOTIATION, ad_data: data });
            }
        },
        None => {},
    }
    if cbt {
        let mut data: Vec<u8> = Vec::new();
        put_le32(&mut data, 0x4000);
        assert(data@ =~= le32(0x4000));
        inner.push(AuthorizationDataElement { ad_type: AD_AP_OPTIONS, ad_data: data });
    }
    assert(list_view(inner@) =~= ap_authdata_inner(opt_view(*desired), tkt_etype, cbt));
    if inner.len() == 0 {
        return None;
    }
    Some(AuthorizationDataElement { ad_type: AD_IF_RELEVANT, ad_data: encode_list(&inner) })
}

} // verus!
