//! The SPNEGO tokens and their DER encoding. The decoder is lenient: a tag
//! that does not match is an absent field; a matching tag with a bad length
//! spoils everything behind it.
use vstd::prelude::*;

use crate::bytes::{append, copy, same};
use crate::crypto::nfold::{be_val, pow256};
use crate::der::{be_min, lemma_be_min, len_octets, list_view, make_tlv, octets_within, opt_view, tlv};
use crate::gssapi::spnego::{NegState, MECH_SPNEGO};
use crate::gssapi::GssError;

verus! {

/// Decoded NegTokenInit.
#[derive(Debug, Clone, PartialEq, Eq)]
pub struct NegTokenInit {
    /// MechTypeList as OID contents bytes.
    pub mech_types: Vec<Vec<u8>>,
    /// reqFlags, decoded as `bit_string_byte >> 1`.
    pub req_flags: Option<u8>,
    /// mechToken contents.
    pub mech_token: Option<Vec<u8>>,
    /// mechListMIC contents.
    pub mech_list_mic: Option<Vec<u8>>,
}

/// Model of [`NegTokenInit`].
pub struct NegTokenInitV {
    pub mech_types: Seq<Seq<u8>>,
    pub req_flags: Option<u8>,
    pub mech_token: Option<Seq<u8>>,
    pub mech_list_mic: Option<Seq<u8>>,
}

impl View for NegTokenInit {
    type V = NegTokenInitV;

    open spec fn view(&self) -> NegTokenInitV {
        NegTokenInitV {
            mech_types: list_view(self.mech_types@),
            req_flags: self.req_flags,
            mech_token: opt_view(self.mech_token),
            mech_list_mic: opt_view(self.mech_list_mic),
        }
    }
}

/// Decoded NegTokenResp.
#[derive(Debug, Clone, PartialEq, Eq)]
pub struct NegTokenResp {
    /// negState, when present.
    pub neg_state: Option<NegState>,
    /// supportedMech OID contents, when present.
    pub supported_mech: Option<Vec<u8>>,
    /// responseToken contents, when present.
    pub response_token: Option<Vec<u8>>,
    /// mechListMIC contents, when present (dropped when it equals
    /// responseToken).
    pub mech_list_mic: Option<Vec<u8>>,
}

/// Model of [`NegTokenResp`].
pub struct NegTokenRespV {
    pub neg_state: Option<NegState>,
    pub supported_mech: Option<Seq<u8>>,
    pub response_token: Option<Seq<u8>>,
    pub mech_list_mic: Option<Seq<u8>>,
}

impl View for NegTokenResp {
    type V = NegTokenRespV;

    open spec fn view(&self) -> NegTokenRespV {
        NegTokenRespV {
            neg_state: self.neg_state,
            supported_mech: opt_view(self.supported_mech),
            response_token: opt_view(self.response_token),
            mech_list_mic: opt_view(self.mech_list_mic),
        }
    }
}

/// The length announced behind the tag of `s`, and where it ends.
pub open spec fn field_len(s: Seq<u8>) -> Option<(nat, int)> {
    if s.len() < 2 {
        None
    } else if s[1] < 0x80 {
        Some((s[1] as nat, 2))
    } else {
        let k = s[1] - 0x80;
        if 2 + k > s.len() {
            None
        } else {
            Some((be_val(s.subrange(2, 2 + k)), 2 + k))
        }
    }
}

/// Reads the next field of a cursor under `tag`: its content, if it is
/// there, and the cursor behind it. A cursor is what is left to read, or
/// `None` once a length was bad.
pub open spec fn next_field(cur: Option<Seq<u8>>, tag: u8) -> (Option<Seq<u8>>, Option<Seq<u8>>) {
    match cur {
        None => (None, None),
        Some(s) => if s.len() == 0 || s[0] != tag {
            (None, cur)
        } else {
            match field_len(s) {
                None => (None, None),
                Some((n, p)) => if p + n > s.len() {
                    (None, None)
                } else {
                    (Some(s.subrange(p, p + n)), Some(s.skip(p + n)))
                },
            }
        },
    }
}

/// The content of the field under `tag` that `s` starts with.
pub open spec fn lead_field(s: Seq<u8>, tag: u8) -> Option<Seq<u8>> {
    next_field(Some(s), tag).0
}

/// The OIDs that make up `s`.
pub open spec fn oids_spec(s: Seq<u8>) -> Option<Seq<Seq<u8>>>
    decreases s.len(),
{
    if s.len() == 0 {
        Some(Seq::empty())
    } else {
        match next_field(Some(s), 0x06) {
            (Some(o), Some(rest)) => if rest.len() >= s.len() {
                None
            } else {
                match oids_spec(rest) {
                    Some(os) => Some(seq![o] + os),
                    None => None,
                }
            },
            _ => None,
        }
    }
}

/// The mechanisms of a `SEQUENCE OF OID`.
pub open spec fn mech_set_spec(field: Seq<u8>) -> Option<Seq<Seq<u8>>> {
    match lead_field(field, 0x30) {
        None => None,
        Some(s) => oids_spec(s),
    }
}

/// OIDs, one after another.
pub open spec fn oid_list(ms: Seq<Seq<u8>>) -> Seq<u8>
    decreases ms.len(),
{
    if ms.len() == 0 {
        Seq::empty()
    } else {
        tlv(0x06, ms[0]) + oid_list(ms.drop_first())
    }
}

/// The `SEQUENCE OF OID` of mechanisms: the content of a NegTokenInit's
/// mechTypes, and what a mechListMIC covers.
pub open spec fn mech_set_der(ms: Seq<Seq<u8>>) -> Seq<u8> {
    tlv(0x30, oid_list(ms))
}

/// A field that may be left out.
pub open spec fn opt_tlv(tag: u8, inner: u8, o: Option<Seq<u8>>) -> Seq<u8> {
    match o {
        Some(v) => tlv(tag, tlv(inner, v)),
        None => Seq::empty(),
    }
}

/// The fields of a NegTokenInit.
pub open spec fn init_fields(der_mech_types: Seq<u8>, mech_token: Option<Seq<u8>>, mic: Option<Seq<u8>>, hints: bool) -> Seq<u8> {
    tlv(0xA0, der_mech_types) + opt_tlv(0xA2, 0x04, mech_token) + opt_tlv(
        0xA3,
        if hints { 0x30u8 } else { 0x04u8 },
        mic,
    )
}

/// The encoding of a NegTokenInit, with its generic framing.
pub open spec fn init_der(der_mech_types: Seq<u8>, mech_token: Option<Seq<u8>>, mic: Option<Seq<u8>>, hints: bool) -> Seq<u8> {
    tlv(
        0x60,
        tlv(0x06, MECH_SPNEGO@) + tlv(0xA0, tlv(0x30, init_fields(der_mech_types, mech_token, mic, hints))),
    )
}

/// A token as it is sent: an empty one is left out.
pub open spec fn sent_token(t: Option<Seq<u8>>) -> Option<Seq<u8>> {
    if t is Some && t->0.len() == 0 {
        None
    } else {
        t
    }
}

/// The fields of a NegTokenResp.
pub open spec fn resp_fields(state: NegState, supported: Option<Seq<u8>>, token: Option<Seq<u8>>, mic: Option<Seq<u8>>) -> Seq<u8> {
    tlv(0xA0, tlv(0x0A, seq![state.code()])) + opt_tlv(0xA1, 0x06, supported) + opt_tlv(
        0xA2,
        0x04,
        sent_token(token),
    ) + opt_tlv(0xA3, 0x04, mic)
}

/// The encoding of a NegTokenResp, unframed.
pub open spec fn resp_der(state: NegState, supported: Option<Seq<u8>>, token: Option<Seq<u8>>, mic: Option<Seq<u8>>) -> Seq<u8> {
    tlv(0xA1, tlv(0x30, resp_fields(state, supported, token, mic)))
}

/// The content of an optional field that holds one value under `tag`, or
/// `Err` when it holds something else.
pub open spec fn inner_spec(f: Option<Seq<u8>>, tag: u8) -> Result<Option<Seq<u8>>, ()> {
    match f {
        None => Ok(None),
        Some(s) => match lead_field(s, tag) {
            Some(v) => Ok(Some(v)),
            None => Err(()),
        },
    }
}

/// The request flags of a field.
pub open spec fn req_flags_spec(f: Option<Seq<u8>>) -> Result<Option<u8>, ()> {
    match f {
        None => Ok(None),
        Some(s) => if s.len() == 4 && s[0] == 0x03 && s[1] == 0x02 && s[2] == 0x01 {
            Ok(Some((s[3] / 2) as u8))
        } else {
            Err(())
        },
    }
}

/// The fields of a NegTokenInit behind its mechanisms.
pub open spec fn init_rest_spec(mech_types: Seq<Seq<u8>>, cur: Option<Seq<u8>>) -> Result<NegTokenInitV, GssError> {
    let (f1, c1) = next_field(cur, 0xA1);
    let (f2, c2) = next_field(c1, 0xA2);
    let (f3, c3) = next_field(c2, 0xA3);
    match req_flags_spec(f1) {
        Err(_) => Err(GssError::DefectiveToken),
        Ok(req_flags) => match inner_spec(f2, 0x04) {
            Err(_) => Err(GssError::Failure),
            Ok(mech_token) => match inner_spec(f3, 0x04) {
                Err(_) => Err(GssError::Failure),
                Ok(mech_list_mic) => if c3 is None {
                    Err(GssError::DefectiveToken)
                } else {
                    Ok(NegTokenInitV { mech_types, req_flags, mech_token, mech_list_mic })
                },
            },
        },
    }
}

/// The fields of a NegTokenInit, and the exact content of its mechTypes.
pub open spec fn init_fields_spec(s: Seq<u8>) -> Result<(NegTokenInitV, Seq<u8>), GssError> {
    match next_field(Some(s), 0xA0) {
        (None, _) => Err(GssError::DefectiveToken),
        (Some(field), cur) => if field.len() == 0 {
            Err(GssError::DefectiveToken)
        } else {
            match mech_set_spec(field) {
                None => Err(GssError::Failure),
                Some(ms) => match init_rest_spec(ms, cur) {
                    Err(e) => Err(e),
                    Ok(t) => Ok((t, field)),
                },
            }
        },
    }
}

/// What decoding a NegTokenInit returns.
pub open spec fn decode_init_spec(tok: Seq<u8>) -> Result<(NegTokenInitV, Seq<u8>), GssError> {
    let defective = Err(GssError::DefectiveToken);
    match lead_field(tok, 0x60) {
        None => defective,
        Some(framed) => match next_field(Some(framed), 0x06) {
            (None, _) => defective,
            (Some(oid), cur) => if oid != MECH_SPNEGO@ {
                defective
            } else {
                match next_field(cur, 0xA0) {
                    (None, _) => defective,
                    (Some(choice), _) => match lead_field(choice, 0x30) {
                        None => defective,
                        Some(s) => init_fields_spec(s),
                    },
                }
            },
        },
    }
}

/// The negState of a field.
pub open spec fn neg_state_spec(f: Option<Seq<u8>>) -> Result<Option<NegState>, ()> {
    match f {
        None => Ok(None),
        Some(s) => match lead_field(s, 0x0A) {
            None => Err(()),
            Some(en) => if en.len() != 1 {
                Err(())
            } else {
                match NegState::of_code(en[0]) {
                    Some(n) => Ok(Some(n)),
                    None => Err(()),
                }
            },
        },
    }
}

/// The MIC of a field: one that is no octet string is absent, unless a
/// response token is there.
pub open spec fn resp_mic_spec(f: Option<Seq<u8>>, token: Option<Seq<u8>>) -> Result<Option<Seq<u8>>, ()> {
    match f {
        None => Ok(None),
        Some(s) => match lead_field(s, 0x04) {
            Some(m) => Ok(if token == Some(m) { None } else { Some(m) }),
            None => if token is Some {
                Err(())
            } else {
                Ok(None)
            },
        },
    }
}

/// What decoding the fields of a NegTokenResp returns. A MIC that repeats
/// the response token is dropped.
pub open spec fn resp_fields_spec(cur: Option<Seq<u8>>) -> Result<NegTokenRespV, GssError> {
    let (f0, c0) = next_field(cur, 0xA0);
    let (f1, c1) = next_field(c0, 0xA1);
    let (f2, c2) = next_field(c1, 0xA2);
    let (f3, c3) = next_field(c2, 0xA3);
    match (neg_state_spec(f0), inner_spec(f1, 0x06), inner_spec(f2, 0x04)) {
        (Ok(neg_state), Ok(supported_mech), Ok(response_token)) => match resp_mic_spec(f3, response_token) {
            Err(_) => Err(GssError::DefectiveToken),
            Ok(mech_list_mic) => if c3 is None {
                Err(GssError::DefectiveToken)
            } else {
                Ok(NegTokenRespV { neg_state, supported_mech, response_token, mech_list_mic })
            },
        },
        _ => Err(GssError::DefectiveToken),
    }
}

/// What decoding a NegTokenResp returns. The SEQUENCE tag may be missing.
pub open spec fn decode_resp_spec(body: Seq<u8>) -> Result<NegTokenRespV, GssError> {
    match lead_field(body, 0xA1) {
        None => Err(GssError::DefectiveToken),
        Some(s) => {
            let (inner, cur) = next_field(Some(s), 0x30);
            match inner {
                Some(i) => resp_fields_spec(Some(i)),
                None => resp_fields_spec(cur),
            }
        },
    }
}

/// What a decoder returned, by its views.
pub open spec fn decoded<T: View>(r: Result<T, GssError>) -> Result<T::V, GssError> {
    match r {
        Ok(x) => Ok(x@),
        Err(e) => Err(e),
    }
}

/// An optional slice, by its view.
pub open spec fn cursor_view(c: Option<&[u8]>) -> Option<Seq<u8>> {
    match c {
        Some(s) => Some(s@),
        None => None,
    }
}

fn take_field<'a>(cur: Option<&'a [u8]>, tag: u8) -> (r: (Option<&'a [u8]>, Option<&'a [u8]>))
    ensures
        (cursor_view(r.0), cursor_view(r.1)) == next_field(cursor_view(cur), tag),
{
    let s = match cur {
        Some(s) => s,
        None => return (None, None),
    };
    if s.len() == 0 || s[0] != tag {
        return (None, cur);
    }
    if s.len() < 2 {
        return (None, None);
    }
    let (n, p): (usize, usize) = if s[1] < 0x80 {
        (s[1] as usize, 2)
    } else {
        let k: usize = (s[1] - 0x80) as usize;
        if k > s.len() - 2 {
            return (None, None);
        }
        match octets_within(s, 2, k) {
            Some(n) => (n, 2 + k),
            None => return (None, None),
        }
    };
    if n > s.len() - p {
        return (None, None);
    }
    let v = vstd::slice::slice_subrange(s, p, p + n);
    let rest = vstd::slice::slice_subrange(s, p + n, s.len());
    assert(rest@ =~= s@.skip(p + n));
    (Some(v), Some(rest))
}

fn take_lead<'a>(s: &'a [u8], tag: u8) -> (r: Option<&'a [u8]>)
    ensures
        cursor_view(r) == lead_field(s@, tag),
{
    take_field(Some(s), tag).0
}

fn take_inner(f: Option<&[u8]>, tag: u8) -> (r: Result<Option<Vec<u8>>, ()>)
    ensures
        match r {
            Ok(o) => inner_spec(cursor_view(f), tag) == Ok::<Option<Seq<u8>>, ()>(opt_view(o)),
            Err(_) => inner_spec(cursor_view(f), tag) is Err,
        },
{
    match f {
        None => Ok(None),
        Some(s) => match take_lead(s, tag) {
            Some(v) => Ok(Some(copy(v))),
            None => Err(()),
        },
    }
}

/// The `SEQUENCE OF OID` of mechanisms.
pub fn put_mech_set(mechs: &[Vec<u8>]) -> (r: Vec<u8>)
    ensures
        r@ == mech_set_der(list_view(mechs@)),
{
    let ghost ms = list_view(mechs@);
    let mut out: Vec<u8> = Vec::new();
    let mut i: usize = 0;
    assert(ms.skip(0) =~= ms);
    while i < mechs.len()
        invariant
            i <= mechs@.len(),
            ms == list_view(mechs@),
            out@ + oid_list(ms.skip(i as int)) == oid_list(ms),
        decreases mechs@.len() - i,
    {
        let one = make_tlv(0x06, &mechs[i]);
        let ghost before = out@;
        append(&mut out, &one);
        proof {
            assert(ms.skip(i as int).drop_first() =~= ms.skip(i + 1));
            assert(ms.skip(i as int)[0] == mechs@[i as int]@);
            assert(out@ + oid_list(ms.skip(i + 1)) =~= before + oid_list(ms.skip(i as int)));
        }
        i = i + 1;
    }
    assert(ms.skip(i as int).len() == 0);
    assert(out@ =~= oid_list(ms));
    make_tlv(0x30, &out)
}

/// Decode a `SEQUENCE OF OID` into OID contents: every element must be an
/// OID; anything else fails the whole decode.
pub fn get_mech_set(field: &[u8]) -> (r: Option<Vec<Vec<u8>>>)
    ensures
        match r {
            Some(v) => mech_set_spec(field@) == Some(list_view(v@)),
            None => mech_set_spec(field@) is None,
        },
{
    let s = match take_lead(field, 0x30) {
        Some(s) => s,
        None => return None,
    };
    let mut rest: &[u8] = s;
    let mut mechs: Vec<Vec<u8>> = Vec::new();
    assert(list_view(mechs@) =~= Seq::empty());
    while rest.len() > 0
        invariant
            mech_set_spec(field@) == oids_spec(s@),
            match oids_spec(rest@) {
                Some(more) => oids_spec(s@) == Some(list_view(mechs@) + more),
                None => oids_spec(s@) is None,
            },
        decreases rest@.len(),
    {
        match take_field(Some(rest), 0x06) {
            (Some(o), Some(next)) => {
                let ghost before = list_view(mechs@);
                mechs.push(copy(o));
                proof {
                    assert(list_view(mechs@) =~= before.push(o@));
                    match oids_spec(next@) {
                        Some(more) => {
                            assert(before + (seq![o@] + more) =~= list_view(mechs@) + more);
                        },
                        None => {},
                    }
                }
                rest = next;
            },
            _ => return None,
        }
    }
    assert(list_view(mechs@) + Seq::empty() =~= list_view(mechs@));
    Some(mechs)
}

fn put_opt(out: &mut Vec<u8>, tag: u8, inner: u8, o: Option<&[u8]>)
    ensures
        final(out)@ == old(out)@ + opt_tlv(tag, inner, cursor_view(o)),
{
    match o {
        Some(v) => {
            let a = make_tlv(inner, v);
            let b = make_tlv(tag, &a);
            append(out, &b);
        },
        None => {},
    }
    assert(out@ =~= old(out)@ + opt_tlv(tag, inner, cursor_view(o)));
}

/// A NegTokenInit: generic framing with the SPNEGO OID around mechTypes,
/// mechToken and mechListMIC. `der_mech_types` is the `SEQUENCE OF OID`.
/// reqFlags is never emitted. When `neg_hints_compat` is set, the [3] value
/// uses a SEQUENCE tag instead of OCTET STRING.
pub fn encode_neg_token_init(
    der_mech_types: &[u8],
    mech_token: Option<&[u8]>,
    mic: Option<&[u8]>,
    neg_hints_compat: bool,
) -> (r: Vec<u8>)
    ensures
        r@ == init_der(der_mech_types@, cursor_view(mech_token), cursor_view(mic), neg_hints_compat),
{
    let mut fields = make_tlv(0xA0, der_mech_types);
    put_opt(&mut fields, 0xA2, 0x04, mech_token);
    put_opt(&mut fields, 0xA3, if neg_hints_compat { 0x30 } else { 0x04 }, mic);
    let sequence = make_tlv(0x30, &fields);
    let choice = make_tlv(0xA0, &sequence);
    let mut framed = make_tlv(0x06, &MECH_SPNEGO);
    append(&mut framed, &choice);
    make_tlv(0x60, &framed)
}

/// A NegTokenResp, unframed: negState, supportedMech, responseToken and
/// mechListMIC. An empty responseToken is omitted.
pub fn encode_neg_token_resp(
    state: NegState,
    supported_mech: Option<&[u8]>,
    token: Option<&[u8]>,
    mic: Option<&[u8]>,
) -> (r: Vec<u8>)
    ensures
        r@ == resp_der(state, cursor_view(supported_mech), cursor_view(token), cursor_view(mic)),
{
    let mut code: Vec<u8> = Vec::new();
    code.push(state.number());
    assert(code@ =~= seq![state.code()]);
    let en = make_tlv(0x0A, &code);
    let mut fields = make_tlv(0xA0, &en);
    put_opt(&mut fields, 0xA1, 0x06, supported_mech);
    let sent = match token {
        Some(t) => if t.len() == 0 { None } else { Some(t) },
        None => None,
    };
    put_opt(&mut fields, 0xA2, 0x04, sent);
    put_opt(&mut fields, 0xA3, 0x04, mic);
    let sequence = make_tlv(0x30, &fields);
    make_tlv(0xA1, &sequence)
}

fn decode_req_flags(f: Option<&[u8]>) -> (r: Result<Option<u8>, ()>)
    ensures
        r == req_flags_spec(cursor_view(f)),
{
    match f {
        None => Ok(None),
        Some(s) => {
            if s.len() == 4 && s[0] == 0x03 && s[1] == 0x02 && s[2] == 0x01 {
                Ok(Some(s[3] / 2))
            } else {
                Err(())
            }
        },
    }
}

fn decode_init_rest(mech_types: Vec<Vec<u8>>, cur: Option<&[u8]>) -> (r: Result<NegTokenInit, GssError>)
    ensures
        decoded(r) == init_rest_spec(list_view(mech_types@), cursor_view(cur)),
{
    let (f1, c1) = take_field(cur, 0xA1);
    let req_flags = match decode_req_flags(f1) {
        Ok(x) => x,
        Err(_) => return Err(GssError::DefectiveToken),
    };
    let (f2, c2) = take_field(c1, 0xA2);
    let mech_token = match take_inner(f2, 0x04) {
        Ok(x) => x,
        Err(_) => return Err(GssError::Failure),
    };
    let (f3, c3) = take_field(c2, 0xA3);
    let mech_list_mic = match take_inner(f3, 0x04) {
        Ok(x) => x,
        Err(_) => return Err(GssError::Failure),
    };
    if c3.is_none() {
        return Err(GssError::DefectiveToken);
    }
    Ok(NegTokenInit { mech_types, req_flags, mech_token, mech_list_mic })
}

/// Decodes a NegTokenInit, which must carry generic framing with the SPNEGO
/// OID. Returns the decoded token plus the exact contents of the [0]
/// mechTypes field (the MIC input).
pub fn decode_neg_token_init(tok: &[u8]) -> (r: Result<(NegTokenInit, Vec<u8>), GssError>)
    ensures
        decoded(r) == decode_init_spec(tok@),
{
    let framed = match take_lead(tok, 0x60) {
        Some(f) => f,
        None => return Err(GssError::DefectiveToken),
    };
    let (oid, cur) = take_field(Some(framed), 0x06);
    let oid = match oid {
        Some(o) => o,
        None => return Err(GssError::DefectiveToken),
    };
    if !same(oid, &MECH_SPNEGO) {
        return Err(GssError::DefectiveToken);
    }
    let choice = match take_field(cur, 0xA0).0 {
        Some(c) => c,
        None => return Err(GssError::DefectiveToken),
    };
    let s = match take_lead(choice, 0x30) {
        Some(s) => s,
        None => return Err(GssError::DefectiveToken),
    };
    let (field, cur) = take_field(Some(s), 0xA0);
    let field = match field {
        Some(f) => f,
        None => return Err(GssError::DefectiveToken),
    };
    if field.len() == 0 {
        return Err(GssError::DefectiveToken);
    }
    let mech_types = match get_mech_set(field) {
        Some(m) => m,
        None => return Err(GssError::Failure),
    };
    match decode_init_rest(mech_types, cur) {
        Ok(t) => Ok((t, copy(field))),
        Err(e) => Err(e),
    }
}

fn decode_neg_state(f: Option<&[u8]>) -> (r: Result<Option<NegState>, ()>)
    ensures
        r == neg_state_spec(cursor_view(f)),
{
    match f {
        None => Ok(None),
        Some(s) => match take_lead(s, 0x0A) {
            None => Err(()),
            Some(en) => {
                if en.len() != 1 {
                    return Err(());
                }
                match NegState::from_number(en[0]) {
                    Some(n) => Ok(Some(n)),
                    None => Err(()),
                }
            },
        },
    }
}

fn decode_resp_mic(f: Option<&[u8]>, token: &Option<Vec<u8>>) -> (r: Result<Option<Vec<u8>>, ()>)
    ensures
        match r {
            Ok(o) => resp_mic_spec(cursor_view(f), opt_view(*token)) == Ok::<Option<Seq<u8>>, ()>(opt_view(o)),
            Err(_) => resp_mic_spec(cursor_view(f), opt_view(*token)) is Err,
        },
{
    match f {
        None => Ok(None),
        Some(s) => match take_lead(s, 0x04) {
            Some(m) => match token {
                Some(t) => if same(t, m) { Ok(None) } else { Ok(Some(copy(m))) },
                None => Ok(Some(copy(m))),
            },
            None => if token.is_some() { Err(()) } else { Ok(None) },
        },
    }
}

fn decode_resp_fields(cur: Option<&[u8]>) -> (r: Result<NegTokenResp, GssError>)
    ensures
        decoded(r) == resp_fields_spec(cursor_view(cur)),
{
    let (f0, c0) = take_field(cur, 0xA0);
    let neg_state = match decode_neg_state(f0) {
        Ok(x) => x,
        Err(_) => return Err(GssError::DefectiveToken),
    };
    let (f1, c1) = take_field(c0, 0xA1);
    let supported_mech = match take_inner(f1, 0x06) {
        Ok(x) => x,
        Err(_) => return Err(GssError::DefectiveToken),
    };
    let (f2, c2) = take_field(c1, 0xA2);
    let response_token = match take_inner(f2, 0x04) {
        Ok(x) => x,
        Err(_) => return Err(GssError::DefectiveToken),
    };
    let (f3, c3) = take_field(c2, 0xA3);
    let mech_list_mic = match decode_resp_mic(f3, &response_token) {
        Ok(x) => x,
        Err(_) => return Err(GssError::DefectiveToken),
    };
    if c3.is_none() {
        return Err(GssError::DefectiveToken);
    }
    Ok(NegTokenResp { neg_state, supported_mech, response_token, mech_list_mic })
}

/// Decodes an unframed NegTokenResp (the `[1]` choice); callers strip
/// optional generic framing first.
pub fn decode_neg_token_resp(body: &[u8]) -> (r: Result<NegTokenResp, GssError>)
    ensures
        decoded(r) == decode_resp_spec(body@),
{
    let s = match take_lead(body, 0xA1) {
        Some(s) => s,
        None => return Err(GssError::DefectiveToken),
    };
    let (inner, cur) = take_field(Some(s), 0x30);
    match inner {
        Some(i) => decode_resp_fields(Some(i)),
        None => decode_resp_fields(cur),
    }
}

/// A written field is read back, with what stands behind it.
proof fn lemma_field(tag: u8, c: Seq<u8>, rest: Seq<u8>)
    requires
        c.len() < 0x1_0000_0000_0000_0000,
    ensures
        next_field(Some(tlv(tag, c) + rest), tag) == (Some(c), Some(rest)),
        forall|t: u8|
            t != tag ==> #[trigger] next_field(Some(tlv(tag, c) + rest), t) == (None::<Seq<u8>>, Some(tlv(tag, c) + rest)),
{
    let n = c.len();
    let v = tlv(tag, c);
    let s = v + rest;
    let h = len_octets(n);
    reveal_with_fuel(pow256, 9);
    lemma_be_min(n);
    assert(s[0] == tag);
    assert(s[1] == h[0]);
    if n >= 128 {
        let k = be_min(n).len();
        assert(k <= 8);
        assert(s.subrange(2, 2 + k as int) =~= be_min(n));
    }
    assert(s.subrange(v.len() - n, v.len() as int) =~= c);
    assert(s.skip(v.len() as int) =~= rest);
}

proof fn lemma_lead(tag: u8, c: Seq<u8>)
    requires
        c.len() < 0x1_0000_0000_0000_0000,
    ensures
        lead_field(tlv(tag, c), tag) == Some(c),
{
    lemma_field(tag, c, Seq::empty());
    assert(tlv(tag, c) + Seq::empty() =~= tlv(tag, c));
}

/// An optional field that was written is read back, and its content too.
proof fn lemma_opt_field(tag: u8, inner: u8, o: Option<Seq<u8>>, rest: Seq<u8>)
    requires
        opt_tlv(tag, inner, o).len() < 0x1_0000_0000_0000_0000,
        rest.len() == 0 || rest[0] != tag,
    ensures
        ({
            let (f, c) = next_field(Some(opt_tlv(tag, inner, o) + rest), tag);
            c == Some(rest) && inner_spec(f, inner) == Ok::<Option<Seq<u8>>, ()>(o) && (f is Some <==> o is Some)
        }),
{
    match o {
        Some(v) => {
            lemma_field(tag, tlv(inner, v), rest);
            lemma_lead(inner, v);
        },
        None => {
            assert(opt_tlv(tag, inner, o) + rest =~= rest);
        },
    }
}

proof fn lemma_oids(ms: Seq<Seq<u8>>)
    requires
        oid_list(ms).len() < 0x1_0000_0000_0000_0000,
    ensures
        oids_spec(oid_list(ms)) == Some(ms),
    decreases ms.len(),
{
    if ms.len() > 0 {
        lemma_oids(ms.drop_first());
        lemma_field(0x06, ms[0], oid_list(ms.drop_first()));
        assert(seq![ms[0]] + ms.drop_first() =~= ms);
    } else {
        assert(ms =~= Seq::empty());
    }
}

proof fn lemma_first_octets(mech_token: Option<Seq<u8>>, mic: Option<Seq<u8>>)
    ensures
        ({
            let s = opt_tlv(0xA2, 0x04, mech_token) + opt_tlv(0xA3, 0x04, mic);
            s.len() == 0 || s[0] == 0xA2 || s[0] == 0xA3
        }),
        ({
            let s = opt_tlv(0xA3, 0x04, mic);
            s.len() == 0 || s[0] == 0xA3
        }),
{
}

proof fn lemma_init_rest(ms: Seq<Seq<u8>>, mech_token: Option<Seq<u8>>, mic: Option<Seq<u8>>)
    requires
        opt_tlv(0xA2, 0x04, mech_token).len() + opt_tlv(0xA3, 0x04, mic).len() < 0x1_0000_0000_0000_0000,
    ensures
        init_rest_spec(ms, Some(opt_tlv(0xA2, 0x04, mech_token) + opt_tlv(0xA3, 0x04, mic))) == Ok::<
            NegTokenInitV,
            GssError,
        >(NegTokenInitV { mech_types: ms, req_flags: None, mech_token, mech_list_mic: mic }),
{
    let b = opt_tlv(0xA3, 0x04, mic);
    lemma_first_octets(mech_token, mic);
    lemma_opt_field(0xA2, 0x04, mech_token, b);
    lemma_opt_field(0xA3, 0x04, mic, Seq::empty());
    assert(b + Seq::empty() =~= b);
}

proof fn lemma_init_fields(ms: Seq<Seq<u8>>, mech_token: Option<Seq<u8>>, mic: Option<Seq<u8>>)
    requires
        init_fields(mech_set_der(ms), mech_token, mic, false).len() < 0x1_0000_0000_0000_0000,
    ensures
        init_fields_spec(init_fields(mech_set_der(ms), mech_token, mic, false)) == Ok::<
            (NegTokenInitV, Seq<u8>),
            GssError,
        >(
            (
                NegTokenInitV { mech_types: ms, req_flags: None, mech_token, mech_list_mic: mic },
                mech_set_der(ms),
            ),
        ),
{
    let dm = mech_set_der(ms);
    let a = opt_tlv(0xA2, 0x04, mech_token);
    let b = opt_tlv(0xA3, 0x04, mic);
    assert(init_fields(dm, mech_token, mic, false) =~= tlv(0xA0, dm) + (a + b));
    lemma_field(0xA0, dm, a + b);
    lemma_lead(0x30, oid_list(ms));
    lemma_oids(ms);
    lemma_init_rest(ms, mech_token, mic);
}

/// A NegTokenInit reads back: decoding what was encoded gives the mechanisms,
/// the token and the MIC, and the exact octets that a MIC covers. It holds of
/// every token short of 2^64 octets.
pub proof fn law_init_round_trip(ms: Seq<Seq<u8>>, mech_token: Option<Seq<u8>>, mic: Option<Seq<u8>>)
    requires
        init_der(mech_set_der(ms), mech_token, mic, false).len() < 0x1_0000_0000_0000_0000,
    ensures
        decode_init_spec(init_der(mech_set_der(ms), mech_token, mic, false)) == Ok::<
            (NegTokenInitV, Seq<u8>),
            GssError,
        >(
            (
                NegTokenInitV { mech_types: ms, req_flags: None, mech_token, mech_list_mic: mic },
                mech_set_der(ms),
            ),
        ),
{
    let fields = init_fields(mech_set_der(ms), mech_token, mic, false);
    let choice = tlv(0x30, fields);
    let framed = tlv(0x06, MECH_SPNEGO@) + tlv(0xA0, choice);
    lemma_lead(0x60, framed);
    lemma_field(0x06, MECH_SPNEGO@, tlv(0xA0, choice));
    lemma_field(0xA0, choice, Seq::empty());
    assert(tlv(0xA0, choice) + Seq::empty() =~= tlv(0xA0, choice));
    lemma_lead(0x30, fields);
    lemma_init_fields(ms, mech_token, mic);
}

/// A NegTokenResp reads back: decoding what was encoded gives its fields,
/// but for an empty response token, which is not sent, and a MIC that is the
/// same as the response token, which is dropped. It holds of every token
/// short of 2^64 octets.
pub proof fn law_resp_round_trip(state: NegState, supported: Option<Seq<u8>>, token: Option<Seq<u8>>, mic: Option<Seq<u8>>)
    requires
        resp_der(state, supported, token, mic).len() < 0x1_0000_0000_0000_0000,
    ensures
        decode_resp_spec(resp_der(state, supported, token, mic)) == Ok::<NegTokenRespV, GssError>(
            NegTokenRespV {
                neg_state: Some(state),
                supported_mech: supported,
                response_token: sent_token(token),
                mech_list_mic: if mic is Some && sent_token(token) == mic { None } else { mic },
            },
        ),
{
    let t = sent_token(token);
    let a = opt_tlv(0xA1, 0x06, supported);
    let b = opt_tlv(0xA2, 0x04, t);
    let c = opt_tlv(0xA3, 0x04, mic);
    let en = tlv(0x0A, seq![state.code()]);
    let fields = resp_fields(state, supported, token, mic);
    assert(fields =~= tlv(0xA0, en) + (a + (b + c)));
    lemma_lead(0xA1, tlv(0x30, fields));
    lemma_field(0x30, fields, Seq::empty());
    assert(tlv(0x30, fields) + Seq::empty() =~= tlv(0x30, fields));
    lemma_field(0xA0, en, a + (b + c));
    lemma_lead(0x0A, seq![state.code()]);
    lemma_first_octets(t, mic);
    lemma_opt_field(0xA1, 0x06, supported, b + c);
    lemma_opt_field(0xA2, 0x04, t, c);
    lemma_opt_field(0xA3, 0x04, mic, Seq::empty());
    assert(c + Seq::empty() =~= c);
    if mic is Some {
        lemma_lead(0x04, mic->0);
        lemma_field(0xA3, tlv(0x04, mic->0), Seq::empty());
    }
}

} // verus!
