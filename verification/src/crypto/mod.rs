//! Kerberos encryption and checksum framework.
//!
//! Encryption type profiles stand behind the [`EtypeProfile`] trait, with
//! lookup by etype number and by checksum type.
use vstd::prelude::*;

use crate::bytes::append;
use crate::types::{EncryptionKey, EncryptionKeyV};

pub mod aes_cts;
pub mod key_usage;
pub mod laws;
pub mod nfold;
pub mod primitives;
pub mod profile;

pub use profile::{Aes128CtsHmacSha196, Aes128CtsHmacSha256128, Aes256CtsHmacSha196, Aes256CtsHmacSha384192, EtypeProfile, Profile};

use aes_cts::xor_seq;
use profile::{key_len, known, prf_len, prf_spec, res_view};

verus! {

/// Errors from cryptographic operations.
#[derive(Debug, Clone, Copy, PartialEq, Eq, Structural)]
pub enum CryptoError {
    /// Integrity check (HMAC) failed during decryption.
    IntegrityFailure,
    /// Input too short for the expected operation.
    InputTooShort,
    /// Key size does not match the expected length.
    BadKeySize,
    /// Invalid string-to-key parameters.
    BadParams,
    /// Checksum verification failed.
    ChecksumMismatch,
    /// Requested encryption type is not supported/registered.
    UnsupportedEtype,
}

impl CryptoError {
    /// The message text of this error.
    pub open spec fn text(self) -> Seq<char> {
        match self {
            CryptoError::IntegrityFailure => "integrity check failed"@,
            CryptoError::InputTooShort => "input too short for decryption"@,
            CryptoError::BadKeySize => "invalid key size"@,
            CryptoError::BadParams => "invalid string-to-key parameters"@,
            CryptoError::ChecksumMismatch => "checksum mismatch"@,
            CryptoError::UnsupportedEtype => "unsupported encryption type"@,
        }
    }

    /// The message text of this error.
    pub fn message(&self) -> (r: String)
        ensures
            r@ == self.text(),
    {
        let s = match self {
            CryptoError::IntegrityFailure => "integrity check failed",
            CryptoError::InputTooShort => "input too short for decryption",
            CryptoError::BadKeySize => "invalid key size",
            CryptoError::BadParams => "invalid string-to-key parameters",
            CryptoError::ChecksumMismatch => "checksum mismatch",
            CryptoError::UnsupportedEtype => "unsupported encryption type",
        };
        s.to_owned()
    }
}

/// Purpose of a derived sub-key — the fifth byte of the derivation constant.
#[derive(Debug, Clone, Copy, PartialEq, Eq, Structural)]
pub enum KeyPurpose {
    /// Encryption sub-key (Ke) — derivation byte 0xAA.
    Encryption,
    /// Integrity sub-key (Ki) — derivation byte 0x55.
    Integrity,
    /// Checksum sub-key (Kc) — derivation byte 0x99.
    Checksum,
}

impl KeyPurpose {
    /// The derivation-constant byte for this purpose.
    pub open spec fn octet(self) -> u8 {
        match self {
            KeyPurpose::Encryption => 0xAA,
            KeyPurpose::Integrity => 0x55,
            KeyPurpose::Checksum => 0x99,
        }
    }

    /// The derivation-constant byte for this purpose.
    pub fn byte(self) -> (r: u8)
        ensures
            r == self.octet(),
    {
        match self {
            KeyPurpose::Encryption => 0xAA,
            KeyPurpose::Integrity => 0x55,
            KeyPurpose::Checksum => 0x99,
        }
    }
}

/// Look up an etype implementation by number.
pub fn find_etype(etype: i32) -> (r: Result<Profile, CryptoError>)
    ensures
        match r {
            Ok(p) => known(etype) && p.number() == etype,
            Err(e) => !known(etype) && e == CryptoError::UnsupportedEtype,
        },
{
    if etype == 17 {
        Ok(Profile::Aes128Sha1(Aes128CtsHmacSha196))
    } else if etype == 18 {
        Ok(Profile::Aes256Sha1(Aes256CtsHmacSha196))
    } else if etype == 19 {
        Ok(Profile::Aes128Sha2(Aes128CtsHmacSha256128))
    } else if etype == 20 {
        Ok(Profile::Aes256Sha2(Aes256CtsHmacSha384192))
    } else {
        Err(CryptoError::UnsupportedEtype)
    }
}

/// The etype whose mandatory checksum type is `c`.
pub open spec fn etype_of_cksum(c: i32) -> Option<i32> {
    if c == 15 {
        Some(17i32)
    } else if c == 16 {
        Some(18i32)
    } else if c == 19 || c == 20 {
        Some(c)
    } else {
        None
    }
}

/// Look up the profile whose mandatory checksum type matches `cksumtype`:
/// 15 is that of etype 17, 16 of 18, 19 of 19 and 20 of 20.
pub fn find_cksumtype(cksumtype: i32) -> (r: Result<Profile, CryptoError>)
    ensures
        match r {
            Ok(p) => etype_of_cksum(cksumtype) == Some(p.number()),
            Err(e) => etype_of_cksum(cksumtype) is None && e == CryptoError::UnsupportedEtype,
        },
{
    if cksumtype == 15 {
        find_etype(17)
    } else if cksumtype == 16 {
        find_etype(18)
    } else if cksumtype == 19 {
        find_etype(19)
    } else if cksumtype == 20 {
        find_etype(20)
    } else {
        Err(CryptoError::UnsupportedEtype)
    }
}

/// Checksum types and etypes are looked up consistently: the profile found for
/// a checksum type has that type as its mandatory one, and the profile of
/// every etype is found by its mandatory checksum type.
pub proof fn law_cksumtype_inverse(e: i32, c: i32)
    ensures
        known(e) ==> etype_of_cksum(profile::cksum_type(e)) == Some(e),
        etype_of_cksum(c) is Some ==> profile::cksum_type(etype_of_cksum(c)->0) == c,
{
}

/// PRF+ as a sequence: octet `i` is octet `i % L` of the block that
/// the pseudo-random function makes of `(i / L + 1) || input`.
pub open spec fn prf_plus_octets(e: i32, key: Seq<u8>, input: Seq<u8>, n: nat) -> Seq<u8> {
    Seq::new(
        n,
        |i: int|
            prf_spec(e, key, seq![(i / prf_len(e) as int + 1) as u8] + input)->Ok_0[i % prf_len(
                e,
            ) as int],
    )
}

/// What PRF+ returns.
pub open spec fn prf_plus_spec(e: i32, key: Seq<u8>, input: Seq<u8>, n: nat) -> Result<
    Seq<u8>,
    CryptoError,
> {
    if n > 255 * prf_len(e) {
        Err(CryptoError::BadParams)
    } else if n > 0 && key.len() != key_len(e) {
        Err(CryptoError::BadKeySize)
    } else {
        Ok(prf_plus_octets(e, key, input, n))
    }
}

/// PRF+ — `PRF(key, 1||input) || PRF(key, 2||input) || ...`
/// truncated to `out_len` bytes.
pub fn prf_plus<P: EtypeProfile>(profile: &P, key: &[u8], input: &[u8], out_len: usize) -> (r: Result<
    Vec<u8>,
    CryptoError,
>)
    ensures
        res_view(r) == prf_plus_spec(profile.number(), key@, input@, out_len as nat),
        r is Ok ==> r->Ok_0@.len() == out_len,
{
    let e: i32 = profile.etype();
    let prflen: usize = profile.prf_length();
    if out_len > 255 * prflen {
        return Err(CryptoError::BadParams);
    }
    let mut out: Vec<u8> = Vec::new();
    let mut i: usize = 0;
    while out.len() < out_len
        invariant
            known(e),
            e == profile.number(),
            prflen == prf_len(e),
            16 <= prflen <= 48,
            out_len <= 255 * prflen,
            i <= 255,
            out@ == prf_plus_octets(e, key@, input@, out@.len()),
            out@.len() <= out_len,
            out@.len() == i * prflen || out@.len() == out_len,
            out@.len() > 0 ==> key@.len() == key_len(e),
        decreases out_len - out.len(),
    {
        let mut prf_in: Vec<u8> = Vec::new();
        assert(i < 255) by (nonlinear_arith)
            requires
                i * prflen < 255 * prflen,
                prflen >= 1,
        ;
        prf_in.push((i + 1) as u8);
        append(&mut prf_in, input);
        assert(prf_in@ =~= seq![(i + 1) as u8] + input@);
        let block = match profile.prf(key, &prf_in) {
            Ok(b) => b,
            Err(x) => return Err(x),
        };
        let room: usize = out_len - out.len();
        let take: usize = if prflen < room { prflen } else { room };
        let ghost before = out@;
        let mut j: usize = 0;
        while j < take
            invariant
                j <= take,
                take <= prflen,
                before.len() + take <= out_len,
                block@.len() == prflen,
                16 <= prflen <= 48,
                i < 255,
                before.len() == i * prflen,
                prflen == prf_len(e),
                prf_in@ == seq![(i + 1) as u8] + input@,
                Ok::<Seq<u8>, CryptoError>(block@) == prf_spec(e, key@, prf_in@),
                out@.len() == before.len() + j,
                before == prf_plus_octets(e, key@, input@, before.len()),
                out@ == prf_plus_octets(e, key@, input@, out@.len()),
            decreases take - j,
        {
            out.push(block[j]);
            proof {
                let k = before.len() + j;
                assert(k / prflen as int == i && k % prflen as int == j) by {
                    vstd::arithmetic::div_mod::lemma_fundamental_div_mod_converse(
                        k as int,
                        prflen as int,
                        i as int,
                        j as int,
                    );
                }
                assert(out@ =~= prf_plus_octets(e, key@, input@, out@.len()));
            }
            j = j + 1;
        }
        assert((i + 1) * prflen == i * prflen + prflen) by (nonlinear_arith);
        i = i + 1;
    }
    Ok(out)
}

/// What combining two keys returns.
pub open spec fn fx_cf2_spec(k1: EncryptionKeyV, pepper1: Seq<u8>, k2: EncryptionKeyV, pepper2: Seq<u8>) -> Result<
    EncryptionKeyV,
    CryptoError,
> {
    if !known(k1.keytype) {
        Err(CryptoError::UnsupportedEtype)
    } else if k1.keyvalue.len() != key_len(k1.keytype) {
        Err(CryptoError::BadKeySize)
    } else if !known(k2.keytype) {
        Err(CryptoError::UnsupportedEtype)
    } else if k2.keyvalue.len() != key_len(k2.keytype) {
        Err(CryptoError::BadKeySize)
    } else {
        let n = key_len(k1.keytype);
        Ok(
            EncryptionKeyV {
                keytype: k1.keytype,
                keyvalue: xor_seq(
                    prf_plus_octets(k1.keytype, k1.keyvalue, pepper1, n),
                    prf_plus_octets(k2.keytype, k2.keyvalue, pepper2, n),
                ),
            },
        )
    }
}

/// What a fallible key computation returned.
pub open spec fn key_res_view(r: Result<EncryptionKey, CryptoError>) -> Result<EncryptionKeyV, CryptoError> {
    match r {
        Ok(k) => Ok(k@),
        Err(e) => Err(e),
    }
}

/// KRB-FX-CF2 — combine two keys into one of `k1`'s enctype.
pub fn fx_cf2(k1: &EncryptionKey, pepper1: &[u8], k2: &EncryptionKey, pepper2: &[u8]) -> (r: Result<
    EncryptionKey,
    CryptoError,
>)
    ensures
        key_res_view(r) == fx_cf2_spec(k1@, pepper1@, k2@, pepper2@),
{
    let out_profile = match find_etype(k1.keytype) {
        Ok(p) => p,
        Err(x) => return Err(x),
    };
    let n: usize = out_profile.key_bytes();
    let a = match prf_plus(&out_profile, k1.key_bytes(), pepper1, n) {
        Ok(v) => v,
        Err(x) => return Err(x),
    };
    let second = match find_etype(k2.keytype) {
        Ok(p) => p,
        Err(x) => return Err(x),
    };
    let b = match prf_plus(&second, k2.key_bytes(), pepper2, n) {
        Ok(v) => v,
        Err(x) => return Err(x),
    };
    let mut xored: Vec<u8> = Vec::new();
    let mut i: usize = 0;
    while i < n
        invariant
            i <= n,
            a@.len() == n,
            b@.len() == n,
            xored@ == xor_seq(a@, b@).subrange(0, i as int),
        decreases n - i,
    {
        xored.push(a[i] ^ b[i]);
        i = i + 1;
        assert(xored@ =~= xor_seq(a@, b@).subrange(0, i as int));
    }
    assert(xored@ =~= xor_seq(a@, b@));
    match out_profile.random_to_key(&xored) {
        Ok(key) => Ok(EncryptionKey::new(k1.keytype, key)),
        Err(x) => Err(x),
    }
}

/// What deriving a fresh key returns.
pub open spec fn derive_prfplus_spec(k: EncryptionKeyV, input: Seq<u8>, out_etype: i32) -> Result<
    EncryptionKeyV,
    CryptoError,
> {
    let etype = if out_etype == 0 { k.keytype } else { out_etype };
    if !known(etype) || !known(k.keytype) {
        Err(CryptoError::UnsupportedEtype)
    } else if k.keyvalue.len() != key_len(k.keytype) {
        Err(CryptoError::BadKeySize)
    } else {
        Ok(
            EncryptionKeyV {
                keytype: etype,
                keyvalue: prf_plus_octets(k.keytype, k.keyvalue, input, key_len(etype)),
            },
        )
    }
}

/// Derive a fresh key of `out_etype` via PRF+. `out_etype` 0 keeps `k`'s
/// enctype.
pub fn derive_prfplus(k: &EncryptionKey, input: &[u8], out_etype: i32) -> (r: Result<
    EncryptionKey,
    CryptoError,
>)
    ensures
        key_res_view(r) == derive_prfplus_spec(k@, input@, out_etype),
{
    let etype: i32 = if out_etype == 0 { k.keytype } else { out_etype };
    let out_profile = match find_etype(etype) {
        Ok(p) => p,
        Err(x) => return Err(x),
    };
    let profile = match find_etype(k.keytype) {
        Ok(p) => p,
        Err(x) => return Err(x),
    };
    let rnd = match prf_plus(&profile, k.key_bytes(), input, out_profile.key_bytes()) {
        Ok(v) => v,
        Err(x) => return Err(x),
    };
    match out_profile.random_to_key(&rnd) {
        Ok(key) => Ok(EncryptionKey::new(etype, key)),
        Err(x) => Err(x),
    }
}

} // verus!
