//! The four AES encryption types: aes-cts-hmac-sha1-96 and
//! aes-cts-hmac-sha2.
use vstd::prelude::*;
use vstd::utf8::{encode_utf8, is_ascii_chars_encode_utf8};

use crate::bytes::{append, be32, concat, copy, cut, first_n, get_be32, head, put_be32, read_be32, to_u32, u32_of, zero_bytes, zeros};
use crate::crypto::aes_cts::{aes_cts_decrypt, aes_cts_encrypt, cts_dec, cts_enc};
use crate::crypto::nfold::{dk, dk_spec};
use crate::crypto::primitives::{compute_hmac_sha1, compute_hmac_sha256, compute_hmac_sha384, compute_pbkdf2_sha1, compute_pbkdf2_sha256, compute_pbkdf2_sha384, compute_sha1, ct_same, generate_random, hmac_sha1, hmac_sha256, hmac_sha384, pbkdf2_sha1, pbkdf2_sha256, pbkdf2_sha384, sha1_digest};
use crate::crypto::{CryptoError, KeyPurpose};

verus! {

/// What a fallible operation on bytes returned.
pub open spec fn res_view(r: Result<Vec<u8>, CryptoError>) -> Result<Seq<u8>, CryptoError> {
    match r {
        Ok(v) => Ok(v@),
        Err(e) => Err(e),
    }
}

/// An optional slice, as an optional sequence.
pub open spec fn opt_seq(o: Option<&[u8]>) -> Option<Seq<u8>> {
    match o {
        Some(v) => Some(v@),
        None => None,
    }
}

/// The registered encryption types.
pub open spec fn known(e: i32) -> bool {
    17 <= e <= 20
}

/// Whether `e` is one of the SHA-1 types.
pub open spec fn is_sha1(e: i32) -> bool {
    e == 17 || e == 18
}

/// Key length in octets.
pub open spec fn key_len(e: i32) -> nat {
    if e == 17 || e == 19 { 16 } else { 32 }
}

/// Length of the integrity tag and of a checksum.
pub open spec fn mac_len(e: i32) -> nat {
    if is_sha1(e) { 12 } else if e == 19 { 16 } else { 24 }
}

/// The mandatory checksum type.
pub open spec fn cksum_type(e: i32) -> i32 {
    if e == 17 { 15 } else if e == 18 { 16 } else { e }
}

/// Length of one output block of the pseudo-random function.
pub open spec fn prf_len(e: i32) -> nat {
    if is_sha1(e) { 16 } else if e == 19 { 32 } else { 48 }
}

/// The keyed hash of the SHA-2 types.
pub open spec fn hmac_sha2(e: i32, key: Seq<u8>, data: Seq<u8>) -> Seq<u8> {
    if e == 19 { hmac_sha256(key, data) } else { hmac_sha384(key, data) }
}

/// The octets of a text constant.
pub open spec fn text(s: Seq<char>) -> Seq<u8> {
    encode_utf8(s)
}

/// KDF-HMAC-SHA2, `n` octets.
pub open spec fn kdf_spec(e: i32, key: Seq<u8>, label: Seq<u8>, context: Seq<u8>, n: nat) -> Seq<u8> {
    head(
        hmac_sha2(e, key, be32(1) + label + seq![0u8] + context + be32((n * 8) as u32)),
        n,
    )
}

/// The label of a key usage and purpose.
pub open spec fn usage_label(usage: i32, purpose: KeyPurpose) -> Seq<u8> {
    be32(u32_of(usage)).push(purpose.octet())
}

/// The sub-key for `usage` and `purpose`.
pub open spec fn derive_spec(e: i32, key: Seq<u8>, usage: i32, purpose: KeyPurpose) -> Result<
    Seq<u8>,
    CryptoError,
> {
    if key.len() != key_len(e) {
        Err(CryptoError::BadKeySize)
    } else if is_sha1(e) {
        Ok(dk_spec(key, usage_label(usage, purpose), key_len(e)))
    } else if usage < 0 {
        Err(CryptoError::BadParams)
    } else {
        let n = if purpose == KeyPurpose::Encryption { key_len(e) } else { mac_len(e) };
        Ok(kdf_spec(e, key, usage_label(usage, purpose), Seq::empty(), n))
    }
}

/// The integrity tag: over the plaintext for SHA-1, over the ciphertext
/// behind a zero initial vector for SHA-2.
pub open spec fn tag_spec(e: i32, ki: Seq<u8>, plain: Seq<u8>, ct: Seq<u8>) -> Seq<u8> {
    if is_sha1(e) {
        head(hmac_sha1(ki, plain), 12)
    } else {
        head(hmac_sha2(e, ki, zeros(16) + ct), mac_len(e))
    }
}

/// Encryption of `plain` with the given confounder.
pub open spec fn enc_spec(e: i32, key: Seq<u8>, usage: i32, confounder: Seq<u8>, plain: Seq<u8>) -> Result<
    Seq<u8>,
    CryptoError,
> {
    match (
        derive_spec(e, key, usage, KeyPurpose::Encryption),
        derive_spec(e, key, usage, KeyPurpose::Integrity),
    ) {
        (Ok(ke), Ok(ki)) => {
            let ct = cts_enc(ke, confounder + plain);
            Ok(ct + tag_spec(e, ki, confounder + plain, ct))
        },
        (Err(x), _) => Err(x),
        (_, Err(x)) => Err(x),
    }
}

/// Decryption of `c`: the tag is checked and the confounder dropped.
pub open spec fn dec_spec(e: i32, key: Seq<u8>, usage: i32, c: Seq<u8>) -> Result<Seq<u8>, CryptoError> {
    let short = c.len() < mac_len(e) + 16;
    match (
        derive_spec(e, key, usage, KeyPurpose::Encryption),
        derive_spec(e, key, usage, KeyPurpose::Integrity),
    ) {
        (Ok(ke), Ok(ki)) => if short {
            Err(CryptoError::InputTooShort)
        } else {
            let n = c.len() - mac_len(e);
            let ct = c.subrange(0, n);
            let p = cts_dec(ke, ct);
            if tag_spec(e, ki, p, ct) == c.subrange(n, c.len() as int) {
                Ok(p.skip(16))
            } else {
                Err(CryptoError::IntegrityFailure)
            }
        },
        // The SHA-2 types look at the length before the key.
        (Err(x), _) => if short && !is_sha1(e) {
            Err(CryptoError::InputTooShort)
        } else {
            Err(x)
        },
        (_, Err(x)) => Err(x),
    }
}

/// The keyed checksum of `data`.
pub open spec fn cksum_spec(e: i32, key: Seq<u8>, usage: i32, data: Seq<u8>) -> Result<
    Seq<u8>,
    CryptoError,
> {
    match derive_spec(e, key, usage, KeyPurpose::Checksum) {
        Ok(kc) => Ok(
            if is_sha1(e) {
                head(hmac_sha1(kc, data), 12)
            } else {
                head(hmac_sha2(e, kc, data), mac_len(e))
            },
        ),
        Err(x) => Err(x),
    }
}

/// What checking a received checksum returns.
pub open spec fn verify_spec(e: i32, key: Seq<u8>, usage: i32, data: Seq<u8>, sum: Seq<u8>) -> Result<
    (),
    CryptoError,
> {
    match cksum_spec(e, key, usage, data) {
        Ok(s) => if s == sum {
            Ok(())
        } else {
            Err(CryptoError::ChecksumMismatch)
        },
        Err(x) => Err(x),
    }
}

/// The PBKDF2 round count that string-to-key parameters ask for.
pub open spec fn rounds_spec(e: i32, params: Option<Seq<u8>>) -> Result<u32, CryptoError> {
    match params {
        None => Ok(if is_sha1(e) { 4096u32 } else { 32768u32 }),
        Some(p) => if p.len() != 4 || get_be32(p, 0) == 0 {
            Err(CryptoError::BadParams)
        } else {
            Ok(get_be32(p, 0))
        },
    }
}

/// The enctype name that peppers the salt of the SHA-2 types.
pub open spec fn enctype_name(e: i32) -> Seq<char> {
    if e == 19 { "aes128-cts-hmac-sha256-128"@ } else { "aes256-cts-hmac-sha384-192"@ }
}

/// The key of a password.
pub open spec fn s2k_spec(e: i32, password: Seq<u8>, salt: Seq<u8>, params: Option<Seq<u8>>) -> Result<
    Seq<u8>,
    CryptoError,
> {
    match rounds_spec(e, params) {
        Err(x) => Err(x),
        Ok(rounds) => {
            let peppered = text(enctype_name(e)) + seq![0u8] + salt;
            let n = key_len(e);
            Ok(
                if is_sha1(e) {
                    dk_spec(pbkdf2_sha1(password, salt, rounds, n), text("kerberos"@), n)
                } else if e == 19 {
                    kdf_spec(e, pbkdf2_sha256(password, peppered, rounds, n), text("kerberos"@), Seq::empty(), n)
                } else {
                    kdf_spec(e, pbkdf2_sha384(password, peppered, rounds, n), text("kerberos"@), Seq::empty(), n)
                },
            )
        },
    }
}

/// One block of the pseudo-random function.
pub open spec fn prf_spec(e: i32, key: Seq<u8>, input: Seq<u8>) -> Result<Seq<u8>, CryptoError> {
    if key.len() != key_len(e) {
        Err(CryptoError::BadKeySize)
    } else if is_sha1(e) {
        Ok(cts_enc(dk_spec(key, text("prf"@), key_len(e)), head(sha1_digest(input), 16)))
    } else {
        Ok(kdf_spec(e, key, text("prf"@), input, prf_len(e)))
    }
}

/// The protocol key of random octets.
pub open spec fn r2k_spec(e: i32, random: Seq<u8>) -> Result<Seq<u8>, CryptoError> {
    if random.len() != key_len(e) {
        Err(CryptoError::BadKeySize)
    } else {
        Ok(random)
    }
}

proof fn lemma_text_constants()
    ensures
        text("kerberos"@).len() == 8,
        text("prf"@).len() == 3,
{
    reveal_strlit("kerberos");
    reveal_strlit("prf");
    is_ascii_chars_encode_utf8("kerberos"@);
    is_ascii_chars_encode_utf8("prf"@);
}

fn hmac_for(e: i32, key: &[u8], data: &[u8]) -> (r: Vec<u8>)
    requires
        e == 19 || e == 20,
    ensures
        r@ == hmac_sha2(e, key@, data@),
        r@.len() == prf_len(e),
{
    if e == 19 {
        compute_hmac_sha256(key, data)
    } else {
        compute_hmac_sha384(key, data)
    }
}

fn kdf_hmac_sha2(e: i32, key: &[u8], label: &[u8], context: &[u8], n: usize) -> (r: Vec<u8>)
    requires
        e == 19 || e == 20,
        n <= prf_len(e),
    ensures
        r@ == kdf_spec(e, key@, label@, context@, n as nat),
        r@.len() == n,
{
    let mut data: Vec<u8> = Vec::new();
    put_be32(&mut data, 1);
    append(&mut data, label);
    data.push(0);
    append(&mut data, context);
    put_be32(&mut data, (n * 8) as u32);
    assert(data@ =~= be32(1) + label@ + seq![0u8] + context@ + be32((n * 8) as u32));
    let out = hmac_for(e, key, &data);
    first_n(&out, n)
}

fn key_length_of(e: i32) -> (r: usize)
    requires
        known(e),
    ensures
        r == key_len(e),
{
    if e == 17 || e == 19 { 16 } else { 32 }
}

fn mac_length_of(e: i32) -> (r: usize)
    requires
        known(e),
    ensures
        r == mac_len(e),
{
    if e == 17 || e == 18 { 12 } else if e == 19 { 16 } else { 24 }
}

fn derive(e: i32, key: &[u8], usage: i32, purpose: KeyPurpose) -> (r: Result<Vec<u8>, CryptoError>)
    requires
        known(e),
    ensures
        res_view(r) == derive_spec(e, key@, usage, purpose),
        r is Ok && purpose == KeyPurpose::Encryption ==> r->Ok_0@.len() == key_len(e),
{
    let n: usize = key_length_of(e);
    if key.len() != n {
        return Err(CryptoError::BadKeySize);
    }
    let mut label: Vec<u8> = Vec::new();
    put_be32(&mut label, to_u32(usage));
    label.push(purpose.byte());
    assert(label@ =~= usage_label(usage, purpose));
    if e == 17 || e == 18 {
        return Ok(dk(key, &label, n));
    }
    if usage < 0 {
        return Err(CryptoError::BadParams);
    }
    let out: usize = match purpose {
        KeyPurpose::Encryption => n,
        KeyPurpose::Integrity => mac_length_of(e),
        KeyPurpose::Checksum => mac_length_of(e),
    };
    let empty: Vec<u8> = Vec::new();
    assert(empty@ =~= Seq::<u8>::empty());
    Ok(kdf_hmac_sha2(e, key, &label, &empty, out))
}

fn tag_of(e: i32, ki: &[u8], plain: &[u8], ct: &[u8]) -> (r: Vec<u8>)
    requires
        known(e),
    ensures
        r@ == tag_spec(e, ki@, plain@, ct@),
        r@.len() == mac_len(e),
{
    if e == 17 || e == 18 {
        first_n(&compute_hmac_sha1(ki, plain), 12)
    } else {
        let input = concat(&zero_bytes(16), ct);
        first_n(&hmac_for(e, ki, &input), mac_length_of(e))
    }
}

/// Encrypts `plain` under etype `e` with the given confounder. What comes out
/// decrypts to `plain` again.
pub fn encrypt_with(e: i32, key: &[u8], usage: i32, confounder: &[u8], plain: &[u8]) -> (r: Result<
    Vec<u8>,
    CryptoError,
>)
    requires
        known(e),
        confounder@.len() == 16,
    ensures
        res_view(r) == enc_spec(e, key@, usage, confounder@, plain@),
        r is Ok ==> dec_spec(e, key@, usage, r->Ok_0@) == Ok::<Seq<u8>, CryptoError>(plain@),
        r is Ok ==> r->Ok_0@.len() == plain@.len() + 16 + mac_len(e),
        r is Ok <==> derive_spec(e, key@, usage, KeyPurpose::Encryption) is Ok,
{
    let ke = match derive(e, key, usage, KeyPurpose::Encryption) {
        Ok(k) => k,
        Err(x) => return Err(x),
    };
    let ki = match derive(e, key, usage, KeyPurpose::Integrity) {
        Ok(k) => k,
        Err(x) => return Err(x),
    };
    let data = concat(confounder, plain);
    let ct = match aes_cts_encrypt(&ke, &data) {
        Ok(c) => c,
        Err(x) => return Err(x),
    };
    let tag = tag_of(e, &ki, &data, &ct);
    let out = concat(&ct, &tag);
    proof {
        let n = out@.len() - mac_len(e);
        assert(out@.subrange(0, n) =~= ct@);
        assert(out@.subrange(n, out@.len() as int) =~= tag@);
        assert(data@.skip(16) =~= plain@);
    }
    Ok(out)
}

/// Decrypts `c` under etype `e`.
pub fn decrypt_with(e: i32, key: &[u8], usage: i32, c: &[u8]) -> (r: Result<Vec<u8>, CryptoError>)
    requires
        known(e),
    ensures
        res_view(r) == dec_spec(e, key@, usage, c@),
{
    let m: usize = mac_length_of(e);
    if e >= 19 && c.len() < m + 16 {
        return Err(CryptoError::InputTooShort);
    }
    let ke = match derive(e, key, usage, KeyPurpose::Encryption) {
        Ok(k) => k,
        Err(x) => return Err(x),
    };
    let ki = match derive(e, key, usage, KeyPurpose::Integrity) {
        Ok(k) => k,
        Err(x) => return Err(x),
    };
    if c.len() < m + 16 {
        return Err(CryptoError::InputTooShort);
    }
    let n: usize = c.len() - m;
    let ct = cut(c, 0, n);
    let received = cut(c, n, c.len());
    let p = match aes_cts_decrypt(&ke, &ct) {
        Ok(p) => p,
        Err(x) => return Err(x),
    };
    let tag = tag_of(e, &ki, &p, &ct);
    if !ct_same(&tag, &received) {
        return Err(CryptoError::IntegrityFailure);
    }
    let out = cut(&p, 16, p.len());
    assert(out@ =~= p@.skip(16));
    Ok(out)
}

/// The keyed checksum of `data` under etype `e`.
pub fn checksum_with(e: i32, key: &[u8], usage: i32, data: &[u8]) -> (r: Result<Vec<u8>, CryptoError>)
    requires
        known(e),
    ensures
        res_view(r) == cksum_spec(e, key@, usage, data@),
        r is Ok ==> r->Ok_0@.len() == mac_len(e),
{
    let kc = match derive(e, key, usage, KeyPurpose::Checksum) {
        Ok(k) => k,
        Err(x) => return Err(x),
    };
    if e == 17 || e == 18 {
        Ok(first_n(&compute_hmac_sha1(&kc, data), 12))
    } else {
        Ok(first_n(&hmac_for(e, &kc, data), mac_length_of(e)))
    }
}

fn rounds_of(e: i32, params: Option<&[u8]>) -> (r: Result<u32, CryptoError>)
    requires
        known(e),
    ensures
        r == rounds_spec(e, opt_seq(params)),
        r is Ok ==> r->Ok_0 >= 1,
{
    match params {
        None => Ok(if e == 17 || e == 18 { 4096 } else { 32768 }),
        Some(p) => {
            if p.len() != 4 {
                return Err(CryptoError::BadParams);
            }
            let count: u32 = read_be32(p, 0);
            if count == 0 {
                return Err(CryptoError::BadParams);
            }
            Ok(count)
        },
    }
}

/// The key of a password under etype `e`.
pub fn string_to_key_with(e: i32, password: &[u8], salt: &[u8], params: Option<&[u8]>) -> (r: Result<
    Vec<u8>,
    CryptoError,
>)
    requires
        known(e),
    ensures
        res_view(r) == s2k_spec(e, password@, salt@, opt_seq(params)),
        r is Ok ==> r->Ok_0@.len() == key_len(e),
{
    let rounds: u32 = match rounds_of(e, params) {
        Ok(n) => n,
        Err(x) => return Err(x),
    };
    let n: usize = key_length_of(e);
    proof {
        lemma_text_constants();
    }
    let constant = "kerberos".as_bytes();
    if e == 17 || e == 18 {
        let seed = compute_pbkdf2_sha1(password, salt, rounds, n);
        return Ok(dk(&seed, constant, n));
    }
    let name = if e == 19 { "aes128-cts-hmac-sha256-128" } else { "aes256-cts-hmac-sha384-192" };
    let mut peppered = copy(name.as_bytes());
    peppered.push(0);
    append(&mut peppered, salt);
    assert(peppered@ =~= text(enctype_name(e)) + seq![0u8] + salt@);
    let seed = if e == 19 {
        compute_pbkdf2_sha256(password, &peppered, rounds, n)
    } else {
        compute_pbkdf2_sha384(password, &peppered, rounds, n)
    };
    let empty: Vec<u8> = Vec::new();
    assert(empty@ =~= Seq::<u8>::empty());
    Ok(kdf_hmac_sha2(e, &seed, constant, &empty, n))
}

/// One block of the pseudo-random function of etype `e`.
pub fn prf_with(e: i32, key: &[u8], input: &[u8]) -> (r: Result<Vec<u8>, CryptoError>)
    requires
        known(e),
    ensures
        res_view(r) == prf_spec(e, key@, input@),
        r is Ok ==> r->Ok_0@.len() == prf_len(e),
{
    let n: usize = key_length_of(e);
    if key.len() != n {
        return Err(CryptoError::BadKeySize);
    }
    proof {
        lemma_text_constants();
    }
    let constant = "prf".as_bytes();
    if e == 17 || e == 18 {
        let block = first_n(&compute_sha1(input), 16);
        let kp = dk(key, constant, n);
        aes_cts_encrypt(&kp, &block)
    } else {
        Ok(kdf_hmac_sha2(e, key, constant, input, if e == 19 { 32 } else { 48 }))
    }
}

/// A complete encryption type profile: a cipher, a checksum and a
/// string-to-key function under one number.
pub trait EtypeProfile {
    /// The etype number.
    spec fn number(&self) -> i32;

    /// The etype number (e.g., 17 for AES128, 18 for AES256).
    fn etype(&self) -> (r: i32)
        ensures
            r == self.number(),
            known(r),
    ;

    /// Key size in bytes (input to `random_to_key`).
    fn key_bytes(&self) -> (r: usize)
        ensures
            r == key_len(self.number()),
    {
        key_length_of(self.etype())
    }

    /// Actual protocol key length in bytes.
    fn key_length(&self) -> (r: usize)
        ensures
            r == key_len(self.number()),
    {
        key_length_of(self.etype())
    }

    /// Block size of the underlying cipher.
    fn block_size(&self) -> (r: usize)
        ensures
            r == 16,
    {
        16
    }

    /// Size of the confounder prepended to plaintext.
    fn confounder_size(&self) -> (r: usize)
        ensures
            r == 16,
    {
        16
    }

    /// Size of the integrity checksum appended to ciphertext.
    fn checksum_size(&self) -> (r: usize)
        ensures
            r == mac_len(self.number()),
    {
        mac_length_of(self.etype())
    }

    /// The mandatory checksum type number for this etype.
    fn checksum_type(&self) -> (r: i32)
        ensures
            r == cksum_type(self.number()),
    {
        let e: i32 = self.etype();
        if e == 17 { 15 } else if e == 18 { 16 } else { e }
    }

    /// Length in bytes of one `prf` output block.
    fn prf_length(&self) -> (r: usize)
        ensures
            r == prf_len(self.number()),
    {
        let e: i32 = self.etype();
        if e == 17 || e == 18 { 16 } else if e == 19 { 32 } else { 48 }
    }

    /// Encrypt plaintext with the given key and key usage number, under a
    /// fresh random confounder.
    fn encrypt(&self, key: &[u8], key_usage: i32, plaintext: &[u8]) -> (r: Result<
        Vec<u8>,
        CryptoError,
    >)
        ensures
            exists|confounder: Seq<u8>|
                confounder.len() == 16 && #[trigger] enc_spec(
                    self.number(),
                    key@,
                    key_usage,
                    confounder,
                    plaintext@,
                ) == res_view(r),
            r is Ok ==> dec_spec(self.number(), key@, key_usage, r->Ok_0@) == Ok::<
                Seq<u8>,
                CryptoError,
            >(plaintext@),
    {
        let confounder = generate_random(16);
        encrypt_with(self.etype(), key, key_usage, &confounder, plaintext)
    }

    /// Decrypt ciphertext with the given key and key usage number.
    /// Verifies integrity and strips confounder.
    fn decrypt(&self, key: &[u8], key_usage: i32, ciphertext: &[u8]) -> (r: Result<
        Vec<u8>,
        CryptoError,
    >)
        ensures
            res_view(r) == dec_spec(self.number(), key@, key_usage, ciphertext@),
    {
        decrypt_with(self.etype(), key, key_usage, ciphertext)
    }

    /// Derive an encryption key from a password and salt.
    fn string_to_key(&self, password: &[u8], salt: &[u8], params: Option<&[u8]>) -> (r: Result<
        Vec<u8>,
        CryptoError,
    >)
        ensures
            res_view(r) == s2k_spec(self.number(), password@, salt@, opt_seq(params)),
            r is Ok ==> r->Ok_0@.len() == key_len(self.number()),
    {
        string_to_key_with(self.etype(), password, salt, params)
    }

    /// Compute a keyed checksum over data.
    fn checksum(&self, key: &[u8], key_usage: i32, data: &[u8]) -> (r: Result<Vec<u8>, CryptoError>)
        ensures
            res_view(r) == cksum_spec(self.number(), key@, key_usage, data@),
            r is Ok ==> r->Ok_0@.len() == mac_len(self.number()),
    {
        checksum_with(self.etype(), key, key_usage, data)
    }

    /// Derive a sub-key for the given usage and purpose.
    fn derive_key(&self, key: &[u8], usage: i32, purpose: KeyPurpose) -> (r: Result<
        Vec<u8>,
        CryptoError,
    >)
        ensures
            res_view(r) == derive_spec(self.number(), key@, usage, purpose),
    {
        derive(self.etype(), key, usage, purpose)
    }

    /// Pseudo-random function over `input` keyed by `key`.
    fn prf(&self, key: &[u8], input: &[u8]) -> (r: Result<Vec<u8>, CryptoError>)
        ensures
            res_view(r) == prf_spec(self.number(), key@, input@),
            r is Ok ==> r->Ok_0@.len() == prf_len(self.number()),
    {
        prf_with(self.etype(), key, input)
    }

    /// Verify a keyed checksum using constant-time comparison.
    fn verify_checksum(&self, key: &[u8], key_usage: i32, data: &[u8], checksum: &[u8]) -> (r: Result<
        (),
        CryptoError,
    >)
        ensures
            r == verify_spec(self.number(), key@, key_usage, data@, checksum@),
    {
        match self.checksum(key, key_usage, data) {
            Err(x) => Err(x),
            Ok(computed) => if ct_same(&computed, checksum) {
                Ok(())
            } else {
                Err(CryptoError::ChecksumMismatch)
            },
        }
    }

    /// Convert random bytes to a protocol key.
    fn random_to_key(&self, random: &[u8]) -> (r: Result<Vec<u8>, CryptoError>)
        ensures
            res_view(r) == r2k_spec(self.number(), random@),
    {
        if random.len() != key_length_of(self.etype()) {
            return Err(CryptoError::BadKeySize);
        }
        Ok(copy(random))
    }
}

/// AES-128-CTS-HMAC-SHA1-96 (etype 17).
pub struct Aes128CtsHmacSha196;

/// AES-256-CTS-HMAC-SHA1-96 (etype 18).
pub struct Aes256CtsHmacSha196;

/// AES-128-CTS-HMAC-SHA256-128 (etype 19).
pub struct Aes128CtsHmacSha256128;

/// AES-256-CTS-HMAC-SHA384-192 (etype 20).
pub struct Aes256CtsHmacSha384192;

impl EtypeProfile for Aes128CtsHmacSha196 {
    open spec fn number(&self) -> i32 {
        17
    }

    fn etype(&self) -> (r: i32) {
        17
    }
}

impl EtypeProfile for Aes256CtsHmacSha196 {
    open spec fn number(&self) -> i32 {
        18
    }

    fn etype(&self) -> (r: i32) {
        18
    }
}

impl EtypeProfile for Aes128CtsHmacSha256128 {
    open spec fn number(&self) -> i32 {
        19
    }

    fn etype(&self) -> (r: i32) {
        19
    }
}

impl EtypeProfile for Aes256CtsHmacSha384192 {
    open spec fn number(&self) -> i32 {
        20
    }

    fn etype(&self) -> (r: i32) {
        20
    }
}

/// A registered profile, found by its number.
pub enum Profile {
    /// Etype 17.
    Aes128Sha1(Aes128CtsHmacSha196),
    /// Etype 18.
    Aes256Sha1(Aes256CtsHmacSha196),
    /// Etype 19.
    Aes128Sha2(Aes128CtsHmacSha256128),
    /// Etype 20.
    Aes256Sha2(Aes256CtsHmacSha384192),
}

impl EtypeProfile for Profile {
    open spec fn number(&self) -> i32 {
        match self {
            Profile::Aes128Sha1(p) => p.number(),
            Profile::Aes256Sha1(p) => p.number(),
            Profile::Aes128Sha2(p) => p.number(),
            Profile::Aes256Sha2(p) => p.number(),
        }
    }

    fn etype(&self) -> (r: i32) {
        match self {
            Profile::Aes128Sha1(p) => p.etype(),
            Profile::Aes256Sha1(p) => p.etype(),
            Profile::Aes128Sha2(p) => p.etype(),
            Profile::Aes256Sha2(p) => p.etype(),
        }
    }
}

} // verus!
