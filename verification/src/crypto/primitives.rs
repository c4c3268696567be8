//! The block cipher, hash and random primitives the profiles are built on.
use aes::cipher::{BlockCipherDecrypt, BlockCipherEncrypt};
use hmac::{Hmac, KeyInit, Mac};
use sha1::Digest;
use subtle::ConstantTimeEq;
use vstd::prelude::*;

verus! {

/// What AES-128 makes of one block.
pub uninterp spec fn aes128_enc(key: Seq<u8>, block: Seq<u8>) -> Seq<u8>;

/// What inverse AES-128 makes of one block.
pub uninterp spec fn aes128_dec(key: Seq<u8>, block: Seq<u8>) -> Seq<u8>;

/// What AES-256 makes of one block.
pub uninterp spec fn aes256_enc(key: Seq<u8>, block: Seq<u8>) -> Seq<u8>;

/// What inverse AES-256 makes of one block.
pub uninterp spec fn aes256_dec(key: Seq<u8>, block: Seq<u8>) -> Seq<u8>;

/// HMAC with SHA-1.
pub uninterp spec fn hmac_sha1(key: Seq<u8>, data: Seq<u8>) -> Seq<u8>;

/// HMAC with SHA-256.
pub uninterp spec fn hmac_sha256(key: Seq<u8>, data: Seq<u8>) -> Seq<u8>;

/// HMAC with SHA-384.
pub uninterp spec fn hmac_sha384(key: Seq<u8>, data: Seq<u8>) -> Seq<u8>;

/// The SHA-1 digest.
pub uninterp spec fn sha1_digest(data: Seq<u8>) -> Seq<u8>;

/// The MD5 digest.
pub uninterp spec fn md5_digest(data: Seq<u8>) -> Seq<u8>;

/// PBKDF2 over HMAC-SHA-1.
pub uninterp spec fn pbkdf2_sha1(password: Seq<u8>, salt: Seq<u8>, rounds: u32, len: nat) -> Seq<u8>;

/// PBKDF2 over HMAC-SHA-256.
pub uninterp spec fn pbkdf2_sha256(password: Seq<u8>, salt: Seq<u8>, rounds: u32, len: nat) -> Seq<u8>;

/// PBKDF2 over HMAC-SHA-384.
pub uninterp spec fn pbkdf2_sha384(password: Seq<u8>, salt: Seq<u8>, rounds: u32, len: nat) -> Seq<u8>;

/// `aes::Aes128`, `encrypt_block`: a 16-octet function of key and block that
/// `decrypt_block` under the same key takes back.
#[verifier::external_body]
fn aes128_encrypt(key: &[u8], block: &[u8]) -> (r: Vec<u8>)
    requires
        key@.len() == 16,
        block@.len() == 16,
    ensures
        r@ == aes128_enc(key@, block@),
        r@.len() == 16,
        aes128_dec(key@, r@) == block@,
{
    let cipher = aes::Aes128::new_from_slice(key).expect("16-octet key");
    let mut b = aes::Block::try_from(block).expect("16-octet block");
    cipher.encrypt_block(&mut b);
    b.to_vec()
}

/// `aes::Aes128`, `decrypt_block`: a 16-octet function of key and block.
#[verifier::external_body]
fn aes128_decrypt(key: &[u8], block: &[u8]) -> (r: Vec<u8>)
    requires
        key@.len() == 16,
        block@.len() == 16,
    ensures
        r@ == aes128_dec(key@, block@),
        r@.len() == 16,
{
    let cipher = aes::Aes128::new_from_slice(key).expect("16-octet key");
    let mut b = aes::Block::try_from(block).expect("16-octet block");
    cipher.decrypt_block(&mut b);
    b.to_vec()
}

/// `aes::Aes256`, `encrypt_block`: a 16-octet function of key and block that
/// `decrypt_block` under the same key takes back.
#[verifier::external_body]
fn aes256_encrypt(key: &[u8], block: &[u8]) -> (r: Vec<u8>)
    requires
        key@.len() == 32,
        block@.len() == 16,
    ensures
        r@ == aes256_enc(key@, block@),
        r@.len() == 16,
        aes256_dec(key@, r@) == block@,
{
    let cipher = aes::Aes256::new_from_slice(key).expect("32-octet key");
    let mut b = aes::Block::try_from(block).expect("16-octet block");
    cipher.encrypt_block(&mut b);
    b.to_vec()
}

/// `aes::Aes256`, `decrypt_block`: a 16-octet function of key and block.
#[verifier::external_body]
fn aes256_decrypt(key: &[u8], block: &[u8]) -> (r: Vec<u8>)
    requires
        key@.len() == 32,
        block@.len() == 16,
    ensures
        r@ == aes256_dec(key@, block@),
        r@.len() == 16,
{
    let cipher = aes::Aes256::new_from_slice(key).expect("32-octet key");
    let mut b = aes::Block::try_from(block).expect("16-octet block");
    cipher.decrypt_block(&mut b);
    b.to_vec()
}

/// `hmac::Hmac` over `sha1::Sha1`: a 20-octet function of key and data.
#[verifier::external_body]
pub(crate) fn compute_hmac_sha1(key: &[u8], data: &[u8]) -> (r: Vec<u8>)
    ensures
        r@ == hmac_sha1(key@, data@),
        r@.len() == 20,
{
    let mut mac = <Hmac<sha1::Sha1> as KeyInit>::new_from_slice(key).expect("any key length");
    mac.update(data);
    mac.finalize().into_bytes().to_vec()
}

/// `hmac::Hmac` over `sha2::Sha256`: a 32-octet function of key and data.
#[verifier::external_body]
pub(crate) fn compute_hmac_sha256(key: &[u8], data: &[u8]) -> (r: Vec<u8>)
    ensures
        r@ == hmac_sha256(key@, data@),
        r@.len() == 32,
{
    let mut mac = <Hmac<sha2::Sha256> as KeyInit>::new_from_slice(key).expect("any key length");
    mac.update(data);
    mac.finalize().into_bytes().to_vec()
}

/// `hmac::Hmac` over `sha2::Sha384`: a 48-octet function of key and data.
#[verifier::external_body]
pub(crate) fn compute_hmac_sha384(key: &[u8], data: &[u8]) -> (r: Vec<u8>)
    ensures
        r@ == hmac_sha384(key@, data@),
        r@.len() == 48,
{
    let mut mac = <Hmac<sha2::Sha384> as KeyInit>::new_from_slice(key).expect("any key length");
    mac.update(data);
    mac.finalize().into_bytes().to_vec()
}

/// `sha1::Sha1::digest`: a 20-octet function of the data.
#[verifier::external_body]
pub(crate) fn compute_sha1(data: &[u8]) -> (r: Vec<u8>)
    ensures
        r@ == sha1_digest(data@),
        r@.len() == 20,
{
    sha1::Sha1::digest(data).to_vec()
}

/// `md5::Md5::digest`: a 16-octet function of the data.
#[verifier::external_body]
pub(crate) fn compute_md5(data: &[u8]) -> (r: Vec<u8>)
    ensures
        r@ == md5_digest(data@),
        r@.len() == 16,
{
    md5::Md5::digest(data).to_vec()
}

/// `pbkdf2::pbkdf2_hmac` over `sha1::Sha1`, filling `len` octets: a function
/// of password, salt, round count and length.
#[verifier::external_body]
pub(crate) fn compute_pbkdf2_sha1(password: &[u8], salt: &[u8], rounds: u32, len: usize) -> (r: Vec<u8>)
    requires
        rounds >= 1,
        len <= 64,
    ensures
        r@ == pbkdf2_sha1(password@, salt@, rounds, len as nat),
        r@.len() == len,
{
    let mut out = vec![0u8; len];
    pbkdf2::pbkdf2_hmac::<sha1::Sha1>(password, salt, rounds, &mut out);
    out
}

/// `pbkdf2::pbkdf2_hmac` over `sha2::Sha256`, filling `len` octets: a
/// function of password, salt, round count and length.
#[verifier::external_body]
pub(crate) fn compute_pbkdf2_sha256(password: &[u8], salt: &[u8], rounds: u32, len: usize) -> (r: Vec<u8>)
    requires
        rounds >= 1,
        len <= 64,
    ensures
        r@ == pbkdf2_sha256(password@, salt@, rounds, len as nat),
        r@.len() == len,
{
    let mut out = vec![0u8; len];
    pbkdf2::pbkdf2_hmac::<sha2::Sha256>(password, salt, rounds, &mut out);
    out
}

/// `pbkdf2::pbkdf2_hmac` over `sha2::Sha384`, filling `len` octets: a
/// function of password, salt, round count and length.
#[verifier::external_body]
pub(crate) fn compute_pbkdf2_sha384(password: &[u8], salt: &[u8], rounds: u32, len: usize) -> (r: Vec<u8>)
    requires
        rounds >= 1,
        len <= 64,
    ensures
        r@ == pbkdf2_sha384(password@, salt@, rounds, len as nat),
        r@.len() == len,
{
    let mut out = vec![0u8; len];
    pbkdf2::pbkdf2_hmac::<sha2::Sha384>(password, salt, rounds, &mut out);
    out
}

/// `subtle::ConstantTimeEq::ct_eq` on byte slices: true exactly for slices of
/// one length with the same bytes.
#[verifier::external_body]
pub(crate) fn ct_same(a: &[u8], b: &[u8]) -> (r: bool)
    ensures
        r == (a@ == b@),
{
    bool::from(a.ct_eq(b))
}

/// `rand::random`, one octet. Nothing is claimed of its value.
#[verifier::external_body]
fn random_octet() -> (r: u8)
{
    rand::random::<u8>()
}

/// `rand::random`, four octets. Nothing is claimed of its value.
#[verifier::external_body]
pub(crate) fn random_word() -> (r: u32)
{
    rand::random::<u32>()
}

/// `n` random octets.
pub fn generate_random(n: usize) -> (r: Vec<u8>)
    ensures
        r@.len() == n,
{
    let mut r: Vec<u8> = Vec::new();
    let mut i: usize = 0;
    while i < n
        invariant
            i <= n,
            r@.len() == i,
        decreases n - i,
    {
        r.push(random_octet());
        i = i + 1;
    }
    r
}

/// What AES makes of one block: AES-128 under a 16-octet key, else AES-256.
pub open spec fn aes_enc(key: Seq<u8>, block: Seq<u8>) -> Seq<u8> {
    if key.len() == 16 {
        aes128_enc(key, block)
    } else {
        aes256_enc(key, block)
    }
}

/// What inverse AES makes of one block.
pub open spec fn aes_dec(key: Seq<u8>, block: Seq<u8>) -> Seq<u8> {
    if key.len() == 16 {
        aes128_dec(key, block)
    } else {
        aes256_dec(key, block)
    }
}

/// Encrypts one block.
pub fn aes_encrypt_block(key: &[u8], block: &[u8]) -> (r: Vec<u8>)
    requires
        key@.len() == 16 || key@.len() == 32,
        block@.len() == 16,
    ensures
        r@ == aes_enc(key@, block@),
        r@.len() == 16,
        aes_dec(key@, r@) == block@,
{
    if key.len() == 16 {
        aes128_encrypt(key, block)
    } else {
        aes256_encrypt(key, block)
    }
}

/// Decrypts one block.
pub fn aes_decrypt_block(key: &[u8], block: &[u8]) -> (r: Vec<u8>)
    requires
        key@.len() == 16 || key@.len() == 32,
        block@.len() == 16,
    ensures
        r@ == aes_dec(key@, block@),
        r@.len() == 16,
{
    if key.len() == 16 {
        aes128_decrypt(key, block)
    } else {
        aes256_decrypt(key, block)
    }
}

} // verus!
