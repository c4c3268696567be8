//! What holds of the four encryption types, octet by octet.
use vstd::prelude::*;

use crate::bytes::u32_of;
use crate::crypto::aes_cts::{cbc_enc, cts_dec, cts_enc, xor_seq};
use crate::crypto::nfold::{dk_spec, nfold128};
use crate::crypto::primitives::{aes128_enc, aes256_enc, hmac_sha1, hmac_sha256, hmac_sha384, pbkdf2_sha1, pbkdf2_sha256, pbkdf2_sha384, sha1_digest};
use crate::crypto::profile::{cksum_spec, cksum_type, dec_spec, derive_spec, enc_spec, key_len, known, mac_len, prf_len, prf_spec, r2k_spec, s2k_spec, verify_spec};
use crate::crypto::{derive_prfplus_spec, etype_of_cksum, fx_cf2_spec, key_usage, prf_plus_spec, CryptoError, KeyPurpose};
use crate::types::EncryptionKeyV;

verus! {

/// Whether `s` holds, from position `at` on, the first `n` octets of `h`.
pub open spec fn holds_at(s: Seq<u8>, at: int, h: Seq<u8>, n: int) -> bool {
    0 <= at && at + n <= s.len() && forall|i: int| 0 <= i < n ==> s[at + i] == #[trigger] h[i]
}

/// Octet `i`, 0 to 3, of a number of four octets, the most significant first.
pub open spec fn octet_of(x: u32, i: int) -> u8 {
    if i == 0 {
        (x / 0x100_0000) as u8
    } else if i == 1 {
        (x / 0x1_0000 % 0x100) as u8
    } else if i == 2 {
        (x / 0x100 % 0x100) as u8
    } else {
        (x % 0x100) as u8
    }
}

/// The octets of a number, the most significant first.
pub open spec fn four(x: u32) -> Seq<u8> {
    Seq::new(4, |i: int| octet_of(x, i))
}

/// The sizes of the four types: keys of 16 and 32 octets, tags of 12, 12, 16
/// and 24, pseudo-random blocks of 16, 16, 32 and 48; and no other type is
/// known.
pub proof fn law_sizes(e: i32)
    ensures
        known(e) <==> e == 17 || e == 18 || e == 19 || e == 20,
        e == 17 || e == 19 ==> key_len(e) == 16,
        e == 18 || e == 20 ==> key_len(e) == 32,
        e == 17 || e == 18 ==> mac_len(e) == 12 && prf_len(e) == 16,
        e == 19 ==> mac_len(e) == 16 && prf_len(e) == 32,
        e == 20 ==> mac_len(e) == 24 && prf_len(e) == 48,
{
}

/// The checksum types of the four types are 15, 16, 19 and 20, and a type is
/// found by no other.
pub proof fn law_cksum_types(c: i32)
    ensures
        cksum_type(17) == 15,
        cksum_type(18) == 16,
        cksum_type(19) == 19,
        cksum_type(20) == 20,
        etype_of_cksum(15) == Some(17i32),
        etype_of_cksum(16) == Some(18i32),
        etype_of_cksum(19) == Some(19i32),
        etype_of_cksum(20) == Some(20i32),
        etype_of_cksum(c) is Some ==> c == 15 || c == 16 || c == 19 || c == 20,
{
}

/// What each key usage is numbered: no two messages of the protocol share a
/// number.
pub proof fn law_key_usages()
    ensures
        key_usage::PA_ENC_TIMESTAMP == 1,
        key_usage::TICKET == 2,
        key_usage::AS_REP_ENCPART == 3,
        key_usage::TGS_REQ_AUTH_CKSUM == 6,
        key_usage::TGS_REQ_AUTH == 7,
        key_usage::TGS_REP_ENCPART_SESSKEY == 8,
        key_usage::TGS_REP_ENCPART_SUBKEY == 9,
        key_usage::AP_REQ_AUTH_CKSUM == 10,
        key_usage::AP_REQ_AUTH == 11,
        key_usage::AP_REP_ENCPART == 12,
        key_usage::KRB_PRIV_ENCPART == 13,
        key_usage::KRB_CRED_ENCPART == 14,
        key_usage::KRB_SAFE_CKSUM == 15,
        key_usage::FAST_REQ_CHKSUM == 50,
        key_usage::FAST_ENC == 51,
        key_usage::FAST_REP == 52,
        key_usage::FAST_FINISHED == 53,
        key_usage::ENC_CHALLENGE_CLIENT == 54,
        key_usage::ENC_CHALLENGE_KDC == 55,
        key_usage::AS_REQ == 56,
{
}

/// The tag of the SHA-1 types is over the plaintext: it is the first 12 octets
/// of HMAC-SHA1 under the integrity key of the confounder and the message, so
/// what the cipher makes of them does not enter it. Before it stands the
/// ciphertext of confounder and message under the encryption key.
pub proof fn law_sha1_tag(e: i32, key: Seq<u8>, usage: i32, confounder: Seq<u8>, plain: Seq<u8>)
    requires
        e == 17 || e == 18,
        enc_spec(e, key, usage, confounder, plain) is Ok,
    ensures
        ({
            let c = enc_spec(e, key, usage, confounder, plain)->Ok_0;
            let ke = derive_spec(e, key, usage, KeyPurpose::Encryption)->Ok_0;
            let ki = derive_spec(e, key, usage, KeyPurpose::Integrity)->Ok_0;
            &&& holds_at(c, c.len() - 12, hmac_sha1(ki, confounder + plain), 12)
            &&& c.take(c.len() - 12) == cts_enc(ke, confounder + plain)
        }),
{
    let c = enc_spec(e, key, usage, confounder, plain)->Ok_0;
    let ke = derive_spec(e, key, usage, KeyPurpose::Encryption)->Ok_0;
    assert(c.take(c.len() - 12) =~= cts_enc(ke, confounder + plain));
}

/// The tag of the SHA-2 types is over the ciphertext: it is the first 16 (24)
/// octets of HMAC-SHA256 (HMAC-SHA384) under the integrity key of sixteen zero
/// octets and the ciphertext, which stands before it.
pub proof fn law_sha2_tag(e: i32, key: Seq<u8>, usage: i32, confounder: Seq<u8>, plain: Seq<u8>)
    requires
        e == 19 || e == 20,
        enc_spec(e, key, usage, confounder, plain) is Ok,
    ensures
        ({
            let c = enc_spec(e, key, usage, confounder, plain)->Ok_0;
            let ke = derive_spec(e, key, usage, KeyPurpose::Encryption)->Ok_0;
            let ki = derive_spec(e, key, usage, KeyPurpose::Integrity)->Ok_0;
            let ct = cts_enc(ke, confounder + plain);
            let covered = Seq::new(16, |i: int| 0u8) + ct;
            &&& e == 19 ==> holds_at(c, c.len() - 16, hmac_sha256(ki, covered), 16) && c.take(c.len() - 16) == ct
            &&& e == 20 ==> holds_at(c, c.len() - 24, hmac_sha384(ki, covered), 24) && c.take(c.len() - 24) == ct
        }),
{
    let c = enc_spec(e, key, usage, confounder, plain)->Ok_0;
    let ke = derive_spec(e, key, usage, KeyPurpose::Encryption)->Ok_0;
    let ct = cts_enc(ke, confounder + plain);
    let covered = Seq::new(16, |i: int| 0u8) + ct;
    assert(covered =~= crate::bytes::zeros(16) + ct);
    assert(e == 19 ==> c.take(c.len() - 16) =~= ct);
    assert(e == 20 ==> c.take(c.len() - 24) =~= ct);
}

/// Decryption under the SHA-1 types gives what stands behind the confounder of
/// the deciphered text, exactly when the last 12 octets are the first of
/// HMAC-SHA1 of that whole text; with any other tag it is refused.
pub proof fn law_sha1_opens(e: i32, key: Seq<u8>, usage: i32, c: Seq<u8>)
    requires
        e == 17 || e == 18,
        key.len() == key_len(e),
        c.len() >= 28,
    ensures
        ({
            let ke = derive_spec(e, key, usage, KeyPurpose::Encryption)->Ok_0;
            let ki = derive_spec(e, key, usage, KeyPurpose::Integrity)->Ok_0;
            let p = cts_dec(ke, c.take(c.len() - 12));
            let good = holds_at(c, c.len() - 12, hmac_sha1(ki, p), 12);
            &&& good ==> dec_spec(e, key, usage, c) == Ok::<Seq<u8>, CryptoError>(p.skip(16))
            &&& !good ==> dec_spec(e, key, usage, c) == Err::<Seq<u8>, CryptoError>(CryptoError::IntegrityFailure)
        }),
{
    let ke = derive_spec(e, key, usage, KeyPurpose::Encryption)->Ok_0;
    let ki = derive_spec(e, key, usage, KeyPurpose::Integrity)->Ok_0;
    let n = c.len() - 12;
    let p = cts_dec(ke, c.take(n));
    let h = hmac_sha1(ki, p);
    assert(c.take(n) =~= c.subrange(0, n));
    let t = c.subrange(n, c.len() as int);
    if holds_at(c, n, h, 12) {
        assert(crate::bytes::head(h, 12) =~= t);
    } else {
        assert(exists|i: int| 0 <= i < 12 && c[n + i] != h[i]);
        let i = choose|i: int| 0 <= i < 12 && c[n + i] != h[i];
        assert(t[i] == c[n + i]);
        assert(crate::bytes::head(h, 12)[i] == h[i]);
    }
}

/// Decryption under the SHA-2 types, likewise: the tag is that of sixteen zero
/// octets and the ciphertext.
pub proof fn law_sha2_opens(e: i32, key: Seq<u8>, usage: i32, c: Seq<u8>)
    requires
        e == 19 || e == 20,
        key.len() == key_len(e),
        usage >= 0,
        e == 19 ==> c.len() >= 32,
        e == 20 ==> c.len() >= 40,
    ensures
        ({
            let ke = derive_spec(e, key, usage, KeyPurpose::Encryption)->Ok_0;
            let ki = derive_spec(e, key, usage, KeyPurpose::Integrity)->Ok_0;
            let m: int = if e == 19 { 16 } else { 24 };
            let ct = c.take(c.len() - m);
            let covered = Seq::new(16, |i: int| 0u8) + ct;
            let good = holds_at(c, c.len() - m, if e == 19 { hmac_sha256(ki, covered) } else { hmac_sha384(ki, covered) }, m);
            &&& good ==> dec_spec(e, key, usage, c) == Ok::<Seq<u8>, CryptoError>(cts_dec(ke, ct).skip(16))
            &&& !good ==> dec_spec(e, key, usage, c) == Err::<Seq<u8>, CryptoError>(CryptoError::IntegrityFailure)
        }),
{
    let ki = derive_spec(e, key, usage, KeyPurpose::Integrity)->Ok_0;
    let m: int = if e == 19 { 16 } else { 24 };
    let n = c.len() - m;
    let ct = c.take(n);
    assert(ct =~= c.subrange(0, n));
    let covered = Seq::new(16, |i: int| 0u8) + ct;
    assert(covered =~= crate::bytes::zeros(16) + ct);
    let h = if e == 19 { hmac_sha256(ki, covered) } else { hmac_sha384(ki, covered) };
    let t = c.subrange(n, c.len() as int);
    if holds_at(c, n, h, m) {
        assert(crate::bytes::head(h, m as nat) =~= t);
    } else {
        assert(exists|i: int| 0 <= i < m && c[n + i] != h[i]);
        let i = choose|i: int| 0 <= i < m && c[n + i] != h[i];
        assert(t[i] == c[n + i]);
        assert(crate::bytes::head(h, m as nat)[i] == h[i]);
    }
}

/// A key of the wrong length, a negative usage of a SHA-2 type and too short
/// an input are refused, each with its error.
pub proof fn law_crypto_refusals(e: i32, key: Seq<u8>, usage: i32, confounder: Seq<u8>, x: Seq<u8>)
    requires
        known(e),
    ensures
        enc_spec(e, key, usage, confounder, x) is Ok <==> (key.len() == (if e == 17 || e == 19 { 16nat } else { 32nat }) && (
        usage >= 0 || e == 17 || e == 18)),
        key.len() != key_len(e) ==> enc_spec(e, key, usage, confounder, x) == Err::<Seq<u8>, CryptoError>(
            CryptoError::BadKeySize,
        ) && cksum_spec(e, key, usage, x) == Err::<Seq<u8>, CryptoError>(CryptoError::BadKeySize),
        key.len() == key_len(e) && x.len() < mac_len(e) + 16 && usage >= 0 ==> dec_spec(e, key, usage, x) == Err::<
            Seq<u8>,
            CryptoError,
        >(CryptoError::InputTooShort),
        key.len() != key_len(e) && x.len() >= mac_len(e) + 16 ==> dec_spec(e, key, usage, x) == Err::<Seq<u8>, CryptoError>(
            CryptoError::BadKeySize,
        ),
{
}

/// The octet that tells the purposes of sub-keys apart.
pub proof fn law_purposes()
    ensures
        KeyPurpose::Encryption.octet() == 0xAA,
        KeyPurpose::Integrity.octet() == 0x55,
        KeyPurpose::Checksum.octet() == 0x99,
{
}

/// A sub-key of the SHA-1 types: the usage as four octets and the octet of the
/// purpose, folded to a block, are encrypted under the key, and for a longer
/// key what came out once more.
pub proof fn law_sha1_subkey(key: Seq<u8>, usage: i32, purpose: KeyPurpose)
    ensures
        ({
            let folded = nfold128(four(u32_of(usage)).push(purpose.octet()));
            let short = derive_spec(17, key, usage, purpose)->Ok_0;
            &&& key.len() == 16 && aes128_enc(key, folded).len() == 16 ==> short == aes128_enc(key, folded)
            &&& key.len() == 32 && aes256_enc(key, folded).len() == 16 && aes256_enc(key, aes256_enc(key, folded)).len() == 16
                ==> ({
                let k1 = aes256_enc(key, folded);
                let long = derive_spec(18, key, usage, purpose)->Ok_0;
                &&& long.len() == 32
                &&& holds_at(long, 0, k1, 16)
                &&& holds_at(long, 16, aes256_enc(key, k1), 16)
            })
        }),
{
    let label = four(u32_of(usage)).push(purpose.octet());
    assert(label =~= crate::crypto::profile::usage_label(usage, purpose));
    let folded = nfold128(label);
    let k1 = aes128_enc(key, folded);
    if key.len() == 16 && k1.len() == 16 {
        assert(derive_spec(17, key, usage, purpose)->Ok_0 =~= k1);
    }
}

/// A sub-key of the SHA-2 types: the first octets of the keyed hash of the
/// number one, the usage, the octet of the purpose, a zero octet and the
/// length asked for in bits; 16 octets for etype 19, and for etype 20 as many
/// as 32 for encryption and 24 for the rest.
pub proof fn law_sha2_subkey(key: Seq<u8>, usage: i32, purpose: KeyPurpose)
    requires
        usage >= 0,
    ensures
        ({
            let n: int = if purpose == KeyPurpose::Encryption { 32 } else { 24 };
            let text = |bits: u32| four(1) + four(usage as u32) + seq![purpose.octet(), 0u8] + four(bits);
            &&& key.len() == 16 ==> ({
                let k = derive_spec(19, key, usage, purpose)->Ok_0;
                k.len() == 16 && holds_at(k, 0, hmac_sha256(key, text(128)), 16)
            })
            &&& key.len() == 32 ==> ({
                let k = derive_spec(20, key, usage, purpose)->Ok_0;
                k.len() == n && holds_at(k, 0, hmac_sha384(key, text((n * 8) as u32)), n)
            })
        }),
{
    let n: int = if purpose == KeyPurpose::Encryption { 32 } else { 24 };
    let text = |bits: u32| four(1) + four(usage as u32) + seq![purpose.octet(), 0u8] + four(bits);
    let label = crate::crypto::profile::usage_label(usage, purpose);
    let empty = Seq::<u8>::empty();
    assert(text(128) =~= crate::bytes::be32(1) + label + seq![0u8] + empty + crate::bytes::be32(128));
    assert(text((n * 8) as u32) =~= crate::bytes::be32(1) + label + seq![0u8] + empty + crate::bytes::be32((n * 8) as u32));
}

/// A checksum is the first octets of the keyed hash of the data itself, under
/// the key for checksums; it verifies exactly where it is the one computed.
pub proof fn law_checksum_of_data(e: i32, key: Seq<u8>, usage: i32, data: Seq<u8>, sum: Seq<u8>)
    requires
        known(e),
        cksum_spec(e, key, usage, data) is Ok,
    ensures
        ({
            let kc = derive_spec(e, key, usage, KeyPurpose::Checksum)->Ok_0;
            let s = cksum_spec(e, key, usage, data)->Ok_0;
            &&& e == 17 || e == 18 ==> s.len() == 12 && holds_at(s, 0, hmac_sha1(kc, data), 12)
            &&& e == 19 ==> s.len() == 16 && holds_at(s, 0, hmac_sha256(kc, data), 16)
            &&& e == 20 ==> s.len() == 24 && holds_at(s, 0, hmac_sha384(kc, data), 24)
            &&& verify_spec(e, key, usage, data, sum) is Ok <==> sum == s
            &&& sum != s ==> verify_spec(e, key, usage, data, sum) == Err::<(), CryptoError>(CryptoError::ChecksumMismatch)
        }),
{
}

/// The octets of "kerberos".
pub open spec fn kerberos_octets() -> Seq<u8> {
    seq![0x6bu8, 0x65u8, 0x72u8, 0x62u8, 0x65u8, 0x72u8, 0x6fu8, 0x73u8]
}

proof fn lemma_kerberos()
    ensures
        crate::crypto::profile::text("kerberos"@) == kerberos_octets(),
        crate::crypto::profile::text("prf"@) == seq![0x70u8, 0x72u8, 0x66u8],
{
    reveal_strlit("kerberos");
    reveal_strlit("prf");
    assert(crate::text::is_ascii("kerberos"@));
    assert(crate::text::is_ascii("prf"@));
    crate::text::lemma_ascii("kerberos"@);
    crate::text::lemma_ascii("prf"@);
    assert(crate::crypto::profile::text("kerberos"@) =~= kerberos_octets());
    assert(crate::crypto::profile::text("prf"@) =~= seq![0x70u8, 0x72u8, 0x66u8]);
}

/// The key of a password under the SHA-1 types: PBKDF2 over HMAC-SHA1 of the
/// password and the salt, 4096 rounds where none are given, derived with
/// "kerberos".
pub proof fn law_sha1_password_key(e: i32, password: Seq<u8>, salt: Seq<u8>)
    requires
        e == 17 || e == 18,
    ensures
        ({
            let n: nat = if e == 17 { 16 } else { 32 };
            s2k_spec(e, password, salt, None) == Ok::<Seq<u8>, CryptoError>(
                dk_spec(pbkdf2_sha1(password, salt, 4096, n), kerberos_octets(), n),
            )
        }),
{
    lemma_kerberos();
}

/// The key of a password under the SHA-2 types: PBKDF2 of the password and of
/// the type's name, a zero octet and the salt, 32768 rounds where none are
/// given; then the first octets of the keyed hash of the number one,
/// "kerberos", a zero octet and the length in bits.
pub proof fn law_sha2_password_key(password: Seq<u8>, salt: Seq<u8>)
    ensures
        ({
            let text = |bits: u32| four(1) + kerberos_octets() + seq![0u8] + four(bits);
            let a = vstd::utf8::encode_utf8("aes128-cts-hmac-sha256-128"@) + seq![0u8] + salt;
            let b = vstd::utf8::encode_utf8("aes256-cts-hmac-sha384-192"@) + seq![0u8] + salt;
            let ka = s2k_spec(19, password, salt, None)->Ok_0;
            let kb = s2k_spec(20, password, salt, None)->Ok_0;
            &&& s2k_spec(19, password, salt, None) is Ok
            &&& s2k_spec(20, password, salt, None) is Ok
            &&& ka.len() == 16 && holds_at(ka, 0, hmac_sha256(pbkdf2_sha256(password, a, 32768, 16), text(128)), 16)
            &&& kb.len() == 32 && holds_at(kb, 0, hmac_sha384(pbkdf2_sha384(password, b, 32768, 32), text(256)), 32)
        }),
{
    lemma_kerberos();
    let text = |bits: u32| four(1) + kerberos_octets() + seq![0u8] + four(bits);
    let empty = Seq::<u8>::empty();
    assert(text(128) =~= crate::bytes::be32(1) + kerberos_octets() + seq![0u8] + empty + crate::bytes::be32(128));
    assert(text(256) =~= crate::bytes::be32(1) + kerberos_octets() + seq![0u8] + empty + crate::bytes::be32(256));
}

/// String-to-key parameters are four octets, a round count other than zero,
/// the most significant octet first; with them the key is the one of that many
/// rounds, and nothing else is taken.
pub proof fn law_password_rounds(e: i32, password: Seq<u8>, salt: Seq<u8>, params: Seq<u8>, rounds: u32)
    requires
        known(e),
    ensures
        params == four(rounds) && rounds != 0 && (e == 17 || e == 18) ==> s2k_spec(e, password, salt, Some(params)) == Ok::<
            Seq<u8>,
            CryptoError,
        >(
            dk_spec(
                pbkdf2_sha1(password, salt, rounds, if e == 17 { 16 } else { 32 }),
                kerberos_octets(),
                if e == 17 { 16 } else { 32 },
            ),
        ),
        params == four(if e == 17 || e == 18 { 4096u32 } else { 32768u32 }) ==> s2k_spec(e, password, salt, Some(params))
            == s2k_spec(e, password, salt, None),
        params.len() != 4 || params == four(0) ==> s2k_spec(e, password, salt, Some(params)) == Err::<Seq<u8>, CryptoError>(
            CryptoError::BadParams,
        ),
{
    lemma_kerberos();
    if params == four(rounds) {
        assert(params[0] == octet_of(rounds, 0) && params[1] == octet_of(rounds, 1) && params[2] == octet_of(rounds, 2)
            && params[3] == octet_of(rounds, 3));
        assert(crate::bytes::get_be32(params, 0) == rounds);
    }
    let dflt: u32 = if e == 17 || e == 18 { 4096u32 } else { 32768u32 };
    if params == four(dflt) {
        assert(params[0] == octet_of(dflt, 0) && params[1] == octet_of(dflt, 1) && params[2] == octet_of(dflt, 2)
            && params[3] == octet_of(dflt, 3));
        assert(crate::bytes::get_be32(params, 0) == dflt);
    }
    if params == four(0) {
        assert(params[0] == octet_of(0, 0) && params[1] == octet_of(0, 1) && params[2] == octet_of(0, 2) && params[3]
            == octet_of(0, 3));
        assert(crate::bytes::get_be32(params, 0) == 0);
    }
}

/// One pseudo-random block: of the SHA-1 types the encryption of the first 16
/// octets of SHA-1 of the input, under the key derived with "prf"; of the
/// SHA-2 types the whole keyed hash of the number one, "prf", a zero octet,
/// the input and the length in bits.
pub proof fn law_prf_block(key: Seq<u8>, input: Seq<u8>)
    ensures
        ({
            let prf = seq![0x70u8, 0x72u8, 0x66u8];
            let text = |bits: u32| four(1) + prf + seq![0u8] + input + four(bits);
            let digest = Seq::new(16, |i: int| sha1_digest(input)[i]);
            &&& key.len() == 16 ==> prf_spec(17, key, input) == Ok::<Seq<u8>, CryptoError>(
                cts_enc(dk_spec(key, prf, 16), digest),
            )
            &&& key.len() == 32 ==> prf_spec(18, key, input) == Ok::<Seq<u8>, CryptoError>(
                cts_enc(dk_spec(key, prf, 32), digest),
            )
            &&& key.len() == 16 ==> ({
                let b = prf_spec(19, key, input)->Ok_0;
                prf_spec(19, key, input) is Ok && b.len() == 32 && holds_at(b, 0, hmac_sha256(key, text(256)), 32)
            })
            &&& key.len() == 32 ==> ({
                let b = prf_spec(20, key, input)->Ok_0;
                prf_spec(20, key, input) is Ok && b.len() == 48 && holds_at(b, 0, hmac_sha384(key, text(384)), 48)
            })
        }),
{
    lemma_kerberos();
    let prf = seq![0x70u8, 0x72u8, 0x66u8];
    let text = |bits: u32| four(1) + prf + seq![0u8] + input + four(bits);
    let digest = Seq::new(16, |i: int| sha1_digest(input)[i]);
    assert(digest =~= crate::bytes::head(sha1_digest(input), 16));
    assert(text(256) =~= crate::bytes::be32(1) + prf + seq![0u8] + input + crate::bytes::be32(256));
    assert(text(384) =~= crate::bytes::be32(1) + prf + seq![0u8] + input + crate::bytes::be32(384));
}

/// PRF+ is pseudo-random blocks one behind the other, each of the input behind
/// its number counted from one, and of a longer output a shorter one is the
/// beginning.
pub proof fn law_prf_plus_blocks(e: i32, key: Seq<u8>, input: Seq<u8>, n: nat, m: nat, i: int)
    requires
        known(e),
        key.len() == key_len(e),
        n <= m <= 255 * prf_len(e),
        0 <= i < n,
    ensures
        ({
            let long = prf_plus_spec(e, key, input, m)->Ok_0;
            let short = prf_plus_spec(e, key, input, n)->Ok_0;
            let block = prf_spec(e, key, seq![(i / prf_len(e) as int + 1) as u8] + input)->Ok_0;
            &&& prf_plus_spec(e, key, input, m) is Ok && prf_plus_spec(e, key, input, n) is Ok
            &&& long.len() == m && short.len() == n
            &&& long[i] == short[i]
            &&& long[i] == block[i % prf_len(e) as int]
        }),
{
}

/// Combining two keys gives the exclusive or, octet by octet, of what PRF+
/// makes of each key and its own pepper, as a key of the first one's type;
/// which key comes first tells which pepper belongs to it.
pub proof fn law_combined_key(a: EncryptionKeyV, pa: Seq<u8>, b: EncryptionKeyV, pb: Seq<u8>, i: int)
    requires
        fx_cf2_spec(a, pa, b, pb) is Ok,
        0 <= i < key_len(a.keytype),
    ensures
        ({
            let k = fx_cf2_spec(a, pa, b, pb)->Ok_0;
            let n = key_len(a.keytype);
            &&& k.keytype == a.keytype
            &&& k.keyvalue.len() == n
            &&& k.keyvalue[i] == prf_plus_spec(a.keytype, a.keyvalue, pa, n)->Ok_0[i] ^ prf_plus_spec(
                b.keytype,
                b.keyvalue,
                pb,
                n,
            )->Ok_0[i]
            &&& a.keytype == b.keytype ==> fx_cf2_spec(b, pb, a, pa) == fx_cf2_spec(a, pa, b, pb)
        }),
{
    if a.keytype == b.keytype {
        let n = key_len(a.keytype);
        let x = crate::crypto::prf_plus_octets(a.keytype, a.keyvalue, pa, n);
        let y = crate::crypto::prf_plus_octets(b.keytype, b.keyvalue, pb, n);
        assert forall|j: int| 0 <= j < n implies xor_seq(x, y)[j] == xor_seq(y, x)[j] by {
            let p = x[j];
            let q = y[j];
            assert(p ^ q == q ^ p) by (bit_vector);
        }
        assert(xor_seq(x, y) =~= xor_seq(y, x));
    }
}

/// A key derived from another by PRF+ is the beginning of what PRF+ makes of
/// the input under that other key, of the type asked for, or of the same type
/// where none is.
pub proof fn law_derived_key(k: EncryptionKeyV, input: Seq<u8>, etype: i32)
    ensures
        derive_prfplus_spec(k, input, etype) matches Ok(d) ==> ({
            &&& etype != 0 ==> d.keytype == etype
            &&& etype == 0 ==> d.keytype == k.keytype
            &&& Ok::<Seq<u8>, CryptoError>(d.keyvalue) == prf_plus_spec(k.keytype, k.keyvalue, input, key_len(d.keytype))
        }),
        known(k.keytype) && k.keyvalue.len() == key_len(k.keytype) && (etype == 0 || known(etype))
            ==> derive_prfplus_spec(k, input, etype) is Ok,
{
}

/// Random octets of the right number are the key as they are.
pub proof fn law_random_key(e: i32, random: Seq<u8>)
    requires
        known(e),
    ensures
        random.len() == key_len(e) ==> r2k_spec(e, random) == Ok::<Seq<u8>, CryptoError>(random),
        random.len() != key_len(e) ==> r2k_spec(e, random) == Err::<Seq<u8>, CryptoError>(CryptoError::BadKeySize),
{
}

/// One block is encrypted by the cipher alone; of whole blocks the last two of
/// the chained ones change places.
pub proof fn law_cts_of_blocks(key: Seq<u8>, p: Seq<u8>)
    requires
        p.len() >= 16,
        p.len() % 16 == 0,
        cbc_enc(key, Seq::new(16, |i: int| 0u8), p).len() == p.len(),
    ensures
        ({
            let c = cbc_enc(key, Seq::new(16, |i: int| 0u8), p);
            let n = p.len() as int;
            &&& n == 16 ==> cts_enc(key, p) == c
            &&& n > 16 ==> cts_enc(key, p) == c.subrange(0, n - 32) + c.subrange(n - 16, n) + c.subrange(n - 32, n - 16)
        }),
{
    let z = Seq::new(16, |i: int| 0u8);
    assert(z =~= crate::bytes::zeros(16));
    assert(crate::crypto::aes_cts::pad_zero(p) =~= p);
}

/// Chaining: each block is added to the one enciphered before it, the first to
/// the initial vector.
pub proof fn law_cbc_chains(key: Seq<u8>, iv: Seq<u8>, p: Seq<u8>)
    requires
        p.len() >= 16,
        iv.len() == 16,
    ensures
        ({
            let x = Seq::new(16, |i: int| p[i] ^ iv[i]);
            let c = if key.len() == 16 { aes128_enc(key, x) } else { aes256_enc(key, x) };
            cbc_enc(key, iv, p) == c + cbc_enc(key, c, p.skip(16))
        }),
{
    let x = Seq::new(16, |i: int| p[i] ^ iv[i]);
    assert(x =~= xor_seq(p.subrange(0, 16), iv));
}

} // verus!
