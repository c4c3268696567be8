//! Encryption profiles: published vectors, round trips and errors.
use krb5_rs::crypto::aes_cts::{aes_cts_decrypt, aes_cts_encrypt};
use krb5_rs::crypto::nfold::nfold;
use krb5_rs::crypto::profile::{decrypt_with, encrypt_with};
use krb5_rs::crypto::{derive_prfplus, find_cksumtype, find_etype, fx_cf2, prf_plus, CryptoError, EtypeProfile, KeyPurpose};
use krb5_rs::types::EncryptionKey;

const ETYPES: [i32; 4] = [17, 18, 19, 20];

fn hex(s: &str) -> Vec<u8> {
    let digits: Vec<u8> = s.bytes().filter(|b| *b != b' ').collect();
    digits
        .chunks(2)
        .map(|p| u8::from_str_radix(std::str::from_utf8(p).expect("ascii"), 16).expect("hex"))
        .collect()
}

fn key(etype: i32) -> Vec<u8> {
    let n = find_etype(etype).expect("etype").key_bytes();
    (0..n).map(|i| i as u8).collect()
}

#[test]
fn nfold_of_kerberos() {
    assert_eq!(nfold(b"kerberos"), hex("6b65726265726f737b9b5b2b93132b93"));
}

#[test]
fn aes_sha1_string_to_key() {
    let one = [0, 0, 0, 1];
    let salt = b"ATHENA.MIT.EDUraeburn";
    let a = find_etype(17).expect("etype");
    let b = find_etype(18).expect("etype");
    assert_eq!(
        a.string_to_key(b"password", salt, Some(&one)).expect("key"),
        hex("42263c6e89f4fc28b8df68ee09799f15")
    );
    assert_eq!(
        b.string_to_key(b"password", salt, Some(&one)).expect("key"),
        hex("fe697b52bc0d3ce14432ba036a92e65bbb52280990a2fa27883998d72af30161")
    );
    let many = 1200u32.to_be_bytes();
    assert_eq!(
        a.string_to_key(b"password", salt, Some(&many)).expect("key"),
        hex("4c01cd46d632d01e6dbe230a01ed642a")
    );
    assert_eq!(
        b.string_to_key(b"password", salt, Some(&many)).expect("key"),
        hex("55a6ac740ad17b4846941051e1e8b0a7548d93b0ab30a8bc3ff16280382b8c2a")
    );
}

#[test]
fn aes_sha2_string_to_key() {
    let mut salt = hex("10df9dd783e5bc8acea1730e74355f61");
    salt.extend_from_slice(b"ATHENA.MIT.EDUraeburn");
    let rounds = 32768u32.to_be_bytes();
    assert_eq!(
        find_etype(19).expect("etype").string_to_key(b"password", &salt, Some(&rounds)).expect("key"),
        hex("089bca48b105ea6ea77ca5d2f39dc5e7")
    );
    assert_eq!(
        find_etype(20).expect("etype").string_to_key(b"password", &salt, Some(&rounds)).expect("key"),
        hex("45bd806dbf6a833a9cffc1c94589a222367a79bc21c413718906e9f578a78467")
    );
}

#[test]
fn aes_sha2_derived_keys() {
    let base = hex("3705d96080c17728a0e800eab6e0d23c");
    let p = find_etype(19).expect("etype");
    assert_eq!(
        p.derive_key(&base, 2, KeyPurpose::Checksum).expect("Kc"),
        hex("b31a018a48f54776f403e9a396325dc3")
    );
    assert_eq!(
        p.derive_key(&base, 2, KeyPurpose::Encryption).expect("Ke"),
        hex("9b197dd1e8c5609d6e67c3e37c62c72e")
    );
    assert_eq!(
        p.derive_key(&base, 2, KeyPurpose::Integrity).expect("Ki"),
        hex("9fda0e56ab2d85e1569a688696c26a6c")
    );
}

#[test]
fn aes_sha2_checksums() {
    let data: Vec<u8> = (0..21).collect();
    assert_eq!(
        find_etype(19).expect("etype").checksum(&hex("3705d96080c17728a0e800eab6e0d23c"), 2, &data).expect("sum"),
        hex("d78367186643d67b411cba9139fc1dee")
    );
    assert_eq!(
        find_etype(20)
            .expect("etype")
            .checksum(&hex("6d404d37faf79f9df0d33568d320669800eb4836472ea8a026d16b7182460c52"), 2, &data)
            .expect("sum"),
        hex("45ee791567eefca37f4ac1e0222de80d43c3bfa06699672a")
    );
}

#[test]
fn aes_sha2_prf() {
    assert_eq!(
        find_etype(19).expect("etype").prf(&hex("3705d96080c17728a0e800eab6e0d23c"), b"test").expect("prf"),
        hex("9d188616f63852fe86915bb840b4a886ff3e6bb0f819b49b893393d393854295")
    );
    assert_eq!(
        find_etype(20)
            .expect("etype")
            .prf(&hex("6d404d37faf79f9df0d33568d320669800eb4836472ea8a026d16b7182460c52"), b"test")
            .expect("prf"),
        hex("9801f69a368c2bf675e59521e177d9a07f67efe1cfde8d3c8d6f6a0256e3b17db3c1b62ad1b8553360d17367eb1514d2")
    );
}

#[test]
fn aes_sha2_encryption_of_nothing() {
    let k = hex("3705d96080c17728a0e800eab6e0d23c");
    let c = hex("ef85fb890bb8472f4dab20394dca781dad877eda39d50c870c0d5a0a8e48c718");
    let confounder = hex("7e5895eaf2672435bad817f545a37148");
    assert_eq!(encrypt_with(19, &k, 2, &confounder, &[]).expect("cipher"), c);
    assert_eq!(decrypt_with(19, &k, 2, &c).expect("plain"), Vec::<u8>::new());
}

#[test]
fn cts_vector() {
    let k = b"chicken teriyaki";
    let plain = hex("4920776f756c64206c696b652074686520");
    let cipher = hex("c6353568f2bf8cb4d8a580362da7ff7f97");
    assert_eq!(aes_cts_encrypt(k, &plain).expect("cipher"), cipher);
    assert_eq!(aes_cts_decrypt(k, &cipher).expect("plain"), plain);
}

#[test]
fn combined_keys() {
    let s2k = |e: i32, s: &[u8]| {
        EncryptionKey::new(e, find_etype(e).expect("etype").string_to_key(s, s, None).expect("key"))
    };
    let a = fx_cf2(&s2k(17, b"key1"), b"a", &s2k(17, b"key2"), b"b").expect("key");
    assert_eq!(a.keytype, 17);
    assert_eq!(a.keyvalue, hex("97df97e4b798b29eb31ed7280287a92a"));
    let b = fx_cf2(&s2k(18, b"key1"), b"a", &s2k(18, b"key2"), b"b").expect("key");
    assert_eq!(b.keyvalue, hex("4d6ca4e629785c1f01baf55e2e548566b9617ae3a96868c337cb93b5e72b1c7b"));
}

#[test]
fn encrypted_data_reads_back() {
    for e in ETYPES {
        let p = find_etype(e).expect("etype");
        for n in [0usize, 1, 15, 16, 17, 32, 33, 100] {
            let plain: Vec<u8> = (0..n).map(|i| (i * 7) as u8).collect();
            let c = p.encrypt(&key(e), 3, &plain).expect("cipher");
            assert_eq!(c.len(), p.confounder_size() + n + p.checksum_size());
            assert_eq!(p.decrypt(&key(e), 3, &c).expect("plain"), plain);
            // another usage, another key, a changed octet
            assert!(matches!(p.decrypt(&key(e), 4, &c), Err(CryptoError::IntegrityFailure)));
            let mut changed = c.clone();
            changed[0] ^= 1;
            assert!(matches!(p.decrypt(&key(e), 3, &changed), Err(CryptoError::IntegrityFailure)));
        }
    }
}

#[test]
fn confounders_differ() {
    let p = find_etype(18).expect("etype");
    let a = p.encrypt(&key(18), 3, b"same").expect("cipher");
    let b = p.encrypt(&key(18), 3, b"same").expect("cipher");
    assert_ne!(a, b);
}

#[test]
fn checksums_verify() {
    for e in ETYPES {
        let p = find_etype(e).expect("etype");
        let sum = p.checksum(&key(e), 6, b"data").expect("sum");
        assert_eq!(sum.len(), p.checksum_size());
        assert!(p.verify_checksum(&key(e), 6, b"data", &sum).is_ok());
        assert!(matches!(
            p.verify_checksum(&key(e), 6, b"date", &sum),
            Err(CryptoError::ChecksumMismatch)
        ));
        assert_eq!(find_cksumtype(p.checksum_type()).expect("type").etype(), e);
    }
}

#[test]
fn crypto_errors() {
    let p = find_etype(17).expect("etype");
    assert!(matches!(p.encrypt(&[1, 2, 3], 1, b""), Err(CryptoError::BadKeySize)));
    assert!(matches!(p.decrypt(&key(17), 1, &[0; 27]), Err(CryptoError::InputTooShort)));
    assert!(matches!(p.string_to_key(b"a", b"b", Some(&[1, 2])), Err(CryptoError::BadParams)));
    assert!(matches!(find_etype(23), Err(CryptoError::UnsupportedEtype)));
    assert!(matches!(find_cksumtype(7), Err(CryptoError::UnsupportedEtype)));
    assert_eq!(CryptoError::BadKeySize.message(), "invalid key size");
}

#[test]
fn prf_plus_grows() {
    for e in ETYPES {
        let p = find_etype(e).expect("etype");
        let long = prf_plus(&p, &key(e), b"seed", 100).expect("octets");
        let short = prf_plus(&p, &key(e), b"seed", 20).expect("octets");
        assert_eq!(long.len(), 100);
        assert_eq!(&long[..20], &short[..]);
        let mut first = vec![1u8];
        first.extend_from_slice(b"seed");
        let block = p.prf(&key(e), &first).expect("prf");
        assert_eq!(&long[..p.prf_length()], &block[..]);
    }
}

#[test]
fn derived_key_has_the_type_asked_for() {
    let k = EncryptionKey::new(18, key(18));
    let d = derive_prfplus(&k, b"x", 17).expect("key");
    assert_eq!(d.keytype, 17);
    assert_eq!(d.keyvalue.len(), 16);
    assert!(derive_prfplus(&k, b"x", 99).is_err());
}
