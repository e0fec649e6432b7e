use twizzler_security::abi::ObjectId;
use twizzler_security::abi::Protections;
use twizzler_security::crypto::digest_select;
use twizzler_security::token::Gates;
use twizzler_security::token::HashingAlgo;
use twizzler_security::token::Revoc;
use twizzler_security::token::algo_tag;
use twizzler_security::wire::canonical_encode;

fn sample_encoding() -> Vec<u8> {
    canonical_encode(
        ObjectId::new(1),
        ObjectId::new(2),
        Protections::new(3),
        Revoc::new(4),
        &Gates::new(vec![5]),
        HashingAlgo::Sha256,
    )
}

#[test]
fn canonical_encoding_exact_bytes() {
    let mut expected: Vec<u8> = Vec::new();
    // target: sixteen little-endian bytes of 1
    expected.extend_from_slice(&[1, 0, 0, 0, 0, 0, 0, 0, 0, 0, 0, 0, 0, 0, 0, 0]);
    // accessor: sixteen little-endian bytes of 2
    expected.extend_from_slice(&[2, 0, 0, 0, 0, 0, 0, 0, 0, 0, 0, 0, 0, 0, 0, 0]);
    // protections mask, revocation value, gate count, one gate entry
    expected.extend_from_slice(&[3, 0, 0, 0, 0, 0, 0, 0]);
    expected.extend_from_slice(&[4, 0, 0, 0, 0, 0, 0, 0]);
    expected.extend_from_slice(&[1, 0, 0, 0, 0, 0, 0, 0]);
    expected.extend_from_slice(&[5, 0, 0, 0, 0, 0, 0, 0]);
    // algorithm tag
    expected.push(0);
    assert_eq!(sample_encoding(), expected);
}

#[test]
fn canonical_encoding_is_deterministic() {
    assert_eq!(sample_encoding(), sample_encoding());
    let a = canonical_encode(
        ObjectId::new(0x123),
        ObjectId::new(0x321),
        Protections::all(),
        Revoc::default(),
        &Gates::new(vec![7, 8]),
        HashingAlgo::Sha512,
    );
    let b = canonical_encode(
        ObjectId::new(0x123),
        ObjectId::new(0x321),
        Protections::all(),
        Revoc::default(),
        &Gates::new(vec![7, 8]),
        HashingAlgo::Sha512,
    );
    assert_eq!(a, b);
}

#[test]
fn canonical_encoding_separates_tuples() {
    let base = sample_encoding();
    let other_target = canonical_encode(
        ObjectId::new(9),
        ObjectId::new(2),
        Protections::new(3),
        Revoc::new(4),
        &Gates::new(vec![5]),
        HashingAlgo::Sha256,
    );
    assert_ne!(base, other_target);
    let other_gates = canonical_encode(
        ObjectId::new(1),
        ObjectId::new(2),
        Protections::new(3),
        Revoc::new(4),
        &Gates::new(vec![6]),
        HashingAlgo::Sha256,
    );
    assert_ne!(base, other_gates);
    let no_gates = canonical_encode(
        ObjectId::new(1),
        ObjectId::new(2),
        Protections::new(3),
        Revoc::new(4),
        &Gates::default(),
        HashingAlgo::Sha256,
    );
    assert_ne!(base, no_gates);
    let other_algo = canonical_encode(
        ObjectId::new(1),
        ObjectId::new(2),
        Protections::new(3),
        Revoc::new(4),
        &Gates::new(vec![5]),
        HashingAlgo::Sha512,
    );
    assert_ne!(base, other_algo);
}

#[test]
fn stable_algo_discriminants() {
    assert_eq!(algo_tag(HashingAlgo::Sha256), 0);
    assert_eq!(algo_tag(HashingAlgo::Sha512), 1);
}

#[test]
fn sha256_known_vector() {
    let digest = digest_select(HashingAlgo::Sha256, &b"abc".to_vec());
    let expected: Vec<u8> = vec![
        0xba, 0x78, 0x16, 0xbf, 0x8f, 0x01, 0xcf, 0xea, 0x41, 0x41, 0x40, 0xde, 0x5d, 0xae,
        0x22, 0x23, 0xb0, 0x03, 0x61, 0xa3, 0x96, 0x17, 0x7a, 0x9c, 0xb4, 0x10, 0xff, 0x61,
        0xf2, 0x00, 0x15, 0xad,
    ];
    assert_eq!(digest, expected);
}

#[test]
fn sha512_known_vector() {
    let digest = digest_select(HashingAlgo::Sha512, &b"abc".to_vec());
    let expected: Vec<u8> = vec![
        0xdd, 0xaf, 0x35, 0xa1, 0x93, 0x61, 0x7a, 0xba, 0xcc, 0x41, 0x73, 0x49, 0xae, 0x20,
        0x41, 0x31, 0x12, 0xe6, 0xfa, 0x4e, 0x89, 0xa9, 0x7e, 0xa2, 0x0a, 0x9e, 0xee, 0xe6,
        0x4b, 0x55, 0xd3, 0x9a, 0x21, 0x92, 0x99, 0x2a, 0x27, 0x4f, 0xc1, 0xa8, 0x36, 0xba,
        0x3c, 0x23, 0xa3, 0xfe, 0xeb, 0xbd, 0x45, 0x4d, 0x44, 0x23, 0x64, 0x3c, 0xe8, 0x0e,
        0x2a, 0x9a, 0xc9, 0x4f, 0xa5, 0x4c, 0xa4, 0x9f,
    ];
    assert_eq!(digest, expected);
}

#[test]
fn digesting_is_reproducible() {
    let data = b"capability engine".to_vec();
    assert_eq!(
        digest_select(HashingAlgo::Sha256, &data),
        digest_select(HashingAlgo::Sha256, &data)
    );
    assert_eq!(
        digest_select(HashingAlgo::Sha512, &data),
        digest_select(HashingAlgo::Sha512, &data)
    );
}
