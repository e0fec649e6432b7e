use twizzler_security::abi::ObjectCreateSpec;
use twizzler_security::abi::ObjectId;
use twizzler_security::abi::Protections;
use twizzler_security::cap::Cap;
use twizzler_security::cap::CapError;
use twizzler_security::cap::VerifyError;
use twizzler_security::keys::KeyError;
use twizzler_security::keys::SigningKey;
use twizzler_security::keys::SigningKeyObject;
use twizzler_security::keys::VerifyingKeyObject;
use twizzler_security::registry::RevocationRegistry;
use twizzler_security::store::ObjectStore;
use twizzler_security::token::Gates;
use twizzler_security::token::HashingAlgo;
use twizzler_security::token::Revoc;
use twizzler_security::token::SigningScheme;

fn fresh_keypair(store: &mut ObjectStore) -> (SigningKeyObject, VerifyingKeyObject) {
    SigningKey::new_keypair(&SigningScheme::Ecdsa, ObjectCreateSpec::default(), store)
        .expect("keypair generation should succeed")
}

fn mint_simple(s: &SigningKeyObject, gates: Gates) -> Cap {
    Cap::new(
        ObjectId::new(0x123),
        ObjectId::new(0x321),
        Protections::all(),
        s.base(),
        Revoc::default(),
        gates,
        HashingAlgo::Sha256,
    )
    .expect("capability should mint")
}

#[test]
fn round_trip() {
    let mut store = ObjectStore::new();
    let (s, v) = fresh_keypair(&mut store);
    let cap = mint_simple(&s, Gates::default());
    assert_eq!(cap.verify_sig(v.base()), Ok(()));
}

#[test]
fn round_trip_with_gates_and_epoch() {
    let mut store = ObjectStore::new();
    let (s, v) = fresh_keypair(&mut store);
    let cap = Cap::new(
        ObjectId::new(7),
        ObjectId::new(9),
        Protections::new(0x5),
        s.base(),
        Revoc::new(3),
        Gates::new(vec![0x40, 0x41]),
        HashingAlgo::Sha256,
    )
    .unwrap();
    assert_eq!(cap.verify_access(v.base(), 3, Some(0x41)), Ok(()));
    assert_eq!(cap.verify_access(v.base(), 0, None), Ok(()));
}

#[test]
fn concrete_scenario() {
    let mut store = ObjectStore::new();
    let (s, v) = fresh_keypair(&mut store);
    let (_s2, v2) = fresh_keypair(&mut store);
    let cap = mint_simple(&s, Gates::default());

    assert_eq!(cap.verify_sig(v.base()), Ok(()));
    assert_eq!(cap.verify_sig(v2.base()), Err(VerifyError::BadSignature));

    let mut registry = RevocationRegistry::new();
    let issuer = v.id.raw;
    assert_eq!(cap.verify_access(v.base(), registry.current_epoch(issuer), None), Ok(()));
    registry.advance_epoch(issuer).unwrap();
    assert_eq!(
        cap.verify_access(v.base(), registry.current_epoch(issuer), None),
        Err(VerifyError::Revoked)
    );
}

#[test]
fn key_mismatch_same_scheme() {
    let mut store = ObjectStore::new();
    let (s, _v) = fresh_keypair(&mut store);
    let (_s2, v2) = fresh_keypair(&mut store);
    let cap = mint_simple(&s, Gates::default());
    assert_eq!(cap.verify_sig(v2.base()), Err(VerifyError::BadSignature));
}

#[test]
fn tamper_target() {
    let mut store = ObjectStore::new();
    let (s, v) = fresh_keypair(&mut store);
    let cap = mint_simple(&s, Gates::default());
    let mut t = cap.clone();
    t.target = ObjectId::new(0x123 ^ 0x1);
    assert_eq!(t.verify_sig(v.base()), Err(VerifyError::BadSignature));
}

#[test]
fn tamper_accessor() {
    let mut store = ObjectStore::new();
    let (s, v) = fresh_keypair(&mut store);
    let cap = mint_simple(&s, Gates::default());
    let mut t = cap.clone();
    t.accessor = ObjectId::new(0x321 ^ 0x8000);
    assert_eq!(t.verify_sig(v.base()), Err(VerifyError::BadSignature));
}

#[test]
fn tamper_protections() {
    let mut store = ObjectStore::new();
    let (s, v) = fresh_keypair(&mut store);
    let cap = mint_simple(&s, Gates::default());
    let mut t = cap.clone();
    t.protections = Protections::new(t.protections.mask ^ 0x4);
    assert_eq!(t.verify_sig(v.base()), Err(VerifyError::BadSignature));
}

#[test]
fn tamper_revocation() {
    let mut store = ObjectStore::new();
    let (s, v) = fresh_keypair(&mut store);
    let cap = mint_simple(&s, Gates::default());
    let mut t = cap.clone();
    t.revocation = Revoc::new(t.revocation.value ^ 0x1);
    assert_eq!(t.verify_sig(v.base()), Err(VerifyError::BadSignature));
}

#[test]
fn tamper_gates() {
    let mut store = ObjectStore::new();
    let (s, v) = fresh_keypair(&mut store);
    let cap = mint_simple(&s, Gates::new(vec![0x40]));
    let mut t = cap.clone();
    t.gates = Gates::new(vec![0x41]);
    assert_eq!(t.verify_sig(v.base()), Err(VerifyError::BadSignature));
    let mut widened = cap.clone();
    widened.gates = Gates::new(vec![0x40, 0x41]);
    assert_eq!(widened.verify_sig(v.base()), Err(VerifyError::BadSignature));
}

#[test]
fn tamper_signature() {
    let mut store = ObjectStore::new();
    let (s, v) = fresh_keypair(&mut store);
    let cap = mint_simple(&s, Gates::default());
    let mut t = cap.clone();
    t.signature[0] ^= 0x1;
    assert_eq!(t.verify_sig(v.base()), Err(VerifyError::BadSignature));
}

#[test]
fn unsupported_scheme_at_mint() {
    let key = SigningKey::from_bytes(vec![1u8; 32], SigningScheme::Ed25519);
    let r = Cap::new(
        ObjectId::new(1),
        ObjectId::new(2),
        Protections::empty(),
        &key,
        Revoc::default(),
        Gates::default(),
        HashingAlgo::Sha256,
    );
    assert_eq!(r.err(), Some(CapError::UnsupportedScheme));
}

#[test]
fn unsupported_algo_at_mint() {
    let mut store = ObjectStore::new();
    let (s, _v) = fresh_keypair(&mut store);
    let r = Cap::new(
        ObjectId::new(1),
        ObjectId::new(2),
        Protections::empty(),
        s.base(),
        Revoc::default(),
        Gates::default(),
        HashingAlgo::Sha512,
    );
    assert_eq!(r.err(), Some(CapError::UnsupportedAlgo));
}

#[test]
fn signing_failed_on_bad_key_material() {
    // The all-zero scalar is outside the curve's key range.
    let key = SigningKey::from_bytes(vec![0u8; 32], SigningScheme::Ecdsa);
    let r = Cap::new(
        ObjectId::new(1),
        ObjectId::new(2),
        Protections::empty(),
        &key,
        Revoc::default(),
        Gates::default(),
        HashingAlgo::Sha256,
    );
    assert_eq!(r.err(), Some(CapError::SigningFailed));
}

#[test]
fn unsupported_scheme_at_keygen() {
    let mut store = ObjectStore::new();
    let r = SigningKey::new_keypair(&SigningScheme::Ed25519, ObjectCreateSpec::default(), &mut store);
    assert_eq!(r.err(), Some(KeyError::UnsupportedScheme));
}

#[test]
fn keypair_backs_two_objects() {
    let mut store = ObjectStore::new();
    let (s, v) = fresh_keypair(&mut store);
    assert_ne!(s.id.raw, v.id.raw);
    // The public half's backing object holds exactly the published bytes.
    let stored_vk = store.read(v.id).expect("verifying object should be live");
    assert_eq!(&stored_vk, v.base().bytes());
    assert!(store.read(s.id).is_some());
}

#[test]
fn verify_is_repeatable() {
    let mut store = ObjectStore::new();
    let (s, v) = fresh_keypair(&mut store);
    let cap = mint_simple(&s, Gates::default());
    for _ in 0..3 {
        assert_eq!(cap.verify_sig(v.base()), Ok(()));
        assert_eq!(cap.verify_access(v.base(), 0, None), Ok(()));
    }
}

#[test]
fn wire_form_layout() {
    let mut store = ObjectStore::new();
    let (s, _v) = fresh_keypair(&mut store);
    let cap = mint_simple(&s, Gates::new(vec![0x40]));
    let wire = cap.to_wire_bytes();
    let canonical = twizzler_security::wire::canonical_encode(
        cap.target,
        cap.accessor,
        cap.protections,
        cap.revocation,
        &cap.gates,
        cap.algo,
    );
    let mut expected = canonical;
    expected.push(0);
    expected.extend_from_slice(&cap.signature);
    assert_eq!(wire, expected);
    assert_eq!(cap.signature.len(), 64);
}

#[test]
fn wire_round_trip_parse() {
    let mut store = ObjectStore::new();
    let (s, v) = fresh_keypair(&mut store);
    let cap = Cap::new(
        ObjectId::new(0xabcdef),
        ObjectId::new(0x99),
        Protections::new(0x3),
        s.base(),
        Revoc::new(5),
        Gates::new(vec![1, 2, 3]),
        HashingAlgo::Sha256,
    )
    .unwrap();
    let wire = cap.to_wire_bytes();
    let parsed = Cap::from_wire_bytes(&wire).expect("serialized token should parse");
    assert_eq!(parsed.target, cap.target);
    assert_eq!(parsed.accessor, cap.accessor);
    assert_eq!(parsed.protections, cap.protections);
    assert_eq!(parsed.revocation, cap.revocation);
    assert_eq!(parsed.gates.entries, cap.gates.entries);
    assert_eq!(parsed.algo, cap.algo);
    assert_eq!(parsed.scheme, cap.scheme);
    assert_eq!(parsed.signature, cap.signature);
    // The reconstructed token still verifies.
    assert_eq!(parsed.verify_access(v.base(), 5, Some(2)), Ok(()));
    // And re-serializes to the same bytes.
    assert_eq!(parsed.to_wire_bytes(), wire);
}

#[test]
fn malformed_wire_forms_are_rejected() {
    assert!(Cap::from_wire_bytes(&Vec::new()).is_none());
    assert!(Cap::from_wire_bytes(&vec![0u8; 57]).is_none());
    // A count field pointing past the end of the buffer.
    let mut short = vec![0u8; 80];
    short[48] = 0xff;
    assert!(Cap::from_wire_bytes(&short).is_none());
    // An unknown algorithm tag.
    let mut store = ObjectStore::new();
    let (s, _v) = fresh_keypair(&mut store);
    let cap = mint_simple(&s, Gates::default());
    let mut wire = cap.to_wire_bytes();
    wire[56] = 9;
    assert!(Cap::from_wire_bytes(&wire).is_none());
}

#[test]
fn tampered_wire_form_parses_but_fails_verification() {
    let mut store = ObjectStore::new();
    let (s, v) = fresh_keypair(&mut store);
    let cap = mint_simple(&s, Gates::default());
    let mut wire = cap.to_wire_bytes();
    // Flip one bit of the target field.
    wire[0] ^= 0x1;
    let parsed = Cap::from_wire_bytes(&wire).expect("the layout is still well-formed");
    assert_eq!(parsed.verify_sig(v.base()), Err(VerifyError::BadSignature));
}
