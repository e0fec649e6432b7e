use twizzler_security::abi::ObjectCreateSpec;
use twizzler_security::abi::ObjectId;
use twizzler_security::abi::Protections;
use twizzler_security::cap::Cap;
use twizzler_security::cap::VerifyError;
use twizzler_security::keys::SigningKey;
use twizzler_security::registry::RevocationRegistry;
use twizzler_security::store::ObjectStore;
use twizzler_security::token::Gates;
use twizzler_security::token::HashingAlgo;
use twizzler_security::token::Revoc;
use twizzler_security::token::SigningScheme;

#[test]
fn fresh_registry_is_at_epoch_zero() {
    let registry = RevocationRegistry::new();
    assert_eq!(registry.current_epoch(0x1), 0);
    assert_eq!(registry.current_epoch(0xffff), 0);
}

#[test]
fn advance_is_per_issuer() {
    let mut registry = RevocationRegistry::new();
    registry.advance_epoch(0xa).unwrap();
    registry.advance_epoch(0xa).unwrap();
    registry.advance_epoch(0xb).unwrap();
    assert_eq!(registry.current_epoch(0xa), 2);
    assert_eq!(registry.current_epoch(0xb), 1);
    assert_eq!(registry.current_epoch(0xc), 0);
}

#[test]
fn epochs_never_decrease() {
    let mut registry = RevocationRegistry::new();
    let mut last: u64 = registry.current_epoch(0x7);
    for _ in 0..5 {
        registry.advance_epoch(0x7).unwrap();
        let now = registry.current_epoch(0x7);
        assert!(now > last);
        last = now;
    }
    assert_eq!(last, 5);
}

#[test]
fn revocation_has_no_resurrection() {
    let mut store = ObjectStore::new();
    let (s, v) = SigningKey::new_keypair(
        &SigningScheme::Ecdsa,
        ObjectCreateSpec::default(),
        &mut store,
    )
    .unwrap();
    let cap = Cap::new(
        ObjectId::new(0x10),
        ObjectId::new(0x20),
        Protections::all(),
        s.base(),
        Revoc::new(2),
        Gates::default(),
        HashingAlgo::Sha256,
    )
    .unwrap();
    let mut registry = RevocationRegistry::new();
    let issuer = v.id.raw;
    // Valid at epochs up to the embedded value.
    registry.advance_epoch(issuer).unwrap();
    registry.advance_epoch(issuer).unwrap();
    assert_eq!(cap.verify_access(v.base(), registry.current_epoch(issuer), None), Ok(()));
    // One step beyond the embedded value revokes it, and every further
    // verification at any later epoch keeps failing the same way.
    registry.advance_epoch(issuer).unwrap();
    assert_eq!(
        cap.verify_access(v.base(), registry.current_epoch(issuer), None),
        Err(VerifyError::Revoked)
    );
    for _ in 0..3 {
        registry.advance_epoch(issuer).unwrap();
        assert_eq!(
            cap.verify_access(v.base(), registry.current_epoch(issuer), None),
            Err(VerifyError::Revoked)
        );
    }
}

#[test]
fn gate_enforced_when_signature_and_epoch_pass() {
    let mut store = ObjectStore::new();
    let (s, v) = SigningKey::new_keypair(
        &SigningScheme::Ecdsa,
        ObjectCreateSpec::default(),
        &mut store,
    )
    .unwrap();
    let cap = Cap::new(
        ObjectId::new(0x10),
        ObjectId::new(0x20),
        Protections::all(),
        s.base(),
        Revoc::default(),
        Gates::new(vec![0x40]),
        HashingAlgo::Sha256,
    )
    .unwrap();
    assert_eq!(cap.verify_access(v.base(), 0, Some(0x40)), Ok(()));
    assert_eq!(cap.verify_access(v.base(), 0, Some(0x41)), Err(VerifyError::GateDenied));
}

#[test]
fn empty_gates_deny_every_cross_domain_call() {
    let mut store = ObjectStore::new();
    let (s, v) = SigningKey::new_keypair(
        &SigningScheme::Ecdsa,
        ObjectCreateSpec::default(),
        &mut store,
    )
    .unwrap();
    let cap = Cap::new(
        ObjectId::new(0x10),
        ObjectId::new(0x20),
        Protections::all(),
        s.base(),
        Revoc::default(),
        Gates::default(),
        HashingAlgo::Sha256,
    )
    .unwrap();
    assert_eq!(cap.verify_access(v.base(), 0, Some(0)), Err(VerifyError::GateDenied));
    // In-domain access stays authorized.
    assert_eq!(cap.verify_access(v.base(), 0, None), Ok(()));
}

#[test]
fn bad_signature_masks_revocation_and_gates() {
    let mut store = ObjectStore::new();
    let (s, _v) = SigningKey::new_keypair(
        &SigningScheme::Ecdsa,
        ObjectCreateSpec::default(),
        &mut store,
    )
    .unwrap();
    let (_s2, v2) = SigningKey::new_keypair(
        &SigningScheme::Ecdsa,
        ObjectCreateSpec::default(),
        &mut store,
    )
    .unwrap();
    let cap = Cap::new(
        ObjectId::new(0x10),
        ObjectId::new(0x20),
        Protections::all(),
        s.base(),
        Revoc::default(),
        Gates::default(),
        HashingAlgo::Sha256,
    )
    .unwrap();
    // Wrong key, stale epoch and missing gate at once: the caller learns
    // only that the signature is bad.
    assert_eq!(cap.verify_access(v2.base(), 9, Some(0x99)), Err(VerifyError::BadSignature));
}

#[test]
fn gates_membership() {
    let gates = Gates::new(vec![1, 5, 9]);
    assert!(gates.permits(1));
    assert!(gates.permits(5));
    assert!(gates.permits(9));
    assert!(!gates.permits(2));
    assert_eq!(gates.len(), 3);
    let empty = Gates::default();
    assert!(!empty.permits(0));
    assert_eq!(empty.len(), 0);
}

#[test]
fn protections_mask_algebra() {
    let read_write = Protections::new(0x1).union(&Protections::new(0x2));
    assert_eq!(read_write.mask, 0x3);
    assert!(read_write.contains(0x1));
    assert!(read_write.contains(0x3));
    assert!(!read_write.contains(0x4));
    assert_eq!(read_write.intersect(&Protections::new(0x6)).mask, 0x2);
    assert_eq!(Protections::all().mask, 0xf);
    assert_eq!(Protections::empty().mask, 0);
    assert_eq!(Protections::default().mask, 0);
}
