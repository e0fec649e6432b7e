use twizzler_security::abi::LifetimeType;
use twizzler_security::abi::ObjectCreateSpec;
use twizzler_security::abi::ObjectId;
use twizzler_security::abi::Protections;
use twizzler_security::store::ObjectStore;
use twizzler_security::store::StoreError;

#[test]
fn create_read_write_delete() {
    let mut store = ObjectStore::new();
    let spec = ObjectCreateSpec::new(LifetimeType::Volatile, Protections::all());
    let id = store.create(&spec).unwrap();
    assert_eq!(store.read(id), Some(Vec::new()));

    let payload: Vec<u8> = vec![1, 2, 3, 4];
    store.write(id, &payload).unwrap();
    assert_eq!(store.read(id), Some(payload.clone()));

    let replacement: Vec<u8> = vec![9];
    store.write(id, &replacement).unwrap();
    assert_eq!(store.read(id), Some(replacement));

    assert!(store.delete(id));
    assert_eq!(store.read(id), None);
    assert!(!store.delete(id));
}

#[test]
fn identifiers_are_distinct_and_not_reused() {
    let mut store = ObjectStore::new();
    let spec = ObjectCreateSpec::default();
    let a = store.create(&spec).unwrap();
    let b = store.create(&spec).unwrap();
    assert_ne!(a.raw, b.raw);
    store.delete(a);
    let c = store.create(&spec).unwrap();
    assert_ne!(c.raw, a.raw);
    assert_ne!(c.raw, b.raw);
}

#[test]
fn write_to_dead_object_fails() {
    let mut store = ObjectStore::new();
    let payload: Vec<u8> = vec![1];
    assert_eq!(store.write(ObjectId::new(42), &payload), Err(StoreError::NoSuchObject));
    let id = store.create(&ObjectCreateSpec::default()).unwrap();
    store.delete(id);
    assert_eq!(store.write(id, &payload), Err(StoreError::NoSuchObject));
}

#[test]
fn reads_do_not_disturb_other_objects() {
    let mut store = ObjectStore::new();
    let spec = ObjectCreateSpec::default();
    let a = store.create(&spec).unwrap();
    let b = store.create(&spec).unwrap();
    let pa: Vec<u8> = vec![0xaa];
    let pb: Vec<u8> = vec![0xbb, 0xbb];
    store.write(a, &pa).unwrap();
    store.write(b, &pb).unwrap();
    assert_eq!(store.read(a), Some(pa));
    assert_eq!(store.read(b), Some(pb));
    store.delete(a);
    assert_eq!(store.read(b), Some(vec![0xbb, 0xbb]));
}

#[test]
fn ranged_reads_and_writes() {
    let mut store = ObjectStore::new();
    let id = store.create(&ObjectCreateSpec::default()).unwrap();
    let payload: Vec<u8> = vec![10, 11, 12, 13, 14, 15];
    store.write(id, &payload).unwrap();

    assert_eq!(store.read_at(id, 0, 6), Some(payload.clone()));
    assert_eq!(store.read_at(id, 2, 3), Some(vec![12, 13, 14]));
    assert_eq!(store.read_at(id, 6, 0), Some(Vec::new()));
    assert_eq!(store.read_at(id, 5, 2), None);
    assert_eq!(store.read_at(ObjectId::new(999), 0, 1), None);

    store.write_at(id, 2, &vec![0xaa, 0xbb]).unwrap();
    assert_eq!(store.read(id), Some(vec![10, 11, 0xaa, 0xbb, 14, 15]));

    assert_eq!(
        store.write_at(id, 5, &vec![1, 2]),
        Err(StoreError::OutOfBounds)
    );
    assert_eq!(
        store.write_at(ObjectId::new(999), 0, &vec![1]),
        Err(StoreError::NoSuchObject)
    );
    // The failed writes left the content alone.
    assert_eq!(store.read(id), Some(vec![10, 11, 0xaa, 0xbb, 14, 15]));
}
