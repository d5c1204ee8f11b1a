use stronghold::interface::Stronghold;
use stronghold::store::Store;

#[test]
fn store_write_returns_the_previous_value() {
    let mut stronghold = Stronghold::init_stronghold_system(b"a".to_vec(), vec![]).unwrap();
    assert_eq!(stronghold.write_to_store(b"k".to_vec(), b"one".to_vec(), None, 5), Ok(None));
    assert_eq!(
        stronghold.write_to_store(b"k".to_vec(), b"two".to_vec(), None, 6),
        Ok(Some(b"one".to_vec()))
    );
    assert_eq!(stronghold.read_from_store(b"k".to_vec(), 7), Ok(Some(b"two".to_vec())));
    assert_eq!(stronghold.read_from_store(b"other".to_vec(), 7), Ok(None));
}

#[test]
fn store_entry_without_lifetime_persists_until_deleted() {
    let mut stronghold = Stronghold::init_stronghold_system(b"a".to_vec(), vec![]).unwrap();
    stronghold.write_to_store(b"k".to_vec(), b"v".to_vec(), None, 10).unwrap();
    assert_eq!(stronghold.read_from_store(b"k".to_vec(), 10), Ok(Some(b"v".to_vec())));
    assert_eq!(stronghold.read_from_store(b"k".to_vec(), u64::MAX), Ok(Some(b"v".to_vec())));
    assert_eq!(stronghold.delete_from_store(b"k".to_vec()), Ok(()));
    assert_eq!(stronghold.read_from_store(b"k".to_vec(), 11), Ok(None));
    assert_eq!(stronghold.delete_from_store(b"k".to_vec()), Ok(()));
}

#[test]
fn store_entry_expires_after_its_lifetime() {
    let mut stronghold = Stronghold::init_stronghold_system(b"a".to_vec(), vec![]).unwrap();
    stronghold.write_to_store(b"k".to_vec(), b"v".to_vec(), Some(100), 1000).unwrap();
    assert_eq!(stronghold.read_from_store(b"k".to_vec(), 1000), Ok(Some(b"v".to_vec())));
    assert_eq!(stronghold.read_from_store(b"k".to_vec(), 1099), Ok(Some(b"v".to_vec())));
    assert_eq!(stronghold.read_from_store(b"k".to_vec(), 1100), Ok(None));
    assert_eq!(stronghold.read_from_store(b"k".to_vec(), 1101), Ok(None));
    assert_eq!(stronghold.read_from_store(b"k".to_vec(), u64::MAX), Ok(None));
    // An expired entry counts as never written.
    assert_eq!(stronghold.write_to_store(b"k".to_vec(), b"w".to_vec(), None, 2000), Ok(None));
    assert_eq!(stronghold.read_from_store(b"k".to_vec(), 2000), Ok(Some(b"w".to_vec())));
}

#[test]
fn store_lifetime_does_not_overflow() {
    let mut store = Store::new();
    assert_eq!(store.write(b"k".to_vec(), b"v".to_vec(), Some(u64::MAX), u64::MAX), None);
    assert_eq!(store.read(b"k", u64::MAX), Some(b"v".to_vec()));
    assert_eq!(store.write(b"z".to_vec(), b"v".to_vec(), Some(0), 5), None);
    assert_eq!(store.read(b"z", 5), None);
    assert_eq!(store.read(b"z", 4), Some(b"v".to_vec()));
    store.delete(b"k");
    assert_eq!(store.read(b"k", 0), None);
}
