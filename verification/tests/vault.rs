use stronghold::identity::{ClientId, RecordHint, RecordId};
use stronghold::interface::{Error, Stronghold, StrongholdFlags};
use stronghold::location::Location;
use stronghold::secure::{SecureClient, VaultDoesNotExist, VaultError};
use stronghold::vault::{RecordError, Vault};

fn hint(bytes: &[u8]) -> RecordHint {
    RecordHint::new(bytes).unwrap()
}

fn system(path: &[u8]) -> Stronghold {
    Stronghold::init_stronghold_system(path.to_vec(), vec![]).unwrap()
}

fn loc(vault: &[u8], record: &[u8]) -> Location {
    Location::generic(vault.to_vec(), record.to_vec())
}

#[test]
fn first_client_is_the_target() {
    let stronghold = Stronghold::init_stronghold_system(
        b"first".to_vec(),
        vec![StrongholdFlags::IsReadable(true)],
    )
    .unwrap();
    assert_eq!(stronghold.vault_exists(b"vault".to_vec()), Ok(false));
    assert_eq!(stronghold.record_exists(loc(b"vault", b"record")), Ok(false));
}

#[test]
fn write_then_read_returns_the_payload() {
    let mut stronghold = system(b"client");
    let location = loc(b"vault", b"record");
    assert_eq!(
        stronghold.write_to_vault(location.clone(), b"secret".to_vec(), hint(b"h"), vec![]),
        Ok(())
    );
    assert_eq!(
        stronghold.read_secret(b"client".to_vec(), location.clone()),
        Ok(Some(b"secret".to_vec()))
    );
    assert_eq!(stronghold.record_exists(location), Ok(true));
    assert_eq!(stronghold.vault_exists(b"vault".to_vec()), Ok(true));
    assert_eq!(stronghold.vault_exists(b"other".to_vec()), Ok(false));
}

#[test]
fn write_overwrites_payload_and_hint_and_keeps_the_id() {
    let mut stronghold = system(b"client");
    let location = loc(b"vault", b"record");
    stronghold.write_to_vault(location.clone(), b"one".to_vec(), hint(b"first"), vec![]).unwrap();
    let before = stronghold.list_hints_and_ids(b"vault".to_vec()).unwrap();
    stronghold.write_to_vault(location.clone(), b"two".to_vec(), hint(b"second"), vec![]).unwrap();
    let after = stronghold.list_hints_and_ids(b"vault".to_vec()).unwrap();
    assert_eq!(
        stronghold.read_secret(b"client".to_vec(), location),
        Ok(Some(b"two".to_vec()))
    );
    assert_eq!(before.len(), 1);
    assert_eq!(after.len(), 1);
    assert_eq!(before[0].0, after[0].0);
    assert_eq!(before[0].1, hint(b"first"));
    assert_eq!(after[0].1, hint(b"second"));
    assert_eq!(stronghold.stored_records(b"vault".to_vec()), Ok(1));
}

#[test]
fn listing_shows_live_records_in_insertion_order() {
    let mut stronghold = system(b"client");
    let client = ClientId::from_path(b"client");
    for name in [&b"c"[..], &b"a"[..], &b"b"[..]] {
        stronghold.write_to_vault(loc(b"vault", name), name.to_vec(), hint(name), vec![]).unwrap();
    }
    let list = stronghold.list_hints_and_ids(b"vault".to_vec()).unwrap();
    assert_eq!(
        list,
        vec![
            (RecordId::derive(&client, b"vault", b"c"), hint(b"c")),
            (RecordId::derive(&client, b"vault", b"a"), hint(b"a")),
            (RecordId::derive(&client, b"vault", b"b"), hint(b"b")),
        ]
    );
    stronghold.delete_data(loc(b"vault", b"a"), false).unwrap();
    let list = stronghold.list_hints_and_ids(b"vault".to_vec()).unwrap();
    assert_eq!(
        list,
        vec![
            (RecordId::derive(&client, b"vault", b"c"), hint(b"c")),
            (RecordId::derive(&client, b"vault", b"b"), hint(b"b")),
        ]
    );
}

#[test]
fn listing_a_missing_vault_fails() {
    let stronghold = system(b"client");
    assert_eq!(
        stronghold.list_hints_and_ids(b"vault".to_vec()),
        Err(Error::Inner(VaultDoesNotExist))
    );
}

#[test]
fn delete_with_gc_removes_the_record() {
    let mut stronghold = system(b"client");
    let location = loc(b"vault", b"record");
    stronghold.write_to_vault(location.clone(), b"secret".to_vec(), hint(b"h"), vec![]).unwrap();
    stronghold.write_to_vault(loc(b"vault", b"keep"), b"kept".to_vec(), hint(b"k"), vec![]).unwrap();
    assert_eq!(stronghold.delete_data(location.clone(), true), Ok(()));
    assert_eq!(stronghold.record_exists(location.clone()), Ok(false));
    assert_eq!(stronghold.read_secret(b"client".to_vec(), location.clone()), Ok(None));
    let list = stronghold.list_hints_and_ids(b"vault".to_vec()).unwrap();
    let client = ClientId::from_path(b"client");
    assert_eq!(list, vec![(RecordId::derive(&client, b"vault", b"keep"), hint(b"k"))]);
    assert_eq!(stronghold.stored_records(b"vault".to_vec()), Ok(1));
    // Once collected, the location can be written again.
    assert_eq!(
        stronghold.write_to_vault(location.clone(), b"again".to_vec(), hint(b"h"), vec![]),
        Ok(())
    );
    assert_eq!(
        stronghold.read_secret(b"client".to_vec(), location),
        Ok(Some(b"again".to_vec()))
    );
}

#[test]
fn revoked_record_stays_stored_until_gc() {
    let mut stronghold = system(b"client");
    let location = loc(b"vault", b"record");
    stronghold.write_to_vault(location.clone(), b"secret".to_vec(), hint(b"h"), vec![]).unwrap();
    stronghold.write_to_vault(loc(b"vault", b"keep"), b"kept".to_vec(), hint(b"k"), vec![]).unwrap();
    assert_eq!(stronghold.stored_records(b"vault".to_vec()), Ok(2));
    assert_eq!(stronghold.delete_data(location.clone(), false), Ok(()));
    assert_eq!(stronghold.read_secret(b"client".to_vec(), location.clone()), Ok(None));
    assert_eq!(stronghold.record_exists(location.clone()), Ok(false));
    assert_eq!(stronghold.stored_records(b"vault".to_vec()), Ok(2));
    assert_eq!(stronghold.garbage_collect(b"vault".to_vec()), Ok(()));
    assert_eq!(stronghold.stored_records(b"vault".to_vec()), Ok(1));
    assert_eq!(
        stronghold.read_secret(b"client".to_vec(), loc(b"vault", b"keep")),
        Ok(Some(b"kept".to_vec()))
    );
}

#[test]
fn write_to_a_revoked_record_is_refused() {
    let mut stronghold = system(b"client");
    let location = loc(b"vault", b"record");
    stronghold.write_to_vault(location.clone(), b"secret".to_vec(), hint(b"h"), vec![]).unwrap();
    stronghold.delete_data(location.clone(), false).unwrap();
    assert_eq!(
        stronghold.write_to_vault(location.clone(), b"new".to_vec(), hint(b"h"), vec![]),
        Err(Error::Inner(VaultError::Record(RecordError::Revoked)))
    );
    assert_eq!(stronghold.read_secret(b"client".to_vec(), location), Ok(None));
}

#[test]
fn delete_in_a_missing_vault_fails() {
    let mut stronghold = system(b"client");
    assert_eq!(
        stronghold.delete_data(loc(b"vault", b"record"), true),
        Err(Error::Inner(VaultError::VaultNotFound))
    );
    assert_eq!(
        stronghold.delete_data(loc(b"vault", b"record"), false),
        Err(Error::Inner(VaultError::VaultNotFound))
    );
    assert_eq!(stronghold.vault_exists(b"vault".to_vec()), Ok(false));
}

#[test]
fn delete_of_a_missing_record_changes_nothing() {
    let mut stronghold = system(b"client");
    stronghold.write_to_vault(loc(b"vault", b"keep"), b"kept".to_vec(), hint(b"k"), vec![]).unwrap();
    assert_eq!(stronghold.delete_data(loc(b"vault", b"none"), true), Ok(()));
    assert_eq!(stronghold.stored_records(b"vault".to_vec()), Ok(1));
    assert_eq!(
        stronghold.read_secret(b"client".to_vec(), loc(b"vault", b"keep")),
        Ok(Some(b"kept".to_vec()))
    );
}

#[test]
fn garbage_collect_of_a_missing_vault_fails() {
    let mut stronghold = system(b"client");
    assert_eq!(
        stronghold.garbage_collect(b"vault".to_vec()),
        Err(Error::Inner(VaultDoesNotExist))
    );
}

#[test]
fn counter_locations_address_their_own_records() {
    let mut stronghold = system(b"client");
    let first = Location::counter(b"vault".to_vec(), 0);
    let second = Location::counter(b"vault".to_vec(), 1);
    stronghold.write_to_vault(first.clone(), b"zero".to_vec(), hint(b"0"), vec![]).unwrap();
    stronghold.write_to_vault(second.clone(), b"one".to_vec(), hint(b"1"), vec![]).unwrap();
    assert_eq!(stronghold.read_secret(vec![], first), Ok(Some(b"zero".to_vec())));
    assert_eq!(stronghold.read_secret(vec![], second), Ok(Some(b"one".to_vec())));
    assert_eq!(stronghold.stored_records(b"vault".to_vec()), Ok(2));
}

#[test]
fn many_writers_create_the_vault_once() {
    let mut stronghold = system(b"client");
    let writers: u8 = 16;
    for w in 0..writers {
        assert_eq!(
            stronghold.write_to_vault(loc(b"shared", &[w]), vec![w; 3], hint(&[w]), vec![]),
            Ok(())
        );
        assert_eq!(stronghold.vault_exists(b"shared".to_vec()), Ok(true));
    }
    assert_eq!(stronghold.stored_records(b"shared".to_vec()), Ok(writers as usize));
    for w in 0..writers {
        assert_eq!(
            stronghold.read_secret(vec![], loc(b"shared", &[w])),
            Ok(Some(vec![w; 3]))
        );
    }
}

#[test]
fn create_vault_is_idempotent() {
    let mut client = SecureClient::new(ClientId::from_path(b"client"));
    let location = loc(b"vault", b"record");
    assert!(!client.check_vault(b"vault"));
    client.create_vault(&location);
    assert!(client.check_vault(b"vault"));
    assert_eq!(client.write_to_vault(&location, b"secret".to_vec(), hint(b"h")), Ok(()));
    client.create_vault(&location);
    assert_eq!(client.read_from_vault(&location), Some(b"secret".to_vec()));
    assert_eq!(client.stored_records(b"vault"), 1);
}

#[test]
fn client_write_needs_the_vault() {
    let mut client = SecureClient::new(ClientId::from_path(b"client"));
    let location = loc(b"vault", b"record");
    assert_eq!(
        client.write_to_vault(&location, b"secret".to_vec(), hint(b"h")),
        Err(VaultError::VaultNotFound)
    );
    assert!(!client.check_vault(b"vault"));
    assert_eq!(client.revoke_data(&location), Err(VaultError::VaultNotFound));
    assert_eq!(client.garbage_collect(b"vault"), Err(VaultDoesNotExist));
    assert_eq!(client.list_ids(b"vault"), Err(VaultDoesNotExist));
    assert!(!client.check_record(&location));
    assert_eq!(client.read_from_vault(&location), None);
    assert_eq!(client.client_id(), ClientId::from_path(b"client"));
}

#[test]
fn vault_write_revoke_collect() {
    let mut vault = Vault::new();
    let id = RecordId::from_bytes([1u8; 24]);
    assert_eq!(vault.write(b"a", id, b"one".to_vec(), hint(b"x")), Ok(()));
    assert_eq!(vault.write(b"b", id, b"two".to_vec(), hint(b"y")), Ok(()));
    assert_eq!(vault.record_count(), 2);
    assert!(vault.contains_record(b"a"));
    assert_eq!(vault.read(b"a"), Some(b"one".to_vec()));
    vault.revoke(b"a");
    vault.revoke(b"missing");
    assert!(!vault.contains_record(b"a"));
    assert_eq!(vault.read(b"a"), None);
    assert_eq!(vault.write(b"a", id, b"new".to_vec(), hint(b"x")), Err(RecordError::Revoked));
    assert_eq!(vault.record_count(), 2);
    assert_eq!(vault.list_hints_and_ids(), vec![(id, hint(b"y"))]);
    vault.garbage_collect();
    assert_eq!(vault.record_count(), 1);
    assert_eq!(vault.read(b"b"), Some(b"two".to_vec()));
    vault.garbage_collect();
    assert_eq!(vault.record_count(), 1);
}
