use stronghold::identity::{ClientId, RecordHint};
use stronghold::interface::{Error, Stronghold};
use stronghold::location::Location;
use stronghold::snapshot::{
    take_key, ReadSnapshotError, Snapshot, WriteSnapshotError, HEADER_SIZE, MAGIC, SEAL_SIZE,
    VERSION,
};

fn hint(bytes: &[u8]) -> RecordHint {
    RecordHint::new(bytes).unwrap()
}

fn loc(vault: &[u8], record: &[u8]) -> Location {
    Location::generic(vault.to_vec(), record.to_vec())
}

fn key(byte: u8) -> Vec<u8> {
    vec![byte; 32]
}

fn two_clients() -> Stronghold {
    let mut stronghold = Stronghold::init_stronghold_system(b"A".to_vec(), vec![]).unwrap();
    stronghold.write_to_vault(loc(b"vault", b"one"), b"secret of A".to_vec(), hint(b"a1"), vec![]).unwrap();
    stronghold.write_to_vault(loc(b"vault", b"two"), b"revoked of A".to_vec(), hint(b"a2"), vec![]).unwrap();
    stronghold.delete_data(loc(b"vault", b"two"), false).unwrap();
    stronghold.write_to_store(b"key".to_vec(), b"value of A".to_vec(), Some(50), 100).unwrap();
    stronghold.spawn_stronghold_actor(b"B".to_vec(), vec![]).unwrap();
    stronghold.write_to_vault(loc(b"vault", b"one"), b"secret of B".to_vec(), hint(b"b1"), vec![]).unwrap();
    stronghold.write_to_store(b"key".to_vec(), b"value of B".to_vec(), None, 100).unwrap();
    stronghold
}

#[test]
fn take_key_copies_and_scrubs() {
    let mut keydata: Vec<u8> = (0u8..32).collect();
    let key = take_key(&mut keydata).unwrap();
    assert!(keydata.is_empty());
    for (i, b) in key.iter().enumerate() {
        assert_eq!(*b, i as u8);
    }
}

#[test]
fn take_key_refuses_other_lengths_and_scrubs() {
    for len in [0usize, 1, 31, 33, 64] {
        let mut keydata = vec![7u8; len];
        assert_eq!(take_key(&mut keydata), None);
        assert!(keydata.is_empty());
    }
}

#[test]
fn snapshot_round_trip_restores_each_client() {
    let mut source = two_clients();
    let mut keydata = key(9);
    let file = source.write_all_to_snapshot(&mut keydata).unwrap();
    assert!(keydata.is_empty());

    let mut fresh = Stronghold::init_stronghold_system(b"A".to_vec(), vec![]).unwrap();
    fresh.spawn_stronghold_actor(b"B".to_vec(), vec![]).unwrap();
    fresh.switch_actor_target(b"A".to_vec()).unwrap();
    let mut keydata = key(9);
    assert_eq!(fresh.read_snapshot(b"A".to_vec(), None, &mut keydata, &file), Ok(()));
    assert!(keydata.is_empty());

    assert_eq!(fresh.read_secret(vec![], loc(b"vault", b"one")), Ok(Some(b"secret of A".to_vec())));
    assert_eq!(fresh.read_secret(vec![], loc(b"vault", b"two")), Ok(None));
    assert_eq!(fresh.stored_records(b"vault".to_vec()), Ok(2));
    assert_eq!(
        fresh.list_hints_and_ids(b"vault".to_vec()),
        {
            source.switch_actor_target(b"A".to_vec()).unwrap();
            source.list_hints_and_ids(b"vault".to_vec())
        }
    );
    assert_eq!(fresh.read_from_store(b"key".to_vec(), 149), Ok(Some(b"value of A".to_vec())));
    assert_eq!(fresh.read_from_store(b"key".to_vec(), 150), Ok(None));

    // B is untouched until it is read as well.
    fresh.switch_actor_target(b"B".to_vec()).unwrap();
    assert_eq!(fresh.vault_exists(b"vault".to_vec()), Ok(false));
    assert_eq!(fresh.read_from_store(b"key".to_vec(), 100), Ok(None));
    let mut keydata = key(9);
    assert_eq!(fresh.read_snapshot(b"B".to_vec(), None, &mut keydata, &file), Ok(()));
    assert_eq!(fresh.read_secret(vec![], loc(b"vault", b"one")), Ok(Some(b"secret of B".to_vec())));
    assert_eq!(fresh.read_from_store(b"key".to_vec(), 1_000_000), Ok(Some(b"value of B".to_vec())));
    fresh.switch_actor_target(b"A".to_vec()).unwrap();
    assert_eq!(fresh.read_secret(vec![], loc(b"vault", b"one")), Ok(Some(b"secret of A".to_vec())));
}

#[test]
fn snapshot_file_has_header_and_hides_the_secrets() {
    let mut source = two_clients();
    let file = source.write_all_to_snapshot(&mut key(1)).unwrap();
    assert!(file.len() >= HEADER_SIZE + SEAL_SIZE);
    assert_eq!(&file[..5], &MAGIC[..]);
    assert_eq!(&file[5..7], &VERSION[..]);
    let secret = b"secret of A";
    assert!(!file.windows(secret.len()).any(|w| w == secret));
}

#[test]
fn snapshot_write_leaves_the_system_as_it_is() {
    let mut source = two_clients();
    source.write_all_to_snapshot(&mut key(1)).unwrap();
    assert_eq!(source.read_secret(vec![], loc(b"vault", b"one")), Ok(Some(b"secret of B".to_vec())));
    source.switch_actor_target(b"A".to_vec()).unwrap();
    assert_eq!(source.read_secret(vec![], loc(b"vault", b"one")), Ok(Some(b"secret of A".to_vec())));
}

#[test]
fn snapshot_read_with_wrong_key_fails_with_decryption_error() {
    let mut source = two_clients();
    let file = source.write_all_to_snapshot(&mut key(1)).unwrap();
    let mut fresh = Stronghold::init_stronghold_system(b"A".to_vec(), vec![]).unwrap();
    fresh.write_to_vault(loc(b"own", b"r"), b"own".to_vec(), hint(b"o"), vec![]).unwrap();
    let mut wrong = key(2);
    assert_eq!(
        fresh.read_snapshot(b"A".to_vec(), None, &mut wrong, &file),
        Err(Error::Inner(ReadSnapshotError::Decryption))
    );
    assert!(wrong.is_empty());
    assert_eq!(fresh.read_secret(vec![], loc(b"own", b"r")), Ok(Some(b"own".to_vec())));
    assert_eq!(fresh.vault_exists(b"vault".to_vec()), Ok(false));
}

#[test]
fn snapshot_read_of_tampered_file_fails() {
    let mut source = two_clients();
    let file = source.write_all_to_snapshot(&mut key(1)).unwrap();
    let mut fresh = Stronghold::init_stronghold_system(b"A".to_vec(), vec![]).unwrap();
    for position in [HEADER_SIZE, HEADER_SIZE + 40, file.len() - 1] {
        let mut tampered = file.clone();
        tampered[position] ^= 0x01;
        assert_eq!(
            fresh.read_snapshot(b"A".to_vec(), None, &mut key(1), &tampered),
            Err(Error::Inner(ReadSnapshotError::Decryption))
        );
    }
}

#[test]
fn snapshot_key_of_wrong_length_is_refused() {
    let mut source = two_clients();
    for len in [0usize, 16, 31, 33] {
        let mut keydata = vec![1u8; len];
        assert_eq!(
            source.write_all_to_snapshot(&mut keydata),
            Err(Error::Inner(WriteSnapshotError::InvalidKey))
        );
        assert!(keydata.is_empty());
    }
    let file = source.write_all_to_snapshot(&mut key(1)).unwrap();
    for len in [0usize, 16, 31, 33] {
        let mut keydata = vec![1u8; len];
        assert_eq!(
            source.read_snapshot(b"A".to_vec(), None, &mut keydata, &file),
            Err(Error::Inner(ReadSnapshotError::InvalidKey))
        );
        assert!(keydata.is_empty());
    }
}

#[test]
fn snapshot_read_checks_the_header() {
    let mut source = two_clients();
    let file = source.write_all_to_snapshot(&mut key(1)).unwrap();
    let mut fresh = Stronghold::init_stronghold_system(b"A".to_vec(), vec![]).unwrap();
    assert_eq!(
        fresh.read_snapshot(b"A".to_vec(), None, &mut key(1), &[]),
        Err(Error::Inner(ReadSnapshotError::InvalidFile))
    );
    assert_eq!(
        fresh.read_snapshot(b"A".to_vec(), None, &mut key(1), &file[..HEADER_SIZE + SEAL_SIZE - 1]),
        Err(Error::Inner(ReadSnapshotError::InvalidFile))
    );
    let mut bad_magic = file.clone();
    bad_magic[0] = b'Q';
    assert_eq!(
        fresh.read_snapshot(b"A".to_vec(), None, &mut key(1), &bad_magic),
        Err(Error::Inner(ReadSnapshotError::InvalidFile))
    );
    let mut bad_version = file.clone();
    bad_version[5] = 3;
    bad_version[6] = 1;
    assert_eq!(
        fresh.read_snapshot(b"A".to_vec(), None, &mut key(1), &bad_version),
        Err(Error::Inner(ReadSnapshotError::UnsupportedVersion { major: 3, minor: 1 }))
    );
}

#[test]
fn snapshot_read_of_unknown_client_fails() {
    let mut source = two_clients();
    let file = source.write_all_to_snapshot(&mut key(1)).unwrap();
    let mut fresh = Stronghold::init_stronghold_system(b"C".to_vec(), vec![]).unwrap();
    fresh.write_to_vault(loc(b"own", b"r"), b"own".to_vec(), hint(b"o"), vec![]).unwrap();
    assert_eq!(
        fresh.read_snapshot(b"C".to_vec(), None, &mut key(1), &file),
        Err(Error::Inner(ReadSnapshotError::ClientNotFound))
    );
    assert_eq!(fresh.read_secret(vec![], loc(b"own", b"r")), Ok(Some(b"own".to_vec())));
}

#[test]
fn snapshot_read_needs_a_worker() {
    let mut source = two_clients();
    let file = source.write_all_to_snapshot(&mut key(1)).unwrap();
    let mut fresh = Stronghold::init_stronghold_system(b"A".to_vec(), vec![]).unwrap();
    let mut keydata = key(1);
    assert_eq!(
        fresh.read_snapshot(b"A".to_vec(), Some(b"never".to_vec()), &mut keydata, &file),
        Err(Error::ActorNotSpawned)
    );
    assert!(keydata.is_empty());
    assert_eq!(fresh.check_snapshot_worker(&Some(b"never".to_vec())), Err(Error::ActorNotSpawned));
    assert_eq!(fresh.check_snapshot_worker(&Some(b"A".to_vec())), Ok(()));
    assert_eq!(fresh.check_snapshot_worker(&None), Ok(()));
    // The want of a worker comes before the key and the file.
    assert_eq!(
        fresh.read_snapshot(b"A".to_vec(), Some(b"never".to_vec()), &mut vec![1u8; 3], &[]),
        Err(Error::ActorNotSpawned)
    );
    fresh.kill_stronghold(b"A".to_vec(), true).unwrap();
    assert_eq!(fresh.check_snapshot_worker(&None), Err(Error::ActorNotSpawned));
    assert_eq!(
        fresh.read_snapshot(b"A".to_vec(), None, &mut key(1), &file),
        Err(Error::ActorNotSpawned)
    );
}

#[test]
fn snapshot_read_into_a_former_client_switches_to_it() {
    let mut source = two_clients();
    let file = source.write_all_to_snapshot(&mut key(1)).unwrap();
    let mut fresh = Stronghold::init_stronghold_system(b"old".to_vec(), vec![]).unwrap();
    fresh.spawn_stronghold_actor(b"other".to_vec(), vec![]).unwrap();
    // The target is `other`; the state of A goes into `old`, which becomes the target.
    assert_eq!(
        fresh.read_snapshot(b"A".to_vec(), Some(b"old".to_vec()), &mut key(1), &file),
        Ok(())
    );
    assert_eq!(fresh.read_secret(vec![], loc(b"vault", b"one")), Ok(Some(b"secret of A".to_vec())));
    fresh.switch_actor_target(b"other".to_vec()).unwrap();
    assert_eq!(fresh.vault_exists(b"vault".to_vec()), Ok(false));
    fresh.switch_actor_target(b"old".to_vec()).unwrap();
    assert_eq!(fresh.read_secret(vec![], loc(b"vault", b"one")), Ok(Some(b"secret of A".to_vec())));
}

#[test]
fn failed_snapshot_read_leaves_the_target_as_it_was() {
    let mut source = two_clients();
    let file = source.write_all_to_snapshot(&mut key(1)).unwrap();
    let mut fresh = Stronghold::init_stronghold_system(b"F".to_vec(), vec![]).unwrap();
    fresh.write_to_vault(loc(b"own", b"f"), b"of F".to_vec(), hint(b"f"), vec![]).unwrap();
    fresh.spawn_stronghold_actor(b"T".to_vec(), vec![]).unwrap();
    fresh.write_to_vault(loc(b"own", b"t"), b"of T".to_vec(), hint(b"t"), vec![]).unwrap();
    let former = || Some(b"F".to_vec());
    let mut tampered = file.clone();
    let last = tampered.len() - 1;
    tampered[last] ^= 1;
    let mut bad_version = file.clone();
    bad_version[6] = 9;

    // A key that does not open the file.
    assert_eq!(
        fresh.read_snapshot(b"A".to_vec(), former(), &mut key(2), &file),
        Err(Error::Inner(ReadSnapshotError::Decryption))
    );
    assert_eq!(fresh.read_secret(vec![], loc(b"own", b"t")), Ok(Some(b"of T".to_vec())));
    // A key of the wrong length, an altered file, a file that is none, another version.
    assert_eq!(
        fresh.read_snapshot(b"A".to_vec(), former(), &mut vec![1u8; 31], &file),
        Err(Error::Inner(ReadSnapshotError::InvalidKey))
    );
    assert_eq!(
        fresh.read_snapshot(b"A".to_vec(), former(), &mut key(1), &tampered),
        Err(Error::Inner(ReadSnapshotError::Decryption))
    );
    assert_eq!(
        fresh.read_snapshot(b"A".to_vec(), former(), &mut key(1), &[]),
        Err(Error::Inner(ReadSnapshotError::InvalidFile))
    );
    assert_eq!(
        fresh.read_snapshot(b"A".to_vec(), former(), &mut key(1), &bad_version),
        Err(Error::Inner(ReadSnapshotError::UnsupportedVersion { major: 2, minor: 9 }))
    );
    // A client that the snapshot does not hold.
    assert_eq!(
        fresh.read_snapshot(b"C".to_vec(), former(), &mut key(1), &file),
        Err(Error::Inner(ReadSnapshotError::ClientNotFound))
    );
    // After all of these the target is still T, and F holds what it held.
    assert_eq!(fresh.read_secret(vec![], loc(b"own", b"t")), Ok(Some(b"of T".to_vec())));
    assert_eq!(fresh.vault_exists(b"vault".to_vec()), Ok(false));
    fresh.switch_actor_target(b"F".to_vec()).unwrap();
    assert_eq!(fresh.read_secret(vec![], loc(b"own", b"f")), Ok(Some(b"of F".to_vec())));
    assert_eq!(fresh.vault_exists(b"vault".to_vec()), Ok(false));
}

#[test]
fn snapshot_state_that_does_not_decode_installs_nothing() {
    let a = ClientId::from_path(b"A");
    let mut snapshot = Snapshot::new();
    snapshot.fill(&a, vec![1, 2, 3]);
    let file = snapshot.write(&[1u8; 32]).ok().unwrap();
    let mut fresh = Stronghold::init_stronghold_system(b"F".to_vec(), vec![]).unwrap();
    fresh.write_to_store(b"k".to_vec(), b"of F".to_vec(), None, 0).unwrap();
    fresh.spawn_stronghold_actor(b"T".to_vec(), vec![]).unwrap();
    assert_eq!(
        fresh.read_snapshot(b"A".to_vec(), Some(b"F".to_vec()), &mut key(1), &file),
        Err(Error::Inner(ReadSnapshotError::CorruptedContent))
    );
    assert_eq!(fresh.read_from_store(b"k".to_vec(), 0), Ok(None));
    assert_eq!(
        fresh.read_snapshot(b"A".to_vec(), None, &mut key(1), &file),
        Err(Error::Inner(ReadSnapshotError::CorruptedContent))
    );
    fresh.switch_actor_target(b"F".to_vec()).unwrap();
    assert_eq!(fresh.read_from_store(b"k".to_vec(), 0), Ok(Some(b"of F".to_vec())));
}

#[test]
fn snapshot_of_no_clients() {
    let mut stronghold = Stronghold::init_stronghold_system(b"A".to_vec(), vec![]).unwrap();
    stronghold.kill_stronghold(b"A".to_vec(), true).unwrap();
    let file = stronghold.write_all_to_snapshot(&mut key(1)).unwrap();
    let snapshot = Snapshot::read(&file, &[1u8; 32]).ok().unwrap();
    assert!(snapshot.is_empty());
}

#[test]
fn snapshot_fill_write_read() {
    let a = ClientId::from_path(b"a");
    let b = ClientId::from_path(b"b");
    let mut snapshot = Snapshot::new();
    assert!(snapshot.is_empty());
    snapshot.fill(&a, b"state of a".to_vec());
    snapshot.fill(&b, vec![]);
    snapshot.fill(&a, b"newer state of a".to_vec());
    snapshot.fill_state(b"raw".to_vec(), vec![0u8; 5000]);
    assert!(!snapshot.is_empty());
    let key = [3u8; 32];
    let file = snapshot.write(&key).ok().unwrap();
    let read = Snapshot::read(&file, &key).ok().unwrap();
    assert_eq!(read.get_state(&a), Some(&b"newer state of a".to_vec()));
    assert_eq!(read.get_state(&b), Some(&vec![]));
    assert_eq!(read.get_state(&ClientId::from_path(b"c")), None);
    assert!(matches!(Snapshot::read(&file, &[4u8; 32]), Err(ReadSnapshotError::Decryption)));
    // Two writes of the same states differ: each seal draws a fresh key.
    let again = snapshot.write(&key).ok().unwrap();
    assert_ne!(file, again);
    assert_eq!(file.len(), again.len());
    // Five thousand zeroes are packed, not stored as they are.
    assert!(file.len() < 1000);
}

#[test]
fn frame_sealed_hands_out_only_what_reads_back() {
    let plain = b"some plain bytes, some plain bytes, some plain bytes".to_vec();
    let packed = engine::snapshot::compress(&plain);
    let key = [5u8; 32];
    let mut sealed = Vec::new();
    engine::snapshot::write(&packed, &mut sealed, &key, &[]).unwrap();

    let file = stronghold::snapshot::frame_sealed(&plain, &packed, Some(sealed.clone()), &key)
        .ok()
        .unwrap();
    let mut expected = MAGIC.to_vec();
    expected.extend_from_slice(&VERSION);
    expected.extend_from_slice(&sealed);
    assert_eq!(file, expected);

    // Packed bytes that do not expand to the plain bytes.
    assert_eq!(
        stronghold::snapshot::frame_sealed(&plain, &plain, Some(sealed.clone()), &key),
        Err(WriteSnapshotError::Compression)
    );
    assert_eq!(
        stronghold::snapshot::frame_sealed(b"other", &packed, Some(sealed.clone()), &key),
        Err(WriteSnapshotError::Compression)
    );
    // No sealed bytes, or sealed bytes that do not open to the packed bytes.
    assert_eq!(
        stronghold::snapshot::frame_sealed(&plain, &packed, None, &key),
        Err(WriteSnapshotError::Sealing)
    );
    assert_eq!(
        stronghold::snapshot::frame_sealed(&plain, &packed, Some(sealed.clone()), &[6u8; 32]),
        Err(WriteSnapshotError::Sealing)
    );
    assert_eq!(
        stronghold::snapshot::frame_sealed(&plain, &packed, Some(vec![0u8; 10]), &key),
        Err(WriteSnapshotError::Sealing)
    );
    assert_eq!(
        stronghold::snapshot::frame_sealed(&plain, &packed, Some(packed.clone()), &key),
        Err(WriteSnapshotError::Sealing)
    );
    let mut altered = sealed;
    altered[50] ^= 0x80;
    assert_eq!(
        stronghold::snapshot::frame_sealed(&plain, &packed, Some(altered), &key),
        Err(WriteSnapshotError::Sealing)
    );
}

#[test]
fn snapshot_made_outside_is_read() {
    let mut states: stronghold::keymap::KeyMap<Vec<u8>> = stronghold::keymap::KeyMap::new();
    let a = ClientId::from_path(b"a");
    states.insert(a.as_bytes().to_vec(), b"state of a".to_vec());
    let plain = stronghold::codec::encode_entries(&states);
    let key = [8u8; 32];
    let mut file = MAGIC.to_vec();
    file.extend_from_slice(&VERSION);
    engine::snapshot::write(&engine::snapshot::compress(&plain), &mut file, &key, &[]).unwrap();
    let snapshot = Snapshot::read(&file, &key).ok().unwrap();
    assert_eq!(snapshot.get_state(&a), Some(&b"state of a".to_vec()));

    // Sealed under the key, but not a list of states.
    let mut junk = MAGIC.to_vec();
    junk.extend_from_slice(&VERSION);
    engine::snapshot::write(&engine::snapshot::compress(&[1, 2, 3]), &mut junk, &key, &[]).unwrap();
    assert!(matches!(Snapshot::read(&junk, &key), Err(ReadSnapshotError::CorruptedContent)));
}
