use stronghold::identity::{derive_id, id_array, ClientId, RecordHint, RecordId, ID_SIZE};
use stronghold::location::Location;

// The first HMAC-SHA-512 test vector of RFC 4231: key = 20 bytes of 0x0b, data = "Hi There".
const RFC4231_TAG: [u8; 64] = [
    0x87, 0xaa, 0x7c, 0xde, 0xa5, 0xef, 0x61, 0x9d, 0x4f, 0xf0, 0xb4, 0x24, 0x1a, 0x1d, 0x6c, 0xb0,
    0x23, 0x79, 0xf4, 0xe2, 0xce, 0x4e, 0xc2, 0x78, 0x7a, 0xd0, 0xb3, 0x05, 0x45, 0xe1, 0x7c, 0xde,
    0xda, 0xa8, 0x33, 0xb7, 0xd6, 0xb8, 0xa7, 0x02, 0x03, 0x8b, 0x27, 0x4e, 0xae, 0xa3, 0xf4, 0xe4,
    0xbe, 0x9d, 0x91, 0x4e, 0xeb, 0x61, 0xf1, 0x70, 0x2e, 0x69, 0x6c, 0x20, 0x3a, 0x12, 0x68, 0x54,
];

#[test]
fn derived_id_is_the_head_of_the_keyed_hash() {
    let id = derive_id(b"Hi There", &[0x0b; 20]);
    assert_eq!(id.len(), ID_SIZE);
    assert_eq!(&id[..], &RFC4231_TAG[..24]);
}

#[test]
fn client_id_load_from_path_matches_known_vector() {
    let id = ClientId::load_from_path(b"Hi There", &[0x0b; 20]);
    assert_eq!(id.as_bytes(), &RFC4231_TAG[..24]);
}

#[test]
fn equal_paths_give_equal_identities() {
    let a = ClientId::from_path(b"client one");
    let b = ClientId::from_path(&b"client one".to_vec());
    assert_eq!(a, b);
    assert_eq!(a.as_bytes(), b.as_bytes());
    assert_eq!(a, ClientId::load_from_path(b"client one", b"client one"));
}

#[test]
fn different_paths_give_different_identities() {
    let paths: Vec<Vec<u8>> = vec![
        b"".to_vec(),
        b"a".to_vec(),
        b"b".to_vec(),
        b"ab".to_vec(),
        b"ba".to_vec(),
        b"client".to_vec(),
        b"client ".to_vec(),
        vec![0u8; 64],
        vec![0u8; 65],
    ];
    for i in 0..paths.len() {
        for j in 0..paths.len() {
            if i != j {
                assert_ne!(ClientId::from_path(&paths[i]), ClientId::from_path(&paths[j]));
            }
        }
    }
}

#[test]
fn client_id_from_bytes_keeps_the_bytes() {
    let mut bytes = [0u8; 24];
    for (i, b) in bytes.iter_mut().enumerate() {
        *b = i as u8;
    }
    let id = ClientId::from_bytes(bytes);
    assert_eq!(id.as_bytes(), &bytes[..]);
    assert_eq!(id_array(id.as_bytes()), bytes);
}

#[test]
fn record_id_is_derived_through_the_vault() {
    let client = ClientId::from_path(b"client");
    let vault_id = derive_id(client.as_bytes(), b"vault");
    let expected = derive_id(&vault_id, b"record");
    let id = RecordId::derive(&client, b"vault", b"record");
    assert_eq!(id.as_bytes(), &expected[..]);
    assert_eq!(id, RecordId::from_bytes(expected));
    assert_ne!(id, RecordId::derive(&client, b"vault", b"other"));
    assert_ne!(id, RecordId::derive(&client, b"other", b"record"));
    assert_ne!(id, RecordId::derive(&ClientId::from_path(b"other"), b"vault", b"record"));
}

#[test]
fn record_hint_pads_short_input_with_zeroes() {
    let hint = RecordHint::new(b"hint").unwrap();
    let mut expected = [0u8; 24];
    expected[..4].copy_from_slice(b"hint");
    assert_eq!(hint.as_bytes(), &expected[..]);
    assert_eq!(hint, RecordHint::from_bytes(expected));
}

#[test]
fn record_hint_takes_empty_and_full_input() {
    assert_eq!(RecordHint::new(b"").unwrap().as_bytes(), &[0u8; 24][..]);
    let full = [7u8; 24];
    assert_eq!(RecordHint::new(&full).unwrap().as_bytes(), &full[..]);
}

#[test]
fn record_hint_refuses_long_input() {
    assert_eq!(RecordHint::new(&[1u8; 25]), None);
    assert_eq!(RecordHint::new(&[1u8; 100]), None);
}

#[test]
fn generic_location_keeps_its_paths() {
    let location = Location::generic(b"vault".to_vec(), b"record".to_vec());
    assert_eq!(location.vault_path(), b"vault");
    assert_eq!(location.record_path(), b"record".to_vec());
    assert_eq!(
        location,
        Location::Generic { vault_path: b"vault".to_vec(), record_path: b"record".to_vec() }
    );
    assert_eq!(location.duplicate(), location);
}

#[test]
fn counter_location_names_the_record_by_its_number() {
    let location = Location::counter(b"vault".to_vec(), 258);
    assert_eq!(location.vault_path(), b"vault");
    assert_eq!(location.record_path(), vec![2u8, 1, 0, 0, 0, 0, 0, 0]);
    assert_eq!(location.duplicate(), location);
    assert_ne!(Location::counter(b"vault".to_vec(), 0).record_path(), location.record_path());
}
