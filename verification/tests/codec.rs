use stronghold::codec::{decode_entries, decode_frames, encode_entries, encode_frames, Encodable};
use stronghold::identity::{ClientId, RecordHint, RecordId};
use stronghold::keymap::KeyMap;
use stronghold::location::Location;
use stronghold::secure::SecureClient;
use stronghold::store::Store;
use stronghold::vault::Vault;

#[test]
fn frames_have_a_length_prefix() {
    let frames = vec![b"ab".to_vec(), vec![], b"c".to_vec()];
    let bytes = encode_frames(&frames);
    assert_eq!(
        bytes,
        vec![
            2, 0, 0, 0, 0, 0, 0, 0, b'a', b'b', //
            0, 0, 0, 0, 0, 0, 0, 0, //
            1, 0, 0, 0, 0, 0, 0, 0, b'c',
        ]
    );
    assert_eq!(decode_frames(&bytes), Some(frames));
}

#[test]
fn no_frames_are_no_bytes() {
    assert_eq!(encode_frames(&vec![]), Vec::<u8>::new());
    assert_eq!(decode_frames(&[]), Some(vec![]));
}

#[test]
fn truncated_frames_are_refused() {
    assert_eq!(decode_frames(&[1, 0, 0]), None);
    assert_eq!(decode_frames(&[1, 0, 0, 0, 0, 0, 0, 0]), None);
    assert_eq!(decode_frames(&[2, 0, 0, 0, 0, 0, 0, 0, 7]), None);
    assert_eq!(decode_frames(&[255, 255, 255, 255, 255, 255, 255, 255, 7]), None);
    assert_eq!(decode_frames(&[0, 0, 0, 0, 0, 0, 0, 0, 7]), None);
}

#[test]
fn entries_round_trip_in_order() {
    let mut map: KeyMap<Vec<u8>> = KeyMap::new();
    map.insert(b"z".to_vec(), b"last letter".to_vec());
    map.insert(b"a".to_vec(), vec![]);
    let bytes = encode_entries(&map);
    let read: KeyMap<Vec<u8>> = decode_entries(&bytes).unwrap();
    assert_eq!(read.len(), 2);
    assert_eq!(read.key_at(0), &b"z".to_vec());
    assert_eq!(read.value_at(0), &b"last letter".to_vec());
    assert_eq!(read.key_at(1), &b"a".to_vec());
    assert_eq!(read.value_at(1), &Vec::<u8>::new());
}

#[test]
fn malformed_entries_are_refused() {
    // A key without a value.
    let odd = encode_frames(&vec![b"k".to_vec()]);
    assert!(decode_entries::<Vec<u8>>(&odd).is_none());
    // The same key twice.
    let twice = encode_frames(&vec![b"k".to_vec(), vec![1], b"k".to_vec(), vec![2]]);
    assert!(decode_entries::<Vec<u8>>(&twice).is_none());
    // Bytes that are no frames.
    assert!(decode_entries::<Vec<u8>>(&[1, 2, 3]).is_none());
}

#[test]
fn vault_round_trip() {
    let mut vault = Vault::new();
    let id = RecordId::from_bytes([5u8; 24]);
    vault.write(b"a", id, b"one".to_vec(), RecordHint::new(b"x").unwrap()).unwrap();
    vault.write(b"b", id, vec![], RecordHint::new(b"y").unwrap()).unwrap();
    vault.revoke(b"a");
    let bytes = vault.encode();
    let read = Vault::decode(&bytes).unwrap();
    assert_eq!(read.record_count(), 2);
    assert_eq!(read.read(b"a"), None);
    assert_eq!(read.read(b"b"), Some(vec![]));
    assert_eq!(read.list_hints_and_ids(), vec![(id, RecordHint::new(b"y").unwrap())]);
    let mut read = read;
    read.garbage_collect();
    assert_eq!(read.record_count(), 1);
}

#[test]
fn malformed_vault_is_refused() {
    // A record shorter than its fixed part.
    let short = encode_frames(&vec![b"path".to_vec(), vec![0u8; 48]]);
    assert!(Vault::decode(&short).is_none());
    // A flag that is neither 0 nor 1.
    let mut record = vec![0u8; 49];
    record[48] = 2;
    let flag = encode_frames(&vec![b"path".to_vec(), record]);
    assert!(Vault::decode(&flag).is_none());
    // The smallest record that is well formed.
    let least = encode_frames(&vec![b"path".to_vec(), vec![0u8; 49]]);
    assert_eq!(Vault::decode(&least).unwrap().read(b"path"), Some(vec![]));
}

#[test]
fn store_round_trip() {
    let mut store = Store::new();
    store.write(b"forever".to_vec(), b"v1".to_vec(), None, 7);
    store.write(b"short".to_vec(), b"v2".to_vec(), Some(10), 100);
    let bytes = store.encode();
    let read = Store::decode(&bytes).unwrap();
    assert_eq!(read.read(b"forever", u64::MAX), Some(b"v1".to_vec()));
    assert_eq!(read.read(b"short", 109), Some(b"v2".to_vec()));
    assert_eq!(read.read(b"short", 110), None);
    assert!(Store::decode(&encode_frames(&vec![b"k".to_vec(), vec![0u8; 16]])).is_none());
}

#[test]
fn client_state_round_trip() {
    let mut client = SecureClient::new(ClientId::from_path(b"a"));
    let location = Location::generic(b"vault".to_vec(), b"record".to_vec());
    client.create_vault(&location);
    client.write_to_vault(&location, b"secret".to_vec(), RecordHint::new(b"h").unwrap()).unwrap();
    client.write_to_store(b"k".to_vec(), b"v".to_vec(), Some(5), 1);
    let data = client.get_data();

    let mut other = SecureClient::new(ClientId::from_path(b"b"));
    other.write_to_store(b"gone".to_vec(), b"x".to_vec(), None, 0);
    assert!(other.reload_data(&data, ClientId::from_path(b"a")));
    assert_eq!(other.client_id(), ClientId::from_path(b"a"));
    assert_eq!(other.read_from_vault(&location), Some(b"secret".to_vec()));
    assert_eq!(other.list_ids(b"vault"), client.list_ids(b"vault"));
    assert_eq!(other.read_from_store(b"k", 5), Some(b"v".to_vec()));
    assert_eq!(other.read_from_store(b"k", 6), None);
    assert_eq!(other.read_from_store(b"gone", 0), None);
}

#[test]
fn malformed_client_state_changes_nothing() {
    let mut client = SecureClient::new(ClientId::from_path(b"a"));
    client.write_to_store(b"k".to_vec(), b"v".to_vec(), None, 0);
    assert!(!client.reload_data(&[1, 2, 3], ClientId::from_path(b"b")));
    assert!(!client.reload_data(&[], ClientId::from_path(b"b")));
    assert!(!client.reload_data(&encode_frames(&vec![vec![]]), ClientId::from_path(b"b")));
    assert!(!client.reload_data(
        &encode_frames(&vec![vec![], vec![], vec![]]),
        ClientId::from_path(b"b")
    ));
    assert_eq!(client.client_id(), ClientId::from_path(b"a"));
    assert_eq!(client.read_from_store(b"k", 0), Some(b"v".to_vec()));
    // Two empty frames are an empty state.
    assert!(client.reload_data(&encode_frames(&vec![vec![], vec![]]), ClientId::from_path(b"b")));
    assert_eq!(client.client_id(), ClientId::from_path(b"b"));
    assert_eq!(client.read_from_store(b"k", 0), None);
}
