use stronghold::bytes::{append_bytes, bytes_eq, copy_bytes};
use stronghold::keymap::KeyMap;

#[test]
fn bytes_helpers() {
    assert!(bytes_eq(b"abc", b"abc"));
    assert!(!bytes_eq(b"abc", b"abd"));
    assert!(!bytes_eq(b"abc", b"ab"));
    assert!(bytes_eq(b"", b""));
    assert_eq!(copy_bytes(b"abc"), b"abc".to_vec());
    let mut buf = b"ab".to_vec();
    append_bytes(&mut buf, b"cd");
    assert_eq!(buf, b"abcd".to_vec());
    append_bytes(&mut buf, b"");
    assert_eq!(buf, b"abcd".to_vec());
}

#[test]
fn key_map_insert_and_get() {
    let mut map: KeyMap<u32> = KeyMap::new();
    assert!(map.is_empty());
    assert_eq!(map.len(), 0);
    assert_eq!(map.insert(b"one".to_vec(), 1), None);
    assert_eq!(map.insert(b"two".to_vec(), 2), None);
    assert_eq!(map.len(), 2);
    assert!(!map.is_empty());
    assert_eq!(map.get(b"one"), Some(&1));
    assert_eq!(map.get(b"two"), Some(&2));
    assert_eq!(map.get(b"three"), None);
    assert!(map.contains_key(b"one"));
    assert!(!map.contains_key(b"on"));
}

#[test]
fn key_map_insert_replaces_in_place() {
    let mut map: KeyMap<u32> = KeyMap::new();
    map.insert(b"a".to_vec(), 1);
    map.insert(b"b".to_vec(), 2);
    assert_eq!(map.insert(b"a".to_vec(), 10), Some(1));
    assert_eq!(map.len(), 2);
    assert_eq!(map.key_at(0), &b"a".to_vec());
    assert_eq!(map.value_at(0), &10);
    assert_eq!(map.key_at(1), &b"b".to_vec());
    assert_eq!(map.value_at(1), &2);
}

#[test]
fn key_map_get_mut_changes_the_value() {
    let mut map: KeyMap<Vec<u8>> = KeyMap::new();
    map.insert(b"k".to_vec(), vec![1]);
    map.get_mut(b"k").unwrap().push(2);
    assert_eq!(map.get(b"k"), Some(&vec![1, 2]));
    assert!(map.get_mut(b"missing").is_none());
}

#[test]
fn key_map_remove_keeps_the_order_of_the_rest() {
    let mut map: KeyMap<u32> = KeyMap::new();
    map.insert(b"a".to_vec(), 1);
    map.insert(b"b".to_vec(), 2);
    map.insert(b"c".to_vec(), 3);
    assert_eq!(map.remove(b"b"), Some(2));
    assert_eq!(map.remove(b"b"), None);
    assert_eq!(map.len(), 2);
    assert_eq!(map.key_at(0), &b"a".to_vec());
    assert_eq!(map.key_at(1), &b"c".to_vec());
    assert_eq!(map.remove_at(0), (b"a".to_vec(), 1));
    assert_eq!(map.len(), 1);
    assert_eq!(map.get(b"c"), Some(&3));
}
