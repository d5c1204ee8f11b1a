//! The store: a plain key-value cache whose entries may expire.
//!
//! Time is a number of ticks on a clock that the caller reads; the store
//! itself never looks at a clock.

use vstd::prelude::*;
use vstd::bytes::{
    lemma_auto_spec_u64_to_from_le_bytes,
    spec_u64_from_le_bytes,
    spec_u64_to_le_bytes,
    u64_from_le_bytes,
    u64_to_le_bytes,
};
use vstd::slice::slice_subrange;
use crate::bytes::{append_bytes, copy_bytes};
use crate::codec::{decode_entries, decoded_entries, encode_entries, Encodable};
use crate::keymap::KeyMap;

verus! {

/// What the store holds of one entry.
pub struct EntryView {
    /// The stored value.
    pub value: Seq<u8>,
    /// The time of the write.
    pub written_at: u64,
    /// How long after the write the entry stays readable; forever if `None`.
    pub lifetime: Option<u64>,
}

impl EntryView {
    /// Whether the entry is readable at time `now`: it has no lifetime, or
    /// less than its lifetime has passed since it was written.
    pub open spec fn alive(self, now: u64) -> bool {
        match self.lifetime {
            None => true,
            Some(lifetime) => now < self.written_at + lifetime,
        }
    }
}

/// One stored entry.
pub struct Entry {
    value: Vec<u8>,
    written_at: u64,
    lifetime: Option<u64>,
}

impl View for Entry {
    type V = EntryView;

    closed spec fn view(&self) -> EntryView {
        EntryView { value: self.value@, written_at: self.written_at, lifetime: self.lifetime }
    }
}

impl Entry {
    fn is_alive(&self, now: u64) -> (alive: bool)
        ensures
            alive == self@.alive(now),
    {
        match self.lifetime {
            None => true,
            Some(lifetime) => {
                let deadline: u128 = self.written_at as u128 + lifetime as u128;
                (now as u128) < deadline
            },
        }
    }
}

/// Number of bytes before the value in an encoded entry.
pub const ENTRY_HEADER_SIZE: usize = 17;

/// An encoded entry is the time of its write, one byte that is 1 where
/// it has a lifetime and 0 otherwise, the lifetime, and the value.
impl Encodable for Entry {
    open spec fn decoded(bytes: Seq<u8>) -> Option<EntryView> {
        if bytes.len() < ENTRY_HEADER_SIZE || bytes[8] > 1 {
            None
        } else {
            Some(
                EntryView {
                    value: bytes.skip(ENTRY_HEADER_SIZE as int),
                    written_at: spec_u64_from_le_bytes(bytes.subrange(0, 8)),
                    lifetime: if bytes[8] == 1 {
                        Some(spec_u64_from_le_bytes(bytes.subrange(9, ENTRY_HEADER_SIZE as int)))
                    } else {
                        None
                    },
                },
            )
        }
    }

    fn encode(&self) -> (bytes: Vec<u8>) {
        let mut bytes: Vec<u8> = u64_to_le_bytes(self.written_at);
        let (flag, lifetime): (u8, u64) = match self.lifetime {
            Some(lifetime) => (1u8, lifetime),
            None => (0u8, 0u64),
        };
        bytes.push(flag);
        let field = u64_to_le_bytes(lifetime);
        append_bytes(&mut bytes, field.as_slice());
        append_bytes(&mut bytes, self.value.as_slice());
        proof {
            lemma_auto_spec_u64_to_from_le_bytes();
            assert(bytes@ =~= spec_u64_to_le_bytes(self.written_at) + seq![flag]
                + spec_u64_to_le_bytes(lifetime) + self.value@);
            assert(bytes@.subrange(0, 8) =~= spec_u64_to_le_bytes(self.written_at));
            assert(bytes@.subrange(9, ENTRY_HEADER_SIZE as int) =~= spec_u64_to_le_bytes(lifetime));
            assert(bytes@.skip(ENTRY_HEADER_SIZE as int) =~= self.value@);
        }
        bytes
    }

    fn decode(bytes: &[u8]) -> (value: Option<Self>) {
        if bytes.len() < ENTRY_HEADER_SIZE {
            return None;
        }
        let flag = bytes[8];
        if flag > 1 {
            return None;
        }
        let written_at = u64_from_le_bytes(slice_subrange(bytes, 0, 8));
        let lifetime = if flag == 1 {
            Some(u64_from_le_bytes(slice_subrange(bytes, 9, ENTRY_HEADER_SIZE)))
        } else {
            None
        };
        let value = copy_bytes(slice_subrange(bytes, ENTRY_HEADER_SIZE, bytes.len()));
        assert(value@ =~= bytes@.skip(ENTRY_HEADER_SIZE as int));
        Some(Entry { value, written_at, lifetime })
    }
}

/// The value readable under `key` at time `now`.
pub open spec fn store_read(store: Map<Seq<u8>, EntryView>, key: Seq<u8>, now: u64) -> Option<Seq<u8>> {
    if store.contains_key(key) && store[key].alive(now) {
        Some(store[key].value)
    } else {
        None
    }
}

/// The store after `value` is written under `key` at time `now`.
pub open spec fn store_write(
    store: Map<Seq<u8>, EntryView>,
    key: Seq<u8>,
    value: Seq<u8>,
    lifetime: Option<u64>,
    now: u64,
) -> Map<Seq<u8>, EntryView> {
    store.insert(key, EntryView { value, written_at: now, lifetime })
}

/// The store after `key` is deleted.
pub open spec fn store_delete(store: Map<Seq<u8>, EntryView>, key: Seq<u8>) -> Map<Seq<u8>, EntryView> {
    store.remove(key)
}

/// An entry is readable from its write until its lifetime has passed, and
/// not afterwards; one without a lifetime stays readable.
pub proof fn lemma_store_lifetime(
    store: Map<Seq<u8>, EntryView>,
    key: Seq<u8>,
    value: Seq<u8>,
    lifetime: Option<u64>,
    written: u64,
    now: u64,
)
    ensures
        lifetime is None ==> store_read(store_write(store, key, value, lifetime, written), key, now)
            == Some(value),
        lifetime matches Some(d) && now < written + d ==> store_read(
            store_write(store, key, value, lifetime, written),
            key,
            now,
        ) == Some(value),
        lifetime matches Some(d) && now >= written + d ==> store_read(
            store_write(store, key, value, lifetime, written),
            key,
            now,
        ) is None,
{
}

/// A key-value cache with optional lifetimes.
pub struct Store {
    entries: KeyMap<Entry>,
}

impl View for Store {
    type V = Map<Seq<u8>, EntryView>;

    closed spec fn view(&self) -> Map<Seq<u8>, EntryView> {
        self.entries@.map_values(|e: Entry| e@)
    }
}

/// An encoded store lists its entries by key.
impl Encodable for Store {
    open spec fn decoded(bytes: Seq<u8>) -> Option<Map<Seq<u8>, EntryView>> {
        match decoded_entries::<Entry>(bytes) {
            None => None,
            Some((entries, _)) => Some(entries),
        }
    }

    fn encode(&self) -> (bytes: Vec<u8>) {
        encode_entries(&self.entries)
    }

    fn decode(bytes: &[u8]) -> (value: Option<Self>) {
        match decode_entries::<Entry>(bytes) {
            Some(entries) => Some(Store { entries }),
            None => None,
        }
    }
}

impl Store {
    /// An empty store.
    pub fn new() -> (store: Self)
        ensures
            store@ == Map::<Seq<u8>, EntryView>::empty(),
    {
        let store = Store { entries: KeyMap::new() };
        assert(store@ =~= Map::<Seq<u8>, EntryView>::empty());
        store
    }

    /// The value readable under `key` at time `now`.
    pub fn read(&self, key: &[u8], now: u64) -> (value: Option<Vec<u8>>)
        ensures
            value is Some <==> store_read(self@, key@, now) is Some,
            value matches Some(v) ==> Some(v@) == store_read(self@, key@, now),
    {
        match self.entries.get(key) {
            Some(entry) => {
                if entry.is_alive(now) {
                    Some(copy_bytes(entry.value.as_slice()))
                } else {
                    None
                }
            },
            None => None,
        }
    }

    /// Writes `value` under `key` at time `now`, to stay readable for
    /// `lifetime` ticks, or until deleted if `None`. Returns the value
    /// that was readable under `key` just before.
    pub fn write(&mut self, key: Vec<u8>, value: Vec<u8>, lifetime: Option<u64>, now: u64) -> (previous:
        Option<Vec<u8>>)
        ensures
            final(self)@ == store_write(old(self)@, key@, value@, lifetime, now),
            previous is Some <==> store_read(old(self)@, key@, now) is Some,
            previous matches Some(p) ==> Some(p@) == store_read(old(self)@, key@, now),
    {
        let entry = Entry { value, written_at: now, lifetime };
        let replaced = self.entries.insert(key, entry);
        assert(self@ =~= store_write(old(self)@, key@, value@, lifetime, now));
        match replaced {
            Some(old_entry) => {
                if old_entry.is_alive(now) {
                    Some(old_entry.value)
                } else {
                    None
                }
            },
            None => None,
        }
    }

    /// Deletes `key`.
    pub fn delete(&mut self, key: &[u8])
        ensures
            final(self)@ == store_delete(old(self)@, key@),
    {
        self.entries.remove(key);
        assert(self@ =~= store_delete(old(self)@, key@));
    }
}

} // verus!
