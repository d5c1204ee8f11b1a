//! Vaults: named record logs with two-phase deletion.
//!
//! A record is written under a path, can be revoked (after which it can no
//! longer be read, listed or overwritten) and is physically dropped only
//! when the vault is garbage collected.

use vstd::prelude::*;
use vstd::slice::slice_subrange;
use crate::bytes::{append_bytes, copy_bytes};
use crate::codec::{decode_entries, decoded_entries, encode_entries, Encodable};
use crate::identity::{id_array, RecordHint, RecordId, ID_SIZE};
use crate::keymap::KeyMap;

verus! {

/// What a vault holds of one record.
pub struct RecordView {
    /// The identifier that listings show for the record.
    pub id: Seq<u8>,
    /// The public hint given when the record was last written.
    pub hint: Seq<u8>,
    /// The secret payload.
    pub payload: Seq<u8>,
    /// Whether the record has been revoked and awaits collection.
    pub revoked: bool,
}

/// One stored record.
pub struct Record {
    id: RecordId,
    hint: RecordHint,
    payload: Vec<u8>,
    revoked: bool,
}

impl View for Record {
    type V = RecordView;

    closed spec fn view(&self) -> RecordView {
        RecordView {
            id: self.id@,
            hint: self.hint@,
            payload: self.payload@,
            revoked: self.revoked,
        }
    }
}

/// Number of bytes before the payload in an encoded record.
pub const RECORD_HEADER_SIZE: usize = 49;

/// An encoded record is its identifier, its hint, one byte that is 1 for
/// a revoked record and 0 otherwise, and its payload.
impl Encodable for Record {
    open spec fn decoded(bytes: Seq<u8>) -> Option<RecordView> {
        if bytes.len() < RECORD_HEADER_SIZE || bytes[2 * ID_SIZE as int] > 1 {
            None
        } else {
            Some(
                RecordView {
                    id: bytes.subrange(0, ID_SIZE as int),
                    hint: bytes.subrange(ID_SIZE as int, 2 * ID_SIZE as int),
                    payload: bytes.skip(RECORD_HEADER_SIZE as int),
                    revoked: bytes[2 * ID_SIZE as int] == 1,
                },
            )
        }
    }

    fn encode(&self) -> (bytes: Vec<u8>) {
        let mut bytes: Vec<u8> = Vec::new();
        append_bytes(&mut bytes, self.id.as_bytes());
        append_bytes(&mut bytes, self.hint.as_bytes());
        bytes.push(if self.revoked { 1u8 } else { 0u8 });
        append_bytes(&mut bytes, self.payload.as_slice());
        proof {
            let flag = if self.revoked { 1u8 } else { 0u8 };
            assert(bytes@ =~= self.id@ + self.hint@ + seq![flag] + self.payload@);
            assert(bytes@.subrange(0, ID_SIZE as int) =~= self.id@);
            assert(bytes@.subrange(ID_SIZE as int, 2 * ID_SIZE as int) =~= self.hint@);
            assert(bytes@.skip(RECORD_HEADER_SIZE as int) =~= self.payload@);
        }
        bytes
    }

    fn decode(bytes: &[u8]) -> (value: Option<Self>) {
        if bytes.len() < RECORD_HEADER_SIZE {
            return None;
        }
        let flag = bytes[2 * ID_SIZE];
        if flag > 1 {
            return None;
        }
        let id = RecordId::from_bytes(id_array(slice_subrange(bytes, 0, ID_SIZE)));
        let hint = RecordHint::from_bytes(id_array(slice_subrange(bytes, ID_SIZE, 2 * ID_SIZE)));
        let payload = copy_bytes(slice_subrange(bytes, RECORD_HEADER_SIZE, bytes.len()));
        assert(payload@ =~= bytes@.skip(RECORD_HEADER_SIZE as int));
        Some(Record { id, hint, payload, revoked: flag == 1 })
    }
}

/// The content of a vault: its records by path, and the order in which
/// the paths were first written.
#[verifier::ext_equal]
pub struct VaultView {
    pub records: Map<Seq<u8>, RecordView>,
    pub order: Seq<Seq<u8>>,
}

impl VaultView {
    /// The vault without records.
    pub open spec fn empty() -> Self {
        VaultView { records: Map::empty(), order: Seq::empty() }
    }

    /// Whether a record is stored under `path`, revoked or not.
    pub open spec fn is_stored(self, path: Seq<u8>) -> bool {
        self.records.contains_key(path)
    }

    /// Whether a readable record is stored under `path`.
    pub open spec fn is_live(self, path: Seq<u8>) -> bool {
        self.records.contains_key(path) && !self.records[path].revoked
    }

    /// Whether the record under `path` is revoked and not yet collected.
    pub open spec fn is_revoked(self, path: Seq<u8>) -> bool {
        self.records.contains_key(path) && self.records[path].revoked
    }

    /// The payload readable under `path`.
    pub open spec fn read(self, path: Seq<u8>) -> Option<Seq<u8>> {
        if self.is_live(path) {
            Some(self.records[path].payload)
        } else {
            None
        }
    }

    /// The vault after a write of `payload` and `hint` under `path`, which
    /// must not be revoked. A new record gets the identifier `id` and goes
    /// to the end of the order; an existing one keeps its identifier and
    /// its place.
    pub open spec fn write(self, path: Seq<u8>, id: Seq<u8>, payload: Seq<u8>, hint: Seq<u8>) -> Self {
        if self.is_stored(path) {
            VaultView {
                records: self.records.insert(
                    path,
                    RecordView { id: self.records[path].id, hint, payload, revoked: false },
                ),
                order: self.order,
            }
        } else {
            VaultView {
                records: self.records.insert(path, RecordView { id, hint, payload, revoked: false }),
                order: self.order.push(path),
            }
        }
    }

    /// The vault after the record under `path`, if any, is revoked.
    pub open spec fn revoke(self, path: Seq<u8>) -> Self {
        if self.is_stored(path) {
            VaultView {
                records: self.records.insert(
                    path,
                    RecordView { revoked: true, ..self.records[path] },
                ),
                order: self.order,
            }
        } else {
            self
        }
    }

    /// The vault after garbage collection: exactly the live records, in
    /// their old order.
    pub open spec fn collect(self) -> Self {
        VaultView {
            records: self.records.restrict(Set::new(|path: Seq<u8>| self.is_live(path))),
            order: self.order.filter(|path: Seq<u8>| self.is_live(path)),
        }
    }

    /// Whether the order lists exactly the paths of the stored records,
    /// each once. Every vault that the library builds is valid.
    pub open spec fn valid(self) -> bool {
        &&& self.order.no_duplicates()
        &&& forall|path: Seq<u8>| self.order.contains(path) <==> #[trigger] self.records.contains_key(path)
    }

    /// The paths of the live records, oldest first.
    pub open spec fn live_paths(self) -> Seq<Seq<u8>> {
        self.order.filter(|path: Seq<u8>| self.is_live(path))
    }

    /// The identifier and hint of each live record, oldest first.
    pub open spec fn listing(self) -> Seq<(Seq<u8>, Seq<u8>)> {
        self.live_paths().map_values(
            |path: Seq<u8>| (self.records[path].id, self.records[path].hint),
        )
    }
}

/// The view of a listing as it is returned.
pub open spec fn listing_view(list: Seq<(RecordId, RecordHint)>) -> Seq<(Seq<u8>, Seq<u8>)> {
    list.map_values(|entry: (RecordId, RecordHint)| (entry.0@, entry.1@))
}

/// Why a record could not be written.
#[derive(Clone, Copy, Debug, PartialEq, Eq, Structural)]
pub enum RecordError {
    /// The record at the location is revoked and not yet collected.
    Revoked,
}

/// A named collection of records.
pub struct Vault {
    records: KeyMap<Record>,
}

impl View for Vault {
    type V = VaultView;

    closed spec fn view(&self) -> VaultView {
        VaultView {
            records: self.records@.map_values(|r: Record| r@),
            order: self.records.keys(),
        }
    }
}

/// An encoded vault lists its records by path, oldest first.
impl Encodable for Vault {
    open spec fn decoded(bytes: Seq<u8>) -> Option<VaultView> {
        match decoded_entries::<Record>(bytes) {
            None => None,
            Some((records, order)) => Some(VaultView { records, order }),
        }
    }

    fn encode(&self) -> (bytes: Vec<u8>) {
        encode_entries(&self.records)
    }

    fn decode(bytes: &[u8]) -> (value: Option<Self>) {
        match decode_entries::<Record>(bytes) {
            Some(records) => Some(Vault { records }),
            None => None,
        }
    }
}

impl Vault {
    /// A vault without records.
    pub fn new() -> (vault: Self)
        ensures
            vault@ == VaultView::empty(),
    {
        let vault = Vault { records: KeyMap::new() };
        assert(vault@.records =~= Map::<Seq<u8>, RecordView>::empty());
        vault
    }

    /// The number of stored records, revoked ones included.
    pub fn record_count(&self) -> (count: usize)
        ensures
            count == self@.order.len(),
            self@.valid(),
    {
        self.records.len()
    }

    /// Whether a readable record is stored under `path`.
    pub fn contains_record(&self, path: &[u8]) -> (live: bool)
        ensures
            live == self@.is_live(path@),
    {
        match self.records.get(path) {
            Some(record) => !record.revoked,
            None => false,
        }
    }

    /// The payload readable under `path`.
    pub fn read(&self, path: &[u8]) -> (payload: Option<Vec<u8>>)
        ensures
            payload is Some <==> self@.is_live(path@),
            payload matches Some(p) ==> Some(p@) == self@.read(path@),
    {
        match self.records.get(path) {
            Some(record) => {
                if record.revoked {
                    None
                } else {
                    Some(copy_bytes(record.payload.as_slice()))
                }
            },
            None => None,
        }
    }

    /// Writes `payload` and `hint` under `path`.
    ///
    /// Fails, and changes nothing, exactly where the record under `path`
    /// is revoked and not yet collected.
    pub fn write(&mut self, path: &[u8], id: RecordId, payload: Vec<u8>, hint: RecordHint) -> (done:
        Result<(), RecordError>)
        ensures
            old(self)@.is_revoked(path@) ==> done == Err::<(), RecordError>(RecordError::Revoked)
                && final(self)@ == old(self)@,
            !old(self)@.is_revoked(path@) ==> done is Ok && final(self)@ == old(self)@.write(
                path@,
                id@,
                payload@,
                hint@,
            ),
    {
        match self.records.get_mut(path) {
            Some(record) => {
                if record.revoked {
                    assert(self@.records =~= old(self)@.records);
                    Err(RecordError::Revoked)
                } else {
                    record.payload = payload;
                    record.hint = hint;
                    assert(self@.records =~= old(self)@.write(
                        path@,
                        id@,
                        payload@,
                        hint@,
                    ).records);
                    Ok(())
                }
            },
            None => {
                let record = Record { id, hint, payload, revoked: false };
                self.records.insert(copy_bytes(path), record);
                assert(self@.records =~= old(self)@.write(path@, id@, payload@, hint@).records);
                Ok(())
            },
        }
    }

    /// Revokes the record under `path`, if there is one.
    pub fn revoke(&mut self, path: &[u8])
        ensures
            final(self)@ == old(self)@.revoke(path@),
    {
        match self.records.get_mut(path) {
            Some(record) => {
                record.revoked = true;
                assert(self@.records =~= old(self)@.revoke(path@).records);
            },
            None => {},
        }
    }

    /// Drops every revoked record.
    pub fn garbage_collect(&mut self)
        ensures
            final(self)@ == old(self)@.collect(),
    {
        let ghost before = self@;
        let ghost live = |path: Seq<u8>| before.is_live(path);
        let total = self.records.len();
        let mut seen: usize = 0;
        let mut i: usize = 0;
        proof {
            assert(before.order.take(0).filter(live) =~= Seq::<Seq<u8>>::empty());
            assert(before.order.skip(0) =~= before.order);
        }
        while seen < total
            invariant
                before == old(self)@,
                live == (|path: Seq<u8>| before.is_live(path)),
                total == before.order.len(),
                seen <= total,
                i == before.order.take(seen as int).filter(live).len(),
                self@.order == before.order.take(seen as int).filter(live) + before.order.skip(
                    seen as int,
                ),
                forall|k: Seq<u8>| #[trigger]
                    self@.records.contains_key(k) ==> before.records.contains_key(k)
                        && self@.records[k] == before.records[k],
                forall|k: Seq<u8>| before.order.contains(k) <==> #[trigger] before.records.contains_key(k),
                forall|k: Seq<u8>| self@.order.contains(k) <==> #[trigger] self@.records.contains_key(k),
            decreases total - seen,
        {
            let ghost kept = before.order.take(seen as int).filter(live);
            let ghost path = before.order[seen as int];
            proof {
                assert(self@.order[i as int] == path);
                assert(before.order.take(seen + 1) =~= before.order.take(seen as int).push(path));
                before.order.take(seen as int).lemma_filter_push(path, live);
                assert(before.order.contains(path));
            }
            let revoked = self.records.value_at(i).revoked;
            proof {
                assert(self.records@.contains_key(path));
                assert(self@.records.contains_key(path));
                assert(self@.records[path] == self.records@[path]@);
                assert(revoked == before.records[path].revoked);
            }
            if revoked {
                let ghost prev = self@;
                self.records.remove_at(i);
                proof {
                    assert(self@.records =~= prev.records.remove(path));
                    assert(!live(path));
                    assert(self@.order =~= kept + before.order.skip(seen + 1));
                }
            } else {
                proof {
                    assert(live(path));
                    assert(self@.order =~= kept.push(path) + before.order.skip(seen + 1));
                }
                i += 1;
            }
            seen += 1;
        }
        proof {
            assert(before.order.take(total as int) =~= before.order);
            assert(self@.order =~= before.order.filter(live));
            let target = before.collect();
            assert forall|k: Seq<u8>| self@.records.contains_key(k) <==> target.records.contains_key(
                k,
            ) by {
                broadcast use vstd::seq_lib::group_filter_ensures;

                if self@.records.contains_key(k) {
                    assert(self@.order.contains(k));
                }
                if target.records.contains_key(k) {
                    assert(before.order.contains(k));
                    assert(before.order.filter(live).contains(k));
                }
            }
            assert(self@.records =~= target.records);
        }
    }

    /// The identifier and hint of each live record, oldest first.
    pub fn list_hints_and_ids(&self) -> (list: Vec<(RecordId, RecordHint)>)
        ensures
            listing_view(list@) == self@.listing(),
    {
        let ghost live = |path: Seq<u8>| self@.is_live(path);
        let ghost entry = |path: Seq<u8>| (self@.records[path].id, self@.records[path].hint);
        let mut list: Vec<(RecordId, RecordHint)> = Vec::new();
        let total = self.records.len();
        let mut i: usize = 0;
        proof {
            assert(self@.order.take(0).filter(live) =~= Seq::<Seq<u8>>::empty());
            assert(listing_view(list@) =~= self@.order.take(0).filter(live).map_values(entry));
        }
        while i < total
            invariant
                total == self@.order.len(),
                i <= total,
                live == (|path: Seq<u8>| self@.is_live(path)),
                entry == (|path: Seq<u8>| (self@.records[path].id, self@.records[path].hint)),
                listing_view(list@) == self@.order.take(i as int).filter(live).map_values(entry),
            decreases total - i,
        {
            let ghost path = self@.order[i as int];
            let ghost kept = self@.order.take(i as int).filter(live);
            proof {
                assert(self@.order.take(i + 1) =~= self@.order.take(i as int).push(path));
                self@.order.take(i as int).lemma_filter_push(path, live);
            }
            let record = self.records.value_at(i);
            proof {
                assert(self.records@.contains_key(path));
                assert(self@.records[path] == record@);
            }
            if !record.revoked {
                let ghost listed = list@;
                list.push((record.id, record.hint));
                proof {
                    assert(live(path));
                    assert(self@.order.take(i + 1).filter(live) == kept.push(path));
                    assert(entry(path) == (record.id@, record.hint@));
                    assert(listing_view(list@) =~= listing_view(listed).push(
                        (record.id@, record.hint@),
                    ));
                    assert(kept.push(path).map_values(entry) =~= kept.map_values(entry).push(
                        entry(path),
                    ));
                }
            } else {
                proof {
                    assert(!live(path));
                    assert(self@.order.take(i + 1).filter(live) == kept);
                }
            }
            i += 1;
        }
        proof {
            assert(self@.order.take(total as int) =~= self@.order);
        }
        list
    }
}

} // verus!
