//! A small map from byte strings to values, kept in insertion order.
//!
//! The map is the directory type used throughout the crate: identities,
//! vault paths, store keys and peers are all byte strings.

use vstd::prelude::*;
use crate::bytes::bytes_eq;

verus! {

/// A finite map keyed by byte strings.
///
/// Its view is the mathematical map from keys to values; [`KeyMap::keys`]
/// additionally exposes the order in which the present keys were inserted.
pub struct KeyMap<V> {
    keys: Vec<Vec<u8>>,
    vals: Vec<V>,
}

/// No two slots hold the same key.
spec fn distinct_keys(keys: Seq<Vec<u8>>) -> bool {
    forall|i: int, j: int|
        0 <= i < keys.len() && 0 <= j < keys.len() && i != j ==> (#[trigger] keys[i])@ != (
        #[trigger] keys[j])@
}

/// Some slot holds `key`.
spec fn has_key(keys: Seq<Vec<u8>>, key: Seq<u8>) -> bool {
    exists|i: int| 0 <= i < keys.len() && (#[trigger] keys[i])@ == key
}

/// A slot that holds `key`, if there is one.
spec fn slot_of(keys: Seq<Vec<u8>>, key: Seq<u8>) -> int {
    choose|i: int| 0 <= i < keys.len() && (#[trigger] keys[i])@ == key
}

/// The map that a list of keys and a list of values stand for.
spec fn map_of<V>(keys: Seq<Vec<u8>>, vals: Seq<V>) -> Map<Seq<u8>, V> {
    Map::new(|k: Seq<u8>| has_key(keys, k), |k: Seq<u8>| vals[slot_of(keys, k)])
}

/// With distinct keys, the slot of a key is the one that holds it.
proof fn lemma_slot<V>(keys: Seq<Vec<u8>>, vals: Seq<V>, i: int)
    requires
        distinct_keys(keys),
        0 <= i < keys.len(),
    ensures
        has_key(keys, keys[i]@),
        slot_of(keys, keys[i]@) == i,
        map_of(keys, vals).contains_key(keys[i]@),
        map_of(keys, vals)[keys[i]@] == vals[i],
{
}

/// Replacing the value in a slot is an insertion under the key of the slot.
proof fn lemma_update<V>(keys: Seq<Vec<u8>>, vals: Seq<V>, i: int, v: V)
    requires
        distinct_keys(keys),
        0 <= i < keys.len() == vals.len(),
    ensures
        map_of(keys, vals.update(i, v)) == map_of(keys, vals).insert(keys[i]@, v),
{
    lemma_slot(keys, vals, i);
    assert forall|k: Seq<u8>| has_key(keys, k) implies #[trigger] map_of(keys, vals.update(i, v))[k]
        == map_of(keys, vals).insert(keys[i]@, v)[k] by {
        let j = slot_of(keys, k);
    }
    assert(map_of(keys, vals.update(i, v)) =~= map_of(keys, vals).insert(keys[i]@, v));
}

/// Appending an entry with a new key is an insertion.
proof fn lemma_push<V>(keys: Seq<Vec<u8>>, vals: Seq<V>, key: Vec<u8>, v: V)
    requires
        distinct_keys(keys),
        keys.len() == vals.len(),
        !has_key(keys, key@),
    ensures
        distinct_keys(keys.push(key)),
        map_of(keys.push(key), vals.push(v)) == map_of(keys, vals).insert(key@, v),
{
    let keys2 = keys.push(key);
    let vals2 = vals.push(v);
    assert forall|i: int, j: int| 0 <= i < keys2.len() && 0 <= j < keys2.len() && i != j implies (
    #[trigger] keys2[i])@ != (#[trigger] keys2[j])@ by {
        if i < keys.len() {
            assert(keys[i]@ == keys2[i]@);
        }
        if j < keys.len() {
            assert(keys[j]@ == keys2[j]@);
        }
    }
    assert forall|k: Seq<u8>| has_key(keys2, k) <==> (k == key@ || has_key(keys, k)) by {
        if has_key(keys2, k) {
            let j = slot_of(keys2, k);
            if j < keys.len() {
                assert(keys[j]@ == k);
            }
        }
        if has_key(keys, k) {
            let j = slot_of(keys, k);
            assert(keys2[j]@ == k);
        }
        if k == key@ {
            assert(keys2[keys.len() as int]@ == k);
        }
    }
    assert forall|k: Seq<u8>| has_key(keys2, k) implies #[trigger] map_of(keys2, vals2)[k]
        == map_of(keys, vals).insert(key@, v)[k] by {
        if k == key@ {
            lemma_slot(keys2, vals2, keys.len() as int);
        } else {
            let j = slot_of(keys, k);
            assert(keys2[j]@ == k);
            lemma_slot(keys2, vals2, j);
        }
    }
    assert(map_of(keys2, vals2) =~= map_of(keys, vals).insert(key@, v));
}

/// Taking a slot out removes its key and nothing else.
proof fn lemma_remove<V>(keys: Seq<Vec<u8>>, vals: Seq<V>, i: int)
    requires
        distinct_keys(keys),
        0 <= i < keys.len() == vals.len(),
    ensures
        distinct_keys(keys.remove(i)),
        map_of(keys.remove(i), vals.remove(i)) == map_of(keys, vals).remove(keys[i]@),
{
    let keys2 = keys.remove(i);
    let vals2 = vals.remove(i);
    assert forall|a: int, b: int| 0 <= a < keys2.len() && 0 <= b < keys2.len() && a != b implies (
    #[trigger] keys2[a])@ != (#[trigger] keys2[b])@ by {
        let a0 = if a < i { a } else { a + 1 };
        let b0 = if b < i { b } else { b + 1 };
        assert(keys2[a] == keys[a0] && keys2[b] == keys[b0]);
    }
    assert forall|k: Seq<u8>| has_key(keys2, k) <==> (k != keys[i]@ && has_key(keys, k)) by {
        if has_key(keys2, k) {
            let j = slot_of(keys2, k);
            let j0 = if j < i { j } else { j + 1 };
            assert(keys[j0]@ == k);
        }
        if k != keys[i]@ && has_key(keys, k) {
            let j = slot_of(keys, k);
            let j2 = if j < i { j } else { j - 1 };
            assert(keys2[j2]@ == k);
        }
    }
    assert forall|k: Seq<u8>| has_key(keys2, k) implies #[trigger] map_of(keys2, vals2)[k]
        == map_of(keys, vals).remove(keys[i]@)[k] by {
        let j = slot_of(keys, k);
        let j2 = if j < i { j } else { j - 1 };
        assert(keys2[j2]@ == k);
        lemma_slot(keys2, vals2, j2);
    }
    assert(map_of(keys2, vals2) =~= map_of(keys, vals).remove(keys[i]@));
}

/// The views of distinct keys are distinct, and are the domain of the map.
proof fn lemma_key_views<V>(keys: Seq<Vec<u8>>, vals: Seq<V>)
    requires
        distinct_keys(keys),
    ensures
        keys.map_values(|k: Vec<u8>| k@).no_duplicates(),
        forall|k: Seq<u8>|
            keys.map_values(|k: Vec<u8>| k@).contains(k) <==> #[trigger] map_of(
                keys,
                vals,
            ).contains_key(k),
{
    let ks = keys.map_values(|k: Vec<u8>| k@);
    assert forall|i: int, j: int| 0 <= i < ks.len() && 0 <= j < ks.len() && i != j implies ks[i]
        != ks[j] by {
        assert(keys[i]@ == ks[i] && keys[j]@ == ks[j]);
    }
    assert forall|k: Seq<u8>| ks.contains(k) <==> #[trigger] map_of(keys, vals).contains_key(
        k,
    ) by {
        if ks.contains(k) {
            let i = choose|i: int| 0 <= i < ks.len() && ks[i] == k;
            assert(keys[i]@ == k);
        }
        if map_of(keys, vals).contains_key(k) {
            let i = slot_of(keys, k);
            assert(ks[i] == k);
        }
    }
}

impl<V> KeyMap<V> {
    #[verifier::type_invariant]
    spec fn well_formed(self) -> bool {
        &&& distinct_keys(self.keys@)
        &&& self.keys@.len() == self.vals@.len()
    }

    /// The map from each present key to its value.
    pub closed spec fn view(&self) -> Map<Seq<u8>, V> {
        map_of(self.keys@, self.vals@)
    }

    /// The present keys, oldest insertion first.
    pub closed spec fn keys(&self) -> Seq<Seq<u8>> {
        self.keys@.map_values(|k: Vec<u8>| k@)
    }

    /// An empty map.
    pub fn new() -> (map: Self)
        ensures
            map@ == Map::<Seq<u8>, V>::empty(),
            map.keys() == Seq::<Seq<u8>>::empty(),
    {
        let map = KeyMap { keys: Vec::new(), vals: Vec::new() };
        assert(map@ =~= Map::<Seq<u8>, V>::empty());
        assert(map.keys() =~= Seq::<Seq<u8>>::empty());
        map
    }

    /// The number of entries.
    ///
    /// The keys listed by [`KeyMap::keys`] are exactly the keys of the view,
    /// each listed once.
    pub fn len(&self) -> (n: usize)
        ensures
            n == self.keys().len(),
            self.keys().no_duplicates(),
            forall|k: Seq<u8>| self.keys().contains(k) <==> #[trigger] self@.contains_key(k),
    {
        proof {
            use_type_invariant(self);
            lemma_key_views(self.keys@, self.vals@);
        }
        self.keys.len()
    }

    /// Whether the map has no entries.
    pub fn is_empty(&self) -> (empty: bool)
        ensures
            empty == (self.keys().len() == 0),
            empty == (self@ == Map::<Seq<u8>, V>::empty()),
    {
        proof {
            use_type_invariant(self);
            if self.keys@.len() == 0 {
                assert(self@ =~= Map::<Seq<u8>, V>::empty());
            } else {
                lemma_slot(self.keys@, self.vals@, 0);
            }
        }
        self.keys.len() == 0
    }

    fn position(&self, key: &[u8]) -> (slot: Option<usize>)
        ensures
            match slot {
                Some(i) => i < self.keys@.len() && self.keys@[i as int]@ == key@,
                None => !has_key(self.keys@, key@),
            },
    {
        let mut i: usize = 0;
        while i < self.keys.len()
            invariant
                i <= self.keys@.len(),
                forall|j: int| 0 <= j < i ==> (#[trigger] self.keys@[j])@ != key@,
            decreases self.keys@.len() - i,
        {
            if bytes_eq(self.keys[i].as_slice(), key) {
                return Some(i);
            }
            i += 1;
        }
        None
    }

    /// Whether `key` is present.
    pub fn contains_key(&self, key: &[u8]) -> (present: bool)
        ensures
            present == self@.contains_key(key@),
    {
        self.position(key).is_some()
    }

    /// The value stored under `key`.
    pub fn get(&self, key: &[u8]) -> (value: Option<&V>)
        ensures
            match value {
                Some(v) => self@.contains_key(key@) && *v == self@[key@],
                None => !self@.contains_key(key@),
            },
    {
        proof {
            use_type_invariant(self);
        }
        match self.position(key) {
            Some(i) => {
                proof {
                    lemma_slot(self.keys@, self.vals@, i as int);
                }
                Some(&self.vals[i])
            },
            None => None,
        }
    }

    /// Mutable access to the value stored under `key`.
    pub fn get_mut(&mut self, key: &[u8]) -> (value: Option<&mut V>)
        ensures
            match value {
                Some(v) => {
                    &&& old(self)@.contains_key(key@)
                    &&& *v == old(self)@[key@]
                    &&& final(self)@ == old(self)@.insert(key@, *final(v))
                    &&& final(self).keys() == old(self).keys()
                },
                None => !old(self)@.contains_key(key@) && *final(self) == *old(self),
            },
    {
        proof {
            use_type_invariant(&*self);
        }
        match self.position(key) {
            Some(i) => {
                proof {
                    lemma_slot(self.keys@, self.vals@, i as int);
                    assert forall|v: V| #[trigger]
                        map_of(self.keys@, self.vals@.update(i as int, v)) == self@.insert(
                            key@,
                            v,
                        ) by {
                        lemma_update(self.keys@, self.vals@, i as int, v);
                    }
                }
                Some(&mut self.vals[i])
            },
            None => None,
        }
    }

    /// Stores `value` under `key` and returns the value it replaces, if any.
    ///
    /// A key that was already present keeps its place in [`KeyMap::keys`]; a
    /// new key goes to the end.
    pub fn insert(&mut self, key: Vec<u8>, value: V) -> (previous: Option<V>)
        ensures
            final(self)@ == old(self)@.insert(key@, value),
            previous == (if old(self)@.contains_key(key@) {
                Some(old(self)@[key@])
            } else {
                None
            }),
            final(self).keys() == (if old(self)@.contains_key(key@) {
                old(self).keys()
            } else {
                old(self).keys().push(key@)
            }),
    {
        proof {
            use_type_invariant(&*self);
        }
        match self.position(key.as_slice()) {
            Some(i) => {
                proof {
                    lemma_slot(self.keys@, self.vals@, i as int);
                    lemma_update(self.keys@, self.vals@, i as int, value);
                }
                let mut value = value;
                std::mem::swap(&mut self.vals[i], &mut value);
                Some(value)
            },
            None => {
                let mut taken = KeyMap { keys: Vec::new(), vals: Vec::new() };
                std::mem::swap(self, &mut taken);
                let KeyMap { mut keys, mut vals } = taken;
                proof {
                    lemma_push(keys@, vals@, key, value);
                    assert(keys@.push(key).map_values(|k: Vec<u8>| k@) =~= keys@.map_values(
                        |k: Vec<u8>| k@,
                    ).push(key@));
                }
                keys.push(key);
                vals.push(value);
                *self = KeyMap { keys, vals };
                None
            },
        }
    }

    /// Removes `key` and returns its value, if it was present.
    pub fn remove(&mut self, key: &[u8]) -> (removed: Option<V>)
        ensures
            final(self)@ == old(self)@.remove(key@),
            removed == (if old(self)@.contains_key(key@) {
                Some(old(self)@[key@])
            } else {
                None
            }),
            final(self).keys() == old(self).keys().remove_value(key@),
    {
        proof {
            use_type_invariant(&*self);
            lemma_key_views(self.keys@, self.vals@);
        }
        match self.position(key) {
            Some(i) => {
                let mut taken = KeyMap { keys: Vec::new(), vals: Vec::new() };
                std::mem::swap(self, &mut taken);
                let KeyMap { mut keys, mut vals } = taken;
                proof {
                    lemma_slot(keys@, vals@, i as int);
                    lemma_remove(keys@, vals@, i as int);
                    let ks = keys@.map_values(|k: Vec<u8>| k@);
                    assert(ks[i as int] == key@);
                    assert(ks.index_of_first(key@) == Some(i as int)) by {
                        ks.index_of_first_ensures(key@);
                    }
                    assert(keys@.remove(i as int).map_values(|k: Vec<u8>| k@) =~= ks.remove(
                        i as int,
                    ));
                }
                keys.remove(i);
                let value = vals.remove(i);
                *self = KeyMap { keys, vals };
                Some(value)
            },
            None => {
                proof {
                    assert(self@ =~= self@.remove(key@));
                    let ks = self.keys();
                    assert(!ks.contains(key@));
                    ks.index_of_first_ensures(key@);
                }
                None
            },
        }
    }

    /// Removes the entry in slot `i` of [`KeyMap::keys`] and returns it.
    pub fn remove_at(&mut self, i: usize) -> (removed: (Vec<u8>, V))
        requires
            i < old(self).keys().len(),
        ensures
            removed.0@ == old(self).keys()[i as int],
            old(self)@.contains_key(removed.0@),
            removed.1 == old(self)@[removed.0@],
            final(self)@ == old(self)@.remove(removed.0@),
            final(self).keys() == old(self).keys().remove(i as int),
            forall|k: Seq<u8>| final(self).keys().contains(k) <==> #[trigger] final(self)@.contains_key(k),
    {
        proof {
            use_type_invariant(&*self);
        }
        let mut taken = KeyMap { keys: Vec::new(), vals: Vec::new() };
        std::mem::swap(self, &mut taken);
        let KeyMap { mut keys, mut vals } = taken;
        proof {
            lemma_slot(keys@, vals@, i as int);
            lemma_remove(keys@, vals@, i as int);
            lemma_key_views(keys@.remove(i as int), vals@.remove(i as int));
            assert(keys@.remove(i as int).map_values(|k: Vec<u8>| k@) =~= keys@.map_values(
                |k: Vec<u8>| k@,
            ).remove(i as int));
        }
        let key = keys.remove(i);
        let value = vals.remove(i);
        *self = KeyMap { keys, vals };
        (key, value)
    }

    /// The key in slot `i` of [`KeyMap::keys`].
    pub fn key_at(&self, i: usize) -> (key: &Vec<u8>)
        requires
            i < self.keys().len(),
        ensures
            key@ == self.keys()[i as int],
            self@.contains_key(key@),
    {
        proof {
            use_type_invariant(self);
            lemma_slot(self.keys@, self.vals@, i as int);
        }
        &self.keys[i]
    }

    /// The value whose key is in slot `i` of [`KeyMap::keys`].
    pub fn value_at(&self, i: usize) -> (value: &V)
        requires
            i < self.keys().len(),
        ensures
            self@.contains_key(self.keys()[i as int]),
            *value == self@[self.keys()[i as int]],
    {
        proof {
            use_type_invariant(self);
            lemma_slot(self.keys@, self.vals@, i as int);
        }
        &self.vals[i]
    }
}

} // verus!
