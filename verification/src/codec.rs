//! The byte format of persisted state.
//!
//! A byte string is cut into frames, each a length followed by that many
//! bytes; a map is a list of frames that alternates keys and encoded
//! values. What is written is specified by what reading it gives back:
//! every encoder promises that its output decodes to the value it was
//! given.

use vstd::prelude::*;
use vstd::bytes::{
    lemma_auto_spec_u64_to_from_le_bytes,
    spec_u64_from_le_bytes,
    spec_u64_to_le_bytes,
    u64_from_le_bytes,
    u64_to_le_bytes,
};
use vstd::slice::slice_subrange;
use crate::bytes::{append_bytes, copy_bytes};
use crate::keymap::KeyMap;

verus! {

/// Number of bytes in the length that starts a frame.
pub const LENGTH_SIZE: usize = 8;

/// The frames that `bytes` are cut into, or `None` where the bytes end
/// inside a frame.
pub open spec fn parse_frames(bytes: Seq<u8>) -> Option<Seq<Seq<u8>>>
    decreases bytes.len(),
{
    if bytes.len() == 0 {
        Some(Seq::empty())
    } else if bytes.len() < LENGTH_SIZE {
        None
    } else {
        let length = spec_u64_from_le_bytes(bytes.subrange(0, LENGTH_SIZE as int)) as int;
        if LENGTH_SIZE + length > bytes.len() {
            None
        } else {
            match parse_frames(bytes.skip(LENGTH_SIZE + length)) {
                None => None,
                Some(rest) => Some(
                    seq![bytes.subrange(LENGTH_SIZE as int, LENGTH_SIZE + length)] + rest,
                ),
            }
        }
    }
}

/// One frame: the length of `content`, then `content`.
pub open spec fn frame(content: Seq<u8>) -> Seq<u8> {
    spec_u64_to_le_bytes(content.len() as u64) + content
}

/// The byte strings that a list of buffers holds.
pub open spec fn contents(buffers: Seq<Vec<u8>>) -> Seq<Seq<u8>> {
    buffers.map_values(|b: Vec<u8>| b@)
}

/// A frame appended to bytes that parse is parsed as one more frame.
pub proof fn lemma_parse_append(bytes: Seq<u8>, content: Seq<u8>)
    requires
        parse_frames(bytes) is Some,
        content.len() <= u64::MAX,
    ensures
        parse_frames(bytes + frame(content)) == Some(parse_frames(bytes)->0.push(content)),
    decreases bytes.len(),
{
    lemma_auto_spec_u64_to_from_le_bytes();
    let whole = bytes + frame(content);
    let header = spec_u64_to_le_bytes(content.len() as u64);
    if bytes.len() == 0 {
        assert(whole =~= frame(content));
        assert(whole.subrange(0, LENGTH_SIZE as int) =~= header);
        assert(whole.subrange(LENGTH_SIZE as int, LENGTH_SIZE + content.len()) =~= content);
        assert(whole.skip(LENGTH_SIZE + content.len()) =~= Seq::<u8>::empty());
        assert(seq![content] + Seq::<Seq<u8>>::empty() =~= Seq::<Seq<u8>>::empty().push(content));
        assert(spec_u64_from_le_bytes(header) == content.len());
        assert(parse_frames(whole.skip(LENGTH_SIZE + content.len())) == Some(Seq::<Seq<u8>>::empty()));
        assert(parse_frames(whole) == Some(seq![content] + Seq::<Seq<u8>>::empty()));
        assert(parse_frames(bytes) == Some(Seq::<Seq<u8>>::empty()));
    } else {
        let length = spec_u64_from_le_bytes(bytes.subrange(0, LENGTH_SIZE as int)) as int;
        assert(bytes.len() >= LENGTH_SIZE);
        assert(LENGTH_SIZE + length <= bytes.len());
        assert(parse_frames(bytes.skip(LENGTH_SIZE + length)) is Some);
        assert(whole.subrange(0, LENGTH_SIZE as int) =~= bytes.subrange(0, LENGTH_SIZE as int));
        assert(whole.subrange(LENGTH_SIZE as int, LENGTH_SIZE + length) =~= bytes.subrange(
            LENGTH_SIZE as int,
            LENGTH_SIZE + length,
        ));
        assert(whole.skip(LENGTH_SIZE + length) =~= bytes.skip(LENGTH_SIZE + length) + frame(
            content,
        ));
        lemma_parse_append(bytes.skip(LENGTH_SIZE + length), content);
        let first = bytes.subrange(LENGTH_SIZE as int, LENGTH_SIZE + length);
        let rest = parse_frames(bytes.skip(LENGTH_SIZE + length))->0;
        assert(seq![first] + rest.push(content) =~= (seq![first] + rest).push(content));
        assert(parse_frames(bytes) == Some(seq![first] + rest));
        assert(parse_frames(whole.skip(LENGTH_SIZE + length)) == Some(rest.push(content)));
        assert(parse_frames(whole) == Some(seq![first] + rest.push(content)));
    }
}

/// Writes `frames` one after another.
pub fn encode_frames(frames: &Vec<Vec<u8>>) -> (bytes: Vec<u8>)
    ensures
        parse_frames(bytes@) == Some(contents(frames@)),
{
    let mut bytes: Vec<u8> = Vec::new();
    let mut i: usize = 0;
    proof {
        assert(contents(frames@).take(0) =~= Seq::<Seq<u8>>::empty());
    }
    while i < frames.len()
        invariant
            i <= frames@.len(),
            parse_frames(bytes@) == Some(contents(frames@).take(i as int)),
        decreases frames@.len() - i,
    {
        let content = &frames[i];
        let ghost before = bytes@;
        let header = u64_to_le_bytes(content.len() as u64);
        append_bytes(&mut bytes, header.as_slice());
        append_bytes(&mut bytes, content.as_slice());
        proof {
            assert(bytes@ =~= before + frame(content@));
            lemma_parse_append(before, content@);
            assert(contents(frames@).take(i + 1) =~= contents(frames@).take(i as int).push(
                content@,
            ));
        }
        i += 1;
    }
    proof {
        assert(contents(frames@).take(frames@.len() as int) =~= contents(frames@));
    }
    bytes
}

/// Cuts `bytes` into frames.
pub fn decode_frames(bytes: &[u8]) -> (frames: Option<Vec<Vec<u8>>>)
    ensures
        match frames {
            Some(f) => parse_frames(bytes@) == Some(contents(f@)),
            None => parse_frames(bytes@) is None,
        },
{
    let mut frames: Vec<Vec<u8>> = Vec::new();
    let mut position: usize = 0;
    proof {
        assert(bytes@.skip(0) =~= bytes@);
        assert(contents(frames@) =~= Seq::<Seq<u8>>::empty());
        if parse_frames(bytes@) is Some {
            assert(contents(frames@) + parse_frames(bytes@)->0 =~= parse_frames(bytes@)->0);
        }
    }
    while position < bytes.len()
        invariant
            position <= bytes@.len(),
            parse_frames(bytes@) == match parse_frames(bytes@.skip(position as int)) {
                Some(rest) => Some(contents(frames@) + rest),
                None => None,
            },
        decreases bytes@.len() - position,
    {
        let ghost tail = bytes@.skip(position as int);
        let remaining = bytes.len() - position;
        if remaining < LENGTH_SIZE {
            return None;
        }
        let length = u64_from_le_bytes(slice_subrange(bytes, position, position + LENGTH_SIZE));
        proof {
            assert(bytes@.subrange(position as int, position + LENGTH_SIZE) =~= tail.subrange(
                0,
                LENGTH_SIZE as int,
            ));
        }
        if length > (remaining - LENGTH_SIZE) as u64 {
            return None;
        }
        let start = position + LENGTH_SIZE;
        let end = start + length as usize;
        let content = copy_bytes(slice_subrange(bytes, start, end));
        proof {
            assert(content@ =~= tail.subrange(LENGTH_SIZE as int, LENGTH_SIZE + length));
            assert(tail.skip(LENGTH_SIZE + length) =~= bytes@.skip(end as int));
            let listed = contents(frames@);
            assert(contents(frames@.push(content)) =~= listed.push(content@));
            if parse_frames(bytes@.skip(end as int)) is Some {
                let rest = parse_frames(bytes@.skip(end as int))->0;
                assert(listed + (seq![content@] + rest) =~= listed.push(content@) + rest);
            }
        }
        frames.push(content);
        position = end;
    }
    proof {
        assert(bytes@.skip(position as int) =~= Seq::<u8>::empty());
        assert(contents(frames@) + Seq::<Seq<u8>>::empty() =~= contents(frames@));
    }
    Some(frames)
}

/// A value with a byte format.
///
/// The format of a type is given by [`Encodable::decoded`], which says
/// what value a byte string stands for. Encoding promises only, and
/// exactly, that its output stands for the value that was encoded.
pub trait Encodable: View + Sized {
    /// The value that `bytes` stand for, or `None` where they stand for none.
    spec fn decoded(bytes: Seq<u8>) -> Option<Self::V>;

    /// Writes the value.
    fn encode(&self) -> (bytes: Vec<u8>)
        ensures
            Self::decoded(bytes@) == Some(self@),
    ;

    /// Reads a value.
    fn decode(bytes: &[u8]) -> (value: Option<Self>)
        ensures
            match value {
                Some(v) => Self::decoded(bytes@) == Some(v@),
                None => Self::decoded(bytes@) is None,
            },
    ;
}

/// The entries listed by frames that alternate keys and encoded values:
/// the map they make and the order of the keys. `None` where a frame is
/// left over, a value does not decode, or a key comes twice.
pub open spec fn entries_of_frames<V: Encodable>(frames: Seq<Seq<u8>>) -> Option<
    (Map<Seq<u8>, V::V>, Seq<Seq<u8>>),
>
    decreases frames.len(),
{
    if frames.len() == 0 {
        Some((Map::empty(), Seq::empty()))
    } else if frames.len() < 2 {
        None
    } else {
        match entries_of_frames::<V>(frames.take(frames.len() - 2)) {
            None => None,
            Some((map, order)) => {
                let key = frames[frames.len() - 2];
                match V::decoded(frames[frames.len() - 1]) {
                    None => None,
                    Some(value) => if map.contains_key(key) {
                        None
                    } else {
                        Some((map.insert(key, value), order.push(key)))
                    },
                }
            },
        }
    }
}

/// The entries that `bytes` stand for.
pub open spec fn decoded_entries<V: Encodable>(bytes: Seq<u8>) -> Option<
    (Map<Seq<u8>, V::V>, Seq<Seq<u8>>),
> {
    match parse_frames(bytes) {
        None => None,
        Some(frames) => entries_of_frames::<V>(frames),
    }
}

/// The views of the values of a map.
pub open spec fn value_views<V: View>(map: Map<Seq<u8>, V>) -> Map<Seq<u8>, V::V> {
    map.map_values(|v: V| v@)
}

/// Frames whose number is odd list no entries.
proof fn lemma_odd_frames<V: Encodable>(frames: Seq<Seq<u8>>)
    requires
        frames.len() % 2 == 1,
    ensures
        entries_of_frames::<V>(frames) is None,
    decreases frames.len(),
{
    if frames.len() >= 2 {
        lemma_odd_frames::<V>(frames.take(frames.len() - 2));
    }
}

/// Where a prefix of whole entries lists none, neither do all the frames.
proof fn lemma_bad_prefix<V: Encodable>(frames: Seq<Seq<u8>>, prefix: int)
    requires
        0 <= prefix <= frames.len(),
        (frames.len() - prefix) % 2 == 0,
        entries_of_frames::<V>(frames.take(prefix)) is None,
    ensures
        entries_of_frames::<V>(frames) is None,
    decreases frames.len() - prefix,
{
    if prefix == frames.len() {
        assert(frames.take(prefix) =~= frames);
    } else {
        let shorter = frames.take(frames.len() - 2);
        assert(shorter.take(prefix) =~= frames.take(prefix));
        lemma_bad_prefix::<V>(shorter, prefix);
    }
}

/// Writes the entries of `map`, in the order of its keys.
pub fn encode_entries<V: Encodable>(map: &KeyMap<V>) -> (bytes: Vec<u8>)
    ensures
        decoded_entries::<V>(bytes@) == Some((value_views(map@), map.keys())),
{
    let mut frames: Vec<Vec<u8>> = Vec::new();
    let total = map.len();
    let mut i: usize = 0;
    proof {
        assert(contents(frames@) =~= Seq::<Seq<u8>>::empty());
        assert(map.keys().take(0) =~= Seq::<Seq<u8>>::empty());
        assert(value_views(map@).restrict(map.keys().take(0).to_set()) =~= Map::<
            Seq<u8>,
            V::V,
        >::empty());
    }
    while i < total
        invariant
            total == map.keys().len(),
            i <= total,
            map.keys().no_duplicates(),
            forall|k: Seq<u8>| map.keys().contains(k) <==> #[trigger] map@.contains_key(k),
            entries_of_frames::<V>(contents(frames@)) == Some(
                (
                    value_views(map@).restrict(map.keys().take(i as int).to_set()),
                    map.keys().take(i as int),
                ),
            ),
        decreases total - i,
    {
        let ghost listed = contents(frames@);
        let ghost done = map.keys().take(i as int);
        let key = copy_bytes(map.key_at(i).as_slice());
        let value = map.value_at(i).encode();
        frames.push(key);
        frames.push(value);
        proof {
            let now = contents(frames@);
            assert(now =~= listed.push(key@).push(value@));
            assert(now.take(now.len() - 2) =~= listed);
            assert(map.keys().take(i + 1) =~= done.push(key@));
            assert(!done.contains(key@)) by {
                if done.contains(key@) {
                    let j = choose|j: int| 0 <= j < done.len() && done[j] == key@;
                    assert(map.keys()[j] == map.keys()[i as int]);
                }
            }
            assert(value_views(map@).restrict(done.push(key@).to_set()) =~= value_views(
                map@,
            ).restrict(done.to_set()).insert(key@, map@[key@]@)) by {
                assert forall|k: Seq<u8>| done.push(key@).contains(k) <==> (k == key@
                    || done.contains(k)) by {
                    if done.contains(k) {
                        let j = choose|j: int| 0 <= j < done.len() && done[j] == k;
                        assert(done.push(key@)[j] == k);
                    }
                    if k == key@ {
                        assert(done.push(key@)[done.len() as int] == k);
                    }
                }
            }
        }
        i += 1;
    }
    proof {
        assert(map.keys().take(total as int) =~= map.keys());
        assert(value_views(map@).restrict(map.keys().to_set()) =~= value_views(map@));
    }
    encode_frames(&frames)
}

/// Reads the entries of a map.
pub fn decode_entries<V: Encodable>(bytes: &[u8]) -> (map: Option<KeyMap<V>>)
    ensures
        match map {
            Some(m) => decoded_entries::<V>(bytes@) == Some((value_views(m@), m.keys())),
            None => decoded_entries::<V>(bytes@) is None,
        },
{
    let frames = match decode_frames(bytes) {
        Some(frames) => frames,
        None => {
            return None;
        },
    };
    let ghost listed = contents(frames@);
    if frames.len() % 2 != 0 {
        proof {
            lemma_odd_frames::<V>(listed);
        }
        return None;
    }
    let mut map: KeyMap<V> = KeyMap::new();
    let mut i: usize = 0;
    proof {
        assert(listed.take(0) =~= Seq::<Seq<u8>>::empty());
        assert(value_views(map@) =~= Map::<Seq<u8>, V::V>::empty());
    }
    while i < frames.len()
        invariant
            listed == contents(frames@),
            parse_frames(bytes@) == Some(listed),
            i <= frames@.len(),
            i % 2 == 0,
            frames@.len() % 2 == 0,
            entries_of_frames::<V>(listed.take(i as int)) == Some((value_views(map@), map.keys())),
        decreases frames@.len() - i,
    {
        let ghost prefix = listed.take(i as int);
        let ghost next = listed.take(i + 2);
        proof {
            assert(next.take(next.len() - 2) =~= prefix);
            assert(next[next.len() - 2] == frames@[i as int]@);
            assert(next[next.len() - 1] == frames@[i + 1]@);
        }
        let key = copy_bytes(frames[i].as_slice());
        let value = match V::decode(frames[i + 1].as_slice()) {
            Some(value) => value,
            None => {
                proof {
                    assert(next.len() >= 2);
                    assert(entries_of_frames::<V>(next.take(next.len() - 2)) is Some);
                    assert(V::decoded(next[next.len() - 1]) is None);
                    assert(entries_of_frames::<V>(next) is None);
                    lemma_bad_prefix::<V>(listed, i + 2);
                }
                return None;
            },
        };
        if map.contains_key(key.as_slice()) {
            proof {
                assert(next.len() >= 2);
                assert(entries_of_frames::<V>(next.take(next.len() - 2)) == Some(
                    (value_views(map@), map.keys()),
                ));
                assert(value_views(map@).contains_key(next[next.len() - 2]));
                assert(entries_of_frames::<V>(next) is None);
                lemma_bad_prefix::<V>(listed, i + 2);
            }
            return None;
        }
        let ghost before = map@;
        map.insert(key, value);
        proof {
            assert(value_views(map@) =~= value_views(before).insert(key@, value@));
        }
        i += 2;
    }
    proof {
        assert(listed.take(frames@.len() as int) =~= listed);
    }
    Some(map)
}

/// A byte string is its own encoding.
impl Encodable for Vec<u8> {
    open spec fn decoded(bytes: Seq<u8>) -> Option<Seq<u8>> {
        Some(bytes)
    }

    fn encode(&self) -> (bytes: Vec<u8>) {
        copy_bytes(self.as_slice())
    }

    fn decode(bytes: &[u8]) -> (value: Option<Self>) {
        Some(copy_bytes(bytes))
    }
}

} // verus!
