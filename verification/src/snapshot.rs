//! Snapshots: the sealed form of the state of all clients.
//!
//! A snapshot file is a header (magic bytes and a format version) followed
//! by the sealed, compressed list of the states of the clients by
//! identity. The whole is sealed as one unit under a 256-bit key. Reading
//! and writing files is left to the caller: this module makes and reads
//! the bytes.

use vstd::prelude::*;
use vstd::slice::slice_subrange;
use crate::bytes::{append_bytes, bytes_eq, bytes_view, copy_bytes};
use crate::codec::{decode_entries, decoded_entries, encode_entries};
use crate::identity::ClientId;
use crate::keymap::KeyMap;
use crate::primitives::{deflate, inflate, inflated, open, opened, scrub, seal, Key, KEY_SIZE};

verus! {

/// The bytes that start every snapshot file.
pub const MAGIC: [u8; 5] = [0x50, 0x41, 0x52, 0x54, 0x49];

/// The version of the format, which follows the magic bytes.
pub const VERSION: [u8; 2] = [0x2, 0x0];

/// Number of bytes in the header of a snapshot file.
pub const HEADER_SIZE: usize = 7;

/// Number of bytes that sealing adds: an ephemeral public key and a tag.
pub const SEAL_SIZE: usize = 48;

/// Why a snapshot could not be read.
#[derive(Clone, Copy, Debug, PartialEq, Eq, Structural)]
pub enum ReadSnapshotError {
    /// The key is not exactly 32 bytes long.
    InvalidKey,
    /// The bytes are too short for a snapshot or do not start with the magic bytes.
    InvalidFile,
    /// The snapshot is of a version that this library does not read; the
    /// two version bytes found are given.
    UnsupportedVersion { major: u8, minor: u8 },
    /// The sealed part does not authenticate under the key: the key is
    /// wrong, or the bytes were altered.
    Decryption,
    /// The sealed part authenticates, but what it holds is malformed.
    CorruptedContent,
    /// The snapshot holds no state for the requested identity.
    ClientNotFound,
}

/// Why a snapshot could not be written.
#[derive(Clone, Copy, Debug, PartialEq, Eq, Structural)]
pub enum WriteSnapshotError {
    /// The key is not exactly 32 bytes long.
    InvalidKey,
    /// The state could not be compressed to bytes that expand to it again.
    Compression,
    /// The state could not be sealed to bytes that open to it again.
    Sealing,
}

/// The states by identity that a snapshot file holds, as read under `key`.
pub open spec fn snapshot_content(file: Seq<u8>, key: Seq<u8>) -> Result<
    Map<Seq<u8>, Seq<u8>>,
    ReadSnapshotError,
> {
    if file.len() < HEADER_SIZE + SEAL_SIZE {
        Err(ReadSnapshotError::InvalidFile)
    } else if file.subrange(0, 5) != MAGIC@ {
        Err(ReadSnapshotError::InvalidFile)
    } else if file.subrange(5, HEADER_SIZE as int) != VERSION@ {
        Err(ReadSnapshotError::UnsupportedVersion { major: file[5], minor: file[6] })
    } else {
        match opened(file.skip(HEADER_SIZE as int), key, Seq::empty()) {
            None => Err(ReadSnapshotError::Decryption),
            Some(packed) => match inflated(packed) {
                None => Err(ReadSnapshotError::CorruptedContent),
                Some(plain) => match decoded_states(plain) {
                    None => Err(ReadSnapshotError::CorruptedContent),
                    Some(states) => Ok(states),
                },
            },
        }
    }
}

/// The states by identity that plain bytes list.
pub open spec fn decoded_states(plain: Seq<u8>) -> Option<Map<Seq<u8>, Seq<u8>>> {
    match decoded_entries::<Vec<u8>>(plain) {
        Some((states, _)) => Some(states),
        None => None,
    }
}

/// The view of the bytes of a file, or of the failure to make one.
pub open spec fn file_view(file: Result<Vec<u8>, WriteSnapshotError>) -> Result<
    Seq<u8>,
    WriteSnapshotError,
> {
    match file {
        Ok(f) => Ok(f@),
        Err(e) => Err(e),
    }
}

/// What becomes of the outcome of packing and sealing `plain`: the
/// snapshot file with the sealed bytes, where `packed` expands to
/// `plain` again and `sealed` opens to `packed` again under `key`; and
/// failure otherwise.
pub open spec fn framed(
    plain: Seq<u8>,
    packed: Seq<u8>,
    sealed: Option<Seq<u8>>,
    key: Seq<u8>,
) -> Result<Seq<u8>, WriteSnapshotError> {
    if inflated(packed) != Some(plain) {
        Err(WriteSnapshotError::Compression)
    } else {
        match sealed {
            Some(bytes) => if bytes.len() >= SEAL_SIZE && opened(bytes, key, Seq::empty()) == Some(
                packed,
            ) {
                Ok(MAGIC@ + VERSION@ + bytes)
            } else {
                Err(WriteSnapshotError::Sealing)
            },
            None => Err(WriteSnapshotError::Sealing),
        }
    }
}

/// Checks what packing and sealing gave, and puts the header before the
/// sealed bytes: nothing is handed out as a snapshot that does not read
/// back as `plain`.
pub fn frame_sealed(plain: &[u8], packed: &[u8], sealed: Option<Vec<u8>>, key: &Key) -> (file: Result<
    Vec<u8>,
    WriteSnapshotError,
>)
    ensures
        file_view(file) == framed(plain@, packed@, bytes_view(sealed), key@),
        file matches Ok(f) ==> {
            &&& f@.len() >= HEADER_SIZE + SEAL_SIZE
            &&& f@.subrange(0, 5) == MAGIC@
            &&& f@.subrange(5, HEADER_SIZE as int) == VERSION@
            &&& opened(f@.skip(HEADER_SIZE as int), key@, Seq::empty()) == Some(packed@)
            &&& inflated(packed@) == Some(plain@)
        },
{
    match inflate(packed) {
        Some(expanded) => {
            if !bytes_eq(expanded.as_slice(), plain) {
                return Err(WriteSnapshotError::Compression);
            }
        },
        None => {
            return Err(WriteSnapshotError::Compression);
        },
    }
    let sealed = match sealed {
        Some(sealed) => sealed,
        None => {
            return Err(WriteSnapshotError::Sealing);
        },
    };
    if sealed.len() < SEAL_SIZE {
        return Err(WriteSnapshotError::Sealing);
    }
    let associated: Vec<u8> = Vec::new();
    proof {
        assert(associated@ =~= Seq::<u8>::empty());
    }
    match open(sealed.as_slice(), key, associated.as_slice()) {
        Some(reopened) => {
            if !bytes_eq(reopened.as_slice(), packed) {
                return Err(WriteSnapshotError::Sealing);
            }
        },
        None => {
            return Err(WriteSnapshotError::Sealing);
        },
    }
    let mut file: Vec<u8> = Vec::new();
    append_bytes(&mut file, MAGIC.as_slice());
    append_bytes(&mut file, VERSION.as_slice());
    append_bytes(&mut file, sealed.as_slice());
    proof {
        assert(file@ =~= MAGIC@ + VERSION@ + sealed@);
        assert(file@.subrange(0, 5) =~= MAGIC@);
        assert(file@.subrange(5, HEADER_SIZE as int) =~= VERSION@);
        assert(file@.skip(HEADER_SIZE as int) =~= sealed@);
    }
    Ok(file)
}

/// Copies a key out of `keydata` and scrubs `keydata`, whatever its length.
/// Returns the key where `keydata` held exactly 32 bytes.
pub fn take_key(keydata: &mut Vec<u8>) -> (key: Option<Key>)
    ensures
        final(keydata)@ == Seq::<u8>::empty(),
        key is Some <==> old(keydata)@.len() == KEY_SIZE,
        key matches Some(k) ==> k@ == old(keydata)@,
{
    let key = if keydata.len() == KEY_SIZE {
        let mut key: Key = [0u8; 32];
        let mut i: usize = 0;
        while i < KEY_SIZE
            invariant
                i <= KEY_SIZE,
                keydata@.len() == KEY_SIZE,
                forall|j: int| 0 <= j < i ==> key@[j] == keydata@[j],
            decreases KEY_SIZE - i,
        {
            key[i] = keydata[i];
            i += 1;
        }
        assert(key@ =~= keydata@);
        Some(key)
    } else {
        None
    };
    scrub(keydata);
    key
}

/// The states of clients, by identity, that go into or came out of a
/// snapshot file.
pub struct Snapshot {
    states: KeyMap<Vec<u8>>,
}

impl View for Snapshot {
    type V = Map<Seq<u8>, Seq<u8>>;

    closed spec fn view(&self) -> Map<Seq<u8>, Seq<u8>> {
        self.states@.map_values(|state: Vec<u8>| state@)
    }
}

impl Snapshot {
    /// A snapshot without states.
    pub fn new() -> (snapshot: Self)
        ensures
            snapshot@ == Map::<Seq<u8>, Seq<u8>>::empty(),
    {
        let snapshot = Snapshot { states: KeyMap::new() };
        assert(snapshot@ =~= Map::<Seq<u8>, Seq<u8>>::empty());
        snapshot
    }

    /// Puts the state `data` of the client `id` into the snapshot.
    pub fn fill(&mut self, id: &ClientId, data: Vec<u8>)
        ensures
            final(self)@ == old(self)@.insert(id@, data@),
    {
        self.fill_state(copy_bytes(id.as_bytes()), data)
    }

    /// Puts the state `data` into the snapshot under the identity bytes `id`.
    pub fn fill_state(&mut self, id: Vec<u8>, data: Vec<u8>)
        ensures
            final(self)@ == old(self)@.insert(id@, data@),
    {
        self.states.insert(id, data);
        assert(self@ =~= old(self)@.insert(id@, data@));
    }

    /// Whether the snapshot holds no state.
    pub fn is_empty(&self) -> (empty: bool)
        ensures
            empty == (self@ == Map::<Seq<u8>, Seq<u8>>::empty()),
    {
        let empty = self.states.is_empty();
        proof {
            if empty {
                assert(self@ =~= Map::<Seq<u8>, Seq<u8>>::empty());
            } else {
                let key = choose|k: Seq<u8>| self.states@.contains_key(k);
                if self.states@.dom() =~= Set::<Seq<u8>>::empty() {
                    assert(self.states@ =~= Map::<Seq<u8>, Vec<u8>>::empty());
                }
                assert(self@.contains_key(key));
            }
        }
        empty
    }

    /// The state that the snapshot holds for the client `id`.
    pub fn get_state(&self, id: &ClientId) -> (data: Option<&Vec<u8>>)
        ensures
            data is Some <==> self@.contains_key(id@),
            data matches Some(d) ==> d@ == self@[id@],
    {
        self.states.get(id.as_bytes())
    }

    /// The bytes of a snapshot file that holds these states, sealed under `key`.
    ///
    /// Whatever is returned has been read back: it is a file that reads,
    /// under the same key, as exactly these states. Sealing draws on
    /// randomness and may fail; what is made of each outcome of the
    /// packing and the sealing is said by [`frame_sealed`].
    pub fn write(&self, key: &Key) -> (file: Result<Vec<u8>, WriteSnapshotError>)
        ensures
            match file {
                Ok(f) => snapshot_content(f@, key@) == Ok::<_, ReadSnapshotError>(self@),
                Err(e) => e != WriteSnapshotError::InvalidKey,
            },
            exists|plain: Seq<u8>, packed: Seq<u8>, sealed: Option<Seq<u8>>|
                decoded_states(plain) == Some(self@) && #[trigger] framed(plain, packed, sealed, key@)
                    == file_view(file),
    {
        let plain = encode_entries(&self.states);
        let packed = deflate(plain.as_slice());
        let associated: Vec<u8> = Vec::new();
        let sealed = seal(packed.as_slice(), key, associated.as_slice());
        let ghost sealed_view = bytes_view(sealed);
        let file = frame_sealed(plain.as_slice(), packed.as_slice(), sealed, key);
        proof {
            assert(decoded_states(plain@) == Some(self@));
            assert(framed(plain@, packed@, sealed_view, key@) == file_view(file));
        }
        file
    }

    /// Reads the bytes of a snapshot file under `key`.
    pub fn read(file: &[u8], key: &Key) -> (snapshot: Result<Self, ReadSnapshotError>)
        ensures
            match snapshot {
                Ok(s) => snapshot_content(file@, key@) == Ok::<_, ReadSnapshotError>(s@),
                Err(e) => snapshot_content(file@, key@) == Err::<Map<Seq<u8>, Seq<u8>>, _>(e),
            },
    {
        if file.len() < HEADER_SIZE + SEAL_SIZE {
            return Err(ReadSnapshotError::InvalidFile);
        }
        if !bytes_eq(slice_subrange(file, 0, 5), MAGIC.as_slice()) {
            return Err(ReadSnapshotError::InvalidFile);
        }
        if !bytes_eq(slice_subrange(file, 5, HEADER_SIZE), VERSION.as_slice()) {
            return Err(ReadSnapshotError::UnsupportedVersion { major: file[5], minor: file[6] });
        }
        let associated: Vec<u8> = Vec::new();
        let sealed = slice_subrange(file, HEADER_SIZE, file.len());
        proof {
            assert(sealed@ =~= file@.skip(HEADER_SIZE as int));
            assert(associated@ =~= Seq::<u8>::empty());
        }
        let packed = match open(sealed, key, associated.as_slice()) {
            Some(packed) => packed,
            None => {
                return Err(ReadSnapshotError::Decryption);
            },
        };
        let plain = match inflate(packed.as_slice()) {
            Some(plain) => plain,
            None => {
                return Err(ReadSnapshotError::CorruptedContent);
            },
        };
        match decode_entries::<Vec<u8>>(plain.as_slice()) {
            Some(states) => Ok(Snapshot { states }),
            None => Err(ReadSnapshotError::CorruptedContent),
        }
    }
}

} // verus!
