//! Identities: fixed-size tokens derived from byte paths.
//!
//! Every identifier in the system (of a client, of a vault, of a record)
//! is the first [`ID_SIZE`] bytes of a keyed hash over a path. The same
//! path always yields the same identifier.

use vstd::prelude::*;
use crate::primitives::{hmac_sha512, hmac_sha512_tag};

verus! {

/// Length of every identifier in bytes.
pub const ID_SIZE: usize = 24;

/// The identifier derived from `data` under the path `path`.
pub open spec fn derived_id(data: Seq<u8>, path: Seq<u8>) -> Seq<u8> {
    hmac_sha512_tag(data, path).subrange(0, ID_SIZE as int)
}

/// The identity of the client that the byte sequence `path` names.
pub open spec fn client_id_of(path: Seq<u8>) -> Seq<u8> {
    derived_id(path, path)
}

/// The identifier of the vault at `vault_path` inside the client `client`.
pub open spec fn vault_id_of(client: Seq<u8>, vault_path: Seq<u8>) -> Seq<u8> {
    derived_id(client, vault_path)
}

/// The identifier of the record at `record_path` in the vault at
/// `vault_path` inside the client `client`.
pub open spec fn record_id_of(client: Seq<u8>, vault_path: Seq<u8>, record_path: Seq<u8>) -> Seq<
    u8,
> {
    derived_id(vault_id_of(client, vault_path), record_path)
}

/// Equal paths name the same client.
pub proof fn lemma_identity_is_deterministic(path: Seq<u8>, same_path: Seq<u8>)
    requires
        path == same_path,
    ensures
        client_id_of(path) == client_id_of(same_path),
{
}

/// Derives an identifier: the leading bytes of the keyed hash of `data` under `path`.
pub fn derive_id(data: &[u8], path: &[u8]) -> (id: [u8; 24])
    ensures
        id@ == derived_id(data@, path@),
{
    let tag = hmac_sha512(data, path);
    let mut id: [u8; 24] = [0u8; 24];
    let mut i: usize = 0;
    while i < ID_SIZE
        invariant
            i <= ID_SIZE,
            tag@.len() == 64,
            forall|j: int| 0 <= j < i ==> id@[j] == tag@[j],
        decreases ID_SIZE - i,
    {
        id[i] = tag[i];
        i += 1;
    }
    assert(id@ =~= tag@.subrange(0, ID_SIZE as int));
    id
}

/// The identifier-sized array that holds exactly `bytes`.
pub fn id_array(bytes: &[u8]) -> (array: [u8; 24])
    requires
        bytes@.len() == ID_SIZE,
    ensures
        array@ == bytes@,
{
    let mut array: [u8; 24] = [0u8; 24];
    let mut i: usize = 0;
    while i < ID_SIZE
        invariant
            i <= ID_SIZE,
            bytes@.len() == ID_SIZE,
            forall|j: int| 0 <= j < i ==> array@[j] == bytes@[j],
        decreases ID_SIZE - i,
    {
        array[i] = bytes[i];
        i += 1;
    }
    assert(array@ =~= bytes@);
    array
}

/// The identity of one client.
#[derive(Clone, Copy, Debug, PartialEq, Eq, Hash)]
pub struct ClientId {
    bytes: [u8; 24],
}

impl ClientId {
    /// The bytes of the identity.
    pub closed spec fn view(&self) -> Seq<u8> {
        self.bytes@
    }

    /// The identity derived from `data` under `path`.
    pub fn load_from_path(data: &[u8], path: &[u8]) -> (id: Self)
        ensures
            id@ == derived_id(data@, path@),
    {
        ClientId { bytes: derive_id(data, path) }
    }

    /// The identity of the client that `client_path` names.
    pub fn from_path(client_path: &[u8]) -> (id: Self)
        ensures
            id@ == client_id_of(client_path@),
    {
        ClientId { bytes: derive_id(client_path, client_path) }
    }

    /// An identity with the given bytes.
    pub fn from_bytes(bytes: [u8; 24]) -> (id: Self)
        ensures
            id@ == bytes@,
    {
        ClientId { bytes }
    }

    /// The bytes of the identity.
    pub fn as_bytes(&self) -> (bytes: &[u8])
        ensures
            bytes@ == self@,
            bytes@.len() == ID_SIZE,
    {
        self.bytes.as_slice()
    }
}

/// The identifier of one record.
#[derive(Clone, Copy, Debug, PartialEq, Eq, Hash)]
pub struct RecordId {
    bytes: [u8; 24],
}

impl RecordId {
    /// The bytes of the identifier.
    pub closed spec fn view(&self) -> Seq<u8> {
        self.bytes@
    }

    /// The identifier of the record at `record_path` in the vault at
    /// `vault_path` of the client `client`.
    pub fn derive(client: &ClientId, vault_path: &[u8], record_path: &[u8]) -> (id: Self)
        ensures
            id@ == record_id_of(client@, vault_path@, record_path@),
    {
        let vault_id = derive_id(client.as_bytes(), vault_path);
        RecordId { bytes: derive_id(vault_id.as_slice(), record_path) }
    }

    /// An identifier with the given bytes.
    pub fn from_bytes(bytes: [u8; 24]) -> (id: Self)
        ensures
            id@ == bytes@,
    {
        RecordId { bytes }
    }

    /// The bytes of the identifier.
    pub fn as_bytes(&self) -> (bytes: &[u8])
        ensures
            bytes@ == self@,
            bytes@.len() == ID_SIZE,
    {
        self.bytes.as_slice()
    }
}

/// The hint that `bytes` make: the bytes themselves, padded with zeroes to
/// [`ID_SIZE`]. Defined for at most [`ID_SIZE`] bytes.
pub open spec fn padded_hint(bytes: Seq<u8>) -> Seq<u8> {
    Seq::new(ID_SIZE as nat, |i: int| if i < bytes.len() { bytes[i] } else { 0u8 })
}

/// A short public tag attached to a record. It is not confidential.
#[derive(Clone, Copy, Debug, PartialEq, Eq, Hash)]
pub struct RecordHint {
    bytes: [u8; 24],
}

impl RecordHint {
    /// The bytes of the hint.
    pub closed spec fn view(&self) -> Seq<u8> {
        self.bytes@
    }

    /// A hint made of `hint`, padded with zeroes. `None` where `hint` is
    /// longer than a hint can be.
    pub fn new(hint: &[u8]) -> (made: Option<Self>)
        ensures
            made is Some <==> hint@.len() <= ID_SIZE,
            made matches Some(h) ==> h@ == padded_hint(hint@),
    {
        if hint.len() > ID_SIZE {
            return None;
        }
        let mut bytes: [u8; 24] = [0u8; 24];
        let mut i: usize = 0;
        while i < hint.len()
            invariant
                i <= hint@.len() <= ID_SIZE,
                forall|j: int| 0 <= j < i ==> bytes@[j] == hint@[j],
                forall|j: int| i <= j < ID_SIZE ==> bytes@[j] == 0u8,
            decreases hint@.len() - i,
        {
            bytes[i] = hint[i];
            i += 1;
        }
        assert(bytes@ =~= padded_hint(hint@));
        Some(RecordHint { bytes })
    }

    /// A hint with exactly the given bytes.
    pub fn from_bytes(bytes: [u8; 24]) -> (hint: Self)
        ensures
            hint@ == bytes@,
    {
        RecordHint { bytes }
    }

    /// The bytes of the hint.
    pub fn as_bytes(&self) -> (bytes: &[u8])
        ensures
            bytes@ == self@,
            bytes@.len() == ID_SIZE,
    {
        self.bytes.as_slice()
    }
}

} // verus!
