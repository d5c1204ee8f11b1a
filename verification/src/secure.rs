//! The secure client: the worker that owns one identity's vaults and store.

use vstd::prelude::*;
use crate::bytes::{bytes_view, copy_bytes};
use crate::codec::{
    decode_entries,
    decode_frames,
    decoded_entries,
    encode_entries,
    encode_frames,
    parse_frames,
    Encodable,
};
use crate::identity::{record_id_of, ClientId, RecordHint, RecordId};
use crate::keymap::KeyMap;
use crate::location::Location;
use crate::primitives::{fill_random, hmac_sha512, hmac_sha512_tag, scrub};
use crate::store::{store_delete, store_read, store_write, EntryView, Store};
use crate::vault::{listing_view, RecordError, Vault, VaultView};

verus! {

/// Why an operation on a vault failed.
#[derive(Clone, Copy, Debug, PartialEq, Eq, Structural)]
pub enum VaultError {
    /// The client has no vault at the given path.
    VaultNotFound,
    /// The vault exists, but the record could not be written.
    Record(RecordError),
}

/// The client has no vault at the given path.
#[derive(Clone, Copy, Debug, PartialEq, Eq, Structural)]
pub struct VaultDoesNotExist;

impl From<VaultDoesNotExist> for VaultError {
    fn from(error: VaultDoesNotExist) -> (wrapped: Self) {
        VaultError::VaultNotFound
    }
}

impl vstd::std_specs::convert::FromSpecImpl<VaultDoesNotExist> for VaultError {
    open spec fn obeys_from_spec() -> bool {
        true
    }

    open spec fn from_spec(error: VaultDoesNotExist) -> Self {
        VaultError::VaultNotFound
    }
}

/// Everything a client holds: its identity, its vaults by path, and its store.
#[verifier::ext_equal]
pub struct ClientView {
    pub id: Seq<u8>,
    pub vaults: Map<Seq<u8>, VaultView>,
    pub store: Map<Seq<u8>, EntryView>,
}

impl ClientView {
    /// A client with the identity `id` and nothing stored.
    pub open spec fn empty(id: Seq<u8>) -> Self {
        ClientView { id, vaults: Map::empty(), store: Map::empty() }
    }

    /// Whether the client has a vault at `vault_path`.
    pub open spec fn vault_exists(self, vault_path: Seq<u8>) -> bool {
        self.vaults.contains_key(vault_path)
    }

    /// Whether a readable record is stored at the location.
    pub open spec fn record_exists(self, vault_path: Seq<u8>, record_path: Seq<u8>) -> bool {
        self.vault_exists(vault_path) && self.vaults[vault_path].is_live(record_path)
    }

    /// The payload readable at the location.
    pub open spec fn read_secret(self, vault_path: Seq<u8>, record_path: Seq<u8>) -> Option<Seq<u8>> {
        if self.vault_exists(vault_path) {
            self.vaults[vault_path].read(record_path)
        } else {
            None
        }
    }

    /// The client after the vault at `vault_path` is created if absent.
    pub open spec fn create_vault(self, vault_path: Seq<u8>) -> Self {
        if self.vault_exists(vault_path) {
            self
        } else {
            ClientView { vaults: self.vaults.insert(vault_path, VaultView::empty()), ..self }
        }
    }

    /// The outcome of a write: an absent vault and a revoked record are
    /// refused without change; otherwise the record holds the payload and hint.
    pub open spec fn write_vault(
        self,
        vault_path: Seq<u8>,
        record_path: Seq<u8>,
        payload: Seq<u8>,
        hint: Seq<u8>,
    ) -> (Self, Result<(), VaultError>) {
        if !self.vault_exists(vault_path) {
            (self, Err(VaultError::VaultNotFound))
        } else if self.vaults[vault_path].is_revoked(record_path) {
            (self, Err(VaultError::Record(RecordError::Revoked)))
        } else {
            (
                ClientView {
                    vaults: self.vaults.insert(
                        vault_path,
                        self.vaults[vault_path].write(
                            record_path,
                            record_id_of(self.id, vault_path, record_path),
                            payload,
                            hint,
                        ),
                    ),
                    ..self
                },
                Ok(()),
            )
        }
    }

    /// The outcome of a revocation: refused where the vault is absent;
    /// otherwise the record at the location, if any, is revoked.
    pub open spec fn revoke(self, vault_path: Seq<u8>, record_path: Seq<u8>) -> (
        Self,
        Result<(), VaultError>,
    ) {
        if !self.vault_exists(vault_path) {
            (self, Err(VaultError::VaultNotFound))
        } else {
            (
                ClientView {
                    vaults: self.vaults.insert(vault_path, self.vaults[vault_path].revoke(record_path)),
                    ..self
                },
                Ok(()),
            )
        }
    }

    /// The outcome of a garbage collection: refused where the vault is
    /// absent; otherwise the vault keeps exactly its live records.
    pub open spec fn garbage_collect(self, vault_path: Seq<u8>) -> (
        Self,
        Result<(), VaultDoesNotExist>,
    ) {
        if !self.vault_exists(vault_path) {
            (self, Err(VaultDoesNotExist))
        } else {
            (
                ClientView {
                    vaults: self.vaults.insert(vault_path, self.vaults[vault_path].collect()),
                    ..self
                },
                Ok(()),
            )
        }
    }

    /// The identifier and hint of each live record of the vault, oldest first.
    pub open spec fn list(self, vault_path: Seq<u8>) -> Result<
        Seq<(Seq<u8>, Seq<u8>)>,
        VaultDoesNotExist,
    > {
        if self.vault_exists(vault_path) {
            Ok(self.vaults[vault_path].listing())
        } else {
            Err(VaultDoesNotExist)
        }
    }

    /// The number of records that the vault stores, revoked ones included.
    pub open spec fn stored_records(self, vault_path: Seq<u8>) -> nat {
        if self.vault_exists(vault_path) {
            self.vaults[vault_path].order.len()
        } else {
            0
        }
    }

    /// The client after its cache is cleared: what it stores stays as it
    /// is. Vaults go only by garbage collection, store entries only by
    /// deletion or expiry.
    pub open spec fn clear_cache(self) -> Self {
        self
    }

    /// The client after `value` is written to its store.
    pub open spec fn write_store(self, key: Seq<u8>, value: Seq<u8>, lifetime: Option<u64>, now: u64) -> Self {
        ClientView { store: store_write(self.store, key, value, lifetime, now), ..self }
    }

    /// The client after `key` is deleted from its store.
    pub open spec fn delete_store(self, key: Seq<u8>) -> Self {
        ClientView { store: store_delete(self.store, key), ..self }
    }
}

/// The vaults and the store that the bytes of a client's state stand
/// for: two frames, the encoded vaults by path and the encoded store.
pub open spec fn decoded_state(bytes: Seq<u8>) -> Option<
    (Map<Seq<u8>, VaultView>, Map<Seq<u8>, EntryView>),
> {
    match parse_frames(bytes) {
        None => None,
        Some(frames) => if frames.len() != 2 {
            None
        } else {
            match (decoded_entries::<Vault>(frames[0]), Store::decoded(frames[1])) {
                (Some((vaults, _)), Some(store)) => Some((vaults, store)),
                _ => None,
            }
        },
    }
}

impl ClientView {
    /// The client after its state is replaced by what `data` stand for
    /// and its identity by `id`; unchanged where `data` stand for nothing.
    pub open spec fn reload(self, data: Seq<u8>, id: Seq<u8>) -> Self {
        match decoded_state(data) {
            Some((vaults, store)) => ClientView { id, vaults, store },
            None => self,
        }
    }
}

/// An operation that a client runs on its own secrets.
#[derive(Clone, Debug, PartialEq, Eq)]
pub enum Procedure {
    /// Draws `size_bytes` random bytes and writes them, as a new secret,
    /// to the record at `output`.
    Generate { output: Location, hint: RecordHint, size_bytes: usize },
    /// Computes the HMAC-SHA-512 tag of `msg` under the secret stored at `key`.
    Hmac { key: Location, msg: Vec<u8> },
}

/// Why a procedure failed.
#[derive(Clone, Copy, Debug, PartialEq, Eq, Structural)]
pub enum ProcError {
    /// There is no memory for a secret of the size asked for.
    Memory,
    /// The source of randomness failed.
    Entropy,
    /// There is no readable record at the location of a secret.
    SecretNotFound,
    /// The result could not be written to the vault.
    Vault(VaultError),
}

/// What a procedure gives back. No variant carries a secret.
#[derive(Clone, Debug, PartialEq, Eq)]
pub enum ProcResult {
    /// A secret was generated and stored.
    Generate,
    /// The tag of the message.
    Hmac(Vec<u8>),
    /// The procedure failed.
    Error(ProcError),
}

/// The view of what a procedure gives back.
pub enum ProcResultView {
    Generate,
    Hmac(Seq<u8>),
    Error(ProcError),
}

impl View for ProcResult {
    type V = ProcResultView;

    open spec fn view(&self) -> ProcResultView {
        match self {
            ProcResult::Generate => ProcResultView::Generate,
            ProcResult::Hmac(tag) => ProcResultView::Hmac(tag@),
            ProcResult::Error(e) => ProcResultView::Error(*e),
        }
    }
}

impl ClientView {
    /// The storing of a freshly generated `secret` at a location: the
    /// vault is created if absent, then the record is written.
    pub open spec fn store_generated(
        self,
        vault_path: Seq<u8>,
        record_path: Seq<u8>,
        hint: Seq<u8>,
        secret: Seq<u8>,
    ) -> (Self, Result<ProcResultView, ProcError>) {
        let (client, done) = self.create_vault(vault_path).write_vault(
            vault_path,
            record_path,
            secret,
            hint,
        );
        match done {
            Ok(()) => (client, Ok(ProcResultView::Generate)),
            Err(e) => (client, Err(ProcError::Vault(e))),
        }
    }

    /// The tag of `msg` under the secret at a location.
    pub open spec fn hmac(self, vault_path: Seq<u8>, record_path: Seq<u8>, msg: Seq<u8>) -> Result<
        ProcResultView,
        ProcError,
    > {
        match self.read_secret(vault_path, record_path) {
            Some(secret) => Ok(ProcResultView::Hmac(hmac_sha512_tag(msg, secret))),
            None => Err(ProcError::SecretNotFound),
        }
    }

    /// Whether `(after, result)` is a possible outcome of `procedure`
    /// run by this client.
    ///
    /// A generation may fail for want of memory or of entropy, without
    /// change; otherwise it stores some secret of the size asked for. A
    /// tag is fully determined.
    pub open spec fn runs(
        self,
        procedure: Procedure,
        after: Self,
        result: Result<ProcResultView, ProcError>,
    ) -> bool {
        match procedure {
            Procedure::Generate { output, hint, size_bytes } => {
                ||| after == self && result == Err::<ProcResultView, _>(ProcError::Memory)
                ||| after == self && result == Err::<ProcResultView, _>(ProcError::Entropy)
                ||| exists|secret: Seq<u8>|
                    secret.len() == size_bytes && #[trigger] self.store_generated(
                        output.vault(),
                        output.record(),
                        hint@,
                        secret,
                    ) == (after, result)
            },
            Procedure::Hmac { key, msg } => after == self && result == self.hmac(
                key.vault(),
                key.record(),
                msg@,
            ),
        }
    }
}

/// The view of the outcome of a procedure.
pub open spec fn proc_view(result: Result<ProcResult, ProcError>) -> Result<ProcResultView, ProcError> {
    match result {
        Ok(r) => Ok(r@),
        Err(e) => Err(e),
    }
}

/// The view of a listing result as it is returned.
pub open spec fn list_result_view(result: Result<Vec<(RecordId, RecordHint)>, VaultDoesNotExist>) -> Result<
    Seq<(Seq<u8>, Seq<u8>)>,
    VaultDoesNotExist,
> {
    match result {
        Ok(list) => Ok(listing_view(list@)),
        Err(e) => Err(e),
    }
}

/// The worker of one identity.
pub struct SecureClient {
    id: ClientId,
    vaults: KeyMap<Vault>,
    store: Store,
}

impl View for SecureClient {
    type V = ClientView;

    closed spec fn view(&self) -> ClientView {
        ClientView {
            id: self.id@,
            vaults: self.vaults@.map_values(|v: Vault| v@),
            store: self.store@,
        }
    }
}

impl SecureClient {
    /// A client with the identity `id` and nothing stored.
    pub fn new(id: ClientId) -> (client: Self)
        ensures
            client@ == ClientView::empty(id@),
    {
        let client = SecureClient { id, vaults: KeyMap::new(), store: Store::new() };
        assert(client@.vaults =~= Map::<Seq<u8>, VaultView>::empty());
        client
    }

    /// The identity of the client.
    pub fn client_id(&self) -> (id: ClientId)
        ensures
            id@ == self@.id,
    {
        self.id
    }

    /// Whether the client has a vault at `vault_path`.
    pub fn check_vault(&self, vault_path: &[u8]) -> (exists: bool)
        ensures
            exists == self@.vault_exists(vault_path@),
    {
        self.vaults.contains_key(vault_path)
    }

    /// Whether a readable record is stored at `location`.
    pub fn check_record(&self, location: &Location) -> (exists: bool)
        ensures
            exists == self@.record_exists(location.vault(), location.record()),
    {
        match self.vaults.get(location.vault_path()) {
            Some(vault) => {
                let record_path = location.record_path();
                vault.contains_record(record_path.as_slice())
            },
            None => false,
        }
    }

    /// The payload readable at `location`.
    pub fn read_from_vault(&self, location: &Location) -> (payload: Option<Vec<u8>>)
        ensures
            bytes_view(payload) == self@.read_secret(location.vault(), location.record()),
    {
        match self.vaults.get(location.vault_path()) {
            Some(vault) => {
                let record_path = location.record_path();
                vault.read(record_path.as_slice())
            },
            None => None,
        }
    }

    /// Creates the vault that `location` points into, if it is absent.
    pub fn create_vault(&mut self, location: &Location)
        ensures
            final(self)@ == old(self)@.create_vault(location.vault()),
    {
        let vault_path = location.vault_path();
        if !self.vaults.contains_key(vault_path) {
            self.vaults.insert(copy_bytes(vault_path), Vault::new());
            assert(self@.vaults =~= old(self)@.create_vault(location.vault()).vaults);
        }
    }

    /// Writes `payload` and `hint` to the record at `location`.
    pub fn write_to_vault(&mut self, location: &Location, payload: Vec<u8>, hint: RecordHint) -> (done:
        Result<(), VaultError>)
        ensures
            (final(self)@, done) == old(self)@.write_vault(
                location.vault(),
                location.record(),
                payload@,
                hint@,
            ),
    {
        let vault_path = location.vault_path();
        let record_path = location.record_path();
        let id = RecordId::derive(&self.id, vault_path, record_path.as_slice());
        match self.vaults.get_mut(vault_path) {
            Some(vault) => {
                match vault.write(record_path.as_slice(), id, payload, hint) {
                    Ok(()) => {
                        assert(self@.vaults =~= old(self)@.write_vault(
                            location.vault(),
                            location.record(),
                            payload@,
                            hint@,
                        ).0.vaults);
                        Ok(())
                    },
                    Err(e) => {
                        assert(self@.vaults =~= old(self)@.vaults);
                        Err(VaultError::Record(e))
                    },
                }
            },
            None => Err(VaultError::VaultNotFound),
        }
    }

    /// Revokes the record at `location`.
    pub fn revoke_data(&mut self, location: &Location) -> (done: Result<(), VaultError>)
        ensures
            (final(self)@, done) == old(self)@.revoke(location.vault(), location.record()),
    {
        let record_path = location.record_path();
        match self.vaults.get_mut(location.vault_path()) {
            Some(vault) => {
                vault.revoke(record_path.as_slice());
                assert(self@.vaults =~= old(self)@.revoke(
                    location.vault(),
                    location.record(),
                ).0.vaults);
                Ok(())
            },
            None => Err(VaultError::VaultNotFound),
        }
    }

    /// Drops the revoked records of the vault at `vault_path`.
    pub fn garbage_collect(&mut self, vault_path: &[u8]) -> (done: Result<(), VaultDoesNotExist>)
        ensures
            (final(self)@, done) == old(self)@.garbage_collect(vault_path@),
    {
        match self.vaults.get_mut(vault_path) {
            Some(vault) => {
                vault.garbage_collect();
                assert(self@.vaults =~= old(self)@.garbage_collect(vault_path@).0.vaults);
                Ok(())
            },
            None => Err(VaultDoesNotExist),
        }
    }

    /// The identifier and hint of each live record of the vault at `vault_path`.
    pub fn list_ids(&self, vault_path: &[u8]) -> (list: Result<
        Vec<(RecordId, RecordHint)>,
        VaultDoesNotExist,
    >)
        ensures
            list_result_view(list) == self@.list(vault_path@),
    {
        match self.vaults.get(vault_path) {
            Some(vault) => Ok(vault.list_hints_and_ids()),
            None => Err(VaultDoesNotExist),
        }
    }

    /// The number of records that the vault at `vault_path` stores,
    /// revoked ones included; zero where there is no such vault. The
    /// vault is valid: its order lists each stored record once.
    pub fn stored_records(&self, vault_path: &[u8]) -> (count: usize)
        ensures
            count == self@.stored_records(vault_path@),
            self@.vault_exists(vault_path@) ==> self@.vaults[vault_path@].valid(),
    {
        match self.vaults.get(vault_path) {
            Some(vault) => vault.record_count(),
            None => 0,
        }
    }

    /// The value readable under `key` in the store at time `now`.
    pub fn read_from_store(&self, key: &[u8], now: u64) -> (value: Option<Vec<u8>>)
        ensures
            bytes_view(value) == store_read(self@.store, key@, now),
    {
        self.store.read(key, now)
    }

    /// Writes `value` under `key` in the store and returns the value that
    /// was readable there just before.
    pub fn write_to_store(&mut self, key: Vec<u8>, value: Vec<u8>, lifetime: Option<u64>, now: u64) -> (previous:
        Option<Vec<u8>>)
        ensures
            final(self)@ == old(self)@.write_store(key@, value@, lifetime, now),
            bytes_view(previous) == store_read(old(self)@.store, key@, now),
    {
        self.store.write(key, value, lifetime, now)
    }

    /// Deletes `key` from the store.
    pub fn delete_from_store(&mut self, key: &[u8])
        ensures
            final(self)@ == old(self)@.delete_store(key@),
    {
        self.store.delete(key)
    }

    /// Stores the freshly generated `secret` at `output`, creating the
    /// vault if it is absent.
    pub fn store_generated(&mut self, output: &Location, hint: RecordHint, secret: Vec<u8>) -> (result:
        Result<ProcResult, ProcError>)
        ensures
            (final(self)@, proc_view(result)) == old(self)@.store_generated(
                output.vault(),
                output.record(),
                hint@,
                secret@,
            ),
    {
        self.create_vault(output);
        match self.write_to_vault(output, secret, hint) {
            Ok(()) => Ok(ProcResult::Generate),
            Err(e) => Err(ProcError::Vault(e)),
        }
    }

    /// The HMAC-SHA-512 tag of `msg` under the secret stored at `key`.
    /// The copy of the secret that the tag is computed from is scrubbed
    /// before the call returns.
    pub fn hmac(&self, key: &Location, msg: &[u8]) -> (result: Result<ProcResult, ProcError>)
        ensures
            proc_view(result) == self@.hmac(key.vault(), key.record(), msg@),
    {
        match self.read_from_vault(key) {
            Some(secret) => {
                let mut secret = secret;
                let tag = hmac_sha512(msg, secret.as_slice());
                scrub(&mut secret);
                Ok(ProcResult::Hmac(tag))
            },
            None => Err(ProcError::SecretNotFound),
        }
    }

    /// A buffer of `len` zero bytes, or `None` where there is no memory
    /// for it.
    fn zeroed(len: usize) -> (buffer: Option<Vec<u8>>)
        ensures
            buffer matches Some(b) ==> b@.len() == len,
    {
        let mut buffer: Vec<u8> = Vec::new();
        if buffer.try_reserve(len).is_err() {
            return None;
        }
        let mut i: usize = 0;
        while i < len
            invariant
                i <= len,
                buffer@.len() == i,
            decreases len - i,
        {
            buffer.push(0u8);
            i += 1;
        }
        Some(buffer)
    }

    /// Runs `procedure` on the secrets of the client.
    pub fn call_procedure(&mut self, procedure: Procedure) -> (result: Result<ProcResult, ProcError>)
        ensures
            old(self)@.runs(procedure, final(self)@, proc_view(result)),
    {
        match procedure {
            Procedure::Generate { output, hint, size_bytes } => {
                let mut secret = match Self::zeroed(size_bytes) {
                    Some(buffer) => buffer,
                    None => {
                        return Err(ProcError::Memory);
                    },
                };
                if !fill_random(&mut secret) {
                    return Err(ProcError::Entropy);
                }
                let ghost drawn = secret@;
                let result = self.store_generated(&output, hint, secret);
                assert(old(self)@.store_generated(
                    output.vault(),
                    output.record(),
                    hint@,
                    drawn,
                ) == (self@, proc_view(result)));
                result
            },
            Procedure::Hmac { key, msg } => self.hmac(&key, msg.as_slice()),
        }
    }

    /// The vaults and the store of the client as bytes.
    pub fn get_data(&self) -> (data: Vec<u8>)
        ensures
            decoded_state(data@) == Some((self@.vaults, self@.store)),
    {
        let mut frames: Vec<Vec<u8>> = Vec::new();
        frames.push(encode_entries(&self.vaults));
        frames.push(self.store.encode());
        encode_frames(&frames)
    }

    /// Replaces the vaults and the store by what `data` stand for, and
    /// the identity by `id`. Returns whether `data` stand for a state; if
    /// they do not, nothing changes.
    pub fn reload_data(&mut self, data: &[u8], id: ClientId) -> (done: bool)
        ensures
            done == decoded_state(data@) is Some,
            final(self)@ == old(self)@.reload(data@, id@),
    {
        let frames = match decode_frames(data) {
            Some(frames) => frames,
            None => {
                return false;
            },
        };
        if frames.len() != 2 {
            return false;
        }
        let vaults = match decode_entries::<Vault>(frames[0].as_slice()) {
            Some(vaults) => vaults,
            None => {
                return false;
            },
        };
        let store = match Store::decode(frames[1].as_slice()) {
            Some(store) => store,
            None => {
                return false;
            },
        };
        self.id = id;
        self.vaults = vaults;
        self.store = store;
        true
    }

    /// Clears the cache of the client.
    ///
    /// The client keeps no copy of a secret between calls: what a
    /// procedure reads from a vault is scrubbed when the procedure
    /// ends. So there is nothing to drop here, and what the client
    /// stores stays as it is.
    pub fn clear_cache(&mut self)
        ensures
            final(self)@ == old(self)@.clear_cache(),
    {
    }
}

} // verus!
