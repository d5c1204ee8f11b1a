//! The facade: the single entry point of the system.
//!
//! Every call that does not name a client is aimed at the current target
//! of the registry. The facade only sequences calls into the registry and
//! the targeted client and wraps their errors.

use std::convert::Infallible;
use vstd::prelude::*;
use actix::MailboxError;
use crate::bytes::bytes_view;
use crate::firewall::{
    peer_views,
    FirewallView,
    PeerId,
    Rule,
    RuleDirection,
    Verdict,
};
use crate::identity::{client_id_of, ClientId, RecordHint, RecordId};
use crate::location::Location;
use crate::network::{
    answer_request,
    folded,
    initial_rules,
    Multiaddr,
    NetworkActor,
    NetworkMsg,
    ShRequest,
    ShResult,
    ShResultView,
};
use crate::primitives::KEY_SIZE;
use crate::registry::{holds_states, Registry, RegistryView};
use crate::remote::RemoteVaultWrite;
use crate::secure::{
    decoded_state,
    proc_view,
    ClientView,
    ProcError,
    ProcResult,
    ProcResultView,
    Procedure,
    VaultDoesNotExist,
    VaultError,
};
use crate::snapshot::{
    decoded_states,
    file_view,
    framed,
    snapshot_content,
    take_key,
    ReadSnapshotError,
    Snapshot,
    WriteSnapshotError,
};
use crate::store::store_read;

verus! {

/// `actix::MailboxError`, the failure to deliver a message to a
/// worker's mailbox. Nothing is known of its values but their identity.
#[verifier::external_type_specification]
#[verifier::external_body]
pub struct ExMailboxError(MailboxError);

/// `<actix::MailboxError as Clone>::clone`.
///
/// Trusted: the type is a plain copyable tag, so its clone is the value
/// itself.
pub assume_specification[ <MailboxError as Clone>::clone ](error: &MailboxError) -> (copy:
    MailboxError)
    ensures
        copy == *error,
;

/// The error envelope of the facade.
///
/// Routing failures (no worker to talk to, or a mailbox that could not be
/// reached) are told apart from the failure `E` of the operation itself.
#[derive(Clone, Debug, PartialEq, Eq)]
pub enum Error<E = Infallible> {
    /// The message could not be delivered to the worker.
    ActorMailbox(MailboxError),
    /// The targeted worker has not been spawned, or was removed.
    ActorNotSpawned,
    /// The operation itself failed.
    Inner(E),
}

impl<E> From<MailboxError> for Error<E> {
    fn from(error: MailboxError) -> (wrapped: Self) {
        Error::ActorMailbox(error)
    }
}

impl<E> vstd::std_specs::convert::FromSpecImpl<MailboxError> for Error<E> {
    open spec fn obeys_from_spec() -> bool {
        true
    }

    open spec fn from_spec(error: MailboxError) -> Self {
        Error::ActorMailbox(error)
    }
}

/// Options for a new client. None of them changes what the library does.
#[derive(Clone, Copy, Debug, PartialEq, Eq)]
pub enum StrongholdFlags {
    IsReadable(bool),
}

/// Options for a new vault. There are none yet.
#[derive(Clone, Copy, Debug, PartialEq, Eq)]
pub struct VaultFlags;

impl RegistryView {
    /// The system after a client is spawned under `id` and made the target.
    pub open spec fn spawn_actor(self, id: Seq<u8>) -> Self {
        self.spawn(id).switch_target(id)
    }

    /// A write through the facade: the vault is created if absent, then
    /// the record is written.
    pub open spec fn write_to_vault(
        self,
        vault_path: Seq<u8>,
        record_path: Seq<u8>,
        payload: Seq<u8>,
        hint: Seq<u8>,
    ) -> (Self, Result<(), Error<VaultError>>) {
        if !self.has_current() {
            (self, Err(Error::ActorNotSpawned))
        } else {
            let (client, done) = self.current().create_vault(vault_path).write_vault(
                vault_path,
                record_path,
                payload,
                hint,
            );
            (
                self.with_current(client),
                match done {
                    Ok(()) => Ok(()),
                    Err(e) => Err(Error::Inner(e)),
                },
            )
        }
    }

    /// A deletion through the facade: the record is revoked, and where
    /// `should_gc` is set the vault is then garbage collected.
    pub open spec fn delete_data(self, vault_path: Seq<u8>, record_path: Seq<u8>, should_gc: bool) -> (
        Self,
        Result<(), Error<VaultError>>,
    ) {
        if !self.has_current() {
            (self, Err(Error::ActorNotSpawned))
        } else {
            let (revoked, done) = self.current().revoke(vault_path, record_path);
            match done {
                Err(e) => (self, Err(Error::Inner(e))),
                Ok(()) => if should_gc {
                    (self.with_current(revoked.garbage_collect(vault_path).0), Ok(()))
                } else {
                    (self.with_current(revoked), Ok(()))
                },
            }
        }
    }

    /// A garbage collection through the facade.
    pub open spec fn garbage_collect(self, vault_path: Seq<u8>) -> (
        Self,
        Result<(), Error<VaultDoesNotExist>>,
    ) {
        if !self.has_current() {
            (self, Err(Error::ActorNotSpawned))
        } else {
            let (client, done) = self.current().garbage_collect(vault_path);
            (
                self.with_current(client),
                match done {
                    Ok(()) => Ok(()),
                    Err(e) => Err(Error::Inner(e)),
                },
            )
        }
    }

    /// A listing through the facade.
    pub open spec fn list_hints_and_ids(self, vault_path: Seq<u8>) -> Result<
        Seq<(Seq<u8>, Seq<u8>)>,
        Error<VaultDoesNotExist>,
    > {
        if !self.has_current() {
            Err(Error::ActorNotSpawned)
        } else {
            match self.current().list(vault_path) {
                Ok(list) => Ok(list),
                Err(e) => Err(Error::Inner(e)),
            }
        }
    }

    /// Whether the target has a readable record at the location.
    pub open spec fn record_exists(self, vault_path: Seq<u8>, record_path: Seq<u8>) -> Result<bool, Error> {
        if !self.has_current() {
            Err(Error::ActorNotSpawned)
        } else {
            Ok(self.current().record_exists(vault_path, record_path))
        }
    }

    /// Whether the target has a vault at `vault_path`.
    pub open spec fn vault_exists(self, vault_path: Seq<u8>) -> Result<bool, Error> {
        if !self.has_current() {
            Err(Error::ActorNotSpawned)
        } else {
            Ok(self.current().vault_exists(vault_path))
        }
    }

    /// The payload that the target lets read at the location.
    pub open spec fn read_secret(self, vault_path: Seq<u8>, record_path: Seq<u8>) -> Result<
        Option<Seq<u8>>,
        Error,
    > {
        if !self.has_current() {
            Err(Error::ActorNotSpawned)
        } else {
            Ok(self.current().read_secret(vault_path, record_path))
        }
    }

    /// The number of records that the target stores in the vault at
    /// `vault_path`, revoked ones included.
    pub open spec fn stored_records(self, vault_path: Seq<u8>) -> Result<nat, Error> {
        if !self.has_current() {
            Err(Error::ActorNotSpawned)
        } else {
            Ok(self.current().stored_records(vault_path))
        }
    }

    /// A store write through the facade.
    pub open spec fn write_to_store(
        self,
        key: Seq<u8>,
        value: Seq<u8>,
        lifetime: Option<u64>,
        now: u64,
    ) -> (Self, Result<Option<Seq<u8>>, Error>) {
        if !self.has_current() {
            (self, Err(Error::ActorNotSpawned))
        } else {
            (
                self.with_current(self.current().write_store(key, value, lifetime, now)),
                Ok(store_read(self.current().store, key, now)),
            )
        }
    }

    /// A store read through the facade.
    pub open spec fn read_from_store(self, key: Seq<u8>, now: u64) -> Result<Option<Seq<u8>>, Error> {
        if !self.has_current() {
            Err(Error::ActorNotSpawned)
        } else {
            Ok(store_read(self.current().store, key, now))
        }
    }

    /// A store deletion through the facade.
    pub open spec fn delete_from_store(self, key: Seq<u8>) -> (Self, Result<(), Error>) {
        if !self.has_current() {
            (self, Err(Error::ActorNotSpawned))
        } else {
            (self.with_current(self.current().delete_store(key)), Ok(()))
        }
    }

    /// The removal of the client `id`, or the clearing of its cache,
    /// which leaves what the client stores as it is.
    pub open spec fn kill(self, id: Seq<u8>, kill_actor: bool) -> (Self, Result<(), Error>) {
        if !self.is_spawned(id) {
            (self, Err(Error::ActorNotSpawned))
        } else if kill_actor {
            (self.remove(id), Ok(()))
        } else {
            (self.with_client(id, self.clients[id].clear_cache()), Ok(()))
        }
    }
}

/// Whether `file` reads, under `key`, as a snapshot of exactly the
/// clients of `registry`, each with its vaults and store.
pub open spec fn is_snapshot_of(file: Seq<u8>, key: Seq<u8>, registry: RegistryView) -> bool {
    snapshot_content(file, key) matches Ok(states) && holds_states(states, registry)
}

/// What the facade makes of the outcome of framing a snapshot.
pub open spec fn written(framed: Result<Seq<u8>, WriteSnapshotError>) -> Result<
    Seq<u8>,
    Error<WriteSnapshotError>,
> {
    match framed {
        Ok(file) => Ok(file),
        Err(e) => Err(Error::Inner(e)),
    }
}

/// The view of the bytes of a snapshot inside a result.
pub open spec fn written_view(file: Result<Vec<u8>, Error<WriteSnapshotError>>) -> Result<
    Seq<u8>,
    Error<WriteSnapshotError>,
> {
    match file {
        Ok(f) => Ok(f@),
        Err(e) => Err(e),
    }
}

/// The identity that an optional path names.
pub open spec fn optional_id(path: Option<Vec<u8>>) -> Option<Seq<u8>> {
    match path {
        Some(p) => Some(client_id_of(p@)),
        None => None,
    }
}

impl RegistryView {
    /// Whether there is a worker to receive a snapshot: the client
    /// `former`, where a former identity is given, or else the target.
    pub open spec fn has_snapshot_worker(self, former: Option<Seq<u8>>) -> bool {
        match former {
            Some(id) => self.is_spawned(id),
            None => self.has_current(),
        }
    }

    /// The registry after the worker that receives a snapshot has been
    /// made the target: the client `former`, where a former identity is
    /// given; the target stays where none is.
    pub open spec fn resolve(self, former: Option<Seq<u8>>) -> Self {
        match former {
            Some(id) => self.switch_target(id),
            None => self,
        }
    }

    /// The reading of the state of the client `id` from the snapshot
    /// `file` into a worker.
    ///
    /// There has to be a worker to receive the state. Then the key is
    /// checked, the file is opened, and the state of `id` is looked up
    /// and decoded. Only then does the receiving worker become the
    /// target and get the state installed: a read that fails changes
    /// nothing, the target included.
    pub open spec fn read_snapshot(
        self,
        id: Seq<u8>,
        former: Option<Seq<u8>>,
        key: Seq<u8>,
        file: Seq<u8>,
    ) -> (Self, Result<(), Error<ReadSnapshotError>>) {
        if !self.has_snapshot_worker(former) {
            (self, Err(Error::ActorNotSpawned))
        } else if key.len() != KEY_SIZE {
            (self, Err(Error::Inner(ReadSnapshotError::InvalidKey)))
        } else {
            match snapshot_content(file, key) {
                Err(e) => (self, Err(Error::Inner(e))),
                Ok(states) => if !states.contains_key(id) {
                    (self, Err(Error::Inner(ReadSnapshotError::ClientNotFound)))
                } else if decoded_state(states[id]) is None {
                    (self, Err(Error::Inner(ReadSnapshotError::CorruptedContent)))
                } else {
                    let resolved = self.resolve(former);
                    (resolved.with_current(resolved.current().reload(states[id], id)), Ok(()))
                },
            }
        }
    }
}

impl RegistryView {
    /// Whether `(after, result)` is a possible outcome of `procedure`
    /// run through the facade: it runs on the target, and its failure
    /// comes back as a result, not as an error.
    pub open spec fn executes(
        self,
        procedure: Procedure,
        after: Self,
        result: Result<ProcResultView, Error>,
    ) -> bool {
        if !self.has_current() {
            after == self && result == Err::<ProcResultView, Error>(Error::ActorNotSpawned)
        } else {
            exists|client: ClientView, outcome: Result<ProcResultView, ProcError>|
                #![trigger self.current().runs(procedure, client, outcome)]
                self.current().runs(procedure, client, outcome) && after == self.with_current(
                    client,
                ) && result == Ok::<ProcResultView, Error>(folded(outcome))
        }
    }

    /// The system after an attempt to spawn the network worker; an
    /// existing worker is kept as it is.
    pub open spec fn spawn_p2p(self, firewall_rule: Rule) -> Self {
        if self.network is Some {
            self
        } else {
            RegistryView { network: Some(FirewallView::new(initial_rules(firewall_rule))), ..self }
        }
    }

    /// The system after the network worker is stopped.
    pub open spec fn stop_p2p(self) -> Self {
        RegistryView { network: None, ..self }
    }

    /// The system after `rule` is made the inbound rule of each of
    /// `peers` and, where `set_default` is set, the default inbound rule.
    pub open spec fn set_firewall_rule(self, rule: Rule, peers: Seq<Seq<u8>>, set_default: bool) -> (
        Self,
        Result<(), Error>,
    ) {
        match self.network {
            None => (self, Err(Error::ActorNotSpawned)),
            Some(firewall) => {
                let with_default = if set_default {
                    firewall.set_default(RuleDirection::Inbound, Some(rule))
                } else {
                    firewall
                };
                (
                    RegistryView {
                        network: Some(with_default.set_inbound_rules(peers, rule)),
                        ..self
                    },
                    Ok(()),
                )
            },
        }
    }

    /// The system after the inbound rule of each of `peers` is removed.
    pub open spec fn remove_firewall_rules(self, peers: Seq<Seq<u8>>) -> (Self, Result<(), Error>) {
        match self.network {
            None => (self, Err(Error::ActorNotSpawned)),
            Some(firewall) => (
                RegistryView { network: Some(firewall.remove_inbound_rules(peers)), ..self },
                Ok(()),
            ),
        }
    }

    /// Whether an inbound request of `peer` is served: the firewall
    /// allows it, or leaves it to the application, which approves.
    pub open spec fn admits(self, peer: Seq<u8>, request: ShRequest, approved: bool) -> bool {
        match self.network->0.verdict(peer, RuleDirection::Inbound, request.spec_kind()) {
            Verdict::Allow => true,
            Verdict::Reject => false,
            Verdict::Ask => approved,
        }
    }

    /// Whether `(after, answer)` is a possible outcome of serving
    /// `request` at time `now`: the request is run on the target exactly
    /// as the call of the facade that it mirrors.
    pub open spec fn serves(self, request: ShRequest, now: u64, after: Self, answer: ShResultView) -> bool
        recommends
            self.has_current(),
    {
        exists|client: ClientView|
            #![trigger self.current().answers(request, now, client, answer)]
            self.current().answers(request, now, client, answer) && after == self.with_current(
                client,
            )
    }

    /// Whether `(after, answer)` is a possible outcome of the inbound
    /// `request` of `peer`.
    ///
    /// The firewall comes first: without a network worker there is no
    /// one to judge the request, and a request that the firewall does
    /// not admit is answered with a rejection and changes nothing,
    /// whether or not there is a target. An admitted request needs a
    /// target, and is served by it.
    pub open spec fn handles(
        self,
        peer: Seq<u8>,
        request: ShRequest,
        approved: bool,
        now: u64,
        after: Self,
        answer: Result<ShResultView, Error>,
    ) -> bool {
        if self.network is None {
            after == self && answer == Err::<ShResultView, Error>(Error::ActorNotSpawned)
        } else if !self.admits(peer, request, approved) {
            after == self && answer == Ok::<ShResultView, Error>(ShResultView::Rejected)
        } else if !self.has_current() {
            after == self && answer == Err::<ShResultView, Error>(Error::ActorNotSpawned)
        } else {
            answer matches Ok(served) && self.serves(request, now, after, served)
        }
    }
}

/// The view of an answer inside a result.
pub open spec fn answer_view(answer: Result<ShResult, Error>) -> Result<ShResultView, Error> {
    match answer {
        Ok(a) => Ok(a@),
        Err(e) => Err(e),
    }
}

/// The view of the result of a procedure inside a result.
pub open spec fn exec_view(result: Result<ProcResult, Error>) -> Result<ProcResultView, Error> {
    match result {
        Ok(r) => Ok(r@),
        Err(e) => Err(e),
    }
}

/// The message that a call hands to the network worker: `msg`, or the
/// failure to find that worker.
pub open spec fn routed<T>(system: RegistryView, msg: T) -> Result<T, Error> {
    if system.network is Some {
        Ok(msg)
    } else {
        Err(Error::ActorNotSpawned)
    }
}

/// The view of an optional byte string inside a result.
pub open spec fn bytes_result_view<E>(result: Result<Option<Vec<u8>>, Error<E>>) -> Result<
    Option<Seq<u8>>,
    Error<E>,
> {
    match result {
        Ok(bytes) => Ok(bytes_view(bytes)),
        Err(e) => Err(e),
    }
}

/// The view of a listing inside a result.
pub open spec fn listing_result_view(
    result: Result<Vec<(RecordId, RecordHint)>, Error<VaultDoesNotExist>>,
) -> Result<Seq<(Seq<u8>, Seq<u8>)>, Error<VaultDoesNotExist>> {
    match result {
        Ok(list) => Ok(crate::vault::listing_view(list@)),
        Err(e) => Err(e),
    }
}

/// The view of a count inside a result.
pub open spec fn count_result_view(result: Result<usize, Error>) -> Result<nat, Error> {
    match result {
        Ok(count) => Ok(count as nat),
        Err(e) => Err(e),
    }
}

/// The entry point of the system.
pub struct Stronghold {
    registry: Registry,
}

impl View for Stronghold {
    type V = RegistryView;

    closed spec fn view(&self) -> RegistryView {
        self.registry@
    }
}

impl Stronghold {
    /// A new system whose first client is the one that `client_path`
    /// names; that client is the target.
    pub fn init_stronghold_system(client_path: Vec<u8>, _options: Vec<StrongholdFlags>) -> (system: Result<
        Self,
        MailboxError,
    >)
        ensures
            system is Ok,
            system->Ok_0@ == RegistryView::empty().spawn_actor(client_id_of(client_path@)),
    {
        let mut stronghold = Stronghold { registry: Registry::new() };
        match stronghold.spawn_stronghold_actor(client_path, _options) {
            Ok(()) => Ok(stronghold),
            Err(e) => Err(e),
        }
    }

    /// Spawns the client that `client_path` names, unless it exists
    /// already, and makes it the target.
    pub fn spawn_stronghold_actor(&mut self, client_path: Vec<u8>, _options: Vec<StrongholdFlags>) -> (done:
        Result<(), MailboxError>)
        ensures
            done is Ok,
            final(self)@ == old(self)@.spawn_actor(client_id_of(client_path@)),
    {
        let client_id = ClientId::from_path(client_path.as_slice());
        self.registry.spawn_client(client_id);
        self.registry.switch_target(client_id);
        Ok(())
    }

    /// Makes the client that `client_path` names the target.
    ///
    /// Fails, and leaves the target as it was, exactly where that client
    /// has not been spawned.
    pub fn switch_actor_target(&mut self, client_path: Vec<u8>) -> (done: Result<(), Error>)
        ensures
            final(self)@ == old(self)@.switch_target(client_id_of(client_path@)),
            done == (if old(self)@.is_spawned(client_id_of(client_path@)) {
                Ok::<(), Error>(())
            } else {
                Err::<(), Error>(Error::ActorNotSpawned)
            }),
    {
        let client_id = ClientId::from_path(client_path.as_slice());
        if self.registry.switch_target(client_id) {
            Ok(())
        } else {
            Err(Error::ActorNotSpawned)
        }
    }

    /// Writes `payload` and `hint` to the record at `location` of the
    /// target, creating the vault if it is absent.
    pub fn write_to_vault(
        &mut self,
        location: Location,
        payload: Vec<u8>,
        hint: RecordHint,
        _options: Vec<VaultFlags>,
    ) -> (done: Result<(), Error<VaultError>>)
        ensures
            (final(self)@, done) == old(self)@.write_to_vault(
                location.vault(),
                location.record(),
                payload@,
                hint@,
            ),
    {
        match self.registry.get_target_mut() {
            Some(target) => {
                let vault_exists = target.check_vault(location.vault_path());
                if !vault_exists {
                    target.create_vault(&location);
                }
                match target.write_to_vault(&location, payload, hint) {
                    Ok(()) => Ok(()),
                    Err(e) => Err(Error::Inner(e)),
                }
            },
            None => Err(Error::ActorNotSpawned),
        }
    }

    /// Writes `payload` under `key` in the store of the target, at time
    /// `now`, to stay readable for `lifetime` ticks (or until deleted).
    /// Returns the value that was readable under `key` just before.
    pub fn write_to_store(
        &mut self,
        key: Vec<u8>,
        payload: Vec<u8>,
        lifetime: Option<u64>,
        now: u64,
    ) -> (previous: Result<Option<Vec<u8>>, Error>)
        ensures
            (final(self)@, bytes_result_view(previous)) == old(self)@.write_to_store(
                key@,
                payload@,
                lifetime,
                now,
            ),
    {
        match self.registry.get_target_mut() {
            Some(target) => Ok(target.write_to_store(key, payload, lifetime, now)),
            None => Err(Error::ActorNotSpawned),
        }
    }

    /// The value readable under `key` in the store of the target at time `now`.
    pub fn read_from_store(&self, key: Vec<u8>, now: u64) -> (value: Result<Option<Vec<u8>>, Error>)
        ensures
            bytes_result_view(value) == self@.read_from_store(key@, now),
    {
        match self.registry.get_target() {
            Some(target) => Ok(target.read_from_store(key.as_slice(), now)),
            None => Err(Error::ActorNotSpawned),
        }
    }

    /// Deletes `key` from the store of the target.
    pub fn delete_from_store(&mut self, key: Vec<u8>) -> (done: Result<(), Error>)
        ensures
            (final(self)@, done) == old(self)@.delete_from_store(key@),
    {
        match self.registry.get_target_mut() {
            Some(target) => {
                target.delete_from_store(key.as_slice());
                Ok(())
            },
            None => Err(Error::ActorNotSpawned),
        }
    }

    /// Revokes the record at `location` of the target. The record can no
    /// longer be read, but stays stored until its vault is garbage
    /// collected, which this call does as well where `should_gc` is set.
    pub fn delete_data(&mut self, location: Location, should_gc: bool) -> (done: Result<
        (),
        Error<VaultError>,
    >)
        ensures
            (final(self)@, done) == old(self)@.delete_data(
                location.vault(),
                location.record(),
                should_gc,
            ),
    {
        match self.registry.get_target_mut() {
            Some(target) => {
                match target.revoke_data(&location) {
                    Ok(()) => {},
                    Err(e) => {
                        return Err(Error::Inner(e));
                    },
                }
                if should_gc {
                    match target.garbage_collect(location.vault_path()) {
                        Ok(()) => {},
                        Err(e) => {
                            return Err(Error::Inner(VaultError::from(e)));
                        },
                    }
                }
                Ok(())
            },
            None => Err(Error::ActorNotSpawned),
        }
    }

    /// Drops the revoked records of the vault at `vault_path` of the target.
    pub fn garbage_collect(&mut self, vault_path: Vec<u8>) -> (done: Result<
        (),
        Error<VaultDoesNotExist>,
    >)
        ensures
            (final(self)@, done) == old(self)@.garbage_collect(vault_path@),
    {
        match self.registry.get_target_mut() {
            Some(target) => {
                match target.garbage_collect(vault_path.as_slice()) {
                    Ok(()) => Ok(()),
                    Err(e) => Err(Error::Inner(e)),
                }
            },
            None => Err(Error::ActorNotSpawned),
        }
    }

    /// The identifier and hint of each live record in the vault at
    /// `vault_path` of the target, oldest first.
    pub fn list_hints_and_ids(&self, vault_path: Vec<u8>) -> (list: Result<
        Vec<(RecordId, RecordHint)>,
        Error<VaultDoesNotExist>,
    >)
        ensures
            listing_result_view(list) == self@.list_hints_and_ids(vault_path@),
    {
        match self.registry.get_target() {
            Some(target) => {
                match target.list_ids(vault_path.as_slice()) {
                    Ok(list) => Ok(list),
                    Err(e) => Err(Error::Inner(e)),
                }
            },
            None => Err(Error::ActorNotSpawned),
        }
    }

    /// Whether the target has a readable record at `location`.
    pub fn record_exists(&self, location: Location) -> (exists: Result<bool, Error>)
        ensures
            exists == self@.record_exists(location.vault(), location.record()),
    {
        match self.registry.get_target() {
            Some(target) => Ok(target.check_record(&location)),
            None => Err(Error::ActorNotSpawned),
        }
    }

    /// Whether the target has a vault at `vault_path`.
    pub fn vault_exists(&self, vault_path: Vec<u8>) -> (exists: Result<bool, Error>)
        ensures
            exists == self@.vault_exists(vault_path@),
    {
        match self.registry.get_target() {
            Some(target) => Ok(target.check_vault(vault_path.as_slice())),
            None => Err(Error::ActorNotSpawned),
        }
    }

    /// The number of records stored in the vault at `vault_path` of the
    /// target, revoked ones included. The vault is valid: its order
    /// lists each stored record once.
    pub fn stored_records(&self, vault_path: Vec<u8>) -> (count: Result<usize, Error>)
        ensures
            count_result_view(count) == self@.stored_records(vault_path@),
            self@.has_current() && self@.current().vault_exists(vault_path@)
                ==> self@.current().vaults[vault_path@].valid(),
    {
        match self.registry.get_target() {
            Some(target) => Ok(target.stored_records(vault_path.as_slice())),
            None => Err(Error::ActorNotSpawned),
        }
    }

    /// The payload readable at `location` of the target.
    pub fn read_secret(&self, _client_path: Vec<u8>, location: Location) -> (secret: Result<
        Option<Vec<u8>>,
        Error,
    >)
        ensures
            bytes_result_view(secret) == self@.read_secret(location.vault(), location.record()),
    {
        match self.registry.get_target() {
            Some(target) => Ok(target.read_from_vault(&location)),
            None => Err(Error::ActorNotSpawned),
        }
    }

    /// Whether there is a worker to receive a snapshot: the client that
    /// `former_client_path` names, where one is given, or else the target.
    pub fn check_snapshot_worker(&self, former_client_path: &Option<Vec<u8>>) -> (found: Result<
        (),
        Error,
    >)
        ensures
            found == (if self@.has_snapshot_worker(optional_id(*former_client_path)) {
                Ok::<(), Error>(())
            } else {
                Err::<(), Error>(Error::ActorNotSpawned)
            }),
    {
        let found = match former_client_path {
            Some(former) => {
                let former_id = ClientId::from_path(former.as_slice());
                self.registry.get_client(&former_id).is_some()
            },
            None => self.registry.get_target().is_some(),
        };
        if found {
            Ok(())
        } else {
            Err(Error::ActorNotSpawned)
        }
    }

    /// Reads the state of the client that `client_path` names from the
    /// bytes `file` of a snapshot and installs it in a worker: the one
    /// that `former_client_path` names, which then becomes the target,
    /// or the current target.
    ///
    /// A read that fails changes nothing: the target is switched only
    /// once the state has been read. `keydata` is scrubbed on every path.
    pub fn read_snapshot(
        &mut self,
        client_path: Vec<u8>,
        former_client_path: Option<Vec<u8>>,
        keydata: &mut Vec<u8>,
        file: &[u8],
    ) -> (done: Result<(), Error<ReadSnapshotError>>)
        ensures
            final(keydata)@ == Seq::<u8>::empty(),
            (final(self)@, done) == old(self)@.read_snapshot(
                client_id_of(client_path@),
                optional_id(former_client_path),
                old(keydata)@,
                file@,
            ),
    {
        let key = take_key(keydata);
        let client_id = ClientId::from_path(client_path.as_slice());
        match self.check_snapshot_worker(&former_client_path) {
            Ok(()) => {},
            Err(_) => {
                return Err(Error::ActorNotSpawned);
            },
        }
        let key = match key {
            Some(key) => key,
            None => {
                return Err(Error::Inner(ReadSnapshotError::InvalidKey));
            },
        };
        let snapshot = match Snapshot::read(file, &key) {
            Ok(snapshot) => snapshot,
            Err(e) => {
                return Err(Error::Inner(e));
            },
        };
        let data = match snapshot.get_state(&client_id) {
            Some(data) => data,
            None => {
                return Err(Error::Inner(ReadSnapshotError::ClientNotFound));
            },
        };
        match former_client_path {
            Some(former) => {
                let former_id = ClientId::from_path(former.as_slice());
                let installed = match self.registry.get_client_mut(&former_id) {
                    Some(worker) => worker.reload_data(data.as_slice(), client_id),
                    None => false,
                };
                if !installed {
                    assert(self@ =~= old(self)@);
                    return Err(Error::Inner(ReadSnapshotError::CorruptedContent));
                }
                self.registry.switch_target(former_id);
                assert(self@ =~= old(self)@.read_snapshot(
                    client_id_of(client_path@),
                    optional_id(former_client_path),
                    old(keydata)@,
                    file@,
                ).0);
                Ok(())
            },
            None => {
                let installed = match self.registry.get_target_mut() {
                    Some(worker) => worker.reload_data(data.as_slice(), client_id),
                    None => false,
                };
                if !installed {
                    assert(self@ =~= old(self)@);
                    return Err(Error::Inner(ReadSnapshotError::CorruptedContent));
                }
                Ok(())
            },
        }
    }

    /// The bytes of a snapshot file that holds the state of all clients,
    /// sealed under the key in `keydata`. Writing them to a file is left
    /// to the caller.
    ///
    /// `keydata` is scrubbed on every path. A key that is not 32 bytes
    /// long is refused. Otherwise whatever is returned reads back, under
    /// the same key, as a snapshot of exactly the clients of the system;
    /// sealing draws on randomness and may fail.
    pub fn write_all_to_snapshot(&mut self, keydata: &mut Vec<u8>) -> (file: Result<
        Vec<u8>,
        Error<WriteSnapshotError>,
    >)
        ensures
            final(keydata)@ == Seq::<u8>::empty(),
            final(self)@ == old(self)@,
            old(keydata)@.len() != KEY_SIZE ==> file == Err::<Vec<u8>, _>(
                Error::Inner(WriteSnapshotError::InvalidKey),
            ),
            old(keydata)@.len() == KEY_SIZE ==> match file {
                Ok(f) => is_snapshot_of(f@, old(keydata)@, old(self)@),
                Err(e) => e matches Error::Inner(inner) && inner != WriteSnapshotError::InvalidKey,
            },
            old(keydata)@.len() == KEY_SIZE ==> exists|
                states: Map<Seq<u8>, Seq<u8>>,
                plain: Seq<u8>,
                packed: Seq<u8>,
                sealed: Option<Seq<u8>>,
            |
                #![trigger holds_states(states, old(self)@), framed(plain, packed, sealed, old(keydata)@)]
                holds_states(states, old(self)@) && decoded_states(plain) == Some(states)
                    && written(framed(plain, packed, sealed, old(keydata)@)) == written_view(file),
    {
        let key = match take_key(keydata) {
            Some(key) => key,
            None => {
                return Err(Error::Inner(WriteSnapshotError::InvalidKey));
            },
        };
        let snapshot = self.registry.gather();
        let written = snapshot.write(&key);
        proof {
            let (plain, packed, sealed) = choose|
                plain: Seq<u8>,
                packed: Seq<u8>,
                sealed: Option<Seq<u8>>,
            |
                decoded_states(plain) == Some(snapshot@) && #[trigger] framed(
                    plain,
                    packed,
                    sealed,
                    key@,
                ) == file_view(written);
            assert(holds_states(snapshot@, old(self)@) && decoded_states(plain) == Some(snapshot@)
                && self::written(framed(plain, packed, sealed, old(keydata)@)) == written_view(
                match written {
                    Ok(file) => Ok(file),
                    Err(e) => Err(Error::Inner(e)),
                },
            ));
        }
        match written {
            Ok(file) => Ok(file),
            Err(e) => Err(Error::Inner(e)),
        }
    }

    /// Runs `control_request` on the secrets of the target. A failure of
    /// the procedure comes back as [`ProcResult::Error`].
    pub fn runtime_exec(&mut self, control_request: Procedure) -> (result: Result<ProcResult, Error>)
        ensures
            old(self)@.executes(control_request, final(self)@, exec_view(result)),
    {
        match self.registry.get_target_mut() {
            Some(target) => {
                let ghost before = target@;
                let outcome = target.call_procedure(control_request);
                let ghost after = target@;
                let result = match outcome {
                    Ok(result) => result,
                    Err(e) => ProcResult::Error(e),
                };
                proof {
                    assert(before.runs(control_request, after, proc_view(outcome)));
                    assert(result@ == folded(proc_view(outcome)));
                }
                Ok(result)
            },
            None => Err(Error::ActorNotSpawned),
        }
    }

    /// Spawns the network worker, with `firewall_rule` as the default
    /// rule for inbound requests. Returns `false`, and changes nothing,
    /// where there is a network worker already.
    pub fn spawn_p2p(&mut self, firewall_rule: Rule) -> (spawned: Result<bool, Error>)
        ensures
            spawned == Ok::<bool, Error>(old(self)@.network is None),
            final(self)@ == old(self)@.spawn_p2p(firewall_rule),
    {
        if self.registry.get_network().is_some() {
            return Ok(false);
        }
        self.registry.insert_network(NetworkActor::new(firewall_rule));
        Ok(true)
    }

    /// Stops the network worker. Returns `false` where there was none.
    pub fn stop_p2p(&mut self) -> (stopped: Result<bool, MailboxError>)
        ensures
            stopped is Ok,
            stopped->Ok_0 == old(self)@.network is Some,
            final(self)@ == old(self)@.stop_p2p(),
    {
        Ok(self.registry.stop_network())
    }

    /// The message that starts listening on `address`, or on an address
    /// of the system's choice.
    pub fn start_listening(&self, address: Option<Multiaddr>) -> (msg: Result<NetworkMsg, Error>)
        ensures
            msg == routed(self@, NetworkMsg::StartListening { address }),
    {
        if self.registry.get_network().is_none() {
            return Err(Error::ActorNotSpawned);
        }
        Ok(NetworkMsg::StartListening { address })
    }

    /// The message that stops listening.
    pub fn stop_listening(&self) -> (msg: Result<NetworkMsg, Error>)
        ensures
            msg == routed(self@, NetworkMsg::StopListening),
    {
        if self.registry.get_network().is_none() {
            return Err(Error::ActorNotSpawned);
        }
        Ok(NetworkMsg::StopListening)
    }

    /// The message that asks for the identity, the addresses and the
    /// connections of the local peer.
    pub fn get_swarm_info(&self) -> (msg: Result<NetworkMsg, Error>)
        ensures
            msg == routed(self@, NetworkMsg::GetSwarmInfo),
    {
        if self.registry.get_network().is_none() {
            return Err(Error::ActorNotSpawned);
        }
        Ok(NetworkMsg::GetSwarmInfo)
    }

    /// The messages that add `peer`: its address is recorded first,
    /// where one is given; then the peer is connected to directly.
    pub fn add_peer(&self, peer: PeerId, address: Option<Multiaddr>) -> (msgs: Result<
        Vec<NetworkMsg>,
        Error,
    >)
        ensures
            msgs is Ok <==> self@.network is Some,
            msgs is Err ==> msgs == Err::<Vec<NetworkMsg>, Error>(Error::ActorNotSpawned),
            msgs matches Ok(list) ==> match address {
                Some(a) => {
                    &&& list@.len() == 2
                    &&& list@[0] matches NetworkMsg::AddPeerAddr { peer: p, address: b }
                    &&& p@ == peer@
                    &&& b == a
                    &&& list@[1] == (NetworkMsg::ConnectPeer { peer })
                },
                None => list@ == seq![NetworkMsg::ConnectPeer { peer }],
            },
    {
        if self.registry.get_network().is_none() {
            return Err(Error::ActorNotSpawned);
        }
        let mut msgs: Vec<NetworkMsg> = Vec::new();
        match address {
            Some(address) => {
                msgs.push(NetworkMsg::AddPeerAddr { peer: peer.duplicate(), address });
            },
            None => {},
        }
        msgs.push(NetworkMsg::ConnectPeer { peer });
        proof {
            if address is None {
                assert(msgs@ =~= seq![NetworkMsg::ConnectPeer { peer }]);
            }
        }
        Ok(msgs)
    }

    /// The message that adds `relay` to the relays that are tried where
    /// a peer cannot be reached directly.
    pub fn add_dialing_relay(&self, relay: PeerId, relay_addr: Option<Multiaddr>) -> (msg: Result<
        NetworkMsg,
        Error,
    >)
        ensures
            msg == routed(self@, NetworkMsg::AddDialingRelay { relay, relay_addr }),
    {
        if self.registry.get_network().is_none() {
            return Err(Error::ActorNotSpawned);
        }
        Ok(NetworkMsg::AddDialingRelay { relay, relay_addr })
    }

    /// The message that starts listening through `relay`.
    pub fn start_relayed_listening(&self, relay: PeerId, relay_addr: Option<Multiaddr>) -> (msg: Result<
        NetworkMsg,
        Error,
    >)
        ensures
            msg == routed(self@, NetworkMsg::StartListeningRelay { relay, relay_addr }),
    {
        if self.registry.get_network().is_none() {
            return Err(Error::ActorNotSpawned);
        }
        Ok(NetworkMsg::StartListeningRelay { relay, relay_addr })
    }

    /// The message that stops listening through `relay`.
    pub fn remove_listening_relay(&self, relay: PeerId) -> (msg: Result<NetworkMsg, Error>)
        ensures
            msg == routed(self@, NetworkMsg::StopListeningRelay { relay }),
    {
        if self.registry.get_network().is_none() {
            return Err(Error::ActorNotSpawned);
        }
        Ok(NetworkMsg::StopListeningRelay { relay })
    }

    /// The message that removes `relay` from the relays used for dialing.
    pub fn remove_dialing_relay(&self, relay: PeerId) -> (msg: Result<NetworkMsg, Error>)
        ensures
            msg == routed(self@, NetworkMsg::RemoveDialingRelay { relay }),
    {
        if self.registry.get_network().is_none() {
            return Err(Error::ActorNotSpawned);
        }
        Ok(NetworkMsg::RemoveDialingRelay { relay })
    }

    /// Makes `rule` the rule for the inbound requests of each of `peers`
    /// and, where `set_default` is set, of every peer without a rule of
    /// its own.
    pub fn set_firewall_rule(&mut self, rule: Rule, peers: Vec<PeerId>, set_default: bool) -> (done:
        Result<(), Error>)
        ensures
            (final(self)@, done) == old(self)@.set_firewall_rule(
                rule,
                peer_views(peers@),
                set_default,
            ),
    {
        match self.registry.get_network_mut() {
            Some(actor) => {
                let firewall = actor.firewall_mut();
                if set_default {
                    firewall.set_default(RuleDirection::Inbound, Some(rule));
                }
                let ghost start = firewall@;
                let mut i: usize = 0;
                proof {
                    assert(peer_views(peers@).take(0) =~= Seq::<Seq<u8>>::empty());
                }
                while i < peers.len()
                    invariant
                        i <= peers@.len(),
                        firewall@ == start.set_inbound_rules(peer_views(peers@).take(i as int), rule),
                    decreases peers@.len() - i,
                {
                    firewall.set_rule(&peers[i], RuleDirection::Inbound, Some(rule));
                    proof {
                        let done = peer_views(peers@).take(i + 1);
                        assert(done.drop_last() =~= peer_views(peers@).take(i as int));
                        assert(done.last() == peers@[i as int]@);
                    }
                    i += 1;
                }
                proof {
                    assert(peer_views(peers@).take(peers@.len() as int) =~= peer_views(peers@));
                }
                Ok(())
            },
            None => Err(Error::ActorNotSpawned),
        }
    }

    /// Removes the rule for the inbound requests of each of `peers`. The
    /// default rule is untouched.
    pub fn remove_firewall_rules(&mut self, peers: Vec<PeerId>) -> (done: Result<(), Error>)
        ensures
            (final(self)@, done) == old(self)@.remove_firewall_rules(peer_views(peers@)),
    {
        match self.registry.get_network_mut() {
            Some(actor) => {
                let firewall = actor.firewall_mut();
                let ghost start = firewall@;
                let mut i: usize = 0;
                proof {
                    assert(peer_views(peers@).take(0) =~= Seq::<Seq<u8>>::empty());
                }
                while i < peers.len()
                    invariant
                        i <= peers@.len(),
                        firewall@ == start.remove_inbound_rules(peer_views(peers@).take(i as int)),
                    decreases peers@.len() - i,
                {
                    firewall.remove_rule(&peers[i], RuleDirection::Inbound);
                    proof {
                        let done = peer_views(peers@).take(i + 1);
                        assert(done.drop_last() =~= peer_views(peers@).take(i as int));
                        assert(done.last() == peers@[i as int]@);
                    }
                    i += 1;
                }
                proof {
                    assert(peer_views(peers@).take(peers@.len() as int) =~= peer_views(peers@));
                }
                Ok(())
            },
            None => Err(Error::ActorNotSpawned),
        }
    }

    /// Begins a write of `payload` and `hint` to `location` at `peer`:
    /// the exchange, and the first message to send.
    pub fn write_remote_vault(
        &self,
        peer: PeerId,
        location: Location,
        payload: Vec<u8>,
        hint: RecordHint,
        _options: Vec<VaultFlags>,
    ) -> (started: Result<(RemoteVaultWrite, NetworkMsg), Error>)
        ensures
            started is Ok <==> self@.network is Some,
            started is Err ==> started == Err::<(RemoteVaultWrite, NetworkMsg), Error>(
                Error::ActorNotSpawned,
            ),
            started matches Ok(s) ==> s.0@ == (crate::remote::RemoteVaultWriteView {
                peer: peer@,
                vault_path: location.vault(),
                record_path: location.record(),
                payload: payload@,
                hint: hint@,
                stage: crate::remote::WriteStage::Checking,
            }) && s.0@.sends(crate::remote::WriteStage::Checking, s.1),
    {
        if self.registry.get_network().is_none() {
            return Err(Error::ActorNotSpawned);
        }
        Ok(RemoteVaultWrite::begin(peer, location, payload, hint))
    }

    /// The message that writes `payload` under `key` to the store of the
    /// target of `peer`.
    pub fn write_to_remote_store(
        &self,
        peer: PeerId,
        key: Vec<u8>,
        payload: Vec<u8>,
        lifetime: Option<u64>,
    ) -> (msg: Result<NetworkMsg, Error>)
        ensures
            msg == routed(
                self@,
                NetworkMsg::SendRequest {
                    peer,
                    request: ShRequest::WriteToStore { key, payload, lifetime },
                },
            ),
    {
        if self.registry.get_network().is_none() {
            return Err(Error::ActorNotSpawned);
        }
        Ok(
            NetworkMsg::SendRequest {
                peer,
                request: ShRequest::WriteToStore { key, payload, lifetime },
            },
        )
    }

    /// The message that reads `key` from the store of the target of `peer`.
    pub fn read_from_remote_store(&self, peer: PeerId, key: Vec<u8>) -> (msg: Result<
        NetworkMsg,
        Error,
    >)
        ensures
            msg == routed(
                self@,
                NetworkMsg::SendRequest { peer, request: ShRequest::ReadFromStore { key } },
            ),
    {
        if self.registry.get_network().is_none() {
            return Err(Error::ActorNotSpawned);
        }
        Ok(NetworkMsg::SendRequest { peer, request: ShRequest::ReadFromStore { key } })
    }

    /// The message that lists the vault at `vault_path` of the target of `peer`.
    pub fn list_remote_hints_and_ids(&self, peer: PeerId, vault_path: Vec<u8>) -> (msg: Result<
        NetworkMsg,
        Error,
    >)
        ensures
            msg == routed(
                self@,
                NetworkMsg::SendRequest { peer, request: ShRequest::ListIds { vault_path } },
            ),
    {
        if self.registry.get_network().is_none() {
            return Err(Error::ActorNotSpawned);
        }
        Ok(NetworkMsg::SendRequest { peer, request: ShRequest::ListIds { vault_path } })
    }

    /// The message that runs `control_request` on the target of `peer`.
    pub fn remote_runtime_exec(&self, peer: PeerId, control_request: Procedure) -> (msg: Result<
        NetworkMsg,
        Error,
    >)
        ensures
            msg == routed(
                self@,
                NetworkMsg::SendRequest {
                    peer,
                    request: ShRequest::CallProcedure { proc: control_request },
                },
            ),
    {
        if self.registry.get_network().is_none() {
            return Err(Error::ActorNotSpawned);
        }
        Ok(
            NetworkMsg::SendRequest {
                peer,
                request: ShRequest::CallProcedure { proc: control_request },
            },
        )
    }

    /// What the firewall says of an inbound request of kind `request` of `peer`.
    pub fn inbound_verdict(&self, peer: &PeerId, request: &ShRequest) -> (verdict: Result<
        Verdict,
        Error,
    >)
        ensures
            verdict == (match self@.network {
                Some(firewall) => Ok::<Verdict, Error>(
                    firewall.verdict(peer@, RuleDirection::Inbound, request.spec_kind()),
                ),
                None => Err::<Verdict, Error>(Error::ActorNotSpawned),
            }),
    {
        match self.registry.get_network() {
            Some(actor) => Ok(
                actor.firewall().verdict(peer, RuleDirection::Inbound, request.kind()),
            ),
            None => Err(Error::ActorNotSpawned),
        }
    }

    /// Answers the inbound `request` of `peer` at time `now`.
    ///
    /// The firewall decides first, before the target is looked for;
    /// `approved` is the answer of the application, which counts only
    /// where the firewall asks for it. An admitted request is run on
    /// the target exactly as the call of the facade that it mirrors.
    pub fn handle_request(&mut self, peer: &PeerId, request: ShRequest, approved: bool, now: u64) -> (answer:
        Result<ShResult, Error>)
        ensures
            old(self)@.handles(peer@, request, approved, now, final(self)@, answer_view(answer)),
    {
        let verdict = match self.inbound_verdict(peer, &request) {
            Ok(verdict) => verdict,
            Err(e) => {
                return Err(Error::ActorNotSpawned);
            },
        };
        let admitted = match verdict {
            Verdict::Allow => true,
            Verdict::Reject => false,
            Verdict::Ask => approved,
        };
        if !admitted {
            return Ok(ShResult::Rejected);
        }
        match self.registry.get_target_mut() {
            Some(target) => {
                let ghost before = target@;
                let answer = answer_request(target, request, now);
                proof {
                    assert(before.answers(request, now, target@, answer@));
                }
                Ok(answer)
            },
            None => Err(Error::ActorNotSpawned),
        }
    }

    /// Removes the client that `client_path` names from the system
    /// (`kill_actor`), or only clears its cache, which leaves its vaults
    /// and its store as they are.
    ///
    /// Fails, and changes nothing, exactly where that client has not been
    /// spawned. Removing the target leaves the system without a usable
    /// target until another one is chosen.
    pub fn kill_stronghold(&mut self, client_path: Vec<u8>, kill_actor: bool) -> (done: Result<(), Error>)
        ensures
            (final(self)@, done) == old(self)@.kill(client_id_of(client_path@), kill_actor),
    {
        let client_id = ClientId::from_path(client_path.as_slice());
        if kill_actor {
            match self.registry.remove_client(&client_id) {
                Some(client) => {
                    let mut client = client;
                    client.clear_cache();
                    Ok(())
                },
                None => Err(Error::ActorNotSpawned),
            }
        } else {
            match self.registry.get_client_mut(&client_id) {
                Some(client) => {
                    client.clear_cache();
                    Ok(())
                },
                None => Err(Error::ActorNotSpawned),
            }
        }
    }
}

} // verus!
