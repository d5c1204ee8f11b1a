//! The registry: the directory of clients and the current target.

use vstd::prelude::*;
use crate::bytes::copy_bytes;
use crate::codec::contents;
use crate::firewall::FirewallView;
use crate::identity::ClientId;
use crate::keymap::KeyMap;
use crate::network::NetworkActor;
use crate::secure::{decoded_state, ClientView, SecureClient};
use crate::snapshot::Snapshot;

verus! {

/// The state of a registry: its clients by identity, the identity that
/// calls without an explicit client are aimed at, and the firewall of
/// the network worker, where one has been spawned.
#[verifier::ext_equal]
pub struct RegistryView {
    pub clients: Map<Seq<u8>, ClientView>,
    pub target: Option<Seq<u8>>,
    pub network: Option<FirewallView>,
}

impl RegistryView {
    /// The registry without clients and without a target.
    pub open spec fn empty() -> Self {
        RegistryView { clients: Map::empty(), target: None, network: None }
    }

    /// Whether a client with the identity `id` is registered.
    pub open spec fn is_spawned(self, id: Seq<u8>) -> bool {
        self.clients.contains_key(id)
    }

    /// The registry after a client with the identity `id` is spawned; a
    /// client that is already registered stays as it is.
    pub open spec fn spawn(self, id: Seq<u8>) -> Self {
        if self.is_spawned(id) {
            self
        } else {
            RegistryView { clients: self.clients.insert(id, ClientView::empty(id)), ..self }
        }
    }

    /// The registry after an attempt to aim at `id`: the target changes
    /// only where `id` is registered.
    pub open spec fn switch_target(self, id: Seq<u8>) -> Self {
        if self.is_spawned(id) {
            RegistryView { target: Some(id), ..self }
        } else {
            self
        }
    }

    /// Whether the target is set and names a registered client.
    pub open spec fn has_current(self) -> bool {
        self.target matches Some(id) && self.is_spawned(id)
    }

    /// The client that the target names. Meaningful where [`Self::has_current`].
    pub open spec fn current(self) -> ClientView {
        self.clients[self.target->0]
    }

    /// The registry with the client that the target names replaced by `client`.
    pub open spec fn with_current(self, client: ClientView) -> Self {
        RegistryView { clients: self.clients.insert(self.target->0, client), ..self }
    }

    /// The registry with the client registered under `id` replaced by `client`.
    pub open spec fn with_client(self, id: Seq<u8>, client: ClientView) -> Self {
        RegistryView { clients: self.clients.insert(id, client), ..self }
    }

    /// The registry after the client registered under `id` is removed.
    /// The target is left as it is, even where it named that client.
    pub open spec fn remove(self, id: Seq<u8>) -> Self {
        RegistryView { clients: self.clients.remove(id), ..self }
    }
}

/// Whether `states` hold, for exactly the clients of `registry`, bytes
/// that stand for the vaults and the store of each.
pub open spec fn holds_states(states: Map<Seq<u8>, Seq<u8>>, registry: RegistryView) -> bool {
    &&& forall|id: Seq<u8>| states.contains_key(id) <==> #[trigger] registry.clients.contains_key(id)
    &&& forall|id: Seq<u8>| #[trigger]
        registry.clients.contains_key(id) ==> decoded_state(states[id]) == Some(
            (registry.clients[id].vaults, registry.clients[id].store),
        )
}

/// The views of a directory of clients.
pub open spec fn client_views(clients: Map<Seq<u8>, SecureClient>) -> Map<Seq<u8>, ClientView> {
    clients.map_values(|c: SecureClient| c@)
}

/// The directory of clients.
pub struct Registry {
    clients: KeyMap<SecureClient>,
    current_target: Option<ClientId>,
    network: Option<NetworkActor>,
}

impl View for Registry {
    type V = RegistryView;

    closed spec fn view(&self) -> RegistryView {
        RegistryView {
            clients: client_views(self.clients@),
            target: match self.current_target {
                Some(id) => Some(id@),
                None => None,
            },
            network: match self.network {
                Some(actor) => Some(actor@),
                None => None,
            },
        }
    }
}

impl Registry {
    /// A registry without clients and without a target.
    pub fn new() -> (registry: Self)
        ensures
            registry@ == RegistryView::empty(),
    {
        let registry = Registry { clients: KeyMap::new(), current_target: None, network: None };
        assert(registry@.clients =~= Map::<Seq<u8>, ClientView>::empty());
        registry
    }

    /// Registers a fresh client under `id`, unless one is registered already.
    pub fn spawn_client(&mut self, id: ClientId)
        ensures
            final(self)@ == old(self)@.spawn(id@),
    {
        if !self.clients.contains_key(id.as_bytes()) {
            self.clients.insert(copy_bytes(id.as_bytes()), SecureClient::new(id));
            assert(self@.clients =~= old(self)@.spawn(id@).clients);
        }
    }

    /// Aims the registry at `id`. Returns whether `id` is registered; if it
    /// is not, the target stays as it was.
    pub fn switch_target(&mut self, id: ClientId) -> (switched: bool)
        ensures
            switched == old(self)@.is_spawned(id@),
            final(self)@ == old(self)@.switch_target(id@),
    {
        if self.clients.contains_key(id.as_bytes()) {
            self.current_target = Some(id);
            true
        } else {
            false
        }
    }

    /// The identity that the registry is aimed at, if any.
    pub fn target_id(&self) -> (id: Option<ClientId>)
        ensures
            id is Some <==> self@.target is Some,
            id matches Some(i) ==> self@.target == Some(i@),
    {
        self.current_target
    }

    /// The client that the target names.
    pub fn get_target(&self) -> (client: Option<&SecureClient>)
        ensures
            client is Some <==> self@.has_current(),
            client matches Some(c) ==> c@ == self@.current(),
    {
        match self.current_target {
            Some(id) => self.clients.get(id.as_bytes()),
            None => None,
        }
    }

    /// Mutable access to the client that the target names.
    pub fn get_target_mut(&mut self) -> (client: Option<&mut SecureClient>)
        ensures
            match client {
                Some(c) => {
                    &&& old(self)@.has_current()
                    &&& c@ == old(self)@.current()
                    &&& final(self)@ == old(self)@.with_current(final(c)@)
                },
                None => !old(self)@.has_current() && final(self)@ == old(self)@,
            },
    {
        match self.current_target {
            Some(id) => {
                proof {
                    assert forall|c: SecureClient| #[trigger]
                        client_views(self.clients@.insert(id@, c)) == self@.clients.insert(id@, c@) by {
                        assert(client_views(self.clients@.insert(id@, c)) =~= self@.clients.insert(
                            id@,
                            c@,
                        ));
                    }
                }
                self.clients.get_mut(id.as_bytes())
            },
            None => None,
        }
    }

    /// The client registered under `id`.
    pub fn get_client(&self, id: &ClientId) -> (client: Option<&SecureClient>)
        ensures
            client is Some <==> self@.is_spawned(id@),
            client matches Some(c) ==> c@ == self@.clients[id@],
    {
        self.clients.get(id.as_bytes())
    }

    /// Mutable access to the client registered under `id`.
    pub fn get_client_mut(&mut self, id: &ClientId) -> (client: Option<&mut SecureClient>)
        ensures
            match client {
                Some(c) => {
                    &&& old(self)@.is_spawned(id@)
                    &&& c@ == old(self)@.clients[id@]
                    &&& final(self)@ == old(self)@.with_client(id@, final(c)@)
                },
                None => !old(self)@.is_spawned(id@) && final(self)@ == old(self)@,
            },
    {
        proof {
            assert forall|c: SecureClient| #[trigger]
                client_views(self.clients@.insert(id@, c)) == self@.clients.insert(id@, c@) by {
                assert(client_views(self.clients@.insert(id@, c)) =~= self@.clients.insert(id@, c@));
            }
        }
        self.clients.get_mut(id.as_bytes())
    }

    /// Removes the client registered under `id` and returns it.
    pub fn remove_client(&mut self, id: &ClientId) -> (client: Option<SecureClient>)
        ensures
            client is Some <==> old(self)@.is_spawned(id@),
            client matches Some(c) ==> c@ == old(self)@.clients[id@],
            final(self)@ == old(self)@.remove(id@),
    {
        let removed = self.clients.remove(id.as_bytes());
        assert(self@.clients =~= old(self)@.remove(id@).clients);
        removed
    }

    /// The identities of all registered clients as bytes, each once.
    pub fn get_all_clients(&self) -> (ids: Vec<Vec<u8>>)
        ensures
            contents(ids@).no_duplicates(),
            forall|id: Seq<u8>| contents(ids@).contains(id) <==> #[trigger] self@.is_spawned(id),
    {
        let mut ids: Vec<Vec<u8>> = Vec::new();
        let total = self.clients.len();
        let mut i: usize = 0;
        proof {
            assert(contents(ids@) =~= self.clients.keys().take(0));
        }
        while i < total
            invariant
                total == self.clients.keys().len(),
                i <= total,
                contents(ids@) == self.clients.keys().take(i as int),
            decreases total - i,
        {
            let id = copy_bytes(self.clients.key_at(i).as_slice());
            let ghost listed = contents(ids@);
            ids.push(id);
            proof {
                assert(contents(ids@) =~= listed.push(id@));
                assert(self.clients.keys().take(i + 1) =~= self.clients.keys().take(i as int).push(
                    id@,
                ));
            }
            i += 1;
        }
        proof {
            assert(self.clients.keys().take(total as int) =~= self.clients.keys());
        }
        ids
    }

    /// The state of every registered client, gathered one client after
    /// the other.
    pub fn gather(&self) -> (snapshot: Snapshot)
        ensures
            holds_states(snapshot@, self@),
    {
        let mut snapshot = Snapshot::new();
        let total = self.clients.len();
        let mut i: usize = 0;
        while i < total
            invariant
                total == self.clients.keys().len(),
                i <= total,
                self.clients.keys().no_duplicates(),
                forall|id: Seq<u8>| self.clients.keys().contains(id) <==> #[trigger] self.clients@.contains_key(id),
                forall|id: Seq<u8>| #[trigger]
                    snapshot@.contains_key(id) <==> self.clients.keys().take(i as int).contains(id),
                forall|id: Seq<u8>| #[trigger]
                    snapshot@.contains_key(id) ==> decoded_state(snapshot@[id]) == Some(
                        (self@.clients[id].vaults, self@.clients[id].store),
                    ),
            decreases total - i,
        {
            let id = copy_bytes(self.clients.key_at(i).as_slice());
            let data = self.clients.value_at(i).get_data();
            let ghost done = self.clients.keys().take(i as int);
            let ghost filled = snapshot@;
            snapshot.fill_state(id, data);
            proof {
                assert(self.clients.keys().take(i + 1) =~= done.push(id@));
                assert forall|k: Seq<u8>| done.push(id@).contains(k) <==> (k == id@
                    || done.contains(k)) by {
                    if done.contains(k) {
                        let j = choose|j: int| 0 <= j < done.len() && done[j] == k;
                        assert(done.push(id@)[j] == k);
                    }
                    if k == id@ {
                        assert(done.push(id@)[done.len() as int] == k);
                    }
                }
                assert(self@.clients[id@] == self.clients@[id@]@);
                assert forall|k: Seq<u8>| #[trigger]
                    snapshot@.contains_key(k) <==> self.clients.keys().take(i + 1).contains(k) by {
                    assert(filled.contains_key(k) <==> done.contains(k));
                }
                assert forall|k: Seq<u8>| #[trigger] snapshot@.contains_key(k) implies decoded_state(
                    snapshot@[k],
                ) == Some((self@.clients[k].vaults, self@.clients[k].store)) by {
                    if k != id@ {
                        assert(filled.contains_key(k));
                    }
                }
            }
            i += 1;
        }
        proof {
            assert(self.clients.keys().take(total as int) =~= self.clients.keys());
            assert forall|k: Seq<u8>| snapshot@.contains_key(k) <==> #[trigger] self@.clients.contains_key(
                k,
            ) by {
                assert(self.clients@.contains_key(k) <==> self.clients.keys().contains(k));
            }
            assert forall|k: Seq<u8>| #[trigger] self@.clients.contains_key(k) implies decoded_state(
                snapshot@[k],
            ) == Some((self@.clients[k].vaults, self@.clients[k].store)) by {
                assert(snapshot@.contains_key(k));
            }
        }
        snapshot
    }

    /// The network worker, where one has been spawned.
    pub fn get_network(&self) -> (actor: Option<&NetworkActor>)
        ensures
            actor is Some <==> self@.network is Some,
            actor matches Some(a) ==> Some(a@) == self@.network,
    {
        match &self.network {
            Some(actor) => Some(actor),
            None => None,
        }
    }

    /// Mutable access to the network worker, where one has been spawned.
    pub fn get_network_mut(&mut self) -> (actor: Option<&mut NetworkActor>)
        ensures
            match actor {
                Some(a) => {
                    &&& Some(a@) == old(self)@.network
                    &&& final(self)@ == (RegistryView { network: Some(final(a)@), ..old(self)@ })
                },
                None => old(self)@.network is None && final(self)@ == old(self)@,
            },
    {
        match &mut self.network {
            Some(actor) => Some(actor),
            None => None,
        }
    }

    /// Installs `actor` as the network worker, in place of any other.
    pub fn insert_network(&mut self, actor: NetworkActor)
        ensures
            final(self)@ == (RegistryView { network: Some(actor@), ..old(self)@ }),
    {
        self.network = Some(actor);
    }

    /// Removes the network worker. Returns whether there was one.
    pub fn stop_network(&mut self) -> (stopped: bool)
        ensures
            stopped == old(self)@.network is Some,
            final(self)@ == (RegistryView { network: None, ..old(self)@ }),
    {
        let stopped = self.network.is_some();
        self.network = None;
        stopped
    }

    /// The number of registered clients.
    pub fn client_count(&self) -> (count: usize)
        ensures
            count == self@.clients.dom().len(),
            self@.clients.dom().finite(),
    {
        let count = self.clients.len();
        proof {
            let keys = self.clients.keys();
            assert(keys.to_set() =~= self@.clients.dom());
            keys.unique_seq_to_set();
        }
        count
    }
}

} // verus!
