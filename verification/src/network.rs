//! The messages of the network: what one node asks of another, what it
//! answers, and what a node asks of its own swarm.
//!
//! The library neither opens sockets nor waits for peers. It builds the
//! requests, decides about requests that come in, and reads the answers
//! that the caller hands back.

use vstd::prelude::*;
use crate::firewall::{FirewallConfiguration, FirewallRules, FirewallView, PeerId, RequestKind, Rule};
use crate::identity::{RecordHint, RecordId};
use crate::location::Location;
use crate::secure::{
    proc_view,
    ClientView,
    ProcError,
    ProcResult,
    ProcResultView,
    Procedure,
    SecureClient,
    VaultDoesNotExist,
    VaultError,
};
use crate::store::store_read;
use crate::vault::listing_view;

verus! {

/// An address on the network, in its binary form.
#[derive(Clone, Debug, PartialEq, Eq)]
pub struct Multiaddr {
    bytes: Vec<u8>,
}

impl View for Multiaddr {
    type V = Seq<u8>;

    closed spec fn view(&self) -> Seq<u8> {
        self.bytes@
    }
}

impl Multiaddr {
    /// The address with the given bytes.
    pub fn from_bytes(bytes: Vec<u8>) -> (address: Self)
        ensures
            address@ == bytes@,
    {
        Multiaddr { bytes }
    }

    /// The bytes of the address.
    pub fn as_bytes(&self) -> (bytes: &[u8])
        ensures
            bytes@ == self@,
    {
        self.bytes.as_slice()
    }
}

/// A request that one node sends to another. Each mirrors a call of the
/// facade, to be served by the target of the receiving node.
#[derive(Clone, Debug, PartialEq, Eq)]
pub enum ShRequest {
    CheckVault { vault_path: Vec<u8> },
    CreateVault { location: Location },
    WriteToRemoteVault { location: Location, payload: Vec<u8>, hint: RecordHint },
    ListIds { vault_path: Vec<u8> },
    ReadFromStore { key: Vec<u8> },
    WriteToStore { key: Vec<u8>, payload: Vec<u8>, lifetime: Option<u64> },
    CallProcedure { proc: Procedure },
}

impl ShRequest {
    /// The kind of the request, by which the firewall judges it.
    pub open spec fn spec_kind(&self) -> RequestKind {
        match self {
            ShRequest::CheckVault { .. } => RequestKind::CheckVault,
            ShRequest::CreateVault { .. } => RequestKind::CreateVault,
            ShRequest::WriteToRemoteVault { .. } => RequestKind::WriteToVault,
            ShRequest::ListIds { .. } => RequestKind::ListIds,
            ShRequest::ReadFromStore { .. } => RequestKind::ReadFromStore,
            ShRequest::WriteToStore { .. } => RequestKind::WriteToStore,
            ShRequest::CallProcedure { .. } => RequestKind::CallProcedure,
        }
    }

    /// The kind of the request, by which the firewall judges it.
    #[verifier::when_used_as_spec(spec_kind)]
    pub fn kind(&self) -> (kind: RequestKind)
        ensures
            kind == self.spec_kind(),
    {
        match self {
            ShRequest::CheckVault { .. } => RequestKind::CheckVault,
            ShRequest::CreateVault { .. } => RequestKind::CreateVault,
            ShRequest::WriteToRemoteVault { .. } => RequestKind::WriteToVault,
            ShRequest::ListIds { .. } => RequestKind::ListIds,
            ShRequest::ReadFromStore { .. } => RequestKind::ReadFromStore,
            ShRequest::WriteToStore { .. } => RequestKind::WriteToStore,
            ShRequest::CallProcedure { .. } => RequestKind::CallProcedure,
        }
    }
}

/// The answer of a node to a request.
#[derive(Debug, PartialEq, Eq)]
pub enum ShResult {
    /// The firewall of the node rejected the request.
    Rejected,
    CheckVault(bool),
    CreateVault,
    WriteToRemoteVault(Result<(), VaultError>),
    ListIds(Result<Vec<(RecordId, RecordHint)>, VaultDoesNotExist>),
    ReadFromStore(Option<Vec<u8>>),
    WriteToStore(Option<Vec<u8>>),
    CallProcedure(ProcResult),
}

/// The view of an answer.
pub enum ShResultView {
    Rejected,
    CheckVault(bool),
    CreateVault,
    WriteToRemoteVault(Result<(), VaultError>),
    ListIds(Result<Seq<(Seq<u8>, Seq<u8>)>, VaultDoesNotExist>),
    ReadFromStore(Option<Seq<u8>>),
    WriteToStore(Option<Seq<u8>>),
    CallProcedure(ProcResultView),
}

impl View for ShResult {
    type V = ShResultView;

    open spec fn view(&self) -> ShResultView {
        match self {
            ShResult::Rejected => ShResultView::Rejected,
            ShResult::CheckVault(exists) => ShResultView::CheckVault(*exists),
            ShResult::CreateVault => ShResultView::CreateVault,
            ShResult::WriteToRemoteVault(done) => ShResultView::WriteToRemoteVault(*done),
            ShResult::ListIds(list) => ShResultView::ListIds(
                match list {
                    Ok(l) => Ok(listing_view(l@)),
                    Err(e) => Err(*e),
                },
            ),
            ShResult::ReadFromStore(value) => ShResultView::ReadFromStore(
                match value {
                    Some(v) => Some(v@),
                    None => None,
                },
            ),
            ShResult::WriteToStore(previous) => ShResultView::WriteToStore(
                match previous {
                    Some(v) => Some(v@),
                    None => None,
                },
            ),
            ShResult::CallProcedure(result) => ShResultView::CallProcedure(result@),
        }
    }
}

/// What a procedure gives back to the caller: its failure is folded
/// into the result.
pub open spec fn folded(result: Result<ProcResultView, ProcError>) -> ProcResultView {
    match result {
        Ok(r) => r,
        Err(e) => ProcResultView::Error(e),
    }
}

impl ClientView {
    /// Whether `(after, answer)` is a possible outcome of this client
    /// serving `request` at time `now`: each request is run exactly as
    /// the call that it mirrors.
    pub open spec fn answers(self, request: ShRequest, now: u64, after: Self, answer: ShResultView) -> bool {
        match request {
            ShRequest::CheckVault { vault_path } => after == self && answer
                == ShResultView::CheckVault(self.vault_exists(vault_path@)),
            ShRequest::CreateVault { location } => after == self.create_vault(location.vault())
                && answer == ShResultView::CreateVault,
            ShRequest::WriteToRemoteVault { location, payload, hint } => (
                after,
                answer,
            ) == {
                let (client, done) = self.write_vault(
                    location.vault(),
                    location.record(),
                    payload@,
                    hint@,
                );
                (client, ShResultView::WriteToRemoteVault(done))
            },
            ShRequest::ListIds { vault_path } => after == self && answer == ShResultView::ListIds(
                self.list(vault_path@),
            ),
            ShRequest::ReadFromStore { key } => after == self && answer
                == ShResultView::ReadFromStore(store_read(self.store, key@, now)),
            ShRequest::WriteToStore { key, payload, lifetime } => after == self.write_store(
                key@,
                payload@,
                lifetime,
                now,
            ) && answer == ShResultView::WriteToStore(store_read(self.store, key@, now)),
            ShRequest::CallProcedure { proc } => exists|outcome: Result<ProcResultView, ProcError>|
                #![trigger self.runs(proc, after, outcome)]
                self.runs(proc, after, outcome) && answer == ShResultView::CallProcedure(
                    folded(outcome),
                ),
        }
    }
}

/// Serves `request` on `client` at time `now`.
pub fn answer_request(client: &mut SecureClient, request: ShRequest, now: u64) -> (answer: ShResult)
    ensures
        old(client)@.answers(request, now, final(client)@, answer@),
{
    match request {
        ShRequest::CheckVault { vault_path } => ShResult::CheckVault(
            client.check_vault(vault_path.as_slice()),
        ),
        ShRequest::CreateVault { location } => {
            client.create_vault(&location);
            ShResult::CreateVault
        },
        ShRequest::WriteToRemoteVault { location, payload, hint } => ShResult::WriteToRemoteVault(
            client.write_to_vault(&location, payload, hint),
        ),
        ShRequest::ListIds { vault_path } => ShResult::ListIds(client.list_ids(vault_path.as_slice())),
        ShRequest::ReadFromStore { key } => ShResult::ReadFromStore(
            client.read_from_store(key.as_slice(), now),
        ),
        ShRequest::WriteToStore { key, payload, lifetime } => ShResult::WriteToStore(
            client.write_to_store(key, payload, lifetime, now),
        ),
        ShRequest::CallProcedure { proc } => {
            let outcome = client.call_procedure(proc);
            let result = match outcome {
                Ok(result) => result,
                Err(e) => ProcResult::Error(e),
            };
            proof {
                assert(old(client)@.runs(proc, client@, proc_view(outcome)));
                assert(result@ == folded(proc_view(outcome)));
            }
            ShResult::CallProcedure(result)
        },
    }
}

/// Why a request did not reach the peer, or no answer came back.
#[derive(Clone, Copy, Debug, PartialEq, Eq, Structural)]
pub enum OutboundFailure {
    /// No answer came in time.
    Timeout,
    /// The peer could not be dialed.
    DialFailure,
    /// The connection closed before the answer came.
    ConnectionClosed,
    /// The peer does not speak the protocol of the request, or answered
    /// with something that is no answer to it.
    UnsupportedProtocols,
    /// The firewall of this node did not let the request out.
    NotPermitted,
}

/// What a node asks of its own swarm.
#[derive(Clone, Debug, PartialEq, Eq)]
pub enum NetworkMsg {
    StartListening { address: Option<Multiaddr> },
    StopListening,
    GetSwarmInfo,
    AddPeerAddr { peer: PeerId, address: Multiaddr },
    ConnectPeer { peer: PeerId },
    AddDialingRelay { relay: PeerId, relay_addr: Option<Multiaddr> },
    RemoveDialingRelay { relay: PeerId },
    StartListeningRelay { relay: PeerId, relay_addr: Option<Multiaddr> },
    StopListeningRelay { relay: PeerId },
    SendRequest { peer: PeerId, request: ShRequest },
}

/// The network worker of a node. It owns the firewall.
pub struct NetworkActor {
    firewall: FirewallConfiguration,
}

impl View for NetworkActor {
    type V = FirewallView;

    closed spec fn view(&self) -> FirewallView {
        self.firewall@
    }
}

/// The default rules of a new network worker: inbound requests go by
/// `inbound`, outbound requests are all let out.
pub open spec fn initial_rules(inbound: Rule) -> FirewallRules {
    FirewallRules { inbound: Some(inbound), outbound: Some(Rule::AllowAll) }
}

impl NetworkActor {
    /// A network worker whose firewall has the default inbound rule
    /// `firewall_rule` and lets every request out.
    pub fn new(firewall_rule: Rule) -> (actor: Self)
        ensures
            actor@ == FirewallView::new(initial_rules(firewall_rule)),
    {
        NetworkActor {
            firewall: FirewallConfiguration::new(
                FirewallRules { inbound: Some(firewall_rule), outbound: Some(Rule::AllowAll) },
            ),
        }
    }

    /// The firewall of the worker.
    pub fn firewall(&self) -> (firewall: &FirewallConfiguration)
        ensures
            firewall@ == self@,
    {
        &self.firewall
    }

    /// Mutable access to the firewall of the worker.
    pub fn firewall_mut(&mut self) -> (firewall: &mut FirewallConfiguration)
        ensures
            firewall@ == old(self)@,
            final(self)@ == final(firewall)@,
    {
        &mut self.firewall
    }
}

} // verus!
