//! Calls on a remote node: the errors they end in, how an answer is read,
//! and the exchange by which a record is written to a remote vault.

use vstd::prelude::*;
use crate::bytes::copy_bytes;
use crate::firewall::PeerId;
use crate::identity::{RecordHint, RecordId};
use crate::interface::Error;
use crate::location::Location;
use crate::network::{NetworkMsg, OutboundFailure, ShRequest, ShResult};
use crate::secure::{ProcResult, VaultDoesNotExist, VaultError};

verus! {

/// Why a call on a remote node failed, once the request was handed to
/// the network.
#[derive(Clone, Copy, Debug, PartialEq, Eq)]
pub enum SendRequestError<E> {
    /// The request did not reach the peer, or no answer came back.
    OutboundFailure(OutboundFailure),
    /// The firewall of the peer rejected the request.
    Rejected,
    /// The peer served the request, and the operation failed there.
    Inner(E),
}

impl<E> From<OutboundFailure> for Error<SendRequestError<E>> {
    fn from(failure: OutboundFailure) -> (wrapped: Self) {
        Error::Inner(SendRequestError::OutboundFailure(failure))
    }
}

impl<E> vstd::std_specs::convert::FromSpecImpl<OutboundFailure> for Error<SendRequestError<E>> {
    open spec fn obeys_from_spec() -> bool {
        true
    }

    open spec fn from_spec(failure: OutboundFailure) -> Self {
        Error::Inner(SendRequestError::OutboundFailure(failure))
    }
}

/// The error of a call on a remote node.
pub type RemoteError<E = std::convert::Infallible> = Error<SendRequestError<E>>;

/// What the network hands back for a request: the answer of the peer, or
/// the failure to get one.
pub type Reply = Result<ShResult, OutboundFailure>;

/// The error for a request that the network failed to deliver.
pub open spec fn outbound<E>(failure: OutboundFailure) -> RemoteError<E> {
    Error::Inner(SendRequestError::OutboundFailure(failure))
}

/// The error for a request that the peer's firewall rejected.
pub open spec fn rejected<E>() -> RemoteError<E> {
    Error::Inner(SendRequestError::Rejected)
}

/// The error for an answer that is no answer to the request.
pub open spec fn mismatch<E>() -> RemoteError<E> {
    outbound(OutboundFailure::UnsupportedProtocols)
}

/// What a reply means for a call that asked whether a vault exists.
pub open spec fn check_vault_outcome(reply: Reply) -> Result<bool, RemoteError> {
    match reply {
        Err(failure) => Err(outbound(failure)),
        Ok(ShResult::Rejected) => Err(rejected()),
        Ok(ShResult::CheckVault(exists)) => Ok(exists),
        Ok(_) => Err(mismatch()),
    }
}

/// Reads the reply to a `CheckVault` request.
pub fn read_check_vault_reply(reply: Reply) -> (outcome: Result<bool, RemoteError>)
    ensures
        outcome == check_vault_outcome(reply),
{
    match reply {
        Err(failure) => Err(Error::Inner(SendRequestError::OutboundFailure(failure))),
        Ok(ShResult::Rejected) => Err(Error::Inner(SendRequestError::Rejected)),
        Ok(ShResult::CheckVault(exists)) => Ok(exists),
        Ok(_) => Err(
            Error::Inner(SendRequestError::OutboundFailure(OutboundFailure::UnsupportedProtocols)),
        ),
    }
}

/// What a reply means for a call that asked for a vault to be created.
pub open spec fn create_vault_outcome(reply: Reply) -> Result<(), RemoteError> {
    match reply {
        Err(failure) => Err(outbound(failure)),
        Ok(ShResult::Rejected) => Err(rejected()),
        Ok(ShResult::CreateVault) => Ok(()),
        Ok(_) => Err(mismatch()),
    }
}

/// Reads the reply to a `CreateVault` request.
pub fn read_create_vault_reply(reply: Reply) -> (outcome: Result<(), RemoteError>)
    ensures
        outcome == create_vault_outcome(reply),
{
    match reply {
        Err(failure) => Err(Error::Inner(SendRequestError::OutboundFailure(failure))),
        Ok(ShResult::Rejected) => Err(Error::Inner(SendRequestError::Rejected)),
        Ok(ShResult::CreateVault) => Ok(()),
        Ok(_) => Err(
            Error::Inner(SendRequestError::OutboundFailure(OutboundFailure::UnsupportedProtocols)),
        ),
    }
}

/// What a reply means for a call that wrote to a remote vault.
pub open spec fn write_vault_outcome(reply: Reply) -> Result<(), RemoteError<VaultError>> {
    match reply {
        Err(failure) => Err(outbound(failure)),
        Ok(ShResult::Rejected) => Err(rejected()),
        Ok(ShResult::WriteToRemoteVault(Ok(()))) => Ok(()),
        Ok(ShResult::WriteToRemoteVault(Err(e))) => Err(Error::Inner(SendRequestError::Inner(e))),
        Ok(_) => Err(mismatch()),
    }
}

/// Reads the reply to a `WriteToRemoteVault` request.
pub fn read_write_vault_reply(reply: Reply) -> (outcome: Result<(), RemoteError<VaultError>>)
    ensures
        outcome == write_vault_outcome(reply),
{
    match reply {
        Err(failure) => Err(Error::Inner(SendRequestError::OutboundFailure(failure))),
        Ok(ShResult::Rejected) => Err(Error::Inner(SendRequestError::Rejected)),
        Ok(ShResult::WriteToRemoteVault(Ok(()))) => Ok(()),
        Ok(ShResult::WriteToRemoteVault(Err(e))) => Err(Error::Inner(SendRequestError::Inner(e))),
        Ok(_) => Err(
            Error::Inner(SendRequestError::OutboundFailure(OutboundFailure::UnsupportedProtocols)),
        ),
    }
}

/// What a reply means for a call that wrote to a remote store.
pub open spec fn write_store_outcome(reply: Reply) -> Result<Option<Vec<u8>>, RemoteError> {
    match reply {
        Err(failure) => Err(outbound(failure)),
        Ok(ShResult::Rejected) => Err(rejected()),
        Ok(ShResult::WriteToStore(previous)) => Ok(previous),
        Ok(_) => Err(mismatch()),
    }
}

/// Reads the reply to a `WriteToStore` request: the value that was
/// readable under the key just before.
pub fn read_write_store_reply(reply: Reply) -> (outcome: Result<Option<Vec<u8>>, RemoteError>)
    ensures
        outcome == write_store_outcome(reply),
{
    match reply {
        Err(failure) => Err(Error::Inner(SendRequestError::OutboundFailure(failure))),
        Ok(ShResult::Rejected) => Err(Error::Inner(SendRequestError::Rejected)),
        Ok(ShResult::WriteToStore(previous)) => Ok(previous),
        Ok(_) => Err(
            Error::Inner(SendRequestError::OutboundFailure(OutboundFailure::UnsupportedProtocols)),
        ),
    }
}

/// What a reply means for a call that read from a remote store.
pub open spec fn read_store_outcome(reply: Reply) -> Result<Option<Vec<u8>>, RemoteError> {
    match reply {
        Err(failure) => Err(outbound(failure)),
        Ok(ShResult::Rejected) => Err(rejected()),
        Ok(ShResult::ReadFromStore(value)) => Ok(value),
        Ok(_) => Err(mismatch()),
    }
}

/// Reads the reply to a `ReadFromStore` request.
pub fn read_read_store_reply(reply: Reply) -> (outcome: Result<Option<Vec<u8>>, RemoteError>)
    ensures
        outcome == read_store_outcome(reply),
{
    match reply {
        Err(failure) => Err(Error::Inner(SendRequestError::OutboundFailure(failure))),
        Ok(ShResult::Rejected) => Err(Error::Inner(SendRequestError::Rejected)),
        Ok(ShResult::ReadFromStore(value)) => Ok(value),
        Ok(_) => Err(
            Error::Inner(SendRequestError::OutboundFailure(OutboundFailure::UnsupportedProtocols)),
        ),
    }
}

/// What a reply means for a call that listed a remote vault.
pub open spec fn list_outcome(reply: Reply) -> Result<
    Vec<(RecordId, RecordHint)>,
    RemoteError<VaultDoesNotExist>,
> {
    match reply {
        Err(failure) => Err(outbound(failure)),
        Ok(ShResult::Rejected) => Err(rejected()),
        Ok(ShResult::ListIds(Ok(list))) => Ok(list),
        Ok(ShResult::ListIds(Err(e))) => Err(Error::Inner(SendRequestError::Inner(e))),
        Ok(_) => Err(mismatch()),
    }
}

/// Reads the reply to a `ListIds` request.
pub fn read_list_reply(reply: Reply) -> (outcome: Result<
    Vec<(RecordId, RecordHint)>,
    RemoteError<VaultDoesNotExist>,
>)
    ensures
        outcome == list_outcome(reply),
{
    match reply {
        Err(failure) => Err(Error::Inner(SendRequestError::OutboundFailure(failure))),
        Ok(ShResult::Rejected) => Err(Error::Inner(SendRequestError::Rejected)),
        Ok(ShResult::ListIds(Ok(list))) => Ok(list),
        Ok(ShResult::ListIds(Err(e))) => Err(Error::Inner(SendRequestError::Inner(e))),
        Ok(_) => Err(
            Error::Inner(SendRequestError::OutboundFailure(OutboundFailure::UnsupportedProtocols)),
        ),
    }
}

/// What a reply means for a call that ran a procedure on a remote node.
pub open spec fn procedure_outcome(reply: Reply) -> Result<ProcResult, RemoteError> {
    match reply {
        Err(failure) => Err(outbound(failure)),
        Ok(ShResult::Rejected) => Err(rejected()),
        Ok(ShResult::CallProcedure(result)) => Ok(result),
        Ok(_) => Err(mismatch()),
    }
}

/// Reads the reply to a `CallProcedure` request.
pub fn read_procedure_reply(reply: Reply) -> (outcome: Result<ProcResult, RemoteError>)
    ensures
        outcome == procedure_outcome(reply),
{
    match reply {
        Err(failure) => Err(Error::Inner(SendRequestError::OutboundFailure(failure))),
        Ok(ShResult::Rejected) => Err(Error::Inner(SendRequestError::Rejected)),
        Ok(ShResult::CallProcedure(result)) => Ok(result),
        Ok(_) => Err(
            Error::Inner(SendRequestError::OutboundFailure(OutboundFailure::UnsupportedProtocols)),
        ),
    }
}

/// Where a write to a remote vault stands.
#[derive(Clone, Copy, Debug, PartialEq, Eq, Structural)]
pub enum WriteStage {
    /// The peer was asked whether the vault exists.
    Checking,
    /// The peer was asked to create the vault.
    Creating,
    /// The peer was asked to write the record.
    Writing,
}

/// A write to a remote vault in progress: ask whether the vault exists,
/// have it created if it does not, then write the record.
pub struct RemoteVaultWrite {
    peer: PeerId,
    location: Location,
    payload: Vec<u8>,
    hint: RecordHint,
    stage: WriteStage,
}

/// What a write in progress stands for.
pub struct RemoteVaultWriteView {
    pub peer: Seq<u8>,
    pub vault_path: Seq<u8>,
    pub record_path: Seq<u8>,
    pub payload: Seq<u8>,
    pub hint: Seq<u8>,
    pub stage: WriteStage,
}

impl View for RemoteVaultWrite {
    type V = RemoteVaultWriteView;

    closed spec fn view(&self) -> RemoteVaultWriteView {
        RemoteVaultWriteView {
            peer: self.peer@,
            vault_path: self.location.vault(),
            record_path: self.location.record(),
            payload: self.payload@,
            hint: self.hint@,
            stage: self.stage,
        }
    }
}

/// The next move in a write to a remote vault.
pub enum WriteProgress {
    /// The message is to be sent, and its reply handed to the exchange.
    Send(RemoteVaultWrite, NetworkMsg),
    /// The write is over.
    Done(Result<(), RemoteError<VaultError>>),
}

impl RemoteVaultWriteView {
    /// Whether `msg` is the request that the exchange sends on entering `stage`.
    pub open spec fn sends(self, stage: WriteStage, msg: NetworkMsg) -> bool {
        &&& msg matches NetworkMsg::SendRequest { peer, request }
        &&& peer@ == self.peer
        &&& match stage {
            WriteStage::Checking => request matches ShRequest::CheckVault { vault_path }
                && vault_path@ == self.vault_path,
            WriteStage::Creating => request matches ShRequest::CreateVault { location }
                && location.vault() == self.vault_path && location.record() == self.record_path,
            WriteStage::Writing => request matches ShRequest::WriteToRemoteVault {
                location,
                payload,
                hint,
            } && location.vault() == self.vault_path && location.record() == self.record_path
                && payload@ == self.payload && hint@ == self.hint,
        }
    }

    /// The stage that follows on `reply`, or `None` where the write is
    /// over: a missing vault is created, an existing or created one is
    /// written to, and every failure ends the exchange.
    pub open spec fn next_stage(self, reply: Reply) -> Option<WriteStage> {
        match self.stage {
            WriteStage::Checking => match check_vault_outcome(reply) {
                Ok(true) => Some(WriteStage::Writing),
                Ok(false) => Some(WriteStage::Creating),
                Err(_) => None,
            },
            WriteStage::Creating => match create_vault_outcome(reply) {
                Ok(()) => Some(WriteStage::Writing),
                Err(_) => None,
            },
            WriteStage::Writing => None,
        }
    }

    /// How the write ends on `reply`, where it ends.
    pub open spec fn outcome(self, reply: Reply) -> Result<(), RemoteError<VaultError>> {
        match self.stage {
            WriteStage::Checking => match check_vault_outcome(reply) {
                Ok(_) => Ok(()),
                Err(Error::Inner(SendRequestError::OutboundFailure(f))) => Err(outbound(f)),
                Err(_) => Err(rejected()),
            },
            WriteStage::Creating => match create_vault_outcome(reply) {
                Ok(()) => Ok(()),
                Err(Error::Inner(SendRequestError::OutboundFailure(f))) => Err(outbound(f)),
                Err(_) => Err(rejected()),
            },
            WriteStage::Writing => write_vault_outcome(reply),
        }
    }
}

/// The error of a finished exchange for an error of one of its calls.
fn carry_over(error: RemoteError) -> (carried: RemoteError<VaultError>)
    requires
        error is Inner,
        !(error->Inner_0 is Inner),
    ensures
        carried == (match error {
            Error::Inner(SendRequestError::OutboundFailure(f)) => outbound::<VaultError>(f),
            _ => rejected::<VaultError>(),
        }),
{
    match error {
        Error::Inner(SendRequestError::OutboundFailure(f)) => Error::Inner(
            SendRequestError::OutboundFailure(f),
        ),
        _ => Error::Inner(SendRequestError::Rejected),
    }
}

impl RemoteVaultWrite {
    /// Begins a write of `payload` and `hint` to `location` at `peer`.
    /// Returns the exchange and the first message to send.
    pub fn begin(peer: PeerId, location: Location, payload: Vec<u8>, hint: RecordHint) -> (started: (
        Self,
        NetworkMsg,
    ))
        ensures
            started.0@ == (RemoteVaultWriteView {
                peer: peer@,
                vault_path: location.vault(),
                record_path: location.record(),
                payload: payload@,
                hint: hint@,
                stage: WriteStage::Checking,
            }),
            started.0@.sends(WriteStage::Checking, started.1),
    {
        let msg = NetworkMsg::SendRequest {
            peer: peer.duplicate(),
            request: ShRequest::CheckVault { vault_path: copy_bytes(location.vault_path()) },
        };
        (RemoteVaultWrite { peer, location, payload, hint, stage: WriteStage::Checking }, msg)
    }

    /// The stage of the exchange.
    pub fn stage(&self) -> (stage: WriteStage)
        ensures
            stage == self@.stage,
    {
        self.stage
    }

    /// Takes the reply to the message that was sent last.
    ///
    /// The exchange either goes on to the next stage, with the message
    /// of that stage to send, or ends.
    pub fn on_reply(self, reply: Reply) -> (progress: WriteProgress)
        ensures
            match self@.next_stage(reply) {
                Some(stage) => progress matches WriteProgress::Send(next, msg) && next@ == (
                RemoteVaultWriteView { stage, ..self@ }) && self@.sends(stage, msg),
                None => progress matches WriteProgress::Done(done) && done == self@.outcome(reply),
            },
    {
        let next = match self.stage {
            WriteStage::Checking => match read_check_vault_reply(reply) {
                Ok(true) => WriteStage::Writing,
                Ok(false) => WriteStage::Creating,
                Err(e) => {
                    return WriteProgress::Done(Err(carry_over(e)));
                },
            },
            WriteStage::Creating => match read_create_vault_reply(reply) {
                Ok(()) => WriteStage::Writing,
                Err(e) => {
                    return WriteProgress::Done(Err(carry_over(e)));
                },
            },
            WriteStage::Writing => {
                return WriteProgress::Done(read_write_vault_reply(reply));
            },
        };
        let request = match next {
            WriteStage::Creating => ShRequest::CreateVault { location: self.location.duplicate() },
            _ => ShRequest::WriteToRemoteVault {
                location: self.location.duplicate(),
                payload: copy_bytes(self.payload.as_slice()),
                hint: self.hint,
            },
        };
        let msg = NetworkMsg::SendRequest { peer: self.peer.duplicate(), request };
        WriteProgress::Send(
            RemoteVaultWrite {
                peer: self.peer,
                location: self.location,
                payload: self.payload,
                hint: self.hint,
                stage: next,
            },
            msg,
        )
    }
}

} // verus!
