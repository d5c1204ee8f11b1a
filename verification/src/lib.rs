//! A secret-management core.
//!
//! Secrets live in vaults, and plain cached data in a store, both owned by
//! a client with a stable identity. A registry keeps the clients and the
//! one client that calls are aimed at; snapshots seal the state of all
//! clients under one key; a firewall decides which requests of which
//! peers are served. [`Stronghold`] is the entry point.
//!
//! The library does no I/O and reads no clock: files, sockets and the
//! time are the caller's, who hands bytes and ticks in and takes bytes
//! and messages out.

pub mod bytes;
pub mod codec;
pub mod firewall;
pub mod identity;
pub mod interface;
pub mod keymap;
pub mod laws;
pub mod location;
pub mod network;
pub mod primitives;
pub mod registry;
pub mod remote;
pub mod secure;
pub mod snapshot;
pub mod store;
pub mod vault;

pub use crate::identity::{ClientId, RecordHint, RecordId};
pub use crate::interface::{Error, Stronghold, StrongholdFlags, VaultFlags};
pub use crate::location::Location;
pub use crate::remote::{RemoteError, SendRequestError};
pub use crate::secure::{ProcResult, Procedure, VaultDoesNotExist, VaultError};
pub use crate::snapshot::{ReadSnapshotError, WriteSnapshotError};
