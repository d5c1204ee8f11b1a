//! Addresses of records.

use vstd::prelude::*;
use vstd::bytes::{spec_u64_to_le_bytes, u64_to_le_bytes};
use crate::bytes::copy_bytes;

verus! {

/// The address of a record: a vault, and a record within it.
///
/// Paths are opaque byte strings. A counter location names the record by
/// its number instead of a path.
#[derive(Clone, Debug, PartialEq, Eq)]
pub enum Location {
    Generic { vault_path: Vec<u8>, record_path: Vec<u8> },
    Counter { vault_path: Vec<u8>, counter: u64 },
}

/// The record path that stands for the record number `counter`.
pub open spec fn counter_path(counter: u64) -> Seq<u8> {
    spec_u64_to_le_bytes(counter)
}

impl Location {
    /// The path of the vault that the location points into.
    pub open spec fn vault(&self) -> Seq<u8> {
        match self {
            Location::Generic { vault_path, .. } => vault_path@,
            Location::Counter { vault_path, .. } => vault_path@,
        }
    }

    /// The path of the record within its vault.
    pub open spec fn record(&self) -> Seq<u8> {
        match self {
            Location::Generic { record_path, .. } => record_path@,
            Location::Counter { counter, .. } => counter_path(*counter),
        }
    }

    /// The location of the record at `record_path` in the vault at `vault_path`.
    pub fn generic(vault_path: Vec<u8>, record_path: Vec<u8>) -> (location: Self)
        ensures
            location == (Location::Generic { vault_path, record_path }),
            location.vault() == vault_path@,
            location.record() == record_path@,
    {
        Location::Generic { vault_path, record_path }
    }

    /// The location of record number `counter` in the vault at `vault_path`.
    pub fn counter(vault_path: Vec<u8>, counter: u64) -> (location: Self)
        ensures
            location == (Location::Counter { vault_path, counter }),
            location.vault() == vault_path@,
            location.record() == counter_path(counter),
    {
        Location::Counter { vault_path, counter }
    }

    /// A copy of the location.
    pub fn duplicate(&self) -> (location: Self)
        ensures
            location.vault() == self.vault(),
            location.record() == self.record(),
    {
        match self {
            Location::Generic { vault_path, record_path } => Location::Generic {
                vault_path: copy_bytes(vault_path.as_slice()),
                record_path: copy_bytes(record_path.as_slice()),
            },
            Location::Counter { vault_path, counter } => Location::Counter {
                vault_path: copy_bytes(vault_path.as_slice()),
                counter: *counter,
            },
        }
    }

    /// The path of the vault that the location points into.
    pub fn vault_path(&self) -> (path: &[u8])
        ensures
            path@ == self.vault(),
    {
        match self {
            Location::Generic { vault_path, .. } => vault_path.as_slice(),
            Location::Counter { vault_path, .. } => vault_path.as_slice(),
        }
    }

    /// The path of the record within its vault.
    pub fn record_path(&self) -> (path: Vec<u8>)
        ensures
            path@ == self.record(),
    {
        match self {
            Location::Generic { record_path, .. } => copy_bytes(record_path.as_slice()),
            Location::Counter { counter, .. } => u64_to_le_bytes(*counter),
        }
    }
}

} // verus!
