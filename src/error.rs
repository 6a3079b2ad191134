//! What can go wrong when a fixture is generated or loaded.

use vstd::prelude::*;
use crate::hash::StateHash;

verus! {

/// Why a descriptor's text could not be read.
#[derive(Clone, Copy, Debug, PartialEq, Eq, Structural)]
pub enum DescriptorFault {
    /// No string at `genesis_request.protocol_version`, or the text is not JSON.
    MissingProtocolVersion,
    /// The protocol version is not `major.minor.patch`.
    InvalidProtocolVersion,
    /// No string at `post_state_hash`, or the text is not JSON.
    MissingStateHash,
    /// The state hash is not the hex text of a 32-byte digest.
    InvalidStateHash,
}

/// A failed fixture operation, with the fixture's name.
#[derive(Clone, Debug)]
pub enum FixtureError {
    /// The name is not a single path component.
    InvalidName { name: String },
    /// A filesystem operation failed.
    Io { name: String, path: String, detail: String },
    /// The descriptor could not be read.
    Serialization { name: String, fault: DescriptorFault },
    /// The store did not open at the recorded root digest.
    StoreOpen { name: String, expected: StateHash, observed: Option<StateHash> },
}

} // verus!
