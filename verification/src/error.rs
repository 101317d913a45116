//! The ways in which a query can fail.

use vstd::prelude::*;

verus! {

/// Why a query gave no result.
#[derive(Clone, Copy, Debug, PartialEq, Eq, Structural)]
pub enum Error {
    /// The shell could not be started.
    ProcessSpawn,
    /// The shell printed bytes that are not UTF-8 text.
    Decoding,
    /// The output is not JSON, or a record lacks a field or holds one of the wrong kind.
    MalformedPayload,
    /// A line or a timestamp does not have the expected layout.
    Parse,
    /// The metadata of the saved configuration could not be read.
    Metadata,
}

} // verus!
