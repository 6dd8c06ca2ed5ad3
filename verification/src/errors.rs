//! Error taxonomy of the data layer.
//!
//! Transient network failures are retried with backoff up to a bounded
//! attempt count; constraint violations, checksum mismatches and schema
//! incompatibilities are surfaced immediately.

use vstd::prelude::*;

verus! {

/// Filesystem or permission failure while resolving the base directory.
#[derive(Clone, Copy, Debug, PartialEq, Eq, Structural)]
pub enum PathError {
    /// The base directory could not be created.
    CannotCreateBase,
}

/// Schema lifecycle failure.
#[derive(Clone, Copy, Debug, PartialEq, Eq, Structural)]
pub enum SchemaError {
    /// The on-disk schema version is newer than this build understands.
    VersionMismatch,
}

/// Failure of a constrained query.
#[derive(Clone, Copy, Debug, PartialEq, Eq, Structural)]
pub enum QueryError {
    /// A uniqueness or other constraint was violated.
    Constraint,
    /// The addressed row does not exist.
    NotFound,
    /// An input/output failure of the storage engine.
    Io,
}

/// Failure kind of a sync pass.
#[derive(Clone, Copy, Debug, PartialEq, Eq, Structural)]
pub enum SyncErrorKind {
    /// A transient network or server failure; retried with backoff.
    Network,
    /// A conflicting remote version was found and resolved.
    Conflict,
    /// A queue entry exhausted its attempts and will not be retried.
    Terminal,
}

/// Failure of a content fetch.
#[derive(Clone, Copy, Debug, PartialEq, Eq, Structural)]
pub enum FetchError {
    /// The transfer failed; retryable by the caller.
    Network,
    /// The downloaded bytes do not match the expected checksum; the bad
    /// file is discarded and never addressable as complete.
    ChecksumMismatch,
    /// A local input/output failure.
    Io,
}

} // verus!
