//! Error taxonomy of the policy core.
//!
//! `PolicyNotFound` is reserved for callers that want to surface an absent
//! policy as an error; a plain cache miss is the `None` result of a lookup,
//! not an error.

use vstd::prelude::*;

verus! {

/// Everything that can go wrong inside the broker and its collaborators.
#[derive(Debug)]
pub enum ApfError {
    /// Storage unavailable or unreadable; retry is the caller's business.
    Io(String),
    /// Credential verification rejected the caller.
    PermissionDenied,
    /// A malformed application identity payload.
    InvalidAppId(String),
    /// No policy recorded for the named application.
    PolicyNotFound(String),
    /// Bus transport failure, reported by the transport layer.
    DBus(String),
    /// The isolation backend could not apply a decision.
    EnforcementFailed(String),
    /// A malformed configuration value.
    InvalidConfig(String),
    /// A decision was submitted for a request id that is unknown, already
    /// consumed, or expired.
    RequestNotFound(String),
    /// A persisted decision failed to deserialize: on-disk corruption, not
    /// unavailability.
    CorruptPolicy(String),
    /// Anything else.
    Unknown(String),
}

} // verus!
