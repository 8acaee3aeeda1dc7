//! Error kinds surfaced by the folder core.

use vstd::prelude::*;

verus! {

/// Typed failures of the folder core.
///
/// User-driven operations (creates, opens, local reads) propagate these to the
/// caller; failures inside the detached reconciliation are contained and only
/// reported through the merge report, never to the caller of the read that
/// triggered the refresh.
#[derive(Clone, Copy, Debug, PartialEq, Eq, Structural)]
pub enum FolderError {
    /// Malformed creation request (e.g. a required field is missing).
    InvalidParams,
    /// Identifier collision on an explicit, user-driven create.
    Conflict,
    /// Read target absent or trashed.
    NotFound,
    /// A write would violate the parent-reference invariant.
    ReferentialIntegrity,
    /// No valid session or token.
    Unauthenticated,
    /// The remote fetch failed (network or server).
    RemoteUnavailable,
}

} // verus!
