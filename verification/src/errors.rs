//! The error taxonomy of the voting ledger.

use vstd::prelude::*;

verus! {

/// Why a ledger operation was rejected. Every failure is terminal for the
/// invocation that raised it and leaves the store unchanged.
#[derive(Clone, Copy, Debug, PartialEq, Eq, Structural)]
pub enum VoteError {
    /// `register_project` was called for an identifier that is already
    /// registered.
    DuplicateProject,
    /// `vote` or `get_total_vote_count` was called for an identifier that
    /// was never registered.
    UnknownProject,
    /// The handle of the persistent store could not be located; a fatal
    /// configuration error of the hosting environment.
    MissingStoreHandle,
}

} // verus!
