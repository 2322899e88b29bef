//! The decision rules of the ledger's entry points, stated over the raw
//! values observed in the backing key-value store.
//!
//! The hosting platform keeps the ledger in a persistent dictionary whose
//! project entries hold `Option<i32>` (an unpopulated entry is a "not yet
//! set" sentinel) and whose receipt entries hold `Option<String>`.  Each
//! function below takes such an observation and decides what the entry
//! point must do with it, so the host glue performs lookups and writes
//! only, and every rule stays verified.  The in-memory
//! [`crate::store::BallotStore`] runs on the same decisions.

use vstd::prelude::*;

use crate::errors::VoteError;

verus! {

/// What a vote must do once the project's current count and the receipt
/// slot at that count have been observed.
#[derive(Clone, Copy, Debug, PartialEq, Eq, Structural)]
pub enum SlotAction {
    /// The slot is free: record the voter's identity there, then persist
    /// `new_count` as the project's vote count.
    Record { new_count: i32 },
    /// The slot already holds a receipt: change nothing and report
    /// success (a defensive guard, not an error).
    AlreadyFilled,
}

/// Locating the store itself: an absent handle is a fatal configuration
/// error, never a reason to touch any entry.
pub fn handle_step<T>(handle: Option<T>) -> (r: Result<T, VoteError>)
    ensures
        match handle {
            Some(h) => r == Ok::<T, VoteError>(h),
            None => r == Err::<T, VoteError>(VoteError::MissingStoreHandle),
        },
{
    match handle {
        Some(h) => Ok(h),
        None => Err(VoteError::MissingStoreHandle),
    }
}

/// Registration decided on the value observed at the project's own key:
/// a populated entry rejects the registration as a duplicate; an absent
/// entry or the unpopulated sentinel admits it, and the returned count —
/// always zero — is what must be stored for the new project.
pub fn register_step(existing: Option<Option<i32>>) -> (r: Result<i32, VoteError>)
    ensures
        match existing {
            Some(Some(_)) => r == Err::<i32, VoteError>(VoteError::DuplicateProject),
            _ => r == Ok::<i32, VoteError>(0i32),
        },
{
    match existing {
        Some(Some(_)) => Err(VoteError::DuplicateProject),
        _ => Ok(0),
    }
}

/// The lookup shared by voting and tallying, decided on the value
/// observed at the project's own key: a populated entry yields its
/// count; anything else means the project was never registered.
pub fn lookup_count_step(existing: Option<Option<i32>>) -> (r: Result<i32, VoteError>)
    ensures
        match existing {
            Some(Some(n)) => r == Ok::<i32, VoteError>(n),
            _ => r == Err::<i32, VoteError>(VoteError::UnknownProject),
        },
{
    match existing {
        Some(Some(n)) => Ok(n),
        _ => Err(VoteError::UnknownProject),
    }
}

/// Voting decided on the receipt slot observed at the project's current
/// count: a free slot records the vote and advances the count by exactly
/// one; an occupied slot leaves the ledger untouched.
pub fn vote_slot_step(count: i32, slot: Option<Option<String>>) -> (r: SlotAction)
    requires
        count < i32::MAX,
    ensures
        match slot {
            Some(_) => r == SlotAction::AlreadyFilled,
            None => r == (SlotAction::Record { new_count: (count + 1) as i32 }),
        },
{
    match slot {
        Some(_) => SlotAction::AlreadyFilled,
        None => SlotAction::Record { new_count: count + 1 },
    }
}

} // verus!
