//! The mathematical model of the ballot ledger and of its three
//! operations.
//!
//! A ledger maps each registered project identifier to the sequence of
//! voter identities recorded against it, in the order the votes were
//! cast: a project's vote count is the length of its sequence, and the
//! receipt at index `i` is element `i`.  The spec functions below give
//! the result and the successor ledger of each operation; the executable
//! store in [`crate::store`] is proved to follow them exactly.

use vstd::prelude::*;

use crate::errors::VoteError;

verus! {

/// A ledger value: registered project identifiers mapped to their
/// receipts, oldest vote first.
pub type LedgerModel = Map<Seq<char>, Seq<Seq<char>>>;

/// Whether `id` has been registered in the ledger `m`.
pub open spec fn registered(m: LedgerModel, id: Seq<char>) -> bool {
    m.dom().contains(id)
}

/// The result of registering `id`: a hard failure when the identifier is
/// already taken, success otherwise.
pub open spec fn register_result(m: LedgerModel, id: Seq<char>) -> Result<(), VoteError> {
    if registered(m, id) {
        Err(VoteError::DuplicateProject)
    } else {
        Ok(())
    }
}

/// The ledger after registering `id`: unchanged on failure, extended by a
/// fresh project with no receipts on success.
pub open spec fn register_state(m: LedgerModel, id: Seq<char>) -> LedgerModel {
    if registered(m, id) {
        m
    } else {
        m.insert(id, Seq::empty())
    }
}

/// The result of voting for `id`: a hard failure when the identifier was
/// never registered, success otherwise.
pub open spec fn vote_result(m: LedgerModel, id: Seq<char>) -> Result<(), VoteError> {
    if registered(m, id) {
        Ok(())
    } else {
        Err(VoteError::UnknownProject)
    }
}

/// The ledger after `voter` votes for `id`: unchanged on failure; on
/// success the vote is appended as a receipt at the next index, which
/// also drives the count up by exactly one.
pub open spec fn vote_state(m: LedgerModel, id: Seq<char>, voter: Seq<char>) -> LedgerModel {
    if registered(m, id) {
        m.insert(id, m[id].push(voter))
    } else {
        m
    }
}

/// The result of reading the running total of `id`: its vote count when
/// registered, a hard failure otherwise.  A pure read: the ledger is
/// never changed by it.
pub open spec fn tally_result(m: LedgerModel, id: Seq<char>) -> Result<int, VoteError> {
    if registered(m, id) {
        Ok(m[id].len() as int)
    } else {
        Err(VoteError::UnknownProject)
    }
}

} // verus!
