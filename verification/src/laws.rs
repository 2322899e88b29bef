//! The laws of the ledger, proved over the model of [`crate::model`].
//!
//! Each proof function below states one guarantee of the voting ledger
//! for every ledger value and every input, in terms of the same spec
//! functions that the contracts of [`crate::store::BallotStore`] are
//! stated over, so each law carries over to any sequence of calls on a
//! well-formed store.

use vstd::prelude::*;

use crate::errors::VoteError;
use crate::model::{register_result, register_state, registered, tally_result, vote_result,
    vote_state, LedgerModel};

verus! {

/// Law: reading the tally of an identifier that was never registered
/// fails with `UnknownProject`.
pub proof fn lemma_tally_unregistered(m: LedgerModel, id: Seq<char>)
    requires
        !registered(m, id),
    ensures
        tally_result(m, id) == Err::<int, VoteError>(VoteError::UnknownProject),
{
}

/// Law: registering a fresh identifier succeeds, and reading its tally
/// immediately afterwards yields zero.
pub proof fn lemma_register_then_tally(m: LedgerModel, id: Seq<char>)
    requires
        !registered(m, id),
    ensures
        register_result(m, id) == Ok::<(), VoteError>(()),
        tally_result(register_state(m, id), id) == Ok::<int, VoteError>(0),
{
}

/// Law: registering the same identifier twice succeeds the first time and
/// fails with `DuplicateProject` the second time, and the failed second
/// call changes nothing — in particular the vote count is unaffected.
pub proof fn lemma_register_twice(m: LedgerModel, id: Seq<char>)
    requires
        !registered(m, id),
    ensures
        register_result(m, id) == Ok::<(), VoteError>(()),
        register_result(register_state(m, id), id) == Err::<(), VoteError>(
            VoteError::DuplicateProject,
        ),
        register_state(register_state(m, id), id) == register_state(m, id),
        tally_result(register_state(register_state(m, id), id), id) == Ok::<int, VoteError>(0),
{
}

/// Law: one vote on a registered project whose count is zero drives its
/// tally to exactly one and records the caller's identity as the receipt
/// at index zero.
pub proof fn lemma_first_vote(m: LedgerModel, id: Seq<char>, voter: Seq<char>)
    requires
        registered(m, id),
        m[id].len() == 0,
    ensures
        vote_result(m, id) == Ok::<(), VoteError>(()),
        tally_result(vote_state(m, id, voter), id) == Ok::<int, VoteError>(1),
        vote_state(m, id, voter)[id][0] == voter,
{
}

/// Law: voting for an unregistered identifier fails with `UnknownProject`
/// and leaves no trace — neither a receipt nor a project entry.
pub proof fn lemma_vote_unregistered(m: LedgerModel, id: Seq<char>, voter: Seq<char>)
    requires
        !registered(m, id),
    ensures
        vote_result(m, id) == Err::<(), VoteError>(VoteError::UnknownProject),
        vote_state(m, id, voter) == m,
{
}

/// Law: whatever identifier is registered, every receipt already recorded
/// for any project survives untouched and no tally decreases.
pub proof fn lemma_register_preserves_receipts(
    m: LedgerModel,
    id: Seq<char>,
    pid: Seq<char>,
    i: int,
)
    requires
        registered(m, pid),
        0 <= i < m[pid].len(),
    ensures
        registered(register_state(m, id), pid),
        register_state(m, id)[pid][i] == m[pid][i],
        m[pid].len() <= register_state(m, id)[pid].len(),
{
}

/// Law: whatever vote is cast, every receipt already recorded for any
/// project survives untouched and no tally decreases: receipts are
/// append-only and counts are monotonic.
pub proof fn lemma_vote_preserves_receipts(
    m: LedgerModel,
    id: Seq<char>,
    voter: Seq<char>,
    pid: Seq<char>,
    i: int,
)
    requires
        registered(m, pid),
        0 <= i < m[pid].len(),
    ensures
        registered(vote_state(m, id, voter), pid),
        vote_state(m, id, voter)[pid][i] == m[pid][i],
        m[pid].len() <= vote_state(m, id, voter)[pid].len(),
{
}

/// The ledger after casting each identity of `voters` in order for `id`.
pub open spec fn vote_state_seq(m: LedgerModel, id: Seq<char>, voters: Seq<Seq<char>>)
    -> LedgerModel
    decreases voters.len(),
{
    if voters.len() == 0 {
        m
    } else {
        vote_state(vote_state_seq(m, id, voters.drop_last()), id, voters.last())
    }
}

/// Law: casting `N` successful votes — from distinct callers or not, no
/// per-voter rejection exists — appends the `N` identities in order, so
/// the tally grows by exactly `N`.
pub proof fn lemma_vote_seq(m: LedgerModel, id: Seq<char>, voters: Seq<Seq<char>>)
    requires
        registered(m, id),
    ensures
        registered(vote_state_seq(m, id, voters), id),
        vote_state_seq(m, id, voters)[id] == m[id] + voters,
        tally_result(vote_state_seq(m, id, voters), id) == Ok::<int, VoteError>(
            m[id].len() + voters.len() as int,
        ),
    decreases voters.len(),
{
    if voters.len() == 0 {
        assert(m[id] + voters =~= m[id]);
    } else {
        lemma_vote_seq(m, id, voters.drop_last());
        let prev = vote_state_seq(m, id, voters.drop_last());
        assert(prev[id].push(voters.last()) =~= m[id] + voters);
    }
}

/// Law: on a freshly registered project, `N` successful votes drive the
/// tally to exactly `N`, with one receipt per index `0..N-1` recording
/// that vote's caller.
pub proof fn lemma_vote_seq_from_zero(m: LedgerModel, id: Seq<char>, voters: Seq<Seq<char>>)
    requires
        registered(m, id),
        m[id].len() == 0,
    ensures
        vote_state_seq(m, id, voters)[id] == voters,
        tally_result(vote_state_seq(m, id, voters), id) == Ok::<int, VoteError>(
            voters.len() as int,
        ),
        forall|i: int|
            0 <= i < voters.len() ==> vote_state_seq(m, id, voters)[id][i] == voters[i],
{
    lemma_vote_seq(m, id, voters);
    assert(m[id] + voters =~= voters);
}

} // verus!
