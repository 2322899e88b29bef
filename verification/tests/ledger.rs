use vote::errors::VoteError;
use vote::store::BallotStore;

/// Mirrors the production integration sequence: install the store, register
/// a project, see its tally at 0, vote, see the tally at 1, fail to register
/// the same project again, and fail to vote for a project that was never
/// registered.
#[test]
fn install_and_check_entry_points() {
    let mut store = BallotStore::constructor();

    assert_eq!(store.register_project("test_project_id".to_string()), Ok(()));

    let vote_count = store
        .get_total_vote_count(&"test_project_id".to_string())
        .expect("should be Option<i32>.");
    assert_eq!(vote_count, 0);

    assert_eq!(
        store.vote("test_project_id".to_string(), "default_account".to_string()),
        Ok(())
    );

    let new_vote_count = store
        .get_total_vote_count(&"test_project_id".to_string())
        .expect("should be Option<i32>.");
    assert_eq!(new_vote_count, 1);

    assert_eq!(
        store.register_project("test_project_id".to_string()),
        Err(VoteError::DuplicateProject)
    );

    assert_eq!(
        store.vote("another_test_project_id".to_string(), "default_account".to_string()),
        Err(VoteError::UnknownProject)
    );
}

#[test]
fn tally_before_registration_fails() {
    let store = BallotStore::constructor();
    assert_eq!(
        store.get_total_vote_count(&"anything".to_string()),
        Err(VoteError::UnknownProject)
    );
}

#[test]
fn register_then_tally_is_zero() {
    let mut store = BallotStore::constructor();
    assert_eq!(store.register_project("p".to_string()), Ok(()));
    assert_eq!(store.get_total_vote_count(&"p".to_string()), Ok(0));
}

#[test]
fn duplicate_registration_fails_and_count_is_unaffected() {
    let mut store = BallotStore::constructor();
    assert_eq!(store.register_project("p".to_string()), Ok(()));
    assert_eq!(store.vote("p".to_string(), "alice".to_string()), Ok(()));
    assert_eq!(
        store.register_project("p".to_string()),
        Err(VoteError::DuplicateProject)
    );
    assert_eq!(store.get_total_vote_count(&"p".to_string()), Ok(1));
    assert_eq!(
        store.get_receipt(&"p".to_string(), 0),
        Some(&"alice".to_string())
    );
}

#[test]
fn one_vote_drives_tally_to_one_with_receipt() {
    let mut store = BallotStore::constructor();
    assert_eq!(store.register_project("p".to_string()), Ok(()));
    assert_eq!(store.get_total_vote_count(&"p".to_string()), Ok(0));
    assert_eq!(store.vote("p".to_string(), "alice".to_string()), Ok(()));
    assert_eq!(store.get_total_vote_count(&"p".to_string()), Ok(1));
    assert_eq!(
        store.get_receipt(&"p".to_string(), 0),
        Some(&"alice".to_string())
    );
    assert_eq!(store.get_receipt(&"p".to_string(), 1), None);
}

#[test]
fn n_votes_drive_tally_to_n_one_receipt_per_index() {
    let mut store = BallotStore::constructor();
    assert_eq!(store.register_project("p".to_string()), Ok(()));
    // no per-voter rejection exists: the same caller may vote again
    assert_eq!(store.vote("p".to_string(), "alice".to_string()), Ok(()));
    assert_eq!(store.vote("p".to_string(), "bob".to_string()), Ok(()));
    assert_eq!(store.vote("p".to_string(), "alice".to_string()), Ok(()));
    assert_eq!(store.get_total_vote_count(&"p".to_string()), Ok(3));
    assert_eq!(
        store.get_receipt(&"p".to_string(), 0),
        Some(&"alice".to_string())
    );
    assert_eq!(
        store.get_receipt(&"p".to_string(), 1),
        Some(&"bob".to_string())
    );
    assert_eq!(
        store.get_receipt(&"p".to_string(), 2),
        Some(&"alice".to_string())
    );
    assert_eq!(store.get_receipt(&"p".to_string(), 3), None);
}

#[test]
fn vote_for_unknown_project_leaves_no_trace() {
    let mut store = BallotStore::constructor();
    assert_eq!(store.register_project("other".to_string()), Ok(()));
    assert_eq!(
        store.vote("ghost_project".to_string(), "alice".to_string()),
        Err(VoteError::UnknownProject)
    );
    // no project entry was created ...
    assert_eq!(
        store.get_total_vote_count(&"ghost_project".to_string()),
        Err(VoteError::UnknownProject)
    );
    // ... and no receipt either: a later registration starts from scratch
    assert_eq!(store.register_project("ghost_project".to_string()), Ok(()));
    assert_eq!(store.get_total_vote_count(&"ghost_project".to_string()), Ok(0));
    assert_eq!(store.get_receipt(&"ghost_project".to_string(), 0), None);
}

/// The documented end-to-end scenario, step by step.
#[test]
fn full_scenario() {
    let mut store = BallotStore::constructor();
    assert_eq!(store.register_project("p1".to_string()), Ok(()));
    assert_eq!(store.get_total_vote_count(&"p1".to_string()), Ok(0));
    assert_eq!(store.vote("p1".to_string(), "caller".to_string()), Ok(()));
    assert_eq!(store.get_total_vote_count(&"p1".to_string()), Ok(1));
    assert_eq!(
        store.register_project("p1".to_string()),
        Err(VoteError::DuplicateProject)
    );
    assert_eq!(
        store.vote("does_not_exist".to_string(), "caller".to_string()),
        Err(VoteError::UnknownProject)
    );
}
