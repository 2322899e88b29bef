use vote::errors::VoteError;
use vote::step::{handle_step, lookup_count_step, register_step, vote_slot_step, SlotAction};

#[test]
fn missing_handle_is_fatal() {
    assert_eq!(handle_step::<u32>(None), Err(VoteError::MissingStoreHandle));
    assert_eq!(handle_step(Some(7u32)), Ok(7u32));
}

#[test]
fn registration_decision() {
    // absent entry: register with a stored count of zero
    assert_eq!(register_step(None), Ok(0));
    // unpopulated sentinel: still free to register
    assert_eq!(register_step(Some(None)), Ok(0));
    // populated entry: a duplicate, whatever the count
    assert_eq!(register_step(Some(Some(0))), Err(VoteError::DuplicateProject));
    assert_eq!(register_step(Some(Some(41))), Err(VoteError::DuplicateProject));
}

#[test]
fn count_lookup_decision() {
    assert_eq!(lookup_count_step(Some(Some(5))), Ok(5));
    assert_eq!(lookup_count_step(Some(None)), Err(VoteError::UnknownProject));
    assert_eq!(lookup_count_step(None), Err(VoteError::UnknownProject));
}

#[test]
fn vote_slot_decision() {
    // a free slot records the vote and advances the count by exactly one
    assert_eq!(vote_slot_step(0, None), SlotAction::Record { new_count: 1 });
    assert_eq!(vote_slot_step(41, None), SlotAction::Record { new_count: 42 });
    // an occupied slot is a silent no-op, not an error
    assert_eq!(
        vote_slot_step(3, Some(Some("earlier_voter".to_string()))),
        SlotAction::AlreadyFilled
    );
    assert_eq!(vote_slot_step(3, Some(None)), SlotAction::AlreadyFilled);
}
