use frame_harness::assertion::{
    check_current_state, check_event, check_event_count, check_resource, CheckFailure,
};

#[derive(Debug, PartialEq)]
enum Mode {
    Menu,
    Playing,
}

#[test]
fn zero_count_passes_on_a_silent_frame() {
    assert_eq!(check_event_count(0, 0), Ok(()));
}

#[test]
fn zero_count_fails_when_events_came() {
    assert_eq!(
        check_event_count(0, 1),
        Err(CheckFailure::CountMismatch { expected: 0, actual: 1 })
    );
    assert_eq!(
        check_event_count(0, 3),
        Err(CheckFailure::CountMismatch { expected: 0, actual: 3 })
    );
}

#[test]
fn count_check_exact_match_and_large_counts() {
    assert_eq!(check_event_count(2, 2), Ok(()));
    assert_eq!(check_event_count(255, 255), Ok(()));
    assert_eq!(
        check_event_count(255, 256),
        Err(CheckFailure::CountMismatch { expected: 255, actual: 256 })
    );
}

#[test]
fn value_check_without_event_is_missing_not_mismatch() {
    assert_eq!(check_event::<u8>(None, &5), Err(CheckFailure::MissingEvent));
}

#[test]
fn value_check_on_matching_and_differing_event() {
    assert_eq!(check_event(Some(&5u8), &5u8), Ok(()));
    assert_eq!(check_event(Some(&4u8), &5u8), Err(CheckFailure::EventMismatch));
}

#[test]
fn state_check_reads_the_value_given_at_check_time() {
    let expected = Mode::Playing;
    let mut current = Mode::Menu;
    assert_eq!(check_current_state(&current, &expected), Err(CheckFailure::StateMismatch));
    current = Mode::Playing;
    assert_eq!(check_current_state(&current, &expected), Ok(()));
}

#[test]
fn resource_check_reads_the_value_given_at_check_time() {
    let expected = 10u32;
    let mut score = 10u32;
    assert_eq!(check_resource(&score, &expected), Ok(()));
    score += 1;
    assert_eq!(check_resource(&score, &expected), Err(CheckFailure::ResourceMismatch));
}
