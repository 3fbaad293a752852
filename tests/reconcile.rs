use controller::reconcile::{
    check_prerequisite, error_policy, finish_reconcile, next_action, patch_for, Error,
    ReconcilerAction, RESYNC_SECS, RETRY_SECS,
};
use controller::state::State;
use controller::status::{desired_status, info_is_bad, status_patch, FooSpec, FooStatus};

fn spec(info: &str) -> FooSpec {
    FooSpec { name: "foo".to_string(), info: info.to_string() }
}

fn state(last_event: i64, handled_count: u64) -> State {
    State { last_event, handled_count }
}

#[test]
fn bad_word_detection() {
    assert!(!info_is_bad(""));
    assert!(!info_is_bad("ba"));
    assert!(info_is_bad("bad"));
    assert!(info_is_bad("badge"));
    assert!(info_is_bad("a badly made thing"));
    assert!(info_is_bad("this is bad"));
    assert!(info_is_bad("bbad"));
    assert!(!info_is_bad("ba d"));
    assert!(!info_is_bad("BAD"));
    assert!(!info_is_bad("everything is fine"));
    assert!(info_is_bad("caf\u{e9} bad"));
    assert!(!info_is_bad("b\u{e1}d"));
}

#[test]
fn bad_word_agrees_with_str_contains() {
    let samples = ["", "b", "ba", "bad", "xbadx", "abba", "dab", "bab ad", "badbad", "\u{1f600}bad"];
    for s in samples.iter() {
        assert_eq!(info_is_bad(s), s.contains("bad"));
    }
}

#[test]
fn fine_info_is_not_bad() {
    let foo = spec("everything is fine");
    assert_eq!(desired_status(&foo), FooStatus { is_bad: false });
    let body = patch_for(Some(&foo)).unwrap();
    assert_eq!(body, "{\"status\":{\"is_bad\":false}}");
    let mut s = state(10, 4);
    s.record_attempt_at(20);
    let outcome = finish_reconcile(&mut s, Ok(()));
    assert_eq!(outcome, Ok(ReconcilerAction { requeue_after_secs: Some(1800) }));
    assert_eq!(next_action(&outcome).requeue_after_secs, Some(1800));
    assert_eq!(s, state(20, 5));
}

#[test]
fn bad_info_is_bad() {
    let foo = spec("this is bad news");
    assert_eq!(desired_status(&foo), FooStatus { is_bad: true });
    let body = patch_for(Some(&foo)).unwrap();
    assert_eq!(body, "{\"status\":{\"is_bad\":true}}");
    let mut s = state(0, 0);
    s.record_attempt_at(7);
    let outcome = finish_reconcile(&mut s, Ok(()));
    assert_eq!(next_action(&outcome), ReconcilerAction { requeue_after_secs: Some(1800) });
    assert_eq!(s, state(7, 1));
}

#[test]
fn rejected_patch_retries_without_counting() {
    let mut s = state(100, 3);
    s.record_attempt_at(150);
    let outcome = finish_reconcile(&mut s, Err(Error::StatusPatchFailure));
    assert_eq!(outcome, Err(Error::StatusPatchFailure));
    assert_eq!(s, state(150, 3));
    assert_eq!(next_action(&outcome), ReconcilerAction { requeue_after_secs: Some(360) });
}

#[test]
fn vanished_object_is_not_found() {
    assert_eq!(patch_for(None), Err(Error::ObjectNotFound));
    let outcome: Result<ReconcilerAction, Error> = Err(Error::ObjectNotFound);
    assert_eq!(next_action(&outcome).requeue_after_secs, Some(360));
}

#[test]
fn every_failure_gets_the_same_backoff() {
    let kinds = [
        Error::SerializationFailure,
        Error::StatusPatchFailure,
        Error::ObjectNotFound,
        Error::StartupPrerequisiteMissing,
    ];
    for e in kinds.iter() {
        assert_eq!(error_policy(e), ReconcilerAction { requeue_after_secs: Some(RETRY_SECS) });
        let mut s = state(5, 9);
        assert_eq!(finish_reconcile(&mut s, Err(*e)), Err(*e));
        assert_eq!(s.handled_count, 9);
    }
    assert_eq!(RETRY_SECS, 360);
    assert_eq!(RESYNC_SECS, 1800);
}

#[test]
fn missing_resource_definition_stops_startup() {
    assert_eq!(check_prerequisite(false), Err(Error::StartupPrerequisiteMissing));
    assert_eq!(check_prerequisite(true), Ok(()));
}

#[test]
fn last_event_never_goes_back() {
    let mut s = state(1000, 2);
    s.record_attempt_at(400);
    assert_eq!(s, state(1000, 2));
    s.record_attempt_at(1000);
    assert_eq!(s, state(1000, 2));
    s.record_attempt_at(1001);
    assert_eq!(s, state(1001, 2));
}

#[test]
fn handled_count_stops_at_its_largest_value() {
    let mut s = state(0, u64::MAX - 1);
    s.record_handled();
    assert_eq!(s.handled_count, u64::MAX);
    s.record_handled();
    assert_eq!(s.handled_count, u64::MAX);
    let mut t = state(0, u64::MAX);
    assert_eq!(finish_reconcile(&mut t, Ok(())).unwrap().requeue_after_secs, Some(1800));
    assert_eq!(t.handled_count, u64::MAX);
}

#[test]
fn new_state_reads_the_clock() {
    let s = State::new();
    assert_eq!(s.handled_count, 0);
    // later than 2020-01-01 in milliseconds since the epoch
    assert!(s.last_event > 1_577_836_800_000);
    let mut t = state(0, 6);
    t.record_attempt();
    assert!(t.last_event > 1_577_836_800_000);
    assert_eq!(t.handled_count, 6);
}

#[test]
fn status_patch_text_is_status_only() {
    assert_eq!(status_patch(&FooStatus { is_bad: true }), "{\"status\":{\"is_bad\":true}}");
    assert_eq!(status_patch(&FooStatus { is_bad: false }), "{\"status\":{\"is_bad\":false}}");
}
