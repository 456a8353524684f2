use hls_mirror::fetch::{
    is_success_status, next_action, AttemptOutcome, FetchAction, MAX_ATTEMPTS,
    RETRY_DELAY_MILLIS,
};

fn failure(i: u32) -> AttemptOutcome {
    match i % 3 {
        0 => AttemptOutcome::TimedOut,
        1 => AttemptOutcome::TransportError,
        _ => AttemptOutcome::Response { status: 503, body: vec![1, 2] },
    }
}

/// Drives the policy through the outcomes, counting the attempts made.
fn drive(url: &str, outcomes: Vec<AttemptOutcome>) -> (u32, FetchAction) {
    let mut failed: u32 = 0;
    let mut made: u32 = 0;
    for o in outcomes {
        made += 1;
        match next_action(url, failed, o) {
            FetchAction::Retry { failed: f, delay_millis } => {
                assert_eq!(delay_millis, RETRY_DELAY_MILLIS);
                failed = f;
            }
            end => return (made, end),
        }
    }
    panic!("the outcomes ran out");
}

#[test]
fn succeeds_on_nth_attempt_with_its_bytes() {
    for n in 1..=MAX_ATTEMPTS {
        let mut outcomes: Vec<AttemptOutcome> = (0..n - 1).map(failure).collect();
        outcomes.push(AttemptOutcome::Response { status: 200, body: vec![n as u8, 7, 9] });
        outcomes.push(AttemptOutcome::Response { status: 200, body: vec![0] });
        let (made, end) = drive("http://h/s.ts", outcomes);
        assert_eq!(made, n);
        match end {
            FetchAction::Deliver(b) => assert_eq!(b, vec![n as u8, 7, 9]),
            _ => panic!("expected delivery"),
        }
    }
}

#[test]
fn gives_up_after_five_failures() {
    let mut outcomes: Vec<AttemptOutcome> = (0..MAX_ATTEMPTS).map(failure).collect();
    outcomes.push(AttemptOutcome::Response { status: 200, body: vec![1] });
    let (made, end) = drive("http://h/s.ts", outcomes);
    assert_eq!(made, 5);
    match end {
        FetchAction::GiveUp(e) => {
            assert_eq!(e.url, "http://h/s.ts");
            assert_eq!(e.attempts, 5);
        }
        _ => panic!("expected to give up"),
    }
}

#[test]
fn status_classes() {
    assert!(is_success_status(200));
    assert!(is_success_status(206));
    assert!(is_success_status(299));
    assert!(!is_success_status(199));
    assert!(!is_success_status(300));
    assert!(!is_success_status(404));
}

#[test]
fn non_success_status_is_retried() {
    match next_action("u", 0, AttemptOutcome::Response { status: 404, body: vec![] }) {
        FetchAction::Retry { failed, .. } => assert_eq!(failed, 1),
        _ => panic!("expected a retry"),
    }
    match next_action("u", 4, AttemptOutcome::TimedOut) {
        FetchAction::GiveUp(e) => assert_eq!(e.attempts, 5),
        _ => panic!("expected to give up"),
    }
}
