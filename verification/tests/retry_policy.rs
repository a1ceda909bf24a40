use stackure::{next_step, Attempt, StackureError, Step};

const SECOND: u64 = 1_000_000_000;

fn finished(s: Step) -> Result<String, StackureError> {
    match s {
        Step::Finish(r) => r,
        Step::RetryAfterDelay => panic!("expected the call to finish"),
    }
}

/// Drives a call the way the transport loop does, returning the result and
/// how many attempts were sent.
fn drive(outcomes: Vec<(Attempt, u64)>) -> (Result<String, StackureError>, usize) {
    let mut attempt: u32 = 0;
    for (sent, (outcome, remaining)) in outcomes.into_iter().enumerate() {
        match next_step(attempt, outcome, remaining) {
            Step::Finish(r) => return (r, sent + 1),
            Step::RetryAfterDelay => attempt += 1,
        }
    }
    panic!("ran out of outcomes")
}

#[test]
fn timeout_is_never_retried() {
    let r = finished(next_step(0, Attempt::TimedOut, SECOND));
    assert_eq!(r, Err(StackureError::Timeout("request timed out after 2s".into())));
    let (r, hits) = drive(vec![(Attempt::TimedOut, 0)]);
    assert_eq!((r.unwrap_err().code(), hits), ("timeout", 1));
}

#[test]
fn server_error_is_retried_once() {
    let boom = || Attempt::Answered { status: 500, body: b"boom".to_vec() };
    let (r, hits) = drive(vec![(boom(), 3 * SECOND / 2), (boom(), SECOND)]);
    assert_eq!(hits, 2);
    assert_eq!(r, Err(StackureError::Network("api error (500): boom".into())));
}

#[test]
fn flaky_server_succeeds_on_retry() {
    let (r, hits) = drive(vec![
        (Attempt::Answered { status: 500, body: b"boom".to_vec() }, 3 * SECOND / 2),
        (Attempt::Answered { status: 200, body: br#"{"message":"ok"}"#.to_vec() }, SECOND),
    ]);
    assert_eq!((r, hits), (Ok(r#"{"message":"ok"}"#.to_string()), 2));
}

#[test]
fn connection_failure_is_retried_while_time_is_left() {
    let fail = || Attempt::Failed(StackureError::Network("network request failed: x".into()));
    assert!(matches!(next_step(0, fail(), SECOND), Step::RetryAfterDelay));
    // Exactly the delay left is not enough.
    let r = finished(next_step(0, fail(), SECOND / 2));
    assert_eq!(r, Err(StackureError::Network("network request failed: x".into())));
    let r = finished(next_step(1, fail(), SECOND));
    assert_eq!(r.unwrap_err().code(), "network");
}

#[test]
fn client_errors_are_not_retried() {
    let r = finished(next_step(0, Attempt::Answered { status: 401, body: Vec::new() }, SECOND));
    assert_eq!(r, Err(StackureError::Auth("unknown error".into())));
    let r = finished(next_step(0, Attempt::Answered { status: 499, body: b"x".to_vec() }, SECOND));
    assert_eq!(r, Err(StackureError::Network("api error (499): x".into())));
}
