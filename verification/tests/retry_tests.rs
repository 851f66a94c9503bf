use canvas_todo::error::{exhausted_fetch_error, plain_fetch_error, FetchErrorKind};
use canvas_todo::retry::{RetryDecision, RetryPolicy, RetryState, INITIAL_RETRY_INTERVAL_MS, MAX_RETRY_ELAPSED_MS};

#[test]
fn two_transport_failures_then_success_takes_three_attempts() {
    let mut state = RetryState::new(RetryPolicy::standard());
    let mut attempts = 1; // the first attempt fails at the transport level
    let d1 = state.on_failure(&FetchErrorKind::Transport);
    assert_eq!(d1, RetryDecision::RetryAfter { delay_ms: 10 });
    attempts += 1; // the second attempt fails too
    let d2 = state.on_failure(&FetchErrorKind::Transport);
    assert_eq!(d2, RetryDecision::RetryAfter { delay_ms: 20 });
    attempts += 1; // the third attempt succeeds: nothing more is asked
    assert_eq!(attempts, 3);
    assert_eq!(state.slept_ms, 30);
    assert!(state.slept_ms <= MAX_RETRY_ELAPSED_MS);
}

#[test]
fn failing_every_attempt_gives_up_within_the_ceiling() {
    let mut state = RetryState::new(RetryPolicy::standard());
    let mut retries = 0;
    loop {
        match state.on_failure(&FetchErrorKind::Transport) {
            RetryDecision::RetryAfter { delay_ms } => {
                assert!(delay_ms >= INITIAL_RETRY_INTERVAL_MS);
                retries += 1;
                assert!(retries <= MAX_RETRY_ELAPSED_MS);
            }
            RetryDecision::GiveUp => break,
        }
    }
    assert!(retries > 0);
    assert!(state.slept_ms <= MAX_RETRY_ELAPSED_MS);
    // intervals double from 10ms under a 3000ms ceiling: eight waits fit,
    // 10 + 20 + ... + 1280 = 2550ms
    assert_eq!(retries, 8);
    assert_eq!(state.slept_ms, 2550);
    let error = exhausted_fetch_error("/api/v1/courses".to_string(), FetchErrorKind::Transport);
    assert!(error.retries_exhausted);
    assert!(error.describe().contains("(retries exhausted)"));
}

#[test]
fn status_failures_are_retryable_and_decode_failures_are_not() {
    let mut state = RetryState::new(RetryPolicy::standard());
    let d = state.on_failure(&FetchErrorKind::HttpStatus { code: 503 });
    assert!(matches!(d, RetryDecision::RetryAfter { .. }));
    let d2 = state.on_failure(&FetchErrorKind::Decode {
        path: "items[3].due_at".to_string(),
    });
    assert_eq!(d2, RetryDecision::GiveUp);
}

#[test]
fn error_reports_name_the_path_and_the_cause() {
    let transport = plain_fetch_error("/api/v1/courses".to_string(), FetchErrorKind::Transport);
    assert_eq!(transport.describe(), "Unable to fetch /api/v1/courses");
    let status = plain_fetch_error(
        "/api/v1/courses".to_string(),
        FetchErrorKind::HttpStatus { code: 401 },
    );
    assert_eq!(
        status.describe(),
        "Server returned error 401 fetching /api/v1/courses (make sure your credentials are valid)"
    );
    let decode = plain_fetch_error(
        "/api/v1/courses/7/assignments?per_page=10000&include=submission".to_string(),
        FetchErrorKind::Decode {
            path: "[0].submission.submitted_at".to_string(),
        },
    );
    assert_eq!(
        decode.describe(),
        "Unable to parse /api/v1/courses/7/assignments?per_page=10000&include=submission at [0].submission.submitted_at"
    );
}
