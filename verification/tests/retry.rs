//! Tests of the retry engine: backoff doubling, the attempt cap, and the
//! classification of terminal outcomes.

use chatwork_sweeper::error::Error;
use chatwork_sweeper::retry::{
    run_retry, AttemptOutcome, RetryState, RetryStep, INITIAL_RETRY_DELAY_MS,
    MAX_RETRY_ATTEMPTS,
};

const CONTEXT: &str = "API request failed";

#[test]
fn test_rate_limited_then_success_backs_off_with_doubling_delays() {
    // Two rate-limited attempts, then a success: three attempts in all, and
    // the delays slept are the initial delay, then twice that.
    let mut state = RetryState::new(INITIAL_RETRY_DELAY_MS);
    let mut delays: Vec<u64> = Vec::new();
    let mut attempts: usize = 0;

    for _ in 0..2 {
        attempts += 1;
        match state.on_attempt(&AttemptOutcome::RateLimited, CONTEXT) {
            RetryStep::Backoff { delay_ms } => delays.push(delay_ms),
            _ => panic!("a rate-limited attempt below the cap must back off"),
        }
    }
    attempts += 1;
    assert!(matches!(state.on_attempt(&AttemptOutcome::Success, CONTEXT), RetryStep::Done));

    assert_eq!(attempts, 3);
    assert_eq!(delays, vec![10_000, 20_000]);
}

#[test]
fn test_rate_limited_every_time_exhausts_after_five_attempts() {
    // Five rate-limited attempts: four backoffs with doubling delays, then
    // the terminal retries-exhausted error. A sixth attempt never happens,
    // because the fifth outcome already ends the call.
    let mut state = RetryState::new(INITIAL_RETRY_DELAY_MS);
    let mut delays: Vec<u64> = Vec::new();
    let mut attempts: usize = 0;

    let verdict = loop {
        attempts += 1;
        match state.on_attempt(&AttemptOutcome::RateLimited, CONTEXT) {
            RetryStep::Backoff { delay_ms } => delays.push(delay_ms),
            step => break step,
        }
    };

    assert_eq!(attempts, MAX_RETRY_ATTEMPTS);
    assert_eq!(delays, vec![10_000, 20_000, 40_000, 80_000]);
    assert!(matches!(verdict, RetryStep::Fail(Error::MaxRetriesExceeded)));
}

#[test]
fn test_success_completes_first_attempt() {
    let mut state = RetryState::new(INITIAL_RETRY_DELAY_MS);
    assert!(matches!(state.on_attempt(&AttemptOutcome::Success, CONTEXT), RetryStep::Done));
}

#[test]
fn test_malformed_success_body_is_terminal() {
    let mut state = RetryState::new(INITIAL_RETRY_DELAY_MS);
    let step = state.on_attempt(&AttemptOutcome::MalformedBody, CONTEXT);
    assert!(matches!(step, RetryStep::Fail(Error::DeserializationError)));
}

#[test]
fn test_connection_failure_is_terminal() {
    let mut state = RetryState::new(INITIAL_RETRY_DELAY_MS);
    let step = state.on_attempt(&AttemptOutcome::ConnectionFailed, CONTEXT);
    assert!(matches!(step, RetryStep::Fail(Error::TransportError)));
}

#[test]
fn test_error_response_carries_status_and_parsed_detail() {
    // The error message combines the context with the "errors" member of
    // the parsed response body.
    let mut state = RetryState::new(INITIAL_RETRY_DELAY_MS);
    let outcome = AttemptOutcome::Failed {
        status: 500,
        body: "{\"errors\":[\"invalid room\"]}".to_string(),
    };
    match state.on_attempt(&outcome, CONTEXT) {
        RetryStep::Fail(Error::ApiError(status, message)) => {
            assert_eq!(status, 500);
            assert_eq!(message, "API request failed: Array [String(\"invalid room\")]");
        }
        _ => panic!("an unexpected status must fail as an API error"),
    }
}

#[test]
fn test_error_response_with_unparsable_body() {
    // An unparsable body is read leniently as null; its "errors" member is
    // again null.
    let mut state = RetryState::new(INITIAL_RETRY_DELAY_MS);
    let outcome = AttemptOutcome::Failed { status: 404, body: "not json".to_string() };
    match state.on_attempt(&outcome, CONTEXT) {
        RetryStep::Fail(Error::ApiError(status, message)) => {
            assert_eq!(status, 404);
            assert_eq!(message, "API request failed: Null");
        }
        _ => panic!("an unexpected status must fail as an API error"),
    }
}

#[test]
fn test_replay_rate_limited_then_success() {
    let outcomes = vec![
        AttemptOutcome::RateLimited,
        AttemptOutcome::RateLimited,
        AttemptOutcome::RateLimited,
        AttemptOutcome::Success,
    ];
    let replay = run_retry(INITIAL_RETRY_DELAY_MS, &outcomes, CONTEXT);
    assert_eq!(replay.attempts, 4);
    assert_eq!(replay.delays, vec![10_000, 20_000, 40_000]);
    assert!(matches!(replay.end, Some(Ok(()))));
}

#[test]
fn test_replay_exhaustion_ignores_later_outcomes() {
    // Five rate-limited responses reach the cap; the success that would
    // follow is never requested.
    let outcomes = vec![
        AttemptOutcome::RateLimited,
        AttemptOutcome::RateLimited,
        AttemptOutcome::RateLimited,
        AttemptOutcome::RateLimited,
        AttemptOutcome::RateLimited,
        AttemptOutcome::Success,
    ];
    let replay = run_retry(INITIAL_RETRY_DELAY_MS, &outcomes, CONTEXT);
    assert_eq!(replay.attempts, 5);
    assert_eq!(replay.delays, vec![10_000, 20_000, 40_000, 80_000]);
    assert!(matches!(replay.end, Some(Err(Error::MaxRetriesExceeded))));
}

#[test]
fn test_only_rate_limiting_is_retried() {
    // A rate-limited attempt backs off; every other outcome ends the call
    // on the spot, one single attempt.
    let mut state = RetryState::new(INITIAL_RETRY_DELAY_MS);
    assert!(matches!(
        state.on_attempt(&AttemptOutcome::RateLimited, CONTEXT),
        RetryStep::Backoff { .. }
    ));

    let mut fresh = RetryState::new(INITIAL_RETRY_DELAY_MS);
    let outcome = AttemptOutcome::Failed { status: 403, body: String::new() };
    assert!(matches!(fresh.on_attempt(&outcome, CONTEXT), RetryStep::Fail(_)));
}
