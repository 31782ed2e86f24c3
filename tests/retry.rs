use wimesh::http::{
    backoff_delay, browser_headers, decide, AttemptOutcome, Response, RetryLoop, RetryPolicy,
    RetryStep, TransportError,
};

fn answered(status: u16, body: &str) -> AttemptOutcome {
    AttemptOutcome::Answered(Response { status, body: body.to_string() })
}

/// Drives one request against scripted outcomes; returns the result, the
/// number of attempts and the delays slept.
fn run(policy: RetryPolicy, outcomes: Vec<AttemptOutcome>) -> (Result<Response, TransportError>, usize, Vec<u64>) {
    let mut rl = RetryLoop::new(policy);
    let mut delays = Vec::new();
    let mut script = outcomes.into_iter();
    loop {
        if let Some(e) = rl.exhausted() {
            return (Err(e), rl.attempts_made() as usize, delays);
        }
        let outcome = script.next().expect("script too short");
        match rl.record(outcome) {
            RetryStep::Done(r) => return (Ok(r), rl.attempts_made() as usize, delays),
            RetryStep::Fail(e) => return (Err(e), rl.attempts_made() as usize, delays),
            RetryStep::Retry(d) => delays.push(d),
        }
    }
}

#[test]
fn server_errors_then_success_on_third_attempt() {
    let (r, attempts, delays) = run(
        RetryPolicy::default(),
        vec![answered(500, "busy"), answered(500, "busy"), answered(200, "ok")],
    );
    let r = r.unwrap();
    assert_eq!(r.status, 200);
    assert_eq!(r.body, "ok");
    assert_eq!(attempts, 3);
    assert_eq!(delays, vec![1, 2]);
}

#[test]
fn server_error_on_every_attempt_fails_with_status() {
    let (r, attempts, delays) = run(
        RetryPolicy::default(),
        vec![answered(500, "a"), answered(500, "b"), answered(500, "c"), answered(200, "never")],
    );
    assert_eq!(attempts, 3);
    assert_eq!(delays, vec![1, 2]);
    match r.unwrap_err() {
        TransportError::Status { status, excerpt } => {
            assert_eq!(status, 500);
            assert_eq!(excerpt, "c");
        }
        other => panic!("unexpected error {:?}", other),
    }
}

#[test]
fn not_found_is_terminal_at_once() {
    let (r, attempts, delays) = run(RetryPolicy::default(), vec![answered(404, "missing"), answered(200, "x")]);
    assert_eq!(attempts, 1);
    assert!(delays.is_empty());
    match r.unwrap_err() {
        TransportError::Status { status, excerpt } => {
            assert_eq!(status, 404);
            assert_eq!(excerpt, "missing");
        }
        other => panic!("unexpected error {:?}", other),
    }
}

#[test]
fn terminal_error_excerpt_is_truncated() {
    let body: String = std::iter::repeat('é').take(80).collect();
    match decide(RetryPolicy::default(), 0, answered(403, &body)) {
        RetryStep::Fail(TransportError::Status { status, excerpt }) => {
            assert_eq!(status, 403);
            assert_eq!(excerpt.chars().count(), 50);
        }
        other => panic!("unexpected step {:?}", other),
    }
}

#[test]
fn unreachable_retries_then_surfaces_last_error() {
    let (r, attempts, delays) = run(
        RetryPolicy::default(),
        vec![
            AttemptOutcome::Unreachable("refused".to_string()),
            AttemptOutcome::Unreachable("timeout".to_string()),
            AttemptOutcome::Unreachable("dns".to_string()),
        ],
    );
    assert_eq!(attempts, 3);
    assert_eq!(delays, vec![1, 2]);
    match r.unwrap_err() {
        TransportError::Unreachable(m) => assert_eq!(m, "dns"),
        other => panic!("unexpected error {:?}", other),
    }
}

#[test]
fn zero_attempts_is_max_retries_exceeded() {
    let policy = RetryPolicy { max_retries: 0, base_delay_secs: 1 };
    let (r, attempts, _) = run(policy, vec![]);
    assert_eq!(attempts, 0);
    assert!(matches!(r.unwrap_err(), TransportError::MaxRetriesExceeded));
}

#[test]
fn backoff_doubles_and_saturates() {
    assert_eq!(backoff_delay(1, 0), 1);
    assert_eq!(backoff_delay(1, 1), 2);
    assert_eq!(backoff_delay(3, 4), 48);
    assert_eq!(backoff_delay(1, 70), u64::MAX);
    assert_eq!(backoff_delay(0, 70), 0);
}

#[test]
fn default_policy_and_headers() {
    let p = RetryPolicy::default();
    assert_eq!(p.max_retries, 3);
    assert_eq!(p.base_delay_secs, 1);
    let h = browser_headers();
    assert_eq!(h.len(), 3);
    assert_eq!(h[0].0, "user-agent");
    assert_eq!(h[2].1, "en-US,en;q=0.9,vi;q=0.8");
}
