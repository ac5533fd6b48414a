use s3_algo::{Outcome, RequestConfig, RequestError, RequestState, Step, TimeoutState, SCALE};

fn config() -> RequestConfig {
    RequestConfig {
        timeout_fraction: 2 * SCALE,
        backoff: 3 * SCALE,
        n_retries: 4,
        expected_upload_speed: 1_000 * SCALE,
        avg_power: SCALE / 2,
        avg_min_bytes: 100,
        min_timeout: 250_000,
    }
}

/// Runs a request over the outcomes of its attempts, as a caller would, and
/// gives the result with the number of attempts made and their timeouts.
fn execute(
    n_retries: usize,
    speed: &mut TimeoutState,
    size: u64,
    outcomes: Vec<Outcome<&'static str>>,
) -> (Option<Result<(), RequestError<&'static str>>>, usize, Vec<u64>) {
    let mut state = RequestState::new(n_retries);
    let mut timeouts = Vec::new();
    let mut made = 0;
    for outcome in outcomes {
        assert_eq!(state.get_attempt(), made);
        timeouts.push(state.timeout(speed, size));
        made += 1;
        match state.record(speed, outcome) {
            Step::Done => return (Some(Ok(())), made, timeouts),
            Step::GiveUp(error) => return (Some(Err(error)), made, timeouts),
            Step::Retry(next) => state = next,
        }
    }
    (None, made, timeouts)
}

#[test]
fn first_attempt_succeeds() {
    let mut speed = TimeoutState::new(config());
    let outcomes = vec![Outcome::Success { size: 3_000, elapsed: 2_000_000 }];
    let (result, made, timeouts) = execute(4, &mut speed, 3_000, outcomes);
    assert_eq!(result, Some(Ok(())));
    assert_eq!(made, 1);
    assert_eq!(timeouts, vec![6_250_000]);
    assert_eq!(speed.get_estimate(), 1_250 * SCALE);
}

#[test]
fn succeeds_after_failures() {
    let mut speed = TimeoutState::new(config());
    let outcomes = vec![
        Outcome::Failed("busy"),
        Outcome::TimedOut,
        Outcome::Failed("busy"),
        Outcome::Success { size: 3_000, elapsed: 2_000_000 },
        Outcome::Success { size: 9_000, elapsed: 1 },
    ];
    let (result, made, timeouts) = execute(3, &mut speed, 3_000, outcomes);
    assert_eq!(result, Some(Ok(())));
    assert_eq!(made, 4);
    assert_eq!(timeouts, vec![6_250_000, 18_250_000, 54_250_000, 162_250_000]);
    // Only the successful attempt went into the estimate.
    assert_eq!(speed.get_estimate(), 1_250 * SCALE);
}

#[test]
fn failed_attempts_leave_the_estimate_alone() {
    let mut speed = TimeoutState::new(config());
    let outcomes = vec![Outcome::Failed("busy"), Outcome::TimedOut];
    let (result, made, _) = execute(3, &mut speed, 3_000, outcomes);
    assert_eq!(result, None);
    assert_eq!(made, 2);
    assert_eq!(speed.get_estimate(), 1_000 * SCALE);
}

#[test]
fn always_timing_out_makes_one_attempt_more_than_retries() {
    for r in [0usize, 1, 2, 7] {
        let mut speed = TimeoutState::new(config());
        let outcomes = vec![Outcome::TimedOut; r + 5];
        let (result, made, _) = execute(r, &mut speed, 500, outcomes);
        assert_eq!(result, Some(Err(RequestError::Timeout { attempts: r + 1 })));
        assert_eq!(made, r + 1);
        assert_eq!(speed.get_estimate(), 1_000 * SCALE);
    }
}

#[test]
fn still_running_before_retries_run_out() {
    let mut speed = TimeoutState::new(config());
    let (result, made, _) = execute(3, &mut speed, 500, vec![Outcome::TimedOut; 3]);
    assert_eq!(result, None);
    assert_eq!(made, 3);
}

#[test]
fn last_error_of_the_store_is_reported() {
    let mut speed = TimeoutState::new(config());
    let outcomes = vec![Outcome::Failed("first"), Outcome::TimedOut, Outcome::Failed("last")];
    let (result, made, _) = execute(2, &mut speed, 500, outcomes);
    assert_eq!(result, Some(Err(RequestError::Failed { attempts: 3, cause: "last" })));
    assert_eq!(made, 3);
}

#[test]
fn timeout_of_the_last_attempt_is_reported() {
    let mut speed = TimeoutState::new(config());
    let outcomes = vec![Outcome::Failed("first"), Outcome::TimedOut];
    let (result, _, _) = execute(1, &mut speed, 500, outcomes);
    assert_eq!(result, Some(Err(RequestError::Timeout { attempts: 2 })));
}

#[test]
fn rejection_is_not_retried() {
    let mut speed = TimeoutState::new(config());
    let outcomes = vec![Outcome::TimedOut, Outcome::Rejected("malformed"), Outcome::TimedOut];
    let (result, made, _) = execute(5, &mut speed, 500, outcomes);
    assert_eq!(result, Some(Err(RequestError::Rejected { cause: "malformed" })));
    assert_eq!(made, 2);
    assert_eq!(speed.get_estimate(), 1_000 * SCALE);
}

#[test]
fn no_retries_gives_up_at_once() {
    let mut speed = TimeoutState::new(config());
    let (result, made, _) = execute(0, &mut speed, 500, vec![Outcome::Failed("down")]);
    assert_eq!(result, Some(Err(RequestError::Failed { attempts: 1, cause: "down" })));
    assert_eq!(made, 1);
}

#[test]
fn retry_keeps_the_number_of_retries() {
    let mut speed = TimeoutState::new(config());
    let state = RequestState::new(2);
    assert_eq!(state.get_attempt(), 0);
    match state.record::<&str>(&mut speed, Outcome::TimedOut) {
        Step::Retry(next) => {
            assert_eq!(next.get_attempt(), 1);
            match next.record::<&str>(&mut speed, Outcome::TimedOut) {
                Step::Retry(last) => {
                    assert_eq!(last.get_attempt(), 2);
                    assert_eq!(
                        last.record::<&str>(&mut speed, Outcome::TimedOut),
                        Step::GiveUp(RequestError::Timeout { attempts: 3 })
                    );
                }
                other => panic!("unexpected step {:?}", other),
            }
        }
        other => panic!("unexpected step {:?}", other),
    }
}

#[test]
fn small_success_leaves_the_estimate_alone() {
    let mut speed = TimeoutState::new(config());
    let outcomes = vec![Outcome::Success { size: 99, elapsed: 1 }];
    let (result, _, _) = execute(3, &mut speed, 99, outcomes);
    assert_eq!(result, Some(Ok(())));
    assert_eq!(speed.get_estimate(), 1_000 * SCALE);
}
