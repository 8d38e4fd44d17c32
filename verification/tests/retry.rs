use crawler::retry::{
    backoff, jittered_backoff, may_resume, FetchAttempts, RetryDecision, RetryPolicy, RetryStep,
    MAX_ATTEMPTS, MAX_BACKOFF_ROUND, PRESSURE_THRESHOLD,
};

#[test]
fn standard_policy_has_the_design_defaults() {
    let policy = RetryPolicy::standard();
    assert_eq!(policy.max_attempts, 8);
    assert_eq!(policy.pressure, 2);
    assert_eq!(MAX_ATTEMPTS, 8);
    assert_eq!(PRESSURE_THRESHOLD, 2);
}

#[test]
fn failure_under_pressure_with_attempts_left_backs_off() {
    let policy = RetryPolicy::standard();
    for attempts in 1..8 {
        assert_eq!(policy.after_failure(attempts, 2), RetryDecision::BackOff);
        assert_eq!(policy.after_failure(attempts, 500), RetryDecision::BackOff);
    }
}

#[test]
fn failure_without_pressure_is_final() {
    let policy = RetryPolicy::standard();
    for attempts in 1..10 {
        assert_eq!(policy.after_failure(attempts, 0), RetryDecision::GiveUp);
        assert_eq!(policy.after_failure(attempts, 1), RetryDecision::GiveUp);
    }
}

#[test]
fn failure_of_the_last_attempt_is_final() {
    let policy = RetryPolicy::standard();
    assert_eq!(policy.after_failure(8, 1000), RetryDecision::GiveUp);
    assert_eq!(policy.after_failure(9, 1000), RetryDecision::GiveUp);
    assert_eq!(policy.after_failure(u32::MAX, usize::MAX), RetryDecision::GiveUp);
}

#[test]
fn permanently_failing_transport_ends_after_at_most_eight_attempts() {
    let policy = RetryPolicy::standard();
    for active in [2usize, 3, 50, usize::MAX] {
        let mut attempts = 0u32;
        loop {
            attempts += 1;
            assert!(attempts <= 8, "attempt {} was made", attempts);
            // The request fails, every time.
            match policy.after_failure(attempts, active) {
                RetryDecision::BackOff => continue,
                RetryDecision::GiveUp => break,
            }
        }
        assert_eq!(attempts, 8);
    }
}

#[test]
fn the_first_attempt_is_always_made() {
    let none = RetryPolicy { max_attempts: 0, pressure: 2 };
    assert_eq!(none.after_failure(1, 10), RetryDecision::GiveUp);
    let one = RetryPolicy { max_attempts: 1, pressure: 2 };
    assert_eq!(one.after_failure(1, 10), RetryDecision::GiveUp);
    let two = RetryPolicy { max_attempts: 2, pressure: 2 };
    assert_eq!(two.after_failure(1, 10), RetryDecision::BackOff);
    assert_eq!(two.after_failure(2, 10), RetryDecision::GiveUp);
}

#[test]
fn resume_only_under_half_of_the_pressure_seen() {
    assert!(may_resume(0, 1));
    assert!(may_resume(0, 2));
    assert!(!may_resume(1, 2));
    assert!(may_resume(2, 5));
    assert!(!may_resume(3, 6));
    assert!(may_resume(2, 6));
    assert!(!may_resume(0, 0));
    assert!(!may_resume(5, 0));
    assert!(may_resume(usize::MAX / 2, usize::MAX));
    assert!(!may_resume(usize::MAX / 2 + 1, usize::MAX));
    assert!(!may_resume(usize::MAX, usize::MAX));
}

#[test]
fn backoff_is_two_to_the_round_times_the_jitter() {
    assert_eq!(backoff(0, 0), 0);
    assert_eq!(backoff(0, 7), 7);
    assert_eq!(backoff(3, 5), 40);
    assert_eq!(backoff(1, 255), 510);
    assert_eq!(backoff(9, 255), 130_560);
    assert_eq!(backoff(10, 1), 1024);
    assert_eq!(backoff(40, 0), 0);
}

#[test]
fn backoff_at_the_largest_round_fits() {
    assert_eq!(MAX_BACKOFF_ROUND, 56);
    assert_eq!(backoff(56, 1), 1u64 << 56);
    assert_eq!(backoff(56, 255), 255u64 << 56);
    assert_eq!(backoff(56, 255), u64::MAX - (1u64 << 56) + 1);
}

#[test]
fn jittered_backoff_is_a_multiple_within_range() {
    for round in [0u32, 1, 2, 9, 30, 56] {
        for _ in 0..50 {
            let delay = jittered_backoff(round);
            let unit = 1u64 << round;
            assert_eq!(delay % unit, 0);
            assert!(delay / unit <= 255);
        }
    }
}

#[test]
fn jitter_varies() {
    let mut seen = std::collections::HashSet::new();
    for _ in 0..200 {
        seen.insert(jittered_backoff(0));
    }
    assert!(seen.len() > 1, "200 draws gave one value only");
}

#[test]
fn a_worker_starts_at_its_first_attempt() {
    let state = FetchAttempts::first(RetryPolicy::standard());
    assert_eq!(state.attempts(), 1);
    assert_eq!(state.round(), None);
}

#[test]
fn failure_without_pressure_fails_the_worker() {
    let mut state = FetchAttempts::first(RetryPolicy::standard());
    assert_eq!(state.on_failure_with(1, 200), RetryStep::Fail);
    assert_eq!(state.attempts(), 1);
    assert_eq!(state.round(), None);
}

#[test]
fn backoff_rounds_grow_until_the_pressure_is_relieved() {
    let mut state = FetchAttempts::first(RetryPolicy::standard());
    // The first attempt fails with 10 workers active: sleep in round 1.
    assert_eq!(state.on_failure_with(10, 3), RetryStep::Sleep { millis: 6 });
    assert_eq!(state.round(), Some(1));
    // 5 active is not under half of 10: sleep again, one round on.
    assert_eq!(state.on_wake_with(5, 3), RetryStep::Sleep { millis: 12 });
    assert_eq!(state.round(), Some(2));
    assert_eq!(state.on_wake_with(9, 1), RetryStep::Sleep { millis: 8 });
    assert_eq!(state.round(), Some(3));
    assert_eq!(state.attempts(), 1);
    // 4 active is: the second attempt.
    assert_eq!(state.on_wake_with(4, 77), RetryStep::Request);
    assert_eq!(state.attempts(), 2);
    assert_eq!(state.round(), None);
    // The second attempt fails: the first sleep is in round 2.
    assert_eq!(state.on_failure_with(6, 1), RetryStep::Sleep { millis: 4 });
    assert_eq!(state.round(), Some(2));
}

#[test]
fn waking_without_a_backoff_asks_for_the_request() {
    let mut state = FetchAttempts::first(RetryPolicy::standard());
    assert_eq!(state.on_wake_with(0, 9), RetryStep::Request);
    assert_eq!(state.attempts(), 1);
}

#[test]
fn state_machine_with_permanent_failure_makes_eight_attempts() {
    let mut state = FetchAttempts::first(RetryPolicy::standard());
    let mut requests = 1;
    loop {
        match state.on_failure(100) {
            RetryStep::Fail => break,
            RetryStep::Sleep { millis } => {
                let round = state.round().expect("a backoff is under way");
                assert_eq!(round, state.attempts());
                assert_eq!(millis % (1u64 << round), 0);
                assert!(millis >> round <= 255);
                // The pressure is gone at once.
                assert_eq!(state.on_wake(0), RetryStep::Request);
                requests += 1;
                assert_eq!(state.attempts(), requests);
            }
            RetryStep::Request => panic!("a failure never asks for the request directly"),
        }
    }
    assert_eq!(requests, 8);
    assert_eq!(state.attempts(), 8);
}

#[test]
fn state_machine_keeps_sleeping_while_the_pressure_lasts() {
    let mut state = FetchAttempts::first(RetryPolicy::standard());
    assert!(matches!(state.on_failure(4), RetryStep::Sleep { .. }));
    assert_eq!(state.round(), Some(1));
    for expected_round in 2..=20 {
        match state.on_wake(2) {
            RetryStep::Sleep { millis } => {
                assert_eq!(state.round(), Some(expected_round));
                assert_eq!(millis % (1u64 << expected_round), 0);
            }
            other => panic!("expected a sleep, got {:?}", other),
        }
        assert_eq!(state.attempts(), 1);
    }
    assert_eq!(state.on_wake(1), RetryStep::Request);
    assert_eq!(state.attempts(), 2);
}

/// Brings a worker to the failure of attempt number `attempt`: every attempt before it fails under
/// pressure, and the pressure is gone after one sleep.
fn at_attempt(attempt: u32) -> FetchAttempts {
    let mut state = FetchAttempts::first(RetryPolicy::standard());
    while state.attempts() < attempt {
        assert!(matches!(state.on_failure_with(10, 1), RetryStep::Sleep { .. }));
        assert_eq!(state.on_wake_with(0, 1), RetryStep::Request);
    }
    state
}

#[test]
fn first_sleep_after_the_third_attempt_lasts_eight_times_the_jitter() {
    let mut state = at_attempt(3);
    assert_eq!(state.attempts(), 3);
    assert_eq!(state.on_failure_with(2, 5), RetryStep::Sleep { millis: 40 });
    assert_eq!(state.round(), Some(3));
}

#[test]
fn first_sleep_of_every_backoff_has_the_round_of_the_failed_attempt() {
    for attempt in 1..8u32 {
        let mut state = at_attempt(attempt);
        assert_eq!(state.on_failure_with(50, 3), RetryStep::Sleep { millis: 3u64 << attempt });
        assert_eq!(state.round(), Some(attempt));
        assert_eq!(state.on_wake_with(25, 3), RetryStep::Sleep { millis: 3u64 << (attempt + 1) });
        assert_eq!(state.round(), Some(attempt + 1));
    }
    let mut last = at_attempt(8);
    assert_eq!(last.on_failure_with(50, 3), RetryStep::Fail);
}

#[test]
fn pressure_that_lasts_ends_the_wait_with_a_failure() {
    let mut state = FetchAttempts::first(RetryPolicy::standard());
    assert_eq!(state.on_failure_with(4, 1), RetryStep::Sleep { millis: 2 });
    let mut sleeps = 1;
    loop {
        // The counter never drops: four workers stay active.
        match state.on_wake_with(4, 1) {
            RetryStep::Sleep { millis } => {
                sleeps += 1;
                assert!(sleeps <= 56, "sleep number {} was ordered", sleeps);
                assert_eq!(state.round(), Some(sleeps));
                assert_eq!(millis, 1u64 << sleeps);
            }
            RetryStep::Fail => break,
            RetryStep::Request => panic!("the pressure was never relieved"),
        }
    }
    assert_eq!(sleeps, 56);
    assert_eq!(state.round(), None);
    assert_eq!(state.attempts(), 1);
}

#[test]
fn relief_at_the_largest_round_still_gives_the_next_attempt() {
    let mut state = FetchAttempts::first(RetryPolicy::standard());
    assert!(matches!(state.on_failure_with(4, 0), RetryStep::Sleep { millis: 0 }));
    while state.round() != Some(56) {
        assert!(matches!(state.on_wake_with(4, 0), RetryStep::Sleep { millis: 0 }));
    }
    assert_eq!(state.on_wake_with(1, 0), RetryStep::Request);
    assert_eq!(state.attempts(), 2);
}

#[test]
fn permanently_failing_worker_ends_whatever_the_counter_reads() {
    // The counter as a worker may meet it: high, low, and in between, in a fixed mix.
    let readings = [2usize, 7, 0, 3, 1, 900, 2, 2, 5, 1, 0, 64, 3, 8, 1, 4];
    for offset in 0..readings.len() {
        let mut at = offset;
        let mut read = || {
            at += 1;
            readings[at % readings.len()]
        };
        let mut state = FetchAttempts::first(RetryPolicy::standard());
        let mut requests = 1u32;
        let mut sleeps = 0u32;
        'worker: loop {
            // The request fails, every time.
            let mut step = state.on_failure(read());
            loop {
                match step {
                    RetryStep::Fail => break 'worker,
                    RetryStep::Request => {
                        requests += 1;
                        break;
                    }
                    RetryStep::Sleep { .. } => {
                        sleeps += 1;
                        step = state.on_wake(read());
                    }
                }
            }
            assert!(requests <= 8);
            assert!(sleeps <= 8 * 56);
        }
        assert!(requests <= 8);
        assert!(sleeps <= 8 * 56);
        assert_eq!(state.attempts(), requests);
    }
}
