use dns_bench::duration::Duration;
use dns_bench::result::TimeResult;
use dns_bench::timeout::{
    classify, AdaptiveTimeout, AttemptOutcome, ABORT_AFTER_CONSECUTIVE_FAILURES, MINIMAL_TIMEOUT_MS,
    REDUCED_TIMEOUT_MS, REDUCE_TIMEOUT_AFTER_CONSECUTIVE_FAILURES,
};

#[test]
fn policy_constants() {
    assert_eq!(REDUCE_TIMEOUT_AFTER_CONSECUTIVE_FAILURES, 10);
    assert_eq!(REDUCED_TIMEOUT_MS, 500);
    assert_eq!(ABORT_AFTER_CONSECUTIVE_FAILURES, 15);
    assert_eq!(MINIMAL_TIMEOUT_MS, 100);
}

#[test]
fn fifteen_timeouts_step_the_timeout_down() {
    let mut timeout = AdaptiveTimeout::new(3000);
    assert_eq!(timeout.current_timeout_ms(), 3000);
    for failure in 1..=15u32 {
        timeout.record(AttemptOutcome::Timeout);
        assert_eq!(timeout.consecutive_timeout_failures, failure);
        let expected = if failure < 10 {
            3000
        } else if failure < 15 {
            500
        } else {
            100
        };
        assert_eq!(timeout.current_timeout_ms(), expected, "after failure {failure}");
    }
    timeout.record(AttemptOutcome::Timeout);
    assert_eq!(timeout.current_timeout_ms(), 100);
    assert_eq!(timeout.consecutive_timeout_failures, 16);
}

#[test]
fn success_resets_the_count_and_keeps_the_timeout() {
    for failures_before in 0..20u32 {
        let mut timeout = AdaptiveTimeout::new(3000);
        for _ in 0..failures_before {
            timeout.record(AttemptOutcome::Timeout);
        }
        let reduced = timeout.current_timeout_ms();
        timeout.record(AttemptOutcome::Success);
        assert_eq!(timeout.consecutive_timeout_failures, 0);
        assert_eq!(timeout.current_timeout_ms(), reduced);
    }
}

#[test]
fn other_failures_reset_the_count_and_keep_the_timeout() {
    let mut timeout = AdaptiveTimeout::new(3000);
    for _ in 0..9 {
        timeout.record(AttemptOutcome::Timeout);
    }
    timeout.record(AttemptOutcome::OtherFailure);
    assert_eq!(timeout, AdaptiveTimeout { current_timeout_ms: 3000, consecutive_timeout_failures: 0 });
    for _ in 0..9 {
        timeout.record(AttemptOutcome::Timeout);
    }
    assert_eq!(timeout.current_timeout_ms(), 3000);
    timeout.record(AttemptOutcome::Timeout);
    assert_eq!(timeout.current_timeout_ms(), 500);
    timeout.record(AttemptOutcome::OtherFailure);
    assert_eq!(timeout, AdaptiveTimeout { current_timeout_ms: 500, consecutive_timeout_failures: 0 });
}

#[test]
fn timeout_at_or_below_the_reduced_one_is_kept_until_the_abort() {
    for base in [500u64, 499, 100] {
        let mut timeout = AdaptiveTimeout::new(base);
        for failure in 1..=14 {
            timeout.record(AttemptOutcome::Timeout);
            assert_eq!(timeout.current_timeout_ms(), base, "base {base}, failure {failure}");
        }
        timeout.record(AttemptOutcome::Timeout);
        assert_eq!(timeout.current_timeout_ms(), 100);
    }
}

#[test]
fn timeout_never_rises_from_a_base_of_at_least_the_minimal_one() {
    let script = [
        AttemptOutcome::Timeout,
        AttemptOutcome::Timeout,
        AttemptOutcome::Success,
        AttemptOutcome::OtherFailure,
    ];
    for base in [100u64, 101, 500, 501, 1000, 60_000] {
        let mut timeout = AdaptiveTimeout::new(base);
        let mut previous = base;
        for step in 0..200 {
            let outcome = if step % 37 < 20 { AttemptOutcome::Timeout } else { script[step % 4] };
            timeout.record(outcome);
            assert!(timeout.current_timeout_ms() <= previous);
            assert!(timeout.current_timeout_ms() >= 100);
            previous = timeout.current_timeout_ms();
        }
    }
}

#[test]
fn results_are_classified_by_their_text() {
    assert_eq!(classify(&TimeResult::Succeeded(Duration::new(0, 5))), AttemptOutcome::Success);
    assert_eq!(
        classify(&TimeResult::Failed(String::from("request timed out"))),
        AttemptOutcome::Timeout
    );
    assert_eq!(classify(&TimeResult::Failed(String::from("Timeout"))), AttemptOutcome::Timeout);
    assert_eq!(
        classify(&TimeResult::Failed(String::from("connection refused"))),
        AttemptOutcome::OtherFailure
    );
    let mut timeout = AdaptiveTimeout::new(3000);
    for _ in 0..10 {
        timeout.observe(&TimeResult::Failed(String::from("io error: timed out")));
    }
    assert_eq!(timeout.current_timeout_ms(), 500);
    timeout.observe(&TimeResult::Failed(String::from("no record found")));
    assert_eq!(timeout.consecutive_timeout_failures, 0);
    assert_eq!(timeout.current_timeout_ms(), 500);
}
