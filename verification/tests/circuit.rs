use omnikit::circuit::{
    breaker_settings, Admission, BreakerConfig, BreakerState, ChannelBreaker, CircuitBreaker,
};

#[test]
fn five_failures_inside_the_window_open_the_breaker() {
    let mut breaker = CircuitBreaker::new(5, 60);
    for t in 0..5u64 {
        assert_eq!(breaker.check("c1", 100 + t), Admission::Pass);
        breaker.record_failure("c1", 100 + t);
    }
    assert_eq!(breaker.snapshot("c1").state, BreakerState::Open);
    assert_eq!(breaker.snapshot("c1").retry_at, 164);
    assert_eq!(breaker.check("c1", 130), Admission::Reject);
    assert_eq!(breaker.check("c1", 163), Admission::Reject);
    assert_eq!(breaker.check("c1", 104 + 61), Admission::Trial);
    assert_eq!(breaker.snapshot("c1").state, BreakerState::HalfOpen);
    assert_eq!(breaker.check("c1", 166), Admission::Reject);
    assert_eq!(breaker.check("c2", 130), Admission::Pass);
}

#[test]
fn a_trial_is_permitted_exactly_when_the_window_has_passed() {
    let mut breaker = CircuitBreaker::new(1, 60);
    breaker.record_failure("c", 1000);
    assert_eq!(breaker.check("c", 1059), Admission::Reject);
    assert_eq!(breaker.check("c", 1060), Admission::Trial);
}

#[test]
fn a_successful_trial_closes_and_a_failed_trial_reopens() {
    let cfg = BreakerConfig { failure_threshold: 2, window_seconds: 30 };
    let mut b = ChannelBreaker::new();
    b.record_failure(&cfg, 10);
    b.record_failure(&cfg, 11);
    assert_eq!(b.state, BreakerState::Open);
    assert_eq!(b.check(41), Admission::Trial);
    assert_eq!(b.state, BreakerState::HalfOpen);
    assert_eq!(b.check(41), Admission::Reject);
    assert_eq!(b.check(1000), Admission::Reject);
    b.record_success();
    assert_eq!(b.state, BreakerState::Closed);
    assert_eq!(b.failures, 0);

    b.record_failure(&cfg, 50);
    b.record_failure(&cfg, 51);
    assert_eq!(b.check(81), Admission::Trial);
    b.record_failure(&cfg, 90);
    assert_eq!(b.state, BreakerState::Open);
    assert_eq!(b.retry_at, 120);
    assert_eq!(b.check(119), Admission::Reject);
    assert_eq!(b.check(120), Admission::Trial);
}

#[test]
fn failures_outside_the_window_start_a_new_count() {
    let cfg = BreakerConfig { failure_threshold: 3, window_seconds: 10 };
    let mut b = ChannelBreaker::new();
    b.record_failure(&cfg, 0);
    b.record_failure(&cfg, 5);
    assert_eq!(b.failures, 2);
    b.record_failure(&cfg, 10);
    assert_eq!(b.state, BreakerState::Closed);
    assert_eq!(b.failures, 1);
    assert_eq!(b.window_start, 10);
    b.record_failure(&cfg, 12);
    b.record_failure(&cfg, 19);
    assert_eq!(b.state, BreakerState::Open);
    assert_eq!(b.retry_at, 29);
}

#[test]
fn failures_while_open_do_not_extend_the_cooldown() {
    let cfg = BreakerConfig { failure_threshold: 1, window_seconds: 60 };
    let mut b = ChannelBreaker::new();
    b.record_failure(&cfg, 100);
    let opened = b;
    b.record_failure(&cfg, 150);
    b.record_success();
    assert_eq!(b, opened);
    assert_eq!(b.retry_at, 160);
}

#[test]
fn a_success_while_closed_changes_nothing() {
    let cfg = BreakerConfig { failure_threshold: 3, window_seconds: 60 };
    let mut b = ChannelBreaker::new();
    b.record_failure(&cfg, 1);
    let before = b;
    b.record_success();
    assert_eq!(b, before);
    assert_eq!(b.check_only(5), Admission::Pass);
}

#[test]
fn the_cooldown_is_held_at_the_largest_time() {
    let cfg = BreakerConfig { failure_threshold: 1, window_seconds: 60 };
    let mut b = ChannelBreaker::new();
    b.record_failure(&cfg, u64::MAX - 5);
    assert_eq!(b.retry_at, u64::MAX);
    assert_eq!(b.check_only(u64::MAX - 1), Admission::Reject);
    assert_eq!(b.check_only(u64::MAX), Admission::Trial);
}

#[test]
fn a_clock_that_goes_back_counts_as_no_time_passed() {
    let cfg = BreakerConfig { failure_threshold: 2, window_seconds: 10 };
    let mut b = ChannelBreaker::new();
    b.record_failure(&cfg, 100);
    b.record_failure(&cfg, 50);
    assert_eq!(b.state, BreakerState::Open);
    assert_eq!(b.retry_at, 60);
}

#[test]
fn channels_have_breakers_of_their_own() {
    let mut breaker = CircuitBreaker::new(2, 60);
    assert_eq!(breaker.settings(), BreakerConfig { failure_threshold: 2, window_seconds: 60 });
    breaker.record_failure("a", 1);
    breaker.record_failure("b", 2);
    breaker.record_failure("a", 3);
    assert_eq!(breaker.snapshot("a").state, BreakerState::Open);
    assert_eq!(breaker.snapshot("b").state, BreakerState::Closed);
    assert_eq!(breaker.snapshot("b").failures, 1);
    assert_eq!(breaker.snapshot("never seen"), ChannelBreaker::new());
    breaker.record_success("b");
    assert_eq!(breaker.snapshot("b").failures, 1);
}

#[test]
fn settings_fall_back_to_five_failures_in_sixty_seconds() {
    assert_eq!(breaker_settings(None, None), BreakerConfig { failure_threshold: 5, window_seconds: 60 });
    assert_eq!(breaker_settings(Some(2), None), BreakerConfig { failure_threshold: 2, window_seconds: 60 });
    assert_eq!(breaker_settings(None, Some(9)), BreakerConfig { failure_threshold: 5, window_seconds: 9 });
    assert_eq!(breaker_settings(Some(0), Some(0)), BreakerConfig { failure_threshold: 0, window_seconds: 0 });
}

#[test]
fn a_failed_trial_moves_the_deadline_on() {
    let cfg = BreakerConfig { failure_threshold: 1, window_seconds: 60 };
    let mut b = ChannelBreaker::new();
    b.record_failure(&cfg, 100);
    let first = b.retry_at;
    assert_eq!(b.check(first), Admission::Trial);
    b.record_failure(&cfg, first + 3);
    assert_eq!(b.state, BreakerState::Open);
    assert_eq!(b.retry_at, first + 63);
    assert!(b.retry_at > first);
    assert_eq!(b.check(first + 62), Admission::Reject);
}
