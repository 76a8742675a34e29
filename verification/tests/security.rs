use notelock::security::{RateLimiter, MAX_ATTEMPTS};

#[test]
fn test_rate_limit_allows_initial_attempts() {
    let note_id = "test_note_1";
    let mut limiter = RateLimiter::new();
    limiter.record_successful_attempt(note_id);

    let result = limiter.check_rate_limit(note_id);
    assert!(result.allowed);
    assert_eq!(result.remaining_attempts, Some(MAX_ATTEMPTS));
}

#[test]
fn test_rate_limit_decrements_attempts() {
    let note_id = "test_note_2";
    let mut limiter = RateLimiter::new();
    limiter.record_successful_attempt(note_id);

    let result = limiter.record_failed_attempt(note_id);
    assert!(result.allowed);
    assert_eq!(result.remaining_attempts, Some(MAX_ATTEMPTS - 1));
}

#[test]
fn test_rate_limit_locks_after_max_attempts() {
    let note_id = "test_note_3";
    let mut limiter = RateLimiter::new();
    limiter.record_successful_attempt(note_id);

    for _ in 0..MAX_ATTEMPTS {
        limiter.record_failed_attempt(note_id);
    }

    let result = limiter.check_rate_limit(note_id);
    assert!(!result.allowed);
    assert!(result.retry_after_secs.is_some());
}

#[test]
fn test_successful_attempt_clears_history() {
    let note_id = "test_note_4";
    let mut limiter = RateLimiter::new();
    limiter.record_successful_attempt(note_id);

    limiter.record_failed_attempt(note_id);
    limiter.record_failed_attempt(note_id);

    limiter.record_successful_attempt(note_id);

    let result = limiter.check_rate_limit(note_id);
    assert!(result.allowed);
    assert_eq!(result.remaining_attempts, Some(MAX_ATTEMPTS));
}

#[test]
fn per_resource_threshold_scenario() {
    let mut limiter = RateLimiter::new();
    let t0: u64 = 1_000_000;
    for k in 0..4u64 {
        let r = limiter.record_failed_attempt_at("note", t0 + k * 1000);
        assert!(r.allowed);
        assert_eq!(r.retry_after_secs, None);
        assert_eq!(r.remaining_attempts, Some(4 - k as u32));
    }
    let fifth = limiter.record_failed_attempt_at("note", t0 + 5000);
    assert!(!fifth.allowed);
    assert_eq!(fifth.retry_after_secs, Some(30));
    assert_eq!(fifth.remaining_attempts, Some(0));

    let check = limiter.check_rate_limit_at("note", t0 + 6000);
    assert!(!check.allowed);
    assert!(check.retry_after_secs.unwrap() > 0);
    assert_eq!(check.remaining_attempts, None);
}

#[test]
fn exponential_backoff_scenario() {
    let mut limiter = RateLimiter::new();
    let t0: u64 = 1_000_000;
    let mut first = None;
    for k in 0..5u64 {
        first = Some(limiter.record_failed_attempt_at("note", t0 + k * 100));
    }
    let first = first.unwrap();
    assert!(!first.allowed);
    assert_eq!(first.retry_after_secs, Some(30));

    // The first lockout has expired naturally by t0 + 40s; the failures
    // after it start a new cycle, and the fifth of them locks again with
    // the doubled duration.
    let mut second = None;
    for k in 0..5u64 {
        second = Some(limiter.record_failed_attempt_at("note", t0 + 40_000 + k * 100));
    }
    let second = second.unwrap();
    assert!(!second.allowed);
    assert_eq!(second.retry_after_secs, Some(60));
    assert!(second.retry_after_secs.unwrap() >= 2 * first.retry_after_secs.unwrap());
}

#[test]
fn failure_after_expiry_starts_new_cycle() {
    let mut limiter = RateLimiter::new();
    let t0: u64 = 1_000_000;
    for k in 0..5u64 {
        limiter.record_failed_attempt_at("note", t0 + k);
    }
    // The 30 s lockout has expired; the next failure opens a fresh cycle
    // with four attempts remaining, not an immediate re-lock.
    let next = limiter.record_failed_attempt_at("note", t0 + 31_000);
    assert!(next.allowed);
    assert_eq!(next.retry_after_secs, None);
    assert_eq!(next.remaining_attempts, Some(4));
}

#[test]
fn global_lockout_outlives_idle_window() {
    let mut limiter = RateLimiter::new();
    let t0: u64 = 1_000_000;
    // Fifteen failures trigger the global lockout; four more while locked
    // escalate the backoff to 480 s, longer than the 300 s idle window.
    for i in 0..19u64 {
        let id = format!("r{}", i);
        limiter.record_failed_attempt_at(&id, t0 + i);
    }
    let check = limiter.check_rate_limit_at("anything", t0 + 18 + 310_000);
    assert!(!check.allowed);
    assert!(check.retry_after_secs.unwrap() > 0);
    assert_eq!(check.remaining_attempts, None);
}

#[test]
fn lockout_expires_and_admits_again() {
    let mut limiter = RateLimiter::new();
    let t0: u64 = 1_000_000;
    for k in 0..5u64 {
        limiter.record_failed_attempt_at("note", t0 + k);
    }
    let denied = limiter.check_rate_limit_at("note", t0 + 10_000);
    assert!(!denied.allowed);

    let admitted = limiter.check_rate_limit_at("note", t0 + 31_000);
    assert!(admitted.allowed);
    assert_eq!(admitted.remaining_attempts, Some(0));
}

#[test]
fn success_reset_reports_full_attempts() {
    let mut limiter = RateLimiter::new();
    let t0: u64 = 1_000_000;
    for k in 0..4u64 {
        limiter.record_failed_attempt_at("note", t0 + k);
    }
    limiter.record_successful_attempt("note");
    let check = limiter.check_rate_limit_at("note", t0 + 100);
    assert!(check.allowed);
    assert_eq!(check.remaining_attempts, Some(5));
}

#[test]
fn global_ceiling_scenario() {
    let mut limiter = RateLimiter::new();
    let t0: u64 = 1_000_000;
    for i in 0..14u64 {
        let id = format!("resource-{}", i);
        let r = limiter.record_failed_attempt_at(&id, t0 + i);
        assert!(r.allowed, "failure {} should not lock anything", i);
    }
    let fifteenth = limiter.record_failed_attempt_at("resource-14", t0 + 14);
    assert!(!fifteenth.allowed);
    assert_eq!(fifteenth.retry_after_secs, Some(30));
    assert_eq!(fifteenth.remaining_attempts, Some(0));

    let fresh = limiter.check_rate_limit_at("never-seen", t0 + 15);
    assert!(!fresh.allowed);
    assert!(fresh.retry_after_secs.unwrap() > 0);
}

#[test]
fn idle_reset_clears_counter() {
    let mut limiter = RateLimiter::new();
    let t0: u64 = 1_000_000;
    for k in 0..3u64 {
        limiter.record_failed_attempt_at("note", t0 + k);
    }
    // More than the five-minute reset window later, the next failure starts
    // a fresh count.
    let r = limiter.record_failed_attempt_at("note", t0 + 301_000);
    assert!(r.allowed);
    assert_eq!(r.remaining_attempts, Some(4));
}

#[test]
fn dormant_entries_are_evicted_by_check() {
    let mut limiter = RateLimiter::new();
    let t0: u64 = 1_000_000;
    limiter.record_failed_attempt_at("old", t0);
    // A check long past the cleanup horizon sweeps the dormant record.
    limiter.check_rate_limit_at("other", t0 + 700_000);
    let status = limiter.get_attempt_status_at("old", t0 + 700_001);
    assert_eq!(status, (MAX_ATTEMPTS, None));
}

#[test]
fn status_reports_remaining_and_lock() {
    let mut limiter = RateLimiter::new();
    let t0: u64 = 1_000_000;
    assert_eq!(limiter.get_attempt_status_at("note", t0), (5, None));
    limiter.record_failed_attempt_at("note", t0);
    limiter.record_failed_attempt_at("note", t0 + 1);
    assert_eq!(limiter.get_attempt_status_at("note", t0 + 2), (3, None));
    for k in 0..3u64 {
        limiter.record_failed_attempt_at("note", t0 + 2 + k);
    }
    let (rem, locked) = limiter.get_attempt_status_at("note", t0 + 10);
    assert_eq!(rem, 0);
    assert!(locked.unwrap() > 0 && locked.unwrap() <= 30);
}
