use notelock::encryption::{encrypt_content, CryptoError};
use notelock::security::RateLimiter;
use notelock::unlock::{attempt_unlock, attempt_unlock_at, UnlockError};

#[test]
fn unlock_success_returns_plaintext() {
    let mut limiter = RateLimiter::new();
    let envelope = encrypt_content("the secret", "pw").unwrap();
    let t0: u64 = 1_000_000;
    let got = attempt_unlock_at(&mut limiter, "doc", &envelope, "pw", t0);
    assert_eq!(got.unwrap(), "the secret");
}

#[test]
fn unlock_wrong_password_counts_down_then_locks() {
    let mut limiter = RateLimiter::new();
    let envelope = encrypt_content("the secret", "pw").unwrap();
    let t0: u64 = 1_000_000;
    for k in 0..4u64 {
        let got = attempt_unlock_at(&mut limiter, "doc", &envelope, "bad", t0 + k * 1000);
        assert_eq!(got, Err(UnlockError::WrongPassword(4 - k as u32)));
    }
    let fifth = attempt_unlock_at(&mut limiter, "doc", &envelope, "bad", t0 + 5000);
    assert_eq!(fifth, Err(UnlockError::LockedOut(30)));

    // While locked out, no decryption work happens, even with the right
    // password.
    let denied = attempt_unlock_at(&mut limiter, "doc", &envelope, "pw", t0 + 6000);
    assert!(matches!(denied, Err(UnlockError::RateLimited(_))));

    // After the lockout expires the right password unlocks again.
    let late = attempt_unlock_at(&mut limiter, "doc", &envelope, "pw", t0 + 40_000);
    assert_eq!(late.unwrap(), "the secret");
}

#[test]
fn unlock_success_resets_the_counter() {
    let mut limiter = RateLimiter::new();
    let envelope = encrypt_content("the secret", "pw").unwrap();
    let t0: u64 = 1_000_000;
    attempt_unlock_at(&mut limiter, "doc", &envelope, "bad", t0);
    attempt_unlock_at(&mut limiter, "doc", &envelope, "pw", t0 + 1000).unwrap();
    let again = attempt_unlock_at(&mut limiter, "doc", &envelope, "nope", t0 + 2000);
    assert_eq!(again, Err(UnlockError::WrongPassword(4)));
}

#[test]
fn unlock_malformed_is_not_an_attempt() {
    let mut limiter = RateLimiter::new();
    let t0: u64 = 1_000_000;
    let got = attempt_unlock_at(&mut limiter, "doc", "not an envelope", "pw", t0);
    assert_eq!(got, Err(UnlockError::Unreadable(CryptoError::MalformedEnvelope)));
    let status = limiter.get_attempt_status_at("doc", t0 + 1);
    assert_eq!(status, (5, None));
}

#[test]
fn unlock_with_wall_clock() {
    let mut limiter = RateLimiter::new();
    let envelope = encrypt_content("clocked", "pw").unwrap();
    let got = attempt_unlock(&mut limiter, "doc", &envelope, "pw");
    assert_eq!(got.unwrap(), "clocked");
}
