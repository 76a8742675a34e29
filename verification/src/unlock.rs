//! The unlock protocol: check the rate limiter, attempt decryption, record
//! the outcome — in that order, exactly once per attempt, so no key
//! derivation work is spent while locked out.

use crate::encryption::{decrypt_content, decrypt_spec, CryptoError};
use crate::security::{
    check_next, check_result, deadline_val, fail_next, fail_result, success_next, LimiterModel,
    RateLimiter,
};
use vstd::prelude::*;
use vstd::string::StringSliceAdditionalSpecFns;

verus! {

/// Why an unlock attempt yielded no plaintext.
#[derive(Clone, Copy, Debug, PartialEq, Eq, Structural)]
pub enum UnlockError {
    /// Admission was denied before any decryption work; retry after this
    /// many seconds.
    RateLimited(u64),
    /// Authentication failed; this many attempts remain before lockout.
    WrongPassword(u32),
    /// Authentication failed and this failure triggered a lockout of this
    /// many seconds.
    LockedOut(u64),
    /// The envelope is malformed or its plaintext is not valid text: a
    /// local integrity problem, recorded as neither success nor failure.
    Unreadable(CryptoError),
}

/// The remaining attempts an admission carries, or 0 when none.
pub open spec fn rem_val(o: Option<u32>) -> u32 {
    match o {
        Some(n) => n,
        None => 0,
    }
}

/// The limiter state after one unlock attempt: swept by the admission
/// check, then the resource's record deleted on success, updated on an
/// authentication failure, and left alone on an unreadable envelope.
pub open spec fn unlock_next(
    m: LimiterModel,
    id: Seq<char>,
    env: Seq<char>,
    pw: Seq<u8>,
    now: u64,
) -> LimiterModel {
    let adm = check_result(m, id, now);
    let cn = check_next(m, now);
    if !adm.allowed {
        cn
    } else {
        match decrypt_spec(env, pw) {
            Ok(_) => success_next(cn, id),
            Err(CryptoError::DecryptionFailed) => fail_next(cn, id, now),
            Err(_) => cn,
        }
    }
}

/// What one unlock attempt yields: the plaintext, or the reason it was
/// refused, with the retry delay or the remaining attempts.
pub open spec fn unlock_result(
    m: LimiterModel,
    id: Seq<char>,
    env: Seq<char>,
    pw: Seq<u8>,
    now: u64,
) -> Result<Seq<char>, UnlockError> {
    let adm = check_result(m, id, now);
    let cn = check_next(m, now);
    if !adm.allowed {
        Err(UnlockError::RateLimited(deadline_val(adm.retry_after_secs)))
    } else {
        match decrypt_spec(env, pw) {
            Ok(s) => Ok(s),
            Err(CryptoError::DecryptionFailed) => {
                let res = fail_result(cn, id, now);
                if res.allowed {
                    Err(UnlockError::WrongPassword(rem_val(res.remaining_attempts)))
                } else {
                    Err(UnlockError::LockedOut(deadline_val(res.retry_after_secs)))
                }
            },
            Err(e) => Err(UnlockError::Unreadable(e)),
        }
    }
}

/// One unlock attempt now, by the wall clock. Whatever time the clock
/// reports, the outcome is the deterministic attempt at that time.
pub fn attempt_unlock(
    limiter: &mut RateLimiter,
    note_id: &str,
    encrypted: &str,
    password: &str,
) -> (r: Result<String, UnlockError>)
    requires
        old(limiter).wf(),
    ensures
        final(limiter).wf(),
        exists|now: u64|
            final(limiter).model().global == (#[trigger] unlock_next(
                old(limiter).model(),
                note_id@,
                encrypted@,
                password.spec_bytes(),
                now,
            )).global && final(limiter).model().notes =~= unlock_next(
                old(limiter).model(),
                note_id@,
                encrypted@,
                password.spec_bytes(),
                now,
            ).notes && (match r {
                Ok(s) => unlock_result(
                    old(limiter).model(),
                    note_id@,
                    encrypted@,
                    password.spec_bytes(),
                    now,
                ) == Ok::<Seq<char>, UnlockError>(s@),
                Err(e) => unlock_result(
                    old(limiter).model(),
                    note_id@,
                    encrypted@,
                    password.spec_bytes(),
                    now,
                ) == Err::<Seq<char>, UnlockError>(e),
            }),
{
    let now = crate::security::now_millis();
    let r = attempt_unlock_at(limiter, note_id, encrypted, password, now);
    proof {
        assert(final(limiter).model().global == unlock_next(
            old(limiter).model(),
            note_id@,
            encrypted@,
            password.spec_bytes(),
            now,
        ).global && final(limiter).model().notes =~= unlock_next(
            old(limiter).model(),
            note_id@,
            encrypted@,
            password.spec_bytes(),
            now,
        ).notes && (match r {
            Ok(s) => unlock_result(
                old(limiter).model(),
                note_id@,
                encrypted@,
                password.spec_bytes(),
                now,
            ) == Ok::<Seq<char>, UnlockError>(s@),
            Err(e) => unlock_result(
                old(limiter).model(),
                note_id@,
                encrypted@,
                password.spec_bytes(),
                now,
            ) == Err::<Seq<char>, UnlockError>(e),
        }));
    }
    r
}

/// One unlock attempt at time `now_ms`: admission check, decryption,
/// outcome recording.
pub fn attempt_unlock_at(
    limiter: &mut RateLimiter,
    note_id: &str,
    encrypted: &str,
    password: &str,
    now_ms: u64,
) -> (r: Result<String, UnlockError>)
    requires
        old(limiter).wf(),
    ensures
        final(limiter).wf(),
        final(limiter).model().global == unlock_next(
            old(limiter).model(),
            note_id@,
            encrypted@,
            password.spec_bytes(),
            now_ms,
        ).global,
        final(limiter).model().notes =~= unlock_next(
            old(limiter).model(),
            note_id@,
            encrypted@,
            password.spec_bytes(),
            now_ms,
        ).notes,
        match r {
            Ok(s) => unlock_result(
                old(limiter).model(),
                note_id@,
                encrypted@,
                password.spec_bytes(),
                now_ms,
            ) == Ok::<Seq<char>, UnlockError>(s@),
            Err(e) => unlock_result(
                old(limiter).model(),
                note_id@,
                encrypted@,
                password.spec_bytes(),
                now_ms,
            ) == Err::<Seq<char>, UnlockError>(e),
        },
{
    let adm = limiter.check_rate_limit_at(note_id, now_ms);
    if !adm.allowed {
        let secs = match adm.retry_after_secs {
            Some(s) => s,
            None => 0,
        };
        return Err(UnlockError::RateLimited(secs));
    }
    match decrypt_content(encrypted, password) {
        Ok(s) => {
            limiter.record_successful_attempt(note_id);
            Ok(s)
        },
        Err(CryptoError::DecryptionFailed) => {
            let res = limiter.record_failed_attempt_at(note_id, now_ms);
            if res.allowed {
                let rem = match res.remaining_attempts {
                    Some(n) => n,
                    None => 0,
                };
                Err(UnlockError::WrongPassword(rem))
            } else {
                let secs = match res.retry_after_secs {
                    Some(s) => s,
                    None => 0,
                };
                Err(UnlockError::LockedOut(secs))
            }
        },
        Err(e) => Err(UnlockError::Unreadable(e)),
    }
}

} // verus!
