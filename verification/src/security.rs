//! Brute-force protection for note unlock attempts.
//!
//! A `RateLimiter` tracks failed unlock attempts per resource and globally.
//! Reaching the per-resource threshold (5 failures) or the global threshold
//! (15 failures across all resources) triggers a lockout whose duration
//! doubles with each successive lockout of the same record, capped at ten
//! minutes. Counters reset after an idle window, and dormant records are
//! evicted so the store stays bounded.
//!
//! All timestamps are milliseconds; the deterministic `*_at` methods take the
//! current time as an argument, and the clock-reading methods feed them the
//! wall clock.

use vstd::prelude::*;

verus! {

/// Maximum number of failed attempts before lockout (per resource).
pub const MAX_ATTEMPTS: u32 = 5;

/// Maximum number of failed attempts globally before lockout.
pub const GLOBAL_MAX_ATTEMPTS: u32 = 15;

/// Base lockout duration in seconds (doubles with each lockout).
pub const BASE_LOCKOUT_SECS: u64 = 30;

/// Maximum lockout duration in seconds (10 minutes).
pub const MAX_LOCKOUT_SECS: u64 = 600;

/// Idle window in milliseconds after which an attempt counter resets.
pub const ATTEMPT_RESET_MS: u64 = 300_000;

/// Idle window in milliseconds after which a dormant record is evicted.
pub const CLEANUP_MS: u64 = 600_000;

/// Attempt bookkeeping for one record: a resource, or the global aggregate.
#[derive(Clone, Copy, Debug)]
pub struct AttemptInfo {
    /// Number of failed attempts.
    pub attempts: u32,
    /// Timestamp of the last attempt, in milliseconds.
    pub last_attempt: u64,
    /// If locked out, when the lockout expires, in milliseconds.
    pub locked_until: Option<u64>,
    /// Number of lockouts so far, for exponential backoff.
    pub lockout_count: u32,
}

impl AttemptInfo {
    /// A record with no failures, last touched at `now_ms`.
    pub fn new(now_ms: u64) -> (r: AttemptInfo)
        ensures
            r == fresh_record(now_ms),
    {
        AttemptInfo { attempts: 0, last_attempt: now_ms, locked_until: None, lockout_count: 0 }
    }
}

/// Result of a rate limit check.
#[derive(Clone, Copy, Debug)]
pub struct RateLimitResult {
    /// Whether the action is allowed.
    pub allowed: bool,
    /// If not allowed, seconds until the lockout expires.
    pub retry_after_secs: Option<u64>,
    /// Number of remaining attempts before lockout, if not locked.
    pub remaining_attempts: Option<u32>,
}

/// The limiter's abstract state: the global record and a map from resource
/// identifier to its record.
pub ghost struct LimiterModel {
    pub global: AttemptInfo,
    pub notes: Map<Seq<char>, AttemptInfo>,
}

/// A record with no failures, last touched at `now`.
pub open spec fn fresh_record(now: u64) -> AttemptInfo {
    AttemptInfo { attempts: 0, last_attempt: now, locked_until: None, lockout_count: 0 }
}

/// The record's counter has sat idle longer than the reset window.
pub open spec fn is_idle(info: AttemptInfo, now: u64) -> bool {
    now - info.last_attempt > ATTEMPT_RESET_MS
}

/// The record is locked out at time `now`.
pub open spec fn locked_at(info: AttemptInfo, now: u64) -> bool {
    match info.locked_until {
        Some(t) => now < t,
        None => false,
    }
}

/// The lockout deadline, or 0 when none is set.
pub open spec fn deadline_of(info: AttemptInfo) -> u64 {
    match info.locked_until {
        Some(t) => t,
        None => 0,
    }
}

/// Seconds until `deadline`, rounded up past the truncation of integer
/// division (so a caller that waits this long is certainly past it).
pub open spec fn retry_secs(deadline: u64, now: u64) -> u64
    recommends
        now < deadline,
{
    (((deadline - now) / 1000) + 1) as u64
}

/// A record survives the cleanup sweep if it is locked out or was touched
/// within the cleanup horizon.
pub open spec fn keep_entry(info: AttemptInfo, now: u64) -> bool {
    locked_at(info, now) || now - info.last_attempt < CLEANUP_MS
}

/// The record carries a lockout deadline that has already elapsed.
pub open spec fn lock_expired(info: AttemptInfo, now: u64) -> bool {
    info.locked_until is Some && !locked_at(info, now)
}

/// A failure finds the record due for a fresh cycle: it is not currently
/// locked out, and either its lockout has elapsed or its counter sat idle
/// past the reset window. A record still locked out is never reset.
pub open spec fn reset_due(info: AttemptInfo, now: u64) -> bool {
    !locked_at(info, now) && (lock_expired(info, now) || is_idle(info, now))
}

/// The attempt counter and lockout cleared; the lockout count survives, so
/// backoff still escalates after an idle reset or an expired lockout.
pub open spec fn cleared(info: AttemptInfo) -> AttemptInfo {
    AttemptInfo {
        attempts: 0,
        last_attempt: info.last_attempt,
        locked_until: None,
        lockout_count: info.lockout_count,
    }
}

/// Lockout duration in seconds for the `c`-th lockout of a record:
/// 30 seconds doubled each time, capped at 600.
pub open spec fn lockout_secs(c: u32) -> u64 {
    if c == 0 {
        30
    } else if c == 1 {
        60
    } else if c == 2 {
        120
    } else if c == 3 {
        240
    } else if c == 4 {
        480
    } else {
        600
    }
}

/// One more attempt, saturating.
pub open spec fn bump_attempts(a: u32) -> u32 {
    if a == u32::MAX {
        a
    } else {
        (a + 1) as u32
    }
}

/// One more lockout, saturating.
pub open spec fn bump_lockouts(c: u32) -> u32 {
    if c == u32::MAX {
        c
    } else {
        (c + 1) as u32
    }
}

/// `now + secs * 1000`, saturating at the end of time.
pub open spec fn lock_deadline(now: u64, secs: u64) -> u64 {
    if now + secs * 1000 <= u64::MAX {
        (now + secs * 1000) as u64
    } else {
        u64::MAX
    }
}

/// Recording one failure on a record: start a fresh cycle if the lockout
/// has elapsed or the counter sat idle, bump the counter and timestamp, and
/// if the counter reaches `max`, set the lockout deadline and report the
/// lockout duration.
pub open spec fn fail_step(info: AttemptInfo, now: u64, max: u32) -> (AttemptInfo, Option<u64>) {
    let base = if reset_due(info, now) {
        cleared(info)
    } else {
        info
    };
    let a = bump_attempts(base.attempts);
    if a >= max {
        let secs = lockout_secs(base.lockout_count);
        (
            AttemptInfo {
                attempts: a,
                last_attempt: now,
                locked_until: Some(lock_deadline(now, secs)),
                lockout_count: bump_lockouts(base.lockout_count),
            },
            Some(secs),
        )
    } else {
        (
            AttemptInfo {
                attempts: a,
                last_attempt: now,
                locked_until: base.locked_until,
                lockout_count: base.lockout_count,
            },
            None,
        )
    }
}

/// The global gate denies while the global record is locked out, however
/// long ago the last attempt was: a lockout outlives the idle window.
pub open spec fn global_gate_denies(m: LimiterModel, now: u64) -> bool {
    locked_at(m.global, now)
}

/// The cleanup sweep: only entries that `keep_entry` admits survive.
pub open spec fn swept(notes: Map<Seq<char>, AttemptInfo>, now: u64) -> Map<
    Seq<char>,
    AttemptInfo,
> {
    Map::<Seq<char>, AttemptInfo>::new(
        |k: Seq<char>| notes.contains_key(k) && keep_entry(notes[k], now),
        |k: Seq<char>| notes[k],
    )
}

/// A denial carrying the seconds to wait, as `check` reports it.
pub open spec fn denied_result(secs: u64) -> RateLimitResult {
    RateLimitResult { allowed: false, retry_after_secs: Some(secs), remaining_attempts: None }
}

/// An admission carrying the remaining attempts.
pub open spec fn allowed_result(rem: u32) -> RateLimitResult {
    RateLimitResult { allowed: true, retry_after_secs: None, remaining_attempts: Some(rem) }
}

/// Attempts left before the per-resource threshold.
pub open spec fn remaining_of(info: AttemptInfo) -> u32 {
    if info.attempts >= MAX_ATTEMPTS {
        0
    } else {
        (MAX_ATTEMPTS - info.attempts) as u32
    }
}

/// State after `check`: the resource store is swept on every call.
pub open spec fn check_next(m: LimiterModel, now: u64) -> LimiterModel {
    LimiterModel { global: m.global, notes: swept(m.notes, now) }
}

/// What `check` reports: the global gate first, then the per-resource gate,
/// then the remaining attempts (full count for an unknown resource).
pub open spec fn check_result(m: LimiterModel, id: Seq<char>, now: u64) -> RateLimitResult {
    if global_gate_denies(m, now) {
        denied_result(retry_secs(deadline_of(m.global), now))
    } else {
        let notes = swept(m.notes, now);
        if notes.contains_key(id) {
            let info = notes[id];
            if locked_at(info, now) {
                denied_result(retry_secs(deadline_of(info), now))
            } else {
                allowed_result(remaining_of(info))
            }
        } else {
            allowed_result(MAX_ATTEMPTS)
        }
    }
}

/// State after recording a failure: the global record is updated first; if
/// that triggers the global lockout, the resource store is left untouched,
/// otherwise the resource's record (created fresh if absent) is updated.
pub open spec fn fail_next(m: LimiterModel, id: Seq<char>, now: u64) -> LimiterModel {
    let g = fail_step(m.global, now, GLOBAL_MAX_ATTEMPTS);
    if g.1 is Some {
        LimiterModel { global: g.0, notes: m.notes }
    } else {
        let prev = if m.notes.contains_key(id) {
            m.notes[id]
        } else {
            fresh_record(now)
        };
        let n = fail_step(prev, now, MAX_ATTEMPTS);
        LimiterModel { global: g.0, notes: m.notes.insert(id, n.0) }
    }
}

/// What recording a failure reports: a freshly triggered lockout (global
/// before per-resource) with its duration, otherwise the remaining attempts.
pub open spec fn fail_result(m: LimiterModel, id: Seq<char>, now: u64) -> RateLimitResult {
    let g = fail_step(m.global, now, GLOBAL_MAX_ATTEMPTS);
    if g.1 is Some {
        RateLimitResult { allowed: false, retry_after_secs: g.1, remaining_attempts: Some(0) }
    } else {
        let prev = if m.notes.contains_key(id) {
            m.notes[id]
        } else {
            fresh_record(now)
        };
        let n = fail_step(prev, now, MAX_ATTEMPTS);
        if n.1 is Some {
            RateLimitResult { allowed: false, retry_after_secs: n.1, remaining_attempts: Some(0) }
        } else {
            allowed_result(remaining_of(n.0))
        }
    }
}

/// State after a successful unlock: the resource's record is deleted
/// outright; the global record is deliberately untouched.
pub open spec fn success_next(m: LimiterModel, id: Seq<char>) -> LimiterModel {
    LimiterModel { global: m.global, notes: m.notes.remove(id) }
}

/// What the status query reports: remaining attempts and, if locked, the
/// seconds until the lockout expires.
pub open spec fn status_of(m: LimiterModel, id: Seq<char>, now: u64) -> (u32, Option<u64>) {
    if m.notes.contains_key(id) {
        let info = m.notes[id];
        let locked_for = if locked_at(info, now) {
            Some(retry_secs(deadline_of(info), now))
        } else {
            None::<u64>
        };
        (remaining_of(info), locked_for)
    } else {
        (MAX_ATTEMPTS, None::<u64>)
    }
}

/// No two entries of the store share a key.
pub open spec fn unique_keys(s: Seq<(String, AttemptInfo)>) -> bool {
    forall|i: int, j: int|
        0 <= i < j < s.len() ==> (#[trigger] s[i]).0@ != (#[trigger] s[j]).0@
}

/// The map an association list denotes.
pub open spec fn assoc_map(s: Seq<(String, AttemptInfo)>) -> Map<Seq<char>, AttemptInfo>
    decreases s.len(),
{
    if s.len() == 0 {
        Map::<Seq<char>, AttemptInfo>::empty()
    } else {
        assoc_map(s.drop_last()).insert(s.last().0@, s.last().1)
    }
}

proof fn lemma_assoc_contains(s: Seq<(String, AttemptInfo)>, k: Seq<char>)
    ensures
        assoc_map(s).contains_key(k) <==> exists|i: int|
            0 <= i < s.len() && (#[trigger] s[i]).0@ == k,
    decreases s.len(),
{
    if s.len() > 0 {
        lemma_assoc_contains(s.drop_last(), k);
        if s.last().0@ == k {
            assert(s[s.len() - 1].0@ == k);
        } else {
            if assoc_map(s).contains_key(k) {
                let i = choose|i: int| 0 <= i < s.drop_last().len() && (#[trigger] s.drop_last()[i]).0@ == k;
                assert(s[i].0@ == k);
            }
            if exists|i: int| 0 <= i < s.len() && (#[trigger] s[i]).0@ == k {
                let i = choose|i: int| 0 <= i < s.len() && (#[trigger] s[i]).0@ == k;
                assert(i < s.len() - 1);
                assert(s.drop_last()[i].0@ == k);
            }
        }
    }
}

proof fn lemma_assoc_get(s: Seq<(String, AttemptInfo)>, i: int)
    requires
        unique_keys(s),
        0 <= i < s.len(),
    ensures
        assoc_map(s).contains_key(s[i].0@),
        assoc_map(s)[s[i].0@] == s[i].1,
    decreases s.len(),
{
    if i == s.len() - 1 {
    } else {
        lemma_assoc_get(s.drop_last(), i);
        assert(s.drop_last()[i] == s[i]);
        assert(s.last().0@ != s[i].0@);
    }
}

proof fn lemma_assoc_push(s: Seq<(String, AttemptInfo)>, p: (String, AttemptInfo))
    ensures
        assoc_map(s.push(p)) =~= assoc_map(s).insert(p.0@, p.1),
{
    assert(s.push(p).drop_last() =~= s);
    assert(s.push(p).last() == p);
}

proof fn lemma_assoc_update(s: Seq<(String, AttemptInfo)>, i: int, v: AttemptInfo)
    requires
        unique_keys(s),
        0 <= i < s.len(),
    ensures
        assoc_map(s.update(i, (s[i].0, v))) =~= assoc_map(s).insert(s[i].0@, v),
    decreases s.len(),
{
    let t = s.update(i, (s[i].0, v));
    if i == s.len() - 1 {
        assert(t.drop_last() =~= s.drop_last());
        assert(t.last() == (s[i].0, v));
    } else {
        assert(t.drop_last() =~= s.drop_last().update(i, (s[i].0, v)));
        assert(s.drop_last()[i] == s[i]);
        lemma_assoc_update(s.drop_last(), i, v);
        assert(t.last() == s.last());
        assert(s.last().0@ != s[i].0@);
        assert(assoc_map(t) =~= assoc_map(s.drop_last()).insert(s[i].0@, v).insert(
            s.last().0@,
            s.last().1,
        ));
        assert(assoc_map(s).insert(s[i].0@, v) =~= assoc_map(s.drop_last()).insert(
            s.last().0@,
            s.last().1,
        ).insert(s[i].0@, v));
    }
}

proof fn lemma_assoc_remove(s: Seq<(String, AttemptInfo)>, i: int)
    requires
        unique_keys(s),
        0 <= i < s.len(),
    ensures
        assoc_map(s.remove(i)) =~= assoc_map(s).remove(s[i].0@),
    decreases s.len(),
{
    if i == s.len() - 1 {
        assert(s.remove(i) =~= s.drop_last());
        lemma_assoc_contains(s.drop_last(), s[i].0@);
        assert(forall|j: int|
            0 <= j < s.drop_last().len() ==> (#[trigger] s.drop_last()[j]).0@ != s[i].0@);
        assert(!assoc_map(s.drop_last()).contains_key(s[i].0@));
        assert(assoc_map(s) =~= assoc_map(s.drop_last()).insert(s.last().0@, s.last().1));
        assert(assoc_map(s).remove(s[i].0@) =~= assoc_map(s.drop_last()));
    } else {
        let t = s.remove(i);
        assert(t.drop_last() =~= s.drop_last().remove(i));
        assert(s.drop_last()[i] == s[i]);
        lemma_assoc_remove(s.drop_last(), i);
        assert(t.last() == s.last());
        assert(s.last().0@ != s[i].0@);
        assert(assoc_map(t) =~= assoc_map(s.drop_last()).remove(s[i].0@).insert(
            s.last().0@,
            s.last().1,
        ));
        assert(assoc_map(s).remove(s[i].0@) =~= assoc_map(s.drop_last()).insert(
            s.last().0@,
            s.last().1,
        ).remove(s[i].0@));
    }
}

/// Tracks unlock attempts per resource and globally. Construct one instance
/// and share it among all unlock call sites.
pub struct RateLimiter {
    global: AttemptInfo,
    entries: Vec<(String, AttemptInfo)>,
}

impl RateLimiter {
    /// The store holds at most one record per resource identifier.
    pub closed spec fn wf(self) -> bool {
        unique_keys(self.entries@)
    }

    /// The limiter's abstract state.
    pub closed spec fn model(self) -> LimiterModel {
        LimiterModel { global: self.global, notes: assoc_map(self.entries@) }
    }

    /// A limiter with no failures recorded anywhere.
    pub fn new() -> (r: RateLimiter)
        ensures
            r.wf(),
            r.model().global == fresh_record(0),
            r.model().notes =~= Map::<Seq<char>, AttemptInfo>::empty(),
    {
        RateLimiter { global: AttemptInfo::new(0), entries: Vec::new() }
    }

    /// Index of the entry for `key`, if one exists.
    fn find_entry(&self, key: &String) -> (r: Option<usize>)
        requires
            self.wf(),
        ensures
            match r {
                Some(i) => i < self.entries@.len() && self.entries@[i as int].0@ == key@
                    && self.model().notes.contains_key(key@) && self.model().notes[key@]
                    == self.entries@[i as int].1,
                None => !self.model().notes.contains_key(key@),
            },
    {
        let n = self.entries.len();
        let mut i: usize = 0;
        while i < n
            invariant
                self.wf(),
                n == self.entries@.len(),
                i <= n,
                forall|j: int| 0 <= j < i ==> (#[trigger] self.entries@[j]).0@ != key@,
            decreases n - i,
        {
            if self.entries[i].0 == *key {
                proof {
                    lemma_assoc_get(self.entries@, i as int);
                }
                return Some(i);
            }
            i += 1;
        }
        proof {
            lemma_assoc_contains(self.entries@, key@);
        }
        None
    }

    /// Evict entries that are neither locked out nor touched within the
    /// cleanup horizon, bounding memory use from abandoned attempts.
    pub fn cleanup_old_entries(&mut self, now_ms: u64)
        requires
            old(self).wf(),
        ensures
            final(self).wf(),
            final(self).model().global == old(self).model().global,
            final(self).model().notes =~= swept(old(self).model().notes, now_ms),
    {
        let ghost s = self.entries@;
        let n = self.entries.len();
        let mut kept: Vec<(String, AttemptInfo)> = Vec::new();
        let mut i: usize = 0;
        while i < n
            invariant
                self.entries@ == s,
                self.global == old(self).global,
                unique_keys(s),
                n == s.len(),
                i <= n,
                unique_keys(kept@),
                forall|j: int|
                    0 <= j < kept@.len() ==> exists|l: int|
                        0 <= l < i && (#[trigger] kept@[j]).0@ == s[l].0@ && kept@[j].1
                            == s[l].1,
                assoc_map(kept@) =~= swept(assoc_map(s.subrange(0, i as int)), now_ms),
            decreases n - i,
        {
            let info = self.entries[i].1;
            let locked = match info.locked_until {
                Some(t) => now_ms < t,
                None => false,
            };
            let keep = locked || now_ms <= info.last_attempt || now_ms - info.last_attempt
                < CLEANUP_MS;
            proof {
                assert(s.subrange(0, i + 1) =~= s.subrange(0, i as int).push(s[i as int]));
                lemma_assoc_push(s.subrange(0, i as int), s[i as int]);
                lemma_assoc_contains(s.subrange(0, i as int), s[i as int].0@);
                assert(forall|l: int|
                    0 <= l < i ==> (#[trigger] s.subrange(0, i as int)[l]).0@ != s[
                        i as int].0@);
                assert(!assoc_map(s.subrange(0, i as int)).contains_key(s[i as int].0@));
                assert(keep == keep_entry(s[i as int].1, now_ms));
            }
            if keep {
                let entry = (self.entries[i].0.clone(), info);
                proof {
                    assert(entry.0@ == s[i as int].0@);
                    assert forall|j: int| 0 <= j < kept@.len() implies (#[trigger] kept@[j]).0@
                        != entry.0@ by {
                        let l = choose|l: int|
                            0 <= l < i && (#[trigger] kept@[j]).0@ == s[l].0@ && kept@[j].1
                                == s[l].1;
                        assert(s[l].0@ != s[i as int].0@);
                    }
                    lemma_assoc_push(kept@, entry);
                    assert(swept(assoc_map(s.subrange(0, i + 1)), now_ms) =~= swept(
                        assoc_map(s.subrange(0, i as int)),
                        now_ms,
                    ).insert(s[i as int].0@, s[i as int].1));
                }
                kept.push(entry);
            } else {
                proof {
                    assert(swept(assoc_map(s.subrange(0, i + 1)), now_ms) =~= swept(
                        assoc_map(s.subrange(0, i as int)),
                        now_ms,
                    ));
                }
            }
            i += 1;
        }
        proof {
            assert(s.subrange(0, n as int) =~= s);
        }
        self.entries = kept;
    }

    /// Whether an unlock attempt on `note_id` is admitted at time `now_ms`:
    /// the store is swept, then the global gate is evaluated, then the
    /// per-resource gate.
    pub fn check_rate_limit_at(&mut self, note_id: &str, now_ms: u64) -> (r: RateLimitResult)
        requires
            old(self).wf(),
        ensures
            final(self).wf(),
            final(self).model().global == check_next(old(self).model(), now_ms).global,
            final(self).model().notes =~= check_next(old(self).model(), now_ms).notes,
            r == check_result(old(self).model(), note_id@, now_ms),
    {
        self.cleanup_old_entries(now_ms);
        if let Some(t) = self.global.locked_until {
            if now_ms < t {
                return RateLimitResult {
                    allowed: false,
                    retry_after_secs: Some((t - now_ms) / 1000 + 1),
                    remaining_attempts: None,
                };
            }
        }
        let key = note_id.to_owned();
        match self.find_entry(&key) {
            Some(i) => {
                let info = self.entries[i].1;
                if let Some(t) = info.locked_until {
                    if now_ms < t {
                        return RateLimitResult {
                            allowed: false,
                            retry_after_secs: Some((t - now_ms) / 1000 + 1),
                            remaining_attempts: None,
                        };
                    }
                }
                let rem = if info.attempts >= MAX_ATTEMPTS {
                    0
                } else {
                    MAX_ATTEMPTS - info.attempts
                };
                RateLimitResult {
                    allowed: true,
                    retry_after_secs: None,
                    remaining_attempts: Some(rem),
                }
            },
            None => RateLimitResult {
                allowed: true,
                retry_after_secs: None,
                remaining_attempts: Some(MAX_ATTEMPTS),
            },
        }
    }

    /// Record a failed unlock attempt on `note_id` at time `now_ms`. The
    /// global record is updated first; a lockout freshly triggered there or
    /// on the resource is reported with its duration, otherwise the
    /// remaining per-resource attempts are reported.
    pub fn record_failed_attempt_at(&mut self, note_id: &str, now_ms: u64) -> (r: RateLimitResult)
        requires
            old(self).wf(),
        ensures
            final(self).wf(),
            final(self).model().global == fail_next(old(self).model(), note_id@, now_ms).global,
            final(self).model().notes =~= fail_next(old(self).model(), note_id@, now_ms).notes,
            r == fail_result(old(self).model(), note_id@, now_ms),
    {
        let global_locked = match self.global.locked_until {
            Some(t) => now_ms < t,
            None => false,
        };
        let global_idle = now_ms > self.global.last_attempt && now_ms - self.global.last_attempt
            > ATTEMPT_RESET_MS;
        if !global_locked && (self.global.locked_until.is_some() || global_idle) {
            self.global.attempts = 0;
            self.global.locked_until = None;
        }
        if self.global.attempts < u32::MAX {
            self.global.attempts = self.global.attempts + 1;
        }
        self.global.last_attempt = now_ms;
        if self.global.attempts >= GLOBAL_MAX_ATTEMPTS {
            let secs = compute_lockout_secs(self.global.lockout_count);
            self.global.locked_until = Some(compute_deadline(now_ms, secs));
            if self.global.lockout_count < u32::MAX {
                self.global.lockout_count = self.global.lockout_count + 1;
            }
            return RateLimitResult {
                allowed: false,
                retry_after_secs: Some(secs),
                remaining_attempts: Some(0),
            };
        }
        let key = note_id.to_owned();
        let idx = match self.find_entry(&key) {
            Some(i) => i,
            None => {
                let n = self.entries.len();
                let entry = (key, AttemptInfo::new(now_ms));
                proof {
                    lemma_assoc_contains(self.entries@, entry.0@);
                    lemma_assoc_push(self.entries@, entry);
                    assert(forall|j: int|
                        0 <= j < self.entries@.len() ==> (#[trigger] self.entries@[j]).0@
                            != entry.0@);
                }
                self.entries.push(entry);
                n
            },
        };
        let mut info = self.entries[idx].1;
        let note_locked = match info.locked_until {
            Some(t) => now_ms < t,
            None => false,
        };
        let note_idle = now_ms > info.last_attempt && now_ms - info.last_attempt
            > ATTEMPT_RESET_MS;
        if !note_locked && (info.locked_until.is_some() || note_idle) {
            info.attempts = 0;
            info.locked_until = None;
        }
        if info.attempts < u32::MAX {
            info.attempts = info.attempts + 1;
        }
        info.last_attempt = now_ms;
        let locked_now: Option<u64> = if info.attempts >= MAX_ATTEMPTS {
            let secs = compute_lockout_secs(info.lockout_count);
            info.locked_until = Some(compute_deadline(now_ms, secs));
            if info.lockout_count < u32::MAX {
                info.lockout_count = info.lockout_count + 1;
            }
            Some(secs)
        } else {
            None
        };
        proof {
            lemma_assoc_update(self.entries@, idx as int, info);
        }
        let stored_key = self.entries[idx].0.clone();
        self.entries.set(idx, (stored_key, info));
        match locked_now {
            Some(secs) => RateLimitResult {
                allowed: false,
                retry_after_secs: Some(secs),
                remaining_attempts: Some(0),
            },
            None => RateLimitResult {
                allowed: true,
                retry_after_secs: None,
                remaining_attempts: Some(MAX_ATTEMPTS - info.attempts),
            },
        }
    }

    /// Record a successful unlock: the resource's attempt history is deleted
    /// outright; the global record is deliberately left as it is.
    pub fn record_successful_attempt(&mut self, note_id: &str)
        requires
            old(self).wf(),
        ensures
            final(self).wf(),
            final(self).model().global == old(self).model().global,
            final(self).model().notes =~= success_next(old(self).model(), note_id@).notes,
    {
        let key = note_id.to_owned();
        match self.find_entry(&key) {
            Some(i) => {
                proof {
                    lemma_assoc_remove(self.entries@, i as int);
                }
                self.entries.remove(i);
            },
            None => {
                proof {
                    assert(assoc_map(self.entries@) =~= assoc_map(self.entries@).remove(key@));
                }
            },
        }
    }

    /// Whether an unlock attempt on `note_id` is admitted now, by the wall
    /// clock. Nothing is assumed of the clock: whatever time it reports, the
    /// outcome is the deterministic admission check at that time.
    pub fn check_rate_limit(&mut self, note_id: &str) -> (r: RateLimitResult)
        requires
            old(self).wf(),
        ensures
            final(self).wf(),
            exists|now: u64|
                final(self).model().global == (#[trigger] check_next(
                    old(self).model(),
                    now,
                )).global && final(self).model().notes =~= check_next(old(self).model(), now).notes
                    && r == check_result(old(self).model(), note_id@, now),
    {
        let now = now_millis();
        let r = self.check_rate_limit_at(note_id, now);
        proof {
            assert(final(self).model().global == check_next(old(self).model(), now).global
                && final(self).model().notes =~= check_next(old(self).model(), now).notes && r
                == check_result(old(self).model(), note_id@, now));
        }
        r
    }

    /// Record a failed unlock attempt on `note_id` now, by the wall clock.
    pub fn record_failed_attempt(&mut self, note_id: &str) -> (r: RateLimitResult)
        requires
            old(self).wf(),
        ensures
            final(self).wf(),
            exists|now: u64|
                final(self).model().global == (#[trigger] fail_next(
                    old(self).model(),
                    note_id@,
                    now,
                )).global && final(self).model().notes =~= fail_next(
                    old(self).model(),
                    note_id@,
                    now,
                ).notes && r == fail_result(old(self).model(), note_id@, now),
    {
        let now = now_millis();
        let r = self.record_failed_attempt_at(note_id, now);
        proof {
            assert(final(self).model().global == fail_next(old(self).model(), note_id@, now).global
                && final(self).model().notes =~= fail_next(old(self).model(), note_id@, now).notes
                && r == fail_result(old(self).model(), note_id@, now));
        }
        r
    }

    /// The current status of `note_id` now, by the wall clock.
    pub fn get_attempt_status(&self, note_id: &str) -> (r: (u32, Option<u64>))
        requires
            self.wf(),
        ensures
            exists|now: u64| r == #[trigger] status_of(self.model(), note_id@, now),
    {
        let now = now_millis();
        let r = self.get_attempt_status_at(note_id, now);
        proof {
            assert(r == status_of(self.model(), note_id@, now));
        }
        r
    }

    /// The current status of `note_id` at time `now_ms`, for display:
    /// remaining attempts and, if locked out, seconds until expiry.
    pub fn get_attempt_status_at(&self, note_id: &str, now_ms: u64) -> (r: (u32, Option<u64>))
        requires
            self.wf(),
        ensures
            r == status_of(self.model(), note_id@, now_ms),
    {
        let key = note_id.to_owned();
        match self.find_entry(&key) {
            Some(i) => {
                let info = self.entries[i].1;
                let locked_for: Option<u64> = match info.locked_until {
                    Some(t) => if now_ms < t {
                        Some((t - now_ms) / 1000 + 1)
                    } else {
                        None
                    },
                    None => None,
                };
                let rem = if info.attempts >= MAX_ATTEMPTS {
                    0
                } else {
                    MAX_ATTEMPTS - info.attempts
                };
                (rem, locked_for)
            },
            None => (MAX_ATTEMPTS, None),
        }
    }
}

/// Lockout duration in seconds for the `c`-th lockout.
fn compute_lockout_secs(c: u32) -> (r: u64)
    ensures
        r == lockout_secs(c),
{
    if c == 0 {
        30
    } else if c == 1 {
        60
    } else if c == 2 {
        120
    } else if c == 3 {
        240
    } else if c == 4 {
        480
    } else {
        600
    }
}

/// The lockout deadline `now_ms + secs * 1000`, saturating.
fn compute_deadline(now_ms: u64, secs: u64) -> (r: u64)
    requires
        secs <= MAX_LOCKOUT_SECS,
    ensures
        r == lock_deadline(now_ms, secs),
{
    now_ms.saturating_add(secs * 1000)
}

/// Law: for a resource with no record, while the global counter stays below
/// its own ceiling and no gap between the failures exceeds the reset window,
/// the first four recorded failures are admitted with remaining counts
/// 4, 3, 2, 1, and the fifth triggers the first per-resource lockout,
/// reported as denied with the base lockout duration of 30 seconds.
pub proof fn lemma_per_resource_threshold(
    m: LimiterModel,
    id: Seq<char>,
    t1: u64,
    t2: u64,
    t3: u64,
    t4: u64,
    t5: u64,
)
    requires
        !m.notes.contains_key(id),
        m.global.attempts + 5 < GLOBAL_MAX_ATTEMPTS,
        t1 <= t2 <= t3 <= t4 <= t5,
        t2 - t1 <= ATTEMPT_RESET_MS,
        t3 - t2 <= ATTEMPT_RESET_MS,
        t4 - t3 <= ATTEMPT_RESET_MS,
        t5 - t4 <= ATTEMPT_RESET_MS,
    ensures
        ({
            let m1 = fail_next(m, id, t1);
            let m2 = fail_next(m1, id, t2);
            let m3 = fail_next(m2, id, t3);
            let m4 = fail_next(m3, id, t4);
            &&& fail_result(m, id, t1) == allowed_result(4)
            &&& fail_result(m1, id, t2) == allowed_result(3)
            &&& fail_result(m2, id, t3) == allowed_result(2)
            &&& fail_result(m3, id, t4) == allowed_result(1)
            &&& fail_result(m4, id, t5) == (RateLimitResult {
                allowed: false,
                retry_after_secs: Some(BASE_LOCKOUT_SECS),
                remaining_attempts: Some(0),
            })
        }),
{
    let m1 = fail_next(m, id, t1);
    let m2 = fail_next(m1, id, t2);
    let m3 = fail_next(m2, id, t3);
    let m4 = fail_next(m3, id, t4);
    assert(m1.notes[id].attempts == 1);
    assert(m2.notes[id].attempts == 2);
    assert(m3.notes[id].attempts == 3);
    assert(m4.notes[id].attempts == 4);
}

/// Law: the lockout durations escalate. When recording a failure triggers a
/// lockout, and a later failure on the same record (its lockout count kept,
/// whatever else idle resets or expiries did to it) triggers the next one,
/// the second duration is at least double the first, capped at the maximum
/// of 600 seconds.
pub proof fn lemma_exponential_backoff(
    info: AttemptInfo,
    now1: u64,
    later: AttemptInfo,
    now2: u64,
)
    requires
        fail_step(info, now1, MAX_ATTEMPTS).1 is Some,
        later.lockout_count == fail_step(info, now1, MAX_ATTEMPTS).0.lockout_count,
        fail_step(later, now2, MAX_ATTEMPTS).1 is Some,
    ensures
        ({
            let s1 = deadline_val(fail_step(info, now1, MAX_ATTEMPTS).1);
            let s2 = deadline_val(fail_step(later, now2, MAX_ATTEMPTS).1);
            s2 >= if 2 * s1 <= MAX_LOCKOUT_SECS {
                2 * s1
            } else {
                MAX_LOCKOUT_SECS as int
            }
        }),
{
}

/// The seconds an `Option` lockout report carries, or 0 when none.
pub open spec fn deadline_val(o: Option<u64>) -> u64 {
    match o {
        Some(s) => s,
        None => 0,
    }
}

/// Law: a recorded success resets the resource completely. After deleting
/// the record, a check on that resource (whenever the global gate passes)
/// reports the full count of 5 remaining attempts, however many failures
/// were recorded before.
pub proof fn lemma_success_resets(m: LimiterModel, id: Seq<char>, now: u64)
    requires
        !global_gate_denies(m, now),
    ensures
        check_result(success_next(m, id), id, now) == allowed_result(MAX_ATTEMPTS),
{
    assert(!swept(success_next(m, id).notes, now).contains_key(id));
}

/// Law: after a lockout expires, the next recorded failure starts a new
/// cycle: one failure on the counter, no lockout reported, and the lockout
/// count kept so later backoff still escalates.
pub proof fn lemma_expiry_starts_new_cycle(info: AttemptInfo, now: u64)
    requires
        lock_expired(info, now),
    ensures
        fail_step(info, now, MAX_ATTEMPTS).0.attempts == 1,
        fail_step(info, now, MAX_ATTEMPTS).0.lockout_count == info.lockout_count,
        fail_step(info, now, MAX_ATTEMPTS).1 is None,
{
}

/// Law: recording a failure while the global record is due for no reset
/// raises its counter by exactly one, whatever resource the failure is
/// attributed to.
pub proof fn lemma_global_increment(m: LimiterModel, id: Seq<char>, now: u64)
    requires
        !reset_due(m.global, now),
        m.global.attempts + 1 < GLOBAL_MAX_ATTEMPTS,
    ensures
        fail_next(m, id, now).global.attempts == m.global.attempts + 1,
        fail_result(m, id, now).allowed == (fail_result(m, id, now).retry_after_secs is None),
{
}

/// Law: the global ceiling preempts the per-resource gate. When the global
/// counter stands one failure short of its ceiling of 15, the next recorded
/// failure is denied with the global backoff duration, and no per-resource
/// record is touched or created — even though no individual resource need
/// have reached its own threshold.
pub proof fn lemma_global_ceiling(m: LimiterModel, id: Seq<char>, now: u64)
    requires
        m.global.attempts + 1 == GLOBAL_MAX_ATTEMPTS,
        !reset_due(m.global, now),
    ensures
        fail_result(m, id, now) == (RateLimitResult {
            allowed: false,
            retry_after_secs: Some(lockout_secs(m.global.lockout_count)),
            remaining_attempts: Some(0),
        }),
        fail_next(m, id, now).notes == m.notes,
{
}

/// Relies on std::time::SystemTime::now for the wall clock, reduced to
/// milliseconds since the Unix epoch. Nothing is promised of the value.
#[verifier::external_body]
pub(crate) fn now_millis() -> u64 {
    match std::time::SystemTime::now().duration_since(std::time::UNIX_EPOCH) {
        Ok(d) => d.as_millis() as u64,
        Err(_) => 0,
    }
}

} // verus!
