//! Retry with exponential backoff and connection health accounting.
//!
//! The waiting and the calls themselves belong to the caller: these types
//! decide, after each attempt or health check, what happens next.
use vstd::prelude::*;

verus! {

/// Attempts made before an operation is given up, by default.
pub const MAX_RETRIES: u32 = 3;

/// Delay before the first retry, in milliseconds, by default.
pub const BASE_BACKOFF_MS: u64 = 100;

/// Ceiling of the delay between retries, in milliseconds, by default.
pub const MAX_BACKOFF_MS: u64 = 5000;

/// Interval between health checks, in milliseconds.
pub const HEALTH_CHECK_INTERVAL_MS: u64 = 1000;

/// Retry and health settings. Delays are in milliseconds.
#[derive(Clone, Copy, Debug, PartialEq, Eq, Structural)]
pub struct ResilienceConfig {
    pub max_retries: u32,
    pub retry_delay_ms: u64,
    pub max_backoff_ms: u64,
    pub jitter_buffer_size: usize,
    pub error_correction_enabled: bool,
}

impl ResilienceConfig {
    /// Three attempts, 100 ms first delay, 5 s ceiling, a jitter buffer of 5.
    pub open spec fn default_spec() -> ResilienceConfig {
        ResilienceConfig {
            max_retries: MAX_RETRIES,
            retry_delay_ms: BASE_BACKOFF_MS,
            max_backoff_ms: MAX_BACKOFF_MS,
            jitter_buffer_size: 5,
            error_correction_enabled: true,
        }
    }
}

impl Default for ResilienceConfig {
    fn default() -> (r: ResilienceConfig)
        ensures
            r == ResilienceConfig::default_spec(),
    {
        ResilienceConfig {
            max_retries: MAX_RETRIES,
            retry_delay_ms: BASE_BACKOFF_MS,
            max_backoff_ms: MAX_BACKOFF_MS,
            jitter_buffer_size: 5,
            error_correction_enabled: true,
        }
    }
}

/// A snapshot of a connection's health accounting; `last_success` is in
/// milliseconds since the Unix epoch.
#[derive(Clone, Copy, Debug, PartialEq, Eq, Structural)]
pub struct ConnectionStats {
    pub retry_count: u32,
    pub last_success: Option<u64>,
    pub is_healthy: bool,
}

/// Progress of one operation under retry.
#[derive(Clone, Copy, Debug, PartialEq, Eq, Structural)]
pub struct RetryState {
    /// Failed attempts so far.
    pub attempts: u32,
    /// Delay before the next retry, in milliseconds.
    pub backoff_ms: u64,
}

/// What to do after an attempt.
#[derive(Clone, Copy, Debug, PartialEq, Eq, Structural)]
pub enum RetryAction {
    /// The attempt succeeded: hand its result back.
    Done,
    /// Wait this many milliseconds, then try again.
    RetryAfter(u64),
    /// Retries are exhausted: hand the last error back.
    GiveUp,
}

/// The state of the health accounting.
pub struct ResilienceView {
    pub config: ResilienceConfig,
    pub retry_count: u32,
    pub last_success: Option<u64>,
}

/// The delay that follows `backoff`: doubled, but not beyond `ceiling`.
pub open spec fn next_backoff(backoff: u64, ceiling: u64) -> u64 {
    if backoff * 2 <= ceiling { (backoff * 2) as u64 } else { ceiling }
}

/// The counter plus one, staying at its largest value.
pub open spec fn bump(n: u32) -> u32 {
    if n < u32::MAX { (n + 1) as u32 } else { n }
}

/// The accounting, retry state and action after an attempt that `succeeded`
/// or not, at time `now`.
pub open spec fn retry_step(v: ResilienceView, st: RetryState, succeeded: bool, now: u64) -> (ResilienceView, RetryState, RetryAction) {
    if succeeded {
        (ResilienceView { retry_count: 0, last_success: Some(now), ..v }, st, RetryAction::Done)
    } else {
        let attempts = bump(st.attempts);
        let v2 = ResilienceView { retry_count: bump(v.retry_count), ..v };
        if attempts >= v.config.max_retries {
            (v2, RetryState { attempts, ..st }, RetryAction::GiveUp)
        } else {
            (
                v2,
                RetryState { attempts, backoff_ms: next_backoff(st.backoff_ms, v.config.max_backoff_ms) },
                RetryAction::RetryAfter(st.backoff_ms),
            )
        }
    }
}

/// Runs attempts with the given outcomes until one ends the operation:
/// the final accounting, the ending action and how many attempts were made,
/// or `None` when the outcomes run out first.
pub open spec fn retry_run(v: ResilienceView, st: RetryState, outcomes: Seq<bool>, now: u64) -> Option<(ResilienceView, RetryAction, nat)>
    decreases outcomes.len(),
{
    if outcomes.len() == 0 {
        None
    } else {
        let (v2, st2, a) = retry_step(v, st, outcomes[0], now);
        if a is RetryAfter {
            match retry_run(v2, st2, outcomes.drop_first(), now) {
                Some((v3, a3, n)) => Some((v3, a3, n + 1)),
                None => None,
            }
        } else {
            Some((v2, a, 1))
        }
    }
}

/// The retry state of an operation not yet attempted: the first delay is
/// the configured one, but not beyond the ceiling.
pub open spec fn fresh_retry(c: ResilienceConfig) -> RetryState {
    RetryState {
        attempts: 0,
        backoff_ms: if c.retry_delay_ms <= c.max_backoff_ms { c.retry_delay_ms } else { c.max_backoff_ms },
    }
}

/// No delay between retries goes beyond the ceiling: the first one is
/// capped, and each step keeps the next one capped.
pub proof fn lemma_backoff_within_ceiling(v: ResilienceView, st: RetryState, succeeded: bool, now: u64)
    requires
        st.backoff_ms <= v.config.max_backoff_ms,
    ensures
        fresh_retry(v.config).backoff_ms <= v.config.max_backoff_ms,
        retry_step(v, st, succeeded, now).1.backoff_ms <= v.config.max_backoff_ms,
        retry_step(v, st, succeeded, now).2 matches RetryAction::RetryAfter(d) ==> d <= v.config.max_backoff_ms,
{
}

/// Failing `n` times and then succeeding, with `n` below the retry limit,
/// ends in success after `n + 1` attempts with the retry counter reset.
pub proof fn lemma_retry_recovers(v: ResilienceView, n: nat, now: u64)
    requires
        n < v.config.max_retries,
    ensures
        retry_run(v, fresh_retry(v.config), Seq::new(n, |i: int| false).push(true), now) matches Some((v2, a, k))
            && a == RetryAction::Done && k == n + 1 && v2.retry_count == 0 && v2.last_success == Some(now),
{
    lemma_retry_recovers_from(v, fresh_retry(v.config), n, now);
}

proof fn lemma_retry_recovers_from(v: ResilienceView, st: RetryState, n: nat, now: u64)
    requires
        st.attempts + n < v.config.max_retries,
    ensures
        retry_run(v, st, Seq::new(n, |i: int| false).push(true), now) matches Some((v2, a, k))
            && a == RetryAction::Done && k == n + 1 && v2.retry_count == 0 && v2.last_success == Some(now),
    decreases n,
{
    let outcomes = Seq::new(n, |i: int| false).push(true);
    if n > 0 {
        let (v2, st2, a) = retry_step(v, st, false, now);
        assert(outcomes[0] == false);
        assert(outcomes.drop_first() =~= Seq::new((n - 1) as nat, |i: int| false).push(true));
        lemma_retry_recovers_from(v2, st2, (n - 1) as nat, now);
    } else {
        assert(outcomes[0] == true);
    }
}

/// An operation that always fails is given up after exactly `max_retries`
/// attempts (one when the limit is 0).
pub proof fn lemma_retry_exhausts(v: ResilienceView, n: nat, now: u64)
    requires
        n >= v.config.max_retries,
        n >= 1,
    ensures
        retry_run(v, fresh_retry(v.config), Seq::new(n, |i: int| false), now) matches Some((v2, a, k))
            && a == RetryAction::GiveUp
            && k == (if v.config.max_retries == 0 { 1 } else { v.config.max_retries as nat }),
{
    lemma_retry_exhausts_from(v, fresh_retry(v.config), n, now);
}

proof fn lemma_retry_exhausts_from(v: ResilienceView, st: RetryState, n: nat, now: u64)
    requires
        st.attempts < v.config.max_retries || st.attempts == 0,
        n + st.attempts >= v.config.max_retries,
        n >= 1,
    ensures
        retry_run(v, st, Seq::new(n, |i: int| false), now) matches Some((v2, a, k))
            && a == RetryAction::GiveUp
            && k == (if v.config.max_retries == 0 { 1 } else { (v.config.max_retries - st.attempts) as nat }),
    decreases n,
{
    let outcomes = Seq::new(n, |i: int| false);
    assert(outcomes[0] == false);
    let (v2, st2, a) = retry_step(v, st, false, now);
    if a is RetryAfter {
        assert(outcomes.drop_first() =~= Seq::new((n - 1) as nat, |i: int| false));
        lemma_retry_exhausts_from(v2, st2, (n - 1) as nat, now);
    }
}

/// Retry and health accounting for one connection.
pub struct NetworkResilience {
    config: ResilienceConfig,
    retry_count: u32,
    last_success: Option<u64>,
}

impl View for NetworkResilience {
    type V = ResilienceView;

    closed spec fn view(&self) -> ResilienceView {
        ResilienceView { config: self.config, retry_count: self.retry_count, last_success: self.last_success }
    }
}

impl NetworkResilience {
    /// Accounting with no failures and no success recorded yet.
    pub fn new(config: ResilienceConfig) -> (r: NetworkResilience)
        ensures
            r@ == (ResilienceView { config, retry_count: 0, last_success: None }),
    {
        NetworkResilience { config, retry_count: 0, last_success: None }
    }

    /// The settings in use.
    pub fn config(&self) -> (r: ResilienceConfig)
        ensures
            r == self@.config,
    {
        self.config
    }

    /// The connection counts as healthy while fewer than `max_retries`
    /// failures have followed the last success.
    pub fn is_healthy(&self) -> (r: bool)
        ensures
            r == (self@.retry_count < self@.config.max_retries),
    {
        self.retry_count < self.config.max_retries
    }

    /// The failure count, the time of the last success and the health.
    pub fn get_stats(&self) -> (r: ConnectionStats)
        ensures
            r == (ConnectionStats {
                retry_count: self@.retry_count,
                last_success: self@.last_success,
                is_healthy: self@.retry_count < self@.config.max_retries,
            }),
    {
        ConnectionStats { retry_count: self.retry_count, last_success: self.last_success, is_healthy: self.is_healthy() }
    }

    /// Resets the failure count and records a success at `now`.
    pub fn record_success(&mut self, now: u64)
        ensures
            final(self)@ == (ResilienceView { retry_count: 0, last_success: Some(now), ..old(self)@ }),
    {
        self.retry_count = 0;
        self.last_success = Some(now);
    }

    /// Counts one more failure.
    pub fn record_failure(&mut self)
        ensures
            final(self)@ == (ResilienceView { retry_count: bump(old(self)@.retry_count), ..old(self)@ }),
    {
        if self.retry_count < u32::MAX {
            self.retry_count = self.retry_count + 1;
        }
    }

    /// The state of an operation about to be tried for the first time.
    pub fn start_retry(&self) -> (r: RetryState)
        ensures
            r == fresh_retry(self@.config),
    {
        let first = if self.config.retry_delay_ms <= self.config.max_backoff_ms {
            self.config.retry_delay_ms
        } else {
            self.config.max_backoff_ms
        };
        RetryState { attempts: 0, backoff_ms: first }
    }

    /// Accounts for an attempt that `succeeded` or failed at time `now` and
    /// says what to do next: a success resets the failure count; a failure
    /// counts, and is retried after the current delay, which then doubles up
    /// to the ceiling, until `max_retries` attempts have failed.
    pub fn on_attempt(&mut self, state: &mut RetryState, succeeded: bool, now: u64) -> (r: RetryAction)
        ensures
            retry_step(old(self)@, *old(state), succeeded, now) == (final(self)@, *final(state), r),
    {
        if succeeded {
            self.record_success(now);
            return RetryAction::Done;
        }
        if state.attempts < u32::MAX {
            state.attempts = state.attempts + 1;
        }
        self.record_failure();
        if state.attempts >= self.config.max_retries {
            return RetryAction::GiveUp;
        }
        let delay = state.backoff_ms;
        state.backoff_ms = if delay <= self.config.max_backoff_ms / 2 {
            delay * 2
        } else {
            self.config.max_backoff_ms
        };
        RetryAction::RetryAfter(delay)
    }

    /// Accounts for a health check that found the connection `healthy` or
    /// not (a check that could not run counts as not) at time `now`; returns
    /// whether monitoring goes on, which stops once the connection is unhealthy.
    pub fn on_health_check(&mut self, healthy: bool, now: u64) -> (r: bool)
        ensures
            final(self)@ == (if healthy {
                ResilienceView { retry_count: 0, last_success: Some(now), ..old(self)@ }
            } else {
                ResilienceView { retry_count: bump(old(self)@.retry_count), ..old(self)@ }
            }),
            r == (final(self)@.retry_count < final(self)@.config.max_retries),
    {
        if healthy {
            self.record_success(now);
        } else {
            self.record_failure();
        }
        self.is_healthy()
    }
}

} // verus!
