//! Error taxonomy of the capture engine and the circuit breaker that gates
//! dispatch on sustained failure.

use std::time::Duration;
use vstd::prelude::*;

use crate::clock::{duration_millis, millis_of, MonotonicClock};

verus! {

/// Every failure the capture engine can report.
#[derive(Debug, Clone)]
pub enum ScreenshotError {
    BrowserUnavailable,
    UrlLoadFailed(String),
    CaptureFailed(String),
    Timeout(Duration),
    NetworkError(String),
    InvalidUrl(String),
    BrowserLaunchFailed(String),
    BrowserProcessDied(String),
    MemoryLimitExceeded,
    ConfigurationError(String),
    IoError(String),
    SerializationError(String),
    ChromeError(String),
    PageError(String),
    ElementNotFound(String),
    ResourceBlockingError(String),
    SemaphoreError(String),
}

#[derive(Debug, Clone, Copy, PartialEq, Eq, Structural)]
pub enum ErrorSeverity {
    Low,
    Medium,
    High,
    Critical,
}

impl ScreenshotError {
    /// Transient failures worth another attempt.
    pub open spec fn retryable(&self) -> bool {
        match self {
            ScreenshotError::BrowserUnavailable => true,
            ScreenshotError::UrlLoadFailed(_) => true,
            ScreenshotError::NetworkError(_) => true,
            ScreenshotError::Timeout(_) => true,
            ScreenshotError::PageError(_) => true,
            ScreenshotError::BrowserProcessDied(_) => true,
            _ => false,
        }
    }

    pub open spec fn severity_of(&self) -> ErrorSeverity {
        match self {
            ScreenshotError::InvalidUrl(_) => ErrorSeverity::Low,
            ScreenshotError::ElementNotFound(_) => ErrorSeverity::Low,
            ScreenshotError::ConfigurationError(_) => ErrorSeverity::High,
            ScreenshotError::MemoryLimitExceeded => ErrorSeverity::High,
            ScreenshotError::BrowserLaunchFailed(_) => ErrorSeverity::High,
            _ => ErrorSeverity::Medium,
        }
    }

    pub fn is_retryable(&self) -> (r: bool)
        ensures
            r == self.retryable(),
    {
        match self {
            ScreenshotError::BrowserUnavailable => true,
            ScreenshotError::UrlLoadFailed(_) => true,
            ScreenshotError::NetworkError(_) => true,
            ScreenshotError::Timeout(_) => true,
            ScreenshotError::PageError(_) => true,
            ScreenshotError::BrowserProcessDied(_) => true,
            _ => false,
        }
    }

    pub fn severity(&self) -> (r: ErrorSeverity)
        ensures
            r == self.severity_of(),
    {
        match self {
            ScreenshotError::InvalidUrl(_) => ErrorSeverity::Low,
            ScreenshotError::ElementNotFound(_) => ErrorSeverity::Low,
            ScreenshotError::ConfigurationError(_) => ErrorSeverity::High,
            ScreenshotError::MemoryLimitExceeded => ErrorSeverity::High,
            ScreenshotError::BrowserLaunchFailed(_) => ErrorSeverity::High,
            _ => ErrorSeverity::Medium,
        }
    }
}

#[derive(Debug, Clone, Copy, PartialEq, Eq, Structural)]
pub enum CircuitState {
    Closed,
    Open,
    HalfOpen,
}

/// Abstract state of a breaker: what its operations read and write.
pub struct BreakerModel {
    pub state: CircuitState,
    pub failure_threshold: nat,
    pub recovery_timeout_ms: nat,
    pub failure_count: nat,
    pub last_failure_ms: Option<nat>,
}

/// Three-state gate: after `failure_threshold` consecutive failures it denies
/// execution until `recovery_timeout` has passed since the last failure.
#[derive(Debug, Clone)]
pub struct CircuitBreaker {
    state: CircuitState,
    failure_threshold: usize,
    recovery_timeout_ms: u64,
    failure_count: usize,
    last_failure_ms: Option<u64>,
    clock: MonotonicClock,
}

pub open spec fn opt_nat(o: Option<u64>) -> Option<nat> {
    match o {
        Some(t) => Some(t as nat),
        None => None,
    }
}

/// What `record_failure` does to the breaker at time `now`.
pub open spec fn after_failure(b: BreakerModel, now: nat) -> BreakerModel {
    let count = if b.failure_count + 1 > usize::MAX { usize::MAX as nat } else { b.failure_count
        + 1 };
    BreakerModel {
        state: if count >= b.failure_threshold { CircuitState::Open } else { b.state },
        failure_count: count,
        last_failure_ms: Some(now),
        ..b
    }
}

/// What `record_success` does to the breaker.
pub open spec fn after_success(b: BreakerModel) -> BreakerModel {
    BreakerModel { state: CircuitState::Closed, failure_count: 0, last_failure_ms: None, ..b }
}

/// Whether the cooldown has passed at time `now`.
pub open spec fn cooled_down(b: BreakerModel, now: nat) -> bool {
    match b.last_failure_ms {
        Some(t) => now > t && now - t > b.recovery_timeout_ms,
        None => false,
    }
}

/// The answer of `can_execute` at time `now`.
pub open spec fn permits(b: BreakerModel, now: nat) -> bool {
    match b.state {
        CircuitState::Closed => true,
        CircuitState::Open => cooled_down(b, now),
        CircuitState::HalfOpen => true,
    }
}

/// The breaker after `can_execute` at time `now`: an open breaker whose
/// cooldown has passed moves to half-open.
pub open spec fn after_check(b: BreakerModel, now: nat) -> BreakerModel {
    if b.state == CircuitState::Open && cooled_down(b, now) {
        BreakerModel { state: CircuitState::HalfOpen, ..b }
    } else {
        b
    }
}

/// The breaker after failures recorded at the times `ts`, in order.
pub open spec fn after_failures(b: BreakerModel, ts: Seq<nat>) -> BreakerModel
    decreases ts.len(),
{
    if ts.len() == 0 {
        b
    } else {
        after_failure(after_failures(b, ts.drop_last()), ts.last())
    }
}

impl View for CircuitBreaker {
    type V = BreakerModel;

    closed spec fn view(&self) -> BreakerModel {
        BreakerModel {
            state: self.state,
            failure_threshold: self.failure_threshold as nat,
            recovery_timeout_ms: self.recovery_timeout_ms as nat,
            failure_count: self.failure_count as nat,
            last_failure_ms: opt_nat(self.last_failure_ms),
        }
    }
}

impl CircuitBreaker {
    /// A closed breaker with no failures recorded.
    pub fn new(failure_threshold: usize, recovery_timeout: Duration) -> (r: Self)
        ensures
            r@.state == CircuitState::Closed,
            r@.failure_threshold == failure_threshold,
            r@.failure_count == 0,
            r@.last_failure_ms.is_none(),
            r@.recovery_timeout_ms == if millis_of(recovery_timeout) > u64::MAX as u128 {
                u64::MAX as nat
            } else {
                millis_of(recovery_timeout) as nat
            },
    {
        let ms = duration_millis(&recovery_timeout);
        let timeout_ms: u64 = if ms > u64::MAX as u128 {
            u64::MAX
        } else {
            ms as u64
        };
        Self::with_timeout_ms(failure_threshold, timeout_ms)
    }

    /// A closed breaker whose cooldown is given in milliseconds.
    pub fn with_timeout_ms(failure_threshold: usize, recovery_timeout_ms: u64) -> (r: Self)
        ensures
            r@ == (BreakerModel {
                state: CircuitState::Closed,
                failure_threshold: failure_threshold as nat,
                recovery_timeout_ms: recovery_timeout_ms as nat,
                failure_count: 0,
                last_failure_ms: None,
            }),
    {
        CircuitBreaker {
            state: CircuitState::Closed,
            failure_threshold,
            recovery_timeout_ms,
            failure_count: 0,
            last_failure_ms: None,
            clock: MonotonicClock::start(),
        }
    }

    /// Asks the breaker at the current time.
    pub fn can_execute(&mut self) -> (r: bool)
        ensures
            exists|now: nat|
                r == permits(old(self)@, now) && final(self)@ == after_check(old(self)@, now),
    {
        let now = self.clock.now_ms();
        self.can_execute_at(now)
    }

    /// Closed and half-open breakers permit; an open one permits, and turns
    /// half-open, only once the cooldown has passed since the last failure.
    pub fn can_execute_at(&mut self, now_ms: u64) -> (r: bool)
        ensures
            r == permits(old(self)@, now_ms as nat),
            final(self)@ == after_check(old(self)@, now_ms as nat),
    {
        match self.state {
            CircuitState::Closed => true,
            CircuitState::HalfOpen => true,
            CircuitState::Open => {
                match self.last_failure_ms {
                    Some(last) => {
                        if now_ms > last && now_ms - last > self.recovery_timeout_ms {
                            self.state = CircuitState::HalfOpen;
                            true
                        } else {
                            false
                        }
                    },
                    None => false,
                }
            },
        }
    }

    /// Closes the breaker and clears its failure count.
    pub fn record_success(&mut self)
        ensures
            final(self)@ == after_success(old(self)@),
            final(self)@.failure_count == 0,
            final(self)@.state == CircuitState::Closed,
    {
        self.failure_count = 0;
        self.state = CircuitState::Closed;
        self.last_failure_ms = None;
    }

    /// Records a failure at the current time.
    pub fn record_failure(&mut self)
        ensures
            exists|now: nat| final(self)@ == after_failure(old(self)@, now),
    {
        let now = self.clock.now_ms();
        self.record_failure_at(now);
    }

    /// Counts one more failure at `now_ms`; the breaker opens once the count
    /// reaches the threshold.
    pub fn record_failure_at(&mut self, now_ms: u64)
        ensures
            final(self)@ == after_failure(old(self)@, now_ms as nat),
    {
        let count = self.failure_count.saturating_add(1);
        self.failure_count = count;
        self.last_failure_ms = Some(now_ms);
        if count >= self.failure_threshold {
            self.state = CircuitState::Open;
        }
    }

    pub fn get_state(&self) -> (r: CircuitState)
        ensures
            r == self@.state,
    {
        self.state
    }

    pub fn get_failure_count(&self) -> (r: usize)
        ensures
            r == self@.failure_count,
    {
        self.failure_count
    }
}

/// After `failure_threshold` consecutive failures, the last at `ts.last()`,
/// the breaker denies execution at every time up to
/// the cooldown after the last failure.
pub proof fn lemma_trip_denies(b: BreakerModel, ts: Seq<nat>, now: nat)
    requires
        b.failure_threshold >= 1,
        b.failure_threshold <= usize::MAX,
        ts.len() >= b.failure_threshold,
        ts.last() <= now,
        now <= ts.last() + b.recovery_timeout_ms,
    ensures
        !permits(after_failures(b, ts), now),
        after_failures(b, ts).state == CircuitState::Open,
{
    lemma_failures_count(b, ts);
}

/// Each recorded failure adds one to the count (up to its cap) and leaves the
/// threshold, the cooldown and the last failure time in step.
pub proof fn lemma_failures_count(b: BreakerModel, ts: Seq<nat>)
    requires
        b.failure_threshold <= usize::MAX,
    ensures
        after_failures(b, ts).failure_threshold == b.failure_threshold,
        after_failures(b, ts).recovery_timeout_ms == b.recovery_timeout_ms,
        after_failures(b, ts).failure_count >= (if ts.len() <= usize::MAX { ts.len() } else {
            usize::MAX as nat
        }),
        ts.len() > 0 ==> after_failures(b, ts).last_failure_ms == Some(ts.last()),
        ts.len() > 0 && ts.len() >= b.failure_threshold ==> after_failures(b, ts).state
            == CircuitState::Open,
    decreases ts.len(),
{
    if ts.len() > 0 {
        lemma_failures_count(b, ts.drop_last());
    }
}

/// A success resets the count to zero whatever came before, and the breaker
/// then permits execution at any time.
pub proof fn lemma_success_resets(b: BreakerModel, now: nat)
    ensures
        after_success(b).failure_count == 0,
        permits(after_success(b), now),
{
}

} // verus!
