//! Resource and progress bookkeeping: memory gauge, sliding-window rate
//! limiter, reusable buffers, a connection counter, batch progress, worker
//! statistics and the health levels derived from them.

use std::time::{Duration, SystemTime};
use vstd::prelude::*;

use crate::clock::{duration_from_secs, secs_of, MonotonicClock};
use crate::pool::BrowserPoolStats;

verus! {

#[derive(Debug, Clone, Copy, PartialEq, Eq, Structural)]
pub enum MemoryStatus {
    Normal,
    Warning,
    Critical,
}

/// Tracks one usage gauge against a maximum.
pub struct MemoryMonitor {
    max_memory: usize,
    current_usage: usize,
}

/// Warning from 80% of the maximum, critical from 100%.
pub open spec fn memory_status(usage: nat, max: nat) -> MemoryStatus {
    if usage >= max {
        MemoryStatus::Critical
    } else if usage * 5 >= max * 4 {
        MemoryStatus::Warning
    } else {
        MemoryStatus::Normal
    }
}

impl MemoryMonitor {
    pub closed spec fn max(&self) -> nat {
        self.max_memory as nat
    }

    pub closed spec fn usage(&self) -> nat {
        self.current_usage as nat
    }

    pub fn new(max_memory: usize) -> (r: Self)
        ensures
            r.max() == max_memory,
            r.usage() == 0,
    {
        MemoryMonitor { max_memory, current_usage: 0 }
    }

    pub fn check_memory(&self) -> (r: MemoryStatus)
        ensures
            r == memory_status(self.usage(), self.max()),
    {
        let usage = self.current_usage as u128;
        let max = self.max_memory as u128;
        if usage >= max {
            MemoryStatus::Critical
        } else if usage * 5 >= max * 4 {
            MemoryStatus::Warning
        } else {
            MemoryStatus::Normal
        }
    }

    pub fn update_usage(&mut self, usage: usize)
        ensures
            final(self).usage() == usage,
            final(self).max() == old(self).max(),
    {
        self.current_usage = usage;
    }

    pub fn get_usage(&self) -> (r: usize)
        ensures
            r == self.usage(),
    {
        self.current_usage
    }

    /// Usage as a whole percentage of the maximum, rounded down (0 when
    /// the maximum is 0).
    pub fn get_usage_percentage(&self) -> (r: u128)
        ensures
            self.max() > 0 ==> r == self.usage() * 100 / self.max(),
            self.max() == 0 ==> r == 0,
    {
        if self.max_memory == 0 {
            return 0;
        }
        (self.current_usage as u128) * 100 / (self.max_memory as u128)
    }
}

/// Length of the rate limiter's window: one second.
pub const RATE_WINDOW_MS: u64 = 1000;

/// Whether a request at `t` still counts at `now`.
pub open spec fn in_window(t: u64, now: u64) -> bool {
    now < t || now - t < RATE_WINDOW_MS
}

/// The grants of `times` still inside the window at `now`.
pub open spec fn recent_at(times: Seq<u64>, now: u64) -> Seq<u64> {
    times.filter(|t: u64| in_window(t, now))
}

/// Sliding-window limiter: at most `requests_per_second` grants within any
/// one-second window.
pub struct RateLimiter {
    requests_per_second: usize,
    request_times: Vec<u64>,
    clock: MonotonicClock,
}

impl RateLimiter {
    pub closed spec fn limit(&self) -> nat {
        self.requests_per_second as nat
    }

    /// Times of the grants still on record.
    pub closed spec fn times(&self) -> Seq<u64> {
        self.request_times@
    }

    pub fn new(requests_per_second: usize) -> (r: Self)
        ensures
            r.limit() == requests_per_second,
            r.times().len() == 0,
    {
        RateLimiter { requests_per_second, request_times: Vec::new(), clock: MonotonicClock::start() }
    }

    fn recent(&self, now_ms: u64) -> (r: Vec<u64>)
        ensures
            r@ == self.times().filter(|t: u64| in_window(t, now_ms)),
    {
        let ghost p = |t: u64| in_window(t, now_ms);
        let mut r: Vec<u64> = Vec::new();
        let mut i: usize = 0;
        while i < self.request_times.len()
            invariant
                i <= self.request_times@.len(),
                p == (|t: u64| in_window(t, now_ms)),
                r@ == self.request_times@.take(i as int).filter(p),
            decreases self.request_times@.len() - i,
        {
            let t = self.request_times[i];
            proof {
                assert(self.request_times@.take(i + 1).drop_last() =~= self.request_times@.take(
                    i as int,
                ));
                reveal(Seq::filter);
            }
            if now_ms < t || now_ms - t < RATE_WINDOW_MS {
                r.push(t);
            }
            i = i + 1;
        }
        proof {
            assert(self.request_times@.take(i as int) =~= self.request_times@);
        }
        r
    }

    /// Drops grants older than the window, then grants (and records) the
    /// request if fewer than the limit remain; a refusal reserves nothing.
    pub fn acquire_at(&mut self, now_ms: u64) -> (granted: bool)
        ensures
            final(self).limit() == old(self).limit(),
            granted == (old(self).times().filter(|t: u64| in_window(t, now_ms)).len()
                < old(self).limit()),
            granted ==> final(self).times() == old(self).times().filter(
                |t: u64| in_window(t, now_ms),
            ).push(now_ms),
            !granted ==> final(self).times() == old(self).times().filter(
                |t: u64| in_window(t, now_ms),
            ),
    {
        let mut kept = self.recent(now_ms);
        let granted = kept.len() < self.requests_per_second;
        if granted {
            kept.push(now_ms);
        }
        self.request_times = kept;
        granted
    }

    /// `acquire_at` at the current time.
    pub fn acquire(&mut self) -> (granted: bool)
        ensures
            final(self).limit() == old(self).limit(),
            exists|now: u64|
                {
                    &&& granted == (#[trigger] recent_at(old(self).times(), now).len() < old(
                        self,
                    ).limit())
                    &&& granted ==> final(self).times() == recent_at(old(self).times(), now).push(
                        now,
                    )
                    &&& !granted ==> final(self).times() == recent_at(old(self).times(), now)
                },
    {
        let now = self.clock.now_ms();
        let ghost t0 = self.times();
        let granted = self.acquire_at(now);
        proof {
            assert(recent_at(t0, now) == t0.filter(|t: u64| in_window(t, now)));
        }
        granted
    }

    /// Grants within the window at `now_ms`.
    pub fn current_rate_at(&self, now_ms: u64) -> (r: usize)
        ensures
            r == self.times().filter(|t: u64| in_window(t, now_ms)).len(),
    {
        self.recent(now_ms).len()
    }

    pub fn get_current_rate(&self) -> (r: usize)
        ensures
            exists|now: u64| r == #[trigger] recent_at(self.times(), now).len(),
    {
        let now = self.clock.now_ms();
        let r = self.current_rate_at(now);
        proof {
            assert(recent_at(self.times(), now) == self.times().filter(|t: u64| in_window(t, now)));
        }
        r
    }
}

#[derive(Debug, Clone, PartialEq, Eq, Structural)]
pub struct BufferStats {
    pub available_buffers: usize,
    pub max_buffers: usize,
    pub buffer_size: usize,
}

/// Free list of reusable byte buffers, at most `max_buffers` kept.
pub struct BufferPool {
    buffers: Vec<Vec<u8>>,
    buffer_size: usize,
    max_buffers: usize,
}

impl BufferPool {
    pub closed spec fn free(&self) -> Seq<Vec<u8>> {
        self.buffers@
    }

    pub closed spec fn size(&self) -> nat {
        self.buffer_size as nat
    }

    pub closed spec fn cap(&self) -> nat {
        self.max_buffers as nat
    }

    pub fn new(buffer_size: usize, max_buffers: usize) -> (r: Self)
        ensures
            r.free().len() == 0,
            r.size() == buffer_size,
            r.cap() == max_buffers,
    {
        BufferPool { buffers: Vec::new(), buffer_size, max_buffers }
    }

    /// A pooled buffer if one is free, else a fresh empty one.
    pub fn get_buffer(&mut self) -> (r: Vec<u8>)
        ensures
            final(self).size() == old(self).size(),
            final(self).cap() == old(self).cap(),
            old(self).free().len() > 0 ==> final(self).free() == old(self).free().drop_last()
                && r == old(self).free().last(),
            old(self).free().len() == 0 ==> final(self).free().len() == 0 && r@.len() == 0,
    {
        match self.buffers.pop() {
            Some(b) => b,
            None => Vec::with_capacity(self.buffer_size),
        }
    }

    /// Keeps the buffer, cleared, while fewer than `max_buffers` are free.
    pub fn return_buffer(&mut self, buffer: Vec<u8>)
        ensures
            final(self).size() == old(self).size(),
            final(self).cap() == old(self).cap(),
            old(self).free().len() < old(self).cap() ==> final(self).free().len() == old(
                self,
            ).free().len() + 1 && final(self).free().last()@.len() == 0 && final(self).free().drop_last()
                == old(self).free(),
            old(self).free().len() >= old(self).cap() ==> final(self).free() == old(self).free(),
    {
        if self.buffers.len() < self.max_buffers {
            let mut buffer = buffer;
            buffer.clear();
            self.buffers.push(buffer);
            proof {
                assert(self.buffers@.drop_last() =~= old(self).buffers@);
            }
        }
    }

    pub fn get_stats(&self) -> (r: BufferStats)
        ensures
            r == (BufferStats {
                available_buffers: self.free().len() as usize,
                max_buffers: self.cap() as usize,
                buffer_size: self.size() as usize,
            }),
    {
        BufferStats {
            available_buffers: self.buffers.len(),
            max_buffers: self.max_buffers,
            buffer_size: self.buffer_size,
        }
    }
}

/// Counts connections against a fixed maximum.
pub struct ConnectionPool {
    max_connections: usize,
    active: usize,
}

impl ConnectionPool {
    pub closed spec fn max(&self) -> nat {
        self.max_connections as nat
    }

    pub closed spec fn active(&self) -> nat {
        self.active as nat
    }

    pub open spec fn wf(&self) -> bool {
        self.active() <= self.max()
    }

    pub fn new(max_connections: usize) -> (r: Self)
        ensures
            r.wf(),
            r.max() == max_connections,
            r.active() == 0,
    {
        ConnectionPool { max_connections, active: 0 }
    }

    /// Takes a connection slot if one is free.
    pub fn try_acquire(&mut self) -> (granted: bool)
        requires
            old(self).wf(),
        ensures
            final(self).wf(),
            final(self).max() == old(self).max(),
            granted == (old(self).active() < old(self).max()),
            granted ==> final(self).active() == old(self).active() + 1,
            !granted ==> final(self).active() == old(self).active(),
    {
        if self.active < self.max_connections {
            self.active = self.active + 1;
            true
        } else {
            false
        }
    }

    /// Gives a slot back.
    pub fn release(&mut self)
        requires
            old(self).wf(),
        ensures
            final(self).wf(),
            final(self).max() == old(self).max(),
            final(self).active() == if old(self).active() > 0 {
                (old(self).active() - 1) as nat
            } else {
                0
            },
    {
        if self.active > 0 {
            self.active = self.active - 1;
        }
    }

    pub fn active_count(&self) -> (r: usize)
        ensures
            r == self.active(),
    {
        self.active
    }

    pub fn available_count(&self) -> (r: usize)
        requires
            self.wf(),
        ensures
            r == self.max() - self.active(),
    {
        self.max_connections - self.active
    }

    pub fn max_connections(&self) -> (r: usize)
        ensures
            r == self.max(),
    {
        self.max_connections
    }
}

/// Progress of a batch: how many requests completed and how many failed.
pub struct ProgressTracker {
    total: usize,
    completed: usize,
    errors: usize,
    clock: MonotonicClock,
}

/// A snapshot of a batch's progress. `rate` is whole completions per
/// second; `eta` is absent until something has completed.
#[derive(Debug, Clone)]
pub struct ProgressInfo {
    pub total: usize,
    pub completed: usize,
    pub errors: usize,
    pub success: usize,
    pub elapsed: Duration,
    pub rate: u64,
    pub eta: Option<Duration>,
}

impl ProgressTracker {
    pub closed spec fn total(&self) -> nat {
        self.total as nat
    }

    pub closed spec fn completed(&self) -> nat {
        self.completed as nat
    }

    pub closed spec fn errors(&self) -> nat {
        self.errors as nat
    }

    pub open spec fn wf(&self) -> bool {
        self.errors() <= self.completed()
    }

    pub fn new(total: usize) -> (r: Self)
        ensures
            r.wf(),
            r.total() == total,
            r.completed() == 0,
            r.errors() == 0,
    {
        ProgressTracker { total, completed: 0, errors: 0, clock: MonotonicClock::start() }
    }

    /// Counts one completion, and one error when it failed (both saturate
    /// at `usize::MAX`).
    pub fn record_completion(&mut self, success: bool)
        requires
            old(self).wf(),
        ensures
            final(self).wf(),
            final(self).total() == old(self).total(),
            old(self).completed() < usize::MAX ==> final(self).completed() == old(self).completed()
                + 1,
            old(self).completed() < usize::MAX ==> final(self).errors() == old(self).errors() + if success {
                0nat
            } else {
                1nat
            },
    {
        if self.completed < usize::MAX {
            self.completed = self.completed + 1;
            if !success {
                self.errors = self.errors + 1;
            }
        }
    }

    pub fn is_complete(&self) -> (r: bool)
        ensures
            r == (self.completed() >= self.total()),
    {
        self.completed >= self.total
    }

    /// The snapshot after `elapsed_secs` seconds: whole completions per
    /// second, and an estimate of the seconds left (remaining times elapsed
    /// over completed, capped at `u64::MAX`) once something has completed.
    pub open spec fn progress_spec(&self, elapsed_secs: u64, r: ProgressInfo) -> bool {
        let remaining: nat = if self.total() > self.completed() {
            (self.total() - self.completed()) as nat
        } else {
            0
        };
        let est: int = (remaining * elapsed_secs) as int / self.completed() as int;
        &&& r.total == self.total()
        &&& r.completed == self.completed()
        &&& r.errors == self.errors()
        &&& r.success == self.completed() - self.errors()
        &&& secs_of(r.elapsed) == elapsed_secs
        &&& r.rate == if elapsed_secs > 0 {
            self.completed() / (elapsed_secs as nat)
        } else {
            0
        }
        &&& (self.completed() == 0 ==> r.eta.is_none())
        &&& (self.completed() > 0 ==> (r.eta matches Some(e) && secs_of(e) as int == if est
            > u64::MAX {
            u64::MAX as int
        } else {
            est
        }))
    }

    /// Counts, rate and estimate after `elapsed_secs` seconds.
    pub fn progress_after(&self, elapsed_secs: u64) -> (r: ProgressInfo)
        requires
            self.wf(),
        ensures
            self.progress_spec(elapsed_secs, r),
    {
        let rate: u64 = if elapsed_secs > 0 {
            (self.completed as u64) / elapsed_secs
        } else {
            0
        };
        let eta = if self.completed > 0 {
            let remaining = self.total.saturating_sub(self.completed) as u128;
            proof {
                assert(remaining * (elapsed_secs as u128) <= (usize::MAX as u128) * (u64::MAX as u128))
                    by (nonlinear_arith)
                    requires
                        remaining <= usize::MAX as u128,
                ;
            }
            let secs = remaining * (elapsed_secs as u128) / (self.completed as u128);
            let secs64: u64 = if secs > u64::MAX as u128 {
                u64::MAX
            } else {
                secs as u64
            };
            Some(duration_from_secs(secs64))
        } else {
            None
        };
        ProgressInfo {
            total: self.total,
            completed: self.completed,
            errors: self.errors,
            success: self.completed - self.errors,
            elapsed: duration_from_secs(elapsed_secs),
            rate,
            eta,
        }
    }

    pub fn get_progress(&self) -> (r: ProgressInfo)
        requires
            self.wf(),
        ensures
            exists|elapsed_secs: u64| self.progress_spec(elapsed_secs, r),
    {
        let now = self.clock.now_ms();
        let elapsed_secs = now / 1000;
        self.progress_after(elapsed_secs)
    }
}

#[derive(Debug, Clone, PartialEq, Eq, Structural)]
pub struct WorkerStats {
    pub id: usize,
    pub is_running: bool,
    pub processed_count: usize,
    pub error_count: usize,
}

#[derive(Debug, Clone)]
pub struct BatchProcessorStats {
    pub worker_stats: Vec<WorkerStats>,
    pub total_processed: usize,
    pub total_errors: usize,
    pub active_workers: usize,
}

pub open spec fn sum_processed(s: Seq<WorkerStats>) -> nat
    decreases s.len(),
{
    if s.len() == 0 {
        0
    } else {
        sum_processed(s.drop_last()) + s.last().processed_count as nat
    }
}

pub open spec fn sum_errors(s: Seq<WorkerStats>) -> nat
    decreases s.len(),
{
    if s.len() == 0 {
        0
    } else {
        sum_errors(s.drop_last()) + s.last().error_count as nat
    }
}

pub open spec fn count_running(s: Seq<WorkerStats>) -> nat
    decreases s.len(),
{
    if s.len() == 0 {
        0
    } else {
        count_running(s.drop_last()) + if s.last().is_running { 1nat } else { 0nat }
    }
}

pub open spec fn sat(n: nat) -> nat {
    if n > usize::MAX { usize::MAX as nat } else { n }
}

/// Totals over the workers' statistics (sums saturate at `usize::MAX`).
pub fn batch_stats(worker_stats: Vec<WorkerStats>) -> (r: BatchProcessorStats)
    ensures
        r.worker_stats@ == worker_stats@,
        r.total_processed == sat(sum_processed(worker_stats@)),
        r.total_errors == sat(sum_errors(worker_stats@)),
        r.active_workers == count_running(worker_stats@),
{
    let mut processed: usize = 0;
    let mut errors: usize = 0;
    let mut active: usize = 0;
    let mut i: usize = 0;
    while i < worker_stats.len()
        invariant
            i <= worker_stats@.len(),
            processed == sat(sum_processed(worker_stats@.take(i as int))),
            errors == sat(sum_errors(worker_stats@.take(i as int))),
            active == count_running(worker_stats@.take(i as int)),
            active <= i,
        decreases worker_stats@.len() - i,
    {
        let w = &worker_stats[i];
        proof {
            assert(worker_stats@.take(i + 1).drop_last() =~= worker_stats@.take(i as int));
        }
        processed = processed.saturating_add(w.processed_count);
        errors = errors.saturating_add(w.error_count);
        if w.is_running {
            active = active + 1;
        }
        i = i + 1;
    }
    proof {
        assert(worker_stats@.take(i as int) =~= worker_stats@);
    }
    BatchProcessorStats {
        worker_stats,
        total_processed: processed,
        total_errors: errors,
        active_workers: active,
    }
}

#[derive(Debug, Clone, Copy, PartialEq, Eq, Structural)]
pub enum HealthLevel {
    Healthy,
    Warning,
    Critical,
}

#[derive(Debug, Clone)]
pub struct HealthStatus {
    pub overall: HealthLevel,
    pub performance: HealthLevel,
    pub resources: HealthLevel,
    pub errors: HealthLevel,
    pub timestamp: SystemTime,
}

/// Critical if any is critical, else warning if any warns, else healthy.
pub open spec fn worst(levels: Seq<HealthLevel>) -> HealthLevel {
    if levels.contains(HealthLevel::Critical) {
        HealthLevel::Critical
    } else if levels.contains(HealthLevel::Warning) {
        HealthLevel::Warning
    } else {
        HealthLevel::Healthy
    }
}

pub fn overall_health(levels: &Vec<HealthLevel>) -> (r: HealthLevel)
    ensures
        r == worst(levels@),
{
    let mut critical = false;
    let mut warning = false;
    let mut i: usize = 0;
    while i < levels.len()
        invariant
            i <= levels@.len(),
            critical == levels@.take(i as int).contains(HealthLevel::Critical),
            warning == levels@.take(i as int).contains(HealthLevel::Warning),
        decreases levels@.len() - i,
    {
        proof {
            let t1 = levels@.take(i + 1);
            let t0 = levels@.take(i as int);
            assert(t1 =~= t0.push(levels@[i as int]));
            assert forall|x: HealthLevel| t1.contains(x) <==> (t0.contains(x) || x == levels@[i as int]) by {
                if t1.contains(x) {
                    let k = choose|k: int| 0 <= k < t1.len() && t1[k] == x;
                    if k < t0.len() {
                        assert(t0[k] == x);
                    }
                }
                if t0.contains(x) {
                    let k = choose|k: int| 0 <= k < t0.len() && t0[k] == x;
                    assert(t1[k] == x);
                }
                if x == levels@[i as int] {
                    assert(t1[i as int] == x);
                }
            }
        }
        if levels[i] == HealthLevel::Critical {
            critical = true;
        } else if levels[i] == HealthLevel::Warning {
            warning = true;
        }
        i = i + 1;
    }
    proof {
        assert(levels@.take(i as int) =~= levels@);
    }
    if critical {
        HealthLevel::Critical
    } else if warning {
        HealthLevel::Warning
    } else {
        HealthLevel::Healthy
    }
}

/// Health of the browser pool: critical with fewer healthy instances than
/// `min_available` or more than half failed; warning with more than a
/// fifth failed or more than nine tenths busy.
pub open spec fn pool_level(stats: BrowserPoolStats, min_available: nat) -> HealthLevel {
    let total = stats.total_instances as nat;
    if (stats.healthy_instances as nat) < min_available {
        HealthLevel::Critical
    } else if total > 0 && stats.failed_instances * 2 > total {
        HealthLevel::Critical
    } else if total > 0 && stats.failed_instances * 5 > total {
        HealthLevel::Warning
    } else if total > 0 && stats.busy_instances * 10 > total * 9 {
        HealthLevel::Warning
    } else {
        HealthLevel::Healthy
    }
}

pub fn pool_health(stats: &BrowserPoolStats, min_available: usize) -> (r: HealthLevel)
    ensures
        r == pool_level(*stats, min_available as nat),
{
    let total = stats.total_instances as u128;
    let failed = stats.failed_instances as u128;
    let busy = stats.busy_instances as u128;
    if stats.healthy_instances < min_available {
        HealthLevel::Critical
    } else if total > 0 && failed * 2 > total {
        HealthLevel::Critical
    } else if total > 0 && failed * 5 > total {
        HealthLevel::Warning
    } else if total > 0 && busy * 10 > total * 9 {
        HealthLevel::Warning
    } else {
        HealthLevel::Healthy
    }
}

/// Health of the pending queue: critical above 1000, warning above 100.
pub fn queue_health(queue_size: usize) -> (r: HealthLevel)
    ensures
        r == if queue_size > 1000 {
            HealthLevel::Critical
        } else if queue_size > 100 {
            HealthLevel::Warning
        } else {
            HealthLevel::Healthy
        },
{
    if queue_size > 1000 {
        HealthLevel::Critical
    } else if queue_size > 100 {
        HealthLevel::Warning
    } else {
        HealthLevel::Healthy
    }
}

/// Health of memory use: critical above the maximum, warning above 80% of
/// it (integer eighths of tenths, as the maximum times 8 divided by 10).
pub fn memory_health(usage: usize, max_usage: usize) -> (r: HealthLevel)
    ensures
        r == if usage > max_usage {
            HealthLevel::Critical
        } else if usage as nat > (max_usage as nat) * 8 / 10 {
            HealthLevel::Warning
        } else {
            HealthLevel::Healthy
        },
{
    let limit = (max_usage as u128) * 8 / 10;
    if usage > max_usage {
        HealthLevel::Critical
    } else if usage as u128 > limit {
        HealthLevel::Warning
    } else {
        HealthLevel::Healthy
    }
}

#[derive(Debug, Clone, Copy, PartialEq, Eq, Structural)]
pub enum AlertType {
    Critical,
    ResourceExhaustion,
    PerformanceDegradation,
    BrowserPoolFailure,
    NetworkIssue,
}

impl AlertType {
    /// The alert's label as shown in logs.
    pub fn label(&self) -> (r: &'static str)
        ensures
            r@ == match self {
                AlertType::Critical => "CRITICAL"@,
                AlertType::ResourceExhaustion => "RESOURCE_EXHAUSTION"@,
                AlertType::PerformanceDegradation => "PERFORMANCE_DEGRADATION"@,
                AlertType::BrowserPoolFailure => "BROWSER_POOL_FAILURE"@,
                AlertType::NetworkIssue => "NETWORK_ISSUE"@,
            },
    {
        match self {
            AlertType::Critical => "CRITICAL",
            AlertType::ResourceExhaustion => "RESOURCE_EXHAUSTION",
            AlertType::PerformanceDegradation => "PERFORMANCE_DEGRADATION",
            AlertType::BrowserPoolFailure => "BROWSER_POOL_FAILURE",
            AlertType::NetworkIssue => "NETWORK_ISSUE",
        }
    }
}

#[derive(Debug, Clone)]
pub struct HealthAlert {
    pub id: String,
    pub alert_type: AlertType,
    pub message: String,
    pub timestamp: SystemTime,
    pub acknowledged: bool,
}

/// Whether one time is later than another, as `SystemTime`'s `>` says.
pub uninterp spec fn is_later(a: SystemTime, b: SystemTime) -> bool;

/// Relies on `SystemTime`'s `>`: whether `a` is later than `b`.
#[verifier::external_body]
fn later_than(a: &SystemTime, b: &SystemTime) -> (r: bool)
    ensures
        r == is_later(*a, *b),
{
    a > b
}

/// The alerts raised so far, oldest first.
pub struct AlertLog {
    alerts: Vec<HealthAlert>,
}

pub open spec fn is_active(a: HealthAlert) -> bool {
    !a.acknowledged
}

impl AlertLog {
    pub closed spec fn alerts(&self) -> Seq<HealthAlert> {
        self.alerts@
    }

    pub fn new() -> (r: Self)
        ensures
            r.alerts().len() == 0,
    {
        AlertLog { alerts: Vec::new() }
    }

    pub fn push(&mut self, alert: HealthAlert)
        ensures
            final(self).alerts() == old(self).alerts().push(alert),
    {
        self.alerts.push(alert);
    }

    /// Keeps only the alerts raised after `cutoff`, in order.
    pub fn retain_after(&mut self, cutoff: &SystemTime)
        ensures
            final(self).alerts() == old(self).alerts().filter(
                |a: HealthAlert| is_later(a.timestamp, *cutoff),
            ),
    {
        let ghost p = |a: HealthAlert| is_later(a.timestamp, *cutoff);
        let mut old_alerts = Vec::new();
        std::mem::swap(&mut old_alerts, &mut self.alerts);
        let ghost all = old_alerts@;
        let n = old_alerts.len();
        let mut kept: Vec<HealthAlert> = Vec::new();
        let mut i: usize = 0;
        while i < n
            invariant
                n == all.len(),
                i <= n,
                p == (|a: HealthAlert| is_later(a.timestamp, *cutoff)),
                old_alerts@ == all.skip(i as int),
                kept@ == all.take(i as int).filter(p),
            decreases n - i,
        {
            let alert = old_alerts.remove(0);
            proof {
                assert(alert == all[i as int]);
                assert(old_alerts@ =~= all.skip(i + 1));
                assert(all.take(i + 1).drop_last() =~= all.take(i as int));
                reveal(Seq::filter);
            }
            if later_than(&alert.timestamp, cutoff) {
                kept.push(alert);
            }
            i = i + 1;
        }
        proof {
            assert(all.take(n as int) =~= all);
        }
        self.alerts = kept;
    }

    /// The alerts not yet acknowledged, in order.
    pub fn get_active_alerts(&self) -> (r: Vec<&HealthAlert>)
        ensures
            r@.map_values(|a: &HealthAlert| *a) == self.alerts().filter(|a: HealthAlert| is_active(a)),
    {
        let ghost p = |a: HealthAlert| is_active(a);
        let mut r: Vec<&HealthAlert> = Vec::new();
        let mut i: usize = 0;
        while i < self.alerts.len()
            invariant
                i <= self.alerts@.len(),
                p == (|a: HealthAlert| is_active(a)),
                r@.map_values(|a: &HealthAlert| *a) == self.alerts@.take(i as int).filter(p),
            decreases self.alerts@.len() - i,
        {
            proof {
                assert(self.alerts@.take(i + 1).drop_last() =~= self.alerts@.take(i as int));
                reveal(Seq::filter);
            }
            let ghost before = r@.map_values(|a: &HealthAlert| *a);
            if !self.alerts[i].acknowledged {
                r.push(&self.alerts[i]);
                proof {
                    assert(r@.map_values(|a: &HealthAlert| *a) =~= before.push(self.alerts@[i as int]));
                }
            }
            i = i + 1;
        }
        proof {
            assert(self.alerts@.take(i as int) =~= self.alerts@);
        }
        r
    }

    /// Marks the first alert with this id as acknowledged; returns whether
    /// one was found.
    pub fn acknowledge_alert(&mut self, alert_id: &str) -> (found: bool)
        ensures
            found == exists|k: int|
                0 <= k < old(self).alerts().len() && (#[trigger] old(self).alerts()[k]).id@
                    == alert_id@,
            final(self).alerts().len() == old(self).alerts().len(),
            forall|k: int|
                0 <= k < old(self).alerts().len() ==> {
                    let a = old(self).alerts()[k];
                    let b = #[trigger] final(self).alerts()[k];
                    let first = a.id@ == alert_id@ && forall|j: int|
                        0 <= j < k ==> (#[trigger] old(self).alerts()[j]).id@ != alert_id@;
                    b == if first {
                        HealthAlert { acknowledged: true, ..a }
                    } else {
                        a
                    }
                },
    {
        let mut i: usize = 0;
        while i < self.alerts.len()
            invariant
                i <= self.alerts@.len(),
                self.alerts@ == old(self).alerts@,
                forall|j: int| 0 <= j < i ==> (#[trigger] self.alerts@[j]).id@ != alert_id@,
            decreases self.alerts@.len() - i,
        {
            if crate::urls::same_text(self.alerts[i].id.as_str(), alert_id) {
                let mut alerts = Vec::new();
                std::mem::swap(&mut alerts, &mut self.alerts);
                let mut alert = alerts.remove(i);
                alert.acknowledged = true;
                alerts.insert(i, alert);
                proof {
                    assert forall|k: int| 0 <= k < old(self).alerts@.len() implies #[trigger] alerts@[k]
                        == (if k == i {
                        HealthAlert { acknowledged: true, ..old(self).alerts@[k] }
                    } else {
                        old(self).alerts@[k]
                    }) by {}
                }
                self.alerts = alerts;
                return true;
            }
            i = i + 1;
        }
        false
    }
}

/// The alerts a health status raises: critical overall, critical
/// resources, critical performance, in that order.
pub fn alerts_for(overall: HealthLevel, resources: HealthLevel, performance: HealthLevel) -> (r: Vec<
    AlertType,
>)
    ensures
        r@ == (if overall == HealthLevel::Critical {
            seq![AlertType::Critical]
        } else {
            Seq::empty()
        }) + (if resources == HealthLevel::Critical {
            seq![AlertType::ResourceExhaustion]
        } else {
            Seq::empty()
        }) + (if performance == HealthLevel::Critical {
            seq![AlertType::PerformanceDegradation]
        } else {
            Seq::empty()
        }),
{
    let mut r: Vec<AlertType> = Vec::new();
    if overall == HealthLevel::Critical {
        r.push(AlertType::Critical);
    }
    if resources == HealthLevel::Critical {
        r.push(AlertType::ResourceExhaustion);
    }
    if performance == HealthLevel::Critical {
        r.push(AlertType::PerformanceDegradation);
    }
    proof {
        let e = Seq::<AlertType>::empty();
        assert(r@ =~= (if overall == HealthLevel::Critical {
            seq![AlertType::Critical]
        } else {
            e
        }) + (if resources == HealthLevel::Critical {
            seq![AlertType::ResourceExhaustion]
        } else {
            e
        }) + (if performance == HealthLevel::Critical {
            seq![AlertType::PerformanceDegradation]
        } else {
            e
        }));
    }
    r
}

} // verus!
