//! The dispatcher's decisions: the order in which a batch is admitted, the
//! retry loop around each capture with its backoff and circuit breaker, and
//! the collection of exactly one result per request.

use vstd::prelude::*;

use crate::clock::{duration_from_millis, duration_millis, millis_of, system_now, MonotonicClock};
use crate::config::{
    Config, OutputFormat, Priority, RetryConfig, ScreenshotMetadata, ScreenshotRequest,
    ScreenshotResult, Viewport,
};
use crate::error::{after_check, after_failure, after_success, permits, BreakerModel, CircuitBreaker, ScreenshotError};

verus! {

/// Rank of a priority: Low 0, Normal 1, High 2, Critical 3.
pub open spec fn rank(p: Priority) -> nat {
    match p {
        Priority::Low => 0,
        Priority::Normal => 1,
        Priority::High => 2,
        Priority::Critical => 3,
    }
}

pub fn priority_to_value(p: &Priority) -> (r: u8)
    ensures
        r == rank(*p),
{
    match p {
        Priority::Low => 0,
        Priority::Normal => 1,
        Priority::High => 2,
        Priority::Critical => 3,
    }
}

pub open spec fn has_priority(p: Priority) -> spec_fn(ScreenshotRequest) -> bool {
    |r: ScreenshotRequest| r.priority == p
}

/// A batch in admission order: highest priority first, and within one
/// priority in submission order.
pub open spec fn priority_ordered(s: Seq<ScreenshotRequest>) -> Seq<ScreenshotRequest> {
    s.filter(has_priority(Priority::Critical)) + s.filter(has_priority(Priority::High)) + s.filter(
        has_priority(Priority::Normal),
    ) + s.filter(has_priority(Priority::Low))
}

proof fn lemma_filter_step(s: Seq<ScreenshotRequest>, i: int, p: Priority)
    requires
        0 <= i < s.len(),
    ensures
        s.take(i + 1).filter(has_priority(p)) == if s[i].priority == p {
            s.take(i).filter(has_priority(p)).push(s[i])
        } else {
            s.take(i).filter(has_priority(p))
        },
{
    reveal(Seq::filter);
    assert(s.take(i + 1).drop_last() =~= s.take(i));
}

/// Stable ordering of a batch by priority, highest first.
pub fn sort_by_priority(requests: Vec<ScreenshotRequest>) -> (r: Vec<ScreenshotRequest>)
    ensures
        r@ == priority_ordered(requests@),
{
    let ghost s = requests@;
    let mut rest = requests;
    let mut critical: Vec<ScreenshotRequest> = Vec::new();
    let mut high: Vec<ScreenshotRequest> = Vec::new();
    let mut normal: Vec<ScreenshotRequest> = Vec::new();
    let mut low: Vec<ScreenshotRequest> = Vec::new();
    let n = rest.len();
    let mut i: usize = 0;
    while i < n
        invariant
            n == s.len(),
            i <= n,
            rest@ == s.skip(i as int),
            critical@ == s.take(i as int).filter(has_priority(Priority::Critical)),
            high@ == s.take(i as int).filter(has_priority(Priority::High)),
            normal@ == s.take(i as int).filter(has_priority(Priority::Normal)),
            low@ == s.take(i as int).filter(has_priority(Priority::Low)),
        decreases n - i,
    {
        let item = rest.remove(0);
        proof {
            assert(item == s[i as int]);
            assert(rest@ =~= s.skip(i + 1));
            lemma_filter_step(s, i as int, Priority::Critical);
            lemma_filter_step(s, i as int, Priority::High);
            lemma_filter_step(s, i as int, Priority::Normal);
            lemma_filter_step(s, i as int, Priority::Low);
        }
        match item.priority {
            Priority::Critical => critical.push(item),
            Priority::High => high.push(item),
            Priority::Normal => normal.push(item),
            Priority::Low => low.push(item),
        }
        i = i + 1;
    }
    proof {
        assert(s.take(n as int) =~= s);
    }
    critical.append(&mut high);
    critical.append(&mut normal);
    critical.append(&mut low);
    critical
}

proof fn lemma_filter_add(a: Seq<ScreenshotRequest>, b: Seq<ScreenshotRequest>, p: spec_fn(
    ScreenshotRequest,
) -> bool)
    ensures
        (a + b).filter(p) == a.filter(p) + b.filter(p),
    decreases b.len(),
{
    reveal(Seq::filter);
    if b.len() == 0 {
        assert(a + b =~= a);
        assert(a.filter(p) + b.filter(p) =~= a.filter(p));
    } else {
        lemma_filter_add(a, b.drop_last(), p);
        assert((a + b).drop_last() =~= a + b.drop_last());
        if p(b.last()) {
            assert(a.filter(p) + b.filter(p) =~= (a.filter(p) + b.drop_last().filter(p)).push(
                b.last(),
            ));
        }
    }
}

proof fn lemma_filter_same(s: Seq<ScreenshotRequest>, q: Priority, p: Priority)
    ensures
        s.filter(has_priority(q)).filter(has_priority(p)) == if q == p {
            s.filter(has_priority(q))
        } else {
            Seq::<ScreenshotRequest>::empty()
        },
    decreases s.len(),
{
    reveal(Seq::filter);
    if s.len() == 0 {
        assert(s.filter(has_priority(q)) =~= Seq::<ScreenshotRequest>::empty());
        assert(s.filter(has_priority(q)).filter(has_priority(p)) =~= Seq::<
            ScreenshotRequest,
        >::empty());
    } else {
        let s0 = s.drop_last();
        let x = s.last();
        lemma_filter_same(s0, q, p);
        let f0 = s0.filter(has_priority(q));
        if x.priority == q {
            assert(s.filter(has_priority(q)) == f0.push(x));
            assert(f0.push(x).drop_last() =~= f0);
            assert(f0.push(x).last() == x);
        } else {
            assert(s.filter(has_priority(q)) == f0);
        }
    }
}

/// Priority ordering is stable: the requests of any one priority come out
/// in the order they went in, and the ranks never rise along the output.
pub proof fn lemma_priority_order_stable(s: Seq<ScreenshotRequest>, p: Priority)
    ensures
        priority_ordered(s).filter(has_priority(p)) == s.filter(has_priority(p)),
        priority_ordered(s).len() == s.len(),
        forall|i: int, j: int|
            0 <= i < j < priority_ordered(s).len() ==> rank(priority_ordered(s)[i].priority) >= rank(
                priority_ordered(s)[j].priority,
            ),
{
    let c = s.filter(has_priority(Priority::Critical));
    let h = s.filter(has_priority(Priority::High));
    let n = s.filter(has_priority(Priority::Normal));
    let l = s.filter(has_priority(Priority::Low));
    lemma_filter_add(c + h + n, l, has_priority(p));
    lemma_filter_add(c + h, n, has_priority(p));
    lemma_filter_add(c, h, has_priority(p));
    lemma_filter_same(s, Priority::Critical, p);
    lemma_filter_same(s, Priority::High, p);
    lemma_filter_same(s, Priority::Normal, p);
    lemma_filter_same(s, Priority::Low, p);
    let e = Seq::<ScreenshotRequest>::empty();
    if p == Priority::Critical {
        assert(c + e + e + e =~= c);
    } else if p == Priority::High {
        assert(e + h + e + e =~= h);
    } else if p == Priority::Normal {
        assert(e + e + n + e =~= n);
    } else {
        assert(e + e + e + l =~= l);
    }
    lemma_partition_len(s);
    let o = priority_ordered(s);
    assert forall|i: int, j: int| 0 <= i < j < o.len() implies rank(o[i].priority) >= rank(
        o[j].priority,
    ) by {
        lemma_ordered_rank(s, i);
        lemma_ordered_rank(s, j);
    }
}

proof fn lemma_partition_len(s: Seq<ScreenshotRequest>)
    ensures
        s.filter(has_priority(Priority::Critical)).len() + s.filter(has_priority(Priority::High)).len()
            + s.filter(has_priority(Priority::Normal)).len() + s.filter(
            has_priority(Priority::Low),
        ).len() == s.len(),
    decreases s.len(),
{
    reveal(Seq::filter);
    if s.len() > 0 {
        lemma_partition_len(s.drop_last());
    }
}

/// The rank of the element at position `i` of the ordering is fixed by the
/// block it falls in.
proof fn lemma_ordered_rank(s: Seq<ScreenshotRequest>, i: int)
    requires
        0 <= i < priority_ordered(s).len(),
    ensures
        ({
            let c = s.filter(has_priority(Priority::Critical)).len() as int;
            let h = s.filter(has_priority(Priority::High)).len() as int;
            let n = s.filter(has_priority(Priority::Normal)).len() as int;
            let r = rank(priority_ordered(s)[i].priority);
            (i < c ==> r == 3) && (c <= i < c + h ==> r == 2) && (c + h <= i < c + h + n ==> r
                == 1) && (c + h + n <= i ==> r == 0)
        }),
{
    let c = s.filter(has_priority(Priority::Critical));
    let h = s.filter(has_priority(Priority::High));
    let n = s.filter(has_priority(Priority::Normal));
    let l = s.filter(has_priority(Priority::Low));
    let o = priority_ordered(s);
    if i < c.len() {
        assert(o[i] == c[i]);
        s.lemma_filter_pred(has_priority(Priority::Critical), i);
    } else if i < c.len() + h.len() {
        assert(o[i] == h[i - c.len()]);
        s.lemma_filter_pred(has_priority(Priority::High), i - c.len());
    } else if i < c.len() + h.len() + n.len() {
        assert(o[i] == n[i - c.len() - h.len()]);
        s.lemma_filter_pred(has_priority(Priority::Normal), i - c.len() - h.len());
    } else {
        assert(o[i] == l[i - c.len() - h.len() - n.len()]);
        s.lemma_filter_pred(has_priority(Priority::Low), i - c.len() - h.len() - n.len());
    }
}

pub open spec fn pow(b: nat, e: nat) -> nat
    decreases e,
{
    if e == 0 {
        1
    } else {
        b * pow(b, (e - 1) as nat)
    }
}

pub open spec fn min_nat(a: nat, b: nat) -> nat {
    if a <= b { a } else { b }
}

/// Delay before the attempt after `attempt`: `initial × multiplier^attempt`,
/// capped at `max`.
pub open spec fn backoff(initial: nat, max: nat, multiplier: nat, attempt: nat) -> nat {
    min_nat(initial * pow(multiplier, attempt), max)
}

proof fn lemma_backoff_step(x: nat, m: nat, cap: nat)
    ensures
        min_nat(min_nat(x, cap) * m, cap) == min_nat(x * m, cap),
{
    if x > cap && m >= 1 {
        assert(cap * m >= cap) by (nonlinear_arith)
            requires
                m >= 1,
        ;
        assert(x * m >= x) by (nonlinear_arith)
            requires
                m >= 1,
        ;
    }
}

/// The backoff delay in milliseconds.
pub fn backoff_millis(initial_ms: u64, max_ms: u64, multiplier: u32, attempt: usize) -> (r: u64)
    ensures
        r == backoff(initial_ms as nat, max_ms as nat, multiplier as nat, attempt as nat),
{
    let mut delay: u64 = if initial_ms <= max_ms {
        initial_ms
    } else {
        max_ms
    };
    let m = multiplier as u64;
    let mut k: usize = 0;
    proof {
        assert(pow(multiplier as nat, 0) == 1);
        assert(initial_ms as nat * 1 == initial_ms as nat);
    }
    while k < attempt
        invariant
            k <= attempt,
            m == multiplier as u64,
            delay == backoff(initial_ms as nat, max_ms as nat, multiplier as nat, k as nat),
        decreases attempt - k,
    {
        proof {
            let x = initial_ms as nat * pow(multiplier as nat, k as nat);
            lemma_backoff_step(x, m as nat, max_ms as nat);
            assert(initial_ms as nat * pow(multiplier as nat, (k + 1) as nat) == x * m as nat)
                by (nonlinear_arith)
                requires
                    x == initial_ms as nat * pow(multiplier as nat, k as nat),
                    pow(multiplier as nat, (k + 1) as nat) == m as nat * pow(
                        multiplier as nat,
                        k as nat,
                    ),
            ;
        }
        let ghost d0 = delay as nat;
        if m == 0 {
            proof {
                assert(d0 * 0 == 0);
            }
            delay = 0;
        } else if delay > max_ms / m {
            proof {
                assert(delay as nat * m as nat > max_ms as nat) by (nonlinear_arith)
                    requires
                        delay > max_ms / m,
                        m > 0,
                ;
            }
            delay = max_ms;
        } else {
            proof {
                assert(delay as nat * m as nat <= max_ms as nat) by (nonlinear_arith)
                    requires
                        delay <= max_ms / m,
                        m > 0,
                ;
            }
            delay = delay * m;
        }
        proof {
            assert(delay == min_nat(d0 * m as nat, max_ms as nat));
        }
        k = k + 1;
    }
    delay
}

/// Circuit-breaker threshold of the dispatcher.
pub const BREAKER_THRESHOLD: usize = 5;

/// Circuit-breaker cooldown of the dispatcher (thirty seconds).
pub const BREAKER_COOLDOWN_MS: u64 = 30000;

fn saturating_millis(d: &std::time::Duration) -> (r: u64)
    ensures
        r == if millis_of(*d) > u64::MAX as u128 {
            u64::MAX
        } else {
            millis_of(*d) as u64
        },
{
    let ms = duration_millis(d);
    if ms > u64::MAX as u128 {
        u64::MAX
    } else {
        ms as u64
    }
}

/// Abstract state of the dispatcher.
pub struct DispatcherModel {
    pub breaker: BreakerModel,
    pub max_attempts: nat,
    pub initial_delay_ms: nat,
    pub max_delay_ms: nat,
    pub multiplier: nat,
    pub output_format: OutputFormat,
    pub viewport: Viewport,
}

/// Per-request retry policy and the shared circuit breaker.
pub struct Dispatcher {
    breaker: CircuitBreaker,
    max_attempts: usize,
    initial_delay_ms: u64,
    max_delay_ms: u64,
    multiplier: u32,
    output_format: OutputFormat,
    viewport: Viewport,
    clock: MonotonicClock,
}

impl View for Dispatcher {
    type V = DispatcherModel;

    closed spec fn view(&self) -> DispatcherModel {
        DispatcherModel {
            breaker: self.breaker@,
            max_attempts: self.max_attempts as nat,
            initial_delay_ms: self.initial_delay_ms as nat,
            max_delay_ms: self.max_delay_ms as nat,
            multiplier: self.multiplier as nat,
            output_format: self.output_format,
            viewport: self.viewport,
        }
    }
}

/// One request's run through the retry loop.
pub struct RetryRun {
    request: ScreenshotRequest,
    attempt: usize,
    last_error: Option<ScreenshotError>,
    finished: bool,
}

/// What the caller does next for a run.
pub enum Step {
    /// Capture `request()` now; its `retry_count` holds the attempt index.
    Capture,
    /// The run is over: emit this result.
    Finish(ScreenshotResult),
}

impl RetryRun {
    pub fn new(request: ScreenshotRequest) -> (r: Self)
        ensures
            r.request() == request,
            r.attempt() == 0,
            !r.finished(),
            r.last_error().is_none(),
    {
        RetryRun { request, attempt: 0, last_error: None, finished: false }
    }

    pub closed spec fn request(&self) -> ScreenshotRequest {
        self.request
    }

    pub closed spec fn attempt(&self) -> nat {
        self.attempt as nat
    }

    pub closed spec fn finished(&self) -> bool {
        self.finished
    }

    pub closed spec fn last_error(&self) -> Option<ScreenshotError> {
        self.last_error
    }

    /// The request as it stands, for the capture of the current attempt.
    pub fn current_request(&self) -> (r: &ScreenshotRequest)
        ensures
            *r == self.request(),
    {
        &self.request
    }

    pub fn is_finished(&self) -> (r: bool)
        ensures
            r == self.finished(),
    {
        self.finished
    }
}

impl Dispatcher {
    /// A dispatcher for `config`: up to `retry_attempts` attempts per
    /// request, a breaker that opens after five consecutive failures for
    /// thirty seconds, and the default backoff.
    pub fn new(config: &Config) -> (r: Self)
        requires
            config.retry_attempts >= 1,
        ensures
            r@.max_attempts == config.retry_attempts,
            r@.output_format == config.output_format,
            r@.viewport == config.viewport,
            r@.breaker.failure_threshold == BREAKER_THRESHOLD,
            r@.breaker.recovery_timeout_ms == BREAKER_COOLDOWN_MS,
            r@.breaker.failure_count == 0,
            r@.breaker.state == crate::error::CircuitState::Closed,
            r@.initial_delay_ms == 100,
            r@.max_delay_ms == 10000,
            r@.multiplier == 2,
    {
        let retry = RetryConfig::default();
        Dispatcher {
            breaker: CircuitBreaker::with_timeout_ms(BREAKER_THRESHOLD, BREAKER_COOLDOWN_MS),
            max_attempts: config.retry_attempts,
            initial_delay_ms: saturating_millis(&retry.initial_delay),
            max_delay_ms: saturating_millis(&retry.max_delay),
            multiplier: retry.multiplier,
            output_format: config.output_format,
            viewport: config.viewport,
            clock: MonotonicClock::start(),
        }
    }

    pub fn breaker(&self) -> (r: &CircuitBreaker)
        ensures
            r@ == self@.breaker,
    {
        &self.breaker
    }

    /// The result of a request that never produced an image.
    pub open spec fn is_failure_result(
        &self,
        r: ScreenshotResult,
        request: ScreenshotRequest,
        error: Option<ScreenshotError>,
    ) -> bool {
        &&& r.request_id == request.id
        &&& r.url == request.url
        &&& r.data@.len() == 0
        &&& r.format == self@.output_format
        &&& !r.success
        &&& r.error == error
        &&& r.metadata.viewport == self@.viewport
        &&& r.metadata.page_title.is_none()
        &&& r.metadata.final_url.is_none()
        &&& r.metadata.response_status.is_none()
        &&& r.metadata.file_size == 0
        &&& r.metadata.browser_instance_id == 0
        &&& millis_of(r.duration) == 0
    }

    /// Packages a terminal failure: no data, the configured format and
    /// viewport, instance id 0.
    pub fn failure_result(&self, request: &ScreenshotRequest, error: Option<ScreenshotError>) -> (r:
        ScreenshotResult)
        ensures
            self.is_failure_result(r, *request, error),
    {
        ScreenshotResult {
            request_id: request.id.clone(),
            url: request.url.clone(),
            data: Vec::new(),
            format: self.output_format,
            timestamp: system_now(),
            duration: duration_from_millis(0),
            success: false,
            error,
            metadata: ScreenshotMetadata {
                viewport: self.viewport,
                page_title: None,
                final_url: None,
                response_status: None,
                file_size: 0,
                browser_instance_id: 0,
            },
        }
    }

    /// The next step of a run, at the current time.
    pub fn next_step(&mut self, run: &mut RetryRun) -> (r: Step)
        requires
            !old(run).finished(),
        ensures
            exists|now: nat| Self::step_spec(*old(self), *final(self), *old(run), *final(run), r, now),
    {
        let now = self.clock.now_ms();
        self.next_step_at(run, now)
    }

    /// What `next_step_at` does at time `now`.
    pub open spec fn step_spec(
        d0: Self,
        d1: Self,
        run0: RetryRun,
        run1: RetryRun,
        r: Step,
        now: nat,
    ) -> bool {
        if run0.attempt() >= d0@.max_attempts {
            &&& d1@ == d0@
            &&& run1.finished()
            &&& r matches Step::Finish(res)
            &&& d0.is_failure_result(res, run0.request(), run0.last_error())
        } else if !permits(d0@.breaker, now) {
            &&& d1@ == DispatcherModel { breaker: after_check(d0@.breaker, now), ..d0@ }
            &&& run1.finished()
            &&& r matches Step::Finish(res)
            &&& d0.is_failure_result(
                res,
                run0.request(),
                Some(ScreenshotError::BrowserUnavailable),
            )
        } else {
            &&& d1@ == DispatcherModel { breaker: after_check(d0@.breaker, now), ..d0@ }
            &&& !run1.finished()
            &&& r is Capture
            &&& run1.request() == ScreenshotRequest { retry_count: run0.attempt() as usize, ..run0.request() }
            &&& run1.attempt() == run0.attempt()
            &&& run1.last_error() == run0.last_error()
        }
    }

    /// Decides the next step of a run at time `now_ms`. With the attempts
    /// spent, the run finishes with the last error; when the breaker denies
    /// execution it finishes with `BrowserUnavailable` and no capture is
    /// made; otherwise the request is stamped with the attempt index and
    /// captured.
    pub fn next_step_at(&mut self, run: &mut RetryRun, now_ms: u64) -> (r: Step)
        requires
            !old(run).finished(),
        ensures
            Self::step_spec(*old(self), *final(self), *old(run), *final(run), r, now_ms as nat),
    {
        if run.attempt >= self.max_attempts {
            let err = run.last_error.take();
            run.finished = true;
            return Step::Finish(self.failure_result(&run.request, err));
        }
        if !self.breaker.can_execute_at(now_ms) {
            run.finished = true;
            return Step::Finish(
                self.failure_result(&run.request, Some(ScreenshotError::BrowserUnavailable)),
            );
        }
        run.request.retry_count = run.attempt;
        Step::Capture
    }

    /// A capture succeeded: the breaker closes and the run ends with the
    /// result, marked successful.
    pub fn report_success(&mut self, run: &mut RetryRun, result: ScreenshotResult) -> (r:
        ScreenshotResult)
        requires
            !old(run).finished(),
        ensures
            final(self)@ == (DispatcherModel { breaker: after_success(old(self)@.breaker), ..old(self)@ }),
            final(self)@.breaker.failure_count == 0,
            final(run).finished(),
            r == (ScreenshotResult { success: true, ..result }),
    {
        self.breaker.record_success();
        run.finished = true;
        let mut result = result;
        result.success = true;
        result
    }

    /// A capture failed at the current time.
    pub fn report_failure(&mut self, run: &mut RetryRun, error: ScreenshotError) -> (r: Option<u64>)
        requires
            !old(run).finished(),
        ensures
            exists|now: nat| Self::failure_spec(*old(self), *final(self), *old(run), *final(run), error, r, now),
    {
        let now = self.clock.now_ms();
        self.report_failure_at(run, error, now)
    }

    /// What `report_failure_at` does at time `now`.
    pub open spec fn failure_spec(
        d0: Self,
        d1: Self,
        run0: RetryRun,
        run1: RetryRun,
        error: ScreenshotError,
        r: Option<u64>,
        now: nat,
    ) -> bool {
        let retry = error.retryable() && run0.attempt() + 1 < d0@.max_attempts;
        &&& d1@ == DispatcherModel { breaker: after_failure(d0@.breaker, now), ..d0@ }
        &&& run1.request() == run0.request()
        &&& run1.last_error() == Some(error)
        &&& !run1.finished()
        &&& retry ==> run1.attempt() == run0.attempt() + 1 && r == Some(
            backoff(d0@.initial_delay_ms, d0@.max_delay_ms, d0@.multiplier, run0.attempt()) as u64,
        )
        &&& !retry ==> run1.attempt() == d0@.max_attempts && r.is_none()
    }

    /// Records a failed attempt at `now_ms`. A retryable error with attempts
    /// left asks for a pause of the backoff delay before the next attempt;
    /// otherwise the attempts are spent at once, so the next step finishes
    /// the run with this error and no retry is made.
    pub fn report_failure_at(&mut self, run: &mut RetryRun, error: ScreenshotError, now_ms: u64) -> (r:
        Option<u64>)
        requires
            !old(run).finished(),
        ensures
            Self::failure_spec(*old(self), *final(self), *old(run), *final(run), error, r, now_ms as nat),
    {
        self.breaker.record_failure_at(now_ms);
        let retry = error.is_retryable() && run.attempt < self.max_attempts && run.attempt + 1
            < self.max_attempts;
        run.last_error = Some(error);
        if retry {
            let delay = backoff_millis(
                self.initial_delay_ms,
                self.max_delay_ms,
                self.multiplier,
                run.attempt,
            );
            let a = run.attempt;
            run.attempt = a + 1;
            Some(delay)
        } else {
            run.attempt = self.max_attempts;
            None
        }
    }
}

/// A request that meets an open breaker is answered at once: the run
/// finishes with `BrowserUnavailable`, no capture is made and the breaker's
/// failure count is left as it was.
pub proof fn lemma_denied_without_capture(
    d0: Dispatcher,
    d1: Dispatcher,
    run0: RetryRun,
    run1: RetryRun,
    step: Step,
    now: nat,
)
    requires
        d0@.max_attempts >= 1,
        run0.attempt() == 0,
        !permits(d0@.breaker, now),
        Dispatcher::step_spec(d0, d1, run0, run1, step, now),
    ensures
        run1.finished(),
        step matches Step::Finish(res) && res.error == Some(ScreenshotError::BrowserUnavailable)
            && !res.success,
        d1@.breaker.failure_count == d0@.breaker.failure_count,
{
}

/// No retry follows a non-retryable error: once such a failure is
/// reported, no pause is asked for and the run's next step finishes it with
/// that error, without another capture.
pub proof fn lemma_no_retry_after_terminal_error(
    d0: Dispatcher,
    d1: Dispatcher,
    run0: RetryRun,
    run1: RetryRun,
    error: ScreenshotError,
    delay: Option<u64>,
    now: nat,
    d2: Dispatcher,
    run2: RetryRun,
    step: Step,
    later: nat,
)
    requires
        Dispatcher::failure_spec(d0, d1, run0, run1, error, delay, now),
        !error.retryable(),
        Dispatcher::step_spec(d1, d2, run1, run2, step, later),
    ensures
        delay.is_none(),
        run2.finished(),
        step matches Step::Finish(res) && res.error == Some(error) && !res.success,
{
}

/// Collects the results of a batch: one slot per request, each filled at
/// most once and only with a result for that request.
pub struct BatchCollector {
    ids: Vec<String>,
    slots: Vec<Option<ScreenshotResult>>,
}

impl BatchCollector {
    pub closed spec fn ids(&self) -> Seq<Seq<char>> {
        self.ids@.map_values(|s: String| s@)
    }

    pub closed spec fn slots(&self) -> Seq<Option<ScreenshotResult>> {
        self.slots@
    }

    pub open spec fn wf(&self) -> bool {
        &&& self.ids().len() == self.slots().len()
        &&& forall|i: int|
            0 <= i < self.slots().len() && (#[trigger] self.slots()[i]).is_some() ==> self.slots()[i].unwrap().request_id@
                == self.ids()[i]
    }

    /// An empty collector for `requests`, in their order.
    pub fn new(requests: &Vec<ScreenshotRequest>) -> (r: Self)
        ensures
            r.wf(),
            r.ids() == requests@.map_values(|q: ScreenshotRequest| q.id@),
            forall|i: int| 0 <= i < r.slots().len() ==> (#[trigger] r.slots()[i]).is_none(),
    {
        let mut ids: Vec<String> = Vec::new();
        let mut slots: Vec<Option<ScreenshotResult>> = Vec::new();
        let mut i: usize = 0;
        while i < requests.len()
            invariant
                i <= requests@.len(),
                ids@.len() == i,
                slots@.len() == i,
                forall|j: int| 0 <= j < i ==> (#[trigger] ids@[j])@ == requests@[j].id@,
                forall|j: int| 0 <= j < i ==> (#[trigger] slots@[j]).is_none(),
            decreases requests@.len() - i,
        {
            ids.push(requests[i].id.clone());
            slots.push(None);
            i = i + 1;
        }
        let r = BatchCollector { ids, slots };
        proof {
            assert(r.ids() =~= requests@.map_values(|q: ScreenshotRequest| q.id@));
        }
        r
    }

    /// Files the result for request `index`. Refused, leaving the collector
    /// unchanged, when the index is out of range, the slot is already filled,
    /// or the result belongs to another request.
    pub fn record(&mut self, index: usize, result: ScreenshotResult) -> (accepted: bool)
        requires
            old(self).wf(),
        ensures
            final(self).wf(),
            final(self).ids() == old(self).ids(),
            accepted == (index < old(self).slots().len() && old(self).slots()[index as int].is_none()
                && result.request_id@ == old(self).ids()[index as int]),
            accepted ==> final(self).slots() == old(self).slots().update(index as int, Some(result)),
            !accepted ==> final(self).slots() == old(self).slots(),
    {
        if index >= self.slots.len() {
            return false;
        }
        if self.slots[index].is_some() {
            return false;
        }
        if result.request_id != self.ids[index] {
            return false;
        }
        self.slots.set(index, Some(result));
        true
    }

    /// Whether every request has its result.
    pub fn is_complete(&self) -> (r: bool)
        ensures
            r == forall|i: int| 0 <= i < self.slots().len() ==> (#[trigger] self.slots()[i]).is_some(),
    {
        let mut i: usize = 0;
        while i < self.slots.len()
            invariant
                i <= self.slots@.len(),
                forall|j: int| 0 <= j < i ==> (#[trigger] self.slots@[j]).is_some(),
            decreases self.slots@.len() - i,
        {
            if self.slots[i].is_none() {
                return false;
            }
            i = i + 1;
        }
        true
    }

    /// The results, exactly one per request, in the requests' order, however
    /// many slots were filled: a request whose slot is still empty gets a
    /// terminal `CaptureFailed` result from `dispatcher`.
    pub fn finish_complete(self, dispatcher: &Dispatcher, requests: &Vec<ScreenshotRequest>) -> (r:
        Vec<ScreenshotResult>)
        requires
            self.wf(),
            self.ids() == requests@.map_values(|q: ScreenshotRequest| q.id@),
        ensures
            r@.len() == requests@.len(),
            forall|i: int| 0 <= i < r@.len() ==> (#[trigger] r@[i]).request_id@ == requests@[i].id@,
            forall|i: int|
                0 <= i < r@.len() && self.slots()[i] is Some ==> #[trigger] r@[i]
                    == self.slots()[i].unwrap(),
            forall|i: int|
                0 <= i < r@.len() && self.slots()[i] is None ==> dispatcher.is_failure_result(
                    #[trigger] r@[i],
                    requests@[i],
                    r@[i].error,
                ) && (r@[i].error matches Some(ScreenshotError::CaptureFailed(_))),
    {
        let ghost slots0 = self.slots@;
        let ghost ids0 = self.ids();
        let mut slots = self.slots;
        let mut r: Vec<ScreenshotResult> = Vec::new();
        let n = slots.len();
        let mut i: usize = 0;
        proof {
            assert(ids0.len() == requests@.len());
        }
        while i < n
            invariant
                n == slots0.len(),
                n == requests@.len(),
                ids0 == requests@.map_values(|q: ScreenshotRequest| q.id@),
                forall|j: int|
                    0 <= j < n && (#[trigger] slots0[j]).is_some() ==> slots0[j].unwrap().request_id@
                        == ids0[j],
                i <= n,
                slots@ == slots0.skip(i as int),
                r@.len() == i,
                forall|j: int| 0 <= j < i ==> (#[trigger] r@[j]).request_id@ == requests@[j].id@,
                forall|j: int|
                    0 <= j < i && slots0[j] is Some ==> #[trigger] r@[j] == slots0[j].unwrap(),
                forall|j: int|
                    0 <= j < i && slots0[j] is None ==> dispatcher.is_failure_result(
                        #[trigger] r@[j],
                        requests@[j],
                        r@[j].error,
                    ) && (r@[j].error matches Some(ScreenshotError::CaptureFailed(_))),
            decreases n - i,
        {
            let slot = slots.remove(0);
            proof {
                assert(slot == slots0[i as int]);
                assert(slots@ =~= slots0.skip(i + 1));
                assert(ids0[i as int] == requests@[i as int].id@);
            }
            match slot {
                Some(res) => r.push(res),
                None => {
                    let err = ScreenshotError::CaptureFailed(String::from_str("no result was returned"));
                    r.push(dispatcher.failure_result(&requests[i], Some(err)));
                },
            }
            i = i + 1;
        }
        r
    }

    /// The results, exactly one per request, in the requests' order.
    pub fn finish(self) -> (r: Vec<ScreenshotResult>)
        requires
            self.wf(),
            forall|i: int| 0 <= i < self.slots().len() ==> (#[trigger] self.slots()[i]).is_some(),
        ensures
            r@.len() == self.ids().len(),
            forall|i: int| 0 <= i < r@.len() ==> #[trigger] r@[i] == self.slots()[i].unwrap(),
            forall|i: int| 0 <= i < r@.len() ==> (#[trigger] r@[i]).request_id@ == self.ids()[i],
    {
        let ghost slots0 = self.slots@;
        let mut slots = self.slots;
        let mut r: Vec<ScreenshotResult> = Vec::new();
        let n = slots.len();
        let mut i: usize = 0;
        while i < n
            invariant
                n == slots0.len(),
                i <= n,
                slots@ == slots0.skip(i as int),
                r@.len() == i,
                forall|j: int| 0 <= j < n ==> (#[trigger] slots0[j]).is_some(),
                forall|j: int| 0 <= j < i ==> #[trigger] r@[j] == slots0[j].unwrap(),
            decreases n - i,
        {
            let slot = slots.remove(0);
            proof {
                assert(slot == slots0[i as int]);
                assert(slots@ =~= slots0.skip(i + 1));
            }
            match slot {
                Some(res) => r.push(res),
                None => {},
            }
            i = i + 1;
        }
        r
    }
}

} // verus!
