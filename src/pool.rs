//! Bookkeeping of the browser pool: which instance slots exist, which are
//! idle in the FIFO available-queue, which are leased, how many lease permits
//! remain, and the health rules that decide restarts.
//!
//! The browser processes themselves are driven by the caller; this state
//! machine decides, and the caller reports back what the browsers did.

use std::time::Duration;
use vstd::prelude::*;

use crate::clock::{duration_from_millis, millis_of};
use crate::error::ScreenshotError;

verus! {

#[derive(Debug, Clone, Copy, PartialEq, Eq, Structural)]
pub enum InstanceStatus {
    Healthy,
    Busy,
    Unresponsive,
    Restarting,
    Failed,
}

/// One browser slot: its stable id, counters and timestamps (milliseconds).
#[derive(Debug, Clone, Copy, PartialEq, Eq, Structural)]
pub struct BrowserInstance {
    pub id: usize,
    pub last_used_ms: u64,
    pub screenshot_count: usize,
    pub status: InstanceStatus,
    pub created_at_ms: u64,
    pub failure_count: usize,
}

/// Age after which the deep check restarts an instance (one hour).
pub const MAX_AGE_MS: u64 = 3600000;

/// Failure count above which the deep check restarts an instance.
pub const MAX_FAILURES: usize = 10;

/// Time busy after which the quick check reports an instance as stuck.
pub const STUCK_WARN_MS: u64 = 300000;

/// Time busy after which the deep check restarts an instance.
pub const STUCK_RESTART_MS: u64 = 600000;

/// Number of instances a lease tries before giving up.
pub const LEASE_ATTEMPTS: usize = 3;

pub open spec fn elapsed(since: u64, now: u64) -> u64 {
    if now >= since { (now - since) as u64 } else { 0 }
}

/// An instance just launched at `now_ms`.
pub open spec fn fresh(id: usize, now_ms: u64) -> BrowserInstance {
    BrowserInstance {
        id,
        last_used_ms: now_ms,
        screenshot_count: 0,
        status: InstanceStatus::Healthy,
        created_at_ms: now_ms,
        failure_count: 0,
    }
}

impl BrowserInstance {
    /// A freshly launched instance.
    pub fn new(id: usize, now_ms: u64) -> (r: Self)
        ensures
            r == fresh(id, now_ms),
    {
        BrowserInstance {
            id,
            last_used_ms: now_ms,
            screenshot_count: 0,
            status: InstanceStatus::Healthy,
            created_at_ms: now_ms,
            failure_count: 0,
        }
    }

    pub open spec fn used(self, now_ms: u64) -> Self {
        BrowserInstance {
            last_used_ms: now_ms,
            screenshot_count: if self.screenshot_count < usize::MAX {
                (self.screenshot_count + 1) as usize
            } else {
                self.screenshot_count
            },
            status: InstanceStatus::Busy,
            ..self
        }
    }

    /// Marks the instance busy for one more capture.
    pub fn mark_used(&mut self, now_ms: u64)
        ensures
            *final(self) == old(self).used(now_ms),
    {
        self.last_used_ms = now_ms;
        self.screenshot_count = self.screenshot_count.saturating_add(1);
        self.status = InstanceStatus::Busy;
    }

    pub fn mark_available(&mut self)
        ensures
            *final(self) == (BrowserInstance { status: InstanceStatus::Healthy, ..*old(self) }),
    {
        self.status = InstanceStatus::Healthy;
    }

    pub fn mark_failed(&mut self)
        ensures
            *final(self) == (BrowserInstance {
                status: InstanceStatus::Failed,
                failure_count: if old(self).failure_count < usize::MAX {
                    (old(self).failure_count + 1) as usize
                } else {
                    old(self).failure_count
                },
                ..*old(self)
            }),
    {
        self.failure_count = self.failure_count.saturating_add(1);
        self.status = InstanceStatus::Failed;
    }

    pub fn is_healthy(&self) -> (r: bool)
        ensures
            r == (self.status == InstanceStatus::Healthy),
    {
        self.status == InstanceStatus::Healthy
    }

    /// Milliseconds since the instance was launched.
    pub fn age(&self, now_ms: u64) -> (r: u64)
        ensures
            r == elapsed(self.created_at_ms, now_ms),
    {
        now_ms.saturating_sub(self.created_at_ms)
    }

    /// Milliseconds since the instance was last leased.
    pub fn idle_time(&self, now_ms: u64) -> (r: u64)
        ensures
            r == elapsed(self.last_used_ms, now_ms),
    {
        now_ms.saturating_sub(self.last_used_ms)
    }

    /// Whether the quick check reports this instance: its event loop has
    /// ended, or it has been busy for too long.
    pub open spec fn flagged(self, loop_alive: bool, now_ms: u64) -> bool {
        !loop_alive || (elapsed(self.last_used_ms, now_ms) > STUCK_WARN_MS && self.status
            == InstanceStatus::Busy)
    }

    /// Whether the deep check restarts this instance.
    pub open spec fn needs_restart(self, loop_alive: bool, now_ms: u64) -> bool {
        elapsed(self.created_at_ms, now_ms) > MAX_AGE_MS || self.failure_count > MAX_FAILURES
            || !loop_alive || (elapsed(self.last_used_ms, now_ms) > STUCK_RESTART_MS
            && self.status == InstanceStatus::Busy)
    }
}

/// A snapshot of one instance, as the health report shows it.
#[derive(Debug, Clone)]
pub struct InstanceHealth {
    pub id: usize,
    pub status: InstanceStatus,
    pub screenshot_count: usize,
    pub age: Duration,
    pub idle_time: Duration,
    pub failure_count: usize,
}

#[derive(Debug, Clone, PartialEq, Eq, Structural)]
pub struct BrowserPoolStats {
    pub total_instances: usize,
    pub healthy_instances: usize,
    pub busy_instances: usize,
    pub failed_instances: usize,
    pub available_instances: usize,
    pub total_screenshots: usize,
}

/// Abstract state of the pool.
pub struct PoolModel {
    pub size: nat,
    pub instances: Seq<BrowserInstance>,
    pub available: Seq<usize>,
    pub in_use: Seq<bool>,
    pub permits: nat,
    pub acquiring: nat,
    pub shutting_down: bool,
    pub closed: bool,
}

/// The pool's bookkeeping. An id is either idle in the available-queue or in
/// use by exactly one caller; a caller holds one permit from the moment it
/// starts a lease until it releases the instance or gives up.
pub struct BrowserPool {
    size: usize,
    instances: Vec<BrowserInstance>,
    available: Vec<usize>,
    in_use: Vec<bool>,
    permits: usize,
    acquiring: usize,
    shutting_down: bool,
    closed: bool,
}

/// How a request for a lease begins.
#[derive(Debug, Clone, Copy, PartialEq, Eq, Structural)]
pub enum LeaseStart {
    /// A permit is held; the caller goes on with `take_candidate`.
    Started,
    /// Every permit is held by others; the caller waits for a release.
    Wait,
}

/// What follows a failed in-place restart during a lease.
#[derive(Debug, Clone, Copy, PartialEq, Eq, Structural)]
pub enum LeaseRetry {
    /// The permit is still held; the caller tries the next instance.
    TryNext,
    /// The attempts are spent and the permit is given back.
    GiveUp,
}

impl PoolModel {
    /// Every id appears once in the queue; an id is queued exactly when no
    /// caller uses it; the permits held by callers still choosing an instance
    /// and the free permits together match the idle instances, so every
    /// permit is accounted for.
    pub open spec fn wf(self) -> bool {
        &&& self.instances.len() == self.size
        &&& self.in_use.len() == self.size
        &&& forall|i: int| 0 <= i < self.size ==> (#[trigger] self.instances[i]).id == i
        &&& self.available.no_duplicates()
        &&& forall|k: int| 0 <= k < self.available.len() ==> (#[trigger] self.available[k])
            < self.size
        &&& forall|i: int|
            0 <= i < self.size ==> (self.available.contains(i as usize) <==> !(
            #[trigger] self.in_use[i]))
        &&& self.permits + self.acquiring == self.available.len()
    }

    /// Ids that some caller holds.
    pub open spec fn held(self, id: int) -> bool {
        0 <= id < self.size && self.in_use[id]
    }
}

pub open spec fn all_ids(n: nat) -> Seq<usize> {
    Seq::new(n, |i: int| i as usize)
}

impl View for BrowserPool {
    type V = PoolModel;

    closed spec fn view(&self) -> PoolModel {
        PoolModel {
            size: self.size as nat,
            instances: self.instances@,
            available: self.available@,
            in_use: self.in_use@,
            permits: self.permits as nat,
            acquiring: self.acquiring as nat,
            shutting_down: self.shutting_down,
            closed: self.closed,
        }
    }
}

impl BrowserPool {
    /// A pool of `pool_size` freshly launched instances, all idle, queued in
    /// id order, with every permit free.
    pub fn new(pool_size: usize, now_ms: u64) -> (r: Self)
        ensures
            r@.wf(),
            r@.size == pool_size,
            r@.available == all_ids(pool_size as nat),
            r@.permits == pool_size,
            r@.acquiring == 0,
            forall|i: int|
                0 <= i < pool_size ==> r@.instances[i] == fresh(i as usize, now_ms),
            !r@.shutting_down,
            !r@.closed,
    {
        let mut instances: Vec<BrowserInstance> = Vec::new();
        let mut available: Vec<usize> = Vec::new();
        let mut in_use: Vec<bool> = Vec::new();
        let mut i: usize = 0;
        while i < pool_size
            invariant
                i <= pool_size,
                instances@.len() == i,
                in_use@.len() == i,
                available@ == all_ids(i as nat),
                forall|j: int| 0 <= j < i ==> instances@[j] == fresh(j as usize, now_ms),
                forall|j: int| 0 <= j < i ==> !in_use@[j],
            decreases pool_size - i,
        {
            instances.push(BrowserInstance::new(i, now_ms));
            available.push(i);
            in_use.push(false);
            i = i + 1;
            proof {
                assert(available@ =~= all_ids(i as nat));
            }
        }
        let r = BrowserPool {
            size: pool_size,
            instances,
            available,
            in_use,
            permits: pool_size,
            acquiring: 0,
            shutting_down: false,
            closed: false,
        };
        proof {
            let m = r@;
            assert forall|a: int, b: int|
                0 <= a < m.available.len() && 0 <= b < m.available.len() && a != b implies m.available[a]
                != m.available[b] by {}
            assert forall|i: int| 0 <= i < m.size implies (m.available.contains(i as usize) <==> !(
            #[trigger] m.in_use[i])) by {
                assert(m.available[i] == i as usize);
            }
        }
        r
    }

    pub fn pool_size(&self) -> (r: usize)
        ensures
            r == self@.size,
    {
        self.size
    }

    pub fn is_shutting_down(&self) -> (r: bool)
        ensures
            r == self@.shutting_down,
    {
        self.shutting_down
    }

    /// Starts a lease: fails fast with `BrowserUnavailable` once shutdown has
    /// begun; otherwise takes a permit if one is free.
    pub fn begin_lease(&mut self) -> (r: Result<LeaseStart, ScreenshotError>)
        requires
            old(self)@.wf(),
        ensures
            final(self)@.wf(),
            old(self)@.shutting_down ==> (r matches Err(ScreenshotError::BrowserUnavailable))
                && final(self)@ == old(self)@,
            !old(self)@.shutting_down && old(self)@.permits == 0 ==> r == Ok::<
                LeaseStart,
                ScreenshotError,
            >(LeaseStart::Wait) && final(self)@ == old(self)@,
            !old(self)@.shutting_down && old(self)@.permits > 0 ==> r == Ok::<
                LeaseStart,
                ScreenshotError,
            >(LeaseStart::Started) && final(self)@ == (PoolModel {
                permits: (old(self)@.permits - 1) as nat,
                acquiring: old(self)@.acquiring + 1,
                ..old(self)@
            }),
    {
        if self.shutting_down {
            return Err(ScreenshotError::BrowserUnavailable);
        }
        if self.permits == 0 {
            return Ok(LeaseStart::Wait);
        }
        proof {
            lemma_distinct_bounded(self@.available, self@.size);
        }
        self.permits = self.permits - 1;
        self.acquiring = self.acquiring + 1;
        Ok(LeaseStart::Started)
    }

    /// Takes the head of the available-queue for a caller that holds a
    /// permit. The id returned was idle: no other caller holds it.
    pub fn take_candidate(&mut self) -> (id: usize)
        requires
            old(self)@.wf(),
            old(self)@.acquiring > 0,
        ensures
            final(self)@.wf(),
            id == old(self)@.available[0],
            id < old(self)@.size,
            !old(self)@.in_use[id as int],
            final(self)@.in_use[id as int],
            final(self)@ == (PoolModel {
                available: old(self)@.available.drop_first(),
                in_use: old(self)@.in_use.update(id as int, true),
                acquiring: (old(self)@.acquiring - 1) as nat,
                ..old(self)@
            }),
    {
        let ghost m = self@;
        let id = self.available.remove(0);
        proof {
            assert(m.available.contains(id));
            assert(!m.in_use[id as int]);
        }
        self.in_use.set(id, true);
        self.acquiring = self.acquiring - 1;
        proof {
            let n = self@;
            assert(n.available =~= m.available.drop_first());
            assert forall|i: int| 0 <= i < n.size implies (n.available.contains(i as usize) <==> !(
            #[trigger] n.in_use[i])) by {
                if i == id as int {
                    if n.available.contains(i as usize) {
                        let k = choose|k: int| 0 <= k < n.available.len() && n.available[k] == i as usize;
                        assert(m.available[k + 1] == m.available[0]);
                    }
                } else {
                    if m.available.contains(i as usize) {
                        let k = choose|k: int| 0 <= k < m.available.len() && m.available[k] == i as usize;
                        assert(k != 0);
                        assert(n.available[k - 1] == i as usize);
                    }
                    if n.available.contains(i as usize) {
                        let k = choose|k: int| 0 <= k < n.available.len() && n.available[k] == i as usize;
                        assert(m.available[k + 1] == i as usize);
                    }
                }
            }
        }
        id
    }

    /// Inspects a candidate. A healthy instance whose event loop is alive is
    /// leased: marked busy and counted. Otherwise it is marked restarting and
    /// the caller must restart it in place.
    pub fn check_candidate(&mut self, id: usize, loop_alive: bool, now_ms: u64) -> (leased: bool)
        requires
            old(self)@.wf(),
            old(self)@.held(id as int),
        ensures
            final(self)@.wf(),
            leased == (old(self)@.instances[id as int].status == InstanceStatus::Healthy
                && loop_alive),
            leased ==> final(self)@ == (PoolModel {
                instances: old(self)@.instances.update(
                    id as int,
                    old(self)@.instances[id as int].used(now_ms),
                ),
                ..old(self)@
            }),
            !leased ==> final(self)@ == (PoolModel {
                instances: old(self)@.instances.update(
                    id as int,
                    BrowserInstance {
                        status: InstanceStatus::Restarting,
                        ..old(self)@.instances[id as int]
                    },
                ),
                ..old(self)@
            }),
    {
        let mut inst = self.instances[id];
        if inst.is_healthy() && loop_alive {
            inst.mark_used(now_ms);
            self.instances.set(id, inst);
            true
        } else {
            inst.status = InstanceStatus::Restarting;
            self.instances.set(id, inst);
            false
        }
    }

    /// Marks an instance as being restarted (by a lease or by the deep
    /// health check).
    pub fn begin_restart(&mut self, id: usize)
        requires
            old(self)@.wf(),
            id < old(self)@.size,
        ensures
            final(self)@.wf(),
            final(self)@ == (PoolModel {
                instances: old(self)@.instances.update(
                    id as int,
                    BrowserInstance {
                        status: InstanceStatus::Restarting,
                        ..old(self)@.instances[id as int]
                    },
                ),
                ..old(self)@
            }),
    {
        let mut inst = self.instances[id];
        inst.status = InstanceStatus::Restarting;
        self.instances.set(id, inst);
    }

    /// A replacement process was launched under the same id outside a
    /// lease (the deep health check): its counters start afresh and it is
    /// healthy. The queue and the holders are untouched.
    pub fn restart_succeeded(&mut self, id: usize, now_ms: u64)
        requires
            old(self)@.wf(),
            id < old(self)@.size,
        ensures
            final(self)@.wf(),
            final(self)@ == (PoolModel {
                instances: old(self)@.instances.update(id as int, fresh(id, now_ms)),
                ..old(self)@
            }),
    {
        self.instances.set(id, BrowserInstance::new(id, now_ms));
    }

    /// A lease found its candidate dead and relaunched it in place: the new
    /// instance starts afresh and is then leased to that caller, exactly as
    /// a healthy candidate would be.
    pub fn lease_restarted(&mut self, id: usize, now_ms: u64)
        requires
            old(self)@.wf(),
            old(self)@.held(id as int),
        ensures
            final(self)@.wf(),
            final(self)@ == (PoolModel {
                instances: old(self)@.instances.update(id as int, fresh(id, now_ms).used(now_ms)),
                ..old(self)@
            }),
    {
        let mut inst = BrowserInstance::new(id, now_ms);
        inst.mark_used(now_ms);
        self.instances.set(id, inst);
    }

    /// The replacement could not be launched: the slot stays failed, and the
    /// pool goes on with the others.
    pub fn restart_failed(&mut self, id: usize)
        requires
            old(self)@.wf(),
            id < old(self)@.size,
        ensures
            final(self)@.wf(),
            final(self)@ == (PoolModel {
                instances: old(self)@.instances.update(
                    id as int,
                    BrowserInstance {
                        status: InstanceStatus::Failed,
                        ..old(self)@.instances[id as int]
                    },
                ),
                ..old(self)@
            }),
    {
        let mut inst = self.instances[id];
        inst.status = InstanceStatus::Failed;
        self.instances.set(id, inst);
    }

    /// A capture on this instance failed in a way that points at the
    /// browser itself: the instance is marked failed and its failure count
    /// grows, so the next lease or the deep check restarts it.
    pub fn record_instance_failure(&mut self, id: usize)
        requires
            old(self)@.wf(),
            id < old(self)@.size,
        ensures
            final(self)@.wf(),
            final(self)@ == (PoolModel {
                instances: old(self)@.instances.update(
                    id as int,
                    BrowserInstance {
                        status: InstanceStatus::Failed,
                        failure_count: if old(self)@.instances[id as int].failure_count < usize::MAX {
                            (old(self)@.instances[id as int].failure_count + 1) as usize
                        } else {
                            old(self)@.instances[id as int].failure_count
                        },
                        ..old(self)@.instances[id as int]
                    },
                ),
                ..old(self)@
            }),
    {
        let mut inst = self.instances[id];
        inst.mark_failed();
        self.instances.set(id, inst);
    }

    /// After a failed restart during a lease: the candidate goes back to the
    /// tail of the queue. With attempts left the caller keeps its permit and
    /// tries the next instance; after the last attempt the permit is given
    /// back and the lease fails with `BrowserUnavailable`.
    pub fn return_candidate(&mut self, id: usize, attempt: usize) -> (r: LeaseRetry)
        requires
            old(self)@.wf(),
            old(self)@.held(id as int),
        ensures
            final(self)@.wf(),
            r == (if attempt + 1 < LEASE_ATTEMPTS {
                LeaseRetry::TryNext
            } else {
                LeaseRetry::GiveUp
            }),
            final(self)@.available == old(self)@.available.push(id),
            final(self)@.in_use == old(self)@.in_use.update(id as int, false),
            final(self)@.instances == old(self)@.instances,
            r == LeaseRetry::TryNext ==> final(self)@.acquiring == old(self)@.acquiring + 1
                && final(self)@.permits == old(self)@.permits,
            r == LeaseRetry::GiveUp ==> final(self)@.acquiring == old(self)@.acquiring
                && final(self)@.permits == old(self)@.permits + 1,
            final(self)@.size == old(self)@.size,
            final(self)@.shutting_down == old(self)@.shutting_down,
            final(self)@.closed == old(self)@.closed,
    {
        self.push_idle(id);
        let ghost n = self@;
        proof {
            lemma_distinct_bounded(self@.available, self@.size);
        }
        if attempt < LEASE_ATTEMPTS - 1 {
            self.acquiring = self.acquiring + 1;
            proof {
                lemma_wf_parts(n, self@);
            }
            LeaseRetry::TryNext
        } else {
            self.permits = self.permits + 1;
            proof {
                lemma_wf_parts(n, self@);
            }
            LeaseRetry::GiveUp
        }
    }

    /// Puts a held id back at the tail of the queue; the caller then settles
    /// the permit that went with it.
    fn push_idle(&mut self, id: usize)
        requires
            old(self)@.wf(),
            old(self)@.held(id as int),
        ensures
            final(self)@ == (PoolModel {
                available: old(self)@.available.push(id),
                in_use: old(self)@.in_use.update(id as int, false),
                ..old(self)@
            }),
            final(self)@.available.no_duplicates(),
            final(self)@.available.len() == old(self)@.available.len() + 1,
            forall|i: int|
                0 <= i < final(self)@.size ==> (final(self)@.available.contains(i as usize) <==> !(
                #[trigger] final(self)@.in_use[i])),
            forall|k: int|
                0 <= k < final(self)@.available.len() ==> (#[trigger] final(self)@.available[k])
                    < final(self)@.size,
    {
        let ghost m = self@;
        proof {
            assert(!m.available.contains(id));
        }
        self.available.push(id);
        self.in_use.set(id, false);
        proof {
            let n = self@;
            assert forall|i: int| 0 <= i < n.size implies (n.available.contains(i as usize) <==> !(
            #[trigger] n.in_use[i])) by {
                if i == id as int {
                    assert(n.available[m.available.len() as int] == id);
                } else {
                    if m.available.contains(i as usize) {
                        let k = choose|k: int| 0 <= k < m.available.len() && m.available[k] == i as usize;
                        assert(n.available[k] == i as usize);
                    }
                    if n.available.contains(i as usize) {
                        let k = choose|k: int| 0 <= k < n.available.len() && n.available[k] == i as usize;
                        assert(k < m.available.len());
                        assert(m.available[k] == i as usize);
                    }
                }
            }
            assert forall|a: int, b: int|
                0 <= a < n.available.len() && 0 <= b < n.available.len() && a != b implies n.available[a]
                != n.available[b] by {
                if a < m.available.len() && b < m.available.len() {
                } else if a < m.available.len() {
                    assert(m.available.contains(n.available[a]));
                } else if b < m.available.len() {
                    assert(m.available.contains(n.available[b]));
                }
            }
        }
    }

    /// Ends a lease: the instance is marked healthy, its id goes to the tail
    /// of the queue and the permit is released. An id that no caller holds
    /// is left alone, so a stray release can never queue an id twice.
    pub fn release(&mut self, id: usize) -> (released: bool)
        requires
            old(self)@.wf(),
        ensures
            final(self)@.wf(),
            released == old(self)@.held(id as int),
            released ==> final(self)@ == (PoolModel {
                instances: old(self)@.instances.update(
                    id as int,
                    BrowserInstance {
                        status: InstanceStatus::Healthy,
                        ..old(self)@.instances[id as int]
                    },
                ),
                available: old(self)@.available.push(id),
                in_use: old(self)@.in_use.update(id as int, false),
                permits: old(self)@.permits + 1,
                ..old(self)@
            }),
            !released ==> final(self)@ == old(self)@,
    {
        if id >= self.size || !self.in_use[id] {
            return false;
        }
        let ghost m = self@;
        let mut inst = self.instances[id];
        inst.mark_available();
        self.instances.set(id, inst);
        proof {
            assert forall|i: int| 0 <= i < self@.size implies (#[trigger] self@.instances[i]).id
                == i by {
                assert(m.instances[i].id == i);
            }
        }
        self.push_idle(id);
        let ghost n = self@;
        proof {
            lemma_distinct_bounded(self@.available, self@.size);
        }
        self.permits = self.permits + 1;
        proof {
            lemma_wf_parts(n, self@);
        }
        true
    }

    /// Ids the quick health check reports (dead event loop, or busy for over
    /// five minutes), in id order. `loop_alive[i]` tells whether instance
    /// `i`'s event loop still runs.
    pub fn quick_health_check(&self, loop_alive: &Vec<bool>, now_ms: u64) -> (r: Vec<usize>)
        requires
            self@.wf(),
            loop_alive@.len() == self@.size,
        ensures
            r@ == all_ids(self@.size).filter(
                |i: usize| self@.instances[i as int].flagged(loop_alive@[i as int], now_ms),
            ),
    {
        let ghost m = self@;
        let ghost pred = |i: usize| m.instances[i as int].flagged(loop_alive@[i as int], now_ms);
        let mut r: Vec<usize> = Vec::new();
        let mut i: usize = 0;
        while i < self.size
            invariant
                i <= self.size,
                m == self@,
                m.wf(),
                loop_alive@.len() == m.size,
                pred == (|i: usize| m.instances[i as int].flagged(loop_alive@[i as int], now_ms)),
                r@ == all_ids(i as nat).filter(pred),
            decreases self.size - i,
        {
            let inst = self.instances[i];
            let stuck = inst.idle_time(now_ms) > STUCK_WARN_MS && inst.status == InstanceStatus::Busy;
            proof {
                assert(all_ids((i + 1) as nat).drop_last() =~= all_ids(i as nat));
                reveal(Seq::filter);
            }
            if !loop_alive[i] || stuck {
                r.push(i);
            }
            i = i + 1;
        }
        proof {
            assert(all_ids(i as nat) =~= all_ids(m.size));
        }
        r
    }

    /// Ids the deep health check restarts: older than an hour, more than ten
    /// failures, a dead event loop, or busy for over ten minutes; in id
    /// order.
    pub fn deep_health_check(&self, loop_alive: &Vec<bool>, now_ms: u64) -> (r: Vec<usize>)
        requires
            self@.wf(),
            loop_alive@.len() == self@.size,
        ensures
            r@ == all_ids(self@.size).filter(
                |i: usize| self@.instances[i as int].needs_restart(loop_alive@[i as int], now_ms),
            ),
    {
        let ghost m = self@;
        let ghost pred = |i: usize|
            m.instances[i as int].needs_restart(loop_alive@[i as int], now_ms);
        let mut r: Vec<usize> = Vec::new();
        let mut i: usize = 0;
        while i < self.size
            invariant
                i <= self.size,
                m == self@,
                m.wf(),
                loop_alive@.len() == m.size,
                pred == (|i: usize|
                    m.instances[i as int].needs_restart(loop_alive@[i as int], now_ms)),
                r@ == all_ids(i as nat).filter(pred),
            decreases self.size - i,
        {
            let inst = self.instances[i];
            let needs = inst.age(now_ms) > MAX_AGE_MS || inst.failure_count > MAX_FAILURES
                || !loop_alive[i] || (inst.idle_time(now_ms) > STUCK_RESTART_MS && inst.status
                == InstanceStatus::Busy);
            proof {
                assert(all_ids((i + 1) as nat).drop_last() =~= all_ids(i as nat));
                reveal(Seq::filter);
            }
            if needs {
                r.push(i);
            }
            i = i + 1;
        }
        proof {
            assert(all_ids(i as nat) =~= all_ids(m.size));
        }
        r
    }

    /// A snapshot of every instance, in id order.
    pub fn health_check(&self, now_ms: u64) -> (r: Vec<InstanceHealth>)
        requires
            self@.wf(),
        ensures
            r@.len() == self@.size,
            forall|i: int|
                0 <= i < r@.len() ==> {
                    let h = #[trigger] r@[i];
                    let inst = self@.instances[i];
                    h.id == i && h.status == inst.status && h.screenshot_count
                        == inst.screenshot_count && h.failure_count == inst.failure_count
                        && millis_of(h.age) == elapsed(inst.created_at_ms, now_ms)
                        && millis_of(h.idle_time) == elapsed(inst.last_used_ms, now_ms)
                },
    {
        let mut r: Vec<InstanceHealth> = Vec::new();
        let mut i: usize = 0;
        while i < self.size
            invariant
                i <= self.size,
                self@.wf(),
                r@.len() == i,
                forall|j: int|
                    0 <= j < i ==> {
                        let h = #[trigger] r@[j];
                        let inst = self@.instances[j];
                        h.id == j && h.status == inst.status && h.screenshot_count
                            == inst.screenshot_count && h.failure_count == inst.failure_count
                            && millis_of(h.age) == elapsed(inst.created_at_ms, now_ms)
                            && millis_of(h.idle_time) == elapsed(inst.last_used_ms, now_ms)
                    },
            decreases self.size - i,
        {
            let inst = self.instances[i];
            r.push(
                InstanceHealth {
                    id: inst.id,
                    status: inst.status,
                    screenshot_count: inst.screenshot_count,
                    age: duration_from_millis(inst.age(now_ms)),
                    idle_time: duration_from_millis(inst.idle_time(now_ms)),
                    failure_count: inst.failure_count,
                },
            );
            i = i + 1;
        }
        r
    }

    /// Counts of instances by status, the idle count and the screenshots
    /// taken (saturating at `usize::MAX`).
    pub fn get_stats(&self) -> (r: BrowserPoolStats)
        requires
            self@.wf(),
        ensures
            r.total_instances == self@.size,
            r.healthy_instances == count_status(self@.instances, InstanceStatus::Healthy),
            r.busy_instances == count_status(self@.instances, InstanceStatus::Busy),
            r.failed_instances == count_status(self@.instances, InstanceStatus::Failed),
            r.available_instances == self@.available.len(),
            r.total_screenshots == capped(screenshots_sum(self@.instances)),
    {
        let mut healthy: usize = 0;
        let mut busy: usize = 0;
        let mut failed: usize = 0;
        let mut total: usize = 0;
        let mut i: usize = 0;
        while i < self.size
            invariant
                i <= self.size,
                self@.wf(),
                healthy == count_status(self@.instances.take(i as int), InstanceStatus::Healthy),
                busy == count_status(self@.instances.take(i as int), InstanceStatus::Busy),
                failed == count_status(self@.instances.take(i as int), InstanceStatus::Failed),
                healthy <= i && busy <= i && failed <= i,
                total == capped(screenshots_sum(self@.instances.take(i as int))),
            decreases self.size - i,
        {
            let inst = self.instances[i];
            proof {
                assert(self@.instances.take(i + 1).drop_last() =~= self@.instances.take(i as int));
                lemma_count_status_le(self@.instances.take(i as int), InstanceStatus::Healthy);
            }
            if inst.status == InstanceStatus::Healthy {
                healthy = healthy + 1;
            } else if inst.status == InstanceStatus::Busy {
                busy = busy + 1;
            } else if inst.status == InstanceStatus::Failed {
                failed = failed + 1;
            }
            total = total.saturating_add(inst.screenshot_count);
            i = i + 1;
        }
        proof {
            assert(self@.instances.take(i as int) =~= self@.instances);
        }
        BrowserPoolStats {
            total_instances: self.size,
            healthy_instances: healthy,
            busy_instances: busy,
            failed_instances: failed,
            available_instances: self.available.len(),
            total_screenshots: total,
        }
    }

    /// Begins shutdown: new leases fail fast from now on. Returns whether
    /// shutdown had already begun.
    pub fn begin_shutdown(&mut self) -> (was: bool)
        requires
            old(self)@.wf(),
        ensures
            final(self)@.wf(),
            was == old(self)@.shutting_down,
            final(self)@ == shutdown_begun(old(self)@),
    {
        let was = self.shutting_down;
        self.shutting_down = true;
        was
    }

    /// Whether every instance is back in the available-queue.
    pub fn all_returned(&self) -> (r: bool)
        requires
            self@.wf(),
        ensures
            r == (self@.available.len() == self@.size),
    {
        self.available.len() == self.size
    }

    /// Records that the browsers have been closed.
    pub fn mark_closed(&mut self)
        requires
            old(self)@.wf(),
        ensures
            final(self)@.wf(),
            final(self)@ == closed_down(old(self)@),
    {
        self.shutting_down = true;
        self.closed = true;
    }

    pub fn is_closed(&self) -> (r: bool)
        ensures
            r == self@.closed,
    {
        self.closed
    }

    pub fn instance(&self, id: usize) -> (r: BrowserInstance)
        requires
            self@.wf(),
            id < self@.size,
        ensures
            r == self@.instances[id as int],
    {
        self.instances[id]
    }
}

pub open spec fn shutdown_begun(m: PoolModel) -> PoolModel {
    PoolModel { shutting_down: true, ..m }
}

pub open spec fn closed_down(m: PoolModel) -> PoolModel {
    PoolModel { shutting_down: true, closed: true, ..m }
}

/// The whole shutdown: flag set, then browsers closed.
pub open spec fn shut(m: PoolModel) -> PoolModel {
    closed_down(shutdown_begun(m))
}

pub open spec fn count_status(s: Seq<BrowserInstance>, st: InstanceStatus) -> nat
    decreases s.len(),
{
    if s.len() == 0 {
        0
    } else {
        count_status(s.drop_last(), st) + if s.last().status == st { 1nat } else { 0nat }
    }
}

pub open spec fn screenshots_sum(s: Seq<BrowserInstance>) -> nat
    decreases s.len(),
{
    if s.len() == 0 {
        0
    } else {
        screenshots_sum(s.drop_last()) + s.last().screenshot_count as nat
    }
}

pub open spec fn capped(n: nat) -> nat {
    if n > usize::MAX { usize::MAX as nat } else { n }
}

/// Restates the queue and id parts of well-formedness, which helps the
/// solver reassemble `wf` after the queue changes.
proof fn lemma_wf_parts(n: PoolModel, p: PoolModel)
    requires
        p.size == n.size,
        p.instances == n.instances,
        p.in_use == n.in_use,
        p.available == n.available,
        p.permits + p.acquiring == p.available.len(),
        n.instances.len() == n.size,
        n.in_use.len() == n.size,
        forall|i: int| 0 <= i < n.size ==> (#[trigger] n.instances[i]).id == i,
        n.available.no_duplicates(),
        forall|k: int| 0 <= k < n.available.len() ==> (#[trigger] n.available[k]) < n.size,
        forall|i: int|
            0 <= i < n.size ==> (n.available.contains(i as usize) <==> !(#[trigger] n.in_use[i])),
    ensures
        p.wf(),
{
}

proof fn lemma_count_status_le(s: Seq<BrowserInstance>, st: InstanceStatus)
    ensures
        count_status(s, st) <= s.len(),
    decreases s.len(),
{
    if s.len() > 0 {
        lemma_count_status_le(s.drop_last(), st);
    }
}

/// Shutting down twice leaves the pool as shutting down once does.
pub proof fn lemma_shutdown_idempotent(m: PoolModel)
    requires
        m.wf(),
    ensures
        shut(shut(m)) == shut(m),
        shut(m).wf(),
{
}

/// An id is never leased to two callers at once: the candidate handed out
/// was idle, and once handed out it is no longer in the queue, so no other
/// caller can take it until it is released.
pub proof fn lemma_single_holder(m: PoolModel, id: int)
    requires
        m.wf(),
        m.held(id),
    ensures
        !m.available.contains(id as usize),
{
}

/// Permits are conserved: the free permits plus those held by callers still
/// choosing an instance always equal the idle instances, which never
/// exceed the pool size; every other permit belongs to a held instance.
pub proof fn lemma_permits_accounted(m: PoolModel)
    requires
        m.wf(),
    ensures
        m.permits + m.acquiring == m.available.len(),
        m.available.len() <= m.size,
{
    lemma_distinct_bounded(m.available, m.size);
}

proof fn lemma_distinct_bounded(s: Seq<usize>, n: nat)
    requires
        s.no_duplicates(),
        forall|k: int| 0 <= k < s.len() ==> (#[trigger] s[k]) < n,
    ensures
        s.len() <= n,
{
    let set_s = s.to_set();
    s.unique_seq_to_set();
    let full = Set::new(|x: usize| x < n);
    assert(set_s.subset_of(full));
    lemma_bounded_set_len(n);
    vstd::set_lib::lemma_len_subset(set_s, full);
}

proof fn lemma_bounded_set_len(n: nat)
    ensures
        Set::new(|x: usize| x < n).finite(),
        Set::new(|x: usize| x < n).len() <= n,
        n <= usize::MAX + 1 ==> Set::new(|x: usize| x < n).len() == n,
    decreases n,
{
    if n == 0 {
        assert(Set::new(|x: usize| x < n) =~= Set::empty());
    } else {
        lemma_bounded_set_len((n - 1) as nat);
        let smaller = Set::new(|x: usize| x < (n - 1) as nat);
        if n - 1 <= usize::MAX {
            assert(Set::new(|x: usize| x < n) =~= smaller.insert((n - 1) as usize));
            assert(!smaller.contains((n - 1) as usize));
        } else {
            assert(Set::new(|x: usize| x < n) =~= smaller);
        }
    }
}

/// No permit leaks: once every lease has been released and no caller is
/// still choosing an instance, all of the pool's permits are free again and
/// every instance is queued.
pub proof fn lemma_idle_pool_has_all_permits(m: PoolModel)
    requires
        m.wf(),
        m.size <= usize::MAX,
        m.acquiring == 0,
        forall|i: int| 0 <= i < m.size ==> !(#[trigger] m.in_use[i]),
    ensures
        m.permits == m.size,
        m.available.len() == m.size,
{
    let full = Set::new(|x: usize| x < m.size);
    let set_a = m.available.to_set();
    m.available.unique_seq_to_set();
    assert(set_a =~= full) by {
        assert forall|x: usize| set_a.contains(x) <==> full.contains(x) by {
            if full.contains(x) {
                assert(!m.in_use[x as int]);
                assert(m.available.contains(x));
            }
            if set_a.contains(x) {
                let k = choose|k: int| 0 <= k < m.available.len() && m.available[k] == x;
                assert(m.available[k] < m.size);
            }
        }
    }
    lemma_bounded_set_len(m.size);
    assert(m.available.len() == set_a.len());
}

} // verus!
