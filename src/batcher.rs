//! Rate-limited release of a snapshot of flags in windows of at most `quota`
//! flags, one window per interval. Times are in milliseconds on a monotonic
//! clock that the caller reads.
use vstd::prelude::*;

use crate::flag::Flag;

verus! {

/// Mathematical state of a batcher.
pub struct BatcherView {
    /// Flags not released yet, in snapshot order.
    pub pending: Seq<Flag>,
    /// Largest number of flags in one window.
    pub quota: nat,
    /// Least time between two releases, and between the start and the first.
    pub interval: nat,
    /// Time at which the batcher started.
    pub started_at: int,
    /// Time of the latest release, or of the start before any release.
    pub last_release: int,
    /// Number of windows released so far.
    pub released: nat,
}

/// Size of the next window of `v`.
pub open spec fn window_len(v: BatcherView) -> nat {
    if v.pending.len() < v.quota {
        v.pending.len()
    } else {
        v.quota
    }
}

/// Number of windows still to be released by `v`: `ceil(pending / quota)`.
pub open spec fn windows_left(v: BatcherView) -> nat
    recommends
        v.quota > 0,
{
    ((v.pending.len() + v.quota - 1) / v.quota as int) as nat
}

/// A window of `v` may be released at time `now`.
pub open spec fn is_due(v: BatcherView, now: int) -> bool {
    v.pending.len() > 0 && now >= v.last_release + v.interval
}

/// Splits a snapshot into windows of at most `quota` flags and releases one
/// window per interval, the first one interval after the start.
pub struct Batcher {
    pending: Vec<Flag>,
    quota: usize,
    interval: u64,
    started_at: u64,
    last_release: u64,
    released: usize,
}

impl View for Batcher {
    type V = BatcherView;

    closed spec fn view(&self) -> BatcherView {
        BatcherView {
            pending: self.pending@,
            quota: self.quota as nat,
            interval: self.interval as nat,
            started_at: self.started_at as int,
            last_release: self.last_release as int,
            released: self.released as nat,
        }
    }
}

impl Batcher {
    /// The quota is positive, and every release came at least one interval
    /// after the one before it (or after the start).
    pub closed spec fn wf(&self) -> bool {
        &&& self.quota > 0
        &&& self.last_release >= self.started_at + self.released * self.interval
        &&& self.released + self.pending.len() <= usize::MAX
    }

    /// A batcher over `flags`, started at time `now`.
    pub fn new(flags: Vec<Flag>, quota: usize, interval: u64, now: u64) -> (r: Batcher)
        requires
            quota > 0,
        ensures
            r.wf(),
            r@ == (BatcherView {
                pending: flags@,
                quota: quota as nat,
                interval: interval as nat,
                started_at: now as int,
                last_release: now as int,
                released: 0,
            }),
    {
        Batcher { pending: flags, quota, interval, started_at: now, last_release: now, released: 0 }
    }

    /// Whether every flag has been released.
    pub fn is_done(&self) -> (r: bool)
        ensures
            r == (self@.pending.len() == 0),
    {
        self.pending.len() == 0
    }

    /// Earliest time at which the next window may be released, or `None`
    /// when nothing is left. A time past the clock's range reads as its
    /// largest value.
    pub fn next_release_at(&self) -> (r: Option<u64>)
        ensures
            r is None <==> self@.pending.len() == 0,
            r matches Some(t) ==> t == (if self@.last_release + self@.interval <= u64::MAX {
                self@.last_release + self@.interval
            } else {
                u64::MAX as int
            }),
    {
        if self.pending.len() == 0 {
            None
        } else {
            Some(self.last_release.saturating_add(self.interval))
        }
    }

    /// Releases the next window if one is due at time `now`: the first
    /// `min(quota, pending)` flags, in order. Otherwise nothing changes.
    pub fn poll(&mut self, now: u64) -> (r: Option<Vec<Flag>>)
        requires
            old(self).wf(),
        ensures
            final(self).wf(),
            is_due(old(self)@, now as int) ==> (r matches Some(w) && {
                let k = window_len(old(self)@) as int;
                &&& w@ == old(self)@.pending.take(k)
                &&& final(self)@ == (BatcherView {
                    pending: old(self)@.pending.skip(k),
                    last_release: now as int,
                    released: old(self)@.released + 1,
                    ..old(self)@
                })
                &&& windows_left(final(self)@) + 1 == windows_left(old(self)@)
            }),
            !is_due(old(self)@, now as int) ==> r is None && final(self)@ == old(self)@,
    {
        if self.pending.len() == 0 || now < self.last_release || now - self.last_release
            < self.interval {
            return None;
        }
        let k = if self.pending.len() < self.quota {
            self.pending.len()
        } else {
            self.quota
        };
        let mut window = self.pending.split_off(k);
        std::mem::swap(&mut self.pending, &mut window);
        proof {
            let (r, t) = (self.released as int, self.interval as int);
            assert((r + 1) * t == r * t + t) by (nonlinear_arith);
            let (n, q, k) = (old(self)@.pending.len() as int, self.quota as int, k as int);
            assert((n - k + q - 1) / q + 1 == (n + q - 1) / q) by (nonlinear_arith)
                requires
                    q > 0,
                    n > 0,
                    k == if n < q { n } else { q },
            ;
        }
        self.released = self.released + 1;
        self.last_release = now;
        Some(window)
    }
}

/// Pace of release: by the time `k` windows have gone out, at least `k`
/// intervals have passed since the start, hence at least `k - 1`; and no
/// window holds more than `quota` flags, nor fewer than one.
pub proof fn lemma_release_pace(b: &Batcher)
    requires
        b.wf(),
    ensures
        b@.last_release - b@.started_at >= b@.released * b@.interval,
        b@.released >= 1 ==> b@.last_release - b@.started_at >= (b@.released - 1) * b@.interval,
        window_len(b@) <= b@.quota,
        b@.pending.len() > 0 ==> window_len(b@) >= 1,
{
    let (k, t) = (b@.released as int, b@.interval as int);
    assert((k - 1) * t <= k * t) by (nonlinear_arith)
        requires
            t >= 0,
    ;
}

} // verus!
