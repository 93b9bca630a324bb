//! Sliding-window admission gate for calls to the remote source.
use vstd::prelude::*;

use std::time::Instant;

use crate::clock::{clamp_to_i64, millis_since, millis_to_secs, monotonic_now, now_millis, secs_of_millis};

verus! {

/// Length of the admission window, in milliseconds.
pub const WINDOW_MILLIS: i64 = 60000;

/// Calls per minute admitted when the configuration names no limit.
pub fn default_requests_per_minute() -> (r: u32)
    ensures
        r == 1000,
{
    1000
}

/// Whether a call admitted at `t` still counts against the limit at `now`:
/// it lies in `(now - WINDOW_MILLIS, now]`.
pub open spec fn in_window(t: i64, now: i64) -> bool {
    t <= now && (now as int) - (t as int) < WINDOW_MILLIS as int
}

/// The admitted timestamps that are still inside the window at `now`, in order.
pub open spec fn prune(s: Seq<i64>, now: i64) -> Seq<i64>
    decreases s.len(),
{
    if s.len() == 0 {
        s
    } else if in_window(s.last(), now) {
        prune(s.drop_last(), now).push(s.last())
    } else {
        prune(s.drop_last(), now)
    }
}

/// Whether a call at `now` is admitted, given the timestamps admitted so far.
pub open spec fn admits(s: Seq<i64>, limit: u32, now: i64) -> bool {
    prune(s, now).len() < limit as int
}

/// The admitted timestamps after a call at `now`.
pub open spec fn after_call(s: Seq<i64>, limit: u32, now: i64) -> Seq<i64> {
    if admits(s, limit, now) {
        prune(s, now).push(now)
    } else {
        prune(s, now)
    }
}

/// The answers to a run of calls, one per entry of `times`, in order.
pub open spec fn answers(s: Seq<i64>, limit: u32, times: Seq<i64>) -> Seq<bool>
    decreases times.len(),
{
    if times.len() == 0 {
        Seq::empty()
    } else {
        seq![admits(s, limit, times[0])] + answers(
            after_call(s, limit, times[0]),
            limit,
            times.drop_first(),
        )
    }
}

/// The next minute boundary after `secs` (seconds since the epoch, not negative).
pub open spec fn next_minute(secs: int) -> int {
    secs + 60 - secs % 60
}

/// Counts of the admission window, as reported to status callers.
#[derive(Debug, Clone, Copy, PartialEq, Eq, Structural)]
pub struct RateLimitStats {
    pub limit: u32,
    pub remaining: u32,
    pub used: u32,
    /// Next minute boundary, in seconds since the Unix epoch.
    pub reset: i64,
}

/// Bounds the calls to the remote source within a rolling sixty-second window.
/// Timestamps are milliseconds of the monotonic clock since the limiter was made.
#[derive(Debug)]
pub struct RateLimiter {
    limit: u32,
    origin: Instant,
    requests: Vec<i64>,
}

impl RateLimiter {
    /// The most calls admitted within one window.
    pub closed spec fn spec_limit(&self) -> u32 {
        self.limit
    }

    /// Timestamps (milliseconds) of the admitted calls that may still be in the window.
    pub closed spec fn timestamps(&self) -> Seq<i64> {
        self.requests@
    }

    /// No more timestamps are held than the limit.
    pub open spec fn wf(&self) -> bool {
        self.timestamps().len() <= self.spec_limit() as int
    }

    /// A limiter that admits `requests_per_minute` calls per window.
    pub fn new(requests_per_minute: u32) -> (r: Self)
        ensures
            r.wf(),
            r.spec_limit() == requests_per_minute,
            r.timestamps() == Seq::<i64>::empty(),
    {
        RateLimiter { limit: requests_per_minute, origin: monotonic_now(), requests: Vec::new() }
    }

    /// The configured limit.
    pub fn limit(&self) -> (r: u32)
        ensures
            r == self.spec_limit(),
    {
        self.limit
    }

    /// Keeps the timestamps inside the window at `now`.
    fn pruned(&self, now: i64) -> (r: Vec<i64>)
        ensures
            r@ == prune(self.timestamps(), now),
    {
        let mut kept: Vec<i64> = Vec::new();
        let mut i: usize = 0;
        while i < self.requests.len()
            invariant
                i <= self.requests@.len(),
                kept@ == prune(self.requests@.take(i as int), now),
            decreases self.requests@.len() - i,
        {
            let t = self.requests[i];
            assert(self.requests@.take(i as int + 1).drop_last() == self.requests@.take(i as int));
            if t <= now && (now as i128) - (t as i128) < WINDOW_MILLIS as i128 {
                kept.push(t);
            }
            i = i + 1;
        }
        assert(self.requests@.take(i as int) == self.requests@);
        kept
    }

    /// Admits a call at `now` (milliseconds) if fewer than `limit` admitted calls
    /// remain in the window, and records it; stale timestamps are dropped first.
    pub fn check_and_record_at(&mut self, now: i64) -> (r: bool)
        requires
            old(self).wf(),
        ensures
            final(self).wf(),
            final(self).spec_limit() == old(self).spec_limit(),
            r == admits(old(self).timestamps(), old(self).spec_limit(), now),
            final(self).timestamps() == after_call(
                old(self).timestamps(),
                old(self).spec_limit(),
                now,
            ),
    {
        proof {
            lemma_prune_len(self.requests@, now);
        }
        let mut kept = self.pruned(now);
        if kept.len() < self.limit as usize {
            kept.push(now);
            self.requests = kept;
            true
        } else {
            self.requests = kept;
            false
        }
    }

    /// Milliseconds of the monotonic clock since the limiter was made: the
    /// time scale of its window.
    pub fn monotonic_millis(&self) -> i64 {
        clamp_to_i64(millis_since(&self.origin))
    }

    /// Admits a call now, by the monotonic clock; see `check_and_record_at`.
    pub fn check_and_record(&mut self) -> (r: bool)
        requires
            old(self).wf(),
        ensures
            final(self).wf(),
            final(self).spec_limit() == old(self).spec_limit(),
            exists|now: i64|
                r == admits(old(self).timestamps(), old(self).spec_limit(), now)
                    && final(self).timestamps() == after_call(
                    old(self).timestamps(),
                    old(self).spec_limit(),
                    now,
                ),
    {
        let now = self.monotonic_millis();
        self.check_and_record_at(now)
    }

    /// Whether `r` reports the window at `now` (monotonic milliseconds) and the
    /// wall clock at `wall` (milliseconds since the epoch).
    pub open spec fn reports(&self, r: RateLimitStats, now: i64, wall: i64) -> bool {
        &&& r.limit == self.spec_limit()
        &&& r.used == prune(self.timestamps(), now).len()
        &&& r.remaining == self.spec_limit() - prune(self.timestamps(), now).len()
        &&& r.reset == next_minute(
            if wall < 0 {
                0
            } else {
                secs_of_millis(wall)
            },
        )
    }

    /// Window counts at `now` (monotonic milliseconds): `used` is the number of
    /// admitted calls inside the window, `remaining` what is left of the limit,
    /// and `reset` the next minute boundary of the wall clock read as `wall`
    /// (milliseconds since the epoch).
    pub fn get_stats_at(&self, now: i64, wall: i64) -> (r: RateLimitStats)
        requires
            self.wf(),
        ensures
            self.reports(r, now, wall),
    {
        proof {
            lemma_prune_len(self.requests@, now);
        }
        let kept = self.pruned(now);
        let used = kept.len() as u32;
        let secs: i64 = if wall < 0 {
            0
        } else {
            millis_to_secs(wall)
        };
        RateLimitStats {
            limit: self.limit,
            remaining: self.limit - used,
            used,
            reset: secs + (60 - secs % 60),
        }
    }

    /// Window counts now, by both clocks; see `get_stats_at`.
    pub fn get_stats(&self) -> (r: RateLimitStats)
        requires
            self.wf(),
        ensures
            exists|now: i64, wall: i64| self.reports(r, now, wall),
            r.used <= r.limit,
            r.reset > 0,
    {
        let now = self.monotonic_millis();
        let wall = now_millis();
        proof {
            lemma_prune_len(self.requests@, now);
        }
        let r = self.get_stats_at(now, wall);
        assert(self.reports(r, now, wall));
        r
    }
}

/// Pruning keeps at most what was there.
pub proof fn lemma_prune_len(s: Seq<i64>, now: i64)
    ensures
        prune(s, now).len() <= s.len(),
    decreases s.len(),
{
    if s.len() > 0 {
        lemma_prune_len(s.drop_last(), now);
    }
}

/// Pruning keeps everything when every timestamp is inside the window.
proof fn lemma_prune_all_kept(s: Seq<i64>, now: i64)
    requires
        forall|j: int| 0 <= j < s.len() ==> in_window(#[trigger] s[j], now),
    ensures
        prune(s, now) == s,
    decreases s.len(),
{
    if s.len() > 0 {
        lemma_prune_all_kept(s.drop_last(), now);
        assert(s.drop_last().push(s.last()) == s);
    }
}

/// Over calls that all fall inside one window (nondecreasing times, the last
/// less than a window after the first and after every held timestamp), the
/// answers are `true` until the limit is reached and `false` after.
proof fn lemma_answers_in_window(s: Seq<i64>, limit: u32, times: Seq<i64>)
    requires
        s.len() <= limit as int,
        forall|i: int, j: int| 0 <= i <= j < times.len() ==> times[i] <= times[j],
        times.len() > 0 ==> forall|j: int| 0 <= j < s.len() ==> in_window(#[trigger] s[j], times.last()),
        times.len() > 0 ==> forall|j: int| 0 <= j < times.len() ==> in_window(#[trigger] times[j], times.last()),
        times.len() > 0 ==> forall|j: int| 0 <= j < s.len() ==> #[trigger] s[j] <= times[0],
    ensures
        answers(s, limit, times).len() == times.len(),
        forall|i: int| 0 <= i < times.len() ==> #[trigger] answers(s, limit, times)[i] == (s.len() + i < limit as int),
    decreases times.len(),
{
    if times.len() > 0 {
        let now = times[0];
        assert forall|j: int| 0 <= j < s.len() implies in_window(#[trigger] s[j], now) by {
            assert(times[0] <= times.last());
        }
        lemma_prune_all_kept(s, now);
        let s2 = after_call(s, limit, now);
        let rest = times.drop_first();
        if rest.len() > 0 {
            assert(rest.last() == times.last());
            assert forall|j: int| 0 <= j < s2.len() implies in_window(#[trigger] s2[j], rest.last()) by {
                if j < s.len() {
                } else {
                    assert(s2[j] == now);
                }
            }
            assert forall|j: int| 0 <= j < s2.len() implies #[trigger] s2[j] <= rest[0] by {
                assert(times[0] <= times[1]);
                if j < s.len() {
                } else {
                }
            }
            assert forall|j: int| 0 <= j < rest.len() implies in_window(#[trigger] rest[j], rest.last()) by {
                assert(rest[j] == times[j + 1]);
            }
            assert forall|i: int, j: int| 0 <= i <= j < rest.len() implies rest[i] <= rest[j] by {
                assert(rest[i] == times[i + 1]);
                assert(rest[j] == times[j + 1]);
            }
        }
        lemma_answers_in_window(s2, limit, rest);
        let a = answers(s, limit, times);
        assert forall|i: int| 0 <= i < times.len() implies #[trigger] a[i] == (s.len() + i < limit as int) by {
            if i > 0 {
                assert(a[i] == answers(s2, limit, rest)[i - 1]);
            }
        }
    }
}

/// Starting from an empty window, `limit + 1` calls that all fall within one
/// window are answered `true` exactly `limit` times and then `false`.
pub proof fn admits_exactly_limit(limit: u32, times: Seq<i64>)
    requires
        times.len() == limit as int + 1,
        forall|i: int, j: int| 0 <= i <= j < times.len() ==> times[i] <= times[j],
        (times.last() as int) - (times[0] as int) < WINDOW_MILLIS as int,
    ensures
        forall|i: int| 0 <= i < limit as int ==> #[trigger] answers(Seq::empty(), limit, times)[i],
        !answers(Seq::empty(), limit, times)[limit as int],
{
    assert forall|j: int| 0 <= j < times.len() implies in_window(#[trigger] times[j], times.last()) by {
        assert(times[0] <= times[j]);
    }
    lemma_answers_in_window(Seq::empty(), limit, times);
}

} // verus!
