//! The per-connection rate budget: every outbound command is logged with
//! its grant time, and a command is granted only when fewer than the
//! configured limit were granted within the last interval. Within any
//! window as long as the interval, at most `limit` commands go out.

use vstd::prelude::*;

verus! {

/// Grant times never decrease.
pub open spec fn sorted(h: Seq<u64>) -> bool {
    forall|i: int, j: int| 0 <= i <= j < h.len() ==> h[i] <= h[j]
}

/// Any `limit + 1` consecutive grants span at least `interval`.
pub open spec fn spaced(h: Seq<u64>, limit: int, interval: int) -> bool {
    forall|i: int| 0 <= i && i + limit < h.len() ==> #[trigger] h[i + limit] as int >= h[i] as int
        + interval
}

/// The least index whose grant time is at or after `t`; the length when
/// every grant is earlier.
pub open spec fn first_at_or_after(h: Seq<u64>, t: int) -> int
    decreases h.len(),
{
    if h.len() == 0 {
        0
    } else if h[0] as int >= t {
        0
    } else {
        1 + first_at_or_after(h.drop_first(), t)
    }
}

/// How many grants fall in the half-open window `[t, t + interval)`,
/// counted on a sorted grant log.
pub open spec fn count_in_window(h: Seq<u64>, t: int, interval: int) -> int {
    first_at_or_after(h, t + interval) - first_at_or_after(h, t)
}

pub proof fn lemma_first_at_or_after_props(h: Seq<u64>, t: int)
    ensures
        0 <= first_at_or_after(h, t) <= h.len(),
        forall|k: int| 0 <= k < first_at_or_after(h, t) ==> (h[k] as int) < t,
        first_at_or_after(h, t) < h.len() ==> h[first_at_or_after(h, t)] as int >= t,
    decreases h.len(),
{
    if h.len() == 0 {
    } else if h[0] as int >= t {
    } else {
        lemma_first_at_or_after_props(h.drop_first(), t);
        let r = first_at_or_after(h, t);
        assert forall|k: int| 0 <= k < r implies (h[k] as int) < t by {
            if k >= 1 {
                assert(h.drop_first()[k - 1] == h[k]);
            }
        }
        if r < h.len() {
            assert(h.drop_first()[r - 1] == h[r]);
        }
    }
}

/// A token budget bounding outbound command frequency: at most `limit`
/// grants within any window of `interval_ms` milliseconds.
pub struct RateBudget {
    /// The exchange's documented uplink limit; always positive.
    pub limit: usize,
    /// The length of the rate window, in milliseconds.
    pub interval_ms: u64,
    /// The grant log: the time of every command granted so far.
    pub grants: Vec<u64>,
}

impl RateBudget {
    pub open spec fn well_formed(&self) -> bool {
        &&& self.limit > 0
        &&& sorted(self.grants@)
        &&& spaced(self.grants@, self.limit as int, self.interval_ms as int)
    }

    /// Whether `now` is at or after the newest grant; callers feed a
    /// monotone clock.
    pub open spec fn clock_ok(&self, now: u64) -> bool {
        self.grants@.len() == 0 || self.grants@[self.grants@.len() - 1] <= now
    }

    /// Whether a command asked for at time `now` would be granted: fewer
    /// than `limit` grants so far, or the oldest grant still inside the
    /// window has aged out of it.
    pub open spec fn would_grant(&self, now: u64) -> bool {
        ||| self.grants@.len() < self.limit
        ||| now as int >= self.grants@[self.grants@.len() - self.limit] as int
            + self.interval_ms as int
    }

    pub fn new(limit: usize, interval_ms: u64) -> (b: RateBudget)
        requires
            limit > 0,
        ensures
            b.well_formed(),
            b.limit == limit,
            b.interval_ms == interval_ms,
            b.grants@ == Seq::<u64>::empty(),
    {
        RateBudget { limit, interval_ms, grants: Vec::new() }
    }

    /// Grants a command at time `now` when the window has room, logging
    /// it; otherwise changes nothing.
    pub fn try_acquire(&mut self, now: u64) -> (granted: bool)
        requires
            old(self).well_formed(),
            old(self).clock_ok(now),
        ensures
            final(self).well_formed(),
            final(self).limit == old(self).limit,
            final(self).interval_ms == old(self).interval_ms,
            final(self).clock_ok(now),
            granted == old(self).would_grant(now),
            granted ==> final(self).grants@ == old(self).grants@.push(now),
            !granted ==> final(self).grants@ == old(self).grants@,
    {
        let n = self.grants.len();
        if n < self.limit {
            self.grants.push(now);
            return true;
        }
        let oldest_in_window = self.grants[n - self.limit];
        if now - oldest_in_window >= self.interval_ms {
            self.grants.push(now);
            true
        } else {
            false
        }
    }

    /// How many were granted in the window starting at `t`.
    pub open spec fn spec_count_in_window(&self, t: int) -> int {
        count_in_window(self.grants@, t, self.interval_ms as int)
    }
}

/// The rate-limit law: whatever sequence of calls filled the grant log,
/// the number of commands granted within any window equal to the rate
/// interval never exceeds the configured limit.
pub proof fn lemma_rate_window_bound(b: &RateBudget, t: int)
    requires
        b.well_formed(),
    ensures
        b.spec_count_in_window(t) <= b.limit as int,
{
    let h = b.grants@;
    let interval = b.interval_ms as int;
    let limit = b.limit as int;
    let a = first_at_or_after(h, t);
    let c = first_at_or_after(h, t + interval);
    lemma_first_at_or_after_props(h, t);
    lemma_first_at_or_after_props(h, t + interval);
    if c - a > limit {
        let j = a + limit;
        assert(0 <= a < h.len());
        assert(j < c <= h.len());
        assert(h[j] as int >= h[a] as int + interval);
        assert((h[a] as int) >= t);
        assert((h[j] as int) < t + interval);
        assert(false);
    }
}

} // verus!
