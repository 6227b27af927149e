//! A sliding-window rate limiter.
//!
//! The limiter remembers the time of every admitted operation that is still
//! inside the trailing window. A check first prunes what has aged out —
//! an entry exactly as old as the window counts as expired — then admits the
//! operation when fewer than `max_requests` admissions remain recorded, and
//! rejects it otherwise. Callers supply the current time.

use vstd::prelude::*;

verus! {

/// Whether an admission recorded at time `t` is still inside the window at
/// time `now`. An entry whose age equals the window is already out.
pub open spec fn is_live(t: u64, now: u64, window: u64) -> bool {
    (if now >= t {
        now - t
    } else {
        0int
    }) < window
}

/// The recorded admission times of `s` that are still inside the window at
/// `now`, in order.
pub open spec fn live_of(s: Seq<u64>, now: u64, window: u64) -> Seq<u64>
    decreases s.len(),
{
    if s.len() == 0 {
        Seq::empty()
    } else {
        let rest = live_of(s.drop_last(), now, window);
        if is_live(s.last(), now, window) {
            rest.push(s.last())
        } else {
            rest
        }
    }
}

/// The mathematical content of a rate limiter.
#[verifier::ext_equal]
pub ghost struct LimiterView {
    pub requests: Seq<u64>,
    pub max_requests: nat,
    pub window: u64,
}

impl LimiterView {
    /// Never more admissions recorded than the limit.
    pub open spec fn wf(self) -> bool {
        self.requests.len() <= self.max_requests
    }

    /// What one admission check at time `now` does: stale entries go, and
    /// the operation is admitted — and `now` recorded — exactly when fewer
    /// than `max_requests` admissions remain.
    pub open spec fn spec_allow(self, now: u64) -> (LimiterView, bool) {
        let pruned = live_of(self.requests, now, self.window);
        if pruned.len() < self.max_requests {
            (
                LimiterView {
                    requests: pruned.push(now),
                    max_requests: self.max_requests,
                    window: self.window,
                },
                true,
            )
        } else {
            (
                LimiterView { requests: pruned, max_requests: self.max_requests, window: self.window },
                false,
            )
        }
    }
}

/// Admission control over a trailing time window.
pub struct RateLimiter {
    requests: Vec<u64>,
    max_requests: usize,
    window: u64,
}

impl View for RateLimiter {
    type V = LimiterView;

    closed spec fn view(&self) -> LimiterView {
        LimiterView {
            requests: self.requests@,
            max_requests: self.max_requests as nat,
            window: self.window,
        }
    }
}

impl RateLimiter {
    /// A limiter admitting at most `max_requests` operations per trailing
    /// `window` of time.
    pub fn new(max_requests: usize, window: u64) -> (r: RateLimiter)
        ensures
            r@.wf(),
            r@.requests.len() == 0,
            r@.max_requests == max_requests,
            r@.window == window,
    {
        RateLimiter { requests: Vec::new(), max_requests, window }
    }

    pub fn max_requests(&self) -> (r: usize)
        ensures
            r == self@.max_requests,
    {
        self.max_requests
    }

    pub fn window(&self) -> (r: u64)
        ensures
            r == self@.window,
    {
        self.window
    }

    /// How many admissions are recorded, stale ones included.
    pub fn recorded_count(&self) -> (r: usize)
        ensures
            r == self@.requests.len(),
    {
        self.requests.len()
    }

    /// Checks whether an operation arriving at time `now` is admitted;
    /// prunes expired entries either way and records `now` on admission.
    pub fn allow(&mut self, now: u64) -> (r: bool)
        requires
            old(self)@.wf(),
        ensures
            final(self)@.wf(),
            final(self)@ == old(self)@.spec_allow(now).0,
            r == old(self)@.spec_allow(now).1,
    {
        let n = self.requests.len();
        let mut kept: Vec<u64> = Vec::new();
        let mut i: usize = 0;
        while i < n
            invariant
                0 <= i <= n,
                n == self.requests@.len(),
                self == old(self),
                kept@ == live_of(self.requests@.subrange(0, i as int), now, self.window),
                kept@.len() <= i,
            decreases n - i,
        {
            proof {
                assert(self.requests@.subrange(0, i + 1).drop_last() =~= self.requests@.subrange(
                    0,
                    i as int,
                ));
            }
            let t = self.requests[i];
            let age: u64 = if now >= t {
                now - t
            } else {
                0
            };
            if age < self.window {
                kept.push(t);
            }
            i = i + 1;
        }
        proof {
            assert(self.requests@.subrange(0, n as int) =~= self.requests@);
        }
        self.requests = kept;
        if self.requests.len() < self.max_requests {
            self.requests.push(now);
            true
        } else {
            false
        }
    }
}

/// A record of entries all still live is left exactly as it is by pruning.
pub proof fn lemma_live_keeps_all(s: Seq<u64>, now: u64, window: u64)
    requires
        forall|i: int| 0 <= i < s.len() ==> is_live(#[trigger] s[i], now, window),
    ensures
        live_of(s, now, window) == s,
    decreases s.len(),
{
    if s.len() > 0 {
        lemma_live_keeps_all(s.drop_last(), now, window);
        assert(live_of(s, now, window) =~= s);
    }
}

/// A record of entries all expired is emptied by pruning.
pub proof fn lemma_live_drops_all(s: Seq<u64>, now: u64, window: u64)
    requires
        forall|i: int| 0 <= i < s.len() ==> !is_live(#[trigger] s[i], now, window),
    ensures
        live_of(s, now, window) == Seq::<u64>::empty(),
    decreases s.len(),
{
    if s.len() > 0 {
        lemma_live_drops_all(s.drop_last(), now, window);
        assert(live_of(s, now, window) =~= Seq::<u64>::empty());
    }
}

/// The state after `k` back-to-back admission checks at one instant `t`,
/// starting from limiter state `v`.
pub open spec fn burst_state(v: LimiterView, t: u64, k: nat) -> LimiterView
    decreases k,
{
    if k == 0 {
        v
    } else {
        burst_state(v, t, (k - 1) as nat).spec_allow(t).0
    }
}

/// Whether every one of `k` back-to-back admission checks at instant `t`,
/// starting from limiter state `v`, is admitted.
pub open spec fn burst_admitted(v: LimiterView, t: u64, k: nat) -> bool
    decreases k,
{
    if k == 0 {
        true
    } else {
        burst_admitted(v, t, (k - 1) as nat) && burst_state(v, t, (k - 1) as nat).spec_allow(t).1
    }
}

/// An empty limiter with a positive window admits `max_requests`
/// instantaneous checks in a row; after them it records exactly that many
/// admissions at that instant.
pub proof fn lemma_burst_all_admitted(v: LimiterView, t: u64, k: nat)
    requires
        v.requests.len() == 0,
        v.window >= 1,
        k <= v.max_requests,
    ensures
        burst_admitted(v, t, k),
        burst_state(v, t, k).requests =~= Seq::new(k, |i: int| t),
        burst_state(v, t, k).max_requests == v.max_requests,
        burst_state(v, t, k).window == v.window,
    decreases k,
{
    if k > 0 {
        lemma_burst_all_admitted(v, t, (k - 1) as nat);
        let prev = burst_state(v, t, (k - 1) as nat);
        lemma_live_keeps_all(prev.requests, t, v.window);
        assert(burst_state(v, t, k).requests =~= Seq::new(k, |i: int| t));
    }
}

/// After an empty limiter with a positive window has admitted
/// `max_requests` checks at one instant, the very next check at that
/// instant is rejected; and a later check, once at least a full window has
/// passed, is admitted again.
pub proof fn lemma_burst_then_reject_then_recover(v: LimiterView, t: u64, later: u64)
    requires
        v.requests.len() == 0,
        v.window >= 1,
        v.max_requests >= 1,
        later >= t + v.window,
    ensures
        !burst_state(v, t, v.max_requests).spec_allow(t).1,
        burst_state(v, t, v.max_requests).spec_allow(t).0.spec_allow(later).1,
{
    lemma_burst_all_admitted(v, t, v.max_requests);
    let full = burst_state(v, t, v.max_requests);
    lemma_live_keeps_all(full.requests, t, v.window);
    let rejected = full.spec_allow(t).0;
    assert(forall|i: int|
        0 <= i < rejected.requests.len() ==> !is_live(#[trigger] rejected.requests[i], later, v.window));
    lemma_live_drops_all(rejected.requests, later, v.window);
}

} // verus!
