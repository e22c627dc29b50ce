//! Token-accounting admission gate.
//!
//! One [`ApiRateLimiter`] is shared by every concurrent caller of a client
//! instance. The limiter itself is pure bookkeeping over plain values: a
//! caller asks it whether a request may go out now (`check`), and either
//! proceeds or sleeps until the instant the limiter names and asks again.
//! Blocking, clocks and mutual exclusion belong to the embedding host; the
//! accounting below is what makes bursts beyond the configured capacity
//! impossible, whatever the host's scheduling looks like.

use vstd::prelude::*;

use crate::errors::CoreError;

verus! {

/// Milliseconds in one admission window.
pub const WINDOW_MS: u64 = 1000;

/// What `check` tells its caller: the request is admitted now, or no token
/// is left and the caller should ask again once the named instant (in the
/// caller's clock, milliseconds) has passed.
#[derive(Debug, Clone, Copy, PartialEq, Eq, Structural)]
pub enum CheckOutcome {
    Admitted,
    RetryAtMs(u64),
}

/// Admission gate issuing at most `requests_per_second` tokens per window.
///
/// A window opens at the instant of its first admission and lasts
/// [`WINDOW_MS`] milliseconds; within one window at most
/// `requests_per_second` requests are admitted.
pub struct ApiRateLimiter {
    requests_per_second: u32,
    window_start_ms: u64,
    admitted_in_window: u32,
}

impl ApiRateLimiter {
    /// Requests-per-second capacity this limiter was built with.
    pub closed spec fn quota(&self) -> u32 {
        self.requests_per_second
    }

    /// Instant (caller clock, ms) at which the current window opened.
    pub closed spec fn window_start(&self) -> u64 {
        self.window_start_ms
    }

    /// Admissions issued in the current window; zero only before the first.
    pub closed spec fn admitted(&self) -> u32 {
        self.admitted_in_window
    }

    /// Internal consistency: positive capacity, the window never
    /// over-issued, and the window start leaves room for one more window.
    pub open spec fn wf(&self) -> bool {
        &&& self.quota() >= 1
        &&& self.admitted() <= self.quota()
        &&& self.window_start() <= u64::MAX - WINDOW_MS
    }

    /// Create a limiter with the given requests-per-second quota.
    ///
    /// A quota of zero is a configuration error and creates no limiter.
    pub fn new(requests_per_second: u32) -> (r: Result<ApiRateLimiter, CoreError>)
        ensures
            requests_per_second == 0 <==> r is Err,
            r is Err ==> r == Result::<ApiRateLimiter, CoreError>::Err(CoreError::ConfigurationError),
            r matches Ok(l) ==> l.wf() && l.quota() == requests_per_second && l.admitted() == 0,
    {
        if requests_per_second == 0 {
            return Err(CoreError::ConfigurationError);
        }
        Ok(ApiRateLimiter { requests_per_second, window_start_ms: 0, admitted_in_window: 0 })
    }

    /// One admission step: `pre` at instant `now_ms` becomes `post` and the
    /// request is let through. Either the request opens a fresh window (the
    /// first ever, or one whole window after the current one opened), or it
    /// takes one of the tokens the current window still has.
    pub open spec fn admission(pre: ApiRateLimiter, now_ms: u64, post: ApiRateLimiter) -> bool {
        &&& pre.wf() && post.wf()
        &&& post.quota() == pre.quota()
        &&& if pre.admitted() == 0 || now_ms >= pre.window_start() + WINDOW_MS {
            post.window_start() == now_ms && post.admitted() == 1
        } else {
            &&& pre.admitted() < pre.quota()
            &&& post.window_start() == pre.window_start()
            &&& post.admitted() == pre.admitted() + 1
        }
    }

    /// Ask for a token at instant `now_ms` (caller clock, milliseconds).
    ///
    /// Admits and records the request while the current window has capacity
    /// (or a new window can open); otherwise leaves the limiter unchanged
    /// and names the instant at which the current window closes.
    pub fn check(&mut self, now_ms: u64) -> (r: CheckOutcome)
        requires
            old(self).wf(),
            now_ms <= u64::MAX - WINDOW_MS,
        ensures
            final(self).wf(),
            r == CheckOutcome::Admitted <==> (old(self).admitted() == 0
                || now_ms >= old(self).window_start() + WINDOW_MS
                || old(self).admitted() < old(self).quota()),
            r == CheckOutcome::Admitted ==> Self::admission(*old(self), now_ms, *final(self)),
            r is RetryAtMs ==> *final(self) == *old(self)
                && r == CheckOutcome::RetryAtMs((old(self).window_start() + WINDOW_MS) as u64)
                && old(self).admitted() == old(self).quota()
                && now_ms < old(self).window_start() + WINDOW_MS,
    {
        if self.admitted_in_window == 0 || now_ms >= self.window_start_ms + WINDOW_MS {
            self.window_start_ms = now_ms;
            self.admitted_in_window = 1;
            CheckOutcome::Admitted
        } else if self.admitted_in_window < self.requests_per_second {
            self.admitted_in_window = self.admitted_in_window + 1;
            CheckOutcome::Admitted
        } else {
            CheckOutcome::RetryAtMs(self.window_start_ms + WINDOW_MS)
        }
    }
}

/// A run of admitted requests through one limiter: `states[0]` is a fresh
/// limiter, step `j` turns `states[j]` into `states[j + 1]` by admitting a
/// request at instant `times[j]`, and instants never decrease.
pub open spec fn admission_trace(states: Seq<ApiRateLimiter>, times: Seq<u64>) -> bool {
    &&& states.len() == times.len() + 1
    &&& states[0].wf()
    &&& states[0].admitted() == 0
    &&& forall|j: int|
        0 <= j < times.len() ==> ApiRateLimiter::admission(
            states[j],
            #[trigger] times[j],
            states[j + 1],
        )
    &&& forall|j: int| 0 <= j < times.len() - 1 ==> #[trigger] times[j] <= times[j + 1]
}

/// How many of the first `n` steps of the run opened a new window. A step
/// opens a window exactly when it leaves one admission recorded in it.
pub open spec fn reset_count(states: Seq<ApiRateLimiter>, n: int) -> int
    decreases n,
{
    if n <= 0 {
        0
    } else {
        reset_count(states, n - 1) + if states[n].admitted() == 1 {
            1int
        } else {
            0int
        }
    }
}

/// Bookkeeping carried along an admission trace: after `n` steps the quota
/// is unchanged, at least one window has opened, the current window opened
/// no earlier than one whole window per preceding reset, no later than the
/// last admission, and the `n` admissions fit in the windows opened so far.
proof fn lemma_admission_trace_invariant(states: Seq<ApiRateLimiter>, times: Seq<u64>, n: int)
    requires
        admission_trace(states, times),
        1 <= n <= times.len(),
    ensures
        states[n].wf(),
        states[n].quota() == states[0].quota(),
        1 <= states[n].admitted(),
        1 <= reset_count(states, n),
        states[n].window_start() >= times[0] + WINDOW_MS * (reset_count(states, n) - 1),
        states[n].window_start() <= times[n - 1],
        n <= states[0].quota() * (reset_count(states, n) - 1) + states[n].admitted(),
    decreases n,
{
    let q = states[0].quota() as int;
    if n == 1 {
        assert(ApiRateLimiter::admission(states[0], times[0], states[1]));
        assert(reset_count(states, 1) == 1);
    } else {
        lemma_admission_trace_invariant(states, times, n - 1);
        let r = reset_count(states, n - 1);
        let pre = states[n - 1];
        let post = states[n];
        assert(ApiRateLimiter::admission(pre, times[n - 1], post));
        assert(times[n - 2] <= times[n - 1]);
        if pre.admitted() == 0 || times[n - 1] >= pre.window_start() + WINDOW_MS {
            // The step opened a new window at the instant of this admission.
            assert(post.admitted() == 1);
            assert(reset_count(states, n) == r + 1);
            assert(post.window_start() >= times[0] + WINDOW_MS * r) by {
                assert(pre.window_start() >= times[0] + WINDOW_MS * (r - 1));
                assert(WINDOW_MS * r == WINDOW_MS * (r - 1) + WINDOW_MS) by {
                    vstd::arithmetic::mul::lemma_mul_is_distributive_sub(
                        WINDOW_MS as int,
                        r,
                        1,
                    );
                }
            }
            assert(n <= q * r + 1) by {
                assert(n - 1 <= q * (r - 1) + pre.admitted());
                assert(pre.admitted() <= q);
                assert(q * r == q * (r - 1) + q) by {
                    vstd::arithmetic::mul::lemma_mul_is_distributive_sub(q, r, 1);
                }
            }
        } else {
            // The step spent one of the current window's remaining tokens.
            assert(post.admitted() == pre.admitted() + 1 && post.admitted() >= 2);
            assert(reset_count(states, n) == r);
        }
    }
}

/// Rate law: along any run of admitted requests from a fresh limiter with
/// quota `q`, the admission with zero-based index `i` happens no earlier
/// than `WINDOW_MS * (i / q)` milliseconds after the first one, so issuing
/// `N` sequential requests takes at least `(N - 1) / q` whole windows —
/// a burst beyond the configured capacity is impossible.
pub proof fn lemma_rate_bound(states: Seq<ApiRateLimiter>, times: Seq<u64>, i: int)
    requires
        admission_trace(states, times),
        0 <= i < times.len(),
    ensures
        times[i] >= times[0] + WINDOW_MS * (i / (states[0].quota() as int)),
{
    lemma_admission_trace_invariant(states, times, i + 1);
    let q = states[0].quota() as int;
    let r = reset_count(states, i + 1);
    let d = i / q;
    // i + 1 admissions fit in r windows of q tokens, so r > i / q.
    assert(i + 1 <= q * r) by {
        assert(i + 1 <= q * (r - 1) + states[i + 1].admitted());
        assert(states[i + 1].admitted() <= q);
        vstd::arithmetic::mul::lemma_mul_is_distributive_sub(q, r, 1);
    }
    vstd::arithmetic::div_mod::lemma_fundamental_div_mod(i, q);
    vstd::arithmetic::div_mod::lemma_mod_bound(i, q);
    if r - 1 < d {
        vstd::arithmetic::mul::lemma_mul_inequality(r, d, q);
        assert(q * r == r * q && q * d == d * q) by {
            vstd::arithmetic::mul::lemma_mul_is_commutative(q, r);
            vstd::arithmetic::mul::lemma_mul_is_commutative(q, d);
        }
        assert(false);
    }
    vstd::arithmetic::mul::lemma_mul_inequality(d, r - 1, WINDOW_MS as int);
    assert(WINDOW_MS * d == d * WINDOW_MS && WINDOW_MS * (r - 1) == (r - 1) * WINDOW_MS) by {
        vstd::arithmetic::mul::lemma_mul_is_commutative(WINDOW_MS as int, d);
        vstd::arithmetic::mul::lemma_mul_is_commutative(WINDOW_MS as int, r - 1);
    }
    assert(times[i] >= states[i + 1].window_start());
}

} // verus!
