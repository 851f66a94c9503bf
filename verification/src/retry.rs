//! The retry policy of the fetch client: exponential backoff from a small
//! initial interval, under a hard ceiling on the total time spent waiting.
//! The client performs the requests and the sleeps; this module makes every
//! decision, so the decisions are what is checked.

use vstd::prelude::*;
use crate::error::{FetchErrorKind, spec_is_retryable};

verus! {

/// The interval the first retry waits, in milliseconds.
pub const INITIAL_RETRY_INTERVAL_MS: u64 = 10;

/// The ceiling on the total waiting time of one fetch, in milliseconds.
pub const MAX_RETRY_ELAPSED_MS: u64 = 3000;

/// A backoff policy: the first waiting interval and the ceiling on the
/// total waiting time.
#[derive(Debug, Clone, Copy, PartialEq, Eq, Structural)]
pub struct RetryPolicy {
    pub initial_interval_ms: u64,
    pub max_elapsed_ms: u64,
}

impl RetryPolicy {
    /// A usable policy: a positive first interval within the ceiling, and
    /// a ceiling small enough that no waiting sum can overflow.
    pub open spec fn wf(&self) -> bool {
        &&& 1 <= self.initial_interval_ms
        &&& self.initial_interval_ms <= self.max_elapsed_ms
        &&& self.max_elapsed_ms <= 1_000_000_000
    }

    /// The policy every fetch runs under.
    pub fn standard() -> (r: RetryPolicy)
        ensures
            r.initial_interval_ms == INITIAL_RETRY_INTERVAL_MS,
            r.max_elapsed_ms == MAX_RETRY_ELAPSED_MS,
            r.wf(),
    {
        RetryPolicy {
            initial_interval_ms: INITIAL_RETRY_INTERVAL_MS,
            max_elapsed_ms: MAX_RETRY_ELAPSED_MS,
        }
    }
}

/// What the policy orders after a failed attempt: wait and try again, or
/// give up.
#[derive(Debug, Clone, Copy, PartialEq, Eq, Structural)]
pub enum RetryDecision {
    RetryAfter { delay_ms: u64 },
    GiveUp,
}

/// The standing of one fetch between attempts: its policy, the interval
/// the next retry would wait, and the waiting already ordered.
#[derive(Debug, Clone, Copy, PartialEq, Eq, Structural)]
pub struct RetryState {
    pub policy: RetryPolicy,
    pub next_interval_ms: u64,
    pub slept_ms: u64,
}

impl RetryState {
    /// The standing a fetch can be in: the interval is positive and within
    /// the ceiling, and the ordered waiting never exceeds the ceiling.
    pub open spec fn wf(&self) -> bool {
        &&& self.policy.wf()
        &&& 1 <= self.next_interval_ms <= self.policy.max_elapsed_ms
        &&& self.slept_ms <= self.policy.max_elapsed_ms
    }

    /// Starts a fetch under a policy.
    pub fn new(policy: RetryPolicy) -> (r: RetryState)
        requires
            policy.wf(),
        ensures
            r.wf(),
            r.policy == policy,
            r.slept_ms == 0,
            r.next_interval_ms == policy.initial_interval_ms,
    {
        RetryState { policy: policy, next_interval_ms: policy.initial_interval_ms, slept_ms: 0 }
    }

    /// Decides on a retryable failure: answers with a wait, and doubles
    /// the next interval, as long as the ceiling allows it.
    pub fn on_failure(&mut self, kind: &FetchErrorKind) -> (d: RetryDecision)
        requires
            old(self).wf(),
        ensures
            final(self).wf(),
            !spec_is_retryable(*kind) ==> d == RetryDecision::GiveUp && *final(self) == *old(self),
            spec_is_retryable(*kind) ==> (*final(self), d) == spec_on_failure(*old(self)),
            (d is GiveUp) == (!spec_is_retryable(*kind) || old(self).slept_ms + old(
                self,
            ).next_interval_ms > old(self).policy.max_elapsed_ms),
    {
        if !kind.is_retryable() {
            return RetryDecision::GiveUp;
        }
        let budget = self.policy.max_elapsed_ms;
        if self.slept_ms + self.next_interval_ms > budget {
            return RetryDecision::GiveUp;
        }
        let delay = self.next_interval_ms;
        self.slept_ms = self.slept_ms + delay;
        self.next_interval_ms = if self.next_interval_ms > budget / 2 {
            budget
        } else {
            self.next_interval_ms * 2
        };
        RetryDecision::RetryAfter { delay_ms: delay }
    }
}

/// The doubled interval, capped at the ceiling.
pub open spec fn spec_double(n: int, max: int) -> int {
    if 2 * n > max {
        max
    } else {
        2 * n
    }
}

/// What a retryable failure does to the standing of a fetch: within the
/// ceiling, a wait of the pending interval is ordered and the interval
/// doubles; beyond it, the fetch gives up unchanged.
pub open spec fn spec_on_failure(s: RetryState) -> (RetryState, RetryDecision) {
    if s.slept_ms + s.next_interval_ms > s.policy.max_elapsed_ms {
        (s, RetryDecision::GiveUp)
    } else {
        (
            RetryState {
                policy: s.policy,
                next_interval_ms: spec_double(
                    s.next_interval_ms as int,
                    s.policy.max_elapsed_ms as int,
                ) as u64,
                slept_ms: (s.slept_ms + s.next_interval_ms) as u64,
            },
            RetryDecision::RetryAfter { delay_ms: s.next_interval_ms },
        )
    }
}

/// The standing after some number of retryable failures; giving up freezes
/// the standing.
pub open spec fn spec_failures(s: RetryState, n: nat) -> RetryState
    decreases n,
{
    if n == 0 {
        s
    } else {
        spec_on_failure(spec_failures(s, (n - 1) as nat)).0
    }
}

/// Law: a fetch whose first two attempts fail retryably and whose third
/// succeeds makes exactly three attempts — the policy answers the first
/// failure with a wait of the initial interval and the second with a wait
/// of the doubled interval, never giving up — and the total ordered
/// waiting, three times the initial interval, stays under the ceiling.
pub proof fn lemma_two_failures_then_success(s0: RetryState)
    requires
        s0.wf(),
        s0.slept_ms == 0,
        s0.next_interval_ms == s0.policy.initial_interval_ms,
        3 * s0.policy.initial_interval_ms <= s0.policy.max_elapsed_ms,
    ensures
        spec_on_failure(s0).1 == (RetryDecision::RetryAfter {
            delay_ms: s0.policy.initial_interval_ms,
        }),
        spec_on_failure(spec_on_failure(s0).0).1 == (RetryDecision::RetryAfter {
            delay_ms: (2 * s0.policy.initial_interval_ms) as u64,
        }),
        spec_on_failure(spec_on_failure(s0).0).0.slept_ms == 3 * s0.policy.initial_interval_ms,
        spec_on_failure(spec_on_failure(s0).0).0.slept_ms <= s0.policy.max_elapsed_ms,
{
    let s1 = spec_on_failure(s0).0;
    assert(s1.slept_ms == s0.policy.initial_interval_ms);
    assert(s1.next_interval_ms == 2 * s0.policy.initial_interval_ms);
}

/// The standing stays well-formed and, until the fetch gives up, the
/// ordered waiting grows by at least one millisecond per failure.
proof fn lemma_failures_progress(s: RetryState, n: nat)
    requires
        s.wf(),
    ensures
        spec_failures(s, n).wf(),
        spec_failures(s, n).policy == s.policy,
        (spec_on_failure(spec_failures(s, n)).1 is GiveUp) || spec_failures(s, n).slept_ms >= n,
        (spec_on_failure(spec_failures(s, n)).1 is GiveUp) ==> spec_on_failure(
            spec_failures(s, (n + 1) as nat),
        ).1 is GiveUp,
    decreases n,
{
    if n > 0 {
        lemma_failures_progress(s, (n - 1) as nat);
    }
}

/// Law: a fetch that fails retryably on every attempt gives up once the
/// ceiling is passed: after at most as many failures as the ceiling has
/// milliseconds, every further failure is answered with giving up, and the
/// ordered waiting never exceeds the ceiling.
pub proof fn lemma_gives_up_past_ceiling(s: RetryState, n: nat)
    requires
        s.wf(),
        n >= s.policy.max_elapsed_ms,
    ensures
        spec_on_failure(spec_failures(s, n)).1 is GiveUp,
        spec_failures(s, n).slept_ms <= s.policy.max_elapsed_ms,
    decreases n,
{
    lemma_failures_progress(s, n);
    let sn = spec_failures(s, n);
    if !(spec_on_failure(sn).1 is GiveUp) {
        assert(sn.slept_ms >= n);
        assert(sn.slept_ms + sn.next_interval_ms > sn.policy.max_elapsed_ms);
    }
}

} // verus!
