//! Bounded retry with growing delays, for calls to the indexing service.

use vstd::prelude::*;

verus! {

/// How often a call is tried and how long to wait in between. Delays are
/// milliseconds.
#[derive(Debug, Clone, Copy, PartialEq, Eq, Structural)]
pub struct RetryPolicy {
    /// How many attempts are made at most.
    pub max_attempts: u32,
    /// The wait before the first attempt.
    pub initial_delay_ms: u64,
    /// The part of the wait after a failure that does not grow.
    pub base_delay_ms: u64,
    /// By how much the wait grows with each failure.
    pub step_delay_ms: u64,
}

/// What to do after a failed attempt.
#[derive(Debug, Clone, Copy, PartialEq, Eq, Structural)]
pub enum RetryStep {
    /// Wait this long, then try again.
    RetryAfter(u64),
    /// The attempts are used up: report the last error.
    GiveUp,
}

/// The policy of a configuration fetch: three attempts, the wait growing by
/// half a second with each failure.
pub fn config_fetch_policy() -> (out: RetryPolicy)
    ensures
        out == (RetryPolicy {
            max_attempts: 3,
            initial_delay_ms: 0,
            base_delay_ms: 0,
            step_delay_ms: 500,
        }),
{
    RetryPolicy { max_attempts: 3, initial_delay_ms: 0, base_delay_ms: 0, step_delay_ms: 500 }
}

/// The policy of a queued configuration change: three attempts, the wait
/// growing by half a second with each failure.
pub fn config_change_policy() -> (out: RetryPolicy)
    ensures
        out == (RetryPolicy {
            max_attempts: 3,
            initial_delay_ms: 0,
            base_delay_ms: 0,
            step_delay_ms: 500,
        }),
{
    RetryPolicy { max_attempts: 3, initial_delay_ms: 0, base_delay_ms: 0, step_delay_ms: 500 }
}

/// The policy of the refresh that follows a drained queue: three attempts,
/// a second before each, and after a failure as many more seconds as there
/// were failures.
pub fn refresh_policy() -> (out: RetryPolicy)
    ensures
        out == (RetryPolicy {
            max_attempts: 3,
            initial_delay_ms: 1000,
            base_delay_ms: 1000,
            step_delay_ms: 1000,
        }),
{
    RetryPolicy {
        max_attempts: 3,
        initial_delay_ms: 1000,
        base_delay_ms: 1000,
        step_delay_ms: 1000,
    }
}

/// The policy of the first fetch at startup: thirty attempts, a second apart.
pub fn startup_policy() -> (out: RetryPolicy)
    ensures
        out == (RetryPolicy {
            max_attempts: 30,
            initial_delay_ms: 0,
            base_delay_ms: 1000,
            step_delay_ms: 0,
        }),
{
    RetryPolicy { max_attempts: 30, initial_delay_ms: 0, base_delay_ms: 1000, step_delay_ms: 0 }
}

impl RetryPolicy {
    /// The wait after `failures` failed attempts.
    pub open spec fn delay_after(self, failures: u32) -> int {
        self.base_delay_ms + self.step_delay_ms * failures
    }

    /// What to do after the attempt that brought the number of failures to
    /// `failures`: give up once the attempts are used up, else wait and try
    /// again.
    pub open spec fn step_after(self, failures: u32) -> RetryStep {
        if failures >= self.max_attempts {
            RetryStep::GiveUp
        } else {
            RetryStep::RetryAfter(self.delay_after(failures) as u64)
        }
    }

    /// What to do after the attempt that brought the number of failures to
    /// `failures`.
    pub fn after_failure(&self, failures: u32) -> (out: RetryStep)
        requires
            failures < self.max_attempts ==> self.delay_after(failures) <= u64::MAX,
        ensures
            out == self.step_after(failures),
    {
        if failures >= self.max_attempts {
            RetryStep::GiveUp
        } else {
            let grown: u128 = self.step_delay_ms as u128 * failures as u128;
            assert(grown == self.step_delay_ms * failures) by (nonlinear_arith)
                requires
                    grown == self.step_delay_ms as int * failures as int,
            ;
            let delay: u128 = self.base_delay_ms as u128 + grown;
            RetryStep::RetryAfter(delay as u64)
        }
    }
}

/// The waits of a policy never shrink from one failure to the next.
pub proof fn lemma_delays_grow(policy: RetryPolicy, earlier: u32, later: u32)
    requires
        earlier <= later,
    ensures
        policy.delay_after(earlier) <= policy.delay_after(later),
{
    assert(policy.step_delay_ms * earlier <= policy.step_delay_ms * later) by (nonlinear_arith)
        requires
            earlier <= later,
            0 <= policy.step_delay_ms,
    ;
}

} // verus!
