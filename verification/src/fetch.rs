use vstd::prelude::*;

verus! {

/// How transport-level download failures are retried: after the n-th failure
/// a task waits n × `backoff_unit_ms` milliseconds and tries again, until
/// more than `max_attempts` failures have been counted; then it gives up and
/// the whole run fails.
pub struct RetryPolicy {
    /// How many retries a task is granted after its first failure.
    pub max_attempts: u64,
    /// The backoff delay grows by this many milliseconds per failure.
    pub backoff_unit_ms: u64,
}

impl RetryPolicy {
    /// Small enough that every backoff product fits in u64.
    pub open spec fn wf(self) -> bool {
        self.max_attempts < 0x10000 && self.backoff_unit_ms < 0x10000
    }

    /// The documented default: 5 retries with a 250 ms backoff unit.
    pub fn standard() -> (r: Self)
        ensures
            r == (RetryPolicy { max_attempts: 5, backoff_unit_ms: 250 }),
            r.wf(),
    {
        RetryPolicy { max_attempts: 5, backoff_unit_ms: 250 }
    }
}

/// What a fetch task does after one more transport-level failure: wait and
/// try again, or give up, which aborts the whole run.
#[derive(Debug, PartialEq, Eq, Structural)]
pub enum FetchStep {
    /// Try again after this many milliseconds.
    Retry { delay_ms: u64 },
    /// The retry ceiling is exceeded; the run fails.
    Abort,
}

/// The decision owed after the `attempts`-th transport failure of one task.
pub open spec fn step_spec(policy: RetryPolicy, attempts: int) -> FetchStep {
    if attempts > policy.max_attempts {
        FetchStep::Abort
    } else {
        FetchStep::Retry { delay_ms: (attempts * policy.backoff_unit_ms) as u64 }
    }
}

/// The transport-failure counter of one fetch task.
pub struct FetchAttempts {
    /// Transport failures seen so far.
    pub attempts: u64,
}

impl FetchAttempts {
    /// A task that has not failed yet.
    pub fn new() -> (r: Self)
        ensures
            r.attempts == 0,
    {
        FetchAttempts { attempts: 0 }
    }

    /// Counts one more transport-level failure and decides what follows:
    /// retry after a delay proportional to the failure count while the
    /// policy allows it, abort once the ceiling is exceeded.
    pub fn on_transport_failure(&mut self, policy: &RetryPolicy) -> (r: FetchStep)
        requires
            policy.wf(),
            old(self).attempts <= policy.max_attempts,
        ensures
            final(self).attempts == old(self).attempts + 1,
            r == step_spec(*policy, final(self).attempts as int),
    {
        proof {
            let a = old(self).attempts as int;
            let b = policy.backoff_unit_ms as int;
            assert((a + 1) * b < 0x100000000int) by (nonlinear_arith)
                requires
                    0 <= a < 0x10000,
                    0 <= b < 0x10000,
            ;
        }
        self.attempts = self.attempts + 1;
        if self.attempts > policy.max_attempts {
            FetchStep::Abort
        } else {
            FetchStep::Retry { delay_ms: self.attempts * policy.backoff_unit_ms }
        }
    }
}

/// The decisions a source that fails every transport attempt drives one task
/// through, starting with `attempts` failures already counted: a growing
/// backoff for each granted retry, then the abort.
pub open spec fn failing_decisions(policy: RetryPolicy, attempts: int) -> Seq<FetchStep>
    decreases policy.max_attempts - attempts,
{
    let step = step_spec(policy, attempts + 1);
    if step is Abort {
        seq![step]
    } else {
        seq![step] + failing_decisions(policy, attempts + 1)
    }
}

/// Retry bound: under the standard policy a source that fails every
/// transport attempt is tried 6 times in all — the first attempt and
/// exactly 5 retries, delayed 250, 500, 750, 1000 and 1250 ms — before the
/// run reports fatal failure.
pub proof fn lemma_retry_bound()
    ensures
        failing_decisions(RetryPolicy { max_attempts: 5, backoff_unit_ms: 250 }, 0) =~= seq![
            FetchStep::Retry { delay_ms: 250 },
            FetchStep::Retry { delay_ms: 500 },
            FetchStep::Retry { delay_ms: 750 },
            FetchStep::Retry { delay_ms: 1000 },
            FetchStep::Retry { delay_ms: 1250 },
            FetchStep::Abort,
        ],
{
    reveal_with_fuel(failing_decisions, 8);
}

} // verus!
