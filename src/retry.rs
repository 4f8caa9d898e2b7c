use vstd::prelude::*;

verus! {

/// Attempt budget of one retried upstream call: the first attempt plus at most
/// `max_retries` retries.
pub struct RetryState {
    max_retries: u32,
    attempts: u64,
}

impl RetryState {
    pub closed spec fn spec_max_retries(&self) -> u32 {
        self.max_retries
    }

    /// Attempts started so far.
    pub closed spec fn spec_attempts(&self) -> u64 {
        self.attempts
    }

    pub open spec fn wf(&self) -> bool {
        self.spec_attempts() <= self.spec_max_retries() + 1
    }

    pub fn new(max_retries: u32) -> (r: RetryState)
        ensures
            r.wf(),
            r.spec_max_retries() == max_retries,
            r.spec_attempts() == 0,
    {
        RetryState { max_retries, attempts: 0 }
    }

    /// Starts the next attempt when the budget allows one.
    pub fn try_start(&mut self) -> (r: bool)
        requires
            old(self).wf(),
        ensures
            final(self).wf(),
            final(self).spec_max_retries() == old(self).spec_max_retries(),
            r == (old(self).spec_attempts() <= old(self).spec_max_retries()),
            final(self).spec_attempts() == if r { old(self).spec_attempts() + 1 } else { old(self).spec_attempts() as int },
    {
        if self.attempts <= self.max_retries as u64 {
            self.attempts = self.attempts + 1;
            true
        } else {
            false
        }
    }

    /// After a failed attempt: whether to wait and try again. Only errors the caller
    /// deems retryable are retried, and only while retries remain.
    pub fn should_retry(&self, retryable: bool) -> (r: bool)
        ensures
            r == (retryable && self.spec_attempts() <= self.spec_max_retries()),
    {
        retryable && self.attempts <= self.max_retries as u64
    }

    pub fn attempts(&self) -> (r: u64)
        ensures
            r == self.spec_attempts(),
    {
        self.attempts
    }
}

/// Attempts started after `k` calls of `try_start` on a fresh budget of `n` retries.
pub open spec fn started_after(n: u32, k: nat) -> nat
    decreases k,
{
    if k == 0 {
        0
    } else {
        let prev = started_after(n, (k - 1) as nat);
        if prev <= n { prev + 1 } else { prev }
    }
}

/// At most `n + 1` executions: however many times a caller asks to start an attempt,
/// a budget of `n` retries lets at most `n + 1` attempts start.
pub proof fn lemma_at_most_retries_plus_one(n: u32, k: nat)
    ensures
        started_after(n, k) <= n + 1,
        started_after(n, k) <= k,
    decreases k,
{
    if k > 0 {
        lemma_at_most_retries_plus_one(n, (k - 1) as nat);
    }
}

} // verus!
