//! Failure containment for the enrichment run: the bounded per-entry
//! retry policy and the run-level circuit breaker. The outside work — a
//! render through the browser, recreating a session — happens in the
//! unverified shell; the decisions stand here.

use vstd::prelude::*;

verus! {

/// Render attempts allowed per entry before giving up on that entry.
pub const MAX_RENDER_ATTEMPTS: u32 = 10;

/// Consecutive entry-level failures that abort the whole run.
pub const MAX_CONSECUTIVE_FAILURES: u32 = 5;

/// What the run does after an entry-level failure.
#[derive(Clone, Copy, PartialEq, Eq, Structural, Debug)]
pub enum RunDecision {
    /// Drop only this entry and continue with the next.
    SkipEntry,
    /// Sustained failure: treat the remote site as unreachable and stop.
    Abort,
}

/// The trailing run of entry-level failures in an outcome history, where
/// `true` marks a success.
pub open spec fn consecutive_failures(events: Seq<bool>) -> int
    decreases events.len(),
{
    if events.len() == 0 {
        0
    } else if events.last() {
        0
    } else {
        consecutive_failures(events.drop_last()) + 1
    }
}

/// A sequence of `k` failures.
pub open spec fn failures(k: int) -> Seq<bool>
    decreases k,
{
    if k <= 0 {
        Seq::empty()
    } else {
        failures(k - 1).push(false)
    }
}

/// The run-level circuit breaker: counts consecutive entry-level
/// failures and aborts the run when they reach the threshold.
pub struct CircuitBreaker {
    pub consecutive_failures: u32,
}

impl CircuitBreaker {
    pub open spec fn wf(self) -> bool {
        self.consecutive_failures < MAX_CONSECUTIVE_FAILURES
    }

    pub fn new() -> (r: CircuitBreaker)
        ensures
            r.consecutive_failures == 0,
            r.wf(),
    {
        CircuitBreaker { consecutive_failures: 0 }
    }

    /// A successful enrichment resets the counter: only uninterrupted
    /// failure is treated as the site having become unreachable.
    pub fn record_success(&mut self)
        ensures
            final(self).consecutive_failures == 0,
            final(self).wf(),
    {
        self.consecutive_failures = 0;
    }

    /// An entry whose every render attempt failed: the run continues
    /// without that entry until the threshold is reached, then aborts.
    pub fn record_failure(&mut self) -> (d: RunDecision)
        requires
            old(self).wf(),
        ensures
            final(self).consecutive_failures == old(self).consecutive_failures + 1,
            d == (if old(self).consecutive_failures + 1 == MAX_CONSECUTIVE_FAILURES {
                RunDecision::Abort
            } else {
                RunDecision::SkipEntry
            }),
            d == RunDecision::SkipEntry ==> final(self).wf(),
    {
        self.consecutive_failures = self.consecutive_failures + 1;
        if self.consecutive_failures == MAX_CONSECUTIVE_FAILURES {
            RunDecision::Abort
        } else {
            RunDecision::SkipEntry
        }
    }
}

/// Five uninterrupted failures reach the threshold and abort the run.
pub proof fn lemma_breaker_trips()
    ensures
        consecutive_failures(failures(MAX_CONSECUTIVE_FAILURES as int))
            == MAX_CONSECUTIVE_FAILURES,
{
    lemma_failures_count(MAX_CONSECUTIVE_FAILURES as int);
}

pub proof fn lemma_failures_count(k: int)
    requires
        k >= 0,
    ensures
        consecutive_failures(failures(k)) == k,
        failures(k).len() == k,
    decreases k,
{
    if k > 0 {
        lemma_failures_count(k - 1);
        assert(failures(k).drop_last() =~= failures(k - 1));
        assert(!failures(k).last());
    }
}

/// A success after any history resets the count, so a following run of
/// fewer failures than the threshold does not abort: after four failures,
/// one success and four more failures the count stands at four.
pub proof fn lemma_breaker_resets(history: Seq<bool>, k: int)
    requires
        0 <= k,
    ensures
        consecutive_failures(history.push(true) + failures(k)) == k,
    decreases k,
{
    if k == 0 {
        assert(history.push(true) + failures(0) =~= history.push(true));
    } else {
        lemma_breaker_resets(history, k - 1);
        assert((history.push(true) + failures(k)).drop_last() =~= history.push(true) + failures(
            k - 1,
        ));
        assert(!(history.push(true) + failures(k)).last());
    }
}

/// The per-entry retry policy: render attempts for one entry, bounded by
/// [`MAX_RENDER_ATTEMPTS`], with the browser session recreated between
/// attempts by the caller.
pub struct RetryPolicy {
    pub attempts_made: u32,
}

impl RetryPolicy {
    pub fn new() -> (r: RetryPolicy)
        ensures
            r.attempts_made == 0,
    {
        RetryPolicy { attempts_made: 0 }
    }

    /// Whether another render attempt is allowed for this entry.
    pub fn should_attempt(&self) -> (r: bool)
        ensures
            r == (self.attempts_made < MAX_RENDER_ATTEMPTS),
    {
        self.attempts_made < MAX_RENDER_ATTEMPTS
    }

    /// Records one attempt.
    pub fn record_attempt(&mut self)
        requires
            old(self).attempts_made < MAX_RENDER_ATTEMPTS,
        ensures
            final(self).attempts_made == old(self).attempts_made + 1,
    {
        self.attempts_made = self.attempts_made + 1;
    }
}

} // verus!
