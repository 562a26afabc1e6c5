//! Bounded retry of a fallible operation: the operation is invoked until
//! it succeeds or a fixed budget of additional attempts is spent, with a
//! short fixed pause between attempts. Once the budget is spent a single
//! opaque exhaustion failure is reported; per-attempt detail is
//! discarded.

use vstd::prelude::*;

verus! {

/// The fixed pause between attempts, in milliseconds.
pub const RETRY_DELAY_MILLIS: u64 = 20;

/// What the driver tells its caller after a failed attempt.
#[derive(Clone, Copy, Debug, PartialEq, Eq, Structural)]
pub enum RetryDecision {
    /// Pause for the fixed delay, then invoke the operation again.
    RetryAgain,
    /// The budget is spent: report failure and invoke nothing further.
    Exhausted,
}

/// Tracks how many attempts a retrying task has spent against its
/// budget. With a budget of `r`, the operation is invoked at most `r + 1`
/// times.
pub struct RetryDriver {
    budget: usize,
    attempts: usize,
}

impl RetryDriver {
    /// The number of additional attempts allowed after the first.
    pub closed spec fn budget(self) -> nat {
        self.budget as nat
    }

    /// The number of attempts already made.
    pub closed spec fn attempts(self) -> nat {
        self.attempts as nat
    }

    /// No more attempts are ever made than the budget plus one.
    pub open spec fn wf(self) -> bool {
        self.attempts() <= self.budget() + 1
    }

    /// Makes a driver that has made no attempt yet.
    pub fn new(retry_times: usize) -> (d: RetryDriver)
        requires
            retry_times < usize::MAX,
        ensures
            d.wf(),
            d.budget() == retry_times,
            d.attempts() == 0,
    {
        RetryDriver { budget: retry_times, attempts: 0 }
    }

    /// Whether the operation may be invoked once more.
    pub fn may_attempt(&self) -> (b: bool)
        requires
            self.budget() < usize::MAX,
        ensures
            b == (self.attempts() < self.budget() + 1),
    {
        self.attempts < self.budget + 1
    }

    /// Records one failed invocation and decides whether to retry: the
    /// driver asks for another attempt exactly while fewer than
    /// `budget + 1` attempts have been made.
    pub fn record_failure(&mut self) -> (d: RetryDecision)
        requires
            old(self).wf(),
            old(self).budget() < usize::MAX,
            old(self).attempts() < old(self).budget() + 1,
        ensures
            final(self).wf(),
            final(self).budget() == old(self).budget(),
            final(self).attempts() == old(self).attempts() + 1,
            d == RetryDecision::RetryAgain <==> final(self).attempts() < final(self).budget() + 1,
            d == RetryDecision::Exhausted <==> final(self).attempts() == final(self).budget() + 1,
    {
        self.attempts = self.attempts + 1;
        if self.attempts < self.budget + 1 {
            RetryDecision::RetryAgain
        } else {
            RetryDecision::Exhausted
        }
    }
}

/// How many times the operation is invoked when attempt `i` comes out as
/// `outcomes[i]` (`true` is success) under a budget of `budget`
/// additional attempts. The count stops at the first success or when the
/// budget is spent.
pub open spec fn attempts_used(budget: nat, outcomes: Seq<bool>) -> nat
    decreases outcomes.len(),
{
    if outcomes.len() == 0 {
        0
    } else if outcomes[0] {
        1
    } else if budget == 0 {
        1
    } else {
        1 + attempts_used((budget - 1) as nat, outcomes.drop_first())
    }
}

/// Whether the retried operation ends in success: some attempt within
/// the budget plus one succeeds.
pub open spec fn retry_succeeds(budget: nat, outcomes: Seq<bool>) -> bool
    decreases outcomes.len(),
{
    if outcomes.len() == 0 {
        false
    } else if outcomes[0] {
        true
    } else if budget == 0 {
        false
    } else {
        retry_succeeds((budget - 1) as nat, outcomes.drop_first())
    }
}

/// An operation that fails on every attempt is invoked exactly
/// `budget + 1` times and the retried call fails.
pub proof fn lemma_retry_budget_exhausted(budget: nat, outcomes: Seq<bool>)
    requires
        outcomes.len() >= budget + 1,
        forall|i: int| 0 <= i <= budget ==> !outcomes[i],
    ensures
        attempts_used(budget, outcomes) == budget + 1,
        !retry_succeeds(budget, outcomes),
    decreases budget,
{
    assert(!outcomes[0]);
    if budget > 0 {
        let rest = outcomes.drop_first();
        assert(forall|i: int| 0 <= i <= budget - 1 ==> rest[i] == outcomes[i + 1] && !outcomes[i
            + 1]);
        lemma_retry_budget_exhausted((budget - 1) as nat, rest);
    }
}

/// An operation that first succeeds on attempt `k`, with `k` at most
/// `budget + 1`, is invoked exactly `k` times and the retried call
/// succeeds.
pub proof fn lemma_retry_succeeds_at(budget: nat, outcomes: Seq<bool>, k: nat)
    requires
        1 <= k <= budget + 1,
        outcomes.len() >= k,
        outcomes[k - 1],
        forall|i: int| 0 <= i < k - 1 ==> !outcomes[i],
    ensures
        attempts_used(budget, outcomes) == k,
        retry_succeeds(budget, outcomes),
    decreases k,
{
    if k == 1 {
        assert(outcomes[0]);
    } else {
        assert(!outcomes[0]);
        let rest = outcomes.drop_first();
        assert(rest[k - 2] == outcomes[k - 1]);
        assert(forall|i: int| 0 <= i < k - 2 ==> rest[i] == outcomes[i + 1] && !outcomes[i + 1]);
        lemma_retry_succeeds_at((budget - 1) as nat, rest, (k - 1) as nat);
    }
}

/// Replays the retry protocol against a recorded sequence of per-attempt
/// outcomes and reports how many attempts were spent and whether the
/// call succeeded. The sequence must be long enough to drive the
/// protocol to its end.
pub fn run_retry(retry_times: usize, outcomes: &Vec<bool>) -> (r: (usize, bool))
    requires
        retry_times < usize::MAX,
        outcomes@.len() >= retry_times + 1,
    ensures
        r.0 == attempts_used(retry_times as nat, outcomes@),
        r.1 == retry_succeeds(retry_times as nat, outcomes@),
{
    let mut driver = RetryDriver::new(retry_times);
    let mut i: usize = 0;
    proof {
        assert(outcomes@.skip(0) =~= outcomes@);
    }
    loop
        invariant
            driver.wf(),
            driver.budget() == retry_times,
            retry_times < usize::MAX,
            driver.attempts() == i,
            i <= retry_times,
            outcomes@.len() >= retry_times + 1,
            forall|j: int| 0 <= j < i ==> !outcomes@[j],
            attempts_used(retry_times as nat, outcomes@) == i + attempts_used(
                (retry_times - i) as nat,
                outcomes@.skip(i as int),
            ),
            retry_succeeds(retry_times as nat, outcomes@) == retry_succeeds(
                (retry_times - i) as nat,
                outcomes@.skip(i as int),
            ),
        decreases retry_times - i,
    {
        let succeeded = outcomes[i];
        if succeeded {
            proof {
                assert(outcomes@.skip(i as int)[0] == outcomes@[i as int]);
            }
            return (i + 1, true);
        }
        match driver.record_failure() {
            RetryDecision::RetryAgain => {
                proof {
                    let tail = outcomes@.skip(i as int);
                    assert(tail[0] == outcomes@[i as int]);
                    assert(tail.drop_first() =~= outcomes@.skip(i + 1));
                }
                i = i + 1;
            },
            RetryDecision::Exhausted => {
                proof {
                    assert(i == retry_times);
                    assert(outcomes@.skip(i as int)[0] == outcomes@[i as int]);
                }
                return (i + 1, false);
            },
        }
    }
}

} // verus!
