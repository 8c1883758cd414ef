//! Resilient invocation policy: bounded retry with exponential backoff.
//!
//! The policy is pure data: callers that actually perform network calls ask
//! [`RetrySchedule`] whether another attempt is allowed and how long to wait
//! before it.  The delay starts at a fixed small value and doubles on every
//! retry up to a fixed ceiling, with no jitter.  Only failures classified as
//! retryable (server-side or transport-level) are retried; a terminal
//! failure is surfaced at once.

use vstd::prelude::*;

verus! {

/// 2^k.
pub open spec fn spec_pow2(k: nat) -> nat
    decreases k,
{
    if k == 0 {
        1
    } else {
        2 * spec_pow2((k - 1) as nat)
    }
}

/// The delay slept before retry number `k` (0-based): doubles from
/// `FIRST_DELAY_MS`, capped at `MAX_DELAY_MS`.
pub open spec fn spec_backoff_ms(k: nat) -> nat {
    if 50 * spec_pow2(k) < 1000 {
        50 * spec_pow2(k)
    } else {
        1000
    }
}

/// The delay in milliseconds slept before retry number `k` (0-based).
pub fn backoff_ms(k: u32) -> (d: u64)
    ensures
        d == spec_backoff_ms(k as nat),
{
    proof {
        assert(spec_pow2(0) == 1);
        assert(spec_pow2(1) == 2);
        assert(spec_pow2(2) == 4);
        assert(spec_pow2(3) == 8);
        assert(spec_pow2(4) == 16);
        assert(spec_pow2(5) == 32);
        if k >= 5 {
            lemma_pow2_mono(5, k as nat);
        }
    }
    if k == 0 {
        50
    } else if k == 1 {
        100
    } else if k == 2 {
        200
    } else if k == 3 {
        400
    } else if k == 4 {
        800
    } else {
        1000
    }
}

/// 2^k is monotone.
proof fn lemma_pow2_mono(j: nat, k: nat)
    requires
        j <= k,
    ensures
        spec_pow2(j) <= spec_pow2(k),
    decreases k,
{
    if j < k {
        lemma_pow2_mono(j, (k - 1) as nat);
        assert(spec_pow2(k) == 2 * spec_pow2((k - 1) as nat));
    }
}

/// How one attempt of a remote operation ended.
#[derive(Clone, Copy, Debug, PartialEq, Eq, Structural)]
pub enum Attempt {
    /// The operation succeeded; no further attempt is made.
    Success,
    /// The operation failed in a way worth retrying: a server-side error
    /// or a transport-level error.
    RetryableFailure,
    /// The operation failed in a way that retrying cannot fix, such as a
    /// client-side error from the upstream; it is surfaced at once.
    TerminalFailure,
}

/// Number of attempts the policy performs given the outcome of each
/// successive attempt and a retry budget: it stops at the first attempt
/// that succeeds or fails terminally, and otherwise retries until the
/// budget is exhausted.
pub open spec fn spec_attempts_used(outs: Seq<Attempt>, retries: nat) -> nat
    decreases outs.len(),
{
    if outs.len() == 0 {
        0
    } else if outs.first() != Attempt::RetryableFailure || retries == 0 {
        1
    } else {
        1 + spec_attempts_used(outs.drop_first(), (retries - 1) as nat)
    }
}

/// The policy never makes more than `retries + 1` attempts, always makes at
/// least one when an outcome exists, and never runs past the outcomes given.
pub proof fn lemma_attempts_used_bounds(outs: Seq<Attempt>, retries: nat)
    requires
        outs.len() > 0,
    ensures
        1 <= spec_attempts_used(outs, retries) <= retries + 1,
        spec_attempts_used(outs, retries) <= outs.len(),
    decreases outs.len(),
{
    if outs.first() == Attempt::RetryableFailure && retries > 0 {
        if outs.len() > 1 {
            lemma_attempts_used_bounds(outs.drop_first(), (retries - 1) as nat);
        } else {
            assert(spec_attempts_used(outs.drop_first(), (retries - 1) as nat) == 0);
        }
    }
}

/// Law: an operation that never succeeds is attempted at most `retries + 1`
/// times — exactly that many when every failure is retryable — and the
/// failure surfaced to the caller is the one from the final attempt,
/// unchanged.
pub proof fn lemma_retry_bound(outs: Seq<Attempt>, retries: nat)
    requires
        outs.len() > retries,
        forall|i: int| 0 <= i < outs.len() ==> outs[i] == Attempt::RetryableFailure,
    ensures
        spec_attempts_used(outs, retries) == retries + 1,
        outs[spec_attempts_used(outs, retries) - 1] == Attempt::RetryableFailure,
    decreases retries,
{
    if retries > 0 {
        lemma_retry_bound(outs.drop_first(), (retries - 1) as nat);
    }
}

/// Run the retry policy over a pre-determined sequence of attempt
/// outcomes, returning how many attempts were performed and the outcome of
/// the final one.  This is the reference driver for the policy: the
/// transport loop outside the library consults [`RetrySchedule`] to make
/// the same decisions one attempt at a time.
pub fn run_retry(retries: u32, outcomes: &Vec<Attempt>) -> (r: (usize, Attempt))
    requires
        outcomes@.len() > retries,
    ensures
        r.0 == spec_attempts_used(outcomes@, retries as nat),
        1 <= r.0 <= retries + 1,
        r.1 == outcomes@[r.0 - 1],
{
    proof {
        lemma_attempts_used_bounds(outcomes@, retries as nat);
        assert(outcomes@.skip(0) =~= outcomes@);
    }
    let n = outcomes.len();
    let mut i: usize = 0;
    loop
        invariant
            n == outcomes@.len(),
            i <= retries,
            i < n,
            outcomes@.len() > retries,
            spec_attempts_used(outcomes@, retries as nat) == i
                + spec_attempts_used(outcomes@.skip(i as int), (retries - i) as nat),
            forall|j: int| 0 <= j < i ==> outcomes@[j] == Attempt::RetryableFailure,
        decreases outcomes@.len() - i,
    {
        let out = outcomes[i];
        proof {
            assert(outcomes@.skip(i as int).first() == outcomes@[i as int]);
            lemma_attempts_used_bounds(outcomes@.skip(i as int), (retries - i) as nat);
        }
        if !matches!(out, Attempt::RetryableFailure) || i >= retries as usize {
            proof {
                assert(spec_attempts_used(outcomes@.skip(i as int), (retries - i) as nat) == 1);
            }
            return (i + 1, out);
        }
        proof {
            assert(spec_attempts_used(outcomes@.skip(i as int), (retries - i) as nat) == 1
                + spec_attempts_used(
                outcomes@.skip(i as int).drop_first(),
                (retries - i - 1) as nat,
            ));
            assert(outcomes@.skip(i as int).drop_first() =~= outcomes@.skip(i as int + 1));
        }
        i = i + 1;
    }
}

/// Bounded-retry schedule: hands out one backoff delay per allowed retry.
///
/// `retries` is the budget the schedule was created with and never changes;
/// `left` counts the retries still allowed.
pub struct RetrySchedule {
    pub retries: u32,
    pub left: u32,
}

impl RetrySchedule {
    /// The count of retries already taken never exceeds the budget.
    pub open spec fn wf(self) -> bool {
        self.left <= self.retries
    }

    /// A fresh schedule with the full retry budget.
    pub fn new(retries: u32) -> (s: Self)
        ensures
            s.wf(),
            s.retries == retries,
            s.left == retries,
    {
        RetrySchedule { retries, left: retries }
    }

    /// If a retry is still allowed, spend it and return the delay to sleep
    /// before the next attempt; otherwise return nothing and change nothing.
    pub fn next_delay(&mut self) -> (d: Option<u64>)
        requires
            old(self).wf(),
        ensures
            final(self).wf(),
            final(self).retries == old(self).retries,
            old(self).left == 0 ==> d is None && final(self).left == 0,
            old(self).left > 0 ==> {
                &&& final(self).left == old(self).left - 1
                &&& d == Some(spec_backoff_ms((old(self).retries - old(self).left) as nat) as u64)
            },
    {
        if self.left == 0 {
            None
        } else {
            let k = self.retries - self.left;
            self.left = self.left - 1;
            Some(backoff_ms(k))
        }
    }
}

} // verus!
