//! Retrying an operation that failed for a reason worth retrying.
//!
//! The retry loop alternates an outside call, a decision and a sleep. The
//! decision is [`RetryPolicy::after_failure`]: given how many attempts were
//! made, whether the last failure is retryable and how long the loop has run,
//! it says whether to stop or how long to wait before the next attempt.
//! Whoever drives the loop performs the call and the sleep.

use vstd::prelude::*;

verus! {

/// The longest a single backoff sleep may grow to, in milliseconds.
pub const MAX_BACKOFF_MS: u64 = 60000;

/// How hard to retry, and for how long overall.
#[derive(Debug, Clone, Copy, PartialEq, Eq, Structural)]
pub struct RetryPolicy {
    /// Retries *after* the first attempt. `0` means try once and give up.
    pub max_retries: u32,
    /// Base delay in milliseconds. Doubles per retry, capped at 60s.
    pub retry_delay_ms: u64,
    /// Wall-clock ceiling in milliseconds for the **whole** loop, sleeps
    /// included.
    pub deadline_ms: Option<u64>,
}

/// `2` to the power `n`.
pub open spec fn pow2(n: nat) -> nat
    decreases n,
{
    if n == 0 {
        1
    } else {
        2 * pow2((n - 1) as nat)
    }
}

/// The doubling exponent for retry number `retry` (1-based): `retry - 1`,
/// with `retry` capped at 32.
pub open spec fn doubling(retry: nat) -> nat {
    let capped: nat = if retry > 32 {
        32
    } else {
        retry
    };
    if capped == 0 {
        0
    } else {
        (capped - 1) as nat
    }
}

/// The backoff before retry number `retry`: the base delay doubled per
/// earlier retry, capped at 60s.
pub open spec fn backoff_spec(delay_ms: nat, retry: nat) -> nat {
    let doubled = delay_ms * pow2(doubling(retry));
    if doubled > MAX_BACKOFF_MS {
        MAX_BACKOFF_MS as nat
    } else {
        doubled
    }
}

/// Why a retry loop stops without success.
#[derive(Debug, Clone, Copy, PartialEq, Eq, Structural)]
pub enum StopReason {
    /// The failure is not worth retrying.
    NotRetryable,
    /// Every allowed retry was spent.
    Exhausted,
    /// The next backoff would cross the deadline.
    Deadline,
}

/// What to do after a failed attempt.
#[derive(Debug, Clone, Copy, PartialEq, Eq, Structural)]
pub enum RetryDecision {
    /// Give up, returning the last error.
    Stop(StopReason),
    /// Sleep this many milliseconds, then try again.
    Retry { delay_ms: u64 },
}

impl RetryPolicy {
    /// Three retries, 100ms base delay, no deadline.
    pub fn default_policy() -> (p: RetryPolicy)
        ensures
            p == (RetryPolicy { max_retries: 3, retry_delay_ms: 100, deadline_ms: None }),
    {
        RetryPolicy { max_retries: 3, retry_delay_ms: 100, deadline_ms: None }
    }

    /// A policy that never retries.
    pub fn none() -> (p: RetryPolicy)
        ensures
            p == (RetryPolicy { max_retries: 0, retry_delay_ms: 0, deadline_ms: None }),
    {
        RetryPolicy { max_retries: 0, retry_delay_ms: 0, deadline_ms: None }
    }

    /// The backoff in milliseconds before retry number `retry` (1-based).
    pub fn backoff(&self, retry: u32) -> (ms: u64)
        ensures
            ms == backoff_spec(self.retry_delay_ms as nat, retry as nat),
    {
        let capped: u32 = if retry > 32 {
            32
        } else {
            retry
        };
        let shift: u32 = if capped == 0 {
            0
        } else {
            capped - 1
        };
        let mut factor: u64 = 1;
        let mut k: u32 = 0;
        assert(pow2(31) == 0x8000_0000) by {
            reveal_with_fuel(pow2, 32);
        }
        while k < shift
            invariant
                k <= shift,
                shift <= 31,
                shift == doubling(retry as nat),
                factor == pow2(k as nat),
                pow2(31) == 0x8000_0000,
            decreases shift - k,
        {
            proof {
                lemma_pow2_bound(k as nat, 30);
            }
            factor = factor * 2;
            k = k + 1;
        }
        proof {
            lemma_pow2_bound(k as nat, k as nat);
        }
        let delay = self.retry_delay_ms;
        if factor != 0 && delay > u64::MAX / factor {
            proof {
                assert(delay * factor > u64::MAX) by (nonlinear_arith)
                    requires
                        delay > u64::MAX / factor,
                        factor > 0,
                ;
            }
            return MAX_BACKOFF_MS;
        }
        assert(delay * factor <= u64::MAX) by (nonlinear_arith)
            requires
                factor != 0 ==> delay <= u64::MAX / factor,
                factor >= 1,
        ;
        let doubled = delay * factor;
        if doubled > MAX_BACKOFF_MS {
            MAX_BACKOFF_MS
        } else {
            doubled
        }
    }

    /// What to do after attempt number `attempts` (1-based) failed.
    ///
    /// A failure that is not retryable stops at once. A retryable one is
    /// retried while retries remain (`attempts <= max_retries`), after the
    /// backoff for that retry — unless the loop has a deadline and the
    /// backoff would reach it, in which case the loop stops rather than
    /// sleeping only to fail afterwards.
    pub fn after_failure(&self, attempts: u32, retryable: bool, elapsed_ms: u64) -> (d:
        RetryDecision)
        ensures
            d matches RetryDecision::Retry { delay_ms } ==> retryable && attempts
                <= self.max_retries && delay_ms <= MAX_BACKOFF_MS && match self.deadline_ms {
                Some(deadline) => elapsed_ms + delay_ms < deadline,
                None => true,
            },
            !retryable ==> d == RetryDecision::Stop(StopReason::NotRetryable),
            retryable && attempts > self.max_retries ==> d == RetryDecision::Stop(
                StopReason::Exhausted,
            ),
            retryable && attempts <= self.max_retries ==> match self.deadline_ms {
                Some(deadline) => if elapsed_ms + backoff_spec(
                    self.retry_delay_ms as nat,
                    attempts as nat,
                ) >= deadline {
                    d == RetryDecision::Stop(StopReason::Deadline)
                } else {
                    d == RetryDecision::Retry {
                        delay_ms: backoff_spec(self.retry_delay_ms as nat, attempts as nat) as u64,
                    }
                },
                None => d == RetryDecision::Retry {
                    delay_ms: backoff_spec(self.retry_delay_ms as nat, attempts as nat) as u64,
                },
            },
    {
        if !retryable {
            return RetryDecision::Stop(StopReason::NotRetryable);
        }
        if attempts > self.max_retries {
            return RetryDecision::Stop(StopReason::Exhausted);
        }
        let backoff = self.backoff(attempts);
        proof {
            lemma_backoff_bounded_and_monotone(self.retry_delay_ms as nat, attempts as nat, attempts as nat);
        }
        match self.deadline_ms {
            Some(deadline) => {
                if elapsed_ms as u128 + backoff as u128 >= deadline as u128 {
                    return RetryDecision::Stop(StopReason::Deadline);
                }
            },
            None => {},
        }
        RetryDecision::Retry { delay_ms: backoff }
    }
}

impl Default for RetryPolicy {
    /// Three retries, 100ms base delay, no deadline.
    fn default() -> (p: RetryPolicy)
        ensures
            p == (RetryPolicy { max_retries: 3, retry_delay_ms: 100, deadline_ms: None }),
    {
        RetryPolicy::default_policy()
    }
}

pub proof fn lemma_pow2_bound(k: nat, n: nat)
    requires
        k <= n,
    ensures
        pow2(k) <= pow2(n),
        pow2(k) >= 1,
    decreases n,
{
    if n > 0 && k < n {
        lemma_pow2_bound(k, (n - 1) as nat);
    }
    if k > 0 {
        lemma_pow2_bound((k - 1) as nat, (k - 1) as nat);
    }
}

/// A backoff never exceeds the 60s ceiling, and never shrinks from one
/// retry to the next.
pub proof fn lemma_backoff_bounded_and_monotone(delay_ms: nat, r1: nat, r2: nat)
    requires
        r1 <= r2,
    ensures
        backoff_spec(delay_ms, r1) <= MAX_BACKOFF_MS,
        backoff_spec(delay_ms, r1) <= backoff_spec(delay_ms, r2),
{
    lemma_pow2_bound(doubling(r1), doubling(r2));
    assert(delay_ms * pow2(doubling(r1)) <= delay_ms * pow2(doubling(r2))) by (nonlinear_arith)
        requires
            pow2(doubling(r1)) <= pow2(doubling(r2)),
    ;
}

/// The smaller of two naturals.
pub open spec fn min_nat(a: nat, b: nat) -> nat {
    if a <= b {
        a
    } else {
        b
    }
}

/// The first retry waits the base delay, capped at 60s.
pub proof fn lemma_backoff_first_retry(delay_ms: nat)
    ensures
        backoff_spec(delay_ms, 1) == min_nat(delay_ms, 60000),
{
    assert(doubling(1) == 0);
    assert(pow2(0) == 1);
    assert(delay_ms * pow2(0) == delay_ms);
}

/// Each retry waits twice what the retry before it waited, capped at 60s.
pub proof fn lemma_backoff_doubles(delay_ms: nat, retry: nat)
    requires
        retry >= 1,
    ensures
        backoff_spec(delay_ms, retry + 1) == min_nat(2 * backoff_spec(delay_ms, retry), 60000),
{
    let x = delay_ms * pow2(doubling(retry));
    if retry < 32 {
        assert(doubling(retry + 1) == doubling(retry) + 1);
        assert(pow2(doubling(retry + 1)) == 2 * pow2(doubling(retry)));
        assert(delay_ms * pow2(doubling(retry + 1)) == 2 * x) by (nonlinear_arith)
            requires
                pow2(doubling(retry + 1)) == 2 * pow2(doubling(retry)),
                x == delay_ms * pow2(doubling(retry)),
        ;
    } else {
        assert(doubling(retry + 1) == 31 && doubling(retry) == 31);
        assert(pow2(31) == 0x8000_0000) by {
            reveal_with_fuel(pow2, 32);
        }
        if delay_ms >= 1 {
            assert(delay_ms * pow2(31) >= pow2(31)) by (nonlinear_arith)
                requires
                    delay_ms >= 1,
            ;
        } else {
            assert(delay_ms * pow2(31) == 0);
        }
    }
}

/// The backoff before retry `retry` (from 1) is the base delay times two
/// to the power `retry - 1`, capped at 60s.
pub proof fn lemma_backoff_closed_form(delay_ms: nat, retry: nat)
    requires
        retry >= 1,
    ensures
        backoff_spec(delay_ms, retry) == min_nat(delay_ms * pow2((retry - 1) as nat), 60000),
    decreases retry,
{
    if retry == 1 {
        lemma_backoff_first_retry(delay_ms);
        assert(pow2(0) == 1);
    } else {
        let r = (retry - 1) as nat;
        lemma_backoff_closed_form(delay_ms, r);
        lemma_backoff_doubles(delay_ms, r);
        assert(pow2((retry - 1) as nat) == 2 * pow2((r - 1) as nat));
        assert(delay_ms * pow2((retry - 1) as nat) == 2 * (delay_ms * pow2((r - 1) as nat))) by (nonlinear_arith)
            requires
                pow2((retry - 1) as nat) == 2 * pow2((r - 1) as nat),
        ;
    }
}

} // verus!
