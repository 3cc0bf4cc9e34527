//! How long to wait before a fetch that failed is tried again.

use vstd::arithmetic::mul::lemma_mul_left_inequality;
use vstd::arithmetic::power2::{lemma2_to64, lemma_pow2_strictly_increases, lemma_pow2_unfold, pow2};
use vstd::prelude::*;

verus! {

/// Exponential backoff with a cap: the first retry waits `base_ms`
/// milliseconds, each further one twice as long as the one before, and none
/// longer than `cap_ms`.
#[derive(Clone, Copy, Debug, PartialEq, Eq, Structural)]
pub struct RetryPolicy {
    pub base_ms: u64,
    pub cap_ms: u64,
}

/// The delay, in milliseconds, before the retry that follows `failures`
/// failures in a row.
pub open spec fn delay_of(policy: RetryPolicy, failures: nat) -> nat {
    if failures == 0 {
        0
    } else {
        let doubled = policy.base_ms as nat * pow2((failures - 1) as nat);
        if doubled < policy.cap_ms {
            doubled
        } else {
            policy.cap_ms as nat
        }
    }
}

/// No delay is longer than the cap.
pub proof fn lemma_delay_bounded(policy: RetryPolicy, failures: nat)
    ensures
        delay_of(policy, failures) <= policy.cap_ms,
{
}

/// The delay never shrinks while failures go on.
pub proof fn lemma_delay_grows(policy: RetryPolicy, fewer: nat, more: nat)
    requires
        fewer <= more,
    ensures
        delay_of(policy, fewer) <= delay_of(policy, more),
{
    if 0 < fewer < more {
        lemma_pow2_strictly_increases((fewer - 1) as nat, (more - 1) as nat);
        if policy.base_ms > 0 {
            lemma_mul_left_inequality(
                policy.base_ms as int,
                pow2((fewer - 1) as nat) as int,
                pow2((more - 1) as nat) as int,
            );
        } else {
            assert(policy.base_ms as nat * pow2((fewer - 1) as nat) == 0) by (nonlinear_arith)
                requires
                    policy.base_ms == 0,
            ;
        }
    }
}

impl RetryPolicy {
    /// The delay, in milliseconds, before the retry that follows `failures`
    /// failures in a row.
    pub fn delay(&self, failures: u32) -> (r: u64)
        ensures
            r == delay_of(*self, failures as nat),
    {
        if failures == 0 {
            return 0;
        }
        if self.base_ms == 0 {
            assert(self.base_ms as nat * pow2((failures - 1) as nat) == 0) by (nonlinear_arith)
                requires
                    self.base_ms == 0,
            ;
            return 0;
        }
        let mut d: u64 = self.base_ms;
        let mut k: u32 = 1;
        proof {
            lemma2_to64();
            assert(self.base_ms as nat * 1 == self.base_ms as nat);
        }
        while k < failures && d < self.cap_ms
            invariant
                1 <= k <= failures,
                self.base_ms >= 1,
                d as nat == self.base_ms as nat * pow2((k - 1) as nat) || (d == self.cap_ms
                    && self.base_ms as nat * pow2((k - 1) as nat) >= self.cap_ms),
            decreases failures - k,
        {
            proof {
                lemma_pow2_unfold(k as nat);
                assert(self.base_ms as nat * (2 * pow2((k - 1) as nat)) == 2 * (self.base_ms as nat
                    * pow2((k - 1) as nat))) by (nonlinear_arith);
            }
            if d >= self.cap_ms - d {
                d = self.cap_ms;
            } else {
                d = d + d;
            }
            k = k + 1;
        }
        proof {
            if k < failures {
                lemma_pow2_strictly_increases((k - 1) as nat, (failures - 1) as nat);
                lemma_mul_left_inequality(
                    self.base_ms as int,
                    pow2((k - 1) as nat) as int,
                    pow2((failures - 1) as nat) as int,
                );
            }
        }
        if d < self.cap_ms {
            d
        } else {
            self.cap_ms
        }
    }
}

} // verus!
