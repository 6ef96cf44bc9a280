//! Reconnect policy: exponential backoff with jitter, and a bound on attempts.
use vstd::prelude::*;
use vstd::arithmetic::power2::{lemma_pow2_pos, lemma_pow2_strictly_increases, lemma_pow2_unfold, pow2};

verus! {

/// The wait before reconnect attempt `attempt` (counted from 0): `base`
/// doubled once per earlier attempt, at most `cap`, plus `jitter`; the sum
/// stops at `u64::MAX`.
pub open spec fn backoff_spec(attempt: nat, base: nat, cap: nat, jitter: nat) -> nat {
    let grown = base * pow2(attempt);
    let d = if grown < cap {
        grown
    } else {
        cap
    };
    if d + jitter > u64::MAX {
        u64::MAX as nat
    } else {
        d + jitter
    }
}

/// The wait before reconnect attempt `attempt`; `jitter` is a random amount
/// that the caller draws.
pub fn backoff_delay(attempt: u32, base: u64, cap: u64, jitter: u64) -> (r: u64)
    ensures
        r == backoff_spec(attempt as nat, base as nat, cap as nat, jitter as nat),
{
    let mut d: u64 = base;
    let mut i: u32 = 0;
    proof {
        assert(pow2(0) == 1) by {
            vstd::arithmetic::power2::lemma2_to64();
        }
    }
    while i < attempt && d < cap
        invariant
            i <= attempt,
            d < cap ==> d == base * pow2(i as nat),
            d >= cap ==> base * pow2(i as nat) >= cap,
        decreases attempt - i,
    {
        proof {
            lemma_pow2_unfold((i + 1) as nat);
            let p = pow2(i as nat);
            assert(base * pow2((i + 1) as nat) == 2 * (base * p)) by (nonlinear_arith)
                requires
                    pow2((i + 1) as nat) == 2 * p,
            ;
        }
        if d > u64::MAX / 2 {
            d = cap;
        } else {
            d = d * 2;
        }
        i = i + 1;
    }
    proof {
        if i < attempt {
            lemma_pow2_strictly_increases(i as nat, attempt as nat);
            lemma_pow2_pos(i as nat);
            assert(base * pow2(i as nat) <= base * pow2(attempt as nat)) by (nonlinear_arith)
                requires
                    pow2(i as nat) < pow2(attempt as nat),
            ;
        }
    }
    let capped = if d < cap {
        d
    } else {
        cap
    };
    if capped > u64::MAX - jitter {
        u64::MAX
    } else {
        capped + jitter
    }
}

/// Whether another reconnect attempt is due after `attempts_made` failed
/// ones: always where no bound is set, else while under the bound.
pub fn should_retry(attempts_made: u32, max_attempts: Option<u32>) -> (r: bool)
    ensures
        r == match max_attempts {
            Some(m) => attempts_made < m,
            None => true,
        },
{
    match max_attempts {
        Some(m) => attempts_made < m,
        None => true,
    }
}

} // verus!
