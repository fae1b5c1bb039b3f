//! Retry backoff policy: exponential in the attempt number, capped.

use vstd::prelude::*;
use vstd::arithmetic::power2::{pow2, lemma2_to64, lemma_pow2_strictly_increases};

verus! {

/// Delay before the first retry, in milliseconds.
pub const BACKOFF_BASE_MS: u64 = 1000;

/// Upper bound on any retry delay, in milliseconds.
pub const BACKOFF_CAP_MS: u64 = 30000;

/// Engine-wide cooldown applied when the remote service rate-limits us,
/// in milliseconds.
pub const RATE_LIMIT_COOLDOWN_MS: u64 = 60000;

/// The delay before retry number `attempt + 1`: `base * 2^attempt`,
/// capped at `BACKOFF_CAP_MS`.
pub open spec fn backoff_spec(attempt: nat) -> int {
    vstd::math::min(
        BACKOFF_CAP_MS as int,
        (BACKOFF_BASE_MS as int) * (pow2(attempt) as int),
    )
}

/// Computes the retry delay for an action that has already been attempted
/// `attempt + 1` times.
pub fn backoff_delay(attempt: u32) -> (r: u64)
    ensures
        r == backoff_spec(attempt as nat),
{
    proof {
        lemma2_to64();
    }
    match attempt {
        0 => 1000,
        1 => 2000,
        2 => 4000,
        3 => 8000,
        4 => 16000,
        _ => {
            proof {
                lemma_pow2_at_least_32(attempt as nat);
            }
            30000
        },
    }
}

proof fn lemma_pow2_at_least_32(a: nat)
    requires
        a >= 5,
    ensures
        (BACKOFF_BASE_MS as int) * (pow2(a) as int) >= 32000,
{
    lemma2_to64();
    if a > 5 {
        lemma_pow2_strictly_increases(5, a);
    }
    assert((BACKOFF_BASE_MS as int) * (pow2(a) as int) >= 32000) by (nonlinear_arith)
        requires
            pow2(a) >= 32,
            BACKOFF_BASE_MS == 1000,
    ;
}

/// For a lane retried repeatedly with no success, the delay sequence is
/// non-decreasing in the attempt number and never exceeds the cap.
pub proof fn lemma_backoff_monotone(a1: nat, a2: nat)
    requires
        a1 <= a2,
    ensures
        backoff_spec(a1) <= backoff_spec(a2),
        backoff_spec(a2) <= BACKOFF_CAP_MS,
{
    if a1 < a2 {
        lemma_pow2_strictly_increases(a1, a2);
    }
    assert((BACKOFF_BASE_MS as int) * (pow2(a1) as int) <= (BACKOFF_BASE_MS as int) * (pow2(
        a2,
    ) as int)) by (nonlinear_arith)
        requires
            pow2(a1) <= pow2(a2),
            BACKOFF_BASE_MS == 1000,
    ;
}

} // verus!
