//! Back-off between attempts at an AI provider request.
//!
//! A provider's `Retry-After` value is taken as it is; otherwise the delay
//! doubles with each attempt from one second up to 64 seconds, and is spread
//! by ±25% with jitter drawn from the sub-second part of the system clock.
//! Delays are counted in nanoseconds.

use vstd::prelude::*;

verus! {

/// Nanoseconds in a second.
pub const NANOS_PER_SEC: u64 = 1_000_000_000;

/// Ceiling of the exponential back-off, in seconds.
pub const MAX_BACKOFF_SECS: u64 = 64;

/// Two to the power `n`.
pub open spec fn two_pow(n: nat) -> nat
    decreases n,
{
    if n == 0 {
        1
    } else {
        2 * two_pow((n - 1) as nat)
    }
}

/// The back-off before jitter, in seconds: `min(2^attempt, 64)`.
pub open spec fn backoff_secs(attempt: u32) -> nat {
    if attempt >= 6 {
        64
    } else {
        two_pow(attempt as nat)
    }
}

/// The delay in nanoseconds before retrying after attempt `attempt` (counted
/// from 0), given the provider's `Retry-After` seconds and a clock sample
/// whose last four decimal digits pick the jitter.
///
/// With `Retry-After` the delay is exactly that many seconds. Otherwise it is `backoff_secs(attempt) * (0.75 + 0.5 * j)`
/// seconds with `j = (sample % 10000) / 10000`.
pub open spec fn delay_nanos_spec(attempt: u32, retry_after_secs: Option<u64>, sample: u32) -> int {
    match retry_after_secs {
        Some(ra) => ra * 1_000_000_000,
        None => backoff_secs(attempt) * (15_000 + (sample % 10_000) as int) * 50_000,
    }
}

proof fn lemma_two_pow_bounded(n: nat)
    requires
        n <= 6,
    ensures
        1 <= two_pow(n) <= 64,
{
    reveal_with_fuel(two_pow, 7);
}

fn backoff(attempt: u32) -> (r: u64)
    ensures
        r == backoff_secs(attempt),
        1 <= r <= 64,
{
    let capped: u32 = if attempt >= 6 { 6 } else { attempt };
    let mut r: u64 = 1;
    let mut i: u32 = 0;
    while i < capped
        invariant
            i <= capped <= 6,
            r == two_pow(i as nat),
        decreases capped - i,
    {
        proof {
            lemma_two_pow_bounded((i + 1) as nat);
        }
        r = r * 2;
        i = i + 1;
    }
    proof {
        lemma_two_pow_bounded(capped as nat);
        reveal_with_fuel(two_pow, 7);
    }
    r
}

/// The delay before retrying after attempt `attempt`, for the clock sample
/// `sample` (see [`delay_nanos_spec`]).
pub fn delay_nanos(attempt: u32, retry_after_secs: Option<u64>, sample: u32) -> (r: u128)
    ensures
        r == delay_nanos_spec(attempt, retry_after_secs, sample),
        retry_after_secs is None ==> r >= 100_000_000,
{
    match retry_after_secs {
        Some(ra) => {
            assert(ra * 1_000_000_000 <= u128::MAX) by (nonlinear_arith)
                requires
                    ra <= u64::MAX,
            ;
            (ra as u128) * (NANOS_PER_SEC as u128)
        },
        None => {
            let secs = backoff(attempt);
            let k = (sample % 10_000) as u128;
            assert(secs * (15_000 + k) <= 64 * 25_000 && secs * (15_000 + k) * 50_000 <= 64 * 25_000 * 50_000) by (nonlinear_arith)
                requires
                    1 <= secs <= 64,
                    k < 10_000,
            ;
            let r = (secs as u128) * (15_000 + k) * 50_000;
            assert(secs * (15_000 + k) * 50_000 >= 100_000_000) by (nonlinear_arith)
                requires
                    secs >= 1,
                    k >= 0,
            ;
            r
        },
    }
}

/// The delay, in nanoseconds, before retrying after attempt `attempt`: the
/// `Retry-After` seconds when there are any, else the jittered exponential
/// back-off of [`delay_nanos_spec`] for a sample of the system clock.
pub fn compute_delay(attempt: u32, retry_after_secs: Option<u64>) -> (r: u128)
    ensures
        exists|sample: u32| r == delay_nanos_spec(attempt, retry_after_secs, sample),
        retry_after_secs matches Some(ra) ==> r == ra * 1_000_000_000,
        retry_after_secs is None ==> 750_000_000 * backoff_secs(attempt) <= r < 1_250_000_000 * backoff_secs(attempt),
{
    let (_, sample) = crate::system::clock_now();
    let r = delay_nanos(attempt, retry_after_secs, sample);
    proof {
        if retry_after_secs is None {
            if attempt < 6 {
                lemma_two_pow_bounded(attempt as nat);
            }
            let b = backoff_secs(attempt);
            let k = (sample % 10_000) as int;
            assert(750_000_000 * b <= b * (15_000 + k) * 50_000 < 1_250_000_000 * b) by (nonlinear_arith)
                requires
                    0 <= k < 10_000,
                    b >= 1,
            ;
        }
    }
    r
}

} // verus!
