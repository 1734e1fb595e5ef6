//! Level computation for the XP aggregator: a user's level is always
//! `floor(sqrt(xp / 100))`, recomputed from the cumulative total, never
//! incremented directly.

use vstd::prelude::*;
use vstd::arithmetic::div_mod::lemma_div_is_ordered;

verus! {

/// Integer square root, rounded down: the largest `r` with `r * r <= n`
/// (and `0` for negative `n`).
pub open spec fn sqrt_floor(n: int) -> int
    decreases n,
{
    if n < 1 {
        0
    } else {
        let r = sqrt_floor(n - 1);
        if (r + 1) * (r + 1) <= n {
            r + 1
        } else {
            r
        }
    }
}

/// The level derived from a cumulative XP total.
pub open spec fn level_of(xp: int) -> int {
    sqrt_floor(xp / 100)
}

/// `sqrt_floor(n)` is squeezed between the two neighbouring squares.
pub proof fn lemma_sqrt_floor_bounds(n: int)
    requires
        n >= 0,
    ensures
        0 <= sqrt_floor(n),
        sqrt_floor(n) * sqrt_floor(n) <= n,
        n < (sqrt_floor(n) + 1) * (sqrt_floor(n) + 1),
    decreases n,
{
    if n < 1 {
        assert(sqrt_floor(n) == 0);
    } else {
        lemma_sqrt_floor_bounds(n - 1);
        let r = sqrt_floor(n - 1);
        if (r + 1) * (r + 1) <= n {
            assert(n - 1 < (r + 1) * (r + 1));
            assert((r + 1) * (r + 1) == n);
            assert(((r + 1) + 1) * ((r + 1) + 1) == (r + 1) * (r + 1) + 2 * r + 3)
                by (nonlinear_arith);
        }
    }
}

/// Any `r` squeezed between the neighbouring squares of `n` is `sqrt_floor(n)`.
pub proof fn lemma_sqrt_floor_unique(n: int, r: int)
    requires
        n >= 0,
        0 <= r,
        r * r <= n,
        n < (r + 1) * (r + 1),
    ensures
        r == sqrt_floor(n),
{
    lemma_sqrt_floor_bounds(n);
    let s = sqrt_floor(n);
    if r < s {
        assert((r + 1) * (r + 1) <= s * s) by (nonlinear_arith)
            requires
                0 <= r,
                r + 1 <= s,
        ;
    }
    if s < r {
        assert((s + 1) * (s + 1) <= r * r) by (nonlinear_arith)
            requires
                0 <= s,
                s + 1 <= r,
        ;
    }
}

/// Smallest power-of-ten-scale bound whose square exceeds `i64::MAX / 100`;
/// the binary search below stays within it, so squaring never overflows.
const SQRT_HI: i64 = 303_700_050;

/// Compute the level for a cumulative XP total: `floor(sqrt(xp / 100))`.
pub fn compute_level(xp: i64) -> (level: i64)
    requires
        0 <= xp,
    ensures
        level == level_of(xp as int),
        0 <= level,
{
    let q: i64 = xp / 100;
    proof {
        lemma_div_is_ordered(xp as int, i64::MAX as int, 100);
        assert((i64::MAX as int) / 100 < 303_700_050 * 303_700_050);
    }
    let mut lo: i64 = 0;
    let mut hi: i64 = SQRT_HI;
    while lo + 1 < hi
        invariant
            0 <= lo < hi <= 303_700_050,
            lo * lo <= q,
            q < hi * hi,
        decreases hi - lo,
    {
        let mid: i64 = lo + (hi - lo) / 2;
        proof {
            assert(lo < mid < hi);
            assert(mid * mid <= 303_700_050 * 303_700_050) by (nonlinear_arith)
                requires
                    0 <= mid <= 303_700_050,
            ;
        }
        if mid * mid <= q {
            lo = mid;
        } else {
            hi = mid;
        }
    }
    proof {
        lemma_sqrt_floor_unique(q as int, lo as int);
    }
    lo
}

} // verus!
