//! Integer square root and symmetric clamping: the two numeric
//! primitives the integrator is built on.

use vstd::prelude::*;

verus! {

/// `r` is the floor of the square root of `n`.
pub open spec fn is_sqrt_of(n: int, r: int) -> bool {
    &&& 0 <= r
    &&& r * r <= n
    &&& n < (r + 1) * (r + 1)
}

/// The floor of the square root of `n` (for `n >= 0`).
pub open spec fn sqrt_of(n: int) -> int {
    choose|r: int| is_sqrt_of(n, r)
}

/// The floor of a square root is unique.
pub proof fn lemma_sqrt_unique(n: int, r1: int, r2: int)
    requires
        is_sqrt_of(n, r1),
        is_sqrt_of(n, r2),
    ensures
        r1 == r2,
{
    if r1 < r2 {
        assert((r1 + 1) * (r1 + 1) <= r2 * r2) by (nonlinear_arith)
            requires 0 <= r1, 0 <= r2, r1 < r2,
        {
        }
    }
    if r2 < r1 {
        assert((r2 + 1) * (r2 + 1) <= r1 * r1) by (nonlinear_arith)
            requires 0 <= r1, 0 <= r2, r2 < r1,
        {
        }
    }
}

/// Any value satisfying the floor-square-root property is `sqrt_of(n)`.
pub proof fn lemma_sqrt_is(n: int, r: int)
    requires
        is_sqrt_of(n, r),
    ensures
        sqrt_of(n) == r,
{
    assert(is_sqrt_of(n, sqrt_of(n))) by {
        assert(exists|q: int| is_sqrt_of(n, q));
    }
    lemma_sqrt_unique(n, sqrt_of(n), r);
}

/// Floor of the square root of a 128-bit value, by bisection.
pub fn isqrt(n: u128) -> (r: u64)
    ensures
        is_sqrt_of(n as int, r as int),
        r as int == sqrt_of(n as int),
{
    let mut lo: u128 = 0;
    let mut hi: u128 = 0x1_0000_0000_0000_0000;
    assert((hi as int) * (hi as int) > n as int) by (nonlinear_arith)
        requires hi == 0x1_0000_0000_0000_0000u128, n <= u128::MAX,
    {
    }
    while lo + 1 < hi
        invariant
            lo < hi <= 0x1_0000_0000_0000_0000u128,
            (lo as int) * (lo as int) <= n as int,
            (n as int) < (hi as int) * (hi as int),
        decreases hi - lo,
    {
        let mid: u128 = lo + (hi - lo) / 2;
        assert(lo < mid < hi);
        assert(mid * mid <= u128::MAX) by (nonlinear_arith)
            requires mid <= 0xffff_ffff_ffff_ffffu128,
        {
        }
        if mid * mid <= n {
            lo = mid;
        } else {
            hi = mid;
        }
    }
    assert(is_sqrt_of(n as int, lo as int));
    proof {
        lemma_sqrt_is(n as int, lo as int);
    }
    lo as u64
}

/// The largest magnitude an `i64` field may carry; results are clamped
/// symmetrically to `[-FIX_LIMIT, FIX_LIMIT]` when they leave it.
pub const FIX_LIMIT: i64 = 9_223_372_036_854_775_807;

/// Clamp to the symmetric range of a 64-bit fixed-point value.
pub open spec fn clamp_fix(x: int) -> int {
    if x > FIX_LIMIT {
        FIX_LIMIT as int
    } else if x < -FIX_LIMIT {
        -FIX_LIMIT
    } else {
        x
    }
}

/// Clamp a 128-bit intermediate into the 64-bit fixed-point range.
pub fn clamp_to_fix(x: i128) -> (r: i64)
    ensures
        r as int == clamp_fix(x as int),
{
    if x > FIX_LIMIT as i128 {
        FIX_LIMIT
    } else if x < -(FIX_LIMIT as i128) {
        -FIX_LIMIT
    } else {
        x as i64
    }
}

} // verus!
