//! Integer roots.

use vstd::prelude::*;
use crate::content_pool::math::{is_floor_sqrt, isqrt, isqrt_u128};
use crate::errors::ErrorCode;

verus! {

/// `x^3`.
pub open spec fn cube(x: int) -> int {
    x * x * x
}

/// `r` is the floor of the cube root of `n`.
pub open spec fn is_floor_cbrt(n: int, r: int) -> bool {
    0 <= r && cube(r) <= n < cube(r + 1)
}

/// The floor of the cube root of the largest 128-bit word.
pub const CBRT_MAX: u128 = 6_981_463_658_331;

/// The cube grows with its base.
pub proof fn lemma_cube_monotone(a: int, b: int)
    requires
        0 <= a <= b,
    ensures
        cube(a) <= cube(b),
        0 <= cube(a),
        a * a <= b * b,
        0 <= a * a,
{
    assert(a * a <= b * b) by (nonlinear_arith)
        requires
            0 <= a <= b,
    ;
    assert(0 <= a * a) by (nonlinear_arith);
    assert((a * a) * a <= (b * b) * b) by (nonlinear_arith)
        requires
            0 <= a <= b,
            0 <= a * a <= b * b,
    ;
    assert(0 <= (a * a) * a) by (nonlinear_arith)
        requires
            0 <= a,
            0 <= a * a,
    ;
}

/// At most one number is the floor of the cube root of `n`.
pub proof fn lemma_floor_cbrt_unique(n: int, a: int, b: int)
    requires
        is_floor_cbrt(n, a),
        is_floor_cbrt(n, b),
    ensures
        a == b,
{
    if a < b {
        lemma_cube_monotone(a + 1, b);
    } else if b < a {
        lemma_cube_monotone(b + 1, a);
    }
}

/// The floor of the cube root of `n`.
pub open spec fn icbrt(n: int) -> int {
    choose|r: int| is_floor_cbrt(n, r)
}

/// A number whose cube is at most `n` and whose successor's cube is above
/// `n` is `icbrt(n)`.
pub proof fn lemma_icbrt_is(n: int, r: int)
    requires
        is_floor_cbrt(n, r),
    ensures
        icbrt(n) == r,
{
    lemma_floor_cbrt_unique(n, r, icbrt(n));
}

/// Floor of the square root. It cannot fail.
pub fn integer_sqrt(n: u128) -> (res: Result<u128, ErrorCode>)
    ensures
        res == Ok::<u128, ErrorCode>(isqrt(n as int) as u128),
        is_floor_sqrt(n as int, isqrt(n as int)),
{
    Ok(isqrt_u128(n))
}

/// Floor of the cube root, by bisection. It cannot fail.
pub fn integer_cbrt(n: u128) -> (res: Result<u128, ErrorCode>)
    ensures
        res == Ok::<u128, ErrorCode>(icbrt(n as int) as u128),
        is_floor_cbrt(n as int, icbrt(n as int)),
        icbrt(n as int) <= CBRT_MAX,
{
    let mut lo: u128 = 0;
    let mut hi: u128 = CBRT_MAX;
    proof {
        assert(cube(0) == 0) by (nonlinear_arith);
        assert(cube(CBRT_MAX as int + 1) > u128::MAX) by (nonlinear_arith);
    }
    while lo < hi
        invariant
            lo <= hi <= CBRT_MAX,
            cube(lo as int) <= n < cube(hi as int + 1),
        decreases hi - lo,
    {
        let mid: u128 = lo + (hi - lo + 1) / 2;
        proof {
            lemma_cube_monotone(mid as int, CBRT_MAX as int);
            assert(cube(CBRT_MAX as int) <= u128::MAX) by (nonlinear_arith);
            assert((CBRT_MAX as int) * (CBRT_MAX as int) <= u128::MAX) by (nonlinear_arith);
        }
        let cubed: u128 = mid * mid * mid;
        if cubed <= n {
            lo = mid;
        } else {
            hi = mid - 1;
        }
    }
    proof {
        lemma_icbrt_is(n as int, lo as int);
    }
    Ok(lo)
}

} // verus!
