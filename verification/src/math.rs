//! Fixed-point scalars and the exact integer arithmetic the meshing pipeline
//! is built on.
//!
//! Every geometric quantity in this crate is a signed 16.16 fixed-point
//! number: an `i64` whose value is the represented number times
//! [`FP_ONE`]. Working over integers keeps every stage of the pipeline
//! exact, so meshing the same inputs twice gives bit-identical output.

use vstd::arithmetic::div_mod::{
    lemma_fundamental_div_mod, lemma_fundamental_div_mod_converse,
};
use vstd::prelude::*;

verus! {

/// The fixed-point unit: coordinates carry 16 fractional bits.
pub const FP_ONE: i64 = 65536;

/// A 3-vector of 16.16 fixed-point coordinates.
#[derive(Clone, Copy, PartialEq, Eq, Structural, Debug)]
pub struct FixedVec3 {
    pub x: i64,
    pub y: i64,
    pub z: i64,
}

/// `v` brought into the range of `i64`, saturating at the ends.
pub open spec fn clamp_to_i64(v: int) -> i64 {
    if v > i64::MAX {
        i64::MAX
    } else if v < i64::MIN {
        i64::MIN
    } else {
        v as i64
    }
}

/// Saturates a wide intermediate value into an `i64`.
pub fn clamp_i64(v: i128) -> (r: i64)
    ensures
        r == clamp_to_i64(v as int),
{
    if v > i64::MAX as i128 {
        i64::MAX
    } else if v < i64::MIN as i128 {
        i64::MIN
    } else {
        v as i64
    }
}

/// Flooring division, the quotient rounded toward negative infinity.
///
/// For a positive divisor this is exactly the mathematical (Euclidean)
/// quotient, which is what `/` means on `int` in specifications.
pub fn floor_div_i128(a: i128, d: i128) -> (q: i128)
    requires
        0 < d,
        i128::MIN < a,
    ensures
        q == a as int / d as int,
{
    if a >= 0 {
        let qu: u128 = (a as u128) / (d as u128);
        proof {
            assert(a as u128 == a as int);
            assert(d as u128 == d as int);
        }
        qu as i128
    } else {
        // a < 0: divide the magnitude, then round away from zero when the
        // remainder is non-zero.
        let na: u128 = (-a) as u128;
        let qu: u128 = na / (d as u128);
        let ru: u128 = na % (d as u128);
        proof {
            assert(na == -(a as int));
            lemma_fundamental_div_mod(na as int, d as int);
            assert(na as int == d as int * (qu as int) + ru as int);
            assert(qu as int <= na as int) by (nonlinear_arith)
                requires
                    na as int == d as int * (qu as int) + ru as int,
                    0 < d as int,
                    0 <= qu as int,
                    0 <= ru as int,
            {
            }
        }
        if ru == 0 {
            let q: i128 = -(qu as i128);
            proof {
                assert(a as int == q as int * (d as int) + 0) by (nonlinear_arith)
                    requires
                        q as int == -(qu as int),
                        na as int == d as int * (qu as int),
                        a as int == -(na as int),
                {
                }
                lemma_fundamental_div_mod_converse(a as int, d as int, q as int, 0);
            }
            q
        } else {
            let q: i128 = -(qu as i128) - 1;
            proof {
                assert(a as int == q as int * (d as int) + (d as int - ru as int))
                    by (nonlinear_arith)
                    requires
                        q as int == -(qu as int) - 1,
                        na as int == d as int * (qu as int) + ru as int,
                        a as int == -(na as int),
                {
                }
                lemma_fundamental_div_mod_converse(
                    a as int,
                    d as int,
                    q as int,
                    d as int - ru as int,
                );
            }
            q
        }
    }
}

/// The integer square root: the largest `r` with `r * r <= n`.
pub open spec fn isqrt_spec(n: int) -> int
    decreases n,
{
    if n <= 0 {
        0
    } else {
        let r = isqrt_spec(n - 1);
        if (r + 1) * (r + 1) <= n {
            r + 1
        } else {
            r
        }
    }
}

/// The integer square root brackets its argument between two squares.
pub proof fn lemma_isqrt_bounds(n: int)
    requires
        0 <= n,
    ensures
        0 <= isqrt_spec(n),
        isqrt_spec(n) * isqrt_spec(n) <= n,
        n < (isqrt_spec(n) + 1) * (isqrt_spec(n) + 1),
    decreases n,
{
    if n > 0 {
        lemma_isqrt_bounds(n - 1);
        let r = isqrt_spec(n - 1);
        assert((r + 1) * (r + 1) < (r + 2) * (r + 2)) by (nonlinear_arith)
            requires
                0 <= r,
        {
        }
    }
}

/// Any `r` bracketing `n` between `r * r` and `(r + 1) * (r + 1)` is the
/// integer square root.
pub proof fn lemma_isqrt_unique(n: int, r: int)
    requires
        0 <= r,
        r * r <= n,
        n < (r + 1) * (r + 1),
    ensures
        r == isqrt_spec(n),
{
    lemma_isqrt_bounds(n);
    let s = isqrt_spec(n);
    assert(r == s) by (nonlinear_arith)
        requires
            0 <= r,
            0 <= s,
            r * r <= n < (r + 1) * (r + 1),
            s * s <= n < (s + 1) * (s + 1),
    {
    }
}

/// Computes the integer square root by bisection.
pub fn isqrt_u128(n: u128) -> (r: u64)
    ensures
        r as int == isqrt_spec(n as int),
{
    let mut lo: u128 = 0;
    let mut hi: u128 = 0x10000000000000000;
    while lo + 1 < hi
        invariant
            lo < hi <= 0x10000000000000000,
            (lo as int) * (lo as int) <= n as int,
            (n as int) < (hi as int) * (hi as int),
        decreases hi - lo,
    {
        let mid: u128 = lo + (hi - lo) / 2;
        proof {
            assert(mid as int * mid as int <= 0xffffffffffffffff * 0xffffffffffffffff)
                by (nonlinear_arith)
                requires
                    0 <= mid as int <= 0xffffffffffffffff,
            {
            }
        }
        if mid * mid <= n {
            lo = mid;
        } else {
            hi = mid;
        }
    }
    proof {
        lemma_isqrt_unique(n as int, lo as int);
    }
    lo as u64
}

} // verus!
