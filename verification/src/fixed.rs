//! Signed fixed-point scalar arithmetic with an explicit binary scale.
//!
//! Every screen coordinate, depth, normal component and light intensity in
//! the pipeline is an `i64` holding a real number times `FX_ONE`.  All
//! operations are total: products and quotients are computed in 128-bit
//! intermediates, then saturated back into the `i64` range, so no pipeline
//! stage can overflow or panic whatever its inputs are.

use vstd::prelude::*;

verus! {

/// The fixed-point scale: an `i64` value v stands for the real number v / FX_ONE.
pub const FX_ONE: i64 = 65536;

/// Saturate a mathematical integer into the `i64` range.
pub open spec fn sat64(x: int) -> int {
    if x > i64::MAX as int {
        i64::MAX as int
    } else if x < i64::MIN as int {
        i64::MIN as int
    } else {
        x
    }
}

/// Division truncated toward zero (the machine's signed division), for b != 0.
pub open spec fn tdiv(a: int, b: int) -> int {
    let q = abs_int(a) / abs_int(b);
    if (a >= 0) == (b >= 0) {
        q
    } else {
        -q
    }
}

pub open spec fn abs_int(a: int) -> int {
    if a >= 0 {
        a
    } else {
        -a
    }
}

/// Fixed-point sum, saturated.
pub open spec fn fx_add(a: int, b: int) -> int {
    sat64(a + b)
}

/// Fixed-point difference, saturated.
pub open spec fn fx_sub(a: int, b: int) -> int {
    sat64(a - b)
}

/// Fixed-point product, saturated: (a * b) / FX_ONE truncated toward zero.
pub open spec fn fx_mul(a: int, b: int) -> int {
    sat64(tdiv(a * b, FX_ONE as int))
}

/// Fixed-point quotient, saturated; division by zero yields zero.
pub open spec fn fx_div(a: int, b: int) -> int {
    if b == 0 {
        0
    } else {
        sat64(tdiv(a * FX_ONE, b))
    }
}

/// Clamp into a closed interval.
pub open spec fn clamp_int(x: int, lo: int, hi: int) -> int {
    if x < lo {
        lo
    } else if x > hi {
        hi
    } else {
        x
    }
}

/// The integer square root: the unique r >= 0 with r * r <= n < (r + 1) * (r + 1).
pub open spec fn isqrt_int(n: int) -> int
    decreases n,
{
    if n <= 0 {
        0
    } else {
        let r = isqrt_int(n - 1);
        if (r + 1) * (r + 1) <= n {
            r + 1
        } else {
            r
        }
    }
}

/// Fixed-point square root of a nonnegative value; negative inputs yield zero.
pub open spec fn fx_sqrt(a: int) -> int {
    if a <= 0 {
        0
    } else {
        isqrt_int(a * FX_ONE)
    }
}

pub proof fn lemma_isqrt_bounds(n: int)
    requires
        n >= 0,
    ensures
        isqrt_int(n) >= 0,
        isqrt_int(n) * isqrt_int(n) <= n,
        n < (isqrt_int(n) + 1) * (isqrt_int(n) + 1),
    decreases n,
{
    if n > 0 {
        lemma_isqrt_bounds(n - 1);
        let r = isqrt_int(n - 1);
        if (r + 1) * (r + 1) <= n {
            assert(n < (r + 2) * (r + 2)) by (nonlinear_arith)
                requires
                    n - 1 < (r + 1) * (r + 1),
                    r >= 0;
        }
    }
}

pub proof fn lemma_isqrt_unique(n: int, r: int)
    requires
        n >= 0,
        r >= 0,
        r * r <= n,
        n < (r + 1) * (r + 1),
    ensures
        r == isqrt_int(n),
{
    lemma_isqrt_bounds(n);
    let s = isqrt_int(n);
    if r < s {
        assert((r + 1) * (r + 1) <= s * s) by (nonlinear_arith)
            requires
                0 <= r,
                r + 1 <= s;
    }
    if s < r {
        assert((s + 1) * (s + 1) <= r * r) by (nonlinear_arith)
            requires
                0 <= s,
                s + 1 <= r;
    }
}

/// Truncating division undoes multiplication by the same positive factor.
pub proof fn lemma_tdiv_cancel(z: int, k: int)
    requires
        k > 0,
    ensures
        tdiv(z * k, k) == z,
{
    if z >= 0 {
        assert(z * k >= 0) by (nonlinear_arith)
            requires
                z >= 0,
                k > 0;
        vstd::arithmetic::div_mod::lemma_div_multiples_vanish(z, k);
        assert(k * z == z * k) by (nonlinear_arith);
        assert(abs_int(z * k) / abs_int(k) == (z * k) / k);
    } else {
        assert(z * k < 0) by (nonlinear_arith)
            requires
                z < 0,
                k > 0;
        assert(-(z * k) == (-z) * k) by (nonlinear_arith);
        vstd::arithmetic::div_mod::lemma_div_multiples_vanish(-z, k);
        assert(k * (-z) == (-z) * k) by (nonlinear_arith);
        assert(abs_int(z * k) == (-z) * k);
        assert(tdiv(z * k, k) == -(((-z) * k) / k));
    }
}

/// Saturate a 128-bit intermediate into `i64`.
pub fn sat_narrow(x: i128) -> (r: i64)
    ensures
        r as int == sat64(x as int),
{
    if x > i64::MAX as i128 {
        i64::MAX
    } else if x < i64::MIN as i128 {
        i64::MIN
    } else {
        x as i64
    }
}

/// Truncating division of 128-bit intermediates, matching `tdiv`.
pub(crate) fn tdiv128(a: i128, b: i128) -> (r: i128)
    requires
        b != 0,
        a != i128::MIN,
        b != i128::MIN,
    ensures
        r as int == tdiv(a as int, b as int),
        abs_int(r as int) <= abs_int(a as int),
{
    let aa: u128 = if a >= 0 {
        a as u128
    } else {
        (-a) as u128
    };
    let ab: u128 = if b >= 0 {
        b as u128
    } else {
        (-b) as u128
    };
    let q: u128 = aa / ab;
    assert(q <= aa) by (nonlinear_arith)
        requires
            ab >= 1,
            q == aa / ab;
    if (a >= 0) == (b >= 0) {
        q as i128
    } else {
        -(q as i128)
    }
}

/// Truncating division by a positive divisor, as the shading patterns use it.
pub fn tdiv_e(a: i64, b: i64) -> (r: i64)
    requires
        b > 0,
    ensures
        r as int == tdiv(a as int, b as int),
        abs_int(r as int) <= abs_int(a as int),
        a >= 0 ==> 0 <= r <= a,
{
    let q: i128 = tdiv128(a as i128, b as i128);
    assert(a < 0 ==> q <= 0);
    q as i64
}

pub fn fx_add_e(a: i64, b: i64) -> (r: i64)
    ensures
        r as int == fx_add(a as int, b as int),
{
    sat_narrow(a as i128 + b as i128)
}

pub fn fx_sub_e(a: i64, b: i64) -> (r: i64)
    ensures
        r as int == fx_sub(a as int, b as int),
{
    sat_narrow(a as i128 - b as i128)
}

pub fn fx_mul_e(a: i64, b: i64) -> (r: i64)
    ensures
        r as int == fx_mul(a as int, b as int),
{
    let a1: i128 = a as i128;
    let b1: i128 = b as i128;
    proof {
        let ai: int = a1 as int;
        let bi: int = b1 as int;
        assert(ai * bi <= 0x4000_0000_0000_0000_0000_0000_0000_0000
            && ai * bi >= -0x4000_0000_0000_0000_0000_0000_0000_0000) by (nonlinear_arith)
            requires
                -0x8000_0000_0000_0000 <= ai <= 0x8000_0000_0000_0000,
                -0x8000_0000_0000_0000 <= bi <= 0x8000_0000_0000_0000;
    }
    let p: i128 = a1 * b1;
    let q: i128 = tdiv128(p, FX_ONE as i128);
    sat_narrow(q)
}

pub fn fx_div_e(a: i64, b: i64) -> (r: i64)
    ensures
        r as int == fx_div(a as int, b as int),
{
    if b == 0 {
        0
    } else {
        let a1: i128 = a as i128;
        proof {
            assert(-0x1_0000_0000_0000_0000_0000 < (a1 as int) * 65536
                < 0x1_0000_0000_0000_0000_0000) by (nonlinear_arith)
                requires
                    -0x8000_0000_0000_0000 <= a1 as int <= 0x7fff_ffff_ffff_ffff;
        }
        let n: i128 = a1 * (FX_ONE as i128);
        let q: i128 = tdiv128(n, b as i128);
        sat_narrow(q)
    }
}

/// Integer square root of a 128-bit value below 2^80, by binary search.
fn isqrt128(n: u128) -> (r: u128)
    requires
        n < 0x100000000000000000000,
    ensures
        r as int == isqrt_int(n as int),
{
    let mut lo: u128 = 0;
    let mut hi: u128 = 0x10000000000;
    assert(hi * hi > n) by (nonlinear_arith)
        requires
            hi == 0x10000000000,
            n < 0x100000000000000000000;
    while lo + 1 < hi
        invariant
            lo < hi,
            hi <= 0x10000000000,
            lo * lo <= n,
            n < hi * hi,
        decreases hi - lo,
    {
        let mid: u128 = lo + (hi - lo) / 2;
        assert(lo < mid < hi);
        assert(mid * mid < 0x100000000000000000000000000) by (nonlinear_arith)
            requires
                mid < 0x10000000000;
        if mid * mid <= n {
            lo = mid;
        } else {
            hi = mid;
        }
    }
    proof {
        lemma_isqrt_unique(n as int, lo as int);
    }
    lo
}

pub fn fx_sqrt_e(a: i64) -> (r: i64)
    ensures
        r as int == fx_sqrt(a as int),
{
    if a <= 0 {
        0
    } else {
        let n: u128 = (a as u128) * (FX_ONE as u128);
        assert(n < 0x100000000000000000000) by (nonlinear_arith)
            requires
                n == (a as u128) * 65536,
                (a as u128) < 0x8000_0000_0000_0000;
        let r: u128 = isqrt128(n);
        proof {
            lemma_isqrt_bounds(n as int);
            assert(isqrt_int(n as int) * isqrt_int(n as int) <= n);
            assert(isqrt_int(n as int) < 0x100000000000) by (nonlinear_arith)
                requires
                    isqrt_int(n as int) >= 0,
                    isqrt_int(n as int) * isqrt_int(n as int) <= n as int,
                    n < 0x100000000000000000000;
        }
        r as i64
    }
}

} // verus!
