//! Scalar fixed-point arithmetic: the number `x` is represented by the raw
//! integer `x * FX_ONE`, rounded toward zero.  All renderer math is built on
//! the helpers here, so every contract in the crate bottoms out in `tdiv`
//! (truncating division) and `isqrt_spec` (integer square root).

use vstd::prelude::*;

verus! {

use vstd::arithmetic::div_mod::lemma_fundamental_div_mod;

/// Raw representation of the real number 1.0.
pub const FX_ONE: i64 = 65536;

/// Truncating (round-toward-zero) division, the rounding used by every
/// fixed-point operation in this crate.  Callers guarantee `d > 0`.
pub open spec fn tdiv(p: int, d: int) -> int {
    if p >= 0 {
        p / d
    } else {
        -((-p) / d)
    }
}

/// Magnitude of a truncating quotient never exceeds the exact quotient.
pub proof fn lemma_tdiv_bound(p: int, d: int)
    requires
        d > 0,
    ensures
        p >= 0 ==> 0 <= tdiv(p, d) <= p / d && tdiv(p, d) * d <= p,
        p < 0 ==> 0 >= tdiv(p, d) && tdiv(p, d) * d >= p,
        -p <= tdiv(p, d) * d <= p || p <= tdiv(p, d) * d <= -p,
{
    if p >= 0 {
        lemma_fundamental_div_mod(p, d);
        assert(tdiv(p, d) * d <= p) by (nonlinear_arith)
            requires
                d > 0,
                p >= 0,
                tdiv(p, d) == p / d,
                p == d * (p / d) + p % d,
                p % d >= 0;
    } else {
        let q = (-p) / d;
        lemma_fundamental_div_mod(-p, d);
        assert(q >= 0) by (nonlinear_arith)
            requires
                d > 0,
                -p > 0,
                -p == d * q + (-p) % d,
                0 <= (-p) % d < d;
        assert(q * d <= -p) by (nonlinear_arith)
            requires
                d > 0,
                -p == d * q + (-p) % d,
                (-p) % d >= 0;
        assert(tdiv(p, d) == -q);
        assert((-q) * d == -(q * d)) by (nonlinear_arith);
    }
}

/// Truncating division on machine integers, proved equal to `tdiv`.
pub fn tdiv128(p: i128, d: i128) -> (r: i128)
    requires
        0 < d,
        i128::MIN < p,
    ensures
        r == tdiv(p as int, d as int),
{
    if p >= 0 {
        let q: u128 = (p as u128) / (d as u128);
        proof {
            lemma_tdiv_bound(p as int, d as int);
        }
        q as i128
    } else {
        let q: u128 = ((-p) as u128) / (d as u128);
        proof {
            lemma_tdiv_bound(p as int, d as int);
        }
        -(q as i128)
    }
}

/// Fixed-point product `a * b`, that is `a * b / FX_ONE` rounded toward zero.
pub open spec fn fx_mul_spec(a: int, b: int) -> int {
    tdiv(a * b, FX_ONE as int)
}

pub fn fx_mul(a: i64, b: i64) -> (r: i64)
    requires
        i64::MIN <= fx_mul_spec(a as int, b as int) <= i64::MAX,
    ensures
        r == fx_mul_spec(a as int, b as int),
{
    let p: i128 = (a as i128) * (b as i128);
    let q: i128 = tdiv128(p, 65536);
    q as i64
}

/// Fixed-point quotient `a / b` for `b != 0`: `a * FX_ONE / b` rounded toward
/// zero.  A negative divisor flips the sign of the result.
pub open spec fn fx_div_spec(a: int, b: int) -> int {
    if b > 0 {
        tdiv(a * (FX_ONE as int), b)
    } else {
        -tdiv(a * (FX_ONE as int), -b)
    }
}

pub fn fx_div(a: i64, b: i64) -> (r: i64)
    requires
        b != 0,
        i64::MIN < fx_div_spec(a as int, b as int) <= i64::MAX,
    ensures
        r == fx_div_spec(a as int, b as int),
{
    let p: i128 = (a as i128) * 65536;
    if b > 0 {
        let q: i128 = tdiv128(p, b as i128);
        q as i64
    } else {
        let q: i128 = tdiv128(p, -(b as i128));
        (-q) as i64
    }
}

/// Truncating division is an odd function of the dividend.
pub proof fn lemma_tdiv_neg(p: int, d: int)
    requires
        0 < d,
    ensures
        tdiv(-p, d) == -tdiv(p, d),
{
}

/// A common factor of dividend and divisor cancels.
pub proof fn lemma_tdiv_cancel(x: int, d: int)
    requires
        0 < d,
    ensures
        tdiv(d * x, d) == x,
{
    if x >= 0 {
        vstd::arithmetic::div_mod::lemma_div_multiples_vanish(x, d);
    } else {
        vstd::arithmetic::div_mod::lemma_div_multiples_vanish(-x, d);
        assert(-(d * x) == d * (-x)) by (nonlinear_arith);
    }
}

/// Scaling dividend and divisor by the same positive factor keeps the
/// truncating quotient.
pub proof fn lemma_tdiv_scale(k: int, p: int, d: int)
    requires
        0 < k,
        0 < d,
    ensures
        tdiv(k * p, k * d) == tdiv(p, d),
{
    assert(k * d > 0) by (nonlinear_arith)
        requires
            k > 0,
            d > 0;
    if p >= 0 {
        assert(k * p >= 0) by (nonlinear_arith)
            requires
                k > 0,
                p >= 0;
        vstd::arithmetic::div_mod::lemma_div_denominator(k * p, k, d);
        vstd::arithmetic::div_mod::lemma_div_multiples_vanish(p, k);
        assert(tdiv(k * p, k * d) == ((k * p) / k) / d);
    } else {
        assert(-(k * p) == k * (-p) && k * (-p) >= 0 && k * p < 0) by (nonlinear_arith)
            requires
                k > 0,
                p < 0;
        vstd::arithmetic::div_mod::lemma_div_denominator(k * (-p), k, d);
        vstd::arithmetic::div_mod::lemma_div_multiples_vanish(-p, k);
    }
}

/// A truncating quotient never exceeds the dividend's magnitude bound.
pub proof fn lemma_div_shrinks_abs(p: int, m: int, d: int)
    requires
        -m <= p <= m,
        0 <= m,
        0 < d,
    ensures
        -m <= tdiv(p, d) <= m,
        -(m / d) <= tdiv(p, d) <= m / d,
{
    lemma_tdiv_bound(p, d);
    if p >= 0 {
        vstd::arithmetic::div_mod::lemma_div_is_ordered(p, m, d);
        vstd::arithmetic::div_mod::lemma_div_pos_is_pos(p, d);
    } else {
        vstd::arithmetic::div_mod::lemma_div_is_ordered(-p, m, d);
        vstd::arithmetic::div_mod::lemma_div_pos_is_pos(-p, d);
    }
    vstd::arithmetic::div_mod::lemma_div_is_ordered_by_denominator(m, 1, d);
    vstd::arithmetic::div_mod::lemma_div_multiples_vanish(m, 1);
}

/// Floor of the square root, as a recursive specification.
pub open spec fn isqrt_spec(n: nat) -> nat
    decreases n,
{
    if n == 0 {
        0
    } else {
        let r = 2 * isqrt_spec(n / 4);
        if (r + 1) * (r + 1) <= n {
            r + 1
        } else {
            r
        }
    }
}

/// `isqrt_spec` really is the floor of the square root.
pub proof fn lemma_isqrt_bounds(n: nat)
    ensures
        isqrt_spec(n) * isqrt_spec(n) <= n,
        n < (isqrt_spec(n) + 1) * (isqrt_spec(n) + 1),
    decreases n,
{
    let s = isqrt_spec(n);
    if n == 0 {
        assert(s == 0);
        assert(n < (s + 1) * (s + 1)) by (nonlinear_arith)
            requires
                s == 0,
                n == 0;
    } else {
        let m = n / 4;
        lemma_isqrt_bounds(m);
        let r0 = isqrt_spec(m);
        let r = 2 * r0;
        assert(4 * m <= n < 4 * (m + 1));
        assert(r * r <= 4 * m) by (nonlinear_arith)
            requires
                r == 2 * r0,
                r0 * r0 <= m;
        assert(n < (r + 2) * (r + 2)) by (nonlinear_arith)
            requires
                r == 2 * r0,
                n < 4 * (m + 1),
                m < (r0 + 1) * (r0 + 1);
        if (r + 1) * (r + 1) <= n {
            assert(s == r + 1);
            assert(s * s <= n && n < (s + 1) * (s + 1)) by (nonlinear_arith)
                requires
                    s == r + 1,
                    (r + 1) * (r + 1) <= n,
                    n < (r + 2) * (r + 2);
        } else {
            assert(s == r);
            assert(s * s <= n && n < (s + 1) * (s + 1)) by (nonlinear_arith)
                requires
                    s == r,
                    r * r <= 4 * m,
                    4 * m <= n,
                    !((r + 1) * (r + 1) <= n);
        }
    }
}

/// Any integer bracketed the same way equals `isqrt_spec(n)`.
pub proof fn lemma_isqrt_unique(n: nat, s: nat)
    requires
        s * s <= n,
        n < (s + 1) * (s + 1),
    ensures
        s == isqrt_spec(n),
{
    lemma_isqrt_bounds(n);
    let t = isqrt_spec(n);
    if s < t {
        assert(false) by (nonlinear_arith)
            requires
                s < t,
                t * t <= n,
                n < (s + 1) * (s + 1);
    }
    if t < s {
        assert(false) by (nonlinear_arith)
            requires
                t < s,
                s * s <= n,
                n < (t + 1) * (t + 1);
    }
}

/// Floor square root on machine words, by binary search on the result.
pub fn isqrt(n: u128) -> (r: u128)
    ensures
        r == isqrt_spec(n as nat),
        r * r <= n,
{
    let mut lo: u128 = 0;
    let mut hi: u128 = 18446744073709551616;
    proof {
        assert((18446744073709551616 as int) * (18446744073709551616 as int) > u128::MAX as int)
            by (nonlinear_arith);
    }
    while lo + 1 < hi
        invariant
            lo < hi <= 18446744073709551616,
            (lo as int) * (lo as int) <= n as int,
            (n as int) < (hi as int) * (hi as int),
        decreases hi - lo,
    {
        let mid: u128 = lo + (hi - lo) / 2;
        assert(lo < mid < hi);
        assert((mid as int) * (mid as int) < u128::MAX as int) by (nonlinear_arith)
            requires
                mid < 18446744073709551616;
        if mid * mid <= n {
            lo = mid;
        } else {
            hi = mid;
        }
    }
    proof {
        lemma_isqrt_unique(n as nat, lo as nat);
    }
    lo
}

/// Clamp `x` into `[lo, hi]`.
pub open spec fn clamp_spec(x: int, lo: int, hi: int) -> int {
    if x < lo {
        lo
    } else if x > hi {
        hi
    } else {
        x
    }
}

pub fn clamp_i64(x: i64, lo: i64, hi: i64) -> (r: i64)
    requires
        lo <= hi,
    ensures
        r == clamp_spec(x as int, lo as int, hi as int),
{
    if x < lo {
        lo
    } else if x > hi {
        hi
    } else {
        x
    }
}

} // verus!
