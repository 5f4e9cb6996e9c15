//! Fixed-point scalar arithmetic.
//!
//! Every scalar of the animation core is an `i64` holding a fixed-point
//! number: the stored integer is the real value multiplied by [`FX_ONE`].
//! Interpolation fractions, playback times, scale factors and transform
//! components all use this encoding, so every operation of the core is
//! exact integer arithmetic with a full functional specification.

use vstd::prelude::*;
use vstd::arithmetic::div_mod::{
    lemma_div_is_ordered, lemma_div_multiples_vanish, lemma_fundamental_div_mod,
    lemma_fundamental_div_mod_converse,
};
use vstd::arithmetic::mul::{lemma_mul_nonnegative, lemma_mul_unary_negation};

verus! {

/// The fixed-point unit: the integer standing for the real number one.
pub const FX_ONE: i64 = 1_000_000;

/// Largest magnitude of a time value (durations, keyframe times, the clock).
pub const TIME_BOUND: i64 = 1_000_000_000_000;

/// Largest magnitude of a translation component.
pub const TR_BOUND: i64 = 1_000_000_000_000;

/// Largest magnitude of a uniform scale factor.
pub const SCALE_BOUND: i64 = 1_000_000_000;

/// Largest magnitude of a dual-quaternion dual-part component.
pub const DUAL_BOUND: i64 = 4_000_000_000_000;

/// Magnitude of an integer.
pub open spec fn abs_int(a: int) -> int {
    if a >= 0 {
        a
    } else {
        -a
    }
}

/// Division rounding toward zero; meaningful for positive divisors.
pub open spec fn tdiv(a: int, b: int) -> int {
    if a >= 0 {
        a / b
    } else {
        -((-a) / b)
    }
}

/// `v` forced into the interval `[lo, hi]`.
pub open spec fn spec_clamp(v: int, lo: int, hi: int) -> int {
    if v < lo {
        lo
    } else if v > hi {
        hi
    } else {
        v
    }
}

/// `a * b / d`, rounded toward zero.
pub open spec fn spec_mul_div(a: int, b: int, d: int) -> int {
    tdiv(a * b, d)
}

/// Linear interpolation from `a` to `b` by the fraction `t / FX_ONE`.
pub open spec fn spec_lerp(a: int, b: int, t: int) -> int {
    a + tdiv((b - a) * t, FX_ONE as int)
}

/// Smaller of two integers.
pub open spec fn min_int(a: int, b: int) -> int {
    if a <= b {
        a
    } else {
        b
    }
}

/// Larger of two integers.
pub open spec fn max_int(a: int, b: int) -> int {
    if a <= b {
        b
    } else {
        a
    }
}

/// The magnitude of a product is the product of the magnitudes.
pub proof fn lemma_abs_mul(a: int, b: int)
    ensures
        abs_int(a * b) == abs_int(a) * abs_int(b),
{
    if a >= 0 && b >= 0 {
        lemma_mul_nonnegative(a, b);
    } else if a >= 0 && b < 0 {
        lemma_mul_nonnegative(a, -b);
        lemma_mul_unary_negation(a, b);
    } else if a < 0 && b >= 0 {
        lemma_mul_nonnegative(-a, b);
        lemma_mul_unary_negation(a, b);
    } else {
        lemma_mul_nonnegative(-a, -b);
        lemma_mul_unary_negation(a, b);
        lemma_mul_unary_negation(-a, b);
    }
}

/// The sign of a product follows the signs of its factors.
pub proof fn lemma_mul_sign(a: int, b: int)
    ensures
        a >= 0 && b >= 0 ==> a * b >= 0,
        a <= 0 && b <= 0 ==> a * b >= 0,
        a >= 0 && b <= 0 ==> a * b <= 0,
        a <= 0 && b >= 0 ==> a * b <= 0,
{
    assert(a >= 0 && b >= 0 ==> a * b >= 0) by (nonlinear_arith);
    assert(a <= 0 && b <= 0 ==> a * b >= 0) by (nonlinear_arith);
    assert(a >= 0 && b <= 0 ==> a * b <= 0) by (nonlinear_arith);
    assert(a <= 0 && b >= 0 ==> a * b <= 0) by (nonlinear_arith);
}

/// Bounded factors give a bounded product.
pub proof fn lemma_mul_abs_bound(x: int, y: int, bx: int, by: int)
    requires
        abs_int(x) <= bx,
        abs_int(y) <= by,
    ensures
        abs_int(x * y) <= bx * by,
{
    lemma_abs_mul(x, y);
    assert(abs_int(x) * abs_int(y) <= bx * by) by (nonlinear_arith)
        requires
            0 <= abs_int(x) <= bx,
            0 <= abs_int(y) <= by,
    ;
}

/// Truncating division keeps the magnitude of the Euclidean quotient.
pub proof fn lemma_tdiv_abs(s: int, d: int)
    requires
        d > 0,
    ensures
        abs_int(tdiv(s, d)) == abs_int(s) / d,
{
    if s >= 0 {
        vstd::arithmetic::div_mod::lemma_div_pos_is_pos(s, d);
    } else {
        vstd::arithmetic::div_mod::lemma_div_pos_is_pos(-s, d);
    }
}

/// Multiplying and then dividing by the same positive factor is exact.
pub proof fn lemma_tdiv_multiples(c: int, d: int)
    requires
        d > 0,
    ensures
        tdiv(c * d, d) == c,
{
    if c >= 0 {
        lemma_mul_nonnegative(c, d);
        vstd::arithmetic::div_mod::lemma_div_by_multiple(c, d);
    } else {
        lemma_mul_unary_negation(c, d);
        lemma_mul_nonnegative(-c, d);
        vstd::arithmetic::div_mod::lemma_div_by_multiple(-c, d);
        assert(c * d <= 0);
        assert(-(c * d) == (-c) * d);
        assert(tdiv(c * d, d) == -(((-c) * d) / d));
    }
}

/// A bound on the dividend gives a bound on the truncating quotient.
pub proof fn lemma_tdiv_bound(s: int, bound: int, d: int)
    requires
        abs_int(s) <= bound,
        d > 0,
    ensures
        abs_int(tdiv(s, d)) <= bound / d,
{
    lemma_tdiv_abs(s, d);
    lemma_div_is_ordered(abs_int(s), bound, d);
}

/// Force `v` into `[lo, hi]`.
pub fn clamp_i64(v: i64, lo: i64, hi: i64) -> (r: i64)
    requires
        lo <= hi,
    ensures
        r == spec_clamp(v as int, lo as int, hi as int),
{
    if v < lo {
        lo
    } else if v > hi {
        hi
    } else {
        v
    }
}

/// `a * b / d` rounded toward zero, with the product taken at full width.
pub fn mul_div(a: i64, b: i64, d: i64) -> (r: i64)
    requires
        d > 0,
        a > i64::MIN,
        b > i64::MIN,
        -(i64::MAX as int) <= spec_mul_div(a as int, b as int, d as int) <= i64::MAX as int,
    ensures
        r == spec_mul_div(a as int, b as int, d as int),
{
    let neg: bool = (a < 0) != (b < 0);
    let ma: u64 = if a >= 0 {
        a as u64
    } else {
        (-a) as u64
    };
    let mb: u64 = if b >= 0 {
        b as u64
    } else {
        (-b) as u64
    };
    proof {
        lemma_abs_mul(a as int, b as int);
        lemma_mul_sign(a as int, b as int);
        assert(ma as int * mb as int <= u64::MAX as int * u64::MAX as int) by (nonlinear_arith)
            requires
                0 <= ma as int <= u64::MAX as int,
                0 <= mb as int <= u64::MAX as int,
        ;
        assert(u64::MAX as int * u64::MAX as int <= u128::MAX as int) by (nonlinear_arith);
    }
    let p: u128 = (ma as u128) * (mb as u128);
    let q: u128 = p / (d as u128);
    proof {
        assert(p == abs_int(a as int * b as int));
        assert(q == abs_int(a as int * b as int) / (d as int));
        if a as int * b as int >= 0 {
            assert(spec_mul_div(a as int, b as int, d as int) == q);
        } else {
            assert(spec_mul_div(a as int, b as int, d as int) == -(q as int));
        }
        assert(q <= i64::MAX as int);
    }
    if neg {
        if q == 0 {
            0
        } else {
            -(q as i64)
        }
    } else {
        q as i64
    }
}

/// A fraction in `[0, FX_ONE]` of `d` stays between zero and `d`.
pub proof fn lemma_tdiv_frac(d: int, t: int)
    requires
        0 <= t <= FX_ONE as int,
    ensures
        d >= 0 ==> 0 <= tdiv(d * t, FX_ONE as int) <= d,
        d < 0 ==> d <= tdiv(d * t, FX_ONE as int) <= 0,
        t == 0 ==> tdiv(d * t, FX_ONE as int) == 0,
        t == FX_ONE as int ==> tdiv(d * t, FX_ONE as int) == d,
{
    let one = FX_ONE as int;
    if d >= 0 {
        lemma_mul_nonnegative(d, t);
        assert(d * t <= d * one) by (nonlinear_arith)
            requires
                0 <= t <= one,
                d >= 0,
        ;
        lemma_div_is_ordered(d * t, d * one, one);
        lemma_div_multiples_vanish(d, one);
        assert(d * one == one * d) by (nonlinear_arith);
        assert(0 <= tdiv(d * t, one) <= d);
        if t == one {
            assert(tdiv(d * t, one) == d);
        }
    } else {
        lemma_mul_nonnegative(-d, t);
        assert((-d) * t <= (-d) * one) by (nonlinear_arith)
            requires
                0 <= t <= one,
                -d >= 0,
        ;
        lemma_div_is_ordered((-d) * t, (-d) * one, one);
        lemma_div_multiples_vanish(-d, one);
        assert((-d) * one == one * (-d)) by (nonlinear_arith);
        assert(0 <= ((-d) * t) / one <= -d);
        lemma_mul_unary_negation(d, t);
        assert(d * t <= 0);
        assert(tdiv(d * t, one) == -((-(d * t)) / one));
        assert(-(d * t) == (-d) * t);
        assert(d <= tdiv(d * t, one) <= 0);
        if t == one {
            assert(tdiv(d * t, one) == d);
        }
    }
    if t == 0 {
        assert(d * 0 == 0) by (nonlinear_arith);
        assert(tdiv(0, one) == 0);
    }
}

/// The interpolated value stays between the endpoints, and hits them exactly
/// at the ends of the fraction range.
pub proof fn lemma_lerp_range(a: int, b: int, t: int)
    requires
        0 <= t <= FX_ONE as int,
    ensures
        min_int(a, b) <= spec_lerp(a, b, t) <= max_int(a, b),
        t == 0 ==> spec_lerp(a, b, t) == a,
        t == FX_ONE as int ==> spec_lerp(a, b, t) == b,
{
    lemma_tdiv_frac(b - a, t);
}

/// Linear interpolation from `a` to `b` by fraction `t`, exact at both ends.
pub fn fx_lerp(a: i64, b: i64, t: i64) -> (r: i64)
    requires
        -DUAL_BOUND <= a <= DUAL_BOUND,
        -DUAL_BOUND <= b <= DUAL_BOUND,
        0 <= t <= FX_ONE,
    ensures
        r == spec_lerp(a as int, b as int, t as int),
        min_int(a as int, b as int) <= r <= max_int(a as int, b as int),
{
    proof {
        lemma_lerp_range(a as int, b as int, t as int);
    }
    let d: i64 = b - a;
    let m: i64 = mul_div(d, t, FX_ONE);
    a + m
}

/// Incremental integer square root, the reference definition for [`isqrt_u64`].
pub open spec fn spec_isqrt(n: nat) -> nat
    decreases n,
{
    if n == 0 {
        0
    } else {
        let r = spec_isqrt((n - 1) as nat);
        if (r + 1) * (r + 1) <= n {
            r + 1
        } else {
            r
        }
    }
}

/// `spec_isqrt(n)` is the rounded-down square root of `n`.
pub proof fn lemma_isqrt_bounds(n: nat)
    ensures
        spec_isqrt(n) * spec_isqrt(n) <= n,
        n < (spec_isqrt(n) + 1) * (spec_isqrt(n) + 1),
    decreases n,
{
    if n == 0 {
        assert(spec_isqrt(0nat) == 0);
        assert((0 + 1) * (0 + 1) == 1) by (nonlinear_arith);
    } else {
        let m = (n - 1) as nat;
        lemma_isqrt_bounds(m);
        let r = spec_isqrt(m);
        assert(r * r <= m);
        assert(m < (r + 1) * (r + 1));
        if (r + 1) * (r + 1) <= n {
            assert(spec_isqrt(n) == r + 1);
            assert(n == (r + 1) * (r + 1));
            assert((r + 1) * (r + 1) < (r + 1 + 1) * (r + 1 + 1)) by (nonlinear_arith)
                requires
                    r >= 0,
            ;
            assert(spec_isqrt(n) * spec_isqrt(n) <= n);
            assert(n < (spec_isqrt(n) + 1) * (spec_isqrt(n) + 1));
        } else {
            assert(spec_isqrt(n) == r);
            assert(spec_isqrt(n) * spec_isqrt(n) <= n);
            assert(n < (spec_isqrt(n) + 1) * (spec_isqrt(n) + 1));
        }
    }
}

/// Any integer with the square-root bracketing property equals `spec_isqrt`.
pub proof fn lemma_isqrt_unique(n: nat, r: nat)
    requires
        r * r <= n,
        n < (r + 1) * (r + 1),
    ensures
        r == spec_isqrt(n),
{
    lemma_isqrt_bounds(n);
    let s = spec_isqrt(n);
    if r < s {
        assert((r + 1) * (r + 1) <= s * s) by (nonlinear_arith)
            requires
                r + 1 <= s,
                r >= 0,
        ;
        assert(false);
    } else if s < r {
        assert((s + 1) * (s + 1) <= r * r) by (nonlinear_arith)
            requires
                s + 1 <= r,
                s >= 0,
        ;
        assert(false);
    }
}

/// Rounded-down integer square root, by bisection.
pub fn isqrt_u64(x: u64) -> (r: u64)
    ensures
        r == spec_isqrt(x as nat),
        r * r <= x as int,
        x < (r + 1) * (r + 1),
        r < 4_294_967_296,
{
    let mut lo: u64 = 0;
    let mut hi: u64 = 4_294_967_296;
    proof {
        assert((4_294_967_296 as int) * (4_294_967_296 as int) > u64::MAX as int)
            by (nonlinear_arith);
    }
    while lo + 1 < hi
        invariant
            lo < hi <= 4_294_967_296,
            (lo as int) * (lo as int) <= x as int,
            (x as int) < (hi as int) * (hi as int),
        decreases hi - lo,
    {
        let mid: u64 = lo + (hi - lo) / 2;
        proof {
            assert(mid as int * mid as int <= 4_294_967_296 as int * 4_294_967_296 as int)
                by (nonlinear_arith)
                requires
                    0 <= mid as int <= 4_294_967_296 as int,
            ;
            assert(4_294_967_296 as int * 4_294_967_296 as int <= u128::MAX as int)
                by (nonlinear_arith);
        }
        let sq: u128 = (mid as u128) * (mid as u128);
        if sq <= x as u128 {
            lo = mid;
        } else {
            hi = mid;
        }
    }
    proof {
        lemma_isqrt_unique(x as nat, lo as nat);
    }
    lo
}

/// Force a wide value into an `[lo, hi]` window of the narrow range.
pub fn clamp_i128_to_i64(v: i128, lo: i64, hi: i64) -> (r: i64)
    requires
        lo <= hi,
    ensures
        r == spec_clamp(v as int, lo as int, hi as int),
{
    if v < lo as i128 {
        lo
    } else if v > hi as i128 {
        hi
    } else {
        v as i64
    }
}

/// Division rounding toward zero at full width.
pub fn tdiv_i128(n: i128, d: i128) -> (r: i128)
    requires
        d > 0,
        n > i128::MIN,
    ensures
        r == tdiv(n as int, d as int),
{
    if n >= 0 {
        let q: u128 = (n as u128) / (d as u128);
        proof {
            vstd::arithmetic::div_mod::lemma_div_nonincreasing(n as int, d as int);
            vstd::arithmetic::div_mod::lemma_div_pos_is_pos(n as int, d as int);
        }
        q as i128
    } else {
        let m: u128 = (-n) as u128;
        let q: u128 = m / (d as u128);
        proof {
            vstd::arithmetic::div_mod::lemma_div_nonincreasing(m as int, d as int);
            vstd::arithmetic::div_mod::lemma_div_pos_is_pos(m as int, d as int);
        }
        if q == 0 {
            0
        } else {
            -(q as i128)
        }
    }
}

/// Remainder of `t` modulo `m` in `[0, m)`, defined for negative `t` as well.
pub fn euclid_rem(t: i64, m: i64) -> (r: i64)
    requires
        m > 0,
        t > i64::MIN,
    ensures
        r == (t as int) % (m as int),
        0 <= r < m,
{
    if t >= 0 {
        let tu: u64 = t as u64;
        let mu: u64 = m as u64;
        let ru: u64 = tu % mu;
        ru as i64
    } else {
        let tu: u64 = (-t) as u64;
        let mu: u64 = m as u64;
        let qu: u64 = tu / mu;
        let ru: u64 = tu % mu;
        proof {
            lemma_fundamental_div_mod(tu as int, mu as int);
            assert(tu as int == mu as int * (qu as int) + ru as int);
        }
        if ru == 0 {
            proof {
                assert(t as int == (-(qu as int)) * (m as int) + 0) by (nonlinear_arith)
                    requires
                        tu as int == mu as int * (qu as int) + ru as int,
                        ru as int == 0,
                        t as int == -(tu as int),
                        mu as int == m as int,
                ;
                lemma_fundamental_div_mod_converse(t as int, m as int, -(qu as int), 0);
            }
            0
        } else {
            proof {
                assert(t as int == (-(qu as int) - 1) * (m as int) + (m as int - ru as int))
                    by (nonlinear_arith)
                    requires
                        tu as int == mu as int * (qu as int) + ru as int,
                        t as int == -(tu as int),
                        mu as int == m as int,
                ;
                lemma_fundamental_div_mod_converse(
                    t as int,
                    m as int,
                    -(qu as int) - 1,
                    m as int - ru as int,
                );
            }
            m - (ru as i64)
        }
    }
}

} // verus!
