//! Saturating fixed-point scalar arithmetic.
//!
//! A scalar is an `i64` holding `SCALE` times its real value, so `SCALE`
//! stands for 1.0. Multiplication and division round toward zero, as the
//! hardware's signed division does; results are saturated ("clipped") into
//! `[-FP_MAX, FP_MAX]`, so every operation is total.

use vstd::prelude::*;

verus! {

/// Scale factor of the fixed-point representation: a scalar `x` stands for
/// the real number `x / SCALE`.
pub const SCALE: i64 = 1_000_000;

/// Largest magnitude a fixed-point scalar takes; saturating operations clip
/// their results into `[-FP_MAX, FP_MAX]`.
pub const FP_MAX: i64 = 1_000_000_000_000_000_000;

/// Magnitude of an integer.
pub open spec fn fabs(x: int) -> int {
    if x < 0 {
        -x
    } else {
        x
    }
}

/// Saturate an unbounded integer into the representable range.
pub open spec fn clip(x: int) -> int {
    if x > FP_MAX {
        FP_MAX as int
    } else if x < -FP_MAX {
        -FP_MAX as int
    } else {
        x
    }
}

/// Quotient of `n` by `d`, rounded toward zero (0 when `d <= 0`).
pub open spec fn tdiv(n: int, d: int) -> int {
    if d <= 0 {
        0
    } else if n >= 0 {
        n / d
    } else {
        -((-n) / d)
    }
}

/// Saturating fixed-point addition.
pub open spec fn fp_add_s(a: int, b: int) -> int {
    clip(a + b)
}

/// Saturating fixed-point subtraction.
pub open spec fn fp_sub_s(a: int, b: int) -> int {
    clip(a - b)
}

/// Saturating fixed-point negation.
pub open spec fn fp_neg_s(a: int) -> int {
    clip(-a)
}

/// Saturating fixed-point multiplication, rounding toward zero.
pub open spec fn fp_mul_s(a: int, b: int) -> int {
    clip(tdiv(a * b, SCALE as int))
}

/// Saturating fixed-point division, rounding toward zero (meaningful for
/// `b > 0`).
pub open spec fn fp_div_s(a: int, b: int) -> int {
    clip(tdiv(a * (SCALE as int), b))
}

/// Integer square root: the largest `r` with `r * r <= n`.
pub open spec fn isqrt(n: nat) -> nat
    decreases n,
{
    if n == 0 {
        0
    } else {
        let r = isqrt((n - 1) as nat);
        if (r + 1) * (r + 1) <= n {
            (r + 1) as nat
        } else {
            r
        }
    }
}

/// Fixed-point square root of a nonnegative scalar: since `a` stands for
/// `a / SCALE`, its root is `isqrt(a * SCALE)`.
pub open spec fn fp_sqrt_s(a: int) -> int {
    isqrt((a * (SCALE as int)) as nat) as int
}

/// `isqrt(n)` is characterised by `r * r <= n < (r + 1) * (r + 1)`.
pub proof fn lemma_isqrt_bounds(n: nat)
    ensures
        isqrt(n) * isqrt(n) <= n,
        n < (isqrt(n) + 1) * (isqrt(n) + 1),
    decreases n,
{
    if n == 0 {
        assert(isqrt(0) == 0);
        assert((isqrt(0) + 1) * (isqrt(0) + 1) == 1) by (nonlinear_arith)
            requires
                isqrt(0) == 0,
        ;
    } else {
        lemma_isqrt_bounds((n - 1) as nat);
        let r = isqrt((n - 1) as nat);
        let s = isqrt(n);
        if (r + 1) * (r + 1) <= n {
            assert(s == r + 1);
            assert(n - 1 < (r + 1) * (r + 1));
            assert(n <= (r + 1) * (r + 1));
            assert(n < (r + 2) * (r + 2)) by (nonlinear_arith)
                requires
                    n <= (r + 1) * (r + 1),
                    r >= 0,
            ;
            assert(s * s <= n);
            assert((s + 1) * (s + 1) == (r + 2) * (r + 2)) by (nonlinear_arith)
                requires
                    s == r + 1,
            ;
        } else {
            assert(s == r);
            assert(n - 1 < (r + 1) * (r + 1));
            assert(r * r <= n - 1);
        }
    }
}

/// Any `r` within the square-root bounds is `isqrt(n)`.
pub proof fn lemma_isqrt_unique(n: nat, r: nat)
    requires
        r * r <= n,
        n < (r + 1) * (r + 1),
    ensures
        r == isqrt(n),
{
    lemma_isqrt_bounds(n);
    let s = isqrt(n);
    if r < s {
        assert((r + 1) * (r + 1) <= s * s) by (nonlinear_arith)
            requires
                r + 1 <= s,
                r >= 0,
        ;
    }
    if s < r {
        assert((s + 1) * (s + 1) <= r * r) by (nonlinear_arith)
            requires
                s + 1 <= r,
                s >= 0,
        ;
    }
}

/// Saturate an `i128` intermediate into an `i64` scalar.
fn clamp128(x: i128) -> (r: i64)
    ensures
        r == clip(x as int),
{
    if x > FP_MAX as i128 {
        FP_MAX
    } else if x < -(FP_MAX as i128) {
        -FP_MAX
    } else {
        x as i64
    }
}

/// Quotient rounded toward zero, as `tdiv`.
fn tdiv128(n: i128, d: u64) -> (r: i128)
    requires
        d > 0,
        -(i128::MAX as int) <= n,
    ensures
        r == tdiv(n as int, d as int),
{
    if n >= 0 {
        let q: u128 = (n as u128) / (d as u128);
        proof {
            vstd::arithmetic::div_mod::lemma_div_nonincreasing(n as int, d as int);
            vstd::arithmetic::div_mod::lemma_div_pos_is_pos(n as int, d as int);
        }
        q as i128
    } else {
        let m: u128 = (-n) as u128;
        let q: u128 = m / (d as u128);
        proof {
            vstd::arithmetic::div_mod::lemma_div_nonincreasing(m as int, d as int);
            vstd::arithmetic::div_mod::lemma_div_pos_is_pos(m as int, d as int);
        }
        -(q as i128)
    }
}

/// Saturating fixed-point addition.
pub fn fp_add(a: i64, b: i64) -> (r: i64)
    ensures
        r == fp_add_s(a as int, b as int),
{
    clamp128(a as i128 + b as i128)
}

/// Saturating fixed-point subtraction.
pub fn fp_sub(a: i64, b: i64) -> (r: i64)
    ensures
        r == fp_sub_s(a as int, b as int),
{
    clamp128(a as i128 - b as i128)
}

/// Saturating fixed-point negation.
pub fn fp_neg(a: i64) -> (r: i64)
    ensures
        r == fp_neg_s(a as int),
{
    clamp128(-(a as i128))
}

/// A product of bounded factors is bounded.
pub proof fn lemma_mul_bound(a: int, b: int, m: int, k: int)
    requires
        -m <= a <= m,
        -k <= b <= k,
    ensures
        -(m * k) <= a * b <= m * k,
{
    assert(-(m * k) <= a * b <= m * k) by (nonlinear_arith)
        requires
            -m <= a <= m,
            -k <= b <= k,
    ;
}

/// Saturating fixed-point multiplication, rounding toward zero.
pub fn fp_mul(a: i64, b: i64) -> (r: i64)
    ensures
        r == fp_mul_s(a as int, b as int),
{
    proof {
        lemma_mul_bound(a as int, b as int, 0x8000_0000_0000_0000, 0x8000_0000_0000_0000);
    }
    let p: i128 = (a as i128) * (b as i128);
    clamp128(tdiv128(p, 1_000_000u64))
}

/// Saturating fixed-point division, rounding toward zero.
pub fn fp_div(a: i64, b: i64) -> (r: i64)
    requires
        b > 0,
    ensures
        r == fp_div_s(a as int, b as int),
{
    proof {
        lemma_mul_bound(a as int, SCALE as int, 0x8000_0000_0000_0000, SCALE as int);
    }
    let num: i128 = (a as i128) * (SCALE as i128);
    clamp128(tdiv128(num, b as u64))
}

/// Integer square root by bisection.
fn isqrt_u128(n: u128) -> (r: u128)
    requires
        n < 4_000_000_000_000_000_000_000_000_000_000,
    ensures
        r == isqrt(n as nat),
{
    let mut lo: u128 = 0;
    let mut hi: u128 = 2_000_000_000_000_000;
    proof {
        assert(2_000_000_000_000_000int * 2_000_000_000_000_000int
            == 4_000_000_000_000_000_000_000_000_000_000int);
    }
    while lo + 1 < hi
        invariant
            lo < hi,
            hi <= 2_000_000_000_000_000,
            (lo as int) * (lo as int) <= n as int,
            (n as int) < (hi as int) * (hi as int),
        decreases hi - lo,
    {
        let mid = lo + (hi - lo) / 2;
        proof {
            assert(1 <= (hi - lo) / 2 < hi - lo) by {
                vstd::arithmetic::div_mod::lemma_div_is_strictly_smaller((hi - lo) as int, 2);
                vstd::arithmetic::div_mod::lemma_div_is_ordered(2, (hi - lo) as int, 2);
            }
            lemma_mul_bound(mid as int, mid as int, 2_000_000_000_000_000, 2_000_000_000_000_000);
        }
        if mid * mid <= n {
            lo = mid;
        } else {
            hi = mid;
        }
    }
    proof {
        lemma_isqrt_unique(n as nat, lo as nat);
    }
    lo
}

/// Fixed-point square root of a nonnegative scalar.
pub fn fp_sqrt(a: i64) -> (r: i64)
    requires
        a >= 0,
    ensures
        r == fp_sqrt_s(a as int),
{
    proof {
        lemma_mul_bound(a as int, SCALE as int, 0x7fff_ffff_ffff_ffff, SCALE as int);
    }
    let n: u128 = (a as u128) * (SCALE as u128);
    let r = isqrt_u128(n);
    proof {
        lemma_isqrt_bounds(n as nat);
        assert(r <= 4_000_000_000_000) by (nonlinear_arith)
            requires
                (r as int) * (r as int) <= n as int,
                n as int <= 0x7fff_ffff_ffff_ffffint * 1_000_000int,
                r >= 0,
        ;
    }
    r as i64
}

/// Saturation leaves an in-range value unchanged.
pub proof fn lemma_clip_id(x: int)
    requires
        -FP_MAX <= x <= FP_MAX,
    ensures
        clip(x) == x,
{
}

/// Saturation is odd: clipping a negated value negates the clipped value.
pub proof fn lemma_clip_neg(x: int)
    ensures
        clip(-x) == -clip(x),
{
}

/// Truncating division is odd in its numerator.
pub proof fn lemma_tdiv_neg(n: int, d: int)
    ensures
        tdiv(-n, d) == -tdiv(n, d),
{
}

/// A nonnegative numerator gives a nonnegative truncated quotient.
pub proof fn lemma_tdiv_nonneg(n: int, d: int)
    requires
        n >= 0,
    ensures
        tdiv(n, d) >= 0,
{
    if d > 0 {
        vstd::arithmetic::div_mod::lemma_div_pos_is_pos(n, d);
    }
}

/// Truncating division is monotone in a nonnegative numerator.
pub proof fn lemma_tdiv_ordered(n1: int, n2: int, d: int)
    requires
        0 <= n1 <= n2,
        d > 0,
    ensures
        tdiv(n1, d) <= tdiv(n2, d),
{
    vstd::arithmetic::div_mod::lemma_div_is_ordered(n1, n2, d);
}

/// Fixed-point multiplication is odd in its left operand.
pub proof fn lemma_fp_mul_neg_left(a: int, b: int)
    ensures
        fp_mul_s(-a, b) == -fp_mul_s(a, b),
{
    assert((-a) * b == -(a * b)) by (nonlinear_arith);
    lemma_tdiv_neg(a * b, SCALE as int);
    lemma_clip_neg(tdiv(a * b, SCALE as int));
}

/// Fixed-point division is odd in its numerator.
pub proof fn lemma_fp_div_neg_left(a: int, b: int)
    ensures
        fp_div_s(-a, b) == -fp_div_s(a, b),
{
    assert((-a) * (SCALE as int) == -(a * (SCALE as int))) by (nonlinear_arith);
    lemma_tdiv_neg(a * (SCALE as int), b);
    lemma_clip_neg(tdiv(a * (SCALE as int), b));
}

/// Fixed-point addition is odd: negating both operands negates the sum.
pub proof fn lemma_fp_add_neg(a: int, b: int)
    ensures
        fp_add_s(-a, -b) == -fp_add_s(a, b),
{
    lemma_clip_neg(a + b);
}

/// The square of a scalar is a nonnegative in-range scalar.
pub proof fn lemma_fp_sq_nonneg(a: int)
    ensures
        0 <= fp_mul_s(a, a) <= FP_MAX,
{
    assert(a * a >= 0) by (nonlinear_arith);
    lemma_tdiv_nonneg(a * a, SCALE as int);
}

/// A nonnegative product stays nonnegative and in range through `fp_mul_s`.
pub proof fn lemma_fp_mul_nonneg(a: int, b: int)
    requires
        a >= 0,
        b >= 0,
    ensures
        0 <= fp_mul_s(a, b) <= FP_MAX,
{
    assert(a * b >= 0) by (nonlinear_arith)
        requires
            a >= 0,
            b >= 0,
    ;
    lemma_tdiv_nonneg(a * b, SCALE as int);
}

/// Damping by a factor strictly below one strictly shrinks a nonzero
/// scalar's magnitude.
pub proof fn lemma_fp_mul_shrinks(v: int, f: int)
    requires
        v != 0,
        fabs(v) <= FP_MAX,
        0 <= f < SCALE,
    ensures
        fabs(fp_mul_s(v, f)) < fabs(v),
{
    let s = SCALE as int;
    let w = fabs(v);
    assert(w * f <= w * s - w) by (nonlinear_arith)
        requires
            w >= 1,
            0 <= f <= s - 1,
    ;
    assert(w * f >= 0) by (nonlinear_arith)
        requires
            w >= 0,
            f >= 0,
    ;
    vstd::arithmetic::div_mod::lemma_div_is_ordered(w * f, w * s - 1, s);
    vstd::arithmetic::div_mod::lemma_fundamental_div_mod_converse(w * s - 1, s, w - 1, s - 1);
    assert(tdiv(w * f, s) <= w - 1);
    lemma_tdiv_nonneg(w * f, s);
    if v >= 0 {
        assert(fp_mul_s(v, f) == clip(tdiv(w * f, s)));
    } else {
        lemma_fp_mul_neg_left(w, f);
        assert(fp_mul_s(v, f) == -fp_mul_s(w, f));
    }
}

/// Quadrupling a positive divisor divides a truncated quotient by four.
pub proof fn lemma_tdiv_quarter(n: int, d: int)
    requires
        n >= 0,
        d > 0,
    ensures
        tdiv(n, 4 * d) == tdiv(n, d) / 4,
{
    vstd::arithmetic::div_mod::lemma_div_denominator(n, d, 4);
}

} // verus!
