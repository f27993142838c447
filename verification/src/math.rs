//! 2D vectors over fixed-point scalars, and their mathematical model.
//!
//! The executable type is [`Vector2`]; its view is the ghost vector [`V2`]
//! over unbounded integers, on which the vector operations are specified.

use vstd::prelude::*;
use crate::fixed::FP_MAX;
use crate::fixed::fabs;
use crate::fixed::fp_add;
use crate::fixed::fp_add_s;
use crate::fixed::fp_div;
use crate::fixed::fp_div_s;
use crate::fixed::fp_mul;
use crate::fixed::fp_mul_s;
use crate::fixed::fp_neg;
use crate::fixed::fp_sqrt;
use crate::fixed::fp_sqrt_s;
use crate::fixed::fp_sub;
use crate::fixed::fp_sub_s;
use crate::fixed::isqrt;
use crate::fixed::lemma_clip_neg;
use crate::fixed::lemma_fp_div_neg_left;
use crate::fixed::lemma_fp_mul_neg_left;
use crate::fixed::lemma_fp_sq_nonneg;
use crate::fixed::lemma_isqrt_bounds;
use crate::fixed::SCALE;

verus! {

/// Ghost view of a 2D vector: unbounded integer components.
pub struct V2 {
    pub x: int,
    pub y: int,
}

/// A component within the saturation range of the scalar arithmetic.
pub open spec fn in_range(x: int) -> bool {
    -FP_MAX <= x <= FP_MAX
}

/// Both components within the saturation range.
pub open spec fn v2_in_range(a: V2) -> bool {
    in_range(a.x) && in_range(a.y)
}

/// The zero vector.
pub open spec fn vzero() -> V2 {
    V2 { x: 0, y: 0 }
}

/// Componentwise saturating addition.
pub open spec fn vadd(a: V2, b: V2) -> V2 {
    V2 { x: fp_add_s(a.x, b.x), y: fp_add_s(a.y, b.y) }
}

/// Componentwise saturating subtraction.
pub open spec fn vsub(a: V2, b: V2) -> V2 {
    V2 { x: fp_sub_s(a.x, b.x), y: fp_sub_s(a.y, b.y) }
}

/// Exact componentwise negation.
pub open spec fn vneg(a: V2) -> V2 {
    V2 { x: -a.x, y: -a.y }
}

/// Componentwise fixed-point product of two vectors.
pub open spec fn vmul(a: V2, b: V2) -> V2 {
    V2 { x: fp_mul_s(a.x, b.x), y: fp_mul_s(a.y, b.y) }
}

/// Vector scaled by a fixed-point scalar.
pub open spec fn vscale(a: V2, s: int) -> V2 {
    V2 { x: fp_mul_s(a.x, s), y: fp_mul_s(a.y, s) }
}

/// Vector divided by a positive fixed-point scalar.
pub open spec fn vdivs(a: V2, m: int) -> V2 {
    V2 { x: fp_div_s(a.x, m), y: fp_div_s(a.y, m) }
}

/// Squared length in fixed point.
pub open spec fn vlen2(a: V2) -> int {
    fp_add_s(fp_mul_s(a.x, a.x), fp_mul_s(a.y, a.y))
}

/// Length in fixed point.
pub open spec fn vlen(a: V2) -> int {
    fp_sqrt_s(vlen2(a))
}

/// Unit vector (meaningful when the squared length is positive).
pub open spec fn vnorm(a: V2) -> V2 {
    let l = vlen(a);
    V2 { x: fp_div_s(a.x, l), y: fp_div_s(a.y, l) }
}

/// The squared length is a nonnegative in-range scalar.
pub proof fn lemma_vlen2_nonneg(a: V2)
    ensures
        0 <= vlen2(a) <= FP_MAX,
{
    lemma_fp_sq_nonneg(a.x);
    lemma_fp_sq_nonneg(a.y);
}

/// A vector of positive squared length has length at least one.
pub proof fn lemma_vlen_pos(a: V2)
    requires
        vlen2(a) > 0,
    ensures
        vlen(a) >= 1,
{
    let t = vlen2(a);
    let s = SCALE as int;
    let n = (t * s) as nat;
    vstd::arithmetic::mul::lemma_mul_inequality(1, t, s);
    assert(1 * s == s) by (nonlinear_arith);
    assert(t * s >= s);
    lemma_isqrt_bounds(n);
    if isqrt(n) == 0 {
        assert((isqrt(n) + 1) * (isqrt(n) + 1) == 1) by (nonlinear_arith)
            requires
                isqrt(n) == 0,
        ;
        assert(n < 1);
    }
}

/// Negating both operands negates a saturating sum.
pub proof fn lemma_vadd_neg(a: V2, b: V2)
    ensures
        vadd(vneg(a), vneg(b)) == vneg(vadd(a, b)),
{
    lemma_clip_neg(a.x + b.x);
    lemma_clip_neg(a.y + b.y);
}

/// Scaling is odd in the vector operand.
pub proof fn lemma_vscale_neg(a: V2, s: int)
    ensures
        vscale(vneg(a), s) == vneg(vscale(a, s)),
{
    lemma_fp_mul_neg_left(a.x, s);
    lemma_fp_mul_neg_left(a.y, s);
}

/// Division by a scalar is odd in the vector operand.
pub proof fn lemma_vdivs_neg(a: V2, m: int)
    ensures
        vdivs(vneg(a), m) == vneg(vdivs(a, m)),
{
    lemma_fp_div_neg_left(a.x, m);
    lemma_fp_div_neg_left(a.y, m);
}

/// Negation preserves the squared length.
pub proof fn lemma_vlen2_neg(a: V2)
    ensures
        vlen2(vneg(a)) == vlen2(a),
{
    assert((-a.x) * (-a.x) == a.x * a.x) by (nonlinear_arith);
    assert((-a.y) * (-a.y) == a.y * a.y) by (nonlinear_arith);
}

/// A scaled vector is saturated, hence in range.
pub proof fn lemma_vscale_in_range(a: V2, s: int)
    ensures
        v2_in_range(vscale(a, s)),
{
}

/// Normalisation is odd.
pub proof fn lemma_vnorm_neg(a: V2)
    ensures
        vnorm(vneg(a)) == vneg(vnorm(a)),
{
    lemma_vlen2_neg(a);
    lemma_fp_div_neg_left(a.x, vlen(a));
    lemma_fp_div_neg_left(a.y, vlen(a));
}

/// 2D vector of fixed-point scalars.
#[derive(Clone, Copy, Debug)]
pub struct Vector2 {
    pub x: i64,
    pub y: i64,
}

impl View for Vector2 {
    type V = V2;

    open spec fn view(&self) -> V2 {
        V2 { x: self.x as int, y: self.y as int }
    }
}

impl Vector2 {
    /// The zero vector.
    pub fn new() -> (r: Self)
        ensures
            r@ == vzero(),
    {
        Vector2 { x: 0, y: 0 }
    }

    /// An explicit copy of this vector.
    pub fn clone(&self) -> (r: Self)
        ensures
            r@ == self@,
    {
        Vector2 { x: self.x, y: self.y }
    }

    /// Saturating vector sum.
    pub fn add(&self, a: &Vector2) -> (r: Self)
        ensures
            r@ == vadd(self@, a@),
    {
        Vector2 { x: fp_add(self.x, a.x), y: fp_add(self.y, a.y) }
    }

    /// Saturating vector difference.
    pub fn sub(&self, a: &Vector2) -> (r: Self)
        ensures
            r@ == vsub(self@, a@),
    {
        Vector2 { x: fp_sub(self.x, a.x), y: fp_sub(self.y, a.y) }
    }

    /// Componentwise fixed-point product.
    pub fn mul(&self, a: &Vector2) -> (r: Self)
        ensures
            r@ == vmul(self@, a@),
    {
        Vector2 { x: fp_mul(self.x, a.x), y: fp_mul(self.y, a.y) }
    }

    /// This vector scaled by a fixed-point scalar.
    pub fn mul_s(&self, a: i64) -> (r: Self)
        ensures
            r@ == vscale(self@, a as int),
    {
        Vector2 { x: fp_mul(self.x, a), y: fp_mul(self.y, a) }
    }

    /// This vector divided by a positive fixed-point scalar.
    pub fn div_s(&self, a: i64) -> (r: Self)
        requires
            a > 0,
        ensures
            r@ == vdivs(self@, a as int),
    {
        Vector2 { x: fp_div(self.x, a), y: fp_div(self.y, a) }
    }

    /// Negation (saturating only at the far end of the range).
    pub fn neg(&self) -> (r: Self)
        requires
            fabs(self.x as int) <= FP_MAX,
            fabs(self.y as int) <= FP_MAX,
        ensures
            r@ == vneg(self@),
    {
        Vector2 { x: fp_neg(self.x), y: fp_neg(self.y) }
    }

    /// Overwrite `target` with `source`.
    pub fn assign(target: &mut Self, source: &Self)
        ensures
            final(target)@ == source@,
    {
        target.x = source.x;
        target.y = source.y;
    }

    /// Overwrite this vector with `source`.
    pub fn set(&mut self, source: &Self)
        ensures
            final(self)@ == source@,
    {
        self.x = source.x;
        self.y = source.y;
    }

    /// Squared length in fixed point.
    pub fn sqrt_len(&self) -> (r: i64)
        ensures
            r == vlen2(self@),
            0 <= r <= FP_MAX,
    {
        proof {
            lemma_vlen2_nonneg(self@);
        }
        fp_add(fp_mul(self.x, self.x), fp_mul(self.y, self.y))
    }

    /// Length in fixed point.
    pub fn len(&self) -> (r: i64)
        ensures
            r == vlen(self@),
            r >= 0,
    {
        let l2 = self.sqrt_len();
        fp_sqrt(l2)
    }

    /// Unit vector along this vector.
    pub fn norm(&self) -> (r: Self)
        requires
            vlen2(self@) > 0,
        ensures
            r@ == vnorm(self@),
    {
        proof {
            lemma_vlen_pos(self@);
        }
        let l = self.len();
        Vector2 { x: fp_div(self.x, l), y: fp_div(self.y, l) }
    }
}

/// Ghost view of a rectangle.
pub struct RectS {
    pub origin: V2,
    pub width: int,
    pub height: int,
}

/// Axis-aligned rectangle in fixed point.
#[derive(Clone, Copy, Debug)]
pub struct Rect {
    pub origin: Vector2,
    pub width: i64,
    pub height: i64,
}

impl View for Rect {
    type V = RectS;

    open spec fn view(&self) -> RectS {
        RectS { origin: self.origin@, width: self.width as int, height: self.height as int }
    }
}

} // verus!
