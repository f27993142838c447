//! The physical model: forces, integration, and the laws they obey.
//!
//! Every engine step is specified against the spec functions here, so the
//! laws proved about them (force antisymmetry, inverse-square falloff, the
//! Hookean pull, damping decay) speak about what the engines compute.

use vstd::prelude::*;
use crate::fixed::FP_MAX;
use crate::fixed::SCALE;
use crate::fixed::fp_div_s;
use crate::fixed::fp_mul_s;
use crate::fixed::lemma_clip_neg;
use crate::fixed::lemma_fp_mul_nonneg;
use crate::fixed::lemma_fp_mul_shrinks;
use crate::fixed::lemma_tdiv_nonneg;
use crate::fixed::lemma_tdiv_ordered;
use crate::fixed::lemma_tdiv_quarter;
use crate::fixed::fabs;
use crate::fixed::tdiv;
use crate::math::V2;
use crate::math::Vector2;
use crate::math::lemma_vlen2_neg;
use crate::math::lemma_vnorm_neg;
use crate::math::lemma_vscale_neg;
use crate::math::v2_in_range;
use crate::math::vadd;
use crate::math::vlen;
use crate::math::vlen2;
use crate::math::vneg;
use crate::math::vnorm;
use crate::math::vscale;
use crate::math::vsub;
use crate::math::vzero;

verus! {

/// Ghost state of one node: mass, position, velocity, acceleration.
pub struct NodeState {
    pub m: int,
    pub p: V2,
    pub v: V2,
    pub a: V2,
}

/// A node state the engines accept: positive in-range mass, in-range fields.
pub open spec fn node_in_range(n: NodeState) -> bool {
    &&& 0 < n.m <= FP_MAX
    &&& v2_in_range(n.p)
    &&& v2_in_range(n.v)
    &&& v2_in_range(n.a)
}

/// Configuration of a simulation run: the physical constants.
///
/// All four are fixed-point scalars: `k_rep` scales the inverse-square
/// repulsion, `k_pull` the Hookean pull, `dt` is the time step, and
/// `damping` is the multiplicative per-step velocity retention factor
/// (strictly below one, so speed can never grow without acceleration).
#[derive(Clone, Copy, Debug)]
pub struct SimParams {
    pub k_rep: i64,
    pub k_pull: i64,
    pub dt: i64,
    pub damping: i64,
}

impl SimParams {
    /// The constants an engine accepts.
    pub open spec fn wf(&self) -> bool {
        &&& 0 <= self.k_rep <= FP_MAX
        &&& 0 <= self.k_pull <= FP_MAX
        &&& 0 < self.dt <= FP_MAX
        &&& 0 <= self.damping < SCALE
    }

    /// Explicit constants.
    pub fn new(k_rep: i64, k_pull: i64, dt: i64, damping: i64) -> (r: Self)
        requires
            0 <= k_rep <= FP_MAX,
            0 <= k_pull <= FP_MAX,
            0 < dt <= FP_MAX,
            0 <= damping < SCALE,
        ensures
            r.wf(),
            r.k_rep == k_rep,
            r.k_pull == k_pull,
            r.dt == dt,
            r.damping == damping,
    {
        SimParams { k_rep, k_pull, dt, damping }
    }
}

impl Default for SimParams {
    /// Unit force constants, a half-unit time step, and 0.9 damping.
    fn default() -> (r: Self)
        ensures
            r.wf(),
            r.k_rep == SCALE,
            r.k_pull == SCALE,
            r.dt == 500_000,
            r.damping == 900_000,
    {
        SimParams { k_rep: SCALE, k_pull: SCALE, dt: 500_000, damping: 900_000 }
    }
}

/// Access to the physical state of a point mass.
pub trait Physics {
    /// Mass as a spec-level scalar.
    spec fn m_spec(&self) -> int;

    /// Position as a ghost vector.
    spec fn p_spec(&self) -> V2;

    /// Velocity as a ghost vector.
    spec fn v_spec(&self) -> V2;

    /// Acceleration as a ghost vector.
    spec fn a_spec(&self) -> V2;

    /// The mass.
    fn get_m(&self) -> (r: i64)
        ensures
            r as int == self.m_spec(),
    ;

    /// The velocity.
    fn get_v(&self) -> (r: &Vector2)
        ensures
            r@ == self.v_spec(),
    ;

    /// Overwrite the velocity.
    fn set_v(&mut self, v: &Vector2)
        ensures
            final(self).v_spec() == v@,
            final(self).m_spec() == old(self).m_spec(),
            final(self).p_spec() == old(self).p_spec(),
            final(self).a_spec() == old(self).a_spec(),
    ;

    /// The position.
    fn get_p(&self) -> (r: &Vector2)
        ensures
            r@ == self.p_spec(),
    ;

    /// Overwrite the position.
    fn set_p(&mut self, p: &Vector2)
        ensures
            final(self).p_spec() == p@,
            final(self).m_spec() == old(self).m_spec(),
            final(self).v_spec() == old(self).v_spec(),
            final(self).a_spec() == old(self).a_spec(),
    ;

    /// The acceleration.
    fn get_a(&self) -> (r: &Vector2)
        ensures
            r@ == self.a_spec(),
    ;

    /// Overwrite the acceleration.
    fn set_a(&mut self, a: &Vector2)
        ensures
            final(self).a_spec() == a@,
            final(self).m_spec() == old(self).m_spec(),
            final(self).p_spec() == old(self).p_spec(),
            final(self).v_spec() == old(self).v_spec(),
    ;
}

/// Repulsion magnitude: `k * ma * mb / d2`, the inverse-square law over the
/// squared fixed-point distance `d2`. The mass product is taken first, so
/// the magnitude is symmetric in the two masses.
pub open spec fn repulsion_magnitude(k: int, ma: int, mb: int, d2: int) -> int {
    fp_div_s(fp_mul_s(fp_mul_s(ma, mb), k), d2)
}

/// Repulsive force exerted on the first of two nodes by the second:
/// inverse-square magnitude, directed from the second node toward the
/// first. When the squared fixed-point distance truncates to zero the pair
/// is skipped and the force is zero (the documented zero-distance policy).
pub open spec fn repulsion_force(k: int, ma: int, mb: int, pa: V2, pb: V2) -> V2 {
    let d = vsub(pb, pa);
    let d2 = vlen2(d);
    if d2 == 0 {
        vzero()
    } else {
        vneg(vscale(vnorm(d), repulsion_magnitude(k, ma, mb, d2)))
    }
}

/// The repulsive force is saturated, hence in range.
pub proof fn lemma_repulsion_force_in_range(k: int, ma: int, mb: int, pa: V2, pb: V2)
    ensures
        v2_in_range(repulsion_force(k, ma, mb, pa, pb)),
{
}

/// Subtraction is antisymmetric.
pub proof fn lemma_vsub_antisym(a: V2, b: V2)
    ensures
        vsub(a, b) == vneg(vsub(b, a)),
{
    lemma_clip_neg(b.x - a.x);
    lemma_clip_neg(b.y - a.y);
}

/// Newton's third law for the repulsion: the force computed on the first
/// node is the exact negative of the force computed on the second, for
/// every pair of positions, masses, and constants.
pub proof fn lemma_repulsion_antisymmetric(k: int, ma: int, mb: int, pa: V2, pb: V2)
    ensures
        repulsion_force(k, ma, mb, pa, pb) == vneg(repulsion_force(k, mb, ma, pb, pa)),
{
    let d = vsub(pb, pa);
    let d2 = vlen2(d);
    lemma_vsub_antisym(pa, pb);
    lemma_vlen2_neg(d);
    assert(vlen2(vsub(pa, pb)) == d2);
    if d2 == 0 {
    } else {
        assert(mb * ma == ma * mb) by (nonlinear_arith);
        assert(repulsion_magnitude(k, mb, ma, d2) == repulsion_magnitude(k, ma, mb, d2));
        lemma_vnorm_neg(d);
        lemma_vscale_neg(vnorm(d), repulsion_magnitude(k, ma, mb, d2));
    }
}

/// Inverse-square falloff: with the masses and the constant fixed, doubling
/// the separation (which quadruples the squared distance) cuts the
/// repulsion magnitude to its quarter, exactly, in truncated fixed-point
/// arithmetic — provided the nearer magnitude does not saturate.
pub proof fn lemma_repulsion_inverse_square(k: int, ma: int, mb: int, d2: int)
    requires
        k >= 0,
        ma >= 0,
        mb >= 0,
        d2 > 0,
        tdiv(fp_mul_s(fp_mul_s(ma, mb), k) * SCALE, d2) <= FP_MAX,
    ensures
        repulsion_magnitude(k, ma, mb, 4 * d2) == repulsion_magnitude(k, ma, mb, d2) / 4,
{
    let num = fp_mul_s(fp_mul_s(ma, mb), k);
    lemma_fp_mul_nonneg(ma, mb);
    lemma_fp_mul_nonneg(fp_mul_s(ma, mb), k);
    let s = SCALE as int;
    let t = num * s;
    vstd::arithmetic::mul::lemma_mul_nonnegative(num, s);
    lemma_tdiv_quarter(t, d2);
    lemma_tdiv_nonneg(t, d2);
    lemma_tdiv_nonneg(t, 4 * d2);
    vstd::arithmetic::div_mod::lemma_div_is_ordered_by_denominator(t, d2, 4 * d2);
    assert(tdiv(t, 4 * d2) <= tdiv(t, d2));
}

/// Pull-force magnitude for an endpoint separation: `k_pull` times the
/// separation, in fixed point.
pub open spec fn pull_force_of(k: int, sep: int) -> int {
    fp_mul_s(k, sep)
}

/// Pull force vector along an edge: Hookean, the separation vector scaled
/// by `k_pull`.
pub open spec fn pull_vector(k: int, pfrom: V2, pto: V2) -> V2 {
    vscale(vsub(pto, pfrom), k)
}

/// Magnitude stored on an edge: `k_pull` times the endpoint separation.
pub open spec fn pull_magnitude(k: int, pfrom: V2, pto: V2) -> int {
    pull_force_of(k, vlen(vsub(pto, pfrom)))
}

/// The Hookean pull is monotone in the separation.
pub proof fn lemma_pull_monotone(k: int, s1: int, s2: int)
    requires
        k >= 0,
        0 <= s1 <= s2,
    ensures
        pull_force_of(k, s1) <= pull_force_of(k, s2),
{
    vstd::arithmetic::mul::lemma_mul_inequality(s1, s2, k);
    assert(k * s1 == s1 * k) by (nonlinear_arith);
    assert(k * s2 == s2 * k) by (nonlinear_arith);
    lemma_tdiv_ordered(k * s1, k * s2, SCALE as int);
    lemma_tdiv_nonneg(k * s1, SCALE as int);
    assert(k * s1 >= 0) by (nonlinear_arith)
        requires
            k >= 0,
            s1 >= 0,
    ;
}

/// The Hookean pull is exactly linear: scaling the separation by a natural
/// factor scales the magnitude by the same factor, whenever `k * sep` is a
/// whole number of fixed-point units and nothing saturates.
pub proof fn lemma_pull_hookean_linear(k: int, sep: int, c: int)
    requires
        k >= 0,
        sep >= 0,
        c >= 0,
        (k * sep) % (SCALE as int) == 0,
        c * (k * sep) <= FP_MAX * SCALE,
    ensures
        pull_force_of(k, c * sep) == c * pull_force_of(k, sep),
{
    let s = SCALE as int;
    if c == 0 {
        assert(c * sep == 0) by (nonlinear_arith)
            requires
                c == 0,
        ;
        assert(k * 0 == 0) by (nonlinear_arith);
        assert(tdiv(0, s) == 0) by {
            vstd::arithmetic::div_mod::lemma_div_of0(s);
        }
        assert(c * pull_force_of(k, sep) == 0) by (nonlinear_arith)
            requires
                c == 0,
        ;
    } else {
        let q = (k * sep) / s;
        assert(k * sep >= 0) by (nonlinear_arith)
            requires
                k >= 0,
                sep >= 0,
        ;
        vstd::arithmetic::div_mod::lemma_fundamental_div_mod(k * sep, s);
        assert(k * sep == q * s);
        vstd::arithmetic::div_mod::lemma_div_pos_is_pos(k * sep, s);
        assert(k * (c * sep) == c * (k * sep)) by (nonlinear_arith);
        assert(c * (k * sep) == (c * q) * s) by (nonlinear_arith)
            requires
                k * sep == q * s,
        ;
        vstd::arithmetic::div_mod::lemma_div_by_multiple(c * q, s);
        assert(tdiv(k * (c * sep), s) == c * q) by {
            assert(c * (k * sep) >= 0) by (nonlinear_arith)
                requires
                    c >= 0,
                    k * sep >= 0,
            ;
        }
        assert(c * q >= 0) by (nonlinear_arith)
            requires
                c >= 0,
                q >= 0,
        ;
        assert(c * q <= FP_MAX) by {
            assert((c * q) * s <= FP_MAX * s) by (nonlinear_arith)
                requires
                    c * (k * sep) == (c * q) * s,
                    c * (k * sep) <= FP_MAX * s,
            ;
            assert(c * q <= FP_MAX) by (nonlinear_arith)
                requires
                    (c * q) * s <= FP_MAX * s,
                    s > 0,
            ;
        }
        assert(pull_force_of(k, c * sep) == c * q);
        assert(q <= FP_MAX) by {
            assert(q <= c * q) by (nonlinear_arith)
                requires
                    c >= 1,
                    q >= 0,
            ;
        }
    }
}

/// One node's integration step: damp the velocity, add the acceleration
/// contribution `a * dt`, then advance the position by `v * dt`.
pub open spec fn integrate_node(n: NodeState, dt: int, damping: int) -> NodeState {
    let v1 = vadd(vscale(n.v, damping), vscale(n.a, dt));
    NodeState { m: n.m, p: vadd(n.p, vscale(v1, dt)), v: v1, a: n.a }
}

/// Exact (unsaturated) squared speed of a velocity.
pub open spec fn speed2(v: V2) -> int {
    v.x * v.x + v.y * v.y
}

/// A smaller magnitude gives a smaller square.
proof fn lemma_sq_shrink(x: int, y: int)
    requires
        fabs(x) <= fabs(y),
    ensures
        x * x <= y * y,
        fabs(x) < fabs(y) ==> x * x < y * y,
{
    let u = fabs(x);
    let w = fabs(y);
    assert(x * x == u * u) by (nonlinear_arith)
        requires
            u == x || u == -x,
    ;
    assert(y * y == w * w) by (nonlinear_arith)
        requires
            w == y || w == -y,
    ;
    assert(u * u <= w * w) by (nonlinear_arith)
        requires
            0 <= u <= w,
    ;
    if u < w {
        assert(u * u < w * w) by (nonlinear_arith)
            requires
                0 <= u < w,
        ;
    }
}

/// Damping decay: a node with nonzero velocity and zero acceleration
/// strictly loses speed in one integration step; its new velocity is the
/// damped old one.
pub proof fn lemma_damping_decay(n: NodeState, dt: int, damping: int)
    requires
        n.a == vzero(),
        v2_in_range(n.v),
        n.v != vzero(),
        0 <= damping < SCALE,
    ensures
        integrate_node(n, dt, damping).v == (V2 {
            x: fp_mul_s(n.v.x, damping),
            y: fp_mul_s(n.v.y, damping),
        }),
        speed2(integrate_node(n, dt, damping).v) < speed2(n.v),
{
    let v1 = integrate_node(n, dt, damping).v;
    assert(fp_mul_s(0, dt) == 0) by {
        assert(0 * dt == 0) by (nonlinear_arith);
    }
    let dx = fp_mul_s(n.v.x, damping);
    let dy = fp_mul_s(n.v.y, damping);
    assert(fabs(dx) <= fabs(n.v.x) && fabs(dy) <= fabs(n.v.y)) by {
        if n.v.x != 0 {
            lemma_fp_mul_shrinks(n.v.x, damping);
        } else {
            assert(0 * damping == 0) by (nonlinear_arith);
        }
        if n.v.y != 0 {
            lemma_fp_mul_shrinks(n.v.y, damping);
        } else {
            assert(0 * damping == 0) by (nonlinear_arith);
        }
    }
    assert(v1.x == dx && v1.y == dy);
    lemma_sq_shrink(dx, n.v.x);
    lemma_sq_shrink(dy, n.v.y);
    if n.v.x != 0 {
        lemma_fp_mul_shrinks(n.v.x, damping);
    } else {
        assert(n.v.y != 0);
        lemma_fp_mul_shrinks(n.v.y, damping);
    }
}

/// Repulsive force on `a` exerted by `b` (zero when the squared fixed-point
/// distance truncates to zero).
pub fn repulsion_force_between(k: i64, ma: i64, mb: i64, pa: &Vector2, pb: &Vector2) -> (r: Vector2)
    requires
        k >= 0,
    ensures
        r@ == repulsion_force(k as int, ma as int, mb as int, pa@, pb@),
{
    let d = pb.sub(pa);
    let d2 = d.sqrt_len();
    if d2 == 0 {
        Vector2::new()
    } else {
        let s = crate::fixed::fp_div(crate::fixed::fp_mul(crate::fixed::fp_mul(ma, mb), k), d2);
        let u = d.norm();
        let f = u.mul_s(s);
        f.neg()
    }
}

} // verus!
