use forcelayout::fixed::FP_MAX;
use forcelayout::fixed::SCALE;
use forcelayout::fixed::fp_add;
use forcelayout::fixed::fp_div;
use forcelayout::fixed::fp_mul;
use forcelayout::fixed::fp_neg;
use forcelayout::fixed::fp_sqrt;
use forcelayout::fixed::fp_sub;
use forcelayout::math::Rect;
use forcelayout::math::Vector2;
use forcelayout::project::fit_into_view;
use forcelayout::project::project_direction_vector;

#[test]
fn scalar_arithmetic_is_exact() {
    assert_eq!(fp_mul(3 * SCALE, 2 * SCALE), 6 * SCALE);
    assert_eq!(fp_div(SCALE, 4 * SCALE), 250_000);
    assert_eq!(fp_add(SCALE, -3 * SCALE), -2 * SCALE);
    assert_eq!(fp_sub(SCALE, 3 * SCALE), -2 * SCALE);
    assert_eq!(fp_neg(5 * SCALE), -5 * SCALE);
}

#[test]
fn multiplication_rounds_toward_zero() {
    // -0.000001 * 0.999999 truncates to exactly zero, not -1
    assert_eq!(fp_mul(-1, 999_999), 0);
    assert_eq!(fp_mul(1, 999_999), 0);
    assert_eq!(fp_div(-1, 3 * SCALE), 0);
    assert_eq!(fp_div(-SCALE, 3 * SCALE), -333_333);
}

#[test]
fn arithmetic_saturates_at_the_range_end() {
    assert_eq!(fp_add(FP_MAX, FP_MAX), FP_MAX);
    assert_eq!(fp_sub(-FP_MAX, FP_MAX), -FP_MAX);
    assert_eq!(fp_mul(FP_MAX, 2 * SCALE), FP_MAX);
    assert_eq!(fp_neg(i64::MIN + 1), FP_MAX);
}

#[test]
fn square_root_is_the_floor_root() {
    assert_eq!(fp_sqrt(4 * SCALE), 2 * SCALE);
    assert_eq!(fp_sqrt(100 * SCALE), 10 * SCALE);
    assert_eq!(fp_sqrt(0), 0);
    // sqrt(2) in fixed point, truncated
    assert_eq!(fp_sqrt(2 * SCALE), 1_414_213);
}

#[test]
fn vector_operations_match_componentwise_arithmetic() {
    let a = Vector2 { x: 3 * SCALE, y: -2 * SCALE };
    let b = Vector2 { x: SCALE, y: 4 * SCALE };
    let sum = a.add(&b);
    assert_eq!(sum.x, 4 * SCALE);
    assert_eq!(sum.y, 2 * SCALE);
    let diff = a.sub(&b);
    assert_eq!(diff.x, 2 * SCALE);
    assert_eq!(diff.y, -6 * SCALE);
    let prod = a.mul(&b);
    assert_eq!(prod.x, 3 * SCALE);
    assert_eq!(prod.y, -8 * SCALE);
    let scaled = a.mul_s(SCALE / 2);
    assert_eq!(scaled.x, 3 * SCALE / 2);
    assert_eq!(scaled.y, -SCALE);
}

#[test]
fn vector_length_and_norm() {
    let v = Vector2 { x: 3 * SCALE, y: 4 * SCALE };
    assert_eq!(v.sqrt_len(), 25 * SCALE);
    assert_eq!(v.len(), 5 * SCALE);
    let u = v.norm();
    assert_eq!(u.x, 600_000);
    assert_eq!(u.y, 800_000);
}

#[test]
fn assign_and_set_overwrite() {
    let mut a = Vector2::new();
    let b = Vector2 { x: 7, y: -9 };
    Vector2::assign(&mut a, &b);
    assert_eq!(a.x, 7);
    assert_eq!(a.y, -9);
    let mut c = b.clone();
    c.set(&Vector2::new());
    assert_eq!(c.x, 0);
    assert_eq!(c.y, 0);
}

#[test]
fn fit_into_view_scales_and_translates() {
    let src = Rect { origin: Vector2::new(), width: 10 * SCALE, height: 10 * SCALE };
    let dst = Rect {
        origin: Vector2 { x: -5 * SCALE, y: -5 * SCALE },
        width: 20 * SCALE,
        height: 20 * SCALE,
    };
    let p = fit_into_view(&Vector2 { x: 5 * SCALE, y: 2 * SCALE }, &src, &dst);
    assert_eq!(p.x, 5 * SCALE);
    assert_eq!(p.y, -SCALE);
}

#[test]
fn fit_into_view_keeps_degenerate_axes() {
    let src = Rect { origin: Vector2::new(), width: 0, height: 10 * SCALE };
    let dst = Rect { origin: Vector2::new(), width: 20 * SCALE, height: 20 * SCALE };
    let p = fit_into_view(&Vector2 { x: 3 * SCALE, y: 5 * SCALE }, &src, &dst);
    // a source axis with no extent keeps unit scale
    assert_eq!(p.x, 3 * SCALE);
    assert_eq!(p.y, 10 * SCALE);
}

#[test]
fn direction_projection_keeps_length() {
    let v = Vector2 { x: 3 * SCALE, y: 4 * SCALE };
    // uniform doubling leaves the direction unchanged
    let r = project_direction_vector(&v, 10 * SCALE, 10 * SCALE, 20 * SCALE, 20 * SCALE);
    assert_eq!(r.x, 3 * SCALE);
    assert_eq!(r.y, 4 * SCALE);
    // a non-uniform projection turns the direction but keeps the length
    let r2 = project_direction_vector(&v, 10 * SCALE, 10 * SCALE, 20 * SCALE, 10 * SCALE);
    assert_eq!(r2.x, 4_160_250);
    assert_eq!(r2.y, 2_773_500);
}

#[test]
fn direction_projection_of_zero_vector() {
    let r = project_direction_vector(&Vector2::new(), 10 * SCALE, 10 * SCALE, 20 * SCALE, 10 * SCALE);
    assert_eq!(r.x, 0);
    assert_eq!(r.y, 0);
}
