//! Projection helpers for renderer-side consumers: map simulation-space
//! points and direction vectors into a view rectangle.

use vstd::prelude::*;
use crate::fixed::SCALE;
use crate::fixed::fp_add;
use crate::fixed::fp_add_s;
use crate::fixed::fp_div;
use crate::fixed::fp_div_s;
use crate::fixed::fp_mul;
use crate::fixed::fp_mul_s;
use crate::fixed::fp_sub;
use crate::fixed::fp_sub_s;
use crate::math::RectS;
use crate::math::V2;
use crate::math::Rect;
use crate::math::Vector2;
use crate::math::vlen;
use crate::math::vlen2;
use crate::math::vmul;
use crate::math::vnorm;
use crate::math::vscale;
use crate::math::vzero;

verus! {

/// Where a point lands when the source rectangle is mapped onto the target
/// rectangle; an axis with no extent keeps unit scale.
pub open spec fn fit_into_view_s(v: V2, src: RectS, dst: RectS) -> V2 {
    let sx = if src.width > 0 {
        fp_div_s(dst.width, src.width)
    } else {
        SCALE as int
    };
    let sy = if src.height > 0 {
        fp_div_s(dst.height, src.height)
    } else {
        SCALE as int
    };
    V2 {
        x: fp_add_s(fp_mul_s(fp_sub_s(v.x, src.origin.x), sx), dst.origin.x),
        y: fp_add_s(fp_mul_s(fp_sub_s(v.y, src.origin.y), sy), dst.origin.y),
    }
}

/// Map a point from the source rectangle onto the target rectangle.
pub fn fit_into_view(v: &Vector2, rect_source: &Rect, rect_target: &Rect) -> (r: Vector2)
    ensures
        r@ == fit_into_view_s(v@, rect_source@, rect_target@),
{
    let scale_x: i64 = if rect_source.width > 0 {
        fp_div(rect_target.width, rect_source.width)
    } else {
        SCALE
    };
    let scale_y: i64 = if rect_source.height > 0 {
        fp_div(rect_target.height, rect_source.height)
    } else {
        SCALE
    };
    let mut p = v.clone();
    p.x = fp_add(fp_mul(fp_sub(p.x, rect_source.origin.x), scale_x), rect_target.origin.x);
    p.y = fp_add(fp_mul(fp_sub(p.y, rect_source.origin.y), scale_y), rect_target.origin.y);
    p
}

/// Where a direction vector points after the same projection: the scaled
/// direction, renormalised to the vector's original length (a direction
/// that scales to nothing projects to the zero vector).
pub open spec fn project_direction_vector_s(
    v: V2,
    source_rect_width: int,
    source_rect_height: int,
    target_rect_width: int,
    target_rect_height: int,
) -> V2 {
    let sx = if source_rect_width > 0 {
        fp_div_s(target_rect_width, source_rect_width)
    } else {
        SCALE as int
    };
    let sy = if source_rect_height > 0 {
        fp_div_s(target_rect_height, source_rect_height)
    } else {
        SCALE as int
    };
    let scaled = vmul(v, V2 { x: sx, y: sy });
    if vlen2(scaled) == 0 {
        vzero()
    } else {
        vscale(vnorm(scaled), vlen(v))
    }
}

/// Project a direction vector between view rectangles, keeping its length.
pub fn project_direction_vector(
    v: &Vector2,
    source_rect_width: i64,
    source_rect_height: i64,
    target_rect_width: i64,
    target_rect_height: i64,
) -> (r: Vector2)
    ensures
        r@ == project_direction_vector_s(
            v@,
            source_rect_width as int,
            source_rect_height as int,
            target_rect_width as int,
            target_rect_height as int,
        ),
{
    let scale_x: i64 = if source_rect_width > 0 {
        fp_div(target_rect_width, source_rect_width)
    } else {
        SCALE
    };
    let scale_y: i64 = if source_rect_height > 0 {
        fp_div(target_rect_height, source_rect_height)
    } else {
        SCALE
    };
    let len = v.len();
    let scaled = v.mul(&Vector2 { x: scale_x, y: scale_y });
    if scaled.sqrt_len() == 0 {
        Vector2::new()
    } else {
        scaled.norm().mul_s(len)
    }
}

} // verus!
