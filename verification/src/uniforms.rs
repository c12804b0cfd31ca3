//! The uniform values a draw call writes.
//!
//! Every rectangle and shape draw reuses the one shared quad and positions
//! it by writing a world-position and scale uniform in device space;
//! shapes additionally carry their analytic parameters in pixel space.
//! These functions compute exactly what is written; issuing the underlying
//! calls is the embedder's concern.

use vstd::prelude::*;

use crate::color::Color;
use crate::rat::{lemma_div_result_bounded, ratio_int, Rat};
use crate::shape::{spec_bounds, spec_draw_method, SignedDistance};
use crate::transform::{
    lemma_unit_to_device_fits, t_unit_to_device, t_unit_to_pixels, Transform,
};
use crate::vec2::{v2_div, Vec2, V2};

verus! {

/// The uniforms of a plain rectangle draw: where the quad's center goes in
/// device space and how it is scaled. The quad spans two device units, so
/// the scale is the device image of half the rectangle's dimensions.
pub struct RectUniforms {
    pub position: Vec2,
    pub scale: Vec2,
}

/// Computes the position and scale uniforms for a rectangle of dimensions
/// `dim` centered at `pos`, both in unit space.
pub fn rect_uniforms(t: &Transform, pos: Vec2, dim: Vec2) -> (r: RectUniforms)
    requires
        t.wf(),
        pos.wf(),
        dim.wf(),
        pos.bounded(0x10_0000),
        dim.bounded(0x10_0000),
    ensures
        r.position@ == t_unit_to_device(t@, pos@),
        r.scale@ == t_unit_to_device(t@, v2_div(dim@, ratio_int(2))),
        r.position.wf(),
        r.scale.wf(),
{
    proof {
        lemma_unit_to_device_fits(t@, pos@, 0x10_0000, 0x10_0000);
        lemma_div_result_bounded(dim@.x, ratio_int(2), 0x10_0000, 0x10_0000, 2, 1);
        lemma_div_result_bounded(dim@.y, ratio_int(2), 0x10_0000, 0x10_0000, 2, 1);
        lemma_unit_to_device_fits(t@, v2_div(dim@, ratio_int(2)), 0x10_0000, 0x20_0000);
    }
    let position: Vec2 = t.vec_to_opengl(pos);
    let scale: Vec2 = t.vec_to_opengl(dim.div(Rat::from_int(2)));
    RectUniforms { position, scale }
}

/// The uniforms of a shape draw: the flat color, the shape's points in
/// pixel space (a circle's center paired with its radius, a segment's two
/// endpoints), the scalar parameter (a segment's thickness), the number
/// selecting the shader's distance function, and the quad placement over
/// the shape's bounding box.
pub struct SdfUniforms {
    pub color: Color,
    pub point_a: Vec2,
    pub point_b: Vec2,
    pub parameter: Rat,
    pub draw_method: i32,
    pub position: Vec2,
    pub scale: Vec2,
}

/// Computes every uniform a shape draw writes.
pub fn sdf_uniforms(t: &Transform, sdf: &SignedDistance) -> (u: SdfUniforms)
    requires
        t.wf(),
        sdf.wf(),
        sdf.bounded(0x1000),
    ensures
        u.draw_method as int == spec_draw_method(*sdf),
        (match *sdf {
            SignedDistance::Circle { center, radius, color } => {
                &&& u.color == color
                &&& u.point_a@ == t_unit_to_pixels(t@, center@)
                &&& u.point_b@ == (V2 { x: ratio_int(radius as int), y: ratio_int(0) })
                &&& u.parameter@ == ratio_int(0)
            },
            SignedDistance::LineSegment { start, end, thickness, color } => {
                &&& u.color == color
                &&& u.point_a@ == t_unit_to_pixels(t@, start@)
                &&& u.point_b@ == t_unit_to_pixels(t@, end@)
                &&& u.parameter@ == ratio_int(thickness as int)
            },
        }),
        u.position@ == t_unit_to_device(t@, spec_bounds(*sdf, t@).0),
        u.scale@ == t_unit_to_device(t@, v2_div(spec_bounds(*sdf, t@).1, ratio_int(2))),
        u.point_a.wf(),
        u.point_b.wf(),
        u.parameter.wf(),
        u.position.wf(),
        u.scale.wf(),
{
    let (bpos, bdim): (Vec2, Vec2) = sdf.get_bounds(t);
    proof {
        lemma_unit_to_device_fits(t@, bpos@, 0x40_0000_0000, 0x40_0000_0000);
        lemma_div_result_bounded(
            bdim@.x,
            ratio_int(2),
            0x800_0000_0000,
            0x800_0000_0000,
            2,
            1,
        );
        lemma_div_result_bounded(
            bdim@.y,
            ratio_int(2),
            0x800_0000_0000,
            0x800_0000_0000,
            2,
            1,
        );
        lemma_unit_to_device_fits(
            t@,
            v2_div(bdim@, ratio_int(2)),
            0x800_0000_0000,
            0x1000_0000_0000,
        );
    }
    let position: Vec2 = t.vec_to_opengl(bpos);
    let scale: Vec2 = t.vec_to_opengl(bdim.div(Rat::from_int(2)));
    let draw_method: i32 = sdf.draw_method_index();
    match sdf {
        SignedDistance::Circle { center, radius, color } => {
            let point_a: Vec2 = t.vec_to_pixels(*center);
            let point_b: Vec2 = Vec2::new(Rat::from_u32(*radius), Rat::zero());
            SdfUniforms {
                color: *color,
                point_a,
                point_b,
                parameter: Rat::zero(),
                draw_method,
                position,
                scale,
            }
        },
        SignedDistance::LineSegment { start, end, thickness, color } => {
            let point_a: Vec2 = t.vec_to_pixels(*start);
            let point_b: Vec2 = t.vec_to_pixels(*end);
            SdfUniforms {
                color: *color,
                point_a,
                point_b,
                parameter: Rat::from_u32(*thickness),
                draw_method,
                position,
                scale,
            }
        },
    }
}

} // verus!
