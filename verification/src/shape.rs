//! Signed-distance shapes and their covering bounding boxes.
//!
//! A shape is drawn by positioning the shared quad over a conservative
//! unit-space bounding box and letting the fragment shader evaluate the
//! analytic distance function inside it. The box must cover the shape;
//! [`spec_bounds`] states it exactly: a circle gets a tight square, a line
//! segment gets its axis-aligned extent padded by three times the stroke
//! thickness in units on each axis.

use vstd::prelude::*;

use crate::color::{color_wf, Color};
use crate::rat::{
    lemma_add_result_bounded, lemma_div_result_bounded, lemma_mul_result_bounded,
    lemma_ratio_add_mono, lemma_ratio_add_nonneg_ge, lemma_ratio_add_sub_recover,
    lemma_ratio_add_twice, lemma_ratio_eqv_abs, lemma_ratio_eqv_add, lemma_ratio_eqv_div,
    lemma_ratio_eqv_mul, lemma_ratio_eqv_sub, lemma_ratio_eqv_trans, lemma_ratio_le_eqv_left,
    lemma_ratio_le_trans, lemma_ratio_sub_add_cancel, lemma_ratio_sub_nonneg_le,
    lemma_sub_result_bounded, ratio_abs, ratio_add, ratio_div, ratio_eqv, ratio_int, ratio_le,
    ratio_lt, ratio_mul, ratio_sub, ratio_wf, Rat, Ratio,
};
use crate::transform::{t_pixels_to_mur, t_wf, Transform, TransformV};
use crate::vec2::{v2_eqv, v2_wf, Vec2, V2};

verus! {

/// How the fragment shader colors a pixel: from the bound texture, from a
/// flat color, or by tinting the texture's alpha with a flat color (used
/// for glyphs).
#[derive(Clone, Copy, Debug, PartialEq, Eq, Structural)]
pub enum TextureColoring {
    MixTexture,
    Texture,
    Color,
}

/// The integer value the shader's coloring switch takes for each mode.
pub open spec fn spec_coloring_value(c: TextureColoring) -> int {
    match c {
        TextureColoring::MixTexture => 1,
        TextureColoring::Texture => 0,
        TextureColoring::Color => 2,
    }
}

impl TextureColoring {
    /// The value to write into the shader's coloring-mode uniform.
    pub fn uniform_value(&self) -> (r: i32)
        ensures
            r as int == spec_coloring_value(*self),
    {
        match self {
            TextureColoring::MixTexture => 1,
            TextureColoring::Texture => 0,
            TextureColoring::Color => 2,
        }
    }
}

/// An analytically defined shape, consumed by one draw call.
#[derive(Clone, Copy, Debug, PartialEq, Eq, Structural)]
pub enum SignedDistance {
    Circle { center: Vec2, radius: u32, color: Color },
    LineSegment { start: Vec2, end: Vec2, thickness: u32, color: Color },
}

/// The number selecting the shader's distance function for a shape.
pub open spec fn spec_draw_method(s: SignedDistance) -> int {
    match s {
        SignedDistance::Circle { .. } => 1,
        SignedDistance::LineSegment { .. } => 2,
    }
}

/// The smaller of two ratios, with ties resolved toward the second, as the
/// per-axis corner comparison resolves them.
pub open spec fn ratio_min2(a: Ratio, b: Ratio) -> Ratio {
    if ratio_lt(a, b) {
        a
    } else {
        b
    }
}

pub open spec fn ratio_max2(a: Ratio, b: Ratio) -> Ratio {
    if ratio_lt(a, b) {
        b
    } else {
        a
    }
}

/// The unit-space bounding box of a shape: its center and dimensions.
///
/// A circle keeps its center and gets the square of side `2 * radius`. A
/// line segment gets its per-axis extent; the center is the low corner
/// plus half the extent, and the dimensions are the extent plus three
/// times the thickness in units on each axis.
pub open spec fn spec_bounds(s: SignedDistance, t: TransformV) -> (V2, V2) {
    match s {
        SignedDistance::Circle { center, radius, .. } => (
            center@,
            V2 {
                x: ratio_mul(ratio_int(radius as int), ratio_int(2)),
                y: ratio_mul(ratio_int(radius as int), ratio_int(2)),
            },
        ),
        SignedDistance::LineSegment { start, end, thickness, .. } => {
            let lo = V2 {
                x: ratio_min2(start@.x, end@.x),
                y: ratio_min2(start@.y, end@.y),
            };
            let hi = V2 {
                x: ratio_max2(start@.x, end@.x),
                y: ratio_max2(start@.y, end@.y),
            };
            let hdim = V2 {
                x: ratio_div(ratio_abs(ratio_sub(hi.x, lo.x)), ratio_int(2)),
                y: ratio_div(ratio_abs(ratio_sub(hi.y, lo.y)), ratio_int(2)),
            };
            let pad = ratio_mul(t_pixels_to_mur(t, thickness as int), ratio_int(3));
            (
                V2 { x: ratio_add(lo.x, hdim.x), y: ratio_add(lo.y, hdim.y) },
                V2 {
                    x: ratio_add(ratio_mul(hdim.x, ratio_int(2)), pad),
                    y: ratio_add(ratio_mul(hdim.y, ratio_int(2)), pad),
                },
            )
        },
    }
}

impl SignedDistance {
    pub open spec fn wf(self) -> bool {
        match self {
            SignedDistance::Circle { center, color, .. } => v2_wf(center@) && color_wf(color@),
            SignedDistance::LineSegment { start, end, color, .. } => v2_wf(start@) && v2_wf(end@)
                && color_wf(color@),
        }
    }

    /// The shape's coordinates are within magnitude `b` and its pixel
    /// measure within the transform's size limit.
    pub open spec fn bounded(self, b: int) -> bool {
        match self {
            SignedDistance::Circle { center, .. } => center.bounded(b),
            SignedDistance::LineSegment { start, end, thickness, .. } => start.bounded(b)
                && end.bounded(b) && thickness <= 0x8000,
        }
    }

    /// Whether the shape's coordinates are within magnitude `b` and its
    /// thickness within the transform's size limit; tests the `bounded`
    /// precondition of `get_bounds` and the uniform computation.
    pub fn is_bounded(&self, b: i64) -> (r: bool)
        requires
            0 <= b,
        ensures
            r == self.bounded(b as int),
    {
        match self {
            SignedDistance::Circle { center, .. } => center.is_bounded(b),
            SignedDistance::LineSegment { start, end, thickness, .. } => start.is_bounded(b)
                && end.is_bounded(b) && *thickness <= 0x8000,
        }
    }

    pub fn circle(center: Vec2, radius: u32, color: Color) -> (s: SignedDistance)
        ensures
            s == (SignedDistance::Circle { center, radius, color }),
    {
        SignedDistance::Circle { center, radius, color }
    }

    pub fn line_segment(start: Vec2, end: Vec2, thickness: u32, color: Color) -> (s:
        SignedDistance)
        ensures
            s == (SignedDistance::LineSegment { start, end, thickness, color }),
    {
        SignedDistance::LineSegment { start, end, thickness, color }
    }

    /// The number selecting the shader's distance function.
    pub fn draw_method_index(&self) -> (r: i32)
        ensures
            r as int == spec_draw_method(*self),
    {
        match self {
            SignedDistance::Circle { .. } => 1,
            SignedDistance::LineSegment { .. } => 2,
        }
    }

    /// The covering bounding box in unit space: center and dimensions.
    pub fn get_bounds(&self, trns: &Transform) -> (r: (Vec2, Vec2))
        requires
            trns.wf(),
            self.wf(),
            self.bounded(0x10_0000),
        ensures
            r.0@ == spec_bounds(*self, trns@).0,
            r.1@ == spec_bounds(*self, trns@).1,
            r.0.wf(),
            r.1.wf(),
            self.bounded(0x1000) ==> r.0.bounded(0x40_0000_0000) && r.1.bounded(
                0x800_0000_0000,
            ),
    {
        match self {
            SignedDistance::Circle { center, radius, .. } => {
                let side: Rat = Rat::from_u32(*radius).mul(Rat::from_int(2));
                (*center, Vec2::new(side, side))
            },
            SignedDistance::LineSegment { start, end, thickness, .. } => {
                let lo_x: Rat = if start.x.lt(&end.x) {
                    start.x
                } else {
                    end.x
                };
                let hi_x: Rat = if start.x.lt(&end.x) {
                    end.x
                } else {
                    start.x
                };
                let lo_y: Rat = if start.y.lt(&end.y) {
                    start.y
                } else {
                    end.y
                };
                let hi_y: Rat = if start.y.lt(&end.y) {
                    end.y
                } else {
                    start.y
                };
                proof {
                    lemma_sub_result_bounded(hi_x@, lo_x@, 0x10_0000, 0x10_0000, 0x10_0000, 0x10_0000);
                    lemma_sub_result_bounded(hi_y@, lo_y@, 0x10_0000, 0x10_0000, 0x10_0000, 0x10_0000);
                }
                let dim: Vec2 = Vec2::new(hi_x, hi_y).sub(Vec2::new(lo_x, lo_y));
                let hdim: Vec2 = dim.abs().div(Rat::from_int(2));
                proof {
                    let dax = ratio_abs(ratio_sub(hi_x@, lo_x@));
                    let day = ratio_abs(ratio_sub(hi_y@, lo_y@));
                    lemma_div_result_bounded(dax, ratio_int(2), 0x200_0000_0000, 0x100_0000_0000, 2, 1);
                    lemma_div_result_bounded(day, ratio_int(2), 0x200_0000_0000, 0x100_0000_0000, 2, 1);
                    lemma_add_result_bounded(
                        lo_x@,
                        ratio_div(dax, ratio_int(2)),
                        0x10_0000,
                        0x10_0000,
                        0x200_0000_0000,
                        0x200_0000_0000,
                    );
                    lemma_add_result_bounded(
                        lo_y@,
                        ratio_div(day, ratio_int(2)),
                        0x10_0000,
                        0x10_0000,
                        0x200_0000_0000,
                        0x200_0000_0000,
                    );
                }
                let center: Vec2 = Vec2::new(lo_x, lo_y).add(hdim);
                let pad: Rat = trns.pixels_to_mur(*thickness).mul(Rat::from_int(3));
                proof {
                    let dax = ratio_abs(ratio_sub(hi_x@, lo_x@));
                    let day = ratio_abs(ratio_sub(hi_y@, lo_y@));
                    lemma_mul_result_bounded(
                        ratio_div(dax, ratio_int(2)),
                        ratio_int(2),
                        0x200_0000_0000,
                        0x200_0000_0000,
                        2,
                        1,
                    );
                    lemma_mul_result_bounded(
                        ratio_div(day, ratio_int(2)),
                        ratio_int(2),
                        0x200_0000_0000,
                        0x200_0000_0000,
                        2,
                        1,
                    );
                    lemma_add_result_bounded(
                        ratio_mul(ratio_div(dax, ratio_int(2)), ratio_int(2)),
                        pad@,
                        0x400_0000_0000,
                        0x200_0000_0000,
                        0x1_8000,
                        0x8000,
                    );
                    lemma_add_result_bounded(
                        ratio_mul(ratio_div(day, ratio_int(2)), ratio_int(2)),
                        pad@,
                        0x400_0000_0000,
                        0x200_0000_0000,
                        0x1_8000,
                        0x8000,
                    );
                }
                let dims: Vec2 = hdim.mul(Rat::from_int(2)).add(Vec2::new(pad, pad));
                proof {
                    if self.bounded(0x1000) {
                        let dax = ratio_abs(ratio_sub(hi_x@, lo_x@));
                        let day = ratio_abs(ratio_sub(hi_y@, lo_y@));
                        lemma_sub_result_bounded(hi_x@, lo_x@, 0x1000, 0x1000, 0x1000, 0x1000);
                        lemma_sub_result_bounded(hi_y@, lo_y@, 0x1000, 0x1000, 0x1000, 0x1000);
                        lemma_div_result_bounded(dax, ratio_int(2), 0x200_0000, 0x100_0000, 2, 1);
                        lemma_div_result_bounded(day, ratio_int(2), 0x200_0000, 0x100_0000, 2, 1);
                        lemma_add_result_bounded(
                            lo_x@,
                            ratio_div(dax, ratio_int(2)),
                            0x1000,
                            0x1000,
                            0x200_0000,
                            0x200_0000,
                        );
                        lemma_add_result_bounded(
                            lo_y@,
                            ratio_div(day, ratio_int(2)),
                            0x1000,
                            0x1000,
                            0x200_0000,
                            0x200_0000,
                        );
                        lemma_mul_result_bounded(
                            ratio_div(dax, ratio_int(2)),
                            ratio_int(2),
                            0x200_0000,
                            0x200_0000,
                            2,
                            1,
                        );
                        lemma_mul_result_bounded(
                            ratio_div(day, ratio_int(2)),
                            ratio_int(2),
                            0x200_0000,
                            0x200_0000,
                            2,
                            1,
                        );
                        lemma_add_result_bounded(
                            ratio_mul(ratio_div(dax, ratio_int(2)), ratio_int(2)),
                            pad@,
                            0x400_0000,
                            0x200_0000,
                            0x1_8000,
                            0x8000,
                        );
                        lemma_add_result_bounded(
                            ratio_mul(ratio_div(day, ratio_int(2)), ratio_int(2)),
                            pad@,
                            0x400_0000,
                            0x200_0000,
                            0x1_8000,
                            0x8000,
                        );
                    }
                }
                (center, dims)
            },
        }
    }
}

/// Law: a circle's bounding box does not depend on the transform — it is
/// the same for any two transforms.
pub proof fn lemma_circle_bounds_transform_independent(
    s: SignedDistance,
    t1: TransformV,
    t2: TransformV,
)
    requires
        s is Circle,
    ensures
        spec_bounds(s, t1) == spec_bounds(s, t2),
{
}


/// Law: a circle's box is tight — on each axis its edges denote exactly
/// the center shifted by the radius, so the box covers the circle and
/// nothing more.
pub proof fn lemma_circle_bounds_tight(center: Vec2, radius: u32, color: Color, t: TransformV)
    requires
        center.wf(),
    ensures
        ({
            let bounds = spec_bounds(SignedDistance::Circle { center, radius, color }, t);
            let half_x = ratio_div(bounds.1.x, ratio_int(2));
            let half_y = ratio_div(bounds.1.y, ratio_int(2));
            &&& ratio_eqv(ratio_sub(bounds.0.x, half_x), ratio_sub(center@.x, ratio_int(radius as int)))
            &&& ratio_eqv(ratio_add(bounds.0.x, half_x), ratio_add(center@.x, ratio_int(radius as int)))
            &&& ratio_eqv(ratio_sub(bounds.0.y, half_y), ratio_sub(center@.y, ratio_int(radius as int)))
            &&& ratio_eqv(ratio_add(bounds.0.y, half_y), ratio_add(center@.y, ratio_int(radius as int)))
        }),
{
    let r = ratio_int(radius as int);
    let side = ratio_mul(r, ratio_int(2));
    let half = ratio_div(side, ratio_int(2));
    assert(ratio_eqv(half, r));
    lemma_ratio_eqv_sub(center@.x, half, center@.x, r);
    lemma_ratio_eqv_add(center@.x, half, center@.x, r);
    lemma_ratio_eqv_sub(center@.y, half, center@.y, r);
    lemma_ratio_eqv_add(center@.y, half, center@.y, r);
}

/// Law: swapping a line segment's endpoints does not change its bounding
/// box: both the center and the dimensions denote the same values.
pub proof fn lemma_line_bounds_order_independent(
    start: Vec2,
    end: Vec2,
    thickness: u32,
    color: Color,
    t: TransformV,
)
    requires
        start.wf(),
        end.wf(),
        t_wf(t),
    ensures
        v2_eqv(
            spec_bounds(SignedDistance::LineSegment { start, end, thickness, color }, t).0,
            spec_bounds(
                SignedDistance::LineSegment { start: end, end: start, thickness, color },
                t,
            ).0,
        ),
        v2_eqv(
            spec_bounds(SignedDistance::LineSegment { start, end, thickness, color }, t).1,
            spec_bounds(
                SignedDistance::LineSegment { start: end, end: start, thickness, color },
                t,
            ).1,
        ),
{
    lemma_axis_bounds_order_independent(start@.x, end@.x, t, thickness as int);
    lemma_axis_bounds_order_independent(start@.y, end@.y, t, thickness as int);
}

/// One axis of the order-independence law: with the endpoints swapped, the
/// center and padded extent denote the same rationals.
proof fn lemma_axis_bounds_order_independent(a: Ratio, b: Ratio, t: TransformV, th: int)
    requires
        ratio_wf(a),
        ratio_wf(b),
        t_wf(t),
        0 <= th,
    ensures
        ratio_eqv(
            ratio_add(ratio_min2(a, b), ratio_div(ratio_abs(ratio_sub(ratio_max2(a, b), ratio_min2(a, b))), ratio_int(2))),
            ratio_add(ratio_min2(b, a), ratio_div(ratio_abs(ratio_sub(ratio_max2(b, a), ratio_min2(b, a))), ratio_int(2))),
        ),
        ratio_eqv(
            ratio_add(
                ratio_mul(ratio_div(ratio_abs(ratio_sub(ratio_max2(a, b), ratio_min2(a, b))), ratio_int(2)), ratio_int(2)),
                ratio_mul(t_pixels_to_mur(t, th), ratio_int(3)),
            ),
            ratio_add(
                ratio_mul(ratio_div(ratio_abs(ratio_sub(ratio_max2(b, a), ratio_min2(b, a))), ratio_int(2)), ratio_int(2)),
                ratio_mul(t_pixels_to_mur(t, th), ratio_int(3)),
            ),
        ),
{
    let lo1 = ratio_min2(a, b);
    let hi1 = ratio_max2(a, b);
    let lo2 = ratio_min2(b, a);
    let hi2 = ratio_max2(b, a);
    if ratio_lt(a, b) {
        assert(lo1 == a && hi1 == b && lo2 == a && hi2 == b);
    } else if ratio_lt(b, a) {
        assert(lo1 == b && hi1 == a && lo2 == b && hi2 == a);
    } else {
        // neither is smaller: the endpoints denote the same rational
        assert(ratio_eqv(a, b));
        assert(ratio_eqv(b, a));
    }
    assert(ratio_eqv(lo1, lo2) && ratio_eqv(hi1, hi2));
    assert(hi1.d * lo1.d > 0) by (nonlinear_arith)
        requires
            hi1.d > 0,
            lo1.d > 0,
    ;
    assert(hi2.d * lo2.d > 0) by (nonlinear_arith)
        requires
            hi2.d > 0,
            lo2.d > 0,
    ;
    lemma_ratio_eqv_sub(hi1, lo1, hi2, lo2);
    lemma_ratio_eqv_abs(ratio_sub(hi1, lo1), ratio_sub(hi2, lo2));
    lemma_ratio_eqv_div(
        ratio_abs(ratio_sub(hi1, lo1)),
        ratio_abs(ratio_sub(hi2, lo2)),
        ratio_int(2),
    );
    let h1 = ratio_div(ratio_abs(ratio_sub(hi1, lo1)), ratio_int(2));
    let h2 = ratio_div(ratio_abs(ratio_sub(hi2, lo2)), ratio_int(2));
    lemma_ratio_eqv_add(lo1, h1, lo2, h2);
    lemma_ratio_eqv_mul(h1, ratio_int(2), h2, ratio_int(2));
    let pad = ratio_mul(t_pixels_to_mur(t, th), ratio_int(3));
    lemma_ratio_eqv_add(ratio_mul(h1, ratio_int(2)), pad, ratio_mul(h2, ratio_int(2)), pad);
}


/// Law: the bounding box is conservative — on each axis its edges lie at
/// or outside both of the segment's endpoints, so the box fully covers
/// the segment.
pub proof fn lemma_line_bounds_cover_endpoints(
    start: Vec2,
    end: Vec2,
    thickness: u32,
    color: Color,
    t: TransformV,
)
    requires
        start.wf(),
        end.wf(),
        t_wf(t),
    ensures
        ({
            let bounds = spec_bounds(
                SignedDistance::LineSegment { start, end, thickness, color },
                t,
            );
            let half_x = ratio_div(bounds.1.x, ratio_int(2));
            let half_y = ratio_div(bounds.1.y, ratio_int(2));
            &&& ratio_le(ratio_sub(bounds.0.x, half_x), start@.x)
            &&& ratio_le(ratio_sub(bounds.0.x, half_x), end@.x)
            &&& ratio_le(start@.x, ratio_add(bounds.0.x, half_x))
            &&& ratio_le(end@.x, ratio_add(bounds.0.x, half_x))
            &&& ratio_le(ratio_sub(bounds.0.y, half_y), start@.y)
            &&& ratio_le(ratio_sub(bounds.0.y, half_y), end@.y)
            &&& ratio_le(start@.y, ratio_add(bounds.0.y, half_y))
            &&& ratio_le(end@.y, ratio_add(bounds.0.y, half_y))
        }),
{
    let pad = ratio_mul(t_pixels_to_mur(t, thickness as int), ratio_int(3));
    lemma_axis_cover(start@.x, end@.x, pad);
    lemma_axis_cover(start@.y, end@.y, pad);
}

/// One axis of the covering law: the box's edges around the padded
/// extent of `a` and `b` lie at or outside both.
proof fn lemma_axis_cover(a: Ratio, b: Ratio, pad: Ratio)
    requires
        ratio_wf(a),
        ratio_wf(b),
        ratio_wf(pad),
        pad.n >= 0,
    ensures
        ({
            let lo = ratio_min2(a, b);
            let hi = ratio_max2(a, b);
            let h = ratio_div(ratio_abs(ratio_sub(hi, lo)), ratio_int(2));
            let c = ratio_add(lo, h);
            let half = ratio_div(ratio_add(ratio_mul(h, ratio_int(2)), pad), ratio_int(2));
            &&& ratio_le(ratio_sub(c, half), a)
            &&& ratio_le(ratio_sub(c, half), b)
            &&& ratio_le(a, ratio_add(c, half))
            &&& ratio_le(b, ratio_add(c, half))
        }),
{
    let lo = ratio_min2(a, b);
    let hi = ratio_max2(a, b);
    let e = ratio_sub(hi, lo);
    // the extent's numerator is nonnegative, so its absolute value is
    // itself, and the endpoints are ordered around lo and hi
    assert(ratio_le(lo, a) && ratio_le(lo, b) && ratio_le(a, hi) && ratio_le(b, hi) && e.n >= 0);
    assert(ratio_abs(e) == e);
    let h = ratio_div(ratio_abs(e), ratio_int(2));
    let c = ratio_add(lo, h);
    let ph = ratio_div(pad, ratio_int(2));
    let half = ratio_div(ratio_add(ratio_mul(h, ratio_int(2)), pad), ratio_int(2));
    // halving the padded extent is the half extent plus half the padding
    assert(((h.n * 2) * pad.d + pad.n * (h.d * 1)) * 1 == h.n * (pad.d * 2) + (pad.n * 1) * h.d)
        by (nonlinear_arith);
    assert(((h.d * 1) * pad.d) * 2 == h.d * (pad.d * 2)) by (nonlinear_arith);
    assert(half == ratio_add(h, ph));
    // well-formedness of every intermediate value
    assert(hi.d * lo.d > 0) by (nonlinear_arith)
        requires
            hi.d > 0,
            lo.d > 0,
    ;
    assert(e.d > 0 && h.d > 0 && ph.d > 0);
    assert(lo.d * h.d > 0) by (nonlinear_arith)
        requires
            lo.d > 0,
            h.d > 0,
    ;
    assert(c.d > 0);
    assert(h.d * ph.d > 0) by (nonlinear_arith)
        requires
            h.d > 0,
            ph.d > 0,
    ;
    assert(half.d > 0);
    assert(lo.d * ph.d > 0) by (nonlinear_arith)
        requires
            lo.d > 0,
            ph.d > 0,
    ;
    assert(c.d * half.d > 0) by (nonlinear_arith)
        requires
            c.d > 0,
            half.d > 0,
    ;
    assert(c.d * h.d > 0) by (nonlinear_arith)
        requires
            c.d > 0,
            h.d > 0,
    ;

    // lower edge: c - half denotes lo - ph, which is at most lo
    lemma_ratio_sub_add_cancel(lo, ph, h);
    lemma_ratio_sub_nonneg_le(lo, ph);
    lemma_ratio_le_eqv_left(ratio_sub(c, half), ratio_sub(lo, ph), lo);
    lemma_ratio_le_trans(ratio_sub(c, half), lo, a);
    lemma_ratio_le_trans(ratio_sub(c, half), lo, b);

    // upper edge: c + h denotes hi, and half is at least h
    assert((h.n * 2) * e.d == e.n * (h.d * 1)) by (nonlinear_arith)
        requires
            h.n == e.n * 1,
            h.d == e.d * 2,
    ;
    assert(ratio_eqv(ratio_mul(h, ratio_int(2)), e));
    assert(lo.d * e.d > 0) by (nonlinear_arith)
        requires
            lo.d > 0,
            e.d > 0,
    ;
    assert(lo.d * (h.d * 1) > 0) by (nonlinear_arith)
        requires
            lo.d > 0,
            h.d > 0,
    ;
    lemma_ratio_add_twice(lo, h);
    lemma_ratio_eqv_add(lo, ratio_mul(h, ratio_int(2)), lo, e);
    lemma_ratio_add_sub_recover(lo, hi);
    lemma_ratio_eqv_trans(
        ratio_add(c, h),
        ratio_add(lo, ratio_mul(h, ratio_int(2))),
        ratio_add(lo, e),
    );
    lemma_ratio_eqv_trans(ratio_add(c, h), ratio_add(lo, e), hi);
    lemma_ratio_add_nonneg_ge(h, ph);
    lemma_ratio_add_mono(c, h, ratio_add(h, ph));
    assert(ratio_le(hi, ratio_add(c, h)));
    lemma_ratio_le_trans(hi, ratio_add(c, h), ratio_add(c, half));
    lemma_ratio_le_trans(a, hi, ratio_add(c, half));
    lemma_ratio_le_trans(b, hi, ratio_add(c, half));
}

/// Law: a degenerate line segment, whose endpoints denote the same point,
/// still has a well-formed bounding box: it collapses to that point, padded
/// on each axis by three times the thickness in units. No division is
/// involved, so there is no degenerate-input failure.
pub proof fn lemma_degenerate_line_bounds(
    start: Vec2,
    end: Vec2,
    thickness: u32,
    color: Color,
    t: TransformV,
)
    requires
        start.wf(),
        end.wf(),
        t_wf(t),
        v2_eqv(start@, end@),
    ensures
        v2_wf(spec_bounds(SignedDistance::LineSegment { start, end, thickness, color }, t).0),
        v2_wf(spec_bounds(SignedDistance::LineSegment { start, end, thickness, color }, t).1),
        v2_eqv(
            spec_bounds(SignedDistance::LineSegment { start, end, thickness, color }, t).0,
            start@,
        ),
        ratio_eqv(
            spec_bounds(SignedDistance::LineSegment { start, end, thickness, color }, t).1.x,
            ratio_mul(t_pixels_to_mur(t, thickness as int), ratio_int(3)),
        ),
        ratio_eqv(
            spec_bounds(SignedDistance::LineSegment { start, end, thickness, color }, t).1.y,
            ratio_mul(t_pixels_to_mur(t, thickness as int), ratio_int(3)),
        ),
{
    lemma_degenerate_axis(start@.x, end@.x, t, thickness as int);
    lemma_degenerate_axis(start@.y, end@.y, t, thickness as int);
}

/// One axis of the degenerate-segment law.
proof fn lemma_degenerate_axis(a: Ratio, b: Ratio, t: TransformV, th: int)
    requires
        ratio_wf(a),
        ratio_wf(b),
        t_wf(t),
        ratio_eqv(a, b),
    ensures
        ratio_wf(ratio_add(ratio_min2(a, b), ratio_div(ratio_abs(ratio_sub(ratio_max2(a, b), ratio_min2(a, b))), ratio_int(2)))),
        ratio_wf(ratio_add(
            ratio_mul(ratio_div(ratio_abs(ratio_sub(ratio_max2(a, b), ratio_min2(a, b))), ratio_int(2)), ratio_int(2)),
            ratio_mul(t_pixels_to_mur(t, th), ratio_int(3)),
        )),
        ratio_eqv(
            ratio_add(ratio_min2(a, b), ratio_div(ratio_abs(ratio_sub(ratio_max2(a, b), ratio_min2(a, b))), ratio_int(2))),
            a,
        ),
        ratio_eqv(
            ratio_add(
                ratio_mul(ratio_div(ratio_abs(ratio_sub(ratio_max2(a, b), ratio_min2(a, b))), ratio_int(2)), ratio_int(2)),
                ratio_mul(t_pixels_to_mur(t, th), ratio_int(3)),
            ),
            ratio_mul(t_pixels_to_mur(t, th), ratio_int(3)),
        ),
{
    let lo = ratio_min2(a, b);
    let hi = ratio_max2(a, b);
    // the endpoints denote the same value, so the extent's numerator is zero
    assert(!ratio_lt(a, b) && !ratio_lt(b, a));
    assert(hi.n * lo.d == lo.n * hi.d);
    let e = ratio_sub(hi, lo);
    assert(e.n == 0);
    let h = ratio_div(ratio_abs(e), ratio_int(2));
    assert(h.n == 0);
    assert(h.d > 0) by (nonlinear_arith)
        requires
            hi.d > 0,
            lo.d > 0,
            h.d == (hi.d * lo.d) * 2,
    ;
    // lo + h denotes lo, which denotes a
    let c = ratio_add(lo, h);
    assert(c.n == lo.n * h.d && c.d == lo.d * h.d);
    assert(c.d > 0) by (nonlinear_arith)
        requires
            lo.d > 0,
            h.d > 0,
            c.d == lo.d * h.d,
    ;
    assert(c.n * lo.d == lo.n * c.d) by (nonlinear_arith)
        requires
            c.n == lo.n * h.d,
            c.d == lo.d * h.d,
    ;
    assert(c.n * a.d == a.n * c.d) by (nonlinear_arith)
        requires
            c.n * lo.d == lo.n * c.d,
            lo.n * a.d == a.n * lo.d,
            lo.d > 0,
            c.d > 0,
            a.d > 0,
            c.n == lo.n * h.d,
            c.d == lo.d * h.d,
    ;
    // 2 * h + pad denotes pad
    let m = ratio_mul(h, ratio_int(2));
    assert(m.n == 0);
    let pad = ratio_mul(t_pixels_to_mur(t, th), ratio_int(3));
    assert(pad.d == t.mur * 1);
    let dim = ratio_add(m, pad);
    assert(dim.n == 0 * pad.d + pad.n * m.d);
    assert(dim.n == pad.n * m.d);
    assert(dim.n * pad.d == pad.n * dim.d) by (nonlinear_arith)
        requires
            dim.n == pad.n * m.d,
            dim.d == m.d * pad.d,
    ;
    assert(ratio_wf(dim)) by (nonlinear_arith)
        requires
            m.d > 0,
            pad.d > 0,
            dim.d == m.d * pad.d,
    ;
}

} // verus!
