//! The unit transform: conversions between window pixel space, the unit
//! grid ("murs" — a fixed number of pixels per unit, origin at the screen
//! center, y up), and the rendering API's normalized device space
//! (`[-1, 1]` on both axes).
//!
//! The ghost model of a transform is [`TransformV`]: the screen size in
//! pixels and the unit size. The derived unit-dimension vectors are tied to
//! that model by [`Transform::wf`], and `resized` recomputes them, so
//! anchoring always sees dimensions consistent with the latest resize.

use vstd::prelude::*;

use crate::rat::{
    lemma_add_result_bounded, lemma_div_result_bounded, lemma_mul_bound,
    lemma_mul_result_bounded, lemma_sub_result_bounded, ratio_add, ratio_div, ratio_div_fits,
    ratio_eqv, ratio_int, ratio_mul, ratio_mul_fits, ratio_sub, Rat, Ratio,
};
use crate::vec2::{v2_eqv, v2_invert, v2_wf, Vec2, V2};

verus! {

/// The ghost model of a transform: screen size in pixels and pixels per
/// unit ("mur size").
pub struct TransformV {
    pub screen_w: int,
    pub screen_h: int,
    pub mur: int,
}

/// A meaningful transform: nonzero screen and unit size.
pub open spec fn t_wf(t: TransformV) -> bool {
    t.screen_w > 0 && t.screen_h > 0 && t.mur > 0
}

/// The screen size as a vector of ratios.
pub open spec fn t_screen_vec(t: TransformV) -> V2 {
    V2 { x: ratio_int(t.screen_w), y: ratio_int(t.screen_h) }
}

/// The screen size in units: screen size divided by unit size.
pub open spec fn t_mur_dimensions(t: TransformV) -> V2 {
    V2 { x: Ratio { n: t.screen_w, d: t.mur }, y: Ratio { n: t.screen_h, d: t.mur } }
}

/// Half the screen size in units.
pub open spec fn t_mur_half_dimensions(t: TransformV) -> V2 {
    V2 { x: Ratio { n: t.screen_w, d: 2 * t.mur }, y: Ratio { n: t.screen_h, d: 2 * t.mur } }
}

/// Unit space to normalized device space:
/// `(v * mur) / (screen / 2)`, componentwise.
pub open spec fn t_unit_to_device(t: TransformV, v: V2) -> V2 {
    let scaled = V2 { x: ratio_mul(v.x, ratio_int(t.mur)), y: ratio_mul(v.y, ratio_int(t.mur)) };
    let half_screen = V2 {
        x: ratio_div(ratio_int(t.screen_w), ratio_int(2)),
        y: ratio_div(ratio_int(t.screen_h), ratio_int(2)),
    };
    V2 { x: ratio_div(scaled.x, half_screen.x), y: ratio_div(scaled.y, half_screen.y) }
}

/// Unit space to window pixel space: `v * mur + screen / 2` on the x
/// axis, and `screen / 2 - v * mur` on the y axis, since window pixels
/// run downward from the top while unit space has y up. This makes the
/// conversion the exact inverse of [`t_window_to_murs`].
pub open spec fn t_unit_to_pixels(t: TransformV, v: V2) -> V2 {
    let scaled = V2 { x: ratio_mul(v.x, ratio_int(t.mur)), y: ratio_mul(v.y, ratio_int(t.mur)) };
    let half_screen = V2 {
        x: ratio_div(ratio_int(t.screen_w), ratio_int(2)),
        y: ratio_div(ratio_int(t.screen_h), ratio_int(2)),
    };
    V2 { x: ratio_add(scaled.x, half_screen.x), y: ratio_sub(half_screen.y, scaled.y) }
}

/// Window pixel space (origin top-left, y down) to unit space: flip y,
/// subtract half the screen, divide by the screen, scale by the screen's
/// unit dimensions.
pub open spec fn t_window_to_murs(t: TransformV, v: V2) -> V2 {
    let sv = t_screen_vec(t);
    let flipped = V2 { x: v.x, y: ratio_sub(sv.y, v.y) };
    let half = V2 {
        x: ratio_div(sv.x, ratio_int(2)),
        y: ratio_div(sv.y, ratio_int(2)),
    };
    let centered = V2 {
        x: ratio_div(ratio_sub(flipped.x, half.x), sv.x),
        y: ratio_div(ratio_sub(flipped.y, half.y), sv.y),
    };
    let md = t_mur_dimensions(t);
    V2 { x: ratio_mul(centered.x, md.x), y: ratio_mul(centered.y, md.y) }
}

/// A pixel count in units: `px / mur`.
pub open spec fn t_pixels_to_mur(t: TransformV, px: int) -> Ratio {
    Ratio { n: px, d: t.mur }
}

/// The largest screen dimension and unit size the transform accepts; keeps
/// every conversion chain free of `i64` overflow.
pub const SCREEN_LIMIT: u32 = 0x8000;

/// Screen-size state plus the derived unit-dimension vectors.
#[derive(Clone, Copy, Debug, PartialEq, Eq, Structural)]
pub struct Transform {
    pub screen_width: u32,
    pub screen_height: u32,
    /// The screen size in pixels, as a vector.
    pub screen_vec: Vec2,
    /// The screen size in units.
    pub mur_dimensions: Vec2,
    /// Half the screen size in units.
    pub mur_half_dimensions: Vec2,
    /// Pixels per unit; fixed at construction.
    pub mur_size: u32,
}

impl View for Transform {
    type V = TransformV;

    open spec fn view(&self) -> TransformV {
        TransformV {
            screen_w: self.screen_width as int,
            screen_h: self.screen_height as int,
            mur: self.mur_size as int,
        }
    }
}

impl Transform {
    /// Well-formedness: sizes are nonzero and within [`SCREEN_LIMIT`], and
    /// the derived vectors agree with the ghost model.
    pub open spec fn wf(self) -> bool {
        &&& t_wf(self@)
        &&& self@.screen_w <= SCREEN_LIMIT
        &&& self@.screen_h <= SCREEN_LIMIT
        &&& self@.mur <= SCREEN_LIMIT
        &&& self.screen_vec@ == t_screen_vec(self@)
        &&& self.mur_dimensions@ == t_mur_dimensions(self@)
        &&& self.mur_half_dimensions@ == t_mur_half_dimensions(self@)
    }

    /// Builds the transform for a screen of `screen_width` by
    /// `screen_height` pixels with `mur_size` pixels per unit.
    pub fn new(screen_width: u32, screen_height: u32, mur_size: u32) -> (r: Transform)
        requires
            0 < screen_width <= SCREEN_LIMIT,
            0 < screen_height <= SCREEN_LIMIT,
            0 < mur_size <= SCREEN_LIMIT,
        ensures
            r.wf(),
            r@ == (TransformV {
                screen_w: screen_width as int,
                screen_h: screen_height as int,
                mur: mur_size as int,
            }),
    {
        let screen_vec: Vec2 = Vec2::from_u32s(screen_width, screen_height);
        let mur_dimensions: Vec2 = screen_vec.div(Rat::from_u32(mur_size));
        let mur_half_dimensions: Vec2 = mur_dimensions.div(Rat::from_int(2));
        Transform {
            screen_width,
            screen_height,
            screen_vec,
            mur_dimensions,
            mur_half_dimensions,
            mur_size,
        }
    }

    /// Screen width in pixels.
    pub fn screen_width(&self) -> (w: u32)
        ensures
            w as int == self@.screen_w,
    {
        self.screen_width
    }

    /// Screen height in pixels.
    pub fn screen_height(&self) -> (h: u32)
        ensures
            h as int == self@.screen_h,
    {
        self.screen_height
    }

    /// Notes a window resize: updates the screen size and recomputes the
    /// unit dimensions, keeping the unit size fixed.
    pub fn resized(&mut self, screen_width: u32, screen_height: u32)
        requires
            old(self).wf(),
            0 < screen_width <= SCREEN_LIMIT,
            0 < screen_height <= SCREEN_LIMIT,
        ensures
            final(self).wf(),
            final(self)@ == (TransformV {
                screen_w: screen_width as int,
                screen_h: screen_height as int,
                mur: old(self)@.mur,
            }),
    {
        let fresh: Transform = Transform::new(screen_width, screen_height, self.mur_size);
        *self = fresh;
    }

    /// Maps a unit-space vector into normalized device coordinates. Works
    /// for positions and for half-extents alike. The `fits` premises say
    /// that each intermediate product is representable; for any vector
    /// within [`crate::vec2::COORD_BOUND`] they hold (see
    /// [`lemma_unit_to_device_fits`]).
    pub fn vec_to_opengl(&self, vec: Vec2) -> (r: Vec2)
        requires
            self.wf(),
            vec.wf(),
            ratio_mul_fits(vec@.x, ratio_int(self@.mur)),
            ratio_mul_fits(vec@.y, ratio_int(self@.mur)),
            ratio_div_fits(
                ratio_mul(vec@.x, ratio_int(self@.mur)),
                ratio_div(ratio_int(self@.screen_w), ratio_int(2)),
            ),
            ratio_div_fits(
                ratio_mul(vec@.y, ratio_int(self@.mur)),
                ratio_div(ratio_int(self@.screen_h), ratio_int(2)),
            ),
        ensures
            r@ == t_unit_to_device(self@, vec@),
            r.wf(),
    {
        let scaled: Vec2 = vec.mul(Rat::from_u32(self.mur_size));
        let half_screen: Vec2 = self.screen_vec.div(Rat::from_int(2));
        scaled.div_components(half_screen)
    }

    /// Maps a window pixel coordinate (origin top-left, y down) into unit
    /// space (origin at the screen center, y up).
    pub fn window_vec_to_murs(&self, vec: Vec2) -> (r: Vec2)
        requires
            self.wf(),
            vec.wf(),
            vec.bounded(0x10_0000),
        ensures
            r@ == t_window_to_murs(self@, vec@),
            r.wf(),
    {
        proof {
            lemma_sub_result_bounded(ratio_int(self@.screen_h), vec@.y, 0x8000, 1, 0x10_0000, 0x10_0000);
        }
        let flipped: Vec2 = Vec2::new(vec.x, self.screen_vec.y.sub(vec.y));
        proof {
            // flipped components are within (2^36, 2^20); half screen is (2^15, 2).
            lemma_sub_result_bounded(
                flipped@.x,
                ratio_div(ratio_int(self@.screen_w), ratio_int(2)),
                0x10_0000_0000,
                0x10_0000,
                0x8000,
                2,
            );
            lemma_sub_result_bounded(
                flipped@.y,
                ratio_div(ratio_int(self@.screen_h), ratio_int(2)),
                0x10_0000_0000,
                0x10_0000,
                0x8000,
                2,
            );
            lemma_div_result_bounded(
                ratio_sub(flipped@.x, ratio_div(ratio_int(self@.screen_w), ratio_int(2))),
                ratio_int(self@.screen_w),
                0x40_0000_0000,
                0x20_0000,
                0x8000,
                1,
            );
            lemma_div_result_bounded(
                ratio_sub(flipped@.y, ratio_div(ratio_int(self@.screen_h), ratio_int(2))),
                ratio_int(self@.screen_h),
                0x40_0000_0000,
                0x20_0000,
                0x8000,
                1,
            );
            lemma_mul_result_bounded(
                ratio_div(
                    ratio_sub(flipped@.x, ratio_div(ratio_int(self@.screen_w), ratio_int(2))),
                    ratio_int(self@.screen_w),
                ),
                t_mur_dimensions(self@).x,
                0x40_0000_0000,
                0x10_0000_0000,
                0x8000,
                0x8000,
            );
            lemma_mul_result_bounded(
                ratio_div(
                    ratio_sub(flipped@.y, ratio_div(ratio_int(self@.screen_h), ratio_int(2))),
                    ratio_int(self@.screen_h),
                ),
                t_mur_dimensions(self@).y,
                0x40_0000_0000,
                0x10_0000_0000,
                0x8000,
                0x8000,
            );
        }
        let half_screen: Vec2 = self.screen_vec.div(Rat::from_int(2));
        let centered: Vec2 = flipped.sub(half_screen).div_components(self.screen_vec);
        Vec2::new(
            centered.x.mul(self.mur_dimensions.x),
            centered.y.mul(self.mur_dimensions.y),
        )
    }

    /// Places a unit-space point at an absolute window pixel coordinate:
    /// origin at the screen center, with the y axis flipped into the
    /// window's top-down convention. The inverse of `window_vec_to_murs`.
    pub fn vec_to_pixels(&self, vec: Vec2) -> (r: Vec2)
        requires
            self.wf(),
            vec.wf(),
            vec.bounded(0x10_0000),
        ensures
            r@ == t_unit_to_pixels(self@, vec@),
            r.wf(),
    {
        proof {
            lemma_mul_result_bounded(vec@.x, ratio_int(self@.mur), 0x10_0000, 0x10_0000, 0x8000, 1);
            lemma_mul_result_bounded(vec@.y, ratio_int(self@.mur), 0x10_0000, 0x10_0000, 0x8000, 1);
            lemma_add_result_bounded(
                ratio_mul(vec@.x, ratio_int(self@.mur)),
                ratio_div(ratio_int(self@.screen_w), ratio_int(2)),
                0x8_0000_0000,
                0x10_0000,
                0x8000,
                2,
            );
            lemma_sub_result_bounded(
                ratio_div(ratio_int(self@.screen_h), ratio_int(2)),
                ratio_mul(vec@.y, ratio_int(self@.mur)),
                0x8000,
                2,
                0x8_0000_0000,
                0x10_0000,
            );
        }
        let scaled: Vec2 = vec.mul(Rat::from_u32(self.mur_size));
        let half_screen: Vec2 = self.screen_vec.div(Rat::from_int(2));
        Vec2::new(scaled.x.add(half_screen.x), half_screen.y.sub(scaled.y))
    }

    /// A pixel count expressed in units.
    pub fn pixels_to_mur(&self, pixels: u32) -> (r: Rat)
        requires
            self.wf(),
        ensures
            r@ == t_pixels_to_mur(self@, pixels as int),
            r.wf(),
    {
        Rat::from_u32(pixels).div(Rat::from_u32(self.mur_size))
    }
}


/// For a transform within its size limits and a vector whose components
/// are within `bn` over `bd`, the products `vec_to_opengl` forms stay
/// within `i64` as long as `bn * mur * 2` and `bd * screen` do.
pub proof fn lemma_unit_to_device_fits(t: TransformV, v: V2, bn: int, bd: int)
    requires
        t_wf(t),
        t.screen_w <= 0x8000,
        t.screen_h <= 0x8000,
        t.mur <= 0x8000,
        v2_wf(v),
        -bn <= v.x.n <= bn && 0 < v.x.d <= bd,
        -bn <= v.y.n <= bn && 0 < v.y.d <= bd,
        0 < bd,
        0 < bn,
        bn * 0x8000 * 2 <= 0x7fff_ffff_ffff_ffff,
        bd * 0x8000 <= 0x7fff_ffff_ffff_ffff,
    ensures
        ratio_mul_fits(v.x, ratio_int(t.mur)),
        ratio_mul_fits(v.y, ratio_int(t.mur)),
        ratio_div_fits(
            ratio_mul(v.x, ratio_int(t.mur)),
            ratio_div(ratio_int(t.screen_w), ratio_int(2)),
        ),
        ratio_div_fits(
            ratio_mul(v.y, ratio_int(t.mur)),
            ratio_div(ratio_int(t.screen_h), ratio_int(2)),
        ),
{
    lemma_mul_result_bounded(v.x, ratio_int(t.mur), bn, bd, 0x8000, 1);
    lemma_mul_result_bounded(v.y, ratio_int(t.mur), bn, bd, 0x8000, 1);
    lemma_mul_bound(v.x.n * t.mur, 2, bn * 0x8000, 2);
    lemma_mul_bound(v.y.n * t.mur, 2, bn * 0x8000, 2);
    lemma_mul_bound(v.x.d, t.screen_w, bd, 0x8000);
    lemma_mul_bound(v.y.d, t.screen_h, bd, 0x8000);
    assert(v.x.d * 1 == v.x.d && v.y.d * 1 == v.y.d);
    lemma_mul_bound(v.x.d * 1, t.screen_w * 1, bd, 0x8000);
    lemma_mul_bound(v.y.d * 1, t.screen_h * 1, bd, 0x8000);
}

/// Law: mapping half the screen's unit dimensions into device space lands
/// exactly on the device square's corner `(1, 1)`, for every transform;
/// the negated half dimensions land on `(-1, -1)`.
pub proof fn lemma_device_space_symmetry(t: TransformV)
    requires
        t_wf(t),
    ensures
        v2_eqv(
            t_unit_to_device(t, t_mur_half_dimensions(t)),
            V2 { x: ratio_int(1), y: ratio_int(1) },
        ),
        v2_eqv(
            t_unit_to_device(t, v2_invert(t_mur_half_dimensions(t), true, true)),
            V2 { x: ratio_int(-1), y: ratio_int(-1) },
        ),
{
    let sw = t.screen_w;
    let sh = t.screen_h;
    let m = t.mur;
    assert((sw * m) * 2 * 1 == 1 * ((2 * m) * sw)) by (nonlinear_arith);
    assert((sh * m) * 2 * 1 == 1 * ((2 * m) * sh)) by (nonlinear_arith);
    assert((-sw * m) * 2 * 1 == (-1) * ((2 * m) * sw)) by (nonlinear_arith);
    assert((-sh * m) * 2 * 1 == (-1) * ((2 * m) * sh)) by (nonlinear_arith);
}

/// Law: the pixel round trip is the identity. Sending any unit-space
/// point to window pixel space and reading it back through the window
/// conversion gives the point back: each conversion flips y exactly once.
pub proof fn lemma_pixel_unit_round_trip(t: TransformV, v: V2)
    requires
        t_wf(t),
        v2_wf(v),
    ensures
        v2_eqv(t_window_to_murs(t, t_unit_to_pixels(t, v)), v),
{
    let sw = t.screen_w;
    let sh = t.screen_h;
    let m = t.mur;
    let nx = v.x.n;
    let dx = v.x.d;
    let ny = v.y.n;
    let dy = v.y.d;
    assert((((nx * m) * 2 + sw * (dx * 1)) * 2 - sw * ((dx * 1) * 2)) * 1 * sw * dx == nx * ((((dx
        * 1) * 2) * 2) * sw * m)) by (nonlinear_arith);
    // the y axis, step by step: flipping twice cancels exactly
    let p = t_unit_to_pixels(t, v);
    assert(p.y.n == sh * dy - (ny * m) * 2);
    assert(p.y.d == 2 * dy);
    let sv = t_screen_vec(t);
    let fl = ratio_sub(sv.y, p.y);
    assert(sh * (2 * dy) == 2 * (sh * dy)) by (nonlinear_arith);
    assert(fl.n == sh * dy + (ny * m) * 2);
    assert(fl.d == 2 * dy);
    let ct = ratio_div(ratio_sub(fl, ratio_div(sv.y, ratio_int(2))), sv.y);
    assert(ct.n == 4 * (ny * m));
    assert(ct.d == ((2 * dy) * 2) * sh);
    let rty = ratio_mul(ct, t_mur_dimensions(t).y);
    assert(rty.n == (4 * (ny * m)) * sh);
    assert(rty.d == (((2 * dy) * 2) * sh) * m);
    assert(((4 * (ny * m)) * sh) * dy == ny * ((((2 * dy) * 2) * sh) * m)) by (nonlinear_arith);
    assert(ratio_eqv(rty, v.y));
    assert(rty == t_window_to_murs(t, p).y);
}

} // verus!
