//! Two-component vectors over exact rational scalars.
//!
//! `Vec2` mirrors the arithmetic the drawing layer needs: componentwise
//! addition, subtraction and division, scalar multiplication and division,
//! absolute value, axis inversion, the dot product, and the normalization
//! into the rendering API's device space. Contracts are stated over the
//! ghost view [`V2`], a pair of [`Ratio`]s.

use vstd::prelude::*;

use crate::rat::{
    fits_i64, lemma_div_result_bounded, lemma_mul_bound, lemma_mul_result_bounded,
    lemma_sub_result_bounded, ratio_abs, ratio_add, ratio_add_fits, ratio_bounded, ratio_div,
    ratio_div_fits, ratio_eqv, ratio_int, ratio_lt, ratio_mul, ratio_mul_fits, ratio_neg,
    ratio_sub, ratio_sub_fits, ratio_wf, Rat, Ratio,
};

verus! {

/// A vector in ghost space: two unbounded rationals.
pub struct V2 {
    pub x: Ratio,
    pub y: Ratio,
}

pub open spec fn v2_wf(v: V2) -> bool {
    ratio_wf(v.x) && ratio_wf(v.y)
}

/// Mathematical equality, componentwise.
pub open spec fn v2_eqv(a: V2, b: V2) -> bool {
    ratio_eqv(a.x, b.x) && ratio_eqv(a.y, b.y)
}

pub open spec fn v2_add(a: V2, b: V2) -> V2 {
    V2 { x: ratio_add(a.x, b.x), y: ratio_add(a.y, b.y) }
}

pub open spec fn v2_sub(a: V2, b: V2) -> V2 {
    V2 { x: ratio_sub(a.x, b.x), y: ratio_sub(a.y, b.y) }
}

pub open spec fn v2_mul(a: V2, s: Ratio) -> V2 {
    V2 { x: ratio_mul(a.x, s), y: ratio_mul(a.y, s) }
}

pub open spec fn v2_div(a: V2, s: Ratio) -> V2 {
    V2 { x: ratio_div(a.x, s), y: ratio_div(a.y, s) }
}

pub open spec fn v2_div_components(a: V2, b: V2) -> V2 {
    V2 { x: ratio_div(a.x, b.x), y: ratio_div(a.y, b.y) }
}

pub open spec fn v2_abs(a: V2) -> V2 {
    V2 { x: ratio_abs(a.x), y: ratio_abs(a.y) }
}

pub open spec fn v2_invert(a: V2, ix: bool, iy: bool) -> V2 {
    V2 {
        x: if ix {
            ratio_neg(a.x)
        } else {
            a.x
        },
        y: if iy {
            ratio_neg(a.y)
        } else {
            a.y
        },
    }
}

pub open spec fn v2_dot(a: V2, b: V2) -> Ratio {
    ratio_add(ratio_mul(a.x, b.x), ratio_mul(a.y, b.y))
}

/// The larger component, the scale `normalize` divides by.
pub open spec fn v2_max_component(a: V2) -> Ratio {
    if ratio_lt(a.x, a.y) {
        a.y
    } else {
        a.x
    }
}

pub open spec fn v2_normalize(a: V2) -> V2 {
    v2_div(a, v2_max_component(a))
}

/// Mapping of a point in `[0, o]` x `[0, o]` (pixel space, origin top-left)
/// into the device square `[-1, 1]` x `[-1, 1]`, with the y axis flipped.
pub open spec fn v2_gl_normalize(a: V2, o: V2) -> V2 {
    V2 {
        x: ratio_sub(ratio_div(ratio_mul(a.x, ratio_int(2)), o.x), ratio_int(1)),
        y: ratio_sub(
            ratio_div(ratio_mul(ratio_sub(o.y, a.y), ratio_int(2)), o.y),
            ratio_int(1),
        ),
    }
}

/// The magnitude bound under which the composite vector operations are free
/// of `i64` overflow.
pub const COORD_BOUND: i64 = 0x10_0000;

/// A two-component vector of exact rational scalars.
#[derive(Clone, Copy, Debug, PartialEq, Eq, Structural)]
pub struct Vec2 {
    pub x: Rat,
    pub y: Rat,
}

impl View for Vec2 {
    type V = V2;

    open spec fn view(&self) -> V2 {
        V2 { x: self.x@, y: self.y@ }
    }
}

impl Vec2 {
    pub open spec fn wf(self) -> bool {
        v2_wf(self@)
    }

    /// Both components within magnitude `b`.
    pub open spec fn bounded(self, b: int) -> bool {
        ratio_bounded(self@.x, b) && ratio_bounded(self@.y, b)
    }

    pub fn new(x: Rat, y: Rat) -> (r: Vec2)
        ensures
            r@ == (V2 { x: x@, y: y@ }),
    {
        Vec2 { x, y }
    }

    pub fn zero() -> (r: Vec2)
        ensures
            r@ == (V2 { x: ratio_int(0), y: ratio_int(0) }),
            r.wf(),
    {
        Vec2 { x: Rat::zero(), y: Rat::zero() }
    }

    pub fn from_ints(x: i64, y: i64) -> (r: Vec2)
        ensures
            r@ == (V2 { x: ratio_int(x as int), y: ratio_int(y as int) }),
            r.wf(),
    {
        Vec2 { x: Rat::from_int(x), y: Rat::from_int(y) }
    }

    pub fn from_u32s(x: u32, y: u32) -> (r: Vec2)
        ensures
            r@ == (V2 { x: ratio_int(x as int), y: ratio_int(y as int) }),
            r.wf(),
    {
        Vec2 { x: Rat::from_u32(x), y: Rat::from_u32(y) }
    }

    /// Whether both components are within magnitude `b`; tests the
    /// `bounded` preconditions of the transform and drawing functions.
    pub fn is_bounded(&self, b: i64) -> (r: bool)
        requires
            0 <= b,
        ensures
            r == self.bounded(b as int),
    {
        self.x.is_bounded(b) && self.y.is_bounded(b)
    }

    pub fn add(self, rhs: Vec2) -> (r: Vec2)
        requires
            self.wf(),
            rhs.wf(),
            ratio_add_fits(self@.x, rhs@.x),
            ratio_add_fits(self@.y, rhs@.y),
        ensures
            r@ == v2_add(self@, rhs@),
            r.wf(),
    {
        Vec2 { x: self.x.add(rhs.x), y: self.y.add(rhs.y) }
    }

    pub fn sub(self, rhs: Vec2) -> (r: Vec2)
        requires
            self.wf(),
            rhs.wf(),
            ratio_sub_fits(self@.x, rhs@.x),
            ratio_sub_fits(self@.y, rhs@.y),
        ensures
            r@ == v2_sub(self@, rhs@),
            r.wf(),
    {
        Vec2 { x: self.x.sub(rhs.x), y: self.y.sub(rhs.y) }
    }

    pub fn mul(self, s: Rat) -> (r: Vec2)
        requires
            self.wf(),
            s.wf(),
            ratio_mul_fits(self@.x, s@),
            ratio_mul_fits(self@.y, s@),
        ensures
            r@ == v2_mul(self@, s@),
            r.wf(),
    {
        Vec2 { x: self.x.mul(s), y: self.y.mul(s) }
    }

    pub fn div(self, s: Rat) -> (r: Vec2)
        requires
            self.wf(),
            s.wf(),
            s@.n != 0,
            ratio_div_fits(self@.x, s@),
            ratio_div_fits(self@.y, s@),
        ensures
            r@ == v2_div(self@, s@),
            r.wf(),
    {
        Vec2 { x: self.x.div(s), y: self.y.div(s) }
    }

    pub fn div_components(self, rhs: Vec2) -> (r: Vec2)
        requires
            self.wf(),
            rhs.wf(),
            rhs@.x.n != 0,
            rhs@.y.n != 0,
            ratio_div_fits(self@.x, rhs@.x),
            ratio_div_fits(self@.y, rhs@.y),
        ensures
            r@ == v2_div_components(self@, rhs@),
            r.wf(),
    {
        Vec2 { x: self.x.div(rhs.x), y: self.y.div(rhs.y) }
    }

    pub fn abs(self) -> (r: Vec2)
        requires
            self.wf(),
            fits_i64(self@.x.n),
            fits_i64(self@.y.n),
        ensures
            r@ == v2_abs(self@),
            r.wf(),
    {
        Vec2 { x: self.x.abs(), y: self.y.abs() }
    }

    pub fn invert(self, ix: bool, iy: bool) -> (r: Vec2)
        requires
            self.wf(),
            fits_i64(self@.x.n),
            fits_i64(self@.y.n),
        ensures
            r@ == v2_invert(self@, ix, iy),
            r.wf(),
    {
        let x: Rat = if ix {
            self.x.neg()
        } else {
            self.x
        };
        let y: Rat = if iy {
            self.y.neg()
        } else {
            self.y
        };
        Vec2 { x, y }
    }

    pub fn dot(&self, other: Vec2) -> (r: Rat)
        requires
            self.wf(),
            other.wf(),
            self.bounded(0x8000),
            other.bounded(0x8000),
        ensures
            r@ == v2_dot(self@, other@),
            r.wf(),
    {
        proof {
            lemma_mul_bound(self@.x.n, other@.x.n, 0x8000, 0x8000);
            lemma_mul_bound(self@.x.d, other@.x.d, 0x8000, 0x8000);
            lemma_mul_bound(self@.y.n, other@.y.n, 0x8000, 0x8000);
            lemma_mul_bound(self@.y.d, other@.y.d, 0x8000, 0x8000);
        }
        let px: Rat = self.x.mul(other.x);
        let py: Rat = self.y.mul(other.y);
        proof {
            lemma_mul_bound(px@.n, py@.d, 0x4000_0000, 0x4000_0000);
            lemma_mul_bound(py@.n, px@.d, 0x4000_0000, 0x4000_0000);
            lemma_mul_bound(px@.d, py@.d, 0x4000_0000, 0x4000_0000);
        }
        px.add(py)
    }

    /// Divides both components by the larger one.
    pub fn normalize(&self) -> (r: Vec2)
        requires
            self.wf(),
            self.bounded(COORD_BOUND as int),
            !ratio_eqv(v2_max_component(self@), ratio_int(0)),
        ensures
            r@ == v2_normalize(self@),
            r.wf(),
    {
        let m: Rat = if self.x.lt(&self.y) {
            self.y
        } else {
            self.x
        };
        proof {
            assert(m@.n != 0);
            lemma_mul_bound(self@.x.n, m@.d, COORD_BOUND as int, COORD_BOUND as int);
            lemma_mul_bound(self@.x.d, m@.n, COORD_BOUND as int, COORD_BOUND as int);
            lemma_mul_bound(self@.y.n, m@.d, COORD_BOUND as int, COORD_BOUND as int);
            lemma_mul_bound(self@.y.d, m@.n, COORD_BOUND as int, COORD_BOUND as int);
        }
        Vec2 { x: self.x.div(m), y: self.y.div(m) }
    }

    /// Maps `self`, a point in the pixel rectangle spanned by `other`, into
    /// the device square `[-1, 1]` x `[-1, 1]`, flipping the y axis.
    pub fn gl_normalize(self, other: Vec2) -> (r: Vec2)
        requires
            self.wf(),
            other.wf(),
            other@.x.n != 0,
            other@.y.n != 0,
            self.bounded(COORD_BOUND as int),
            other.bounded(COORD_BOUND as int),
        ensures
            r@ == v2_gl_normalize(self@, other@),
            r.wf(),
    {
        let two: Rat = Rat::from_int(2);
        let one: Rat = Rat::one();
        proof {
            // x chain: (x * 2) / o.x - 1
            lemma_mul_result_bounded(self@.x, ratio_int(2), 0x10_0000, 0x10_0000, 2, 1);
            lemma_div_result_bounded(
                ratio_mul(self@.x, ratio_int(2)),
                other@.x,
                0x20_0000,
                0x10_0000,
                0x10_0000,
                0x10_0000,
            );
        }
        let x2: Rat = self.x.mul(two);
        let xd: Rat = x2.div(other.x);
        let x: Rat = xd.sub(one);

        proof {
            // y chain: ((o.y - y) * 2) / o.y - 1
            lemma_sub_result_bounded(
                other@.y,
                self@.y,
                0x10_0000,
                0x10_0000,
                0x10_0000,
                0x10_0000,
            );
            lemma_mul_result_bounded(
                ratio_sub(other@.y, self@.y),
                ratio_int(2),
                0x200_0000_0000,
                0x100_0000_0000,
                2,
                1,
            );
            lemma_div_result_bounded(
                ratio_mul(ratio_sub(other@.y, self@.y), ratio_int(2)),
                other@.y,
                0x400_0000_0000,
                0x100_0000_0000,
                0x10_0000,
                0x10_0000,
            );
        }
        let ys: Rat = other.y.sub(self.y);
        let y2: Rat = ys.mul(two);
        let yd: Rat = y2.div(other.y);
        let y: Rat = yd.sub(one);
        Vec2 { x, y }
    }
}

} // verus!
