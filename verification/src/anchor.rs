//! Anchoring: resolving a symbolic, edge-relative placement into an
//! absolute unit-space position.
//!
//! Each axis is placed independently: at an explicit coordinate, at the
//! center plus an offset, or against the positive or negative screen edge
//! plus an offset. An edge placement keeps the element inside the screen:
//! it sits at the screen's half extent minus the element's half extent.
//! Resolution always reads the transform's current half dimensions, so it
//! stays consistent with the latest resize.

use vstd::prelude::*;

use crate::rat::{
    lemma_add_result_bounded, lemma_div_result_bounded, lemma_sub_result_bounded, ratio_add,
    ratio_div, ratio_int, ratio_neg, ratio_sub, ratio_wf, Rat, Ratio,
};
use crate::transform::{t_mur_half_dimensions, Transform};
use crate::vec2::Vec2;

verus! {

/// Where one axis of an element goes: an explicit unit coordinate, the
/// screen's positive edge, the center, or the negative edge, the latter
/// three offset by the carried amount.
#[derive(Clone, Copy, Debug, PartialEq, Eq, Structural)]
pub enum AxisAnchor {
    At(Rat),
    Near(Rat),
    Center(Rat),
    Far(Rat),
}

/// A symbolic placement: one anchor per axis.
#[derive(Clone, Copy, Debug, PartialEq, Eq, Structural)]
pub struct Anchored {
    pub x: AxisAnchor,
    pub y: AxisAnchor,
}

/// The resolved coordinate of one axis: `half_screen` is the screen's half
/// extent in units on that axis, `half_self` the element's.
pub open spec fn spec_resolve_axis(a: AxisAnchor, half_screen: Ratio, half_self: Ratio) -> Ratio {
    match a {
        AxisAnchor::At(c) => c@,
        AxisAnchor::Near(off) => ratio_add(ratio_sub(half_screen, half_self), off@),
        AxisAnchor::Center(off) => off@,
        AxisAnchor::Far(off) => ratio_add(
            ratio_neg(ratio_sub(half_screen, half_self)),
            off@,
        ),
    }
}

pub open spec fn axis_anchor_wf(a: AxisAnchor) -> bool {
    match a {
        AxisAnchor::At(c) => ratio_wf(c@),
        AxisAnchor::Near(off) => ratio_wf(off@),
        AxisAnchor::Center(off) => ratio_wf(off@),
        AxisAnchor::Far(off) => ratio_wf(off@),
    }
}

pub open spec fn axis_anchor_bounded(a: AxisAnchor, b: int) -> bool {
    match a {
        AxisAnchor::At(c) => crate::rat::ratio_bounded(c@, b),
        AxisAnchor::Near(off) => crate::rat::ratio_bounded(off@, b),
        AxisAnchor::Center(off) => crate::rat::ratio_bounded(off@, b),
        AxisAnchor::Far(off) => crate::rat::ratio_bounded(off@, b),
    }
}

impl Anchored {
    pub open spec fn wf(self) -> bool {
        axis_anchor_wf(self.x) && axis_anchor_wf(self.y)
    }

    pub open spec fn bounded(self, b: int) -> bool {
        axis_anchor_bounded(self.x, b) && axis_anchor_bounded(self.y, b)
    }

    /// Resolves the placement of an element of dimensions `self_dim` into
    /// an absolute unit-space position, against the transform's current
    /// half dimensions.
    pub fn resolve(&self, self_dim: Vec2, t: &Transform) -> (r: Vec2)
        requires
            t.wf(),
            self.wf(),
            self_dim.wf(),
            self.bounded(0x10_0000),
            self_dim.bounded(0x10_0000),
        ensures
            r@.x == spec_resolve_axis(
                self.x,
                t_mur_half_dimensions(t@).x,
                ratio_div(self_dim@.x, ratio_int(2)),
            ),
            r@.y == spec_resolve_axis(
                self.y,
                t_mur_half_dimensions(t@).y,
                ratio_div(self_dim@.y, ratio_int(2)),
            ),
            r.wf(),
    {
        proof {
            lemma_div_result_bounded(self_dim@.x, ratio_int(2), 0x10_0000, 0x10_0000, 2, 1);
            lemma_div_result_bounded(self_dim@.y, ratio_int(2), 0x10_0000, 0x10_0000, 2, 1);
        }
        let half_self: Vec2 = self_dim.div(Rat::from_int(2));
        let x: Rat = resolve_axis(self.x, t.mur_half_dimensions.x, half_self.x);
        let y: Rat = resolve_axis(self.y, t.mur_half_dimensions.y, half_self.y);
        Vec2 { x, y }
    }
}

/// Resolves one axis. `half_screen` must be the transform's half extent on
/// the axis, within the transform's size limits; `half_self` the element's
/// half extent.
fn resolve_axis(a: AxisAnchor, half_screen: Rat, half_self: Rat) -> (r: Rat)
    requires
        axis_anchor_wf(a),
        half_screen.wf(),
        half_self.wf(),
        axis_anchor_bounded(a, 0x10_0000),
        crate::rat::ratio_bounded(half_screen@, 0x1_0000),
        crate::rat::ratio_bounded(half_self@, 0x20_0000),
    ensures
        r@ == spec_resolve_axis(a, half_screen@, half_self@),
        r.wf(),
{
    match a {
        AxisAnchor::At(c) => c,
        AxisAnchor::Center(off) => off,
        AxisAnchor::Near(off) => {
            proof {
                lemma_sub_result_bounded(half_screen@, half_self@, 0x1_0000, 0x1_0000, 0x20_0000, 0x20_0000);
                lemma_add_result_bounded(
                    ratio_sub(half_screen@, half_self@),
                    off@,
                    0x40_0000_0000,
                    0x20_0000_0000,
                    0x10_0000,
                    0x10_0000,
                );
            }
            let edge: Rat = half_screen.sub(half_self);
            edge.add(off)
        },
        AxisAnchor::Far(off) => {
            proof {
                lemma_sub_result_bounded(half_screen@, half_self@, 0x1_0000, 0x1_0000, 0x20_0000, 0x20_0000);
                lemma_add_result_bounded(
                    ratio_neg(ratio_sub(half_screen@, half_self@)),
                    off@,
                    0x40_0000_0000,
                    0x20_0000_0000,
                    0x10_0000,
                    0x10_0000,
                );
            }
            let edge: Rat = half_screen.sub(half_self);
            edge.neg().add(off)
        },
    }
}

} // verus!
