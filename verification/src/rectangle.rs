//! The one reusable quad mesh.
//!
//! Every rectangle and shape draw reuses a single quad, repositioned and
//! rescaled through uniforms rather than fresh geometry. Its vertex data
//! interleaves positions at the four corners `(±w/2, ±h/2)` with texture
//! coordinates; the index order `{0, 1, 3, 1, 2, 3}` forms the quad's two
//! triangles and must be kept exactly.

use vstd::prelude::*;

use crate::rat::{
    lemma_mul_bound, ratio_add, ratio_div, ratio_int, ratio_neg, Rat, Ratio,
};
use crate::vec2::{Vec2, V2};

verus! {

/// The quad's vertex stream: for each corner, the position pair then the
/// texture-coordinate pair, in the order top right, bottom right, bottom
/// left, top left. `tp` is the texture rectangle's origin and `td` its
/// dimensions, so `tp + td` is its far corner.
pub open spec fn spec_quad_vertices(size: V2, tp: V2, td: V2) -> Seq<Ratio> {
    let hx = ratio_div(size.x, ratio_int(2));
    let hy = ratio_div(size.y, ratio_int(2));
    let fx = ratio_add(tp.x, td.x);
    let fy = ratio_add(tp.y, td.y);
    seq![
        hx,
        hy,
        fx,
        tp.y,
        hx,
        ratio_neg(hy),
        fx,
        fy,
        ratio_neg(hx),
        ratio_neg(hy),
        tp.x,
        fy,
        ratio_neg(hx),
        hy,
        tp.x,
        tp.y,
    ]
}

/// The quad's vertex data with the given texture-coordinate mapping.
pub fn quad_vertices(size: Vec2, tex_pos: Vec2, tex_dim: Vec2) -> (v: Vec<Rat>)
    requires
        size.wf(),
        tex_pos.wf(),
        tex_dim.wf(),
        size.bounded(0x4000_0000),
        tex_pos.bounded(0x4000_0000),
        tex_dim.bounded(0x4000_0000),
    ensures
        v@.len() == 16,
        v@.map_values(|q: Rat| q@) == spec_quad_vertices(size@, tex_pos@, tex_dim@),
        forall|j: int| 0 <= j < 16 ==> (#[trigger] v@[j]).wf(),
{
    proof {
        lemma_mul_bound(tex_pos@.x.n, tex_dim@.x.d, 0x4000_0000, 0x4000_0000);
        lemma_mul_bound(tex_dim@.x.n, tex_pos@.x.d, 0x4000_0000, 0x4000_0000);
        lemma_mul_bound(tex_pos@.x.d, tex_dim@.x.d, 0x4000_0000, 0x4000_0000);
        lemma_mul_bound(tex_pos@.y.n, tex_dim@.y.d, 0x4000_0000, 0x4000_0000);
        lemma_mul_bound(tex_dim@.y.n, tex_pos@.y.d, 0x4000_0000, 0x4000_0000);
        lemma_mul_bound(tex_pos@.y.d, tex_dim@.y.d, 0x4000_0000, 0x4000_0000);
    }
    let two: Rat = Rat::from_int(2);
    let hx: Rat = size.x.div(two);
    let hy: Rat = size.y.div(two);
    let fx: Rat = tex_pos.x.add(tex_dim.x);
    let fy: Rat = tex_pos.y.add(tex_dim.y);
    let mut v: Vec<Rat> = Vec::new();
    v.push(hx);
    v.push(hy);
    v.push(fx);
    v.push(tex_pos.y);
    v.push(hx);
    v.push(hy.neg());
    v.push(fx);
    v.push(fy);
    v.push(hx.neg());
    v.push(hy.neg());
    v.push(tex_pos.x);
    v.push(fy);
    v.push(hx.neg());
    v.push(hy);
    v.push(tex_pos.x);
    v.push(tex_pos.y);
    proof {
        assert(v@.map_values(|q: Rat| q@) =~= spec_quad_vertices(size@, tex_pos@, tex_dim@));
    }
    v
}

/// The quad's vertex data with the default texture mapping, spanning the
/// whole `[0, 1] x [0, 1]` texture space.
pub fn default_quad_vertices(size: Vec2) -> (v: Vec<Rat>)
    requires
        size.wf(),
        size.bounded(0x4000_0000),
    ensures
        v@.len() == 16,
        v@.map_values(|q: Rat| q@) == spec_quad_vertices(
            size@,
            V2 { x: ratio_int(0), y: ratio_int(0) },
            V2 { x: ratio_int(1), y: ratio_int(1) },
        ),
        forall|j: int| 0 <= j < 16 ==> (#[trigger] v@[j]).wf(),
{
    quad_vertices(
        size,
        Vec2::new(Rat::zero(), Rat::zero()),
        Vec2::new(Rat::one(), Rat::one()),
    )
}

/// The index order forming the quad's two triangles.
pub open spec fn spec_quad_indices() -> Seq<u8> {
    seq![0u8, 1u8, 3u8, 1u8, 2u8, 3u8]
}

/// The element indices the quad is drawn with: `{0, 1, 3, 1, 2, 3}`.
pub fn quad_indices() -> (v: Vec<u8>)
    ensures
        v@ == spec_quad_indices(),
{
    let mut v: Vec<u8> = Vec::new();
    v.push(0);
    v.push(1);
    v.push(3);
    v.push(1);
    v.push(2);
    v.push(3);
    proof {
        assert(v@ =~= spec_quad_indices());
    }
    v
}

} // verus!
