use smitten::{Anchored, AxisAnchor, Rat, Transform, Vec2};

fn rat(n: i64, d: i64) -> Rat {
    Rat::new(n, d)
}

#[test]
fn top_right_with_no_offset_sits_inside_the_corner() {
    // half dimensions (10, 10); an element of dimension (2, 2) anchored to
    // the positive corner sits at (10 - 1, 10 - 1)
    let t = Transform::new(640, 640, 32);
    let a = Anchored { x: AxisAnchor::Near(Rat::zero()), y: AxisAnchor::Near(Rat::zero()) };
    let p = a.resolve(Vec2::from_ints(2, 2), &t);
    assert!(p.x.eqv(&rat(9, 1)));
    assert!(p.y.eqv(&rat(9, 1)));
}

#[test]
fn far_edge_mirrors_the_near_edge() {
    let t = Transform::new(640, 640, 32);
    let a = Anchored { x: AxisAnchor::Far(Rat::zero()), y: AxisAnchor::Far(Rat::zero()) };
    let p = a.resolve(Vec2::from_ints(2, 2), &t);
    assert!(p.x.eqv(&rat(-9, 1)));
    assert!(p.y.eqv(&rat(-9, 1)));
}

#[test]
fn center_and_explicit_axes_pass_their_values_through() {
    let t = Transform::new(640, 640, 32);
    let a = Anchored { x: AxisAnchor::Center(rat(3, 2)), y: AxisAnchor::At(rat(-7, 1)) };
    let p = a.resolve(Vec2::from_ints(4, 4), &t);
    assert!(p.x.eqv(&rat(3, 2)));
    assert!(p.y.eqv(&rat(-7, 1)));
}

#[test]
fn edge_offsets_shift_the_anchor() {
    let t = Transform::new(640, 640, 32);
    let a = Anchored { x: AxisAnchor::Near(rat(-1, 1)), y: AxisAnchor::Near(rat(1, 2)) };
    let p = a.resolve(Vec2::from_ints(2, 2), &t);
    assert!(p.x.eqv(&rat(8, 1)));
    assert!(p.y.eqv(&rat(19, 2)));
}

#[test]
fn anchoring_follows_a_resize() {
    let mut t = Transform::new(640, 640, 32);
    let a = Anchored { x: AxisAnchor::Near(Rat::zero()), y: AxisAnchor::Near(Rat::zero()) };
    t.resized(320, 320);
    let p = a.resolve(Vec2::from_ints(2, 2), &t);
    assert!(p.x.eqv(&rat(4, 1)));
    assert!(p.y.eqv(&rat(4, 1)));
}
