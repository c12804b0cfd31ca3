use smitten::{Rat, Vec2};

fn rat(n: i64, d: i64) -> Rat {
    Rat::new(n, d)
}

#[test]
fn rational_arithmetic_is_exact() {
    let a = rat(1, 3);
    let b = rat(1, 6);
    assert!(a.add(b).eqv(&rat(1, 2)));
    assert!(a.sub(b).eqv(&rat(1, 6)));
    assert!(a.mul(b).eqv(&rat(1, 18)));
    assert!(a.div(b).eqv(&rat(2, 1)));
    assert!(rat(-3, 4).abs().eqv(&rat(3, 4)));
    assert!(rat(3, 4).neg().eqv(&rat(-3, 4)));
}

#[test]
fn rational_comparisons_are_mathematical() {
    assert!(rat(1, 2).eqv(&rat(2, 4)));
    assert!(rat(1, 3).lt(&rat(1, 2)));
    assert!(!rat(1, 2).lt(&rat(1, 2)));
    assert!(rat(1, 2).le(&rat(2, 4)));
    assert!(rat(-1, 2).lt(&rat(0, 1)));
}

#[test]
fn division_by_a_negative_keeps_the_denominator_positive() {
    let q = rat(1, 2).div(rat(-3, 4));
    assert!(q.den() > 0);
    assert!(q.eqv(&rat(-2, 3)));
}

#[test]
fn vector_arithmetic_works_componentwise() {
    let a = Vec2::new(rat(1, 2), rat(3, 1));
    let b = Vec2::new(rat(1, 2), rat(-1, 1));
    let s = a.add(b);
    assert!(s.x.eqv(&rat(1, 1)));
    assert!(s.y.eqv(&rat(2, 1)));
    let d = a.sub(b);
    assert!(d.x.eqv(&rat(0, 1)));
    assert!(d.y.eqv(&rat(4, 1)));
    let m = a.mul(rat(2, 1));
    assert!(m.x.eqv(&rat(1, 1)));
    assert!(m.y.eqv(&rat(6, 1)));
    let q = a.div(rat(2, 1));
    assert!(q.x.eqv(&rat(1, 4)));
    let c = a.div_components(Vec2::new(rat(1, 2), rat(3, 1)));
    assert!(c.x.eqv(&rat(1, 1)));
    assert!(c.y.eqv(&rat(1, 1)));
}

#[test]
fn absolute_value_and_inversion() {
    let v = Vec2::new(rat(-2, 1), rat(3, 1));
    let a = v.abs();
    assert!(a.x.eqv(&rat(2, 1)));
    assert!(a.y.eqv(&rat(3, 1)));
    let i = v.invert(true, false);
    assert!(i.x.eqv(&rat(2, 1)));
    assert!(i.y.eqv(&rat(3, 1)));
    let j = v.invert(false, true);
    assert!(j.x.eqv(&rat(-2, 1)));
    assert!(j.y.eqv(&rat(-3, 1)));
}

#[test]
fn dot_product_is_exact() {
    let a = Vec2::new(rat(1, 2), rat(3, 1));
    let b = Vec2::new(rat(4, 1), rat(1, 3));
    assert!(a.dot(b).eqv(&rat(3, 1)));
}

#[test]
fn normalize_divides_by_the_larger_component() {
    let v = Vec2::new(rat(2, 1), rat(4, 1));
    let n = v.normalize();
    assert!(n.x.eqv(&rat(1, 2)));
    assert!(n.y.eqv(&rat(1, 1)));
}

#[test]
fn gl_normalize_maps_the_pixel_rectangle_to_the_device_square() {
    let screen = Vec2::from_ints(640, 480);
    // the rectangle's center maps to the device origin
    let c = Vec2::from_ints(320, 240).gl_normalize(screen);
    assert!(c.x.eqv(&rat(0, 1)));
    assert!(c.y.eqv(&rat(0, 1)));
    // the top-left pixel corner maps to (-1, 1): y is flipped
    let tl = Vec2::from_ints(0, 0).gl_normalize(screen);
    assert!(tl.x.eqv(&rat(-1, 1)));
    assert!(tl.y.eqv(&rat(1, 1)));
}

#[test]
fn boundedness_checks_magnitude_and_denominator() {
    assert!(rat(5, 3).is_bounded(8));
    assert!(rat(-8, 8).is_bounded(8));
    assert!(!rat(9, 1).is_bounded(8));
    assert!(!rat(1, 9).is_bounded(8));
    assert!(Vec2::new(rat(1, 2), rat(-3, 4)).is_bounded(4));
    assert!(!Vec2::new(rat(1, 2), rat(-5, 4)).is_bounded(4));
}
