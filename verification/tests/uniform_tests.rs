use smitten::uniforms::{rect_uniforms, sdf_uniforms};
use smitten::{Color, Rat, SignedDistance, Transform, Vec2};

fn rat(n: i64, d: i64) -> Rat {
    Rat::new(n, d)
}

#[test]
fn a_screen_filling_rectangle_spans_the_device_square() {
    let t = Transform::new(640, 480, 32);
    let u = rect_uniforms(&t, Vec2::from_ints(0, 0), t.mur_dimensions);
    assert!(u.position.x.eqv(&rat(0, 1)));
    assert!(u.position.y.eqv(&rat(0, 1)));
    // the quad spans two device units, so the scale is the half extent
    assert!(u.scale.x.eqv(&rat(1, 1)));
    assert!(u.scale.y.eqv(&rat(1, 1)));
}

#[test]
fn rectangle_uniforms_scale_with_the_unit_size() {
    let t = Transform::new(640, 480, 32);
    let u = rect_uniforms(&t, Vec2::from_ints(5, 0), Vec2::from_ints(2, 2));
    // 5 units of 32 pixels against a 320 pixel half screen
    assert!(u.position.x.eqv(&rat(1, 2)));
    assert!(u.position.y.eqv(&rat(0, 1)));
    assert!(u.scale.x.eqv(&rat(1, 10)));
    assert!(u.scale.y.eqv(&rat(2, 15)));
}

#[test]
fn circle_uniforms_carry_pixel_center_radius_and_bounds() {
    let t = Transform::new(640, 480, 32);
    let c = SignedDistance::circle(Vec2::from_ints(0, 0), 5, Color::red());
    let u = sdf_uniforms(&t, &c);
    assert_eq!(u.draw_method, 1);
    assert_eq!(u.color, Color::red());
    assert!(u.point_a.x.eqv(&rat(320, 1)));
    assert!(u.point_a.y.eqv(&rat(240, 1)));
    assert!(u.point_b.x.eqv(&rat(5, 1)));
    assert!(u.point_b.y.eqv(&rat(0, 1)));
    assert!(u.parameter.eqv(&rat(0, 1)));
    assert!(u.position.x.eqv(&rat(0, 1)));
    assert!(u.position.y.eqv(&rat(0, 1)));
    // a 10 by 10 unit box: half of it is 5 units = 160 pixels
    assert!(u.scale.x.eqv(&rat(1, 2)));
    assert!(u.scale.y.eqv(&rat(2, 3)));
}

#[test]
fn line_uniforms_carry_both_endpoints_and_the_thickness() {
    let t = Transform::new(640, 480, 32);
    let l = SignedDistance::line_segment(
        Vec2::from_ints(0, 0),
        Vec2::from_ints(5, 5),
        4,
        Color::blue(),
    );
    let u = sdf_uniforms(&t, &l);
    assert_eq!(u.draw_method, 2);
    assert!(u.point_a.x.eqv(&rat(320, 1)));
    assert!(u.point_a.y.eqv(&rat(240, 1)));
    assert!(u.point_b.x.eqv(&rat(480, 1)));
    // window pixel y runs downward: 5 units above the center
    assert!(u.point_b.y.eqv(&rat(240 - 160, 1)));
    assert!(u.parameter.eqv(&rat(4, 1)));
}
