use smitten::{Rat, Transform, Vec2};

fn rat(n: i64, d: i64) -> Rat {
    Rat::new(n, d)
}

#[test]
fn unit_dimensions_follow_screen_and_mur_size() {
    let t = Transform::new(640, 480, 32);
    assert!(t.mur_dimensions.x.eqv(&rat(20, 1)));
    assert!(t.mur_dimensions.y.eqv(&rat(15, 1)));
    assert!(t.mur_half_dimensions.x.eqv(&rat(10, 1)));
    assert!(t.mur_half_dimensions.y.eqv(&rat(15, 2)));
    assert_eq!(t.mur_size, 32);
}

#[test]
fn resize_recomputes_unit_dimensions() {
    let mut t = Transform::new(640, 480, 32);
    t.resized(320, 320);
    assert!(t.mur_dimensions.x.eqv(&rat(10, 1)));
    assert!(t.mur_dimensions.y.eqv(&rat(10, 1)));
    assert!(t.mur_half_dimensions.x.eqv(&rat(5, 1)));
    assert_eq!(t.mur_size, 32);
    assert!(t.screen_vec.x.eqv(&rat(320, 1)));
}

#[test]
fn half_screen_maps_to_device_corner() {
    // the device square's positive corner, for any screen
    let t = Transform::new(640, 480, 32);
    let corner = t.vec_to_opengl(t.mur_half_dimensions);
    assert!(corner.x.eqv(&rat(1, 1)));
    assert!(corner.y.eqv(&rat(1, 1)));
    let opposite = t.vec_to_opengl(t.mur_half_dimensions.invert(true, true));
    assert!(opposite.x.eqv(&rat(-1, 1)));
    assert!(opposite.y.eqv(&rat(-1, 1)));
}

#[test]
fn unit_to_pixel_places_origin_at_screen_center() {
    // window pixels run downward from the top, so positive unit y lands
    // above the center
    let t = Transform::new(640, 480, 32);
    let p = t.vec_to_pixels(Vec2::from_ints(3, -2));
    assert!(p.x.eqv(&rat(3 * 32 + 320, 1)));
    assert!(p.y.eqv(&rat(240 + 2 * 32, 1)));
    let c = t.vec_to_pixels(Vec2::from_ints(0, 0));
    assert!(c.x.eqv(&rat(320, 1)));
    assert!(c.y.eqv(&rat(240, 1)));
}

#[test]
fn pixel_round_trip_is_the_identity() {
    let t = Transform::new(640, 480, 32);
    for v in [
        Vec2::new(rat(7, 2), rat(-3, 4)),
        Vec2::from_ints(0, 1),
        Vec2::from_ints(-10, 7),
        Vec2::new(rat(0, 1), rat(0, 1)),
    ] {
        let back = t.window_vec_to_murs(t.vec_to_pixels(v));
        assert!(back.x.eqv(&v.x));
        assert!(back.y.eqv(&v.y));
    }
}

#[test]
fn window_pixel_to_units_flips_y_and_centers() {
    let t = Transform::new(640, 480, 32);
    // the window's top-left corner is the unit-space upper-left corner
    let tl = t.window_vec_to_murs(Vec2::from_ints(0, 0));
    assert!(tl.x.eqv(&rat(-10, 1)));
    assert!(tl.y.eqv(&rat(15, 2)));
    // the screen center is the unit-space origin
    let c = t.window_vec_to_murs(Vec2::from_ints(320, 240));
    assert!(c.x.eqv(&rat(0, 1)));
    assert!(c.y.eqv(&rat(0, 1)));
}

#[test]
fn pixels_to_mur_divides_by_unit_size() {
    let t = Transform::new(640, 480, 32);
    let r = t.pixels_to_mur(48);
    assert!(r.eqv(&rat(3, 2)));
}
