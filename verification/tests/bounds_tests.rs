use smitten::{Color, Rat, SignedDistance, Transform, Vec2};

fn rat(n: i64, d: i64) -> Rat {
    Rat::new(n, d)
}

#[test]
fn circle_bounds_are_a_tight_square() {
    let t = Transform::new(640, 480, 32);
    let c = SignedDistance::circle(Vec2::from_ints(0, 0), 5, Color::red());
    let (center, dims) = c.get_bounds(&t);
    assert!(center.x.eqv(&rat(0, 1)));
    assert!(center.y.eqv(&rat(0, 1)));
    assert!(dims.x.eqv(&rat(10, 1)));
    assert!(dims.y.eqv(&rat(10, 1)));
}

#[test]
fn circle_bounds_ignore_the_transform() {
    let a = Transform::new(640, 480, 32);
    let b = Transform::new(100, 2000, 7);
    let c = SignedDistance::circle(Vec2::from_ints(3, -4), 5, Color::blue());
    let (ca, da) = c.get_bounds(&a);
    let (cb, db) = c.get_bounds(&b);
    assert_eq!(ca, cb);
    assert_eq!(da, db);
}

#[test]
fn line_bounds_do_not_depend_on_endpoint_order() {
    let t = Transform::new(640, 480, 32);
    let fwd = SignedDistance::line_segment(
        Vec2::from_ints(5, 5),
        Vec2::from_ints(0, 0),
        5,
        Color::green(),
    );
    let rev = SignedDistance::line_segment(
        Vec2::from_ints(0, 0),
        Vec2::from_ints(5, 5),
        5,
        Color::green(),
    );
    let (cf, df) = fwd.get_bounds(&t);
    let (cr, dr) = rev.get_bounds(&t);
    assert!(cf.x.eqv(&cr.x) && cf.y.eqv(&cr.y));
    assert!(df.x.eqv(&dr.x) && df.y.eqv(&dr.y));
    // and the values themselves: center (2.5, 2.5), extent 5 plus 3 * 5/32
    assert!(cf.x.eqv(&rat(5, 2)));
    assert!(df.x.eqv(&rat(5 * 32 + 15, 32)));
}

#[test]
fn degenerate_line_collapses_to_a_padded_point() {
    let t = Transform::new(640, 480, 32);
    let p = Vec2::from_ints(2, 3);
    let line = SignedDistance::line_segment(p, p, 4, Color::white());
    let (center, dims) = line.get_bounds(&t);
    assert!(center.x.eqv(&rat(2, 1)));
    assert!(center.y.eqv(&rat(3, 1)));
    // three thicknesses of padding: 3 * 4 / 32 units
    assert!(dims.x.eqv(&rat(12, 32)));
    assert!(dims.y.eqv(&rat(12, 32)));
}

#[test]
fn draw_methods_select_the_distance_function() {
    let c = SignedDistance::circle(Vec2::from_ints(0, 0), 1, Color::red());
    let l = SignedDistance::line_segment(
        Vec2::from_ints(0, 0),
        Vec2::from_ints(1, 1),
        1,
        Color::red(),
    );
    assert_eq!(c.draw_method_index(), 1);
    assert_eq!(l.draw_method_index(), 2);
}

#[test]
fn line_bounds_cover_the_endpoints() {
    let t = Transform::new(640, 480, 32);
    let line = SignedDistance::line_segment(
        Vec2::from_ints(-3, 4),
        Vec2::from_ints(5, -1),
        5,
        Color::aqua(),
    );
    let (center, dims) = line.get_bounds(&t);
    let half_x = dims.x.div(Rat::new(2, 1));
    let half_y = dims.y.div(Rat::new(2, 1));
    for p in [Vec2::from_ints(-3, 4), Vec2::from_ints(5, -1)] {
        assert!(center.x.sub(half_x).le(&p.x));
        assert!(p.x.le(&center.x.add(half_x)));
        assert!(center.y.sub(half_y).le(&p.y));
        assert!(p.y.le(&center.y.add(half_y)));
    }
}

#[test]
fn shape_boundedness_covers_coordinates_and_thickness() {
    let near = SignedDistance::circle(Vec2::from_ints(5, -5), 1000, Color::red());
    assert!(near.is_bounded(0x1000));
    let far = SignedDistance::circle(Vec2::from_ints(5000, 0), 1, Color::red());
    assert!(!far.is_bounded(0x1000));
    let thick = SignedDistance::line_segment(
        Vec2::from_ints(0, 0),
        Vec2::from_ints(1, 1),
        0x8001,
        Color::red(),
    );
    assert!(!thick.is_bounded(0x1000));
}
