use smitten::rectangle::{quad_indices, quad_vertices};
use smitten::{Rat, Vec2};

fn rat(n: i64, d: i64) -> Rat {
    Rat::new(n, d)
}

#[test]
fn index_order_forms_the_two_triangles() {
    assert_eq!(quad_indices(), vec![0u8, 1, 3, 1, 2, 3]);
}

#[test]
fn default_quad_spans_half_extents_and_full_texture() {
    let v = quad_vertices(
        Vec2::from_ints(2, 2),
        Vec2::new(rat(0, 1), rat(0, 1)),
        Vec2::new(rat(1, 1), rat(1, 1)),
    );
    assert_eq!(v.len(), 16);
    let expect: [(i64, i64); 16] = [
        (1, 1),
        (1, 1),
        (1, 1),
        (0, 1),
        (1, 1),
        (-1, 1),
        (1, 1),
        (1, 1),
        (-1, 1),
        (-1, 1),
        (0, 1),
        (1, 1),
        (-1, 1),
        (1, 1),
        (0, 1),
        (0, 1),
    ];
    for (q, (n, d)) in v.iter().zip(expect.iter()) {
        assert!(q.eqv(&rat(*n, *d)));
    }
}

#[test]
fn glyph_quads_carry_their_sub_rectangle() {
    let v = quad_vertices(
        Vec2::from_ints(2, 2),
        Vec2::new(rat(1, 17), rat(0, 1)),
        Vec2::new(rat(1, 34), rat(1, 7)),
    );
    // top right corner: texture x is the far edge, texture y the origin
    assert!(v[2].eqv(&rat(3, 34)));
    assert!(v[3].eqv(&rat(0, 1)));
    // bottom left corner: texture x is the origin, texture y the far edge
    assert!(v[10].eqv(&rat(1, 17)));
    assert!(v[11].eqv(&rat(1, 7)));
}
