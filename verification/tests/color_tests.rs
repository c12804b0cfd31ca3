use smitten::{Color, ColorParseError, Rat};

fn rat(n: i64, d: i64) -> Rat {
    Rat::new(n, d)
}

#[test]
fn one_number_is_grey_with_alpha_one() {
    let c = Color::from_str("0.5").unwrap();
    assert!(c.r.eqv(&rat(1, 2)));
    assert!(c.g.eqv(&rat(1, 2)));
    assert!(c.b.eqv(&rat(1, 2)));
    assert!(c.a.eqv(&rat(1, 1)));
}

#[test]
fn three_numbers_are_rgb() {
    let c = Color::from_str("1,0,0").unwrap();
    let red = Color::red();
    assert!(c.r.eqv(&red.r));
    assert!(c.g.eqv(&red.g));
    assert!(c.b.eqv(&red.b));
    assert!(c.a.eqv(&red.a));
}

#[test]
fn four_numbers_are_rgba() {
    let c = Color::from_str("0,0,0,0").unwrap();
    let t = Color::transparent();
    assert!(c.r.eqv(&t.r));
    assert!(c.g.eqv(&t.g));
    assert!(c.b.eqv(&t.b));
    assert!(c.a.eqv(&t.a));
}

#[test]
fn two_numbers_are_rejected() {
    match Color::from_str("1,2") {
        Err(e) => assert_eq!(e.input(), "1,2"),
        Ok(_) => panic!("two components must not parse"),
    }
}

#[test]
fn empty_and_garbage_are_rejected() {
    assert!(Color::from_str("").is_err());
    assert!(Color::from_str("a,b,c").is_err());
    assert!(Color::from_str("1,,1").is_err());
    assert!(Color::from_str("1.2.3").is_err());
    assert!(Color::from_str(".").is_err());
    assert!(Color::from_str("-").is_err());
}

#[test]
fn components_are_trimmed_and_signed() {
    let c = Color::from_str(" 1 , -0.25 , +.5 ").unwrap();
    assert!(c.r.eqv(&rat(1, 1)));
    assert!(c.g.eqv(&rat(-1, 4)));
    assert!(c.b.eqv(&rat(1, 2)));
    assert!(c.a.eqv(&rat(1, 1)));
}

#[test]
fn trailing_dot_and_leading_dot_parse() {
    let c = Color::from_str("1.,.5,0").unwrap();
    assert!(c.r.eqv(&rat(1, 1)));
    assert!(c.g.eqv(&rat(1, 2)));
    assert!(c.b.eqv(&rat(0, 1)));
}

#[test]
fn digit_budget_is_eighteen() {
    assert!(Color::from_str("123456789012345678").is_ok());
    assert!(Color::from_str("1234567890123456789").is_err());
    let c = Color::from_str("0.000000000000000001").is_err();
    assert!(c, "nineteen digits in all must not parse");
}

#[test]
fn byte_constructors_scale_by_255() {
    let c = Color::rgb8(255, 0, 51);
    assert!(c.r.eqv(&rat(1, 1)));
    assert!(c.g.eqv(&rat(0, 1)));
    assert!(c.b.eqv(&rat(51, 255)));
    assert!(c.a.eqv(&rat(1, 1)));
    let g = Color::grey8(128);
    assert!(g.r.eqv(&rat(128, 255)));
    assert!(g.a.eqv(&rat(1, 1)));
    let d = Color::rgba8(0, 0, 0, 128);
    assert!(d.a.eqv(&rat(128, 255)));
}

#[test]
fn named_colors_hold_their_channels() {
    assert!(Color::yellow().r.eqv(&rat(1, 1)));
    assert!(Color::yellow().g.eqv(&rat(1, 1)));
    assert!(Color::yellow().b.eqv(&rat(0, 1)));
    assert!(Color::fuchsia().g.eqv(&rat(0, 1)));
    assert!(Color::aqua().r.eqv(&rat(0, 1)));
    assert!(Color::black().r.eqv(&rat(0, 1)));
    assert!(Color::white().b.eqv(&rat(1, 1)));
    assert!(Color::black().a.eqv(&rat(1, 1)));
}

#[test]
fn error_carries_the_input() {
    let e: ColorParseError = Color::from_str("nope").unwrap_err();
    assert_eq!(e.input(), "nope");
}

#[test]
fn whitespace_only_components_are_rejected() {
    assert!(Color::from_str("   ").is_err());
    assert!(Color::from_str("1, ,3").is_err());
}
