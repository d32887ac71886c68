use path_morph::point::{lerp_point, lerp_point_checked, points_within_margin, Fraction, Point};

fn pt(x: i32, y: i32) -> Point {
    Point { x, y }
}

#[test]
fn fraction_rejects_zero_denominator() {
    assert!(Fraction::new(1, 0).is_none());
}

#[test]
fn fraction_rejects_factor_above_one() {
    assert!(Fraction::new(11, 10).is_none());
}

#[test]
fn fraction_accepts_factor_in_range() {
    let t = Fraction::new(3, 10).unwrap();
    assert_eq!(t.num, 3);
    assert_eq!(t.den, 10);
}

#[test]
fn lerp_point_exact_value() {
    let t = Fraction::new(3, 10).unwrap();
    let r = lerp_point(pt(10, 20), pt(30, -40), t);
    assert_eq!(r, pt(16, 2));
}

#[test]
fn lerp_point_truncates_toward_source() {
    let t = Fraction::new(1, 2).unwrap();
    // 0 toward -7 by a half: the step is 3, truncated toward the source
    let r = lerp_point(pt(0, 0), pt(-7, 0), t);
    assert_eq!(r, pt(-3, 0));
}

#[test]
fn lerp_point_at_zero_is_source() {
    let t = Fraction::new(0, 1).unwrap();
    assert_eq!(lerp_point(pt(-5, 9), pt(100, -100), t), pt(-5, 9));
}

#[test]
fn lerp_point_at_one_is_target() {
    let t = Fraction::new(1, 1).unwrap();
    assert_eq!(lerp_point(pt(-5, 9), pt(100, -100), t), pt(100, -100));
}

#[test]
fn checked_lerp_snaps_exactly_onto_target() {
    // the raw lerp of (0,0) toward (8,6) at 1/2 is (4,3), at distance
    // exactly 5 of the target: within margin 5, so the result is the
    // target itself, not the raw lerp
    let t = Fraction::new(1, 2).unwrap();
    let (r, snapped) = lerp_point_checked(pt(0, 0), pt(8, 6), t, 5);
    assert!(snapped);
    assert_eq!(r, pt(8, 6));
}

#[test]
fn checked_lerp_keeps_raw_point_beyond_margin() {
    let t = Fraction::new(1, 2).unwrap();
    let (r, snapped) = lerp_point_checked(pt(0, 0), pt(8, 6), t, 4);
    assert!(!snapped);
    assert_eq!(r, pt(4, 3));
}

#[test]
fn margin_zero_still_snaps_at_distance_zero() {
    let t = Fraction::new(1, 1).unwrap();
    let (r, snapped) = lerp_point_checked(pt(3, 4), pt(3, 4), t, 0);
    assert!(snapped);
    assert_eq!(r, pt(3, 4));
}

#[test]
fn within_margin_is_euclidean() {
    // a 3-4-5 triangle: distance 5, so margin 5 holds and margin 4 does not
    assert!(points_within_margin(pt(0, 0), pt(3, 4), 5));
    assert!(!points_within_margin(pt(0, 0), pt(3, 4), 4));
}

#[test]
fn widening_margin_keeps_a_snap() {
    let t = Fraction::new(1, 2).unwrap();
    let (_, narrow) = lerp_point_checked(pt(0, 0), pt(8, 6), t, 5);
    let (_, wide) = lerp_point_checked(pt(0, 0), pt(8, 6), t, 50);
    assert!(narrow);
    assert!(wide);
}
