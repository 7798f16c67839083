use care2d::math::{ceil_sqrt, limit_dist, line_line_intersect, Mat2, Mat3, Rotation, Vec2, ONE};

fn v(x: i64, y: i64) -> Vec2 {
    Vec2::new(x, y)
}

#[test]
fn length_rounds_up() {
    assert_eq!(v(3, 4).length(), 5);
    assert_eq!(v(1, 1).length(), 2);
    assert_eq!(v(0, 0).length(), 0);
    assert_eq!(ceil_sqrt(26), 6);
    assert_eq!(ceil_sqrt(25), 5);
}

#[test]
fn normalize_scales_to_one() {
    assert_eq!(v(3, 4).normalize(), v(39321, 52428));
    assert_eq!(v(0, -7).normalize(), v(0, -ONE));
    assert_eq!(v(0, 0).normalize(), v(0, 0));
    assert_eq!(v(0, 0).normalize_or(v(ONE, 0)), v(ONE, 0));
}

#[test]
fn tangent_turns_clockwise() {
    assert_eq!(v(3, 4).tangent(), v(4, -3));
}

#[test]
fn rotation_quarter_turn() {
    assert_eq!(v(100, 0).rotated(Rotation { cos: 0, sin: ONE }), v(0, -100));
    assert_eq!(v(100, 7).rotated(Rotation::none()), v(100, 7));
}

#[test]
fn affine_transform_applies() {
    let m = Mat3 { xx: 2 * ONE, xy: 0, yx: 0, yy: ONE / 2, tx: 10, ty: -10 };
    assert_eq!(m.apply(v(5, 8)), v(20, -6));
    assert_eq!(Mat3::ident().apply(v(-3, 9)), v(-3, 9));
    assert_eq!(Mat2::new(0, ONE, ONE, 0).apply(v(1, 2)), v(2, 1));
    assert_eq!(Mat2::ident().apply(v(1, 2)), v(1, 2));
}

#[test]
fn intersection_of_crossing_lines() {
    assert_eq!(line_line_intersect((v(0, 0), v(10, 0)), (v(5, -5), v(5, 5))), Some(v(5, 0)));
    assert_eq!(line_line_intersect((v(0, 0), v(10, 0)), (v(0, 5), v(10, 5))), None);
}

#[test]
fn limit_dist_clamps() {
    assert_eq!(limit_dist(v(0, 0), v(300, 400), 100), v(59, 79));
    assert_eq!(limit_dist(v(0, 0), v(3, 4), 5), v(3, 4));
    assert_eq!(limit_dist(v(10, 10), v(10, 10), 0), v(10, 10));
}

#[test]
fn coordinates_saturate() {
    let big = care2d::math::BOUND;
    assert_eq!(v(big, 0).add(v(big, 0)), v(big, 0));
    assert_eq!(v(-big, 0).sub(v(big, 0)), v(-big, 0));
}
