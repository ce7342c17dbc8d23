use physics_sandbox::fixed::{
    clamp, dot, fine_len, isqrt, mul_quot, mul_quot_towards, narrow, quot_to, share, share_towards,
    FINE, UNIT,
};
use physics_sandbox::geometry::{squared_distance, Point, Rect};

#[test]
fn one_unit_is_a_thousand_steps() {
    assert_eq!(UNIT, 1000);
}

#[test]
fn isqrt_rounds_down() {
    assert_eq!(isqrt(0), 0);
    assert_eq!(isqrt(1), 1);
    assert_eq!(isqrt(3), 1);
    assert_eq!(isqrt(4), 2);
    assert_eq!(isqrt(8), 2);
    assert_eq!(isqrt(9), 3);
    assert_eq!(isqrt(200_000_000), 14_142);
    assert_eq!(isqrt(99_999_999), 9_999);
    assert_eq!(isqrt(100_000_000), 10_000);
}

#[test]
fn isqrt_of_the_largest_number() {
    assert_eq!(isqrt(u128::MAX), u64::MAX);
    assert_eq!(isqrt(1u128 << 64), 1u64 << 32);
    assert_eq!(isqrt((1u128 << 64) - 1), (1u64 << 32) - 1);
}

#[test]
fn mul_quot_rounds_towards_zero() {
    assert_eq!(mul_quot(7, 1, 2), 3);
    assert_eq!(mul_quot(-7, 1, 2), -3);
    assert_eq!(mul_quot(21_000, 99, 100), 20_790);
    assert_eq!(mul_quot(-10_000, 99, 100), -9_900);
    assert_eq!(mul_quot(-1, 99, 100), 0);
    assert_eq!(mul_quot(3, -5, 4), -3);
}

#[test]
fn narrow_saturates() {
    assert_eq!(narrow(5), 5);
    assert_eq!(narrow(-5), -5);
    assert_eq!(narrow(i32::MAX as i128), i32::MAX);
    assert_eq!(narrow(i32::MAX as i128 + 1), i32::MAX);
    assert_eq!(narrow(i32::MIN as i128), i32::MIN);
    assert_eq!(narrow(i32::MIN as i128 - 1), i32::MIN);
    assert_eq!(narrow(i128::MAX), i32::MAX);
    assert_eq!(narrow(i128::MIN), i32::MIN);
}

#[test]
fn clamp_confines_to_the_range() {
    assert_eq!(clamp(5, 0, 10), 5);
    assert_eq!(clamp(-5, 0, 10), 0);
    assert_eq!(clamp(15, 0, 10), 10);
    assert_eq!(clamp(0, 0, 10), 0);
    assert_eq!(clamp(10, 0, 10), 10);
}

#[test]
fn clamp_with_crossed_bounds_gives_the_lower_one() {
    assert_eq!(clamp(5, 10, 0), 10);
    assert_eq!(clamp(-5, 10, 0), 10);
    assert_eq!(clamp(15, 10, 0), 10);
}

#[test]
fn dot_is_the_inner_product() {
    assert_eq!(dot(3, 4, 5, 6), 39);
    assert_eq!(dot(-3, 4, 5, -6), -39);
    assert_eq!(dot(0, 0, 5, 6), 0);
}

#[test]
fn squared_distance_of_far_corners() {
    assert_eq!(squared_distance(0, 0, 3, 4), 25);
    assert_eq!(squared_distance(-3, -4, 0, 0), 25);
    assert_eq!(squared_distance(i32::MIN, i32::MIN, i32::MAX, i32::MAX), 2 * ((1u128 << 32) - 1) * ((1u128 << 32) - 1));
}

#[test]
fn distance_rounds_down() {
    assert_eq!(Point::new(0, 0).distance(Point::new(3, 4)), 5);
    assert_eq!(Point::new(0, 0).distance(Point::new(1, 1)), 1);
    assert_eq!(Point::new(50_000, 50_000).distance(Point::new(59_000, 59_000)), 12_727);
    assert_eq!(Point::new(7, 7).distance(Point::new(7, 7)), 0);
}

#[test]
fn rect_from_points_orders_the_corners() {
    let r = Rect::from_points(Point::new(30, 5), Point::new(10, 20));
    assert_eq!(r, Rect::new(10, 5, 30, 20));
    assert_eq!(Rect::from_points(Point::new(10, 5), Point::new(30, 20)), r);
    assert_eq!((r.min_x(), r.max_x(), r.min_y(), r.max_y()), (10, 30, 5, 20));
}

#[test]
fn rect_excludes_its_far_edges() {
    let r = Rect::new(10, 5, 30, 20);
    assert!(r.contains(Point::new(10, 5)));
    assert!(r.contains(Point::new(29, 19)));
    assert!(!r.contains(Point::new(30, 10)));
    assert!(!r.contains(Point::new(15, 20)));
    assert!(!r.contains(Point::new(9, 10)));
    assert!(!r.contains(Point::new(15, 4)));
}

#[test]
fn nearest_point_of_a_rect() {
    let r = Rect::new(10, 5, 30, 20);
    assert_eq!(r.nearest(Point::new(0, 0)), Point::new(10, 5));
    assert_eq!(r.nearest(Point::new(15, 0)), Point::new(15, 5));
    assert_eq!(r.nearest(Point::new(40, 30)), Point::new(30, 20));
    assert_eq!(r.nearest(Point::new(15, 10)), Point::new(15, 10));
}

#[test]
fn unordered_rect_reports_its_extent() {
    let r = Rect::new(30, 20, 10, 5);
    assert_eq!((r.min_x(), r.max_x(), r.min_y(), r.max_y()), (10, 30, 5, 20));
    assert!(!r.contains(Point::new(15, 10)));
}

#[test]
fn quotients_round_to_the_side_asked_for() {
    for (p, d, up, down, zero) in [
        (7, 2, 4, 3, 3),
        (-7, 2, -3, -4, -3),
        (8, 2, 4, 4, 4),
        (-8, 2, -4, -4, -4),
        (1, 10, 1, 0, 0),
        (-1, 10, 0, -1, 0),
        (0, 3, 0, 0, 0),
    ] {
        assert_eq!(quot_to(p, d, 5), up);
        assert_eq!(quot_to(p, d, -5), down);
        assert_eq!(quot_to(p, d, 0), zero);
    }
}

#[test]
fn products_round_to_the_side_asked_for() {
    assert_eq!(mul_quot_towards(-10_000, 858, 14_142, -10_000), -607);
    assert_eq!(mul_quot_towards(-10_000, 858, 14_142, 10_000), -606);
    assert_eq!(mul_quot_towards(-10_000, 858, 14_142, 0), -606);
    assert_eq!(share_towards(15, 7, 10, 1), 11);
    assert_eq!(share_towards(15, 7, 10, -1), 10);
    assert_eq!(share_towards(-15, 7, 10, -1), -11);
    assert_eq!(share_towards(-15, 7, 10, 0), -10);
    assert_eq!(share(-15, 7, 10), -10);
}

#[test]
fn fine_length_counts_parts_of_a_step() {
    assert_eq!(FINE, 65_536);
    assert_eq!(fine_len(0), 0);
    assert_eq!(fine_len(1), 65_536);
    assert_eq!(fine_len(2), 92_681);
    assert_eq!(fine_len(25), 5 * 65_536);
    assert_eq!(fine_len(400_000_000), 20_000 * 65_536);
    assert_eq!(fine_len(1i128 << 68), 1i128 << 50);
}
