use lines::geometry::{saturate, Aabb, Point};

#[test]
fn distance_squared_is_exact() {
    let a = Point::new(0, 0);
    let b = Point::new(300, 400);
    assert_eq!(a.distance_squared(&b), 250_000);
    assert_eq!(b.distance_squared(&a), 250_000);
    assert_eq!(a.distance_squared(&a), 0);
}

#[test]
fn distance_squared_of_the_farthest_points_does_not_overflow() {
    let a = Point::new(i32::MIN, i32::MIN);
    let b = Point::new(i32::MAX, i32::MAX);
    let side: u128 = (1u128 << 32) - 1;
    assert_eq!(a.distance_squared(&b), 2 * side * side);
}

#[test]
fn within_includes_the_border() {
    let a = Point::new(0, 0);
    assert!(a.is_within(&Point::new(300, 400), 500));
    assert!(!a.is_within(&Point::new(300, 400), 499));
    assert!(a.is_within(&a, 0));
}

#[test]
fn nothing_is_within_a_negative_radius() {
    let a = Point::new(7, 7);
    assert!(!a.is_within(&a, -1));
}

#[test]
fn farther_than_excludes_the_border() {
    let a = Point::new(0, 0);
    assert!(!a.is_farther_than(&Point::new(200, 0), 200));
    assert!(a.is_farther_than(&Point::new(201, 0), 200));
    assert!(a.is_farther_than(&Point::new(150, 150), 200));
    assert!(a.is_farther_than(&a, -1));
}

#[test]
fn saturate_stops_at_the_ends_of_the_range() {
    assert_eq!(saturate(5), 5);
    assert_eq!(saturate(-5), -5);
    assert_eq!(saturate(i32::MAX as i128 + 1), i32::MAX);
    assert_eq!(saturate(i32::MIN as i128 - 1), i32::MIN);
    assert_eq!(saturate(i128::MAX), i32::MAX);
    assert_eq!(saturate(i128::MIN), i32::MIN);
}

#[test]
fn zero_is_the_origin() {
    assert_eq!(Point::zero(), Point { x: 0, y: 0 });
}

#[test]
fn box_holds_its_border_and_nothing_beyond() {
    let b = Aabb::new(Point::new(100, 200), Point::new(10, 20));
    assert!(b.contains(&Point::new(100, 200)));
    assert!(b.contains(&Point::new(110, 220)));
    assert!(b.contains(&Point::new(90, 180)));
    assert!(!b.contains(&Point::new(111, 200)));
    assert!(!b.contains(&Point::new(100, 179)));
}

#[test]
fn box_with_a_negative_half_extent_holds_nothing() {
    let b = Aabb::new(Point::new(0, 0), Point::new(-1, 10));
    assert!(!b.contains(&Point::new(0, 0)));
}

#[test]
fn box_test_does_not_overflow_at_the_ends_of_the_range() {
    let b = Aabb::new(Point::new(i32::MIN, 0), Point::new(i32::MAX, 0));
    assert!(!b.contains(&Point::new(i32::MAX, 0)));
    assert!(b.contains(&Point::new(-1, 0)));
}
