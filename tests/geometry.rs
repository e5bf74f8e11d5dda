use sombervale::geometry::{circle_hits_any, distance_squared, Point3, Rect};

#[test]
fn test_rect_circle_intersects() {
    let rect = Rect::new(3, 4, 3, 3);
    let radius = 2;

    // Below the rect
    assert!(!rect.circle_intersects(Point3::new(5, 0, 10), radius));
    assert!(rect.circle_intersects(Point3::new(5, 0, 8), radius));

    // To the left of the rect
    assert!(!rect.circle_intersects(Point3::new(0, 0, 5), radius));
    assert!(rect.circle_intersects(Point3::new(2, 0, 5), radius));

    // Above the rect
    assert!(!rect.circle_intersects(Point3::new(5, 0, 1), radius));
    assert!(rect.circle_intersects(Point3::new(5, 0, 3), radius));

    // To the right of the rect
    assert!(!rect.circle_intersects(Point3::new(9, 0, 5), radius));
    assert!(rect.circle_intersects(Point3::new(7, 0, 5), radius));
}

#[test]
fn circle_on_grown_boundary_does_not_intersect() {
    let rect = Rect::new(3, 4, 3, 3);
    // grown rect spans x 1..8, z 2..9 (exclusive)
    assert!(!rect.circle_intersects(Point3::new(1, 0, 5), 2));
    assert!(!rect.circle_intersects(Point3::new(8, 0, 5), 2));
    assert!(!rect.circle_intersects(Point3::new(5, 0, 9), 2));
    assert!(rect.circle_intersects(Point3::new(7, 0, 8), 2));
}

#[test]
fn zero_radius_is_point_test() {
    let rect = Rect::new(0, 0, 10, 10);
    assert_eq!(
        rect.circle_intersects(Point3::new(5, 0, 5), 0),
        rect.point_intersects(Point3::new(5, 0, 5))
    );
    assert!(!rect.point_intersects(Point3::new(0, 0, 5)));
    assert!(!rect.point_intersects(Point3::new(10, 0, 5)));
}

#[test]
fn hits_any_shape() {
    let shapes = vec![Rect::new(0, 0, 10, 10), Rect::new(100, 100, 10, 10)];
    assert!(circle_hits_any(&shapes, Point3::new(105, 0, 105), 1));
    assert!(!circle_hits_any(&shapes, Point3::new(50, 0, 50), 5));
    assert!(!circle_hits_any(&Vec::new(), Point3::new(5, 0, 5), 5));
}

#[test]
fn squared_distance_ignores_height() {
    assert_eq!(distance_squared(Point3::new(0, 7, 0), Point3::new(3, -2, 4)), 25);
}
