use polarust::geometry::{point_circle_collision, segment_circle_intersection, Point, GRID_LIMIT};
use polarust::polar::{poltocart, Heading};

fn heading_of(angle: f64) -> Heading {
    let cos = (angle.cos() * 1e9).round() as i64;
    let sin = (angle.sin() * 1e9).round() as i64;
    Heading::new(cos, sin).unwrap()
}

#[test]
fn test_poltocart() {
    // Radius 10 at an angle of 50 radians: (9.64966, -2.6237485), on a grid
    // of thousandths and rounded down.
    let p = poltocart(10_000_000_000, heading_of(50.));
    assert_eq!(p, Point { x: 9649, y: -2624 });
    assert!((p.x as f64 / 1000. - 9.64966).abs() < 0.001);
    assert!((p.y as f64 / 1000. - -2.6237485).abs() < 0.001);
}

#[test]
fn test_point_circle_collision() {
    assert_eq!(
        point_circle_collision(Point { x: 0, y: 0 }, Point { x: 0, y: 0 }, 15),
        true
    );
    assert_eq!(
        point_circle_collision(Point { x: 10, y: 0 }, Point { x: 0, y: 0 }, 15),
        true
    );
    assert_eq!(
        point_circle_collision(Point { x: 0, y: 0 }, Point { x: 0, y: -10 }, 15),
        true
    );
    assert_eq!(
        point_circle_collision(Point { x: 0, y: 0 }, Point { x: 0, y: -100 }, 15),
        false
    );
    assert_eq!(
        point_circle_collision(Point { x: -50, y: 50 }, Point { x: 0, y: 0 }, 15),
        false
    );
}

#[test]
fn point_on_the_border_is_inside() {
    assert!(point_circle_collision(Point { x: 9, y: 12 }, Point { x: 0, y: 0 }, 15));
    assert!(!point_circle_collision(Point { x: 9, y: 13 }, Point { x: 0, y: 0 }, 15));
    assert!(point_circle_collision(Point { x: 15, y: 0 }, Point { x: 0, y: 0 }, 15));
    assert!(!point_circle_collision(Point { x: 16, y: 0 }, Point { x: 0, y: 0 }, 15));
}

#[test]
fn point_test_with_negative_radius_fails() {
    assert!(!point_circle_collision(Point { x: 0, y: 0 }, Point { x: 0, y: 0 }, -1));
    assert!(point_circle_collision(Point { x: 0, y: 0 }, Point { x: 0, y: 0 }, 0));
    assert!(!point_circle_collision(Point { x: 1, y: 0 }, Point { x: 0, y: 0 }, 0));
}

#[test]
fn point_test_takes_the_whole_range() {
    let far = Point { x: i64::MAX, y: i64::MIN };
    let other = Point { x: i64::MIN, y: i64::MAX };
    assert!(!point_circle_collision(far, other, i64::MAX));
    assert!(point_circle_collision(far, far, 0));
    assert!(point_circle_collision(
        Point { x: i64::MAX, y: 0 },
        Point { x: 0, y: 0 },
        i64::MAX
    ));
    assert!(!point_circle_collision(
        Point { x: i64::MAX, y: 1 },
        Point { x: 0, y: 0 },
        i64::MAX
    ));
}

#[test]
fn segment_touching_the_border_hits() {
    // The line y = 15 is tangent to the circle of radius 15 about the origin.
    let c = Point { x: 0, y: 0 };
    assert!(segment_circle_intersection(Point { x: -40, y: 15 }, Point { x: 40, y: 15 }, c, 15));
    assert!(!segment_circle_intersection(Point { x: -40, y: 16 }, Point { x: 40, y: 16 }, c, 15));
    assert!(!segment_circle_intersection(Point { x: -40, y: 15 }, Point { x: 40, y: 15 }, c, 14));
}

#[test]
fn segment_touching_at_a_rational_foot_hits() {
    // From (0, 25) to (25, 0): the nearest point to the origin is
    // (12.5, 12.5), at distance 25 / sqrt(2), about 17.68.
    let c = Point { x: 0, y: 0 };
    let p1 = Point { x: 0, y: 25 };
    let p2 = Point { x: 25, y: 0 };
    assert!(segment_circle_intersection(p1, p2, c, 18));
    assert!(!segment_circle_intersection(p1, p2, c, 17));
    // From (0, 5) to (10, -5) with centre (5, 5): distance 5 / sqrt(2) * ...
    // the foot is (2.5, 2.5), at squared distance 12.5.
    let q1 = Point { x: 0, y: 5 };
    let q2 = Point { x: 10, y: -5 };
    let d = Point { x: 5, y: 5 };
    assert!(segment_circle_intersection(q1, q2, d, 4));
    assert!(!segment_circle_intersection(q1, q2, d, 3));
}

#[test]
fn segment_outside_misses() {
    let c = Point { x: 0, y: 0 };
    // The line through the ends crosses the circle, the segment stops short.
    assert!(!segment_circle_intersection(Point { x: 20, y: 0 }, Point { x: 40, y: 0 }, c, 15));
    assert!(!segment_circle_intersection(Point { x: -40, y: 0 }, Point { x: -16, y: 0 }, c, 15));
    assert!(segment_circle_intersection(Point { x: -40, y: 0 }, Point { x: -15, y: 0 }, c, 15));
    assert!(!segment_circle_intersection(Point { x: 100, y: 100 }, Point { x: 200, y: 50 }, c, 15));
}

#[test]
fn segment_inside_or_across_hits() {
    let c = Point { x: 0, y: 0 };
    // Both ends inside.
    assert!(segment_circle_intersection(Point { x: -1, y: 0 }, Point { x: 1, y: 1 }, c, 15));
    // One end inside.
    assert!(segment_circle_intersection(Point { x: 0, y: 0 }, Point { x: 100, y: 0 }, c, 15));
    assert!(segment_circle_intersection(Point { x: 100, y: 0 }, Point { x: 0, y: 0 }, c, 15));
    // Both ends outside, the middle inside.
    assert!(segment_circle_intersection(Point { x: -100, y: 3 }, Point { x: 100, y: 3 }, c, 15));
}

#[test]
fn segment_of_length_zero_is_a_point() {
    let c = Point { x: 0, y: 0 };
    assert!(segment_circle_intersection(Point { x: 9, y: 12 }, Point { x: 9, y: 12 }, c, 15));
    assert!(!segment_circle_intersection(Point { x: 9, y: 13 }, Point { x: 9, y: 13 }, c, 15));
    for (x, y) in [(0, 0), (10, 0), (0, -100), (-50, 50), (15, 0), (11, 11)] {
        let p = Point { x, y };
        assert_eq!(
            segment_circle_intersection(p, p, c, 15),
            point_circle_collision(p, c, 15)
        );
    }
}

#[test]
fn segment_test_with_negative_radius_fails() {
    let p = Point { x: 0, y: 0 };
    assert!(!segment_circle_intersection(p, p, p, -1));
    assert!(segment_circle_intersection(p, p, p, 0));
}

#[test]
fn segment_test_at_the_edge_of_the_grid() {
    let a = Point { x: -GRID_LIMIT, y: -GRID_LIMIT };
    let b = Point { x: GRID_LIMIT, y: GRID_LIMIT };
    let c = Point { x: GRID_LIMIT, y: -GRID_LIMIT };
    // The diagonal passes at GRID_LIMIT * sqrt(2) from the opposite corner.
    assert!(!segment_circle_intersection(a, b, c, 1_518_500_249));
    assert!(segment_circle_intersection(a, b, c, 1_518_500_250));
    assert!(segment_circle_intersection(a, b, c, i64::MAX));
    assert!(segment_circle_intersection(a, b, Point { x: 5, y: 5 }, 0));
    assert!(!segment_circle_intersection(a, b, Point { x: 5, y: 6 }, 0));
}

#[test]
fn segment_test_agrees_with_a_dense_sampling() {
    // Compare with the least distance over many sample points of the segment.
    let c = Point { x: 3, y: -2 };
    let ends = [(-30, -30), (-7, 12), (0, 0), (25, 4), (6, -9), (40, 40), (-3, 21)];
    for &(x1, y1) in ends.iter() {
        for &(x2, y2) in ends.iter() {
            let (fx, fy) = ((x1 - c.x) as f64, (y1 - c.y) as f64);
            let (dx, dy) = ((x2 - x1) as f64, (y2 - y1) as f64);
            let len = dx * dx + dy * dy;
            let t = if len == 0. { 0. } else { (-(fx * dx + fy * dy) / len).clamp(0., 1.) };
            let least = ((fx + t * dx).powi(2) + (fy + t * dy).powi(2)).sqrt();
            for r in 0..60 {
                if (least - r as f64).abs() < 1e-9 {
                    continue;
                }
                assert_eq!(
                    segment_circle_intersection(
                        Point { x: x1, y: y1 },
                        Point { x: x2, y: y2 },
                        c,
                        r
                    ),
                    least <= r as f64,
                    "({x1}, {y1}) to ({x2}, {y2}), radius {r}"
                );
            }
        }
    }
}
