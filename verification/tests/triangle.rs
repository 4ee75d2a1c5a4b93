use fj_kernel::math::Point;
use fj_kernel::triangle::{Error, Triangle};

fn p2(x: i64, y: i64) -> Point<2> {
    Point::new([x, y])
}

#[test]
fn validation() {
    let triangle = Triangle::new(p2(0, 0), p2(0, 1), p2(1, 1));
    let points_on_a_line = Triangle::new(p2(0, 0), p2(1, 1), p2(2, 2));
    let collapsed_points = Triangle::new(p2(0, 0), p2(1, 1), p2(1, 1));

    assert!(triangle.is_ok());
    assert!(points_on_a_line.is_err());
    assert!(collapsed_points.is_err());
}

#[test]
fn collapsed_points_give_their_error() {
    match Triangle::new(p2(0, 0), p2(0, 0), p2(1, 1)) {
        Err(Error::CollapsedPoints) => {}
        _ => panic!("expected CollapsedPoints"),
    }
    match Triangle::new(p2(3, 4), p2(1, 1), p2(3, 4)) {
        Err(Error::CollapsedPoints) => {}
        _ => panic!("expected CollapsedPoints"),
    }
}

#[test]
fn collinear_points_give_their_error() {
    match Triangle::new(p2(0, 0), p2(1, 1), p2(2, 2)) {
        Err(Error::IsALineSegment) => {}
        _ => panic!("expected IsALineSegment"),
    }
    // A horizontal run, with unequal spacing: directions still agree.
    match Triangle::new(p2(0, 0), p2(3, 0), p2(10, 0)) {
        Err(Error::IsALineSegment) => {}
        _ => panic!("expected IsALineSegment"),
    }
    // Opposite directions do not compare equal: this doubles back, and the
    // exact check accepts it, as documented.
    assert!(Triangle::new(p2(0, 0), p2(2, 2), p2(1, 1)).is_ok());
}

#[test]
fn points_come_back_in_input_order() {
    let t = Triangle::new(p2(0, 0), p2(0, 1), p2(1, 1)).unwrap();
    let ps = t.points();
    assert_eq!(ps[0].coords, [0, 0]);
    assert_eq!(ps[1].coords, [0, 1]);
    assert_eq!(ps[2].coords, [1, 1]);
}

#[test]
fn three_dimensional_triangles_validate_too() {
    let a = Point::new([0, 0, 0]);
    let b = Point::new([4, 0, 0]);
    let c = Point::new([0, 4, 0]);
    assert!(Triangle::new(a, b, c).is_ok());
    let d = Point::new([8, 0, 0]);
    match Triangle::new(a, b, d) {
        Err(Error::IsALineSegment) => {}
        _ => panic!("expected IsALineSegment"),
    }
}
