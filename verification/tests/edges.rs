use fj_kernel::edges::Edge;
use fj_kernel::math::{pt3, Point};

fn coords(ps: &[Point<3>]) -> Vec<[i64; 3]> {
    ps.iter().map(|p| p.coords).collect()
}

#[test]
fn line_vertices_are_its_endpoints() {
    let a = pt3(1, 2, 0);
    let b = pt3(5, 6, 0);
    let e = Edge::line(a, b);
    assert_eq!(coords(&e.vertices(1)), vec![[1, 2, 0], [5, 6, 0]]);
    assert_eq!(coords(&e.reverse().vertices(1)), vec![[5, 6, 0], [1, 2, 0]]);
}

#[test]
fn arc_point_counts_match_the_quadrature() {
    // radius 1000, tolerance 10: ceil(1000 / 20) = 50, and 8 is the least
    // square root at or above it (7 * 7 = 49 < 50 <= 8 * 8), so a quarter
    // gets 8 points and the circle 32.
    assert_eq!(Edge::arc(1000).vertices(10).len(), 32);
    // tolerance 1: ceil(1000 / 2) = 500, least root 23 (22 * 22 = 484).
    assert_eq!(Edge::arc(1000).vertices(1).len(), 92);
    // The coarsest discretization is a square.
    assert_eq!(Edge::arc(1).vertices(1).len(), 4);
}

#[test]
fn finer_tolerance_never_drops_points() {
    let e = Edge::arc(5000);
    let mut last: usize = 0;
    for tol in [100, 50, 20, 10, 5, 2, 1] {
        let n = e.vertices(tol).len();
        assert!(n >= last);
        last = n;
    }
}

#[test]
fn arc_starts_on_the_axis_and_turns_by_quarters() {
    let e = Edge::arc(100);
    let vs = e.vertices(5);
    let m: usize = vs.len() / 4;
    assert_eq!(vs[0].coords, [100, 0, 0]);
    assert_eq!(vs[m].coords, [0, 100, 0]);
    assert_eq!(vs[2 * m].coords, [-100, 0, 0]);
    assert_eq!(vs[3 * m].coords, [0, -100, 0]);
    // Every quadrant is the exact quarter-turn image of the previous one.
    for k in 0..3 * m {
        let [x, y, _] = vs[k].coords;
        assert_eq!(vs[k + m].coords, [-y, x, 0]);
    }
}

#[test]
fn reversing_twice_restores_the_discretization() {
    let e = Edge::arc(777);
    let once = e.reverse();
    let twice = once.reverse();
    assert_eq!(coords(&twice.vertices(3)), coords(&e.vertices(3)));
    // A single reversal visits the same points backwards.
    let forward = coords(&e.vertices(3));
    let mut backward = coords(&once.vertices(3));
    backward.reverse();
    assert_eq!(forward, backward);
}
