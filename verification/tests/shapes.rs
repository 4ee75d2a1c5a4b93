use fj_kernel::math::{pt3, Point};
use fj_kernel::shapes::{filter_difference_triangles, Circle, Difference, Shape, SurfaceTriangle};
use fj_kernel::triangle::Error;
use spade::{DelaunayTriangulation, Point2, Triangulation};

fn circle(radius: i64) -> Shape {
    Shape::Circle(Circle { radius })
}

fn difference(a: Shape, b: Shape) -> Shape {
    Shape::Difference(Box::new(Difference { a, b }))
}

fn tri(a: [i64; 3], b: [i64; 3], c: [i64; 3]) -> SurfaceTriangle {
    SurfaceTriangle { a: Point::new(a), b: Point::new(b), c: Point::new(c) }
}

/// The external collaborator: a Delaunay triangulation over the point set.
fn delaunay(points: &[Point<3>]) -> Vec<SurfaceTriangle> {
    let mut dt: DelaunayTriangulation<Point2<f64>> = DelaunayTriangulation::new();
    for p in points {
        let _ = dt.insert(Point2::new(p.coords[0] as f64, p.coords[1] as f64));
    }
    let mut out = Vec::new();
    for face in dt.inner_faces() {
        let vs = face.vertices();
        let corner = |i: usize| {
            let pos = vs[i].position();
            pt3(pos.x as i64, pos.y as i64, 0)
        };
        out.push(SurfaceTriangle { a: corner(0), b: corner(1), c: corner(2) });
    }
    out
}

#[test]
fn circle_bounding_volume_is_its_square() {
    let s = circle(5);
    let bv = s.bounding_volume();
    assert_eq!(bv.min.coords, [-5, -5, 0]);
    assert_eq!(bv.max.coords, [5, 5, 0]);
}

#[test]
fn difference_bounding_volume_is_the_minuend_volume() {
    let a_radius: i64 = 10;
    for b_radius in [1, 3, 7, 9] {
        let s = difference(circle(a_radius), circle(b_radius));
        let bv = s.bounding_volume();
        let bva = circle(a_radius).bounding_volume();
        assert_eq!(bv.min.coords, bva.min.coords);
        assert_eq!(bv.max.coords, bva.max.coords);
    }
}

#[test]
fn difference_edges_reverse_the_subtrahend() {
    let s = difference(circle(10), circle(3));
    let es = s.edges();
    assert_eq!(es.len(), 2);
    assert!(!es[0].reversed);
    assert!(es[1].reversed);
    // The reversed edge traces the subtrahend's boundary backwards.
    let inner = circle(3).edges();
    let forward: Vec<[i64; 3]> = inner[0].vertices(1).iter().map(|p| p.coords).collect();
    let mut backward: Vec<[i64; 3]> = es[1].vertices(1).iter().map(|p| p.coords).collect();
    backward.reverse();
    assert_eq!(forward, backward);
}

#[test]
fn circle_has_no_corner_vertices() {
    match circle(4).vertices() {
        Ok(vs) => assert_eq!(vs.len(), 0),
        Err(_) => panic!("expected corner vertices for a circle"),
    }
}

#[test]
fn difference_vertices_are_unsupported() {
    match difference(circle(4), circle(2)).vertices() {
        Err(Error::Unsupported) => {}
        _ => panic!("expected Unsupported"),
    }
}

#[test]
fn filter_keeps_at_most_one_subtracted_edge() {
    // The subtracted boundary's point set.
    let b = vec![pt3(0, 0, 0), pt3(10, 0, 0), pt3(0, 10, 0)];
    // No corner in the subtracted set: kept.
    let t0 = tri([20, 20, 0], [30, 20, 0], [20, 30, 0]);
    // Exactly one edge with both endpoints in the set: kept.
    let t1 = tri([0, 0, 0], [10, 0, 0], [20, 30, 0]);
    // All corners in the set, so every edge lies in it: discarded.
    let t2 = tri([0, 0, 0], [10, 0, 0], [0, 10, 0]);
    let kept = filter_difference_triangles(vec![t0, t1, t2], &b);
    assert_eq!(kept.len(), 2);
    assert_eq!(kept[0].a.coords, [20, 20, 0]);
    assert_eq!(kept[1].a.coords, [0, 0, 0]);
    assert_eq!(kept[1].c.coords, [20, 30, 0]);
}

#[test]
fn circle_triangles_pass_the_triangulation_through() {
    let s = circle(400);
    let pts = s.triangulation_points(50);
    assert_eq!(pts.len(), 8);
    let tris = delaunay(&pts);
    assert!(!tris.is_empty());
    let got = s.triangles(50, tris.clone());
    assert_eq!(got.len(), tris.len());
}

#[test]
fn difference_triangles_drop_the_subtracted_interior() {
    let tol: i64 = 50;
    let s = difference(circle(400), circle(100));
    let pts = s.triangulation_points(tol);
    // 8 outer points, then 4 inner points.
    assert_eq!(pts.len(), 12);
    let tris = delaunay(&pts);
    let kept = s.triangles(tol, tris.clone());
    assert!(kept.len() < tris.len());
    assert!(!kept.is_empty());
    // Recount by hand: every kept triangle has at most one edge whose both
    // endpoints belong to the subtrahend's boundary points.
    let b: Vec<[i64; 3]> = circle(100).triangulation_points(tol).iter().map(|p| p.coords).collect();
    for t in &kept {
        let corners = [t.a.coords, t.b.coords, t.c.coords];
        let mut edges_of_b: usize = 0;
        for (u, v) in [(0, 1), (1, 2), (2, 0)] {
            if b.contains(&corners[u]) && b.contains(&corners[v]) {
                edges_of_b += 1;
            }
        }
        assert!(edges_of_b <= 1);
    }
}
