//! Shapes: primitives, CSG combinators, and the difference surface
//! algorithm.
//!
//! A shape exposes a fixed capability set: a bounding volume, a closed loop
//! of boundary edges, a triangulated surface, and an explicit vertex list.
//! The triangulation of a point cloud itself is an external collaborator:
//! callers discretize a shape with `triangulation_points`, hand the points
//! to any triangulator, and pass the resulting triangles back through
//! `triangles`, which post-processes them.
//!
//! The difference combinator keeps a deliberate, documented approximation:
//! its bounding volume is the minuend's bounding volume unchanged, its edge
//! loop reverses the subtrahend's edges to mark them as a hole, and its
//! surface is derived by a heuristic filter over one triangulation of the
//! combined boundary points. The subtrahend must be fully contained in the
//! minuend; this precondition is not checked, and violating it yields
//! incorrect output rather than an error.

use vstd::prelude::*;
use crate::edges::{edge_count, edge_tol_ok, edge_vertex, tol_ok, Curve, Edge};
use crate::math::{pt3, Point, COORD_BOUND};
use crate::triangle::Error;

verus! {

/// An axis-aligned bounding volume: a conservative enclosure of a shape.
#[derive(Clone, Copy, Debug)]
pub struct Aabb {
    pub min: Point<3>,
    pub max: Point<3>,
}

/// A circle of the given radius around the local origin.
#[derive(Clone, Copy, Debug)]
pub struct Circle {
    pub radius: i64,
}

/// The difference `a - b` of two shapes. `b` must be fully contained in
/// `a`; this is not validated.
pub struct Difference {
    pub a: Shape,
    pub b: Shape,
}

/// A shape: a primitive or a combinator owning its operands.
pub enum Shape {
    Circle(Circle),
    Difference(Box<Difference>),
}

/// A triangle of the discretized surface, as a triple of points.
#[derive(Clone, Copy, Debug)]
pub struct SurfaceTriangle {
    pub a: Point<3>,
    pub b: Point<3>,
    pub c: Point<3>,
}

/// Radii are positive and representable.
pub open spec fn shape_wf(s: Shape) -> bool
    decreases s,
{
    match s {
        Shape::Circle(c) => 1 <= c.radius <= COORD_BOUND,
        Shape::Difference(d) => shape_wf(d.a) && shape_wf(d.b),
    }
}

/// The tolerance is acceptable for every curve of the shape.
pub open spec fn shape_tol_ok(s: Shape, tol: int) -> bool
    decreases s,
{
    match s {
        Shape::Circle(c) => tol_ok(c.radius as int, tol),
        Shape::Difference(d) => shape_tol_ok(d.a, tol) && shape_tol_ok(d.b, tol),
    }
}

/// The lower corner of the shape's bounding volume.
pub open spec fn bv_min(s: Shape) -> Seq<i64>
    decreases s,
{
    match s {
        Shape::Circle(c) => seq![(-c.radius) as i64, (-c.radius) as i64, 0i64],
        Shape::Difference(d) => bv_min(d.a),
    }
}

/// The upper corner of the shape's bounding volume.
pub open spec fn bv_max(s: Shape) -> Seq<i64>
    decreases s,
{
    match s {
        Shape::Circle(c) => seq![c.radius, c.radius, 0i64],
        Shape::Difference(d) => bv_max(d.a),
    }
}

/// The shape's boundary edge loop: a circle is one arc; a difference is the
/// minuend's edges followed by the subtrahend's edges reversed, so that the
/// subtracted boundary reads as an inward-facing hole.
pub open spec fn shape_edges(s: Shape) -> Seq<Edge>
    decreases s,
{
    match s {
        Shape::Circle(c) => seq![
            Edge { curve: Curve::Arc { radius: c.radius }, reversed: false },
        ],
        Shape::Difference(d) => shape_edges(d.a) + shape_edges(d.b).map_values(
            |e: Edge| e.spec_reverse(),
        ),
    }
}

/// The views of the points one edge produces.
pub open spec fn edge_views(e: Edge, tol: int) -> Seq<Seq<i64>> {
    Seq::new(edge_count(e, tol) as nat, |k: int| edge_vertex(e, tol, k))
}

/// The views of the points a run of edges produces, in order.
pub open spec fn edges_points(es: Seq<Edge>, tol: int) -> Seq<Seq<i64>>
    decreases es.len(),
{
    if es.len() == 0 {
        Seq::empty()
    } else {
        edges_points(es.drop_last(), tol) + edge_views(es.last(), tol)
    }
}

/// The views of the shape's own discretized boundary points.
pub open spec fn shape_points(s: Shape, tol: int) -> Seq<Seq<i64>> {
    edges_points(shape_edges(s), tol)
}

/// The views of the point cloud a shape hands to the triangulator: its own
/// boundary points for a primitive; for a difference, the minuend's points
/// followed by the subtrahend's points (each side discretized on its own).
pub open spec fn triangulation_points_views(s: Shape, tol: int) -> Seq<Seq<i64>> {
    match s {
        Shape::Circle(_) => shape_points(s, tol),
        Shape::Difference(d) => shape_points(d.a, tol) + shape_points(d.b, tol),
    }
}

pub open spec fn pts_views(s: Seq<Point<3>>) -> Seq<Seq<i64>> {
    s.map_values(|p: Point<3>| p@)
}

/// The point occurs (by value) in the point run.
pub open spec fn pt_in(p: Seq<i64>, pts: Seq<Seq<i64>>) -> bool {
    exists|j: int| 0 <= j < pts.len() && #[trigger] pts[j] == p
}

/// How many of the triangle's three edges have both endpoints in `b`.
pub open spec fn edges_of_b(t: SurfaceTriangle, b: Seq<Seq<i64>>) -> int {
    (if pt_in(t.a@, b) && pt_in(t.b@, b) {
        1int
    } else {
        0int
    }) + (if pt_in(t.b@, b) && pt_in(t.c@, b) {
        1int
    } else {
        0int
    }) + (if pt_in(t.c@, b) && pt_in(t.a@, b) {
        1int
    } else {
        0int
    })
}

/// The difference filter keeps a triangle exactly when at most one of its
/// edges lies in the subtracted boundary's point set.
pub open spec fn keep_triangle(t: SurfaceTriangle, b: Seq<Seq<i64>>) -> bool {
    edges_of_b(t, b) <= 1
}

/// The subsequence of triangles the difference filter keeps, in order.
pub open spec fn kept_triangles(ts: Seq<SurfaceTriangle>, b: Seq<Seq<i64>>) -> Seq<SurfaceTriangle> {
    ts.filter(|t: SurfaceTriangle| keep_triangle(t, b))
}

/// What `Shape::triangles` returns for a given triangulation of the shape's
/// point cloud: a primitive passes the triangulator's output through; a
/// difference keeps only the triangles the filter classifies as outside the
/// subtracted region.
pub open spec fn triangles_spec(s: Shape, tol: int, ts: Seq<SurfaceTriangle>) -> Seq<
    SurfaceTriangle,
> {
    match s {
        Shape::Circle(_) => ts,
        Shape::Difference(d) => kept_triangles(ts, shape_points(d.b, tol)),
    }
}

fn points_equal(p: &Point<3>, q: &Point<3>) -> (r: bool)
    ensures
        r == (p@ == q@),
{
    p.equals(q)
}

/// Whether an equal point occurs in the run.
fn point_in(p: &Point<3>, pts: &Vec<Point<3>>) -> (r: bool)
    ensures
        r == pt_in(p@, pts_views(pts@)),
{
    let n: usize = pts.len();
    let mut i: usize = 0;
    while i < n
        invariant
            0 <= i <= n,
            n == pts@.len(),
            forall|j: int| 0 <= j < i ==> #[trigger] pts_views(pts@)[j] != p@,
        decreases n - i,
    {
        if points_equal(&pts[i], p) {
            proof {
                assert(pts_views(pts@)[i as int] == p@);
            }
            return true;
        }
        i = i + 1;
    }
    false
}

/// Keep exactly the triangles with at most one edge whose both endpoints
/// lie in the subtracted boundary's point set `b`. This is the difference
/// combinator's classification heuristic, applied to one triangulation of
/// the combined point cloud.
pub fn filter_difference_triangles(triangulation: Vec<SurfaceTriangle>, b: &Vec<Point<3>>) -> (r:
    Vec<SurfaceTriangle>)
    ensures
        r@ == kept_triangles(triangulation@, pts_views(b@)),
{
    let bv = Ghost(pts_views(b@));
    let mut out: Vec<SurfaceTriangle> = Vec::new();
    let n: usize = triangulation.len();
    let mut i: usize = 0;
    while i < n
        invariant
            0 <= i <= n,
            n == triangulation@.len(),
            bv@ == pts_views(b@),
            out@ == kept_triangles(triangulation@.take(i as int), bv@),
        decreases n - i,
    {
        let t: SurfaceTriangle = triangulation[i];
        let ab: bool = point_in(&t.a, b) && point_in(&t.b, b);
        let bc: bool = point_in(&t.b, b) && point_in(&t.c, b);
        let ca: bool = point_in(&t.c, b) && point_in(&t.a, b);
        let count: u32 = (if ab {
            1
        } else {
            0
        }) + (if bc {
            1
        } else {
            0
        }) + (if ca {
            1
        } else {
            0
        });
        if count <= 1 {
            out.push(t);
        }
        proof {
            let pred = |u: SurfaceTriangle| keep_triangle(u, bv@);
            reveal(Seq::filter);
            assert(triangulation@.take(i as int).push(t) =~= triangulation@.take(i + 1));
            assert(triangulation@.take(i + 1).drop_last() =~= triangulation@.take(i as int));
            assert(triangulation@.take(i + 1).last() == t);
            assert(keep_triangle(t, bv@) == (edges_of_b(t, bv@) <= 1));
        }
        i = i + 1;
    }
    proof {
        assert(triangulation@.take(n as int) =~= triangulation@);
    }
    out
}

/// Discretize a run of edges and concatenate the resulting points.
fn discretize_edges(edges: &Vec<Edge>, tolerance: i64) -> (r: Vec<Point<3>>)
    requires
        forall|i: int| 0 <= i < edges@.len() ==> edge_tol_ok(#[trigger] edges@[i], tolerance as int),
    ensures
        pts_views(r@) == edges_points(edges@, tolerance as int),
{
    let mut out: Vec<Point<3>> = Vec::new();
    let n: usize = edges.len();
    let mut i: usize = 0;
    while i < n
        invariant
            0 <= i <= n,
            n == edges@.len(),
            forall|j: int|
                0 <= j < edges@.len() ==> edge_tol_ok(#[trigger] edges@[j], tolerance as int),
            pts_views(out@) == edges_points(edges@.take(i as int), tolerance as int),
        decreases n - i,
    {
        let e: Edge = edges[i];
        let vs: Vec<Point<3>> = e.vertices(tolerance);
        let mut k: usize = 0;
        let vn: usize = vs.len();
        let ghost out0 = out@;
        while k < vn
            invariant
                0 <= k <= vn,
                vn == vs@.len(),
                vn == edge_count(e, tolerance as int),
                forall|j: int|
                    0 <= j < vs@.len() ==> #[trigger] vs@[j]@ == edge_vertex(
                        e,
                        tolerance as int,
                        j,
                    ),
                out@ == out0 + vs@.take(k as int),
            decreases vn - k,
        {
            let p: Point<3> = vs[k];
            out.push(p);
            proof {
                assert(out0 + vs@.take(k as int) + seq![p] =~= out0 + vs@.take(k + 1));
            }
            k = k + 1;
        }
        proof {
            assert(vs@.take(vn as int) =~= vs@);
            assert(edges@.take(i + 1).drop_last() =~= edges@.take(i as int));
            assert(edges@.take(i + 1).last() == e);
            assert(pts_views(vs@) =~= edge_views(e, tolerance as int));
            assert(pts_views(out0 + vs@) =~= pts_views(out0) + pts_views(vs@));
        }
        i = i + 1;
    }
    proof {
        assert(edges@.take(n as int) =~= edges@);
    }
    out
}

/// A well-formed shape under an acceptable tolerance has only edges whose
/// curves accept that tolerance.
proof fn lemma_shape_edges_tol_ok(s: Shape, tol: int)
    requires
        shape_wf(s),
        shape_tol_ok(s, tol),
    ensures
        forall|i: int|
            0 <= i < shape_edges(s).len() ==> edge_tol_ok(#[trigger] shape_edges(s)[i], tol),
    decreases s,
{
    match s {
        Shape::Circle(_) => {},
        Shape::Difference(d) => {
            lemma_shape_edges_tol_ok(d.a, tol);
            lemma_shape_edges_tol_ok(d.b, tol);
            let ea = shape_edges(d.a);
            let eb = shape_edges(d.b).map_values(|e: Edge| e.spec_reverse());
            assert forall|i: int| 0 <= i < shape_edges(s).len() implies edge_tol_ok(
                #[trigger] shape_edges(s)[i],
                tol,
            ) by {
                if i < ea.len() {
                    assert(shape_edges(s)[i] == ea[i]);
                } else {
                    assert(shape_edges(s)[i] == eb[i - ea.len()]);
                    assert(eb[i - ea.len()] == shape_edges(d.b)[i - ea.len()].spec_reverse());
                }
            }
        },
    }
}

impl Shape {
    /// A conservative axis-aligned enclosure of the shape.
    pub fn bounding_volume(&self) -> (r: Aabb)
        requires
            shape_wf(*self),
        ensures
            r.min@ == bv_min(*self),
            r.max@ == bv_max(*self),
        decreases *self,
    {
        match self {
            Shape::Circle(c) => Aabb {
                min: pt3(-c.radius, -c.radius, 0),
                max: pt3(c.radius, c.radius, 0),
            },
            Shape::Difference(d) => d.a.bounding_volume(),
        }
    }

    /// The shape's boundary edge loop. For a difference, the subtrahend's
    /// edges are reversed: its boundary becomes an inward-facing hole. The
    /// subtrahend is assumed to be fully contained in the minuend; this is
    /// not checked.
    pub fn edges(&self) -> (r: Vec<Edge>)
        ensures
            r@ == shape_edges(*self),
        decreases *self,
    {
        match self {
            Shape::Circle(c) => {
                let mut v: Vec<Edge> = Vec::new();
                v.push(Edge::arc(c.radius));
                proof {
                    assert(v@ =~= shape_edges(*self));
                }
                v
            },
            Shape::Difference(d) => {
                let mut ea: Vec<Edge> = d.a.edges();
                let eb: Vec<Edge> = d.b.edges();
                let ghost base = ea@;
                let n: usize = eb.len();
                let mut i: usize = 0;
                while i < n
                    invariant
                        0 <= i <= n,
                        n == eb@.len(),
                        eb@ == shape_edges(d.b),
                        ea@.len() == base.len() + i,
                        forall|j: int| 0 <= j < base.len() ==> #[trigger] ea@[j] == base[j],
                        forall|j: int|
                            0 <= j < i ==> #[trigger] ea@[base.len() + j]
                                == eb@[j].spec_reverse(),
                    decreases n - i,
                {
                    let e: Edge = eb[i];
                    ea.push(e.reverse());
                    i = i + 1;
                }
                proof {
                    let mapped = shape_edges(d.b).map_values(|e: Edge| e.spec_reverse());
                    assert forall|k: int| 0 <= k < ea@.len() implies ea@[k] == (base + mapped)[k]
                        by {
                        if k >= base.len() {
                            let j = k - base.len();
                            assert(ea@[base.len() + j] == eb@[j].spec_reverse());
                        }
                    }
                    assert(ea@ =~= base + mapped);
                }
                ea
            },
        }
    }

    /// The point cloud to hand to the external triangulator: the shape's
    /// discretized boundary; for a difference, the minuend's point run
    /// followed by the subtrahend's (each boundary discretized unreversed,
    /// duplicates permitted).
    pub fn triangulation_points(&self, tolerance: i64) -> (r: Vec<Point<3>>)
        requires
            shape_wf(*self),
            shape_tol_ok(*self, tolerance as int),
        ensures
            pts_views(r@) == triangulation_points_views(*self, tolerance as int),
    {
        match self {
            Shape::Circle(_) => {
                let es: Vec<Edge> = self.edges();
                proof {
                    lemma_shape_edges_tol_ok(*self, tolerance as int);
                }
                discretize_edges(&es, tolerance)
            },
            Shape::Difference(d) => {
                let ea: Vec<Edge> = d.a.edges();
                let eb: Vec<Edge> = d.b.edges();
                proof {
                    lemma_shape_edges_tol_ok(d.a, tolerance as int);
                    lemma_shape_edges_tol_ok(d.b, tolerance as int);
                }
                let mut pa: Vec<Point<3>> = discretize_edges(&ea, tolerance);
                let pb: Vec<Point<3>> = discretize_edges(&eb, tolerance);
                let ghost base = pa@;
                let n: usize = pb.len();
                let mut i: usize = 0;
                while i < n
                    invariant
                        0 <= i <= n,
                        n == pb@.len(),
                        pa@ == base + pb@.take(i as int),
                    decreases n - i,
                {
                    let p: Point<3> = pb[i];
                    pa.push(p);
                    proof {
                        assert(base + pb@.take(i as int) + seq![p] =~= base + pb@.take(i + 1));
                    }
                    i = i + 1;
                }
                proof {
                    assert(pb@.take(n as int) =~= pb@);
                    assert(pts_views(base + pb@) =~= pts_views(base) + pts_views(pb@));
                }
                pa
            },
        }
    }

    /// The shape's surface, derived from a triangulation of its point
    /// cloud. A primitive returns whatever the triangulator yielded. A
    /// difference re-discretizes its subtrahend's boundary and keeps only
    /// the triangles with at most one edge inside that point set — a
    /// heuristic classification, not an exact boolean evaluation: it can
    /// misclassify when the two boundaries share points or the
    /// triangulation connects distant regions.
    pub fn triangles(&self, tolerance: i64, triangulation: Vec<SurfaceTriangle>) -> (r: Vec<
        SurfaceTriangle,
    >)
        requires
            shape_wf(*self),
            shape_tol_ok(*self, tolerance as int),
        ensures
            r@ == triangles_spec(*self, tolerance as int, triangulation@),
    {
        match self {
            Shape::Circle(_) => triangulation,
            Shape::Difference(d) => {
                let eb: Vec<Edge> = d.b.edges();
                proof {
                    lemma_shape_edges_tol_ok(d.b, tolerance as int);
                }
                let pb: Vec<Point<3>> = discretize_edges(&eb, tolerance);
                filter_difference_triangles(triangulation, &pb)
            },
        }
    }

    /// The shape's explicit corner vertices. A circle has a single round
    /// edge and no corners; a difference has no defined vertex semantics
    /// yet and reports the operation as unsupported.
    pub fn vertices(&self) -> (r: Result<Vec<Point<3>>, Error>)
        ensures
            self is Circle ==> (r matches Ok(v) && v@.len() == 0),
            self is Difference ==> r == Result::<Vec<Point<3>>, Error>::Err(Error::Unsupported),
    {
        match self {
            Shape::Circle(_) => Ok(Vec::new()),
            Shape::Difference(_) => Err(Error::Unsupported),
        }
    }
}

/// A difference's bounding volume equals the minuend's bounding volume
/// exactly, whatever the subtrahend is: `a - b` is contained in `a`, so the
/// enclosure stays conservative (and is never tightened).
pub proof fn lemma_difference_bounding_volume(d: Difference)
    ensures
        ({
            let s = Shape::Difference(Box::new(d));
            bv_min(s) == bv_min(d.a) && bv_max(s) == bv_max(d.a)
        }),
{
}

} // verus!
