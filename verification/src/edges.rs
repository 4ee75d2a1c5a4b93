//! Boundary edges and their tolerance-driven discretization.
//!
//! An edge is a curve (a full circular arc around the origin, or a straight
//! segment) together with a traversal direction. Given a positive tolerance,
//! an edge produces a finite, ordered run of boundary points: a segment
//! contributes its two endpoints, an arc contributes `4 * m` points placed
//! counterclockwise around the circle, where `m` grows as the tolerance
//! shrinks (`m = max(1, ceil_sqrt(ceil(radius / (2 * tolerance))))`, enough
//! for the worst-case chord deviation to stay within about one tolerance).
//!
//! Arc points are exact rational points of the circle, rounded to the
//! lattice: the quarter circle is parametrized by `t = j / m` through
//! `x = r * (1 - t^2) / (1 + t^2)`, `y = r * 2 * t / (1 + t^2)`, and the
//! other three quadrants are exact quarter-turn images of the first. The
//! whole discretization is a pure function of the edge and the tolerance.

use vstd::prelude::*;
use vstd::arithmetic::div_mod::*;
use crate::math::{pt3, Point, COORD_BOUND};
use crate::num::{ceil_div, csqrt, csqrt_u64, lemma_ceil_div_antimonotonic, lemma_ceil_div_bounds,
    lemma_csqrt_monotonic, lemma_csqrt_unique};

verus! {

/// Tolerances are kept within machine-friendly bounds: positive, not
/// astronomically large, and not more than a factor `2^30` below the radius
/// (which caps an arc's discretization at under `100_000` points).
pub const TOL_BOUND: i64 = 0x1000_0000_0000_0000;

const QUARTER_CAP: u64 = 23171;

pub open spec fn tol_ok(radius: int, tol: int) -> bool {
    &&& 1 <= tol <= TOL_BOUND
    &&& 1 <= radius <= COORD_BOUND
    &&& radius <= tol * 0x4000_0000
}

/// The curve kinds an edge can follow.
#[derive(Clone, Copy, Debug)]
pub enum Curve {
    /// A full circle of the given radius around the local origin, in the
    /// plane of the third coordinate.
    Arc { radius: i64 },
    /// A straight segment between two points.
    Line { a: Point<3>, b: Point<3> },
}

/// A boundary edge: a curve plus a traversal direction.
#[derive(Clone, Copy, Debug)]
pub struct Edge {
    pub curve: Curve,
    pub reversed: bool,
}

/// Rounded division `round(a / b)` for `a >= 0`, `b >= 1`.
pub open spec fn rdiv(a: int, b: int) -> int {
    (a + b / 2) / b
}

/// Points per quarter circle at the given radius and tolerance.
pub open spec fn arc_m(radius: int, tol: int) -> int {
    let s = csqrt(ceil_div(radius, 2 * tol) as nat) as int;
    if s < 1 {
        1
    } else {
        s
    }
}

/// Total number of points an arc produces.
pub open spec fn arc_count(radius: int, tol: int) -> int {
    4 * arc_m(radius, tol)
}

pub open spec fn circle_x(radius: int, m: int, j: int) -> int {
    rdiv(radius * (m * m - j * j), m * m + j * j)
}

pub open spec fn circle_y(radius: int, m: int, j: int) -> int {
    rdiv(radius * 2 * m * j, m * m + j * j)
}

/// The `k`-th of `4 * m` counterclockwise points on the circle of the given
/// radius, starting at `(radius, 0)`; quadrants beyond the first are exact
/// quarter-turn images of the first.
pub open spec fn circle_pt(radius: int, m: int, k: int) -> (int, int) {
    let q = k / m;
    let j = k % m;
    let x = circle_x(radius, m, j);
    let y = circle_y(radius, m, j);
    if q == 0 {
        (x, y)
    } else if q == 1 {
        (-y, x)
    } else if q == 2 {
        (-x, -y)
    } else {
        (y, -x)
    }
}

pub open spec fn arc_vertex_view(radius: int, tol: int, k: int) -> Seq<i64> {
    let p = circle_pt(radius, arc_m(radius, tol), k);
    seq![p.0 as i64, p.1 as i64, 0i64]
}

/// How many points the edge produces at this tolerance.
pub open spec fn edge_count(e: Edge, tol: int) -> int {
    match e.curve {
        Curve::Arc { radius } => arc_count(radius as int, tol),
        Curve::Line { .. } => 2,
    }
}

/// The view of the `k`-th point the edge produces at this tolerance.
pub open spec fn edge_vertex(e: Edge, tol: int, k: int) -> Seq<i64> {
    let j = if e.reversed {
        edge_count(e, tol) - 1 - k
    } else {
        k
    };
    match e.curve {
        Curve::Arc { radius } => arc_vertex_view(radius as int, tol, j),
        Curve::Line { a, b } => if j == 0 {
            a@
        } else {
            b@
        },
    }
}

/// The tolerance is acceptable for this edge.
pub open spec fn edge_tol_ok(e: Edge, tol: int) -> bool {
    match e.curve {
        Curve::Arc { radius } => tol_ok(radius as int, tol),
        Curve::Line { .. } => 1 <= tol <= TOL_BOUND,
    }
}

proof fn lemma_arc_q_bound(radius: int, tol: int)
    requires
        tol_ok(radius, tol),
    ensures
        1 <= ceil_div(radius, 2 * tol) <= 0x2000_0000,
{
    let q = ceil_div(radius, 2 * tol);
    lemma_ceil_div_bounds(radius, 2 * tol);
    if q > 0x2000_0000 {
        assert((q - 1) * (2 * tol) >= 0x2000_0000 * (2 * tol)) by (nonlinear_arith)
            requires q - 1 >= 0x2000_0000, tol >= 1,
        ;
        assert(0x2000_0000 * (2 * tol) >= tol * 0x4000_0000) by (nonlinear_arith);
    }
}

proof fn lemma_arc_m_bound(radius: int, tol: int)
    requires
        tol_ok(radius, tol),
    ensures
        1 <= arc_m(radius, tol) <= QUARTER_CAP,
{
    lemma_arc_q_bound(radius, tol);
    let q = ceil_div(radius, 2 * tol);
    lemma_csqrt_monotonic(q as nat, 0x2000_0000 as nat);
    assert(23171 * 23171 >= 0x2000_0000) by (nonlinear_arith);
    assert(23170 * 23170 < 0x2000_0000) by (nonlinear_arith);
    lemma_csqrt_unique(0x2000_0000 as nat, 23171 as nat);
}

proof fn lemma_rdiv_range(a: int, b: int, c: int)
    requires
        0 <= a,
        1 <= b,
        0 <= c,
        a <= b * c,
    ensures
        0 <= rdiv(a, b) <= c,
{
    let t = a + b / 2;
    lemma_fundamental_div_mod(t, b);
    lemma_mod_bound(t, b);
    let d = t / b;
    let r = t % b;
    assert(t == b * d + r);
    if d < 0 {
        assert(b * d <= -b) by (nonlinear_arith)
            requires d <= -1, b >= 1,
        ;
    }
    if d > c {
        assert(b * d >= b * (c + 1)) by (nonlinear_arith)
            requires d >= c + 1, b >= 1,
        ;
        assert(b * (c + 1) == b * c + b) by (nonlinear_arith);
        assert(t <= b * c + b / 2);
    }
}

impl Edge {
    /// A full circular arc of the given radius, traversed counterclockwise.
    pub fn arc(radius: i64) -> (e: Edge)
        ensures
            e == (Edge { curve: Curve::Arc { radius }, reversed: false }),
    {
        Edge { curve: Curve::Arc { radius }, reversed: false }
    }

    /// A straight segment from `a` to `b`.
    pub fn line(a: Point<3>, b: Point<3>) -> (e: Edge)
        ensures
            e == (Edge { curve: Curve::Line { a, b }, reversed: false }),
    {
        Edge { curve: Curve::Line { a, b }, reversed: false }
    }

    pub open spec fn spec_reverse(self) -> Edge {
        Edge { curve: self.curve, reversed: !self.reversed }
    }

    /// The same geometric boundary, traversed in the opposite direction.
    pub fn reverse(self) -> (e: Edge)
        ensures
            e == self.spec_reverse(),
    {
        Edge { curve: self.curve, reversed: !self.reversed }
    }

    /// Discretize the edge: an ordered run of boundary points whose polyline
    /// approximates the curve to within the tolerance.
    pub fn vertices(&self, tolerance: i64) -> (r: Vec<Point<3>>)
        requires
            edge_tol_ok(*self, tolerance as int),
        ensures
            r@.len() == edge_count(*self, tolerance as int),
            forall|k: int|
                0 <= k < r@.len() ==> #[trigger] r@[k]@ == edge_vertex(
                    *self,
                    tolerance as int,
                    k,
                ),
    {
        let forward: Vec<Point<3>> = match &self.curve {
            Curve::Arc { radius } => arc_vertices(*radius, tolerance),
            Curve::Line { a, b } => {
                let mut v: Vec<Point<3>> = Vec::new();
                v.push(*a);
                v.push(*b);
                v
            },
        };
        if self.reversed {
            let n: usize = forward.len();
            let mut rev: Vec<Point<3>> = Vec::new();
            let mut i: usize = n;
            while i > 0
                invariant
                    0 <= i <= n,
                    n == forward@.len(),
                    rev@.len() == n - i,
                    forall|k: int|
                        0 <= k < rev@.len() ==> #[trigger] rev@[k] == forward@[n - 1 - k],
                decreases i,
            {
                i = i - 1;
                let p: Point<3> = forward[i];
                rev.push(p);
            }
            rev
        } else {
            forward
        }
    }
}

/// The first-quadrant lattice points of the arc.
fn arc_base(radius: i64, m: u64) -> (r: (Vec<i64>, Vec<i64>))
    requires
        1 <= radius <= COORD_BOUND,
        1 <= m <= QUARTER_CAP,
    ensures
        r.0@.len() == m,
        r.1@.len() == m,
        forall|j: int| 0 <= j < m ==> #[trigger] r.0@[j] == circle_x(radius as int, m as int, j),
        forall|j: int| 0 <= j < m ==> #[trigger] r.1@[j] == circle_y(radius as int, m as int, j),
        forall|j: int| 0 <= j < m ==> 0 <= #[trigger] r.0@[j] <= radius,
        forall|j: int| 0 <= j < m ==> 0 <= #[trigger] r.1@[j] <= radius,
{
    let mut xs: Vec<i64> = Vec::new();
    let mut ys: Vec<i64> = Vec::new();
    proof {
        assert(m * m <= 23171 * 23171) by (nonlinear_arith)
            requires 1 <= m <= 23171,
        ;
    }
    let mm: u64 = m * m;
    let mut j: u64 = 0;
    while j < m
        invariant
            0 <= j <= m,
            1 <= m <= QUARTER_CAP,
            1 <= radius <= COORD_BOUND,
            mm == m * m,
            mm <= 23171 * 23171,
            xs@.len() == j,
            ys@.len() == j,
            forall|i: int| 0 <= i < j ==> #[trigger] xs@[i] == circle_x(radius as int, m as int, i),
            forall|i: int| 0 <= i < j ==> #[trigger] ys@[i] == circle_y(radius as int, m as int, i),
            forall|i: int| 0 <= i < j ==> 0 <= #[trigger] xs@[i] <= radius,
            forall|i: int| 0 <= i < j ==> 0 <= #[trigger] ys@[i] <= radius,
        decreases m - j,
    {
        proof {
            assert(j * j < m * m) by (nonlinear_arith)
                requires 0 <= j < m,
            ;
            assert(2 * m * j <= m * m + j * j) by (nonlinear_arith)
                requires 0 <= j, 0 <= m,
            ;
        }
        let jj: u64 = j * j;
        let den: u128 = (mm + jj) as u128;
        let dx: u128 = (mm - jj) as u128;
        proof {
            assert((radius as int) * (dx as int) <= (radius as int) * (den as int))
                by (nonlinear_arith)
                requires 0 <= radius, 0 <= dx <= den,
            ;
            assert((radius as int) * (den as int) <= COORD_BOUND * (2 * 23171 * 23171))
                by (nonlinear_arith)
                requires 0 <= radius <= COORD_BOUND, 0 <= den <= 2 * 23171 * 23171,
            ;
        }
        let numx: u128 = (radius as u128) * dx;
        proof {
            assert((numx as int) <= (den as int) * (radius as int)) by (nonlinear_arith)
                requires
                    (numx as int) == (radius as int) * (dx as int),
                    0 <= (dx as int) <= (den as int),
                    0 <= (radius as int),
            ;
            lemma_rdiv_range(numx as int, den as int, radius as int);
        }
        let x: u128 = (numx + den / 2) / den;
        let two_mj: u128 = 2 * (m as u128) * (j as u128);
        proof {
            assert((two_mj as int) <= (den as int));
            assert((radius as int) * (two_mj as int) <= (den as int) * (radius as int))
                by (nonlinear_arith)
                requires 0 <= (two_mj as int) <= (den as int), 0 <= (radius as int),
            ;
            assert((den as int) * (radius as int) <= (2 * 23171 * 23171) * COORD_BOUND)
                by (nonlinear_arith)
                requires
                    0 <= (den as int) <= 2 * 23171 * 23171,
                    0 <= (radius as int) <= COORD_BOUND,
            ;
        }
        let numy: u128 = (radius as u128) * two_mj;
        proof {
            lemma_rdiv_range(numy as int, den as int, radius as int);
        }
        let y: u128 = (numy + den / 2) / den;
        proof {
            assert((numx as int) == (radius as int) * ((m as int) * (m as int) - (j as int) * (j
                as int))) by (nonlinear_arith)
                requires
                    (numx as int) == (radius as int) * (dx as int),
                    (dx as int) == (m as int) * (m as int) - (j as int) * (j as int),
            ;
            assert((numy as int) == (radius as int) * 2 * (m as int) * (j as int))
                by (nonlinear_arith)
                requires
                    (numy as int) == (radius as int) * (two_mj as int),
                    (two_mj as int) == 2 * (m as int) * (j as int),
            ;
            assert((x as int) == circle_x(radius as int, m as int, j as int));
            assert((y as int) == circle_y(radius as int, m as int, j as int));
        }
        xs.push(x as i64);
        ys.push(y as i64);
        j = j + 1;
    }
    (xs, ys)
}

/// All `4 * m` lattice points of the arc, counterclockwise from `(radius, 0)`.
fn arc_vertices(radius: i64, tolerance: i64) -> (r: Vec<Point<3>>)
    requires
        tol_ok(radius as int, tolerance as int),
    ensures
        r@.len() == arc_count(radius as int, tolerance as int),
        forall|k: int|
            0 <= k < r@.len() ==> #[trigger] r@[k]@ == arc_vertex_view(
                radius as int,
                tolerance as int,
                k,
            ),
{
    proof {
        lemma_arc_q_bound(radius as int, tolerance as int);
        lemma_arc_m_bound(radius as int, tolerance as int);
    }
    let tol2: i64 = 2 * tolerance;
    let qn: u128 = ((radius as u128) + (tol2 as u128) - 1) / (tol2 as u128);
    let s: u64 = csqrt_u64(qn as u64);
    let m: u64 = if s < 1 {
        1
    } else {
        s
    };
    proof {
        assert(m == arc_m(radius as int, tolerance as int));
    }
    let (xs, ys) = arc_base(radius, m);
    let mut out: Vec<Point<3>> = Vec::new();
    let mut q: u64 = 0;
    while q < 4
        invariant
            0 <= q <= 4,
            1 <= m <= QUARTER_CAP,
            m == arc_m(radius as int, tolerance as int),
            1 <= radius <= COORD_BOUND,
            xs@.len() == m,
            ys@.len() == m,
            forall|i: int| 0 <= i < m ==> #[trigger] xs@[i] == circle_x(radius as int, m as int, i),
            forall|i: int| 0 <= i < m ==> #[trigger] ys@[i] == circle_y(radius as int, m as int, i),
            forall|i: int| 0 <= i < m ==> 0 <= #[trigger] xs@[i] <= radius,
            forall|i: int| 0 <= i < m ==> 0 <= #[trigger] ys@[i] <= radius,
            out@.len() == q * m,
            forall|k: int|
                0 <= k < out@.len() ==> #[trigger] out@[k]@ == arc_vertex_view(
                    radius as int,
                    tolerance as int,
                    k,
                ),
        decreases 4 - q,
    {
        let mut j: u64 = 0;
        while j < m
            invariant
                0 <= j <= m,
                0 <= q < 4,
                1 <= m <= QUARTER_CAP,
                m == arc_m(radius as int, tolerance as int),
                1 <= radius <= COORD_BOUND,
                xs@.len() == m,
                ys@.len() == m,
                forall|i: int|
                    0 <= i < m ==> #[trigger] xs@[i] == circle_x(radius as int, m as int, i),
                forall|i: int|
                    0 <= i < m ==> #[trigger] ys@[i] == circle_y(radius as int, m as int, i),
                forall|i: int| 0 <= i < m ==> 0 <= #[trigger] xs@[i] <= radius,
                forall|i: int| 0 <= i < m ==> 0 <= #[trigger] ys@[i] <= radius,
                out@.len() == q * m + j,
                forall|k: int|
                    0 <= k < out@.len() ==> #[trigger] out@[k]@ == arc_vertex_view(
                        radius as int,
                        tolerance as int,
                        k,
                    ),
            decreases m - j,
        {
            let x: i64 = xs[j as usize];
            let y: i64 = ys[j as usize];
            let p: Point<3> = if q == 0 {
                pt3(x, y, 0)
            } else if q == 1 {
                pt3(-y, x, 0)
            } else if q == 2 {
                pt3(-x, -y, 0)
            } else {
                pt3(y, -x, 0)
            };
            proof {
                let k = q * m + j;
                lemma_fundamental_div_mod_converse(k as int, m as int, q as int, j as int);
                assert(p@ == arc_vertex_view(radius as int, tolerance as int, k as int));
            }
            out.push(p);
            j = j + 1;
        }
        proof {
            assert(((q + 1) as int) * (m as int) == (q as int) * (m as int) + (m as int))
                by (nonlinear_arith);
        }
        q = q + 1;
    }
    out
}

/// Discretization is tolerance-monotonic: at a finer (smaller) tolerance an
/// edge never produces fewer points.
pub proof fn lemma_tolerance_monotonic(e: Edge, t1: int, t2: int)
    requires
        edge_tol_ok(e, t1),
        edge_tol_ok(e, t2),
        t1 <= t2,
    ensures
        edge_count(e, t1) >= edge_count(e, t2),
{
    match e.curve {
        Curve::Arc { radius } => {
            lemma_ceil_div_bounds(radius as int, 2 * t1);
            lemma_ceil_div_bounds(radius as int, 2 * t2);
            lemma_ceil_div_antimonotonic(radius as int, 2 * t1, 2 * t2);
            lemma_csqrt_monotonic(
                ceil_div(radius as int, 2 * t2) as nat,
                ceil_div(radius as int, 2 * t1) as nat,
            );
        },
        Curve::Line { .. } => {},
    }
}

/// Reversing an edge twice yields the identical edge, so its discretization
/// at any tolerance is identical to the original's; a single reversal visits
/// the same points in the opposite order.
pub proof fn lemma_reverse_round_trip(e: Edge, tol: int)
    ensures
        e.spec_reverse().spec_reverse() == e,
        forall|k: int| #[trigger]
            edge_vertex(e.spec_reverse().spec_reverse(), tol, k) == edge_vertex(e, tol, k),
        forall|k: int|
            0 <= k < edge_count(e, tol) ==> #[trigger] edge_vertex(e.spec_reverse(), tol, k)
                == edge_vertex(e, tol, edge_count(e, tol) - 1 - k),
{
}

} // verus!
