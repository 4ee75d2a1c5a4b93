//! Validated triangles.
//!
//! A triangle is three pairwise-distinct, non-collinear points, checked at
//! construction. Collinearity is detected exactly: the normalized direction
//! from the first point to the second must differ from the normalized
//! direction from the second to the third.

use vstd::prelude::*;
use crate::math::{in_bounds, norm_dir, sub_view, Point, COORD_BOUND};

verus! {

/// The error taxonomy of the kernel. Every failure is a value reported to
/// the immediate caller; nothing in the kernel panics or substitutes a
/// default geometry.
#[derive(Clone, Copy, Debug, PartialEq, Eq, Structural)]
pub enum Error {
    /// Two of three points coincide where three distinct points were needed.
    CollapsedPoints,
    /// Three points are collinear where a proper triangle was needed.
    IsALineSegment,
    /// The operation has no defined semantics for this shape.
    Unsupported,
}

/// Two of the three points are exactly equal.
pub open spec fn any_collapsed(a: Seq<i64>, b: Seq<i64>, c: Seq<i64>) -> bool {
    a == b || a == c || b == c
}

/// The exact collinearity test: the normalized direction from `a` to `b`
/// equals the normalized direction from `b` to `c`.
pub open spec fn collinear(a: Seq<i64>, b: Seq<i64>, c: Seq<i64>) -> bool {
    norm_dir(sub_view(b, a)) == norm_dir(sub_view(c, b))
}

/// Three pairwise-distinct, non-collinear points in `D`-space, in the order
/// they were given to the constructor.
pub struct Triangle<const D: usize> {
    points: [Point<D>; 3],
}

impl<const D: usize> Triangle<D> {
    pub closed spec fn spec_points(&self) -> Seq<Point<D>> {
        self.points@
    }

    /// Create a new `Triangle`.
    pub fn new(a: Point<D>, b: Point<D>, c: Point<D>) -> (r: Result<Self, Error>)
        requires
            in_bounds(a@),
            in_bounds(b@),
            in_bounds(c@),
        ensures
            r is Err <==> (any_collapsed(a@, b@, c@) || collinear(a@, b@, c@)),
            (r == Result::<Self, Error>::Err(Error::CollapsedPoints)) <==> any_collapsed(
                a@,
                b@,
                c@,
            ),
            (r == Result::<Self, Error>::Err(Error::IsALineSegment)) <==> (!any_collapsed(
                a@,
                b@,
                c@,
            ) && collinear(a@, b@, c@)),
            r matches Ok(t) ==> t.spec_points() == seq![a, b, c],
    {
        if a.equals(&b) || a.equals(&c) || b.equals(&c) {
            return Err(Error::CollapsedPoints);
        }
        let d0 = b.sub(&a);
        let d1 = c.sub(&b);
        proof {
            lemma_distinct_nonzero_diff(a@, b@);
            lemma_distinct_nonzero_diff(b@, c@);
            assert forall|i: int| 0 <= i < d0@.len() implies #[trigger] d0@[i] != i64::MIN by {
                assert(d0@[i] == sub_view(b@, a@)[i]);
            }
            assert forall|i: int| 0 <= i < d1@.len() implies #[trigger] d1@[i] != i64::MIN by {
                assert(d1@[i] == sub_view(c@, b@)[i]);
            }
        }
        if d0.normalize().equals(&d1.normalize()) {
            return Err(Error::IsALineSegment);
        }
        Ok(Self { points: [a, b, c] })
    }

    /// Return the points of the triangle, in the order they were given.
    pub fn points(&self) -> (r: [Point<D>; 3])
        ensures
            r@ == self.spec_points(),
    {
        self.points
    }
}

/// If two point views differ somewhere, their difference is a nonzero vector.
spec fn is_nonzero_diff(p: Seq<i64>, q: Seq<i64>) -> bool {
    crate::math::is_nonzero(sub_view(q, p))
}

proof fn lemma_distinct_nonzero_diff(p: Seq<i64>, q: Seq<i64>)
    requires
        p.len() == q.len(),
        p != q,
        in_bounds(p),
        in_bounds(q),
    ensures
        is_nonzero_diff(p, q),
{
    if forall|i: int| 0 <= i < p.len() ==> #[trigger] p[i] == q[i] {
        assert(p =~= q);
    }
    let w = choose|i: int| 0 <= i < p.len() && #[trigger] p[i] != q[i];
    assert(-COORD_BOUND <= p[w] <= COORD_BOUND);
    assert(-COORD_BOUND <= q[w] <= COORD_BOUND);
    assert(sub_view(q, p)[w] != 0);
}

} // verus!
