//! Fixed-dimension lattice points and vectors.
//!
//! Coordinates are plain `i64` values in the kernel's common unit. A vector
//! is normalized exactly: every component is divided by the greatest common
//! divisor of the components' magnitudes, so two vectors point in the same
//! direction (with the same orientation) exactly when their normalized forms
//! are equal. This gives the kernel an exact, total direction comparison
//! with no rounding.

use vstd::prelude::*;
use crate::num::{gcd, gcd_u64};

verus! {

/// Coordinates handed to the kernel must stay within this bound so that
/// differences of two coordinates never overflow `i64`.
pub const COORD_BOUND: i64 = 0x3fff_ffff_ffff_ffff;

/// A point with `D` integer coordinates.
#[derive(Clone, Copy, Debug)]
pub struct Point<const D: usize> {
    pub coords: [i64; D],
}

/// A displacement with `D` integer coordinates.
#[derive(Clone, Copy, Debug)]
pub struct Vector<const D: usize> {
    pub coords: [i64; D],
}

impl<const D: usize> View for Point<D> {
    type V = Seq<i64>;

    open spec fn view(&self) -> Seq<i64> {
        self.coords@
    }
}

impl<const D: usize> View for Vector<D> {
    type V = Seq<i64>;

    open spec fn view(&self) -> Seq<i64> {
        self.coords@
    }
}

/// All components within `COORD_BOUND` in magnitude.
pub open spec fn in_bounds(v: Seq<i64>) -> bool {
    forall|i: int| 0 <= i < v.len() ==> -COORD_BOUND <= #[trigger] v[i] <= COORD_BOUND
}

/// Componentwise difference `p - q`.
pub open spec fn sub_view(p: Seq<i64>, q: Seq<i64>) -> Seq<i64> {
    Seq::new(p.len(), |i: int| (p[i] - q[i]) as i64)
}

pub open spec fn sabs(x: int) -> int {
    if x < 0 {
        -x
    } else {
        x
    }
}

/// Division truncating toward zero, for a positive divisor.
pub open spec fn tdiv(a: int, g: int) -> int {
    if a >= 0 {
        a / g
    } else {
        -((-a) / g)
    }
}

/// Greatest common divisor of the magnitudes of the components.
pub open spec fn seq_gcd(v: Seq<i64>) -> nat
    decreases v.len(),
{
    if v.len() == 0 {
        0
    } else {
        gcd(sabs(v[0] as int) as nat, seq_gcd(v.drop_first()))
    }
}

pub open spec fn is_nonzero(v: Seq<i64>) -> bool {
    exists|i: int| 0 <= i < v.len() && #[trigger] v[i] != 0
}

/// No component is `i64::MIN`, so every component can be negated.
pub open spec fn neg_safe(v: Seq<i64>) -> bool {
    forall|i: int| 0 <= i < v.len() ==> #[trigger] v[i] != i64::MIN
}

/// The primitive vector with the same direction and orientation as `v`:
/// every component divided by the gcd of the components' magnitudes.
/// The zero vector is left unchanged.
pub open spec fn norm_dir(v: Seq<i64>) -> Seq<i64> {
    let g = seq_gcd(v) as int;
    if g == 0 {
        v
    } else {
        Seq::new(v.len(), |i: int| tdiv(v[i] as int, g) as i64)
    }
}

proof fn lemma_gcd_zero(a: nat, b: nat)
    requires
        gcd(a, b) == 0,
    ensures
        a == 0 && b == 0,
    decreases b,
{
    if b != 0 {
        lemma_gcd_zero(b, a % b);
    }
}

proof fn lemma_seq_gcd_zero(v: Seq<i64>)
    requires
        seq_gcd(v) == 0,
    ensures
        forall|i: int| 0 <= i < v.len() ==> #[trigger] v[i] == 0,
    decreases v.len(),
{
    if v.len() > 0 {
        lemma_gcd_zero(sabs(v[0] as int) as nat, seq_gcd(v.drop_first()));
        lemma_seq_gcd_zero(v.drop_first());
        assert forall|i: int| 0 <= i < v.len() implies #[trigger] v[i] == 0 by {
            if i > 0 {
                assert(v.drop_first()[i - 1] == 0);
            }
        }
    }
}

impl<const D: usize> Point<D> {
    pub fn new(coords: [i64; D]) -> (r: Point<D>)
        ensures
            r@ == coords@,
    {
        Point { coords }
    }

    /// Exact componentwise equality.
    pub fn equals(&self, other: &Point<D>) -> (r: bool)
        ensures
            r == (self@ == other@),
    {
        let mut i: usize = 0;
        while i < D
            invariant
                0 <= i <= D,
                forall|j: int| 0 <= j < i ==> self@[j] == other@[j],
        decreases D - i,
        {
            if self.coords[i] != other.coords[i] {
                return false;
            }
            i = i + 1;
        }
        proof {
            assert(self@ =~= other@);
        }
        true
    }

    /// The displacement from `other` to `self`.
    pub fn sub(&self, other: &Point<D>) -> (r: Vector<D>)
        requires
            in_bounds(self@),
            in_bounds(other@),
        ensures
            r@ == sub_view(self@, other@),
    {
        let mut out: [i64; D] = vstd::array::array_fill_for_copy_types(0i64);
        let mut i: usize = 0;
        while i < D
            invariant
                0 <= i <= D,
                out@.len() == D,
                in_bounds(self@),
                in_bounds(other@),
                forall|j: int| 0 <= j < i ==> out@[j] == sub_view(self@, other@)[j],
            decreases D - i,
        {
            let v: i64 = self.coords[i] - other.coords[i];
            out[i] = v;
            i = i + 1;
        }
        proof {
            assert(out@ =~= sub_view(self@, other@));
        }
        Vector { coords: out }
    }
}

/// Cross products are only taken of vectors within this bound, so the
/// products fit the coordinate type.
pub const CROSS_BOUND: i64 = 0x4000_0000;

/// The three-dimensional cross product, componentwise.
pub open spec fn cross_view(u: Seq<i64>, v: Seq<i64>) -> Seq<i64> {
    seq![
        (u[1] * v[2] - u[2] * v[1]) as i64,
        (u[2] * v[0] - u[0] * v[2]) as i64,
        (u[0] * v[1] - u[1] * v[0]) as i64,
    ]
}

fn cross_comp(a: i64, b: i64, c: i64, d: i64) -> (r: i64)
    requires
        -CROSS_BOUND <= a <= CROSS_BOUND,
        -CROSS_BOUND <= b <= CROSS_BOUND,
        -CROSS_BOUND <= c <= CROSS_BOUND,
        -CROSS_BOUND <= d <= CROSS_BOUND,
    ensures
        r == (a as int) * (b as int) - (c as int) * (d as int),
{
    proof {
        assert(-(0x4000_0000 * 0x4000_0000) <= (a as int) * (b as int) <= 0x4000_0000
            * 0x4000_0000) by (nonlinear_arith)
            requires -0x4000_0000 <= a <= 0x4000_0000, -0x4000_0000 <= b <= 0x4000_0000,
        ;
        assert(-(0x4000_0000 * 0x4000_0000) <= (c as int) * (d as int) <= 0x4000_0000
            * 0x4000_0000) by (nonlinear_arith)
            requires -0x4000_0000 <= c <= 0x4000_0000, -0x4000_0000 <= d <= 0x4000_0000,
        ;
    }
    ((a as i128) * (b as i128) - (c as i128) * (d as i128)) as i64
}

/// The cross product of two 3-vectors.
pub fn cross3(u: &Vector<3>, v: &Vector<3>) -> (r: Vector<3>)
    requires
        forall|i: int| 0 <= i < 3 ==> -CROSS_BOUND <= #[trigger] u@[i] <= CROSS_BOUND,
        forall|i: int| 0 <= i < 3 ==> -CROSS_BOUND <= #[trigger] v@[i] <= CROSS_BOUND,
    ensures
        r@ == cross_view(u@, v@),
{
    proof {
        assert(-CROSS_BOUND <= u@[0] <= CROSS_BOUND);
        assert(-CROSS_BOUND <= u@[1] <= CROSS_BOUND);
        assert(-CROSS_BOUND <= u@[2] <= CROSS_BOUND);
        assert(-CROSS_BOUND <= v@[0] <= CROSS_BOUND);
        assert(-CROSS_BOUND <= v@[1] <= CROSS_BOUND);
        assert(-CROSS_BOUND <= v@[2] <= CROSS_BOUND);
    }
    let x: i64 = cross_comp(u.coords[1], v.coords[2], u.coords[2], v.coords[1]);
    let y: i64 = cross_comp(u.coords[2], v.coords[0], u.coords[0], v.coords[2]);
    let z: i64 = cross_comp(u.coords[0], v.coords[1], u.coords[1], v.coords[0]);
    let mut c: [i64; 3] = vstd::array::array_fill_for_copy_types(0i64);
    c[0] = x;
    c[1] = y;
    c[2] = z;
    proof {
        assert(c@ =~= cross_view(u@, v@));
    }
    Vector { coords: c }
}

/// Build a three-dimensional point from its coordinates.
pub fn pt3(x: i64, y: i64, z: i64) -> (p: Point<3>)
    ensures
        p@ == seq![x, y, z],
{
    let mut c: [i64; 3] = vstd::array::array_fill_for_copy_types(0i64);
    c[0] = x;
    c[1] = y;
    c[2] = z;
    proof {
        assert(c@ =~= seq![x, y, z]);
    }
    Point { coords: c }
}

impl<const D: usize> Vector<D> {
    /// Exact componentwise equality.
    pub fn equals(&self, other: &Vector<D>) -> (r: bool)
        ensures
            r == (self@ == other@),
    {
        let mut i: usize = 0;
        while i < D
            invariant
                0 <= i <= D,
                forall|j: int| 0 <= j < i ==> self@[j] == other@[j],
            decreases D - i,
        {
            if self.coords[i] != other.coords[i] {
                return false;
            }
            i = i + 1;
        }
        proof {
            assert(self@ =~= other@);
        }
        true
    }

    /// The gcd of the components' magnitudes.
    fn magnitude_gcd(&self) -> (g: u64)
        requires
            neg_safe(self@),
        ensures
            g == seq_gcd(self@),
    {
        let mut g: u64 = 0;
        let mut i: usize = D;
        proof {
            assert(self@.subrange(D as int, D as int) =~= Seq::<i64>::empty());
        }
        while i > 0
            invariant
                0 <= i <= D,
                neg_safe(self@),
                g == seq_gcd(self@.subrange(i as int, D as int)),
            decreases i,
        {
            i = i - 1;
            let c: i64 = self.coords[i];
            let mag: u64 = if c < 0 {
                (-c) as u64
            } else {
                c as u64
            };
            g = gcd_u64(mag, g);
            proof {
                let tail = self@.subrange(i + 1, D as int);
                let cur = self@.subrange(i as int, D as int);
                assert(cur.drop_first() =~= tail);
                assert(cur[0] == self@[i as int]);
            }
        }
        proof {
            assert(self@.subrange(0, D as int) =~= self@);
        }
        g
    }

    /// The primitive vector with the same direction and orientation:
    /// every component divided by the gcd of the components' magnitudes.
    pub fn normalize(&self) -> (r: Vector<D>)
        requires
            neg_safe(self@),
            is_nonzero(self@),
        ensures
            r@ == norm_dir(self@),
    {
        let g: u64 = self.magnitude_gcd();
        proof {
            if g == 0 {
                lemma_seq_gcd_zero(self@);
                let w = choose|i: int| 0 <= i < self@.len() && #[trigger] self@[i] != 0;
                assert(self@[w] == 0);
            }
        }
        let mut out: [i64; D] = vstd::array::array_fill_for_copy_types(0i64);
        let mut i: usize = 0;
        while i < D
            invariant
                0 <= i <= D,
                out@.len() == D,
                neg_safe(self@),
                g == seq_gcd(self@),
                g >= 1,
                forall|j: int| 0 <= j < i ==> out@[j] == norm_dir(self@)[j],
            decreases D - i,
        {
            let c: i64 = self.coords[i];
            let q: i64 = if c < 0 {
                let m: u64 = (-c) as u64;
                -((m / g) as i64)
            } else {
                let m: u64 = c as u64;
                (m / g) as i64
            };
            out[i] = q;
            i = i + 1;
        }
        proof {
            assert(out@ =~= norm_dir(self@));
        }
        Vector { coords: out }
    }
}

} // verus!
