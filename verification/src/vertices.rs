//! Conversion of a triangle soup into deduplicated render vertices.
//!
//! Every triangle contributes its three corners, each carrying the
//! triangle's face normal (the exactly-normalized cross product of two edge
//! vectors; a degenerate triangle gets the zero normal) and a fixed color.
//! Corners that agree in both position and normal are merged into a single
//! vertex; the index run references the merged buffer, three indices per
//! triangle.

use vstd::prelude::*;
use crate::math::{cross_view, is_nonzero, norm_dir, sub_view, Vector};
use crate::mesh::Index;
use crate::shapes::SurfaceTriangle;

verus! {

/// Corner coordinates handed to the converter stay within this bound, so
/// that cross products of edge vectors fit the coordinate type.
pub const RENDER_BOUND: i64 = 0x2000_0000;

/// A render vertex: position, face normal, color.
#[derive(Clone, Copy, Debug)]
pub struct Vertex {
    pub position: [i64; 3],
    pub normal: [i64; 3],
    pub color: [u8; 4],
}

pub open spec fn red_color() -> Seq<u8> {
    seq![255u8, 0u8, 0u8, 255u8]
}

/// Two render vertices are merged when position and normal agree.
pub open spec fn rec_eq(a: Vertex, b: Vertex) -> bool {
    a.position@ == b.position@ && a.normal@ == b.normal@
}

/// The vertex stands for the corner with this position and normal.
pub open spec fn rec_matches(v: Vertex, pos: Seq<i64>, nrm: Seq<i64>) -> bool {
    v.position@ == pos && v.normal@ == nrm
}

pub open spec fn no_dups(s: Seq<Vertex>) -> bool {
    forall|i: int, j: int| 0 <= i < j < s.len() ==> !rec_eq(#[trigger] s[i], #[trigger] s[j])
}

pub open spec fn all_red(s: Seq<Vertex>) -> bool {
    forall|i: int| 0 <= i < s.len() ==> (#[trigger] s[i]).color@ == red_color()
}

pub open spec fn pt_bounded(p: Seq<i64>) -> bool {
    forall|i: int| 0 <= i < p.len() ==> -RENDER_BOUND <= #[trigger] p[i] <= RENDER_BOUND
}

pub open spec fn tri_bounded(t: SurfaceTriangle) -> bool {
    pt_bounded(t.a@) && pt_bounded(t.b@) && pt_bounded(t.c@)
}

/// The face normal of a corner triple: the exactly-normalized cross product
/// of the two edge vectors out of the first corner, or the zero vector for
/// a degenerate triple.
pub open spec fn normal_view(a: Seq<i64>, b: Seq<i64>, c: Seq<i64>) -> Seq<i64> {
    let n = cross_view(sub_view(b, a), sub_view(c, a));
    if is_nonzero(n) {
        norm_dir(n)
    } else {
        n
    }
}

/// The corner position the `i`-th emitted index stands for.
pub open spec fn corner_position(ts: Seq<SurfaceTriangle>, i: int) -> Seq<i64> {
    let t = ts[i / 3];
    if i % 3 == 0 {
        t.a@
    } else if i % 3 == 1 {
        t.b@
    } else {
        t.c@
    }
}

pub open spec fn corner_normal(ts: Seq<SurfaceTriangle>, i: int) -> Seq<i64> {
    let t = ts[i / 3];
    normal_view(t.a@, t.b@, t.c@)
}

fn vec_nonzero(v: &Vector<3>) -> (r: bool)
    ensures
        r == is_nonzero(v@),
{
    let r = v.coords[0] != 0 || v.coords[1] != 0 || v.coords[2] != 0;
    proof {
        if r {
            assert(is_nonzero(v@)) by {
                if v@[0] != 0 {
                } else if v@[1] != 0 {
                } else {
                    assert(v@[2] != 0);
                }
            }
        } else {
            if is_nonzero(v@) {
                let w = choose|i: int| 0 <= i < v@.len() && #[trigger] v@[i] != 0;
                assert(0 <= w < 3);
            }
        }
    }
    r
}

/// The face normal of a triangle, exactly normalized.
fn triangle_normal(t: &SurfaceTriangle) -> (n: Vector<3>)
    requires
        tri_bounded(*t),
    ensures
        n@ == normal_view(t.a@, t.b@, t.c@),
{
    let u: Vector<3> = t.b.sub(&t.a);
    let v: Vector<3> = t.c.sub(&t.a);
    proof {
        assert forall|i: int| 0 <= i < 3 implies -crate::math::CROSS_BOUND <= #[trigger] u@[i]
            <= crate::math::CROSS_BOUND by {
            assert(u@[i] == sub_view(t.b@, t.a@)[i]);
        }
        assert forall|i: int| 0 <= i < 3 implies -crate::math::CROSS_BOUND <= #[trigger] v@[i]
            <= crate::math::CROSS_BOUND by {
            assert(v@[i] == sub_view(t.c@, t.a@)[i]);
        }
    }
    let c: Vector<3> = crate::math::cross3(&u, &v);
    if vec_nonzero(&c) {
        proof {
            assert forall|i: int| 0 <= i < c@.len() implies #[trigger] c@[i] != i64::MIN by {
                assert(c@[i] == cross_view(u@, v@)[i]);
                assert(-0x1000_0000_0000_0000 <= u@[1] * v@[2] <= 0x1000_0000_0000_0000)
                    by (nonlinear_arith)
                    requires -0x4000_0000 <= u@[1] <= 0x4000_0000, -0x4000_0000 <= v@[2]
                        <= 0x4000_0000,
                ;
                assert(-0x1000_0000_0000_0000 <= u@[2] * v@[1] <= 0x1000_0000_0000_0000)
                    by (nonlinear_arith)
                    requires -0x4000_0000 <= u@[2] <= 0x4000_0000, -0x4000_0000 <= v@[1]
                        <= 0x4000_0000,
                ;
                assert(-0x1000_0000_0000_0000 <= u@[2] * v@[0] <= 0x1000_0000_0000_0000)
                    by (nonlinear_arith)
                    requires -0x4000_0000 <= u@[2] <= 0x4000_0000, -0x4000_0000 <= v@[0]
                        <= 0x4000_0000,
                ;
                assert(-0x1000_0000_0000_0000 <= u@[0] * v@[2] <= 0x1000_0000_0000_0000)
                    by (nonlinear_arith)
                    requires -0x4000_0000 <= u@[0] <= 0x4000_0000, -0x4000_0000 <= v@[2]
                        <= 0x4000_0000,
                ;
                assert(-0x1000_0000_0000_0000 <= u@[0] * v@[1] <= 0x1000_0000_0000_0000)
                    by (nonlinear_arith)
                    requires -0x4000_0000 <= u@[0] <= 0x4000_0000, -0x4000_0000 <= v@[1]
                        <= 0x4000_0000,
                ;
                assert(-0x1000_0000_0000_0000 <= u@[1] * v@[0] <= 0x1000_0000_0000_0000)
                    by (nonlinear_arith)
                    requires -0x4000_0000 <= u@[1] <= 0x4000_0000, -0x4000_0000 <= v@[0]
                        <= 0x4000_0000,
                ;
            }
        }
        c.normalize()
    } else {
        c
    }
}

/// Deduplicated render vertices with their index run.
#[derive(Debug)]
pub struct Vertices {
    vertices: Vec<Vertex>,
    indices: Vec<Index>,
}

fn record_index(vertices: &mut Vec<Vertex>, rec: Vertex) -> (r: Index)
    requires
        no_dups(old(vertices)@),
        all_red(old(vertices)@),
        old(vertices)@.len() < 0xffff_ffff,
        rec.color@ == red_color(),
    ensures
        no_dups(final(vertices)@),
        all_red(final(vertices)@),
        old(vertices)@.len() <= final(vertices)@.len() <= old(vertices)@.len() + 1,
        forall|j: int| 0 <= j < old(vertices)@.len() ==> #[trigger] final(vertices)@[j] == old(
            vertices,
        )@[j],
        (r as int) < final(vertices)@.len(),
        rec_eq(final(vertices)@[r as int], rec),
        forall|j: int| 0 <= j < r as int ==> !rec_eq(#[trigger] final(vertices)@[j], rec),
{
    let n: usize = vertices.len();
    let mut i: usize = 0;
    while i < n
        invariant
            0 <= i <= n,
            n == vertices@.len(),
            n < 0xffff_ffff,
            vertices@ == old(vertices)@,
            no_dups(vertices@),
            all_red(vertices@),
            forall|j: int| 0 <= j < i ==> !rec_eq(#[trigger] vertices@[j], rec),
        decreases n - i,
    {
        let cand: &Vertex = &vertices[i];
        let same: bool = cand.position[0] == rec.position[0] && cand.position[1] == rec.position[1]
            && cand.position[2] == rec.position[2] && cand.normal[0] == rec.normal[0]
            && cand.normal[1] == rec.normal[1] && cand.normal[2] == rec.normal[2];
        proof {
            if same {
                assert(cand.position@ =~= rec.position@);
                assert(cand.normal@ =~= rec.normal@);
            } else {
                if rec_eq(*cand, rec) {
                    assert(cand.position@[0] == rec.position@[0]);
                    assert(cand.position@[1] == rec.position@[1]);
                    assert(cand.position@[2] == rec.position@[2]);
                    assert(cand.normal@[0] == rec.normal@[0]);
                    assert(cand.normal@[1] == rec.normal@[1]);
                    assert(cand.normal@[2] == rec.normal@[2]);
                }
            }
        }
        if same {
            return i as u32;
        }
        i = i + 1;
    }
    vertices.push(rec);
    n as u32
}

impl Vertices {
    pub closed spec fn spec_vertices(&self) -> Seq<Vertex> {
        self.vertices@
    }

    pub closed spec fn spec_indices(&self) -> Seq<Index> {
        self.indices@
    }

    /// A mesh with no vertices and no indices.
    pub fn empty() -> (r: Vertices)
        ensures
            r.spec_vertices() == Seq::<Vertex>::empty(),
            r.spec_indices() == Seq::<Index>::empty(),
    {
        Vertices { vertices: Vec::new(), indices: Vec::new() }
    }

    /// The deduplicated vertex buffer.
    pub fn vertices(&self) -> (r: &Vec<Vertex>)
        ensures
            r@ == self.spec_vertices(),
    {
        &self.vertices
    }

    /// The index run: three indices per input triangle.
    pub fn indices(&self) -> (r: &Vec<Index>)
        ensures
            r@ == self.spec_indices(),
    {
        &self.indices
    }

    /// Convert a triangle soup into deduplicated render vertices: each
    /// corner carries its triangle's face normal and the fixed color;
    /// corners equal in position and normal share one vertex.
    pub fn from(triangles: &Vec<SurfaceTriangle>) -> (r: Vertices)
        requires
            forall|i: int| 0 <= i < triangles@.len() ==> tri_bounded(#[trigger] triangles@[i]),
            triangles@.len() <= 0x1000_0000,
        ensures
            r.spec_indices().len() == 3 * triangles@.len(),
            no_dups(r.spec_vertices()),
            all_red(r.spec_vertices()),
            r.spec_vertices().len() <= 3 * triangles@.len(),
            forall|i: int|
                0 <= i < r.spec_indices().len() ==> (#[trigger] r.spec_indices()[i] as int)
                    < r.spec_vertices().len(),
            forall|i: int|
                0 <= i < r.spec_indices().len() ==> r.spec_vertices()[
                    #[trigger] r.spec_indices()[i] as int
                ].position@ == corner_position(triangles@, i),
            forall|i: int|
                0 <= i < r.spec_indices().len() ==> r.spec_vertices()[
                    #[trigger] r.spec_indices()[i] as int
                ].normal@ == corner_normal(triangles@, i),
            forall|i: int, j: int|
                0 <= i < r.spec_indices().len() && 0 <= j < #[trigger] r.spec_indices()[i] as int
                    ==> !rec_matches(
                    #[trigger] r.spec_vertices()[j],
                    corner_position(triangles@, i),
                    corner_normal(triangles@, i),
                ),
    {
        let mut vertices: Vec<Vertex> = Vec::new();
        let mut indices: Vec<Index> = Vec::new();
        let n: usize = triangles.len();
        let mut t: usize = 0;
        while t < n
            invariant
                0 <= t <= n,
                n == triangles@.len(),
                n <= 0x1000_0000,
                forall|i: int| 0 <= i < triangles@.len() ==> tri_bounded(#[trigger] triangles@[i]),
                indices@.len() == 3 * t,
                vertices@.len() <= 3 * t,
                no_dups(vertices@),
                all_red(vertices@),
                forall|i: int|
                    0 <= i < indices@.len() ==> (#[trigger] indices@[i] as int) < vertices@.len(),
                forall|i: int|
                    0 <= i < indices@.len() ==> vertices@[#[trigger] indices@[i] as int].position@
                        == corner_position(triangles@, i),
                forall|i: int|
                    0 <= i < indices@.len() ==> vertices@[#[trigger] indices@[i] as int].normal@
                        == corner_normal(triangles@, i),
                forall|i: int, j: int|
                    0 <= i < indices@.len() && 0 <= j < #[trigger] indices@[i] as int
                        ==> !rec_matches(
                        #[trigger] vertices@[j],
                        corner_position(triangles@, i),
                        corner_normal(triangles@, i),
                    ),
            decreases n - t,
        {
            let tri: SurfaceTriangle = triangles[t];
            let nv: Vector<3> = triangle_normal(&tri);
            let mut color: [u8; 4] = vstd::array::array_fill_for_copy_types(0u8);
            color[0] = 255;
            color[3] = 255;
            proof {
                assert(color@ =~= red_color());
            }
            let ra = Vertex { position: tri.a.coords, normal: nv.coords, color };
            let rb = Vertex { position: tri.b.coords, normal: nv.coords, color };
            let rc = Vertex { position: tri.c.coords, normal: nv.coords, color };
            let ia: Index = record_index(&mut vertices, ra);
            let ib: Index = record_index(&mut vertices, rb);
            let ic: Index = record_index(&mut vertices, rc);
            indices.push(ia);
            indices.push(ib);
            indices.push(ic);
            proof {
                vstd::arithmetic::div_mod::lemma_fundamental_div_mod_converse(
                    3 * t as int,
                    3,
                    t as int,
                    0,
                );
                vstd::arithmetic::div_mod::lemma_fundamental_div_mod_converse(
                    3 * t as int + 1,
                    3,
                    t as int,
                    1,
                );
                vstd::arithmetic::div_mod::lemma_fundamental_div_mod_converse(
                    3 * t as int + 2,
                    3,
                    t as int,
                    2,
                );
            }
            t = t + 1;
        }
        Vertices { vertices, indices }
    }
}

} // verus!
