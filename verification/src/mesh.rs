//! Indexed triangle meshes and the deduplicating mesh builder.
//!
//! The builder accepts raw vertex triples and assigns each distinct vertex
//! value a stable index: indices are dense, 0-based, and handed out in
//! first-seen order. Two vertices are the same vertex exactly when all of
//! their components are identical; repeated insertions of an equal value
//! always return the index assigned at the first insertion.

use vstd::prelude::*;
use vstd::arithmetic::div_mod::lemma_fundamental_div_mod_converse;

verus! {

/// A vertex of a triangle mesh: three coordinates in the kernel's unit.
pub type Vertex = [i64; 3];

/// An index referring to a vertex. Fixed at 32 bits so that index buffers
/// have a defined size for downstream consumers.
pub type Index = u32;

/// A triangle of a mesh: three indices into the vertex buffer.
pub type Triangle = [Index; 3];

/// The two vertex values count as the same mesh vertex.
pub open spec fn veq(a: Vertex, b: Vertex) -> bool {
    a@ == b@
}

pub open spec fn contains_vertex(s: Seq<Vertex>, v: Vertex) -> bool {
    exists|i: int| 0 <= i < s.len() && #[trigger] veq(s[i], v)
}

/// The index of the first occurrence of `v` in `s` (or `s.len()` if absent).
pub open spec fn first_index(s: Seq<Vertex>, v: Vertex) -> int
    decreases s.len(),
{
    if s.len() == 0 {
        0
    } else if veq(s[0], v) {
        0
    } else {
        1 + first_index(s.drop_first(), v)
    }
}

/// The vertex buffer after inserting `v`: unchanged if an equal vertex is
/// already present, extended by `v` otherwise.
pub open spec fn vertices_insert(s: Seq<Vertex>, v: Vertex) -> Seq<Vertex> {
    if contains_vertex(s, v) {
        s
    } else {
        s.push(v)
    }
}

/// The index the builder hands out for `v` against buffer `s`.
pub open spec fn vertex_index(s: Seq<Vertex>, v: Vertex) -> int {
    first_index(s, v)
}

pub proof fn lemma_first_index_spec(s: Seq<Vertex>, v: Vertex)
    ensures
        0 <= first_index(s, v) <= s.len(),
        contains_vertex(s, v) ==> first_index(s, v) < s.len() && veq(s[first_index(s, v)], v),
        !contains_vertex(s, v) ==> first_index(s, v) == s.len(),
        forall|j: int| 0 <= j < first_index(s, v) ==> !veq(#[trigger] s[j], v),
    decreases s.len(),
{
    if s.len() == 0 {
    } else if veq(s[0], v) {
    } else {
        lemma_first_index_spec(s.drop_first(), v);
        let t = s.drop_first();
        if contains_vertex(s, v) {
            let w = choose|i: int| 0 <= i < s.len() && #[trigger] veq(s[i], v);
            assert(w != 0);
            assert(veq(t[w - 1], v));
        }
        if contains_vertex(t, v) {
            let w = choose|i: int| 0 <= i < t.len() && #[trigger] veq(t[i], v);
            assert(veq(s[w + 1], v));
        }
        assert forall|j: int| 0 <= j < first_index(s, v) implies !veq(#[trigger] s[j], v) by {
            if j > 0 {
                assert(t[j - 1] == s[j]);
            }
        }
    }
}

/// A position `i` that holds `v` with no earlier occurrence is the first index.
pub proof fn lemma_first_index_at(s: Seq<Vertex>, v: Vertex, i: int)
    requires
        0 <= i < s.len(),
        veq(s[i], v),
        forall|j: int| 0 <= j < i ==> !veq(#[trigger] s[j], v),
    ensures
        first_index(s, v) == i,
{
    lemma_first_index_spec(s, v);
    let f = first_index(s, v);
    if f < i {
        assert(!veq(s[f], v));
    }
}

/// Managed, deduplicated mesh vertices.
pub struct Vertices {
    vertices: Vec<Vertex>,
}

fn vertex_eq(a: &Vertex, b: &Vertex) -> (r: bool)
    ensures
        r == veq(*a, *b),
{
    let r = a[0] == b[0] && a[1] == b[1] && a[2] == b[2];
    proof {
        if r {
            assert(a@ =~= b@);
        } else {
            assert(a@ != b@) by {
                if a@ == b@ {
                    assert(a@[0] == b@[0] && a@[1] == b@[1] && a@[2] == b@[2]);
                }
            }
        }
    }
    r
}

impl Vertices {
    pub closed spec fn spec_vertices(&self) -> Seq<Vertex> {
        self.vertices@
    }

    pub fn new() -> (r: Vertices)
        ensures
            r.spec_vertices() == Seq::<Vertex>::empty(),
    {
        Vertices { vertices: Vec::new() }
    }

    /// The stable index for this vertex value: the index assigned when an
    /// equal value was first inserted, or the next dense index for a new one.
    pub fn index_for_vertex(&mut self, vertex: Vertex) -> (r: Index)
        requires
            old(self).spec_vertices().len() < 0xffff_ffff,
        ensures
            final(self).spec_vertices() == vertices_insert(old(self).spec_vertices(), vertex),
            r as int == vertex_index(old(self).spec_vertices(), vertex),
    {
        let n: usize = self.vertices.len();
        let mut i: usize = 0;
        while i < n
            invariant
                0 <= i <= n,
                n == self.spec_vertices().len(),
                n < 0xffff_ffff,
                forall|j: int| 0 <= j < i ==> !veq(#[trigger] self.spec_vertices()[j], vertex),
            decreases n - i,
        {
            if vertex_eq(&self.vertices[i], &vertex) {
                proof {
                    lemma_first_index_at(self.spec_vertices(), vertex, i as int);
                }
                return i as u32;
            }
            i = i + 1;
        }
        proof {
            lemma_first_index_spec(self.spec_vertices(), vertex);
            if contains_vertex(self.spec_vertices(), vertex) {
                let w = choose|k: int|
                    0 <= k < self.spec_vertices().len() && #[trigger] veq(
                        self.spec_vertices()[k],
                        vertex,
                    );
                assert(!veq(self.spec_vertices()[w], vertex));
            }
        }
        self.vertices.push(vertex);
        n as u32
    }

    /// Finalize: the deduplicated vertex buffer in first-seen order.
    pub fn into_vec(self) -> (r: Vec<Vertex>)
        ensures
            r@ == self.spec_vertices(),
    {
        self.vertices
    }
}

/// Inserting a value that is already present returns the original index and
/// leaves the buffer unchanged, so the buffer keeps exactly one copy of each
/// distinct vertex value however often it is pushed.
pub proof fn lemma_insert_idempotent(s: Seq<Vertex>, v: Vertex)
    ensures
        vertices_insert(vertices_insert(s, v), v) == vertices_insert(s, v),
        vertex_index(vertices_insert(s, v), v) == vertex_index(s, v),
        !contains_vertex(s, v) ==> forall|j: int|
            0 <= j < vertices_insert(s, v).len() && j != vertex_index(s, v) ==> !veq(
                #[trigger] vertices_insert(s, v)[j],
                v,
            ),
{
    lemma_first_index_spec(s, v);
    if contains_vertex(s, v) {
    } else {
        let s1 = s.push(v);
        assert(veq(s1[s.len() as int], v));
        assert(contains_vertex(s1, v));
        lemma_first_index_at(s1, v, s.len() as int);
    }
}

/// Index assignment is deterministic and first-seen: from an empty buffer,
/// inserting `v0`, `v1`, then `v0` again yields indices `0`, `1`, `0`, and
/// the final buffer is exactly `[v0, v1]`.
pub proof fn lemma_first_seen_order(v0: Vertex, v1: Vertex)
    requires
        !veq(v0, v1),
    ensures
        ({
            let s0 = Seq::<Vertex>::empty();
            let s1 = vertices_insert(s0, v0);
            let s2 = vertices_insert(s1, v1);
            &&& vertex_index(s0, v0) == 0
            &&& vertex_index(s1, v1) == 1
            &&& vertex_index(s2, v0) == 0
            &&& vertices_insert(s2, v0) == s2
            &&& s2 =~= seq![v0, v1]
        }),
{
    let s0 = Seq::<Vertex>::empty();
    assert(!contains_vertex(s0, v0));
    let s1 = vertices_insert(s0, v0);
    assert(s1 =~= seq![v0]);
    assert(veq(s1[0], v0));
    assert(!contains_vertex(s1, v1)) by {
        if contains_vertex(s1, v1) {
            let w = choose|i: int| 0 <= i < s1.len() && #[trigger] veq(s1[i], v1);
            assert(veq(s1[0], v1));
        }
    }
    let s2 = vertices_insert(s1, v1);
    assert(s2 =~= seq![v0, v1]);
    lemma_first_index_at(s2, v0, 0);
    assert(contains_vertex(s2, v0)) by {
        assert(veq(s2[0], v0));
    }
    lemma_first_index_spec(s1, v1);
}

/// A triangle mesh: a deduplicated vertex buffer and index triples into it.
#[derive(Debug)]
pub struct Mesh {
    vertices: Vec<Vertex>,
    triangles: Vec<Triangle>,
}

impl Mesh {
    pub closed spec fn spec_vertices(&self) -> Seq<Vertex> {
        self.vertices@
    }

    pub closed spec fn spec_triangles(&self) -> Seq<Triangle> {
        self.triangles@
    }

    /// The vertices that make up the triangle mesh.
    pub fn vertices(&self) -> (r: &Vec<Vertex>)
        ensures
            r@ == self.spec_vertices(),
    {
        &self.vertices
    }

    /// The flattened index buffer: three indices per triangle, in order.
    pub fn indices(&self) -> (r: Vec<Index>)
        ensures
            r@.len() == 3 * self.spec_triangles().len(),
            forall|i: int|
                0 <= i < r@.len() ==> #[trigger] r@[i] == self.spec_triangles()[i / 3]@[i % 3],
    {
        let mut out: Vec<Index> = Vec::new();
        let n: usize = self.triangles.len();
        let mut t: usize = 0;
        while t < n
            invariant
                0 <= t <= n,
                n == self.spec_triangles().len(),
                out@.len() == 3 * t,
                forall|i: int|
                    0 <= i < out@.len() ==> #[trigger] out@[i] == self.spec_triangles()[i / 3]@[i
                        % 3],
            decreases n - t,
        {
            let tri: Triangle = self.triangles[t];
            out.push(tri[0]);
            out.push(tri[1]);
            out.push(tri[2]);
            proof {
                lemma_fundamental_div_mod_converse(3 * t as int, 3, t as int, 0);
                lemma_fundamental_div_mod_converse(3 * t as int + 1, 3, t as int, 1);
                lemma_fundamental_div_mod_converse(3 * t as int + 2, 3, t as int, 2);
            }
            t = t + 1;
        }
        out
    }
}

/// API for building a `Mesh` from raw triangles.
pub struct MeshMaker {
    vertices: Vertices,
    triangles: Vec<Triangle>,
}

impl MeshMaker {
    pub closed spec fn spec_vertices(&self) -> Seq<Vertex> {
        self.vertices.spec_vertices()
    }

    pub closed spec fn spec_triangles(&self) -> Seq<Triangle> {
        self.triangles@
    }

    /// Create a new instance of `MeshMaker`.
    pub fn new() -> (r: MeshMaker)
        ensures
            r.spec_vertices() == Seq::<Vertex>::empty(),
            r.spec_triangles() == Seq::<Triangle>::empty(),
    {
        MeshMaker { vertices: Vertices::new(), triangles: Vec::new() }
    }

    /// Add a triangle to the mesh: each corner is deduplicated against the
    /// vertex buffer and the three resulting indices are recorded.
    pub fn triangle(&mut self, triangle: [Vertex; 3])
        requires
            old(self).spec_vertices().len() + 3 < 0xffff_ffff,
        ensures
            ({
                let s0 = old(self).spec_vertices();
                let s1 = vertices_insert(s0, triangle[0]);
                let s2 = vertices_insert(s1, triangle[1]);
                let s3 = vertices_insert(s2, triangle[2]);
                &&& final(self).spec_vertices() == s3
                &&& final(self).spec_triangles().len() == old(self).spec_triangles().len() + 1
                &&& forall|i: int|
                    0 <= i < old(self).spec_triangles().len()
                        ==> #[trigger] final(self).spec_triangles()[i] == old(
                        self,
                    ).spec_triangles()[i]
                &&& final(self).spec_triangles().last()@ == seq![
                    vertex_index(s0, triangle[0]) as u32,
                    vertex_index(s1, triangle[1]) as u32,
                    vertex_index(s2, triangle[2]) as u32,
                ]
            }),
    {
        proof {
            lemma_first_index_spec(self.spec_vertices(), triangle[0]);
        }
        let i0: Index = self.vertices.index_for_vertex(triangle[0]);
        proof {
            lemma_first_index_spec(self.spec_vertices(), triangle[1]);
        }
        let i1: Index = self.vertices.index_for_vertex(triangle[1]);
        proof {
            lemma_first_index_spec(self.spec_vertices(), triangle[2]);
        }
        let i2: Index = self.vertices.index_for_vertex(triangle[2]);
        let mut tri: Triangle = vstd::array::array_fill_for_copy_types(0u32);
        tri[0] = i0;
        tri[1] = i1;
        tri[2] = i2;
        proof {
            assert(tri@ =~= seq![i0, i1, i2]);
        }
        self.triangles.push(tri);
    }

    /// Finalize the mesh; the builder is consumed.
    pub fn make(self) -> (m: Mesh)
        ensures
            m.spec_vertices() == self.spec_vertices(),
            m.spec_triangles() == self.spec_triangles(),
    {
        Mesh { vertices: self.vertices.into_vec(), triangles: self.triangles }
    }
}

} // verus!
