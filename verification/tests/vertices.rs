use fj_kernel::math::Point;
use fj_kernel::shapes::SurfaceTriangle;
use fj_kernel::vertices::Vertices;

fn tri(a: [i64; 3], b: [i64; 3], c: [i64; 3]) -> SurfaceTriangle {
    SurfaceTriangle { a: Point::new(a), b: Point::new(b), c: Point::new(c) }
}

#[test]
fn empty_mesh_has_nothing() {
    let vs = Vertices::empty();
    assert_eq!(vs.vertices().len(), 0);
    assert_eq!(vs.indices().len(), 0);
}

#[test]
fn one_triangle_gets_its_normal_and_color() {
    let vs = Vertices::from(&vec![tri([0, 0, 0], [2, 0, 0], [0, 2, 0])]);
    assert_eq!(vs.indices().as_slice(), &[0, 1, 2]);
    let buf = vs.vertices();
    assert_eq!(buf.len(), 3);
    assert_eq!(buf[0].position, [0, 0, 0]);
    assert_eq!(buf[1].position, [2, 0, 0]);
    assert_eq!(buf[2].position, [0, 2, 0]);
    for v in buf {
        // Cross product (2,0,0) x (0,2,0) = (0,0,4), normalized exactly.
        assert_eq!(v.normal, [0, 0, 1]);
        assert_eq!(v.color, [255, 0, 0, 255]);
    }
}

#[test]
fn coplanar_triangles_share_their_edge_vertices() {
    let vs = Vertices::from(&vec![
        tri([0, 0, 0], [2, 0, 0], [0, 2, 0]),
        tri([2, 0, 0], [2, 2, 0], [0, 2, 0]),
    ]);
    // Both faces have normal (0, 0, 1), so the two shared corners merge.
    assert_eq!(vs.vertices().len(), 4);
    assert_eq!(vs.indices().as_slice(), &[0, 1, 2, 1, 3, 2]);
}

#[test]
fn opposite_windings_keep_separate_vertices() {
    let vs = Vertices::from(&vec![
        tri([0, 0, 0], [2, 0, 0], [0, 2, 0]),
        tri([0, 0, 0], [0, 2, 0], [2, 0, 0]),
    ]);
    // Same corners, but the normals point the other way: nothing merges.
    assert_eq!(vs.vertices().len(), 6);
    assert_eq!(vs.vertices()[3].normal, [0, 0, -1]);
}

#[test]
fn degenerate_triangles_get_the_zero_normal() {
    let vs = Vertices::from(&vec![tri([0, 0, 0], [1, 0, 0], [2, 0, 0])]);
    assert_eq!(vs.vertices()[0].normal, [0, 0, 0]);
}
