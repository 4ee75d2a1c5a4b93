use fj_kernel::mesh::{MeshMaker, Vertices};

#[test]
fn repeated_vertex_keeps_its_index() {
    let mut vs = Vertices::new();
    let v = [1, 2, 3];
    let i0 = vs.index_for_vertex(v);
    let i1 = vs.index_for_vertex(v);
    let i2 = vs.index_for_vertex(v);
    assert_eq!(i0, 0);
    assert_eq!(i1, 0);
    assert_eq!(i2, 0);
    assert_eq!(vs.into_vec(), vec![[1, 2, 3]]);
}

#[test]
fn indices_follow_first_seen_order() {
    let mut vs = Vertices::new();
    let v0 = [0, 0, 0];
    let v1 = [7, 0, 0];
    assert_eq!(vs.index_for_vertex(v0), 0);
    assert_eq!(vs.index_for_vertex(v1), 1);
    assert_eq!(vs.index_for_vertex(v0), 0);
    let buffer = vs.into_vec();
    assert_eq!(buffer.len(), 2);
    assert_eq!(buffer, vec![v0, v1]);
}

#[test]
fn mesh_maker_shares_vertices_between_triangles() {
    let mut mm = MeshMaker::new();
    let a = [0, 0, 0];
    let b = [4, 0, 0];
    let c = [0, 4, 0];
    let d = [4, 4, 0];
    mm.triangle([a, b, c]);
    mm.triangle([b, d, c]);
    let mesh = mm.make();
    assert_eq!(mesh.vertices().len(), 4);
    assert_eq!(mesh.indices(), vec![0, 1, 2, 1, 3, 2]);
}

#[test]
fn mesh_indices_flatten_in_order() {
    let mut mm = MeshMaker::new();
    mm.triangle([[0, 0, 0], [1, 0, 0], [0, 1, 0]]);
    let mesh = mm.make();
    assert_eq!(mesh.vertices().len(), 3);
    assert_eq!(mesh.indices(), vec![0, 1, 2]);
}
