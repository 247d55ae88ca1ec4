use deltabrush::half_edge_mesh::{FaceIndex, HalfEdgeIndex, HalfEdgeMesh, VertexIndex};
use deltabrush::mesh::Mesh;
use deltabrush::model::ToMesh;

fn twins_symmetric(h: &HalfEdgeMesh<f32>) -> bool {
    h.half_edges.iter().enumerate().all(|(i, he)| match he.twin_index {
        Some(t) => h.half_edges[t.0].twin_index == Some(HalfEdgeIndex(i)),
        None => true,
    })
}

fn loop_len(h: &HalfEdgeMesh<f32>, f: usize) -> usize {
    let seed = h.faces[f].seed_half_edge;
    let mut cur = h.half_edges[seed.0].next_edge;
    let mut n = 1;
    while cur != seed {
        cur = h.half_edges[cur.0].next_edge;
        n += 1;
    }
    n
}

fn source(h: &HalfEdgeMesh<f32>, e: usize) -> usize {
    h.half_edges[h.half_edges[e].prev_edge.0].target_vertex_index.0
}

#[test]
fn flat_cube_twins_are_symmetric() {
    let m = Mesh::create_cube(-1.0f32, 1.0f32);
    let h = HalfEdgeMesh::from_mesh(&m);
    assert_eq!(h.half_edges.len(), 36);
    assert!(h.half_edges.iter().all(|he| he.twin_index.is_some()));
    assert!(twins_symmetric(&h));
}

#[test]
fn flat_cube_face_loops_close_after_three_steps() {
    let m = Mesh::create_cube(-1.0f32, 1.0f32);
    let h = HalfEdgeMesh::from_mesh(&m);
    for f in 0..h.faces.len() {
        assert_eq!(loop_len(&h, f), 3);
        // Walking prev retraces the loop.
        let seed = h.faces[f].seed_half_edge;
        let back = h.half_edges[h.half_edges[h.half_edges[seed.0].prev_edge.0].prev_edge.0].prev_edge;
        assert_eq!(back, seed);
        assert_eq!(h.half_edges[seed.0].face_index, Some(FaceIndex(f)));
    }
}

#[test]
fn flat_cube_round_trip() {
    let m = Mesh::create_cube(-1.0f32, 1.0f32);
    let h = HalfEdgeMesh::from_mesh(&m);
    let back = h.to_mesh();
    assert_eq!(back.vertex_count(), 8);
    assert_eq!(back.face_count(), 12);
    assert_eq!(back.vertex_coords, m.vertex_coords);
    assert_eq!(back.face_indices, m.face_indices);
    assert!(back.normals.is_none());
}

#[test]
fn seeds_are_first_outgoing_half_edges() {
    let m = Mesh::create_cube(0.0f32, 1.0f32);
    let h = HalfEdgeMesh::from_mesh(&m);
    for (v, vx) in h.vertices.iter().enumerate() {
        let first = m.face_indices.iter().position(|&i| i as usize == v).unwrap();
        assert_eq!(vx.seed_half_edge, Some(HalfEdgeIndex(first)));
        assert_eq!(source(&h, first), v);
    }
    assert_eq!(h.vertex(VertexIndex(6)).position, [1.0, 1.0, 1.0]);
}

#[test]
fn boundary_edges_have_no_twin() {
    let mut m: Mesh<f32> = Mesh::new();
    m.add_vertex(0.0, 0.0, 0.0);
    m.add_vertex(1.0, 0.0, 0.0);
    m.add_vertex(0.0, 1.0, 0.0);
    m.add_vertex(1.0, 1.0, 0.0);
    m.add_triangle(0, 1, 2);
    m.add_triangle(2, 1, 3);
    let h = HalfEdgeMesh::from_mesh(&m);
    // 1 -> 2 and 2 -> 1 are twins; the other four edges are boundary.
    assert_eq!(h.half_edge(HalfEdgeIndex(1)).twin_index, Some(HalfEdgeIndex(3)));
    assert_eq!(h.half_edge(HalfEdgeIndex(3)).twin_index, Some(HalfEdgeIndex(1)));
    assert_eq!(h.half_edges.iter().filter(|he| he.twin_index.is_none()).count(), 4);
}

#[test]
fn repeated_directed_edge_last_one_wins() {
    let mut m: Mesh<f32> = Mesh::new();
    for _ in 0..4 {
        m.add_vertex(0.0, 0.0, 0.0);
    }
    m.add_triangle(0, 1, 2);
    m.add_triangle(0, 1, 3);
    m.add_triangle(1, 0, 2);
    let h = HalfEdgeMesh::from_mesh(&m);
    // 1 -> 0 (half-edge 6) finds the last 0 -> 1, half-edge 3.
    assert_eq!(h.half_edges[6].twin_index, Some(HalfEdgeIndex(3)));
    assert_eq!(h.half_edges[0].twin_index, Some(HalfEdgeIndex(6)));
    assert_eq!(h.half_edges[3].twin_index, Some(HalfEdgeIndex(6)));
}

#[test]
fn quad_cube_is_well_wired() {
    let h = HalfEdgeMesh::create_cube(-0.5f32, 0.5f32);
    assert_eq!(h.vertices.len(), 8);
    assert_eq!(h.half_edges.len(), 24);
    assert_eq!(h.faces.len(), 6);
    assert!(twins_symmetric(&h));
    for f in 0..6 {
        assert_eq!(loop_len(&h, f), 4);
    }
    for (i, he) in h.half_edges.iter().enumerate() {
        let t = he.twin_index.unwrap().0;
        assert_eq!(source(&h, t), he.target_vertex_index.0);
        assert_eq!(h.half_edges[t].target_vertex_index.0, source(&h, i));
    }
    for (v, vx) in h.vertices.iter().enumerate() {
        assert_eq!(source(&h, vx.seed_half_edge.unwrap().0), v);
    }
}

#[test]
fn quad_cube_fans_into_triangles() {
    let h = HalfEdgeMesh::create_cube(-0.5f32, 0.5f32);
    let m = h.to_mesh();
    assert_eq!(m.vertex_count(), 8);
    assert_eq!(m.face_count(), 12);
    assert_eq!(&m.face_indices[0..6], &[0, 1, 2, 0, 2, 3]);
    assert_eq!(&m.face_indices[6..12], &[1, 5, 6, 1, 6, 2]);
    assert_eq!(&m.vertex_coords[3..6], &[0.5, -0.5, -0.5]);
}

#[test]
fn outgoing_fan_around_cube_corner() {
    let h = HalfEdgeMesh::create_cube(-0.5f32, 0.5f32);
    let fan = h.vertex_outgoing_half_edges(VertexIndex(0));
    assert_eq!(fan.len(), 3);
    assert_eq!(fan[0], HalfEdgeIndex(0));
    for e in &fan {
        assert_eq!(source(&h, e.0), 0);
    }
}

#[test]
fn outgoing_fan_stops_at_boundary() {
    let mut m: Mesh<f32> = Mesh::new();
    for _ in 0..3 {
        m.add_vertex(0.0, 0.0, 0.0);
    }
    m.add_triangle(0, 1, 2);
    let h = HalfEdgeMesh::from_mesh(&m);
    assert_eq!(h.vertex_outgoing_half_edges(VertexIndex(1)), vec![HalfEdgeIndex(1)]);
}

#[test]
fn outgoing_fan_of_isolated_vertex_is_empty() {
    let mut m: Mesh<f32> = Mesh::new();
    for _ in 0..4 {
        m.add_vertex(0.0, 0.0, 0.0);
    }
    m.add_triangle(0, 1, 2);
    let h = HalfEdgeMesh::from_mesh(&m);
    assert!(h.vertex_outgoing_half_edges(VertexIndex(3)).is_empty());
}

#[test]
fn mutable_accessors_write_through() {
    let mut h = HalfEdgeMesh::create_cube(0.0f32, 1.0f32);
    h.vertex_mut(VertexIndex(0)).position = [2.0, 2.0, 2.0];
    h.face_mut(FaceIndex(1)).seed_half_edge = HalfEdgeIndex(5);
    h.half_edge_mut(HalfEdgeIndex(0)).twin_index = None;
    assert_eq!(h.vertex(VertexIndex(0)).position, [2.0, 2.0, 2.0]);
    assert_eq!(h.face(FaceIndex(1)).seed_half_edge, HalfEdgeIndex(5));
    assert_eq!(h.half_edge(HalfEdgeIndex(0)).twin_index, None);
}

#[test]
fn outgoing_fan_order_around_corner() {
    let h = HalfEdgeMesh::create_cube(-0.5f32, 0.5f32);
    let fan = h.vertex_outgoing_half_edges(VertexIndex(0));
    assert_eq!(fan, vec![HalfEdgeIndex(0), HalfEdgeIndex(16), HalfEdgeIndex(13)]);
}

#[test]
fn breadth_first_reaches_every_cube_corner_once() {
    let h = HalfEdgeMesh::create_cube(-0.5f32, 0.5f32);
    let order = h.bfs_vertex_order(VertexIndex(3));
    assert_eq!(order.len(), 8);
    assert_eq!(order[0], VertexIndex(3));
    let mut seen = order.iter().map(|v| v.0).collect::<Vec<_>>();
    seen.sort();
    assert_eq!(seen, vec![0, 1, 2, 3, 4, 5, 6, 7]);
    // The direct neighbours of corner 3 come right after it.
    let mut first = order[1..4].iter().map(|v| v.0).collect::<Vec<_>>();
    first.sort();
    assert_eq!(first, vec![0, 2, 7]);
}

#[test]
fn breadth_first_stays_in_its_component() {
    let mut m: Mesh<f32> = Mesh::new();
    for _ in 0..6 {
        m.add_vertex(0.0, 0.0, 0.0);
    }
    m.add_triangle(0, 1, 2);
    m.add_triangle(3, 4, 5);
    let h = HalfEdgeMesh::from_mesh(&m);
    let order = h.bfs_vertex_order(VertexIndex(4));
    // Boundary fans hold one half-edge each: 4 -> 5 -> 3.
    assert_eq!(order, vec![VertexIndex(4), VertexIndex(5), VertexIndex(3)]);
}

#[test]
fn quad_cube_flat_form_fans_every_side() {
    let h = HalfEdgeMesh::create_cube(0.0f32, 1.0f32);
    let m = h.to_mesh();
    assert_eq!(
        m.face_indices,
        vec![
            0, 1, 2, 0, 2, 3, 1, 5, 6, 1, 6, 2, 5, 4, 7, 5, 7, 6, 4, 0, 3, 4, 3, 7, 0, 4, 5, 0, 5, 1, 3, 2, 6, 3,
            6, 7
        ]
    );
}

#[test]
fn well_formedness_check() {
    let cube = HalfEdgeMesh::create_cube(0.0f32, 1.0f32);
    assert!(cube.is_well_formed());
    let flat = HalfEdgeMesh::from_mesh(&Mesh::create_cube(0.0f32, 1.0f32));
    assert!(flat.is_well_formed());

    let mut broken_link = HalfEdgeMesh::create_cube(0.0f32, 1.0f32);
    broken_link.half_edge_mut(HalfEdgeIndex(0)).next_edge = HalfEdgeIndex(2);
    assert!(!broken_link.is_well_formed());

    let mut broken_seed = HalfEdgeMesh::create_cube(0.0f32, 1.0f32);
    broken_seed.vertex_mut(VertexIndex(0)).seed_half_edge = Some(HalfEdgeIndex(1));
    assert!(!broken_seed.is_well_formed());

    let mut broken_twin = HalfEdgeMesh::create_cube(0.0f32, 1.0f32);
    broken_twin.half_edge_mut(HalfEdgeIndex(0)).twin_index = Some(HalfEdgeIndex(1));
    assert!(!broken_twin.is_well_formed());

    let mut broken_face = HalfEdgeMesh::create_cube(0.0f32, 1.0f32);
    broken_face.half_edge_mut(HalfEdgeIndex(2)).face_index = Some(FaceIndex(3));
    assert!(!broken_face.is_well_formed());

    let mut out_of_range = HalfEdgeMesh::create_cube(0.0f32, 1.0f32);
    out_of_range.face_mut(FaceIndex(0)).seed_half_edge = HalfEdgeIndex(99);
    assert!(!out_of_range.is_well_formed());
}

#[test]
fn quad_cube_twins_pair_reversed_edges() {
    let h = HalfEdgeMesh::create_cube(0.0f32, 1.0f32);
    // Half-edge 0 runs 0 -> 1; its twin 19 runs 1 -> 0.
    assert_eq!(h.half_edge(HalfEdgeIndex(0)).twin_index, Some(HalfEdgeIndex(19)));
    assert_eq!(h.half_edge(HalfEdgeIndex(19)).target_vertex_index, VertexIndex(0));
}
