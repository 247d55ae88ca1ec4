use deltabrush::mesh::Mesh;
use deltabrush::obj_import::{merge_obj_models, ObjImportError};

#[test]
fn new_mesh_is_empty() {
    let m: Mesh<f32> = Mesh::new();
    assert_eq!(m.vertex_count(), 0);
    assert_eq!(m.face_count(), 0);
    assert!(m.normals.is_none());
}

#[test]
fn add_and_set_vertices() {
    let mut m: Mesh<f32> = Mesh::new();
    m.add_vertex(1.0, 2.0, 3.0);
    m.add_vertex(4.0, 5.0, 6.0);
    m.add_triangle(0, 1, 0);
    assert_eq!(m.vertex_count(), 2);
    assert_eq!(m.face_count(), 1);
    m.set_vertex(1, 7.0, 8.0, 9.0);
    assert_eq!(m.vertex_coords, vec![1.0, 2.0, 3.0, 7.0, 8.0, 9.0]);
    assert_eq!(m.face_indices, vec![0, 1, 0]);
}

#[test]
fn flat_cube_has_eight_vertices_and_twelve_triangles() {
    let m = Mesh::create_cube(-0.5f32, 0.5f32);
    assert_eq!(m.vertex_count(), 8);
    assert_eq!(m.face_count(), 12);
    assert_eq!(&m.vertex_coords[0..3], &[-0.5, -0.5, -0.5]);
    assert_eq!(&m.vertex_coords[18..21], &[0.5, 0.5, 0.5]);
    assert_eq!(&m.face_indices[0..6], &[0, 2, 1, 0, 3, 2]);
    assert!(m.face_indices.iter().all(|&i| i < 8));
}

#[test]
fn sphere_grid_triangles() {
    // 2 segments, 1 ring: a 2 x 3 vertex grid.
    let coords = vec![0.0f32; 3 * 2 * 3];
    let m = Mesh::create_sphere(coords, 2, 1);
    assert_eq!(m.face_indices, vec![0, 3, 1, 1, 3, 4, 1, 4, 2, 2, 4, 5]);
    assert_eq!(m.vertex_count(), 6);
}

#[test]
fn sphere_two_rings_offsets() {
    let coords = vec![0.0f32; 3 * 3 * 4];
    let m = Mesh::create_sphere(coords, 3, 2);
    assert_eq!(m.face_count(), 12);
    // First quad of the second ring: current = 1 * 4 + 0, next = 8.
    assert_eq!(&m.face_indices[18..24], &[4, 8, 5, 5, 8, 9]);
}

#[test]
fn merge_offsets_indices_of_later_models() {
    let a = (vec![0.0f32; 9], vec![0, 1, 2]);
    let b = (vec![1.0f32; 6], vec![0, 1, 1]);
    let m = merge_obj_models(&vec![a, b]).unwrap();
    assert_eq!(m.vertex_count(), 5);
    assert_eq!(m.face_indices, vec![0, 1, 2, 3, 4, 4]);
    assert!(m.normals.is_none());
}

#[test]
fn merge_rejects_partial_position_triples() {
    let a = (vec![0.0f32; 4], vec![0, 0, 0]);
    assert_eq!(merge_obj_models(&vec![a]).err(), Some(ObjImportError::PositionsNotTriples));
}

#[test]
fn merge_rejects_partial_triangles() {
    let a = (vec![0.0f32; 3], vec![0, 0]);
    assert_eq!(merge_obj_models(&vec![a]).err(), Some(ObjImportError::IndicesNotTriples));
}

#[test]
fn merge_rejects_index_overflow() {
    let a = (vec![0.0f32; 3], vec![0, 0, 0]);
    let b = (vec![0.0f32; 3], vec![u32::MAX, 0, 0]);
    assert_eq!(merge_obj_models(&vec![a, b]).err(), Some(ObjImportError::TooManyVertices));
}

#[test]
fn merge_of_nothing_is_empty() {
    let models: Vec<(Vec<f32>, Vec<u32>)> = Vec::new();
    let m = merge_obj_models(&models).unwrap();
    assert_eq!(m.vertex_count(), 0);
    assert_eq!(m.face_count(), 0);
}
