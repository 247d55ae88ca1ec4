use deltabrush::half_edge_mesh::HalfEdgeMesh;
use deltabrush::mesh::Mesh;
use deltabrush::model::{MeshEditor, ModelVariant, ModelWrapper};
use deltabrush::render_instance::MeshId;
use deltabrush::scene::Scene;
use deltabrush::scene_graph::{EdgeId, InvalidEdgeId, SceneGraphChild, SceneGraphNode};
use deltabrush::transform::Transform;
use glam::{Mat4, Quat, Vec3};

fn translation(x: f32, y: f32, z: f32) -> Transform {
    Transform::from_matrix(Mat4::from_translation(Vec3::new(x, y, z)))
}

fn close(a: Vec3, b: Vec3) -> bool {
    (a - b).length() < 1e-5
}

#[test]
fn composing_two_quarter_turns_is_a_half_turn() {
    let quarter = Transform::from_matrix(Mat4::from_quat(Quat::from_rotation_z(std::f32::consts::FRAC_PI_2)));
    let half = Transform::from_matrix(Mat4::from_quat(Quat::from_rotation_z(std::f32::consts::PI)));
    let composed = quarter.compose_with_parent(&quarter);
    let v = Vec3::new(1.0, 0.0, 0.0);
    let a = composed.matrix().transform_vector3(v);
    let b = half.matrix().transform_vector3(v);
    assert!(close(a, b));
    assert!(close(a, Vec3::new(-1.0, 0.0, 0.0)));
}

#[test]
fn child_transform_applies_before_parent() {
    let child = Transform::from_matrix(Mat4::from_scale(Vec3::new(2.0, 2.0, 2.0)));
    let parent = translation(1.0, 0.0, 0.0);
    let world = child.compose_with_parent(&parent);
    let p = world.matrix().transform_point3(Vec3::new(1.0, 0.0, 0.0));
    assert!(close(p, Vec3::new(3.0, 0.0, 0.0)));
    let back = world.inverse().matrix().transform_point3(p);
    assert!(close(back, Vec3::new(1.0, 0.0, 0.0)));
    assert!(close(Transform::identity().matrix().transform_point3(p), p));
}

#[test]
fn edge_id_text_round_trip() {
    let text = "a1a2a3a4-b1b2-c1c2-d1d2-d3d4d5d6d7d8";
    let id = EdgeId::from_string(text).unwrap();
    assert_eq!(id.to_string(), text);
    assert_eq!(id.as_uuid().as_u128(), 0xa1a2a3a4b1b2c1c2d1d2d3d4d5d6d7d8);
}

#[test]
fn edge_id_rejects_garbage() {
    assert_eq!(EdgeId::from_string("not-an-id"), Err(InvalidEdgeId));
}

#[test]
fn fresh_edge_ids_differ() {
    let a = EdgeId::new();
    let b = EdgeId::new();
    assert_ne!(a, b);
    assert_eq!(EdgeId::from_string(&a.to_string()), Ok(a));
}

#[test]
fn flatten_numbers_leaves_in_pre_order() {
    let mut inner = SceneGraphNode::new();
    let e_inner = inner.add_child(SceneGraphChild::Model(MeshId::new(1)));
    let mut root = SceneGraphNode::with_transform(translation(0.0, 1.0, 0.0));
    let e_a = root.add_child(SceneGraphChild::Model(MeshId::new(0)));
    let e_node = root.add_child(SceneGraphChild::Node(Box::new(inner)));
    let e_b = root.add_child(SceneGraphChild::Model(MeshId::new(2)));
    let mut next_id = 10;
    let selected = vec![e_node];
    let list = root.flatten_to_render_instances(&Transform::identity(), &mut next_id, &[], Some(&selected));
    assert_eq!(next_id, 13);
    let ids: Vec<usize> = list.iter().map(|r| r.id).collect();
    assert_eq!(ids, vec![10, 11, 12]);
    let meshes: Vec<usize> = list.iter().map(|r| r.mesh_id.0).collect();
    assert_eq!(meshes, vec![0, 1, 2]);
    let flags: Vec<bool> = list.iter().map(|r| r.is_selected).collect();
    assert_eq!(flags, vec![false, true, false]);
    let leaves = root.leaf_instances(&Transform::identity(), &mut next_id, &[]);
    assert_eq!(leaves[1].path, vec![e_node, e_inner]);
    assert_eq!(leaves[0].path, vec![e_a]);
    assert_eq!(leaves[2].path, vec![e_b]);
    assert_eq!(leaves[2].object_id, 15);
    let p = leaves[0].transform.matrix().transform_point3(Vec3::ZERO);
    assert!(close(p, Vec3::new(0.0, 1.0, 0.0)));
}

#[test]
fn selecting_a_leaf_marks_it_and_not_its_siblings() {
    let mut root = SceneGraphNode::new();
    let e_a = root.add_child(SceneGraphChild::Model(MeshId::new(0)));
    root.add_child(SceneGraphChild::Model(MeshId::new(0)));
    let mut next_id = 0;
    let selected = vec![e_a];
    let list = root.flatten_to_render_instances(&Transform::identity(), &mut next_id, &[], Some(&selected));
    assert!(list[0].is_selected);
    assert!(!list[1].is_selected);
    let none = root.flatten_to_render_instances(&Transform::identity(), &mut next_id, &[], None);
    assert!(none.iter().all(|r| !r.is_selected));
    assert_eq!(none[0].id, 2);
}

#[test]
fn model_wrapper_cache_follows_the_model() {
    let mut w = ModelWrapper::new(HalfEdgeMesh::create_cube(0.0f32, 1.0f32));
    assert_eq!(w.get_mesh().face_count(), 12);
    let flat = Mesh::create_cube(0.0f32, 2.0f32);
    w.set_model(HalfEdgeMesh::from_mesh(&flat));
    assert_eq!(w.get_mesh().vertex_coords[18], 1.0);
    w.sync_render_mesh();
    assert_eq!(w.get_mesh().vertex_coords[18], 2.0);
    assert_eq!(w.get_mesh().face_indices, flat.face_indices);
}

#[test]
fn raw_mesh_variant_is_its_own_cache() {
    let mut v = ModelVariant::Mesh(Mesh::create_cube(0.0f32, 1.0f32));
    v.sync_render_mesh();
    assert_eq!(v.get_mesh().face_count(), 12);
    let mut h = ModelVariant::HalfEdgeMesh(ModelWrapper::new(HalfEdgeMesh::create_cube(0.0f32, 1.0f32)));
    h.sync_render_mesh();
    assert_eq!(h.get_mesh().vertex_count(), 8);
}

#[test]
fn mesh_editor_hands_back_the_mesh() {
    let flat = Mesh::create_cube(0.0f32, 1.0f32);
    let mut e = MeshEditor::new(Mesh::create_cube(0.0f32, 1.0f32));
    assert_eq!(e.get_mesh().face_indices, flat.face_indices);
    e.sync_render_mesh();
    let out = e.complete_editing();
    assert_eq!(out.vertex_coords, flat.vertex_coords);
    assert_eq!(out.face_indices, flat.face_indices);
}

fn scene_with_two_cubes() -> Scene<f32> {
    let mut s = Scene::new();
    assert_eq!(s.add_cube(-0.5, 0.5, translation(0.0, 0.0, 0.0)), 0);
    assert_eq!(s.add_cube(-1.0, 1.0, translation(3.0, 0.0, 0.0)), 1);
    s
}

#[test]
fn scene_render_list_has_one_instance_per_cube() {
    let mut s = scene_with_two_cubes();
    assert!(s.is_dirty());
    assert_eq!(s.object_count(), 2);
    let list = s.get_render_instances();
    assert_eq!(list.len(), 2);
    assert_eq!(list[0].mesh_id, MeshId(0));
    assert_eq!(list[1].mesh_id, MeshId(1));
    assert_eq!(list[1].id, 1);
    assert!(!list[0].is_selected);
    let p = list[1].transform.matrix().transform_point3(Vec3::ZERO);
    assert!(close(p, Vec3::new(3.0, 0.0, 0.0)));
    s.clear_dirty();
    assert!(!s.is_dirty());
    assert_eq!(s.get_mesh(1).unwrap().vertex_coords[0], -1.0);
    assert!(s.get_mesh(2).is_none());
}

#[test]
fn scene_remove_and_update() {
    let mut s = scene_with_two_cubes();
    s.get_render_instances();
    s.clear_dirty();
    assert!(s.update_transform(1, translation(0.0, 5.0, 0.0)));
    assert!(s.is_dirty());
    let p = s.get_render_instances()[1].transform.matrix().transform_point3(Vec3::ZERO);
    assert!(close(p, Vec3::new(0.0, 5.0, 0.0)));
    assert!(!s.update_transform(7, Transform::identity()));
    assert!(s.remove_object(0));
    assert!(!s.remove_object(5));
    assert_eq!(s.object_count(), 1);
    let list = s.get_render_instances();
    assert_eq!(list.len(), 1);
    assert_eq!(list[0].mesh_id, MeshId(1));
    assert_eq!(list[0].id, 0);
}

#[test]
fn scene_plane_and_sphere() {
    let mut s: Scene<f32> = Scene::new();
    let mut plane = Mesh::new();
    plane.add_vertex(-1.0, 0.0, -1.0);
    plane.add_vertex(1.0, 0.0, -1.0);
    plane.add_vertex(1.0, 0.0, 1.0);
    plane.add_triangle(0, 1, 2);
    assert_eq!(s.add_plane(plane, Transform::identity()), 0);
    assert_eq!(s.add_sphere(-2.0, 2.0, Transform::identity()), 1);
    assert_eq!(s.get_mesh(0).unwrap().face_count(), 1);
    assert_eq!(s.get_mesh(1).unwrap().face_count(), 12);
    assert_eq!(s.get_render_instances().len(), 2);
    s.clear();
    assert_eq!(s.object_count(), 0);
    assert!(s.get_mesh(0).is_none());
    assert!(s.get_render_instances().is_empty());
}

#[test]
fn selection_lifecycle() {
    let mut s = scene_with_two_cubes();
    let leaves = s.leaf_instances();
    let path = leaves[1].path.clone();
    assert_eq!(path.len(), 2);
    assert!(s.select_by_edge_path(path.clone()));
    assert_eq!(s.get_selected_path(), Some(&path));
    let list = s.get_render_instances();
    assert!(!list[0].is_selected);
    assert!(list[1].is_selected);
    assert!(s.select_parent());
    assert_eq!(s.get_selected_path(), Some(&vec![path[0]]));
    assert!(s.get_render_instances()[1].is_selected);
    assert!(!s.select_parent());
    assert_eq!(s.get_selected_path(), Some(&vec![path[0]]));
    assert!(!s.select_by_edge_path(vec![EdgeId::new()]));
    assert_eq!(s.get_selected_path(), Some(&vec![path[0]]));
    s.deselect();
    assert_eq!(s.get_selected_path(), None);
    assert!(!s.select_parent());
}

#[test]
fn selection_paths_are_validated() {
    let mut s = scene_with_two_cubes();
    let leaves = s.leaf_instances();
    let path = leaves[0].path.clone();
    // A mesh edge may only end a path.
    assert!(!s.select_by_edge_path(vec![path[0], path[1], path[1]]));
    assert!(!s.select_by_edge_path(Vec::new()));
    // Edges of another node do not resolve here.
    assert!(!s.select_by_edge_path(vec![leaves[1].path[0], path[1]]));
    assert!(s.select_by_edge_path(vec![path[0]]));
    assert_eq!(s.get_selected_path(), Some(&vec![path[0]]));
    assert_eq!(leaves[0].object_id, 0);
    assert_eq!(leaves[1].mesh_id, MeshId(1));
}

#[test]
fn removing_an_object_drops_only_its_instances() {
    let mut s = scene_with_two_cubes();
    s.add_cube(0.0, 1.0, Transform::identity());
    let before = s.leaf_instances();
    assert!(s.remove_object(1));
    let after = s.leaf_instances();
    assert_eq!(after.len(), 2);
    assert_eq!(after[0].path, before[0].path);
    assert_eq!(after[1].path, before[2].path);
    assert_eq!(after[1].object_id, 1);
}

#[test]
fn synced_cache_has_no_normals() {
    let mut w = ModelWrapper::new(HalfEdgeMesh::create_cube(0.0f32, 1.0f32));
    assert!(w.get_mesh().normals.is_none());
    w.set_model(HalfEdgeMesh::create_cube(0.0f32, 3.0f32));
    w.sync_render_mesh();
    assert!(w.get_mesh().normals.is_none());
}

#[test]
fn edge_ids_are_version_four() {
    let id = EdgeId::new();
    let bits = id.as_uuid().as_u128();
    assert_eq!((bits >> 76) & 0xf, 4);
    assert_eq!((bits >> 62) & 3, 2);
    assert_eq!(id.to_string().len(), 36);
}

#[test]
fn world_transforms_compose_down_the_tree() {
    let mut inner = SceneGraphNode::with_transform(translation(0.0, 2.0, 0.0));
    inner.add_child(SceneGraphChild::Model(MeshId::new(0)));
    let mut root = SceneGraphNode::with_transform(Transform::from_matrix(Mat4::from_scale(Vec3::new(3.0, 3.0, 3.0))));
    root.add_child(SceneGraphChild::Node(Box::new(inner)));
    let mut next_id = 0;
    let list = root.flatten_to_render_instances(&translation(1.0, 0.0, 0.0), &mut next_id, &[], None);
    // parent * root * inner applied to the origin: (1, 0, 0) + 3 * (0, 2, 0).
    let p = list[0].transform.matrix().transform_point3(Vec3::ZERO);
    assert!(close(p, Vec3::new(1.0, 6.0, 0.0)));
}
