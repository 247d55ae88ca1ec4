//! Geometry kernel of a 3D scene editor: flat triangle meshes, half-edge
//! meshes built from and flattened back to them, cached render forms of
//! models, and a scene graph of transform nodes with selection paths.
//! Coordinates are generic: the kernel moves them, never computes with them.

pub mod half_edge_mesh;
pub mod mesh;
pub mod model;
pub mod render_instance;
pub mod transform;
pub mod scene_graph;
pub mod scene;
pub mod obj_import;
