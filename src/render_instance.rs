use vstd::prelude::*;
use crate::transform::Transform;

verus! {

/// Index of a model in a scene's model registry.
#[derive(Clone, Copy, Debug, PartialEq, Eq, Hash, Structural)]
pub struct MeshId(pub usize);

impl MeshId {
    pub fn new(index: usize) -> (r: MeshId)
        ensures
            r.0 == index,
    {
        MeshId(index)
    }
}

/// One mesh placed in the world, ready for a renderer.
#[derive(Clone, Copy)]
pub struct RenderInstance {
    pub mesh_id: MeshId,
    pub transform: Transform,
    pub id: usize,
    pub is_selected: bool,
}

} // verus!
