use vstd::prelude::*;
use crate::half_edge_mesh::{max_vertices, HalfEdgeMesh};
use crate::mesh::Mesh;

verus! {

/// A mesh representation that can produce the flat triangle buffer a
/// renderer consumes.
pub trait ToMesh<T>: Sized {
    /// When `to_mesh` may be called.
    spec fn mesh_ready(&self) -> bool;

    /// Coordinates of the flat form.
    spec fn flat_coords_of(&self) -> Seq<T>;

    /// Triangle indices of the flat form.
    spec fn flat_indices_of(&self) -> Seq<u32>;

    fn to_mesh(&self) -> (r: Mesh<T>)
        requires
            self.mesh_ready(),
        ensures
            r.vertex_coords@ == self.flat_coords_of(),
            r.face_indices@ == self.flat_indices_of(),
            r.normals.is_none(),
    ;
}

/// `m` holds the geometry of `model`'s flat form: its coordinates and triangles.
pub open spec fn same_geometry<T, M: ToMesh<T>>(m: Mesh<T>, model: M) -> bool {
    &&& m.vertex_coords@ == model.flat_coords_of()
    &&& m.face_indices@ == model.flat_indices_of()
}

/// `m` is the flat form of `model`, as `to_mesh` returns it (without normals).
pub open spec fn holds_flat_form<T, M: ToMesh<T>>(m: Mesh<T>, model: M) -> bool {
    &&& same_geometry(m, model)
    &&& m.normals.is_none()
}

/// An editable model together with its cached flat form. The cache is
/// accurate whenever the dirty flag is clear.
pub struct ModelWrapper<T, M: ToMesh<T>> {
    model: M,
    render_mesh: Mesh<T>,
    dirty: bool,
}

impl<T, M: ToMesh<T>> ModelWrapper<T, M> {
    pub closed spec fn model(&self) -> M {
        self.model
    }

    pub closed spec fn render_mesh(&self) -> Mesh<T> {
        self.render_mesh
    }

    pub closed spec fn dirty(&self) -> bool {
        self.dirty
    }

    pub open spec fn wf(&self) -> bool {
        &&& self.model().mesh_ready()
        &&& !self.dirty() ==> holds_flat_form(self.render_mesh(), self.model())
    }

    pub fn new(model: M) -> (r: Self)
        requires
            model.mesh_ready(),
        ensures
            r.wf(),
            r.model() == model,
            !r.dirty(),
            holds_flat_form(r.render_mesh(), model),
    {
        let render_mesh = model.to_mesh();
        ModelWrapper { render_mesh, model, dirty: false }
    }

    /// The last synced flat form, without recomputing it.
    pub fn get_mesh(&self) -> (r: &Mesh<T>)
        ensures
            *r == self.render_mesh(),
    {
        &self.render_mesh
    }

    /// Recomputes the flat form if the model changed since the last sync.
    pub fn sync_render_mesh(&mut self)
        requires
            old(self).wf(),
        ensures
            final(self).wf(),
            !final(self).dirty(),
            final(self).model() == old(self).model(),
            holds_flat_form(final(self).render_mesh(), final(self).model()),
            !old(self).dirty() ==> final(self).render_mesh() == old(self).render_mesh(),
    {
        if self.dirty {
            self.render_mesh = self.model.to_mesh();
            self.dirty = false;
        }
    }

    /// Replaces the model; the flat form is stale until the next sync.
    pub fn set_model(&mut self, model: M)
        requires
            model.mesh_ready(),
        ensures
            final(self).wf(),
            final(self).dirty(),
            final(self).model() == model,
            final(self).render_mesh() == old(self).render_mesh(),
    {
        self.model = model;
        self.dirty = true;
    }
}

/// The closed set of model representations the scene can hold.
pub enum ModelVariant<T: Copy> {
    HalfEdgeMesh(ModelWrapper<T, HalfEdgeMesh<T>>),
    Mesh(Mesh<T>),
}

/// A model with a display name.
pub struct ModelEntry<T: Copy> {
    pub model: ModelVariant<T>,
    pub name: String,
}

/// `b` is `a` after a sync: same model, flat form current, and untouched if
/// `a` was already current.
pub open spec fn synced_from<T: Copy>(a: ModelVariant<T>, b: ModelVariant<T>) -> bool {
    &&& b.wf()
    &&& b.synced()
    &&& a.synced() ==> b == a
    &&& match (a, b) {
        (ModelVariant::HalfEdgeMesh(x), ModelVariant::HalfEdgeMesh(y)) => y.model() == x.model()
            && holds_flat_form(y.render_mesh(), y.model()),
        (ModelVariant::Mesh(x), ModelVariant::Mesh(y)) => x == y,
        _ => false,
    }
}

impl<T: Copy> ModelVariant<T> {
    pub open spec fn wf(&self) -> bool {
        match self {
            ModelVariant::HalfEdgeMesh(w) => w.wf(),
            ModelVariant::Mesh(m) => m.wf(),
        }
    }

    /// The flat form handed to renderers and ray casts.
    pub open spec fn render_view(&self) -> Mesh<T> {
        match self {
            ModelVariant::HalfEdgeMesh(w) => w.render_mesh(),
            ModelVariant::Mesh(m) => *m,
        }
    }

    /// The flat form is up to date; a raw flat mesh always is.
    pub open spec fn synced(&self) -> bool {
        match self {
            ModelVariant::HalfEdgeMesh(w) => !w.dirty(),
            ModelVariant::Mesh(_) => true,
        }
    }

    pub fn get_mesh(&self) -> (r: &Mesh<T>)
        ensures
            *r == self.render_view(),
    {
        match self {
            ModelVariant::HalfEdgeMesh(w) => w.get_mesh(),
            ModelVariant::Mesh(m) => m,
        }
    }

    pub fn sync_render_mesh(&mut self)
        requires
            old(self).wf(),
        ensures
            synced_from(*old(self), *final(self)),
    {
        match self {
            ModelVariant::HalfEdgeMesh(w) => w.sync_render_mesh(),
            ModelVariant::Mesh(_) => {},
        }
    }
}

/// A flat mesh opened for editing as a half-edge mesh.
pub struct MeshEditor<T: Copy> {
    half_edge_mesh: HalfEdgeMesh<T>,
    render_mesh: Mesh<T>,
    dirty: bool,
}

impl<T: Copy> MeshEditor<T> {
    pub closed spec fn half_edge_mesh(&self) -> HalfEdgeMesh<T> {
        self.half_edge_mesh
    }

    pub closed spec fn render_mesh(&self) -> Mesh<T> {
        self.render_mesh
    }

    pub closed spec fn dirty(&self) -> bool {
        self.dirty
    }

    /// While clean, the cached mesh has the half-edge mesh's geometry; it
    /// may keep normals supplied with the mesh that was opened.
    pub open spec fn wf(&self) -> bool {
        &&& self.half_edge_mesh().wf()
        &&& !self.dirty() ==> same_geometry(self.render_mesh(), self.half_edge_mesh())
    }

    pub fn new(mesh: Mesh<T>) -> (r: Self)
        requires
            mesh.wf(),
            mesh.vertex_coords.len() / 3 <= max_vertices(),
        ensures
            r.wf(),
            !r.dirty(),
            r.render_mesh() == mesh,
            r.half_edge_mesh().built_from(&mesh),
    {
        let half_edge_mesh = HalfEdgeMesh::from_mesh(&mesh);
        proof {
            crate::half_edge_mesh::lemma_round_trip(&mesh, &half_edge_mesh);
        }
        MeshEditor { half_edge_mesh, render_mesh: mesh, dirty: false }
    }

    /// Ends the edit, handing back the flat form of the edited mesh.
    pub fn complete_editing(self) -> (r: Mesh<T>)
        requires
            self.wf(),
        ensures
            same_geometry(r, self.half_edge_mesh()),
            self.dirty() ==> r.normals.is_none(),
            !self.dirty() ==> r == self.render_mesh(),
    {
        if self.dirty {
            self.half_edge_mesh.to_mesh()
        } else {
            self.render_mesh
        }
    }

    pub fn get_mesh(&self) -> (r: &Mesh<T>)
        ensures
            *r == self.render_mesh(),
    {
        &self.render_mesh
    }

    pub fn sync_render_mesh(&mut self)
        requires
            old(self).wf(),
        ensures
            final(self).wf(),
            !final(self).dirty(),
            final(self).half_edge_mesh() == old(self).half_edge_mesh(),
            same_geometry(final(self).render_mesh(), final(self).half_edge_mesh()),
            old(self).dirty() ==> holds_flat_form(final(self).render_mesh(), final(self).half_edge_mesh()),
            !old(self).dirty() ==> final(self).render_mesh() == old(self).render_mesh(),
    {
        if self.dirty {
            self.render_mesh = self.half_edge_mesh.to_mesh();
            self.dirty = false;
        }
    }
}

} // verus!
