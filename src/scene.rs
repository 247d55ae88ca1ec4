use vstd::prelude::*;
use crate::half_edge_mesh::HalfEdgeMesh;
use crate::mesh::Mesh;
use crate::model::{ModelVariant, ModelWrapper};
use crate::render_instance::{MeshId, RenderInstance};
use crate::scene_graph::{selection_flag, EdgeId, SceneGraphChild, SceneGraphNode, SceneLeaf};
use crate::transform::{mat_identity, Transform};

verus! {

/// `cache` is the render-instance list of the tree under `root` with the
/// selection `sel`: one instance per mesh leaf in pre-order, numbered from 0,
/// each with its world matrix below the identity.
pub open spec fn instances_match(
    cache: Seq<RenderInstance>,
    root: SceneGraphNode,
    sel: Option<Seq<EdgeId>>,
) -> bool {
    let ls = root.leaves(Seq::empty());
    &&& cache.len() == ls.len()
    &&& forall|k: int|
        0 <= k < cache.len() ==> {
            &&& (#[trigger] cache[k]).mesh_id == ls[k].1
            &&& cache[k].id == k
            &&& cache[k].is_selected == selection_flag(ls[k].0, sel)
            &&& cache[k].transform.spec_matrix() == root.leaf_worlds(mat_identity(()))[k]
        }
}

pub open spec fn models_wf<T: Copy>(ms: Seq<ModelVariant<T>>) -> bool {
    forall|k: int| 0 <= k < ms.len() ==> (#[trigger] ms[k]).wf()
}

/// Every registered model that `refs` names has an up-to-date flat form.
pub open spec fn refs_synced<T: Copy>(ms: Seq<ModelVariant<T>>, refs: Seq<MeshId>) -> bool {
    forall|k: int| 0 <= k < ms.len() && refs.contains(MeshId(k as usize)) ==> (#[trigger] ms[k]).synced()
}

/// What `select_parent` does to a selection: whether it moved, and the
/// selection after it.
pub open spec fn parent_selection(sel: Option<Seq<EdgeId>>) -> (bool, Option<Seq<EdgeId>>) {
    match sel {
        Some(p) => if p.len() > 1 { (true, Some(p.drop_last())) } else { (false, sel) },
        None => (false, None),
    }
}

/// `m` is the half-edge cube model over `[lo, hi]^3`, freshly synced.
pub open spec fn is_cube_model<T: Copy>(m: ModelVariant<T>, lo: T, hi: T) -> bool {
    match m {
        ModelVariant::HalfEdgeMesh(w) => {
            &&& w.wf()
            &&& !w.dirty()
            &&& w.model().is_cube(lo, hi)
        },
        ModelVariant::Mesh(_) => false,
    }
}

/// A fresh half-edge cube model over `[lo, hi]^3`.
fn cube_model<T: Copy>(lo: T, hi: T) -> (r: ModelVariant<T>)
    ensures
        is_cube_model(r, lo, hi),
        r.wf(),
{
    ModelVariant::HalfEdgeMesh(ModelWrapper::new(HalfEdgeMesh::create_cube(lo, hi)))
}

/// The child node of an edge, if it leads to one.
pub open spec fn child_node(e: crate::scene_graph::SceneGraphEdge) -> Option<SceneGraphNode> {
    match e.child {
        SceneGraphChild::Node(n) => Some(*n),
        SceneGraphChild::Model(_) => None,
    }
}

/// A scene: a tree of transform nodes whose leaves reference models in a
/// registry, the current selection, and a cached render-instance list that is
/// rebuilt lazily after any change to the tree or the selection.
pub struct Scene<T: Copy> {
    root: SceneGraphNode,
    dirty: bool,
    meshes: Vec<ModelVariant<T>>,
    cached_render_instances: Vec<RenderInstance>,
    hierarchy_dirty: bool,
    selected_path: Option<Vec<EdgeId>>,
}

impl<T: Copy> Scene<T> {
    pub closed spec fn root(&self) -> SceneGraphNode {
        self.root
    }

    pub closed spec fn meshes(&self) -> Seq<ModelVariant<T>> {
        self.meshes@
    }

    pub closed spec fn cache(&self) -> Seq<RenderInstance> {
        self.cached_render_instances@
    }

    pub closed spec fn hierarchy_dirty(&self) -> bool {
        self.hierarchy_dirty
    }

    /// Set when the render list changed since the consumer last cleared it.
    pub closed spec fn dirty(&self) -> bool {
        self.dirty
    }

    pub closed spec fn selected(&self) -> Option<Seq<EdgeId>> {
        match self.selected_path {
            Some(p) => Some(p@),
            None => None,
        }
    }

    /// The number of mesh leaves in the tree.
    pub open spec fn leaf_count(&self) -> int {
        self.root().leaves(Seq::empty()).len() as int
    }

    /// A selection path is valid when it is not empty and resolves from the root.
    pub open spec fn path_valid(&self, path: Seq<EdgeId>) -> bool {
        path.len() > 0 && self.root().path_resolves(path)
    }

    pub open spec fn wf(&self) -> bool {
        &&& models_wf(self.meshes())
        &&& !self.hierarchy_dirty() ==> {
            &&& instances_match(self.cache(), self.root(), self.selected())
            &&& refs_synced(self.meshes(), self.root().mesh_refs())
        }
    }

    pub fn new() -> (r: Scene<T>)
        ensures
            r.wf(),
            r.root().edges@.len() == 0,
            r.meshes().len() == 0,
            r.selected() is None,
            r.hierarchy_dirty(),
            !r.dirty(),
    {
        Scene {
            root: SceneGraphNode::new(),
            dirty: false,
            meshes: Vec::new(),
            cached_render_instances: Vec::new(),
            hierarchy_dirty: true,
            selected_path: None,
        }
    }

    /// Recomputes the model caches and the render-instance list, if stale.
    fn rebuild_cache(&mut self)
        requires
            old(self).wf(),
            old(self).leaf_count() <= usize::MAX,
        ensures
            final(self).wf(),
            !final(self).hierarchy_dirty(),
            final(self).root() == old(self).root(),
            final(self).selected() == old(self).selected(),
            final(self).meshes().len() == old(self).meshes().len(),
            old(self).hierarchy_dirty() ==> final(self).dirty(),
            !old(self).hierarchy_dirty() ==> *final(self) == *old(self),
    {
        if !self.hierarchy_dirty {
            return;
        }
        proof {
            assert forall|k: int| 0 <= k < self.meshes@.len() implies (#[trigger] self.meshes@[k]).wf() by {
                assert(self.meshes@[k] == self.meshes()[k]);
            }
        }
        self.root.sync_render_mesh(&mut self.meshes);
        let mut object_id: usize = 0;
        let empty: Vec<EdgeId> = Vec::new();
        let selected = match &self.selected_path {
            Some(p) => Some(p),
            None => None,
        };
        self.cached_render_instances = self.root.flatten_to_render_instances(
            &Transform::identity(),
            &mut object_id,
            empty.as_slice(),
            selected,
        );
        self.hierarchy_dirty = false;
        self.dirty = true;
        proof {
            assert(empty@ =~= Seq::<EdgeId>::empty());
            assert forall|k: int| 0 <= k < self.meshes().len() implies (#[trigger] self.meshes()[k]).wf() by {
                assert(self.meshes@[k] == self.meshes()[k]);
            }
            assert forall|k: int| 0 <= k < self.meshes().len() && self.root().mesh_refs().contains(MeshId(k as usize))
                implies (#[trigger] self.meshes()[k]).synced() by {
                assert(self.meshes@[k] == self.meshes()[k]);
            }
        }
    }

    /// Registers a model and returns its id.
    fn add_mesh(&mut self, model: ModelVariant<T>) -> (r: MeshId)
        ensures
            r.0 == old(self).meshes().len(),
            final(self).meshes() == old(self).meshes().push(model),
            final(self).root() == old(self).root(),
            final(self).selected() == old(self).selected(),
            final(self).hierarchy_dirty() == old(self).hierarchy_dirty(),
            final(self).cache() == old(self).cache(),
            final(self).dirty() == old(self).dirty(),
    {
        let mesh_id = MeshId::new(self.meshes.len());
        self.meshes.push(model);
        mesh_id
    }

    /// Registers `model` and hangs it under a new child node of the root with
    /// the given transform; returns the node's index among the root's children.
    fn add_object(&mut self, model: ModelVariant<T>, transform: Transform) -> (r: usize)
        requires
            old(self).wf(),
            model.wf(),
        ensures
            final(self).wf(),
            r == old(self).root().edges@.len(),
            final(self).root().edges@.len() == r + 1,
            final(self).root().edges@.subrange(0, r as int) == old(self).root().edges@,
            final(self).root().transform == old(self).root().transform,
            child_node(final(self).root().edges@[r as int]) matches Some(n) && n.transform == transform
                && n.edges@.len() == 1 && n.edges@[0].child == SceneGraphChild::Model(
                MeshId(old(self).meshes().len() as usize),
            ),
            final(self).meshes() == old(self).meshes().push(model),
            final(self).root().leaves(Seq::empty()) == old(self).root().leaves(Seq::empty()).push(
                (
                    seq![final(self).root().edges@[r as int].edge_id, child_node(final(self).root().edges@[r as int])->Some_0.edges@[0].edge_id],
                    MeshId(old(self).meshes().len() as usize),
                ),
            ),
            final(self).selected() == old(self).selected(),
            final(self).hierarchy_dirty(),
    {
        let ghost old_meshes = self.meshes();
        let mesh_id = self.add_mesh(model);
        assert(models_wf(self.meshes())) by {
            assert forall|k: int| 0 <= k < self.meshes().len() implies (#[trigger] self.meshes()[k]).wf() by {
                if k < old_meshes.len() {
                    assert(self.meshes()[k] == old_meshes[k]);
                }
            }
        }
        let mut node = SceneGraphNode::with_transform(transform);
        node.add_child(SceneGraphChild::Model(mesh_id));
        let child_count = self.root.edges.len();
        self.root.add_child(SceneGraphChild::Node(Box::new(node)));
        self.hierarchy_dirty = true;
        proof {
            assert(self.root().edges@.subrange(0, child_count as int) =~= old(self).root().edges@);
            lemma_leaves_after_push(old(self).root(), self.root());
        }
        child_count
    }

    /// Adds the box `[lo, hi]^3` as a half-edge cube under a new child node of
    /// the root with the given transform; returns the node's index among the
    /// root's children.
    pub fn add_cube(&mut self, lo: T, hi: T, transform: Transform) -> (r: usize)
        requires
            old(self).wf(),
        ensures
            final(self).wf(),
            r == old(self).root().edges@.len(),
            final(self).root().edges@.len() == r + 1,
            final(self).root().edges@.subrange(0, r as int) == old(self).root().edges@,
            final(self).root().transform == old(self).root().transform,
            child_node(final(self).root().edges@[r as int]) matches Some(n) && n.transform == transform
                && n.edges@.len() == 1 && n.edges@[0].child == SceneGraphChild::Model(
                MeshId(old(self).meshes().len() as usize),
            ),
            final(self).meshes().len() == old(self).meshes().len() + 1,
            final(self).meshes().subrange(0, old(self).meshes().len() as int) == old(self).meshes(),
            is_cube_model(final(self).meshes().last(), lo, hi),
            final(self).root().leaves(Seq::empty()) == old(self).root().leaves(Seq::empty()).push(
                (
                    seq![final(self).root().edges@[r as int].edge_id, child_node(final(self).root().edges@[r as int])->Some_0.edges@[0].edge_id],
                    MeshId(old(self).meshes().len() as usize),
                ),
            ),
            final(self).selected() == old(self).selected(),
            final(self).hierarchy_dirty(),
    {
        self.add_object(cube_model(lo, hi), transform)
    }

    /// Adds a raw flat mesh (its own render cache) under a new child node of
    /// the root with the given transform; returns the node's index.
    pub fn add_plane(&mut self, plane: Mesh<T>, transform: Transform) -> (r: usize)
        requires
            old(self).wf(),
            plane.wf(),
        ensures
            final(self).wf(),
            r == old(self).root().edges@.len(),
            final(self).root().edges@.len() == r + 1,
            final(self).root().edges@.subrange(0, r as int) == old(self).root().edges@,
            final(self).root().transform == old(self).root().transform,
            child_node(final(self).root().edges@[r as int]) matches Some(n) && n.transform == transform
                && n.edges@.len() == 1 && n.edges@[0].child == SceneGraphChild::Model(
                MeshId(old(self).meshes().len() as usize),
            ),
            final(self).meshes() == old(self).meshes().push(ModelVariant::Mesh(plane)),
            final(self).root().leaves(Seq::empty()) == old(self).root().leaves(Seq::empty()).push(
                (
                    seq![final(self).root().edges@[r as int].edge_id, child_node(final(self).root().edges@[r as int])->Some_0.edges@[0].edge_id],
                    MeshId(old(self).meshes().len() as usize),
                ),
            ),
            final(self).selected() == old(self).selected(),
            final(self).hierarchy_dirty(),
    {
        self.add_object(ModelVariant::Mesh(plane), transform)
    }

    /// Spheres are stood in for by a cube spanning the same box.
    pub fn add_sphere(&mut self, lo: T, hi: T, transform: Transform) -> (r: usize)
        requires
            old(self).wf(),
        ensures
            final(self).wf(),
            r == old(self).root().edges@.len(),
            final(self).root().edges@.len() == r + 1,
            final(self).root().edges@.subrange(0, r as int) == old(self).root().edges@,
            final(self).meshes().len() == old(self).meshes().len() + 1,
            is_cube_model(final(self).meshes().last(), lo, hi),
            final(self).selected() == old(self).selected(),
            final(self).hierarchy_dirty(),
    {
        self.add_cube(lo, hi, transform)
    }

    /// Removes the root's child number `id`, if there is one.
    pub fn remove_object(&mut self, id: usize) -> (r: bool)
        requires
            old(self).wf(),
        ensures
            final(self).wf(),
            r == (id < old(self).root().edges@.len()),
            r ==> final(self).root().edges@ == old(self).root().edges@.remove(id as int)
                && final(self).root().transform == old(self).root().transform
                && final(self).hierarchy_dirty(),
            r ==> final(self).root().leaves(Seq::empty()) == old(self).root().leaves_upto(Seq::empty(), id as int)
                + old(self).root().leaves(Seq::empty()).subrange(
                old(self).root().leaves_upto(Seq::empty(), id + 1).len() as int,
                old(self).root().leaves(Seq::empty()).len() as int,
            ),
            !r ==> *final(self) == *old(self),
            final(self).meshes() == old(self).meshes(),
            final(self).selected() == old(self).selected(),
    {
        if id < self.root.edges.len() {
            self.root.edges.remove(id);
            self.hierarchy_dirty = true;
            proof {
                lemma_leaves_after_remove(old(self).root(), self.root(), Seq::empty(), id as int, self.root().edges@.len() as int);
                lemma_leaves_tail(old(self).root(), Seq::empty(), id as int + 1, old(self).root().edges@.len() as int);
            }
            true
        } else {
            false
        }
    }

    /// Sets the local transform of the root's child node number `id`.
    pub fn update_transform(&mut self, id: usize, transform: Transform) -> (r: bool)
        requires
            old(self).wf(),
        ensures
            final(self).wf(),
            r == (id < old(self).root().edges@.len() && child_node(old(self).root().edges@[id as int]) is Some),
            r ==> {
                &&& final(self).root().edges@.len() == old(self).root().edges@.len()
                &&& forall|k: int|
                    0 <= k < final(self).root().edges@.len() && k != id ==> #[trigger] final(self).root().edges@[k]
                        == old(self).root().edges@[k]
                &&& final(self).root().edges@[id as int].edge_id == old(self).root().edges@[id as int].edge_id
                &&& child_node(final(self).root().edges@[id as int]) matches Some(n) && n.transform == transform
                    && n.edges == child_node(old(self).root().edges@[id as int])->Some_0.edges
                &&& final(self).hierarchy_dirty()
                &&& final(self).dirty()
            },
            !r ==> *final(self) == *old(self),
            final(self).meshes() == old(self).meshes(),
            final(self).selected() == old(self).selected(),
    {
        if id < self.root.edges.len() {
            let is_node = match &self.root.edges[id].child {
                SceneGraphChild::Node(_) => true,
                SceneGraphChild::Model(_) => false,
            };
            if is_node {
                match &mut self.root.edges[id].child {
                    SceneGraphChild::Node(node) => {
                        node.transform = transform;
                    },
                    SceneGraphChild::Model(_) => {},
                }
                self.hierarchy_dirty = true;
                self.dirty = true;
                return true;
            }
        }
        false
    }

    pub fn is_dirty(&self) -> (r: bool)
        ensures
            r == (self.dirty() || self.hierarchy_dirty()),
    {
        self.dirty || self.hierarchy_dirty
    }

    pub fn clear_dirty(&mut self)
        requires
            old(self).wf(),
        ensures
            final(self).wf(),
            !final(self).dirty(),
            final(self).root() == old(self).root(),
            final(self).meshes() == old(self).meshes(),
            final(self).selected() == old(self).selected(),
            final(self).cache() == old(self).cache(),
            final(self).hierarchy_dirty() == old(self).hierarchy_dirty(),
    {
        self.dirty = false;
    }

    pub fn object_count(&self) -> (r: usize)
        ensures
            r == self.root().edges@.len(),
    {
        self.root.edges.len()
    }

    /// The render-instance list, rebuilt first if the tree, the selection or a
    /// model changed since the last build.
    pub fn get_render_instances(&mut self) -> (r: &Vec<RenderInstance>)
        requires
            old(self).wf(),
            old(self).leaf_count() <= usize::MAX,
        ensures
            final(self).wf(),
            !final(self).hierarchy_dirty(),
            r@ == final(self).cache(),
            instances_match(r@, old(self).root(), old(self).selected()),
            final(self).root() == old(self).root(),
            final(self).selected() == old(self).selected(),
            !old(self).hierarchy_dirty() ==> *final(self) == *old(self),
    {
        self.rebuild_cache();
        &self.cached_render_instances
    }

    /// The mesh leaves with their world transforms, edge paths and object ids
    /// (the numbering of the render list), for picking.
    pub fn leaf_instances(&self) -> (r: Vec<SceneLeaf>)
        requires
            self.leaf_count() <= usize::MAX,
        ensures
            r@.len() == self.leaf_count(),
            forall|k: int| 0 <= k < r@.len() ==> {
                &&& (#[trigger] r@[k]).path@ == self.root().leaves(Seq::empty())[k].0
                &&& r@[k].mesh_id == self.root().leaves(Seq::empty())[k].1
                &&& r@[k].object_id == k
                &&& r@[k].transform.spec_matrix() == self.root().leaf_worlds(mat_identity(()))[k]
            },
    {
        let mut object_id: usize = 0;
        let empty: Vec<EdgeId> = Vec::new();
        proof {
            assert(empty@ =~= Seq::<EdgeId>::empty());
        }
        self.root.leaf_instances(&Transform::identity(), &mut object_id, empty.as_slice())
    }

    pub fn clear(&mut self)
        ensures
            final(self).wf(),
            final(self).root().edges@.len() == 0,
            final(self).meshes().len() == 0,
            final(self).cache().len() == 0,
            final(self).selected() is None,
            final(self).hierarchy_dirty(),
            final(self).dirty() == old(self).dirty(),
    {
        self.root = SceneGraphNode::new();
        self.meshes.clear();
        self.cached_render_instances.clear();
        self.hierarchy_dirty = true;
        self.selected_path = None;
    }

    /// The flat form of registered model `mesh_id`, as last synced.
    pub fn get_mesh(&self, mesh_id: usize) -> (r: Option<&Mesh<T>>)
        ensures
            match r {
                Some(m) => mesh_id < self.meshes().len() && *m == self.meshes()[mesh_id as int].render_view(),
                None => mesh_id >= self.meshes().len(),
            },
    {
        if mesh_id < self.meshes.len() {
            Some(self.meshes[mesh_id].get_mesh())
        } else {
            None
        }
    }

    /// Selects the edge path `path` if it is valid; otherwise changes nothing.
    pub fn select_by_edge_path(&mut self, path: Vec<EdgeId>) -> (r: bool)
        requires
            old(self).wf(),
        ensures
            final(self).wf(),
            r == old(self).path_valid(path@),
            r ==> final(self).selected() == Some(path@) && final(self).hierarchy_dirty()
                && final(self).root() == old(self).root() && final(self).meshes() == old(self).meshes(),
            !r ==> *final(self) == *old(self),
    {
        if self.edge_path_is_valid(&path) {
            self.selected_path = Some(path);
            self.hierarchy_dirty = true;
            true
        } else {
            false
        }
    }

    pub fn deselect(&mut self)
        requires
            old(self).wf(),
        ensures
            final(self).wf(),
            final(self).selected() is None,
            final(self).root() == old(self).root(),
            final(self).meshes() == old(self).meshes(),
            old(self).selected() is Some ==> final(self).hierarchy_dirty(),
            old(self).selected() is None ==> *final(self) == *old(self),
    {
        if self.selected_path.is_some() {
            self.selected_path = None;
            self.hierarchy_dirty = true;
        }
    }

    /// Whether `path` is a valid selection path (see `path_valid`).
    fn edge_path_is_valid(&self, path: &Vec<EdgeId>) -> (r: bool)
        ensures
            r == self.path_valid(path@),
    {
        if path.len() == 0 {
            return false;
        }
        let mut current = &self.root;
        let mut i: usize = 0;
        assert(path@.subrange(0, path@.len() as int) =~= path@);
        while i < path.len()
            invariant
                0 < path@.len(),
                i <= path@.len(),
                self.root().path_resolves(path@) == current.path_resolves(path@.subrange(i as int, path@.len() as int)),
            decreases path@.len() - i,
        {
            let ghost rest = path@.subrange(i as int, path@.len() as int);
            assert(rest.drop_first() =~= path@.subrange(i + 1, path@.len() as int));
            assert(rest[0] == path@[i as int]);
            match current.find_edge(path[i]) {
                Some(j) => match &current.edges[j].child {
                    SceneGraphChild::Node(node) => {
                        current = node;
                    },
                    SceneGraphChild::Model(_) => {
                        return i == path.len() - 1;
                    },
                },
                None => {
                    return false;
                },
            }
            i += 1;
        }
        proof {
            assert(path@.subrange(path@.len() as int, path@.len() as int).len() == 0);
        }
        true
    }

    pub fn get_selected_path(&self) -> (r: Option<&Vec<EdgeId>>)
        ensures
            match r {
                Some(p) => self.selected() == Some(p@),
                None => self.selected() is None,
            },
    {
        match &self.selected_path {
            Some(p) => Some(p),
            None => None,
        }
    }

    /// Moves the selection one edge up, unless it is a single edge or empty.
    pub fn select_parent(&mut self) -> (r: bool)
        requires
            old(self).wf(),
        ensures
            final(self).wf(),
            (r, final(self).selected()) == parent_selection(old(self).selected()),
            r ==> final(self).hierarchy_dirty() && final(self).root() == old(self).root()
                && final(self).meshes() == old(self).meshes(),
            !r ==> *final(self) == *old(self),
    {
        let parent = match &self.selected_path {
            Some(path) => if path.len() > 1 {
                Some(path_prefix(path, path.len() - 1))
            } else {
                None
            },
            None => None,
        };
        match parent {
            Some(p) => {
                self.selected_path = Some(p);
                self.hierarchy_dirty = true;
                proof {
                    assert(old(self).selected()->Some_0.drop_last() =~= self.selected()->Some_0);
                }
                true
            },
            None => false,
        }
    }
}

/// The first `n` edges of `path`.
fn path_prefix(path: &Vec<EdgeId>, n: usize) -> (r: Vec<EdgeId>)
    requires
        n <= path@.len(),
    ensures
        r@ == path@.subrange(0, n as int),
{
    let mut out: Vec<EdgeId> = Vec::new();
    let mut i: usize = 0;
    while i < n
        invariant
            n <= path@.len(),
            i <= n,
            out@ == path@.subrange(0, i as int),
        decreases n - i,
    {
        out.push(path[i]);
        i += 1;
        assert(out@ =~= path@.subrange(0, i as int));
    }
    out
}

/// Appending to the root an edge to a node that holds a single mesh edge
/// appends that one leaf to the root's leaves.
proof fn lemma_leaves_after_push(a: SceneGraphNode, b: SceneGraphNode)
    requires
        b.edges@.len() == a.edges@.len() + 1,
        b.edges@.subrange(0, a.edges@.len() as int) == a.edges@,
        child_node(b.edges@[a.edges@.len() as int]) matches Some(n) && n.edges@.len() == 1
            && n.edges@[0].child is Model,
    ensures
        b.leaves(Seq::empty()) == a.leaves(Seq::empty()).push(
            (
                seq![b.edges@[a.edges@.len() as int].edge_id, child_node(b.edges@[a.edges@.len() as int])->Some_0.edges@[0].edge_id],
                child_node(b.edges@[a.edges@.len() as int])->Some_0.edges@[0].child->Model_0,
            ),
        ),
{
    let prefix = Seq::<EdgeId>::empty();
    let k = a.edges@.len() as int;
    lemma_leaves_prefix_same(a, b, prefix, k);
    let e = b.edges@[k];
    let n = child_node(e)->Some_0;
    let p = prefix.push(e.edge_id);
    let m = n.edges@[0].child->Model_0;
    assert(n.leaves_upto(p, 0) == Seq::<(Seq<EdgeId>, MeshId)>::empty());
    assert(n.leaves(p) == n.leaves_upto(p, 0) + seq![(p.push(n.edges@[0].edge_id), m)]);
    assert(p.push(n.edges@[0].edge_id) =~= seq![e.edge_id, n.edges@[0].edge_id]);
    assert(b.leaves(prefix) == b.leaves_upto(prefix, k) + n.leaves(p));
    assert(b.leaves(prefix) =~= a.leaves(prefix).push((seq![e.edge_id, n.edges@[0].edge_id], m)));
}

/// The leaves of the edges from `j` to `k`: the part of `leaves_upto(k)`
/// past `leaves_upto(j)`.
proof fn lemma_leaves_tail(a: SceneGraphNode, prefix: Seq<EdgeId>, j: int, k: int)
    requires
        0 <= j <= k <= a.edges@.len(),
    ensures
        a.leaves_upto(prefix, j).len() <= a.leaves_upto(prefix, k).len(),
        a.leaves_upto(prefix, k) == a.leaves_upto(prefix, j) + a.leaves_upto(prefix, k).subrange(
            a.leaves_upto(prefix, j).len() as int,
            a.leaves_upto(prefix, k).len() as int,
        ),
    decreases k - j,
{
    if j < k {
        lemma_leaves_tail(a, prefix, j, k - 1);
        assert(a.leaves_upto(prefix, k) =~= a.leaves_upto(prefix, j) + a.leaves_upto(prefix, k).subrange(
            a.leaves_upto(prefix, j).len() as int,
            a.leaves_upto(prefix, k).len() as int,
        ));
    } else {
        assert(a.leaves_upto(prefix, k) =~= a.leaves_upto(prefix, j) + a.leaves_upto(prefix, k).subrange(
            a.leaves_upto(prefix, j).len() as int,
            a.leaves_upto(prefix, k).len() as int,
        ));
    }
}

/// Removing edge `id` of a node removes exactly the leaves under it.
proof fn lemma_leaves_after_remove(a: SceneGraphNode, b: SceneGraphNode, prefix: Seq<EdgeId>, id: int, i: int)
    requires
        0 <= id < a.edges@.len(),
        b.edges@ == a.edges@.remove(id),
        0 <= i <= b.edges@.len(),
    ensures
        i <= id ==> b.leaves_upto(prefix, i) == a.leaves_upto(prefix, i),
        i > id ==> {
            &&& a.leaves_upto(prefix, id + 1).len() <= a.leaves_upto(prefix, i + 1).len()
            &&& b.leaves_upto(prefix, i) == a.leaves_upto(prefix, id) + a.leaves_upto(prefix, i + 1).subrange(
                a.leaves_upto(prefix, id + 1).len() as int,
                a.leaves_upto(prefix, i + 1).len() as int,
            )
        },
    decreases i,
{
    if i > 0 {
        lemma_leaves_after_remove(a, b, prefix, id, i - 1);
        if i <= id {
            assert(b.edges@[i - 1] == a.edges@[i - 1]);
        } else if i == id + 1 {
            lemma_leaves_tail(a, prefix, id, id + 1);
            lemma_leaves_tail(a, prefix, id + 1, i + 1);
            assert(b.edges@[i - 1] == a.edges@[i]);
            assert(b.leaves_upto(prefix, i) =~= a.leaves_upto(prefix, id) + a.leaves_upto(prefix, i + 1).subrange(
                a.leaves_upto(prefix, id + 1).len() as int,
                a.leaves_upto(prefix, i + 1).len() as int,
            ));
        } else {
            lemma_leaves_tail(a, prefix, id + 1, i);
            lemma_leaves_tail(a, prefix, id + 1, i + 1);
            lemma_leaves_tail(a, prefix, i, i + 1);
            assert(b.edges@[i - 1] == a.edges@[i]);
            assert(b.leaves_upto(prefix, i) =~= a.leaves_upto(prefix, id) + a.leaves_upto(prefix, i + 1).subrange(
                a.leaves_upto(prefix, id + 1).len() as int,
                a.leaves_upto(prefix, i + 1).len() as int,
            ));
        }
    }
}

proof fn lemma_leaves_prefix_same(a: SceneGraphNode, b: SceneGraphNode, prefix: Seq<EdgeId>, i: int)
    requires
        0 <= i <= a.edges@.len(),
        a.edges@.len() <= b.edges@.len(),
        b.edges@.subrange(0, a.edges@.len() as int) == a.edges@,
    ensures
        b.leaves_upto(prefix, i) == a.leaves_upto(prefix, i),
    decreases i,
{
    if i > 0 {
        lemma_leaves_prefix_same(a, b, prefix, i - 1);
        assert(b.edges@[i - 1] == b.edges@.subrange(0, a.edges@.len() as int)[i - 1]);
    }
}

/// Selection lifecycle: from a selected path of two edges, `select_parent`
/// moves to the one-edge prefix and reports it; from a single edge it
/// reports nothing and keeps the selection. A path whose first edge is not
/// a child edge of the root is not a valid selection, so selecting it fails
/// and keeps the previous selection.
pub proof fn lemma_selection_lifecycle<T: Copy>(s: Scene<T>, p: Seq<EdgeId>, path: Seq<EdgeId>)
    requires
        p.len() == 2,
        path.len() > 0,
        s.root().edge_index(path[0]) is None,
    ensures
        parent_selection(Some(p)) == (true, Some(seq![p[0]])),
        parent_selection(Some(seq![p[0]])) == (false, Some(seq![p[0]])),
        !s.path_valid(path),
{
    assert(p.drop_last() =~= seq![p[0]]);
}


} // verus!
