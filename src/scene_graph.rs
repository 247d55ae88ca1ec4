use vstd::prelude::*;
use vstd::arithmetic::power2::pow2;
use uuid::Uuid;
use crate::model::{synced_from, ModelVariant};
use crate::render_instance::{MeshId, RenderInstance};
use crate::transform::{mat_product, Transform};
use glam::Mat4;

verus! {

#[verifier::external_type_specification]
#[verifier::external_body]
pub struct ExUuid(uuid::Uuid);

#[verifier::external_type_specification]
#[verifier::external_body]
pub struct ExUuidError(uuid::Error);

/// Lower-case hexadecimal digit of `n` (0 to 15).
pub open spec fn hex_digit(n: int) -> char {
    if n == 0 { '0' } else if n == 1 { '1' } else if n == 2 { '2' } else if n == 3 { '3' }
    else if n == 4 { '4' } else if n == 5 { '5' } else if n == 6 { '6' } else if n == 7 { '7' }
    else if n == 8 { '8' } else if n == 9 { '9' } else if n == 10 { 'a' } else if n == 11 { 'b' }
    else if n == 12 { 'c' } else if n == 13 { 'd' } else if n == 14 { 'e' } else { 'f' }
}

/// The hyphenated lower-case text of a 128-bit identifier: its 32 hex digits,
/// most significant first, in groups of 8-4-4-4-12.
pub open spec fn uuid_text(bits: u128) -> Seq<char> {
    Seq::new(
        36,
        |p: int|
            if p == 8 || p == 13 || p == 18 || p == 23 {
                '-'
            } else {
                let d = if p < 8 { p } else if p < 13 { p - 1 } else if p < 18 { p - 2 } else if p
                    < 23 { p - 3 } else { p - 4 };
                hex_digit((bits as int / pow2((4 * (31 - d)) as nat) as int) % 16)
            },
    )
}

/// The identifier that `Uuid::parse_str` reads from a text, if it accepts it.
pub uninterp spec fn parsed_uuid(s: Seq<char>) -> Option<u128>;

/// Relies on uuid's `Uuid::new_v4` and `Uuid::as_u128`: random bits with
/// the version-4 field (bits 76 to 79) set to 4 and the variant field
/// (bits 62 and 63) set to binary 10.
#[verifier::external_body]
fn random_uuid_bits() -> (r: u128)
    ensures
        (r >> 76u128) & 0xfu128 == 4u128,
        (r >> 62u128) & 3u128 == 2u128,
{
    Uuid::new_v4().as_u128()
}

/// Relies on uuid's `Uuid::from_u128`.
#[verifier::external_body]
fn uuid_from_bits(bits: u128) -> Uuid {
    Uuid::from_u128(bits)
}

/// Relies on uuid's `Display` for `Uuid` (lower-case hyphenated form) over
/// `Uuid::from_u128`, which keeps the bits in big-endian order; and on
/// `Uuid::parse_str` reading that hyphenated form back to the same bits.
#[verifier::external_body]
fn uuid_string(bits: u128) -> (r: String)
    ensures
        r@ == uuid_text(bits),
        parsed_uuid(r@) == Some(bits),
{
    Uuid::from_u128(bits).to_string()
}

/// Relies on uuid's `Uuid::parse_str` and `Uuid::as_u128`: the bits read
/// from the text, or the parser's error.
#[verifier::external_body]
fn parse_uuid(s: &str) -> (r: Result<u128, uuid::Error>)
    ensures
        match r {
            Ok(b) => parsed_uuid(s@) == Some(b),
            Err(_) => parsed_uuid(s@) is None,
        },
{
    match Uuid::parse_str(s) {
        Ok(u) => Ok(u.as_u128()),
        Err(e) => Err(e),
    }
}

/// Unique identifier of a parent-to-child link in the scene graph.
#[derive(Debug, Clone, Copy, PartialEq, Eq, Hash, Structural)]
pub struct EdgeId(u128);

/// Two edge identifiers with the same bits are the same identifier.
pub proof fn lemma_edge_id_bits(a: EdgeId, b: EdgeId)
    requires
        a.bits() == b.bits(),
    ensures
        a == b,
{
}

/// A text that is not an edge identifier.
#[derive(Debug, Clone, Copy, PartialEq, Eq, Structural)]
pub struct InvalidEdgeId;

impl EdgeId {
    pub closed spec fn bits(&self) -> u128 {
        self.0
    }

    /// A fresh random (version-4) identifier.
    pub fn new() -> (r: EdgeId)
        ensures
            (r.bits() >> 76u128) & 0xfu128 == 4u128,
            (r.bits() >> 62u128) & 3u128 == 2u128,
    {
        EdgeId(random_uuid_bits())
    }

    pub fn as_uuid(&self) -> (r: Uuid) {
        uuid_from_bits(self.0)
    }

    /// The hyphenated lower-case form, e.g. `a1a2a3a4-b1b2-c1c2-d1d2-d3d4d5d6d7d8`.
    pub fn to_string(&self) -> (r: String)
        ensures
            r@ == uuid_text(self.bits()),
            parsed_uuid(r@) == Some(self.bits()),
    {
        uuid_string(self.0)
    }

    pub fn from_string(s: &str) -> (r: Result<EdgeId, InvalidEdgeId>)
        ensures
            r is Ok <==> parsed_uuid(s@) is Some,
            r matches Ok(id) ==> parsed_uuid(s@) == Some(id.bits()),
    {
        match parse_uuid(s) {
            Ok(b) => Ok(EdgeId(b)),
            Err(_) => Err(InvalidEdgeId),
        }
    }
}

/// A child is either a node owned by its parent or a reference into the
/// scene's model registry.
pub enum SceneGraphChild {
    Node(Box<SceneGraphNode>),
    Model(MeshId),
}

/// A parent-to-child link with its identifier.
pub struct SceneGraphEdge {
    pub edge_id: EdgeId,
    pub child: SceneGraphChild,
}

/// A node of the scene graph: a local transform and ordered child links.
pub struct SceneGraphNode {
    pub transform: Transform,
    pub edges: Vec<SceneGraphEdge>,
}

/// A mesh leaf as a traversal meets it: the mesh, its world transform, its
/// object id in traversal order and the edge path from the root to it.
pub struct SceneLeaf {
    pub mesh_id: MeshId,
    pub transform: Transform,
    pub object_id: usize,
    pub path: Vec<EdgeId>,
}

/// A leaf is drawn selected when its path lies on the selected path, or the
/// selected path lies on it.
pub open spec fn selection_flag(path: Seq<EdgeId>, selected: Option<Seq<EdgeId>>) -> bool {
    match selected {
        Some(s) => s.is_prefix_of(path) || path.is_prefix_of(s),
        None => false,
    }
}

impl SceneGraphNode {
    /// The mesh leaves under the first `i` edges, in pre-order, each with its
    /// edge path (starting from `prefix`) and mesh.
    pub open spec fn leaves_upto(&self, prefix: Seq<EdgeId>, i: int) -> Seq<(Seq<EdgeId>, MeshId)>
        decreases self, i,
    {
        if i <= 0 || i > self.edges.len() {
            Seq::empty()
        } else {
            let e = self.edges@[i - 1];
            let p = prefix.push(e.edge_id);
            self.leaves_upto(prefix, i - 1) + match e.child {
                SceneGraphChild::Node(n) => n.leaves_upto(p, n.edges.len() as int),
                SceneGraphChild::Model(m) => seq![(p, m)],
            }
        }
    }

    /// World matrices of the mesh leaves under the first `i` edges, in
    /// pre-order, when this node hangs below a parent with world matrix
    /// `parent`: each node's world is `parent * local`.
    pub open spec fn leaf_worlds_upto(&self, parent: Mat4, i: int) -> Seq<Mat4>
        decreases self, i,
    {
        if i <= 0 || i > self.edges.len() {
            Seq::empty()
        } else {
            let world = mat_product(parent, self.transform.spec_matrix());
            self.leaf_worlds_upto(parent, i - 1) + match self.edges@[i - 1].child {
                SceneGraphChild::Node(n) => n.leaf_worlds_upto(world, n.edges.len() as int),
                SceneGraphChild::Model(_) => seq![world],
            }
        }
    }

    /// World matrices of all mesh leaves of the subtree, in pre-order.
    pub open spec fn leaf_worlds(&self, parent: Mat4) -> Seq<Mat4> {
        self.leaf_worlds_upto(parent, self.edges.len() as int)
    }

    /// All mesh leaves of the subtree, in pre-order.
    pub open spec fn leaves(&self, prefix: Seq<EdgeId>) -> Seq<(Seq<EdgeId>, MeshId)> {
        self.leaves_upto(prefix, self.edges.len() as int)
    }

    /// The meshes referenced under the first `i` edges, in pre-order.
    pub open spec fn mesh_refs_upto(&self, i: int) -> Seq<MeshId>
        decreases self, i,
    {
        if i <= 0 || i > self.edges.len() {
            Seq::empty()
        } else {
            self.mesh_refs_upto(i - 1) + match self.edges@[i - 1].child {
                SceneGraphChild::Node(n) => n.mesh_refs_upto(n.edges.len() as int),
                SceneGraphChild::Model(m) => seq![m],
            }
        }
    }

    /// The meshes referenced anywhere in the subtree.
    pub open spec fn mesh_refs(&self) -> Seq<MeshId> {
        self.mesh_refs_upto(self.edges.len() as int)
    }

    /// The first of the first `n` edges that carries `id`.
    pub open spec fn edge_index_upto(&self, id: EdgeId, n: int) -> Option<int>
        decreases n,
    {
        if n <= 0 {
            None
        } else {
            match self.edge_index_upto(id, n - 1) {
                Some(j) => Some(j),
                None => if self.edges@[n - 1].edge_id == id { Some(n - 1) } else { None },
            }
        }
    }

    /// The first edge of this node that carries `id`.
    pub open spec fn edge_index(&self, id: EdgeId) -> Option<int> {
        self.edge_index_upto(id, self.edges.len() as int)
    }

    /// Each element of `path` names an edge of the node reached so far, and
    /// only the last may lead to a mesh.
    pub open spec fn path_resolves(&self, path: Seq<EdgeId>) -> bool
        decreases path.len(),
    {
        if path.len() == 0 {
            true
        } else {
            match self.edge_index(path[0]) {
                None => false,
                Some(j) => match self.edges@[j].child {
                    SceneGraphChild::Node(n) => n.path_resolves(path.drop_first()),
                    SceneGraphChild::Model(_) => path.len() == 1,
                },
            }
        }
    }

    /// Index of the first edge that carries `id`.
    pub fn find_edge(&self, id: EdgeId) -> (r: Option<usize>)
        ensures
            match r {
                Some(j) => self.edge_index(id) == Some(j as int) && j < self.edges.len(),
                None => self.edge_index(id) is None,
            },
    {
        let mut i: usize = 0;
        while i < self.edges.len()
            invariant
                i <= self.edges.len(),
                self.edge_index_upto(id, i as int) is None,
            decreases self.edges.len() - i,
        {
            if self.edges[i].edge_id == id {
                proof {
                    lemma_edge_index_stays(self, id, i as int + 1, self.edges.len() as int);
                }
                return Some(i);
            }
            i += 1;
        }
        None
    }

    /// Brings the flat form of every model the subtree references up to date.
    pub fn sync_render_mesh<T: Copy>(&self, meshes: &mut Vec<ModelVariant<T>>)
        requires
            forall|k: int| 0 <= k < old(meshes).len() ==> (#[trigger] old(meshes)@[k]).wf(),
        ensures
            final(meshes).len() == old(meshes).len(),
            forall|k: int|
                0 <= k < final(meshes).len() ==> if self.mesh_refs().contains(MeshId(k as usize)) {
                    synced_from(old(meshes)@[k], #[trigger] final(meshes)@[k])
                } else {
                    final(meshes)@[k] == old(meshes)@[k]
                },
        decreases self,
    {
        let ghost orig = meshes@;
        let mut i: usize = 0;
        while i < self.edges.len()
            invariant
                i <= self.edges.len(),
                meshes.len() == orig.len(),
                forall|k: int| 0 <= k < orig.len() ==> (#[trigger] orig[k]).wf(),
                forall|k: int|
                    0 <= k < meshes.len() ==> if self.mesh_refs_upto(i as int).contains(MeshId(k as usize)) {
                        synced_from(orig[k], #[trigger] meshes@[k])
                    } else {
                        meshes@[k] == orig[k]
                    },
            decreases self.edges.len() - i,
        {
            let ghost before = meshes@;
            proof {
                assert forall|k: int| 0 <= k < before.len() implies (#[trigger] before[k]).wf() by {
                    if self.mesh_refs_upto(i as int).contains(MeshId(k as usize)) {
                        assert(synced_from(orig[k], before[k]));
                    } else {
                        assert(before[k] == orig[k]);
                    }
                }
            }
            proof {
                assert(self.mesh_refs_upto(i as int + 1) == self.mesh_refs_upto(i as int) + match self.edges@[i as int].child {
                    SceneGraphChild::Node(n) => n.mesh_refs(),
                    SceneGraphChild::Model(m) => seq![m],
                });
            }
            match &self.edges[i].child {
                SceneGraphChild::Node(node) => {
                    assert(decreases_to!(self => self.edges@[i as int]));
                    node.sync_render_mesh(meshes);
                    proof {
                        lemma_sync_step(orig, before, meshes@, self.mesh_refs_upto(i as int), node.mesh_refs());
                    }
                },
                SceneGraphChild::Model(mesh_id) => {
                    let ghost idx = mesh_id.0 as int;
                    if mesh_id.0 < meshes.len() {
                        meshes[mesh_id.0].sync_render_mesh();
                        assert(synced_from(before[idx], meshes@[idx]));
                        assert forall|k: int| 0 <= k < meshes.len() && k != idx implies meshes@[k] == before[k] by {}
                    }
                    proof {
                        assert forall|k: int| 0 <= k < meshes.len() implies if seq![*mesh_id].contains(MeshId(k as usize)) {
                            synced_from(before[k], #[trigger] meshes@[k])
                        } else {
                            meshes@[k] == before[k]
                        } by {
                            if seq![*mesh_id].contains(MeshId(k as usize)) {
                                let j = choose|j: int| 0 <= j < 1 && seq![*mesh_id][j] == MeshId(k as usize);
                                assert(j == 0);
                                assert(k == idx);
                            } else {
                                assert(seq![*mesh_id][0] == *mesh_id);
                                assert(k != idx);
                            }
                        }
                        lemma_sync_step(orig, before, meshes@, self.mesh_refs_upto(i as int), seq![*mesh_id]);
                    }
                },
            }
            i += 1;
        }
    }

    pub fn new() -> (r: SceneGraphNode)
        ensures
            r.edges@.len() == 0,
    {
        SceneGraphNode { transform: Transform::identity(), edges: Vec::new() }
    }

    pub fn with_transform(transform: Transform) -> (r: SceneGraphNode)
        ensures
            r.transform == transform,
            r.edges@.len() == 0,
    {
        SceneGraphNode { transform, edges: Vec::new() }
    }

    /// Appends a child under a fresh edge and returns the edge's id.
    pub fn add_child(&mut self, child: SceneGraphChild) -> (r: EdgeId)
        ensures
            final(self).edges@ == old(self).edges@.push(SceneGraphEdge { edge_id: r, child }),
            final(self).transform == old(self).transform,
    {
        let edge_id = EdgeId::new();
        self.edges.push(SceneGraphEdge { edge_id, child });
        edge_id
    }

    /// Every mesh leaf in pre-order with its world transform, edge path and
    /// object id; ids count up from `*object_id`, which ends past the last.
    pub fn leaf_instances(&self, parent_transform: &Transform, object_id: &mut usize, current_path: &[EdgeId]) -> (r: Vec<SceneLeaf>)
        requires
            *old(object_id) + self.leaves(current_path@).len() <= usize::MAX,
        ensures
            r@.len() == self.leaves(current_path@).len(),
            r@.len() == self.leaf_worlds(parent_transform.spec_matrix()).len(),
            *final(object_id) == *old(object_id) + r@.len(),
            forall|k: int| 0 <= k < r@.len() ==> {
                &&& (#[trigger] r@[k]).path@ == self.leaves(current_path@)[k].0
                &&& r@[k].mesh_id == self.leaves(current_path@)[k].1
                &&& r@[k].object_id == *old(object_id) + k
                &&& r@[k].transform.spec_matrix() == self.leaf_worlds(parent_transform.spec_matrix())[k]
            },
        decreases self,
    {
        let world_transform = self.transform.compose_with_parent(parent_transform);
        let mut instances: Vec<SceneLeaf> = Vec::new();
        let ghost start = *object_id;
        let ghost prefix = current_path@;
        let ghost pm = parent_transform.spec_matrix();
        let mut i: usize = 0;
        while i < self.edges.len()
            invariant
                i <= self.edges.len(),
                prefix == current_path@,
                *object_id == start + instances@.len(),
                start + self.leaves(prefix).len() <= usize::MAX,
                pm == parent_transform.spec_matrix(),
                world_transform.spec_matrix() == mat_product(pm, self.transform.spec_matrix()),
                instances@.len() == self.leaves_upto(prefix, i as int).len(),
                instances@.len() == self.leaf_worlds_upto(pm, i as int).len(),
                forall|k: int| 0 <= k < instances@.len() ==> {
                    &&& (#[trigger] instances@[k]).path@ == self.leaves_upto(prefix, i as int)[k].0
                    &&& instances@[k].mesh_id == self.leaves_upto(prefix, i as int)[k].1
                    &&& instances@[k].object_id == start + k
                    &&& instances@[k].transform.spec_matrix() == self.leaf_worlds_upto(pm, i as int)[k]
                },
            decreases self.edges.len() - i,
        {
            proof {
                lemma_leaves_upto_grows(self, prefix, i as int + 1, self.edges.len() as int);
            }
            let edge = &self.edges[i];
            let child_path = extend_path(current_path, edge.edge_id);
            let ghost before = instances@;
            match &edge.child {
                SceneGraphChild::Node(child_node) => {
                    assert(decreases_to!(self => self.edges@[i as int]));
                    let mut sub = child_node.leaf_instances(&world_transform, object_id, child_path.as_slice());
                    instances.append(&mut sub);
                },
                SceneGraphChild::Model(mesh_id) => {
                    instances.push(SceneLeaf {
                        mesh_id: *mesh_id,
                        transform: world_transform,
                        object_id: *object_id,
                        path: child_path,
                    });
                    *object_id += 1;
                },
            }
            proof {
                let upto = self.leaves_upto(prefix, i as int + 1);
                let wupto = self.leaf_worlds_upto(pm, i as int + 1);
                assert(upto == self.leaves_upto(prefix, i as int) + match self.edges@[i as int].child {
                    SceneGraphChild::Node(n) => n.leaves(prefix.push(self.edges@[i as int].edge_id)),
                    SceneGraphChild::Model(m) => seq![(prefix.push(self.edges@[i as int].edge_id), m)],
                });
                assert(wupto == self.leaf_worlds_upto(pm, i as int) + match self.edges@[i as int].child {
                    SceneGraphChild::Node(n) => n.leaf_worlds(mat_product(pm, self.transform.spec_matrix())),
                    SceneGraphChild::Model(_) => seq![mat_product(pm, self.transform.spec_matrix())],
                });
                assert forall|k: int| 0 <= k < instances@.len() implies {
                    &&& (#[trigger] instances@[k]).path@ == upto[k].0
                    &&& instances@[k].mesh_id == upto[k].1
                    &&& instances@[k].object_id == start + k
                    &&& instances@[k].transform.spec_matrix() == wupto[k]
                } by {
                    if k < before.len() {
                        assert(instances@[k] == before[k]);
                    }
                }
            }
            i += 1;
        }
        instances
    }

    /// The render instances of the subtree: its mesh leaves in pre-order with
    /// ids counting up from `*object_id` and their selection flags.
    pub fn flatten_to_render_instances(
        &self,
        parent_transform: &Transform,
        object_id: &mut usize,
        current_path: &[EdgeId],
        selected_path: Option<&Vec<EdgeId>>,
    ) -> (r: Vec<RenderInstance>)
        requires
            *old(object_id) + self.leaves(current_path@).len() <= usize::MAX,
        ensures
            r@.len() == self.leaves(current_path@).len(),
            *final(object_id) == *old(object_id) + r@.len(),
            forall|k: int| 0 <= k < r@.len() ==> {
                &&& (#[trigger] r@[k]).mesh_id == self.leaves(current_path@)[k].1
                &&& r@[k].id == *old(object_id) + k
                &&& r@[k].transform.spec_matrix() == self.leaf_worlds(parent_transform.spec_matrix())[k]
                &&& r@[k].is_selected == selection_flag(
                    self.leaves(current_path@)[k].0,
                    match selected_path {
                        Some(s) => Some(s@),
                        None => None,
                    },
                )
            },
    {
        let leaves = self.leaf_instances(parent_transform, object_id, current_path);
        let mut instances: Vec<RenderInstance> = Vec::new();
        let mut k: usize = 0;
        while k < leaves.len()
            invariant
                k <= leaves@.len(),
                instances@.len() == k,
                forall|j: int| 0 <= j < k ==> {
                    &&& (#[trigger] instances@[j]).mesh_id == leaves@[j].mesh_id
                    &&& instances@[j].id == leaves@[j].object_id
                    &&& instances@[j].transform == leaves@[j].transform
                    &&& instances@[j].is_selected == selection_flag(
                        leaves@[j].path@,
                        match selected_path {
                            Some(s) => Some(s@),
                            None => None,
                        },
                    )
                },
            decreases leaves@.len() - k,
        {
            let leaf = &leaves[k];
            let is_selected = match selected_path {
                Some(sel) => is_prefix(sel.as_slice(), leaf.path.as_slice()) || is_prefix(leaf.path.as_slice(), sel.as_slice()),
                None => false,
            };
            instances.push(RenderInstance {
                mesh_id: leaf.mesh_id,
                transform: leaf.transform,
                id: leaf.object_id,
                is_selected,
            });
            k += 1;
        }
        instances
    }
}

proof fn lemma_sync_step<T: Copy>(
    orig: Seq<ModelVariant<T>>,
    before: Seq<ModelVariant<T>>,
    after: Seq<ModelVariant<T>>,
    old_refs: Seq<MeshId>,
    added: Seq<MeshId>,
)
    requires
        before.len() == orig.len(),
        after.len() == orig.len(),
        forall|k: int|
            0 <= k < before.len() ==> if old_refs.contains(MeshId(k as usize)) {
                synced_from(orig[k], #[trigger] before[k])
            } else {
                before[k] == orig[k]
            },
        forall|k: int|
            0 <= k < after.len() ==> if added.contains(MeshId(k as usize)) {
                synced_from(before[k], #[trigger] after[k])
            } else {
                after[k] == before[k]
            },
    ensures
        forall|k: int|
            0 <= k < after.len() ==> if (old_refs + added).contains(MeshId(k as usize)) {
                synced_from(orig[k], #[trigger] after[k])
            } else {
                after[k] == orig[k]
            },
{
    assert forall|k: int| 0 <= k < after.len() implies if (old_refs + added).contains(MeshId(k as usize)) {
        synced_from(orig[k], #[trigger] after[k])
    } else {
        after[k] == orig[k]
    } by {
        let id = MeshId(k as usize);
        let all = old_refs + added;
        assert(before[k] == before[k]);
        if old_refs.contains(id) {
            let j = choose|j: int| 0 <= j < old_refs.len() && old_refs[j] == id;
            assert(all[j] == id);
        }
        if added.contains(id) {
            let j = choose|j: int| 0 <= j < added.len() && added[j] == id;
            assert(all[old_refs.len() + j] == id);
        }
        if all.contains(id) && !old_refs.contains(id) && !added.contains(id) {
            let j = choose|j: int| 0 <= j < all.len() && all[j] == id;
            if j < old_refs.len() {
                assert(old_refs[j] == id);
            } else {
                assert(added[j - old_refs.len()] == id);
            }
        }
    }
}

proof fn lemma_edge_index_stays(node: &SceneGraphNode, id: EdgeId, i: int, n: int)
    requires
        0 < i <= n <= node.edges.len(),
        node.edge_index_upto(id, i) is Some,
    ensures
        node.edge_index_upto(id, n) == node.edge_index_upto(id, i),
    decreases n - i,
{
    if i < n {
        lemma_edge_index_stays(node, id, i, n - 1);
    }
}

proof fn lemma_leaves_upto_grows(node: &SceneGraphNode, prefix: Seq<EdgeId>, i: int, j: int)
    requires
        0 <= i <= j <= node.edges.len(),
    ensures
        node.leaves_upto(prefix, i).len() <= node.leaves_upto(prefix, j).len(),
    decreases j - i,
{
    if i < j {
        lemma_leaves_upto_grows(node, prefix, i, j - 1);
    }
}

/// `path` with `id` appended.
fn extend_path(path: &[EdgeId], id: EdgeId) -> (r: Vec<EdgeId>)
    ensures
        r@ == path@.push(id),
{
    let mut out: Vec<EdgeId> = Vec::new();
    let mut i: usize = 0;
    while i < path.len()
        invariant
            i <= path@.len(),
            out@ == path@.subrange(0, i as int),
        decreases path@.len() - i,
    {
        out.push(path[i]);
        i += 1;
        assert(out@ =~= path@.subrange(0, i as int));
    }
    out.push(id);
    assert(out@ =~= path@.push(id));
    out
}

/// Whether `a` is a prefix of `b`.
fn is_prefix(a: &[EdgeId], b: &[EdgeId]) -> (r: bool)
    ensures
        r == a@.is_prefix_of(b@),
{
    if a.len() > b.len() {
        return false;
    }
    let mut i: usize = 0;
    while i < a.len()
        invariant
            a@.len() <= b@.len(),
            i <= a@.len(),
            forall|j: int| 0 <= j < i ==> a@[j] == b@[j],
        decreases a@.len() - i,
    {
        if a[i] != b[i] {
            return false;
        }
        i += 1;
    }
    true
}

} // verus!
