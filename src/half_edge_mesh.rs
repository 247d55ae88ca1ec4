use vstd::prelude::*;
use vstd::arithmetic::div_mod::lemma_fundamental_div_mod_converse;
use vstd::set_lib::{lemma_int_range, lemma_len_subset, set_int_range};
use std::collections::HashMap;
use crate::mesh::{cube_coords, Mesh};
use crate::model::ToMesh;

verus! {

broadcast use vstd::std_specs::hash::group_hash_axioms;

#[derive(Debug, Clone, Copy, PartialEq, Eq, Hash, Structural)]
pub struct VertexIndex(pub usize);

#[derive(Debug, Clone, Copy, PartialEq, Eq, Hash, Structural)]
pub struct HalfEdgeIndex(pub usize);

#[derive(Debug, Clone, Copy, PartialEq, Eq, Hash, Structural)]
pub struct FaceIndex(pub usize);

pub struct Vertex<T> {
    pub position: [T; 3],
    /// Some half-edge leaving this vertex: the entry point of traversals.
    pub seed_half_edge: Option<HalfEdgeIndex>,
}

#[derive(Debug, Clone, Copy, PartialEq, Eq, Structural)]
pub struct HalfEdge {
    pub target_vertex_index: VertexIndex,
    /// The half-edge running the other way along the same edge; `None` on a boundary.
    pub twin_index: Option<HalfEdgeIndex>,
    pub next_edge: HalfEdgeIndex,
    pub prev_edge: HalfEdgeIndex,
    pub face_index: Option<FaceIndex>,
}

#[derive(Debug, Clone, Copy, PartialEq, Eq, Structural)]
pub struct Face {
    pub seed_half_edge: HalfEdgeIndex,
}

/// Arena-backed half-edge mesh: all links are indices into the three vectors.
pub struct HalfEdgeMesh<T> {
    pub vertices: Vec<Vertex<T>>,
    pub half_edges: Vec<HalfEdge>,
    pub faces: Vec<Face>,
}

/// Bound on the vertex count: vertex indices are stored as `u32` in flat meshes.
pub open spec fn max_vertices() -> int {
    0x1_0000_0000
}

// ---------------------------------------------------------------------------
// Half-edges of a flat triangle buffer: half-edge `i` runs from corner `i` to
// the next corner of the same triangle.
// ---------------------------------------------------------------------------

pub open spec fn tri_next(i: int) -> int {
    if i % 3 == 2 { i - 2 } else { i + 1 }
}

pub open spec fn tri_prev(i: int) -> int {
    if i % 3 == 0 { i + 2 } else { i - 1 }
}

pub open spec fn edge_source(fi: Seq<u32>, i: int) -> int {
    fi[i] as int
}

pub open spec fn edge_target(fi: Seq<u32>, i: int) -> int {
    fi[tri_next(i)] as int
}

/// The first corner among the first `n` that lies on vertex `v`.
pub open spec fn first_corner(fi: Seq<u32>, v: int, n: int) -> Option<int>
    decreases n,
{
    if n <= 0 {
        None
    } else {
        match first_corner(fi, v, n - 1) {
            Some(i) => Some(i),
            None => if fi[n - 1] as int == v { Some(n - 1) } else { None },
        }
    }
}

/// The last half-edge among the first `n` that runs from `s` to `t`.
pub open spec fn last_edge(fi: Seq<u32>, s: int, t: int, n: int) -> Option<int>
    decreases n,
{
    if n <= 0 {
        None
    } else if edge_source(fi, n - 1) == s && edge_target(fi, n - 1) == t {
        Some(n - 1)
    } else {
        last_edge(fi, s, t, n - 1)
    }
}

pub open spec fn as_he(o: Option<int>) -> Option<HalfEdgeIndex> {
    match o {
        Some(i) => Some(HalfEdgeIndex(i as usize)),
        None => None,
    }
}

/// No two half-edges of the buffer run from the same vertex to the same vertex.
pub open spec fn directed_edges_unique(fi: Seq<u32>) -> bool {
    forall|i: int, j: int|
        0 <= i < fi.len() && 0 <= j < fi.len() && i != j ==> #[trigger] edge_source(fi, i)
            != #[trigger] edge_source(fi, j) || edge_target(fi, i) != edge_target(fi, j)
}

/// Key of the directed vertex pair `(s, t)` in the edge map of `from_mesh`.
pub open spec fn edge_key(s: u32, t: u32) -> u64 {
    (s as int * 0x1_0000_0000 + t as int) as u64
}

/// Half-edge `i` of a flat triangle buffer, with the given twin.
pub open spec fn flat_half_edge(fi: Seq<u32>, i: int, twin: Option<HalfEdgeIndex>) -> HalfEdge {
    HalfEdge {
        target_vertex_index: VertexIndex(edge_target(fi, i) as usize),
        twin_index: twin,
        next_edge: HalfEdgeIndex(tri_next(i) as usize),
        prev_edge: HalfEdgeIndex(tri_prev(i) as usize),
        face_index: Some(FaceIndex((i / 3) as usize)),
    }
}

/// The twin that `from_mesh` gives half-edge `i`.
pub open spec fn flat_twin(fi: Seq<u32>, i: int) -> Option<HalfEdgeIndex> {
    as_he(last_edge(fi, edge_target(fi, i), edge_source(fi, i), fi.len() as int))
}

/// The edge map after its first `n` insertions: each directed vertex pair
/// met so far maps to the last half-edge that runs that way.
pub open spec fn edge_map_upto(m: Map<u64, usize>, fi: Seq<u32>, n: int) -> bool {
    forall|s: u32, t: u32|
        #![trigger edge_key(s, t)]
        (m.contains_key(edge_key(s, t)) <==> last_edge(fi, s as int, t as int, n).is_some())
            && (m.contains_key(edge_key(s, t)) ==> m[edge_key(s, t)] as int == last_edge(
            fi,
            s as int,
            t as int,
            n,
        ).unwrap())
}

proof fn lemma_edge_key_injective(s1: u32, t1: u32, s2: u32, t2: u32)
    requires
        edge_key(s1, t1) == edge_key(s2, t2),
    ensures
        s1 == s2 && t1 == t2,
{
    let d: int = 0x1_0000_0000;
    assert(0 <= s1 as int * d + t1 as int <= u64::MAX) by (nonlinear_arith)
        requires 0 <= s1 < d, 0 <= t1 < d, d == 0x1_0000_0000;
    assert(0 <= s2 as int * d + t2 as int <= u64::MAX) by (nonlinear_arith)
        requires 0 <= s2 < d, 0 <= t2 < d, d == 0x1_0000_0000;
    let k = s1 as int * d + t1 as int;
    lemma_fundamental_div_mod_converse(k, d, s1 as int, t1 as int);
    lemma_fundamental_div_mod_converse(k, d, s2 as int, t2 as int);
}

proof fn lemma_first_corner(fi: Seq<u32>, v: int, n: int)
    requires
        0 <= n <= fi.len(),
    ensures
        first_corner(fi, v, n) matches Some(i) ==> 0 <= i < n && fi[i] as int == v,
        first_corner(fi, v, n) is None ==> forall|i: int| 0 <= i < n ==> fi[i] as int != v,
    decreases n,
{
    if n > 0 {
        lemma_first_corner(fi, v, n - 1);
    }
}

proof fn lemma_last_edge(fi: Seq<u32>, s: int, t: int, n: int)
    requires
        fi.len() % 3 == 0,
        0 <= n <= fi.len(),
    ensures
        last_edge(fi, s, t, n) matches Some(j) ==> 0 <= j < n && edge_source(fi, j) == s
            && edge_target(fi, j) == t,
    decreases n,
{
    if n > 0 {
        lemma_last_edge(fi, s, t, n - 1);
    }
}

/// With no repeated directed edge, the last half-edge from `s` to `t` is the only one.
proof fn lemma_last_edge_unique(fi: Seq<u32>, i: int, n: int)
    requires
        fi.len() % 3 == 0,
        directed_edges_unique(fi),
        0 <= i < n <= fi.len(),
    ensures
        last_edge(fi, edge_source(fi, i), edge_target(fi, i), n) == Some(i),
    decreases n,
{
    if n - 1 != i {
        assert(edge_source(fi, n - 1) != edge_source(fi, i) || edge_target(fi, n - 1) != edge_target(fi, i));
        lemma_last_edge_unique(fi, i, n - 1);
    }
}

fn corner_next(i: usize) -> (r: usize)
    requires
        i < usize::MAX,
    ensures
        r == tri_next(i as int),
{
    if i % 3 == 2 { i - 2 } else { i + 1 }
}

fn corner_prev(i: usize, n: usize) -> (r: usize)
    requires
        i < n,
        n % 3 == 0,
    ensures
        r == tri_prev(i as int),
{
    if i % 3 == 0 { i + 2 } else { i - 1 }
}

fn pair_key(s: u32, t: u32) -> (r: u64)
    ensures
        r == edge_key(s, t),
{
    assert(s as int * 0x1_0000_0000 + t as int <= u64::MAX) by (nonlinear_arith)
        requires s <= u32::MAX, t <= u32::MAX;
    (s as u64) * 0x1_0000_0000u64 + (t as u64)
}

/// Sets the seed of the vertex at corner `i` unless an earlier corner set it.
fn record_seed(seeds: &mut Vec<Option<HalfEdgeIndex>>, fi: &Vec<u32>, i: usize)
    requires
        i < fi.len(),
        forall|k: int| 0 <= k < fi.len() ==> (#[trigger] fi@[k] as int) < old(seeds).len(),
        forall|v: int|
            0 <= v < old(seeds).len() ==> #[trigger] old(seeds)@[v] == as_he(
                first_corner(fi@, v, i as int),
            ),
    ensures
        final(seeds).len() == old(seeds).len(),
        forall|v: int|
            0 <= v < final(seeds).len() ==> #[trigger] final(seeds)@[v] == as_he(
                first_corner(fi@, v, i + 1),
            ),
{
    let v = fi[i] as usize;
    if seeds[v].is_none() {
        seeds.set(v, Some(HalfEdgeIndex(i)));
    }
}

impl<T: Copy> HalfEdgeMesh<T> {
    pub open spec fn next_of(&self, i: int) -> int {
        self.half_edges@[i].next_edge.0 as int
    }

    pub open spec fn prev_of(&self, i: int) -> int {
        self.half_edges@[i].prev_edge.0 as int
    }

    pub open spec fn target_of(&self, i: int) -> int {
        self.half_edges@[i].target_vertex_index.0 as int
    }

    pub open spec fn source_of(&self, i: int) -> int {
        self.target_of(self.prev_of(i))
    }

    /// The half-edge reached from `h` by following `next` `k` times.
    pub open spec fn walk_next(&self, h: int, k: nat) -> int
        decreases k,
    {
        if k == 0 { h } else { self.next_of(self.walk_next(h, (k - 1) as nat)) }
    }

    /// The half-edge reached from `h` by following `prev` `k` times.
    pub open spec fn walk_prev(&self, h: int, k: nat) -> int
        decreases k,
    {
        if k == 0 { h } else { self.prev_of(self.walk_prev(h, (k - 1) as nat)) }
    }

    pub open spec fn face_seed(&self, f: int) -> int {
        self.faces@[f].seed_half_edge.0 as int
    }

    pub open spec fn indices_in_range(&self) -> bool {
        let nv = self.vertices.len();
        let nh = self.half_edges.len();
        let nf = self.faces.len();
        &&& forall|i: int|
            0 <= i < nh ==> {
                let he = #[trigger] self.half_edges@[i];
                &&& he.target_vertex_index.0 < nv
                &&& he.next_edge.0 < nh
                &&& he.prev_edge.0 < nh
                &&& (he.twin_index matches Some(t) ==> t.0 < nh)
                &&& (he.face_index matches Some(f) ==> f.0 < nf)
            }
        &&& forall|f: int| 0 <= f < nf ==> (#[trigger] self.faces@[f]).seed_half_edge.0 < nh
        &&& forall|v: int|
            0 <= v < nv ==> ((#[trigger] self.vertices@[v]).seed_half_edge matches Some(h) ==> h.0
                < nh)
    }

    /// `next` and `prev` undo each other.
    pub open spec fn links_inverse(&self) -> bool {
        &&& forall|i: int|
            0 <= i < self.half_edges.len() ==> self.prev_of(#[trigger] self.next_of(i)) == i
        &&& forall|i: int|
            0 <= i < self.half_edges.len() ==> self.next_of(#[trigger] self.prev_of(i)) == i
    }

    /// Walking `next` from the seed of face `f` comes back to it after exactly
    /// `n >= 3` steps, through half-edges that all belong to `f`.
    pub open spec fn face_loop_closed(&self, f: int, n: nat) -> bool {
        let seed = self.face_seed(f);
        &&& 3 <= n <= self.half_edges.len()
        &&& self.walk_next(seed, n) == seed
        &&& forall|k: nat| 0 < k < n ==> #[trigger] self.walk_next(seed, k) != seed
        &&& forall|k: nat|
            k < n ==> self.half_edges@[#[trigger] self.walk_next(seed, k)].face_index == Some(
                FaceIndex(f as usize),
            )
    }

    pub open spec fn face_closed(&self, f: int) -> bool {
        exists|n: nat| #[trigger] self.face_loop_closed(f, n)
    }

    pub open spec fn faces_closed(&self) -> bool {
        forall|f: int| 0 <= f < self.faces.len() ==> #[trigger] self.face_closed(f)
    }

    /// The number of sides of face `f`.
    pub open spec fn face_len(&self, f: int) -> nat {
        choose|n: nat| self.face_loop_closed(f, n)
    }

    /// A twin runs between the same two vertices in the other direction.
    pub open spec fn twins_reversed(&self) -> bool {
        forall|i: int|
            0 <= i < self.half_edges.len() ==> ((#[trigger] self.half_edges@[i]).twin_index matches Some(
                t,
            ) ==> self.source_of(t.0 as int) == self.target_of(i) && self.target_of(t.0 as int)
                == self.source_of(i))
    }

    pub open spec fn seeds_originate(&self) -> bool {
        forall|v: int|
            0 <= v < self.vertices.len() ==> ((#[trigger] self.vertices@[v]).seed_half_edge matches Some(
                h,
            ) ==> self.source_of(h.0 as int) == v)
    }

    pub open spec fn wf(&self) -> bool {
        &&& self.vertices.len() <= max_vertices()
        &&& self.indices_in_range()
        &&& self.links_inverse()
        &&& self.faces_closed()
        &&& self.twins_reversed()
        &&& self.seeds_originate()
    }

    /// Twins come in pairs: the twin of a half-edge's twin is the half-edge itself.
    pub open spec fn twins_symmetric(&self) -> bool {
        forall|i: int|
            0 <= i < self.half_edges.len() ==> ((#[trigger] self.half_edges@[i]).twin_index matches Some(
                t,
            ) ==> self.half_edges@[t.0 as int].twin_index == Some(HalfEdgeIndex(i as usize)))
    }

    /// Vertex `k` of face `f` in loop order: the source of its `k`-th half-edge.
    pub open spec fn face_vertex(&self, f: int, k: int) -> int {
        self.source_of(self.walk_next(self.face_seed(f), k as nat))
    }

    /// Fan triangulation of face `f` with loop `v0 .. v(n-1)`: the triangles
    /// `(v0, vt, v(t+1))` for `t` from 1 to `n - 2`.
    pub open spec fn face_fan(&self, f: int) -> Seq<u32> {
        let n = self.face_len(f) as int;
        Seq::new(
            (3 * (n - 2)) as nat,
            |j: int|
                (if j % 3 == 0 {
                    self.face_vertex(f, 0)
                } else {
                    self.face_vertex(f, j / 3 + j % 3)
                }) as u32,
        )
    }

    /// The fans of the first `f` faces, in face order.
    pub open spec fn fan_upto(&self, f: int) -> Seq<u32>
        decreases f,
    {
        if f <= 0 {
            Seq::empty()
        } else {
            self.fan_upto(f - 1) + self.face_fan(f - 1)
        }
    }

    /// The triangle indices of the flat form.
    pub open spec fn flat_face_indices(&self) -> Seq<u32> {
        self.fan_upto(self.faces.len() as int)
    }

    /// The vertex coordinates of the flat form, a triple per vertex.
    pub open spec fn flat_coords(&self) -> Seq<T> {
        Seq::new((3 * self.vertices.len()) as nat, |j: int| self.vertices@[j / 3].position@[j % 3])
    }

    /// The half-edge after `h` around its source vertex: `next` of its twin,
    /// if it has one.
    pub open spec fn fan_next(&self, h: int) -> Option<int> {
        match self.half_edges@[h].twin_index {
            Some(t) => Some(self.next_of(t.0 as int)),
            None => None,
        }
    }

    /// What the fan walk from `cur` continues with: the walk from the next
    /// half-edge around the vertex, unless there is none or it is `start`.
    pub open spec fn fan_rest(&self, start: int, cur: int, fuel: nat) -> Seq<int>
        decreases fuel, 1nat,
    {
        match self.fan_next(cur) {
            Some(n) => if n != start { self.fan_from(start, n, fuel) } else { Seq::empty() },
            None => Seq::empty(),
        }
    }

    /// The fan walk around the source of `start` from `cur`, at most `fuel`
    /// half-edges long.
    pub open spec fn fan_from(&self, start: int, cur: int, fuel: nat) -> Seq<int>
        decreases fuel, 0nat,
    {
        if fuel == 0 {
            Seq::empty()
        } else {
            seq![cur] + self.fan_rest(start, cur, (fuel - 1) as nat)
        }
    }

    /// The half-edges leaving vertex `v` in fan order, from its seed.
    pub open spec fn outgoing_fan(&self, v: int) -> Seq<int> {
        match self.vertices@[v].seed_half_edge {
            Some(h) => self.fan_from(h.0 as int, h.0 as int, self.half_edges.len() as nat),
            None => Seq::empty(),
        }
    }

    /// Entry `j` of `order` is a neighbour of an earlier entry.
    pub open spec fn found_earlier(&self, order: Seq<VertexIndex>, j: int) -> bool {
        exists|i: int| 0 <= i < j && #[trigger] self.neighbour(order[i].0 as int, order[j].0 as int)
    }

    /// `w` is the target of a half-edge in the outgoing fan of `u`.
    pub open spec fn neighbour(&self, u: int, w: int) -> bool {
        exists|k: int|
            0 <= k < self.outgoing_fan(u).len() && self.target_of(#[trigger] self.outgoing_fan(u)[k]) == w
    }

    /// `self` is the quad cube over `[lo, hi]^3` that `create_cube` builds:
    /// well formed, twins paired, six four-sided faces, the wiring of
    /// `cube_target`, `cube_twin` and `cube_seeds`, and its flat form.
    pub open spec fn is_cube(&self, lo: T, hi: T) -> bool {
        &&& self.wf()
        &&& self.twins_symmetric()
        &&& forall|f: int| 0 <= f < self.faces.len() ==> #[trigger] self.face_loop_closed(f, 4)
        &&& self.vertices.len() == 8
        &&& self.half_edges.len() == 24
        &&& self.faces.len() == 6
        &&& self.flat_coords() == cube_coords(lo, hi)
        &&& self.flat_face_indices() == cube_fan_triangles()
        &&& forall|i: int|
            0 <= i < 24 ==> #[trigger] self.half_edges@[i] == quad_half_edge_spec(i, cube_target(i), cube_twin(i))
        &&& forall|v: int|
            0 <= v < 8 ==> (#[trigger] self.vertices@[v]).seed_half_edge == Some(HalfEdgeIndex(cube_seeds()[v] as usize))
        &&& forall|f: int| 0 <= f < 6 ==> (#[trigger] self.faces@[f]).seed_half_edge == HalfEdgeIndex((4 * f) as usize)
    }

    /// `self` is what `from_mesh` builds of `m`: one vertex per coordinate
    /// triple, seeded with the first half-edge leaving it, and three half-edges
    /// and a face per triangle; twins found by the reversed vertex pair, the
    /// last such half-edge winning when several run the same way.
    pub open spec fn built_from(&self, m: &Mesh<T>) -> bool {
        let fi = m.face_indices@;
        let c = m.vertex_coords@;
        &&& self.vertices.len() == c.len() / 3
        &&& forall|v: int|
            0 <= v < self.vertices.len() ==> (#[trigger] self.vertices@[v]).position@ == seq![
                c[3 * v],
                c[3 * v + 1],
                c[3 * v + 2],
            ] && self.vertices@[v].seed_half_edge == as_he(first_corner(fi, v, fi.len() as int))
        &&& self.half_edges.len() == fi.len()
        &&& forall|i: int|
            0 <= i < fi.len() ==> #[trigger] self.half_edges@[i] == (HalfEdge {
                target_vertex_index: VertexIndex(edge_target(fi, i) as usize),
                twin_index: as_he(
                    last_edge(fi, edge_target(fi, i), edge_source(fi, i), fi.len() as int),
                ),
                next_edge: HalfEdgeIndex(tri_next(i) as usize),
                prev_edge: HalfEdgeIndex(tri_prev(i) as usize),
                face_index: Some(FaceIndex((i / 3) as usize)),
            })
        &&& self.faces.len() == fi.len() / 3
        &&& forall|f: int|
            0 <= f < self.faces.len() ==> (#[trigger] self.faces@[f]).seed_half_edge
                == HalfEdgeIndex((3 * f) as usize)
    }
}

impl<T: Copy> HalfEdgeMesh<T> {
    /// Builds the half-edge structure of a flat triangle buffer (see `built_from`).
    pub fn from_mesh(mesh: &Mesh<T>) -> (r: HalfEdgeMesh<T>)
        requires
            mesh.wf(),
            mesh.vertex_coords.len() / 3 <= max_vertices(),
        ensures
            r.built_from(mesh),
            r.wf(),
            forall|f: int| 0 <= f < r.faces.len() ==> #[trigger] r.face_loop_closed(f, 3),
    {
        let nv = mesh.vertex_count();
        let n = mesh.face_indices.len();
        let nf = mesh.face_count();
        let ghost fi = mesh.face_indices@;

        // Vertex seeds: the first half-edge leaving each vertex.
        let mut seeds: Vec<Option<HalfEdgeIndex>> = Vec::new();
        while seeds.len() < nv
            invariant
                seeds.len() <= nv,
                forall|v: int| 0 <= v < seeds.len() ==> #[trigger] seeds@[v] == as_he(first_corner(fi, v, 0)),
            decreases nv - seeds.len(),
        {
            seeds.push(None);
        }

        // Three half-edges per triangle, linked around it; twins come later.
        let mut half_edges: Vec<HalfEdge> = Vec::new();
        let mut i: usize = 0;
        while i < n
            invariant
                mesh.wf(),
                fi == mesh.face_indices@,
                n == fi.len(),
                nv == mesh.vertex_coords.len() / 3,
                i <= n,
                half_edges.len() == i,
                seeds.len() == nv,
                forall|k: int| 0 <= k < i ==> #[trigger] half_edges@[k] == flat_half_edge(fi, k, None),
                forall|v: int| 0 <= v < nv ==> #[trigger] seeds@[v] == as_he(first_corner(fi, v, i as int)),
            decreases n - i,
        {
            let nx = corner_next(i);
            let pv = corner_prev(i, n);
            assert(nx < n);
            half_edges.push(HalfEdge {
                target_vertex_index: VertexIndex(mesh.face_indices[nx] as usize),
                twin_index: None,
                next_edge: HalfEdgeIndex(nx),
                prev_edge: HalfEdgeIndex(pv),
                face_index: Some(FaceIndex(i / 3)),
            });
            record_seed(&mut seeds, &mesh.face_indices, i);
            i += 1;
        }

        let mut faces: Vec<Face> = Vec::new();
        let mut f: usize = 0;
        while f < nf
            invariant
                nf == n / 3,
                f <= nf,
                faces.len() == f,
                forall|g: int| 0 <= g < f ==> (#[trigger] faces@[g]).seed_half_edge == HalfEdgeIndex((3 * g) as usize),
            decreases nf - f,
        {
            faces.push(Face { seed_half_edge: HalfEdgeIndex(3 * f) });
            f += 1;
        }

        // Map every directed vertex pair to its half-edge; the last one wins.
        let mut edge_map: HashMap<u64, usize> = HashMap::new();
        let mut i: usize = 0;
        while i < n
            invariant
                mesh.wf(),
                fi == mesh.face_indices@,
                n == fi.len(),
                i <= n,
                edge_map_upto(edge_map@, fi, i as int),
            decreases n - i,
        {
            let nx = corner_next(i);
            let s = mesh.face_indices[i];
            let t = mesh.face_indices[nx];
            let key = pair_key(s, t);
            edge_map.insert(key, i);
            proof {
                assert forall|a: u32, b: u32| #![trigger edge_key(a, b)]
                    (edge_map@.contains_key(edge_key(a, b)) <==> last_edge(fi, a as int, b as int, i + 1).is_some())
                    && (edge_map@.contains_key(edge_key(a, b)) ==> edge_map@[edge_key(a, b)] as int
                        == last_edge(fi, a as int, b as int, i + 1).unwrap()) by {
                    if edge_key(a, b) == key {
                        lemma_edge_key_injective(a, b, s, t);
                    }
                }
            }
            i += 1;
        }

        // Twins: the half-edge of the reversed pair, if any.
        let mut i: usize = 0;
        while i < n
            invariant
                mesh.wf(),
                fi == mesh.face_indices@,
                n == fi.len(),
                i <= n,
                edge_map_upto(edge_map@, fi, n as int),
                half_edges.len() == n,
                forall|k: int| 0 <= k < i ==> #[trigger] half_edges@[k] == flat_half_edge(fi, k, flat_twin(fi, k)),
                forall|k: int| i <= k < n ==> #[trigger] half_edges@[k] == flat_half_edge(fi, k, None),
            decreases n - i,
        {
            let nx = corner_next(i);
            let s = mesh.face_indices[i];
            let t = mesh.face_indices[nx];
            let key = pair_key(t, s);
            let twin = match edge_map.get(&key) {
                Some(j) => Some(HalfEdgeIndex(*j)),
                None => None,
            };
            assert(edge_key(t, s) == key);
            let mut he = half_edges[i];
            he.twin_index = twin;
            half_edges.set(i, he);
            i += 1;
        }

        let mut vertices: Vec<Vertex<T>> = Vec::new();
        let mut v: usize = 0;
        while v < nv
            invariant
                nv == mesh.vertex_coords.len() / 3,
                v <= nv,
                seeds.len() == nv,
                vertices.len() == v,
                forall|w: int| 0 <= w < nv ==> #[trigger] seeds@[w] == as_he(first_corner(fi, w, n as int)),
                forall|w: int|
                    0 <= w < v ==> (#[trigger] vertices@[w]).position@ == seq![
                        mesh.vertex_coords@[3 * w],
                        mesh.vertex_coords@[3 * w + 1],
                        mesh.vertex_coords@[3 * w + 2],
                    ] && vertices@[w].seed_half_edge == seeds@[w],
            decreases nv - v,
        {
            let b = 3 * v;
            let position = [mesh.vertex_coords[b], mesh.vertex_coords[b + 1], mesh.vertex_coords[b + 2]];
            vertices.push(Vertex { position, seed_half_edge: seeds[v] });
            v += 1;
        }

        let r = HalfEdgeMesh { vertices, half_edges, faces };
        proof {
            lemma_built_from_wf(&r, mesh);
        }
        r
    }
}

proof fn lemma_tri(i: int, n: int)
    requires
        0 <= i < n,
        n % 3 == 0,
    ensures
        0 <= tri_next(i) < n,
        0 <= tri_prev(i) < n,
        tri_prev(tri_next(i)) == i,
        tri_next(tri_prev(i)) == i,
        tri_next(i) / 3 == i / 3,
        tri_prev(i) / 3 == i / 3,
        i / 3 < n / 3,
{
}

proof fn lemma_built_from_ranges<T: Copy>(h: &HalfEdgeMesh<T>, m: &Mesh<T>)
    requires
        m.wf(),
        h.built_from(m),
    ensures
        h.indices_in_range(),
        h.links_inverse(),
        h.seeds_originate(),
        h.twins_reversed(),
{
    let fi = m.face_indices@;
    let n = fi.len() as int;
    assert forall|i: int| 0 <= i < n implies {
        let he = #[trigger] h.half_edges@[i];
        &&& he.target_vertex_index.0 < h.vertices.len()
        &&& he.next_edge.0 < n
        &&& he.prev_edge.0 < n
        &&& (he.twin_index matches Some(t) ==> t.0 < n)
        &&& (he.face_index matches Some(f) ==> f.0 < h.faces.len())
    } by {
        lemma_tri(i, n);
        assert(fi[tri_next(i)] < h.vertices.len());
        lemma_last_edge(fi, edge_target(fi, i), edge_source(fi, i), n);
    }
    assert forall|v: int| 0 <= v < h.vertices.len() implies
        ((#[trigger] h.vertices@[v]).seed_half_edge matches Some(e) ==> e.0 < n && h.source_of(e.0 as int) == v) by {
        lemma_first_corner(fi, v, n);
        if let Some(e) = h.vertices@[v].seed_half_edge {
            lemma_tri(e.0 as int, n);
            assert(h.half_edges@[e.0 as int] == flat_half_edge(fi, e.0 as int, flat_twin(fi, e.0 as int)));
            assert(h.half_edges@[tri_prev(e.0 as int)] == flat_half_edge(fi, tri_prev(e.0 as int), flat_twin(fi, tri_prev(e.0 as int))));
        }
    }
    assert forall|i: int| 0 <= i < n implies h.prev_of(h.next_of(i)) == i
        && h.next_of(h.prev_of(i)) == i by {
        lemma_tri(i, n);
        assert(h.half_edges@[i] == flat_half_edge(fi, i, flat_twin(fi, i)));
        assert(h.half_edges@[tri_next(i)] == flat_half_edge(fi, tri_next(i), flat_twin(fi, tri_next(i))));
        assert(h.half_edges@[tri_prev(i)] == flat_half_edge(fi, tri_prev(i), flat_twin(fi, tri_prev(i))));
    }
    assert forall|i: int| 0 <= i < n implies ((#[trigger] h.half_edges@[i]).twin_index matches Some(t)
        ==> h.source_of(t.0 as int) == h.target_of(i) && h.target_of(t.0 as int) == h.source_of(i)) by {
        lemma_tri(i, n);
        lemma_last_edge(fi, edge_target(fi, i), edge_source(fi, i), n);
        assert(h.half_edges@[tri_prev(i)] == flat_half_edge(fi, tri_prev(i), flat_twin(fi, tri_prev(i))));
        if let Some(t) = h.half_edges@[i].twin_index {
            let j = t.0 as int;
            lemma_tri(j, n);
            assert(h.half_edges@[j] == flat_half_edge(fi, j, flat_twin(fi, j)));
            assert(h.half_edges@[tri_prev(j)] == flat_half_edge(fi, tri_prev(j), flat_twin(fi, tri_prev(j))));
        }
    }
}

/// Each face of what `from_mesh` builds is its triangle: a loop of three sides.
proof fn lemma_built_from_loops<T: Copy>(h: &HalfEdgeMesh<T>, m: &Mesh<T>)
    requires
        m.wf(),
        h.built_from(m),
    ensures
        forall|f: int| 0 <= f < h.faces.len() ==> #[trigger] h.face_loop_closed(f, 3),
{
    let fi = m.face_indices@;
    let n = fi.len() as int;
    assert forall|f: int| 0 <= f < h.faces.len() implies #[trigger] h.face_loop_closed(f, 3) by {
        let seed = 3 * f;
        assert(h.face_seed(f) == seed);
        assert(h.half_edges@[seed] == flat_half_edge(fi, seed, flat_twin(fi, seed)));
        assert(h.half_edges@[seed + 1] == flat_half_edge(fi, seed + 1, flat_twin(fi, seed + 1)));
        assert(h.half_edges@[seed + 2] == flat_half_edge(fi, seed + 2, flat_twin(fi, seed + 2)));
        assert(h.walk_next(seed, 0) == seed);
        assert(h.walk_next(seed, 1) == seed + 1);
        assert(h.walk_next(seed, 2) == seed + 2);
        assert(h.walk_next(seed, 3) == seed);
        assert forall|k: nat| k < 3 implies h.half_edges@[#[trigger] h.walk_next(seed, k)].face_index == Some(FaceIndex(f as usize)) by {
            assert(k == 0 || k == 1 || k == 2);
        }
    }
}

/// What `from_mesh` builds is well formed.
proof fn lemma_built_from_wf<T: Copy>(h: &HalfEdgeMesh<T>, m: &Mesh<T>)
    requires
        m.wf(),
        m.vertex_coords.len() / 3 <= max_vertices(),
        h.built_from(m),
    ensures
        h.wf(),
        forall|f: int| 0 <= f < h.faces.len() ==> #[trigger] h.face_loop_closed(f, 3),
{
    lemma_built_from_ranges(h, m);
    lemma_built_from_loops(h, m);
    assert forall|f: int| 0 <= f < h.faces.len() implies #[trigger] h.face_closed(f) by {
        assert(h.face_loop_closed(f, 3));
    }
}

proof fn lemma_walk_in_range<T: Copy>(h: &HalfEdgeMesh<T>, e: int, k: nat)
    requires
        h.indices_in_range(),
        0 <= e < h.half_edges.len(),
    ensures
        0 <= h.walk_next(e, k) < h.half_edges.len(),
        0 <= h.walk_prev(e, k) < h.half_edges.len(),
    decreases k,
{
    if k > 0 {
        lemma_walk_in_range(h, e, (k - 1) as nat);
        let a = h.walk_next(e, (k - 1) as nat);
        let b = h.walk_prev(e, (k - 1) as nat);
        assert(h.half_edges@[a] == h.half_edges@[a]);
        assert(h.half_edges@[b] == h.half_edges@[b]);
    }
}

/// Twin symmetry: when no directed edge repeats in the buffer, every twin
/// that `from_mesh` assigns is mutual.
pub proof fn lemma_twin_symmetry<T: Copy>(m: &Mesh<T>, h: &HalfEdgeMesh<T>)
    requires
        m.wf(),
        directed_edges_unique(m.face_indices@),
        h.built_from(m),
    ensures
        h.twins_symmetric(),
{
    let fi = m.face_indices@;
    let n = fi.len() as int;
    assert forall|i: int| 0 <= i < h.half_edges.len() implies ((#[trigger] h.half_edges@[i]).twin_index matches Some(
        t,
    ) ==> h.half_edges@[t.0 as int].twin_index == Some(HalfEdgeIndex(i as usize))) by {
        lemma_last_edge(fi, edge_target(fi, i), edge_source(fi, i), n);
        if let Some(t) = h.half_edges@[i].twin_index {
            let j = t.0 as int;
            assert(h.half_edges@[j] == flat_half_edge(fi, j, flat_twin(fi, j)));
            lemma_last_edge_unique(fi, i, n);
        }
    }
}

/// Face-loop closure: in a well-formed mesh the `next` loop of every face
/// closes after exactly `face_len` steps, and walking `prev` from the seed
/// retraces it backwards.
pub proof fn lemma_face_loop_reversal<T: Copy>(h: &HalfEdgeMesh<T>, f: int)
    requires
        h.wf(),
        0 <= f < h.faces.len(),
    ensures
        h.face_loop_closed(f, h.face_len(f)),
        forall|k: nat|
            k <= h.face_len(f) ==> #[trigger] h.walk_prev(h.face_seed(f), k) == h.walk_next(
                h.face_seed(f),
                (h.face_len(f) - k) as nat,
            ),
{
    assert(h.face_closed(f));
    let n = h.face_len(f);
    let seed = h.face_seed(f);
    assert forall|k: nat| k <= n implies #[trigger] h.walk_prev(seed, k) == h.walk_next(seed, (n - k) as nat) by {
        lemma_walk_prev_retraces(h, f, n, k);
    }
}

proof fn lemma_walk_prev_retraces<T: Copy>(h: &HalfEdgeMesh<T>, f: int, n: nat, k: nat)
    requires
        h.wf(),
        0 <= f < h.faces.len(),
        h.face_loop_closed(f, n),
        k <= n,
    ensures
        h.walk_prev(h.face_seed(f), k) == h.walk_next(h.face_seed(f), (n - k) as nat),
    decreases k,
{
    let seed = h.face_seed(f);
    assert(h.faces@[f] == h.faces@[f]);
    if k > 0 {
        lemma_walk_prev_retraces(h, f, n, (k - 1) as nat);
        let prior = h.walk_next(seed, (n - k) as nat);
        lemma_walk_in_range(h, seed, (n - k) as nat);
        assert(h.walk_next(seed, (n - k + 1) as nat) == h.next_of(prior));
        assert(h.prev_of(h.next_of(prior)) == prior);
    }
}

impl<T: Copy> ToMesh<T> for HalfEdgeMesh<T> {
    open spec fn mesh_ready(&self) -> bool {
        self.wf()
    }

    open spec fn flat_coords_of(&self) -> Seq<T> {
        self.flat_coords()
    }

    open spec fn flat_indices_of(&self) -> Seq<u32> {
        self.flat_face_indices()
    }

    /// Flat form: vertex coordinates in order and each face fanned into
    /// triangles from its first vertex.
    fn to_mesh(&self) -> (r: Mesh<T>) {
        let mut vertex_coords: Vec<T> = Vec::new();
        let mut v: usize = 0;
        while v < self.vertices.len()
            invariant
                v <= self.vertices.len(),
                vertex_coords@ =~= self.flat_coords().subrange(0, 3 * v),
            decreases self.vertices.len() - v,
        {
            let p = self.vertices[v].position;
            vertex_coords.push(p[0]);
            vertex_coords.push(p[1]);
            vertex_coords.push(p[2]);
            assert(vertex_coords@ =~= self.flat_coords().subrange(0, 3 * v + 3));
            v += 1;
        }

        let mut face_indices: Vec<u32> = Vec::new();
        let mut f: usize = 0;
        while f < self.faces.len()
            invariant
                self.wf(),
                f <= self.faces.len(),
                face_indices@ == self.fan_upto(f as int),
            decreases self.faces.len() - f,
        {
            self.append_face_fan(f, &mut face_indices);
            f += 1;
        }
        Mesh { vertex_coords, face_indices, normals: None }
    }
}

impl<T: Copy> HalfEdgeMesh<T> {
    /// Appends the fan triangles of face `f` to `out`.
    fn append_face_fan(&self, f: usize, out: &mut Vec<u32>)
        requires
            self.wf(),
            f < self.faces.len(),
        ensures
            final(out)@ == old(out)@ + self.face_fan(f as int),
    {
        let ghost fi = f as int;
        assert(self.face_closed(fi));
        let ghost n = self.face_len(fi);
        assert(self.face_loop_closed(fi, n));
        let seed = self.faces[f].seed_half_edge.0;
        assert(seed == self.face_seed(fi));
        proof {
            lemma_walk_in_range(self, seed as int, 0);
            lemma_walk_in_range(self, seed as int, 1);
            assert(self.walk_next(seed as int, 1) == self.next_of(seed as int));
        }
        let first = self.half_edges[seed].prev_edge.0;
        let s = self.half_edges[first].target_vertex_index.0 as u32;
        let mut a = self.half_edges[seed].target_vertex_index.0 as u32;
        let mut cur = self.half_edges[seed].next_edge.0;
        let ghost mut i: nat = 1;
        while self.half_edges[cur].next_edge.0 != seed
            invariant
                self.wf(),
                f < self.faces.len(),
                fi == f as int,
                seed as int == self.face_seed(fi),
                self.face_loop_closed(fi, n),
                1 <= i <= n - 1,
                cur as int == self.walk_next(seed as int, i),
                cur < self.half_edges.len(),
                s as int == self.face_vertex(fi, 0),
                a as int == self.face_vertex(fi, i as int),
                out@ == old(out)@ + self.face_fan(fi).subrange(0, 3 * (i - 1)),
            decreases n - i,
        {
            proof {
                assert(self.walk_next(seed as int, i + 1) == self.next_of(cur as int));
                if i + 1 == n {
                    assert(self.walk_next(seed as int, n) == seed);
                }
                lemma_walk_in_range(self, seed as int, i + 1);
                lemma_face_vertex_step(self, fi, i);
            }
            let b = self.half_edges[cur].target_vertex_index.0 as u32;
            out.push(s);
            out.push(a);
            out.push(b);
            proof {
                let fan = self.face_fan(fi);
                let j = 3 * (i - 1);
                assert(j / 3 == i - 1 && (j + 1) / 3 == i - 1 && (j + 2) / 3 == i - 1);
                assert(fan[j] == s);
                assert(fan[j + 1] == a);
                assert(fan[j + 2] == b);
                assert(out@ =~= old(out)@ + fan.subrange(0, 3 * i as int));
            }
            a = b;
            cur = self.half_edges[cur].next_edge.0;
            proof {
                i = i + 1;
            }
        }
        proof {
            assert(self.walk_next(seed as int, i + 1) == self.next_of(cur as int));
            if i + 1 < n {
                assert(self.walk_next(seed as int, i + 1) != seed);
            }
            assert(i == n - 1);
            assert(out@ =~= old(out)@ + self.face_fan(fi));
        }
    }
}

proof fn lemma_face_vertex_step<T: Copy>(h: &HalfEdgeMesh<T>, f: int, i: nat)
    requires
        h.wf(),
        0 <= f < h.faces.len(),
    ensures
        h.face_vertex(f, 0) == h.target_of(h.prev_of(h.face_seed(f))),
        h.face_vertex(f, i as int + 1) == h.target_of(h.walk_next(h.face_seed(f), i)),
{
    assert(h.faces@[f] == h.faces@[f]);
    lemma_walk_in_range(h, h.face_seed(f), i);
    let w = h.walk_next(h.face_seed(f), i);
    assert(h.walk_next(h.face_seed(f), i + 1) == h.next_of(w));
    assert(h.prev_of(h.next_of(w)) == w);
}

/// Round trip: the flat form of what `from_mesh` builds is exactly the
/// buffer it was built from, coordinates and triangles alike.
pub proof fn lemma_round_trip<T: Copy>(m: &Mesh<T>, h: &HalfEdgeMesh<T>)
    requires
        m.wf(),
        m.vertex_coords.len() / 3 <= max_vertices(),
        h.built_from(m),
    ensures
        h.wf(),
        h.flat_coords() == m.vertex_coords@,
        h.flat_face_indices() == m.face_indices@,
{
    let fi = m.face_indices@;
    let c = m.vertex_coords@;
    lemma_built_from_wf(h, m);
    assert forall|j: int| 0 <= j < c.len() implies #[trigger] h.flat_coords()[j] == c[j] by {
        let v = j / 3;
        assert(h.vertices@[v].position@ == seq![c[3 * v], c[3 * v + 1], c[3 * v + 2]]);
    }
    assert(h.flat_coords() =~= c);
    assert forall|f: int| 0 <= f <= h.faces.len() implies #[trigger] h.fan_upto(f) == fi.subrange(0, 3 * f) by {
        lemma_fan_upto_flat(m, h, f);
    }
    assert(fi.subrange(0, 3 * (h.faces.len() as int)) =~= fi);
}

proof fn lemma_fan_upto_flat<T: Copy>(m: &Mesh<T>, h: &HalfEdgeMesh<T>, f: int)
    requires
        m.wf(),
        h.built_from(m),
        h.wf(),
        forall|g: int| 0 <= g < h.faces.len() ==> #[trigger] h.face_loop_closed(g, 3),
        0 <= f <= h.faces.len(),
    ensures
        h.fan_upto(f) == m.face_indices@.subrange(0, 3 * f),
    decreases f,
{
    let fi = m.face_indices@;
    if f > 0 {
        let g = f - 1;
        lemma_fan_upto_flat(m, h, g);
        assert(h.face_closed(g));
        let n = h.face_len(g);
        assert(h.face_loop_closed(g, n));
        assert(h.face_loop_closed(g, 3));
        if n > 3 {
            assert(h.walk_next(h.face_seed(g), 3) != h.face_seed(g));
        }
        assert(n == 3);
        let seed = 3 * g;
        assert(h.faces@[g].seed_half_edge == HalfEdgeIndex(seed as usize));
        lemma_tri(seed, fi.len() as int);
        lemma_tri(seed + 1, fi.len() as int);
        lemma_tri(seed + 2, fi.len() as int);
        assert(h.half_edges@[seed] == flat_half_edge(fi, seed, flat_twin(fi, seed)));
        assert(h.half_edges@[seed + 1] == flat_half_edge(fi, seed + 1, flat_twin(fi, seed + 1)));
        assert(h.half_edges@[seed + 2] == flat_half_edge(fi, seed + 2, flat_twin(fi, seed + 2)));
        assert(h.walk_next(seed, 0) == seed);
        assert(h.walk_next(seed, 1) == seed + 1);
        assert(h.walk_next(seed, 2) == seed + 2);
        assert(h.face_vertex(g, 0) == fi[seed] as int);
        assert(h.face_vertex(g, 1) == fi[seed + 1] as int);
        assert(h.face_vertex(g, 2) == fi[seed + 2] as int);
        assert(h.face_fan(g) =~= fi.subrange(seed, seed + 3));
        assert(h.fan_upto(f) =~= fi.subrange(0, 3 * f));
    }
}

impl<T: Copy> HalfEdgeMesh<T> {
    pub fn vertex(&self, idx: VertexIndex) -> (r: &Vertex<T>)
        requires
            idx.0 < self.vertices.len(),
        ensures
            *r == self.vertices@[idx.0 as int],
    {
        &self.vertices[idx.0]
    }

    pub fn vertex_mut(&mut self, idx: VertexIndex) -> (r: &mut Vertex<T>)
        requires
            idx.0 < old(self).vertices.len(),
        ensures
            *r == old(self).vertices@[idx.0 as int],
            final(self).vertices@ == old(self).vertices@.update(idx.0 as int, *final(r)),
            final(self).half_edges == old(self).half_edges,
            final(self).faces == old(self).faces,
    {
        &mut self.vertices[idx.0]
    }

    pub fn half_edge(&self, idx: HalfEdgeIndex) -> (r: &HalfEdge)
        requires
            idx.0 < self.half_edges.len(),
        ensures
            *r == self.half_edges@[idx.0 as int],
    {
        &self.half_edges[idx.0]
    }

    pub fn half_edge_mut(&mut self, idx: HalfEdgeIndex) -> (r: &mut HalfEdge)
        requires
            idx.0 < old(self).half_edges.len(),
        ensures
            *r == old(self).half_edges@[idx.0 as int],
            final(self).half_edges@ == old(self).half_edges@.update(idx.0 as int, *final(r)),
            final(self).vertices == old(self).vertices,
            final(self).faces == old(self).faces,
    {
        &mut self.half_edges[idx.0]
    }

    pub fn face(&self, idx: FaceIndex) -> (r: &Face)
        requires
            idx.0 < self.faces.len(),
        ensures
            *r == self.faces@[idx.0 as int],
    {
        &self.faces[idx.0]
    }

    pub fn face_mut(&mut self, idx: FaceIndex) -> (r: &mut Face)
        requires
            idx.0 < old(self).faces.len(),
        ensures
            *r == old(self).faces@[idx.0 as int],
            final(self).faces@ == old(self).faces@.update(idx.0 as int, *final(r)),
            final(self).vertices == old(self).vertices,
            final(self).half_edges == old(self).half_edges,
    {
        &mut self.faces[idx.0]
    }

    /// The half-edges leaving `vertex_idx`, in fan order: from the vertex's
    /// seed, each next one is `next` of the previous one's twin. The walk ends
    /// on a boundary (no twin), when it comes back to the seed, or after as
    /// many steps as there are half-edges.
    pub fn vertex_outgoing_half_edges(&self, vertex_idx: VertexIndex) -> (r: Vec<HalfEdgeIndex>)
        requires
            self.wf(),
            vertex_idx.0 < self.vertices.len(),
        ensures
            r@.len() == self.outgoing_fan(vertex_idx.0 as int).len(),
            forall|k: int| 0 <= k < r@.len() ==> (#[trigger] r@[k]).0 as int == self.outgoing_fan(vertex_idx.0 as int)[k],
            forall|k: int| 0 <= k < r@.len() ==> (#[trigger] r@[k]).0 < self.half_edges.len(),
    {
        let mut outgoing: Vec<HalfEdgeIndex> = Vec::new();
        let ghost v = vertex_idx.0 as int;
        let ghost nh = self.half_edges.len() as nat;
        assert(self.vertices@[v] == self.vertices@[v]);
        if let Some(start) = self.vertices[vertex_idx.0].seed_half_edge {
            let ghost s = start.0 as int;
            let ghost whole = self.outgoing_fan(v);
            let mut current = start;
            outgoing.push(current);
            let mut done = false;
            assert(whole == seq![s] + self.fan_rest(s, s, (nh - 1) as nat));
            while !done && outgoing.len() < self.half_edges.len()
                invariant
                    self.wf(),
                    s == start.0 as int,
                    nh == self.half_edges.len(),
                    start.0 < self.half_edges.len(),
                    1 <= outgoing@.len() <= self.half_edges.len(),
                    current == outgoing@[outgoing@.len() - 1],
                    current.0 < self.half_edges.len(),
                    forall|k: int| 0 <= k < outgoing@.len() ==> (#[trigger] outgoing@[k]).0 < self.half_edges.len(),
                    whole.len() == outgoing@.len() + (if done { 0 } else { self.fan_rest(s, current.0 as int, (nh - outgoing@.len()) as nat).len() }),
                    forall|k: int| 0 <= k < outgoing@.len() ==> (#[trigger] outgoing@[k]).0 as int == whole[k],
                    !done ==> forall|k: int| 0 <= k < self.fan_rest(s, current.0 as int, (nh - outgoing@.len()) as nat).len()
                        ==> whole[outgoing@.len() + k] == #[trigger] self.fan_rest(s, current.0 as int, (nh - outgoing@.len()) as nat)[k],
                    done ==> whole.len() == outgoing@.len(),
                decreases self.half_edges.len() - outgoing@.len(), if done { 0int } else { 1int },
            {
                let ghost c = current.0 as int;
                let ghost fuel = (nh - outgoing@.len()) as nat;
                assert(self.half_edges@[c] == self.half_edges@[c]);
                match self.half_edges[current.0].twin_index {
                    Some(twin) => {
                        assert(self.half_edges@[twin.0 as int] == self.half_edges@[twin.0 as int]);
                        let next = self.half_edges[twin.0].next_edge;
                        if next.0 == start.0 {
                            done = true;
                        } else {
                            let ghost rest = self.fan_rest(s, c, fuel);
                            assert(rest == self.fan_from(s, next.0 as int, fuel));
                            assert(rest == seq![next.0 as int] + self.fan_rest(s, next.0 as int, (fuel - 1) as nat));
                            outgoing.push(next);
                            current = next;
                            proof {
                                let rest2 = self.fan_rest(s, next.0 as int, (fuel - 1) as nat);
                                assert forall|k: int| 0 <= k < rest2.len() implies whole[outgoing@.len() + k] == #[trigger] rest2[k] by {
                                    assert(rest[k + 1] == rest2[k]);
                                }
                                assert(whole[outgoing@.len() - 1] == rest[0]);
                            }
                        }
                    },
                    None => {
                        done = true;
                    },
                }
            }
            proof {
                if !done {
                    let rest = self.fan_rest(s, current.0 as int, (nh - outgoing@.len()) as nat);
                    assert(rest.len() == 0);
                }
            }
        }
        outgoing
    }
}

/// Side `i / 4` of a mesh of quads: half-edge `i` with the given target and
/// twin, linked to its neighbours in the same quad.
pub open spec fn quad_half_edge_spec(i: int, target: int, twin: int) -> HalfEdge {
    HalfEdge {
        target_vertex_index: VertexIndex(target as usize),
        twin_index: Some(HalfEdgeIndex(twin as usize)),
        next_edge: HalfEdgeIndex((4 * (i / 4) + (i + 1) % 4) as usize),
        prev_edge: HalfEdgeIndex((4 * (i / 4) + (i + 3) % 4) as usize),
        face_index: Some(FaceIndex((i / 4) as usize)),
    }
}

/// Target of half-edge `i` of the cube (four per side).
pub open spec fn cube_target(i: int) -> int {
    if i == 0 { 1 } else if i == 1 { 2 } else if i == 2 { 3 } else if i == 3 { 0 } else if i == 4 { 5 } else if i == 5 { 6 } else if i == 6 { 2 } else if i == 7 { 1 } else if i == 8 { 4 } else if i == 9 { 7 } else if i == 10 { 6 } else if i == 11 { 5 } else if i == 12 { 0 } else if i == 13 { 3 } else if i == 14 { 7 } else if i == 15 { 4 } else if i == 16 { 4 } else if i == 17 { 5 } else if i == 18 { 1 } else if i == 19 { 0 } else if i == 20 { 2 } else if i == 21 { 6 } else if i == 22 { 7 } else { 3 }
}

/// Twin of half-edge `i` of the cube.
pub open spec fn cube_twin(i: int) -> int {
    if i == 0 { 19 } else if i == 1 { 7 } else if i == 2 { 20 } else if i == 3 { 13 } else if i == 4 { 18 } else if i == 5 { 11 } else if i == 6 { 21 } else if i == 7 { 1 } else if i == 8 { 17 } else if i == 9 { 15 } else if i == 10 { 22 } else if i == 11 { 5 } else if i == 12 { 16 } else if i == 13 { 3 } else if i == 14 { 23 } else if i == 15 { 9 } else if i == 16 { 12 } else if i == 17 { 8 } else if i == 18 { 4 } else if i == 19 { 0 } else if i == 20 { 2 } else if i == 21 { 6 } else if i == 22 { 10 } else { 14 }
}

fn quad_half_edge(i: usize, target: usize, twin: usize) -> (r: HalfEdge)
    requires
        i < 1000,
    ensures
        r == quad_half_edge_spec(i as int, target as int, twin as int),
{
    HalfEdge {
        target_vertex_index: VertexIndex(target),
        twin_index: Some(HalfEdgeIndex(twin)),
        next_edge: HalfEdgeIndex(4 * (i / 4) + (i + 1) % 4),
        prev_edge: HalfEdgeIndex(4 * (i / 4) + (i + 3) % 4),
        face_index: Some(FaceIndex(i / 4)),
    }
}

impl<T: Copy> HalfEdgeMesh<T> {
    /// The box `[lo, hi]^3` with six quad faces: 8 vertices, 24 half-edges.
    pub fn create_cube(lo: T, hi: T) -> (r: HalfEdgeMesh<T>)
        ensures
            r.is_cube(lo, hi),
    {
        let vertices = vec![
            Vertex { position: [lo, lo, lo], seed_half_edge: Some(HalfEdgeIndex(0)) },
            Vertex { position: [hi, lo, lo], seed_half_edge: Some(HalfEdgeIndex(1)) },
            Vertex { position: [hi, hi, lo], seed_half_edge: Some(HalfEdgeIndex(2)) },
            Vertex { position: [lo, hi, lo], seed_half_edge: Some(HalfEdgeIndex(3)) },
            Vertex { position: [lo, lo, hi], seed_half_edge: Some(HalfEdgeIndex(9)) },
            Vertex { position: [hi, lo, hi], seed_half_edge: Some(HalfEdgeIndex(8)) },
            Vertex { position: [hi, hi, hi], seed_half_edge: Some(HalfEdgeIndex(6)) },
            Vertex { position: [lo, hi, hi], seed_half_edge: Some(HalfEdgeIndex(10)) },
        ];
        let half_edges = vec![
            // Face 0 (-Z)
            quad_half_edge(0, 1, 19),
            quad_half_edge(1, 2, 7),
            quad_half_edge(2, 3, 20),
            quad_half_edge(3, 0, 13),
            // Face 1 (+X)
            quad_half_edge(4, 5, 18),
            quad_half_edge(5, 6, 11),
            quad_half_edge(6, 2, 21),
            quad_half_edge(7, 1, 1),
            // Face 2 (+Z)
            quad_half_edge(8, 4, 17),
            quad_half_edge(9, 7, 15),
            quad_half_edge(10, 6, 22),
            quad_half_edge(11, 5, 5),
            // Face 3 (-X)
            quad_half_edge(12, 0, 16),
            quad_half_edge(13, 3, 3),
            quad_half_edge(14, 7, 23),
            quad_half_edge(15, 4, 9),
            // Face 4 (-Y)
            quad_half_edge(16, 4, 12),
            quad_half_edge(17, 5, 8),
            quad_half_edge(18, 1, 4),
            quad_half_edge(19, 0, 0),
            // Face 5 (+Y)
            quad_half_edge(20, 2, 2),
            quad_half_edge(21, 6, 6),
            quad_half_edge(22, 7, 10),
            quad_half_edge(23, 3, 14),
        ];
        let faces = vec![
            Face { seed_half_edge: HalfEdgeIndex(0) },
            Face { seed_half_edge: HalfEdgeIndex(4) },
            Face { seed_half_edge: HalfEdgeIndex(8) },
            Face { seed_half_edge: HalfEdgeIndex(12) },
            Face { seed_half_edge: HalfEdgeIndex(16) },
            Face { seed_half_edge: HalfEdgeIndex(20) },
        ];
        let r = HalfEdgeMesh { vertices, half_edges, faces };
        proof {
            lemma_cube_vertices(&r, lo, hi);
            assert forall|f: int| 0 <= f < 6 implies (#[trigger] r.faces@[f]).seed_half_edge == HalfEdgeIndex((4 * f) as usize) by {
                assert(f == 0 || f == 1 || f == 2 || f == 3 || f == 4 || f == 5);
            }
            lemma_cube_wf(&r);
            lemma_cube_flat(&r);
        }
        r
    }
}

spec fn cube_edges_given<T: Copy>(r: &HalfEdgeMesh<T>) -> bool {
    &&& r.half_edges.len() == 24
    &&& forall|i: int|
        0 <= i < 24 ==> #[trigger] r.half_edges@[i] == quad_half_edge_spec(
            i,
            cube_target(i),
            cube_twin(i),
        )
}

spec fn cube_edge_ok<T: Copy>(r: &HalfEdgeMesh<T>, i: int) -> bool {
    let he = r.half_edges@[i];
    &&& he.target_vertex_index.0 < 8
    &&& he.next_edge.0 < 24
    &&& he.prev_edge.0 < 24
    &&& (he.twin_index matches Some(t) ==> t.0 < 24 && r.half_edges@[t.0 as int].twin_index == Some(HalfEdgeIndex(i as usize)))
    &&& (he.face_index matches Some(f) ==> f.0 < 6)
    &&& r.prev_of(r.next_of(i)) == i
    &&& r.next_of(r.prev_of(i)) == i
    &&& (he.twin_index matches Some(t) ==> r.source_of(t.0 as int) == r.target_of(i) && r.target_of(t.0 as int) == r.source_of(i))
}

proof fn lemma_cube_edge<T: Copy>(r: &HalfEdgeMesh<T>, i: int)
    requires
        cube_edges_given(r),
        0 <= i < 24,
    ensures
        cube_edge_ok(r, i),
{
    if i < 8 {
        lemma_cube_edge_low(r, i);
    } else if i < 16 {
        lemma_cube_edge_mid(r, i);
    } else {
        lemma_cube_edge_high(r, i);
    }
}

proof fn lemma_cube_edge_low<T: Copy>(r: &HalfEdgeMesh<T>, i: int)
    requires
        cube_edges_given(r),
        0 <= i < 8,
    ensures
        cube_edge_ok(r, i),
{
    if i == 0 {
        assert(r.half_edges@[0] == quad_half_edge_spec(0, cube_target(0), cube_twin(0)));
        assert(r.half_edges@[1] == quad_half_edge_spec(1, cube_target(1), cube_twin(1)));
        assert(r.half_edges@[3] == quad_half_edge_spec(3, cube_target(3), cube_twin(3)));
        assert(r.half_edges@[18] == quad_half_edge_spec(18, cube_target(18), cube_twin(18)));
        assert(r.half_edges@[19] == quad_half_edge_spec(19, cube_target(19), cube_twin(19)));
    } else if i == 1 {
        assert(r.half_edges@[0] == quad_half_edge_spec(0, cube_target(0), cube_twin(0)));
        assert(r.half_edges@[1] == quad_half_edge_spec(1, cube_target(1), cube_twin(1)));
        assert(r.half_edges@[2] == quad_half_edge_spec(2, cube_target(2), cube_twin(2)));
        assert(r.half_edges@[6] == quad_half_edge_spec(6, cube_target(6), cube_twin(6)));
        assert(r.half_edges@[7] == quad_half_edge_spec(7, cube_target(7), cube_twin(7)));
    } else if i == 2 {
        assert(r.half_edges@[1] == quad_half_edge_spec(1, cube_target(1), cube_twin(1)));
        assert(r.half_edges@[2] == quad_half_edge_spec(2, cube_target(2), cube_twin(2)));
        assert(r.half_edges@[3] == quad_half_edge_spec(3, cube_target(3), cube_twin(3)));
        assert(r.half_edges@[20] == quad_half_edge_spec(20, cube_target(20), cube_twin(20)));
        assert(r.half_edges@[23] == quad_half_edge_spec(23, cube_target(23), cube_twin(23)));
    } else if i == 3 {
        assert(r.half_edges@[0] == quad_half_edge_spec(0, cube_target(0), cube_twin(0)));
        assert(r.half_edges@[2] == quad_half_edge_spec(2, cube_target(2), cube_twin(2)));
        assert(r.half_edges@[3] == quad_half_edge_spec(3, cube_target(3), cube_twin(3)));
        assert(r.half_edges@[12] == quad_half_edge_spec(12, cube_target(12), cube_twin(12)));
        assert(r.half_edges@[13] == quad_half_edge_spec(13, cube_target(13), cube_twin(13)));
    } else if i == 4 {
        assert(r.half_edges@[4] == quad_half_edge_spec(4, cube_target(4), cube_twin(4)));
        assert(r.half_edges@[5] == quad_half_edge_spec(5, cube_target(5), cube_twin(5)));
        assert(r.half_edges@[7] == quad_half_edge_spec(7, cube_target(7), cube_twin(7)));
        assert(r.half_edges@[17] == quad_half_edge_spec(17, cube_target(17), cube_twin(17)));
        assert(r.half_edges@[18] == quad_half_edge_spec(18, cube_target(18), cube_twin(18)));
    } else if i == 5 {
        assert(r.half_edges@[4] == quad_half_edge_spec(4, cube_target(4), cube_twin(4)));
        assert(r.half_edges@[5] == quad_half_edge_spec(5, cube_target(5), cube_twin(5)));
        assert(r.half_edges@[6] == quad_half_edge_spec(6, cube_target(6), cube_twin(6)));
        assert(r.half_edges@[10] == quad_half_edge_spec(10, cube_target(10), cube_twin(10)));
        assert(r.half_edges@[11] == quad_half_edge_spec(11, cube_target(11), cube_twin(11)));
    } else if i == 6 {
        assert(r.half_edges@[5] == quad_half_edge_spec(5, cube_target(5), cube_twin(5)));
        assert(r.half_edges@[6] == quad_half_edge_spec(6, cube_target(6), cube_twin(6)));
        assert(r.half_edges@[7] == quad_half_edge_spec(7, cube_target(7), cube_twin(7)));
        assert(r.half_edges@[20] == quad_half_edge_spec(20, cube_target(20), cube_twin(20)));
        assert(r.half_edges@[21] == quad_half_edge_spec(21, cube_target(21), cube_twin(21)));
    } else if i == 7 {
        assert(r.half_edges@[0] == quad_half_edge_spec(0, cube_target(0), cube_twin(0)));
        assert(r.half_edges@[1] == quad_half_edge_spec(1, cube_target(1), cube_twin(1)));
        assert(r.half_edges@[4] == quad_half_edge_spec(4, cube_target(4), cube_twin(4)));
        assert(r.half_edges@[6] == quad_half_edge_spec(6, cube_target(6), cube_twin(6)));
        assert(r.half_edges@[7] == quad_half_edge_spec(7, cube_target(7), cube_twin(7)));
    }
}

proof fn lemma_cube_edge_mid<T: Copy>(r: &HalfEdgeMesh<T>, i: int)
    requires
        cube_edges_given(r),
        8 <= i < 16,
    ensures
        cube_edge_ok(r, i),
{
    if i == 8 {
        assert(r.half_edges@[8] == quad_half_edge_spec(8, cube_target(8), cube_twin(8)));
        assert(r.half_edges@[9] == quad_half_edge_spec(9, cube_target(9), cube_twin(9)));
        assert(r.half_edges@[11] == quad_half_edge_spec(11, cube_target(11), cube_twin(11)));
        assert(r.half_edges@[16] == quad_half_edge_spec(16, cube_target(16), cube_twin(16)));
        assert(r.half_edges@[17] == quad_half_edge_spec(17, cube_target(17), cube_twin(17)));
    } else if i == 9 {
        assert(r.half_edges@[8] == quad_half_edge_spec(8, cube_target(8), cube_twin(8)));
        assert(r.half_edges@[9] == quad_half_edge_spec(9, cube_target(9), cube_twin(9)));
        assert(r.half_edges@[10] == quad_half_edge_spec(10, cube_target(10), cube_twin(10)));
        assert(r.half_edges@[14] == quad_half_edge_spec(14, cube_target(14), cube_twin(14)));
        assert(r.half_edges@[15] == quad_half_edge_spec(15, cube_target(15), cube_twin(15)));
    } else if i == 10 {
        assert(r.half_edges@[9] == quad_half_edge_spec(9, cube_target(9), cube_twin(9)));
        assert(r.half_edges@[10] == quad_half_edge_spec(10, cube_target(10), cube_twin(10)));
        assert(r.half_edges@[11] == quad_half_edge_spec(11, cube_target(11), cube_twin(11)));
        assert(r.half_edges@[21] == quad_half_edge_spec(21, cube_target(21), cube_twin(21)));
        assert(r.half_edges@[22] == quad_half_edge_spec(22, cube_target(22), cube_twin(22)));
    } else if i == 11 {
        assert(r.half_edges@[4] == quad_half_edge_spec(4, cube_target(4), cube_twin(4)));
        assert(r.half_edges@[5] == quad_half_edge_spec(5, cube_target(5), cube_twin(5)));
        assert(r.half_edges@[8] == quad_half_edge_spec(8, cube_target(8), cube_twin(8)));
        assert(r.half_edges@[10] == quad_half_edge_spec(10, cube_target(10), cube_twin(10)));
        assert(r.half_edges@[11] == quad_half_edge_spec(11, cube_target(11), cube_twin(11)));
    } else if i == 12 {
        assert(r.half_edges@[12] == quad_half_edge_spec(12, cube_target(12), cube_twin(12)));
        assert(r.half_edges@[13] == quad_half_edge_spec(13, cube_target(13), cube_twin(13)));
        assert(r.half_edges@[15] == quad_half_edge_spec(15, cube_target(15), cube_twin(15)));
        assert(r.half_edges@[16] == quad_half_edge_spec(16, cube_target(16), cube_twin(16)));
        assert(r.half_edges@[19] == quad_half_edge_spec(19, cube_target(19), cube_twin(19)));
    } else if i == 13 {
        assert(r.half_edges@[2] == quad_half_edge_spec(2, cube_target(2), cube_twin(2)));
        assert(r.half_edges@[3] == quad_half_edge_spec(3, cube_target(3), cube_twin(3)));
        assert(r.half_edges@[12] == quad_half_edge_spec(12, cube_target(12), cube_twin(12)));
        assert(r.half_edges@[13] == quad_half_edge_spec(13, cube_target(13), cube_twin(13)));
        assert(r.half_edges@[14] == quad_half_edge_spec(14, cube_target(14), cube_twin(14)));
    } else if i == 14 {
        assert(r.half_edges@[13] == quad_half_edge_spec(13, cube_target(13), cube_twin(13)));
        assert(r.half_edges@[14] == quad_half_edge_spec(14, cube_target(14), cube_twin(14)));
        assert(r.half_edges@[15] == quad_half_edge_spec(15, cube_target(15), cube_twin(15)));
        assert(r.half_edges@[22] == quad_half_edge_spec(22, cube_target(22), cube_twin(22)));
        assert(r.half_edges@[23] == quad_half_edge_spec(23, cube_target(23), cube_twin(23)));
    } else if i == 15 {
        assert(r.half_edges@[8] == quad_half_edge_spec(8, cube_target(8), cube_twin(8)));
        assert(r.half_edges@[9] == quad_half_edge_spec(9, cube_target(9), cube_twin(9)));
        assert(r.half_edges@[12] == quad_half_edge_spec(12, cube_target(12), cube_twin(12)));
        assert(r.half_edges@[14] == quad_half_edge_spec(14, cube_target(14), cube_twin(14)));
        assert(r.half_edges@[15] == quad_half_edge_spec(15, cube_target(15), cube_twin(15)));
    }
}

proof fn lemma_cube_edge_high<T: Copy>(r: &HalfEdgeMesh<T>, i: int)
    requires
        cube_edges_given(r),
        16 <= i < 24,
    ensures
        cube_edge_ok(r, i),
{
    if i == 16 {
        assert(r.half_edges@[12] == quad_half_edge_spec(12, cube_target(12), cube_twin(12)));
        assert(r.half_edges@[15] == quad_half_edge_spec(15, cube_target(15), cube_twin(15)));
        assert(r.half_edges@[16] == quad_half_edge_spec(16, cube_target(16), cube_twin(16)));
        assert(r.half_edges@[17] == quad_half_edge_spec(17, cube_target(17), cube_twin(17)));
        assert(r.half_edges@[19] == quad_half_edge_spec(19, cube_target(19), cube_twin(19)));
    } else if i == 17 {
        assert(r.half_edges@[8] == quad_half_edge_spec(8, cube_target(8), cube_twin(8)));
        assert(r.half_edges@[11] == quad_half_edge_spec(11, cube_target(11), cube_twin(11)));
        assert(r.half_edges@[16] == quad_half_edge_spec(16, cube_target(16), cube_twin(16)));
        assert(r.half_edges@[17] == quad_half_edge_spec(17, cube_target(17), cube_twin(17)));
        assert(r.half_edges@[18] == quad_half_edge_spec(18, cube_target(18), cube_twin(18)));
    } else if i == 18 {
        assert(r.half_edges@[4] == quad_half_edge_spec(4, cube_target(4), cube_twin(4)));
        assert(r.half_edges@[7] == quad_half_edge_spec(7, cube_target(7), cube_twin(7)));
        assert(r.half_edges@[17] == quad_half_edge_spec(17, cube_target(17), cube_twin(17)));
        assert(r.half_edges@[18] == quad_half_edge_spec(18, cube_target(18), cube_twin(18)));
        assert(r.half_edges@[19] == quad_half_edge_spec(19, cube_target(19), cube_twin(19)));
    } else if i == 19 {
        assert(r.half_edges@[0] == quad_half_edge_spec(0, cube_target(0), cube_twin(0)));
        assert(r.half_edges@[3] == quad_half_edge_spec(3, cube_target(3), cube_twin(3)));
        assert(r.half_edges@[16] == quad_half_edge_spec(16, cube_target(16), cube_twin(16)));
        assert(r.half_edges@[18] == quad_half_edge_spec(18, cube_target(18), cube_twin(18)));
        assert(r.half_edges@[19] == quad_half_edge_spec(19, cube_target(19), cube_twin(19)));
    } else if i == 20 {
        assert(r.half_edges@[1] == quad_half_edge_spec(1, cube_target(1), cube_twin(1)));
        assert(r.half_edges@[2] == quad_half_edge_spec(2, cube_target(2), cube_twin(2)));
        assert(r.half_edges@[20] == quad_half_edge_spec(20, cube_target(20), cube_twin(20)));
        assert(r.half_edges@[21] == quad_half_edge_spec(21, cube_target(21), cube_twin(21)));
        assert(r.half_edges@[23] == quad_half_edge_spec(23, cube_target(23), cube_twin(23)));
    } else if i == 21 {
        assert(r.half_edges@[5] == quad_half_edge_spec(5, cube_target(5), cube_twin(5)));
        assert(r.half_edges@[6] == quad_half_edge_spec(6, cube_target(6), cube_twin(6)));
        assert(r.half_edges@[20] == quad_half_edge_spec(20, cube_target(20), cube_twin(20)));
        assert(r.half_edges@[21] == quad_half_edge_spec(21, cube_target(21), cube_twin(21)));
        assert(r.half_edges@[22] == quad_half_edge_spec(22, cube_target(22), cube_twin(22)));
    } else if i == 22 {
        assert(r.half_edges@[9] == quad_half_edge_spec(9, cube_target(9), cube_twin(9)));
        assert(r.half_edges@[10] == quad_half_edge_spec(10, cube_target(10), cube_twin(10)));
        assert(r.half_edges@[21] == quad_half_edge_spec(21, cube_target(21), cube_twin(21)));
        assert(r.half_edges@[22] == quad_half_edge_spec(22, cube_target(22), cube_twin(22)));
        assert(r.half_edges@[23] == quad_half_edge_spec(23, cube_target(23), cube_twin(23)));
    } else if i == 23 {
        assert(r.half_edges@[13] == quad_half_edge_spec(13, cube_target(13), cube_twin(13)));
        assert(r.half_edges@[14] == quad_half_edge_spec(14, cube_target(14), cube_twin(14)));
        assert(r.half_edges@[20] == quad_half_edge_spec(20, cube_target(20), cube_twin(20)));
        assert(r.half_edges@[22] == quad_half_edge_spec(22, cube_target(22), cube_twin(22)));
        assert(r.half_edges@[23] == quad_half_edge_spec(23, cube_target(23), cube_twin(23)));
    }
}

proof fn lemma_cube_loop<T: Copy>(r: &HalfEdgeMesh<T>, f: int)
    requires
        cube_edges_given(r),
        0 <= f < 6,
        r.faces.len() == 6,
        r.face_seed(f) == 4 * f,
    ensures
        r.face_loop_closed(f, 4),
{
    let seed = 4 * f;
    if f == 0 {
        assert(r.half_edges@[0] == quad_half_edge_spec(0, cube_target(0), cube_twin(0)));
        assert(r.half_edges@[1] == quad_half_edge_spec(1, cube_target(1), cube_twin(1)));
        assert(r.half_edges@[2] == quad_half_edge_spec(2, cube_target(2), cube_twin(2)));
        assert(r.half_edges@[3] == quad_half_edge_spec(3, cube_target(3), cube_twin(3)));
    } else if f == 1 {
        assert(r.half_edges@[4] == quad_half_edge_spec(4, cube_target(4), cube_twin(4)));
        assert(r.half_edges@[5] == quad_half_edge_spec(5, cube_target(5), cube_twin(5)));
        assert(r.half_edges@[6] == quad_half_edge_spec(6, cube_target(6), cube_twin(6)));
        assert(r.half_edges@[7] == quad_half_edge_spec(7, cube_target(7), cube_twin(7)));
    } else if f == 2 {
        assert(r.half_edges@[8] == quad_half_edge_spec(8, cube_target(8), cube_twin(8)));
        assert(r.half_edges@[9] == quad_half_edge_spec(9, cube_target(9), cube_twin(9)));
        assert(r.half_edges@[10] == quad_half_edge_spec(10, cube_target(10), cube_twin(10)));
        assert(r.half_edges@[11] == quad_half_edge_spec(11, cube_target(11), cube_twin(11)));
    } else if f == 3 {
        assert(r.half_edges@[12] == quad_half_edge_spec(12, cube_target(12), cube_twin(12)));
        assert(r.half_edges@[13] == quad_half_edge_spec(13, cube_target(13), cube_twin(13)));
        assert(r.half_edges@[14] == quad_half_edge_spec(14, cube_target(14), cube_twin(14)));
        assert(r.half_edges@[15] == quad_half_edge_spec(15, cube_target(15), cube_twin(15)));
    } else if f == 4 {
        assert(r.half_edges@[16] == quad_half_edge_spec(16, cube_target(16), cube_twin(16)));
        assert(r.half_edges@[17] == quad_half_edge_spec(17, cube_target(17), cube_twin(17)));
        assert(r.half_edges@[18] == quad_half_edge_spec(18, cube_target(18), cube_twin(18)));
        assert(r.half_edges@[19] == quad_half_edge_spec(19, cube_target(19), cube_twin(19)));
    } else if f == 5 {
        assert(r.half_edges@[20] == quad_half_edge_spec(20, cube_target(20), cube_twin(20)));
        assert(r.half_edges@[21] == quad_half_edge_spec(21, cube_target(21), cube_twin(21)));
        assert(r.half_edges@[22] == quad_half_edge_spec(22, cube_target(22), cube_twin(22)));
        assert(r.half_edges@[23] == quad_half_edge_spec(23, cube_target(23), cube_twin(23)));
    }
    assert(r.walk_next(seed, 0) == seed);
    assert(r.walk_next(seed, 1) == seed + 1);
    assert(r.walk_next(seed, 2) == seed + 2);
    assert(r.walk_next(seed, 3) == seed + 3);
    assert(r.walk_next(seed, 4) == seed);
    assert forall|k: nat| k < 4 implies r.half_edges@[#[trigger] r.walk_next(seed, k)].face_index == Some(FaceIndex(f as usize)) by {
        assert(k == 0 || k == 1 || k == 2 || k == 3);
    }
}

proof fn lemma_cube_seed<T: Copy>(r: &HalfEdgeMesh<T>, v: int)
    requires
        cube_edges_given(r),
        0 <= v < 8,
    ensures
        r.source_of(cube_seeds()[v]) == v,
{
    if v == 0 {
        assert(r.half_edges@[0] == quad_half_edge_spec(0, cube_target(0), cube_twin(0)));
        assert(r.half_edges@[3] == quad_half_edge_spec(3, cube_target(3), cube_twin(3)));
    } else if v == 1 {
        assert(r.half_edges@[1] == quad_half_edge_spec(1, cube_target(1), cube_twin(1)));
        assert(r.half_edges@[0] == quad_half_edge_spec(0, cube_target(0), cube_twin(0)));
    } else if v == 2 {
        assert(r.half_edges@[2] == quad_half_edge_spec(2, cube_target(2), cube_twin(2)));
        assert(r.half_edges@[1] == quad_half_edge_spec(1, cube_target(1), cube_twin(1)));
    } else if v == 3 {
        assert(r.half_edges@[3] == quad_half_edge_spec(3, cube_target(3), cube_twin(3)));
        assert(r.half_edges@[2] == quad_half_edge_spec(2, cube_target(2), cube_twin(2)));
    } else if v == 4 {
        assert(r.half_edges@[9] == quad_half_edge_spec(9, cube_target(9), cube_twin(9)));
        assert(r.half_edges@[8] == quad_half_edge_spec(8, cube_target(8), cube_twin(8)));
    } else if v == 5 {
        assert(r.half_edges@[8] == quad_half_edge_spec(8, cube_target(8), cube_twin(8)));
        assert(r.half_edges@[11] == quad_half_edge_spec(11, cube_target(11), cube_twin(11)));
    } else if v == 6 {
        assert(r.half_edges@[6] == quad_half_edge_spec(6, cube_target(6), cube_twin(6)));
        assert(r.half_edges@[5] == quad_half_edge_spec(5, cube_target(5), cube_twin(5)));
    } else if v == 7 {
        assert(r.half_edges@[10] == quad_half_edge_spec(10, cube_target(10), cube_twin(10)));
        assert(r.half_edges@[9] == quad_half_edge_spec(9, cube_target(9), cube_twin(9)));
    }
}

/// Seeds of the 8 cube vertices: a half-edge leaving each.
pub open spec fn cube_seeds() -> Seq<int> {
    seq![0, 1, 2, 3, 9, 8, 6, 10]
}

proof fn lemma_cube_vertices<T: Copy>(r: &HalfEdgeMesh<T>, lo: T, hi: T)
    requires
        r.vertices@ == seq![
            Vertex { position: [lo, lo, lo], seed_half_edge: Some(HalfEdgeIndex(0)) },
            Vertex { position: [hi, lo, lo], seed_half_edge: Some(HalfEdgeIndex(1)) },
            Vertex { position: [hi, hi, lo], seed_half_edge: Some(HalfEdgeIndex(2)) },
            Vertex { position: [lo, hi, lo], seed_half_edge: Some(HalfEdgeIndex(3)) },
            Vertex { position: [lo, lo, hi], seed_half_edge: Some(HalfEdgeIndex(9)) },
            Vertex { position: [hi, lo, hi], seed_half_edge: Some(HalfEdgeIndex(8)) },
            Vertex { position: [hi, hi, hi], seed_half_edge: Some(HalfEdgeIndex(6)) },
            Vertex { position: [lo, hi, hi], seed_half_edge: Some(HalfEdgeIndex(10)) },
        ],

    ensures
        r.flat_coords() == cube_coords(lo, hi),
        forall|v: int| 0 <= v < 8 ==> (#[trigger] r.vertices@[v]).seed_half_edge == Some(HalfEdgeIndex(cube_seeds()[v] as usize)),
{
    assert(r.flat_coords() =~= cube_coords(lo, hi));
}

proof fn lemma_cube_links<T: Copy>(r: &HalfEdgeMesh<T>)
    requires
        r.vertices.len() == 8,
        forall|v: int| 0 <= v < 8 ==> (#[trigger] r.vertices@[v]).seed_half_edge == Some(HalfEdgeIndex(cube_seeds()[v] as usize)),
        cube_edges_given(r),
        r.faces.len() == 6,
        forall|f: int| 0 <= f < 6 ==> (#[trigger] r.faces@[f]).seed_half_edge == HalfEdgeIndex((4 * f) as usize),
    ensures
        r.indices_in_range(),
        r.links_inverse(),
{
    assert forall|i: int| 0 <= i < 24 implies #[trigger] cube_edge_ok(r, i) by {
        lemma_cube_edge(r, i);
    }
    assert forall|i: int| 0 <= i < 24 implies r.prev_of(#[trigger] r.next_of(i)) == i by {
        assert(cube_edge_ok(r, i));
    }
    assert forall|i: int| 0 <= i < 24 implies r.next_of(#[trigger] r.prev_of(i)) == i by {
        assert(cube_edge_ok(r, i));
    }
    assert forall|v: int| 0 <= v < 8 implies ((#[trigger] r.vertices@[v]).seed_half_edge matches Some(h) ==> h.0 < 24) by {
        assert(v == 0 || v == 1 || v == 2 || v == 3 || v == 4 || v == 5 || v == 6 || v == 7);
    }
}

proof fn lemma_cube_twins<T: Copy>(r: &HalfEdgeMesh<T>)
    requires
        r.vertices.len() == 8,
        forall|v: int| 0 <= v < 8 ==> (#[trigger] r.vertices@[v]).seed_half_edge == Some(HalfEdgeIndex(cube_seeds()[v] as usize)),
        cube_edges_given(r),
        r.faces.len() == 6,
        forall|f: int| 0 <= f < 6 ==> (#[trigger] r.faces@[f]).seed_half_edge == HalfEdgeIndex((4 * f) as usize),
    ensures
        r.twins_reversed(),
        r.twins_symmetric(),
{
    assert forall|i: int| 0 <= i < 24 implies ((#[trigger] r.half_edges@[i]).twin_index matches Some(t)
        ==> r.source_of(t.0 as int) == r.target_of(i) && r.target_of(t.0 as int) == r.source_of(i)) by {
        lemma_cube_edge(r, i);
    }
    assert forall|i: int| 0 <= i < 24 implies ((#[trigger] r.half_edges@[i]).twin_index matches Some(t)
        ==> r.half_edges@[t.0 as int].twin_index == Some(HalfEdgeIndex(i as usize))) by {
        lemma_cube_edge(r, i);
    }
}

proof fn lemma_cube_faces<T: Copy>(r: &HalfEdgeMesh<T>)
    requires
        r.vertices.len() == 8,
        forall|v: int| 0 <= v < 8 ==> (#[trigger] r.vertices@[v]).seed_half_edge == Some(HalfEdgeIndex(cube_seeds()[v] as usize)),
        cube_edges_given(r),
        r.faces.len() == 6,
        forall|f: int| 0 <= f < 6 ==> (#[trigger] r.faces@[f]).seed_half_edge == HalfEdgeIndex((4 * f) as usize),
    ensures
        r.seeds_originate(),
        r.faces_closed(),
        forall|f: int| 0 <= f < r.faces.len() ==> #[trigger] r.face_loop_closed(f, 4),
{
    assert forall|v: int| 0 <= v < 8 implies ((#[trigger] r.vertices@[v]).seed_half_edge matches Some(h) ==> r.source_of(h.0 as int) == v) by {
        lemma_cube_seed(r, v);
    }
    assert forall|f: int| 0 <= f < 6 implies #[trigger] r.face_loop_closed(f, 4) by {
        assert(r.faces@[f].seed_half_edge.0 == 4 * f);
        lemma_cube_loop(r, f);
    }
    assert forall|f: int| 0 <= f < 6 implies #[trigger] r.face_closed(f) by {
        assert(r.face_loop_closed(f, 4));
    }
}

proof fn lemma_cube_wf<T: Copy>(r: &HalfEdgeMesh<T>)
    requires
        r.vertices.len() == 8,
        forall|v: int| 0 <= v < 8 ==> (#[trigger] r.vertices@[v]).seed_half_edge == Some(HalfEdgeIndex(cube_seeds()[v] as usize)),
        cube_edges_given(r),
        r.faces.len() == 6,
        forall|f: int| 0 <= f < 6 ==> (#[trigger] r.faces@[f]).seed_half_edge == HalfEdgeIndex((4 * f) as usize),
    ensures
        r.wf(),
        r.twins_symmetric(),
        forall|f: int| 0 <= f < r.faces.len() ==> #[trigger] r.face_loop_closed(f, 4),
{
    lemma_cube_links(r);
    lemma_cube_twins(r);
    lemma_cube_faces(r);
}

/// Vertex `w` occurs in `order`.
pub open spec fn listed(order: Seq<VertexIndex>, w: int) -> bool {
    exists|j: int| 0 <= j < order.len() && (#[trigger] order[j]).0 == w
}

/// A list of distinct numbers below `n` that misses `w < n` is shorter than `n`.
proof fn lemma_room_left(order: Seq<VertexIndex>, n: int, w: int)
    requires
        forall|i: int, j: int| 0 <= i < j < order.len() ==> order[i] != order[j],
        forall|i: int| 0 <= i < order.len() ==> (#[trigger] order[i]).0 < n,
        0 <= w < n,
        !listed(order, w),
    ensures
        order.len() < n,
{
    let ids = order.map_values(|x: VertexIndex| x.0 as int);
    assert(ids.no_duplicates()) by {
        assert forall|i: int, j: int| 0 <= i < ids.len() && 0 <= j < ids.len() && i != j implies ids[i] != ids[j] by {
            if i < j {
                assert(order[i] != order[j]);
            } else {
                assert(order[j] != order[i]);
            }
        }
    }
    ids.unique_seq_to_set();
    lemma_int_range(0, n);
    let range = set_int_range(0, n).remove(w);
    assert forall|x: int| ids.to_set().contains(x) implies range.contains(x) by {
        let i = choose|i: int| 0 <= i < ids.len() && ids[i] == x;
        assert(order[i].0 == x);
    }
    lemma_len_subset(ids.to_set(), range);
}

impl<T: Copy> HalfEdgeMesh<T> {
    /// The vertices reachable from `start` through outgoing fans, breadth
    /// first: each once, `start` first, every later one a neighbour of an
    /// earlier one, and every neighbour of a listed vertex listed.
    pub fn bfs_vertex_order(&self, start: VertexIndex) -> (r: Vec<VertexIndex>)
        requires
            self.wf(),
            start.0 < self.vertices.len(),
        ensures
            r@.len() >= 1,
            r@[0] == start,
            forall|i: int, j: int| 0 <= i < j < r@.len() ==> r@[i] != r@[j],
            forall|i: int| 0 <= i < r@.len() ==> (#[trigger] r@[i]).0 < self.vertices.len(),
            forall|i: int, w: int|
                0 <= i < r@.len() && #[trigger] self.neighbour(r@[i].0 as int, w) ==> listed(r@, w),
            forall|j: int| 0 < j < r@.len() ==> #[trigger] self.found_earlier(r@, j),
    {
        let nv = self.vertices.len();
        let mut visited: Vec<bool> = Vec::new();
        while visited.len() < nv
            invariant
                visited.len() <= nv,
                forall|v: int| 0 <= v < visited.len() ==> !(#[trigger] visited@[v]),
            decreases nv - visited.len(),
        {
            visited.push(false);
        }
        visited.set(start.0, true);
        let mut order: Vec<VertexIndex> = Vec::new();
        order.push(start);
        proof {
            assert forall|v: int| 0 <= v < nv implies (#[trigger] visited@[v]) == listed(order@, v) by {
                if v == start.0 {
                    assert(order@[0].0 == v);
                }
            }
        }
        let mut head: usize = 0;
        while head < order.len()
            invariant
                self.wf(),
                nv == self.vertices.len(),
                visited.len() == nv,
                1 <= order@.len() <= nv,
                order@[0] == start,
                head <= order@.len(),
                forall|i: int| 0 <= i < order@.len() ==> (#[trigger] order@[i]).0 < nv,
                forall|i: int, j: int| 0 <= i < j < order@.len() ==> order@[i] != order@[j],
                forall|v: int| 0 <= v < nv ==> (#[trigger] visited@[v]) == listed(order@, v),
                forall|i: int, w: int|
                    0 <= i < head && #[trigger] self.neighbour(order@[i].0 as int, w) ==> listed(order@, w),
                forall|j: int| 0 < j < order@.len() ==> #[trigger] self.found_earlier(order@, j),
            decreases nv - head,
        {
            let u = order[head];
            let fan = self.vertex_outgoing_half_edges(u);
            let ghost uf = self.outgoing_fan(u.0 as int);
            let mut k: usize = 0;
            while k < fan.len()
                invariant
                    self.wf(),
                    nv == self.vertices.len(),
                    visited.len() == nv,
                    1 <= order@.len() <= nv,
                    order@[0] == start,
                    head < order@.len(),
                    u == order@[head as int],
                    uf == self.outgoing_fan(u.0 as int),
                    fan@.len() == uf.len(),
                    forall|q: int| 0 <= q < fan@.len() ==> (#[trigger] fan@[q]).0 as int == uf[q],
                    forall|q: int| 0 <= q < fan@.len() ==> (#[trigger] fan@[q]).0 < self.half_edges.len(),
                    k <= fan@.len(),
                    forall|i: int| 0 <= i < order@.len() ==> (#[trigger] order@[i]).0 < nv,
                    forall|i: int, j: int| 0 <= i < j < order@.len() ==> order@[i] != order@[j],
                    forall|v: int| 0 <= v < nv ==> (#[trigger] visited@[v]) == listed(order@, v),
                    forall|i: int, w: int|
                        0 <= i < head && #[trigger] self.neighbour(order@[i].0 as int, w) ==> listed(order@, w),
                    forall|q: int| 0 <= q < k ==> listed(order@, self.target_of(#[trigger] uf[q])),
                    forall|j: int| 0 < j < order@.len() ==> #[trigger] self.found_earlier(order@, j),
                decreases fan@.len() - k,
            {
                let e = fan[k];
                assert(self.half_edges@[e.0 as int] == self.half_edges@[e.0 as int]);
                let w = self.half_edges[e.0].target_vertex_index;
                let ghost before = order@;
                assert(self.neighbour(u.0 as int, w.0 as int)) by {
                    assert(self.target_of(uf[k as int]) == w.0);
                }
                if !visited[w.0] {
                    proof {
                        lemma_room_left(order@, nv as int, w.0 as int);
                    }
                    visited.set(w.0, true);
                    order.push(w);
                    proof {
                        assert(order@[order@.len() - 1] == w);
                        assert forall|v: int| 0 <= v < nv implies (#[trigger] visited@[v]) == listed(order@, v) by {
                            if listed(before, v) {
                                let j = choose|j: int| 0 <= j < before.len() && (#[trigger] before[j]).0 == v;
                                assert(order@[j] == before[j]);
                            }
                            if listed(order@, v) && v != w.0 {
                                let j = choose|j: int| 0 <= j < order@.len() && (#[trigger] order@[j]).0 == v;
                                assert(before[j] == order@[j]);
                            }
                        }
                        assert forall|j: int| 0 < j < order@.len() implies #[trigger] self.found_earlier(order@, j) by {
                            if j < before.len() {
                                assert(self.found_earlier(before, j));
                                let i = choose|i: int| 0 <= i < j && #[trigger] self.neighbour(before[i].0 as int, before[j].0 as int);
                                assert(order@[i] == before[i]);
                                assert(order@[j] == before[j]);
                            } else {
                                assert(order@[head as int] == u);
                                assert(self.neighbour(order@[head as int].0 as int, order@[j].0 as int));
                            }
                        }
                        assert forall|i: int, x: int| 0 <= i < head && #[trigger] self.neighbour(order@[i].0 as int, x) implies listed(order@, x) by {
                            assert(order@[i] == before[i]);
                            assert(listed(before, x));
                            let j = choose|j: int| 0 <= j < before.len() && (#[trigger] before[j]).0 == x;
                            assert(order@[j] == before[j]);
                        }
                        assert forall|q: int| 0 <= q < k + 1 implies listed(order@, self.target_of(#[trigger] uf[q])) by {
                            if q < k {
                                assert(listed(before, self.target_of(uf[q])));
                                let j = choose|j: int| 0 <= j < before.len() && (#[trigger] before[j]).0 == self.target_of(uf[q]);
                                assert(order@[j] == before[j]);
                            } else {
                                assert(order@[order@.len() - 1].0 == w.0);
                            }
                        }
                    }
                } else {
                    proof {
                        assert(listed(order@, w.0 as int));
                    }
                }
                k += 1;
            }
            proof {
                assert forall|i: int, x: int| 0 <= i < head + 1 && #[trigger] self.neighbour(order@[i].0 as int, x) implies listed(order@, x) by {
                    if i == head {
                        let q = choose|q: int| 0 <= q < uf.len() && self.target_of(#[trigger] uf[q]) == x;
                    }
                }
            }
            head += 1;
        }
        order
    }
}

/// The flat triangles of the quad cube: each side fanned from its first vertex.
pub open spec fn cube_fan_triangles() -> Seq<u32> {
    seq![0, 1, 2, 0, 2, 3, 1, 5, 6, 1, 6, 2, 5, 4, 7, 5, 7, 6, 4, 0, 3, 4, 3, 7, 0, 4, 5, 0, 5, 1, 3, 2, 6, 3, 6, 7]
}

proof fn lemma_cube_face_fan<T: Copy>(r: &HalfEdgeMesh<T>, f: int)
    requires
        cube_edges_given(r),
        r.faces.len() == 6,
        forall|g: int| 0 <= g < 6 ==> (#[trigger] r.faces@[g]).seed_half_edge == HalfEdgeIndex((4 * g) as usize),
        forall|g: int| 0 <= g < r.faces.len() ==> #[trigger] r.face_loop_closed(g, 4),
        r.faces_closed(),
        0 <= f < 6,
    ensures
        r.face_fan(f) == cube_fan_triangles().subrange(6 * f, 6 * f + 6),
{
    let seed = 4 * f;
    assert(r.faces@[f].seed_half_edge == HalfEdgeIndex((4 * f) as usize));
    assert(r.face_loop_closed(f, 4));
    assert(r.face_closed(f));
    let n = r.face_len(f);
    assert(r.face_loop_closed(f, n));
    if f == 0 {
        assert(r.half_edges@[0] == quad_half_edge_spec(0, cube_target(0), cube_twin(0)));
        assert(r.half_edges@[1] == quad_half_edge_spec(1, cube_target(1), cube_twin(1)));
        assert(r.half_edges@[2] == quad_half_edge_spec(2, cube_target(2), cube_twin(2)));
        assert(r.half_edges@[3] == quad_half_edge_spec(3, cube_target(3), cube_twin(3)));
    } else if f == 1 {
        assert(r.half_edges@[4] == quad_half_edge_spec(4, cube_target(4), cube_twin(4)));
        assert(r.half_edges@[5] == quad_half_edge_spec(5, cube_target(5), cube_twin(5)));
        assert(r.half_edges@[6] == quad_half_edge_spec(6, cube_target(6), cube_twin(6)));
        assert(r.half_edges@[7] == quad_half_edge_spec(7, cube_target(7), cube_twin(7)));
    } else if f == 2 {
        assert(r.half_edges@[8] == quad_half_edge_spec(8, cube_target(8), cube_twin(8)));
        assert(r.half_edges@[9] == quad_half_edge_spec(9, cube_target(9), cube_twin(9)));
        assert(r.half_edges@[10] == quad_half_edge_spec(10, cube_target(10), cube_twin(10)));
        assert(r.half_edges@[11] == quad_half_edge_spec(11, cube_target(11), cube_twin(11)));
    } else if f == 3 {
        assert(r.half_edges@[12] == quad_half_edge_spec(12, cube_target(12), cube_twin(12)));
        assert(r.half_edges@[13] == quad_half_edge_spec(13, cube_target(13), cube_twin(13)));
        assert(r.half_edges@[14] == quad_half_edge_spec(14, cube_target(14), cube_twin(14)));
        assert(r.half_edges@[15] == quad_half_edge_spec(15, cube_target(15), cube_twin(15)));
    } else if f == 4 {
        assert(r.half_edges@[16] == quad_half_edge_spec(16, cube_target(16), cube_twin(16)));
        assert(r.half_edges@[17] == quad_half_edge_spec(17, cube_target(17), cube_twin(17)));
        assert(r.half_edges@[18] == quad_half_edge_spec(18, cube_target(18), cube_twin(18)));
        assert(r.half_edges@[19] == quad_half_edge_spec(19, cube_target(19), cube_twin(19)));
    } else if f == 5 {
        assert(r.half_edges@[20] == quad_half_edge_spec(20, cube_target(20), cube_twin(20)));
        assert(r.half_edges@[21] == quad_half_edge_spec(21, cube_target(21), cube_twin(21)));
        assert(r.half_edges@[22] == quad_half_edge_spec(22, cube_target(22), cube_twin(22)));
        assert(r.half_edges@[23] == quad_half_edge_spec(23, cube_target(23), cube_twin(23)));
    }
    assert(r.walk_next(seed, 0) == seed);
    assert(r.walk_next(seed, 1) == seed + 1);
    assert(r.walk_next(seed, 2) == seed + 2);
    assert(r.walk_next(seed, 3) == seed + 3);
    if n > 4 {
        assert(r.walk_next(seed, 4) != seed);
    }
    if n == 3 {
        assert(r.walk_next(seed, 3) == seed);
    }
    assert(n == 4);
    assert(r.face_fan(f) =~= cube_fan_triangles().subrange(6 * f, 6 * f + 6));
}

proof fn lemma_cube_flat<T: Copy>(r: &HalfEdgeMesh<T>)
    requires
        cube_edges_given(r),
        r.faces.len() == 6,
        forall|g: int| 0 <= g < 6 ==> (#[trigger] r.faces@[g]).seed_half_edge == HalfEdgeIndex((4 * g) as usize),
        forall|g: int| 0 <= g < r.faces.len() ==> #[trigger] r.face_loop_closed(g, 4),
        r.faces_closed(),
    ensures
        r.flat_face_indices() == cube_fan_triangles(),
{
    let all = cube_fan_triangles();
    assert forall|f: int| 0 <= f <= 6 implies #[trigger] r.fan_upto(f) == all.subrange(0, 6 * f) by {
        lemma_cube_fan_upto(r, f);
    }
    assert(all.subrange(0, 36) =~= all);
}

proof fn lemma_cube_fan_upto<T: Copy>(r: &HalfEdgeMesh<T>, f: int)
    requires
        cube_edges_given(r),
        r.faces.len() == 6,
        forall|g: int| 0 <= g < 6 ==> (#[trigger] r.faces@[g]).seed_half_edge == HalfEdgeIndex((4 * g) as usize),
        forall|g: int| 0 <= g < r.faces.len() ==> #[trigger] r.face_loop_closed(g, 4),
        r.faces_closed(),
        0 <= f <= 6,
    ensures
        r.fan_upto(f) == cube_fan_triangles().subrange(0, 6 * f),
    decreases f,
{
    if f > 0 {
        lemma_cube_fan_upto(r, f - 1);
        lemma_cube_face_fan(r, f - 1);
        assert(r.fan_upto(f) =~= cube_fan_triangles().subrange(0, 6 * f));
    }
}

impl<T: Copy> HalfEdgeMesh<T> {
    /// Whether the mesh is well formed (see `wf`).
    pub fn is_well_formed(&self) -> (r: bool)
        ensures
            r == self.wf(),
    {
        if self.vertices.len() as u128 > 0x1_0000_0000u128 {
            return false;
        }
        if !self.indices_are_in_range() {
            return false;
        }
        let nh = self.half_edges.len();
        let mut i: usize = 0;
        while i < nh
            invariant
                self.indices_in_range(),
                nh == self.half_edges.len(),
                i <= nh,
                forall|j: int| 0 <= j < i ==> self.prev_of(#[trigger] self.next_of(j)) == j,
                forall|j: int| 0 <= j < i ==> self.next_of(#[trigger] self.prev_of(j)) == j,
                forall|j: int|
                    0 <= j < i ==> ((#[trigger] self.half_edges@[j]).twin_index matches Some(t)
                        ==> self.source_of(t.0 as int) == self.target_of(j) && self.target_of(t.0 as int) == self.source_of(j)),
            decreases nh - i,
        {
            let he = self.half_edges[i];
            assert(self.half_edges@[i as int] == he);
            let nx = self.half_edges[he.next_edge.0];
            let pv = self.half_edges[he.prev_edge.0];
            if nx.prev_edge.0 != i || pv.next_edge.0 != i {
                proof {
                    if nx.prev_edge.0 != i {
                        assert(self.prev_of(self.next_of(i as int)) != i);
                    } else {
                        assert(self.next_of(self.prev_of(i as int)) != i);
                    }
                }
                return false;
            }
            if let Some(t) = he.twin_index {
                let te = self.half_edges[t.0];
                assert(self.half_edges@[t.0 as int] == te);
                let t_source = self.half_edges[te.prev_edge.0].target_vertex_index.0;
                let source = pv.target_vertex_index.0;
                if t_source != he.target_vertex_index.0 || te.target_vertex_index.0 != source {
                    proof {
                        assert(!self.twins_reversed());
                    }
                    return false;
                }
            }
            i += 1;
        }
        let mut v: usize = 0;
        while v < self.vertices.len()
            invariant
                self.indices_in_range(),
                v <= self.vertices.len(),
                forall|w: int|
                    0 <= w < v ==> ((#[trigger] self.vertices@[w]).seed_half_edge matches Some(h) ==> self.source_of(h.0 as int) == w),
            decreases self.vertices.len() - v,
        {
            assert(self.vertices@[v as int] == self.vertices@[v as int]);
            if let Some(h) = self.vertices[v].seed_half_edge {
                assert(self.half_edges@[h.0 as int] == self.half_edges@[h.0 as int]);
                let p = self.half_edges[h.0].prev_edge.0;
                if self.half_edges[p].target_vertex_index.0 != v {
                    return false;
                }
            }
            v += 1;
        }
        let mut f: usize = 0;
        while f < self.faces.len()
            invariant
                self.indices_in_range(),
                self.links_inverse(),
                f <= self.faces.len(),
                forall|g: int| 0 <= g < f ==> #[trigger] self.face_closed(g),
            decreases self.faces.len() - f,
        {
            if !self.face_is_closed(f) {
                return false;
            }
            f += 1;
        }
        true
    }

    fn indices_are_in_range(&self) -> (r: bool)
        ensures
            r == self.indices_in_range(),
    {
        let nv = self.vertices.len();
        let nh = self.half_edges.len();
        let nf = self.faces.len();
        let mut i: usize = 0;
        while i < nh
            invariant
                i <= nh,
                nv == self.vertices.len(),
                nh == self.half_edges.len(),
                nf == self.faces.len(),
                forall|j: int|
                    0 <= j < i ==> {
                        let he = #[trigger] self.half_edges@[j];
                        &&& he.target_vertex_index.0 < nv
                        &&& he.next_edge.0 < nh
                        &&& he.prev_edge.0 < nh
                        &&& (he.twin_index matches Some(t) ==> t.0 < nh)
                        &&& (he.face_index matches Some(g) ==> g.0 < nf)
                    },
            decreases nh - i,
        {
            let he = self.half_edges[i];
            assert(self.half_edges@[i as int] == he);
            if he.target_vertex_index.0 >= nv || he.next_edge.0 >= nh || he.prev_edge.0 >= nh {
                return false;
            }
            if let Some(t) = he.twin_index {
                if t.0 >= nh {
                    return false;
                }
            }
            if let Some(g) = he.face_index {
                if g.0 >= nf {
                    return false;
                }
            }
            i += 1;
        }
        let mut f: usize = 0;
        while f < nf
            invariant
                f <= nf,
                nh == self.half_edges.len(),
                nf == self.faces.len(),
                forall|g: int| 0 <= g < f ==> (#[trigger] self.faces@[g]).seed_half_edge.0 < nh,
            decreases nf - f,
        {
            assert(self.faces@[f as int] == self.faces@[f as int]);
            if self.faces[f].seed_half_edge.0 >= nh {
                return false;
            }
            f += 1;
        }
        let mut v: usize = 0;
        while v < nv
            invariant
                v <= nv,
                nv == self.vertices.len(),
                nh == self.half_edges.len(),
                forall|w: int| 0 <= w < v ==> ((#[trigger] self.vertices@[w]).seed_half_edge matches Some(h) ==> h.0 < nh),
            decreases nv - v,
        {
            assert(self.vertices@[v as int] == self.vertices@[v as int]);
            if let Some(h) = self.vertices[v].seed_half_edge {
                if h.0 >= nh {
                    return false;
                }
            }
            v += 1;
        }
        true
    }

    /// Whether face `f`'s `next` loop closes (see `face_closed`).
    fn face_is_closed(&self, f: usize) -> (r: bool)
        requires
            self.indices_in_range(),
            f < self.faces.len(),
        ensures
            r == self.face_closed(f as int),
    {
        let nh = self.half_edges.len();
        assert(self.faces@[f as int] == self.faces@[f as int]);
        let seed = self.faces[f].seed_half_edge.0;
        let ghost s = seed as int;
        proof {
            lemma_walk_in_range(self, s, 1);
        }
        let mut cur = self.half_edges[seed].next_edge.0;
        let mut k: usize = 1;
        assert(self.walk_next(s, 1) == self.next_of(self.walk_next(s, 0)));
        assert(s == self.face_seed(f as int));
        while cur != seed && k < nh
            invariant
                self.indices_in_range(),
                nh == self.half_edges.len(),
                s == seed as int,
                seed < nh,
                1 <= k <= nh,
                cur as int == self.walk_next(s, k as nat),
                cur < nh,
                forall|j: nat| 0 < j < k ==> #[trigger] self.walk_next(s, j) != s,
            decreases nh - k,
        {
            proof {
                lemma_walk_in_range(self, s, (k + 1) as nat);
                assert(self.walk_next(s, (k + 1) as nat) == self.next_of(cur as int));
            }
            cur = self.half_edges[cur].next_edge.0;
            k += 1;
        }
        if cur != seed {
            proof {
                assert forall|n: nat| !#[trigger] self.face_loop_closed(f as int, n) by {
                    if self.face_loop_closed(f as int, n) {
                        assert(self.walk_next(s, n) == s);
                        assert(0 < n <= nh);
                        if n < k {
                        } else {
                            assert(n == k);
                        }
                    }
                }
            }
            return false;
        }
        let ghost n = k as nat;
        proof {
            assert forall|m: nat| #[trigger] self.face_loop_closed(f as int, m) implies m == n by {
                if m < n {
                    assert(self.walk_next(s, m) != s);
                } else if m > n {
                    assert(self.walk_next(s, n) != s);
                }
            }
        }
        if k < 3 {
            return false;
        }
        let mut j: usize = 0;
        let mut e = seed;
        while j < k
            invariant
                self.indices_in_range(),
                nh == self.half_edges.len(),
                s == seed as int,
                seed < nh,
                3 <= k <= nh,
                n == k,
                s == self.face_seed(f as int),
                self.walk_next(s, n) == s,
                forall|q: nat| 0 < q < n ==> #[trigger] self.walk_next(s, q) != s,
                forall|m: nat| #[trigger] self.face_loop_closed(f as int, m) ==> m == n,
                j <= k,
                e as int == self.walk_next(s, j as nat),
                e < nh,
                forall|q: nat| q < j ==> self.half_edges@[#[trigger] self.walk_next(s, q)].face_index == Some(FaceIndex(f)),
            decreases k - j,
        {
            assert(self.half_edges@[e as int] == self.half_edges@[e as int]);
            assert(self.half_edges@[self.walk_next(s, j as nat)] == self.half_edges@[e as int]);
            match self.half_edges[e].face_index {
                Some(g) => {
                    if g.0 != f {
                        proof {
                            assert(!self.face_loop_closed(f as int, n));
                        }
                        return false;
                    }
                },
                None => {
                    proof {
                        assert(!self.face_loop_closed(f as int, n));
                    }
                    return false;
                },
            }
            proof {
                lemma_walk_in_range(self, s, (j + 1) as nat);
                assert(self.walk_next(s, (j + 1) as nat) == self.next_of(e as int));
            }
            e = self.half_edges[e].next_edge.0;
            j += 1;
        }
        proof {
            assert(self.face_loop_closed(f as int, n));
        }
        true
    }
}

} // verus!
