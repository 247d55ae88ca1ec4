use vstd::prelude::*;
use vstd::arithmetic::div_mod::{lemma_fundamental_div_mod_converse, lemma_mod_multiples_basic};

verus! {

/// Flat, render-friendly triangle buffer. Coordinates come in triples (one per
/// vertex) and every triple of `face_indices` is one triangle.
pub struct Mesh<T> {
    pub vertex_coords: Vec<T>,
    pub face_indices: Vec<u32>,
    pub normals: Option<Vec<T>>,
}

/// The eight corners of the axis-aligned box `[lo, hi]^3`, x varying fastest on
/// each face: bottom square at z = lo, then top square at z = hi.
pub open spec fn cube_coords<T>(lo: T, hi: T) -> Seq<T> {
    seq![
        lo, lo, lo, hi, lo, lo, hi, hi, lo, lo, hi, lo,
        lo, lo, hi, hi, lo, hi, hi, hi, hi, lo, hi, hi,
    ]
}

/// The twelve triangles (two per side) of the cube over `cube_coords`.
pub open spec fn cube_triangles() -> Seq<u32> {
    seq![
        0, 2, 1, 0, 3, 2,
        5, 7, 4, 5, 6, 7,
        3, 6, 2, 3, 7, 6,
        4, 1, 5, 4, 0, 1,
        1, 6, 5, 1, 2, 6,
        4, 3, 0, 4, 7, 3,
    ]
}

/// The six indices of quad number `k` of a UV sphere with `s` segments per
/// ring: the quad joins vertices `c, c + 1` of one ring to `n, n + 1` of the
/// next, where `c = ring * (s + 1) + segment` and `n = c + s + 1`.
pub open spec fn sphere_quad(s: int, k: int, c: int) -> int {
    let cur = (k / s) * (s + 1) + k % s;
    let next = cur + s + 1;
    if c == 0 { cur }
    else if c == 1 { next }
    else if c == 2 { cur + 1 }
    else if c == 3 { cur + 1 }
    else if c == 4 { next }
    else { next + 1 }
}

/// All triangle indices of a UV sphere: `rings * segments` quads, ring by ring,
/// each split into two triangles.
pub open spec fn sphere_triangles(segments: int, rings: int) -> Seq<u32> {
    Seq::new((6 * rings * segments) as nat, |j: int| sphere_quad(segments, j / 6, j % 6) as u32)
}

impl<T: Copy> Mesh<T> {
    /// Both buffers hold whole triples and every index names a vertex.
    pub open spec fn wf(&self) -> bool {
        &&& self.vertex_coords.len() % 3 == 0
        &&& self.face_indices.len() % 3 == 0
        &&& forall|i: int|
            0 <= i < self.face_indices.len() ==> (#[trigger] self.face_indices[i] as int)
                < self.vertex_coords.len() / 3
    }

    pub fn new() -> (r: Mesh<T>)
        ensures
            r.vertex_coords@ == Seq::<T>::empty(),
            r.face_indices@ == Seq::<u32>::empty(),
            r.normals.is_none(),
    {
        Mesh { vertex_coords: Vec::new(), face_indices: Vec::new(), normals: None }
    }

    pub fn add_vertex(&mut self, x: T, y: T, z: T)
        ensures
            final(self).vertex_coords@ == old(self).vertex_coords@ + seq![x, y, z],
            final(self).face_indices@ == old(self).face_indices@,
            final(self).normals == old(self).normals,
    {
        self.vertex_coords.push(x);
        self.vertex_coords.push(y);
        self.vertex_coords.push(z);
        assert(self.vertex_coords@ =~= old(self).vertex_coords@ + seq![x, y, z]);
    }

    pub fn add_triangle(&mut self, i0: u32, i1: u32, i2: u32)
        ensures
            final(self).face_indices@ == old(self).face_indices@ + seq![i0, i1, i2],
            final(self).vertex_coords@ == old(self).vertex_coords@,
            final(self).normals == old(self).normals,
    {
        self.face_indices.push(i0);
        self.face_indices.push(i1);
        self.face_indices.push(i2);
        assert(self.face_indices@ =~= old(self).face_indices@ + seq![i0, i1, i2]);
    }

    pub fn set_vertex(&mut self, i: usize, x: T, y: T, z: T)
        requires
            3 * i + 2 < old(self).vertex_coords.len(),
        ensures
            final(self).vertex_coords@ == old(self).vertex_coords@.update(3 * i, x).update(
                3 * i + 1,
                y,
            ).update(3 * i + 2, z),
            final(self).face_indices@ == old(self).face_indices@,
            final(self).normals == old(self).normals,
    {
        let base = i * 3;
        self.vertex_coords.set(base, x);
        self.vertex_coords.set(base + 1, y);
        self.vertex_coords.set(base + 2, z);
    }

    pub fn vertex_count(&self) -> (r: usize)
        ensures
            r == self.vertex_coords.len() / 3,
    {
        self.vertex_coords.len() / 3
    }

    pub fn face_count(&self) -> (r: usize)
        ensures
            r == self.face_indices.len() / 3,
    {
        self.face_indices.len() / 3
    }

    /// The box `[lo, hi]^3` as 8 vertices and 12 triangles.
    pub fn create_cube(lo: T, hi: T) -> (r: Mesh<T>)
        ensures
            r.vertex_coords@ == cube_coords(lo, hi),
            r.face_indices@ == cube_triangles(),
            r.normals.is_none(),
            r.wf(),
    {
        let mut mesh = Mesh::new();
        mesh.add_vertex(lo, lo, lo);
        mesh.add_vertex(hi, lo, lo);
        mesh.add_vertex(hi, hi, lo);
        mesh.add_vertex(lo, hi, lo);
        mesh.add_vertex(lo, lo, hi);
        mesh.add_vertex(hi, lo, hi);
        mesh.add_vertex(hi, hi, hi);
        mesh.add_vertex(lo, hi, hi);

        mesh.add_triangle(0, 2, 1);
        mesh.add_triangle(0, 3, 2);
        mesh.add_triangle(5, 7, 4);
        mesh.add_triangle(5, 6, 7);
        mesh.add_triangle(3, 6, 2);
        mesh.add_triangle(3, 7, 6);
        mesh.add_triangle(4, 1, 5);
        mesh.add_triangle(4, 0, 1);
        mesh.add_triangle(1, 6, 5);
        mesh.add_triangle(1, 2, 6);
        mesh.add_triangle(4, 3, 0);
        mesh.add_triangle(4, 7, 3);
        assert(mesh.vertex_coords@ =~= cube_coords(lo, hi));
        assert(mesh.face_indices@ =~= cube_triangles());
        mesh
    }

    /// A UV sphere over the given vertex grid of `rings + 1` rings with
    /// `segments + 1` vertices each (ring by ring): every cell of the grid
    /// becomes two triangles.
    pub fn create_sphere(vertex_coords: Vec<T>, segments: u32, rings: u32) -> (r: Mesh<T>)
        requires
            vertex_coords.len() == 3 * (rings + 1) * (segments + 1),
            (rings + 1) * (segments + 1) <= u32::MAX,
        ensures
            r.vertex_coords@ == vertex_coords@,
            r.face_indices@ == sphere_triangles(segments as int, rings as int),
            r.normals.is_none(),
            r.wf(),
    {
        let ghost s = segments as int;
        let ghost n_rings = rings as int;
        let mut face_indices: Vec<u32> = Vec::new();
        let mut ring: u32 = 0;
        proof {
            assert((rings as int) * (segments as int) + rings + segments + 1 <= u32::MAX) by (nonlinear_arith)
                requires (rings + 1) * (segments + 1) <= u32::MAX;
        }
        while ring < rings
            invariant
                ring <= rings,
                s == segments,
                n_rings == rings,
                (rings + 1) * (segments + 1) <= u32::MAX,
                face_indices@.len() == 6 * ring * s,
                forall|j: int|
                    0 <= j < face_indices@.len() ==> #[trigger] face_indices@[j] == sphere_quad(s, j / 6, j % 6) as u32,
            decreases rings - ring,
        {
            let mut segment: u32 = 0;
            proof {
                assert(6 * ring * s == 6 * (ring * s + 0)) by (nonlinear_arith);
            }
            while segment < segments
                invariant
                    ring < rings,
                    segment <= segments,
                    s == segments,
                    (rings + 1) * (segments + 1) <= u32::MAX,
                    face_indices@.len() == 6 * (ring * s + segment),
                    forall|j: int|
                        0 <= j < face_indices@.len() ==> #[trigger] face_indices@[j] == sphere_quad(s, j / 6, j % 6) as u32,
                decreases segments - segment,
            {
                proof {
                    assert((ring as int) * (segments as int + 1) + segments + 1 + segments + 1 <= u32::MAX) by (nonlinear_arith)
                        requires ring < rings, (rings + 1) * (segments + 1) <= u32::MAX;
                }
                let current = ring * (segments + 1) + segment;
                let next = current + segments + 1;
                let ghost k = ring * s + segment;
                let ghost before = face_indices@.len();
                proof {
                    lemma_fundamental_div_mod_converse(k, s, ring as int, segment as int);
                    assert(before == 6 * k) by (nonlinear_arith)
                        requires before == 6 * (ring * s + segment), k == ring * s + segment;
                }
                face_indices.push(current);
                face_indices.push(next);
                face_indices.push(current + 1);
                face_indices.push(current + 1);
                face_indices.push(next);
                face_indices.push(next + 1);
                proof {
                    assert forall|j: int| 0 <= j < face_indices@.len() implies #[trigger] face_indices@[j]
                        == sphere_quad(s, j / 6, j % 6) as u32 by {
                        if j >= before {
                            lemma_fundamental_div_mod_converse(j, 6, k, j - before);
                        }
                    }
                    assert(face_indices@.len() == 6 * (ring * s + segment + 1)) by (nonlinear_arith)
                        requires face_indices@.len() == before + 6, before == 6 * (ring * s + segment);
                }
                segment += 1;
            }
            proof {
                assert(6 * (ring * s + s) == 6 * (ring + 1) * s) by (nonlinear_arith);
            }
            ring += 1;
        }
        let mesh = Mesh { vertex_coords, face_indices, normals: None };
        proof {
            assert(mesh.vertex_coords.len() / 3 == (n_rings + 1) * (s + 1) && mesh.vertex_coords.len() % 3 == 0)
                by (nonlinear_arith)
                requires mesh.vertex_coords.len() == 3 * (n_rings + 1) * (s + 1);
            assert(mesh.face_indices.len() == (2 * n_rings * s) * 3) by (nonlinear_arith)
                requires mesh.face_indices.len() == 6 * n_rings * s;
            lemma_mod_multiples_basic(2 * n_rings * s, 3);
            assert(mesh.face_indices@ =~= sphere_triangles(s, n_rings));
            assert forall|i: int| 0 <= i < mesh.face_indices.len() implies (#[trigger] mesh.face_indices[i] as int)
                < mesh.vertex_coords.len() / 3 by {
                let k = i / 6;
                let c = i % 6;
                assert(0 <= k < n_rings * s && s > 0) by (nonlinear_arith)
                    requires k == i / 6, 0 <= i < 6 * n_rings * s, s >= 0, n_rings >= 0;
                lemma_sphere_quad_bound(s, n_rings, k, c);
                assert((n_rings + 1) * (s + 1) <= u32::MAX);
            }
        }
        mesh
    }
}

proof fn lemma_sphere_quad_bound(s: int, rings: int, k: int, c: int)
    requires
        s > 0,
        rings >= 0,
        0 <= k < rings * s,
        0 <= c < 6,
    ensures
        0 <= sphere_quad(s, k, c) < (rings + 1) * (s + 1),
{
    let ring = k / s;
    let seg = k % s;
    assert(0 <= seg < s);
    assert(0 <= ring < rings) by (nonlinear_arith)
        requires ring == k / s, 0 <= k < rings * s, s > 0;
    assert(ring * (s + 1) + seg + s + 2 < (rings + 1) * (s + 1)) by (nonlinear_arith)
        requires 0 <= ring < rings, 0 <= seg < s;
    assert(ring * (s + 1) >= 0) by (nonlinear_arith)
        requires ring >= 0, s > 0;
}

} // verus!
