use vstd::prelude::*;
use crate::mesh::Mesh;

verus! {

/// Why a set of OBJ models cannot be merged into one flat mesh.
#[derive(Debug, Clone, Copy, PartialEq, Eq, Structural)]
pub enum ObjImportError {
    /// A model's position buffer does not hold whole triples.
    PositionsNotTriples,
    /// A model's index buffer does not hold whole triangles.
    IndicesNotTriples,
    /// An index, shifted past the vertices of earlier models, exceeds `u32`.
    TooManyVertices,
}

/// The indices of one model shifted by `base` vertices.
pub open spec fn shifted(indices: Seq<u32>, base: int) -> Seq<u32> {
    indices.map_values(|i: u32| (i + base) as u32)
}

/// Merging the first `n` models: positions concatenated, indices of each
/// model shifted past the vertices of the models before it; the first
/// malformed model decides the error.
pub open spec fn merge_spec<T>(models: Seq<(Seq<T>, Seq<u32>)>, n: int) -> Result<(Seq<T>, Seq<u32>), ObjImportError>
    decreases n,
{
    if n <= 0 {
        Ok((Seq::empty(), Seq::empty()))
    } else {
        match merge_spec(models, n - 1) {
            Err(e) => Err(e),
            Ok((coords, indices)) => {
                let positions = models[n - 1].0;
                let more = models[n - 1].1;
                let base = (coords.len() / 3) as int;
                if positions.len() % 3 != 0 {
                    Err(ObjImportError::PositionsNotTriples)
                } else if more.len() % 3 != 0 {
                    Err(ObjImportError::IndicesNotTriples)
                } else if exists|k: int| 0 <= k < more.len() && more[k] + base > u32::MAX {
                    Err(ObjImportError::TooManyVertices)
                } else {
                    Ok((coords + positions, indices + shifted(more, base)))
                }
            },
        }
    }
}

proof fn lemma_merge_err_stays<T>(models: Seq<(Seq<T>, Seq<u32>)>, m: int, n: int)
    requires
        0 < m <= n,
        merge_spec(models, m) is Err,
    ensures
        merge_spec(models, n) == merge_spec(models, m),
    decreases n - m,
{
    if m < n {
        lemma_merge_err_stays(models, m, n - 1);
    }
}

pub open spec fn models_view<T>(models: Seq<(Vec<T>, Vec<u32>)>) -> Seq<(Seq<T>, Seq<u32>)> {
    models.map_values(|m: (Vec<T>, Vec<u32>)| (m.0@, m.1@))
}

/// Merges triangulated OBJ models (positions, triangle indices) into one
/// flat mesh without normals.
pub fn merge_obj_models<T: Copy>(models: &Vec<(Vec<T>, Vec<u32>)>) -> (r: Result<Mesh<T>, ObjImportError>)
    ensures
        match (r, merge_spec(models_view(models@), models@.len() as int)) {
            (Ok(m), Ok((coords, indices))) => m.vertex_coords@ == coords && m.face_indices@ == indices
                && m.normals.is_none(),
            (Err(e), Err(f)) => e == f,
            _ => false,
        },
{
    let ghost mv = models_view(models@);
    let mut out: Mesh<T> = Mesh::new();
    let mut m: usize = 0;
    while m < models.len()
        invariant
            m <= models@.len(),
            mv == models_view(models@),
            merge_spec(mv, m as int) == Ok::<(Seq<T>, Seq<u32>), ObjImportError>((out.vertex_coords@, out.face_indices@)),
            out.normals.is_none(),
        decreases models@.len() - m,
    {
        let positions = &models[m].0;
        let indices = &models[m].1;
        assert(mv[m as int] == (positions@, indices@));
        if positions.len() % 3 != 0 {
            proof {
                assert(merge_spec(mv, m as int + 1) == Err::<(Seq<T>, Seq<u32>), ObjImportError>(ObjImportError::PositionsNotTriples));
                lemma_merge_err_stays(mv, m as int + 1, mv.len() as int);
            }
            return Err(ObjImportError::PositionsNotTriples);
        }
        if indices.len() % 3 != 0 {
            proof {
                assert(merge_spec(mv, m as int + 1) == Err::<(Seq<T>, Seq<u32>), ObjImportError>(ObjImportError::IndicesNotTriples));
                lemma_merge_err_stays(mv, m as int + 1, mv.len() as int);
            }
            return Err(ObjImportError::IndicesNotTriples);
        }
        let base = out.vertex_coords.len() / 3;
        let ghost coords0 = out.vertex_coords@;
        let ghost indices0 = out.face_indices@;
        let mut k: usize = 0;
        let mut shifted_indices: Vec<u32> = Vec::new();
        while k < indices.len()
            invariant
                k <= indices@.len(),
                m < models@.len(),
                mv == models_view(models@),
                mv[m as int] == (positions@, indices@),
                positions@.len() % 3 == 0,
                indices@.len() % 3 == 0,
                merge_spec(mv, m as int) == Ok::<(Seq<T>, Seq<u32>), ObjImportError>((coords0, indices0)),
                base == coords0.len() / 3,
                forall|j: int| 0 <= j < k ==> indices@[j] + base <= u32::MAX,
                shifted_indices@ == shifted(indices@.subrange(0, k as int), base as int),
            decreases indices@.len() - k,
        {
            let i = indices[k];
            if base > u32::MAX as usize || i > u32::MAX - base as u32 {
                proof {
                    assert(indices@[k as int] + base > u32::MAX);
                    assert(merge_spec(mv, m as int + 1) == Err::<(Seq<T>, Seq<u32>), ObjImportError>(ObjImportError::TooManyVertices));
                    lemma_merge_err_stays(mv, m as int + 1, mv.len() as int);
                }
                return Err(ObjImportError::TooManyVertices);
            }
            shifted_indices.push(i + base as u32);
            k += 1;
            assert(shifted_indices@ =~= shifted(indices@.subrange(0, k as int), base as int));
        }
        assert(indices@.subrange(0, indices@.len() as int) =~= indices@);
        let mut j: usize = 0;
        while j < positions.len()
            invariant
                j <= positions@.len(),
                out.vertex_coords@ == coords0 + positions@.subrange(0, j as int),
                out.face_indices@ == indices0,
                out.normals.is_none(),
            decreases positions@.len() - j,
        {
            out.vertex_coords.push(positions[j]);
            j += 1;
            assert(out.vertex_coords@ =~= coords0 + positions@.subrange(0, j as int));
        }
        out.face_indices.append(&mut shifted_indices);
        assert(positions@.subrange(0, positions@.len() as int) =~= positions@);
        m += 1;
    }
    assert(models@.len() == mv.len());
    Ok(out)
}

} // verus!
