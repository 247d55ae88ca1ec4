use vstd::prelude::*;
use glam::Mat4;

verus! {

#[verifier::external_type_specification]
#[verifier::external_body]
pub struct ExMat4(glam::Mat4);

/// glam's `Mat4::IDENTITY` constant.
pub uninterp spec fn mat_identity(unit: ()) -> Mat4;

/// The product `a * b` that glam's `Mul` for `Mat4` computes.
pub uninterp spec fn mat_product(a: Mat4, b: Mat4) -> Mat4;

/// The matrix that glam's `Mat4::inverse` computes.
pub uninterp spec fn mat_inverse(m: Mat4) -> Mat4;

/// Relies on glam's `Mat4::IDENTITY` constant.
#[verifier::external_body]
fn identity_matrix() -> (r: Mat4)
    ensures
        r == mat_identity(()),
{
    Mat4::IDENTITY
}

/// Relies on glam's `Mul` for `Mat4`: the matrix product `a * b`, computed
/// from the two matrices alone.
#[verifier::external_body]
fn matrix_product(a: &Mat4, b: &Mat4) -> (r: Mat4)
    ensures
        r == mat_product(*a, *b),
{
    *a * *b
}

/// Relies on glam's `Mat4::inverse`, which does not panic (its determinant
/// check is a debug-only assertion behind a feature this crate does not enable).
#[verifier::external_body]
fn matrix_inverse(m: &Mat4) -> (r: Mat4)
    ensures
        r == mat_inverse(*m),
{
    m.inverse()
}

/// An affine transform held as a 4x4 matrix. Its entries are floating point
/// and opaque to proofs here; the scene graph only carries and composes it.
#[derive(Clone, Copy)]
pub struct Transform {
    matrix: Mat4,
}

impl Transform {
    pub closed spec fn spec_matrix(&self) -> Mat4 {
        self.matrix
    }

    pub fn identity() -> (r: Transform)
        ensures
            r.spec_matrix() == mat_identity(()),
    {
        Transform { matrix: identity_matrix() }
    }

    pub fn from_matrix(matrix: Mat4) -> (r: Transform)
        ensures
            r.spec_matrix() == matrix,
    {
        Transform { matrix }
    }

    pub fn matrix(&self) -> (r: Mat4)
        ensures
            r == self.spec_matrix(),
    {
        self.matrix
    }

    pub fn inverse(&self) -> (r: Transform)
        ensures
            r.spec_matrix() == mat_inverse(self.spec_matrix()),
    {
        Transform { matrix: matrix_inverse(&self.matrix) }
    }

    /// `parent * self`: this transform applied first, then the parent's.
    pub fn compose_with_parent(&self, parent: &Transform) -> (r: Transform)
        ensures
            r.spec_matrix() == mat_product(parent.spec_matrix(), self.spec_matrix()),
    {
        Transform { matrix: matrix_product(&parent.matrix, &self.matrix) }
    }
}

} // verus!
