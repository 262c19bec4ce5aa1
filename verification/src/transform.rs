//! The algebra of joint transforms.
//!
//! The library is agnostic of how a transform is represented. Everything it
//! needs from a representation is collected in [`Transform`]; pose
//! evaluation is stated over the `spec_` functions of that trait, each of
//! which says what its executable twin returns.

use vstd::prelude::*;
use crate::scalar::Scalar;

verus! {

/// A point or direction in model space.
#[derive(Clone, Copy, Debug, PartialEq, Eq, Structural)]
pub struct Vector3 {
    pub x: Scalar,
    pub y: Scalar,
    pub z: Scalar,
}

/// A point in the bend plane of a two-bone chain.
#[derive(Clone, Copy, Debug, PartialEq, Eq, Structural)]
pub struct Vector2 {
    pub x: Scalar,
    pub y: Scalar,
}

/// A homogeneous 4x4 matrix, row by row.
#[derive(Clone, Copy, Debug)]
pub struct Matrix4 {
    pub rows: [[Scalar; 4]; 4],
}

/// A rigid joint transform with value semantics.
///
/// Each executable method returns exactly what the `spec_` function of the
/// same name denotes. An implementation defines the two by one expression.
pub trait Transform: Copy + Sized {
    /// The transform that leaves everything in place.
    spec fn spec_identity() -> Self;

    /// The transform that applies `other` after `self`.
    spec fn spec_concat(self, other: Self) -> Self;

    /// The transform that undoes `self`.
    spec fn spec_inverse(self) -> Self;

    /// The blend of `self` and `other` at `parameter`, along the shorter
    /// arc of rotation.
    spec fn spec_lerp(self, other: Self, parameter: Scalar) -> Self;

    /// The transform that the matrix `m` describes.
    spec fn spec_from_matrix(m: Matrix4) -> Self;

    /// Where the transform takes the origin.
    spec fn spec_get_translation(self) -> Vector3;

    /// The local poses of the root and the middle bone of a two-bone chain
    /// that put the middle joint at `elbow` and point the middle bone at
    /// `target`.
    ///
    /// The bones of the chain have the global poses `root`, `middle` and
    /// `effector`, and the root bone hangs on `root_parent`. The elbow is
    /// given in the bend plane of the chain: the plane through the root of
    /// the chain whose first axis points at the target and whose normal is
    /// the cross product of `bend` and the first axis (or, where no bend
    /// direction is given, of the first bone and the first axis).
    spec fn spec_bend_bones(
        root_parent: Self,
        root: Self,
        middle: Self,
        effector: Self,
        target: Vector3,
        bend: Option<Vector3>,
        elbow: Vector2,
    ) -> (Self, Self);

    fn identity() -> (r: Self)
        ensures
            r == Self::spec_identity(),
    ;

    fn concat(self, other: Self) -> (r: Self)
        ensures
            r == self.spec_concat(other),
    ;

    fn inverse(self) -> (r: Self)
        ensures
            r == self.spec_inverse(),
    ;

    fn lerp(self, other: Self, parameter: Scalar) -> (r: Self)
        ensures
            r == self.spec_lerp(other, parameter),
    ;

    fn from_matrix(m: Matrix4) -> (r: Self)
        ensures
            r == Self::spec_from_matrix(m),
    ;

    fn get_translation(self) -> (r: Vector3)
        ensures
            r == self.spec_get_translation(),
    ;

    fn bend_bones(
        root_parent: Self,
        root: Self,
        middle: Self,
        effector: Self,
        target: Vector3,
        bend: Option<Vector3>,
        elbow: Vector2,
    ) -> (r: (Self, Self))
        ensures
            r == Self::spec_bend_bones(root_parent, root, middle, effector, target, bend, elbow),
    ;
}

/// Whether blending in `T` gives the first transform at zero and the
/// second at one.
#[verifier::opaque]
pub open spec fn lerp_meets_ends<T: Transform>() -> bool {
    &&& forall|a: T, b: T| #[trigger] a.spec_lerp(b, Scalar { raw: 0 }) == a
    &&& forall|a: T, b: T| #[trigger] a.spec_lerp(b, Scalar { raw: crate::scalar::SCALE }) == b
}

/// Whether the identity of `T`, applied after a transform, leaves the
/// transform as it is.
#[verifier::opaque]
pub open spec fn identity_is_neutral<T: Transform>() -> bool {
    forall|a: T| #[trigger] a.spec_concat(T::spec_identity()) == a
}

/// Whether the inverse of a transform of `T`, followed by the transform,
/// is the identity.
#[verifier::opaque]
pub open spec fn inverse_undoes<T: Transform>() -> bool {
    forall|a: T| #[trigger] a.spec_inverse().spec_concat(a) == T::spec_identity()
}

/// Conversion from the transform representation `T`.
pub trait FromTransform<T: Transform>: Sized {
    /// What `t` is in this representation.
    spec fn spec_from_transform(t: T) -> Self;

    fn from_transform(t: T) -> (r: Self)
        ensures
            r == Self::spec_from_transform(t),
    ;
}

} // verus!
