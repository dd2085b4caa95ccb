//! Three-component vectors.

use crate::algebra::scalar::Scalar;
use vstd::prelude::*;

verus! {

/// A vector of three scalars.
#[derive(Clone, Copy, PartialEq, Eq, Debug, Structural)]
pub struct Vector3 {
    pub x: Scalar,
    pub y: Scalar,
    pub z: Scalar,
}

impl Vector3 {
    /// The vector with the given components.
    pub fn create(x: Scalar, y: Scalar, z: Scalar) -> (r: Vector3)
        ensures
            r == (Vector3 { x, y, z }),
    {
        Vector3 { x, y, z }
    }

    /// The vector whose components are all positive zero.
    pub open spec fn spec_zero() -> Vector3 {
        Vector3 { x: Scalar { bits: 0 }, y: Scalar { bits: 0 }, z: Scalar { bits: 0 } }
    }

    /// The vector whose components are all positive zero.
    #[verifier::when_used_as_spec(spec_zero)]
    pub fn zero() -> (r: Vector3)
        ensures
            r == Vector3::spec_zero(),
    {
        Vector3 { x: Scalar::zero(), y: Scalar::zero(), z: Scalar::zero() }
    }

    /// The vector with each component negated.
    pub open spec fn spec_opposite(&self) -> Vector3 {
        Vector3 {
            x: self.x.spec_negated(),
            y: self.y.spec_negated(),
            z: self.z.spec_negated(),
        }
    }

    /// The vector that points the other way: each component with its sign
    /// flipped.
    #[verifier::when_used_as_spec(spec_opposite)]
    pub fn opposite(&self) -> (r: Vector3)
        ensures
            r == self.spec_opposite(),
    {
        Vector3 { x: self.x.negated(), y: self.y.negated(), z: self.z.negated() }
    }
}

/// The opposite of the opposite is the vector itself.
pub proof fn opposite_twice(v: Vector3)
    ensures
        v.spec_opposite().spec_opposite() == v,
{
}

} // verus!
