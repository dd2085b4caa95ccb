//! Scalars, vectors and matrices.

pub mod matrix4x4;
pub mod rounding;
pub mod scalar;
pub mod vector3;
