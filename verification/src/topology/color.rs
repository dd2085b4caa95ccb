//! Colors in linear light.

use crate::algebra::scalar::Scalar;
use vstd::prelude::*;

verus! {

/// A color of three scalars, nominally between zero and one, unclamped.
#[derive(Clone, Copy, PartialEq, Eq, Debug, Structural)]
pub struct Color {
    pub r: Scalar,
    pub g: Scalar,
    pub b: Scalar,
}

/// A color as a display shows it: one byte each of red, green and blue.
#[derive(Clone, Copy, PartialEq, Eq, Debug, Structural)]
pub struct Rgb {
    pub r: u8,
    pub g: u8,
    pub b: u8,
}

impl Rgb {
    /// The color with the given bytes.
    pub fn create(r: u8, g: u8, b: u8) -> (c: Rgb)
        ensures
            c == (Rgb { r, g, b }),
    {
        Rgb { r, g, b }
    }
}

impl Color {
    /// Black: each component positive zero.
    pub open spec fn spec_blank() -> Color {
        Color { r: Scalar { bits: 0 }, g: Scalar { bits: 0 }, b: Scalar { bits: 0 } }
    }

    /// Black: each component positive zero.
    #[verifier::when_used_as_spec(spec_blank)]
    pub fn blank() -> (c: Color)
        ensures
            c == Color::spec_blank(),
    {
        Color { r: Scalar::zero(), g: Scalar::zero(), b: Scalar::zero() }
    }

    /// The color with the given components.
    pub fn create(r: Scalar, g: Scalar, b: Scalar) -> (c: Color)
        ensures
            c == (Color { r, g, b }),
    {
        Color { r, g, b }
    }
}

} // verus!
