//! Single-precision numbers as bit patterns, with their order.
//!
//! A pattern has one sign bit, eight exponent bits and twenty-three fraction
//! bits. Taken as an unsigned integer, the pattern without its sign bit grows
//! with the absolute value of the number it encodes, infinity included, and
//! every pattern above that of infinity is not a number. The order of the
//! numbers is therefore the order of sign-and-magnitude integers, which is all
//! this module computes with; `rounding` proves it from the values.

use vstd::prelude::*;

verus! {

/// The sign bit of a pattern.
pub const SIGN: u32 = 0x8000_0000;

/// The magnitude of an infinity: every exponent bit set, no fraction bit.
pub const INFINITE: u32 = 0x7f80_0000;

/// The pattern of zero.
pub const ZERO: u32 = 0x0000_0000;

/// The pattern of one.
pub const ONE: u32 = 0x3f80_0000;

/// The pattern of one half.
pub const HALF: u32 = 0x3f00_0000;

/// The pattern of one quarter.
pub const QUARTER: u32 = 0x3e80_0000;

/// A number, held by its bit pattern. Two scalars are equal when their
/// patterns are: the two zeros are different scalars of equal rank.
#[derive(Clone, Copy, PartialEq, Eq, Debug, Structural)]
pub struct Scalar {
    pub bits: u32,
}

impl Scalar {
    /// The pattern without its sign bit.
    pub open spec fn magnitude(self) -> int {
        (self.bits % SIGN) as int
    }

    /// Whether the sign bit is set.
    pub open spec fn negative(self) -> bool {
        self.bits >= SIGN
    }

    /// Whether the pattern is not a number.
    pub open spec fn is_nan(self) -> bool {
        self.magnitude() > INFINITE
    }

    /// The place of a number on the number line: of two numbers, the one with
    /// the smaller rank is the smaller. Both zeros have rank zero.
    pub open spec fn rank(self) -> int {
        if self.negative() {
            -self.magnitude()
        } else {
            self.magnitude()
        }
    }

    /// `self < other`: both are numbers and `self` is the smaller.
    pub open spec fn spec_lt(self, other: Scalar) -> bool {
        !self.is_nan() && !other.is_nan() && self.rank() < other.rank()
    }

    /// `self <= other`: both are numbers and `self` is not the greater.
    pub open spec fn spec_le(self, other: Scalar) -> bool {
        !self.is_nan() && !other.is_nan() && self.rank() <= other.rank()
    }

    /// `self > other`.
    pub open spec fn spec_gt(self, other: Scalar) -> bool {
        other.spec_lt(self)
    }

    /// `self >= other`.
    pub open spec fn spec_ge(self, other: Scalar) -> bool {
        other.spec_le(self)
    }

    /// The pattern with its sign bit flipped.
    pub open spec fn spec_negated(self) -> Scalar {
        if self.bits >= SIGN {
            Scalar { bits: (self.bits - SIGN) as u32 }
        } else {
            Scalar { bits: (self.bits + SIGN) as u32 }
        }
    }

    /// The scalar with the given pattern.
    pub fn from_bits(bits: u32) -> (r: Scalar)
        ensures
            r.bits == bits,
    {
        Scalar { bits }
    }

    /// The pattern of the scalar.
    pub fn to_bits(self) -> (r: u32)
        ensures
            r == self.bits,
    {
        self.bits
    }

    /// Positive zero.
    pub fn zero() -> (r: Scalar)
        ensures
            r.bits == ZERO,
    {
        Scalar { bits: ZERO }
    }

    /// One.
    pub fn one() -> (r: Scalar)
        ensures
            r.bits == ONE,
    {
        Scalar { bits: ONE }
    }

    /// Whether the scalar is not a number.
    pub fn nan(self) -> (r: bool)
        ensures
            r == self.is_nan(),
    {
        self.bits % SIGN > INFINITE
    }

    /// The rank, for a scalar that is a number.
    fn place(self) -> (r: i64)
        ensures
            r == self.rank(),
    {
        let m: u32 = self.bits % SIGN;
        if self.bits >= SIGN {
            0 - (m as i64)
        } else {
            m as i64
        }
    }

    /// `self < other`, as the numbers compare. False if either is not a
    /// number.
    #[verifier::when_used_as_spec(spec_lt)]
    pub fn lt(self, other: Scalar) -> (r: bool)
        ensures
            r == self.spec_lt(other),
    {
        !self.nan() && !other.nan() && self.place() < other.place()
    }

    /// `self <= other`, as the numbers compare. False if either is not a
    /// number.
    #[verifier::when_used_as_spec(spec_le)]
    pub fn le(self, other: Scalar) -> (r: bool)
        ensures
            r == self.spec_le(other),
    {
        !self.nan() && !other.nan() && self.place() <= other.place()
    }

    /// `self > other`, as the numbers compare. False if either is not a
    /// number.
    #[verifier::when_used_as_spec(spec_gt)]
    pub fn gt(self, other: Scalar) -> (r: bool)
        ensures
            r == self.spec_gt(other),
    {
        other.lt(self)
    }

    /// `self >= other`, as the numbers compare. False if either is not a
    /// number.
    #[verifier::when_used_as_spec(spec_ge)]
    pub fn ge(self, other: Scalar) -> (r: bool)
        ensures
            r == self.spec_ge(other),
    {
        other.le(self)
    }

    /// The smaller of two scalars; the other one if one is not a number. Of
    /// two that compare equal it is `self`.
    pub open spec fn spec_min(self, other: Scalar) -> Scalar {
        if self.is_nan() || other.spec_lt(self) {
            other
        } else {
            self
        }
    }

    /// The greater of two scalars; the other one if one is not a number. Of
    /// two that compare equal it is `self`.
    pub open spec fn spec_max(self, other: Scalar) -> Scalar {
        if self.is_nan() || self.spec_lt(other) {
            other
        } else {
            self
        }
    }

    /// The smaller of two scalars; the other one if one is not a number.
    #[verifier::when_used_as_spec(spec_min)]
    pub fn min(self, other: Scalar) -> (r: Scalar)
        ensures
            r == self.spec_min(other),
    {
        if self.nan() || other.lt(self) {
            other
        } else {
            self
        }
    }

    /// The greater of two scalars; the other one if one is not a number.
    #[verifier::when_used_as_spec(spec_max)]
    pub fn max(self, other: Scalar) -> (r: Scalar)
        ensures
            r == self.spec_max(other),
    {
        if self.nan() || self.lt(other) {
            other
        } else {
            self
        }
    }

    /// The number with the opposite sign. What is not a number stays so.
    #[verifier::when_used_as_spec(spec_negated)]
    pub fn negated(self) -> (r: Scalar)
        ensures
            r == self.spec_negated(),
            r.magnitude() == self.magnitude(),
            r.negative() == !self.negative(),
            r.is_nan() == self.is_nan(),
            r.rank() == -self.rank(),
    {
        if self.bits >= SIGN {
            Scalar { bits: self.bits - SIGN }
        } else {
            Scalar { bits: self.bits + SIGN }
        }
    }
}

/// Negating twice gives the pattern back.
pub proof fn negated_twice(a: Scalar)
    ensures
        a.spec_negated().spec_negated() == a,
{
}

/// Negation reverses the order.
pub proof fn negated_reverses(a: Scalar, b: Scalar)
    ensures
        a.spec_lt(b) == b.spec_negated().spec_lt(a.spec_negated()),
        a.spec_le(b) == b.spec_negated().spec_le(a.spec_negated()),
{
}

/// Among numbers the order is total: one of `a < b`, `b < a` and equal rank
/// holds, and no two of them.
pub proof fn order_is_total(a: Scalar, b: Scalar)
    requires
        !a.is_nan(),
        !b.is_nan(),
    ensures
        a.spec_lt(b) || b.spec_lt(a) || a.rank() == b.rank(),
        !(a.spec_lt(b) && b.spec_lt(a)),
        a.spec_le(b) == !b.spec_lt(a),
{
}

/// The order is transitive.
pub proof fn order_is_transitive(a: Scalar, b: Scalar, c: Scalar)
    ensures
        a.spec_lt(b) && b.spec_lt(c) ==> a.spec_lt(c),
        a.spec_le(b) && b.spec_le(c) ==> a.spec_le(c),
        a.spec_lt(b) && b.spec_le(c) ==> a.spec_lt(c),
        a.spec_le(b) && b.spec_lt(c) ==> a.spec_lt(c),
{
}

/// What is not a number compares false with everything, itself included.
pub proof fn nan_is_unordered(a: Scalar, b: Scalar)
    requires
        a.is_nan(),
    ensures
        !a.spec_lt(b),
        !b.spec_lt(a),
        !a.spec_le(b),
        !b.spec_le(a),
{
}

} // verus!
