//! The camera's pitch.

use crate::algebra::scalar::Scalar;
use crate::algebra::scalar::SIGN;
use vstd::prelude::*;

verus! {

/// The pattern of eighty-nine, the steepest pitch in degrees, up or down.
pub const STEEPEST: u32 = 0x42b2_0000;

/// The pitch held within its limits: a pitch of eighty-nine degrees or more
/// becomes eighty-nine, one of minus eighty-nine or less becomes minus
/// eighty-nine, and any other stays, as does what is not a number.
pub open spec fn spec_constrain(pitch: Scalar) -> Scalar {
    if pitch.spec_ge(Scalar { bits: STEEPEST }) {
        Scalar { bits: STEEPEST }
    } else if pitch.spec_le(Scalar { bits: (STEEPEST + SIGN) as u32 }) {
        Scalar { bits: (STEEPEST + SIGN) as u32 }
    } else {
        pitch
    }
}

/// Holds a pitch within eighty-nine degrees either way of level, so that the
/// camera never looks straight up or down.
#[verifier::when_used_as_spec(spec_constrain)]
pub fn constrain(pitch: Scalar) -> (held: Scalar)
    ensures
        held == spec_constrain(pitch),
        !pitch.is_nan() ==> held.spec_le(Scalar { bits: STEEPEST }) && held.spec_ge(
            Scalar { bits: (STEEPEST + SIGN) as u32 },
        ),
{
    let top = Scalar::from_bits(STEEPEST);
    if pitch.ge(top) {
        top
    } else if pitch.le(top.negated()) {
        top.negated()
    } else {
        pitch
    }
}

/// A pitch within the limits is left as it is, so constraining twice is
/// constraining once.
pub proof fn constrain_settles(pitch: Scalar)
    ensures
        spec_constrain(spec_constrain(pitch)) == spec_constrain(pitch),
{
}

/// However steeply the pitch is pushed up, the constrained pitch is exactly
/// the upper limit; pushed down, exactly the lower.
pub proof fn constrain_saturates(pitch: Scalar)
    ensures
        pitch.spec_ge(Scalar { bits: STEEPEST }) ==> spec_constrain(pitch).bits == STEEPEST,
        pitch.spec_le(Scalar { bits: (STEEPEST + SIGN) as u32 }) ==> spec_constrain(pitch).bits
            == STEEPEST + SIGN,
{
}

} // verus!
