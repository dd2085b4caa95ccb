//! Four-by-four matrices in row-major order.
//!
//! The constructors place given scalars; products of matrices are the host's
//! to compute. A point is transformed by projection × view × model × point.

use crate::algebra::scalar::Scalar;
use crate::algebra::scalar::ONE;
use crate::algebra::scalar::ZERO;
use crate::algebra::vector3::Vector3;
use vstd::prelude::*;

verus! {

/// A matrix of four rows of four scalars.
#[derive(Clone, Copy, PartialEq, Eq, Debug)]
pub struct Matrix4x4 {
    data: [[Scalar; 4]; 4],
}

impl Matrix4x4 {
    /// The entry at a row and a column, both below four.
    pub closed spec fn at(&self, row: int, column: int) -> Scalar {
        self.data[row][column]
    }

    /// Whether every entry is what `entry` gives for its row and column.
    pub open spec fn holds(&self, entry: spec_fn(int, int) -> Scalar) -> bool {
        forall|i: int, j: int| 0 <= i < 4 && 0 <= j < 4 ==> #[trigger] self.at(i, j) == entry(i, j)
    }

    /// The entry of the identity at a row and a column.
    pub open spec fn unit(row: int, column: int) -> Scalar {
        if row == column {
            Scalar { bits: ONE }
        } else {
            Scalar { bits: ZERO }
        }
    }

    /// The identity: one on the diagonal, zero elsewhere.
    pub fn identity() -> (r: Matrix4x4)
        ensures
            r.holds(|i: int, j: int| Matrix4x4::unit(i, j)),
    {
        let o: Scalar = Scalar::zero();
        let l: Scalar = Scalar::one();
        Matrix4x4 { data: [[l, o, o, o], [o, l, o, o], [o, o, l, o], [o, o, o, l]] }
    }

    /// A translation: the identity with `x`, `y`, `z` down the last column.
    pub fn translate(x: Scalar, y: Scalar, z: Scalar) -> (r: Matrix4x4)
        ensures
            r.holds(
                |i: int, j: int|
                    if j == 3 && i == 0 {
                        x
                    } else if j == 3 && i == 1 {
                        y
                    } else if j == 3 && i == 2 {
                        z
                    } else {
                        Matrix4x4::unit(i, j)
                    },
            ),
    {
        let o: Scalar = Scalar::zero();
        let l: Scalar = Scalar::one();
        Matrix4x4 { data: [[l, o, o, x], [o, l, o, y], [o, o, l, z], [o, o, o, l]] }
    }

    /// A scaling: `x`, `y`, `z`, one on the diagonal, zero elsewhere.
    pub fn scale(x: Scalar, y: Scalar, z: Scalar) -> (r: Matrix4x4)
        ensures
            r.holds(
                |i: int, j: int|
                    if i == 0 && j == 0 {
                        x
                    } else if i == 1 && j == 1 {
                        y
                    } else if i == 2 && j == 2 {
                        z
                    } else {
                        Matrix4x4::unit(i, j)
                    },
            ),
    {
        let o: Scalar = Scalar::zero();
        let l: Scalar = Scalar::one();
        Matrix4x4 { data: [[x, o, o, o], [o, y, o, o], [o, o, z, o], [o, o, o, l]] }
    }

    /// A rotation about the Y axis, from the cosine and the sine of its
    /// angle: the cosine at (0,0) and (2,2), the sine at (0,2), its negation
    /// at (2,0), the identity elsewhere.
    pub fn rotate_y(cos: Scalar, sin: Scalar) -> (r: Matrix4x4)
        ensures
            r.holds(
                |i: int, j: int|
                    if (i == 0 && j == 0) || (i == 2 && j == 2) {
                        cos
                    } else if i == 0 && j == 2 {
                        sin
                    } else if i == 2 && j == 0 {
                        sin.spec_negated()
                    } else {
                        Matrix4x4::unit(i, j)
                    },
            ),
    {
        let o: Scalar = Scalar::zero();
        let l: Scalar = Scalar::one();
        Matrix4x4 { data: [[cos, o, sin, o], [o, l, o, o], [sin.negated(), o, cos, o], [o, o, o, l]] }
    }

    /// A view matrix, from the camera's basis and the eye's coordinates along
    /// it: the rows are `right`, `up` and `forward`, each closed by the
    /// negation of the matching component of `along`; the last row is that of
    /// the identity.
    pub fn view(right: &Vector3, up: &Vector3, forward: &Vector3, along: &Vector3) -> (r: Matrix4x4)
        ensures
            r.holds(
                |i: int, j: int|
                    {
                        let axis = if i == 0 {
                            *right
                        } else if i == 1 {
                            *up
                        } else {
                            *forward
                        };
                        if i == 3 {
                            Matrix4x4::unit(i, j)
                        } else if j == 0 {
                            axis.x
                        } else if j == 1 {
                            axis.y
                        } else if j == 2 {
                            axis.z
                        } else if i == 0 {
                            along.x.spec_negated()
                        } else if i == 1 {
                            along.y.spec_negated()
                        } else {
                            along.z.spec_negated()
                        }
                    },
            ),
    {
        let o: Scalar = Scalar::zero();
        let l: Scalar = Scalar::one();
        Matrix4x4 {
            data: [
                [right.x, right.y, right.z, along.x.negated()],
                [up.x, up.y, up.z, along.y.negated()],
                [forward.x, forward.y, forward.z, along.z.negated()],
                [o, o, o, l],
            ],
        }
    }

    /// A perspective projection, from its four coefficients: `x_scale` and
    /// `y_scale` on the diagonal, `z_scale` at (2,2), `z_offset` at (2,3),
    /// one at (3,2) so that `w` receives the depth, zero elsewhere.
    pub fn perspective(x_scale: Scalar, y_scale: Scalar, z_scale: Scalar, z_offset: Scalar) -> (r:
        Matrix4x4)
        ensures
            r.holds(
                |i: int, j: int|
                    if i == 0 && j == 0 {
                        x_scale
                    } else if i == 1 && j == 1 {
                        y_scale
                    } else if i == 2 && j == 2 {
                        z_scale
                    } else if i == 2 && j == 3 {
                        z_offset
                    } else if i == 3 && j == 2 {
                        Scalar { bits: ONE }
                    } else {
                        Scalar { bits: ZERO }
                    },
            ),
    {
        let o: Scalar = Scalar::zero();
        let l: Scalar = Scalar::one();
        Matrix4x4 {
            data: [[x_scale, o, o, o], [o, y_scale, o, o], [o, o, z_scale, z_offset], [o, o, l, o]],
        }
    }

    /// A matrix from its sixteen entries, row after row.
    pub fn from_rows(rows: [[Scalar; 4]; 4]) -> (r: Matrix4x4)
        ensures
            r.holds(|i: int, j: int| rows[i][j]),
    {
        Matrix4x4 { data: rows }
    }

    /// The entry at a row and a column.
    pub fn get(&self, row: usize, column: usize) -> (r: Scalar)
        requires
            row < 4,
            column < 4,
        ensures
            r == self.at(row as int, column as int),
    {
        self.data[row][column]
    }
}

/// Two matrices with the same sixteen entries are the same matrix.
pub proof fn same_entries(a: Matrix4x4, b: Matrix4x4)
    requires
        forall|i: int, j: int| 0 <= i < 4 && 0 <= j < 4 ==> a.at(i, j) == b.at(i, j),
    ensures
        a == b,
{
    assert forall|i: int| 0 <= i < 4 implies a.data[i] == b.data[i] by {
        assert forall|j: int| 0 <= j < 4 implies a.data[i][j] == b.data[i][j] by {
            assert(a.at(i, j) == b.at(i, j));
        }
        assert(a.data[i] =~= b.data[i]);
    }
    assert(a.data =~= b.data);
}

} // verus!
