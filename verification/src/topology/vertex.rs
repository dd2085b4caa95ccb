//! Homogeneous points with their attributes.

use crate::algebra::scalar::Scalar;
use crate::algebra::scalar::ONE;
use crate::algebra::vector3::Vector3;
use crate::topology::color::Color;
use vstd::prelude::*;

verus! {

/// A point `(x, y, z, w)` with a color, a texture coordinate `(u, v)`, a
/// normal, and `one`, which starts at one and follows the reciprocal of `w`
/// through the perspective divide.
#[derive(Clone, Copy, PartialEq, Eq, Debug, Structural)]
pub struct Vertex {
    pub x: Scalar,
    pub y: Scalar,
    pub z: Scalar,
    pub w: Scalar,
    pub color: Color,
    pub u: Scalar,
    pub v: Scalar,
    pub one: Scalar,
    pub normal: Vector3,
}

/// The six half-spaces that bound the view volume in clip space.
#[derive(Clone, Copy, PartialEq, Eq, Debug, Structural)]
pub enum Plane {
    Left,
    Right,
    Up,
    Down,
    Far,
    Close,
}

impl Vertex {
    /// A vertex as it is created: the given position and attributes, and
    /// `w = one = 1`.
    pub open spec fn spec_full(
        x: Scalar,
        y: Scalar,
        z: Scalar,
        color: Color,
        u: Scalar,
        v: Scalar,
        normal: Vector3,
    ) -> Vertex {
        Vertex {
            x,
            y,
            z,
            w: Scalar { bits: ONE },
            color,
            u,
            v,
            one: Scalar { bits: ONE },
            normal,
        }
    }

    /// Whether the vertex is as a constructor leaves it: `w = one = 1`.
    pub open spec fn fresh(&self) -> bool {
        self.w.bits == ONE && self.one.bits == ONE
    }

    /// The vertex at the origin, black, with zero texture coordinate and
    /// normal.
    pub fn blank() -> (r: Vertex)
        ensures
            r == Vertex::spec_full(
                Scalar { bits: 0 },
                Scalar { bits: 0 },
                Scalar { bits: 0 },
                Color::spec_blank(),
                Scalar { bits: 0 },
                Scalar { bits: 0 },
                Vector3::spec_zero(),
            ),
            r.fresh(),
    {
        Vertex {
            x: Scalar::zero(),
            y: Scalar::zero(),
            z: Scalar::zero(),
            w: Scalar::one(),
            color: Color::blank(),
            u: Scalar::zero(),
            v: Scalar::zero(),
            one: Scalar::one(),
            normal: Vector3::zero(),
        }
    }

    /// A vertex with a position, a color and a texture coordinate; the normal
    /// is zero.
    pub fn create(x: Scalar, y: Scalar, z: Scalar, color: Color, u: Scalar, v: Scalar) -> (r:
        Vertex)
        ensures
            r == Vertex::spec_full(x, y, z, color, u, v, Vector3::spec_zero()),
            r.fresh(),
    {
        Vertex { x, y, z, w: Scalar::one(), color, u, v, one: Scalar::one(), normal: Vector3::zero() }
    }

    /// A vertex with a position, a texture coordinate and a normal; the color
    /// is black.
    pub fn partial(x: Scalar, y: Scalar, z: Scalar, u: Scalar, v: Scalar, normal: Vector3) -> (r:
        Vertex)
        ensures
            r == Vertex::spec_full(x, y, z, Color::spec_blank(), u, v, normal),
            r.fresh(),
    {
        Vertex { x, y, z, w: Scalar::one(), color: Color::blank(), u, v, one: Scalar::one(), normal }
    }

    /// A vertex with a position and every attribute.
    pub fn full(
        x: Scalar,
        y: Scalar,
        z: Scalar,
        color: Color,
        u: Scalar,
        v: Scalar,
        normal: Vector3,
    ) -> (r: Vertex)
        ensures
            r == Vertex::spec_full(x, y, z, color, u, v, normal),
            r.fresh(),
    {
        Vertex { x, y, z, w: Scalar::one(), color, u, v, one: Scalar::one(), normal }
    }

    /// Whether the point, in clip space and not yet divided, lies outside the
    /// half-space of a plane: `x < -w` on the left, `x > w` on the right,
    /// `y > w` above, `y < -w` below, `z > w` beyond the far plane and `z < 0`
    /// before the near one.
    pub open spec fn outside(&self, plane: Plane) -> bool {
        match plane {
            Plane::Left => self.x.spec_lt(self.w.spec_negated()),
            Plane::Right => self.x.spec_gt(self.w),
            Plane::Up => self.y.spec_gt(self.w),
            Plane::Down => self.y.spec_lt(self.w.spec_negated()),
            Plane::Far => self.z.spec_gt(self.w),
            Plane::Close => self.z.spec_lt(Scalar { bits: 0 }),
        }
    }

    /// Whether all three points lie outside the half-space of one plane.
    pub open spec fn spec_out_of_view(a: &Vertex, b: &Vertex, c: &Vertex) -> bool {
        exists|plane: Plane| a.outside(plane) && b.outside(plane) && c.outside(plane)
    }

    /// Whether the three points lie outside the half-space of `plane`, all of
    /// them.
    fn all_outside(a: &Vertex, b: &Vertex, c: &Vertex, plane: Plane) -> (r: bool)
        ensures
            r == (a.outside(plane) && b.outside(plane) && c.outside(plane)),
    {
        a.beyond(plane) && b.beyond(plane) && c.beyond(plane)
    }

    /// Whether the point lies outside the half-space of `plane`.
    pub fn beyond(&self, plane: Plane) -> (r: bool)
        ensures
            r == self.outside(plane),
    {
        match plane {
            Plane::Left => self.x.lt(self.w.negated()),
            Plane::Right => self.x.gt(self.w),
            Plane::Up => self.y.gt(self.w),
            Plane::Down => self.y.lt(self.w.negated()),
            Plane::Far => self.z.gt(self.w),
            Plane::Close => self.z.lt(Scalar::zero()),
        }
    }

    /// Whether a triangle, given by its corners in clip space before the
    /// divide, is out of view: all three corners outside the half-space of
    /// one plane. A triangle that straddles a plane is in view.
    #[verifier::when_used_as_spec(spec_out_of_view)]
    pub fn out_of_view(a: &Vertex, b: &Vertex, c: &Vertex) -> (r: bool)
        ensures
            r == Vertex::spec_out_of_view(a, b, c),
    {
        let r = Vertex::all_outside(a, b, c, Plane::Left) || Vertex::all_outside(
            a,
            b,
            c,
            Plane::Right,
        ) || Vertex::all_outside(a, b, c, Plane::Up) || Vertex::all_outside(a, b, c, Plane::Down)
            || Vertex::all_outside(a, b, c, Plane::Far) || Vertex::all_outside(
            a,
            b,
            c,
            Plane::Close,
        );
        proof {
            if Vertex::spec_out_of_view(a, b, c) {
                let plane = choose|plane: Plane|
                    a.outside(plane) && b.outside(plane) && c.outside(plane);
                match plane {
                    Plane::Left => {},
                    Plane::Right => {},
                    Plane::Up => {},
                    Plane::Down => {},
                    Plane::Far => {},
                    Plane::Close => {},
                }
            }
        }
        r
    }
}

} // verus!
