//! Meshes: a vertex buffer, an index buffer and the parts that draw from it.
//!
//! The corners of a face are listed so that, with the face seen from outside
//! the solid, its triangles turn the same way on every face; backface culling
//! depends on that order.
//!
//! ```text
//!      [0, 1]---[1, 1]
//!      |         /   |
//!      |       /     |
//!      |     /       |
//!      |   /         |
//!      [0, 0]---[1, 0]
//! ```

use crate::algebra::matrix4x4::Matrix4x4;
use crate::algebra::scalar::Scalar;
use crate::algebra::scalar::HALF;
use crate::algebra::scalar::ONE;
use crate::algebra::scalar::QUARTER;
use crate::algebra::scalar::SIGN;
use crate::algebra::scalar::ZERO;
use crate::algebra::vector3::Vector3;
use crate::topology::color::Color;
use crate::topology::part::Part;
use crate::topology::part::Topology;
use crate::topology::vertex::Vertex;
use vstd::prelude::*;

verus! {

/// The pattern of eight tenths, the strong component of a face color.
pub const STRONG: u32 = 0x3f4c_cccd;

/// The pattern of two tenths, the weak component of a face color.
pub const WEAK: u32 = 0x3e4c_cccd;

/// Three positions of a vertex buffer: the corners of one triangle.
#[derive(Clone, Copy, PartialEq, Eq, Debug, Structural)]
pub struct Face {
    pub a: usize,
    pub b: usize,
    pub c: usize,
}

impl Face {
    /// Whether the three corners are positions of a buffer of `count`
    /// vertices.
    pub open spec fn within(&self, count: int) -> bool {
        self.a < count && self.b < count && self.c < count
    }
}

/// An object: its geometry, and the position, rotation and scale that place
/// it in the world. `model` is the matrix that the host derives from those
/// three, once a frame.
#[derive(Debug)]
pub struct Mesh {
    pub position: Vector3,
    pub rotation: Vector3,
    pub scale: Vector3,
    pub vertices: Vec<Vertex>,
    pub indices: Vec<usize>,
    pub parts: Vec<Part>,
    pub model: Matrix4x4,
}

impl Part {
    /// Whether the part reads only positions that `indices` has, and finds
    /// there only vertices that exist among `count`.
    pub open spec fn fits(&self, indices: Seq<usize>, count: int) -> bool {
        &&& self.end() <= indices.len()
        &&& forall|i: int| self.index <= i < self.end() ==> (#[trigger] indices[i]) < count
    }

    /// The triangles that the part draws, in order: the `k`-th takes the
    /// three indices from position `index + 3 k` on.
    pub open spec fn faces(&self, indices: Seq<usize>) -> Seq<Face> {
        Seq::new(
            self.count as nat,
            |k: int|
                Face {
                    a: indices[self.index + 3 * k],
                    b: indices[self.index + 3 * k + 1],
                    c: indices[self.index + 3 * k + 2],
                },
        )
    }
}

/// The scalar of `sign` halves, for a sign of one or minus one.
pub open spec fn half(sign: int) -> Scalar {
    if sign < 0 {
        Scalar { bits: (HALF + SIGN) as u32 }
    } else {
        Scalar { bits: HALF }
    }
}

/// The scalar that is zero for `false` and one for `true`.
pub open spec fn unit(bit: bool) -> Scalar {
    if bit {
        Scalar { bits: ONE }
    } else {
        Scalar { bits: ZERO }
    }
}

/// The texture coordinate of corner `k` of a face: around the face from
/// `(0, 0)` over `(1, 0)` and `(1, 1)` to `(0, 1)`.
pub open spec fn corner_uv(k: int) -> (Scalar, Scalar) {
    (unit(k == 1 || k == 2), unit(k == 2 || k == 3))
}

/// The six corners of the two triangles of a face, as places among its four
/// corners.
pub open spec fn fan(m: int) -> int {
    if m == 0 || m == 3 {
        0
    } else if m == 1 {
        1
    } else if m == 2 || m == 4 {
        2
    } else {
        3
    }
}

/// A face of the cube: the signs of its first corner, the axis (0, 1 or 2 for
/// x, y or z) and direction of the edge to the second corner, those of the
/// edge from the second to the third, and its color.
pub struct Side {
    pub origin: (int, int, int),
    pub first: (int, int),
    pub second: (int, int),
    pub color: (u32, u32, u32),
}

/// The sides of the cube: top, bottom, front, back, left, right.
pub open spec fn side(f: int) -> Side {
    if f == 0 {
        Side { origin: (-1, 1, -1), first: (0, 1), second: (2, 1), color: (STRONG, STRONG, STRONG) }
    } else if f == 1 {
        Side { origin: (-1, -1, 1), first: (0, 1), second: (2, -1), color: (WEAK, WEAK, WEAK) }
    } else if f == 2 {
        Side { origin: (-1, -1, -1), first: (0, 1), second: (1, 1), color: (STRONG, WEAK, WEAK) }
    } else if f == 3 {
        Side { origin: (1, -1, 1), first: (0, -1), second: (1, 1), color: (WEAK, STRONG, WEAK) }
    } else if f == 4 {
        Side { origin: (-1, -1, 1), first: (2, -1), second: (1, 1), color: (STRONG, STRONG, WEAK) }
    } else {
        Side { origin: (1, -1, -1), first: (2, 1), second: (1, 1), color: (WEAK, WEAK, STRONG) }
    }
}

impl Side {
    /// The sign of corner `k` along `axis`: that of the first corner, moved
    /// along the first edge for corners 1 and 2 and along the second for
    /// corners 2 and 3.
    pub open spec fn sign(self, k: int, axis: int) -> int {
        let start = if axis == 0 {
            self.origin.0
        } else if axis == 1 {
            self.origin.1
        } else {
            self.origin.2
        };
        if self.first.0 == axis && (k == 1 || k == 2) {
            self.first.1
        } else if self.second.0 == axis && (k == 2 || k == 3) {
            self.second.1
        } else {
            start
        }
    }

    /// Corner `k` of the side.
    pub open spec fn corner(self, k: int) -> Vertex {
        Vertex::spec_full(
            half(self.sign(k, 0)),
            half(self.sign(k, 1)),
            half(self.sign(k, 2)),
            Color {
                r: Scalar { bits: self.color.0 },
                g: Scalar { bits: self.color.1 },
                b: Scalar { bits: self.color.2 },
            },
            corner_uv(k).0,
            corner_uv(k).1,
            Vector3::spec_zero(),
        )
    }
}

/// A coordinate of plus or minus one half, counted in halves: one or minus
/// one. Zero for any other scalar.
pub open spec fn halves(s: Scalar) -> int {
    if s.bits == HALF {
        1
    } else if s.bits == HALF + SIGN {
        -1
    } else {
        0
    }
}

/// The place of a vertex whose coordinates are plus or minus one half, in
/// halves.
pub open spec fn lattice(v: Vertex) -> (int, int, int) {
    (halves(v.x), halves(v.y), halves(v.z))
}

/// The normal that the order `a`, `b`, `c` gives by the right-hand rule,
/// `(b - a) × (c - a)`, measured along `a`.
pub open spec fn triple(a: (int, int, int), b: (int, int, int), c: (int, int, int)) -> int {
    let (ux, uy, uz) = (b.0 - a.0, b.1 - a.1, b.2 - a.2);
    let (vx, vy, vz) = (c.0 - a.0, c.1 - a.1, c.2 - a.2);
    (uy * vz - uz * vy) * a.0 + (uz * vx - ux * vz) * a.1 + (ux * vy - uy * vx) * a.2
}

/// Which way a triangle turns about the origin: the normal that the order of
/// its corners gives by the right-hand rule, measured along its first corner.
/// Below zero, the normal points to the side of the origin.
pub open spec fn turn(a: Vertex, b: Vertex, c: Vertex) -> int {
    triple(lattice(a), lattice(b), lattice(c))
}

/// A corner of a side of the cube lies where the signs of the side say.
proof fn corner_lattice(f: int, k: int)
    requires
        0 <= f < 6,
        0 <= k < 4,
    ensures
        lattice(side(f).corner(k)) == (side(f).sign(k, 0), side(f).sign(k, 1), side(f).sign(k, 2)),
{
}

/// Both triangles of a side of the cube turn the same way.
proof fn side_turns(f: int, k: int)
    requires
        0 <= f < 6,
        0 <= k < 2,
    ensures
        turn(side(f).corner(0), side(f).corner(1 + k), side(f).corner(2 + k)) == -4,
{
    corner_lattice(f, 0);
    corner_lattice(f, 1 + k);
    corner_lattice(f, 2 + k);
    let a = lattice(side(f).corner(0));
    let b = lattice(side(f).corner(1 + k));
    let c = lattice(side(f).corner(2 + k));
    if f == 0 {
        if k == 0 {
            assert(triple(a, b, c) == -4) by (nonlinear_arith)
                requires
                    a == (-1int, 1int, -1int),
                    b == (1int, 1int, -1int),
                    c == (1int, 1int, 1int),
            ;
        } else {
            assert(triple(a, b, c) == -4) by (nonlinear_arith)
                requires
                    a == (-1int, 1int, -1int),
                    b == (1int, 1int, 1int),
                    c == (-1int, 1int, 1int),
            ;
        }
    } else if f == 1 {
        if k == 0 {
            assert(triple(a, b, c) == -4) by (nonlinear_arith)
                requires
                    a == (-1int, -1int, 1int),
                    b == (1int, -1int, 1int),
                    c == (1int, -1int, -1int),
            ;
        } else {
            assert(triple(a, b, c) == -4) by (nonlinear_arith)
                requires
                    a == (-1int, -1int, 1int),
                    b == (1int, -1int, -1int),
                    c == (-1int, -1int, -1int),
            ;
        }
    } else if f == 2 {
        if k == 0 {
            assert(triple(a, b, c) == -4) by (nonlinear_arith)
                requires
                    a == (-1int, -1int, -1int),
                    b == (1int, -1int, -1int),
                    c == (1int, 1int, -1int),
            ;
        } else {
            assert(triple(a, b, c) == -4) by (nonlinear_arith)
                requires
                    a == (-1int, -1int, -1int),
                    b == (1int, 1int, -1int),
                    c == (-1int, 1int, -1int),
            ;
        }
    } else if f == 3 {
        if k == 0 {
            assert(triple(a, b, c) == -4) by (nonlinear_arith)
                requires
                    a == (1int, -1int, 1int),
                    b == (-1int, -1int, 1int),
                    c == (-1int, 1int, 1int),
            ;
        } else {
            assert(triple(a, b, c) == -4) by (nonlinear_arith)
                requires
                    a == (1int, -1int, 1int),
                    b == (-1int, 1int, 1int),
                    c == (1int, 1int, 1int),
            ;
        }
    } else if f == 4 {
        if k == 0 {
            assert(triple(a, b, c) == -4) by (nonlinear_arith)
                requires
                    a == (-1int, -1int, 1int),
                    b == (-1int, -1int, -1int),
                    c == (-1int, 1int, -1int),
            ;
        } else {
            assert(triple(a, b, c) == -4) by (nonlinear_arith)
                requires
                    a == (-1int, -1int, 1int),
                    b == (-1int, 1int, -1int),
                    c == (-1int, 1int, 1int),
            ;
        }
    } else {
        if k == 0 {
            assert(triple(a, b, c) == -4) by (nonlinear_arith)
                requires
                    a == (1int, -1int, -1int),
                    b == (1int, -1int, 1int),
                    c == (1int, 1int, 1int),
            ;
        } else {
            assert(triple(a, b, c) == -4) by (nonlinear_arith)
                requires
                    a == (1int, -1int, -1int),
                    b == (1int, 1int, 1int),
                    c == (1int, 1int, -1int),
            ;
        }
    }
}

/// Every triangle of the cube turns the same way about its center: the normal
/// that the order of its corners gives points into the cube. Culling by the
/// sign of the area therefore keeps the same side of every face.
pub proof fn cube_turns_one_way(t: int)
    requires
        0 <= t < 12,
    ensures
        turn(
            Mesh::cube_vertices()[Mesh::cube_faces()[t].a as int],
            Mesh::cube_vertices()[Mesh::cube_faces()[t].b as int],
            Mesh::cube_vertices()[Mesh::cube_faces()[t].c as int],
        ) == -4,
{
    let faces = Mesh::cube_faces();
    let vertices = Mesh::cube_vertices();
    let face = faces[t];
    let f = t / 2;
    assert(face.a == 4 * f && face.b == 4 * f + 1 + t % 2 && face.c == 4 * f + 2 + t % 2);
    assert(vertices[face.a as int] == side(f).corner(0));
    assert(vertices[face.b as int] == side(f).corner(1 + t % 2));
    assert(vertices[face.c as int] == side(f).corner(2 + t % 2));
    side_turns(f, t % 2);
}

impl Mesh {
    /// Whether every part reads only positions that the index buffer has, and
    /// finds there only vertices that the vertex buffer has.
    pub open spec fn wf(&self) -> bool {
        forall|p: int|
            0 <= p < self.parts@.len() ==> (#[trigger] self.parts@[p]).fits(
                self.indices@,
                self.vertices@.len() as int,
            )
    }

    /// The triangles of the mesh in the order in which they are drawn: part
    /// after part, and within a part from its first index on.
    pub open spec fn faces(&self) -> Seq<Face> {
        self.parts@.map_values(|part: Part| part.faces(self.indices@)).flatten()
    }

    /// Whether the object stands untransformed: at the origin, unrotated, at
    /// scale one, its model matrix the identity.
    pub open spec fn at_rest(&self) -> bool {
        &&& self.position == Vector3::spec_zero()
        &&& self.rotation == Vector3::spec_zero()
        &&& self.scale == (Vector3 {
            x: Scalar { bits: ONE },
            y: Scalar { bits: ONE },
            z: Scalar { bits: ONE },
        })
        &&& self.model.holds(|i: int, j: int| Matrix4x4::unit(i, j))
    }

    /// A mesh at rest with the given buffers.
    fn resting(vertices: Vec<Vertex>, indices: Vec<usize>, parts: Vec<Part>) -> (mesh: Mesh)
        ensures
            mesh.at_rest(),
            mesh.vertices == vertices,
            mesh.indices == indices,
            mesh.parts == parts,
    {
        Mesh {
            position: Vector3::zero(),
            rotation: Vector3::zero(),
            scale: Vector3::create(Scalar::one(), Scalar::one(), Scalar::one()),
            vertices,
            indices,
            parts,
            model: Matrix4x4::identity(),
        }
    }

    /// A single triangle in the plane `z = 0`, blue, yellow and red at its
    /// corners.
    pub fn triangle() -> (mesh: Mesh)
        ensures
            mesh.wf(),
            mesh.at_rest(),
            mesh.vertices@ == seq![
                Vertex::spec_full(
                    half(-1),
                    Scalar { bits: (QUARTER + SIGN) as u32 },
                    unit(false),
                    Color { r: unit(false), g: unit(false), b: unit(true) },
                    unit(false),
                    unit(false),
                    Vector3::spec_zero(),
                ),
                Vertex::spec_full(
                    half(1),
                    Scalar { bits: (QUARTER + SIGN) as u32 },
                    unit(false),
                    Color { r: unit(true), g: unit(true), b: unit(false) },
                    unit(true),
                    unit(false),
                    Vector3::spec_zero(),
                ),
                Vertex::spec_full(
                    unit(false),
                    half(1),
                    unit(false),
                    Color { r: unit(true), g: unit(false), b: unit(false) },
                    half(1),
                    half(1),
                    Vector3::spec_zero(),
                ),
            ],
            mesh.indices@ == seq![0usize, 1, 2],
            mesh.parts@ == seq![Part { index: 0, count: 1, topology: Topology::TRIANGLE }],
            mesh.faces() == seq![Face { a: 0, b: 1, c: 2 }],
    {
        let o = Scalar::zero();
        let l = Scalar::one();
        let h = Scalar::from_bits(HALF);
        let q = Scalar::from_bits(QUARTER);
        let mut vertices: Vec<Vertex> = Vec::new();
        vertices.push(Vertex::create(h.negated(), q.negated(), o, Color::create(o, o, l), o, o));
        vertices.push(Vertex::create(h, q.negated(), o, Color::create(l, l, o), l, o));
        vertices.push(Vertex::create(o, h, o, Color::create(l, o, o), h, h));
        let indices: Vec<usize> = vec![0, 1, 2];
        let parts: Vec<Part> = vec![Part::create(Topology::TRIANGLE, 0, 1)];
        let mesh = Mesh::resting(vertices, indices, parts);
        proof {
            mesh.one_part();
            assert(mesh.parts@[0].faces(mesh.indices@) =~= seq![Face { a: 0, b: 1, c: 2 }]);
        }
        mesh
    }

    /// A unit square in the plane `y = 0`, of one color, as two triangles.
    pub fn plane(color: &Color) -> (mesh: Mesh)
        ensures
            mesh.wf(),
            mesh.at_rest(),
            mesh.vertices@ == Seq::new(
                4,
                |k: int|
                    Vertex::spec_full(
                        half(side(0).sign(k, 0)),
                        unit(false),
                        half(side(0).sign(k, 2)),
                        *color,
                        corner_uv(k).0,
                        corner_uv(k).1,
                        Vector3::spec_zero(),
                    ),
            ),
            mesh.indices@ == seq![0usize, 1, 2, 2, 3, 0],
            mesh.parts@ == seq![Part { index: 0, count: 2, topology: Topology::TRIANGLE }],
            mesh.faces() == seq![Face { a: 0, b: 1, c: 2 }, Face { a: 2, b: 3, c: 0 }],
    {
        let o = Scalar::zero();
        let l = Scalar::one();
        let h = Scalar::from_bits(HALF);
        let n = h.negated();
        let vertices: Vec<Vertex> = vec![
            Vertex::create(n, o, n, *color, o, o),
            Vertex::create(h, o, n, *color, l, o),
            Vertex::create(h, o, h, *color, l, l),
            Vertex::create(n, o, h, *color, o, l),
        ];
        let indices: Vec<usize> = vec![0, 1, 2, 2, 3, 0];
        let parts: Vec<Part> = vec![Part::create(Topology::TRIANGLE, 0, 2)];
        let mesh = Mesh::resting(vertices, indices, parts);
        proof {
            mesh.one_part();
            assert(mesh.parts@[0].faces(mesh.indices@) =~= seq![
                Face { a: 0, b: 1, c: 2 },
                Face { a: 2, b: 3, c: 0 },
            ]);
        }
        mesh
    }

    /// The vertex buffer of the cube: side after side, four corners each.
    pub open spec fn cube_vertices() -> Seq<Vertex> {
        Seq::new(24, |i: int| side(i / 4).corner(i % 4))
    }

    /// The index buffer of the cube: for each side the two triangles that
    /// share its first and third corner.
    pub open spec fn cube_indices() -> Seq<usize> {
        Seq::new(36, |i: int| (4 * (i / 6) + fan(i % 6)) as usize)
    }

    /// The triangles of the cube: two to a side.
    pub open spec fn cube_faces() -> Seq<Face> {
        Seq::new(
            12,
            |t: int|
                Face {
                    a: (4 * (t / 2)) as usize,
                    b: (4 * (t / 2) + 1 + t % 2) as usize,
                    c: (4 * (t / 2) + 2 + t % 2) as usize,
                },
        )
    }

    /// A cube of edge one about the origin: six sides of four vertices, each
    /// side in a color of its own, drawn as twelve triangles by a single part.
    pub fn cube() -> (mesh: Mesh)
        ensures
            mesh.wf(),
            mesh.at_rest(),
            mesh.vertices@ == Mesh::cube_vertices(),
            mesh.indices@ == Mesh::cube_indices(),
            mesh.parts@ == seq![Part { index: 0, count: 12, topology: Topology::TRIANGLE }],
            mesh.faces() == Mesh::cube_faces(),
    {
        let o = Scalar::zero();
        let l = Scalar::one();
        let h = Scalar::from_bits(HALF);
        let n = h.negated();
        let s = Scalar::from_bits(STRONG);
        let w = Scalar::from_bits(WEAK);
        let vertices: Vec<Vertex> = vec![
            // top
            Vertex::create(n, h, n, Color::create(s, s, s), o, o),
            Vertex::create(h, h, n, Color::create(s, s, s), l, o),
            Vertex::create(h, h, h, Color::create(s, s, s), l, l),
            Vertex::create(n, h, h, Color::create(s, s, s), o, l),
            // bottom
            Vertex::create(n, n, h, Color::create(w, w, w), o, o),
            Vertex::create(h, n, h, Color::create(w, w, w), l, o),
            Vertex::create(h, n, n, Color::create(w, w, w), l, l),
            Vertex::create(n, n, n, Color::create(w, w, w), o, l),
            // front
            Vertex::create(n, n, n, Color::create(s, w, w), o, o),
            Vertex::create(h, n, n, Color::create(s, w, w), l, o),
            Vertex::create(h, h, n, Color::create(s, w, w), l, l),
            Vertex::create(n, h, n, Color::create(s, w, w), o, l),
            // back
            Vertex::create(h, n, h, Color::create(w, s, w), o, o),
            Vertex::create(n, n, h, Color::create(w, s, w), l, o),
            Vertex::create(n, h, h, Color::create(w, s, w), l, l),
            Vertex::create(h, h, h, Color::create(w, s, w), o, l),
            // left
            Vertex::create(n, n, h, Color::create(s, s, w), o, o),
            Vertex::create(n, n, n, Color::create(s, s, w), l, o),
            Vertex::create(n, h, n, Color::create(s, s, w), l, l),
            Vertex::create(n, h, h, Color::create(s, s, w), o, l),
            // right
            Vertex::create(h, n, n, Color::create(w, w, s), o, o),
            Vertex::create(h, n, h, Color::create(w, w, s), l, o),
            Vertex::create(h, h, h, Color::create(w, w, s), l, l),
            Vertex::create(h, h, n, Color::create(w, w, s), o, l),
        ];
        let indices: Vec<usize> = vec![
            0, 1, 2, 0, 2, 3,
            4, 5, 6, 4, 6, 7,
            8, 9, 10, 8, 10, 11,
            12, 13, 14, 12, 14, 15,
            16, 17, 18, 16, 18, 19,
            20, 21, 22, 20, 22, 23,
        ];
        let parts: Vec<Part> = vec![Part::create(Topology::TRIANGLE, 0, 12)];
        let mesh = Mesh::resting(vertices, indices, parts);
        proof {
            assert(mesh.vertices@ =~= Mesh::cube_vertices());
            assert(mesh.indices@ =~= Mesh::cube_indices());
            mesh.one_part();
            assert(mesh.parts@[0].faces(mesh.indices@) =~= Mesh::cube_faces());
        }
        mesh
    }

    /// A mesh at rest that draws `vertices` three at a time, in their order,
    /// by a single part. Vertices left over after the last full triangle are
    /// kept and not drawn.
    pub fn converted(vertices: Vec<Vertex>) -> (mesh: Mesh)
        ensures
            mesh.wf(),
            mesh.at_rest(),
            mesh.vertices@ == vertices@,
            mesh.indices@ == Seq::new(vertices@.len(), |i: int| i as usize),
            mesh.parts@ == seq![
                Part { index: 0, count: (vertices@.len() / 3) as usize, topology: Topology::TRIANGLE },
            ],
            mesh.faces() == Seq::new(
                vertices@.len() / 3,
                |k: int| Face { a: (3 * k) as usize, b: (3 * k + 1) as usize, c: (3 * k + 2) as usize },
            ),
    {
        let count: usize = vertices.len();
        let mut indices: Vec<usize> = Vec::new();
        let mut i: usize = 0;
        while i < count
            invariant
                i <= count,
                indices@.len() == i,
                forall|k: int| 0 <= k < i ==> indices@[k] == k,
            decreases count - i,
        {
            indices.push(i);
            i = i + 1;
        }
        let parts: Vec<Part> = vec![Part::create(Topology::TRIANGLE, 0, count / 3)];
        let mesh = Mesh::resting(vertices, indices, parts);
        proof {
            assert(mesh.indices@ =~= Seq::new(vertices@.len(), |i: int| i as usize));
            mesh.one_part();
            assert(mesh.parts@[0].faces(mesh.indices@) =~= Seq::new(
                vertices@.len() / 3,
                |k: int| Face { a: (3 * k) as usize, b: (3 * k + 1) as usize, c: (3 * k + 2) as usize },
            ));
        }
        mesh
    }

    /// Whether the mesh is well formed, so that it can be drawn.
    pub fn valid(&self) -> (ok: bool)
        ensures
            ok == self.wf(),
    {
        let mut p: usize = 0;
        while p < self.parts.len()
            invariant
                p <= self.parts@.len(),
                forall|q: int|
                    0 <= q < p ==> (#[trigger] self.parts@[q]).fits(
                        self.indices@,
                        self.vertices@.len() as int,
                    ),
            decreases self.parts@.len() - p,
        {
            let part = self.parts[p];
            let length: usize = self.indices.len();
            if part.index > length || part.count > (length - part.index) / 3 {
                assert(!part.fits(self.indices@, self.vertices@.len() as int));
                return false;
            }
            let end: usize = part.index + 3 * part.count;
            let mut i: usize = part.index;
            while i < end
                invariant
                    part.index <= i <= end,
                    end == part.end(),
                    end <= self.indices@.len(),
                    p < self.parts@.len(),
                    part == self.parts@[p as int],
                    forall|j: int| part.index <= j < i ==> (#[trigger] self.indices@[j]) < self.vertices@.len(),
                decreases end - i,
            {
                if self.indices[i] >= self.vertices.len() {
                    assert(!part.fits(self.indices@, self.vertices@.len() as int));
                    return false;
                }
                i = i + 1;
            }
            p = p + 1;
        }
        true
    }

    /// The triangles of the mesh in the order in which they are drawn.
    pub fn draw_list(&self) -> (list: Vec<Face>)
        requires
            self.wf(),
        ensures
            list@ == self.faces(),
            forall|i: int| 0 <= i < list@.len() ==> (#[trigger] list@[i]).within(self.vertices@.len() as int),
    {
        let ghost lists = self.parts@.map_values(|part: Part| part.faces(self.indices@));
        let mut list: Vec<Face> = Vec::new();
        let mut p: usize = 0;
        proof {
            assert(lists.take(0) =~= Seq::<Seq<Face>>::empty());
        }
        while p < self.parts.len()
            invariant
                p <= self.parts@.len(),
                self.wf(),
                lists == self.parts@.map_values(|part: Part| part.faces(self.indices@)),
                list@ == lists.take(p as int).flatten(),
                forall|i: int|
                    0 <= i < list@.len() ==> (#[trigger] list@[i]).within(self.vertices@.len() as int),
            decreases self.parts@.len() - p,
        {
            let part = self.parts[p];
            let ghost done = list@;
            let ghost faces = part.faces(self.indices@);
            match part.topology {
                Topology::TRIANGLE => {
                    let length: usize = self.indices.len();
                    let mut k: usize = 0;
                    let mut start: usize = part.index;
                    while k < part.count
                        invariant
                            k <= part.count,
                            length == self.indices@.len(),
                            start == part.index + 3 * k,
                            part.fits(self.indices@, self.vertices@.len() as int),
                            faces == part.faces(self.indices@),
                            list@ == done + faces.take(k as int),
                            forall|i: int|
                                0 <= i < list@.len() ==> (#[trigger] list@[i]).within(
                                    self.vertices@.len() as int,
                                ),
                        decreases part.count - k,
                    {
                        let face = Face {
                            a: self.indices[start],
                            b: self.indices[start + 1],
                            c: self.indices[start + 2],
                        };
                        list.push(face);
                        proof {
                            assert(faces.take(k + 1) =~= faces.take(k as int).push(face));
                        }
                        start = start + 3;
                        k = k + 1;
                    }
                },
            }
            proof {
                assert(faces.take(part.count as int) =~= faces);
                assert(lists[p as int] == faces);
                assert(lists.take(p + 1) =~= lists.take(p as int).push(faces));
                lists.take(p as int).lemma_flatten_push(faces);
            }
            p = p + 1;
        }
        proof {
            assert(lists.take(self.parts@.len() as int) =~= lists);
        }
        list
    }

    /// The faces that the first `k` parts draw.
    pub open spec fn faces_of_first(&self, k: int) -> Seq<Face> {
        self.parts@.map_values(|part: Part| part.faces(self.indices@)).take(k).flatten()
    }

    /// In a well-formed mesh the corners of what the first `k` parts draw are
    /// vertices of the mesh.
    proof fn first_faces_within(&self, k: int)
        requires
            self.wf(),
            0 <= k <= self.parts@.len(),
        ensures
            forall|i: int|
                0 <= i < self.faces_of_first(k).len() ==> (#[trigger] self.faces_of_first(k)[i]).within(
                    self.vertices@.len() as int,
                ),
        decreases k,
    {
        let lists = self.parts@.map_values(|part: Part| part.faces(self.indices@));
        if k == 0 {
            assert(lists.take(0) =~= Seq::<Seq<Face>>::empty());
        } else {
            self.first_faces_within(k - 1);
            let part = self.parts@[k - 1];
            let last = part.faces(self.indices@);
            assert(lists[k - 1] == last);
            assert(lists.take(k) =~= lists.take(k - 1).push(last));
            lists.take(k - 1).lemma_flatten_push(last);
            let before = self.faces_of_first(k - 1);
            assert(self.faces_of_first(k) == before + last);
            assert(part.fits(self.indices@, self.vertices@.len() as int));
            assert forall|i: int| 0 <= i < (before + last).len() implies (#[trigger] (before
                + last)[i]).within(self.vertices@.len() as int) by {
                if i >= before.len() {
                    let j = i - before.len();
                    assert((before + last)[i] == last[j]);
                    assert(self.indices@[part.index + 3 * j] < self.vertices@.len());
                    assert(self.indices@[part.index + 3 * j + 1] < self.vertices@.len());
                    assert(self.indices@[part.index + 3 * j + 2] < self.vertices@.len());
                } else {
                    assert((before + last)[i] == before[i]);
                }
            }
        }
    }

    /// In a well-formed mesh every corner of every face is a vertex of the
    /// mesh: drawing it reads nothing that is not there.
    pub proof fn faces_within(&self)
        requires
            self.wf(),
        ensures
            forall|i: int|
                0 <= i < self.faces().len() ==> (#[trigger] self.faces()[i]).within(
                    self.vertices@.len() as int,
                ),
    {
        let lists = self.parts@.map_values(|part: Part| part.faces(self.indices@));
        assert(lists.take(self.parts@.len() as int) =~= lists);
        self.first_faces_within(self.parts@.len() as int);
        assert(self.faces_of_first(self.parts@.len() as int) == self.faces());
    }

    /// The faces of a mesh of one part are those of the part.
    pub proof fn one_part(&self)
        requires
            self.parts@.len() == 1,
        ensures
            self.faces() == self.parts@[0].faces(self.indices@),
    {
        let lists = self.parts@.map_values(|part: Part| part.faces(self.indices@));
        assert(lists =~= seq![self.parts@[0].faces(self.indices@)]);
        lists.lemma_flatten_one_element();
    }
}

} // verus!
