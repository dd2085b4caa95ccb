//! Drawing into the frame.

use crate::algebra::rounding::whole_numbers_keep_order;
use crate::algebra::scalar::Scalar;
use crate::algebra::scalar::ONE;
use crate::topology::color::Rgb;
use crate::topology::mesh::Face;
use crate::topology::mesh::Mesh;
use crate::topology::vertex::Vertex;
use crate::video::screen::Fragment;
use crate::video::screen::Frame;
use crate::video::screen::Pixel;
use crate::video::screen::Screen;
use vstd::prelude::*;

verus! {

/// The barycentric weights of a pixel with respect to a triangle.
#[derive(Clone, Copy, PartialEq, Eq, Debug, Structural)]
pub struct Weights {
    pub alpha: Scalar,
    pub beta: Scalar,
    pub gamma: Scalar,
}

impl Weights {
    /// The weights with the given components.
    pub fn create(alpha: Scalar, beta: Scalar, gamma: Scalar) -> (w: Weights)
        ensures
            w == (Weights { alpha, beta, gamma }),
    {
        Weights { alpha, beta, gamma }
    }

    /// Whether the pixel lies in the triangle: none of the three weights is
    /// below zero, and each is a number.
    pub open spec fn spec_inside(&self) -> bool {
        &&& self.alpha.spec_ge(Scalar { bits: 0 })
        &&& self.beta.spec_ge(Scalar { bits: 0 })
        &&& self.gamma.spec_ge(Scalar { bits: 0 })
    }

    /// Whether the pixel lies in the triangle: none of the three weights is
    /// below zero, and each is a number.
    #[verifier::when_used_as_spec(spec_inside)]
    pub fn inside(&self) -> (r: bool)
        ensures
            r == self.spec_inside(),
    {
        self.alpha.ge(Scalar::zero()) && self.beta.ge(Scalar::zero()) && self.gamma.ge(
            Scalar::zero(),
        )
    }
}

/// A rectangle of pixels, both ends included.
#[derive(Clone, Copy, PartialEq, Eq, Debug, Structural)]
pub struct Bounds {
    pub xmin: i32,
    pub xmax: i32,
    pub ymin: i32,
    pub ymax: i32,
}

impl Bounds {
    /// The rectangle from `(xmin, ymin)` to `(xmax, ymax)`.
    pub fn create(xmin: i32, xmax: i32, ymin: i32, ymax: i32) -> (b: Bounds)
        ensures
            b == (Bounds { xmin, xmax, ymin, ymax }),
    {
        Bounds { xmin, xmax, ymin, ymax }
    }

    /// Whether `(x, y)` lies in the rectangle.
    pub open spec fn contains(&self, x: int, y: int) -> bool {
        self.xmin <= x <= self.xmax && self.ymin <= y <= self.ymax
    }

    /// The bounding box of a triangle in screen space: from the floor of the
    /// least `x` and `y` of its corners to the ceiling of the greatest.
    pub open spec fn spec_around(a: &Vertex, b: &Vertex, c: &Vertex) -> Bounds {
        Bounds {
            xmin: a.x.spec_min(b.x).spec_min(c.x).spec_floor() as i32,
            xmax: a.x.spec_max(b.x).spec_max(c.x).spec_ceil() as i32,
            ymin: a.y.spec_min(b.y).spec_min(c.y).spec_floor() as i32,
            ymax: a.y.spec_max(b.y).spec_max(c.y).spec_ceil() as i32,
        }
    }

    /// The bounding box of a triangle in screen space: the pixels from the
    /// floor of the least `x` and `y` of its corners to the ceiling of the
    /// greatest. A coordinate that is not a number is passed over.
    #[verifier::when_used_as_spec(spec_around)]
    pub fn around(a: &Vertex, b: &Vertex, c: &Vertex) -> (bounds: Bounds)
        ensures
            bounds == Bounds::spec_around(a, b, c),
    {
        Bounds {
            xmin: a.x.min(b.x).min(c.x).floor(),
            xmax: a.x.max(b.x).max(c.x).ceil(),
            ymin: a.y.min(b.y).min(c.y).floor(),
            ymax: a.y.max(b.y).max(c.y).ceil(),
        }
    }
}

/// The bounding box of a triangle holds its corners: the whole numbers next
/// to the coordinates of each corner lie between its least and its greatest
/// column and row.
pub proof fn around_holds_corners(a: &Vertex, b: &Vertex, c: &Vertex)
    requires
        !a.x.is_nan() && !a.y.is_nan(),
        !b.x.is_nan() && !b.y.is_nan(),
        !c.x.is_nan() && !c.y.is_nan(),
    ensures
        ({
            let bounds = Bounds::spec_around(a, b, c);
            &&& bounds.xmin <= a.x.spec_floor() && a.x.spec_ceil() <= bounds.xmax
            &&& bounds.xmin <= b.x.spec_floor() && b.x.spec_ceil() <= bounds.xmax
            &&& bounds.xmin <= c.x.spec_floor() && c.x.spec_ceil() <= bounds.xmax
            &&& bounds.ymin <= a.y.spec_floor() && a.y.spec_ceil() <= bounds.ymax
            &&& bounds.ymin <= b.y.spec_floor() && b.y.spec_ceil() <= bounds.ymax
            &&& bounds.ymin <= c.y.spec_floor() && c.y.spec_ceil() <= bounds.ymax
        }),
{
    let left = a.x.spec_min(b.x).spec_min(c.x);
    let right = a.x.spec_max(b.x).spec_max(c.x);
    let top = a.y.spec_min(b.y).spec_min(c.y);
    let bottom = a.y.spec_max(b.y).spec_max(c.y);
    whole_numbers_keep_order(left, a.x);
    whole_numbers_keep_order(left, b.x);
    whole_numbers_keep_order(left, c.x);
    whole_numbers_keep_order(a.x, right);
    whole_numbers_keep_order(b.x, right);
    whole_numbers_keep_order(c.x, right);
    whole_numbers_keep_order(top, a.y);
    whole_numbers_keep_order(top, b.y);
    whole_numbers_keep_order(top, c.y);
    whole_numbers_keep_order(a.y, bottom);
    whole_numbers_keep_order(b.y, bottom);
    whole_numbers_keep_order(c.y, bottom);
}

/// Whether `after` is what a pixel at `(x, y)` may be once a triangle was
/// drawn over `before`: `cover` gave weights for the pixel; where they lie
/// outside the triangle nothing changed; where they lie inside, `shade` gave a
/// fragment for them and the pixel met it.
pub open spec fn settles<C: Fn(i32, i32) -> Weights, F: Fn(i32, i32, Weights) -> Fragment>(
    cover: C,
    shade: F,
    x: i32,
    y: i32,
    before: Pixel,
    after: Pixel,
) -> bool {
    exists|w: Weights| #[trigger]
        call_ensures(cover, (x, y), w) && if w.spec_inside() {
            exists|fragment: Fragment| #[trigger]
                call_ensures(shade, (x, y, w), fragment) && after == before.meet(fragment)
        } else {
            after == before
        }
}

/// A triangle ready to be drawn: its three corners in screen space.
#[derive(Clone, Copy, PartialEq, Eq, Debug, Structural)]
pub struct Triangle {
    pub a: Vertex,
    pub b: Vertex,
    pub c: Vertex,
}

/// What a face gives to draw: nothing if its corners in `clip` are out of
/// view, else its corners in `screen`.
pub open spec fn submits(clip: Seq<Vertex>, screen: Seq<Vertex>, face: Face) -> Option<Triangle> {
    if Vertex::spec_out_of_view(&clip[face.a as int], &clip[face.b as int], &clip[face.c as int]) {
        None
    } else {
        Some(Triangle { a: screen[face.a as int], b: screen[face.b as int], c: screen[face.c as int] })
    }
}

/// Whether `cover` and `shade` can give for the pixel `(x, y)` no other
/// outcome than `outcome`: whatever weights `cover` gives, if they lie outside
/// the triangle the outcome is no fragment, and if inside, whatever fragment
/// `shade` gives for them is the outcome.
pub open spec fn yields<C: Fn(i32, i32) -> Weights, F: Fn(i32, i32, Weights) -> Fragment>(
    cover: C,
    shade: F,
    x: i32,
    y: i32,
    outcome: Option<Fragment>,
) -> bool {
    forall|w: Weights| #[trigger]
        call_ensures(cover, (x, y), w) ==> if w.spec_inside() {
            forall|given: Fragment| #[trigger]
                call_ensures(shade, (x, y, w), given) ==> outcome == Some(given)
        } else {
            outcome is None
        }
}

/// Whether two outcomes at one place do not tie: one of them is no fragment,
/// or is degenerate, or has a depth that is not a number, or their depths
/// differ as numbers.
pub open spec fn apart(one: Option<Fragment>, other: Option<Fragment>) -> bool {
    one is None || other is None || one->0.spec_degenerate() || other->0.spec_degenerate()
        || one->0.z.is_nan() || other->0.z.is_nan() || one->0.z.rank() != other->0.z.rank()
}

impl Frame {
    /// The frame after each of its places within `bounds` met the outcome
    /// that `outcome` gives for the place.
    pub open spec fn drawn(self, bounds: Bounds, outcome: spec_fn(int, int) -> Option<Fragment>) -> Frame {
        Frame {
            pixels: Map::new(
                |p: (int, int)| self.contains(p.0, p.1),
                |p: (int, int)|
                    if bounds.contains(p.0, p.1) {
                        self.pixels[p].resolve(outcome(p.0, p.1))
                    } else {
                        self.pixels[p]
                    },
            ),
            ..self
        }
    }
}

/// Where `cover` and `shade` can give but one outcome for each pixel, a frame
/// that they settled over `bounds` is the frame drawn with those outcomes.
pub proof fn settled_is_drawn<C: Fn(i32, i32) -> Weights, F: Fn(i32, i32, Weights) -> Fragment>(
    cover: C,
    shade: F,
    outcome: spec_fn(int, int) -> Option<Fragment>,
    bounds: Bounds,
    before: Frame,
    after: Frame,
)
    requires
        before.wf(),
        after.wf(),
        after.width == before.width,
        after.height == before.height,
        forall|x: i32, y: i32|
            #![trigger after.pixels[(x as int, y as int)]]
            before.contains(x as int, y as int) ==> if bounds.contains(x as int, y as int) {
                settles(
                    cover,
                    shade,
                    x,
                    y,
                    before.pixels[(x as int, y as int)],
                    after.pixels[(x as int, y as int)],
                )
            } else {
                after.pixels[(x as int, y as int)] == before.pixels[(x as int, y as int)]
            },
        forall|x: i32, y: i32|
            #![trigger outcome(x as int, y as int)]
            before.contains(x as int, y as int) && bounds.contains(x as int, y as int) ==> yields(
                cover,
                shade,
                x,
                y,
                outcome(x as int, y as int),
            ),
    ensures
        after == before.drawn(bounds, outcome),
{
    let goal = before.drawn(bounds, outcome);
    assert forall|p: (int, int)| after.pixels.contains_key(p) implies after.pixels[p]
        == goal.pixels[p] by {
        let (x, y) = (p.0 as i32, p.1 as i32);
        assert(before.contains(x as int, y as int));
        assert(p == (x as int, y as int));
        let _ = after.pixels[(x as int, y as int)];
        if bounds.contains(x as int, y as int) {
            let _ = outcome(x as int, y as int);
            assert(yields(cover, shade, x, y, outcome(x as int, y as int)));
            assert(settles(cover, shade, x, y, before.pixels[p], after.pixels[p]));
        }
    }
    assert forall|p: (int, int)| after.pixels.contains_key(p) == goal.pixels.contains_key(p) by {
        assert(after.contains(p.0, p.1) == before.contains(p.0, p.1));
    }
    assert(after.pixels =~= goal.pixels);
}

/// The depth test does not depend on the order of drawing: two draws leave
/// the same frame whichever comes first, if at no place that both reach their
/// outcomes tie.
pub proof fn drawn_commutes(
    frame: Frame,
    first: Bounds,
    one: spec_fn(int, int) -> Option<Fragment>,
    second: Bounds,
    other: spec_fn(int, int) -> Option<Fragment>,
)
    requires
        frame.wf(),
        forall|x: int, y: int|
            frame.contains(x, y) && first.contains(x, y) && second.contains(x, y) ==> apart(
                #[trigger] one(x, y),
                #[trigger] other(x, y),
            ),
    ensures
        frame.drawn(first, one).drawn(second, other) == frame.drawn(second, other).drawn(first, one),
{
    let left = frame.drawn(first, one).drawn(second, other);
    let right = frame.drawn(second, other).drawn(first, one);
    assert forall|p: (int, int)| left.pixels.contains_key(p) implies left.pixels[p]
        == right.pixels[p] by {
        assert(frame.pixels.contains_key(p));
        assert(!frame.pixels[p].depth.is_nan());
        if first.contains(p.0, p.1) && second.contains(p.0, p.1) {
            assert(apart(one(p.0, p.1), other(p.0, p.1)));
        }
    }
    assert(left.pixels =~= right.pixels);
}

/// The renderer: it owns the screen that it draws into.
pub struct Render {
    pub screen: Screen,
}

impl Render {
    /// A renderer for `screen`.
    pub fn create(screen: Screen) -> (render: Render)
        ensures
            render.screen == screen,
    {
        Render { screen }
    }

    /// Starts a frame: every pixel gets `color` and the depth of the far
    /// plane.
    pub fn clear(&mut self, color: Rgb)
        requires
            old(self).screen.wf(),
        ensures
            final(self).screen.wf(),
            final(self).screen@ == old(self).screen@.fill(Pixel { depth: Screen::far(), color }),
    {
        self.screen.clear(color);
    }

    /// Sends a fragment of depth `z` and color `color`, and of weight one, to
    /// `(x, y)`: off the frame nothing happens; on it the fragment is stored
    /// if `z` is below the depth stored there, and dropped if not.
    pub fn pixel(&mut self, x: i32, y: i32, z: Scalar, color: Rgb)
        requires
            old(self).screen.wf(),
        ensures
            final(self).screen.wf(),
            final(self).screen@ == old(self).screen@.plot(
                x as int,
                y as int,
                Fragment { z, one: Scalar { bits: ONE }, color },
            ),
    {
        self.screen.plot(x, y, Fragment { z, one: Scalar::one(), color });
    }

    /// The triangles of `mesh` to draw, in their order.
    ///
    /// `clip` holds the vertices of the mesh in clip space, before the divide,
    /// and `screen` the same vertices in screen space, each at the place that
    /// the vertex has in the mesh. A triangle whose corners in `clip` are out
    /// of view is left out; any other is submitted with its corners from
    /// `screen`.
    pub fn process(mesh: &Mesh, clip: &Vec<Vertex>, screen: &Vec<Vertex>) -> (list: Vec<Triangle>)
        requires
            mesh.wf(),
            clip@.len() == mesh.vertices@.len(),
            screen@.len() == mesh.vertices@.len(),
        ensures
            list@ == mesh.faces().filter_map(|face: Face| submits(clip@, screen@, face)),
    {
        let faces = mesh.draw_list();
        let ghost choice = |face: Face| submits(clip@, screen@, face);
        let mut list: Vec<Triangle> = Vec::new();
        let mut i: usize = 0;
        while i < faces.len()
            invariant
                i <= faces@.len(),
                clip@.len() == mesh.vertices@.len(),
                screen@.len() == mesh.vertices@.len(),
                forall|k: int|
                    0 <= k < faces@.len() ==> (#[trigger] faces@[k]).within(
                        mesh.vertices@.len() as int,
                    ),
                choice == |face: Face| submits(clip@, screen@, face),
                list@ == faces@.take(i as int).filter_map(choice),
            decreases faces@.len() - i,
        {
            let face = faces[i];
            proof {
                faces@.lemma_filter_map_take_succ(choice, i as int);
            }
            if !Vertex::out_of_view(&clip[face.a], &clip[face.b], &clip[face.c]) {
                list.push(Triangle { a: screen[face.a], b: screen[face.b], c: screen[face.c] });
            }
            i = i + 1;
        }
        proof {
            assert(faces@.take(faces@.len() as int) =~= faces@);
        }
        list
    }

    /// Draws over the pixels of `bounds`: each of them that lies on the frame
    /// is visited once, row by row; `cover` gives its weights, and where they
    /// lie inside the triangle `shade` gives a fragment, which is sent to the
    /// pixel. Pixels off the frame are not visited, and nothing outside
    /// `bounds` changes.
    pub fn fill<C, F>(&mut self, bounds: &Bounds, cover: C, shade: F) where
        C: Fn(i32, i32) -> Weights,
        F: Fn(i32, i32, Weights) -> Fragment,

        requires
            old(self).screen.wf(),
            forall|x: i32, y: i32|
                #![trigger call_requires(cover, (x, y))]
                old(self).screen@.contains(x as int, y as int) && bounds.contains(x as int, y as int)
                    ==> call_requires(cover, (x, y)),
            forall|x: i32, y: i32, w: Weights|
                #![trigger call_requires(shade, (x, y, w))]
                old(self).screen@.contains(x as int, y as int) && bounds.contains(x as int, y as int)
                    && call_ensures(cover, (x, y), w) && w.spec_inside() ==> call_requires(
                    shade,
                    (x, y, w),
                ),
        ensures
            final(self).screen.wf(),
            final(self).screen@.width == old(self).screen@.width,
            final(self).screen@.height == old(self).screen@.height,
            forall|x: i32, y: i32|
                #![trigger final(self).screen@.pixels[(x as int, y as int)]]
                old(self).screen@.contains(x as int, y as int) ==> if bounds.contains(
                    x as int,
                    y as int,
                ) {
                    settles(
                        cover,
                        shade,
                        x,
                        y,
                        old(self).screen@.pixels[(x as int, y as int)],
                        final(self).screen@.pixels[(x as int, y as int)],
                    )
                } else {
                    final(self).screen@.pixels[(x as int, y as int)] == old(self).screen@.pixels[(
                        x as int,
                        y as int,
                    )]
                },
    {
        proof {
            self.screen.wf_view();
        }
        let width: i32 = self.screen.width();
        let height: i32 = self.screen.height();
        if width == 0 || height == 0 {
            return ;
        }
        let x0: i32 = if bounds.xmin < 0 {
            0
        } else {
            bounds.xmin
        };
        let x1: i32 = if bounds.xmax >= width {
            width - 1
        } else {
            bounds.xmax
        };
        let y0: i32 = if bounds.ymin < 0 {
            0
        } else {
            bounds.ymin
        };
        let y1: i32 = if bounds.ymax >= height {
            height - 1
        } else {
            bounds.ymax
        };
        let ghost before = self.screen@;
        let mut y: i32 = y0;
        while y <= y1
            invariant
                self.screen.wf(),
                before.wf(),
                self.screen@.width == before.width,
                self.screen@.height == before.height,
                before == old(self).screen@,
                width == before.width,
                height == before.height,
                0 <= x0,
                x1 < width,
                0 <= y0 <= y,
                y1 < height,
                x0 == if bounds.xmin < 0 { 0int } else { bounds.xmin as int },
                x1 == if bounds.xmax >= width { width - 1 } else { bounds.xmax as int },
                y0 == if bounds.ymin < 0 { 0int } else { bounds.ymin as int },
                y1 == if bounds.ymax >= height { height - 1 } else { bounds.ymax as int },
                forall|x: i32, y: i32|
                    #![trigger call_requires(cover, (x, y))]
                    before.contains(x as int, y as int) && bounds.contains(x as int, y as int)
                        ==> call_requires(cover, (x, y)),
                forall|x: i32, y: i32, w: Weights|
                    #![trigger call_requires(shade, (x, y, w))]
                    before.contains(x as int, y as int) && bounds.contains(x as int, y as int)
                        && call_ensures(cover, (x, y), w) && w.spec_inside() ==> call_requires(
                        shade,
                        (x, y, w),
                    ),
                forall|px: i32, py: i32|
                    #![trigger self.screen@.pixels[(px as int, py as int)]]
                    before.contains(px as int, py as int) ==> if bounds.contains(
                        px as int,
                        py as int,
                    ) && py < y {
                        settles(
                            cover,
                            shade,
                            px,
                            py,
                            before.pixels[(px as int, py as int)],
                            self.screen@.pixels[(px as int, py as int)],
                        )
                    } else {
                        self.screen@.pixels[(px as int, py as int)] == before.pixels[(
                            px as int,
                            py as int,
                        )]
                    },
            decreases y1 - y + 1,
        {
            let mut x: i32 = x0;
            while x <= x1
                invariant
                    self.screen.wf(),
                    before.wf(),
                    self.screen@.width == before.width,
                    self.screen@.height == before.height,
                    width == before.width,
                    height == before.height,
                    0 <= x0 <= x,
                    x1 < width,
                    0 <= y0 <= y <= y1,
                    y1 < height,
                    x0 == if bounds.xmin < 0 { 0int } else { bounds.xmin as int },
                    x1 == if bounds.xmax >= width { width - 1 } else { bounds.xmax as int },
                    y0 == if bounds.ymin < 0 { 0int } else { bounds.ymin as int },
                    y1 == if bounds.ymax >= height { height - 1 } else { bounds.ymax as int },
                    forall|x: i32, y: i32|
                        #![trigger call_requires(cover, (x, y))]
                        before.contains(x as int, y as int) && bounds.contains(x as int, y as int)
                            ==> call_requires(cover, (x, y)),
                    forall|x: i32, y: i32, w: Weights|
                        #![trigger call_requires(shade, (x, y, w))]
                        before.contains(x as int, y as int) && bounds.contains(x as int, y as int)
                            && call_ensures(cover, (x, y), w) && w.spec_inside() ==> call_requires(
                            shade,
                            (x, y, w),
                        ),
                    forall|px: i32, py: i32|
                        #![trigger self.screen@.pixels[(px as int, py as int)]]
                        before.contains(px as int, py as int) ==> if bounds.contains(
                            px as int,
                            py as int,
                        ) && (py < y || (py == y && px < x)) {
                            settles(
                                cover,
                                shade,
                                px,
                                py,
                                before.pixels[(px as int, py as int)],
                                self.screen@.pixels[(px as int, py as int)],
                            )
                        } else {
                            self.screen@.pixels[(px as int, py as int)] == before.pixels[(
                                px as int,
                                py as int,
                            )]
                        },
                decreases x1 - x + 1,
            {
                let ghost frame = self.screen@;
                proof {
                    self.screen.wf_view();
                }
                let w = cover(x, y);
                if w.inside() {
                    let fragment = shade(x, y, w);
                    self.screen.plot(x, y, fragment);
                }
                proof {
                    assert(settles(
                        cover,
                        shade,
                        x,
                        y,
                        frame.pixels[(x as int, y as int)],
                        self.screen@.pixels[(x as int, y as int)],
                    ));
                }
                x = x + 1;
            }
            y = y + 1;
        }
    }

    /// Draws a triangle with the screen-space corners `a`, `b`, `c` and the
    /// signed area `area`.
    ///
    /// A triangle whose area is not below zero faces away or is degenerate,
    /// and leaves the frame as it is. Any other is drawn over its bounding
    /// box: each pixel of the box that lies on the frame is visited once;
    /// `cover` gives its weights, and where they lie inside the triangle
    /// `shade` gives a fragment, which is sent to the pixel. A fragment that
    /// is degenerate, or not nearer than what the pixel holds, is dropped.
    pub fn triangle<C, F>(
        &mut self,
        a: &Vertex,
        b: &Vertex,
        c: &Vertex,
        area: Scalar,
        cover: C,
        shade: F,
    ) where C: Fn(i32, i32) -> Weights, F: Fn(i32, i32, Weights) -> Fragment
        requires
            old(self).screen.wf(),
            forall|x: i32, y: i32|
                #![trigger call_requires(cover, (x, y))]
                old(self).screen@.contains(x as int, y as int) && Bounds::spec_around(
                    a,
                    b,
                    c,
                ).contains(x as int, y as int) ==> call_requires(cover, (x, y)),
            forall|x: i32, y: i32, w: Weights|
                #![trigger call_requires(shade, (x, y, w))]
                old(self).screen@.contains(x as int, y as int) && Bounds::spec_around(
                    a,
                    b,
                    c,
                ).contains(x as int, y as int) && call_ensures(cover, (x, y), w) && w.spec_inside()
                    ==> call_requires(shade, (x, y, w)),
        ensures
            final(self).screen.wf(),
            final(self).screen@.width == old(self).screen@.width,
            final(self).screen@.height == old(self).screen@.height,
            !area.spec_lt(Scalar { bits: 0 }) ==> final(self).screen@ == old(self).screen@,
            area.spec_lt(Scalar { bits: 0 }) ==> forall|x: i32, y: i32|
                #![trigger final(self).screen@.pixels[(x as int, y as int)]]
                old(self).screen@.contains(x as int, y as int) ==> if Bounds::spec_around(
                    a,
                    b,
                    c,
                ).contains(x as int, y as int) {
                    settles(
                        cover,
                        shade,
                        x,
                        y,
                        old(self).screen@.pixels[(x as int, y as int)],
                        final(self).screen@.pixels[(x as int, y as int)],
                    )
                } else {
                    final(self).screen@.pixels[(x as int, y as int)] == old(self).screen@.pixels[(
                        x as int,
                        y as int,
                    )]
                },
    {
        if area.lt(Scalar::zero()) {
            let bounds = Bounds::around(a, b, c);
            self.fill(&bounds, cover, shade);
        }
    }
}

} // verus!
