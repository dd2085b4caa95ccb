//! The frame: a color and a depth for every pixel.

use crate::algebra::scalar::Scalar;
use crate::algebra::scalar::ONE;
use crate::algebra::scalar::SIGN;
use crate::topology::color::Rgb;
use vstd::prelude::*;

verus! {

/// What a frame holds at one place: the depth of the nearest fragment drawn
/// there, and its color.
pub struct Pixel {
    pub depth: Scalar,
    pub color: Rgb,
}

/// A candidate for a pixel: a depth, a color, and `one`, the weight that its
/// attributes were divided by to correct them for perspective.
#[derive(Clone, Copy, PartialEq, Eq, Debug, Structural)]
pub struct Fragment {
    pub z: Scalar,
    pub one: Scalar,
    pub color: Rgb,
}

impl Fragment {
    /// Whether the fragment is degenerate: its weight is zero or not a
    /// number, so that nothing could be divided by it.
    pub open spec fn spec_degenerate(&self) -> bool {
        self.one.is_nan() || self.one.rank() == 0
    }

    /// Whether the fragment is degenerate: its weight is zero or not a
    /// number, so that nothing could be divided by it.
    #[verifier::when_used_as_spec(spec_degenerate)]
    pub fn degenerate(&self) -> (r: bool)
        ensures
            r == self.spec_degenerate(),
    {
        self.one.nan() || self.one.bits % SIGN == 0
    }
}

impl Pixel {
    /// The pixel after a fragment met it: the fragment takes the place if it
    /// is not degenerate and is nearer, that is if its depth is below the
    /// pixel's; if not, the pixel stays. A fragment whose depth is not a
    /// number never takes a place.
    pub open spec fn meet(self, fragment: Fragment) -> Pixel {
        if !fragment.spec_degenerate() && fragment.z.spec_lt(self.depth) {
            Pixel { depth: fragment.z, color: fragment.color }
        } else {
            self
        }
    }

    /// The pixel after the outcome of shading met it; no fragment, no change.
    pub open spec fn resolve(self, outcome: Option<Fragment>) -> Pixel {
        match outcome {
            Some(fragment) => self.meet(fragment),
            None => self,
        }
    }
}

/// The mathematical content of a screen.
pub struct Frame {
    pub width: int,
    pub height: int,
    pub pixels: Map<(int, int), Pixel>,
}

impl Frame {
    /// Whether `(x, y)` is a place of the frame.
    pub open spec fn contains(self, x: int, y: int) -> bool {
        0 <= x < self.width && 0 <= y < self.height
    }

    /// A frame holds a pixel for each of its places and for nothing else,
    /// and every depth in it is a number.
    pub open spec fn wf(self) -> bool {
        &&& 0 <= self.width <= i32::MAX
        &&& 0 <= self.height <= i32::MAX
        &&& forall|x: int, y: int| self.contains(x, y) <==> #[trigger] self.pixels.contains_key((x, y))
        &&& forall|x: int, y: int|
            self.contains(x, y) ==> !(#[trigger] self.pixels[(x, y)]).depth.is_nan()
    }

    /// The frame after a fragment was sent to `(x, y)`: off the frame nothing
    /// changes; on it the pixel meets the fragment.
    pub open spec fn plot(self, x: int, y: int, fragment: Fragment) -> Frame {
        if self.contains(x, y) {
            Frame { pixels: self.pixels.insert((x, y), self.pixels[(x, y)].meet(fragment)), ..self }
        } else {
            self
        }
    }

    /// The frame of the same size with `pixel` at every place.
    pub open spec fn fill(self, pixel: Pixel) -> Frame {
        Frame {
            pixels: Map::new(|p: (int, int)| self.contains(p.0, p.1), |p: (int, int)| pixel),
            ..self
        }
    }
}

/// Sending a fragment leaves a frame well formed.
pub proof fn plot_keeps_wf(frame: Frame, x: int, y: int, fragment: Fragment)
    requires
        frame.wf(),
    ensures
        frame.plot(x, y, fragment).wf(),
        frame.plot(x, y, fragment).width == frame.width,
        frame.plot(x, y, fragment).height == frame.height,
{
    let after = frame.plot(x, y, fragment);
    assert forall|px: int, py: int| after.contains(px, py) implies !(#[trigger] after.pixels[(
        px,
        py,
    )]).depth.is_nan() by {
        assert(frame.pixels.contains_key((px, py)));
    }
}

/// The depth test does not depend on the order of drawing: two fragments
/// leave the same frame whichever is sent first, unless they meet at one
/// place with depths that are equal as numbers, where the first one stays.
/// A fragment that is degenerate, or whose depth is not a number, changes
/// nothing in either order.
pub proof fn plot_commutes(
    frame: Frame,
    x1: int,
    y1: int,
    first: Fragment,
    x2: int,
    y2: int,
    second: Fragment,
)
    requires
        frame.wf(),
        x1 != x2 || y1 != y2 || first.spec_degenerate() || second.spec_degenerate()
            || first.z.is_nan() || second.z.is_nan() || first.z.rank() != second.z.rank(),
    ensures
        frame.plot(x1, y1, first).plot(x2, y2, second) == frame.plot(x2, y2, second).plot(
            x1,
            y1,
            first,
        ),
{
    let one = frame.plot(x1, y1, first).plot(x2, y2, second);
    let other = frame.plot(x2, y2, second).plot(x1, y1, first);
    if frame.contains(x1, y1) {
        assert(frame.pixels.contains_key((x1, y1)));
    }
    if frame.contains(x2, y2) {
        assert(frame.pixels.contains_key((x2, y2)));
    }
    assert(one.pixels =~= other.pixels);
}

/// Of two fragments that meet at one place, the nearer one shows, whichever
/// was sent first, if it is nearer than what the frame held there.
pub proof fn nearest_shows(frame: Frame, x: int, y: int, near: Fragment, far: Fragment)
    requires
        frame.wf(),
        frame.contains(x, y),
        !near.spec_degenerate(),
        near.z.spec_lt(far.z),
        near.z.spec_lt(frame.pixels[(x, y)].depth),
    ensures
        frame.plot(x, y, near).plot(x, y, far).pixels[(x, y)] == (Pixel {
            depth: near.z,
            color: near.color,
        }),
        frame.plot(x, y, far).plot(x, y, near).pixels[(x, y)] == (Pixel {
            depth: near.z,
            color: near.color,
        }),
{
    assert(frame.pixels.contains_key((x, y)));
}

/// A frame of `width` by `height` pixels.
pub struct Screen {
    width: i32,
    height: i32,
    depth_buffer: Vec<Scalar>,
    frame_buffer: Vec<Rgb>,
}

impl View for Screen {
    type V = Frame;

    closed spec fn view(&self) -> Frame {
        Frame {
            width: self.width as int,
            height: self.height as int,
            pixels: Map::new(
                |p: (int, int)| 0 <= p.0 < self.width && 0 <= p.1 < self.height,
                |p: (int, int)|
                    Pixel {
                        depth: self.depth_buffer@[p.1 * self.width + p.0],
                        color: self.frame_buffer@[p.1 * self.width + p.0],
                    },
            ),
        }
    }
}

/// A place in a row-major buffer lies within it.
proof fn place_in_buffer(x: int, y: int, width: int, height: int)
    requires
        0 <= x < width,
        0 <= y < height,
    ensures
        0 <= y * width + x < width * height,
        (y * width + x) % width == x,
        (y * width + x) / width == y,
{
    assert(0 <= y * width && (y + 1) * width <= height * width) by (nonlinear_arith)
        requires
            0 <= y < height,
            0 < width,
    ;
    assert((y + 1) * width == y * width + width) by (nonlinear_arith);
    assert(height * width == width * height) by (nonlinear_arith);
    vstd::arithmetic::div_mod::lemma_fundamental_div_mod_converse(y * width + x, width, y, x);
}

impl Screen {
    /// The depth of a cleared pixel: one, the far plane.
    pub open spec fn far() -> Scalar {
        Scalar { bits: ONE }
    }

    /// The buffers have a slot for every pixel and hold no depth that is not a
    /// number.
    pub closed spec fn wf(&self) -> bool {
        &&& 0 <= self.width
        &&& 0 <= self.height
        &&& self.depth_buffer@.len() == self.width * self.height
        &&& self.frame_buffer@.len() == self.width * self.height
        &&& forall|i: int| 0 <= i < self.depth_buffer@.len() ==> !(#[trigger] self.depth_buffer@[i]).is_nan()
    }

    /// A well-formed screen shows a well-formed frame.
    pub proof fn wf_view(&self)
        requires
            self.wf(),
        ensures
            self@.wf(),
    {
        assert forall|x: int, y: int| self@.contains(x, y) implies !(#[trigger] self@.pixels[(
            x,
            y,
        )]).depth.is_nan() by {
            place_in_buffer(x, y, self.width as int, self.height as int);
        }
    }

    /// A screen of `width` by `height` pixels, each black and at the far
    /// plane.
    pub fn create(width: i32, height: i32) -> (screen: Screen)
        requires
            0 <= width,
            0 <= height,
            width * height <= usize::MAX,
        ensures
            screen.wf(),
            screen@.width == width,
            screen@.height == height,
            screen@ == screen@.fill(Pixel { depth: Screen::far(), color: Rgb { r: 0, g: 0, b: 0 } }),
    {
        assert(0 <= width * height) by (nonlinear_arith)
            requires
                0 <= width,
                0 <= height,
        ;
        let count: usize = (width as usize) * (height as usize);
        let mut depth_buffer: Vec<Scalar> = Vec::new();
        let mut frame_buffer: Vec<Rgb> = Vec::new();
        let mut i: usize = 0;
        while i < count
            invariant
                i <= count,
                depth_buffer@.len() == i,
                frame_buffer@.len() == i,
                forall|k: int| 0 <= k < i ==> depth_buffer@[k] == Screen::far(),
                forall|k: int| 0 <= k < i ==> frame_buffer@[k] == (Rgb { r: 0, g: 0, b: 0 }),
            decreases count - i,
        {
            depth_buffer.push(Scalar::one());
            frame_buffer.push(Rgb { r: 0, g: 0, b: 0 });
            i = i + 1;
        }
        let screen = Screen { width, height, depth_buffer, frame_buffer };
        proof {
            let pixel = Pixel { depth: Screen::far(), color: Rgb { r: 0, g: 0, b: 0 } };
            assert forall|p: (int, int)| screen@.pixels.contains_key(p) implies screen@.pixels[p]
                == pixel by {
                place_in_buffer(p.0, p.1, width as int, height as int);
            }
            assert(screen@.pixels =~= screen@.fill(pixel).pixels);
        }
        screen
    }

    /// The number of columns.
    pub fn width(&self) -> (w: i32)
        ensures
            w == self@.width,
    {
        self.width
    }

    /// The number of rows.
    pub fn height(&self) -> (h: i32)
        ensures
            h == self@.height,
    {
        self.height
    }

    /// Whether `(x, y)` is a place of the frame.
    pub fn contains(&self, x: i32, y: i32) -> (r: bool)
        ensures
            r == self@.contains(x as int, y as int),
    {
        x >= 0 && x < self.width && y >= 0 && y < self.height
    }

    /// The position of `(x, y)` in the buffers.
    fn slot(&self, x: i32, y: i32) -> (i: usize)
        requires
            self.wf(),
            self@.contains(x as int, y as int),
        ensures
            i == y * self.width + x,
            i < self.depth_buffer@.len(),
            i < self.frame_buffer@.len(),
    {
        proof {
            place_in_buffer(x as int, y as int, self.width as int, self.height as int);
            assert(0 <= y * self.width) by (nonlinear_arith)
                requires
                    0 <= y,
                    0 <= self.width,
            ;
        }
        let count: usize = self.depth_buffer.len();
        assert(y * self.width + x < count);
        (y as usize) * (self.width as usize) + (x as usize)
    }

    /// The depth at `(x, y)`.
    pub fn depth(&self, x: i32, y: i32) -> (z: Scalar)
        requires
            self.wf(),
            self@.contains(x as int, y as int),
        ensures
            z == self@.pixels[(x as int, y as int)].depth,
    {
        let i = self.slot(x, y);
        self.depth_buffer[i]
    }

    /// The color at `(x, y)`.
    pub fn color(&self, x: i32, y: i32) -> (c: Rgb)
        requires
            self.wf(),
            self@.contains(x as int, y as int),
        ensures
            c == self@.pixels[(x as int, y as int)].color,
    {
        let i = self.slot(x, y);
        self.frame_buffer[i]
    }

    /// Resets every pixel to `color` at the far plane.
    pub(crate) fn clear(&mut self, color: Rgb)
        requires
            old(self).wf(),
        ensures
            final(self).wf(),
            final(self)@ == old(self)@.fill(Pixel { depth: Screen::far(), color }),
    {
        let count: usize = self.depth_buffer.len();
        let mut i: usize = 0;
        while i < count
            invariant
                i <= count,
                self.width == old(self).width,
                self.height == old(self).height,
                self.depth_buffer@.len() == count,
                self.frame_buffer@.len() == count,
                forall|k: int| 0 <= k < i ==> self.depth_buffer@[k] == Screen::far(),
                forall|k: int| 0 <= k < i ==> self.frame_buffer@[k] == color,
                forall|k: int| i <= k < count ==> self.depth_buffer@[k] == old(self).depth_buffer@[k],
                old(self).wf(),
            decreases count - i,
        {
            self.depth_buffer.set(i, Scalar::one());
            self.frame_buffer.set(i, color);
            i = i + 1;
        }
        proof {
            let pixel = Pixel { depth: Screen::far(), color };
            assert forall|p: (int, int)| self@.pixels.contains_key(p) implies self@.pixels[p]
                == pixel by {
                place_in_buffer(p.0, p.1, self.width as int, self.height as int);
            }
            assert(self@.pixels =~= old(self)@.fill(pixel).pixels);
        }
    }

    /// Sends a fragment to `(x, y)`. Off the frame nothing happens, nor does
    /// it for a degenerate fragment. On the frame the fragment passes the depth
    /// test if its depth is below the one stored; then depth and color are
    /// stored, else nothing changes.
    pub(crate) fn plot(&mut self, x: i32, y: i32, fragment: Fragment)
        requires
            old(self).wf(),
        ensures
            final(self).wf(),
            final(self)@ == old(self)@.plot(x as int, y as int, fragment),
    {
        if self.contains(x, y) {
            let i = self.slot(x, y);
            if !fragment.degenerate() && fragment.z.lt(self.depth_buffer[i]) {
                self.depth_buffer.set(i, fragment.z);
                self.frame_buffer.set(i, fragment.color);
                proof {
                    let w = self.width as int;
                    assert forall|p: (int, int)| self@.pixels.contains_key(p) implies self@.pixels[p]
                        == old(self)@.plot(x as int, y as int, fragment).pixels[p] by {
                        place_in_buffer(p.0, p.1, w, self.height as int);
                        place_in_buffer(x as int, y as int, w, self.height as int);
                    }
                    assert(self@.pixels =~= old(self)@.plot(x as int, y as int, fragment).pixels);
                }
            } else {
                assert(self@.pixels =~= old(self)@.plot(x as int, y as int, fragment).pixels);
            }
        }
    }
}

} // verus!
