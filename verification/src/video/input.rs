//! Keys to camera motions, and the pace of the frame loop.

use crate::algebra::scalar::Scalar;
use crate::algebra::scalar::SIGN;
use crate::video::screen::Screen;
use vstd::prelude::*;

verus! {

/// Frames per second that the loop aims at.
pub const FPS: u32 = 60;

/// The length of a frame in whole milliseconds.
pub const TARGET_TICK: u32 = 1000 / FPS;

/// The pattern of two: the camera moves two units a second.
pub const SPEED: u32 = 0x4000_0000;

/// The pattern of thirty: the camera turns thirty degrees a second.
pub const TURN: u32 = 0x41f0_0000;

/// The keys that steer the camera, each `true` while held down.
#[derive(Clone, Copy, PartialEq, Eq, Debug, Structural)]
pub struct Keys {
    pub w: bool,
    pub s: bool,
    pub a: bool,
    pub d: bool,
    pub e: bool,
    pub q: bool,
    pub left: bool,
    pub right: bool,
    pub up: bool,
    pub down: bool,
}

/// A motion of the camera, with its rate per second: along its own right,
/// up or forward axis in units, or about its pitch or yaw in degrees.
#[derive(Clone, Copy, PartialEq, Eq, Debug, Structural)]
pub enum Motion {
    Strafe(Scalar),
    Rise(Scalar),
    Advance(Scalar),
    Pitch(Scalar),
    Yaw(Scalar),
}

/// What the window reports besides the keys held down.
#[derive(Clone, Copy, PartialEq, Eq, Debug, Structural)]
pub enum Signal {
    /// The escape key went down.
    Escape,
    /// The window is to close.
    Quit,
    /// Anything else.
    Other,
}

/// The motion of a key if it is held, nothing if not.
pub open spec fn when(held: bool, motion: Motion) -> Seq<Motion> {
    if held {
        seq![motion]
    } else {
        Seq::empty()
    }
}

/// The motions for the keys held down, in the order in which they apply:
/// `W` and `S` forth and back, `A` and `D` left and right, `E` and `Q` up and
/// down, then the arrows: left and right for the yaw, up and down for the
/// pitch.
pub open spec fn motions(keys: Keys) -> Seq<Motion> {
    let forth = Scalar { bits: SPEED };
    let back = Scalar { bits: (SPEED + SIGN) as u32 };
    let clockwise = Scalar { bits: TURN };
    let counter = Scalar { bits: (TURN + SIGN) as u32 };
    when(keys.w, Motion::Advance(forth)) + when(keys.s, Motion::Advance(back)) + when(
        keys.a,
        Motion::Strafe(back),
    ) + when(keys.d, Motion::Strafe(forth)) + when(keys.e, Motion::Rise(forth)) + when(
        keys.q,
        Motion::Rise(back),
    ) + when(keys.left, Motion::Yaw(counter)) + when(keys.right, Motion::Yaw(clockwise)) + when(
        keys.up,
        Motion::Pitch(clockwise),
    ) + when(keys.down, Motion::Pitch(counter))
}

/// Appends the motion of a key to `list` if the key is held.
fn bind(list: &mut Vec<Motion>, held: bool, motion: Motion)
    ensures
        final(list)@ == old(list)@ + when(held, motion),
{
    if held {
        list.push(motion);
        assert(list@ =~= old(list)@ + when(held, motion));
    } else {
        assert(list@ =~= old(list)@ + when(held, motion));
    }
}

impl Screen {
    /// The motions that the keys held down ask of the camera during one frame,
    /// in the order in which they are to be applied. Each rate is per second: the
    /// host multiplies it by the time that the frame took.
    pub fn input(keys: &Keys) -> (list: Vec<Motion>)
        ensures
            list@ == motions(*keys),
    {
        let forth = Scalar::from_bits(SPEED);
        let back = forth.negated();
        let clockwise = Scalar::from_bits(TURN);
        let counter = clockwise.negated();
        let mut list: Vec<Motion> = Vec::new();
        assert(list@ =~= Seq::empty());
        bind(&mut list, keys.w, Motion::Advance(forth));
        bind(&mut list, keys.s, Motion::Advance(back));
        bind(&mut list, keys.a, Motion::Strafe(back));
        bind(&mut list, keys.d, Motion::Strafe(forth));
        bind(&mut list, keys.e, Motion::Rise(forth));
        bind(&mut list, keys.q, Motion::Rise(back));
        bind(&mut list, keys.left, Motion::Yaw(counter));
        bind(&mut list, keys.right, Motion::Yaw(clockwise));
        bind(&mut list, keys.up, Motion::Pitch(clockwise));
        bind(&mut list, keys.down, Motion::Pitch(counter));
        list
    }

    /// Whether a signal ends the program: the escape key and the closing of the
    /// window do.
    pub fn quits(signal: Signal) -> (end: bool)
        ensures
            end == (signal == Signal::Escape || signal == Signal::Quit),
    {
        match signal {
            Signal::Escape => true,
            Signal::Quit => true,
            Signal::Other => false,
        }
    }

    /// How long to sleep, in milliseconds, after a frame that took `elapsed`
    /// milliseconds: what is missing to the length of a frame, and nothing for a
    /// frame that took that long or longer.
    pub fn tick(elapsed: u128) -> (pause: Option<u64>)
        ensures
            elapsed < TARGET_TICK ==> pause == Some((TARGET_TICK - elapsed) as u64),
            elapsed >= TARGET_TICK ==> pause is None,
    {
        if elapsed < TARGET_TICK as u128 {
            Some((TARGET_TICK - elapsed as u32) as u64)
        } else {
            None
        }
    }
}

} // verus!
