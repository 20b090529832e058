//! Movement decisions of the camera, and the limits of its angles.
//!
//! The camera's frame is made of three unit vectors: forward, right and up. A
//! movement request names one of the first two and a sense along it.

use vstd::prelude::*;

verus! {

/// The pitch stays within this many degrees of the horizon, on either side.
pub const PITCH_LIMIT_DEGREES: u8 = 89;

/// The narrowest field of view, in degrees.
pub const ZOOM_MIN_DEGREES: u8 = 1;

/// The widest field of view, in degrees.
pub const ZOOM_MAX_DEGREES: u8 = 45;

/// A movement request.
#[derive(Clone, Copy, Debug, PartialEq, Eq, Structural)]
pub enum Direction {
    FWD,
    BWD,
    LEFT,
    RIGHT,
}

/// The basis vector of the camera frame along which a movement takes place.
#[derive(Clone, Copy, Debug, PartialEq, Eq, Structural)]
pub enum Axis {
    Forward,
    Right,
}

impl Direction {
    /// The basis vector that this movement follows.
    pub open spec fn spec_axis(self) -> Axis {
        match self {
            Direction::FWD | Direction::BWD => Axis::Forward,
            Direction::LEFT | Direction::RIGHT => Axis::Right,
        }
    }

    /// `1` where the movement goes along its basis vector, `-1` where it goes
    /// against it.
    pub open spec fn spec_sign(self) -> int {
        match self {
            Direction::FWD | Direction::RIGHT => 1,
            Direction::BWD | Direction::LEFT => -1,
        }
    }

    /// The basis vector that this movement follows.
    pub fn axis(self) -> (axis: Axis)
        ensures
            axis == self.spec_axis(),
    {
        match self {
            Direction::FWD | Direction::BWD => Axis::Forward,
            Direction::LEFT | Direction::RIGHT => Axis::Right,
        }
    }

    /// The sign with which the basis vector enters the displacement.
    pub fn sign(self) -> (sign: i8)
        ensures
            sign == self.spec_sign(),
    {
        match self {
            Direction::FWD | Direction::RIGHT => 1,
            Direction::BWD | Direction::LEFT => -1,
        }
    }
}

} // verus!
