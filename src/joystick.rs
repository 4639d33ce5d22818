//! Turning a joystick axis reading into a paddle direction.

use crate::player::PlayerDirection;
use vstd::prelude::*;

verus! {

/// Readings above this push the paddle left.
pub const LEFT_THRESHOLD: u16 = 3000;

/// Readings below this push the paddle right.
pub const RIGHT_THRESHOLD: u16 = 1500;

pub open spec fn direction_of(value: u16) -> PlayerDirection {
    if value > LEFT_THRESHOLD {
        PlayerDirection::Left
    } else if value < RIGHT_THRESHOLD {
        PlayerDirection::Right
    } else {
        PlayerDirection::Idle
    }
}

/// The direction an axis reading asks for: left above `LEFT_THRESHOLD`,
/// right below `RIGHT_THRESHOLD`, and none in between.
pub fn direction_from_reading(value: u16) -> (d: PlayerDirection)
    ensures
        d == direction_of(value),
{
    if value > LEFT_THRESHOLD {
        PlayerDirection::Left
    } else if value < RIGHT_THRESHOLD {
        PlayerDirection::Right
    } else {
        PlayerDirection::Idle
    }
}

} // verus!
