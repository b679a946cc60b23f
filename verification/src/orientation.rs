//! The facing of an agent, read off the direction in which it moves.

use vstd::prelude::*;
use crate::vector::{Offset, SpecVector};

verus! {

/// The rotation that turns the upward axis `+Y` into the direction of travel.
///
/// The size of the turn is the angle between `+Y` and `along`, from zero to a
/// half turn; which way it goes is `clockwise`. An angle in radians, counted
/// counterclockwise, is that size with a minus sign where `clockwise` holds.
#[derive(Clone, Copy, Debug, PartialEq, Eq, Structural)]
pub enum Orientation {
    /// Nothing moves: the agent faces `+Y`, at angle zero.
    Rest,
    /// The agent faces along a vector other than zero.
    Turned { clockwise: bool, along: Offset },
}

/// The facing that belongs to a direction of travel. A motion to the left
/// turns counterclockwise, every other motion clockwise.
pub open spec fn facing(heading: SpecVector) -> Orientation {
    if heading.is_zero() {
        Orientation::Rest
    } else {
        Orientation::Turned {
            clockwise: heading.x >= 0,
            along: Offset { x: heading.x as i64, y: heading.y as i64 },
        }
    }
}

/// Reads the facing off a direction of travel.
pub fn orientation_of(heading: &Offset) -> (r: Orientation)
    ensures
        r == facing(heading@),
        heading@.is_zero() <==> r == Orientation::Rest,
{
    if heading.is_zero() {
        Orientation::Rest
    } else {
        Orientation::Turned { clockwise: heading.x >= 0, along: *heading }
    }
}

} // verus!
