//! What an actor's clicks mean for the world: whether a dig breaks the
//! block, and how a placed block is turned.

use crate::coord::{get_in_direction, Coordinate, Direction};
use vstd::prelude::*;

verus! {

/// The way an actor plays.
#[derive(Clone, Copy, Debug, PartialEq, Eq, Structural)]
pub enum GameMode {
    Survival,
    Creative,
    Adventure,
    Spectator,
}

/// The stage of a dig that an event reports.
#[derive(Clone, Copy, Debug, PartialEq, Eq, Structural)]
pub enum DiggingState {
    Start,
    Abort,
    Stop,
}

/// The axis along which a placed block lies.
#[derive(Clone, Copy, Debug, PartialEq, Eq, Structural)]
pub enum Axis {
    X,
    Y,
    Z,
}

/// The half of its voxel that a placed block fills.
#[derive(Clone, Copy, Debug, PartialEq, Eq, Structural)]
pub enum Half {
    Bottom,
    Top,
}

/// Where a placed block goes and how it is turned.
#[derive(Clone, Copy, Debug, PartialEq, Eq, Structural)]
pub struct Placement {
    pub position: Coordinate,
    pub axis: Axis,
    pub facing: Direction,
    pub half: Half,
}

/// Whether a dig event breaks the block: in creative play the block gives
/// way when the dig starts, in survival play when it ends.
pub open spec fn dig_breaks(mode: GameMode, state: DiggingState) -> bool {
    (mode == GameMode::Creative && state == DiggingState::Start) || (mode == GameMode::Survival
        && state == DiggingState::Stop)
}

/// The axis that runs through `face`.
pub open spec fn axis_through(face: Direction) -> Axis {
    match face {
        Direction::Down | Direction::Up => Axis::Y,
        Direction::North | Direction::South => Axis::Z,
        Direction::West | Direction::East => Axis::X,
    }
}

/// The facing of a block placed by an actor who looks towards `look`: the
/// same direction where it is south, west or east, and north otherwise.
pub open spec fn facing_for(look: Direction) -> Direction {
    match look {
        Direction::South => Direction::South,
        Direction::West => Direction::West,
        Direction::East => Direction::East,
        _ => Direction::North,
    }
}

/// The half of a block placed against `face`: on top of a block it fills
/// the bottom, under a block the top, and against a side the half in which
/// the cursor was.
pub open spec fn half_for(face: Direction, cursor_low: bool) -> Half {
    if face == Direction::Up {
        Half::Bottom
    } else if face == Direction::Down {
        Half::Top
    } else if cursor_low {
        Half::Bottom
    } else {
        Half::Top
    }
}

/// Whether a dig event breaks the block it is aimed at.
pub fn breaks_block(mode: GameMode, state: DiggingState) -> (breaks: bool)
    ensures
        breaks == dig_breaks(mode, state),
{
    match (mode, state) {
        (GameMode::Creative, DiggingState::Start) => true,
        (GameMode::Survival, DiggingState::Stop) => true,
        _ => false,
    }
}

/// Where a block goes, and how it is turned, that is placed against the
/// face `face` of the block at `clicked` by an actor who looks towards
/// `look`, with the cursor in the lower half of the face or not.
pub fn placement(clicked: Coordinate, face: Direction, look: Direction, cursor_low: bool) -> (p:
    Placement)
    requires
        clicked.offset_fits(face.step().0, face.step().1, face.step().2),
    ensures
        p.position.x == clicked.x + face.step().0,
        p.position.y == clicked.y + face.step().1,
        p.position.z == clicked.z + face.step().2,
        p.axis == axis_through(face),
        p.facing == facing_for(look),
        p.half == half_for(face, cursor_low),
{
    let half = match face {
        Direction::Up => Half::Bottom,
        Direction::Down => Half::Top,
        _ => if cursor_low {
            Half::Bottom
        } else {
            Half::Top
        },
    };
    let axis = match face {
        Direction::Down | Direction::Up => Axis::Y,
        Direction::North | Direction::South => Axis::Z,
        Direction::West | Direction::East => Axis::X,
    };
    let facing = match look {
        Direction::South => Direction::South,
        Direction::West => Direction::West,
        Direction::East => Direction::East,
        _ => Direction::North,
    };
    Placement { position: get_in_direction(clicked, face), axis, facing, half }
}

} // verus!
