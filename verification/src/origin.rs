//! The reference point of the edited region and the commands that move it.

use crate::coord::{can_step, get_in_direction, Coordinate, Direction};
use vstd::prelude::*;

verus! {

/// The reference point. It is free to lie anywhere, inside the edited
/// region or outside it.
#[derive(Clone, Copy, Debug, PartialEq, Eq, Structural)]
pub struct Origin {
    pub position: Coordinate,
}

/// A move of the reference point. `Forward` and `Back` go by the facing of
/// the actor who gives the command, `Here` by the voxel the actor stands in.
#[derive(Clone, Copy, Debug, PartialEq, Eq, Structural)]
pub enum OriginCommand {
    Up,
    Down,
    North,
    South,
    East,
    West,
    Forward,
    Back,
    Here,
}

impl OriginCommand {
    /// Where the command takes a reference point at `position`, for an actor
    /// who faces `facing` and stands in the voxel `feet`. Every command but
    /// `Here` moves by one unit: up is `+y`, north `-z`, east `+x`.
    pub open spec fn target(self, position: Coordinate, facing: Direction, feet: Coordinate) -> (
        int,
        int,
        int,
    ) {
        let step = match self {
            OriginCommand::Up => Direction::Up.step(),
            OriginCommand::Down => Direction::Down.step(),
            OriginCommand::North => Direction::North.step(),
            OriginCommand::South => Direction::South.step(),
            OriginCommand::East => Direction::East.step(),
            OriginCommand::West => Direction::West.step(),
            OriginCommand::Forward => facing.step(),
            OriginCommand::Back => facing.spec_behind().step(),
            OriginCommand::Here => (
                feet.x - position.x,
                feet.y - position.y,
                feet.z - position.z,
            ),
        };
        (position.x + step.0, position.y + step.1, position.z + step.2)
    }

    /// Whether `target` is representable.
    pub open spec fn target_fits(self, position: Coordinate, facing: Direction, feet: Coordinate) -> bool {
        let t = self.target(position, facing, feet);
        &&& i32::MIN <= t.0 <= i32::MAX
        &&& i32::MIN <= t.1 <= i32::MAX
        &&& i32::MIN <= t.2 <= i32::MAX
    }
}

impl Origin {
    /// Whether `apply` may be called with these arguments.
    pub fn can_apply(&self, command: OriginCommand, facing: Direction, feet: Coordinate) -> (fits:
        bool)
        ensures
            fits == command.target_fits(self.position, facing, feet),
    {
        let dir = match command {
            OriginCommand::Up => Direction::Up,
            OriginCommand::Down => Direction::Down,
            OriginCommand::North => Direction::North,
            OriginCommand::South => Direction::South,
            OriginCommand::East => Direction::East,
            OriginCommand::West => Direction::West,
            OriginCommand::Forward => facing,
            OriginCommand::Back => facing.behind(),
            OriginCommand::Here => {
                return true;
            },
        };
        can_step(self.position, dir)
    }

    /// Moves the reference point as `command` says.
    pub fn apply(&mut self, command: OriginCommand, facing: Direction, feet: Coordinate)
        requires
            command.target_fits(old(self).position, facing, feet),
        ensures
            final(self).position.x == command.target(old(self).position, facing, feet).0,
            final(self).position.y == command.target(old(self).position, facing, feet).1,
            final(self).position.z == command.target(old(self).position, facing, feet).2,
    {
        self.position = match command {
            OriginCommand::Up => self.position.offset(0, 1, 0),
            OriginCommand::Down => self.position.offset(0, -1, 0),
            OriginCommand::North => self.position.offset(0, 0, -1),
            OriginCommand::South => self.position.offset(0, 0, 1),
            OriginCommand::East => self.position.offset(1, 0, 0),
            OriginCommand::West => self.position.offset(-1, 0, 0),
            OriginCommand::Forward => get_in_direction(self.position, facing),
            OriginCommand::Back => get_in_direction(self.position, facing.behind()),
            OriginCommand::Here => feet,
        };
    }
}

} // verus!
