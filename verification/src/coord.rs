//! Integer coordinates and the six axis directions.

use vstd::prelude::*;

verus! {

/// A position or an extent on the integer grid.
#[derive(Clone, Copy, Debug, PartialEq, Eq, Structural)]
pub struct Coordinate {
    pub x: i32,
    pub y: i32,
    pub z: i32,
}

/// One of the six axis directions. North is towards negative `z`, east
/// towards positive `x`.
#[derive(Clone, Copy, Debug, PartialEq, Eq, Structural)]
pub enum Direction {
    Down,
    Up,
    North,
    South,
    West,
    East,
}

impl Coordinate {
    /// Whether `self + (dx, dy, dz)` is representable.
    pub open spec fn offset_fits(self, dx: int, dy: int, dz: int) -> bool {
        &&& i32::MIN <= self.x + dx <= i32::MAX
        &&& i32::MIN <= self.y + dy <= i32::MAX
        &&& i32::MIN <= self.z + dz <= i32::MAX
    }

    /// The coordinate `(x, y, z)`.
    pub fn new(x: i32, y: i32, z: i32) -> (c: Coordinate)
        ensures
            c.x == x,
            c.y == y,
            c.z == z,
    {
        Coordinate { x, y, z }
    }

    /// The coordinate moved by `(dx, dy, dz)`.
    pub fn offset(self, dx: i32, dy: i32, dz: i32) -> (c: Coordinate)
        requires
            self.offset_fits(dx as int, dy as int, dz as int),
        ensures
            c.x == self.x + dx,
            c.y == self.y + dy,
            c.z == self.z + dz,
    {
        Coordinate { x: self.x + dx, y: self.y + dy, z: self.z + dz }
    }
}

impl Direction {
    /// The unit step of a direction, as `(dx, dy, dz)`.
    pub open spec fn step(self) -> (int, int, int) {
        match self {
            Direction::Down => (0, -1, 0),
            Direction::Up => (0, 1, 0),
            Direction::North => (0, 0, -1),
            Direction::South => (0, 0, 1),
            Direction::West => (-1, 0, 0),
            Direction::East => (1, 0, 0),
        }
    }

    /// The direction an actor walks when backing away from `self`: the
    /// horizontal opposite, and north where `self` has none or is south.
    pub open spec fn spec_behind(self) -> Direction {
        match self {
            Direction::East => Direction::West,
            Direction::West => Direction::East,
            Direction::North => Direction::South,
            _ => Direction::North,
        }
    }

    #[verifier::when_used_as_spec(spec_behind)]
    pub fn behind(self) -> (d: Direction)
        ensures
            d == self.spec_behind(),
    {
        match self {
            Direction::East => Direction::West,
            Direction::West => Direction::East,
            Direction::North => Direction::South,
            _ => Direction::North,
        }
    }
}

/// The facing of a yaw angle given in whole degrees: the angle is taken
/// modulo 360, then `[0, 45)` and `[315, 360)` face south, `[45, 135)` west,
/// `[135, 225)` north and `[225, 315)` east.
pub open spec fn facing_of(degrees: int) -> Direction {
    let turn = degrees % 360;
    if turn < 45 || turn >= 315 {
        Direction::South
    } else if turn < 135 {
        Direction::West
    } else if turn < 225 {
        Direction::North
    } else {
        Direction::East
    }
}

/// Resolves a yaw angle, floored to whole degrees, to the horizontal
/// direction the actor faces.
pub fn look_to_dir(degrees: i32) -> (d: Direction)
    ensures
        d == facing_of(degrees as int),
        d != Direction::Up && d != Direction::Down,
{
    let rem: i32 = degrees % 360;
    let turn: i32 = if rem < 0 { rem + 360 } else { rem };
    if turn < 45 || turn >= 315 {
        Direction::South
    } else if turn < 135 {
        Direction::West
    } else if turn < 225 {
        Direction::North
    } else {
        Direction::East
    }
}

/// Whether `pos` has a neighbour along `dir`, which it has unless it lies
/// on the rim of the grid.
pub fn can_step(pos: Coordinate, dir: Direction) -> (fits: bool)
    ensures
        fits == pos.offset_fits(dir.step().0, dir.step().1, dir.step().2),
{
    match dir {
        Direction::Down => pos.y > i32::MIN,
        Direction::Up => pos.y < i32::MAX,
        Direction::North => pos.z > i32::MIN,
        Direction::South => pos.z < i32::MAX,
        Direction::West => pos.x > i32::MIN,
        Direction::East => pos.x < i32::MAX,
    }
}

/// The neighbour of `pos` one unit along `dir`.
pub fn get_in_direction(pos: Coordinate, dir: Direction) -> (c: Coordinate)
    requires
        pos.offset_fits(dir.step().0, dir.step().1, dir.step().2),
    ensures
        c.x == pos.x + dir.step().0,
        c.y == pos.y + dir.step().1,
        c.z == pos.z + dir.step().2,
{
    match dir {
        Direction::Down => pos.offset(0, -1, 0),
        Direction::Up => pos.offset(0, 1, 0),
        Direction::North => pos.offset(0, 0, -1),
        Direction::South => pos.offset(0, 0, 1),
        Direction::West => pos.offset(-1, 0, 0),
        Direction::East => pos.offset(1, 0, 0),
    }
}

} // verus!
