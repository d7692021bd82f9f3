//! The plain data of the dungeon: points on the floor, directions, doors and rooms.

use vstd::prelude::*;
use vstd::std_specs::ops::AddSpecImpl;

verus! {

/// A point, or a displacement, on the floor of a room.
///
/// Coordinates are whole thousandths of a world unit. `x` grows towards the
/// east wall, `y` towards the north wall (the world's depth axis).
#[derive(Clone, Copy, PartialEq, Eq, Debug, Structural)]
pub struct Vec2i {
    pub x: i32,
    pub y: i32,
}

impl AddSpecImpl<Vec2i> for Vec2i {
    open spec fn obeys_add_spec() -> bool {
        true
    }

    /// The sum of two vectors exists when neither coordinate leaves `i32`.
    open spec fn add_req(self, other: Vec2i) -> bool {
        &&& i32::MIN <= self.x + other.x <= i32::MAX
        &&& i32::MIN <= self.y + other.y <= i32::MAX
    }

    open spec fn add_spec(self, other: Vec2i) -> Vec2i {
        Vec2i { x: (self.x + other.x) as i32, y: (self.y + other.y) as i32 }
    }
}

impl std::ops::Add<Vec2i> for Vec2i {
    type Output = Self;

    /// Adds coordinate by coordinate.
    fn add(self, other: Vec2i) -> Vec2i {
        Vec2i { x: self.x + other.x, y: self.y + other.y }
    }
}

/// One of the four walls of a room, or one of the four ways to face.
#[derive(Clone, Copy, PartialEq, Eq, Debug, Structural)]
pub enum Direction {
    North,
    East,
    South,
    West,
}

/// A one-way passage: mounted on the `direction` wall of the room that lists
/// it, leading to room `target`. `spawn_pos` is the wall of the target room at
/// which the traveller reappears.
#[derive(Clone, Copy, PartialEq, Eq, Debug, Structural)]
pub struct Door {
    pub direction: Direction,
    pub target: usize,
    pub spawn_pos: Direction,
}

impl Door {
    pub fn new(direction: Direction, target: usize, spawn_pos: Direction) -> (door: Self)
        ensures
            door == (Door { direction, target, spawn_pos }),
    {
        Door { direction, target, spawn_pos }
    }
}

/// A room knows its exits only as positions in the dungeon's list of doors,
/// in the order in which the doors were made.
#[derive(Clone)]
pub struct Room {
    pub doors: Vec<usize>,
}

impl Room {
    pub fn new(doors: Vec<usize>) -> (room: Self)
        ensures
            room.doors == doors,
    {
        Room { doors }
    }
}

} // verus!
