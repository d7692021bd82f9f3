//! Where doorways stand on the walls of a room, and where a traveller
//! reappears after walking through one.
//!
//! Every room is a square floor centred on the origin. Lengths are whole
//! thousandths of a world unit; turns are counted in quarter turns.

use crate::types::{Direction, Vec2i};
use vstd::prelude::*;

verus! {

/// The distance the avatar covers along one axis in one tick.
pub const SPEED: i32 = 500;

/// The length of a wall.
pub const ROOMSIZE: u32 = 60_000;

/// The factor by which the door model is enlarged.
pub const SCALE: u32 = 10;

/// How far inside the arrival doorway a traveller reappears.
pub const BUFFER: i32 = 5_000;

/// Half the width of the unscaled door model, a third of the doorway's reach
/// to either side.
pub const DOOR_WIDTH: i32 = 177;

/// The depth of the unscaled door model.
pub const DOOR_DEPTH: i32 = 70;

/// A rotation given by three Euler angles, each a number of quarter turns.
#[derive(Clone, Copy, PartialEq, Eq, Debug, Structural)]
pub struct Rotation {
    pub roll: i8,
    pub pitch: i8,
    pub yaw: i8,
}

/// Where a model stands on the floor, how it is turned and how large it is.
#[derive(Clone, Copy, PartialEq, Eq, Debug, Structural)]
pub struct Pose {
    pub translation: Vec2i,
    pub rotation: Rotation,
    pub scale: u32,
}

/// The wall that faces `dir`.
pub open spec fn opposite(dir: Direction) -> Direction {
    match dir {
        Direction::North => Direction::South,
        Direction::South => Direction::North,
        Direction::East => Direction::West,
        Direction::West => Direction::East,
    }
}

/// The point `reach` away from the centre of the floor, straight towards the
/// `dir` wall.
pub open spec fn toward(dir: Direction, reach: int) -> Vec2i {
    match dir {
        Direction::North => Vec2i { x: 0, y: reach as i32 },
        Direction::East => Vec2i { x: reach as i32, y: 0 },
        Direction::South => Vec2i { x: 0, y: (-reach) as i32 },
        Direction::West => Vec2i { x: (-reach) as i32, y: 0 },
    }
}

/// How the door model is turned so that, on the `dir` wall, it faces into the
/// room.
pub open spec fn door_rotation(dir: Direction) -> Rotation {
    match dir {
        Direction::North => Rotation { roll: 0, pitch: -1i8, yaw: 0 },
        Direction::East => Rotation { roll: 1, pitch: -1i8, yaw: 0 },
        Direction::South => Rotation { roll: 0, pitch: -1i8, yaw: 0 },
        Direction::West => Rotation { roll: -1i8, pitch: -1i8, yaw: 0 },
    }
}

/// The doorway on the `dir` wall of a room whose walls are `room_size` long:
/// it stands at the middle of that wall, half a wall's length from the centre.
pub open spec fn door_pose(dir: Direction, room_size: u32, scale: u32) -> Pose {
    Pose {
        translation: toward(dir, room_size as int / 2),
        rotation: door_rotation(dir),
        scale,
    }
}

/// Where a traveller who left through a door on the `dir` wall reappears: at
/// the doorway on the facing wall of the next room, `BUFFER` further inside.
pub open spec fn spawn_point(dir: Direction) -> Vec2i {
    toward(opposite(dir), ROOMSIZE as int / 2 - BUFFER)
}

/// The direction with the given number, counting clockwise from north. Every
/// number past the last stands for west.
pub open spec fn direction_number(num: u32) -> Direction {
    if num == 0 {
        Direction::North
    } else if num == 1 {
        Direction::East
    } else if num == 2 {
        Direction::South
    } else {
        Direction::West
    }
}

/// Facing about twice is facing the same way, and no wall faces itself.
pub proof fn lemma_opposite(dir: Direction)
    ensures
        opposite(opposite(dir)) == dir,
        opposite(dir) != dir,
{
}

/// The placement of the doorway on the `dir` wall.
pub fn get_trf(dir: Direction, room_size: u32, scale: u32) -> (pose: Pose)
    ensures
        pose == door_pose(dir, room_size, scale),
{
    let half: i32 = (room_size / 2) as i32;
    match dir {
        Direction::North => Pose {
            translation: Vec2i { x: 0, y: half },
            rotation: Rotation { roll: 0, pitch: -1, yaw: 0 },
            scale,
        },
        Direction::East => Pose {
            translation: Vec2i { x: half, y: 0 },
            rotation: Rotation { roll: 1, pitch: -1, yaw: 0 },
            scale,
        },
        Direction::South => Pose {
            translation: Vec2i { x: 0, y: -half },
            rotation: Rotation { roll: 0, pitch: -1, yaw: 0 },
            scale,
        },
        Direction::West => Pose {
            translation: Vec2i { x: -half, y: 0 },
            rotation: Rotation { roll: -1, pitch: -1, yaw: 0 },
            scale,
        },
    }
}

/// The direction that a drawn number stands for.
pub fn get_dir(num: u32) -> (dir: Direction)
    ensures
        dir == direction_number(num),
{
    match num {
        0 => Direction::North,
        1 => Direction::East,
        2 => Direction::South,
        3 => Direction::West,
        _other => Direction::West,
    }
}

/// The wall of the next room at which one arrives after leaving through the
/// `dir` wall of this one.
pub fn get_spawn_dir(dir: Direction) -> (spawn_dir: Direction)
    ensures
        spawn_dir == opposite(dir),
{
    match dir {
        Direction::North => Direction::South,
        Direction::South => Direction::North,
        Direction::East => Direction::West,
        Direction::West => Direction::East,
    }
}

/// The point at which a traveller who left through the `dir` wall reappears.
pub fn get_spawn_pos(dir: Direction) -> (spawn_loca: Vec2i)
    ensures
        spawn_loca == spawn_point(dir),
{
    let spawn_dir = get_spawn_dir(dir);
    let mut spawn_loca = get_trf(spawn_dir, ROOMSIZE, SCALE).translation;
    // step back from the doorway, or the arrival would set it off at once
    if spawn_dir == Direction::North {
        spawn_loca.y = spawn_loca.y - BUFFER;
    } else if spawn_dir == Direction::South {
        spawn_loca.y = spawn_loca.y + BUFFER;
    } else if spawn_dir == Direction::East {
        spawn_loca.x = spawn_loca.x - BUFFER;
    } else {
        spawn_loca.x = spawn_loca.x + BUFFER;
    }
    spawn_loca
}

} // verus!
