//! The things that stand and move on the floor of a room: props, the
//! avatar's body, and the avatar itself.

use crate::geometry::{
    get_trf, door_pose, Rotation, BUFFER, DOOR_DEPTH, DOOR_WIDTH, ROOMSIZE, SCALE, SPEED,
};
use crate::types::{Direction, Door, Vec2i};
use vstd::prelude::*;
use vstd::std_specs::ops::AddSpec;

verus! {

/// A prop: a model that stands at a place on the floor.
#[derive(Clone, Copy, PartialEq, Eq, Debug, Structural)]
pub struct Textured {
    pub translation: Vec2i,
}

impl Textured {
    /// Shifts the prop by `vec`.
    pub fn move_by(&mut self, vec: Vec2i)
        requires
            old(self).translation.add_req(vec),
        ensures
            final(self).translation == old(self).translation.add_spec(vec),
    {
        self.translation = self.translation + vec;
    }
}

/// The avatar's body: the point of the floor on which it stands. Doorways
/// and props are tested against this point.
#[derive(Clone, Copy, PartialEq, Eq, Debug, Structural)]
pub struct Sprite {
    pub translation: Vec2i,
}

/// The point `pos` lies in the box around `centre` that reaches
/// `edge_length_x` to either side along x and `edge_length_z` to either side
/// along the depth axis.
pub open spec fn in_box(pos: Vec2i, centre: Vec2i, edge_length_x: i32, edge_length_z: i32) -> bool {
    &&& centre.x - edge_length_x <= pos.x <= centre.x + edge_length_x
    &&& centre.y - edge_length_z <= pos.y <= centre.y + edge_length_z
}

/// How far before the middle of a doorway it begins to take the traveller in.
pub open spec fn doorway_depth() -> int {
    DOOR_DEPTH * SCALE + BUFFER / 2
}

/// How far to either side of its middle a doorway reaches.
pub open spec fn doorway_width() -> int {
    DOOR_WIDTH * SCALE * 3
}

/// The point `pos` lies in the doorway on the `dir` wall: no further than
/// `doorway_depth()` before the wall's middle, or beyond it, and no further
/// than `doorway_width()` to either side.
pub open spec fn in_doorway(pos: Vec2i, dir: Direction) -> bool {
    let door = door_pose(dir, ROOMSIZE, SCALE).translation;
    match dir {
        Direction::North => {
            &&& pos.y >= door.y - doorway_depth()
            &&& door.x - doorway_width() <= pos.x <= door.x + doorway_width()
        },
        Direction::South => {
            &&& pos.y <= door.y + doorway_depth()
            &&& door.x - doorway_width() <= pos.x <= door.x + doorway_width()
        },
        Direction::East => {
            &&& pos.x >= door.x - doorway_depth()
            &&& door.y - doorway_width() <= pos.y <= door.y + doorway_width()
        },
        Direction::West => {
            &&& pos.x <= door.x + doorway_depth()
            &&& door.y - doorway_width() <= pos.y <= door.y + doorway_width()
        },
    }
}

impl Sprite {
    /// Shifts the body by `vec`, walls or no walls.
    pub fn move_by(&mut self, vec: Vec2i)
        requires
            old(self).translation.add_req(vec),
        ensures
            final(self).translation == old(self).translation.add_spec(vec),
    {
        self.translation = self.translation + vec;
    }

    /// Whether the body touches `object`, whose box reaches
    /// `obj_edge_length_x` and `obj_edge_length_z` from its middle. The
    /// answer is the same whichever way the avatar faces.
    pub fn check_item_collisions(
        &self,
        direction: Direction,
        obj_edge_length_x: i32,
        obj_edge_length_z: i32,
        object: &Textured,
    ) -> (hit: bool)
        ensures
            hit == in_box(self.translation, object.translation, obj_edge_length_x, obj_edge_length_z),
    {
        let x: i64 = self.translation.x as i64;
        let z: i64 = self.translation.y as i64;
        let object_x: i64 = object.translation.x as i64;
        let object_z: i64 = object.translation.y as i64;
        let reach_x: i64 = obj_edge_length_x as i64;
        let reach_z: i64 = obj_edge_length_z as i64;
        if direction == Direction::North || direction == Direction::South {
            x <= object_x + reach_x && x >= object_x - reach_x && z <= object_z + reach_z && z
                >= object_z - reach_z
        } else {
            z <= object_z + reach_z && z >= object_z - reach_z && x >= object_x - reach_x && x
                <= object_x + reach_x
        }
    }

    /// Whether the body stands in the doorway of `door`.
    pub fn check_collisions(&self, door: Door) -> (hit: bool)
        ensures
            hit == in_doorway(self.translation, door.direction),
    {
        let door_worldspace = get_trf(door.direction, ROOMSIZE, SCALE).translation;
        let x: i64 = self.translation.x as i64;
        let z: i64 = self.translation.y as i64;
        let door_x: i64 = door_worldspace.x as i64;
        let door_z: i64 = door_worldspace.y as i64;
        let half_buffer: i64 = (BUFFER / 2) as i64;
        let depth: i64 = DOOR_DEPTH as i64 * SCALE as i64;
        let width: i64 = DOOR_WIDTH as i64 * SCALE as i64 * 3;
        if door.direction == Direction::North {
            z + half_buffer >= door_z - depth && x <= door_x + width && x >= door_x - width
        } else if door.direction == Direction::South {
            z - half_buffer <= door_z + depth && x <= door_x + width && x >= door_x - width
        } else if door.direction == Direction::East {
            x + half_buffer >= door_x - depth && z <= door_z + width && z >= door_z - width
        } else {
            x - half_buffer <= door_x + depth && z <= door_z + width && z >= door_z - width
        }
    }
}

/// The avatar: its body, the rotation of its model, and how many ticks its
/// walking animation has run.
#[derive(Clone, Copy, PartialEq, Eq, Debug, Structural)]
pub struct GameObject {
    pub sprite: Sprite,
    pub rotation: Rotation,
    pub animation_ticks: u64,
}

/// The rotation that the avatar's model is given when it turns to face `dir`.
pub open spec fn turned(dir: Direction) -> Rotation {
    match dir {
        Direction::South => Rotation { roll: 0, pitch: 0, yaw: 0 },
        Direction::West => Rotation { roll: 0, pitch: 0, yaw: 1 },
        Direction::North => Rotation { roll: 0, pitch: 0, yaw: 2 },
        Direction::East => Rotation { roll: 0, pitch: 0, yaw: -1i8 },
    }
}

/// The way a model with this rotation faces. A rotation that is none of the
/// four that `turned` gives counts as facing east.
pub open spec fn facing(rotation: Rotation) -> Direction {
    if rotation == turned(Direction::South) {
        Direction::South
    } else if rotation == turned(Direction::West) {
        Direction::West
    } else if rotation == turned(Direction::North) {
        Direction::North
    } else {
        Direction::East
    }
}

/// The step that the avatar takes in one tick when it faces `dir`. Facing
/// north it walks down the depth axis, facing east up the x axis.
pub open spec fn stride(dir: Direction) -> Vec2i {
    match dir {
        Direction::North => Vec2i { x: 0, y: (-SPEED) as i32 },
        Direction::South => Vec2i { x: 0, y: SPEED },
        Direction::West => Vec2i { x: (-SPEED) as i32, y: 0 },
        Direction::East => Vec2i { x: SPEED, y: 0 },
    }
}

/// Half a `BUFFER` against the way the avatar faces.
pub open spec fn recoil(dir: Direction) -> Vec2i {
    match dir {
        Direction::North => Vec2i { x: 0, y: (BUFFER / 2) as i32 },
        Direction::South => Vec2i { x: 0, y: (-(BUFFER / 2)) as i32 },
        Direction::East => Vec2i { x: (-(BUFFER / 2)) as i32, y: 0 },
        Direction::West => Vec2i { x: (BUFFER / 2) as i32, y: 0 },
    }
}

/// The coordinate `at` lies strictly between the walls.
pub open spec fn between_walls(at: int) -> bool {
    -(ROOMSIZE / 2) < at < ROOMSIZE / 2
}

/// The point lies on the floor, strictly inside the walls.
pub open spec fn in_room(pos: Vec2i) -> bool {
    between_walls(pos.x as int) && between_walls(pos.y as int)
}

/// Where a body at `pos` stands after trying to move by `vec`: along each
/// axis it moves if that keeps it between the walls, and stays if not.
pub open spec fn walked(pos: Vec2i, vec: Vec2i) -> Vec2i {
    Vec2i {
        x: if between_walls(pos.x + vec.x) {
            (pos.x + vec.x) as i32
        } else {
            pos.x
        },
        y: if between_walls(pos.y + vec.y) {
            (pos.y + vec.y) as i32
        } else {
            pos.y
        },
    }
}

impl GameObject {
    /// An avatar that stands at `translation`, turned by `rotation`, with its
    /// animation at the start.
    pub fn new(translation: Vec2i, rotation: Rotation) -> (avatar: GameObject)
        ensures
            avatar == (GameObject { sprite: Sprite { translation }, rotation, animation_ticks: 0 }),
    {
        GameObject { sprite: Sprite { translation }, rotation, animation_ticks: 0 }
    }

    /// The avatar one tick further into its animation.
    pub open spec fn ticked(self) -> GameObject {
        GameObject {
            animation_ticks: if self.animation_ticks < u64::MAX {
                (self.animation_ticks + 1) as u64
            } else {
                self.animation_ticks
            },
            ..self
        }
    }

    /// The avatar after trying to move by `vec`.
    pub open spec fn moved(self, vec: Vec2i) -> GameObject {
        GameObject { sprite: Sprite { translation: walked(self.sprite.translation, vec) }, ..self }
    }

    /// The avatar turned to face `dir`. One that faces `dir` already keeps
    /// its rotation.
    pub open spec fn turned_to(self, dir: Direction) -> GameObject {
        GameObject {
            rotation: if facing(self.rotation) != dir {
                turned(dir)
            } else {
                self.rotation
            },
            ..self
        }
    }

    /// The avatar set down at `translation`.
    pub open spec fn placed(self, translation: Vec2i) -> GameObject {
        GameObject { sprite: Sprite { translation }, ..self }
    }

    /// The avatar after one walking key: turned to face `dir`, and one stride
    /// on if the walls allow.
    pub open spec fn stepped(self, dir: Direction) -> GameObject {
        self.turned_to(dir).moved(stride(dir))
    }

    /// The avatar pushed back by what it walked into: half a `BUFFER` against
    /// the way it faces, if the walls allow.
    pub open spec fn pushed_back(self) -> GameObject {
        self.moved(recoil(facing(self.rotation)))
    }

    /// Moves the animation on by one tick. The count stops at the largest
    /// number it can hold.
    pub fn tick_animation(&mut self)
        ensures
            *final(self) == old(self).ticked(),
    {
        if self.animation_ticks < u64::MAX {
            self.animation_ticks = self.animation_ticks + 1;
        }
    }

    /// Moves the avatar by `vec` as far as the walls allow: a move along an
    /// axis that would end on or beyond a wall is not made.
    pub fn move_by(&mut self, vec: Vec2i)
        ensures
            *final(self) == old(self).moved(vec),
    {
        let half: i64 = (ROOMSIZE / 2) as i64;
        let x: i64 = self.sprite.translation.x as i64 + vec.x as i64;
        let z: i64 = self.sprite.translation.y as i64 + vec.y as i64;
        let mut step = Vec2i { x: 0, y: 0 };
        if x < half && x > -half {
            step.x = vec.x;
        }
        if z < half && z > -half {
            step.y = vec.y;
        }
        self.sprite.move_by(step);
    }

    /// Turns the avatar to face `dir` and lets it take one stride.
    pub(crate) fn step(&mut self, dir: Direction)
        ensures
            *final(self) == old(self).stepped(dir),
    {
        if self.get_dir() != dir {
            self.rotation = match dir {
                Direction::South => Rotation { roll: 0, pitch: 0, yaw: 0 },
                Direction::West => Rotation { roll: 0, pitch: 0, yaw: 1 },
                Direction::North => Rotation { roll: 0, pitch: 0, yaw: 2 },
                Direction::East => Rotation { roll: 0, pitch: 0, yaw: -1 },
            };
        }
        self.move_by(
            match dir {
                Direction::North => Vec2i { x: 0, y: -SPEED },
                Direction::South => Vec2i { x: 0, y: SPEED },
                Direction::West => Vec2i { x: -SPEED, y: 0 },
                Direction::East => Vec2i { x: SPEED, y: 0 },
            },
        );
    }

    /// Pushes the avatar back from what it walked into.
    pub(crate) fn push_back(&mut self)
        ensures
            *final(self) == old(self).pushed_back(),
    {
        let dir = self.get_dir();
        if dir == Direction::North {
            self.move_by(Vec2i { x: 0, y: BUFFER / 2 });
        } else if dir == Direction::South {
            self.move_by(Vec2i { x: 0, y: -(BUFFER / 2) });
        } else if dir == Direction::East {
            self.move_by(Vec2i { x: -(BUFFER / 2), y: 0 });
        } else {
            self.move_by(Vec2i { x: BUFFER / 2, y: 0 });
        }
    }

    /// The way the avatar faces.
    pub fn get_dir(&self) -> (dir: Direction)
        ensures
            dir == facing(self.rotation),
    {
        if self.rotation == (Rotation { roll: 0, pitch: 0, yaw: 0 }) {
            Direction::South
        } else if self.rotation == (Rotation { roll: 0, pitch: 0, yaw: 1 }) {
            Direction::West
        } else if self.rotation == (Rotation { roll: 0, pitch: 0, yaw: 2 }) {
            Direction::North
        } else {
            Direction::East
        }
    }
}

} // verus!
