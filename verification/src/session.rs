//! A session of the game: the dungeon, where the avatar is in it, whether the
//! key was found and the chest opened, and what one tick does to all of that.

use crate::avatar::{in_box, in_doorway, in_room, GameObject, Sprite, Textured};
use crate::dungeon::{
    connected, dead_end, distinct_walls, exit, generate_room_map, main_chain, well_formed, WALLS,
};
use crate::geometry::{
    door_pose, get_spawn_pos, get_trf, spawn_point, Pose, Rotation, ROOMSIZE, SCALE, SPEED,
};
use crate::random::random_range;
use crate::types::{Direction, Door, Room, Vec2i};
use rand::rngs::StdRng;
use vstd::prelude::*;

verus! {

/// The length of the main chain of the first dungeon.
pub const NUM_ROOMS: u32 = 4;

/// The number of dead ends of the first dungeon.
pub const FIRST_DEAD_ENDS: usize = 2;

/// By how many rooms the main chain grows with each restart, and how many
/// dead ends a restarted dungeon has.
pub const DIFFICULTY: usize = 3;

/// How far the chest reaches from its middle, along x.
pub const CHEST_EDGE_X: i32 = 7_750;

/// How far the chest reaches from its middle, along the depth axis.
pub const CHEST_EDGE_Z: i32 = 7_750;

/// How far the key reaches from its middle, along x.
pub const KEY_EDGE_X: i32 = 7_750;

/// How far the key reaches from its middle, along the depth axis.
pub const KEY_EDGE_Z: i32 = 3_000;

/// Which screen the game shows.
#[derive(Clone, Copy, PartialEq, Eq, Debug, Structural)]
pub enum GameplayState {
    Mainscreen,
    Instructions,
    Play,
    FinalScreen,
}

/// Everything that one session of the game remembers.
#[derive(Clone)]
pub struct GameState {
    /// The room the avatar is in.
    pub current_room: usize,
    /// The length of the main chain.
    pub max_rooms: usize,
    /// The room that holds the key.
    pub key_index: usize,
    pub rooms: Vec<Room>,
    pub doors: Vec<Door>,
    pub is_finished: bool,
    pub has_key: bool,
    pub gameplaystate: GameplayState,
    /// Set while the intro cue is still to be played.
    pub audio_play: bool,
    /// Set once the camera has been turned for play.
    pub has_rotated: bool,
}

impl GameState {
    /// A session is valid when its dungeon is well formed, the avatar and
    /// the key are in rooms of it, the key is on the main chain and not in
    /// the first room, and the final screen shows exactly when the game is
    /// finished, which takes the key.
    pub open spec fn wf(&self) -> bool {
        &&& well_formed(self.rooms@, self.doors@)
        &&& self.current_room < self.rooms.len()
        &&& 1 <= self.key_index < self.max_rooms <= self.rooms.len()
        &&& self.is_finished ==> self.has_key
        &&& self.is_finished <==> self.gameplaystate == GameplayState::FinalScreen
    }
}

/// What holds of the session with which the game opens.
pub open spec fn opened(state: GameState) -> bool {
    &&& state.wf()
    &&& state.current_room == 0
    &&& state.max_rooms == NUM_ROOMS
    &&& state.key_index == 1
    &&& state.rooms.len() == NUM_ROOMS + FIRST_DEAD_ENDS
    &&& main_chain(state.rooms@, state.doors@, NUM_ROOMS as int)
    &&& forall|r: int|
        NUM_ROOMS <= r < state.rooms.len() ==> #[trigger] dead_end(
            state.rooms@,
            state.doors@,
            NUM_ROOMS as int,
            r,
        )
    &&& connected(state.rooms@, state.doors@)
    &&& !state.is_finished
    &&& !state.has_key
    &&& state.gameplaystate == GameplayState::Mainscreen
    &&& state.audio_play
    &&& !state.has_rotated
}

/// What holds of the session that follows one whose main chain had
/// `curr_number_rooms` rooms: the chain is `DIFFICULTY` rooms longer, there
/// are `DIFFICULTY` dead ends, the key is somewhere on the chain past the
/// first room, and play starts at once in the first room.
pub open spec fn restarted(state: GameState, curr_number_rooms: usize) -> bool {
    &&& state.wf()
    &&& state.current_room == 0
    &&& state.max_rooms == curr_number_rooms + DIFFICULTY
    &&& 1 <= state.key_index < curr_number_rooms + DIFFICULTY
    &&& state.rooms.len() == curr_number_rooms + DIFFICULTY + DIFFICULTY
    &&& main_chain(state.rooms@, state.doors@, curr_number_rooms + DIFFICULTY)
    &&& forall|r: int|
        curr_number_rooms + DIFFICULTY <= r < state.rooms.len() ==> #[trigger] dead_end(
            state.rooms@,
            state.doors@,
            curr_number_rooms + DIFFICULTY,
            r,
        )
    &&& connected(state.rooms@, state.doors@)
    &&& !state.is_finished
    &&& !state.has_key
    &&& state.gameplaystate == GameplayState::Play
    &&& !state.audio_play
    &&& !state.has_rotated
}

/// Whether a main chain of `curr_number_rooms` rooms can grow by another
/// `DIFFICULTY`: the rooms and doors of the next dungeon must be countable.
pub open spec fn can_restart(curr_number_rooms: usize) -> bool {
    2 * (curr_number_rooms + DIFFICULTY + DIFFICULTY) <= u32::MAX
}

/// The session with which the game opens: a dungeon of `NUM_ROOMS` rooms in
/// a chain and `FIRST_DEAD_ENDS` dead ends, the key in the second room, the
/// main screen showing and the intro cue still to be played.
pub fn new_game(rng: &mut StdRng) -> (state: GameState)
    ensures
        opened(state),
{
    let (room_list, door_list) = generate_room_map(NUM_ROOMS, FIRST_DEAD_ENDS, rng);
    GameState {
        current_room: 0,
        max_rooms: 4,
        key_index: 1,
        rooms: room_list,
        doors: door_list,
        is_finished: false,
        has_key: false,
        gameplaystate: GameplayState::Mainscreen,
        audio_play: true,
        has_rotated: false,
    }
}

/// The session that follows one whose main chain had `curr_number_rooms`
/// rooms. The dungeon and the room of the key are drawn from `rng`.
pub fn restart(curr_number_rooms: usize, rng: &mut StdRng) -> (state: GameState)
    requires
        can_restart(curr_number_rooms),
    ensures
        restarted(state, curr_number_rooms),
{
    let (room_list, door_list) = generate_room_map(
        (curr_number_rooms + DIFFICULTY) as u32,
        DIFFICULTY,
        rng,
    );
    let keyidx: usize = random_range(rng, 1, curr_number_rooms + DIFFICULTY);
    GameState {
        current_room: 0,
        max_rooms: curr_number_rooms + DIFFICULTY,
        key_index: keyidx,
        rooms: room_list,
        doors: door_list,
        is_finished: false,
        has_key: false,
        gameplaystate: GameplayState::Play,
        audio_play: false,
        has_rotated: false,
    }
}

/// Which of the logical keys are held down during a tick.
#[derive(Clone, Copy, PartialEq, Eq, Debug, Structural)]
pub struct Input {
    /// Walk facing north.
    pub up: bool,
    /// Walk facing south.
    pub down: bool,
    /// Walk facing west.
    pub left: bool,
    /// Walk facing east.
    pub right: bool,
    /// Leave the main screen, or the instructions.
    pub confirm: bool,
    /// Start over from the final screen.
    pub restart: bool,
}

impl Input {
    /// Some key that makes the avatar walk is down.
    pub open spec fn walking(self) -> bool {
        self.up || self.down || self.left || self.right
    }
}

/// What a tick asks of the world outside: to play the intro cue, to turn the
/// camera for play.
#[derive(Clone, Copy, PartialEq, Eq, Debug, Structural)]
pub struct Cues {
    pub play_intro: bool,
    pub turn_camera: bool,
}

/// What there is to draw after a tick.
#[derive(Clone, Debug)]
pub struct Scene {
    /// The screen that shows. Only during play is there more to draw.
    pub screen: GameplayState,
    pub avatar: GameObject,
    pub key: Textured,
    pub chest: Textured,
    /// Whether the key is drawn.
    pub key_shown: bool,
    /// Whether the chest is drawn.
    pub chest_shown: bool,
    /// The placements of the doorways that are drawn.
    pub doors: Vec<Pose>,
}

/// The avatar after a tick of walking: its animation runs on if any walking
/// key is down, and then each key that is down has its turn, in the order up,
/// down, left, right.
pub open spec fn steered(avatar: GameObject, input: Input) -> GameObject {
    let a0 = if input.walking() {
        avatar.ticked()
    } else {
        avatar
    };
    let a1 = if input.up {
        a0.stepped(Direction::North)
    } else {
        a0
    };
    let a2 = if input.down {
        a1.stepped(Direction::South)
    } else {
        a1
    };
    let a3 = if input.left {
        a2.stepped(Direction::West)
    } else {
        a2
    };
    if input.right {
        a3.stepped(Direction::East)
    } else {
        a3
    }
}

/// The door of the first exit, from the `k`-th on, in whose doorway `pos`
/// lies.
pub open spec fn first_hit_from(exits: Seq<usize>, doors: Seq<Door>, pos: Vec2i, k: int) -> Option<
    Door,
>
    decreases exits.len() - k,
{
    if k < 0 || k >= exits.len() {
        None
    } else if in_doorway(pos, exit(exits, doors, k).direction) {
        Some(exit(exits, doors, k))
    } else {
        first_hit_from(exits, doors, pos, k + 1)
    }
}

/// The door of the first exit in whose doorway `pos` lies.
pub open spec fn first_hit(exits: Seq<usize>, doors: Seq<Door>, pos: Vec2i) -> Option<Door> {
    first_hit_from(exits, doors, pos, 0)
}

/// The simulation: the avatar, the two props, and the session.
#[derive(Clone)]
pub struct World {
    pub avatar: GameObject,
    /// The locked chest of the first room. Without the key it is an obstacle.
    pub chest: Textured,
    /// The key. It is there only in the room `state.key_index`.
    pub key: Textured,
    pub state: GameState,
}

impl World {
    /// A world is valid when its session is, the avatar stands inside the
    /// walls, and both props stand in the middle of the floor.
    pub open spec fn wf(&self) -> bool {
        &&& self.state.wf()
        &&& in_room(self.avatar.sprite.translation)
        &&& self.chest.translation == (Vec2i { x: 0, y: 0 })
        &&& self.key.translation == (Vec2i { x: 0, y: 0 })
    }

    /// The exits of the room the avatar is in.
    pub open spec fn exits(self) -> Seq<usize> {
        self.state.rooms@[self.state.current_room as int].doors@
    }

    /// The avatar touches the chest.
    pub open spec fn at_chest(self) -> bool {
        in_box(self.avatar.sprite.translation, self.chest.translation, CHEST_EDGE_X, CHEST_EDGE_Z)
    }

    /// The avatar touches the place of the key.
    pub open spec fn at_key(self) -> bool {
        in_box(self.avatar.sprite.translation, self.key.translation, KEY_EDGE_X, KEY_EDGE_Z)
    }

    /// The world after the avatar's move of a tick of play: in the first
    /// room, an avatar that touches the chest is pushed back half a `BUFFER`
    /// against the way it faces; anywhere else it goes where the keys steer
    /// it.
    pub open spec fn walk(self, input: Input) -> World {
        World {
            avatar: if self.state.current_room == 0 && self.at_chest() {
                self.avatar.pushed_back()
            } else {
                steered(self.avatar, input)
            },
            ..self
        }
    }

    /// The world after the doors of the current room were tried: through the
    /// first in whose doorway the avatar stands, it goes to the room behind
    /// and is set down at the arrival point.
    pub open spec fn cross(self) -> World {
        match first_hit(self.exits(), self.state.doors@, self.avatar.sprite.translation) {
            Some(door) => World {
                avatar: self.avatar.placed(spawn_point(door.direction)),
                state: GameState { current_room: door.target, ..self.state },
                ..self
            },
            None => self,
        }
    }

    /// The world after the props were tried: the key is taken by touching
    /// its place in its room, and the game is finished by touching the chest,
    /// in the first room, with the key.
    pub open spec fn touch(self) -> World {
        let has_key = self.state.has_key || (self.state.current_room == self.state.key_index
            && self.at_key());
        let won = self.state.current_room == 0 && has_key && self.at_chest();
        World {
            state: GameState {
                has_key,
                is_finished: self.state.is_finished || won,
                gameplaystate: if won {
                    GameplayState::FinalScreen
                } else {
                    self.state.gameplaystate
                },
                ..self.state
            },
            ..self
        }
    }

    /// With the given screen showing.
    pub open spec fn showing(self, gameplaystate: GameplayState) -> World {
        World { state: GameState { gameplaystate, ..self.state }, ..self }
    }

    /// With the intro cue handed over.
    pub open spec fn cued(self) -> World {
        World { state: GameState { audio_play: false, ..self.state }, ..self }
    }

    /// With the camera turned for play.
    pub open spec fn camera_turned(self) -> World {
        World { state: GameState { has_rotated: true, ..self.state }, ..self }
    }

    /// This tick starts the game over.
    pub open spec fn restarts(self, input: Input) -> bool {
        self.state.gameplaystate == GameplayState::FinalScreen && input.restart
    }

    /// The world after one tick that does not start the game over. The intro
    /// cue is handed over. Then the main screen and the instructions wait for
    /// `confirm`, each leading to the next screen; play moves the avatar,
    /// tries the doors and then the props; the final screen waits.
    pub open spec fn step(self, input: Input) -> World {
        match self.state.gameplaystate {
            GameplayState::Mainscreen => if input.confirm {
                self.cued().showing(GameplayState::Instructions)
            } else {
                self.cued()
            },
            GameplayState::Instructions => if input.confirm {
                self.cued().showing(GameplayState::Play)
            } else {
                self.cued()
            },
            GameplayState::Play => self.cued().camera_turned().walk(input).cross().touch(),
            GameplayState::FinalScreen => self.cued(),
        }
    }

    /// What a tick asks of the world outside: the intro cue if it is still
    /// to be played, the turn of the camera in the first tick of play.
    pub open spec fn cues(self) -> Cues {
        Cues {
            play_intro: self.state.audio_play,
            turn_camera: self.state.gameplaystate == GameplayState::Play && !self.state.has_rotated,
        }
    }

    /// The world with which the game opens: the avatar two thirds of the way
    /// to the east wall, facing north, both props in the middle of the floor,
    /// and a new session.
    pub fn new(rng: &mut StdRng) -> (world: World)
        ensures
            world.wf(),
            opened(world.state),
            world.avatar == (GameObject {
                sprite: Sprite { translation: Vec2i { x: 20_000, y: 0 } },
                rotation: Rotation { roll: 0, pitch: 0, yaw: 2 },
                animation_ticks: 0,
            }),
            world.chest.translation == (Vec2i { x: 0, y: 0 }),
            world.key.translation == (Vec2i { x: 0, y: 0 }),
    {
        World {
            avatar: GameObject::new(
                Vec2i { x: 20_000, y: 0 },
                Rotation { roll: 0, pitch: 0, yaw: 2 },
            ),
            chest: Textured { translation: Vec2i { x: 0, y: 0 } },
            key: Textured { translation: Vec2i { x: 0, y: 0 } },
            state: new_game(rng),
        }
    }

    /// The doorways that are drawn: those of the first exits of the current
    /// room, one for each wall at most, in the order of the exits.
    pub open spec fn door_poses(self) -> Seq<Pose> {
        Seq::new(
            if self.exits().len() < WALLS {
                self.exits().len()
            } else {
                WALLS as nat
            },
            |k: int| door_pose(exit(self.exits(), self.state.doors@, k).direction, ROOMSIZE, SCALE),
        )
    }

    /// What there is to draw. During play that is the avatar, the doorways
    /// of the current room, the key in its room for as long as it lies there,
    /// and the chest in the first room; on every other screen, the screen
    /// alone.
    pub fn scene(&self) -> (scene: Scene)
        requires
            self.state.wf(),
        ensures
            scene.screen == self.state.gameplaystate,
            scene.avatar == self.avatar,
            scene.key == self.key,
            scene.chest == self.chest,
            self.state.gameplaystate == GameplayState::Play ==> {
                &&& scene.key_shown == (self.state.key_index == self.state.current_room
                    && !self.state.has_key)
                &&& scene.chest_shown == (!scene.key_shown && self.state.current_room == 0)
                &&& scene.doors@ == self.door_poses()
            },
            self.state.gameplaystate != GameplayState::Play ==> {
                &&& !scene.key_shown
                &&& !scene.chest_shown
                &&& scene.doors@.len() == 0
            },
    {
        let mut key_shown = false;
        let mut chest_shown = false;
        let mut doors: Vec<Pose> = Vec::new();
        if self.state.gameplaystate == GameplayState::Play {
            if self.state.key_index == self.state.current_room && !self.state.has_key {
                key_shown = true;
            } else if self.state.current_room == 0 {
                chest_shown = true;
            }
            let door_list = &self.state.rooms[self.state.current_room].doors;
            let mut k: usize = 0;
            while k < door_list.len() && k < WALLS
                invariant
                    self.state.wf(),
                    door_list@ == self.exits(),
                    k <= door_list.len(),
                    k <= WALLS,
                    doors@.len() == k,
                    forall|i: int|
                        0 <= i < k ==> doors@[i] == door_pose(
                            exit(self.exits(), self.state.doors@, i).direction,
                            ROOMSIZE,
                            SCALE,
                        ),
                decreases door_list.len() - k,
            {
                assert(self.state.rooms@[self.state.current_room as int].doors@[k as int]
                    < self.state.doors@.len());
                let door = self.state.doors[door_list[k]];
                doors.push(get_trf(door.direction, ROOMSIZE, SCALE));
                k += 1;
            }
            assert(doors@ =~= self.door_poses());
        }
        Scene {
            screen: self.state.gameplaystate,
            avatar: self.avatar,
            key: self.key,
            chest: self.chest,
            key_shown,
            chest_shown,
            doors,
        }
    }

    /// The door of the first exit of the current room in whose doorway the
    /// avatar stands.
    fn find_crossing(&self) -> (crossed: Option<Door>)
        requires
            self.state.wf(),
        ensures
            crossed == first_hit(self.exits(), self.state.doors@, self.avatar.sprite.translation),
    {
        let ghost exits = self.exits();
        let ghost doors = self.state.doors@;
        let ghost pos = self.avatar.sprite.translation;
        let room = &self.state.rooms[self.state.current_room];
        let mut k: usize = 0;
        while k < room.doors.len()
            invariant
                self.state.wf(),
                room == self.state.rooms@[self.state.current_room as int],
                exits == room.doors@,
                doors == self.state.doors@,
                pos == self.avatar.sprite.translation,
                k <= room.doors.len(),
                first_hit(exits, doors, pos) == first_hit_from(exits, doors, pos, k as int),
            decreases room.doors.len() - k,
        {
            let dooridx: usize = room.doors[k];
            assert(self.state.rooms@[self.state.current_room as int].doors@[k as int]
                < self.state.doors@.len());
            let door = self.state.doors[dooridx];
            if self.avatar.sprite.check_collisions(door) {
                return Some(door);
            }
            k += 1;
        }
        None
    }

    /// The avatar's move of a tick of play.
    fn move_avatar(&mut self, input: &Input)
        ensures
            *final(self) == old(self).walk(*input),
    {
        let dir = self.avatar.get_dir();
        if self.avatar.sprite.check_item_collisions(dir, CHEST_EDGE_X, CHEST_EDGE_Z, &self.chest)
            && self.state.current_room == 0 {
            self.avatar.push_back();
        } else {
            if input.up || input.left || input.down || input.right {
                self.avatar.tick_animation();
            }
            if input.up {
                self.avatar.step(Direction::North);
            }
            if input.down {
                self.avatar.step(Direction::South);
            }
            if input.left {
                self.avatar.step(Direction::West);
            }
            if input.right {
                self.avatar.step(Direction::East);
            }
        }
    }

    /// Takes the avatar through the first door in whose doorway it stands.
    fn try_doors(&mut self)
        requires
            old(self).wf(),
        ensures
            *final(self) == old(self).cross(),
            final(self).wf(),
    {
        proof {
            lemma_crossing_stays_valid(*self);
        }
        match self.find_crossing() {
            Some(door) => {
                self.state.current_room = door.target;
                self.avatar.sprite.translation = get_spawn_pos(door.direction);
            },
            None => {},
        }
    }

    /// Lets the avatar take the key, or open the chest.
    fn try_props(&mut self)
        ensures
            *final(self) == old(self).touch(),
    {
        let dir = self.avatar.get_dir();
        // the key lies in its room only
        if self.state.current_room == self.state.key_index
            && self.avatar.sprite.check_item_collisions(dir, KEY_EDGE_X, KEY_EDGE_Z, &self.key) {
            self.state.has_key = true;
        }
        // the chest opens to whoever brings the key
        if self.state.current_room == 0 && self.state.has_key
            && self.avatar.sprite.check_item_collisions(
            dir,
            CHEST_EDGE_X,
            CHEST_EDGE_Z,
            &self.chest,
        ) {
            self.state.is_finished = true;
            self.state.gameplaystate = GameplayState::FinalScreen;
        }
    }

    /// One tick of the simulation.
    ///
    /// A tick on the final screen with `restart` down replaces the session by
    /// the next one, drawn from `rng`, and leaves avatar and props as they
    /// are. Every other tick takes the world to `step`. The cues are for the
    /// caller to carry out.
    pub fn update(&mut self, input: &Input, rng: &mut StdRng) -> (cues: Cues)
        requires
            old(self).wf(),
            old(self).restarts(*input) ==> can_restart(old(self).state.max_rooms),
        ensures
            final(self).wf(),
            cues == old(self).cues(),
            !old(self).restarts(*input) ==> *final(self) == old(self).step(*input),
            !old(self).restarts(*input) && old(self).state.has_key ==> final(self).state.has_key,
            !old(self).state.is_finished && final(self).state.is_finished ==> {
                &&& old(self).state.gameplaystate == GameplayState::Play
                &&& final(self).state.has_key
                &&& final(self).state.current_room == 0
            },
            old(self).restarts(*input) ==> {
                &&& restarted(final(self).state, old(self).state.max_rooms)
                &&& final(self).avatar == old(self).avatar
                &&& final(self).chest == old(self).chest
                &&& final(self).key == old(self).key
            },
    {
        let mut cues = Cues { play_intro: false, turn_camera: false };
        if self.state.audio_play {
            cues.play_intro = true;
            self.state.audio_play = false;
        }
        if self.state.gameplaystate == GameplayState::Mainscreen {
            if input.confirm {
                self.state.gameplaystate = GameplayState::Instructions;
            }
        } else if self.state.gameplaystate == GameplayState::Instructions {
            if input.confirm {
                self.state.gameplaystate = GameplayState::Play;
            }
        } else if self.state.gameplaystate == GameplayState::Play {
            if !self.state.has_rotated {
                cues.turn_camera = true;
                self.state.has_rotated = true;
            }
            self.move_avatar(input);
            self.try_doors();
            self.try_props();
        } else {
            if input.restart {
                self.state = restart(self.state.max_rooms, rng);
            }
        }
        cues
    }
}

/// Through whichever door the avatar goes, it arrives in a room of the
/// dungeon and inside its walls.
pub proof fn lemma_crossing_stays_valid(world: World)
    requires
        world.wf(),
    ensures
        world.cross().wf(),
{
    let exits = world.exits();
    let doors = world.state.doors@;
    let pos = world.avatar.sprite.translation;
    lemma_first_hit_is_exit(exits, doors, pos, 0);
    match first_hit(exits, doors, pos) {
        Some(door) => {
            let k = choose|k: int| 0 <= k < exits.len() && #[trigger] exit(exits, doors, k) == door;
            assert(world.state.rooms@[world.state.current_room as int].doors@[k] < doors.len());
        },
        None => {},
    }
}

/// A door that was hit is the door of an exit, the avatar stands in its
/// doorway, and it stands in no doorway of an exit before it.
pub proof fn lemma_first_hit_is_exit(exits: Seq<usize>, doors: Seq<Door>, pos: Vec2i, from: int)
    requires
        0 <= from,
    ensures
        match first_hit_from(exits, doors, pos, from) {
            Some(door) => exists|k: int|
                from <= k < exits.len() && #[trigger] exit(exits, doors, k) == door && in_doorway(
                    pos,
                    door.direction,
                ) && forall|j: int|
                    from <= j < k ==> !in_doorway(pos, (#[trigger] exit(exits, doors, j)).direction),
            None => forall|j: int|
                from <= j < exits.len() ==> !in_doorway(
                    pos,
                    (#[trigger] exit(exits, doors, j)).direction,
                ),
        },
    decreases exits.len() - from,
{
    if from < exits.len() {
        if in_doorway(pos, exit(exits, doors, from).direction) {
            assert(exit(exits, doors, from) == exit(exits, doors, from));
        } else {
            lemma_first_hit_is_exit(exits, doors, pos, from + 1);
            match first_hit_from(exits, doors, pos, from + 1) {
                Some(door) => {
                    let k = choose|k: int|
                        from + 1 <= k < exits.len() && #[trigger] exit(exits, doors, k) == door
                            && in_doorway(pos, door.direction) && forall|j: int|
                            from + 1 <= j < k ==> !in_doorway(
                                pos,
                                (#[trigger] exit(exits, doors, j)).direction,
                            );
                    assert(exit(exits, doors, k) == door);
                },
                None => {},
            }
        }
    }
}

/// Where the avatar stands in the doorway of the `k`-th exit and in no
/// doorway of an exit before it, the door of the `k`-th exit is the first
/// that is hit.
pub proof fn lemma_first_hit_found(exits: Seq<usize>, doors: Seq<Door>, pos: Vec2i, from: int, k: int)
    requires
        0 <= from <= k < exits.len(),
        in_doorway(pos, exit(exits, doors, k).direction),
        forall|j: int| from <= j < k ==> !in_doorway(pos, (#[trigger] exit(exits, doors, j)).direction),
    ensures
        first_hit_from(exits, doors, pos, from) == Some(exit(exits, doors, k)),
    decreases k - from,
{
    if from < k {
        assert(!in_doorway(pos, exit(exits, doors, from).direction));
        lemma_first_hit_found(exits, doors, pos, from + 1, k);
    }
}

/// No point lies in the doorways of two walls, and no point within a stride
/// of an arrival point, or within reach of a prop in the middle of the floor,
/// lies in any doorway.
pub proof fn lemma_doorways_apart(pos: Vec2i, dir: Direction, other: Direction)
    ensures
        in_doorway(pos, dir) && in_doorway(pos, other) ==> dir == other,
        in_doorway(pos, dir) ==> !in_box(pos, Vec2i { x: 0, y: 0 }, CHEST_EDGE_X, CHEST_EDGE_Z),
        in_box(pos, spawn_point(other), SPEED, SPEED) ==> !in_doorway(pos, dir),
{
}

/// A tick of walking takes the avatar no further than a stride along either
/// axis.
pub proof fn lemma_steered_within_stride(avatar: GameObject, input: Input)
    ensures
        in_box(steered(avatar, input).sprite.translation, avatar.sprite.translation, SPEED, SPEED),
{
    let a0 = if input.walking() {
        avatar.ticked()
    } else {
        avatar
    };
    let a1 = if input.up {
        a0.stepped(Direction::North)
    } else {
        a0
    };
    let a2 = if input.down {
        a1.stepped(Direction::South)
    } else {
        a1
    };
    let a3 = if input.left {
        a2.stepped(Direction::West)
    } else {
        a2
    };
    assert(a1.sprite.translation.x == avatar.sprite.translation.x);
    assert(a2.sprite.translation.x == avatar.sprite.translation.x);
    assert(a2.sprite.translation.y == avatar.sprite.translation.y || a2.sprite.translation.y
        == avatar.sprite.translation.y + SPEED || a2.sprite.translation.y
        == avatar.sprite.translation.y - SPEED);
    assert(a3.sprite.translation.y == a2.sprite.translation.y);
}

/// An avatar that stands in the doorway of an exit of its room while no
/// walking key is down is taken, by one tick of play, to the room behind that
/// door and set down at the arrival point. The tick after that takes it
/// through no door, whatever keys are down.
pub proof fn lemma_no_way_back(world: World, k: int, idle: Input, next: Input)
    requires
        world.wf(),
        world.state.gameplaystate == GameplayState::Play,
        0 <= k < world.exits().len(),
        in_doorway(world.avatar.sprite.translation, exit(world.exits(), world.state.doors@, k).direction),
        !idle.walking(),
    ensures
        ({
            let door = exit(world.exits(), world.state.doors@, k);
            let there = world.step(idle);
            &&& there.wf()
            &&& there.state.gameplaystate == GameplayState::Play
            &&& there.state.current_room == door.target
            &&& there.avatar.sprite.translation == spawn_point(door.direction)
            &&& there.step(next).state.current_room == door.target
        }),
{
    let exits = world.exits();
    let doors = world.state.doors@;
    let pos = world.avatar.sprite.translation;
    let door = exit(exits, doors, k);
    let ready = world.cued().camera_turned();
    let walked = ready.walk(idle);
    assert(walked == ready) by {
        lemma_doorways_apart(pos, door.direction, door.direction);
    }
    assert(first_hit(exits, doors, pos) == Some(door)) by {
        assert(distinct_walls(exits, doors));
        assert forall|j: int| 0 <= j < k implies !in_doorway(
            pos,
            (#[trigger] exit(exits, doors, j)).direction,
        ) by {
            lemma_doorways_apart(pos, door.direction, exit(exits, doors, j).direction);
        }
        lemma_first_hit_found(exits, doors, pos, 0, k);
    }
    lemma_crossing_stays_valid(walked);
    let crossed = walked.cross();
    assert(crossed.avatar.sprite.translation == spawn_point(door.direction));
    assert(crossed.state.current_room == door.target);
    let there = crossed.touch();
    assert(there == crossed);
    assert(there == world.step(idle));

    let ready2 = there.cued().camera_turned();
    let walked2 = ready2.walk(next);
    lemma_steered_within_stride(there.avatar, next);
    let pos2 = walked2.avatar.sprite.translation;
    assert(in_box(pos2, spawn_point(door.direction), SPEED, SPEED));
    lemma_first_hit_is_exit(walked2.exits(), doors, pos2, 0);
    match first_hit(walked2.exits(), doors, pos2) {
        Some(hit) => {
            lemma_doorways_apart(pos2, hit.direction, door.direction);
        },
        None => {},
    }
    assert(walked2.cross() == walked2);
}

/// A tick that does not start the game over never takes the key away, never
/// takes a finished game back, and finishes a game only in the first room and
/// with the key.
pub proof fn lemma_key_before_chest(world: World, input: Input)
    requires
        world.wf(),
    ensures
        world.state.has_key ==> world.step(input).state.has_key,
        world.state.is_finished ==> world.step(input).state.is_finished,
        !world.state.is_finished && world.step(input).state.is_finished ==> {
            &&& world.state.gameplaystate == GameplayState::Play
            &&& world.step(input).state.has_key
            &&& world.step(input).state.current_room == 0
        },
{
}

} // verus!
