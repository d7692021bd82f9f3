use rand::rngs::StdRng;
use rand::SeedableRng;
use scene3d::avatar::{GameObject, Sprite, Textured};
use scene3d::dungeon::generate_room_map;
use scene3d::geometry::{get_spawn_dir, get_spawn_pos, get_trf, Rotation, ROOMSIZE, SCALE};
use scene3d::session::{
    new_game, restart, Cues, GameState, GameplayState, Input, World, DIFFICULTY, NUM_ROOMS,
};
use scene3d::types::{Direction, Door, Room, Vec2i};

const IDLE: Input =
    Input { up: false, down: false, left: false, right: false, confirm: false, restart: false };
const UP: Input = Input { up: true, ..IDLE };
const DOWN: Input = Input { down: true, ..IDLE };
const LEFT: Input = Input { left: true, ..IDLE };
const RIGHT: Input = Input { right: true, ..IDLE };

fn rng() -> StdRng {
    StdRng::seed_from_u64(5)
}

fn yaw(yaw: i8) -> Rotation {
    Rotation { roll: 0, pitch: 0, yaw }
}

/// Rooms 0, 1, 2 in a row from west to east, and room 3 north of room 0.
fn cross_roads() -> (Vec<Room>, Vec<Door>) {
    let doors = vec![
        Door::new(Direction::East, 1, Direction::West),
        Door::new(Direction::West, 0, Direction::East),
        Door::new(Direction::East, 2, Direction::West),
        Door::new(Direction::West, 1, Direction::East),
        Door::new(Direction::North, 3, Direction::South),
        Door::new(Direction::South, 0, Direction::North),
    ];
    let rooms =
        vec![Room::new(vec![0, 4]), Room::new(vec![1, 2]), Room::new(vec![3]), Room::new(vec![5])];
    (rooms, doors)
}

fn playing(rooms: Vec<Room>, doors: Vec<Door>, key_index: usize, at: Vec2i) -> World {
    World {
        avatar: GameObject::new(at, yaw(2)),
        chest: Textured { translation: Vec2i { x: 0, y: 0 } },
        key: Textured { translation: Vec2i { x: 0, y: 0 } },
        state: GameState {
            current_room: 0,
            max_rooms: rooms.len(),
            key_index,
            rooms,
            doors,
            is_finished: false,
            has_key: false,
            gameplaystate: GameplayState::Play,
            audio_play: false,
            has_rotated: true,
        },
    }
}

fn cross_roads_world(key_index: usize, x: i32, y: i32) -> World {
    let (rooms, doors) = cross_roads();
    playing(rooms, doors, key_index, Vec2i { x, y })
}

fn tick(world: &mut World, input: Input, times: usize) {
    for _ in 0..times {
        world.update(&input, &mut rng());
    }
}

fn place(world: &World) -> (usize, i32, i32) {
    let at = world.avatar.sprite.translation;
    (world.state.current_room, at.x, at.y)
}

#[test]
fn the_game_opens_on_the_main_screen() {
    let state = new_game(&mut rng());
    assert_eq!(state.current_room, 0);
    assert_eq!(state.max_rooms, NUM_ROOMS as usize);
    assert_eq!(state.key_index, 1);
    assert_eq!(state.rooms.len(), 6);
    assert_eq!(state.doors.len(), 10);
    assert!(!state.is_finished && !state.has_key && !state.has_rotated);
    assert!(state.audio_play);
    assert_eq!(state.gameplaystate, GameplayState::Mainscreen);
    let world = World::new(&mut rng());
    assert_eq!(world.avatar, GameObject::new(Vec2i { x: 20_000, y: 0 }, yaw(2)));
    assert_eq!(world.avatar.get_dir(), Direction::North);
    assert_eq!(world.chest.translation, Vec2i { x: 0, y: 0 });
    assert_eq!(world.key.translation, Vec2i { x: 0, y: 0 });
    assert_eq!(world.state.gameplaystate, GameplayState::Mainscreen);
}

#[test]
fn restart_adds_rooms_and_hides_the_key_past_the_first_room() {
    let mut keys = std::collections::HashSet::new();
    for seed in 0..60 {
        let state = restart(4, &mut StdRng::seed_from_u64(seed));
        assert_eq!(state.max_rooms, 4 + DIFFICULTY);
        assert_eq!(state.rooms.len(), 4 + 2 * DIFFICULTY);
        assert_eq!(state.doors.len(), 2 * (4 + 2 * DIFFICULTY - 1));
        assert!(1 <= state.key_index && state.key_index < 4 + DIFFICULTY);
        assert_eq!(state.current_room, 0);
        assert!(!state.is_finished && !state.has_key && !state.audio_play && !state.has_rotated);
        assert_eq!(state.gameplaystate, GameplayState::Play);
        for n in 0..6 {
            let to_next = state.rooms[n].doors.iter().any(|i| state.doors[*i].target == n + 1);
            assert!(to_next);
        }
        keys.insert(state.key_index);
    }
    assert!(keys.len() > 1);
}

#[test]
fn restart_from_nothing_still_builds_a_chain() {
    let state = restart(0, &mut rng());
    assert_eq!(state.max_rooms, 3);
    assert_eq!(state.rooms.len(), 6);
    assert!(state.key_index == 1 || state.key_index == 2);
}

#[test]
fn the_screens_follow_one_another_on_confirm() {
    let mut world = World::new(&mut rng());
    let cues = world.update(&IDLE, &mut rng());
    assert_eq!(cues, Cues { play_intro: true, turn_camera: false });
    assert!(!world.state.audio_play);
    assert_eq!(world.state.gameplaystate, GameplayState::Mainscreen);
    let walk_and_restart = Input { confirm: false, restart: true, ..UP };
    world.update(&walk_and_restart, &mut rng());
    assert_eq!(world.state.gameplaystate, GameplayState::Mainscreen);
    assert_eq!(world.avatar.sprite.translation, Vec2i { x: 20_000, y: 0 });
    let confirm = Input { confirm: true, ..IDLE };
    let cues = world.update(&confirm, &mut rng());
    assert_eq!(cues, Cues { play_intro: false, turn_camera: false });
    assert_eq!(world.state.gameplaystate, GameplayState::Instructions);
    world.update(&IDLE, &mut rng());
    assert_eq!(world.state.gameplaystate, GameplayState::Instructions);
    world.update(&confirm, &mut rng());
    assert_eq!(world.state.gameplaystate, GameplayState::Play);
    assert!(!world.state.has_rotated);
    let cues = world.update(&confirm, &mut rng());
    assert_eq!(cues, Cues { play_intro: false, turn_camera: true });
    assert!(world.state.has_rotated);
    assert_eq!(world.state.gameplaystate, GameplayState::Play);
    let cues = world.update(&IDLE, &mut rng());
    assert_eq!(cues, Cues { play_intro: false, turn_camera: false });
}

#[test]
fn each_key_turns_the_avatar_and_moves_it_one_stride() {
    let mut world = cross_roads_world(2, 20_000, 0);
    world.update(&UP, &mut rng());
    assert_eq!(place(&world), (0, 20_000, -500));
    assert_eq!(world.avatar.get_dir(), Direction::North);
    assert_eq!(world.avatar.animation_ticks, 1);
    world.update(&DOWN, &mut rng());
    assert_eq!(place(&world), (0, 20_000, 0));
    assert_eq!(world.avatar.rotation, yaw(0));
    assert_eq!(world.avatar.get_dir(), Direction::South);
    world.update(&LEFT, &mut rng());
    assert_eq!(place(&world), (0, 19_500, 0));
    assert_eq!(world.avatar.rotation, yaw(1));
    assert_eq!(world.avatar.get_dir(), Direction::West);
    world.update(&RIGHT, &mut rng());
    assert_eq!(place(&world), (0, 20_000, 0));
    assert_eq!(world.avatar.rotation, yaw(-1));
    assert_eq!(world.avatar.get_dir(), Direction::East);
    assert_eq!(world.avatar.animation_ticks, 4);
    world.update(&IDLE, &mut rng());
    assert_eq!(place(&world), (0, 20_000, 0));
    assert_eq!(world.avatar.animation_ticks, 4);
}

#[test]
fn keys_held_together_have_their_turns_in_order() {
    let mut world = cross_roads_world(2, 20_000, 0);
    let all = Input { up: true, down: true, left: true, right: true, ..IDLE };
    world.update(&all, &mut rng());
    assert_eq!(place(&world), (0, 20_000, 0));
    assert_eq!(world.avatar.get_dir(), Direction::East);
    assert_eq!(world.avatar.animation_ticks, 1);
    let up_left = Input { up: true, left: true, ..IDLE };
    world.update(&up_left, &mut rng());
    assert_eq!(place(&world), (0, 19_500, -500));
    assert_eq!(world.avatar.get_dir(), Direction::West);
}

#[test]
fn an_odd_rotation_counts_as_east_and_stays_on_walking_east() {
    let mut world = cross_roads_world(2, 20_000, 0);
    world.avatar.rotation = yaw(3);
    world.update(&RIGHT, &mut rng());
    assert_eq!(world.avatar.rotation, yaw(3));
    world.update(&UP, &mut rng());
    assert_eq!(world.avatar.rotation, yaw(2));
}

#[test]
fn the_walls_stop_the_avatar() {
    let mut world = cross_roads_world(2, 20_000, -29_000);
    tick(&mut world, UP, 5);
    assert_eq!(place(&world), (0, 20_000, -29_500));
    assert_eq!(world.avatar.animation_ticks, 5);
    let up_left = Input { up: true, left: true, ..IDLE };
    world.update(&up_left, &mut rng());
    assert_eq!(place(&world), (0, 19_500, -29_500));
    let mut world = cross_roads_world(2, 29_000, 20_000);
    tick(&mut world, RIGHT, 5);
    assert_eq!(place(&world), (0, 29_500, 20_000));
}

#[test]
fn walking_into_a_doorway_leads_to_the_next_room() {
    let mut world = cross_roads_world(2, 20_000, 0);
    tick(&mut world, RIGHT, 13);
    assert_eq!(place(&world), (0, 26_500, 0));
    world.update(&RIGHT, &mut rng());
    assert_eq!(place(&world), (1, -25_000, 0));
    assert_eq!(world.avatar.sprite.translation, get_spawn_pos(Direction::East));
    assert!(!world.state.has_key);
    assert_eq!(world.state.gameplaystate, GameplayState::Play);
}

#[test]
fn the_tick_after_a_crossing_does_not_lead_back() {
    let inputs = [IDLE, UP, DOWN, LEFT, RIGHT, Input { left: true, up: true, ..IDLE }];
    for door in 0..2 {
        for input in inputs {
            let mut world = cross_roads_world(2, 0, 0);
            let dir = world.state.doors[world.state.rooms[0].doors[door]].direction;
            let target = world.state.doors[world.state.rooms[0].doors[door]].target;
            world.avatar.sprite.translation = get_trf(dir, ROOMSIZE - 3_000, SCALE).translation;
            world.update(&IDLE, &mut rng());
            assert_eq!(world.state.current_room, target);
            assert_eq!(world.avatar.sprite.translation, get_spawn_pos(dir));
            world.update(&input, &mut rng());
            assert_eq!(world.state.current_room, target);
            tick(&mut world, IDLE, 3);
            assert_eq!(world.state.current_room, target);
        }
    }
}

#[test]
fn walking_back_through_the_arrival_doorway_returns() {
    let mut world = cross_roads_world(2, 26_500, 0);
    world.update(&RIGHT, &mut rng());
    assert_eq!(place(&world), (1, -25_000, 0));
    tick(&mut world, LEFT, 3);
    assert_eq!(place(&world), (1, -26_500, 0));
    world.update(&LEFT, &mut rng());
    assert_eq!(place(&world), (0, 25_000, 0));
}

#[test]
fn a_doorway_without_a_door_is_a_wall() {
    let mut world = cross_roads_world(2, 0, -26_500);
    tick(&mut world, UP, 10);
    assert_eq!(place(&world), (0, 0, -29_500));
    let mut world = cross_roads_world(2, -26_500, 0);
    tick(&mut world, LEFT, 10);
    assert_eq!(place(&world), (0, -29_500, 0));
}

#[test]
fn the_chest_pushes_back_against_the_way_the_avatar_faces() {
    let mut world = cross_roads_world(2, 8_000, 0);
    world.update(&LEFT, &mut rng());
    assert_eq!(place(&world), (0, 7_500, 0));
    assert_eq!(world.avatar.animation_ticks, 1);
    world.update(&LEFT, &mut rng());
    assert_eq!(place(&world), (0, 10_000, 0));
    assert_eq!(world.avatar.get_dir(), Direction::West);
    assert_eq!(world.avatar.animation_ticks, 1);
    let mut world = cross_roads_world(2, 0, 7_750);
    world.avatar.rotation = yaw(2);
    world.update(&DOWN, &mut rng());
    assert_eq!(place(&world), (0, 0, 10_250));
    let mut world = cross_roads_world(2, -7_750, 100);
    world.avatar.rotation = yaw(-1);
    world.update(&IDLE, &mut rng());
    assert_eq!(place(&world), (0, -10_250, 100));
    let mut world = cross_roads_world(2, 100, -7_750);
    world.avatar.rotation = yaw(0);
    world.update(&IDLE, &mut rng());
    assert_eq!(place(&world), (0, 100, -10_250));
}

#[test]
fn the_chest_is_no_obstacle_outside_the_first_room() {
    let mut world = cross_roads_world(2, 8_000, 0);
    world.state.current_room = 1;
    tick(&mut world, LEFT, 4);
    assert_eq!(place(&world), (1, 6_000, 0));
    assert!(!world.state.is_finished);
}

#[test]
fn the_key_is_taken_in_its_room_only() {
    let mut world = cross_roads_world(1, 26_500, 0);
    world.update(&RIGHT, &mut rng());
    assert_eq!(world.state.current_room, 1);
    tick(&mut world, RIGHT, 34);
    assert_eq!(place(&world), (1, -8_000, 0));
    assert!(!world.state.has_key);
    world.update(&RIGHT, &mut rng());
    assert_eq!(place(&world), (1, -7_500, 0));
    assert!(world.state.has_key);
    let mut elsewhere = cross_roads_world(2, 26_500, 0);
    elsewhere.update(&RIGHT, &mut rng());
    tick(&mut elsewhere, RIGHT, 50);
    assert_eq!(place(&elsewhere), (1, 0, 0));
    assert!(!elsewhere.state.has_key);
}

#[test]
fn the_key_reaches_less_far_in_depth_than_along_x() {
    let mut world = cross_roads_world(1, 0, 3_500);
    world.state.current_room = 1;
    world.update(&IDLE, &mut rng());
    assert!(!world.state.has_key);
    world.update(&UP, &mut rng());
    assert_eq!(place(&world), (1, 0, 3_000));
    assert!(world.state.has_key);
    let mut world = cross_roads_world(1, 7_750, -3_000);
    world.state.current_room = 1;
    world.update(&IDLE, &mut rng());
    assert!(world.state.has_key);
}

#[test]
fn the_key_once_taken_is_kept() {
    let mut world = cross_roads_world(1, 0, 0);
    world.state.current_room = 1;
    world.update(&IDLE, &mut rng());
    assert!(world.state.has_key);
    tick(&mut world, LEFT, 54);
    assert_eq!(place(&world), (0, 25_000, 0));
    assert!(world.state.has_key);
    tick(&mut world, UP, 20);
    assert!(world.state.has_key);
    assert!(!world.state.is_finished);
}

#[test]
fn the_chest_opens_only_with_the_key_and_only_in_the_first_room() {
    let mut without = cross_roads_world(1, 8_000, 0);
    tick(&mut without, LEFT, 6);
    assert!(!without.state.is_finished);
    assert_eq!(without.state.gameplaystate, GameplayState::Play);
    let mut elsewhere = cross_roads_world(1, 8_000, 9_000);
    elsewhere.state.current_room = 2;
    elsewhere.state.has_key = true;
    tick(&mut elsewhere, LEFT, 6);
    assert!(!elsewhere.state.is_finished);
    let mut with = cross_roads_world(1, 8_000, 0);
    with.state.has_key = true;
    with.update(&IDLE, &mut rng());
    assert!(!with.state.is_finished);
    with.update(&LEFT, &mut rng());
    assert_eq!(place(&with), (0, 7_500, 0));
    assert!(with.state.is_finished);
    assert!(with.state.has_key);
    assert_eq!(with.state.gameplaystate, GameplayState::FinalScreen);
}

#[test]
fn the_final_screen_waits_for_restart() {
    let mut world = cross_roads_world(1, 7_500, 0);
    world.state.has_key = true;
    world.update(&IDLE, &mut rng());
    assert_eq!(world.state.gameplaystate, GameplayState::FinalScreen);
    let busy = Input { confirm: true, ..LEFT };
    assert_eq!(place(&world), (0, 7_500, 2_500));
    tick(&mut world, busy, 3);
    assert_eq!(place(&world), (0, 7_500, 2_500));
    assert_eq!(world.avatar.animation_ticks, 0);
    assert_eq!(world.state.gameplaystate, GameplayState::FinalScreen);
    assert!(world.state.is_finished && world.state.has_key);
    assert_eq!(world.state.rooms.len(), 4);
    let before = world.avatar;
    let again = Input { restart: true, ..IDLE };
    let cues = world.update(&again, &mut rng());
    assert_eq!(cues, Cues { play_intro: false, turn_camera: false });
    assert_eq!(world.avatar, before);
    assert_eq!(world.state.gameplaystate, GameplayState::Play);
    assert_eq!(world.state.max_rooms, 4 + DIFFICULTY);
    assert_eq!(world.state.rooms.len(), 4 + 2 * DIFFICULTY);
    assert!(1 <= world.state.key_index && world.state.key_index < 4 + DIFFICULTY);
    assert_eq!(world.state.current_room, 0);
    assert!(!world.state.has_key && !world.state.is_finished && !world.state.has_rotated);
    let cues = world.update(&IDLE, &mut rng());
    assert!(cues.turn_camera);
}

#[test]
fn restart_is_ignored_during_play() {
    let mut world = cross_roads_world(1, 20_000, 0);
    let again = Input { restart: true, ..IDLE };
    world.update(&again, &mut rng());
    assert_eq!(world.state.rooms.len(), 4);
    assert_eq!(world.state.max_rooms, 4);
    assert_eq!(world.state.gameplaystate, GameplayState::Play);
}

#[test]
fn each_restart_lengthens_the_chain() {
    let mut world = cross_roads_world(1, 7_500, 0);
    let again = Input { restart: true, ..IDLE };
    for round in 1..4 {
        world.state.has_key = true;
        world.state.current_room = 0;
        world.avatar.sprite = Sprite { translation: Vec2i { x: 7_500, y: 0 } };
        world.update(&IDLE, &mut rng());
        assert_eq!(world.state.gameplaystate, GameplayState::FinalScreen);
        world.update(&again, &mut rng());
        assert_eq!(world.state.max_rooms, 4 + round * DIFFICULTY);
        assert_eq!(world.state.rooms.len(), 4 + (round + 1) * DIFFICULTY);
    }
}

fn walk_to_door(world: &mut World, dir: Direction) {
    match dir {
        Direction::East => tick(world, RIGHT, 60),
        Direction::North => {
            tick(world, DOWN, 18);
            tick(world, LEFT, 40);
            tick(world, DOWN, 60);
        }
        Direction::South => {
            tick(world, UP, 18);
            tick(world, LEFT, 40);
            tick(world, UP, 60);
        }
        Direction::West => {
            tick(world, DOWN, 18);
            tick(world, LEFT, 56);
            tick(world, UP, 18);
            tick(world, LEFT, 60);
        }
    }
}

#[test]
fn a_walk_from_the_start_to_the_only_door_leads_to_the_second_room() {
    let mut seen = std::collections::HashSet::new();
    for seed in 0..40 {
        let (rooms, doors) = generate_room_map(4, 0, &mut StdRng::seed_from_u64(seed));
        let dir = doors[rooms[0].doors[0]].direction;
        let mut world = playing(rooms, doors, 2, Vec2i { x: 20_000, y: 0 });
        let mut steps = 0;
        let mut walker = world.clone();
        walk_to_door(&mut walker, dir);
        while world.state.current_room == 0 && steps < 10 {
            walk_to_door(&mut world, dir);
            steps += 1;
        }
        assert_eq!(walker.state.current_room, 1, "seed {} door {:?}", seed, dir);
        assert!(!walker.state.has_key);
        assert!(!walker.state.is_finished);
        seen.insert(format!("{:?}", dir));
    }
    assert_eq!(seen.len(), 4);
}

#[test]
fn a_whole_game_can_be_won() {
    let mut world = cross_roads_world(1, 20_000, 0);
    tick(&mut world, RIGHT, 14);
    assert_eq!(place(&world), (1, -25_000, 0));
    tick(&mut world, RIGHT, 35);
    assert!(world.state.has_key);
    tick(&mut world, LEFT, 39);
    assert_eq!(place(&world), (0, 25_000, 0));
    assert!(!world.state.is_finished);
    tick(&mut world, LEFT, 35);
    assert_eq!(place(&world), (0, 7_500, 0));
    assert!(world.state.is_finished);
    assert_eq!(world.state.gameplaystate, GameplayState::FinalScreen);
}

#[test]
fn the_scene_shows_the_doorways_of_the_current_room() {
    let mut world = cross_roads_world(1, 20_000, 0);
    let scene = world.scene();
    assert_eq!(scene.screen, GameplayState::Play);
    assert_eq!(scene.avatar, world.avatar);
    assert!(scene.chest_shown);
    assert!(!scene.key_shown);
    assert_eq!(
        scene.doors,
        vec![get_trf(Direction::East, ROOMSIZE, SCALE), get_trf(Direction::North, ROOMSIZE, SCALE)]
    );
    world.state.current_room = 1;
    let scene = world.scene();
    assert!(scene.key_shown && !scene.chest_shown);
    assert_eq!(scene.doors[0], get_trf(get_spawn_dir(Direction::East), ROOMSIZE, SCALE));
    assert_eq!(scene.doors.len(), 2);
    world.state.has_key = true;
    let scene = world.scene();
    assert!(!scene.key_shown && !scene.chest_shown);
    world.state.current_room = 2;
    let scene = world.scene();
    assert!(!scene.key_shown && !scene.chest_shown);
    assert_eq!(scene.doors.len(), 1);
}

#[test]
fn the_scene_shows_the_screen_alone_outside_play() {
    let world = World::new(&mut rng());
    let scene = world.scene();
    assert_eq!(scene.screen, GameplayState::Mainscreen);
    assert!(!scene.key_shown && !scene.chest_shown);
    assert!(scene.doors.is_empty());
    let mut over = cross_roads_world(1, 20_000, 0);
    over.state.gameplaystate = GameplayState::FinalScreen;
    over.state.is_finished = true;
    over.state.has_key = true;
    let scene = over.scene();
    assert_eq!(scene.screen, GameplayState::FinalScreen);
    assert!(!scene.chest_shown);
    assert!(scene.doors.is_empty());
}
