//! The dungeon: a list of rooms and a list of doors, grown one room at a time
//! so that every door has its way back and every room can be reached.

use crate::geometry::{get_dir, get_spawn_dir, lemma_opposite, opposite};
use crate::random::random_range;
use crate::types::{Direction, Door, Room};
use rand::rngs::StdRng;
use vstd::prelude::*;

verus! {

/// The number of walls of a room, and so the most doors it can have.
pub const WALLS: usize = 4;

/// How often a draw is repeated before the first free choice is taken
/// instead.
pub const RETRY_LIMIT: usize = 64;

/// The door behind the `k`-th exit of a room whose exits are `exits`.
pub open spec fn exit(exits: Seq<usize>, doors: Seq<Door>, k: int) -> Door {
    doors[exits[k] as int]
}

/// Every exit is a position in the list of doors.
pub open spec fn exits_listed(exits: Seq<usize>, doors: Seq<Door>) -> bool {
    forall|k: int| 0 <= k < exits.len() ==> (#[trigger] exits[k]) < doors.len()
}

/// Some exit is mounted on the `dir` wall.
pub open spec fn wall_taken(exits: Seq<usize>, doors: Seq<Door>, dir: Direction) -> bool {
    exists|k: int| 0 <= k < exits.len() && (#[trigger] exit(exits, doors, k)).direction == dir
}

/// Some exit leads to room `target`.
pub open spec fn leads_to(exits: Seq<usize>, doors: Seq<Door>, target: int) -> bool {
    exists|k: int| 0 <= k < exits.len() && (#[trigger] exit(exits, doors, k)).target == target
}

/// Some exit on the `dir` wall leads to room `target`.
pub open spec fn has_door(exits: Seq<usize>, doors: Seq<Door>, dir: Direction, target: int) -> bool {
    exists|k: int|
        0 <= k < exits.len() && (#[trigger] exit(exits, doors, k)).direction == dir && exit(
            exits,
            doors,
            k,
        ).target == target
}

/// A room with these exits can take `door`: its wall is free, and no exit
/// leads where it leads.
pub open spec fn valid_door(door: Door, exits: Seq<usize>, doors: Seq<Door>) -> bool {
    &&& !wall_taken(exits, doors, door.direction)
    &&& !leads_to(exits, doors, door.target as int)
}

/// No two exits share a wall.
pub open spec fn distinct_walls(exits: Seq<usize>, doors: Seq<Door>) -> bool {
    forall|i: int, j: int|
        0 <= i < j < exits.len() ==> (#[trigger] exit(exits, doors, i)).direction != (
        #[trigger] exit(exits, doors, j)).direction
}

/// No two exits lead to the same room.
pub open spec fn distinct_targets(exits: Seq<usize>, doors: Seq<Door>) -> bool {
    forall|i: int, j: int|
        0 <= i < j < exits.len() ==> (#[trigger] exit(exits, doors, i)).target != (#[trigger] exit(
            exits,
            doors,
            j,
        )).target
}

/// A room with fewer exits than walls has a free wall.
pub proof fn lemma_free_wall(exits: Seq<usize>, doors: Seq<Door>)
    requires
        exits.len() < WALLS,
    ensures
        exists|dir: Direction| !wall_taken(exits, doors, dir),
{
    if wall_taken(exits, doors, Direction::North) && wall_taken(exits, doors, Direction::East)
        && wall_taken(exits, doors, Direction::South) {
        let n = choose|k: int|
            0 <= k < exits.len() && (#[trigger] exit(exits, doors, k)).direction
                == Direction::North;
        let e = choose|k: int|
            0 <= k < exits.len() && (#[trigger] exit(exits, doors, k)).direction
                == Direction::East;
        let s = choose|k: int|
            0 <= k < exits.len() && (#[trigger] exit(exits, doors, k)).direction
                == Direction::South;
        assert(n != e && n != s && e != s);
        assert forall|k: int| 0 <= k < exits.len() implies (#[trigger] exit(
            exits,
            doors,
            k,
        )).direction != Direction::West by {
            assert(k == n || k == e || k == s);
        }
        assert(!wall_taken(exits, doors, Direction::West));
    }
}

/// Every exit of every room is a listed door, and every door behind an exit
/// leads to a room of the dungeon.
pub open spec fn in_bounds(rooms: Seq<Room>, doors: Seq<Door>) -> bool {
    forall|r: int, k: int|
        0 <= r < rooms.len() && 0 <= k < rooms[r].doors@.len() ==> (#[trigger] rooms[r].doors@[k])
            < doors.len() && exit(rooms[r].doors@, doors, k).target < rooms.len()
}

/// No room has two doors on one wall.
pub open spec fn no_duplicate_walls(rooms: Seq<Room>, doors: Seq<Door>) -> bool {
    forall|r: int| 0 <= r < rooms.len() ==> distinct_walls((#[trigger] rooms[r]).doors@, doors)
}

/// No room has two doors to the same room.
pub open spec fn no_parallel_edges(rooms: Seq<Room>, doors: Seq<Door>) -> bool {
    forall|r: int| 0 <= r < rooms.len() ==> distinct_targets((#[trigger] rooms[r]).doors@, doors)
}

/// Behind every door there is a door back: the room it leads to has, on the
/// facing wall, a door to the room it came from.
pub open spec fn bidirectional(rooms: Seq<Room>, doors: Seq<Door>) -> bool {
    forall|r: int, k: int|
        0 <= r < rooms.len() && 0 <= k < rooms[r].doors@.len() ==> {
            let door = #[trigger] exit(rooms[r].doors@, doors, k);
            &&& door.target < rooms.len()
            &&& has_door(rooms[door.target as int].doors@, doors, opposite(door.direction), r)
        }
}

/// Some room made before room `r` has a door to it.
pub open spec fn has_parent(rooms: Seq<Room>, doors: Seq<Door>, r: int) -> bool {
    exists|p: int| 0 <= p < r && #[trigger] leads_to(rooms[p].doors@, doors, r)
}

/// Every room but the first was attached to a room made before it.
pub open spec fn rooted(rooms: Seq<Room>, doors: Seq<Door>) -> bool {
    forall|r: int| 0 < r < rooms.len() ==> #[trigger] has_parent(rooms, doors, r)
}

/// Whoever walks through a door arrives at the wall that faces it.
pub open spec fn arrivals_face_doors(doors: Seq<Door>) -> bool {
    forall|i: int| 0 <= i < doors.len() ==> (#[trigger] doors[i]).spawn_pos == opposite(
        doors[i].direction,
    )
}

/// What holds of every dungeon that was grown room by room: there is a first
/// room, each further room came with a pair of doors, exits are in bounds, no
/// room has two doors on one wall or two doors to one room, every door has its
/// way back, and every room but the first hangs on an earlier one.
pub open spec fn well_formed(rooms: Seq<Room>, doors: Seq<Door>) -> bool {
    &&& rooms.len() >= 1
    &&& doors.len() == 2 * (rooms.len() - 1)
    &&& in_bounds(rooms, doors)
    &&& no_duplicate_walls(rooms, doors)
    &&& no_parallel_edges(rooms, doors)
    &&& bidirectional(rooms, doors)
    &&& rooted(rooms, doors)
    &&& arrivals_face_doors(doors)
}

/// A list of rooms in which each room has a door to the next.
pub open spec fn is_walk(rooms: Seq<Room>, doors: Seq<Door>, walk: Seq<int>) -> bool {
    &&& walk.len() >= 1
    &&& forall|i: int| 0 <= i < walk.len() ==> 0 <= #[trigger] walk[i] < rooms.len()
    &&& forall|i: int|
        0 <= i < walk.len() - 1 ==> leads_to(rooms[#[trigger] walk[i]].doors@, doors, walk[i + 1])
}

/// Room `r` can be reached from the first room by walking through doors.
pub open spec fn reachable(rooms: Seq<Room>, doors: Seq<Door>, r: int) -> bool {
    exists|walk: Seq<int>| #[trigger] is_walk(rooms, doors, walk) && walk[0] == 0 && walk.last() == r
}

/// Every room can be reached from the first.
pub open spec fn connected(rooms: Seq<Room>, doors: Seq<Door>) -> bool {
    forall|r: int| 0 <= r < rooms.len() ==> #[trigger] reachable(rooms, doors, r)
}

/// How `rooms2` and `doors2` come from `rooms` and `doors` when a new room is
/// attached to room `from` through `door`: the door and its way back are
/// appended to the doors, room `from` gets the door as its last exit, and the
/// new room, appended to the rooms, has the way back as its only exit.
pub open spec fn attached(
    rooms: Seq<Room>,
    doors: Seq<Door>,
    rooms2: Seq<Room>,
    doors2: Seq<Door>,
    from: usize,
    door: Door,
) -> bool {
    &&& doors2 == doors.push(door).push(way_back(door, from))
    &&& rooms2.len() == rooms.len() + 1
    &&& forall|r: int| 0 <= r < rooms.len() && r != from ==> #[trigger] rooms2[r] == rooms[r]
    &&& rooms2[from as int].doors@ == rooms[from as int].doors@.push(doors.len() as usize)
    &&& rooms2[rooms.len() as int].doors@ == seq![(doors.len() + 1) as usize]
}

/// No room leads to a room that is yet to be made, and the exits of each are
/// listed.
proof fn lemma_no_way_out(rooms: Seq<Room>, doors: Seq<Door>, r: int)
    requires
        in_bounds(rooms, doors),
        0 <= r < rooms.len(),
    ensures
        exits_listed(rooms[r].doors@, doors),
        !leads_to(rooms[r].doors@, doors, rooms.len() as int),
{
    assert forall|k: int| 0 <= k < rooms[r].doors@.len() implies (#[trigger] rooms[r].doors@[k])
        < doors.len() by {}
    assert forall|k: int| 0 <= k < rooms[r].doors@.len() implies (#[trigger] exit(
        rooms[r].doors@,
        doors,
        k,
    )).target != rooms.len() by {
        assert(rooms[r].doors@[k] < doors.len());
    }
}

/// Exits that stay, among doors that stay, keep the doors behind them.
proof fn lemma_exits_kept(
    exits: Seq<usize>,
    doors: Seq<Door>,
    exits2: Seq<usize>,
    doors2: Seq<Door>,
)
    requires
        exits_listed(exits, doors),
        exits.len() <= exits2.len(),
        forall|k: int| 0 <= k < exits.len() ==> exits2[k] == exits[k],
        doors.len() <= doors2.len(),
        forall|i: int| 0 <= i < doors.len() ==> doors2[i] == doors[i],
    ensures
        forall|k: int|
            #![trigger exit(exits, doors, k)]
            #![trigger exit(exits2, doors2, k)]
            0 <= k < exits.len() ==> exit(exits2, doors2, k) == exit(exits, doors, k),
{
    assert forall|k: int| 0 <= k < exits.len() implies exit(exits2, doors2, k) == exit(
        exits,
        doors,
        k,
    ) by {
        assert(exits[k] < doors.len());
    }
}

/// After a room was attached, every exit that was there leads where it led,
/// the source's new last exit is the door, and the new room's only exit is
/// the way back.
pub proof fn lemma_attached_keeps_exits(
    rooms: Seq<Room>,
    doors: Seq<Door>,
    rooms2: Seq<Room>,
    doors2: Seq<Door>,
    from: usize,
    door: Door,
)
    requires
        in_bounds(rooms, doors),
        from < rooms.len(),
        doors.len() + 1 <= usize::MAX,
        attached(rooms, doors, rooms2, doors2, from, door),
    ensures
        forall|r: int, k: int|
            #![trigger exit(rooms2[r].doors@, doors2, k)]
            0 <= r < rooms.len() && 0 <= k < rooms[r].doors@.len() ==> k < rooms2[r].doors@.len()
                && exit(rooms2[r].doors@, doors2, k) == exit(rooms[r].doors@, doors, k),
        exit(rooms2[from as int].doors@, doors2, rooms[from as int].doors@.len() as int) == door,
        exit(rooms2[rooms.len() as int].doors@, doors2, 0) == way_back(door, from),
{
    assert forall|r: int, k: int|
        #![trigger exit(rooms2[r].doors@, doors2, k)]
        0 <= r < rooms.len() && 0 <= k < rooms[r].doors@.len() implies k < rooms2[r].doors@.len()
        && exit(rooms2[r].doors@, doors2, k) == exit(rooms[r].doors@, doors, k) by {
        assert forall|i: int| 0 <= i < rooms[r].doors@.len() implies (
        #[trigger] rooms[r].doors@[i]) < doors.len() by {}
        lemma_exits_kept(rooms[r].doors@, doors, rooms2[r].doors@, doors2);
    }
}

/// Attaching a room through a door that its source can take keeps the dungeon
/// well formed.
proof fn lemma_attach_keeps_form(
    rooms: Seq<Room>,
    doors: Seq<Door>,
    rooms2: Seq<Room>,
    doors2: Seq<Door>,
    from: usize,
    door: Door,
)
    requires
        well_formed(rooms, doors),
        from < rooms.len(),
        valid_door(door, rooms[from as int].doors@, doors),
        door.target == rooms.len(),
        door.spawn_pos == opposite(door.direction),
        doors.len() + 1 <= usize::MAX,
        attached(rooms, doors, rooms2, doors2, from, door),
    ensures
        well_formed(rooms2, doors2),
{
    let m = rooms.len() as int;
    let f = doors.len() as int;
    let back = way_back(door, from);
    let last = rooms[from as int].doors@.len() as int;
    lemma_opposite(door.direction);
    assert(doors2[f] == door);
    assert(doors2[f + 1] == back);
    lemma_attached_keeps_exits(rooms, doors, rooms2, doors2, from, door);
    assert(exit(rooms2[from as int].doors@, doors2, last) == door);
    assert(exit(rooms2[m].doors@, doors2, 0) == back);

    assert(in_bounds(rooms2, doors2)) by {
        assert forall|r: int, k: int|
            0 <= r < rooms2.len() && 0 <= k < rooms2[r].doors@.len() implies (
        #[trigger] rooms2[r].doors@[k]) < doors2.len() && exit(rooms2[r].doors@, doors2, k).target
            < rooms2.len() by {
            if r < m && k < rooms[r].doors@.len() {
                assert(rooms2[r].doors@[k] == rooms[r].doors@[k]);
                assert(exit(rooms2[r].doors@, doors2, k) == exit(rooms[r].doors@, doors, k));
            }
        }
    }
    assert(no_duplicate_walls(rooms2, doors2)) by {
        assert forall|r: int| 0 <= r < rooms2.len() implies distinct_walls(
            (#[trigger] rooms2[r]).doors@,
            doors2,
        ) by {
            if r < m {
                assert(distinct_walls(rooms[r].doors@, doors));
                assert forall|i: int, j: int| 0 <= i < j < rooms2[r].doors@.len() implies (
                #[trigger] exit(rooms2[r].doors@, doors2, i)).direction != (#[trigger] exit(
                    rooms2[r].doors@,
                    doors2,
                    j,
                )).direction by {
                    assert(exit(rooms2[r].doors@, doors2, i) == exit(rooms[r].doors@, doors, i));
                    if j < rooms[r].doors@.len() {
                        assert(exit(rooms2[r].doors@, doors2, j) == exit(
                            rooms[r].doors@,
                            doors,
                            j,
                        ));
                    }
                }
            }
        }
    }
    assert(no_parallel_edges(rooms2, doors2)) by {
        assert forall|r: int| 0 <= r < rooms2.len() implies distinct_targets(
            (#[trigger] rooms2[r]).doors@,
            doors2,
        ) by {
            if r < m {
                assert(distinct_targets(rooms[r].doors@, doors));
                assert forall|i: int, j: int| 0 <= i < j < rooms2[r].doors@.len() implies (
                #[trigger] exit(rooms2[r].doors@, doors2, i)).target != (#[trigger] exit(
                    rooms2[r].doors@,
                    doors2,
                    j,
                )).target by {
                    assert(exit(rooms2[r].doors@, doors2, i) == exit(rooms[r].doors@, doors, i));
                    if j < rooms[r].doors@.len() {
                        assert(exit(rooms2[r].doors@, doors2, j) == exit(
                            rooms[r].doors@,
                            doors,
                            j,
                        ));
                    }
                }
            }
        }
    }
    assert(bidirectional(rooms2, doors2)) by {
        assert forall|r: int, k: int|
            0 <= r < rooms2.len() && 0 <= k < rooms2[r].doors@.len() implies {
            let d = #[trigger] exit(rooms2[r].doors@, doors2, k);
            &&& d.target < rooms2.len()
            &&& has_door(rooms2[d.target as int].doors@, doors2, opposite(d.direction), r)
        } by {
            let d = exit(rooms2[r].doors@, doors2, k);
            if r < m && k < rooms[r].doors@.len() {
                let old_d = exit(rooms[r].doors@, doors, k);
                assert(d == old_d);
                let t = d.target as int;
                assert(has_door(rooms[t].doors@, doors, opposite(d.direction), r));
                let w = choose|w: int|
                    0 <= w < rooms[t].doors@.len() && (#[trigger] exit(
                        rooms[t].doors@,
                        doors,
                        w,
                    )).direction == opposite(d.direction) && exit(rooms[t].doors@, doors, w).target
                        == r;
                assert(exit(rooms2[t].doors@, doors2, w) == exit(rooms[t].doors@, doors, w));
            } else if r == from {
                assert(k == last);
                assert(d == door);
                assert(exit(rooms2[m].doors@, doors2, 0) == back);
            } else {
                assert(r == m && k == 0);
                assert(d == back);
                assert(exit(rooms2[from as int].doors@, doors2, last) == door);
            }
        }
    }
    assert(rooted(rooms2, doors2)) by {
        assert forall|r: int| 0 < r < rooms2.len() implies #[trigger] has_parent(
            rooms2,
            doors2,
            r,
        ) by {
            if r < m {
                assert(has_parent(rooms, doors, r));
                let p = choose|p: int| 0 <= p < r && #[trigger] leads_to(rooms[p].doors@, doors, r);
                let w = choose|w: int|
                    0 <= w < rooms[p].doors@.len() && (#[trigger] exit(
                        rooms[p].doors@,
                        doors,
                        w,
                    )).target == r;
                assert(exit(rooms2[p].doors@, doors2, w) == exit(rooms[p].doors@, doors, w));
                assert(leads_to(rooms2[p].doors@, doors2, r));
            } else {
                assert(exit(rooms2[from as int].doors@, doors2, last).target == m);
                assert(leads_to(rooms2[from as int].doors@, doors2, r));
            }
        }
    }
    assert(arrivals_face_doors(doors2)) by {
        assert forall|i: int| 0 <= i < doors2.len() implies (#[trigger] doors2[i]).spawn_pos
            == opposite(doors2[i].direction) by {
            if i < f {
                assert(doors2[i] == doors[i]);
            }
        }
    }
}

/// The room that lists door `i` among its exits. Doors are made in pairs, a
/// door and its way back: the way back belongs to the room that the door
/// leads to, the door to the room that its way back leads to.
pub open spec fn owner(doors: Seq<Door>, i: int) -> int {
    if i % 2 == 0 {
        doors[i + 1].target as int
    } else {
        doors[i - 1].target as int
    }
}

/// Doors `2 * j` and `2 * j + 1` are the pair that came with room `j + 1`:
/// the first leads to that room, from a room made before it, and the second
/// is its way back.
pub open spec fn pair_made(doors: Seq<Door>, j: int) -> bool {
    &&& doors[2 * j].target == j + 1
    &&& doors[2 * j + 1].target <= j
    &&& doors[2 * j + 1] == way_back(doors[2 * j], doors[2 * j + 1].target)
}

/// Door `i` is among the exits of its owner.
pub open spec fn listed(rooms: Seq<Room>, doors: Seq<Door>, i: int) -> bool {
    exists|k: int|
        0 <= k < rooms[owner(doors, i)].doors@.len() && #[trigger] rooms[owner(
            doors,
            i,
        )].doors@[k] == i
}

/// The exits of room `r` are doors of its own, in the order they were made.
pub open spec fn exits_in_order(rooms: Seq<Room>, doors: Seq<Door>, r: int) -> bool {
    &&& forall|k: int|
        0 <= k < rooms[r].doors@.len() ==> (#[trigger] rooms[r].doors@[k]) < doors.len() && owner(
            doors,
            rooms[r].doors@[k] as int,
        ) == r
    &&& forall|i: int, j: int|
        0 <= i < j < rooms[r].doors@.len() ==> (#[trigger] rooms[r].doors@[i]) < (
        #[trigger] rooms[r].doors@[j])
}

/// How rooms and doors are laid out in a dungeon that was grown room by
/// room: the doors are the pairs that came with the rooms, in the order of
/// the rooms, and each room lists exactly the doors of its own, each once, in
/// the order they were made.
pub open spec fn laid_out(rooms: Seq<Room>, doors: Seq<Door>) -> bool {
    &&& rooms.len() >= 1
    &&& doors.len() == 2 * (rooms.len() - 1)
    &&& forall|j: int| 0 <= j < rooms.len() - 1 ==> #[trigger] pair_made(doors, j)
    &&& forall|r: int| 0 <= r < rooms.len() ==> #[trigger] exits_in_order(rooms, doors, r)
    &&& forall|i: int| 0 <= i < doors.len() ==> #[trigger] listed(rooms, doors, i)
}

/// Attaching a room to a dungeon that is laid out in pairs keeps it so.
proof fn lemma_attach_keeps_layout(
    rooms: Seq<Room>,
    doors: Seq<Door>,
    rooms2: Seq<Room>,
    doors2: Seq<Door>,
    from: usize,
    door: Door,
)
    requires
        laid_out(rooms, doors),
        from < rooms.len(),
        door.target == rooms.len(),
        doors.len() + 1 <= usize::MAX,
        attached(rooms, doors, rooms2, doors2, from, door),
    ensures
        laid_out(rooms2, doors2),
{
    let m = rooms.len() as int;
    let f = doors.len() as int;
    let last = rooms[from as int].doors@.len() as int;
    assert(doors2[f] == door);
    assert(doors2[f + 1] == way_back(door, from));
    assert forall|i: int| 0 <= i < f implies owner(doors2, i) == owner(doors, i) && 0 <= owner(
        doors,
        i,
    ) < m by {
        let j = i / 2;
        assert(pair_made(doors, j));
        assert(doors2[2 * j] == doors[2 * j]);
        assert(doors2[2 * j + 1] == doors[2 * j + 1]);
    }
    assert(owner(doors2, f) == from);
    assert(owner(doors2, f + 1) == m);
    assert forall|j: int| 0 <= j < rooms2.len() - 1 implies #[trigger] pair_made(doors2, j) by {
        if j < m - 1 {
            assert(pair_made(doors, j));
            assert(doors2[2 * j] == doors[2 * j]);
            assert(doors2[2 * j + 1] == doors[2 * j + 1]);
        }
    }
    assert forall|r: int| 0 <= r < rooms2.len() implies #[trigger] exits_in_order(
        rooms2,
        doors2,
        r,
    ) by {
        if r < m {
            assert(exits_in_order(rooms, doors, r));
            assert forall|k: int| 0 <= k < rooms2[r].doors@.len() implies (
            #[trigger] rooms2[r].doors@[k]) < doors2.len() && owner(
                doors2,
                rooms2[r].doors@[k] as int,
            ) == r by {
                if k < rooms[r].doors@.len() {
                    assert(rooms2[r].doors@[k] == rooms[r].doors@[k]);
                }
            }
            assert forall|i: int, j: int| 0 <= i < j < rooms2[r].doors@.len() implies (
            #[trigger] rooms2[r].doors@[i]) < (#[trigger] rooms2[r].doors@[j]) by {
                assert(rooms2[r].doors@[i] == rooms[r].doors@[i]);
                if j < rooms[r].doors@.len() {
                    assert(rooms2[r].doors@[j] == rooms[r].doors@[j]);
                }
            }
        }
    }
    assert forall|i: int| 0 <= i < doors2.len() implies #[trigger] listed(rooms2, doors2, i) by {
        if i < f {
            assert(listed(rooms, doors, i));
            let o = owner(doors, i);
            let k = choose|k: int| 0 <= k < rooms[o].doors@.len() && #[trigger] rooms[o].doors@[k] == i;
            assert(rooms2[o].doors@[k] == i);
        } else if i == f {
            assert(rooms2[from as int].doors@[last] == f);
        } else {
            assert(rooms2[m].doors@[0] == f + 1);
        }
    }
}

/// Walking from parent to child shows that every room of a rooted dungeon can
/// be reached from the first.
pub proof fn lemma_rooted_reachable(rooms: Seq<Room>, doors: Seq<Door>, r: int)
    requires
        rooted(rooms, doors),
        0 <= r < rooms.len(),
    ensures
        reachable(rooms, doors, r),
    decreases r,
{
    if r == 0 {
        let walk = seq![0int];
        assert(is_walk(rooms, doors, walk));
        assert(walk[0] == 0 && walk.last() == r);
    } else {
        assert(has_parent(rooms, doors, r));
        let p = choose|p: int| 0 <= p < r && #[trigger] leads_to(rooms[p].doors@, doors, r);
        lemma_rooted_reachable(rooms, doors, p);
        let before = choose|walk: Seq<int>|
            #[trigger] is_walk(rooms, doors, walk) && walk[0] == 0 && walk.last() == p;
        let walk = before.push(r);
        assert forall|i: int| 0 <= i < walk.len() - 1 implies leads_to(
            rooms[#[trigger] walk[i]].doors@,
            doors,
            walk[i + 1],
        ) by {
            if i < before.len() - 1 {
                assert(walk[i] == before[i]);
                assert(walk[i + 1] == before[i + 1]);
            }
        }
        assert(is_walk(rooms, doors, walk));
        assert(walk[0] == 0 && walk.last() == r);
    }
}

/// A well-formed dungeon is connected.
pub proof fn lemma_well_formed_connected(rooms: Seq<Room>, doors: Seq<Door>)
    requires
        well_formed(rooms, doors),
    ensures
        connected(rooms, doors),
{
    assert forall|r: int| 0 <= r < rooms.len() implies #[trigger] reachable(rooms, doors, r) by {
        lemma_rooted_reachable(rooms, doors, r);
    }
}

/// The number of exits that the first `n` rooms have between them.
pub open spec fn exit_count(rooms: Seq<Room>, n: int) -> int
    decreases n,
{
    if n <= 0 {
        0
    } else {
        exit_count(rooms, n - 1) + rooms[n - 1].doors@.len()
    }
}

/// The number of exits of room `j` in a bare chain of `chain` rooms: one
/// back, but for the first room, and one on, but for the last.
pub open spec fn chain_exits(chain: int, j: int) -> int {
    (if j > 0 {
        1int
    } else {
        0int
    }) + (if j < chain - 1 {
        1int
    } else {
        0int
    })
}

/// Room `j` leads on to the next room: through its first exit if it is the
/// first room, through its second if it is not.
pub open spec fn leads_on(rooms: Seq<Room>, doors: Seq<Door>, j: int) -> bool {
    let k = if j == 0 {
        0int
    } else {
        1int
    };
    k < rooms[j].doors@.len() && exit(rooms[j].doors@, doors, k).target == j + 1
}

/// The first exit of room `j` leads back to the room before it.
pub open spec fn leads_back(rooms: Seq<Room>, doors: Seq<Door>, j: int) -> bool {
    0 < rooms[j].doors@.len() && exit(rooms[j].doors@, doors, 0).target == j - 1
}

/// The first `chain` rooms form the main chain: each leads on to the next,
/// and each leads back to the one before.
pub open spec fn main_chain(rooms: Seq<Room>, doors: Seq<Door>, chain: int) -> bool {
    &&& 1 <= chain <= rooms.len()
    &&& forall|j: int| 0 <= j < chain - 1 ==> #[trigger] leads_on(rooms, doors, j)
    &&& forall|j: int| 0 < j < chain ==> #[trigger] leads_back(rooms, doors, j)
}

/// Room `r` is a dead end off a main chain of `chain` rooms: its only exit
/// leads back to a room of the chain that is not the last.
pub open spec fn dead_end(rooms: Seq<Room>, doors: Seq<Door>, chain: int, r: int) -> bool {
    &&& rooms[r].doors@.len() == 1
    &&& exit(rooms[r].doors@, doors, 0).target < chain - 1
}

/// Rooms with as many exits have as many exits between them.
proof fn lemma_exit_count_same(rooms: Seq<Room>, rooms2: Seq<Room>, n: int)
    requires
        forall|r: int| 0 <= r < n ==> (#[trigger] rooms2[r]).doors@.len() == rooms[r].doors@.len(),
    ensures
        exit_count(rooms2, n) == exit_count(rooms, n),
    decreases n,
{
    if n > 0 {
        lemma_exit_count_same(rooms, rooms2, n - 1);
        assert(rooms2[n - 1].doors@.len() == rooms[n - 1].doors@.len());
    }
}

/// One more exit in one of the first `n` rooms is one more exit between them.
proof fn lemma_exit_count_grown(rooms: Seq<Room>, rooms2: Seq<Room>, n: int, from: int)
    requires
        0 <= from < n,
        rooms2[from].doors@.len() == rooms[from].doors@.len() + 1,
        forall|r: int|
            0 <= r < n && r != from ==> (#[trigger] rooms2[r]).doors@.len() == rooms[r].doors@.len(),
    ensures
        exit_count(rooms2, n) == exit_count(rooms, n) + 1,
    decreases n,
{
    if n - 1 == from {
        lemma_exit_count_same(rooms, rooms2, n - 1);
    } else {
        lemma_exit_count_grown(rooms, rooms2, n - 1, from);
        assert(rooms2[n - 1].doors@.len() == rooms[n - 1].doors@.len());
    }
}

/// The first `n` rooms of a bare chain that is longer than `n` have `2n - 1`
/// exits between them.
proof fn lemma_exit_count_chain(rooms: Seq<Room>, chain: int, n: int)
    requires
        1 <= n < chain,
        forall|j: int| 0 <= j < chain ==> (#[trigger] rooms[j]).doors@.len() == chain_exits(chain, j),
    ensures
        exit_count(rooms, n) == 2 * n - 1,
    decreases n,
{
    assert(rooms[n - 1].doors@.len() == chain_exits(chain, n - 1));
    if n > 1 {
        lemma_exit_count_chain(rooms, chain, n - 1);
    } else {
        assert(exit_count(rooms, 0) == 0);
    }
}

/// Where the first `n` rooms have fewer exits between them than walls, one of
/// them has fewer exits than walls.
pub proof fn lemma_room_with_free_wall(rooms: Seq<Room>, n: int)
    requires
        exit_count(rooms, n) < WALLS * n,
    ensures
        exists|r: int| 0 <= r < n && (#[trigger] rooms[r]).doors@.len() < WALLS,
    decreases n,
{
    if n > 0 {
        if rooms[n - 1].doors@.len() >= WALLS {
            lemma_room_with_free_wall(rooms, n - 1);
        }
    }
}

/// The door back: on the facing wall, leading to `cur_room`, arriving where
/// `door` stands.
pub open spec fn way_back(door: Door, cur_room: usize) -> Door {
    Door { direction: opposite(door.direction), target: cur_room, spawn_pos: door.direction }
}

/// Whether the room `room` can take `door`.
pub fn check_valid_door(door: Door, room: &Room, doors: &[Door]) -> (check: bool)
    requires
        exits_listed(room.doors@, doors@),
    ensures
        check == valid_door(door, room.doors@, doors@),
{
    let mut free_wall = true;
    let mut new_target = true;
    let mut n: usize = 0;
    while n < room.doors.len()
        invariant
            n <= room.doors.len(),
            exits_listed(room.doors@, doors@),
            free_wall == (forall|k: int|
                0 <= k < n ==> (#[trigger] exit(room.doors@, doors@, k)).direction
                    != door.direction),
            new_target == (forall|k: int|
                0 <= k < n ==> (#[trigger] exit(room.doors@, doors@, k)).target != door.target),
        decreases room.doors.len() - n,
    {
        let other = doors[room.doors[n]];
        assert(other == exit(room.doors@, doors@, n as int));
        if door.direction == other.direction {
            free_wall = false;
        }
        if door.target == other.target {
            new_target = false;
        }
        n += 1;
    }
    free_wall && new_target
}

/// The door that leads back through `door` to `cur_room`.
pub fn create_bidirectional_door(door: Door, cur_room: usize) -> (back_door: Door)
    ensures
        back_door == way_back(door, cur_room),
{
    Door::new(get_spawn_dir(door.direction), cur_room, door.direction)
}

/// A door to `target` on a wall drawn at random.
pub fn generate_door(target: usize, rng: &mut StdRng) -> (door: Door)
    ensures
        door.target == target,
        door.spawn_pos == opposite(door.direction),
{
    let drawn: usize = random_range(rng, 0, WALLS);
    let direction = get_dir(drawn as u32);
    Door::new(direction, target, get_spawn_dir(direction))
}

/// A door to `target` that `room` can take, on a wall drawn at random.
///
/// Walls are drawn until one is free. After `RETRY_LIMIT` draws the first free
/// wall, counting clockwise from north, is taken instead.
pub fn gen_valid_door(room: &Room, target: usize, doors: &[Door], rng: &mut StdRng) -> (door: Door)
    requires
        exits_listed(room.doors@, doors@),
        exists|dir: Direction| !wall_taken(room.doors@, doors@, dir),
        !leads_to(room.doors@, doors@, target as int),
    ensures
        valid_door(door, room.doors@, doors@),
        door.target == target,
        door.spawn_pos == opposite(door.direction),
{
    let mut draws: usize = 0;
    while draws < RETRY_LIMIT
        invariant
            exits_listed(room.doors@, doors@),
        decreases RETRY_LIMIT - draws,
    {
        let door = generate_door(target, rng);
        if check_valid_door(door, room, doors) {
            return door;
        }
        draws += 1;
    }
    let north = Door::new(Direction::North, target, Direction::South);
    if check_valid_door(north, room, doors) {
        return north;
    }
    let east = Door::new(Direction::East, target, Direction::West);
    if check_valid_door(east, room, doors) {
        return east;
    }
    let south = Door::new(Direction::South, target, Direction::North);
    if check_valid_door(south, room, doors) {
        return south;
    }
    Door::new(Direction::West, target, Direction::East)
}

/// Attaches a new room to room `from` through `door`: appends the door and its
/// way back to the doors, the door's position to the exits of room `from`, and
/// the new room, whose only exit is the way back, to the rooms.
///
/// A well-formed dungeon stays well formed if room `from` can take the door,
/// the door leads to the new room, and its arrival wall faces it. A dungeon
/// that is laid out in pairs stays so if the door leads to the new room.
pub fn attach_room(rooms: &mut Vec<Room>, doors: &mut Vec<Door>, from: usize, door: Door)
    requires
        from < old(rooms).len(),
        old(doors).len() + 1 <= usize::MAX,
    ensures
        attached(old(rooms)@, old(doors)@, final(rooms)@, final(doors)@, from, door),
        well_formed(old(rooms)@, old(doors)@) && valid_door(
            door,
            old(rooms)[from as int].doors@,
            old(doors)@,
        ) && door.target == old(rooms).len() && door.spawn_pos == opposite(door.direction)
            ==> well_formed(final(rooms)@, final(doors)@),
        laid_out(old(rooms)@, old(doors)@) && door.target == old(rooms).len() ==> laid_out(
            final(rooms)@,
            final(doors)@,
        ),
{
    let back_door = create_bidirectional_door(door, from);
    doors.push(door);
    let num_doors: usize = doors.len() - 1;
    rooms[from].doors.push(num_doors);
    doors.push(back_door);
    let room2 = Room::new(vec![num_doors + 1]);
    rooms.push(room2);
    proof {
        assert(doors@ =~= old(doors)@.push(door).push(way_back(door, from)));
        assert(rooms@[old(rooms)@.len() as int].doors@ =~= seq![(old(doors)@.len() + 1) as usize]);
        if well_formed(old(rooms)@, old(doors)@) && valid_door(
            door,
            old(rooms)[from as int].doors@,
            old(doors)@,
        ) && door.target == old(rooms).len() && door.spawn_pos == opposite(door.direction) {
            lemma_attach_keeps_form(old(rooms)@, old(doors)@, rooms@, doors@, from, door);
        }
        if laid_out(old(rooms)@, old(doors)@) && door.target == old(rooms).len() {
            lemma_attach_keeps_layout(old(rooms)@, old(doors)@, rooms@, doors@, from, door);
        }
    }
}

/// Draws the room off which the next dead end branches: one of the first
/// `eligible` rooms that still has a free wall.
///
/// Rooms are drawn until one has a free wall. After `RETRY_LIMIT` draws the
/// first room with a free wall is taken instead.
fn pick_branch_room(rooms: &Vec<Room>, eligible: usize, rng: &mut StdRng) -> (roomidx: usize)
    requires
        eligible <= rooms.len(),
        exists|r: int| 0 <= r < eligible && (#[trigger] rooms@[r]).doors@.len() < WALLS,
    ensures
        roomidx < eligible,
        rooms@[roomidx as int].doors@.len() < WALLS,
{
    let mut draws: usize = 0;
    while draws < RETRY_LIMIT
        invariant
            0 < eligible <= rooms.len(),
        decreases RETRY_LIMIT - draws,
    {
        let roomidx: usize = random_range(rng, 0, eligible);
        if rooms[roomidx].doors.len() < WALLS {
            return roomidx;
        }
        draws += 1;
    }
    let mut roomidx: usize = 0;
    while rooms[roomidx].doors.len() >= WALLS
        invariant
            roomidx < eligible <= rooms.len(),
            forall|r: int| 0 <= r < roomidx ==> (#[trigger] rooms@[r]).doors@.len() >= WALLS,
            exists|r: int| 0 <= r < eligible && (#[trigger] rooms@[r]).doors@.len() < WALLS,
        decreases eligible - roomidx,
    {
        roomidx += 1;
    }
    roomidx
}

/// Builds a dungeon: a main chain of `num_rooms` rooms, each joined to the
/// next by a door and its way back, and then `num_dead_ends` further rooms,
/// each hung by such a pair on a room of the chain that is not its last and
/// still has a free wall.
///
/// Which walls the doors are on, and which rooms the dead ends hang on, is
/// drawn from `rng`. A chain of `num_rooms` rooms has `2 * num_rooms - 1` free
/// walls to hang dead ends on.
pub fn generate_room_map(num_rooms: u32, num_dead_ends: usize, rng: &mut StdRng) -> (map: (
    Vec<Room>,
    Vec<Door>,
))
    requires
        num_rooms >= 2,
        num_dead_ends <= 2 * num_rooms - 1,
        2 * (num_rooms + num_dead_ends) <= usize::MAX,
    ensures
        map.0.len() == num_rooms + num_dead_ends,
        map.1.len() == 2 * (num_rooms + num_dead_ends - 1),
        well_formed(map.0@, map.1@),
        laid_out(map.0@, map.1@),
        connected(map.0@, map.1@),
        bidirectional(map.0@, map.1@),
        no_duplicate_walls(map.0@, map.1@),
        no_parallel_edges(map.0@, map.1@),
        main_chain(map.0@, map.1@, num_rooms as int),
        map.0@[num_rooms - 1].doors@.len() == 1,
        forall|r: int| num_rooms <= r < map.0.len() ==> #[trigger] dead_end(map.0@, map.1@, num_rooms as int, r),
        exit_count(map.0@, num_rooms - 1) == 2 * num_rooms - 3 + num_dead_ends,
        num_dead_ends == 0 ==> forall|j: int|
            0 <= j < num_rooms ==> (#[trigger] map.0@[j]).doors@.len() == chain_exits(
                num_rooms as int,
                j,
            ),
{
    let chain: usize = num_rooms as usize;
    let mut rooms = Vec::<Room>::new();
    let mut doors = Vec::<Door>::new();
    rooms.push(Room::new(Vec::new()));
    let mut n: usize = 0;
    while n < chain - 1
        invariant
            chain == num_rooms,
            chain >= 2,
            2 * (num_rooms + num_dead_ends) <= usize::MAX,
            n <= chain - 1,
            rooms.len() == n + 1,
            well_formed(rooms@, doors@),
            laid_out(rooms@, doors@),
            main_chain(rooms@, doors@, n + 1),
            forall|j: int| 0 <= j <= n ==> (#[trigger] rooms@[j]).doors@.len() == chain_exits(n + 1, j),
        decreases chain - 1 - n,
    {
        let ghost rooms0 = rooms@;
        let ghost doors0 = doors@;
        proof {
            assert(rooms0[n as int].doors@.len() == chain_exits(n + 1, n as int));
            lemma_free_wall(rooms0[n as int].doors@, doors0);
            lemma_no_way_out(rooms0, doors0, n as int);
        }
        let door = gen_valid_door(&rooms[n], n + 1, doors.as_slice(), rng);
        attach_room(&mut rooms, &mut doors, n, door);
        proof {
            lemma_attached_keeps_exits(rooms0, doors0, rooms@, doors@, n, door);
            assert forall|j: int| 0 <= j <= n + 1 implies (#[trigger] rooms@[j]).doors@.len()
                == chain_exits(n + 2, j) by {
                if j < n {
                    assert(rooms@[j] == rooms0[j]);
                    assert(rooms0[j].doors@.len() == chain_exits(n + 1, j));
                }
            }
            assert forall|j: int| 0 <= j < n + 1 implies #[trigger] leads_on(rooms@, doors@, j) by {
                if j < n {
                    assert(leads_on(rooms0, doors0, j));
                }
            }
            assert forall|j: int| 0 < j < n + 2 implies #[trigger] leads_back(rooms@, doors@, j) by {
                if j <= n {
                    assert(leads_back(rooms0, doors0, j));
                }
            }
        }
        n += 1;
    }
    proof {
        if chain >= 3 {
            lemma_exit_count_chain(rooms@, chain as int, chain - 1);
        } else {
            assert(rooms@[0].doors@.len() == chain_exits(chain as int, 0));
            assert(exit_count(rooms@, 0) == 0);
            assert(exit_count(rooms@, 1) == 1);
        }
        assert(rooms@[chain - 1].doors@.len() == chain_exits(chain as int, chain - 1));
    }
    let mut curr_dead_ends: usize = 0;
    while curr_dead_ends < num_dead_ends
        invariant
            chain == num_rooms,
            chain >= 2,
            num_dead_ends <= 2 * chain - 1,
            2 * (num_rooms + num_dead_ends) <= usize::MAX,
            curr_dead_ends <= num_dead_ends,
            rooms.len() == chain + curr_dead_ends,
            well_formed(rooms@, doors@),
            laid_out(rooms@, doors@),
            main_chain(rooms@, doors@, chain as int),
            rooms@[chain - 1].doors@.len() == 1,
            forall|r: int| chain <= r < rooms.len() ==> #[trigger] dead_end(rooms@, doors@, chain as int, r),
            exit_count(rooms@, chain - 1) == 2 * chain - 3 + curr_dead_ends,
            curr_dead_ends == 0 ==> forall|j: int|
                0 <= j < chain ==> (#[trigger] rooms@[j]).doors@.len() == chain_exits(chain as int, j),
        decreases num_dead_ends - curr_dead_ends,
    {
        let ghost rooms0 = rooms@;
        let ghost doors0 = doors@;
        proof {
            lemma_room_with_free_wall(rooms0, chain - 1);
        }
        let roomidx = pick_branch_room(&rooms, chain - 1, rng);
        proof {
            lemma_free_wall(rooms0[roomidx as int].doors@, doors0);
            lemma_no_way_out(rooms0, doors0, roomidx as int);
        }
        let door = gen_valid_door(&rooms[roomidx], chain + curr_dead_ends, doors.as_slice(), rng);
        attach_room(&mut rooms, &mut doors, roomidx, door);
        proof {
            lemma_attached_keeps_exits(rooms0, doors0, rooms@, doors@, roomidx, door);
            lemma_exit_count_grown(rooms0, rooms@, chain - 1, roomidx as int);
            assert forall|j: int| 0 <= j < chain - 1 implies #[trigger] leads_on(rooms@, doors@, j) by {
                assert(leads_on(rooms0, doors0, j));
            }
            assert forall|j: int| 0 < j < chain implies #[trigger] leads_back(rooms@, doors@, j) by {
                assert(leads_back(rooms0, doors0, j));
            }
            assert forall|r: int| chain <= r < rooms.len() implies #[trigger] dead_end(
                rooms@,
                doors@,
                chain as int,
                r,
            ) by {
                if r < rooms0.len() {
                    assert(dead_end(rooms0, doors0, chain as int, r));
                    assert(rooms@[r] == rooms0[r]);
                }
            }
        }
        curr_dead_ends += 1;
    }
    proof {
        lemma_well_formed_connected(rooms@, doors@);
    }
    (rooms, doors)
}

} // verus!
