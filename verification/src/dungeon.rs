//! Level generation: rooms that do not touch, joined by corridors, seeded
//! with monsters and items.

use vstd::prelude::*;
use crate::color::white;
use crate::config::{MAP_HEIGHT, MAP_WIDTH, MAX_ROOMS, PLAYER, ROOM_MAX_SIZE, ROOM_MIN_SIZE};
use crate::dice::{coin_flip, roll_range};
use crate::encounter::{place_objects, seeded, spawned_item, spawned_monster};
use crate::entity::{lemma_views_push, lemma_views_update, views, Object, ObjectView};
use crate::grid::{
    create_h_tunnel, create_room, create_v_tunnel, grid_view, grid_wf, in_bounds, inside, lower,
    upper, walled, with_h_tunnel, with_room, with_v_tunnel, Grid, Rect, Tile,
};

verus! {

/// The room has a side of the allowed size each way and lies on the level,
/// its walls included.
pub open spec fn proper(room: Rect) -> bool {
    &&& 0 <= room.x1
    &&& room.x1 + ROOM_MIN_SIZE <= room.x2 <= room.x1 + ROOM_MAX_SIZE
    &&& room.x2 < MAP_WIDTH
    &&& 0 <= room.y1
    &&& room.y1 + ROOM_MIN_SIZE <= room.y2 <= room.y1 + ROOM_MAX_SIZE
    &&& room.y2 < MAP_HEIGHT
}

/// No two rooms share a point, boundaries included.
pub open spec fn disjoint(rooms: Seq<Rect>) -> bool {
    forall|i: int, j: int|
        0 <= i < rooms.len() && 0 <= j < rooms.len() && i != j ==> !(#[trigger] rooms[i]).overlaps(
            #[trigger] rooms[j],
        )
}

/// `(x, y)` lies on the corridor from `a` to `b`: an L that leaves `a`
/// horizontally if `horizontal_first`, and vertically otherwise.
pub open spec fn on_corridor(
    a: (int, int),
    b: (int, int),
    horizontal_first: bool,
    x: int,
    y: int,
) -> bool {
    if horizontal_first {
        (y == a.1 && lower(a.0, b.0) <= x <= upper(a.0, b.0)) || (x == b.0 && lower(a.1, b.1) <= y
            <= upper(a.1, b.1))
    } else {
        (y == b.1 && lower(a.0, b.0) <= x <= upper(a.0, b.0)) || (x == a.0 && lower(a.1, b.1) <= y
            <= upper(a.1, b.1))
    }
}

/// `(x, y)` is opened by the rooms: it is a floor tile of one of them, or
/// lies on the corridor from a room to the next. `turns[i]` says whether the
/// corridor that reaches room `i` leaves the room before it horizontally.
pub open spec fn opened_by(rooms: Seq<Rect>, turns: Seq<bool>, x: int, y: int) -> bool
    decreases rooms.len(),
{
    if rooms.len() == 0 {
        false
    } else {
        let last = rooms.len() - 1;
        ||| opened_by(rooms.drop_last(), turns.drop_last(), x, y)
        ||| rooms[last].holds(x, y)
        ||| (last >= 1 && on_corridor(
            rooms[last - 1].middle(),
            rooms[last].middle(),
            turns[last],
            x,
            y,
        ))
    }
}

/// The grid is the level that the rooms and their corridors carve out of
/// solid rock.
pub open spec fn carved(tiles: Seq<Seq<Tile>>, rooms: Seq<Rect>, turns: Seq<bool>) -> bool {
    &&& grid_wf(tiles)
    &&& turns.len() == rooms.len()
    &&& forall|x: int, y: int|
        in_bounds(x, y) ==> #[trigger] tiles[x][y] == (if opened_by(rooms, turns, x, y) {
            Tile::floor()
        } else {
            Tile::rock()
        })
}

/// The object at place `at` was spawned in `room`.
pub open spec fn spawned(
    tiles: Seq<Seq<Tile>>,
    objects: Seq<ObjectView>,
    at: int,
    room: Rect,
    level: u32,
) -> bool {
    spawned_monster(tiles, objects, at, room, level) || spawned_item(tiles, objects, at, room, level)
}

/// The stairs down at `(x, y)`: they stay on show once seen.
pub open spec fn stairs_at(x: i32, y: i32) -> ObjectView {
    ObjectView { always_visible: true, ..ObjectView::plain(x, y, '<', "stairs"@, white(), false) }
}

/// The object at place `at` was spawned in a room after the first.
pub open spec fn spawned_in_some(
    tiles: Seq<Seq<Tile>>,
    rooms: Seq<Rect>,
    objects: Seq<ObjectView>,
    at: int,
    level: u32,
) -> bool {
    exists|i: int| 1 <= i < rooms.len() && #[trigger] spawned(tiles, objects, at, rooms[i], level)
}

/// The objects from place one on, up to `until`, were each spawned in a room
/// after the first.
pub open spec fn populated(
    tiles: Seq<Seq<Tile>>,
    rooms: Seq<Rect>,
    objects: Seq<ObjectView>,
    until: int,
    level: u32,
) -> bool {
    forall|k: int| 1 <= k < until ==> #[trigger] spawned_in_some(tiles, rooms, objects, k, level)
}

/// A generated level: at least one room; rooms of the allowed size that do
/// not touch; a grid that is exactly what the rooms and their corridors
/// carve, walled all around; the player in the middle of the first room; the
/// stairs in the middle of the last; and in between what the rooms after the
/// first were seeded with.
pub open spec fn level_built(
    tiles: Seq<Seq<Tile>>,
    rooms: Seq<Rect>,
    player: ObjectView,
    objects: Seq<ObjectView>,
    level: u32,
) -> bool {
    &&& 1 <= rooms.len() <= MAX_ROOMS
    &&& forall|i: int| 0 <= i < rooms.len() ==> proper(#[trigger] rooms[i])
    &&& disjoint(rooms)
    &&& exists|turns: Seq<bool>| #[trigger] carved(tiles, rooms, turns)
    &&& walled(tiles)
    &&& objects.len() >= 2
    &&& objects[0] == player.moved_to(rooms[0].middle().0 as i32, rooms[0].middle().1 as i32)
    &&& objects.last() == stairs_at(
        rooms.last().middle().0 as i32,
        rooms.last().middle().1 as i32,
    )
    &&& populated(tiles, rooms, objects, objects.len() - 1, level)
}

/// Adding a room opens what was open, its floor, and its corridor.
pub proof fn lemma_opened_push(
    rooms: Seq<Rect>,
    turns: Seq<bool>,
    room: Rect,
    turn: bool,
    x: int,
    y: int,
)
    requires
        turns.len() == rooms.len(),
    ensures
        opened_by(rooms.push(room), turns.push(turn), x, y) == (opened_by(rooms, turns, x, y)
            || room.holds(x, y) || (rooms.len() >= 1 && on_corridor(
            rooms.last().middle(),
            room.middle(),
            turn,
            x,
            y,
        ))),
{
    assert(rooms.push(room).drop_last() =~= rooms);
    assert(turns.push(turn).drop_last() =~= turns);
}

/// The middle of a proper room is a floor tile of it.
pub proof fn lemma_middle_inside(room: Rect)
    requires
        proper(room),
    ensures
        room.holds(room.middle().0, room.middle().1),
        inside(room.middle().0, room.middle().1),
{
}

/// Proper rooms open nothing on the outer ring of the level.
pub proof fn lemma_opened_inside(rooms: Seq<Rect>, turns: Seq<bool>, x: int, y: int)
    requires
        forall|i: int| 0 <= i < rooms.len() ==> proper(#[trigger] rooms[i]),
        opened_by(rooms, turns, x, y),
    ensures
        inside(x, y),
    decreases rooms.len(),
{
    let last = rooms.len() - 1;
    if opened_by(rooms.drop_last(), turns.drop_last(), x, y) {
        assert forall|i: int| 0 <= i < rooms.drop_last().len() implies proper(
            #[trigger] rooms.drop_last()[i],
        ) by {
            assert(rooms.drop_last()[i] == rooms[i]);
        }
        lemma_opened_inside(rooms.drop_last(), turns.drop_last(), x, y);
    } else if rooms[last].holds(x, y) {
        assert(proper(rooms[last]));
    } else {
        assert(proper(rooms[last]));
        assert(proper(rooms[last - 1]));
        lemma_middle_inside(rooms[last]);
        lemma_middle_inside(rooms[last - 1]);
    }
}

/// The floor of every room is open.
pub proof fn lemma_room_floor_open(rooms: Seq<Rect>, turns: Seq<bool>, i: int, x: int, y: int)
    requires
        0 <= i < rooms.len(),
        rooms[i].holds(x, y),
    ensures
        opened_by(rooms, turns, x, y),
    decreases rooms.len(),
{
    if i < rooms.len() - 1 {
        lemma_room_floor_open(rooms.drop_last(), turns.drop_last(), i, x, y);
    }
}

/// What was spawned stays spawned when objects arrive after it and its tile
/// stays open.
proof fn lemma_spawned_stays(
    before: Seq<Seq<Tile>>,
    after: Seq<Seq<Tile>>,
    objects: Seq<ObjectView>,
    grown: Seq<ObjectView>,
    at: int,
    room: Rect,
    level: u32,
)
    requires
        0 <= at < objects.len() <= grown.len(),
        grown.take(objects.len() as int) == objects,
        spawned(before, objects, at, room, level),
        !after[objects[at].x as int][objects[at].y as int].blocked,
    ensures
        spawned(after, grown, at, room, level),
{
    assert(grown.take(objects.len() as int)[at] == grown[at]);
    assert(grown.take(at) =~= objects.take(at)) by {
        assert forall|k: int| 0 <= k < at implies grown.take(at)[k] == objects.take(at)[k] by {
            assert(grown.take(objects.len() as int)[k] == grown[k]);
        }
    }
}

/// A grid of solid rock.
pub fn solid_grid() -> (map: Grid)
    ensures
        grid_wf(grid_view(&map)),
        forall|x: int, y: int| in_bounds(x, y) ==> #[trigger] grid_view(&map)[x][y] == Tile::rock(),
{
    let mut map: Grid = Vec::new();
    let mut x: i32 = 0;
    while x < MAP_WIDTH
        invariant
            0 <= x <= MAP_WIDTH,
            map.len() == x,
            forall|i: int|
                0 <= i < x ==> (#[trigger] map[i]).len() == MAP_HEIGHT && forall|j: int|
                    0 <= j < MAP_HEIGHT ==> #[trigger] map[i][j] == Tile::rock(),
        decreases MAP_WIDTH - x,
    {
        let mut column: Vec<Tile> = Vec::new();
        let mut y: i32 = 0;
        while y < MAP_HEIGHT
            invariant
                0 <= y <= MAP_HEIGHT,
                column.len() == y,
                forall|j: int| 0 <= j < y ==> #[trigger] column[j] == Tile::rock(),
            decreases MAP_HEIGHT - y,
        {
            column.push(Tile::wall());
            y = y + 1;
        }
        map.push(column);
        x = x + 1;
    }
    assert forall|x: int, y: int| in_bounds(x, y) implies #[trigger] grid_view(&map)[x][y]
        == Tile::rock() by {
        assert(grid_view(&map)[x] == map[x]@);
        assert(map[x][y] == Tile::rock());
    }
    assert forall|x: int| 0 <= x < MAP_WIDTH implies (#[trigger] grid_view(&map)[x]).len()
        == MAP_HEIGHT by {
        assert(map[x].len() == MAP_HEIGHT);
    }
    map
}

/// Whether `room` shares a point with any of `rooms`.
fn overlaps_any(room: &Rect, rooms: &Vec<Rect>) -> (hit: bool)
    ensures
        hit <==> exists|j: int| 0 <= j < rooms.len() && room.overlaps(#[trigger] rooms[j]),
{
    let mut j: usize = 0;
    while j < rooms.len()
        invariant
            j <= rooms.len(),
            forall|k: int| 0 <= k < j ==> !room.overlaps(#[trigger] rooms[k]),
        decreases rooms.len() - j,
    {
        if room.intersects_with(&rooms[j]) {
            return true;
        }
        j = j + 1;
    }
    false
}

/// `room` shares a point with one of `rooms`.
pub open spec fn touches_any(room: Rect, rooms: Seq<Rect>) -> bool {
    exists|j: int| 0 <= j < rooms.len() && room.overlaps(#[trigger] rooms[j])
}

/// The grid after `room` joins `rooms`: its floor is opened and, unless it is
/// the first room, so is the corridor from the middle of the last room to its
/// own, which leaves the last room horizontally if `horizontal_first` and
/// vertically otherwise.
pub open spec fn with_joined_room(
    tiles: Seq<Seq<Tile>>,
    rooms: Seq<Rect>,
    room: Rect,
    horizontal_first: bool,
) -> Seq<Seq<Tile>> {
    let opened = with_room(tiles, room);
    if rooms.len() == 0 {
        opened
    } else {
        let from = rooms.last().middle();
        let to = room.middle();
        if horizontal_first {
            with_v_tunnel(with_h_tunnel(opened, from.0, to.0, from.1), from.1, to.1, to.0)
        } else {
            with_v_tunnel(with_h_tunnel(opened, from.0, to.0, to.1), from.1, to.1, from.0)
        }
    }
}

/// The objects after `room` joins `rooms`: the first room receives the
/// player in its middle; a later room moves nobody.
pub open spec fn with_player_placed(
    objects: Seq<ObjectView>,
    rooms: Seq<Rect>,
    room: Rect,
) -> Seq<ObjectView> {
    if rooms.len() == 0 {
        objects.update(
            PLAYER as int,
            objects[PLAYER as int].moved_to(room.middle().0 as i32, room.middle().1 as i32),
        )
    } else {
        objects
    }
}

/// What joining `room` to `rooms` needs, if the room is accepted: its floor
/// on the level, and both ends of its corridor on the level.
pub open spec fn room_ready(room: Rect, rooms: Seq<Rect>) -> bool {
    !touches_any(room, rooms) ==> {
        &&& room.fits()
        &&& rooms.len() > 0 ==> in_bounds(room.middle().0, room.middle().1) && in_bounds(
            rooms.last().middle().0,
            rooms.last().middle().1,
        )
    }
}

/// Takes one drawn room. A room that shares a point with an accepted room is
/// given up and nothing changes. Any other room is accepted: its floor is
/// carved; the first room receives the player in its middle; a later room is
/// joined to the room before it by a corridor that leaves that room
/// horizontally if `horizontal_first` and vertically otherwise. Returns
/// whether the room was accepted.
pub fn add_room(
    new_room: Rect,
    horizontal_first: bool,
    rooms: &mut Vec<Rect>,
    map: &mut Grid,
    objects: &mut Vec<Object>,
) -> (accepted: bool)
    requires
        grid_wf(grid_view(old(map))),
        old(objects).len() > PLAYER,
        room_ready(new_room, old(rooms)@),
    ensures
        accepted == !touches_any(new_room, old(rooms)@),
        grid_wf(grid_view(final(map))),
        final(objects).len() == old(objects).len(),
        !accepted ==> final(rooms)@ == old(rooms)@ && grid_view(final(map)) == grid_view(old(map))
            && views(final(objects)@) == views(old(objects)@),
        accepted ==> final(rooms)@ == old(rooms)@.push(new_room) && grid_view(final(map))
            == with_joined_room(grid_view(old(map)), old(rooms)@, new_room, horizontal_first)
            && views(final(objects)@) == with_player_placed(
            views(old(objects)@),
            old(rooms)@,
            new_room,
        ),
{
    if overlaps_any(&new_room, rooms) {
        return false;
    }
    create_room(new_room, map);
    let (new_x, new_y) = new_room.center();
    if rooms.is_empty() {
        let ghost before = objects@;
        assert(views(before)[PLAYER as int] == before[PLAYER as int]@);
        objects[PLAYER].set_pos(new_x, new_y);
        proof {
            lemma_views_update(before, PLAYER as int, objects@[PLAYER as int]);
        }
    } else {
        let last: usize = rooms.len() - 1;
        let (prev_x, prev_y) = rooms[last].center();
        if horizontal_first {
            create_h_tunnel(prev_x, new_x, prev_y, map);
            create_v_tunnel(prev_y, new_y, new_x, map);
        } else {
            create_h_tunnel(prev_x, new_x, new_y, map);
            create_v_tunnel(prev_y, new_y, prev_x, map);
        }
    }
    rooms.push(new_room);
    true
}

/// Generates a level and says which rooms it made.
///
/// Thirty times over, draws a room and a coin and takes the room with
/// [`add_room`]; every accepted room after the first is then seeded. The
/// stairs go in the last room. Of the objects only the player is kept.
pub fn build_level(objects: &mut Vec<Object>, level: u32) -> (built: (Grid, Vec<Rect>))
    requires
        old(objects).len() > PLAYER,
    ensures
        level_built(
            grid_view(&built.0),
            built.1@,
            views(old(objects)@)[PLAYER as int],
            views(final(objects)@),
            level,
        ),
{
    let mut map = solid_grid();
    let ghost player = views(objects@)[PLAYER as int];
    objects.truncate(1);
    assert(views(objects@)[0] == player);
    let mut rooms: Vec<Rect> = Vec::new();
    let ghost mut turns: Seq<bool> = Seq::empty();
    let mut tried: i32 = 0;
    while tried < MAX_ROOMS
        invariant
            0 <= tried <= MAX_ROOMS,
            rooms.len() <= tried,
            tried >= 1 ==> rooms.len() >= 1,
            carved(grid_view(&map), rooms@, turns),
            forall|i: int| 0 <= i < rooms.len() ==> proper(#[trigger] rooms[i]),
            disjoint(rooms@),
            objects.len() >= 1,
            rooms.len() == 0 ==> objects.len() == 1,
            views(objects@)[0] == (if rooms.len() == 0 {
                player
            } else {
                player.moved_to(rooms[0].middle().0 as i32, rooms[0].middle().1 as i32)
            }),
            populated(grid_view(&map), rooms@, views(objects@), objects.len() as int, level),
        decreases MAX_ROOMS - tried,
    {
        let w: i32 = roll_range(ROOM_MIN_SIZE, ROOM_MAX_SIZE + 1);
        let h: i32 = roll_range(ROOM_MIN_SIZE, ROOM_MAX_SIZE + 1);
        let x: i32 = roll_range(0, MAP_WIDTH - w);
        let y: i32 = roll_range(0, MAP_HEIGHT - h);
        let new_room = Rect::new(x, y, w, h);
        let turn = coin_flip();
        let ghost t0 = grid_view(&map);
        let ghost old_rooms = rooms@;
        let ghost old_turns = turns;
        let ghost objs0 = views(objects@);
        proof {
            lemma_middle_inside(new_room);
            if old_rooms.len() > 0 {
                assert(proper(old_rooms.last()));
                lemma_middle_inside(old_rooms.last());
            }
        }
        if add_room(new_room, turn, &mut rooms, &mut map, objects) {
            let ghost t3 = grid_view(&map);
            let ghost objs1 = views(objects@);
            proof {
                turns = turns.push(turn);
                assert(objs1.len() == objs0.len());
                assert forall|px: int, py: int| in_bounds(px, py) implies #[trigger] t3[px][py] == (
                if opened_by(rooms@, turns, px, py) {
                    Tile::floor()
                } else {
                    Tile::rock()
                }) by {
                    lemma_opened_push(old_rooms, old_turns, new_room, turn, px, py);
                    assert(t0[px][py] == (if opened_by(old_rooms, old_turns, px, py) {
                        Tile::floor()
                    } else {
                        Tile::rock()
                    }));
                    assert(with_room(t0, new_room)[px][py] == (if new_room.holds(px, py) {
                        Tile::floor()
                    } else {
                        t0[px][py]
                    }));
                }
                assert forall|i: int| 0 <= i < rooms.len() implies proper(#[trigger] rooms[i]) by {
                    if i < old_rooms.len() {
                        assert(rooms[i] == old_rooms[i]);
                    }
                }
                assert forall|i: int, j: int|
                    0 <= i < rooms.len() && 0 <= j < rooms.len() && i != j implies !(
                #[trigger] rooms[i]).overlaps(#[trigger] rooms[j]) by {
                    if i < old_rooms.len() && j < old_rooms.len() {
                        assert(!old_rooms[i].overlaps(old_rooms[j]));
                    } else if i < old_rooms.len() {
                        assert(!new_room.overlaps(old_rooms[i]));
                    } else {
                        assert(!new_room.overlaps(old_rooms[j]));
                    }
                }
                assert(objs1.take(objs0.len() as int) =~= objs1);
                assert forall|k: int| 1 <= k < objs1.len() implies #[trigger] spawned_in_some(
                    t3,
                    rooms@,
                    objs1,
                    k,
                    level,
                ) by {
                    assert(objs1 == objs0);
                    assert(spawned_in_some(t0, old_rooms, objs0, k, level));
                    let i = choose|i: int|
                        1 <= i < old_rooms.len() && #[trigger] spawned(
                            t0,
                            objs0,
                            k,
                            old_rooms[i],
                            level,
                        );
                    let ox = objs0[k].x as int;
                    let oy = objs0[k].y as int;
                    assert(old_rooms[i].holds(ox, oy));
                    assert(proper(old_rooms[i]));
                    lemma_room_floor_open(old_rooms, old_turns, i, ox, oy);
                    lemma_opened_push(old_rooms, old_turns, new_room, turn, ox, oy);
                    assert(t3[ox][oy] == Tile::floor());
                    lemma_spawned_stays(t0, t3, objs0, objs1, k, old_rooms[i], level);
                    assert(rooms@[i] == old_rooms[i]);
                    assert(spawned(t3, objs1, k, rooms@[i], level));
                }
            }
            if rooms.len() > 1 {
                place_objects(new_room, &map, objects, level);
                proof {
                    let objs3 = views(objects@);
                    let items_from = choose|items_from: int| #[trigger]
                        seeded(t3, objs1, objs3, new_room, level, items_from);
                    assert(objs3.take(objs1.len() as int)[0] == objs3[0]);
                    assert forall|k: int| 1 <= k < objs3.len() implies #[trigger] spawned_in_some(
                        t3,
                        rooms@,
                        objs3,
                        k,
                        level,
                    ) by {
                        if k < objs1.len() {
                            assert(spawned_in_some(t3, rooms@, objs1, k, level));
                            let i = choose|i: int|
                                1 <= i < rooms.len() && #[trigger] spawned(
                                    t3,
                                    objs1,
                                    k,
                                    rooms@[i],
                                    level,
                                );
                            let ox = objs1[k].x as int;
                            let oy = objs1[k].y as int;
                            assert(rooms@[i].holds(ox, oy));
                            assert(proper(rooms@[i]));
                            lemma_room_floor_open(rooms@, turns, i, ox, oy);
                            assert(t3[ox][oy] == Tile::floor());
                            lemma_spawned_stays(t3, t3, objs1, objs3, k, rooms@[i], level);
                        } else {
                            if k < items_from {
                                assert(spawned_monster(t3, objs3, k, new_room, level));
                            } else {
                                assert(spawned_item(t3, objs3, k, new_room, level));
                            }
                            assert(rooms@[old_rooms.len() as int] == new_room);
                            assert(spawned(t3, objs3, k, rooms@[old_rooms.len() as int], level));
                        }
                    }
                }
            }
        }
        tried = tried + 1;
    }
    let last: usize = rooms.len() - 1;
    let (last_room_x, last_room_y) = rooms[last].center();
    let mut stairs = Object::new(last_room_x, last_room_y, '<', "stairs", white(), false);
    stairs.always_visible = true;
    proof {
        let tiles = grid_view(&map);
        let objs = views(objects@);
        lemma_views_push(objects@, stairs);
        let grown = objs.push(stairs@);
        assert(grown.take(objs.len() as int) =~= objs);
        assert forall|k: int| 1 <= k < objs.len() implies #[trigger] spawned_in_some(
            tiles,
            rooms@,
            grown,
            k,
            level,
        ) by {
            assert(spawned_in_some(tiles, rooms@, objs, k, level));
            let i = choose|i: int|
                1 <= i < rooms.len() && #[trigger] spawned(tiles, objs, k, rooms@[i], level);
            let ox = objs[k].x as int;
            let oy = objs[k].y as int;
            assert(rooms@[i].holds(ox, oy));
            assert(proper(rooms@[i]));
            lemma_room_floor_open(rooms@, turns, i, ox, oy);
            assert(tiles[ox][oy] == Tile::floor());
            lemma_spawned_stays(tiles, tiles, objs, grown, k, rooms@[i], level);
        }
        assert forall|x: int, y: int| in_bounds(x, y) && !inside(x, y) implies (
        #[trigger] tiles[x][y]).blocked by {
            if opened_by(rooms@, turns, x, y) {
                lemma_opened_inside(rooms@, turns, x, y);
            }
        }
        assert(carved(tiles, rooms@, turns));
    }
    objects.push(stairs);
    (map, rooms)
}

/// Generates a level. Of the objects only the player is kept; it is joined
/// by what the level holds.
pub fn make_map(objects: &mut Vec<Object>, level: u32) -> (map: Grid)
    requires
        old(objects).len() > PLAYER,
    ensures
        exists|rooms: Seq<Rect>| #[trigger]
            level_built(
                grid_view(&map),
                rooms,
                views(old(objects)@)[PLAYER as int],
                views(final(objects)@),
                level,
            ),
{
    let (map, rooms) = build_level(objects, level);
    assert(level_built(
        grid_view(&map),
        rooms@,
        views(old(objects)@)[PLAYER as int],
        views(objects@),
        level,
    ));
    map
}

} // verus!
