//! Moving about the level.

use vstd::prelude::*;
use crate::combat::{attack_ready, attacked};
use crate::config::PLAYER;
use crate::encounter::{blocked_at, is_blocked};
use crate::entity::{lemma_views_update, views, Game, GameView, Object, ObjectView};
use crate::grid::{grid_view, grid_wf, in_bounds, Grid, Tile};

verus! {

/// Two distinct items of one list, both open to change.
pub fn mut_two<T>(first_index: usize, second_index: usize, items: &mut [T]) -> (pair: (
    &mut T,
    &mut T,
))
    requires
        first_index != second_index,
        first_index < old(items).len(),
        second_index < old(items).len(),
    ensures
        *pair.0 == old(items)[first_index as int],
        *pair.1 == old(items)[second_index as int],
        final(items)@ == old(items)@.update(first_index as int, *final(pair.0)).update(
            second_index as int,
            *final(pair.1),
        ),
{
    let split_at_index = if first_index < second_index {
        second_index
    } else {
        first_index
    };
    let (first_slice, second_slice) = items.split_at_mut(split_at_index);
    if first_index < second_index {
        (&mut first_slice[first_index], &mut second_slice[0])
    } else {
        (&mut second_slice[0], &mut first_slice[second_index])
    }
}

/// The objects after the one at `id` tries to move by `(dx, dy)`: it moves
/// if it is alive and the tile it moves to is free.
pub open spec fn moved(
    tiles: Seq<Seq<Tile>>,
    objects: Seq<ObjectView>,
    id: int,
    dx: int,
    dy: int,
) -> Seq<ObjectView> {
    let mover = objects[id];
    if !blocked_at(tiles, objects, mover.x + dx, mover.y + dy) && mover.alive {
        objects.update(id, mover.moved_to((mover.x + dx) as i32, (mover.y + dy) as i32))
    } else {
        objects
    }
}

/// The place of the first object with a fighter at `(x, y)`, from `from` on.
pub open spec fn first_fighter_at(objects: Seq<ObjectView>, x: int, y: int, from: int) -> Option<
    int,
>
    decreases objects.len() - from,
{
    if from >= objects.len() {
        None
    } else if objects[from].fighter is Some && objects[from].x == x && objects[from].y == y {
        Some(from)
    } else {
        first_fighter_at(objects, x, y, from + 1)
    }
}

/// Where a fighter is found, it is one of the objects.
pub proof fn lemma_first_fighter_at(objects: Seq<ObjectView>, x: int, y: int, from: int)
    requires
        0 <= from,
    ensures
        first_fighter_at(objects, x, y, from) matches Some(at) ==> from <= at < objects.len(),
    decreases objects.len() - from,
{
    if from < objects.len() {
        lemma_first_fighter_at(objects, x, y, from + 1);
    }
}

/// The player's move or attack by `(dx, dy)`: the game and the objects
/// afterwards. Where a fighter stands on the tile, the player attacks it with
/// a roll of `damage`; otherwise the player moves.
pub open spec fn player_acted(
    game: GameView,
    objects: Seq<ObjectView>,
    dx: int,
    dy: int,
    damage: int,
) -> (GameView, Seq<ObjectView>) {
    let player = objects[PLAYER as int];
    match first_fighter_at(objects, player.x + dx, player.y + dy, 0) {
        Some(target) => {
            let (after, hit, told) = attacked(player, objects[target], game, None, damage);
            (told, objects.update(target, hit).update(PLAYER as int, after))
        },
        None => (game, moved(game.map, objects, PLAYER as int, dx, dy)),
    }
}

/// The place of the first object with a fighter at `(x, y)`.
pub fn fighter_at(x: i32, y: i32, objects: &Vec<Object>) -> (found: Option<usize>)
    ensures
        match found {
            Some(id) => id < objects.len() && first_fighter_at(views(objects@), x as int, y as int, 0)
                == Some(id as int) && views(objects@)[id as int].fighter is Some && views(
                objects@,
            )[id as int].x == x && views(objects@)[id as int].y == y,
            None => first_fighter_at(views(objects@), x as int, y as int, 0) is None,
        },
{
    let mut id: usize = 0;
    while id < objects.len()
        invariant
            id <= objects.len(),
            first_fighter_at(views(objects@), x as int, y as int, 0) == first_fighter_at(
                views(objects@),
                x as int,
                y as int,
                id as int,
            ),
        decreases objects.len() - id,
    {
        assert(views(objects@)[id as int] == objects[id as int]@);
        if objects[id].fighter.is_some() && objects[id].x == x && objects[id].y == y {
            return Some(id);
        }
        id = id + 1;
    }
    None
}

impl Object {
    /// Moves the object at `id` by `(dx, dy)` if it is alive and the tile is
    /// free.
    pub fn move_by(id: usize, dx: i32, dy: i32, map: &Grid, objects: &mut Vec<Object>)
        requires
            id < old(objects).len(),
            grid_wf(grid_view(map)),
            in_bounds(old(objects)[id as int].x + dx, old(objects)[id as int].y + dy),
        ensures
            views(final(objects)@) == moved(
                grid_view(map),
                views(old(objects)@),
                id as int,
                dx as int,
                dy as int,
            ),
    {
        let (x, y) = objects[id].pos();
        assert(views(objects@)[id as int] == objects[id as int]@);
        if !is_blocked(x + dx, y + dy, map, objects) && objects[id].alive {
            let ghost before = objects@;
            objects[id].set_pos(x + dx, y + dy);
            proof {
                lemma_views_update(before, id as int, objects@[id as int]);
            }
        }
    }

    /// Moves the player by `(dx, dy)`, or attacks the fighter that stands
    /// there with a roll of `damage`.
    pub fn player_move_or_attack(
        dx: i32,
        dy: i32,
        game: &mut Game,
        objects: &mut Vec<Object>,
        damage: i32,
    )
        requires
            old(objects).len() > PLAYER,
            grid_wf(old(game)@.map),
            in_bounds(
                old(objects)[PLAYER as int].x + dx,
                old(objects)[PLAYER as int].y + dy,
            ),
            first_fighter_at(
                views(old(objects)@),
                old(objects)[PLAYER as int].x + dx,
                old(objects)[PLAYER as int].y + dy,
                0,
            ) matches Some(target) ==> target != PLAYER && attack_ready(
                old(objects)[PLAYER as int]@,
                old(objects)[target]@,
                old(game)@,
                None,
                damage as int,
            ),
        ensures
            final(game)@ == player_acted(
                old(game)@,
                views(old(objects)@),
                dx as int,
                dy as int,
                damage as int,
            ).0,
            views(final(objects)@) == player_acted(
                old(game)@,
                views(old(objects)@),
                dx as int,
                dy as int,
                damage as int,
            ).1,
    {
        assert(views(objects@)[PLAYER as int] == objects[PLAYER as int]@);
        let x: i32 = objects[PLAYER].x + dx;
        let y: i32 = objects[PLAYER].y + dy;
        match fighter_at(x, y, objects) {
            Some(target_id) => {
                let ghost before = objects@;
                assert(views(before)[target_id as int] == before[target_id as int]@);
                let (target, player) = mut_two(target_id, PLAYER, objects.as_mut_slice());
                player.attack(target, game, None, damage);
                proof {
                    let hit = objects@[target_id as int];
                    lemma_views_update(before, target_id as int, hit);
                    lemma_views_update(
                        before.update(target_id as int, hit),
                        PLAYER as int,
                        objects@[PLAYER as int],
                    );
                }
            },
            None => {
                Object::move_by(PLAYER, dx, dy, &game.map, objects);
            },
        }
    }
}

} // verus!
