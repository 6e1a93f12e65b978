//! The turn: what the player stands on and holds, and the monsters' turn
//! that follows the player's.

use vstd::prelude::*;
use vstd::string::StringExecFns;
use crate::ai::{
    ai_take_turn, next_ai, pursued, standing, stumbled, toward, turn_ready, turn_taken,
};
use crate::combat::attacked;
use crate::encounter::blocked_at;
use crate::movement::moved;
use crate::config::{MAP_HEIGHT, MAP_WIDTH, PLAYER};
use crate::dungeon::{
    carved, lemma_middle_inside, level_built, proper, spawned, spawned_in_some,
};
use crate::entity::{views, Ai, Game, GameView, Object, ObjectView, Slot};
use crate::fov::{fov_wf, Visibility};
use crate::grid::{
    grid_wf, has_level_size, in_bounds, inside, is_walled, walled, Rect, Tile,
};
use crate::stats::fits_i32;

verus! {

/// The object at `id` is an item that lies where the player stands.
pub open spec fn underfoot(objects: Seq<ObjectView>, id: int) -> bool {
    objects[id].x == objects[PLAYER as int].x && objects[id].y == objects[PLAYER as int].y
        && objects[id].item is Some
}

/// The place of the first item that lies where the player stands, from `from`
/// on.
pub open spec fn first_underfoot(objects: Seq<ObjectView>, from: int) -> Option<usize>
    decreases objects.len() - from,
{
    if from >= objects.len() || from < 0 {
        None
    } else if underfoot(objects, from) {
        Some(from as usize)
    } else {
        first_underfoot(objects, from + 1)
    }
}

/// The first item that lies where the player stands: the one a pick-up takes.
pub fn item_underfoot(objects: &Vec<Object>) -> (found: Option<usize>)
    requires
        objects.len() > PLAYER,
    ensures
        found == first_underfoot(views(objects@), 0),
        found matches Some(id) ==> id < objects.len() && underfoot(views(objects@), id as int),
{
    assert(views(objects@)[PLAYER as int] == objects[PLAYER as int]@);
    let mut id: usize = 0;
    while id < objects.len()
        invariant
            id <= objects.len(),
            objects.len() > PLAYER,
            first_underfoot(views(objects@), 0) == first_underfoot(views(objects@), id as int),
        decreases objects.len() - id,
    {
        assert(views(objects@)[id as int] == objects[id as int]@);
        if objects[id].x == objects[PLAYER].x && objects[id].y == objects[PLAYER].y
            && objects[id].item.is_some() {
            return Some(id);
        }
        id = id + 1;
    }
    None
}

/// The object at `id` is a stairway where the player stands.
pub open spec fn stairs_underfoot(objects: Seq<ObjectView>, id: int) -> bool {
    objects[id].x == objects[PLAYER as int].x && objects[id].y == objects[PLAYER as int].y
        && objects[id].name == "stairs"@
}

/// Whether the player stands on stairs, so that it can descend.
pub fn on_stairs(objects: &Vec<Object>) -> (yes: bool)
    requires
        objects.len() > PLAYER,
    ensures
        yes <==> exists|id: int| 0 <= id < objects.len() && #[trigger] stairs_underfoot(
            views(objects@),
            id,
        ),
{
    assert(views(objects@)[PLAYER as int] == objects[PLAYER as int]@);
    let stairs = String::from_str("stairs");
    let mut id: usize = 0;
    while id < objects.len()
        invariant
            id <= objects.len(),
            objects.len() > PLAYER,
            stairs@ == "stairs"@,
            forall|k: int| 0 <= k < id ==> !#[trigger] stairs_underfoot(views(objects@), k),
        decreases objects.len() - id,
    {
        assert(views(objects@)[id as int] == objects[id as int]@);
        if objects[id].x == objects[PLAYER].x && objects[id].y == objects[PLAYER].y
            && objects[id].name == stairs {
            assert(stairs_underfoot(views(objects@), id as int));
            return true;
        }
        id = id + 1;
    }
    false
}

/// The object is an item worn on the right hand.
pub open spec fn in_right_hand(object: ObjectView) -> bool {
    object.item is Some && (object.equipment matches Some(e) && e.slot == Slot::RightHand
        && e.equipped)
}

/// The places of the items worn on the right hand among the first `upto`
/// objects of the inventory, in their order.
pub open spec fn right_hand(inventory: Seq<ObjectView>, upto: int) -> Seq<usize>
    decreases upto,
{
    if upto <= 0 {
        Seq::empty()
    } else {
        let before = right_hand(inventory, upto - 1);
        if in_right_hand(inventory[upto - 1]) {
            before.push((upto - 1) as usize)
        } else {
            before
        }
    }
}

/// Every place that `right_hand` lists is a place of the inventory.
pub proof fn lemma_right_hand_in_range(inventory: Seq<ObjectView>, upto: int)
    requires
        upto <= inventory.len(),
        upto <= usize::MAX,
    ensures
        forall|k: int|
            0 <= k < right_hand(inventory, upto).len() ==> (#[trigger] right_hand(
                inventory,
                upto,
            )[k]) < upto && in_right_hand(inventory[right_hand(inventory, upto)[k] as int]),
    decreases upto,
{
    if upto > 0 {
        lemma_right_hand_in_range(inventory, upto - 1);
        let before = right_hand(inventory, upto - 1);
        let held = right_hand(inventory, upto);
        assert forall|k: int| 0 <= k < held.len() implies (#[trigger] held[k]) < upto
            && in_right_hand(inventory[held[k] as int]) by {
            if k < before.len() {
                assert(held[k] == before[k]);
            }
        }
    }
}

/// The items of the inventory worn on the right hand, in their order: what
/// the player fires.
pub fn held_in_right_hand(inventory: &Vec<Object>) -> (held: Vec<usize>)
    ensures
        held@ == right_hand(views(inventory@), inventory.len() as int),
        forall|k: int| 0 <= k < held.len() ==> (#[trigger] held[k]) < inventory.len(),
{
    let mut held: Vec<usize> = Vec::new();
    let mut id: usize = 0;
    while id < inventory.len()
        invariant
            id <= inventory.len(),
            held@ == right_hand(views(inventory@), id as int),
        decreases inventory.len() - id,
    {
        assert(views(inventory@)[id as int] == inventory[id as int]@);
        let worn = match inventory[id].equipment {
            Some(e) => e.slot == Slot::RightHand && e.equipped,
            None => false,
        };
        if inventory[id].item.is_some() && worn {
            held.push(id);
        }
        id = id + 1;
    }
    proof {
        lemma_right_hand_in_range(views(inventory@), inventory.len() as int);
    }
    held
}

/// A monster is fit for its turn: it stands off the outer ring of the level,
/// it is sound, and while the player stands, the experience it would gain
/// from the player fits.
pub open spec fn monster_ready(monster: ObjectView, player: ObjectView) -> bool {
    &&& inside(monster.x as int, monster.y as int)
    &&& monster.sound()
    &&& standing(player) ==> fits_i32(monster.fighter->0.xp + player.fighter->0.xp)
}

/// The level is fit for the monsters' turn: it is walled all around, the
/// player comes first, stands on it and has no behaviour, and every object
/// that has one is fit.
pub open spec fn turns_ready(game: GameView, objects: Seq<ObjectView>) -> bool {
    &&& objects.len() > PLAYER
    &&& grid_wf(game.map)
    &&& walled(game.map)
    &&& objects[PLAYER as int].ai is None
    &&& objects[PLAYER as int].on_map()
    &&& forall|id: int|
        0 <= id < objects.len() && (#[trigger] objects[id]).ai is Some ==> monster_ready(
            objects[id],
            objects[PLAYER as int],
        )
}

/// The game and the objects after each of the first `upto` objects has taken
/// its turn, in their order. `rolls[id]` is the roll of the attack of the
/// object at `id`, and `stumbles[id]` is where it stumbles if confused.
pub open spec fn turns_taken(
    fov: Seq<Seq<bool>>,
    game: GameView,
    objects: Seq<ObjectView>,
    rolls: Seq<i32>,
    stumbles: Seq<(int, int)>,
    upto: int,
) -> (GameView, Seq<ObjectView>)
    decreases upto,
{
    if upto <= 0 {
        (game, objects)
    } else {
        let (after, acted) = turns_taken(fov, game, objects, rolls, stumbles, upto - 1);
        let id = upto - 1;
        turn_taken(
            fov[acted[id].x as int][acted[id].y as int],
            id,
            after,
            acted,
            rolls[id] as int,
            stumbles[id].0,
            stumbles[id].1,
        )
    }
}

/// Every stumble is a step to a tile next to the monster, or none.
pub open spec fn small_steps(stumbles: Seq<(int, int)>) -> bool {
    forall|k: int|
        0 <= k < stumbles.len() ==> -1 <= (#[trigger] stumbles[k]).0 <= 1 && -1 <= stumbles[k].1
            <= 1
}

/// The turns of the first objects do not depend on where later ones stumble.
proof fn lemma_turns_prefix(
    fov: Seq<Seq<bool>>,
    game: GameView,
    objects: Seq<ObjectView>,
    rolls: Seq<i32>,
    stumbles: Seq<(int, int)>,
    more: (int, int),
    upto: int,
)
    requires
        upto <= stumbles.len(),
    ensures
        turns_taken(fov, game, objects, rolls, stumbles.push(more), upto) == turns_taken(
            fov,
            game,
            objects,
            rolls,
            stumbles,
            upto,
        ),
    decreases upto,
{
    if upto > 0 {
        lemma_turns_prefix(fov, game, objects, rolls, stumbles, more, upto - 1);
        assert(stumbles.push(more)[upto - 1] == stumbles[upto - 1]);
    }
}

/// A level fit for the monsters' turn lets each object take its turn.
pub proof fn lemma_ready_for_turn(
    visible: bool,
    id: int,
    game: GameView,
    objects: Seq<ObjectView>,
    damage: int,
)
    requires
        turns_ready(game, objects),
        0 <= id < objects.len(),
        fits_i32(damage),
    ensures
        turn_ready(visible, id, game, objects, damage),
        objects[id].ai is Some ==> objects[id].on_map(),
{
    if objects[id].ai is Some {
        assert(monster_ready(objects[id], objects[PLAYER as int]));
    }
}

/// A move off a tile inside a walled level ends inside it.
proof fn lemma_moved_inside(
    tiles: Seq<Seq<Tile>>,
    objects: Seq<ObjectView>,
    id: int,
    dx: int,
    dy: int,
)
    requires
        grid_wf(tiles),
        walled(tiles),
        0 <= id < objects.len(),
        inside(objects[id].x as int, objects[id].y as int),
        -1 <= dx <= 1,
        -1 <= dy <= 1,
    ensures
        moved(tiles, objects, id, dx, dy).len() == objects.len(),
        forall|k: int|
            0 <= k < objects.len() && k != id ==> #[trigger] moved(tiles, objects, id, dx, dy)[k]
                == objects[k],
        inside(
            moved(tiles, objects, id, dx, dy)[id].x as int,
            moved(tiles, objects, id, dx, dy)[id].y as int,
        ),
        moved(tiles, objects, id, dx, dy)[id] == objects[id].moved_to(
            moved(tiles, objects, id, dx, dy)[id].x,
            moved(tiles, objects, id, dx, dy)[id].y,
        ),
{
    let x = objects[id].x + dx;
    let y = objects[id].y + dy;
    if !blocked_at(tiles, objects, x, y) {
        assert(in_bounds(x, y));
        assert(!tiles[x][y].blocked);
    }
}

/// A monster's attack on the player leaves both where they are, the monster
/// able to fight, and the player no monster; and while the player stands,
/// nobody's experience has changed.
proof fn lemma_attack_keeps(monster: ObjectView, player: ObjectView, game: GameView, damage: int)
    requires
        monster.fighter is Some,
        player.ai is None,
        standing(player),
        fits_i32(monster.fighter->0.xp + player.fighter->0.xp),
        fits_i32(damage),
    ensures
        ({
            let (after, hit, told) = attacked(monster, player, game, None, damage);
            &&& told.map == game.map
            &&& after.x == monster.x && after.y == monster.y && after.ai == monster.ai
            &&& after.fighter is Some
            &&& hit.x == player.x && hit.y == player.y && hit.ai is None
            &&& standing(hit) ==> standing(player) && hit.fighter->0.xp == player.fighter->0.xp
                && after.fighter->0.xp == monster.fighter->0.xp
        }),
{
}

/// A turn leaves the level fit for the monsters' turn.
pub proof fn lemma_turn_keeps_ready(
    visible: bool,
    id: int,
    game: GameView,
    objects: Seq<ObjectView>,
    damage: int,
    dx: int,
    dy: int,
)
    requires
        turns_ready(game, objects),
        0 <= id < objects.len(),
        fits_i32(damage),
        -1 <= dx <= 1,
        -1 <= dy <= 1,
    ensures
        turns_ready(
            turn_taken(visible, id, game, objects, damage, dx, dy).0,
            turn_taken(visible, id, game, objects, damage, dx, dy).1,
        ),
        turn_taken(visible, id, game, objects, damage, dx, dy).1.len() == objects.len(),
{
    let (after, last) = turn_taken(visible, id, game, objects, damage, dx, dy);
    let player = objects[PLAYER as int];
    match objects[id].ai {
        None => {},
        Some(ai) => {
            assert(monster_ready(objects[id], player));
            assert(id != PLAYER);
            let monster = ObjectView { ai: None, ..objects[id] };
            let idle = objects.update(id, monster);
            let range: int = match ai {
                Ai::Archer { range } => range as int,
                _ => 2,
            };
            let (mid, acted) = match ai {
                Ai::Confused { num_turns, .. } => stumbled(id, dx, dy, game, idle, num_turns as int),
                _ => pursued(visible, id, range, game, idle, damage),
            };
            assert(last == acted.update(id, ObjectView { ai: Some(next_ai(ai)), ..acted[id] }));
            assert(after == mid);
            // the step keeps the map, the player's place, and every other object
            let px = player.x - monster.x;
            let py = player.y - monster.y;
            lemma_moved_inside(game.map, idle, id, dx, dy);
            lemma_moved_inside(game.map, idle, id, toward(px, py), toward(py, px));
            if standing(player) {
                lemma_attack_keeps(monster, player, game, damage);
            }
            assert(mid.map == game.map);
            assert(acted.len() == objects.len());
            assert(inside(acted[id].x as int, acted[id].y as int));
            assert(acted[id].fighter is Some);
            assert(acted[PLAYER as int].ai is None);
            assert(acted[PLAYER as int].x == player.x && acted[PLAYER as int].y == player.y);
            assert(standing(acted[PLAYER as int]) ==> standing(player)
                && acted[PLAYER as int].fighter->0.xp == player.fighter->0.xp && acted[id].fighter->0.xp
                == objects[id].fighter->0.xp);
            assert forall|k: int|
                0 <= k < acted.len() && k != id && k != PLAYER implies #[trigger] acted[k]
                == objects[k] by {}
            assert forall|k: int| 0 <= k < last.len() && (#[trigger] last[k]).ai is Some implies monster_ready(
                last[k],
                last[PLAYER as int],
            ) by {
                if k != id {
                    assert(last[k] == objects[k]);
                    assert(monster_ready(objects[k], player));
                }
            }
        },
    }
}

/// The monsters' turn: every object that has a behaviour takes one step, in
/// the order of the list. `rolls[id]` is the roll of the attack of the object
/// at `id`, used if it attacks.
pub fn ai_turns(fov: &Visibility, game: &mut Game, objects: &mut Vec<Object>, rolls: &Vec<i32>)
    requires
        fov_wf(fov@),
        rolls.len() == old(objects).len(),
        turns_ready(old(game)@, views(old(objects)@)),
    ensures
        final(objects).len() == old(objects).len(),
        turns_ready(final(game)@, views(final(objects)@)),
        exists|stumbles: Seq<(int, int)>|
            stumbles.len() == old(objects).len() && small_steps(stumbles) && (
            final(game)@,
            views(final(objects)@),
        ) == #[trigger] turns_taken(
                fov@,
                old(game)@,
                views(old(objects)@),
                rolls@,
                stumbles,
                old(objects).len() as int,
            ),
{
    let ghost mut stumbles: Seq<(int, int)> = Seq::empty();
    let count = objects.len();
    let mut id: usize = 0;
    while id < count
        invariant
            id <= count,
            count == objects.len(),
            count == old(objects).len(),
            count == rolls.len(),
            fov_wf(fov@),
            turns_ready(game@, views(objects@)),
            stumbles.len() == id,
            small_steps(stumbles),
            (game@, views(objects@)) == turns_taken(
                fov@,
                old(game)@,
                views(old(objects)@),
                rolls@,
                stumbles,
                id as int,
            ),
        decreases count - id,
    {
        let ghost before_game = game@;
        let ghost before = views(objects@);
        let ghost visible = fov@[before[id as int].x as int][before[id as int].y as int];
        let ghost mut step: (int, int) = (0, 0);
        assert(before[id as int] == objects[id as int]@);
        assert(before.len() == objects.len());
        proof {
            lemma_ready_for_turn(visible, id as int, before_game, before, rolls[id as int] as int);
        }
        if objects[id].ai.is_some() {
            ai_take_turn(id, fov, game, objects, rolls[id]);
            proof {
                step = choose|dx: int, dy: int|
                    -1 <= dx <= 1 && -1 <= dy <= 1 && (game@, views(objects@))
                        == #[trigger] turn_taken(
                        visible,
                        id as int,
                        before_game,
                        before,
                        rolls[id as int] as int,
                        dx,
                        dy,
                    );
            }
        }
        proof {
            lemma_turn_keeps_ready(
                visible,
                id as int,
                before_game,
                before,
                rolls[id as int] as int,
                step.0,
                step.1,
            );
            lemma_turns_prefix(
                fov@,
                old(game)@,
                views(old(objects)@),
                rolls@,
                stumbles,
                step,
                id as int,
            );
            stumbles = stumbles.push(step);
            assert(views(objects@).len() == objects.len());
        }
        id = id + 1;
    }
}

/// Whether the level is fit for the monsters' turn.
pub fn can_take_turns(game: &Game, objects: &Vec<Object>) -> (yes: bool)
    ensures
        yes == turns_ready(game@, views(objects@)),
{
    if objects.len() == 0 || !has_level_size(&game.map) || !is_walled(&game.map) {
        return false;
    }
    assert(views(objects@)[PLAYER as int] == objects[PLAYER as int]@);
    let player = &objects[PLAYER];
    if player.ai.is_some() || player.x < 0 || player.x >= MAP_WIDTH || player.y < 0 || player.y
        >= MAP_HEIGHT {
        return false;
    }
    let stands = match player.fighter {
        Some(f) => f.hp > 0,
        None => false,
    };
    let mut id: usize = 0;
    while id < objects.len()
        invariant
            id <= objects.len(),
            objects.len() > PLAYER,
            player == objects[PLAYER as int],
            stands == standing(views(objects@)[PLAYER as int]),
            forall|k: int|
                0 <= k < id && (#[trigger] views(objects@)[k]).ai is Some ==> monster_ready(
                    views(objects@)[k],
                    views(objects@)[PLAYER as int],
                ),
        decreases objects.len() - id,
    {
        assert(views(objects@)[id as int] == objects[id as int]@);
        let monster = &objects[id];
        if monster.ai.is_some() {
            let within = 0 < monster.x && monster.x < MAP_WIDTH - 1 && 0 < monster.y && monster.y
                < MAP_HEIGHT - 1;
            let fit = match monster.fighter {
                Some(f) => !stands || f.xp.checked_add(player.fighter.unwrap().xp).is_some(),
                None => false,
            };
            if !within || !fit {
                assert(!monster_ready(views(objects@)[id as int], views(objects@)[PLAYER as int]));
                return false;
            }
        }
        id = id + 1;
    }
    true
}

/// A freshly generated level is fit for the monsters' turn, if the player is
/// no monster and has room for the experience of whatever kills it.
pub proof fn lemma_level_ready(
    game: GameView,
    rooms: Seq<Rect>,
    player: ObjectView,
    objects: Seq<ObjectView>,
    level: u32,
)
    requires
        level_built(game.map, rooms, player, objects, level),
        player.ai is None,
        player.fighter matches Some(f) ==> -0x4000_0000 <= f.xp <= 0x4000_0000,
    ensures
        turns_ready(game, objects),
{
    let turns = choose|turns: Seq<bool>| #[trigger] carved(game.map, rooms, turns);
    assert(proper(rooms[0]));
    lemma_middle_inside(rooms[0]);
    assert forall|id: int| 0 <= id < objects.len() && (#[trigger] objects[id]).ai is Some implies monster_ready(
        objects[id],
        objects[PLAYER as int],
    ) by {
        assert(id != 0);
        assert(id != objects.len() - 1);
        assert(spawned_in_some(game.map, rooms, objects, id, level));
        let i = choose|i: int|
            1 <= i < rooms.len() && #[trigger] spawned(game.map, objects, id, rooms[i], level);
        assert(proper(rooms[i]));
    }
}

} // verus!
