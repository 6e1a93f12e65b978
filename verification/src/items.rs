//! Using items: potions, scrolls, the staff, and equipment.

use vstd::prelude::*;
use crate::ai::{gap, within};
use crate::color::{white, yellow};
use crate::combat::{attack_ready, attacked, is_attack_ready};
use crate::config::{
    CONFUSED_NUM_TURNS, LIGHTNING_RANGE, MANA_REGENERATION, MAP_HEIGHT, MAP_WIDTH, PLAYER,
};
use crate::entity::{
    lemma_views_update, views, Ai, Game, GameView, Item, Object, ObjectView,
};
use crate::fov::{fov_wf, Visibility};
use crate::inventory::{toggle_equipment, toggled, UseResult};
use crate::movement::mut_two;
use crate::stats::{fits_i32, healed, recharged, stat_of, Stat};
use crate::text::{join2, join3};

verus! {

/// What an action of the player came to.
#[derive(Clone, Copy, Debug, PartialEq, Eq, Structural)]
pub enum PlayerAction {
    TookTurn,
    DidntTakeTurn,
    Exit,
}

/// The object is a monster that can be fought.
pub open spec fn hostile(object: ObjectView) -> bool {
    object.fighter is Some && object.ai is Some
}

/// The object at `id` is a monster in view.
pub open spec fn in_sight(fov: Seq<Seq<bool>>, objects: Seq<ObjectView>, id: int) -> bool {
    id != PLAYER && hostile(objects[id]) && fov[objects[id].x as int][objects[id].y as int]
}

/// The square of the distance from the object at `id` to the player.
pub open spec fn gap_to_player(objects: Seq<ObjectView>, id: int) -> int {
    gap(objects[id], objects[PLAYER as int].x as int, objects[PLAYER as int].y as int)
}

/// `found` is the monster in view nearest to the player and less than
/// `max_range + 1` away, the first of them where several are as near; or none
/// where no monster in view is that near.
pub open spec fn is_closest(
    fov: Seq<Seq<bool>>,
    objects: Seq<ObjectView>,
    max_range: int,
    found: Option<usize>,
) -> bool {
    match found {
        Some(id) => {
            &&& id < objects.len()
            &&& in_sight(fov, objects, id as int)
            &&& max_range + 1 > 0
            &&& gap_to_player(objects, id as int) < (max_range + 1) * (max_range + 1)
            &&& forall|j: int|
                0 <= j < objects.len() && #[trigger] in_sight(fov, objects, j) ==> gap_to_player(
                    objects,
                    j,
                ) >= gap_to_player(objects, id as int) && (j < id ==> gap_to_player(objects, j)
                    > gap_to_player(objects, id as int))
        },
        None => forall|j: int|
            0 <= j < objects.len() && #[trigger] in_sight(fov, objects, j) ==> !(max_range + 1 > 0
                && gap_to_player(objects, j) < (max_range + 1) * (max_range + 1)),
    }
}

/// The monster in view nearest to the player among the first `upto` objects,
/// if one of them is less than `max_range + 1` away: the first of them where
/// several are as near.
pub open spec fn nearest(
    fov: Seq<Seq<bool>>,
    objects: Seq<ObjectView>,
    max_range: int,
    upto: int,
) -> Option<usize>
    decreases upto,
{
    if upto <= 0 {
        None
    } else {
        let before = nearest(fov, objects, max_range, upto - 1);
        let best = match before {
            Some(b) => gap_to_player(objects, b as int),
            None => (max_range + 1) * (max_range + 1),
        };
        if max_range + 1 > 0 && in_sight(fov, objects, upto - 1) && gap_to_player(objects, upto - 1)
            < best {
            Some((upto - 1) as usize)
        } else {
            before
        }
    }
}

/// The monster in view nearest to the player, if one is less than
/// `max_range + 1` away.
pub open spec fn closest(fov: Seq<Seq<bool>>, objects: Seq<ObjectView>, max_range: int) -> Option<
    usize,
> {
    nearest(fov, objects, max_range, objects.len() as int)
}

proof fn lemma_nearest_none(fov: Seq<Seq<bool>>, objects: Seq<ObjectView>, max_range: int, upto: int)
    requires
        max_range + 1 <= 0,
    ensures
        nearest(fov, objects, max_range, upto) is None,
    decreases upto,
{
    if upto > 0 {
        lemma_nearest_none(fov, objects, max_range, upto - 1);
    }
}

/// Every monster stands on the level.
pub open spec fn monsters_on_map(objects: Seq<ObjectView>) -> bool {
    forall|j: int|
        0 <= j < objects.len() && j != PLAYER && hostile(#[trigger] objects[j])
            ==> objects[j].on_map()
}

/// The monster in view nearest to the player, if one is less than
/// `max_range + 1` away.
pub fn closest_target(fov: &Visibility, objects: &Vec<Object>, max_range: i32) -> (found: Option<
    usize,
>)
    requires
        fov_wf(fov@),
        objects.len() > PLAYER,
        monsters_on_map(views(objects@)),
    ensures
        found == closest(fov@, views(objects@), max_range as int),
        is_closest(fov@, views(objects@), max_range as int, found),
{
    let mut closest_enemy: Option<usize> = None;
    let bound: i64 = max_range as i64 + 1;
    if bound <= 0 {
        proof {
            lemma_nearest_none(fov@, views(objects@), max_range as int, objects.len() as int);
        }
        return None;
    }
    assert(0 < bound * bound <= 0x8000_0000 * 0x8000_0000) by (nonlinear_arith)
        requires
            0 < bound <= 0x8000_0000,
    ;
    let mut closest: i128 = (bound as i128) * (bound as i128);
    let player_pos = objects[PLAYER].pos();
    assert(views(objects@)[PLAYER as int] == objects[PLAYER as int]@);
    let mut id: usize = 0;
    while id < objects.len()
        invariant
            id <= objects.len(),
            fov_wf(fov@),
            objects.len() > PLAYER,
            monsters_on_map(views(objects@)),
            player_pos == (objects[PLAYER as int].x, objects[PLAYER as int].y),
            bound == max_range + 1,
            bound > 0,
            closest <= bound * bound,
            closest_enemy == nearest(fov@, views(objects@), max_range as int, id as int),
            match closest_enemy {
                Some(best) => best < id && in_sight(fov@, views(objects@), best as int) && closest
                    == gap_to_player(views(objects@), best as int) && closest < bound * bound,
                None => closest == bound * bound,
            },
            forall|j: int|
                0 <= j < id && #[trigger] in_sight(fov@, views(objects@), j) ==> gap_to_player(
                    views(objects@),
                    j,
                ) >= closest && (closest_enemy matches Some(best) && j < best ==> gap_to_player(
                    views(objects@),
                    j,
                ) > closest),
        decreases objects.len() - id,
    {
        assert(views(objects@)[id as int] == objects[id as int]@);
        let object = &objects[id];
        if id != PLAYER && object.fighter.is_some() && object.ai.is_some() && fov.is_in_fov(
            object.x,
            object.y,
        ) {
            let dist = object.distance_squared_to_point(player_pos);
            if dist < closest {
                closest_enemy = Some(id);
                closest = dist;
            }
        }
        id = id + 1;
    }
    closest_enemy
}

/// The object at `id` can be chosen as the target of something that reaches
/// `range` far: it is in view, it is a monster, and it is near enough.
pub open spec fn targetable(
    fov: Seq<Seq<bool>>,
    objects: Seq<ObjectView>,
    range: int,
    id: int,
) -> bool {
    fov[objects[id].x as int][objects[id].y as int] && objects[id].ai is Some && within(
        gap_to_player(objects, id),
        range,
    )
}

/// The objects that can be chosen as the target of something that reaches
/// `range` far, in their order.
pub fn targets_in_range(fov: &Visibility, objects: &Vec<Object>, range: i32) -> (targets: Vec<
    usize,
>)
    requires
        fov_wf(fov@),
        objects.len() > PLAYER,
        forall|j: int| 0 <= j < objects.len() ==> (#[trigger] objects[j])@.on_map(),
    ensures
        forall|k: int|
            0 <= k < targets.len() ==> (#[trigger] targets[k]) < objects.len() && targetable(
                fov@,
                views(objects@),
                range as int,
                targets[k] as int,
            ),
        forall|k: int, l: int| 0 <= k < l < targets.len() ==> targets[k] < targets[l],
        forall|j: int|
            0 <= j < objects.len() && #[trigger] targetable(fov@, views(objects@), range as int, j)
                ==> exists|k: int| 0 <= k < targets.len() && #[trigger] targets[k] == j,
{
    let mut targets: Vec<usize> = Vec::new();
    let player_pos = objects[PLAYER].pos();
    assert(views(objects@)[PLAYER as int] == objects[PLAYER as int]@);
    let mut id: usize = 0;
    while id < objects.len()
        invariant
            id <= objects.len(),
            fov_wf(fov@),
            objects.len() > PLAYER,
            forall|j: int| 0 <= j < objects.len() ==> (#[trigger] objects[j])@.on_map(),
            player_pos == (objects[PLAYER as int].x, objects[PLAYER as int].y),
            forall|k: int|
                0 <= k < targets.len() ==> (#[trigger] targets[k]) < id && targetable(
                    fov@,
                    views(objects@),
                    range as int,
                    targets[k] as int,
                ),
            forall|k: int, l: int| 0 <= k < l < targets.len() ==> targets[k] < targets[l],
            forall|j: int|
                0 <= j < id && #[trigger] targetable(fov@, views(objects@), range as int, j)
                    ==> exists|k: int| 0 <= k < targets.len() && #[trigger] targets[k] == j,
        decreases objects.len() - id,
    {
        assert(views(objects@)[id as int] == objects[id as int]@);
        assert(objects[id as int]@.on_map());
        let object = &objects[id];
        if fov.is_in_fov(object.x, object.y) && object.ai.is_some() && object.is_within(
            player_pos,
            range,
        ) {
            let ghost before = targets@;
            targets.push(id);
            assert forall|j: int|
                0 <= j < id + 1 && #[trigger] targetable(
                    fov@,
                    views(objects@),
                    range as int,
                    j,
                ) implies exists|k: int| 0 <= k < targets.len() && #[trigger] targets[k] == j by {
                if j < id {
                    let k = choose|k: int| 0 <= k < before.len() && #[trigger] before[k] == j;
                    assert(targets[k] == j);
                } else {
                    assert(targets[targets.len() - 1] == j);
                }
            }
        }
        id = id + 1;
    }
    targets
}

/// What is logged when an item finds no target.
pub open spec fn text_need_target() -> Seq<char> {
    "You need to choose a target"@
}

/// What is logged when a monster is confused.
pub open spec fn text_vacant(name: Seq<char>) -> Seq<char> {
    "The eyes of "@ + name + " look vacant, as it starts to stumble around!"@
}

/// What is logged when a mana potion is not needed.
pub open spec fn text_full_mana() -> Seq<char> {
    "You are already at full mana"@
}

/// What is logged when a mana potion is drunk.
pub open spec fn text_mana() -> Seq<char> {
    "your arcane energy is bubbling"@
}

/// What is logged when a healing potion is not needed.
pub open spec fn text_full_health() -> Seq<char> {
    "You are already at full heal"@
}

/// What is logged when a healing potion is drunk.
pub open spec fn text_heal() -> Seq<char> {
    "your wounds start to feel better"@
}

/// What is logged when an item is used up.
pub open spec fn text_used_up(name: Seq<char>) -> Seq<char> {
    name + " is used up"@
}

/// What is logged when a use is cancelled.
pub open spec fn text_cancelled() -> Seq<char> {
    "Cancelled"@
}

/// What is logged when what is used is no item.
pub open spec fn text_unusable(name: Seq<char>) -> Seq<char> {
    "the "@ + name + " cannot be used"@
}

/// The player's attack on the object at `target` with the inventory's item at
/// `id` and a roll of `damage`: the game and the objects afterwards.
pub open spec fn fired(
    game: GameView,
    objects: Seq<ObjectView>,
    target: int,
    id: usize,
    damage: int,
) -> (GameView, Seq<ObjectView>) {
    let (player, hit, after) = attacked(
        objects[PLAYER as int],
        objects[target],
        game,
        Some(id),
        damage,
    );
    (after, objects.update(PLAYER as int, player).update(target, hit))
}

/// What firing at the target needs, where there is a target.
pub open spec fn fire_ready(
    game: GameView,
    objects: Seq<ObjectView>,
    target: Option<usize>,
    id: usize,
    damage: int,
) -> bool {
    &&& objects.len() > PLAYER
    &&& id < game.inventory.len()
    &&& target matches Some(t) ==> (t != PLAYER && t < objects.len() && attack_ready(
        objects[PLAYER as int],
        objects[t as int],
        game,
        Some(id),
        damage,
    ))
}

/// Firing at a chosen target, or reporting that there is none: the game and
/// the objects afterwards.
pub open spec fn fired_at(
    game: GameView,
    objects: Seq<ObjectView>,
    target: Option<usize>,
    id: usize,
    damage: int,
) -> (GameView, Seq<ObjectView>) {
    match target {
        Some(t) => fired(game, objects, t as int, id, damage),
        None => (game.told(text_need_target(), white()), objects),
    }
}

/// Fires the inventory's item at `inventory_id` at the target, if there is
/// one, and reports that one is needed otherwise.
fn fire(
    inventory_id: usize,
    target: Option<usize>,
    game: &mut Game,
    objects: &mut Vec<Object>,
    damage: i32,
) -> (hit: bool)
    requires
        fire_ready(old(game)@, views(old(objects)@), target, inventory_id, damage as int),
    ensures
        hit == (target is Some),
        final(game)@ == fired_at(
            old(game)@,
            views(old(objects)@),
            target,
            inventory_id,
            damage as int,
        ).0,
        views(final(objects)@) == fired_at(
            old(game)@,
            views(old(objects)@),
            target,
            inventory_id,
            damage as int,
        ).1,
        final(game)@.inventory == old(game)@.inventory,
{
    match target {
        Some(target) => {
            let ghost before = objects@;
            assert(views(before)[PLAYER as int] == before[PLAYER as int]@);
            assert(views(before)[target as int] == before[target as int]@);
            let (player, victim) = mut_two(PLAYER, target, objects.as_mut_slice());
            player.attack(victim, game, Some(inventory_id), damage);
            proof {
                let after = objects@[PLAYER as int];
                lemma_views_update(before, PLAYER as int, after);
                lemma_views_update(
                    before.update(PLAYER as int, after),
                    target as int,
                    objects@[target as int],
                );
            }
            true
        },
        None => {
            game.messages.add("You need to choose a target", white());
            false
        },
    }
}

/// Reads a scroll of lightning: strikes the monster in view nearest to the
/// player with a roll of `damage`.
pub fn cast_lightning(
    inventory_id: usize,
    fov: &Visibility,
    game: &mut Game,
    objects: &mut Vec<Object>,
    damage: i32,
) -> (result: UseResult)
    requires
        fov_wf(fov@),
        monsters_on_map(views(old(objects)@)),
        fire_ready(
            old(game)@,
            views(old(objects)@),
            closest(fov@, views(old(objects)@), LIGHTNING_RANGE as int),
            inventory_id,
            damage as int,
        ),
    ensures
        final(game).inventory.len() == old(game).inventory.len(),
        final(game)@ == fired_at(
            old(game)@,
            views(old(objects)@),
            closest(fov@, views(old(objects)@), LIGHTNING_RANGE as int),
            inventory_id,
            damage as int,
        ).0,
        views(final(objects)@) == fired_at(
            old(game)@,
            views(old(objects)@),
            closest(fov@, views(old(objects)@), LIGHTNING_RANGE as int),
            inventory_id,
            damage as int,
        ).1,
        result == (if closest(fov@, views(old(objects)@), LIGHTNING_RANGE as int) is Some {
            UseResult::UsedUp
        } else {
            UseResult::Cancelled
        }),
{
    assert(views(objects@).len() == objects.len());
    let target = closest_target(fov, objects, LIGHTNING_RANGE);
    if fire(inventory_id, target, game, objects, damage) {
        UseResult::UsedUp
    } else {
        UseResult::Cancelled
    }
}

/// Fires the fireball staff at the chosen target with a roll of `damage`.
pub fn cast_fireballstaff(
    inventory_id: usize,
    target: Option<usize>,
    game: &mut Game,
    objects: &mut Vec<Object>,
    damage: i32,
) -> (result: UseResult)
    requires
        fire_ready(old(game)@, views(old(objects)@), target, inventory_id, damage as int),
    ensures
        final(game).inventory.len() == old(game).inventory.len(),
        final(game)@ == fired_at(
            old(game)@,
            views(old(objects)@),
            target,
            inventory_id,
            damage as int,
        ).0,
        views(final(objects)@) == fired_at(
            old(game)@,
            views(old(objects)@),
            target,
            inventory_id,
            damage as int,
        ).1,
        result == (if target is Some {
            UseResult::Used
        } else {
            UseResult::Cancelled
        }),
{
    if fire(inventory_id, target, game, objects, damage) {
        UseResult::Used
    } else {
        UseResult::Cancelled
    }
}

/// The reach of the staff at `inventory_id`; zero for anything else.
pub fn staff_range(game: &Game, inventory_id: usize) -> (range: i32)
    requires
        inventory_id < game.inventory.len(),
    ensures
        range == (match game@.inventory[inventory_id as int].item {
            Some(Item::FireballStaff { range }) => range,
            _ => 0,
        }),
{
    assert(game@.inventory[inventory_id as int] == game.inventory[inventory_id as int]@);
    match game.inventory[inventory_id].item {
        Some(Item::FireballStaff { range }) => range,
        _ => 0,
    }
}

/// The inventory after the scroll at `id` loses a charge, and what became of
/// the scroll.
pub open spec fn discharged(inventory: Seq<ObjectView>, id: int) -> (Seq<ObjectView>, UseResult) {
    match inventory[id].item {
        Some(Item::Fireball { charges, damage }) => (
            inventory.update(
                id,
                ObjectView {
                    item: Some(Item::Fireball { charges: (charges - 1) as i32, damage }),
                    ..inventory[id]
                },
            ),
            if charges > 1 {
                UseResult::Used
            } else {
                UseResult::UsedUp
            },
        ),
        _ => (inventory, UseResult::Cancelled),
    }
}

/// Reading a scroll of fireball at a chosen target: the game and the objects
/// afterwards, and what became of the scroll.
pub open spec fn fireball_cast(
    game: GameView,
    objects: Seq<ObjectView>,
    target: Option<usize>,
    id: usize,
    damage: int,
) -> (GameView, Seq<ObjectView>, UseResult) {
    let (after, hit) = fired_at(game, objects, target, id, damage);
    match target {
        Some(_) => {
            let (inventory, result) = discharged(after.inventory, id as int);
            (GameView { inventory, ..after }, hit, result)
        },
        None => (after, hit, UseResult::Cancelled),
    }
}

/// Reads a scroll of fireball at the chosen target with a roll of `damage`.
/// The scroll loses a charge and is used up with its last.
pub fn cast_fireball(
    inventory_id: usize,
    target: Option<usize>,
    game: &mut Game,
    objects: &mut Vec<Object>,
    damage: i32,
) -> (result: UseResult)
    requires
        fire_ready(old(game)@, views(old(objects)@), target, inventory_id, damage as int),
        old(game)@.inventory[inventory_id as int].item matches Some(Item::Fireball { charges, .. })
            ==> charges > i32::MIN,
    ensures
        final(game).inventory.len() == old(game).inventory.len(),
        final(game)@ == fireball_cast(
            old(game)@,
            views(old(objects)@),
            target,
            inventory_id,
            damage as int,
        ).0,
        views(final(objects)@) == fireball_cast(
            old(game)@,
            views(old(objects)@),
            target,
            inventory_id,
            damage as int,
        ).1,
        result == fireball_cast(
            old(game)@,
            views(old(objects)@),
            target,
            inventory_id,
            damage as int,
        ).2,
{
    if fire(inventory_id, target, game, objects, damage) {
        assert(game@.inventory[inventory_id as int] == game.inventory[inventory_id as int]@);
        match game.inventory[inventory_id].item {
            Some(Item::Fireball { charges, damage }) => {
                let ghost before = game.inventory@;
                game.inventory[inventory_id].item = Some(
                    Item::Fireball { charges: charges - 1, damage },
                );
                proof {
                    lemma_views_update(
                        before,
                        inventory_id as int,
                        game.inventory@[inventory_id as int],
                    );
                }
                if charges > 1 {
                    UseResult::Used
                } else {
                    UseResult::UsedUp
                }
            },
            _ => UseResult::Cancelled,
        }
    } else {
        UseResult::Cancelled
    }
}

/// The confusion that befalls a monster: it lasts the scroll's number of
/// turns and remembers what the monster was about. A monster already
/// confused keeps what it remembered.
pub open spec fn confusion_of(ai: Option<Ai>) -> Ai {
    match ai {
        Some(Ai::Confused { previous_ai, .. }) => Ai::Confused {
            previous_ai,
            num_turns: CONFUSED_NUM_TURNS,
        },
        Some(other) => Ai::Confused { previous_ai: Box::new(other), num_turns: CONFUSED_NUM_TURNS },
        None => Ai::Confused { previous_ai: Box::new(Ai::Basic), num_turns: CONFUSED_NUM_TURNS },
    }
}

/// Reading a scroll of confusion at a chosen target: the game and the objects
/// afterwards, and what became of the scroll.
pub open spec fn confusion_cast(game: GameView, objects: Seq<ObjectView>, target: Option<usize>) -> (
    GameView,
    Seq<ObjectView>,
    UseResult,
) {
    match target {
        Some(t) => (
            game.told(text_vacant(objects[t as int].name), yellow()),
            objects.update(
                t as int,
                ObjectView { ai: Some(confusion_of(objects[t as int].ai)), ..objects[t as int] },
            ),
            UseResult::UsedUp,
        ),
        None => (game.told(text_need_target(), white()), objects, UseResult::Cancelled),
    }
}

/// Reads a scroll of confusion at the chosen target.
pub fn cast_confuse(target: Option<usize>, game: &mut Game, objects: &mut Vec<Object>) -> (result:
    UseResult)
    requires
        target matches Some(t) ==> t < old(objects).len(),
    ensures
        final(game).inventory.len() == old(game).inventory.len(),
        final(game)@ == confusion_cast(old(game)@, views(old(objects)@), target).0,
        views(final(objects)@) == confusion_cast(old(game)@, views(old(objects)@), target).1,
        result == confusion_cast(old(game)@, views(old(objects)@), target).2,
        target matches Some(t) ==> (views(old(objects)@)[t as int].ai matches Some(ai) ==> ai.wf())
            ==> views(final(objects)@)[t as int].ai->0.wf(),
{
    match target {
        Some(target) => {
            let ghost before = objects@;
            assert(views(before)[target as int] == before[target as int]@);
            let old_ai = objects[target].ai.take();
            let ghost idle = objects@;
            let confused = match old_ai {
                Some(Ai::Confused { previous_ai, .. }) => Ai::Confused {
                    previous_ai,
                    num_turns: CONFUSED_NUM_TURNS,
                },
                Some(other) => Ai::Confused {
                    previous_ai: Box::new(other),
                    num_turns: CONFUSED_NUM_TURNS,
                },
                None => Ai::Confused {
                    previous_ai: Box::new(Ai::Basic),
                    num_turns: CONFUSED_NUM_TURNS,
                },
            };
            objects[target].ai = Some(confused);
            proof {
                lemma_views_update(before, target as int, idle[target as int]);
                lemma_views_update(idle, target as int, objects@[target as int]);
                assert(views(objects@) =~= confusion_cast(old(game)@, views(before), Some(target)).1);
            }
            let text = join3(
                "The eyes of ",
                objects[target].name.as_str(),
                " look vacant, as it starts to stumble around!",
            );
            game.messages.add(text.as_str(), yellow());
            UseResult::UsedUp
        },
        None => {
            game.messages.add("You need to choose a target", white());
            UseResult::Cancelled
        },
    }
}

/// Drinking the potion at `id`: the game and the player afterwards, and what
/// became of the potion. `mana` tells a mana potion from a healing potion.
pub open spec fn potion_drunk(game: GameView, player: ObjectView, id: int, mana: bool) -> (
    GameView,
    ObjectView,
    UseResult,
) {
    let most = stat_of(
        player,
        game.inventory,
        if mana {
            Stat::MaxMana
        } else {
            Stat::MaxHp
        },
    );
    match player.fighter {
        None => (game, player, UseResult::Cancelled),
        Some(f) => if (if mana {
            f.mana
        } else {
            f.hp
        }) == most {
            (
                game.told(
                    if mana {
                        text_full_mana()
                    } else {
                        text_full_health()
                    },
                    yellow(),
                ),
                player,
                UseResult::Cancelled,
            )
        } else if mana {
            match game.inventory[id].item {
                Some(Item::ManaPotion) => (
                    game.told(text_mana(), yellow()),
                    recharged(player, MANA_REGENERATION as int, most),
                    UseResult::UsedUp,
                ),
                _ => (game, player, UseResult::Cancelled),
            }
        } else {
            match game.inventory[id].item {
                Some(Item::Heal { amount }) => (
                    game.told(text_heal(), yellow()),
                    healed(player, amount as int, most),
                    UseResult::UsedUp,
                ),
                _ => (game, player, UseResult::Cancelled),
            }
        },
    }
}

/// What drinking a potion needs: where the player can fight, a greatest
/// value that is in range, and room for what a healing potion takes away if
/// its amount is negative.
pub open spec fn potion_ready(game: GameView, objects: Seq<ObjectView>, id: int, mana: bool) -> bool {
    let player = objects[PLAYER as int];
    &&& objects.len() > PLAYER
    &&& 0 <= id < game.inventory.len()
    &&& player.fighter matches Some(f) ==> if mana {
        fits_i32(stat_of(player, game.inventory, Stat::MaxMana))
    } else {
        &&& fits_i32(stat_of(player, game.inventory, Stat::MaxHp))
        &&& f.hp != stat_of(player, game.inventory, Stat::MaxHp) ==> (
        game.inventory[id].item matches Some(Item::Heal { amount }) ==> f.hp + amount >= i32::MIN)
    }
}

/// Drinks a mana potion, unless the player's mana is full.
pub fn cast_mana_potion(inventory_id: usize, game: &mut Game, objects: &mut Vec<Object>) -> (result:
    UseResult)
    requires
        potion_ready(old(game)@, views(old(objects)@), inventory_id as int, true),
    ensures
        final(game).inventory.len() == old(game).inventory.len(),
        final(game)@ == potion_drunk(
            old(game)@,
            views(old(objects)@)[PLAYER as int],
            inventory_id as int,
            true,
        ).0,
        views(final(objects)@) == views(old(objects)@).update(
            PLAYER as int,
            potion_drunk(
                old(game)@,
                views(old(objects)@)[PLAYER as int],
                inventory_id as int,
                true,
            ).1,
        ),
        result == potion_drunk(
            old(game)@,
            views(old(objects)@)[PLAYER as int],
            inventory_id as int,
            true,
        ).2,
{
    let ghost before = objects@;
    assert(views(before)[PLAYER as int] == before[PLAYER as int]@);
    assert(views(before) =~= views(before).update(PLAYER as int, views(before)[PLAYER as int]));
    assert(game@.inventory[inventory_id as int] == game.inventory[inventory_id as int]@);
    match objects[PLAYER].fighter {
        Some(fighter) => {
            if fighter.mana == objects[PLAYER].max_mana(game) {
                game.messages.add("You are already at full mana", yellow());
                return UseResult::Cancelled;
            } else {
                match game.inventory[inventory_id].item {
                    Some(Item::ManaPotion) => {
                        game.messages.add("your arcane energy is bubbling", yellow());
                        objects[PLAYER].regenerate_mana(MANA_REGENERATION, game);
                        proof {
                            lemma_views_update(before, PLAYER as int, objects@[PLAYER as int]);
                        }
                        return UseResult::UsedUp;
                    },
                    _ => {},
                }
            }
        },
        None => {},
    }
    UseResult::Cancelled
}

/// Drinks a healing potion, unless the player's health is full.
pub fn cast_heal(inventory_id: usize, game: &mut Game, objects: &mut Vec<Object>) -> (result:
    UseResult)
    requires
        potion_ready(old(game)@, views(old(objects)@), inventory_id as int, false),
    ensures
        final(game).inventory.len() == old(game).inventory.len(),
        final(game)@ == potion_drunk(
            old(game)@,
            views(old(objects)@)[PLAYER as int],
            inventory_id as int,
            false,
        ).0,
        views(final(objects)@) == views(old(objects)@).update(
            PLAYER as int,
            potion_drunk(
                old(game)@,
                views(old(objects)@)[PLAYER as int],
                inventory_id as int,
                false,
            ).1,
        ),
        result == potion_drunk(
            old(game)@,
            views(old(objects)@)[PLAYER as int],
            inventory_id as int,
            false,
        ).2,
{
    let ghost before = objects@;
    assert(views(before)[PLAYER as int] == before[PLAYER as int]@);
    assert(views(before) =~= views(before).update(PLAYER as int, views(before)[PLAYER as int]));
    assert(game@.inventory[inventory_id as int] == game.inventory[inventory_id as int]@);
    match objects[PLAYER].fighter {
        Some(fighter) => {
            if fighter.hp == objects[PLAYER].max_hp(game) {
                game.messages.add("You are already at full heal", yellow());
                return UseResult::Cancelled;
            } else {
                match game.inventory[inventory_id].item {
                    Some(Item::Heal { amount }) => {
                        game.messages.add("your wounds start to feel better", yellow());
                        objects[PLAYER].heal(amount, game);
                        proof {
                            lemma_views_update(before, PLAYER as int, objects@[PLAYER as int]);
                        }
                        return UseResult::UsedUp;
                    },
                    _ => {},
                }
            }
        },
        None => {},
    }
    UseResult::Cancelled
}

/// Using the inventory's item at `id` by its kind: the game and the objects
/// afterwards, and what became of the item. `target` is the monster chosen
/// for an item that needs one, `damage` the roll of an item that strikes.
pub open spec fn item_cast(
    fov: Seq<Seq<bool>>,
    game: GameView,
    objects: Seq<ObjectView>,
    id: usize,
    target: Option<usize>,
    damage: int,
) -> (GameView, Seq<ObjectView>, UseResult) {
    let player = objects[PLAYER as int];
    match game.inventory[id as int].item->0 {
        Item::Heal { .. } => {
            let (after, drunk, result) = potion_drunk(game, player, id as int, false);
            (after, objects.update(PLAYER as int, drunk), result)
        },
        Item::ManaPotion => {
            let (after, drunk, result) = potion_drunk(game, player, id as int, true);
            (after, objects.update(PLAYER as int, drunk), result)
        },
        Item::Lightning { .. } => {
            let nearest = closest(fov, objects, LIGHTNING_RANGE as int);
            let (after, hit) = fired_at(game, objects, nearest, id, damage);
            (
                after,
                hit,
                if nearest is Some {
                    UseResult::UsedUp
                } else {
                    UseResult::Cancelled
                },
            )
        },
        Item::Fireball { .. } => fireball_cast(game, objects, target, id, damage),
        Item::FireballStaff { .. } => {
            let (after, hit) = fired_at(game, objects, target, id, damage);
            (
                after,
                hit,
                if target is Some {
                    UseResult::Used
                } else {
                    UseResult::Cancelled
                },
            )
        },
        Item::Confuse => confusion_cast(game, objects, target),
        _ => {
            let (after, result) = toggled(game, id as int);
            (after, objects, result)
        },
    }
}

/// Using the inventory's item at `id`: the game and the objects afterwards,
/// and whether the player's turn is taken.
///
/// An item that is used up is reported and leaves the inventory. A use that
/// is cancelled is reported and takes no turn. What is no item cannot be
/// used.
pub open spec fn item_used(
    fov: Seq<Seq<bool>>,
    game: GameView,
    objects: Seq<ObjectView>,
    id: usize,
    target: Option<usize>,
    damage: int,
) -> (GameView, Seq<ObjectView>, PlayerAction) {
    if game.inventory[id as int].item is None {
        (
            game.told(text_unusable(game.inventory[id as int].name), white()),
            objects,
            PlayerAction::DidntTakeTurn,
        )
    } else {
        let (after, acted, result) = item_cast(fov, game, objects, id, target, damage);
        match result {
            UseResult::UsedUp => (
                GameView {
                    inventory: after.inventory.remove(id as int),
                    ..after.told(text_used_up(after.inventory[id as int].name), yellow())
                },
                acted,
                PlayerAction::TookTurn,
            ),
            UseResult::Cancelled => (
                after.told(text_cancelled(), white()),
                acted,
                PlayerAction::DidntTakeTurn,
            ),
            UseResult::Used => (after, acted, PlayerAction::TookTurn),
        }
    }
}

/// What using the inventory's item at `id` needs.
pub open spec fn use_ready(
    fov: Seq<Seq<bool>>,
    game: GameView,
    objects: Seq<ObjectView>,
    id: usize,
    target: Option<usize>,
    damage: int,
) -> bool {
    &&& id < game.inventory.len()
    &&& match game.inventory[id as int].item {
        None => true,
        Some(Item::Heal { .. }) => potion_ready(game, objects, id as int, false),
        Some(Item::ManaPotion) => potion_ready(game, objects, id as int, true),
        Some(Item::Lightning { .. }) => fov_wf(fov) && monsters_on_map(objects) && fire_ready(
            game,
            objects,
            closest(fov, objects, LIGHTNING_RANGE as int),
            id,
            damage,
        ),
        Some(Item::Fireball { charges, .. }) => charges > i32::MIN && fire_ready(
            game,
            objects,
            target,
            id,
            damage,
        ),
        Some(Item::FireballStaff { .. }) => fire_ready(game, objects, target, id, damage),
        Some(Item::Confuse) => (target matches Some(t) ==> t < objects.len()),
        Some(_) => true,
    }
}

/// Uses the inventory's item at `inventory_id`.
pub fn use_item(
    inventory_id: usize,
    fov: &Visibility,
    target: Option<usize>,
    game: &mut Game,
    objects: &mut Vec<Object>,
    damage: i32,
) -> (action: PlayerAction)
    requires
        use_ready(fov@, old(game)@, views(old(objects)@), inventory_id, target, damage as int),
    ensures
        final(game)@ == item_used(
            fov@,
            old(game)@,
            views(old(objects)@),
            inventory_id,
            target,
            damage as int,
        ).0,
        views(final(objects)@) == item_used(
            fov@,
            old(game)@,
            views(old(objects)@),
            inventory_id,
            target,
            damage as int,
        ).1,
        action == item_used(
            fov@,
            old(game)@,
            views(old(objects)@),
            inventory_id,
            target,
            damage as int,
        ).2,
{
    assert(game@.inventory[inventory_id as int] == game.inventory[inventory_id as int]@);
    match game.inventory[inventory_id].item {
        Some(item) => {
            let result = match item {
                Item::Heal { .. } => cast_heal(inventory_id, game, objects),
                Item::ManaPotion => cast_mana_potion(inventory_id, game, objects),
                Item::Lightning { .. } => cast_lightning(inventory_id, fov, game, objects, damage),
                Item::Fireball { .. } => cast_fireball(inventory_id, target, game, objects, damage),
                Item::FireballStaff { .. } => cast_fireballstaff(
                    inventory_id,
                    target,
                    game,
                    objects,
                    damage,
                ),
                Item::Confuse => cast_confuse(target, game, objects),
                Item::Sword | Item::Shield | Item::Helmet | Item::BodyArmor => toggle_equipment(
                    inventory_id,
                    game,
                ),
            };
            assert(game@.inventory.len() == old(game)@.inventory.len());
            assert(game@.inventory[inventory_id as int] == game.inventory[inventory_id as int]@);
            match result {
                UseResult::UsedUp => {
                    let text = join2(game.inventory[inventory_id].name.as_str(), " is used up");
                    game.messages.add(text.as_str(), yellow());
                    let ghost carried = game.inventory@;
                    game.inventory.remove(inventory_id);
                    assert(views(game.inventory@) =~= views(carried).remove(inventory_id as int));
                    PlayerAction::TookTurn
                },
                UseResult::Cancelled => {
                    game.messages.add("Cancelled", white());
                    PlayerAction::DidntTakeTurn
                },
                UseResult::Used => PlayerAction::TookTurn,
            }
        },
        None => {
            let text = join3("the ", game.inventory[inventory_id].name.as_str(), " cannot be used");
            game.messages.add(text.as_str(), white());
            PlayerAction::DidntTakeTurn
        },
    }
}

/// Whether every object stands on the level.
pub fn all_on_map(objects: &Vec<Object>) -> (ok: bool)
    ensures
        ok == (forall|j: int| 0 <= j < objects.len() ==> (#[trigger] objects[j])@.on_map()),
{
    let mut id: usize = 0;
    while id < objects.len()
        invariant
            id <= objects.len(),
            forall|j: int| 0 <= j < id ==> (#[trigger] objects[j])@.on_map(),
        decreases objects.len() - id,
    {
        let o = &objects[id];
        if o.x < 0 || o.x >= MAP_WIDTH || o.y < 0 || o.y >= MAP_HEIGHT {
            assert(!objects[id as int]@.on_map());
            return false;
        }
        id = id + 1;
    }
    true
}

/// Whether every monster stands on the level.
pub fn are_monsters_on_map(objects: &Vec<Object>) -> (ok: bool)
    ensures
        ok == monsters_on_map(views(objects@)),
{
    let mut id: usize = 0;
    while id < objects.len()
        invariant
            id <= objects.len(),
            forall|j: int|
                0 <= j < id && j != PLAYER && hostile(#[trigger] views(objects@)[j]) ==> views(
                    objects@,
                )[j].on_map(),
        decreases objects.len() - id,
    {
        assert(views(objects@)[id as int] == objects[id as int]@);
        let o = &objects[id];
        if id != PLAYER && o.fighter.is_some() && o.ai.is_some() && (o.x < 0 || o.x >= MAP_WIDTH
            || o.y < 0 || o.y >= MAP_HEIGHT) {
            assert(hostile(views(objects@)[id as int]) && !views(objects@)[id as int].on_map());
            return false;
        }
        id = id + 1;
    }
    true
}

/// Whether firing at the target is ready.
pub fn is_fire_ready(
    game: &Game,
    objects: &Vec<Object>,
    target: Option<usize>,
    inventory_id: usize,
    damage: i32,
) -> (ok: bool)
    ensures
        ok == fire_ready(game@, views(objects@), target, inventory_id, damage as int),
{
    if objects.len() <= PLAYER || inventory_id >= game.inventory.len() {
        return false;
    }
    match target {
        Some(t) => {
            if t == PLAYER || t >= objects.len() {
                return false;
            }
            assert(views(objects@)[PLAYER as int] == objects[PLAYER as int]@);
            assert(views(objects@)[t as int] == objects[t as int]@);
            is_attack_ready(&objects[PLAYER], &objects[t], game, Some(inventory_id), damage)
        },
        None => true,
    }
}

/// Whether drinking a potion is ready. `mana` tells a mana potion from a
/// healing potion.
pub fn is_potion_ready(game: &Game, objects: &Vec<Object>, inventory_id: usize, mana: bool) -> (ok:
    bool)
    ensures
        ok == potion_ready(game@, views(objects@), inventory_id as int, mana),
{
    if objects.len() <= PLAYER || inventory_id >= game.inventory.len() {
        return false;
    }
    assert(views(objects@)[PLAYER as int] == objects[PLAYER as int]@);
    assert(game@.inventory[inventory_id as int] == game.inventory[inventory_id as int]@);
    let player = &objects[PLAYER];
    match player.fighter {
        Some(f) => {
            if mana {
                player.stat_fits(game, Stat::MaxMana)
            } else {
                if !player.stat_fits(game, Stat::MaxHp) {
                    return false;
                }
                if f.hp != player.max_hp(game) {
                    match game.inventory[inventory_id].item {
                        Some(Item::Heal { amount }) => f.hp as i64 + amount as i64
                            >= -0x8000_0000,
                        _ => true,
                    }
                } else {
                    true
                }
            }
        },
        None => true,
    }
}

/// Whether using the inventory's item at `inventory_id` is ready.
pub fn is_use_ready(
    fov: &Visibility,
    game: &Game,
    objects: &Vec<Object>,
    inventory_id: usize,
    target: Option<usize>,
    damage: i32,
) -> (ok: bool)
    ensures
        ok == use_ready(fov@, game@, views(objects@), inventory_id, target, damage as int),
{
    if inventory_id >= game.inventory.len() {
        return false;
    }
    assert(game@.inventory[inventory_id as int] == game.inventory[inventory_id as int]@);
    assert(views(objects@).len() == objects.len());
    match game.inventory[inventory_id].item {
        None => true,
        Some(Item::Heal { .. }) => is_potion_ready(game, objects, inventory_id, false),
        Some(Item::ManaPotion) => is_potion_ready(game, objects, inventory_id, true),
        Some(Item::Lightning { .. }) => {
            if !fov.covers_level() || !are_monsters_on_map(objects) || objects.len() <= PLAYER {
                return false;
            }
            let nearest = closest_target(fov, objects, LIGHTNING_RANGE);
            is_fire_ready(game, objects, nearest, inventory_id, damage)
        },
        Some(Item::Fireball { charges, .. }) => charges > i32::MIN && is_fire_ready(
            game,
            objects,
            target,
            inventory_id,
            damage,
        ),
        Some(Item::FireballStaff { .. }) => is_fire_ready(
            game,
            objects,
            target,
            inventory_id,
            damage,
        ),
        Some(Item::Confuse) => match target {
            Some(t) => t < objects.len(),
            None => true,
        },
        Some(_) => true,
    }
}

} // verus!
