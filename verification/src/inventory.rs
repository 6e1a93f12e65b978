//! The inventory: picking up, dropping, and swapping what is worn.

use vstd::prelude::*;
use crate::color::yellow;
use crate::config::{INVENTORY_LIMIT, PLAYER};
use crate::entity::{lemma_views_update, views, Game, GameView, Object, ObjectView, Slot};
use crate::equipment::{
    first_wearing, get_equipped_in_slot, occupant, one_per_slot, put_on, taken_off,
    text_dequipped, wears,
};
use crate::messages::Line;
use crate::text::{join2, join3};

verus! {

/// What using an item came to.
#[derive(Clone, Copy, Debug, PartialEq, Eq, Structural)]
pub enum UseResult {
    UsedUp,
    Used,
    Cancelled,
}

/// Whatever is worn is an item.
pub open spec fn worn_is_item(object: ObjectView) -> bool {
    (object.equipment matches Some(e) && e.equipped) ==> object.item is Some
}

/// The inventory is in order: at most one object is worn per slot, and
/// whatever is worn is an item.
pub open spec fn orderly(inventory: Seq<ObjectView>) -> bool {
    &&& one_per_slot(inventory)
    &&& forall|i: int| 0 <= i < inventory.len() ==> worn_is_item(#[trigger] inventory[i])
}

/// Swapping what is worn: the game afterwards and the outcome.
///
/// An object without equipment cancels. A worn object is taken off. Any other
/// is put on, after whatever occupies its slot is taken off.
pub open spec fn toggled(game: GameView, id: int) -> (GameView, UseResult) {
    let chosen = game.inventory[id];
    match chosen.equipment {
        None => (game, UseResult::Cancelled),
        Some(e) => if e.equipped {
            let (off, lines) = taken_off(chosen);
            (
                GameView {
                    inventory: game.inventory.update(id, off),
                    messages: game.messages + lines,
                    ..game
                },
                UseResult::Used,
            )
        } else {
            let cleared = vacated(game, e.slot);
            let (on, lines) = put_on(cleared.inventory[id]);
            (
                GameView {
                    inventory: cleared.inventory.update(id, on),
                    messages: cleared.messages + lines,
                    ..cleared
                },
                UseResult::Used,
            )
        },
    }
}

/// The game after whatever occupies `slot` is taken off.
pub open spec fn vacated(game: GameView, slot: Slot) -> GameView {
    match occupant(game.inventory, slot) {
        Some(current) => {
            let (off, lines) = taken_off(game.inventory[current]);
            GameView {
                inventory: game.inventory.update(current, off),
                messages: game.messages + lines,
                ..game
            }
        },
        None => game,
    }
}

/// What is logged when the inventory has no room for an item.
pub open spec fn text_inventory_full(name: Seq<char>) -> Seq<char> {
    "Cannot pick up "@ + name + " since inventory is full"@
}

/// What is logged when an item is picked up.
pub open spec fn text_picked_up(name: Seq<char>) -> Seq<char> {
    "You picked up "@ + name
}

/// What is logged when an item is dropped.
pub open spec fn text_dropped(name: Seq<char>) -> Seq<char> {
    "You dropped a "@ + name
}

/// `objects` without the one at `id`: the last object takes its place.
pub open spec fn without(objects: Seq<ObjectView>, id: int) -> Seq<ObjectView> {
    objects.update(id, objects.last()).drop_last()
}

/// Picking up the object at `id`: the game and the objects on the level
/// afterwards.
///
/// With a full inventory nothing moves. Otherwise the object goes to the end
/// of the inventory and is put on if it is equipment and its slot is empty.
pub open spec fn picked_up(game: GameView, objects: Seq<ObjectView>, id: int) -> (
    GameView,
    Seq<ObjectView>,
) {
    let item = objects[id];
    if game.inventory.len() >= INVENTORY_LIMIT {
        (game.told(text_inventory_full(item.name), yellow()), objects)
    } else {
        let carried = game.inventory.push(item);
        let log = game.messages.push((text_picked_up(item.name), yellow()));
        let put = item.equipment matches Some(e) && occupant(carried, e.slot) is None;
        if put {
            let (on, lines) = put_on(item);
            (
                GameView { inventory: game.inventory.push(on), messages: log + lines, ..game },
                without(objects, id),
            )
        } else {
            (GameView { inventory: carried, messages: log, ..game }, without(objects, id))
        }
    }
}

/// Dropping the inventory's object at `id`: the game and the objects on the
/// level afterwards. The object lands on the player's tile, taken off.
pub open spec fn dropped(game: GameView, objects: Seq<ObjectView>, id: int) -> (
    GameView,
    Seq<ObjectView>,
) {
    let item = game.inventory[id].moved_to(objects[PLAYER as int].x, objects[PLAYER as int].y);
    let log = game.messages.push((text_dropped(item.name), yellow()));
    let (off, lines) = if item.equipment is Some {
        taken_off(item)
    } else {
        (item, Seq::<Line>::empty())
    };
    (
        GameView { inventory: game.inventory.remove(id), messages: log + lines, ..game },
        objects.push(off),
    )
}

/// Where the first wearer is found, it wears; where none is found, nobody
/// from `from` on wears.
pub proof fn lemma_first_wearing(inventory: Seq<ObjectView>, slot: Slot, from: int)
    requires
        0 <= from,
    ensures
        match first_wearing(inventory, slot, from) {
            Some(at) => from <= at < inventory.len() && wears(inventory[at], slot) && forall|
                j: int,
            | from <= j < at ==> !wears(#[trigger] inventory[j], slot),
            None => forall|j: int|
                from <= j < inventory.len() ==> !wears(#[trigger] inventory[j], slot),
        },
    decreases inventory.len() - from,
{
    if from < inventory.len() && !wears(inventory[from], slot) {
        lemma_first_wearing(inventory, slot, from + 1);
    }
}

/// Swapping what is worn keeps an orderly inventory orderly.
pub proof fn lemma_toggle_keeps_order(game: GameView, id: int)
    requires
        0 <= id < game.inventory.len(),
        orderly(game.inventory),
    ensures
        orderly(toggled(game, id).0.inventory),
        toggled(game, id).0.inventory.len() == game.inventory.len(),
{
    let chosen = game.inventory[id];
    let after = toggled(game, id).0.inventory;
    match chosen.equipment {
        None => {},
        Some(e) => {
            if e.equipped {
                assert forall|i: int, j: int, slot: Slot|
                    0 <= i < j < after.len() && #[trigger] wears(after[i], slot) implies !#[trigger] wears(
                    after[j],
                    slot,
                ) by {
                    assert(wears(game.inventory[i], slot));
                    assert(!wears(game.inventory[j], slot));
                }
            } else {
                lemma_first_wearing(game.inventory, e.slot, 0);
                let cleared = vacated(game, e.slot).inventory;
                assert forall|k: int| 0 <= k < cleared.len() implies !wears(
                    #[trigger] cleared[k],
                    e.slot,
                ) by {
                    match occupant(game.inventory, e.slot) {
                        Some(current) => {
                            assert(worn_is_item(game.inventory[current]));
                            if k != current {
                                if k < current {
                                    assert(!wears(game.inventory[k], e.slot));
                                } else {
                                    assert(wears(game.inventory[current], e.slot));
                                    assert(!wears(game.inventory[k], e.slot));
                                }
                            }
                        },
                        None => {},
                    }
                }
                assert forall|k: int, slot: Slot|
                    0 <= k < cleared.len() && wears(#[trigger] cleared[k], slot) implies #[trigger] wears(
                    game.inventory[k],
                    slot,
                ) by {}
                assert forall|i: int, j: int, slot: Slot|
                    0 <= i < j < after.len() && #[trigger] wears(after[i], slot) implies !#[trigger] wears(
                    after[j],
                    slot,
                ) by {
                    if i != id && j != id {
                        assert(wears(cleared[i], slot));
                        assert(wears(game.inventory[i], slot));
                        assert(!wears(game.inventory[j], slot));
                    } else if i == id {
                        assert(!wears(cleared[j], e.slot));
                    } else {
                        assert(!wears(cleared[i], e.slot));
                    }
                }
                assert forall|i: int| 0 <= i < after.len() implies worn_is_item(
                    #[trigger] after[i],
                ) by {
                    assert(worn_is_item(game.inventory[i]));
                }
            }
        },
    }
}

/// The game after the objects at the places `picks` are toggled one after
/// another.
pub open spec fn toggled_all(game: GameView, picks: Seq<int>) -> GameView
    decreases picks.len(),
{
    if picks.len() == 0 {
        game
    } else {
        toggled(toggled_all(game, picks.drop_last()), picks.last()).0
    }
}

/// However many times and in whatever order objects are put on and taken
/// off, an orderly inventory stays orderly: never are two objects worn on one
/// slot.
pub proof fn lemma_toggles_keep_order(game: GameView, picks: Seq<int>)
    requires
        orderly(game.inventory),
        forall|k: int| 0 <= k < picks.len() ==> 0 <= #[trigger] picks[k] < game.inventory.len(),
    ensures
        orderly(toggled_all(game, picks).inventory),
        toggled_all(game, picks).inventory.len() == game.inventory.len(),
    decreases picks.len(),
{
    if picks.len() > 0 {
        let earlier = picks.drop_last();
        assert forall|k: int| 0 <= k < earlier.len() implies 0 <= #[trigger] earlier[k]
            < game.inventory.len() by {
            assert(earlier[k] == picks[k]);
        }
        lemma_toggles_keep_order(game, earlier);
        lemma_toggle_keeps_order(toggled_all(game, earlier), picks.last());
    }
}

/// Putting an object on a slot that is taken first takes the occupant off:
/// afterwards the occupant is not worn, and the log tells of its taking off
/// before it tells of the putting on.
pub proof fn lemma_toggle_takes_occupant_off_first(game: GameView, id: int, current: int)
    requires
        0 <= id < game.inventory.len(),
        orderly(game.inventory),
        game.inventory[id].equipment matches Some(e) && !e.equipped && occupant(
            game.inventory,
            e.slot,
        ) == Some(current),
    ensures
        0 <= current < game.inventory.len(),
        current != id,
        wears(game.inventory[current], game.inventory[id].equipment->0.slot),
        !wears(toggled(game, id).0.inventory[current], game.inventory[id].equipment->0.slot),
        taken_off(game.inventory[current]).1 == seq![
            (
                text_dequipped(
                    game.inventory[current].name,
                    game.inventory[id].equipment->0.slot,
                ),
                yellow(),
            ),
        ],
        toggled(game, id).0.messages == game.messages + taken_off(game.inventory[current]).1
            + put_on(game.inventory[id]).1,
{
    let slot = game.inventory[id].equipment->0.slot;
    lemma_first_wearing(game.inventory, slot, 0);
    assert(worn_is_item(game.inventory[current]));
}

/// Picking an object up keeps an orderly inventory orderly.
pub proof fn lemma_pick_up_keeps_order(game: GameView, objects: Seq<ObjectView>, id: int)
    requires
        0 <= id < objects.len(),
        orderly(game.inventory),
        !(objects[id].equipment matches Some(e) && e.equipped),
    ensures
        orderly(picked_up(game, objects, id).0.inventory),
{
    let item = objects[id];
    let after = picked_up(game, objects, id).0.inventory;
    if game.inventory.len() < INVENTORY_LIMIT {
        let carried = game.inventory.push(item);
        let count = game.inventory.len() as int;
        assert forall|i: int| 0 <= i < after.len() implies worn_is_item(#[trigger] after[i]) by {
            if i < count {
                assert(worn_is_item(game.inventory[i]));
            }
        }
        assert forall|i: int, j: int, slot: Slot|
            0 <= i < j < after.len() && #[trigger] wears(after[i], slot) implies !#[trigger] wears(
            after[j],
            slot,
        ) by {
            assert(wears(game.inventory[i], slot));
            if j < count {
                assert(!wears(game.inventory[j], slot));
            } else {
                match item.equipment {
                    Some(e) => {
                        if occupant(carried, e.slot) is None {
                            lemma_first_wearing(carried, e.slot, 0);
                            assert(carried[i] == game.inventory[i]);
                            assert(!wears(carried[i], e.slot));
                        }
                    },
                    None => {},
                }
            }
        }
    }
}

/// Dropping an object keeps an orderly inventory orderly.
pub proof fn lemma_drop_keeps_order(game: GameView, objects: Seq<ObjectView>, id: int)
    requires
        0 <= id < game.inventory.len(),
        orderly(game.inventory),
    ensures
        orderly(dropped(game, objects, id).0.inventory),
{
    let after = game.inventory.remove(id);
    assert forall|i: int| 0 <= i < after.len() implies worn_is_item(#[trigger] after[i]) by {
        if i < id {
            assert(worn_is_item(game.inventory[i]));
        } else {
            assert(worn_is_item(game.inventory[i + 1]));
        }
    }
    assert forall|i: int, j: int, slot: Slot|
        0 <= i < j < after.len() && #[trigger] wears(after[i], slot) implies !#[trigger] wears(
        after[j],
        slot,
    ) by {
        let a = if i < id { i } else { i + 1 };
        let b = if j < id { j } else { j + 1 };
        assert(wears(game.inventory[a], slot));
        assert(!wears(game.inventory[b], slot));
    }
}

/// One handling of the inventory: putting on or taking off the object at a
/// place of the inventory, picking up the object at a place of the level, or
/// dropping the object at a place of the inventory.
pub enum Handling {
    Toggle(int),
    PickUp(int),
    Drop(int),
}

/// The object is not worn.
pub open spec fn unworn(object: ObjectView) -> bool {
    !(object.equipment matches Some(e) && e.equipped)
}

/// The game and the objects of the level after one handling. A handling of a
/// place that does not exist, or a picking up of what is worn, is left out.
pub open spec fn handled(game: GameView, objects: Seq<ObjectView>, handling: Handling) -> (
    GameView,
    Seq<ObjectView>,
) {
    match handling {
        Handling::Toggle(id) => if 0 <= id < game.inventory.len() {
            (toggled(game, id).0, objects)
        } else {
            (game, objects)
        },
        Handling::PickUp(id) => if 0 <= id < objects.len() && unworn(objects[id]) {
            picked_up(game, objects, id)
        } else {
            (game, objects)
        },
        Handling::Drop(id) => if 0 <= id < game.inventory.len() && objects.len() > PLAYER {
            dropped(game, objects, id)
        } else {
            (game, objects)
        },
    }
}

/// The game and the objects of the level after a row of handlings.
pub open spec fn handled_all(game: GameView, objects: Seq<ObjectView>, row: Seq<Handling>) -> (
    GameView,
    Seq<ObjectView>,
)
    decreases row.len(),
{
    if row.len() == 0 {
        (game, objects)
    } else {
        let (before, level) = handled_all(game, objects, row.drop_last());
        handled(before, level, row.last())
    }
}

/// What is dropped lies on the level unworn, if it was an item.
pub proof fn lemma_dropped_is_unworn(game: GameView, objects: Seq<ObjectView>, id: int)
    requires
        0 <= id < game.inventory.len(),
        worn_is_item(game.inventory[id]),
    ensures
        unworn(dropped(game, objects, id).1.last()),
{
}

/// Whatever is put on, taken off, picked up and dropped, in whatever order:
/// an orderly inventory stays orderly, so that no slot ever holds two worn
/// objects.
pub proof fn lemma_handlings_keep_order(
    game: GameView,
    objects: Seq<ObjectView>,
    row: Seq<Handling>,
)
    requires
        orderly(game.inventory),
    ensures
        orderly(handled_all(game, objects, row).0.inventory),
    decreases row.len(),
{
    if row.len() > 0 {
        lemma_handlings_keep_order(game, objects, row.drop_last());
        let (before, level) = handled_all(game, objects, row.drop_last());
        match row.last() {
            Handling::Toggle(id) => {
                if 0 <= id < before.inventory.len() {
                    lemma_toggle_keeps_order(before, id);
                }
            },
            Handling::PickUp(id) => {
                if 0 <= id < level.len() && unworn(level[id]) {
                    lemma_pick_up_keeps_order(before, level, id);
                }
            },
            Handling::Drop(id) => {
                if 0 <= id < before.inventory.len() && level.len() > PLAYER {
                    lemma_drop_keeps_order(before, level, id);
                }
            },
        }
    }
}

/// Swaps what is worn: takes the chosen object off if it is worn, and puts it
/// on otherwise, first taking off whatever occupies its slot.
pub fn toggle_equipment(inventory_id: usize, game: &mut Game) -> (result: UseResult)
    requires
        inventory_id < old(game).inventory.len(),
    ensures
        final(game).inventory.len() == old(game).inventory.len(),
        final(game)@ == toggled(old(game)@, inventory_id as int).0,
        result == toggled(old(game)@, inventory_id as int).1,
        orderly(old(game)@.inventory) ==> orderly(final(game)@.inventory),
{
    proof {
        if orderly(game@.inventory) {
            lemma_toggle_keeps_order(game@, inventory_id as int);
        }
    }
    let equipment = match game.inventory[inventory_id].equipment {
        Some(equipment) => equipment,
        None => {
            return UseResult::Cancelled;
        },
    };
    if equipment.equipped {
        let ghost before = game.inventory@;
        game.inventory[inventory_id].dequip(&mut game.messages);
        proof {
            lemma_views_update(before, inventory_id as int, game.inventory@[inventory_id as int]);
        }
    } else {
        match get_equipped_in_slot(equipment.slot, game.inventory.as_slice()) {
            Some(current) => {
                let ghost before = game.inventory@;
                game.inventory[current].dequip(&mut game.messages);
                proof {
                    lemma_views_update(before, current as int, game.inventory@[current as int]);
                }
            },
            None => {},
        }
        assert(game@ == vacated(old(game)@, equipment.slot));
        let ghost before = game.inventory@;
        game.inventory[inventory_id].equip(&mut game.messages);
        proof {
            lemma_views_update(before, inventory_id as int, game.inventory@[inventory_id as int]);
        }
    }
    UseResult::Used
}

/// Picks the object at `object_id` up from the level, unless the inventory is
/// full.
pub fn pick_item_up(object_id: usize, game: &mut Game, objects: &mut Vec<Object>)
    requires
        object_id < old(objects).len(),
    ensures
        final(game)@ == picked_up(old(game)@, views(old(objects)@), object_id as int).0,
        views(final(objects)@) == picked_up(old(game)@, views(old(objects)@), object_id as int).1,
        old(game).inventory.len() >= INVENTORY_LIMIT ==> final(game)@.inventory == old(
            game,
        )@.inventory && views(final(objects)@) == views(old(objects)@),
        old(game).inventory.len() <= INVENTORY_LIMIT ==> final(game).inventory.len()
            <= INVENTORY_LIMIT,
{
    if game.inventory.len() >= 26 {
        let text = join3(
            "Cannot pick up ",
            objects[object_id].name.as_str(),
            " since inventory is full",
        );
        game.messages.add(text.as_str(), yellow());
    } else {
        let ghost ground = objects@;
        let item = objects.swap_remove(object_id);
        assert(views(objects@) =~= without(views(ground), object_id as int));
        let text = join2("You picked up ", item.name.as_str());
        game.messages.add(text.as_str(), yellow());
        let index = game.inventory.len();
        let slot = match item.equipment {
            Some(e) => Some(e.slot),
            None => None,
        };
        let ghost carried = game.inventory@;
        game.inventory.push(item);
        assert(views(game.inventory@) =~= views(carried).push(item@));
        match slot {
            Some(slot) => {
                if get_equipped_in_slot(slot, game.inventory.as_slice()).is_none() {
                    let ghost held = game.inventory@;
                    game.inventory[index].equip(&mut game.messages);
                    proof {
                        lemma_views_update(held, index as int, game.inventory@[index as int]);
                        assert(views(held).update(index as int, put_on(item@).0) =~= views(
                            carried,
                        ).push(put_on(item@).0));
                    }
                }
            },
            None => {},
        }
    }
}

/// Drops the inventory's object at `inventory_id` on the player's tile.
pub fn drop_item(inventory_id: usize, game: &mut Game, objects: &mut Vec<Object>)
    requires
        inventory_id < old(game).inventory.len(),
        old(objects).len() > PLAYER,
    ensures
        final(game)@ == dropped(old(game)@, views(old(objects)@), inventory_id as int).0,
        views(final(objects)@) == dropped(old(game)@, views(old(objects)@), inventory_id as int).1,
        orderly(old(game)@.inventory) ==> orderly(final(game)@.inventory),
{
    proof {
        if orderly(game@.inventory) {
            lemma_drop_keeps_order(game@, views(objects@), inventory_id as int);
        }
    }
    let ghost carried = game.inventory@;
    let mut item = game.inventory.remove(inventory_id);
    assert(views(game.inventory@) =~= views(carried).remove(inventory_id as int));
    item.set_pos(objects[PLAYER].x, objects[PLAYER].y);
    let text = join2("You dropped a ", item.name.as_str());
    game.messages.add(text.as_str(), yellow());
    if item.equipment.is_some() {
        item.dequip(&mut game.messages);
    }
    let ghost ground = objects@;
    objects.push(item);
    assert(views(objects@) =~= views(ground).push(item@));
    assert(game@.messages =~= dropped(old(game)@, views(old(objects)@), inventory_id as int).0.messages);
}

} // verus!
