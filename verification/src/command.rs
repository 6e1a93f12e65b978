//! The player's turn: what each command does, and the monsters' turn that
//! follows it.

use vstd::prelude::*;
use crate::color::yellow;
use crate::combat::{attack_ready, is_attack_ready};
use crate::config::{MAP_HEIGHT, MAP_WIDTH, PLAYER};
use crate::entity::{views, Game, GameView, Object, ObjectView};
use crate::fov::{fov_wf, Visibility};
use crate::grid::{grid_wf, has_level_size, in_bounds};
use crate::inventory::{drop_item, dropped, pick_item_up, picked_up};
use crate::items::{is_use_ready, item_used, use_item, use_ready, PlayerAction};
use crate::movement::{fighter_at, first_fighter_at, lemma_first_fighter_at, player_acted};
use crate::progression::{descended, descent_ready, is_descent_ready, next_level};
use crate::turn::{
    ai_turns, first_underfoot, held_in_right_hand, item_underfoot, on_stairs, right_hand,
    small_steps, stairs_underfoot, turns_ready, turns_taken,
};

verus! {

/// What the player asks for. Where a command needs a choice from a menu, it
/// carries the choice, or nothing if the menu was left without one.
#[derive(Clone, Copy, Debug, PartialEq, Eq, Structural)]
pub enum Command {
    /// Step by `(dx, dy)`, or attack what stands there.
    Move { dx: i32, dy: i32 },
    /// Pick up what lies underfoot.
    PickUp,
    /// Drop the chosen item of the inventory.
    Drop { inventory_id: Option<usize> },
    /// Use the chosen item of the inventory, on the chosen target if it needs
    /// one.
    Use { inventory_id: Option<usize>, target: Option<usize> },
    /// Use what is held in the right hand, on the chosen target if it needs
    /// one.
    Fire { target: Option<usize> },
    /// Take the stairs underfoot.
    Descend,
    /// Let a turn pass.
    Wait,
    /// Leave the game.
    Quit,
    /// Anything that does not touch the game: a screen opened, a key unknown.
    Idle,
}

/// What is logged when the player lets a turn pass.
pub open spec fn text_wait() -> Seq<char> {
    "You chose to sleep thos round"@
}

/// What is logged when the player fires with an empty right hand.
pub open spec fn text_empty_hand() -> Seq<char> {
    "You do not hold anything in your right hand."@
}

/// The player stands on stairs.
pub open spec fn stairs_here(objects: Seq<ObjectView>) -> bool {
    exists|id: int| 0 <= id < objects.len() && #[trigger] stairs_underfoot(objects, id)
}

/// What a command other than a descent makes of the game and the objects,
/// and whether it takes the player's turn. `damage` is the roll of the attack
/// the command may come to.
///
/// Leaving is always possible. A dead player does nothing else. Moving and
/// waiting take a turn; picking up and dropping take none; using an item
/// takes one unless the use is cancelled; firing takes one whenever something
/// is held.
pub open spec fn performed(
    command: Command,
    fov: Seq<Seq<bool>>,
    game: GameView,
    objects: Seq<ObjectView>,
    damage: int,
) -> (GameView, Seq<ObjectView>, PlayerAction) {
    if command == Command::Quit {
        (game, objects, PlayerAction::Exit)
    } else if !objects[PLAYER as int].alive {
        (game, objects, PlayerAction::DidntTakeTurn)
    } else {
        match command {
            Command::Move { dx, dy } => {
                let (after, acted) = player_acted(game, objects, dx as int, dy as int, damage);
                (after, acted, PlayerAction::TookTurn)
            },
            Command::PickUp => match first_underfoot(objects, 0) {
                Some(id) => {
                    let (after, left) = picked_up(game, objects, id as int);
                    (after, left, PlayerAction::DidntTakeTurn)
                },
                None => (game, objects, PlayerAction::DidntTakeTurn),
            },
            Command::Drop { inventory_id: Some(id) } => {
                let (after, more) = dropped(game, objects, id as int);
                (after, more, PlayerAction::DidntTakeTurn)
            },
            Command::Use { inventory_id: Some(id), target } => item_used(
                fov,
                game,
                objects,
                id,
                target,
                damage,
            ),
            Command::Fire { target } => {
                let held = right_hand(game.inventory, game.inventory.len() as int);
                if held.len() > 1 {
                    (game, objects, PlayerAction::DidntTakeTurn)
                } else if held.len() == 1 {
                    let (after, acted, _) = item_used(fov, game, objects, held[0], target, damage);
                    (after, acted, PlayerAction::TookTurn)
                } else {
                    (game.told(text_empty_hand(), yellow()), objects, PlayerAction::DidntTakeTurn)
                }
            },
            Command::Wait => (game.told(text_wait(), yellow()), objects, PlayerAction::TookTurn),
            _ => (game, objects, PlayerAction::DidntTakeTurn),
        }
    }
}

/// What a command needs of the game, if the player is alive to carry it out.
pub open spec fn command_ready(
    command: Command,
    fov: Seq<Seq<bool>>,
    game: GameView,
    objects: Seq<ObjectView>,
    damage: int,
) -> bool {
    let player = objects[PLAYER as int];
    &&& objects.len() > PLAYER
    &&& player.alive ==> match command {
        Command::Move { dx, dy } => {
            &&& grid_wf(game.map)
            &&& in_bounds(player.x + dx, player.y + dy)
            &&& first_fighter_at(objects, player.x + dx, player.y + dy, 0) matches Some(target)
                ==> target != PLAYER && attack_ready(player, objects[target], game, None, damage)
        },
        Command::Drop { inventory_id: Some(id) } => id < game.inventory.len(),
        Command::Use { inventory_id: Some(id), target } => use_ready(
            fov,
            game,
            objects,
            id,
            target,
            damage,
        ),
        Command::Fire { target } => {
            let held = right_hand(game.inventory, game.inventory.len() as int);
            held.len() == 1 ==> use_ready(fov, game, objects, held[0], target, damage)
        },
        Command::Descend => stairs_here(objects) ==> descent_ready(
            game.inventory,
            player,
            game.dungeon_level,
        ),
        _ => true,
    }
}

/// Carries out a command of the player. `damage` is the roll of the attack
/// the command may come to.
pub fn perform(
    command: Command,
    fov: &Visibility,
    game: &mut Game,
    objects: &mut Vec<Object>,
    damage: i32,
) -> (action: PlayerAction)
    requires
        command_ready(command, fov@, old(game)@, views(old(objects)@), damage as int),
    ensures
        command != Command::Descend ==> (final(game)@, views(final(objects)@), action)
            == performed(command, fov@, old(game)@, views(old(objects)@), damage as int),
        command == Command::Descend ==> action == PlayerAction::DidntTakeTurn && (if views(
            old(objects)@,
        )[PLAYER as int].alive && stairs_here(views(old(objects)@)) {
            descended(
                old(game)@,
                views(old(objects)@)[PLAYER as int],
                final(game)@,
                views(final(objects)@),
            )
        } else {
            final(game)@ == old(game)@ && views(final(objects)@) == views(old(objects)@)
        }),
{
    assert(views(objects@)[PLAYER as int] == objects[PLAYER as int]@);
    assert(views(objects@).len() == objects.len());
    match command {
        Command::Quit => {
            return PlayerAction::Exit;
        },
        _ => {},
    }
    if !objects[PLAYER].alive {
        return PlayerAction::DidntTakeTurn;
    }
    match command {
        Command::Move { dx, dy } => {
            proof {
                let x = objects[PLAYER as int].x + dx;
                let y = objects[PLAYER as int].y + dy;
                lemma_first_fighter_at(views(objects@), x, y, 0);
                match first_fighter_at(views(objects@), x, y, 0) {
                    Some(target) => {
                        assert(views(objects@)[target] == objects@[target]@);
                    },
                    None => {},
                }
            }
            Object::player_move_or_attack(dx, dy, game, objects, damage);
            PlayerAction::TookTurn
        },
        Command::PickUp => {
            match item_underfoot(objects) {
                Some(item_id) => {
                    pick_item_up(item_id, game, objects);
                },
                None => {},
            }
            PlayerAction::DidntTakeTurn
        },
        Command::Drop { inventory_id: Some(inventory_id) } => {
            drop_item(inventory_id, game, objects);
            PlayerAction::DidntTakeTurn
        },
        Command::Use { inventory_id: Some(inventory_id), target } => use_item(
            inventory_id,
            fov,
            target,
            game,
            objects,
            damage,
        ),
        Command::Fire { target } => {
            let held = held_in_right_hand(&game.inventory);
            if held.len() > 1 {
                PlayerAction::DidntTakeTurn
            } else if held.len() == 1 {
                use_item(held[0], fov, target, game, objects, damage);
                PlayerAction::TookTurn
            } else {
                game.messages.add("You do not hold anything in your right hand.", yellow());
                PlayerAction::DidntTakeTurn
            }
        },
        Command::Descend => {
            if on_stairs(objects) {
                next_level(game, objects);
            }
            PlayerAction::DidntTakeTurn
        },
        Command::Wait => {
            game.messages.add("You chose to sleep thos round", yellow());
            PlayerAction::TookTurn
        },
        _ => PlayerAction::DidntTakeTurn,
    }
}

/// The monsters move after the player's action: the player is alive and the
/// action took its turn.
pub open spec fn monsters_move(action: PlayerAction, objects: Seq<ObjectView>) -> bool {
    objects[PLAYER as int].alive && action == PlayerAction::TookTurn
}

/// What follows the player's action: the monsters' turn, if the player is
/// alive and the action took the player's turn. `rolls[id]` is the roll of the
/// attack of the object at `id`. Returns whether the monsters took their
/// turn.
pub fn after_action(
    action: PlayerAction,
    fov: &Visibility,
    game: &mut Game,
    objects: &mut Vec<Object>,
    rolls: &Vec<i32>,
) -> (moved: bool)
    requires
        fov_wf(fov@),
        old(objects).len() > PLAYER,
        monsters_move(action, views(old(objects)@)) ==> rolls.len() == old(objects).len()
            && turns_ready(old(game)@, views(old(objects)@)),
    ensures
        moved == monsters_move(action, views(old(objects)@)),
        final(objects).len() == old(objects).len(),
        !moved ==> final(game)@ == old(game)@ && views(final(objects)@) == views(old(objects)@),
        moved ==> turns_ready(final(game)@, views(final(objects)@)) && exists|
            stumbles: Seq<(int, int)>,
        |
            stumbles.len() == old(objects).len() && small_steps(stumbles) && (
            final(game)@,
            views(final(objects)@),
        ) == #[trigger] turns_taken(
                fov@,
                old(game)@,
                views(old(objects)@),
                rolls@,
                stumbles,
                old(objects).len() as int,
            ),
{
    assert(views(objects@)[PLAYER as int] == objects[PLAYER as int]@);
    let took_turn = match action {
        PlayerAction::TookTurn => true,
        _ => false,
    };
    if objects[PLAYER].alive && took_turn {
        ai_turns(fov, game, objects, rolls);
        true
    } else {
        false
    }
}

/// Whether a command is ready to be carried out.
pub fn is_command_ready(
    command: Command,
    fov: &Visibility,
    game: &Game,
    objects: &Vec<Object>,
    damage: i32,
) -> (ok: bool)
    ensures
        ok == command_ready(command, fov@, game@, views(objects@), damage as int),
{
    if objects.len() <= PLAYER {
        return false;
    }
    assert(views(objects@)[PLAYER as int] == objects[PLAYER as int]@);
    assert(views(objects@).len() == objects.len());
    let player = &objects[PLAYER];
    if !player.alive {
        return true;
    }
    match command {
        Command::Move { dx, dy } => {
            let x: i64 = player.x as i64 + dx as i64;
            let y: i64 = player.y as i64 + dy as i64;
            if !has_level_size(&game.map) || x < 0 || x >= MAP_WIDTH as i64 || y < 0 || y
                >= MAP_HEIGHT as i64 {
                return false;
            }
            proof {
                lemma_first_fighter_at(views(objects@), x as int, y as int, 0);
            }
            match fighter_at(x as i32, y as i32, objects) {
                Some(target) => {
                    assert(views(objects@)[target as int] == objects[target as int]@);
                    target != PLAYER && is_attack_ready(player, &objects[target], game, None, damage)
                },
                None => true,
            }
        },
        Command::Drop { inventory_id: Some(id) } => id < game.inventory.len(),
        Command::Use { inventory_id: Some(id), target } => is_use_ready(
            fov,
            game,
            objects,
            id,
            target,
            damage,
        ),
        Command::Fire { target } => {
            let held = held_in_right_hand(&game.inventory);
            if held.len() == 1 {
                is_use_ready(fov, game, objects, held[0], target, damage)
            } else {
                true
            }
        },
        Command::Descend => {
            if on_stairs(objects) {
                is_descent_ready(game, objects)
            } else {
                true
            }
        },
        _ => true,
    }
}

} // verus!
