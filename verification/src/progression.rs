//! Progression: levelling up, starting a game, and descending.

use vstd::prelude::*;
use crate::color::{sky, violet, white, yellow};
use crate::config::{LEVEL_UP_BASE, LEVEL_UP_FACTOR, PLAYER};
use crate::dungeon::{level_built, make_map};
use crate::encounter::bare;
use crate::entity::{
    lemma_views_update, views, DeathCallback, Equipment, Fighter, Game, GameView, Item, Object,
    ObjectView, Slot,
};
use crate::grid::{grid_view, half, Rect};
use crate::messages::Messages;
use crate::stats::{fits_i32, healed, stat_of, Stat};

verus! {

/// The permanent upgrades a level-up offers.
#[derive(Clone, Copy, Debug, PartialEq, Eq, Structural)]
pub enum Upgrade {
    /// Twenty more hit points.
    Constitution,
    /// One more point of power.
    Strength,
    /// One more point of defense.
    Agility,
    /// One more point of spellcasting.
    ArcaneKnowledge,
    /// Twenty more points of mana.
    ArcanePower,
}

impl Upgrade {
    /// The upgrade at a place in the level-up menu.
    pub fn from_index(index: usize) -> (upgrade: Option<Upgrade>)
        ensures
            upgrade == (if index == 0 {
                Some(Upgrade::Constitution)
            } else if index == 1 {
                Some(Upgrade::Strength)
            } else if index == 2 {
                Some(Upgrade::Agility)
            } else if index == 3 {
                Some(Upgrade::ArcaneKnowledge)
            } else if index == 4 {
                Some(Upgrade::ArcanePower)
            } else {
                None
            }),
    {
        if index == 0 {
            Some(Upgrade::Constitution)
        } else if index == 1 {
            Some(Upgrade::Strength)
        } else if index == 2 {
            Some(Upgrade::Agility)
        } else if index == 3 {
            Some(Upgrade::ArcaneKnowledge)
        } else if index == 4 {
            Some(Upgrade::ArcanePower)
        } else {
            None
        }
    }
}

/// The experience that takes a character of `level` to the next level.
pub open spec fn threshold(level: int) -> int {
    LEVEL_UP_BASE + level * LEVEL_UP_FACTOR
}

/// The character has banked the experience for its next level.
pub open spec fn level_up_due(player: ObjectView) -> bool {
    player.fighter matches Some(f) && f.xp >= threshold(player.level as int)
}

/// A fighter with an upgrade applied.
pub open spec fn upgraded(f: Fighter, upgrade: Upgrade) -> Fighter {
    match upgrade {
        Upgrade::Constitution => Fighter {
            base_max_hp: (f.base_max_hp + 20) as i32,
            hp: (f.hp + 20) as i32,
            ..f
        },
        Upgrade::Strength => Fighter { base_power: (f.base_power + 1) as i32, ..f },
        Upgrade::Agility => Fighter { base_defense: (f.base_defense + 1) as i32, ..f },
        Upgrade::ArcaneKnowledge => Fighter {
            base_spellcast_modifier: (f.base_spellcast_modifier + 1) as i32,
            ..f
        },
        Upgrade::ArcanePower => Fighter {
            base_max_mana: (f.base_max_mana + 20) as i32,
            mana: (f.mana + 20) as i32,
            ..f
        },
    }
}

/// The character after a level-up with `upgrade`, if one is due: the
/// threshold leaves its banked experience, the rest stays; its level rises by
/// one. Where none is due, nothing changes.
pub open spec fn leveled(player: ObjectView, upgrade: Upgrade) -> ObjectView {
    if level_up_due(player) {
        let f = player.fighter->0;
        ObjectView {
            level: (player.level + 1) as i32,
            fighter: Some(
                upgraded(
                    Fighter { xp: (f.xp - threshold(player.level as int)) as i32, ..f },
                    upgrade,
                ),
            ),
            ..player
        }
    } else {
        player
    }
}

/// What a level-up needs: a fighter, and numbers that stay in range.
pub open spec fn level_up_ready(player: ObjectView, upgrade: Upgrade) -> bool {
    &&& player.fighter is Some
    &&& fits_i32(threshold(player.level as int))
    &&& level_up_due(player) ==> {
        let f = player.fighter->0;
        &&& fits_i32(player.level + 1)
        &&& fits_i32(f.xp - threshold(player.level as int))
        &&& match upgrade {
            Upgrade::Constitution => fits_i32(f.base_max_hp + 20) && fits_i32(f.hp + 20),
            Upgrade::Strength => fits_i32(f.base_power + 1),
            Upgrade::Agility => fits_i32(f.base_defense + 1),
            Upgrade::ArcaneKnowledge => fits_i32(f.base_spellcast_modifier + 1),
            Upgrade::ArcanePower => fits_i32(f.base_max_mana + 20) && fits_i32(f.mana + 20),
        }
    }
}

/// The experience that takes a character of `level` to the next level.
pub fn level_up_xp(level: i32) -> (xp: i32)
    requires
        fits_i32(threshold(level as int)),
    ensures
        xp == threshold(level as int),
{
    let xp: i64 = LEVEL_UP_BASE as i64 + level as i64 * LEVEL_UP_FACTOR as i64;
    xp as i32
}

impl Object {
    /// Whether the player has banked the experience for the next level, so
    /// that an upgrade must be chosen.
    pub fn can_level_up(objects: &Vec<Object>) -> (due: bool)
        requires
            objects.len() > PLAYER,
            fits_i32(threshold(objects[PLAYER as int].level as int)),
        ensures
            due == level_up_due(objects[PLAYER as int]@),
    {
        match objects[PLAYER].fighter {
            Some(f) => f.xp >= level_up_xp(objects[PLAYER].level),
            None => false,
        }
    }

    /// Levels the player up with the chosen upgrade, if a level-up is due.
    pub fn level_up(objects: &mut Vec<Object>, upgrade: Upgrade)
        requires
            old(objects).len() > PLAYER,
            level_up_ready(old(objects)[PLAYER as int]@, upgrade),
        ensures
            views(final(objects)@) == views(old(objects)@).update(
                PLAYER as int,
                leveled(old(objects)[PLAYER as int]@, upgrade),
            ),
    {
        let ghost before = objects@;
        assert(views(before)[PLAYER as int] == before[PLAYER as int]@);
        let level: i32 = objects[PLAYER].level;
        let level_up_xp: i32 = level_up_xp(level);
        let mut fighter = objects[PLAYER].fighter.unwrap();
        if fighter.xp >= level_up_xp {
            fighter.xp = fighter.xp - level_up_xp;
            match upgrade {
                Upgrade::Constitution => {
                    fighter.base_max_hp = fighter.base_max_hp + 20;
                    fighter.hp = fighter.hp + 20;
                },
                Upgrade::Strength => {
                    fighter.base_power = fighter.base_power + 1;
                },
                Upgrade::Agility => {
                    fighter.base_defense = fighter.base_defense + 1;
                },
                Upgrade::ArcaneKnowledge => {
                    fighter.base_spellcast_modifier = fighter.base_spellcast_modifier + 1;
                },
                Upgrade::ArcanePower => {
                    fighter.base_max_mana = fighter.base_max_mana + 20;
                    fighter.mana = fighter.mana + 20;
                },
            }
            objects[PLAYER].level = level + 1;
            let ghost raised = objects@;
            objects[PLAYER].fighter = Some(fighter);
            proof {
                lemma_views_update(before, PLAYER as int, raised[PLAYER as int]);
                lemma_views_update(raised, PLAYER as int, objects@[PLAYER as int]);
                assert(views(objects@) =~= views(before).update(
                    PLAYER as int,
                    leveled(before[PLAYER as int]@, upgrade),
                ));
            }
        } else {
            assert(views(objects@) =~= views(before).update(
                PLAYER as int,
                leveled(before[PLAYER as int]@, upgrade),
            ));
        }
    }
}

/// The statistics a new character starts with.
pub open spec fn starting_fighter() -> Fighter {
    Fighter {
        base_max_hp: 100,
        hp: 100,
        base_defense: 1,
        base_power: 2,
        mana: 20,
        base_max_mana: 20,
        base_spellcast_modifier: 3,
        xp: 0,
        on_death: DeathCallback::Player,
    }
}

/// A new character, not yet placed.
pub open spec fn starting_player() -> ObjectView {
    ObjectView {
        alive: true,
        fighter: Some(starting_fighter()),
        ..ObjectView::plain(0, 0, '@', "player"@, white(), true)
    }
}

/// The dagger a new character wears on the left hand.
pub open spec fn starting_dagger() -> ObjectView {
    ObjectView {
        item: Some(Item::Sword),
        equipment: Some(Equipment { equipped: true, power_bonus: 2, ..bare(Slot::LeftHand) }),
        ..ObjectView::plain(0, 0, '-', "dagger"@, sky(), false)
    }
}

/// What is logged when a game starts.
pub open spec fn text_spawned() -> Seq<char> {
    "player has spawned in a dungeon"@
}

/// What is logged when the player rests before a descent.
pub open spec fn text_rest() -> Seq<char> {
    "You take a moment to rest, and recover your strength."@
}

/// What is logged when the player descends.
pub open spec fn text_descend() -> Seq<char> {
    "After a rare moment of peace, you decent deeper into the heart of the dungeon..."@
}

/// Starts a game: a new character on a fresh first level, wearing a dagger.
pub fn new_game() -> (started: (Game, Vec<Object>))
    ensures
        exists|rooms: Seq<Rect>| #[trigger]
            level_built(started.0@.map, rooms, starting_player(), views(started.1@), 0),
        started.0@.messages == seq![(text_spawned(), yellow())],
        started.0@.inventory == seq![starting_dagger()],
        started.0@.dungeon_level == 0,
{
    let mut player = Object::new(0, 0, '@', "player", white(), true);
    player.alive = true;
    player.fighter = Some(
        Fighter {
            base_max_hp: 100,
            hp: 100,
            base_defense: 1,
            base_power: 2,
            xp: 0,
            base_max_mana: 20,
            base_spellcast_modifier: 3,
            mana: 20,
            on_death: DeathCallback::Player,
        },
    );
    let mut objects: Vec<Object> = Vec::new();
    objects.push(player);
    assert(views(objects@)[PLAYER as int] == starting_player());
    let map = make_map(&mut objects, 0);
    let ghost rooms = choose|rooms: Seq<Rect>| #[trigger]
        level_built(grid_view(&map), rooms, starting_player(), views(objects@), 0);
    let mut game = Game { map, messages: Messages::new(), inventory: Vec::new(), dungeon_level: 0 };
    let mut dagger = Object::new(0, 0, '-', "dagger", sky(), false);
    dagger.item = Some(Item::Sword);
    dagger.equipment = Some(
        Equipment {
            equipped: true,
            slot: Slot::LeftHand,
            max_hp_bonus: 0,
            defense_bonus: 0,
            power_bonus: 2,
            mana_usage: 0,
            max_mana_bonus: 0,
            spellcast_bonus: 0,
        },
    );
    game.inventory.push(dagger);
    game.messages.add("player has spawned in a dungeon", yellow());
    assert(game@.messages =~= seq![(text_spawned(), yellow())]);
    assert(game@.inventory =~= seq![starting_dagger()]);
    let started = (game, objects);
    assert(level_built(started.0@.map, rooms, starting_player(), views(started.1@), 0));
    started
}

/// What a descent needs: numbers that stay in range.
pub open spec fn descent_ready(game: Seq<ObjectView>, player: ObjectView, dungeon_level: u32) -> bool {
    &&& dungeon_level < u32::MAX
    &&& fits_i32(stat_of(player, game, Stat::MaxHp))
    &&& player.fighter matches Some(f) ==> f.hp + half(stat_of(player, game, Stat::MaxHp))
        >= i32::MIN
}

/// The player as it arrives on the next level: healed by half of its
/// greatest hit points, never beyond them.
pub open spec fn rested(player: ObjectView, inventory: Seq<ObjectView>) -> ObjectView {
    healed(
        player,
        half(stat_of(player, inventory, Stat::MaxHp)),
        stat_of(player, inventory, Stat::MaxHp),
    )
}

/// `after` and `objects` are what a descent of `player` makes of `before`:
/// the inventory is kept, the log tells of the rest and of the descent, and
/// the level is a fresh one, one deeper, that the rested player enters.
pub open spec fn descended(
    before: GameView,
    player: ObjectView,
    after: GameView,
    objects: Seq<ObjectView>,
) -> bool {
    &&& after.dungeon_level == before.dungeon_level + 1
    &&& after.inventory == before.inventory
    &&& after.messages == before.messages.push((text_rest(), violet())).push(
        (text_descend(), yellow()),
    )
    &&& exists|rooms: Seq<Rect>| #[trigger]
        level_built(
            after.map,
            rooms,
            rested(player, before.inventory),
            objects,
            after.dungeon_level,
        )
}

/// Descends: the player rests, and a fresh level one deeper replaces the old
/// one.
pub fn next_level(game: &mut Game, objects: &mut Vec<Object>)
    requires
        old(objects).len() > PLAYER,
        descent_ready(old(game)@.inventory, old(objects)[PLAYER as int]@, old(game).dungeon_level),
    ensures
        descended(old(game)@, old(objects)[PLAYER as int]@, final(game)@, views(final(objects)@)),
{
    game.messages.add("You take a moment to rest, and recover your strength.", violet());
    let heal_hp: i32 = objects[PLAYER].max_hp(game) / 2;
    let ghost before = objects@;
    objects[PLAYER].heal(heal_hp, game);
    proof {
        lemma_views_update(before, PLAYER as int, objects@[PLAYER as int]);
    }
    game.messages.add(
        "After a rare moment of peace, you decent deeper into the heart of the dungeon...",
        yellow(),
    );
    game.dungeon_level = game.dungeon_level + 1;
    let ghost arriving = views(objects@)[PLAYER as int];
    let map = make_map(objects, game.dungeon_level);
    let ghost rooms = choose|rooms: Seq<Rect>| #[trigger]
        level_built(grid_view(&map), rooms, arriving, views(objects@), game.dungeon_level);
    game.map = map;
    assert(arriving == rested(old(objects)[PLAYER as int]@, old(game)@.inventory));
    assert(level_built(
        game@.map,
        rooms,
        rested(old(objects)[PLAYER as int]@, old(game)@.inventory),
        views(objects@),
        game@.dungeon_level,
    ));
}

/// Whether the experience that takes a character of `level` to the next level
/// is a value of `i32`, so that it can be asked for.
pub fn threshold_fits(level: i32) -> (ok: bool)
    ensures
        ok == fits_i32(threshold(level as int)),
{
    let xp: i64 = LEVEL_UP_BASE as i64 + level as i64 * LEVEL_UP_FACTOR as i64;
    -0x8000_0000 <= xp && xp <= 0x7fff_ffff
}

/// Whether a level-up of `player` with `upgrade` is ready.
pub fn is_level_up_ready(player: &Object, upgrade: Upgrade) -> (ok: bool)
    ensures
        ok == level_up_ready(player@, upgrade),
{
    let f = match player.fighter {
        Some(f) => f,
        None => {
            return false;
        },
    };
    let xp: i64 = LEVEL_UP_BASE as i64 + player.level as i64 * LEVEL_UP_FACTOR as i64;
    if xp < -0x8000_0000 || xp > 0x7fff_ffff {
        return false;
    }
    if (f.xp as i64) < xp {
        return true;
    }
    if player.level == i32::MAX || f.xp as i64 - xp < -0x8000_0000 || f.xp as i64 - xp
        > 0x7fff_ffff {
        return false;
    }
    match upgrade {
        Upgrade::Constitution => f.base_max_hp <= i32::MAX - 20 && f.hp <= i32::MAX - 20,
        Upgrade::Strength => f.base_power < i32::MAX,
        Upgrade::Agility => f.base_defense < i32::MAX,
        Upgrade::ArcaneKnowledge => f.base_spellcast_modifier < i32::MAX,
        Upgrade::ArcanePower => f.base_max_mana <= i32::MAX - 20 && f.mana <= i32::MAX - 20,
    }
}

/// Whether a descent is ready.
pub fn is_descent_ready(game: &Game, objects: &Vec<Object>) -> (ok: bool)
    requires
        objects.len() > PLAYER,
    ensures
        ok == descent_ready(game@.inventory, objects[PLAYER as int]@, game.dungeon_level),
{
    let player = &objects[PLAYER];
    if game.dungeon_level == u32::MAX || !player.stat_fits(game, Stat::MaxHp) {
        return false;
    }
    match player.fighter {
        Some(f) => f.hp as i64 + (player.max_hp(game) / 2) as i64 >= -0x8000_0000,
        None => true,
    }
}

} // verus!
