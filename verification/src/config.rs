//! Tunable constants of the game.

use vstd::prelude::*;

verus! {

/// Width of every level, in tiles.
pub const MAP_WIDTH: i32 = 80;

/// Height of every level, in tiles.
pub const MAP_HEIGHT: i32 = 43;

/// Index of the player in the list of objects on the level.
pub const PLAYER: usize = 0;

/// Largest side of a generated room.
pub const ROOM_MAX_SIZE: i32 = 10;

/// Smallest side of a generated room.
pub const ROOM_MIN_SIZE: i32 = 6;

/// Number of candidate rooms tried per level.
pub const MAX_ROOMS: i32 = 30;

/// Experience needed for the first level-up.
pub const LEVEL_UP_BASE: i32 = 350;

/// Additional experience needed per level already gained.
pub const LEVEL_UP_FACTOR: i32 = 150;

/// Number of turns a confusion scroll lasts.
pub const CONFUSED_NUM_TURNS: i32 = 10;

/// Reach of a confusion scroll.
pub const CONFUSED_RANGE: i32 = 8;

/// Hit points restored by a healing potion.
pub const HEAL_AMOUNT: i32 = 40;

/// Mana restored by a mana potion.
pub const MANA_REGENERATION: i32 = 15;

/// Base damage of a lightning scroll.
pub const LIGHTNING_DAMAGE: i32 = 40;

/// Reach of a lightning scroll.
pub const LIGHTNING_RANGE: i32 = 5;

/// Reach of a fireball scroll.
pub const FIREBALL_RANGE: i32 = 8;

/// Number of uses of a fireball scroll.
pub const FIREBALL_CHARGES: i32 = 3;

/// Base damage of a fireball scroll.
pub const FIREBALL_DAMAGE: i32 = 25;

/// Radius of the player's field of view.
pub const TORCH_RADIUS: i32 = 10;

/// Most items the player can carry: one per letter of the inventory menu.
pub const INVENTORY_LIMIT: usize = 26;

} // verus!
