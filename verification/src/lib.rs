//! A turn-based dungeon crawler engine: level generation, level-scaled
//! encounters, combat, equipment, monster behaviour and progression.
//!
//! Every function states its behaviour as a contract over the views of the
//! data it touches, and the contracts are proved.

pub mod ai;
pub mod color;
pub mod combat;
pub mod command;
pub mod config;
pub mod dice;
pub mod display;
pub mod dungeon;
pub mod encounter;
pub mod entity;
pub mod equipment;
pub mod fov;
pub mod grid;
pub mod inventory;
pub mod items;
pub mod messages;
pub mod movement;
pub mod progression;
pub mod stats;
pub mod text;
pub mod turn;
