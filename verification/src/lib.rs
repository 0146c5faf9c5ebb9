//! Game logic of a turn-based roguelike: map generation, field-of-view
//! bookkeeping, movement, combat, items and the NPC state machine.
#![allow(non_camel_case_types)]

use vstd::prelude::*;

pub mod combat;
pub mod components;
pub mod game;
pub mod input;
pub mod items;
pub mod map;
pub mod npc;
pub mod random;
pub mod rendering;
pub mod viewshed;

verus! {

/// Seed of the world's random number generator.
pub const RNG_SEED: u64 = 0;
/// Width of one map, in tiles.
pub const MAP_WIDTH: i32 = 80;
/// Height of one map, in tiles.
pub const MAP_HEIGHT: i32 = 50;
/// Width of the world, in maps.
pub const WORLD_MAP_WIDTH: i32 = 3;
/// Height of the world, in maps.
pub const WORLD_MAP_HEIGHT: i32 = 3;

} // verus!
