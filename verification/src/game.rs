//! Building the world: a new game, and the maps the player walks into.
use vstd::prelude::*;

use crate::components::{spawn_player, player_basics, GameLoopState, GameState, PlayerBundle, Position, RunState, WorldPosition};
use crate::items::{after_item_rolls, item_rolls, random_item_at, spawn_is, spawn_random_item, ItemSpawn};
use crate::map::{
    at_origin, cellular_result, default_generator_parameters, default_items_range, default_mobs_range,
    default_sides, drunkard_tiles, drunkards_result, rooms_and_corridors_result, planted, random_map_result, GameMap, MapGenerator, WorldMap, MAP_TILES,
};
use crate::npc::{after_mob_rolls, mob_roll, mob_rolled, random_mob_at, spawn_random_mob, NPCBundle};
use crate::random::{dice_roll, rng_seeded, seeded_generator, RNG};
use crate::{RNG_SEED, WORLD_MAP_HEIGHT, WORLD_MAP_WIDTH};

verus! {

/// Rolls a random monster at each of `positions` on the map at `world_pos`.
pub fn spawn_mobs(positions: &Vec<Position>, rng: &mut RNG, world_pos: WorldPosition) -> (mobs: Vec<NPCBundle>)
    ensures
        mobs.len() == positions.len(),
        forall|k: int| 0 <= k < mobs.len() ==> random_mob_at(#[trigger] mobs@[k], positions@[k], world_pos),
        forall|k: int| 0 <= k < mobs.len() ==> mob_rolled(#[trigger] mobs@[k], mob_roll(old(rng).0, k as nat)),
        final(rng).0 == after_mob_rolls(old(rng).0, positions.len() as nat),
{
    let mut mobs: Vec<NPCBundle> = Vec::new();
    let ghost g0 = rng.0;
    let mut k: usize = 0;
    while k < positions.len()
        invariant
            k <= positions.len(),
            mobs.len() == k,
            forall|j: int| 0 <= j < k ==> random_mob_at(#[trigger] mobs@[j], positions@[j], world_pos),
            forall|j: int| 0 <= j < k ==> mob_rolled(#[trigger] mobs@[j], mob_roll(g0, j as nat)),
            rng.0 == after_mob_rolls(g0, k as nat),
        decreases positions.len() - k,
    {
        let b = spawn_random_mob(positions[k], rng, world_pos);
        mobs.push(b);
        k += 1;
    }
    mobs
}

/// Rolls a random item at each of `positions` on the map at `world_pos`.
pub fn spawn_items(positions: &Vec<Position>, rng: &mut RNG, world_pos: WorldPosition) -> (items: Vec<ItemSpawn>)
    ensures
        items.len() == positions.len(),
        forall|k: int| 0 <= k < items.len() ==> random_item_at(#[trigger] items@[k], positions@[k], world_pos),
        forall|k: int|
            0 <= k < items.len() ==> spawn_is(
                #[trigger] items@[k],
                item_rolls(after_item_rolls(old(rng).0, k as nat)).0,
                item_rolls(after_item_rolls(old(rng).0, k as nat)).1,
            ),
        final(rng).0 == after_item_rolls(old(rng).0, positions.len() as nat),
{
    let mut items: Vec<ItemSpawn> = Vec::new();
    let ghost g0 = rng.0;
    let mut k: usize = 0;
    while k < positions.len()
        invariant
            k <= positions.len(),
            items.len() == k,
            forall|j: int| 0 <= j < k ==> random_item_at(#[trigger] items@[j], positions@[j], world_pos),
            forall|j: int|
                0 <= j < k ==> spawn_is(
                    #[trigger] items@[j],
                    item_rolls(after_item_rolls(g0, j as nat)).0,
                    item_rolls(after_item_rolls(g0, j as nat)).1,
                ),
            rng.0 == after_item_rolls(g0, k as nat),
        decreases positions.len() - k,
    {
        let s = spawn_random_item(positions[k], rng, world_pos);
        items.push(s);
        k += 1;
    }
    items
}

/// Everything a new game starts with.
pub struct NewGame {
    pub rng: RNG,
    pub game_state: GameState,
    pub world_map: WorldMap,
    pub player: PlayerBundle,
    pub mobs: Vec<NPCBundle>,
    pub items: Vec<ItemSpawn>,
    pub next_state: GameLoopState,
}

/// The origin of the world.
pub open spec fn origin() -> WorldPosition {
    WorldPosition { x: 0, y: 0, z: 0 }
}

/// Starts a new game: a generator seeded with `RNG_SEED` picks the kind of
/// the first map with its first roll of a three-sided die and then rolls the monsters and items at the places that
/// map's generation chose; the player stands at its start; the game runs,
/// and the player moves first.
pub fn init_new_game() -> (g: NewGame)
    ensures
        g.game_state.runstate == RunState::Running,
        g.next_state == GameLoopState::PlayerTurn,
        g.world_map.maps.len() == 1,
        player_basics(g.player),
        random_map_result(
            g.world_map.maps@[0],
            g.player.position,
            g.mobs@.map_values(|b: NPCBundle| b.position),
            g.items@.map_values(|s: ItemSpawn| s.position),
        ),
        ({
            let roll = dice_roll(seeded_generator(RNG_SEED), 1, 3).0;
            let map = g.world_map.maps@[0];
            let mobs = g.mobs@.map_values(|b: NPCBundle| b.position);
            let items = g.items@.map_values(|s: ItemSpawn| s.position);
            &&& roll == 1 ==> rooms_and_corridors_result(default_sides(), default_items_range(), map, g.player.position, mobs, items)
            &&& roll == 2 ==> drunkards_result(default_mobs_range(), default_items_range(), map, g.player.position, mobs, items)
            &&& roll == 2 ==> map.tiles@ == drunkard_tiles(seeded_generator(RNG_SEED))
            &&& roll != 1 && roll != 2 ==> map.tiles@ == planted(seeded_generator(RNG_SEED), (MAP_TILES / 10) as nat).0
            &&& roll != 1 && roll != 2 ==> cellular_result(
                10usize,
                default_mobs_range(),
                default_items_range(),
                map,
                g.player.position,
                mobs,
                items,
            )
        }),
        ({
            let after_map = dice_roll(seeded_generator(RNG_SEED), 1, 3).1;
            let after_mobs = after_mob_rolls(after_map, g.mobs.len() as nat);
            &&& forall|k: int| 0 <= k < g.mobs.len() ==> mob_rolled(#[trigger] g.mobs@[k], mob_roll(after_map, k as nat))
            &&& forall|k: int|
                0 <= k < g.items.len() ==> spawn_is(
                    #[trigger] g.items@[k],
                    item_rolls(after_item_rolls(after_mobs, k as nat)).0,
                    item_rolls(after_item_rolls(after_mobs, k as nat)).1,
                )
            &&& g.rng.0 == after_item_rolls(after_mobs, g.items.len() as nat)
        }),
        forall|k: int| 0 <= k < g.mobs.len() ==> random_mob_at(#[trigger] g.mobs@[k], g.mobs@[k].position, origin()),
        forall|k: int| 0 <= k < g.items.len() ==> random_item_at(#[trigger] g.items@[k], g.items@[k].position, origin()),
{
    let mut myrng = RNG(rng_seeded(RNG_SEED));
    let game_state = GameState { runstate: RunState::Running };
    let (map, player_start_position, mob_start_positions, item_start_positions) = GameMap::random(&mut myrng);
    let player = spawn_player(player_start_position);
    let mobs = spawn_mobs(&mob_start_positions, &mut myrng, WorldPosition { x: 0, y: 0, z: 0 });
    let items = spawn_items(&item_start_positions, &mut myrng, WorldPosition { x: 0, y: 0, z: 0 });
    assert(mobs@.map_values(|b: NPCBundle| b.position) == mob_start_positions@);
    assert(items@.map_values(|s: ItemSpawn| s.position) == item_start_positions@);
    let capacity: i32 = WORLD_MAP_HEIGHT * WORLD_MAP_WIDTH;
    let mut maps: Vec<GameMap> = Vec::with_capacity(capacity as usize);
    maps.push(map);
    NewGame {
        rng: myrng,
        game_state,
        world_map: WorldMap { maps },
        player,
        mobs,
        items,
        next_state: GameLoopState::PlayerTurn,
    }
}

/// Moving to the map at `world_pos`: if the world has no map there yet, a
/// cellular map generated from `seed` is added at `world_pos` (its trees
/// planted with the generator seeded with `seed`), and monsters
/// and items rolled with `rng` are placed on it; otherwise nothing changes.
pub fn enter_map(world: &mut WorldMap, world_pos: WorldPosition, seed: u64, rng: &mut RNG) -> (spawned: Option<(Vec<NPCBundle>, Vec<ItemSpawn>)>)
    ensures
        (exists|k: int| 0 <= k < old(world).maps.len() && #[trigger] old(world).maps@[k].world_pos.x == world_pos.x
            && old(world).maps@[k].world_pos.y == world_pos.y) ==> spawned is None && final(world).maps@
            == old(world).maps@,
        spawned matches Some((mobs, items)) ==> {
            let map = final(world).maps@.last();
            &&& final(world).maps@.drop_last() == old(world).maps@
            &&& final(world).maps.len() == old(world).maps.len() + 1
            &&& map.world_pos == world_pos
            &&& map.tiles@ == planted(seeded_generator(seed), (MAP_TILES / 10) as nat).0
            &&& cellular_result(
                10usize,
                default_mobs_range(),
                default_items_range(),
                at_origin(map),
                crate::map::centre_start(),
                mobs@.map_values(|b: NPCBundle| b.position),
                items@.map_values(|s: ItemSpawn| s.position),
            )
            &&& forall|k: int| 0 <= k < mobs.len() ==> mob_rolled(#[trigger] mobs@[k], mob_roll(old(rng).0, k as nat))
            &&& forall|k: int|
                0 <= k < items.len() ==> spawn_is(
                    #[trigger] items@[k],
                    item_rolls(after_item_rolls(after_mob_rolls(old(rng).0, mobs.len() as nat), k as nat)).0,
                    item_rolls(after_item_rolls(after_mob_rolls(old(rng).0, mobs.len() as nat), k as nat)).1,
                )
            &&& final(rng).0 == after_item_rolls(after_mob_rolls(old(rng).0, mobs.len() as nat), items.len() as nat)
            &&& forall|k: int| 0 <= k < mobs.len() ==> random_mob_at(#[trigger] mobs@[k], mobs@[k].position, world_pos)
            &&& forall|k: int| 0 <= k < items.len() ==> random_item_at(#[trigger] items@[k], items@[k].position, world_pos)
        },
        spawned is None ==> final(world).maps@ == old(world).maps@ && final(rng).0 == old(rng).0,
        (forall|k: int|
            0 <= k < old(world).maps.len() ==> !crate::map::map_lies_at(
                #[trigger] old(world).maps@[k],
                world_pos.x,
                world_pos.y,
            )) ==> spawned is Some,
{
    if let Some(_) = world.find_map(world_pos.x, world_pos.y) {
        return None;
    }
    let mut mapgen = MapGenerator::default();
    mapgen.rng.0 = rng_seeded(seed);
    let (mut new_map, start, mob_positions, item_positions) = GameMap::new_map_cellularautomata(mapgen);
    let ghost generated = new_map;
    new_map.world_pos.x = world_pos.x;
    new_map.world_pos.y = world_pos.y;
    new_map.world_pos.z = world_pos.z;
    assert(at_origin(new_map) == generated);
    let mobs = spawn_mobs(&mob_positions, rng, world_pos);
    let items = spawn_items(&item_positions, rng, world_pos);
    assert(mobs@.map_values(|b: NPCBundle| b.position) == mob_positions@);
    assert(items@.map_values(|s: ItemSpawn| s.position) == item_positions@);
    world.maps.push(new_map);
    assert(world.maps@.drop_last() == old(world).maps@);
    Some((mobs, items))
}

} // verus!
