use roguelike::components::{Point, Position, Viewshed};
use roguelike::game::{enter_map, init_new_game};
use roguelike::input::{player_walk, WalkOutcome};
use roguelike::map::{xy_idx, GameMap, MapGenerator, TileType, WorldMap};
use roguelike::random::RNG;
use roguelike::rendering::{entities_under, quick_inventory_slots, tile_draws, visible_entities};
use roguelike::viewshed::{clip_to_map, get_visible_tiles, update_viewsheds};
use roguelike::components::{GameLoopState, RunState, WorldPosition};

fn pt(x: i32, y: i32) -> Point {
    Point { x, y }
}

#[test]
fn clipping_keeps_points_on_the_map() {
    let pts = vec![pt(-1, 3), pt(0, 0), pt(79, 49), pt(80, 1), pt(3, 50), pt(5, -2), pt(4, 4)];
    assert_eq!(clip_to_map(pts.clone(), 80, 50), vec![pt(0, 0), pt(79, 49), pt(4, 4)]);
    assert_eq!(clip_to_map(pts, 79, 49), vec![pt(0, 0), pt(4, 4)]);
}

#[test]
fn player_view_reveals_tiles() {
    let (mut map, _, _, _) = GameMap::new_map_cellularautomata(MapGenerator::default());
    let mut view = Viewshed { visible_tiles: vec![], range: 3, dirty: true };
    get_visible_tiles(&mut view, &mut map, vec![pt(10, 10), pt(-1, 10), pt(11, 10)]);
    assert_eq!(view.visible_tiles, vec![pt(10, 10), pt(11, 10)]);
    assert!(view.dirty);
    assert!(map.revealed_tiles[xy_idx(10, 10)]);
    assert!(map.revealed_tiles[xy_idx(11, 10)]);
    assert_eq!(map.revealed_tiles.iter().filter(|r| **r).count(), 2);
    let mut other = Viewshed { visible_tiles: vec![pt(1, 1)], range: 3, dirty: false };
    update_viewsheds(&mut other, &map, vec![pt(2, 2), pt(90, 2)]);
    assert_eq!(other.visible_tiles, vec![pt(2, 2)]);
    assert_eq!(map.revealed_tiles.iter().filter(|r| **r).count(), 2);
}

#[test]
fn drawing_dims_remembered_and_brightens_visible() {
    let (mut map, _, _, _) = GameMap::new_map_cellularautomata(MapGenerator::default());
    map.revealed_tiles[xy_idx(1, 0)] = true;
    map.revealed_tiles[xy_idx(2, 0)] = true;
    let draws = tile_draws(&map, &vec![pt(2, 0), pt(3, 0)]);
    let summary: Vec<(i32, i32, bool)> = draws.iter().map(|d| (d.x, d.y, d.dimmed)).collect();
    assert_eq!(summary, vec![(1, 0, true), (2, 0, true), (2, 0, false), (3, 0, false)]);
    assert_eq!(draws[0].glyph, map.tiles[1].render.glyph);
}

#[test]
fn entity_visibility_and_tooltips() {
    let positions = vec![Position { x: 1, y: 1 }, Position { x: 2, y: 2 }, Position { x: 1, y: 1 }];
    assert_eq!(visible_entities(&positions, &vec![pt(1, 1)]), vec![0, 2]);
    assert_eq!(entities_under(&positions, 2, 2), vec![1]);
    assert_eq!(quick_inventory_slots(&vec![true, false, true, true]), vec![0, 2]);
    assert_eq!(quick_inventory_slots(&vec![]), Vec::<usize>::new());
}

#[test]
fn new_game_is_set_up() {
    let g = init_new_game();
    assert_eq!(g.game_state.runstate, RunState::Running);
    assert_eq!(g.next_state, GameLoopState::PlayerTurn);
    assert_eq!(g.world_map.maps.len(), 1);
    assert_eq!(g.player.name.0, "Hero");
    let map = &g.world_map.maps[0];
    for m in &g.mobs {
        assert_ne!(m.position, g.player.position);
        assert_eq!(m.world_pos, WorldPosition { x: 0, y: 0, z: 0 });
        assert_ne!(map.tiles[xy_idx(m.position.x, m.position.y)].tile, TileType::Wall);
    }
    for it in &g.items {
        assert_ne!(it.position, g.player.position);
        assert!(g.mobs.iter().all(|m| m.position != it.position));
    }
}

#[test]
fn entering_a_new_map_generates_it_once() {
    let g = init_new_game();
    let mut world = g.world_map;
    let mut rng = RNG(rltk::RandomNumberGenerator::seeded(9));
    let here = WorldPosition { x: 0, y: 0, z: 0 };
    assert!(enter_map(&mut world, here, 1, &mut rng).is_none());
    assert_eq!(world.maps.len(), 1);
    let there = WorldPosition { x: 1, y: 0, z: 0 };
    let (mobs, items) = enter_map(&mut world, there, 113, &mut rng).expect("new map");
    assert_eq!(world.maps.len(), 2);
    assert_eq!(world.maps[1].world_pos, there);
    assert!(!mobs.is_empty());
    assert!(mobs.iter().all(|m| m.world_pos == there));
    assert!(items.iter().all(|i| i.world_pos == there));
    assert!(enter_map(&mut world, there, 113, &mut rng).is_none());
    assert_eq!(world.maps.len(), 2);
    let map = &world.maps[1];
    match player_walk(map, Position { x: 0, y: 5 }, Point { x: -1, y: 0 }) {
        WalkOutcome::ChangeMap { world_pos, .. } => assert_eq!(world_pos, WorldPosition { x: 0, y: 0, z: 0 }),
        other => panic!("{:?}", other),
    }
}

#[test]
fn status_line_shows_hit_points() {
    let text = |hp: i32, max_hp: i32| -> String {
        roguelike::rendering::status_text(&roguelike::components::CombatStats { max_hp, hp, defense: 0, power: 0 })
            .into_iter()
            .collect()
    };
    assert_eq!(text(30, 30), "HP: 30 / 30");
    assert_eq!(text(7, 120), "HP: 7 / 120");
    assert_eq!(text(0, 9), "HP: 0 / 9");
    assert_eq!(text(-4, 30), "HP: -4 / 30");
    assert_eq!(text(i32::MIN, i32::MAX), format!("HP: {} / {}", i32::MIN, i32::MAX));
}

#[test]
fn a_new_map_grows_from_its_seed() {
    let g = init_new_game();
    let mut world = g.world_map;
    let mut rng = RNG(rltk::RandomNumberGenerator::seeded(9));
    let there = WorldPosition { x: 0, y: 1, z: 0 };
    enter_map(&mut world, there, 42, &mut rng).expect("new map");
    let mut gen = MapGenerator::default();
    gen.rng = RNG(rltk::RandomNumberGenerator::seeded(42));
    let (same, _, _, _) = GameMap::new_map_cellularautomata(gen);
    assert_eq!(world.maps[1].tiles, same.tiles);
    let mut other = MapGenerator::default();
    other.rng = RNG(rltk::RandomNumberGenerator::seeded(0));
    let (differ, _, _, _) = GameMap::new_map_cellularautomata(other);
    assert_ne!(world.maps[1].tiles, differ.tiles);
}
