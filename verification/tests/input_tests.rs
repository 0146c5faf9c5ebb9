use roguelike::components::{GameLoopState, GameState, InventoryCursor, Point, Position, RunState, WorldPosition};
use roguelike::input::{
    enemies_at, inventory_cursor, player_get_item, player_inventory_screen, player_use_item, player_wait,
    player_walk, read_movement, InventoryRequest, KeyCode, WalkOutcome, new_game_requested, walk_in_range,
    end_walk_turn,
};
use roguelike::map::{xy_idx, GameMap, MapGenerator};

#[test]
fn movement_keys() {
    assert_eq!(read_movement(&vec![]), Point { x: 0, y: 0 });
    assert_eq!(read_movement(&vec![KeyCode::Up]), Point { x: 0, y: 1 });
    assert_eq!(read_movement(&vec![KeyCode::X]), Point { x: 0, y: -1 });
    assert_eq!(read_movement(&vec![KeyCode::A]), Point { x: -1, y: 0 });
    assert_eq!(read_movement(&vec![KeyCode::Numpad6]), Point { x: 1, y: 0 });
    assert_eq!(read_movement(&vec![KeyCode::Z]), Point { x: -1, y: -1 });
    assert_eq!(read_movement(&vec![KeyCode::Numpad3]), Point { x: 1, y: -1 });
    assert_eq!(read_movement(&vec![KeyCode::Q]), Point { x: -1, y: 1 });
    assert_eq!(read_movement(&vec![KeyCode::E]), Point { x: 1, y: 1 });
    assert_eq!(read_movement(&vec![KeyCode::Left, KeyCode::Up]), Point { x: -1, y: 1 });
    assert_eq!(read_movement(&vec![KeyCode::Z, KeyCode::D]), Point { x: 1, y: -1 });
    assert_eq!(read_movement(&vec![KeyCode::S, KeyCode::G]), Point { x: 0, y: 0 });
}

fn moved(pos: i32, n: i32, keys: Vec<KeyCode>) -> i32 {
    let mut c = InventoryCursor { pos };
    inventory_cursor(&mut c, n, &keys);
    c.pos
}

#[test]
fn cursor_navigation() {
    assert_eq!(moved(0, 5, vec![KeyCode::Down]), 1);
    assert_eq!(moved(4, 5, vec![KeyCode::Down]), 4);
    assert_eq!(moved(3, 5, vec![KeyCode::Up]), 2);
    assert_eq!(moved(1, 5, vec![KeyCode::Up]), 0);
    assert_eq!(moved(12, 20, vec![KeyCode::Left]), 2);
    assert_eq!(moved(7, 20, vec![KeyCode::Left]), 0);
    assert_eq!(moved(3, 20, vec![KeyCode::Right]), 13);
    assert_eq!(moved(15, 20, vec![KeyCode::Right]), 19);
    assert_eq!(moved(2, 5, vec![KeyCode::Down, KeyCode::Up]), 2);
    assert_eq!(moved(2, 5, vec![]), 2);
}

#[test]
fn cursor_right_can_pass_last_item() {
    assert_eq!(moved(0, 10, vec![KeyCode::Right]), 10);
}

#[test]
fn cursor_with_empty_inventory_goes_negative() {
    assert_eq!(moved(0, 0, vec![KeyCode::Down]), -1);
}

#[test]
fn inventory_key_toggles() {
    let mut gs = GameState { runstate: RunState::Paused };
    assert_eq!(player_inventory_screen(&vec![KeyCode::I], GameLoopState::PlayerTurn, &mut gs), Some(InventoryRequest::Open));
    assert_eq!(gs.runstate, RunState::Paused);
    assert_eq!(player_inventory_screen(&vec![KeyCode::I], GameLoopState::Inventory, &mut gs), Some(InventoryRequest::Close));
    assert_eq!(gs.runstate, RunState::Running);
    assert_eq!(player_inventory_screen(&vec![KeyCode::S], GameLoopState::Inventory, &mut gs), None);
}

#[test]
fn wait_and_get_end_the_turn() {
    let mut gs = GameState { runstate: RunState::Paused };
    assert_eq!(player_wait(&vec![KeyCode::G], &mut gs), None);
    assert_eq!(gs.runstate, RunState::Paused);
    assert_eq!(player_wait(&vec![KeyCode::S], &mut gs), Some(GameLoopState::NPCTurn));
    assert_eq!(gs.runstate, RunState::Running);
    let mut gs = GameState { runstate: RunState::Paused };
    let here = Position { x: 3, y: 4 };
    assert_eq!(player_get_item(&vec![KeyCode::S], here, &mut gs), (None, None));
    assert_eq!(gs.runstate, RunState::Paused);
    assert_eq!(player_get_item(&vec![KeyCode::G], here, &mut gs), (Some(here), Some(GameLoopState::NPCTurn)));
    assert_eq!(gs.runstate, RunState::Running);
}

#[test]
fn quick_slots_use_named_items() {
    let mut gs = GameState { runstate: RunState::Paused };
    let named = vec![true, false, true];
    assert_eq!(player_use_item(&vec![KeyCode::Key2], &named, &mut gs), (None, None));
    assert_eq!(gs.runstate, RunState::Paused);
    assert_eq!(player_use_item(&vec![KeyCode::Key3, KeyCode::Key1], &named, &mut gs), (Some(0), Some(GameLoopState::NPCTurn)));
    assert_eq!(player_use_item(&vec![KeyCode::Key3], &named, &mut gs), (Some(2), Some(GameLoopState::NPCTurn)));
    assert_eq!(player_use_item(&vec![KeyCode::Key3], &vec![true], &mut gs), (None, None));
    assert_eq!(gs.runstate, RunState::Running);
}

fn open_map() -> GameMap {
    let (mut map, _, _, _) = GameMap::new_map_cellularautomata(MapGenerator::default());
    for b in map.blocked_tiles.iter_mut() {
        *b = false;
    }
    map.world_pos = WorldPosition { x: 1, y: 1, z: 0 };
    map
}

#[test]
fn walking_moves_attacks_and_stays() {
    let mut map = open_map();
    let here = Position { x: 10, y: 10 };
    assert_eq!(player_walk(&map, here, Point { x: 0, y: 0 }), WalkOutcome::Stay);
    assert_eq!(player_walk(&map, here, Point { x: 1, y: -1 }), WalkOutcome::Move { to: Position { x: 11, y: 9 } });
    map.blocked_tiles[xy_idx(11, 10)] = true;
    assert_eq!(player_walk(&map, here, Point { x: 1, y: 0 }), WalkOutcome::Attack { target: Position { x: 11, y: 10 } });
}

#[test]
fn walking_off_the_map_changes_map() {
    let map = open_map();
    assert_eq!(
        player_walk(&map, Position { x: 79, y: 10 }, Point { x: 1, y: 0 }),
        WalkOutcome::ChangeMap {
            world_pos: WorldPosition { x: 2, y: 1, z: 0 },
            position: Position { x: 0, y: 10 },
            seed: (80 + 3 * 10 + 3) as u64,
        }
    );
    assert_eq!(
        player_walk(&map, Position { x: 0, y: 10 }, Point { x: -1, y: 0 }),
        WalkOutcome::ChangeMap {
            world_pos: WorldPosition { x: 0, y: 1, z: 0 },
            position: Position { x: 79, y: 10 },
            seed: (-1 + 3 * 10 + 3) as u64,
        }
    );
    assert_eq!(
        player_walk(&map, Position { x: 5, y: 0 }, Point { x: 0, y: -1 }),
        WalkOutcome::ChangeMap {
            world_pos: WorldPosition { x: 1, y: 0, z: 0 },
            position: Position { x: 5, y: 49 },
            seed: (5i32 + 3 * -1 + 3) as u64,
        }
    );
    assert_eq!(
        player_walk(&map, Position { x: 79, y: 49 }, Point { x: 1, y: 1 }),
        WalkOutcome::ChangeMap {
            world_pos: WorldPosition { x: 1, y: 2, z: 0 },
            position: Position { x: 0, y: 0 },
            seed: (80 + 3 * 50 + 3) as u64,
        }
    );
    match player_walk(&map, Position { x: 0, y: 0 }, Point { x: -1, y: -1 }) {
        WalkOutcome::ChangeMap { seed, .. } => assert_eq!(seed, (-1i32 + 3 * -1 + 3) as u64),
        other => panic!("{:?}", other),
    }
}

#[test]
fn attack_targets_every_enemy_on_the_tile() {
    let enemies = vec![Position { x: 3, y: 3 }, Position { x: 4, y: 3 }, Position { x: 3, y: 3 }];
    assert_eq!(enemies_at(&enemies, Position { x: 3, y: 3 }), vec![0, 2]);
    assert_eq!(enemies_at(&enemies, Position { x: 5, y: 5 }), Vec::<usize>::new());
}

#[test]
fn n_asks_for_a_new_game() {
    assert_eq!(new_game_requested(&vec![KeyCode::N]), Some(GameLoopState::NewGame));
    assert_eq!(new_game_requested(&vec![KeyCode::S, KeyCode::N]), Some(GameLoopState::NewGame));
    assert_eq!(new_game_requested(&vec![KeyCode::S, KeyCode::G]), None);
    assert_eq!(new_game_requested(&vec![]), None);
}

#[test]
fn standing_still_fits_anywhere() {
    let mut map = open_map();
    map.world_pos = WorldPosition { x: i32::MAX, y: i32::MIN, z: 0 };
    let far = Position { x: i32::MAX, y: i32::MIN };
    assert!(walk_in_range(&map, far, Point { x: 0, y: 0 }));
    assert_eq!(player_walk(&map, far, Point { x: 0, y: 0 }), WalkOutcome::Stay);
    assert!(!walk_in_range(&map, far, Point { x: 1, y: 0 }));
    assert!(!walk_in_range(&map, Position { x: 79, y: 5 }, Point { x: 1, y: 0 }));
    assert!(walk_in_range(&map, Position { x: 0, y: 5 }, Point { x: -1, y: 0 }));
}

#[test]
fn every_single_step_from_the_map_lands_on_a_map() {
    let map = open_map();
    for (x, y) in [(0, 0), (79, 0), (0, 49), (79, 49), (40, 25), (5, 0)] {
        for dx in -1..=1 {
            for dy in -1..=1 {
                let curr = Position { x, y };
                assert!(walk_in_range(&map, curr, Point { x: dx, y: dy }));
                let after = match player_walk(&map, curr, Point { x: dx, y: dy }) {
                    WalkOutcome::Stay | WalkOutcome::Attack { .. } => curr,
                    WalkOutcome::Move { to } => to,
                    WalkOutcome::ChangeMap { position, .. } => position,
                };
                assert!(after.x >= 0 && after.x < 80 && after.y >= 0 && after.y < 50);
            }
        }
    }
}

#[test]
fn a_step_ends_the_turn_as_it_came_out() {
    let paused = GameState { runstate: RunState::Paused };
    let mut gs = paused;
    let t = end_walk_turn(&WalkOutcome::Stay, 7, &mut gs);
    assert_eq!((t.attack_damage, t.view_dirty, t.next), (None, false, None));
    assert_eq!(gs.runstate, RunState::Paused);
    let change = WalkOutcome::ChangeMap {
        world_pos: WorldPosition { x: 1, y: 0, z: 0 },
        position: Position { x: 0, y: 3 },
        seed: 4,
    };
    let t = end_walk_turn(&change, 7, &mut gs);
    assert_eq!((t.attack_damage, t.view_dirty, t.next), (None, false, None));
    assert_eq!(gs.runstate, RunState::Paused);
    let t = end_walk_turn(&WalkOutcome::Attack { target: Position { x: 2, y: 2 } }, 7, &mut gs);
    assert_eq!((t.attack_damage, t.view_dirty, t.next), (Some((1, 7)), false, Some(GameLoopState::NPCTurn)));
    assert_eq!(gs.runstate, RunState::Running);
    let mut gs = paused;
    let t = end_walk_turn(&WalkOutcome::Move { to: Position { x: 2, y: 2 } }, 7, &mut gs);
    assert_eq!((t.attack_damage, t.view_dirty, t.next), (None, true, Some(GameLoopState::NPCTurn)));
    assert_eq!(gs.runstate, RunState::Running);
}

#[test]
fn attacks_match_enemies_by_tile_index() {
    let enemies = vec![Position { x: 80, y: 2 }, Position { x: 0, y: 3 }, Position { x: 1, y: 3 }, Position { x: -5, y: -7 }];
    assert_eq!(enemies_at(&enemies, Position { x: 0, y: 3 }), vec![0, 1]);
    assert_eq!(enemies_at(&enemies, Position { x: 1, y: 3 }), vec![2]);
}
