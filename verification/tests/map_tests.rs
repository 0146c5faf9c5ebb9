use roguelike::components::{Point, Position, WorldPosition};
use roguelike::map::{
    place_positions,
    apply_horizontal_tunnel, apply_room_to_map, apply_vertical_tunnel, available_tiles, idx_xy,
    xy_idx, GameMap, MapGenerationAlgo, MapGenerator, MapIndexingSystem, Rect, TileType, WorldMap,
    MAP_TILES,
};
use roguelike::random::RNG;
use roguelike::{MAP_HEIGHT, MAP_WIDTH};

fn open_at(map: &GameMap, p: &Position) -> bool {
    map.tiles.iter().any(|t| t.tile != TileType::Wall && t.location == *p)
}

#[test]
fn xy_idx_row_major() {
    assert_eq!(xy_idx(0, 0), 0);
    assert_eq!(xy_idx(5, 0), 5);
    assert_eq!(xy_idx(0, 1), 80);
    assert_eq!(xy_idx(79, 49), 3999);
    assert_eq!(xy_idx(3, 2), 163);
}

#[test]
fn idx_xy_splits_index() {
    assert_eq!(idx_xy(0), (0, 0));
    assert_eq!(idx_xy(163), (3, 2));
    assert_eq!(idx_xy(3999), (79, 49));
    assert_eq!(idx_xy(80), (0, 1));
}

#[test]
fn idx_xy_and_xy_idx_round_trip() {
    for idx in 0..MAP_TILES {
        let (x, y) = idx_xy(idx);
        assert_eq!(xy_idx(x, y), idx);
    }
    for x in 0..MAP_WIDTH {
        for y in 0..MAP_HEIGHT {
            assert_eq!(idx_xy(xy_idx(x, y)), (x, y));
        }
    }
}

#[test]
fn rect_geometry() {
    let r = Rect::with_size(2, 3, 4, 5);
    assert_eq!(r, Rect { x1: 2, y1: 3, x2: 6, y2: 8 });
    assert_eq!(r.center(), Point { x: 4, y: 5 });
    assert!(r.intersect(&Rect::with_size(6, 8, 1, 1)));
    assert!(!r.intersect(&Rect::with_size(7, 3, 1, 1)));
    let n = Rect { x1: -3, y1: -3, x2: 0, y2: 0 };
    assert_eq!(n.center(), Point { x: -1, y: -1 });
}

#[test]
fn generator_default_parameters() {
    let g = MapGenerator::default();
    assert_eq!(g.rooms_range, Some((4, 10)));
    assert_eq!(g.room_size_range, Some((2, 10)));
    assert_eq!(g.mobs_range, (1, 20));
    assert_eq!(g.items_range, (0, 13));
    assert_eq!(g.cell_density, Some(10));
    assert_eq!(g.map_generator_algo, MapGenerationAlgo::RoomsAndCorridors);
}

fn check_rooms_map(map: &GameMap, start: &Position, mobs: &[Position], items: &[Position]) {
    assert_eq!(map.width, MAP_WIDTH - 1);
    assert_eq!(map.height, MAP_HEIGHT - 1);
    assert_eq!(map.tiles.len(), MAP_TILES);
    assert!(!map.rooms.is_empty() && map.rooms.len() <= 10);
    for (i, a) in map.rooms.iter().enumerate() {
        assert!(a.x1 >= 0 && a.x2 <= MAP_WIDTH - 2 && a.y1 >= 0 && a.y2 <= MAP_HEIGHT - 2);
        assert!((4..10).contains(&(a.x2 - a.x1)) && (4..10).contains(&(a.y2 - a.y1)));
        for b in map.rooms.iter().skip(i + 1) {
            assert!(!a.intersect(b));
        }
        for y in a.y1 + 1..=a.y2 {
            for x in a.x1 + 1..=a.x2 {
                assert_eq!(map.tiles[xy_idx(x, y)].tile, TileType::Floor);
            }
        }
    }
    for (i, t) in map.tiles.iter().enumerate() {
        let (x, y) = idx_xy(i);
        assert_eq!(t.location, Position { x, y });
        assert!(t.tile == TileType::Wall || t.tile == TileType::Floor);
        let glyph = if t.tile == TileType::Wall { '#' } else { '.' };
        assert_eq!(t.render.glyph, glyph);
    }
    for pair in map.rooms.windows(2) {
        let (a, b) = (pair[0].center(), pair[1].center());
        let floor = |x: i32, y: i32| xy_idx(x, y) == 0 || map.tiles[xy_idx(x, y)].tile == TileType::Floor;
        let row = |y: i32| (a.x.min(b.x)..=a.x.max(b.x)).all(|x| floor(x, y));
        let col = |x: i32| (a.y.min(b.y)..=a.y.max(b.y)).all(|y| floor(x, y));
        assert!((row(a.y) && col(b.x)) || (col(a.x) && row(b.y)));
    }
    let c = map.rooms[0].center();
    assert_eq!(*start, Position { x: c.x, y: c.y });
    assert!(open_at(map, start));
    assert_eq!(mobs.len() + 1, map.rooms.len());
    for (k, m) in mobs.iter().enumerate() {
        let c = map.rooms[k + 1].center();
        assert_eq!(*m, Position { x: c.x, y: c.y });
    }
    assert!(items.len() <= 13);
    for it in items {
        assert!(open_at(map, it));
        assert_ne!(it, start);
        assert!(!mobs.contains(it));
    }
    assert!(map.revealed_tiles.iter().all(|r| !r));
    assert!(map.blocked_tiles.iter().all(|b| !b));
    assert_eq!(map.world_pos, WorldPosition { x: 0, y: 0, z: 0 });
}

#[test]
fn rooms_and_corridors_map_is_consistent() {
    let (map, start, mobs, items) = GameMap::new_map_roomsandcorridors(MapGenerator::default());
    check_rooms_map(&map, &start, &mobs, &items);
}

#[test]
fn default_map_is_rooms_and_corridors() {
    let (map, start, mobs, items) = GameMap::default();
    check_rooms_map(&map, &start, &mobs, &items);
}

#[test]
fn rooms_and_corridors_is_deterministic_for_a_seed() {
    let a = GameMap::new_map_roomsandcorridors(MapGenerator::default());
    let b = GameMap::new_map_roomsandcorridors(MapGenerator::default());
    assert_eq!(a.0.rooms, b.0.rooms);
    assert_eq!(a.0.tiles, b.0.tiles);
    assert_eq!(a.3, b.3);
}

#[test]
fn cellular_map_is_consistent() {
    let (map, start, mobs, items) = GameMap::new_map_cellularautomata(MapGenerator::default());
    assert_eq!(map.width, MAP_WIDTH);
    assert_eq!(map.height, MAP_HEIGHT);
    assert!(map.rooms.is_empty());
    assert_eq!(start, Position { x: 40, y: 25 });
    assert_eq!(map.tiles[xy_idx(40, 25)].tile, TileType::Floor);
    let mut trees = 0;
    for (i, t) in map.tiles.iter().enumerate() {
        let (x, y) = idx_xy(i);
        assert_eq!(t.location, Position { x, y });
        if t.tile == TileType::Wall {
            trees += 1;
            assert_eq!(t.render.glyph, '\u{2663}');
            assert!(x >= 1 && y >= 1);
        } else {
            assert_eq!(t.tile, TileType::Floor);
            assert_eq!(t.render.glyph, '.');
        }
    }
    assert!(trees > 0 && trees <= 400);
    assert!(mobs.len() >= 1 && mobs.len() <= 20);
    for m in &mobs {
        assert!(open_at(&map, m));
        assert_ne!(*m, start);
    }
    assert!(items.len() <= 13);
    for it in &items {
        assert!(open_at(&map, it));
        assert_ne!(*it, start);
        assert!(!mobs.contains(it));
    }
}

#[test]
fn drunkards_walk_map_is_consistent() {
    let (map, start, mobs, items) = GameMap::new_map_drunkardswalk(MapGenerator::default());
    assert_eq!(start, Position { x: 40, y: 25 });
    let floors = map.tiles.iter().filter(|t| t.tile == TileType::Floor).count();
    assert!(floors >= 4000 / 3 && floors < 4000 / 3 + 101);
    for (i, t) in map.tiles.iter().enumerate() {
        let (x, y) = idx_xy(i);
        assert_eq!(t.location, Position { x, y });
        assert_ne!(t.tile, TileType::DownStairs);
        if x == 0 || y == 0 || x == MAP_WIDTH - 1 || y == MAP_HEIGHT - 1 {
            assert_eq!(t.tile, TileType::Wall);
        }
        if t.tile == TileType::Floor {
            assert_eq!(t.render.glyph, '.');
        } else {
            assert_eq!(t.render.glyph, '#');
        }
    }
    assert!(map.blocked_tiles.iter().all(|b| *b));
    assert!(!mobs.is_empty() && mobs.len() <= 20);
    for m in &mobs {
        assert!(open_at(&map, m));
        assert_ne!(*m, start);
    }
    for it in &items {
        assert!(open_at(&map, it));
        assert_ne!(*it, start);
        assert!(!mobs.contains(it));
    }
}

#[test]
fn map_for_roll_follows_the_roll() {
    let (rooms, start, mobs, items) = GameMap::map_for_roll(1, MapGenerator::default());
    check_rooms_map(&rooms, &start, &mobs, &items);
    let (dug, start, mobs, _) = GameMap::map_for_roll(2, MapGenerator::default());
    assert!(dug.rooms.is_empty());
    assert!(dug.blocked_tiles.iter().all(|b| *b));
    assert!(dug.tiles.iter().filter(|t| t.tile == TileType::Floor).count() >= 1333);
    assert_eq!(start, Position { x: 40, y: 25 });
    assert!(!mobs.is_empty());
    for roll in [3, 0, -4] {
        let (cells, start, mobs, _) = GameMap::map_for_roll(roll, MapGenerator::default());
        assert!(cells.rooms.is_empty());
        assert!(cells.blocked_tiles.iter().all(|b| !*b));
        assert!(cells.tiles.iter().filter(|t| t.tile == TileType::Wall).count() <= 400);
        assert_eq!(start, Position { x: 40, y: 25 });
        assert!(!mobs.is_empty());
    }
    let a = GameMap::map_for_roll(3, MapGenerator::default());
    let b = GameMap::new_map_cellularautomata(MapGenerator::default());
    assert_eq!(a.0.tiles, b.0.tiles);
    assert_eq!(a.2, b.2);
}

#[test]
fn denser_trees_stay_under_the_bound() {
    let mut g = MapGenerator::default();
    g.cell_density = Some(3);
    let (map, _, mobs, _) = GameMap::new_map_cellularautomata(g);
    let trees = map.tiles.iter().filter(|t| t.tile == TileType::Wall).count();
    assert!(trees > 400 && trees <= 4000 / 3);
    assert!(!mobs.is_empty());
}

#[test]
fn well_formed_maps_are_recognised() {
    let (mut map, _, _, _) = GameMap::default();
    assert!(map.is_well_formed());
    map.revealed_tiles.pop();
    assert!(!map.is_well_formed());
    let (mut map, _, _, _) = GameMap::default();
    map.width = 0;
    assert!(!map.is_well_formed());
    let (mut map, _, _, _) = GameMap::default();
    map.height = MAP_HEIGHT + 1;
    assert!(!map.is_well_formed());
}

#[test]
fn random_map_picks_one_generator() {
    let mut rng = RNG(rltk::RandomNumberGenerator::seeded(7));
    let mut kinds = std::collections::HashSet::new();
    for _ in 0..12 {
        let (map, start, mobs, items) = GameMap::random(&mut rng);
        assert_eq!(map.tiles.len(), MAP_TILES);
        let kind = if !map.rooms.is_empty() {
            check_rooms_map(&map, &start, &mobs, &items);
            "rooms"
        } else if map.blocked_tiles.iter().all(|b| *b) {
            assert_eq!(map.tiles[0].tile, TileType::Wall);
            "drunkard"
        } else {
            assert_eq!(map.tiles[xy_idx(40, 25)].tile, TileType::Floor);
            "cellular"
        };
        kinds.insert(kind);
        for it in &items {
            assert!(open_at(&map, it));
        }
    }
    assert!(kinds.len() >= 2);
}

fn all_wall_map() -> GameMap {
    let (mut map, _, _, _) = GameMap::new_map_drunkardswalk(MapGenerator::default());
    for (i, t) in map.tiles.iter_mut().enumerate() {
        let (x, y) = idx_xy(i);
        t.tile = TileType::Wall;
        t.location = Position { x, y };
    }
    map.width = MAP_WIDTH;
    map.height = MAP_HEIGHT;
    map
}

#[test]
fn apply_room_carves_interior_only() {
    let mut map = all_wall_map();
    apply_room_to_map(&Rect::with_size(2, 3, 4, 2), &mut map);
    for (i, t) in map.tiles.iter().enumerate() {
        let (x, y) = idx_xy(i);
        let inside = x > 2 && x <= 6 && y > 3 && y <= 5;
        assert_eq!(t.tile == TileType::Floor, inside);
    }
    let before = map.tiles.clone();
    apply_room_to_map(&Rect::with_size(10, 10, 0, 3), &mut map);
    assert_eq!(map.tiles, before);
}

#[test]
fn tunnels_dig_inclusive_ranges() {
    let mut map = all_wall_map();
    apply_horizontal_tunnel(&mut map, 9, 4, 7);
    apply_vertical_tunnel(&mut map, 20, 12, 30);
    for (i, t) in map.tiles.iter().enumerate() {
        let (x, y) = idx_xy(i);
        let dug = (y == 7 && (4..=9).contains(&x)) || (x == 30 && (12..=20).contains(&y));
        assert_eq!(t.tile == TileType::Floor, dug, "tile {} {}", x, y);
        if dug {
            assert_eq!(t.location, Position { x, y });
        }
    }
}

#[test]
fn tunnel_never_writes_tile_zero() {
    let mut map = all_wall_map();
    apply_horizontal_tunnel(&mut map, 0, 2, 0);
    assert_eq!(map.tiles[0].tile, TileType::Wall);
    assert_eq!(map.tiles[1].tile, TileType::Floor);
    assert_eq!(map.tiles[2].tile, TileType::Floor);
}

#[test]
fn blocked_tiles_follow_walls_and_exits() {
    let mut map = all_wall_map();
    apply_room_to_map(&Rect::with_size(9, 9, 3, 3), &mut map);
    map.populate_blocked_tiles();
    for (i, t) in map.tiles.iter().enumerate() {
        assert_eq!(map.blocked_tiles[i], t.tile == TileType::Wall);
    }
    assert!(map.is_exit_valid(11, 11));
    assert!(!map.is_exit_valid(9, 9));
    assert!(!map.is_exit_valid(0, 11));
    let centre = xy_idx(11, 11);
    assert_eq!(
        map.get_available_exits(centre),
        vec![xy_idx(11, 12), xy_idx(12, 11), xy_idx(11, 10), xy_idx(10, 11)]
    );
    let corner = xy_idx(10, 10);
    assert_eq!(map.get_available_exits(corner), vec![xy_idx(10, 11), xy_idx(11, 10)]);
    assert!(map.is_opaque(0));
    assert!(!map.is_opaque(centre));
    assert_eq!(map.dimensions(), Point { x: MAP_WIDTH, y: MAP_HEIGHT });
}

#[test]
fn map_indexing_marks_walls_and_blockers() {
    let mut map = all_wall_map();
    apply_room_to_map(&Rect::with_size(9, 9, 3, 3), &mut map);
    let mut other = map.clone();
    other.world_pos = WorldPosition { x: 1, y: 0, z: 0 };
    let mut world = WorldMap { maps: vec![other, map] };
    let here = WorldPosition { x: 0, y: 0, z: 0 };
    MapIndexingSystem::run(&mut world, &here, &vec![Position { x: 11, y: 11 }]);
    let m = &world.maps[1];
    assert!(m.blocked_tiles[xy_idx(11, 11)]);
    assert!(!m.blocked_tiles[xy_idx(10, 11)]);
    assert!(m.blocked_tiles[xy_idx(0, 0)]);
    assert!(world.maps[0].blocked_tiles.iter().all(|b| *b));
    assert_eq!(world.find_map(1, 0), Some(0));
    assert_eq!(world.find_map(0, 0), Some(1));
    assert_eq!(world.find_map(2, 2), None);
}

#[test]
fn available_tiles_lists_open_locations_in_order() {
    let mut map = all_wall_map();
    apply_room_to_map(&Rect::with_size(0, 0, 2, 1), &mut map);
    assert_eq!(available_tiles(&map.tiles), vec![Position { x: 1, y: 1 }, Position { x: 2, y: 1 }]);
}

#[test]
fn placement_places_exactly_the_count() {
    let mut rng = rltk::RandomNumberGenerator::seeded(21);
    let start = Position { x: 1, y: 1 };
    let available = vec![start, Position { x: 2, y: 1 }, Position { x: 3, y: 1 }];
    let occupied = vec![Position { x: 3, y: 1 }];
    let placed = place_positions(&mut rng, &available, 5, start, &occupied);
    assert_eq!(placed, vec![Position { x: 2, y: 1 }; 5]);
    assert!(place_positions(&mut rng, &available, 0, start, &occupied).is_empty());
}

#[test]
fn item_counts_reach_the_lower_end() {
    let mut g = MapGenerator::default();
    g.items_range = (3, 5);
    let (_, _, _, items) = GameMap::new_map_roomsandcorridors(g);
    assert!(items.len() >= 3 && items.len() <= 5);
    let mut g = MapGenerator::default();
    g.items_range = (2, 4);
    g.mobs_range = (6, 8);
    let (_, _, mobs, items) = GameMap::new_map_cellularautomata(g);
    assert!(mobs.len() >= 6 && mobs.len() <= 8);
    assert!(items.len() >= 2 && items.len() <= 4);
    let mut g = MapGenerator::default();
    g.items_range = (1, 1);
    g.mobs_range = (2, 3);
    let (_, _, mobs, items) = GameMap::new_map_drunkardswalk(g);
    assert!(mobs.len() >= 2 && mobs.len() <= 3);
    assert_eq!(items.len(), 1);
}

#[test]
fn drunkards_walk_is_fixed_by_its_generator() {
    let with_seed = |seed: u64| {
        let mut g = MapGenerator::default();
        g.rng = RNG(rltk::RandomNumberGenerator::seeded(seed));
        GameMap::new_map_drunkardswalk(g).0.tiles
    };
    assert_eq!(with_seed(5), with_seed(5));
    assert_ne!(with_seed(5), with_seed(6));
}
