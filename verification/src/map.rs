//! Maps: tiles, rooms, the world of maps, and the generators that build them.
use vstd::prelude::*;

use crate::components::{Color, Point, Position, Renderable, WorldPosition};
use crate::random::{dice_roll, range_i32, range_i32_draw, range_usize, rng_seeded, roll_dice, seeded_generator, RNG};
use crate::{MAP_HEIGHT, MAP_WIDTH, RNG_SEED};

verus! {

/// Number of tiles in one map.
pub const MAP_TILES: usize = 4000;

/// Index of tile `(x, y)` in a map's tile vectors (row-major, rows of `MAP_WIDTH`).
pub open spec fn tile_index(x: int, y: int) -> int {
    y * MAP_WIDTH + x
}

/// Column of the tile stored at `idx`.
pub open spec fn index_x(idx: int) -> int {
    idx % (MAP_WIDTH as int)
}

/// Row of the tile stored at `idx`.
pub open spec fn index_y(idx: int) -> int {
    idx / (MAP_WIDTH as int)
}

/// Whether `(x, y)` lies on a map.
pub open spec fn on_map(x: int, y: int) -> bool {
    0 <= x < MAP_WIDTH && 0 <= y < MAP_HEIGHT
}

/// Whether `(x, y)` lies on a map.
pub fn is_on_map(x: i32, y: i32) -> (b: bool)
    ensures
        b == on_map(x as int, y as int),
{
    0 <= x && x < MAP_WIDTH && 0 <= y && y < MAP_HEIGHT
}

/// The coordinates of the tile stored at `idx`.
pub open spec fn location_of(idx: int) -> Position {
    Position { x: index_x(idx) as i32, y: index_y(idx) as i32 }
}

/// Integer division as Rust computes it on signed values: rounded toward zero.
pub open spec fn div_toward_zero(a: int, b: int) -> int
    recommends
        b > 0,
{
    if a >= 0 {
        a / b
    } else {
        -((-a) / b)
    }
}

/// Converts map coordinates to the index of the tile in the map's vectors.
pub fn xy_idx(x: i32, y: i32) -> (idx: usize)
    requires
        0 <= x,
        0 <= y,
        tile_index(x as int, y as int) <= usize::MAX,
    ensures
        idx == tile_index(x as int, y as int),
{
    (y as usize * MAP_WIDTH as usize) + x as usize
}

/// Converts the index of a tile back to its map coordinates.
pub fn idx_xy(idx: usize) -> (xy: (i32, i32))
    requires
        idx <= i32::MAX,
    ensures
        xy.0 == index_x(idx as int),
        xy.1 == index_y(idx as int),
{
    let y = idx as i32 / MAP_WIDTH;
    let x = idx as i32 - (MAP_WIDTH * y);
    (x, y)
}

/// Splitting an index into column and row and joining them again gives the
/// index back; the column lies in `0..MAP_WIDTH`, and an index of a map tile
/// has its row in `0..MAP_HEIGHT`.
pub proof fn lemma_index_split(idx: int)
    requires
        0 <= idx,
    ensures
        tile_index(index_x(idx), index_y(idx)) == idx,
        0 <= index_x(idx) < MAP_WIDTH,
        0 <= index_y(idx),
        index_y(idx) <= idx,
        idx < MAP_TILES ==> index_y(idx) < MAP_HEIGHT,
{
    vstd::arithmetic::div_mod::lemma_fundamental_div_mod(idx, MAP_WIDTH as int);
}

/// The column and row of the index of `(x, y)` are `x` and `y` again, for
/// any `x` in `0..MAP_WIDTH` and any row `y`.
pub proof fn lemma_index_join(x: int, y: int)
    requires
        0 <= x < MAP_WIDTH,
        0 <= y,
    ensures
        index_x(tile_index(x, y)) == x,
        index_y(tile_index(x, y)) == y,
        on_map(x, y) ==> 0 <= tile_index(x, y) < MAP_TILES,
{
    vstd::arithmetic::div_mod::lemma_fundamental_div_mod_converse(
        tile_index(x, y),
        MAP_WIDTH as int,
        y,
        x,
    );
}

/// `idx_xy` undoes `xy_idx`: for a column in `0..MAP_WIDTH` and any row whose
/// index fits an `i32`, converting to an index and back gives `(x, y)`.
pub proof fn law_idx_xy_undoes_xy_idx(x: i32, y: i32)
    requires
        0 <= x < MAP_WIDTH,
        0 <= y,
        tile_index(x as int, y as int) <= i32::MAX,
    ensures
        index_x(tile_index(x as int, y as int)) == x,
        index_y(tile_index(x as int, y as int)) == y,
{
    lemma_index_join(x as int, y as int);
}

/// `xy_idx` undoes `idx_xy`: every index that fits an `i32` is the index of
/// its own coordinates.
pub proof fn law_xy_idx_undoes_idx_xy(idx: usize)
    requires
        idx <= i32::MAX,
    ensures
        0 <= index_x(idx as int) < MAP_WIDTH,
        0 <= index_y(idx as int),
        tile_index(index_x(idx as int), index_y(idx as int)) == idx,
{
    lemma_index_split(idx as int);
}

/// What a map tile is made of.
#[derive(Clone, Copy, Debug, PartialEq, Eq, Structural)]
pub enum TileType {
    Wall,
    Floor,
    DownStairs,
}

/// One tile of a map: its kind, how it is drawn, and where it lies.
#[derive(Clone, Copy, Debug, PartialEq, Eq, Structural)]
pub struct Tile {
    pub tile: TileType,
    pub render: Renderable,
    pub location: Position,
}

/// An axis-aligned rectangle of tiles, given by two corners.
#[derive(Clone, Copy, Debug, PartialEq, Eq, Structural)]
pub struct Rect {
    pub x1: i32,
    pub x2: i32,
    pub y1: i32,
    pub y2: i32,
}

/// Whether two rectangles overlap (touching edges count).
pub open spec fn rects_intersect(a: Rect, b: Rect) -> bool {
    a.x1 <= b.x2 && a.x2 >= b.x1 && a.y1 <= b.y2 && a.y2 >= b.y1
}

/// The centre of a rectangle, rounded as integer division rounds.
pub open spec fn rect_center(r: Rect) -> Point {
    Point {
        x: div_toward_zero(r.x1 + r.x2, 2) as i32,
        y: div_toward_zero(r.y1 + r.y2, 2) as i32,
    }
}

impl Rect {
    /// The rectangle with corner `(x, y)`, `w` wide and `h` high.
    pub fn with_size(x: i32, y: i32, w: i32, h: i32) -> (r: Rect)
        requires
            i32::MIN <= x + w <= i32::MAX,
            i32::MIN <= y + h <= i32::MAX,
        ensures
            r == (Rect { x1: x, y1: y, x2: (x + w) as i32, y2: (y + h) as i32 }),
    {
        Rect { x1: x, y1: y, x2: x + w, y2: y + h }
    }

    /// Whether this rectangle overlaps `other`.
    pub fn intersect(&self, other: &Rect) -> (b: bool)
        ensures
            b == rects_intersect(*self, *other),
    {
        self.x1 <= other.x2 && self.x2 >= other.x1 && self.y1 <= other.y2 && self.y2 >= other.y1
    }

    /// The centre of this rectangle.
    pub fn center(&self) -> (p: Point)
        requires
            i32::MIN <= self.x1 + self.x2 <= i32::MAX,
            i32::MIN <= self.y1 + self.y2 <= i32::MAX,
        ensures
            p == rect_center(*self),
    {
        Point::new((self.x1 + self.x2) / 2, (self.y1 + self.y2) / 2)
    }
}

/// One map of the world.
#[derive(Clone, Debug)]
pub struct GameMap {
    pub tiles: Vec<Tile>,
    pub height: i32,
    pub width: i32,
    pub revealed_tiles: Vec<bool>,
    pub rooms: Vec<Rect>,
    pub blocked_tiles: Vec<bool>,
    pub world_pos: WorldPosition,
}

/// The maps of the world generated so far.
#[derive(Clone, Debug)]
pub struct WorldMap {
    pub maps: Vec<GameMap>,
}

impl GameMap {
    /// A map is well formed when each of its tile vectors holds one entry per
    /// tile and its extent lies within `MAP_WIDTH` by `MAP_HEIGHT`.
    pub open spec fn wf(&self) -> bool {
        &&& self.tiles.len() == MAP_TILES
        &&& self.revealed_tiles.len() == MAP_TILES
        &&& self.blocked_tiles.len() == MAP_TILES
        &&& 1 <= self.width <= MAP_WIDTH
        &&& 1 <= self.height <= MAP_HEIGHT
    }

    /// Whether the map is well formed (see `wf`).
    pub fn is_well_formed(&self) -> (b: bool)
        ensures
            b == self.wf(),
    {
        self.tiles.len() == MAP_TILES && self.revealed_tiles.len() == MAP_TILES
            && self.blocked_tiles.len() == MAP_TILES && 1 <= self.width && self.width <= MAP_WIDTH
            && 1 <= self.height && self.height <= MAP_HEIGHT
    }
}


/// How wall tiles are drawn.
pub open spec fn wall_render() -> Renderable {
    Renderable { glyph: '#', fg: Color::Gray, bg: Color::Black }
}

/// How floor tiles are drawn.
pub open spec fn floor_render() -> Renderable {
    Renderable { glyph: '.', fg: Color::DarkGray, bg: Color::Black }
}

/// How the trees that cellular generation scatters are drawn.
pub open spec fn tree_render() -> Renderable {
    Renderable { glyph: '\u{2663}', fg: Color::DarkGreen, bg: Color::Black }
}

/// How floor dug out of rock by the drunkard's walk is drawn.
pub open spec fn dug_render() -> Renderable {
    Renderable { glyph: '.', fg: Color::Gray, bg: Color::Black }
}

/// The tile of kind `kind`, drawn as `render`, at the place of index `idx`.
pub open spec fn tile_at(idx: int, kind: TileType, render: Renderable) -> Tile {
    Tile { tile: kind, render, location: location_of(idx) }
}

fn wall_renderable() -> (r: Renderable)
    ensures
        r == wall_render(),
{
    Renderable { glyph: '#', fg: Color::Gray, bg: Color::Black }
}

fn floor_renderable() -> (r: Renderable)
    ensures
        r == floor_render(),
{
    Renderable { glyph: '.', fg: Color::DarkGray, bg: Color::Black }
}

fn tree_renderable() -> (r: Renderable)
    ensures
        r == tree_render(),
{
    Renderable { glyph: '\u{2663}', fg: Color::DarkGreen, bg: Color::Black }
}

/// Two maps agree on everything but their tiles.
pub open spec fn same_but_tiles(a: GameMap, b: GameMap) -> bool {
    &&& a.height == b.height
    &&& a.width == b.width
    &&& a.revealed_tiles@ == b.revealed_tiles@
    &&& a.rooms@ == b.rooms@
    &&& a.blocked_tiles@ == b.blocked_tiles@
    &&& a.world_pos == b.world_pos
}

/// Two maps agree on everything but which tiles are blocked.
pub open spec fn same_but_blocked(a: GameMap, b: GameMap) -> bool {
    &&& a.height == b.height
    &&& a.width == b.width
    &&& a.revealed_tiles@ == b.revealed_tiles@
    &&& a.rooms@ == b.rooms@
    &&& a.tiles@ == b.tiles@
    &&& a.world_pos == b.world_pos
}

/// Two maps agree on everything but which tiles are revealed.
pub open spec fn same_but_revealed(a: GameMap, b: GameMap) -> bool {
    &&& a.height == b.height
    &&& a.width == b.width
    &&& a.tiles@ == b.tiles@
    &&& a.rooms@ == b.rooms@
    &&& a.blocked_tiles@ == b.blocked_tiles@
    &&& a.world_pos == b.world_pos
}

/// A map of `width` by `height` whose every tile is of kind `kind`, drawn as
/// `render`, with nothing revealed and every tile blocked or none.
fn blank_map(kind: TileType, render: Renderable, width: i32, height: i32, blocked: bool) -> (map: GameMap)
    requires
        1 <= width <= MAP_WIDTH,
        1 <= height <= MAP_HEIGHT,
    ensures
        map.wf(),
        map.width == width,
        map.height == height,
        map.rooms@.len() == 0,
        map.world_pos == (WorldPosition { x: 0, y: 0, z: 0 }),
        forall|i: int| 0 <= i < MAP_TILES ==> #[trigger] map.tiles@[i] == tile_at(i, kind, render),
        forall|i: int| 0 <= i < MAP_TILES ==> !#[trigger] map.revealed_tiles@[i],
        forall|i: int| 0 <= i < MAP_TILES ==> #[trigger] map.blocked_tiles@[i] == blocked,
{
    let mut tiles: Vec<Tile> = Vec::new();
    let mut revealed_tiles: Vec<bool> = Vec::new();
    let mut blocked_tiles: Vec<bool> = Vec::new();
    let mut i: usize = 0;
    while i < MAP_TILES
        invariant
            i <= MAP_TILES,
            tiles.len() == i,
            revealed_tiles.len() == i,
            blocked_tiles.len() == i,
            forall|k: int| 0 <= k < i ==> #[trigger] tiles@[k] == tile_at(k, kind, render),
            forall|k: int| 0 <= k < i ==> !#[trigger] revealed_tiles@[k],
            forall|k: int| 0 <= k < i ==> #[trigger] blocked_tiles@[k] == blocked,
        decreases MAP_TILES - i,
    {
        let (x, y) = idx_xy(i);
        tiles.push(Tile { tile: kind, render, location: Position { x, y } });
        revealed_tiles.push(false);
        blocked_tiles.push(blocked);
        i += 1;
    }
    GameMap {
        rooms: Vec::new(),
        blocked_tiles,
        tiles,
        height,
        width,
        revealed_tiles,
        world_pos: WorldPosition { x: 0, y: 0, z: 0 },
    }
}

impl GameMap {
    /// Marks as blocked exactly the wall tiles.
    pub fn populate_blocked_tiles(&mut self)
        requires
            old(self).blocked_tiles.len() >= old(self).tiles.len(),
        ensures
            same_but_blocked(*final(self), *old(self)),
            final(self).blocked_tiles.len() == old(self).blocked_tiles.len(),
            forall|i: int|
                0 <= i < old(self).tiles.len() ==> #[trigger] final(self).blocked_tiles@[i] == (
                old(self).tiles@[i].tile == TileType::Wall),
            forall|i: int|
                old(self).tiles.len() <= i < old(self).blocked_tiles.len()
                    ==> #[trigger] final(self).blocked_tiles@[i] == old(self).blocked_tiles@[i],
    {
        let mut i: usize = 0;
        while i < self.tiles.len()
            invariant
                i <= self.tiles.len(),
                same_but_blocked(*self, *old(self)),
                self.blocked_tiles.len() == old(self).blocked_tiles.len(),
                self.blocked_tiles.len() >= self.tiles.len(),
                forall|k: int|
                    0 <= k < i ==> #[trigger] self.blocked_tiles@[k] == (self.tiles@[k].tile
                        == TileType::Wall),
                forall|k: int|
                    i <= k < self.blocked_tiles.len() ==> #[trigger] self.blocked_tiles@[k]
                        == old(self).blocked_tiles@[k],
            decreases self.tiles.len() - i,
        {
            let is_wall = self.tiles[i].tile == TileType::Wall;
            self.blocked_tiles[i] = is_wall;
            i += 1;
        }
    }

    /// Whether the tile at `idx` blocks sight: it is a wall.
    pub fn is_opaque(&self, idx: usize) -> (b: bool)
        requires
            idx < self.tiles.len(),
        ensures
            b == (self.tiles@[idx as int].tile == TileType::Wall),
    {
        self.tiles[idx].tile == TileType::Wall
    }

    /// The map's extent, as a point `(width, height)`.
    pub fn dimensions(&self) -> (p: Point)
        ensures
            p == (Point { x: self.width, y: self.height }),
    {
        Point::new(self.width, self.height)
    }

    /// Whether a path may step onto `(x, y)`: inside the map's border and not blocked.
    pub open spec fn exit_valid(&self, x: int, y: int) -> bool {
        &&& 1 <= x <= self.width - 1
        &&& 1 <= y <= self.height - 1
        &&& !self.blocked_tiles@[tile_index(x, y)]
    }

    /// Whether a path may step onto `(x, y)`.
    pub fn is_exit_valid(&self, x: i32, y: i32) -> (b: bool)
        requires
            self.wf(),
        ensures
            b == self.exit_valid(x as int, y as int),
    {
        if x < 1 || x > self.width - 1 || y < 1 || y > self.height - 1 {
            return false;
        }
        proof {
            lemma_index_join(x as int, y as int);
        }
        let idx = xy_idx(x, y);
        !self.blocked_tiles[idx]
    }

    /// The exits of the tile at `idx`, in the order up, right, down, left,
    /// where its column and row are taken with the map's own width.
    pub open spec fn exits(&self, idx: int) -> Seq<usize> {
        let x = idx % (self.width as int);
        let y = idx / (self.width as int);
        let s0 = Seq::<usize>::empty();
        let s1 = if self.exit_valid(x, y + 1) { s0.push(tile_index(x, y + 1) as usize) } else { s0 };
        let s2 = if self.exit_valid(x + 1, y) { s1.push(tile_index(x + 1, y) as usize) } else { s1 };
        let s3 = if self.exit_valid(x, y - 1) { s2.push(tile_index(x, y - 1) as usize) } else { s2 };
        if self.exit_valid(x - 1, y) { s3.push(tile_index(x - 1, y) as usize) } else { s3 }
    }

    /// The neighbouring tiles a path may move to from the tile at `idx`.
    pub fn get_available_exits(&self, idx: usize) -> (exits: Vec<usize>)
        requires
            self.wf(),
            idx <= i32::MAX,
            (idx as int) / (self.width as int) < i32::MAX,
        ensures
            exits@ == self.exits(idx as int),
    {
        let mut exits: Vec<usize> = Vec::new();
        let x = idx as i32 % self.width;
        let y = idx as i32 / self.width;
        proof {
            vstd::arithmetic::div_mod::lemma_fundamental_div_mod(idx as int, self.width as int);
            assert(0 <= y <= idx) by (nonlinear_arith)
                requires
                    y == idx as int / self.width as int,
                    self.width >= 1,
                    idx >= 0,
            ;
        }
        if self.is_exit_valid(x, y + 1) {
            proof {
                lemma_index_join(x as int, y + 1);
            }
            exits.push(xy_idx(x, y + 1));
        }
        if self.is_exit_valid(x + 1, y) {
            proof {
                lemma_index_join(x + 1, y as int);
            }
            exits.push(xy_idx(x + 1, y));
        }
        if self.is_exit_valid(x, y - 1) {
            proof {
                lemma_index_join(x as int, y - 1);
            }
            exits.push(xy_idx(x, y - 1));
        }
        if self.is_exit_valid(x - 1, y) {
            proof {
                lemma_index_join(x - 1, y as int);
            }
            exits.push(xy_idx(x - 1, y));
        }
        exits
    }
}


/// After `populate_blocked_tiles`, a path may step onto an inner tile of a
/// well-formed map exactly when that tile is not a wall.
pub proof fn law_exits_follow_walls(before: GameMap, after: GameMap, x: int, y: int)
    requires
        before.wf(),
        same_but_blocked(after, before),
        after.blocked_tiles.len() == before.blocked_tiles.len(),
        forall|i: int|
            0 <= i < before.tiles.len() ==> #[trigger] after.blocked_tiles@[i] == (
            before.tiles@[i].tile == TileType::Wall),
        1 <= x <= before.width - 1,
        1 <= y <= before.height - 1,
    ensures
        after.exit_valid(x, y) == (before.tiles@[tile_index(x, y)].tile != TileType::Wall),
{
    lemma_index_join(x, y);
}

/// Whether a room's interior covers `(x, y)`: the corner `(x1, y1)` is its
/// outer wall, the interior runs to `(x2, y2)` inclusive.
pub open spec fn room_covers(room: Rect, x: int, y: int) -> bool {
    room.x1 < x <= room.x2 && room.y1 < y <= room.y2
}

/// A room whose interior, if any, lies on the map.
pub open spec fn room_on_map(room: Rect) -> bool {
    (room.x1 < room.x2 && room.y1 < room.y2) ==> (room.x1 >= -1 && room.y1 >= -1
        && room.x2 < MAP_WIDTH && room.y2 < MAP_HEIGHT)
}

/// Carves the interior of `room` out of the map as floor.
pub fn apply_room_to_map(room: &Rect, map: &mut GameMap)
    requires
        old(map).tiles.len() == MAP_TILES,
        room_on_map(*room),
    ensures
        same_but_tiles(*final(map), *old(map)),
        final(map).tiles.len() == MAP_TILES,
        forall|i: int|
            0 <= i < MAP_TILES ==> #[trigger] final(map).tiles@[i] == if room_covers(
                *room,
                index_x(i),
                index_y(i),
            ) {
                tile_at(i, TileType::Floor, floor_render())
            } else {
                old(map).tiles@[i]
            },
{
    if room.x1 >= room.x2 || room.y1 >= room.y2 {
        assert forall|i: int| 0 <= i < MAP_TILES implies !room_covers(*room, index_x(i), index_y(i)) by {}
        return;
    }
    let mut y = room.y1 + 1;
    while y <= room.y2
        invariant
            room.x1 < room.x2,
            room.y1 < room.y2,
            room_on_map(*room),
            room.y1 < y <= room.y2 + 1,
            same_but_tiles(*map, *old(map)),
            map.tiles.len() == MAP_TILES,
            forall|i: int|
                0 <= i < MAP_TILES ==> #[trigger] map.tiles@[i] == if room_covers(
                    *room,
                    index_x(i),
                    index_y(i),
                ) && index_y(i) < y {
                    tile_at(i, TileType::Floor, floor_render())
                } else {
                    old(map).tiles@[i]
                },
        decreases room.y2 + 1 - y,
    {
        let mut x = room.x1 + 1;
        while x <= room.x2
            invariant
                room.x1 < room.x2,
                room.y1 < room.y2,
                room_on_map(*room),
                room.y1 < y <= room.y2,
                room.x1 < x <= room.x2 + 1,
                same_but_tiles(*map, *old(map)),
                map.tiles.len() == MAP_TILES,
                forall|i: int|
                    0 <= i < MAP_TILES ==> #[trigger] map.tiles@[i] == if room_covers(
                        *room,
                        index_x(i),
                        index_y(i),
                    ) && (index_y(i) < y || (index_y(i) == y && index_x(i) < x)) {
                        tile_at(i, TileType::Floor, floor_render())
                    } else {
                        old(map).tiles@[i]
                    },
            decreases room.x2 + 1 - x,
        {
            proof {
                lemma_index_join(x as int, y as int);
            }
            let idx = xy_idx(x, y);
            map.tiles[idx] = Tile {
                tile: TileType::Floor,
                render: floor_renderable(),
                location: Position { x, y },
            };
            proof {
                assert forall|i: int| 0 <= i < MAP_TILES && i != idx implies (index_x(i) != x
                    || index_y(i) != y) by {
                    lemma_index_split(i);
                }
            }
            x += 1;
        }
        y += 1;
    }
}

/// Whether a horizontal tunnel along row `y` between columns `lo` and `hi`
/// writes the tile at index `i` (the tile at index 0 is never written).
pub open spec fn horizontal_covers(lo: int, hi: int, y: int, i: int) -> bool {
    0 < i < MAP_TILES && tile_index(lo, y) <= i <= tile_index(hi, y)
}

/// Whether a vertical tunnel along column `x` between rows `lo` and `hi`
/// writes the tile at index `i` (the tile at index 0 is never written).
pub open spec fn vertical_covers(lo: int, hi: int, x: int, i: int) -> bool {
    &&& 0 < i < MAP_TILES
    &&& i >= x
    &&& (i - x) % (MAP_WIDTH as int) == 0
    &&& lo <= (i - x) / (MAP_WIDTH as int) <= hi
}

/// The smaller of two integers.
pub open spec fn min_i(a: int, b: int) -> int {
    if a <= b { a } else { b }
}

/// The larger of two integers.
pub open spec fn max_i(a: int, b: int) -> int {
    if a >= b { a } else { b }
}

/// Digs a floor tunnel along row `y` from column `x1` to column `x2`, both
/// included, writing only the tiles whose index lies in `1..MAP_TILES`.
pub fn apply_horizontal_tunnel(map: &mut GameMap, x1: i32, x2: i32, y: i32)
    requires
        old(map).tiles.len() == MAP_TILES,
        0 <= x1,
        0 <= x2,
        0 <= y,
        tile_index(max_i(x1 as int, x2 as int), y as int) <= usize::MAX,
    ensures
        same_but_tiles(*final(map), *old(map)),
        final(map).tiles.len() == MAP_TILES,
        forall|i: int|
            0 <= i < MAP_TILES ==> #[trigger] final(map).tiles@[i] == if horizontal_covers(
                min_i(x1 as int, x2 as int),
                max_i(x1 as int, x2 as int),
                y as int,
                i,
            ) {
                Tile {
                    tile: TileType::Floor,
                    render: floor_render(),
                    location: Position { x: (i - y * MAP_WIDTH) as i32, y },
                }
            } else {
                old(map).tiles@[i]
            },
{
    let lo = if x1 <= x2 { x1 } else { x2 };
    let hi = if x1 >= x2 { x1 } else { x2 };
    let mut cx: i64 = lo as i64;
    while cx <= hi as i64
        invariant
            lo <= cx <= hi + 1,
            lo == min_i(x1 as int, x2 as int),
            hi == max_i(x1 as int, x2 as int),
            0 <= lo,
            0 <= y,
            tile_index(hi as int, y as int) <= usize::MAX,
            same_but_tiles(*map, *old(map)),
            map.tiles.len() == MAP_TILES,
            forall|i: int|
                0 <= i < MAP_TILES ==> #[trigger] map.tiles@[i] == if horizontal_covers(
                    lo as int,
                    cx - 1,
                    y as int,
                    i,
                ) {
                    Tile {
                        tile: TileType::Floor,
                        render: floor_render(),
                        location: Position { x: (i - y * MAP_WIDTH) as i32, y },
                    }
                } else {
                    old(map).tiles@[i]
                },
        decreases hi + 1 - cx,
    {
        let x = cx as i32;
        let idx = xy_idx(x, y);
        if idx > 0 && idx < MAP_TILES {
            map.tiles[idx] = Tile {
                tile: TileType::Floor,
                render: floor_renderable(),
                location: Position { x, y },
            };
        }
        cx += 1;
    }
}

/// Digs a floor tunnel along column `x` from row `y1` to row `y2`, both
/// included, writing only the tiles whose index lies in `1..MAP_TILES`.
pub fn apply_vertical_tunnel(map: &mut GameMap, y1: i32, y2: i32, x: i32)
    requires
        old(map).tiles.len() == MAP_TILES,
        0 <= y1,
        0 <= y2,
        0 <= x,
        tile_index(x as int, max_i(y1 as int, y2 as int)) <= usize::MAX,
    ensures
        same_but_tiles(*final(map), *old(map)),
        final(map).tiles.len() == MAP_TILES,
        forall|i: int|
            0 <= i < MAP_TILES ==> #[trigger] final(map).tiles@[i] == if vertical_covers(
                min_i(y1 as int, y2 as int),
                max_i(y1 as int, y2 as int),
                x as int,
                i,
            ) {
                Tile {
                    tile: TileType::Floor,
                    render: floor_render(),
                    location: Position { x, y: ((i - x) / (MAP_WIDTH as int)) as i32 },
                }
            } else {
                old(map).tiles@[i]
            },
{
    let lo = if y1 <= y2 { y1 } else { y2 };
    let hi = if y1 >= y2 { y1 } else { y2 };
    let mut cy: i64 = lo as i64;
    while cy <= hi as i64
        invariant
            lo <= cy <= hi + 1,
            lo == min_i(y1 as int, y2 as int),
            hi == max_i(y1 as int, y2 as int),
            0 <= lo,
            0 <= x,
            tile_index(x as int, hi as int) <= usize::MAX,
            same_but_tiles(*map, *old(map)),
            map.tiles.len() == MAP_TILES,
            forall|i: int|
                0 <= i < MAP_TILES ==> #[trigger] map.tiles@[i] == if vertical_covers(
                    lo as int,
                    cy - 1,
                    x as int,
                    i,
                ) {
                    Tile {
                        tile: TileType::Floor,
                        render: floor_render(),
                        location: Position { x, y: ((i - x) / (MAP_WIDTH as int)) as i32 },
                    }
                } else {
                    old(map).tiles@[i]
                },
        decreases hi + 1 - cy,
    {
        let y = cy as i32;
        let idx = xy_idx(x, y);
        proof {
            vstd::arithmetic::div_mod::lemma_fundamental_div_mod_converse(
                idx - x,
                MAP_WIDTH as int,
                y as int,
                0,
            );
            assert forall|i: int| 0 <= i < MAP_TILES && i != idx implies vertical_covers(
                lo as int,
                y as int,
                x as int,
                i,
            ) == vertical_covers(lo as int, y - 1, x as int, i) by {
                if i >= x && (i - x) % (MAP_WIDTH as int) == 0 {
                    vstd::arithmetic::div_mod::lemma_fundamental_div_mod(i - x, MAP_WIDTH as int);
                }
            }
        }
        if idx > 0 && idx < MAP_TILES {
            map.tiles[idx] = Tile {
                tile: TileType::Floor,
                render: floor_renderable(),
                location: Position { x, y },
            };
        }
        cy += 1;
    }
}


/// Whether `map` lies at world column `x` and world row `y`.
pub open spec fn map_lies_at(map: GameMap, x: i32, y: i32) -> bool {
    map.world_pos.x == x && map.world_pos.y == y
}

/// Whether `k` is the first of `maps` that lies at `(x, y)`.
pub open spec fn first_map_at(maps: Seq<GameMap>, k: int, x: i32, y: i32) -> bool {
    &&& 0 <= k < maps.len()
    &&& map_lies_at(maps[k], x, y)
    &&& forall|j: int| 0 <= j < k ==> !map_lies_at(#[trigger] maps[j], x, y)
}

impl WorldMap {
    /// The position in `maps` of the first map at world column `x` and row `y`.
    pub fn find_map(&self, x: i32, y: i32) -> (found: Option<usize>)
        ensures
            match found {
                Some(k) => first_map_at(self.maps@, k as int, x, y),
                None => forall|j: int|
                    0 <= j < self.maps.len() ==> !map_lies_at(#[trigger] self.maps@[j], x, y),
            },
    {
        let mut k: usize = 0;
        while k < self.maps.len()
            invariant
                k <= self.maps.len(),
                forall|j: int| 0 <= j < k ==> !map_lies_at(#[trigger] self.maps@[j], x, y),
            decreases self.maps.len() - k,
        {
            if self.maps[k].world_pos.x == x && self.maps[k].world_pos.y == y {
                return Some(k);
            }
            k += 1;
        }
        None
    }
}

/// Whether a blocking entity stands on the tile at index `i`.
pub open spec fn blocker_on(blockers: Seq<Position>, i: int) -> bool {
    exists|k: int| 0 <= k < blockers.len() && tile_index(blockers[k].x as int, blockers[k].y as int) == i
}

/// Every blocking entity stands on the map.
pub open spec fn blockers_on_map(blockers: Seq<Position>) -> bool {
    forall|k: int| 0 <= k < blockers.len() ==> on_map(#[trigger] blockers[k].x as int, blockers[k].y as int)
}

/// Marks which tiles are blocked, by walls or by entities.
pub struct MapIndexingSystem {}

impl MapIndexingSystem {
    /// On the first map where the player is, marks as blocked exactly the
    /// walls and the tiles that blocking entities stand on.
    pub fn run(world_map: &mut WorldMap, player_world_pos: &WorldPosition, blocked_positions: &Vec<Position>)
        requires
            exists|k: int| first_map_at(old(world_map).maps@, k, player_world_pos.x, player_world_pos.y),
            forall|k: int|
                first_map_at(old(world_map).maps@, k, player_world_pos.x, player_world_pos.y)
                    ==> (#[trigger] old(world_map).maps@[k]).wf(),
            blockers_on_map(blocked_positions@),
        ensures
            final(world_map).maps.len() == old(world_map).maps.len(),
            forall|k: int|
                0 <= k < old(world_map).maps.len() && !first_map_at(
                    old(world_map).maps@,
                    k,
                    player_world_pos.x,
                    player_world_pos.y,
                ) ==> #[trigger] final(world_map).maps@[k] == old(world_map).maps@[k],
            forall|k: int|
                first_map_at(old(world_map).maps@, k, player_world_pos.x, player_world_pos.y) ==> {
                    let before = #[trigger] old(world_map).maps@[k];
                    let after = final(world_map).maps@[k];
                    &&& same_but_blocked(after, before)
                    &&& after.wf()
                    &&& forall|i: int|
                        0 <= i < MAP_TILES ==> #[trigger] after.blocked_tiles@[i] == (
                        before.tiles@[i].tile == TileType::Wall || blocker_on(blocked_positions@, i))
                },
    {
        let found = world_map.find_map(player_world_pos.x, player_world_pos.y);
        let k = match found {
            Some(k) => k,
            None => {
                proof {
                    let w = choose|w: int|
                        first_map_at(old(world_map).maps@, w, player_world_pos.x, player_world_pos.y);
                    assert(map_lies_at(world_map.maps@[w], player_world_pos.x, player_world_pos.y));
                }
                return ;
            },
        };
        world_map.maps[k].populate_blocked_tiles();
        let mut b: usize = 0;
        while b < blocked_positions.len()
            invariant
                b <= blocked_positions.len(),
                blockers_on_map(blocked_positions@),
                k < world_map.maps.len(),
                world_map.maps.len() == old(world_map).maps.len(),
                forall|j: int| 0 <= j < world_map.maps.len() && j != k ==> #[trigger] world_map.maps@[j] == old(world_map).maps@[j],
                world_map.maps@[k as int].wf(),
                same_but_blocked(world_map.maps@[k as int], old(world_map).maps@[k as int]),
                forall|i: int|
                    0 <= i < MAP_TILES ==> #[trigger] world_map.maps@[k as int].blocked_tiles@[i] == (
                    world_map.maps@[k as int].tiles@[i].tile == TileType::Wall || blocker_on(
                        blocked_positions@.subrange(0, b as int),
                        i,
                    )),
            decreases blocked_positions.len() - b,
        {
            let pos = blocked_positions[b];
            assert(on_map(blocked_positions@[b as int].x as int, blocked_positions@[b as int].y as int));
            proof {
                lemma_index_join(pos.x as int, pos.y as int);
            }
            let idx = xy_idx(pos.x, pos.y);
            world_map.maps[k].blocked_tiles[idx] = true;
            proof {
                let prev = blocked_positions@.subrange(0, b as int);
                let next = blocked_positions@.subrange(0, b + 1);
                assert forall|i: int| blocker_on(next, i) <==> (blocker_on(prev, i) || i == idx) by {
                    if blocker_on(next, i) {
                        let w = choose|w: int| 0 <= w < next.len() && tile_index(next[w].x as int, next[w].y as int) == i;
                        if w < b {
                            assert(prev[w] == next[w]);
                        }
                    }
                    if blocker_on(prev, i) {
                        let w = choose|w: int| 0 <= w < prev.len() && tile_index(prev[w].x as int, prev[w].y as int) == i;
                        assert(prev[w] == next[w]);
                    }
                    if i == idx {
                        assert(next[b as int] == pos);
                    }
                }
            }
            b += 1;
        }
        assert(blocked_positions@.subrange(0, blocked_positions.len() as int) == blocked_positions@);
    }
}

/// The generation algorithms a map generator can be asked for.
#[derive(Clone, Copy, Debug, PartialEq, Eq, Structural)]
pub enum MapGenerationAlgo {
    RoomsAndCorridors,
    DrunkardsWalk,
}

/// The parameters of map generation and the generator's own randomness.
pub struct MapGenerator {
    pub rng: RNG,
    pub map_generator_algo: MapGenerationAlgo,
    pub rooms_range: Option<(usize, usize)>,
    pub room_size_range: Option<(usize, usize)>,
    pub cell_density: Option<usize>,
    pub mobs_range: (usize, usize),
    pub items_range: (usize, usize),
}

/// The parameters that `MapGenerator::default` chooses.
pub open spec fn default_generator_parameters(g: MapGenerator) -> bool {
    &&& g.rng.0 == seeded_generator(RNG_SEED)
    &&& g.map_generator_algo == MapGenerationAlgo::RoomsAndCorridors
    &&& g.room_size_range == Some((2usize, 10usize))
    &&& g.rooms_range == Some((4usize, 10usize))
    &&& g.mobs_range == (1usize, 20usize)
    &&& g.items_range == (0usize, 13usize)
    &&& g.cell_density == Some(10usize)
}

impl Default for MapGenerator {
    /// Rooms of 4 to 9 tiles a side, up to 10 room attempts, 1 to 20
    /// monsters, 0 to 13 items and one tree per 10 tiles, drawn from a
    /// generator seeded with `RNG_SEED`.
    fn default() -> (g: MapGenerator)
        ensures
            default_generator_parameters(g),
    {
        let area: i32 = MAP_HEIGHT * MAP_WIDTH;
        MapGenerator {
            rng: RNG(rng_seeded(RNG_SEED)),
            map_generator_algo: MapGenerationAlgo::RoomsAndCorridors,
            room_size_range: Some((2, 10)),
            rooms_range: Some((4, (area / 400) as usize)),
            mobs_range: (1, (area / 200) as usize),
            items_range: (0, (area / 300) as usize),
            cell_density: Some((area / 400) as usize),
        }
    }
}

/// The locations of the tiles that are not walls, in the order of the tiles.
pub open spec fn open_locations(s: Seq<Tile>) -> Seq<Position>
    decreases s.len(),
{
    if s.len() == 0 {
        Seq::empty()
    } else {
        let rest = open_locations(s.drop_last());
        if s.last().tile != TileType::Wall {
            rest.push(s.last().location)
        } else {
            rest
        }
    }
}

/// Whether `p` is the location of a tile that is not a wall.
pub open spec fn on_open_tile(tiles: Seq<Tile>, p: Position) -> bool {
    exists|i: int| 0 <= i < tiles.len() && #[trigger] tiles[i].tile != TileType::Wall && tiles[i].location == p
}

proof fn lemma_open_locations_sound(s: Seq<Tile>, p: Position)
    requires
        open_locations(s).contains(p),
    ensures
        on_open_tile(s, p),
    decreases s.len(),
{
    if s.len() > 0 {
        let rest = open_locations(s.drop_last());
        if rest.contains(p) {
            lemma_open_locations_sound(s.drop_last(), p);
            let i = choose|i: int| 0 <= i < s.drop_last().len() && #[trigger] s.drop_last()[i].tile != TileType::Wall && s.drop_last()[i].location == p;
            assert(s[i] == s.drop_last()[i]);
        } else {
            assert(s[s.len() - 1].tile != TileType::Wall);
        }
    }
}

proof fn lemma_open_locations_complete(s: Seq<Tile>, i: int)
    requires
        0 <= i < s.len(),
        s[i].tile != TileType::Wall,
    ensures
        open_locations(s).contains(s[i].location),
    decreases s.len(),
{
    if i < s.len() - 1 {
        assert(s.drop_last()[i] == s[i]);
        lemma_open_locations_complete(s.drop_last(), i);
        let rest = open_locations(s.drop_last());
        let w = choose|w: int| 0 <= w < rest.len() && rest[w] == s[i].location;
        if s.last().tile != TileType::Wall {
            assert(open_locations(s)[w] == s[i].location);
        }
    } else {
        let rest = open_locations(s.drop_last());
        assert(open_locations(s)[rest.len() as int] == s[i].location);
    }
}

/// The locations of the tiles that are not walls, in the order of the tiles.
pub fn available_tiles(tiles: &Vec<Tile>) -> (open: Vec<Position>)
    ensures
        open@ == open_locations(tiles@),
{
    let mut open: Vec<Position> = Vec::new();
    let mut i: usize = 0;
    while i < tiles.len()
        invariant
            i <= tiles.len(),
            open@ == open_locations(tiles@.subrange(0, i as int)),
        decreases tiles.len() - i,
    {
        assert(tiles@.subrange(0, i + 1).drop_last() == tiles@.subrange(0, i as int));
        if tiles[i].tile != TileType::Wall {
            open.push(tiles[i].location);
        }
        i += 1;
    }
    assert(tiles@.subrange(0, tiles.len() as int) == tiles@);
    open
}

/// Whether `v` holds `p`.
pub fn contains_position(v: &Vec<Position>, p: Position) -> (found: bool)
    ensures
        found == v@.contains(p),
{
    let mut i: usize = 0;
    while i < v.len()
        invariant
            i <= v.len(),
            forall|k: int| 0 <= k < i ==> v@[k] != p,
        decreases v.len() - i,
    {
        if v[i] == p {
            return true;
        }
        i += 1;
    }
    false
}

/// How many random draws the placement of entities may take before it gives
/// up; no run of the game comes near it.
pub const MAX_PLACEMENT_DRAWS: u64 = 0xffff_ffff_ffff_ffff;

/// Whether a placed entity may stand at `p`: on one of the `available`
/// positions, away from the player's start and from every `occupied` position.
pub open spec fn placement_allowed(
    p: Position,
    available: Seq<Position>,
    start: Position,
    occupied: Seq<Position>,
) -> bool {
    available.contains(p) && p != start && !occupied.contains(p)
}

/// Whether some position of `available` is allowed (see `placement_allowed`).
pub open spec fn some_placement_allowed(available: Seq<Position>, start: Position, occupied: Seq<Position>) -> bool {
    exists|j: int| 0 <= j < available.len() && placement_allowed(#[trigger] available[j], available, start, occupied)
}

/// The first allowed position of `available`, if any.
fn first_allowed(available: &Vec<Position>, start: Position, occupied: &Vec<Position>) -> (found: Option<usize>)
    ensures
        match found {
            Some(j) => j < available.len() && placement_allowed(available@[j as int], available@, start, occupied@),
            None => !some_placement_allowed(available@, start, occupied@),
        },
{
    let mut j: usize = 0;
    while j < available.len()
        invariant
            j <= available.len(),
            forall|t: int| 0 <= t < j ==> !placement_allowed(#[trigger] available@[t], available@, start, occupied@),
        decreases available.len() - j,
    {
        let p = available[j];
        if p != start && !contains_position(occupied, p) {
            assert(available@.contains(available@[j as int]));
            return Some(j);
        }
        j += 1;
    }
    None
}

/// Draws positions from `available` at random until `count` of them are
/// allowed (see `placement_allowed`), keeping those. When some position is
/// allowed, exactly `count` are placed; when none is, nothing is. Should the
/// random draws ever run out (after `MAX_PLACEMENT_DRAWS` of them), the rest
/// are placed on the first allowed position.
pub fn place_positions(
    rng: &mut rltk::RandomNumberGenerator,
    available: &Vec<Position>,
    count: usize,
    start: Position,
    occupied: &Vec<Position>,
) -> (placed: Vec<Position>)
    requires
        count > 0 ==> available.len() > 0,
    ensures
        placed.len() == if some_placement_allowed(available@, start, occupied@) {
            count
        } else {
            0
        },
        forall|k: int|
            0 <= k < placed.len() ==> placement_allowed(
                #[trigger] placed@[k],
                available@,
                start,
                occupied@,
            ),
{
    let mut placed: Vec<Position> = Vec::new();
    let mut remaining = count;
    let mut draws: u64 = 0;
    while remaining > 0 && draws < MAX_PLACEMENT_DRAWS
        invariant
            count > 0 ==> available.len() > 0,
            placed.len() + remaining == count,
            forall|k: int|
                0 <= k < placed.len() ==> placement_allowed(
                    #[trigger] placed@[k],
                    available@,
                    start,
                    occupied@,
                ),
        decreases MAX_PLACEMENT_DRAWS - draws,
    {
        let pick = range_usize(rng, 0, available.len());
        let position = available[pick];
        if position != start && !contains_position(occupied, position) {
            placed.push(position);
            remaining -= 1;
        }
        draws += 1;
    }
    if remaining > 0 {
        match first_allowed(available, start, occupied) {
            Some(j) => {
                let position = available[j];
                while remaining > 0
                    invariant
                        placed.len() + remaining == count,
                        placement_allowed(position, available@, start, occupied@),
                        forall|k: int|
                            0 <= k < placed.len() ==> placement_allowed(
                                #[trigger] placed@[k],
                                available@,
                                start,
                                occupied@,
                            ),
                    decreases remaining,
                {
                    placed.push(position);
                    remaining -= 1;
                }
            },
            None => {},
        }
    }
    proof {
        if !some_placement_allowed(available@, start, occupied@) && placed.len() > 0 {
            let p = placed@[0];
            assert(placement_allowed(p, available@, start, occupied@));
            let j = choose|j: int| 0 <= j < available.len() && available@[j] == p;
            assert(placement_allowed(available@[j], available@, start, occupied@));
        }
        if some_placement_allowed(available@, start, occupied@) && remaining > 0 {
            let j = choose|j: int| 0 <= j < available.len() && placement_allowed(#[trigger] available@[j], available@, start, occupied@);
        }
    }
    placed
}


/// A room whose walls lie on the map with at least one tile of interior,
/// leaving the map's outermost row and column on the far side untouched.
pub open spec fn room_in_bounds(r: Rect) -> bool {
    &&& 0 <= r.x1 < r.x2 <= MAP_WIDTH - 2
    &&& 0 <= r.y1 < r.y2 <= MAP_HEIGHT - 2
}

/// No two rooms overlap.
pub open spec fn rooms_disjoint(rooms: Seq<Rect>) -> bool {
    forall|i: int, j: int| 0 <= i < j < rooms.len() ==> !rects_intersect(#[trigger] rooms[i], #[trigger] rooms[j])
}

/// Every tile inside a room is floor.
pub open spec fn rooms_carved(tiles: Seq<Tile>, rooms: Seq<Rect>) -> bool {
    forall|r: int, i: int|
        0 <= r < rooms.len() && 0 <= i < MAP_TILES && room_covers(#[trigger] rooms[r], index_x(i), index_y(i))
            ==> (#[trigger] tiles[i]).tile == TileType::Floor
}

/// Every tile is a wall or a floor, drawn as such, at its own place.
pub open spec fn walls_and_floors(tiles: Seq<Tile>) -> bool {
    forall|i: int|
        0 <= i < MAP_TILES ==> #[trigger] tiles[i] == tile_at(i, TileType::Wall, wall_render())
            || tiles[i] == tile_at(i, TileType::Floor, floor_render())
}

/// The position of a point.
pub open spec fn position_of(p: Point) -> Position {
    Position { x: p.x, y: p.y }
}

/// Every tile of row `y` from column `x1` to column `x2`, both included,
/// is floor (the tile at index 0, which tunnels never dig, aside).
pub open spec fn row_open(tiles: Seq<Tile>, y: int, x1: int, x2: int) -> bool {
    forall|x: int|
        min_i(x1, x2) <= x <= max_i(x1, x2) && tile_index(x, y) > 0 ==> (#[trigger] tiles[tile_index(x, y)]).tile
            == TileType::Floor
}

/// Every tile of column `x` from row `y1` to row `y2`, both included, is
/// floor (the tile at index 0, which tunnels never dig, aside).
pub open spec fn column_open(tiles: Seq<Tile>, x: int, y1: int, y2: int) -> bool {
    forall|y: int|
        min_i(y1, y2) <= y <= max_i(y1, y2) && tile_index(x, y) > 0 ==> (#[trigger] tiles[tile_index(x, y)]).tile
            == TileType::Floor
}

/// An L-shaped corridor of floor joins `a` and `b`: along `a`'s row and then
/// `b`'s column, or along `a`'s column and then `b`'s row.
pub open spec fn corridor_between(tiles: Seq<Tile>, a: Point, b: Point) -> bool {
    ||| row_open(tiles, a.y as int, a.x as int, b.x as int) && column_open(tiles, b.x as int, a.y as int, b.y as int)
    ||| column_open(tiles, a.x as int, a.y as int, b.y as int) && row_open(tiles, b.y as int, a.x as int, b.x as int)
}

/// Consecutive rooms are joined by corridors, centre to centre.
pub open spec fn rooms_joined(tiles: Seq<Tile>, rooms: Seq<Rect>) -> bool {
    forall|r: int| 0 <= r < rooms.len() - 1 ==> corridor_between(tiles, rect_center(#[trigger] rooms[r]), rect_center(rooms[r + 1]))
}

/// Floors stay floors from `before` to `after`, so corridors of floor stay.
proof fn lemma_corridors_kept(before: Seq<Tile>, after: Seq<Tile>, rooms: Seq<Rect>)
    requires
        before.len() == MAP_TILES,
        after.len() == MAP_TILES,
        forall|i: int| 0 <= i < MAP_TILES && (#[trigger] before[i]).tile == TileType::Floor ==> after[i].tile == TileType::Floor,
        rooms_joined(before, rooms),
        forall|r: int| 0 <= r < rooms.len() ==> room_in_bounds(#[trigger] rooms[r]),
    ensures
        rooms_joined(after, rooms),
{
    assert forall|r: int| 0 <= r < rooms.len() - 1 implies corridor_between(after, rect_center(#[trigger] rooms[r]), rect_center(rooms[r + 1])) by {
        let a = rect_center(rooms[r]);
        let b = rect_center(rooms[r + 1]);
        lemma_center_in_bounds(rooms[r]);
        lemma_center_in_bounds(rooms[r + 1]);
        lemma_row_kept(before, after, a.y as int, a.x as int, b.x as int);
        lemma_row_kept(before, after, b.y as int, a.x as int, b.x as int);
        lemma_column_kept(before, after, a.x as int, a.y as int, b.y as int);
        lemma_column_kept(before, after, b.x as int, a.y as int, b.y as int);
    }
}

proof fn lemma_row_kept(before: Seq<Tile>, after: Seq<Tile>, y: int, x1: int, x2: int)
    requires
        before.len() == MAP_TILES,
        after.len() == MAP_TILES,
        forall|i: int| 0 <= i < MAP_TILES && (#[trigger] before[i]).tile == TileType::Floor ==> after[i].tile == TileType::Floor,
        0 <= y <= MAP_HEIGHT - 2,
        0 <= x1 <= MAP_WIDTH - 2,
        0 <= x2 <= MAP_WIDTH - 2,
    ensures
        row_open(before, y, x1, x2) ==> row_open(after, y, x1, x2),
{
    if row_open(before, y, x1, x2) {
        assert forall|x: int| min_i(x1, x2) <= x <= max_i(x1, x2) && tile_index(x, y) > 0 implies (#[trigger] after[tile_index(x, y)]).tile
            == TileType::Floor by {
            assert(before[tile_index(x, y)].tile == TileType::Floor);
        }
    }
}

proof fn lemma_column_kept(before: Seq<Tile>, after: Seq<Tile>, x: int, y1: int, y2: int)
    requires
        before.len() == MAP_TILES,
        after.len() == MAP_TILES,
        forall|i: int| 0 <= i < MAP_TILES && (#[trigger] before[i]).tile == TileType::Floor ==> after[i].tile == TileType::Floor,
        0 <= x <= MAP_WIDTH - 2,
        0 <= y1 <= MAP_HEIGHT - 2,
        0 <= y2 <= MAP_HEIGHT - 2,
    ensures
        column_open(before, x, y1, y2) ==> column_open(after, x, y1, y2),
{
    if column_open(before, x, y1, y2) {
        assert forall|y: int| min_i(y1, y2) <= y <= max_i(y1, y2) && tile_index(x, y) > 0 implies (#[trigger] after[tile_index(x, y)]).tile
            == TileType::Floor by {
            assert(before[tile_index(x, y)].tile == TileType::Floor);
        }
    }
}

proof fn lemma_center_in_bounds(r: Rect)
    requires
        room_in_bounds(r),
    ensures
        0 <= rect_center(r).x <= MAP_WIDTH - 2,
        0 <= rect_center(r).y <= MAP_HEIGHT - 2,
{
}

/// Joins two room centres with an L-shaped tunnel, horizontal leg first or
/// vertical leg first.
fn connect_rooms(map: &mut GameMap, prev: Point, new: Point, horizontal_first: bool)
    requires
        old(map).tiles.len() == MAP_TILES,
        0 <= prev.x <= MAP_WIDTH - 2,
        0 <= prev.y <= MAP_HEIGHT - 2,
        0 <= new.x <= MAP_WIDTH - 2,
        0 <= new.y <= MAP_HEIGHT - 2,
        walls_and_floors(old(map).tiles@),
    ensures
        same_but_tiles(*final(map), *old(map)),
        final(map).tiles.len() == MAP_TILES,
        walls_and_floors(final(map).tiles@),
        forall|i: int|
            0 <= i < MAP_TILES && (#[trigger] old(map).tiles@[i]).tile == TileType::Floor
                ==> final(map).tiles@[i].tile == TileType::Floor,
        corridor_between(final(map).tiles@, prev, new),
{
    if horizontal_first {
        dig_horizontal(map, prev.x, new.x, prev.y);
        let ghost middle = map.tiles@;
        dig_vertical(map, prev.y, new.y, new.x);
        proof {
            lemma_row_kept(middle, map.tiles@, prev.y as int, prev.x as int, new.x as int);
        }
    } else {
        dig_vertical(map, prev.y, new.y, prev.x);
        let ghost middle = map.tiles@;
        dig_horizontal(map, prev.x, new.x, new.y);
        proof {
            lemma_column_kept(middle, map.tiles@, prev.x as int, prev.y as int, new.y as int);
        }
    }
}

/// `apply_horizontal_tunnel` on a map of walls and floors, within the map.
fn dig_horizontal(map: &mut GameMap, x1: i32, x2: i32, y: i32)
    requires
        old(map).tiles.len() == MAP_TILES,
        0 <= x1 <= MAP_WIDTH - 2,
        0 <= x2 <= MAP_WIDTH - 2,
        0 <= y <= MAP_HEIGHT - 2,
        walls_and_floors(old(map).tiles@),
    ensures
        same_but_tiles(*final(map), *old(map)),
        final(map).tiles.len() == MAP_TILES,
        walls_and_floors(final(map).tiles@),
        row_open(final(map).tiles@, y as int, x1 as int, x2 as int),
        forall|i: int|
            0 <= i < MAP_TILES && (#[trigger] old(map).tiles@[i]).tile == TileType::Floor
                ==> final(map).tiles@[i].tile == TileType::Floor,
{
    apply_horizontal_tunnel(map, x1, x2, y);
    assert forall|x: int| min_i(x1 as int, x2 as int) <= x <= max_i(x1 as int, x2 as int) && tile_index(x, y as int) > 0
        implies (#[trigger] map.tiles@[tile_index(x, y as int)]).tile == TileType::Floor by {
        assert(horizontal_covers(min_i(x1 as int, x2 as int), max_i(x1 as int, x2 as int), y as int, tile_index(x, y as int)));
    }
    assert forall|i: int| 0 <= i < MAP_TILES implies #[trigger] map.tiles@[i] == tile_at(i, TileType::Wall, wall_render())
        || map.tiles@[i] == tile_at(i, TileType::Floor, floor_render()) by {
        if horizontal_covers(min_i(x1 as int, x2 as int), max_i(x1 as int, x2 as int), y as int, i) {
            lemma_index_join(i - y * MAP_WIDTH, y as int);
        }
    }
}

/// `apply_vertical_tunnel` on a map of walls and floors, within the map.
fn dig_vertical(map: &mut GameMap, y1: i32, y2: i32, x: i32)
    requires
        old(map).tiles.len() == MAP_TILES,
        0 <= y1 <= MAP_HEIGHT - 2,
        0 <= y2 <= MAP_HEIGHT - 2,
        0 <= x <= MAP_WIDTH - 2,
        walls_and_floors(old(map).tiles@),
    ensures
        same_but_tiles(*final(map), *old(map)),
        final(map).tiles.len() == MAP_TILES,
        walls_and_floors(final(map).tiles@),
        column_open(final(map).tiles@, x as int, y1 as int, y2 as int),
        forall|i: int|
            0 <= i < MAP_TILES && (#[trigger] old(map).tiles@[i]).tile == TileType::Floor
                ==> final(map).tiles@[i].tile == TileType::Floor,
{
    apply_vertical_tunnel(map, y1, y2, x);
    assert forall|y: int| min_i(y1 as int, y2 as int) <= y <= max_i(y1 as int, y2 as int) && tile_index(x as int, y) > 0
        implies (#[trigger] map.tiles@[tile_index(x as int, y)]).tile == TileType::Floor by {
        vstd::arithmetic::div_mod::lemma_fundamental_div_mod_converse(tile_index(x as int, y) - x, MAP_WIDTH as int, y, 0);
        assert(vertical_covers(min_i(y1 as int, y2 as int), max_i(y1 as int, y2 as int), x as int, tile_index(x as int, y)));
    }
    assert forall|i: int| 0 <= i < MAP_TILES implies #[trigger] map.tiles@[i] == tile_at(i, TileType::Wall, wall_render())
        || map.tiles@[i] == tile_at(i, TileType::Floor, floor_render()) by {
        if vertical_covers(min_i(y1 as int, y2 as int), max_i(y1 as int, y2 as int), x as int, i) {
            vstd::arithmetic::div_mod::lemma_fundamental_div_mod(i - x, MAP_WIDTH as int);
            lemma_index_join(x as int, (i - x) / (MAP_WIDTH as int));
        }
    }
}


/// The fields of a map that a generator leaves as it started them: nothing
/// revealed, blocking as given, at the origin of the world.
pub open spec fn fresh_map(map: GameMap, width: int, height: int, blocked: bool) -> bool {
    &&& map.wf()
    &&& map.width == width
    &&& map.height == height
    &&& map.world_pos == (WorldPosition { x: 0, y: 0, z: 0 })
    &&& forall|i: int| 0 <= i < MAP_TILES ==> !#[trigger] map.revealed_tiles@[i]
    &&& forall|i: int| 0 <= i < MAP_TILES ==> #[trigger] map.blocked_tiles@[i] == blocked
}

/// Rooms-and-corridors generation can run with these parameters: room sides
/// are drawn from a non-empty range of at least 1 and less than
/// `MAP_HEIGHT - 1`, and the item count from a non-empty range.
pub open spec fn rooms_generator_ok(g: MapGenerator) -> bool {
    &&& g.rooms_range matches Some((a, b)) && 1 <= a < b <= MAP_HEIGHT - 1
    &&& g.items_range.0 <= g.items_range.1 < usize::MAX
}

/// A room whose width and height lie in `sides.0..sides.1`.
pub open spec fn room_sides_within(r: Rect, sides: (usize, usize)) -> bool {
    &&& sides.0 <= r.x2 - r.x1 < sides.1
    &&& sides.0 <= r.y2 - r.y1 < sides.1
}

/// The centre of a room at least two tiles wide and high lies inside it.
proof fn lemma_center_inside(r: Rect)
    requires
        room_in_bounds(r),
        r.x2 - r.x1 >= 2,
        r.y2 - r.y1 >= 2,
    ensures
        room_covers(r, rect_center(r).x as int, rect_center(r).y as int),
{
}

/// What rooms-and-corridors generation returns: a map of walls and floors
/// with at least one and at most `sides.1` rooms (one per attempt at most),
/// which lie on the map, have sides drawn from `sides`, never overlap, are
/// floored and are joined one to the next by corridors; the player starts at
/// the centre of the first room (on its floor when rooms are at least two
/// tiles a side), one monster at the centre of each other room; items, as
/// many as drawn from `items_range` (none when no open tile is left for
/// them, which never happens: the far corner of the first room always stays
/// free), on open tiles away from the player and the monsters.
pub open spec fn rooms_and_corridors_result(
    sides: (usize, usize),
    items_range: (usize, usize),
    map: GameMap,
    start: Position,
    mobs: Seq<Position>,
    items: Seq<Position>,
) -> bool {
    &&& fresh_map(map, MAP_WIDTH - 1, MAP_HEIGHT - 1, false)
    &&& walls_and_floors(map.tiles@)
    &&& 1 <= map.rooms.len() <= sides.1
    &&& forall|r: int| 0 <= r < map.rooms.len() ==> room_in_bounds(#[trigger] map.rooms@[r])
    &&& forall|r: int| 0 <= r < map.rooms.len() ==> room_sides_within(#[trigger] map.rooms@[r], sides)
    &&& rooms_disjoint(map.rooms@)
    &&& rooms_carved(map.tiles@, map.rooms@)
    &&& rooms_joined(map.tiles@, map.rooms@)
    &&& start == position_of(rect_center(map.rooms@[0]))
    &&& sides.0 >= 2 ==> on_open_tile(map.tiles@, start)
    &&& mobs.len() + 1 == map.rooms.len()
    &&& forall|k: int| 0 <= k < mobs.len() ==> #[trigger] mobs[k] == position_of(rect_center(map.rooms@[k + 1]))
    &&& items.len() <= items_range.1
    &&& open_elsewhere(map.tiles@, start, mobs) ==> items_range.0 <= items.len()
    &&& !open_elsewhere(map.tiles@, start, mobs) ==> items.len() == 0
    &&& open_elsewhere(map.tiles@, start, mobs)
    &&& forall|k: int|
        0 <= k < items.len() ==> on_open_tile(map.tiles@, #[trigger] items[k]) && items[k] != start
            && !mobs.contains(items[k])
}

/// The far corner of the first room is floor away from the player's start
/// and from every monster, which stand at the centres of the other rooms.
proof fn lemma_corner_left(tiles: Seq<Tile>, rooms: Seq<Rect>, mobs: Seq<Position>)
    requires
        rooms.len() >= 1,
        tiles.len() == MAP_TILES,
        walls_and_floors(tiles),
        forall|r: int| 0 <= r < rooms.len() ==> room_in_bounds(#[trigger] rooms[r]),
        rooms_disjoint(rooms),
        rooms_carved(tiles, rooms),
        mobs.len() + 1 == rooms.len(),
        forall|k: int| 0 <= k < mobs.len() ==> #[trigger] mobs[k] == position_of(rect_center(rooms[k + 1])),
    ensures
        open_elsewhere(tiles, position_of(rect_center(rooms[0])), mobs),
{
    let r0 = rooms[0];
    assert(room_in_bounds(r0));
    let ix = tile_index(r0.x2 as int, r0.y2 as int);
    lemma_index_join(r0.x2 as int, r0.y2 as int);
    assert(room_covers(rooms[0], index_x(ix), index_y(ix)));
    assert(tiles[ix].tile == TileType::Floor);
    let p = tiles[ix].location;
    assert(p == Position { x: r0.x2, y: r0.y2 });
    assert(on_open_tile(tiles, p));
    assert(!mobs.contains(p)) by {
        if mobs.contains(p) {
            let k = choose|k: int| 0 <= k < mobs.len() && mobs[k] == p;
            let rk = rooms[k + 1];
            assert(room_in_bounds(rk));
            assert(!rects_intersect(rooms[0], rooms[k + 1]));
        }
    }
}

impl GameMap {
    /// Builds a map of rooms joined by corridors and chooses where the player,
    /// the monsters and the items start.
    pub fn new_map_roomsandcorridors(mapgen: MapGenerator) -> (r: (
        GameMap,
        Position,
        Vec<Position>,
        Vec<Position>,
    ))
        requires
            rooms_generator_ok(mapgen),
        ensures
            rooms_and_corridors_result(mapgen.rooms_range->Some_0, mapgen.items_range, r.0, r.1, r.2@, r.3@),
    {
        let (min_side, max_side) = match mapgen.rooms_range {
            Some(range) => range,
            None => (1, 2),
        };
        let items_range = mapgen.items_range;
        let mut rng = mapgen.rng.0;
        let mut map = blank_map(TileType::Wall, wall_renderable(), MAP_WIDTH - 1, MAP_HEIGHT - 1, false);
        let mut rooms: Vec<Rect> = Vec::new();
        let mut attempt: usize = 0;
        while attempt < max_side
            invariant
                mapgen.rooms_range == Some((min_side, max_side)),
                1 <= min_side < max_side <= MAP_HEIGHT - 1,
                attempt <= max_side,
                rooms.len() <= attempt,
                fresh_map(map, MAP_WIDTH - 1, MAP_HEIGHT - 1, false),
                map.rooms@.len() == 0,
                walls_and_floors(map.tiles@),
                forall|r: int| 0 <= r < rooms.len() ==> room_in_bounds(#[trigger] rooms@[r]),
                forall|r: int| 0 <= r < rooms.len() ==> room_sides_within(#[trigger] rooms@[r], (min_side, max_side)),
                rooms_disjoint(rooms@),
                rooms_carved(map.tiles@, rooms@),
                rooms_joined(map.tiles@, rooms@),
                attempt > 0 ==> rooms.len() > 0,
            decreases max_side - attempt,
        {
            let w = range_usize(&mut rng, min_side, max_side);
            let h = range_usize(&mut rng, min_side, max_side);
            let x = roll_dice(&mut rng, 1, MAP_WIDTH - w as i32 - 1) - 1;
            let y = roll_dice(&mut rng, 1, MAP_HEIGHT - h as i32 - 1) - 1;
            let new_room = Rect::with_size(x, y, w as i32, h as i32);
            let mut ok = true;
            let mut j: usize = 0;
            while j < rooms.len()
                invariant
                    j <= rooms.len(),
                    ok == forall|t: int| 0 <= t < j ==> !rects_intersect(new_room, #[trigger] rooms@[t]),
                decreases rooms.len() - j,
            {
                if new_room.intersect(&rooms[j]) {
                    ok = false;
                }
                j += 1;
            }
            if ok {
                let ghost before = map.tiles@;
                apply_room_to_map(&new_room, &mut map);
                proof {
                    lemma_corridors_kept(before, map.tiles@, rooms@);
                }
                assert(rooms_carved(map.tiles@, rooms@)) by {
                    assert forall|r: int, i: int|
                        0 <= r < rooms.len() && 0 <= i < MAP_TILES && room_covers(#[trigger] rooms@[r], index_x(i), index_y(i))
                        implies (#[trigger] map.tiles@[i]).tile == TileType::Floor by {
                        assert(before[i].tile == TileType::Floor);
                    }
                }
                if rooms.len() > 0 {
                    let last = rooms.len() - 1;
                    proof {
                        lemma_center_in_bounds(new_room);
                        lemma_center_in_bounds(rooms@[last as int]);
                    }
                    let new_center = new_room.center();
                    let prev_center = rooms[last].center();
                    let coin = range_i32(&mut rng, 0, 2);
                    let ghost carved = map.tiles@;
                    connect_rooms(&mut map, prev_center, new_center, coin == 1);
                    proof {
                        lemma_corridors_kept(carved, map.tiles@, rooms@);
                        let joined = rooms@.push(new_room);
                        assert forall|r: int| 0 <= r < joined.len() - 1 implies corridor_between(
                            map.tiles@,
                            rect_center(#[trigger] joined[r]),
                            rect_center(joined[r + 1]),
                        ) by {
                            if r < rooms.len() - 1 {
                                assert(joined[r] == rooms@[r] && joined[r + 1] == rooms@[r + 1]);
                            } else {
                                assert(joined[r] == rooms@[last as int] && joined[r + 1] == new_room);
                            }
                        }
                    }
                    assert(rooms_carved(map.tiles@, rooms@.push(new_room))) by {
                        assert forall|r: int, i: int|
                            0 <= r < rooms.len() + 1 && 0 <= i < MAP_TILES && room_covers(#[trigger] rooms@.push(new_room)[r], index_x(i), index_y(i))
                            implies (#[trigger] map.tiles@[i]).tile == TileType::Floor by {
                            assert(carved[i].tile == TileType::Floor);
                        }
                    }
                }
                rooms.push(new_room);
            }
            attempt += 1;
        }
        map.rooms = rooms;
        let mut mob_start_pos: Vec<Position> = Vec::new();
        let mut i: usize = 1;
        while i < map.rooms.len()
            invariant
                1 <= i <= map.rooms.len(),
                forall|r: int| 0 <= r < map.rooms.len() ==> room_in_bounds(#[trigger] map.rooms@[r]),
                mob_start_pos.len() + 1 == i,
                forall|k: int|
                    0 <= k < mob_start_pos.len() ==> #[trigger] mob_start_pos@[k] == position_of(
                        rect_center(map.rooms@[k + 1]),
                    ),
            decreases map.rooms.len() - i,
        {
            let c = map.rooms[i].center();
            mob_start_pos.push(Position { x: c.x, y: c.y });
            i += 1;
        }
        let first = map.rooms[0].center();
        let player_start_pos = Position { x: first.x, y: first.y };
        let num_items = range_usize(&mut rng, items_range.0, items_range.1 + 1);
        let available = available_tiles(&map.tiles);
        proof {
            let r0 = map.rooms@[0];
            let i0 = tile_index(r0.x1 + 1, r0.y1 + 1);
            lemma_index_join(r0.x1 + 1, r0.y1 + 1);
            assert(room_covers(map.rooms@[0], index_x(i0), index_y(i0)));
            assert(map.tiles@[i0].tile == TileType::Floor);
            lemma_open_locations_complete(map.tiles@, i0);
            if min_side >= 2 {
                let c = rect_center(r0);
                lemma_center_inside(r0);
                let ic = tile_index(c.x as int, c.y as int);
                lemma_index_join(c.x as int, c.y as int);
                assert(room_covers(map.rooms@[0], index_x(ic), index_y(ic)));
                assert(map.tiles@[ic].tile == TileType::Floor);
                assert(map.tiles@[ic].location == player_start_pos);
            }
        }
        let item_start_pos = place_positions(&mut rng, &available, num_items, player_start_pos, &mob_start_pos);
        proof {
            lemma_allowed_iff_open_elsewhere(map.tiles@, player_start_pos, mob_start_pos@);
            assert forall|k: int| 0 <= k < item_start_pos.len() implies on_open_tile(map.tiles@, #[trigger] item_start_pos@[k]) by {
                lemma_open_locations_sound(map.tiles@, item_start_pos@[k]);
            }
            lemma_corner_left(map.tiles@, map.rooms@, mob_start_pos@);
        }
        (map, player_start_pos, mob_start_pos, item_start_pos)
    }
}


/// Whether a count drawn with `range(lo, hi + 1)` can be drawn.
pub open spec fn count_range_ok(r: (usize, usize)) -> bool {
    r.0 <= r.1 < usize::MAX
}

/// Cellular generation can run with these parameters: a tree density of at
/// least one tile that fits an `i32`, and non-empty monster and item counts.
pub open spec fn cellular_generator_ok(g: MapGenerator) -> bool {
    &&& g.cell_density matches Some(d) && 1 <= d <= i32::MAX
    &&& count_range_ok(g.mobs_range)
    &&& count_range_ok(g.items_range)
}

/// The tile where the player starts on maps without rooms: the map's centre.
pub open spec fn centre_start() -> Position {
    Position { x: (MAP_WIDTH / 2) as i32, y: (MAP_HEIGHT / 2) as i32 }
}

/// Monsters and items placed on open tiles, away from the player; items
/// also away from the monsters; as many as the ranges allow, at least the
/// lower end of the range whenever an open tile is left for them, none
/// when none is.
pub open spec fn placements_ok(
    mobs_range: (usize, usize),
    items_range: (usize, usize),
    tiles: Seq<Tile>,
    start: Position,
    mobs: Seq<Position>,
    items: Seq<Position>,
) -> bool {
    &&& mobs.len() <= mobs_range.1
    &&& open_elsewhere(tiles, start, Seq::empty()) ==> mobs_range.0 <= mobs.len()
    &&& !open_elsewhere(tiles, start, Seq::empty()) ==> mobs.len() == 0
    &&& forall|k: int| 0 <= k < mobs.len() ==> on_open_tile(tiles, #[trigger] mobs[k]) && mobs[k] != start
    &&& items.len() <= items_range.1
    &&& open_elsewhere(tiles, start, mobs) ==> items_range.0 <= items.len()
    &&& !open_elsewhere(tiles, start, mobs) ==> items.len() == 0
    &&& forall|k: int|
        0 <= k < items.len() ==> on_open_tile(tiles, #[trigger] items[k]) && items[k] != start
            && !mobs.contains(items[k])
}

/// What cellular generation returns: a full-size open map with at most one
/// tree per `density` tiles scattered on it, never on its first row or
/// column nor on its centre,
/// where the player starts; open tiles remain away from the start, and
/// monsters and items are placed as `placements_ok` says, at least the lower
/// end of the item range whenever fewer monsters can be drawn than there
/// are open tiles besides the start.
pub open spec fn cellular_result(
    density: usize,
    mobs_range: (usize, usize),
    items_range: (usize, usize),
    map: GameMap,
    start: Position,
    mobs: Seq<Position>,
    items: Seq<Position>,
) -> bool {
    &&& fresh_map(map, MAP_WIDTH as int, MAP_HEIGHT as int, false)
    &&& map.rooms.len() == 0
    &&& forall|i: int|
        0 <= i < MAP_TILES ==> #[trigger] map.tiles@[i] == tile_at(i, TileType::Floor, floor_render())
            || map.tiles@[i] == tile_at(i, TileType::Wall, tree_render())
    &&& tile_count(map.tiles@, TileType::Wall) <= MAP_TILES / density
    &&& forall|i: int|
        0 <= i < MAP_TILES && (index_x(i) == 0 || index_y(i) == 0) ==> #[trigger] map.tiles@[i]
            == tile_at(i, TileType::Floor, floor_render())
    &&& start == centre_start()
    &&& open_elsewhere(map.tiles@, start, Seq::empty())
    &&& mobs_range.1 + 1 < MAP_TILES - MAP_TILES / density ==> items_range.0 <= items.len()
    &&& map.tiles@[tile_index(MAP_WIDTH / 2, MAP_HEIGHT / 2)] == tile_at(
        tile_index(MAP_WIDTH / 2, MAP_HEIGHT / 2),
        TileType::Floor,
        floor_render(),
    )
    &&& placements_ok(mobs_range, items_range, map.tiles@, start, mobs, items)
}

/// Every tile of a full-size map of kind `kind`, drawn as `render`.
pub open spec fn uniform_tiles(kind: TileType, render: Renderable) -> Seq<Tile> {
    Seq::new(MAP_TILES as nat, |i: int| tile_at(i, kind, render))
}

/// The tiles of an open map after `trees` trees were planted with a
/// generator in state `g`, and the generator's state afterwards: each tree
/// stands where two dice (a column in `1..MAP_WIDTH`, then a row in
/// `1..MAP_HEIGHT`) point, unless that is the map's centre.
pub open spec fn planted(g: rltk::RandomNumberGenerator, trees: nat) -> (Seq<Tile>, rltk::RandomNumberGenerator)
    decreases trees,
{
    if trees == 0 {
        (uniform_tiles(TileType::Floor, floor_render()), g)
    } else {
        let before = planted(g, (trees - 1) as nat);
        let xr = dice_roll(before.1, 1, (MAP_WIDTH - 1) as i32);
        let yr = dice_roll(xr.1, 1, (MAP_HEIGHT - 1) as i32);
        let idx = tile_index(xr.0 as int, yr.0 as int);
        let tiles = if idx != tile_index(MAP_WIDTH / 2, MAP_HEIGHT / 2) {
            before.0.update(idx, Tile { tile: TileType::Wall, render: tree_render(), location: Position { x: xr.0, y: yr.0 } })
        } else {
            before.0
        };
        (tiles, yr.1)
    }
}

/// Some open tile of `tiles` lies away from `start` and from every `occupied` position.
pub open spec fn open_elsewhere(tiles: Seq<Tile>, start: Position, occupied: Seq<Position>) -> bool {
    exists|p: Position| on_open_tile(tiles, p) && p != start && !occupied.contains(p)
}

proof fn lemma_allowed_iff_open_elsewhere(tiles: Seq<Tile>, start: Position, occupied: Seq<Position>)
    ensures
        some_placement_allowed(open_locations(tiles), start, occupied) == open_elsewhere(tiles, start, occupied),
{
    let avail = open_locations(tiles);
    if some_placement_allowed(avail, start, occupied) {
        let j = choose|j: int| 0 <= j < avail.len() && placement_allowed(#[trigger] avail[j], avail, start, occupied);
        lemma_open_locations_sound(tiles, avail[j]);
        assert(on_open_tile(tiles, avail[j]) && avail[j] != start && !occupied.contains(avail[j]));
    }
    if open_elsewhere(tiles, start, occupied) {
        let p = choose|p: Position| on_open_tile(tiles, p) && p != start && !occupied.contains(p);
        let i = choose|i: int| 0 <= i < tiles.len() && #[trigger] tiles[i].tile != TileType::Wall && tiles[i].location == p;
        lemma_open_locations_complete(tiles, i);
        let j = choose|j: int| 0 <= j < avail.len() && avail[j] == p;
        assert(placement_allowed(avail[j], avail, start, occupied));
    }
}

/// Places monsters, then items, on the open tiles of `tiles`: a number of
/// monsters drawn from `mobs_range` and of items drawn from `items_range`,
/// each as long as some open tile is left for it, none otherwise.
fn place_entities(
    rng: &mut rltk::RandomNumberGenerator,
    tiles: &Vec<Tile>,
    start: Position,
    mobs_range: (usize, usize),
    items_range: (usize, usize),
) -> (placed: (Vec<Position>, Vec<Position>))
    requires
        count_range_ok(mobs_range),
        count_range_ok(items_range),
        exists|i: int| 0 <= i < tiles.len() && #[trigger] tiles@[i].tile != TileType::Wall,
    ensures
        placed.0.len() <= mobs_range.1,
        placed.1.len() <= items_range.1,
        open_elsewhere(tiles@, start, Seq::empty()) ==> mobs_range.0 <= placed.0.len(),
        !open_elsewhere(tiles@, start, Seq::empty()) ==> placed.0.len() == 0,
        open_elsewhere(tiles@, start, placed.0@) ==> items_range.0 <= placed.1.len(),
        !open_elsewhere(tiles@, start, placed.0@) ==> placed.1.len() == 0,
        forall|k: int|
            0 <= k < placed.0.len() ==> on_open_tile(tiles@, #[trigger] placed.0@[k]) && placed.0@[k]
                != start,
        forall|k: int|
            0 <= k < placed.1.len() ==> on_open_tile(tiles@, #[trigger] placed.1@[k]) && placed.1@[k]
                != start && !placed.0@.contains(placed.1@[k]),
{
    let num_mobs = range_usize(rng, mobs_range.0, mobs_range.1 + 1);
    let num_items = range_usize(rng, items_range.0, items_range.1 + 1);
    let available = available_tiles(tiles);
    proof {
        let w = choose|i: int| 0 <= i < tiles.len() && #[trigger] tiles@[i].tile != TileType::Wall;
        lemma_open_locations_complete(tiles@, w);
    }
    let nobody: Vec<Position> = Vec::new();
    let mob_start_pos = place_positions(rng, &available, num_mobs, start, &nobody);
    let item_start_pos = place_positions(rng, &available, num_items, start, &mob_start_pos);
    proof {
        assert(nobody@ == Seq::<Position>::empty());
        lemma_allowed_iff_open_elsewhere(tiles@, start, nobody@);
        lemma_allowed_iff_open_elsewhere(tiles@, start, mob_start_pos@);
        assert forall|k: int| 0 <= k < mob_start_pos.len() implies on_open_tile(tiles@, #[trigger] mob_start_pos@[k]) by {
            lemma_open_locations_sound(tiles@, mob_start_pos@[k]);
        }
        assert forall|k: int| 0 <= k < item_start_pos.len() implies on_open_tile(tiles@, #[trigger] item_start_pos@[k]) by {
            lemma_open_locations_sound(tiles@, item_start_pos@[k]);
        }
    }
    (mob_start_pos, item_start_pos)
}

impl GameMap {
    /// Builds an open map with trees scattered at random and chooses where
    /// the player, the monsters and the items start.
    pub fn new_map_cellularautomata(mapgen: MapGenerator) -> (r: (
        GameMap,
        Position,
        Vec<Position>,
        Vec<Position>,
    ))
        requires
            cellular_generator_ok(mapgen),
        ensures
            cellular_result(mapgen.cell_density->Some_0, mapgen.mobs_range, mapgen.items_range, r.0, r.1, r.2@, r.3@),
            r.0.tiles@ == planted(mapgen.rng.0, (MAP_TILES / mapgen.cell_density->Some_0) as nat).0,
    {
        let density = match mapgen.cell_density {
            Some(d) => d,
            None => 1,
        };
        let mobs_range = mapgen.mobs_range;
        let items_range = mapgen.items_range;
        let mut rng = mapgen.rng.0;
        let mut map = blank_map(TileType::Floor, floor_renderable(), MAP_WIDTH, MAP_HEIGHT, false);
        let centre = xy_idx(MAP_WIDTH / 2, MAP_HEIGHT / 2);
        let trees: i32 = MAP_WIDTH * MAP_HEIGHT / density as i32;
        assert(trees == MAP_TILES / density && trees >= 0);
        proof {
            lemma_none_of_kind(map.tiles@, TileType::Wall);
            assert(map.tiles@ == uniform_tiles(TileType::Floor, floor_render()));
        }
        let ghost g0 = rng;
        let mut t: i32 = 0;
        while t < trees
            invariant
                0 <= t <= trees,
                (map.tiles@, rng) == planted(g0, t as nat),
                tile_count(map.tiles@, TileType::Wall) <= t,
                fresh_map(map, MAP_WIDTH as int, MAP_HEIGHT as int, false),
                map.rooms@.len() == 0,
                centre == tile_index(MAP_WIDTH / 2, MAP_HEIGHT / 2),
                forall|i: int|
                    0 <= i < MAP_TILES ==> #[trigger] map.tiles@[i] == tile_at(i, TileType::Floor, floor_render())
                        || map.tiles@[i] == tile_at(i, TileType::Wall, tree_render()),
                forall|i: int|
                    0 <= i < MAP_TILES && (index_x(i) == 0 || index_y(i) == 0 || i == centre)
                        ==> #[trigger] map.tiles@[i] == tile_at(i, TileType::Floor, floor_render()),
            decreases trees - t,
        {
            let x = roll_dice(&mut rng, 1, MAP_WIDTH - 1);
            let y = roll_dice(&mut rng, 1, MAP_HEIGHT - 1);
            proof {
                lemma_index_join(x as int, y as int);
            }
            let idx = xy_idx(x, y);
            if idx != centre {
                let tree = Tile {
                    tile: TileType::Wall,
                    render: tree_renderable(),
                    location: Position { x, y },
                };
                proof {
                    lemma_count_update(map.tiles@, idx as int, tree, TileType::Wall);
                }
                map.tiles[idx] = tree;
            }
            t += 1;
        }
        proof {
            lemma_index_join(MAP_WIDTH / 2, MAP_HEIGHT / 2);
            assert(map.tiles@[centre as int].tile != TileType::Wall);
            lemma_index_join(1, 0);
            let p = map.tiles@[1].location;
            assert(map.tiles@[1].tile != TileType::Wall && p != centre_start());
            assert(on_open_tile(map.tiles@, p));
            assert(!Seq::<Position>::empty().contains(p));
            assert(open_elsewhere(map.tiles@, centre_start(), Seq::empty()));
        }
        let player_start_pos = Position { x: MAP_WIDTH / 2, y: MAP_HEIGHT / 2 };
        let (mob_start_pos, item_start_pos) = place_entities(
            &mut rng,
            &map.tiles,
            player_start_pos,
            mobs_range,
            items_range,
        );
        proof {
            if mobs_range.1 + 1 < MAP_TILES - MAP_TILES / density {
                assert forall|i: int| 0 <= i < map.tiles.len() implies (#[trigger] map.tiles@[i]).tile
                    == TileType::Wall || map.tiles@[i].tile == TileType::Floor by {}
                lemma_walls_and_floors_count(map.tiles@);
                lemma_room_left(map.tiles@, player_start_pos, mob_start_pos@);
            }
        }
        (map, player_start_pos, mob_start_pos, item_start_pos)
    }
}


/// Drunkard's-walk generation can run with these parameters: non-empty
/// monster and item counts.
pub open spec fn drunkards_generator_ok(g: MapGenerator) -> bool {
    &&& count_range_ok(g.mobs_range)
    &&& count_range_ok(g.items_range)
}

/// Whether `(x, y)` lies on the outermost ring of the map.
pub open spec fn on_border(x: int, y: int) -> bool {
    x == 0 || x == MAP_WIDTH - 1 || y == 0 || y == MAP_HEIGHT - 1
}

/// Number of tiles of kind `kind`.
pub open spec fn tile_count(s: Seq<Tile>, kind: TileType) -> nat
    decreases s.len(),
{
    if s.len() == 0 {
        0
    } else {
        tile_count(s.drop_last(), kind) + if s.last().tile == kind {
            1nat
        } else {
            0nat
        }
    }
}

/// Number of floor tiles.
pub open spec fn floor_count(s: Seq<Tile>) -> nat {
    tile_count(s, TileType::Floor)
}

proof fn lemma_none_of_kind(s: Seq<Tile>, kind: TileType)
    requires
        forall|i: int| 0 <= i < s.len() ==> (#[trigger] s[i]).tile != kind,
    ensures
        tile_count(s, kind) == 0,
    decreases s.len(),
{
    if s.len() > 0 {
        assert forall|i: int| 0 <= i < s.drop_last().len() implies (#[trigger] s.drop_last()[i]).tile != kind by {
            assert(s.drop_last()[i] == s[i]);
        }
        lemma_none_of_kind(s.drop_last(), kind);
    }
}

/// Replacing one tile changes a count by what leaves and what comes.
proof fn lemma_count_update(s: Seq<Tile>, i: int, t: Tile, kind: TileType)
    requires
        0 <= i < s.len(),
    ensures
        tile_count(s.update(i, t), kind) as int == tile_count(s, kind) as int - (if s[i].tile == kind {
            1int
        } else {
            0int
        }) + (if t.tile == kind {
            1int
        } else {
            0int
        }),
    decreases s.len(),
{
    if i == s.len() - 1 {
        assert(s.update(i, t).drop_last() == s.drop_last());
    } else {
        lemma_count_update(s.drop_last(), i, t, kind);
        assert(s.update(i, t).drop_last() == s.drop_last().update(i, t));
    }
}

/// Number of indices below `n` whose tile lies inside the map's outermost ring.
spec fn interior_below(n: int) -> nat
    decreases n,
{
    if n <= 0 {
        0
    } else {
        interior_below(n - 1) + if on_border(index_x(n - 1), index_y(n - 1)) {
            0nat
        } else {
            1nat
        }
    }
}

/// Where every tile below `n` inside the outermost ring is floor, there are
/// at least `interior_below(n)` floor tiles.
proof fn lemma_interior_floor_count(s: Seq<Tile>, n: int)
    requires
        0 <= n <= s.len(),
        forall|k: int| 0 <= k < n && !on_border(index_x(k), index_y(k)) ==> (#[trigger] s[k]).tile == TileType::Floor,
    ensures
        floor_count(s) >= interior_below(n),
    decreases s.len(),
{
    if s.len() > 0 {
        let d = s.drop_last();
        if n == s.len() {
            assert forall|k: int| 0 <= k < n - 1 && !on_border(index_x(k), index_y(k)) implies (#[trigger] d[k]).tile
                == TileType::Floor by {
                assert(d[k] == s[k]);
            }
            lemma_interior_floor_count(d, n - 1);
        } else {
            assert forall|k: int| 0 <= k < n && !on_border(index_x(k), index_y(k)) implies (#[trigger] d[k]).tile
                == TileType::Floor by {
                assert(d[k] == s[k]);
            }
            lemma_interior_floor_count(d, n);
        }
    }
}

/// Inner tiles of row `y` among its first `x` columns.
spec fn row_interior(y: int, x: int) -> int {
    if 1 <= y <= MAP_HEIGHT - 2 && x >= 2 {
        if x <= MAP_WIDTH - 1 {
            x - 1
        } else {
            MAP_WIDTH - 2
        }
    } else {
        0
    }
}

proof fn lemma_interior_in_row(y: int, x: int)
    requires
        0 <= y < MAP_HEIGHT,
        0 <= x <= MAP_WIDTH,
    ensures
        interior_below(tile_index(0, y) + x) == interior_below(tile_index(0, y)) + row_interior(y, x),
    decreases x,
{
    if x > 0 {
        lemma_interior_in_row(y, x - 1);
        lemma_index_join(x - 1, y);
        assert(tile_index(0, y) + x - 1 == tile_index(x - 1, y));
        assert(interior_below(tile_index(0, y) + x) == interior_below(tile_index(x - 1, y)) + if on_border(
            x - 1,
            y,
        ) {
            0nat
        } else {
            1nat
        });
    }
}

proof fn lemma_interior_rows(y: int)
    requires
        0 <= y <= MAP_HEIGHT,
    ensures
        interior_below(tile_index(0, y)) == if y <= 1 {
            0
        } else if y <= MAP_HEIGHT - 1 {
            (MAP_WIDTH - 2) * (y - 1)
        } else {
            (MAP_WIDTH - 2) * (MAP_HEIGHT - 2)
        },
    decreases y,
{
    if y > 0 {
        lemma_interior_rows(y - 1);
        lemma_interior_in_row(y - 1, MAP_WIDTH as int);
        assert(tile_index(0, y - 1) + MAP_WIDTH == tile_index(0, y));
    }
}

/// Every map has at least a third of its tiles inside its outermost ring.
proof fn lemma_interior_is_large()
    ensures
        interior_below(MAP_TILES as int) >= MAP_TILES / 3,
{
    lemma_interior_rows(MAP_HEIGHT as int);
    assert(tile_index(0, MAP_HEIGHT as int) == MAP_TILES);
}

/// Where more tiles are floor than `excluded` holds positions, and every tile
/// lies at its own place, some floor tile lies outside `excluded`.
proof fn lemma_floor_outside(s: Seq<Tile>, excluded: Set<Position>)
    requires
        s.len() <= MAP_TILES,
        excluded.finite(),
        forall|i: int| 0 <= i < s.len() ==> (#[trigger] s[i]).location == location_of(i),
        floor_count(s) > excluded.len(),
    ensures
        exists|i: int| 0 <= i < s.len() && (#[trigger] s[i]).tile == TileType::Floor && !excluded.contains(s[i].location),
    decreases s.len(),
{
    let d = s.drop_last();
    let n = s.len() - 1;
    assert forall|i: int| 0 <= i < d.len() implies (#[trigger] d[i]).location == location_of(i) by {
        assert(d[i] == s[i]);
    }
    if s[n].tile == TileType::Floor {
        if excluded.contains(s[n].location) {
            let rest = excluded.remove(s[n].location);
            lemma_floor_outside(d, rest);
            let i = choose|i: int| 0 <= i < d.len() && (#[trigger] d[i]).tile == TileType::Floor && !rest.contains(d[i].location);
            assert(s[i] == d[i]);
            lemma_index_split(i);
            lemma_index_split(n);
            assert(s[i].location != s[n].location);
        }
    } else {
        lemma_floor_outside(d, excluded);
        let i = choose|i: int| 0 <= i < d.len() && (#[trigger] d[i]).tile == TileType::Floor && !excluded.contains(d[i].location);
        assert(s[i] == d[i]);
    }
}

/// Where at least two more tiles are floor than `occupied` holds positions,
/// and every tile lies at its own place, an open tile remains away from
/// `start` and from `occupied`.
proof fn lemma_room_left(tiles: Seq<Tile>, start: Position, occupied: Seq<Position>)
    requires
        tiles.len() <= MAP_TILES,
        forall|i: int| 0 <= i < tiles.len() ==> (#[trigger] tiles[i]).location == location_of(i),
        floor_count(tiles) > occupied.len() + 1,
    ensures
        open_elsewhere(tiles, start, occupied),
{
    let e = occupied.to_set().insert(start);
    occupied.lemma_cardinality_of_set();
    assert(e.finite() && e.len() <= occupied.len() + 1) by {
        broadcast use vstd::set::group_set_axioms, vstd::seq_lib::seq_to_set_is_finite;
    }
    lemma_floor_outside(tiles, e);
    let i = choose|i: int| 0 <= i < tiles.len() && (#[trigger] tiles[i]).tile == TileType::Floor && !e.contains(tiles[i].location);
    let p = tiles[i].location;
    assert(on_open_tile(tiles, p));
    assert(!occupied.contains(p)) by {
        if occupied.contains(p) {
            let j = choose|j: int| 0 <= j < occupied.len() && occupied[j] == p;
            assert(occupied.to_set().contains(occupied[j]));
        }
    }
}

/// On tiles that are all walls or floors, the two counts make up the whole.
proof fn lemma_walls_and_floors_count(s: Seq<Tile>)
    requires
        forall|i: int| 0 <= i < s.len() ==> (#[trigger] s[i]).tile == TileType::Wall || s[i].tile == TileType::Floor,
    ensures
        tile_count(s, TileType::Wall) + tile_count(s, TileType::Floor) == s.len(),
    decreases s.len(),
{
    if s.len() > 0 {
        let d = s.drop_last();
        assert forall|i: int| 0 <= i < d.len() implies (#[trigger] d[i]).tile == TileType::Wall || d[i].tile == TileType::Floor by {
            assert(d[i] == s[i]);
        }
        lemma_walls_and_floors_count(d);
        assert(s.last() == s[s.len() - 1]);
    }
}

/// Where `after` differs from `before` only at the indices in `changed`,
/// its count of any kind exceeds the old count by at most `changed.len()`.
proof fn lemma_count_changes(before: Seq<Tile>, after: Seq<Tile>, changed: Seq<int>, kind: TileType)
    requires
        before.len() == after.len(),
        forall|k: int| 0 <= k < changed.len() ==> 0 <= #[trigger] changed[k] < before.len(),
        forall|i: int| 0 <= i < before.len() && !changed.contains(i) ==> #[trigger] after[i] == before[i],
    ensures
        tile_count(after, kind) <= tile_count(before, kind) + changed.len(),
    decreases changed.len(),
{
    if changed.len() == 0 {
        assert(after == before);
    } else {
        let j = changed.last();
        let rest = changed.drop_last();
        let mid = after.update(j, before[j]);
        assert forall|i: int| 0 <= i < before.len() && !rest.contains(i) implies #[trigger] mid[i] == before[i] by {
            if i != j {
                assert(!changed.contains(i)) by {
                    if changed.contains(i) {
                        let k = choose|k: int| 0 <= k < changed.len() && changed[k] == i;
                        assert(rest[k] == i);
                    }
                }
            }
        }
        assert forall|k: int| 0 <= k < rest.len() implies 0 <= #[trigger] rest[k] < before.len() by {
            assert(rest[k] == changed[k]);
        }
        lemma_count_changes(before, mid, rest, kind);
        lemma_count_update(mid, j, after[j], kind);
        assert(mid.update(j, after[j]) == after);
    }
}

/// Counts the floor tiles.
pub fn count_floor_tiles(tiles: &Vec<Tile>) -> (n: usize)
    ensures
        n == floor_count(tiles@),
{
    let mut n: usize = 0;
    let mut i: usize = 0;
    while i < tiles.len()
        invariant
            i <= tiles.len(),
            n == floor_count(tiles@.subrange(0, i as int)),
            n <= i,
        decreases tiles.len() - i,
    {
        assert(tiles@.subrange(0, i + 1).drop_last() == tiles@.subrange(0, i as int));
        if tiles[i].tile == TileType::Floor {
            n += 1;
        }
        i += 1;
    }
    assert(tiles@.subrange(0, tiles.len() as int) == tiles@);
    n
}

/// How many diggers the drunkard's walk may send before it gives up; no run
/// of the game comes near it.
pub const MAX_DIGGERS: u64 = 0xffff_ffff_ffff_ffff;

/// Steps a digger takes before it stops.
pub const DIGGER_LIFE: i32 = 100;

/// What drunkard's-walk generation returns: a full-size map of rock with
/// floor dug into it until at least a third of its tiles are floor (the
/// last digger overshooting by at most its own steps and first tile), whose
/// outermost ring stays rock, so that floor remains away from the start;
/// the player starts at the map's centre; monsters and items placed as
/// `placements_ok` says, at least the lower end of the item range whenever
/// fewer monsters can be drawn than a third of the map holds tiles.
pub open spec fn drunkards_result(
    mobs_range: (usize, usize),
    items_range: (usize, usize),
    map: GameMap,
    start: Position,
    mobs: Seq<Position>,
    items: Seq<Position>,
) -> bool {
    &&& fresh_map(map, MAP_WIDTH as int, MAP_HEIGHT as int, true)
    &&& map.rooms.len() == 0
    &&& forall|i: int|
        0 <= i < MAP_TILES ==> #[trigger] map.tiles@[i] == tile_at(i, TileType::Wall, wall_render())
            || map.tiles@[i] == tile_at(i, TileType::Floor, dug_render())
    &&& forall|i: int|
        0 <= i < MAP_TILES && on_border(index_x(i), index_y(i)) ==> #[trigger] map.tiles@[i] == tile_at(
            i,
            TileType::Wall,
            wall_render(),
        )
    &&& MAP_TILES / 3 <= floor_count(map.tiles@) < MAP_TILES / 3 + DIGGER_LIFE + 1
    &&& start == centre_start()
    &&& open_elsewhere(map.tiles@, start, Seq::empty())
    &&& mobs_range.1 + 1 < MAP_TILES / 3 ==> items_range.0 <= items.len()
    &&& placements_ok(mobs_range, items_range, map.tiles@, start, mobs, items)
}

/// Where a digger at `(x, y)` goes on a roll of `dir`: 1 west, 2 east, 3
/// north, anything else south, staying put rather than entering the two
/// outermost rings of the map.
pub open spec fn stagger(x: int, y: int, dir: int) -> (int, int) {
    if dir == 1 {
        if x > 2 { (x - 1, y) } else { (x, y) }
    } else if dir == 2 {
        if x < MAP_WIDTH - 2 { (x + 1, y) } else { (x, y) }
    } else if dir == 3 {
        if y > 2 { (x, y - 1) } else { (x, y) }
    } else {
        if y < MAP_HEIGHT - 2 { (x, y + 1) } else { (x, y) }
    }
}

/// The tiles and the generator's state after a digger at `(x, y)` with
/// `life` steps left has walked: each step marks the tile it stands on
/// (as stairs, a marker) and moves as a four-sided die rolled with `g` says.
pub open spec fn walk(tiles: Seq<Tile>, g: rltk::RandomNumberGenerator, x: int, y: int, life: nat) -> (
    Seq<Tile>,
    rltk::RandomNumberGenerator,
)
    decreases life,
{
    if life == 0 {
        (tiles, g)
    } else {
        let idx = tile_index(x, y);
        let marked = tiles.update(idx, Tile { tile: TileType::DownStairs, ..tiles[idx] });
        let r = dice_roll(g, 1, 4);
        let next = stagger(x, y, r.0 as int);
        walk(marked, r.1, next.0, next.1, (life - 1) as nat)
    }
}

/// A tile a digger marked becomes floor, drawn as `.`; any other tile stays.
pub open spec fn settle(t: Tile) -> Tile {
    if t.tile == TileType::DownStairs {
        Tile { tile: TileType::Floor, render: Renderable { glyph: '.', ..t.render }, ..t }
    } else {
        t
    }
}

/// What one digger sent from `(sx, sy)` with the generator in state `g`
/// leaves: its first tile made floor, its walk, and every marked tile
/// settled into floor; and the generator's state afterwards.
pub open spec fn dig_result(tiles: Seq<Tile>, g: rltk::RandomNumberGenerator, sx: int, sy: int) -> (
    Seq<Tile>,
    rltk::RandomNumberGenerator,
) {
    let start = tile_index(sx, sy);
    let started = tiles.update(start, Tile { tile: TileType::Floor, ..tiles[start] });
    let walked = walk(started, g, sx, sy, DIGGER_LIFE as nat);
    (walked.0.map_values(|t: Tile| settle(t)), walked.1)
}

/// The tiles and the generator's state once diggers (the first of them
/// numbered `diggers`) have been sent, each from a place drawn with two
/// draws (a column in `1..MAP_WIDTH - 1`, then a row in `1..MAP_HEIGHT - 1`),
/// until a third of the map is floor or `MAX_DIGGERS` have gone.
pub open spec fn dig_until(tiles: Seq<Tile>, g: rltk::RandomNumberGenerator, diggers: nat) -> (
    Seq<Tile>,
    rltk::RandomNumberGenerator,
)
    decreases MAX_DIGGERS - diggers,
{
    if floor_count(tiles) >= MAP_TILES / 3 || diggers >= MAX_DIGGERS {
        (tiles, g)
    } else {
        let xr = range_i32_draw(g, 1, (MAP_WIDTH - 1) as i32);
        let yr = range_i32_draw(xr.1, 1, (MAP_HEIGHT - 1) as i32);
        let d = dig_result(tiles, yr.1, xr.0 as int, yr.0 as int);
        dig_until(d.0, d.1, diggers + 1)
    }
}

/// The tiles once the rock left is dug out in index order, from index
/// `idx` on, inside the outermost ring, until a third of the map is floor.
pub open spec fn dig_rest(tiles: Seq<Tile>, idx: nat) -> Seq<Tile>
    decreases MAP_TILES - idx,
{
    if floor_count(tiles) >= MAP_TILES / 3 || idx >= MAP_TILES {
        tiles
    } else {
        let t = tiles[idx as int];
        let x = index_x(idx as int);
        let y = index_y(idx as int);
        let next = if 1 <= x <= MAP_WIDTH - 2 && 1 <= y <= MAP_HEIGHT - 2 && t.tile == TileType::Wall {
            tiles.update(idx as int, Tile { tile: TileType::Floor, render: Renderable { glyph: '.', ..t.render }, ..t })
        } else {
            tiles
        };
        dig_rest(next, idx + 1)
    }
}

/// The tiles of a drunkard's-walk map dug with a generator in state `g`.
pub open spec fn drunkard_tiles(g: rltk::RandomNumberGenerator) -> Seq<Tile> {
    dig_rest(dig_until(uniform_tiles(TileType::Wall, wall_render()), g, 0).0, 0)
}

/// A tile in the middle of a digger's walk: at its own place, drawn grey on
/// black as rock (`#`) or floor (`.`); rock is drawn as rock; floor is drawn
/// as floor unless it is the digger's first tile before its first step.
spec fn digging_tile(t: Tile, i: int, first: int, fresh: bool) -> bool {
    &&& t.location == location_of(i)
    &&& t.render.fg == Color::Gray
    &&& t.render.bg == Color::Black
    &&& (t.render.glyph == '#' || t.render.glyph == '.')
    &&& t.tile == TileType::Wall ==> t.render == wall_render()
    &&& t.tile == TileType::Floor ==> (t.render == dug_render() || (i == first && fresh))
}

/// Sends one digger from `(sx, sy)`: it marks the tiles it walks for
/// `DIGGER_LIFE` steps, staying inside the map's outermost ring, and every
/// tile it marked becomes floor.
fn dig(map: &mut GameMap, rng: &mut rltk::RandomNumberGenerator, sx: i32, sy: i32)
    requires
        old(map).tiles.len() == MAP_TILES,
        old(map).width == MAP_WIDTH,
        old(map).height == MAP_HEIGHT,
        1 <= sx <= MAP_WIDTH - 2,
        1 <= sy <= MAP_HEIGHT - 2,
        forall|i: int|
            0 <= i < MAP_TILES ==> #[trigger] old(map).tiles@[i] == tile_at(i, TileType::Wall, wall_render())
                || old(map).tiles@[i] == tile_at(i, TileType::Floor, dug_render()),
        forall|i: int|
            0 <= i < MAP_TILES && on_border(index_x(i), index_y(i)) ==> #[trigger] old(map).tiles@[i]
                == tile_at(i, TileType::Wall, wall_render()),
    ensures
        same_but_tiles(*final(map), *old(map)),
        final(map).tiles.len() == MAP_TILES,
        final(map).tiles@[tile_index(sx as int, sy as int)] == tile_at(
            tile_index(sx as int, sy as int),
            TileType::Floor,
            dug_render(),
        ),
        forall|i: int|
            0 <= i < MAP_TILES ==> #[trigger] final(map).tiles@[i] == tile_at(i, TileType::Wall, wall_render())
                || final(map).tiles@[i] == tile_at(i, TileType::Floor, dug_render()),
        forall|i: int|
            0 <= i < MAP_TILES && on_border(index_x(i), index_y(i)) ==> #[trigger] final(map).tiles@[i]
                == tile_at(i, TileType::Wall, wall_render()),
        floor_count(final(map).tiles@) <= floor_count(old(map).tiles@) + DIGGER_LIFE + 1,
        (final(map).tiles@, *final(rng)) == dig_result(old(map).tiles@, *old(rng), sx as int, sy as int),
{
    proof {
        lemma_index_join(sx as int, sy as int);
    }
    let start_idx = xy_idx(sx, sy);
    let mut start_tile = map.tiles[start_idx];
    start_tile.tile = TileType::Floor;
    map.tiles[start_idx] = start_tile;
    let ghost mut marked: Seq<int> = seq![start_idx as int];
    proof {
        assert forall|i: int| 0 <= i < MAP_TILES && !marked.contains(i) implies #[trigger] map.tiles@[i]
            == old(map).tiles@[i] by {
            assert(marked[0] == start_idx);
        }
    }
    let ghost started = map.tiles@;
    let ghost g0 = *rng;
    let mut drunk_x = sx;
    let mut drunk_y = sy;
    let mut drunk_life = DIGGER_LIFE;
    while drunk_life > 0
        invariant
            0 <= drunk_life <= DIGGER_LIFE,
            walk(map.tiles@, *rng, drunk_x as int, drunk_y as int, drunk_life as nat) == walk(
                started,
                g0,
                sx as int,
                sy as int,
                DIGGER_LIFE as nat,
            ),
            drunk_life == DIGGER_LIFE ==> drunk_x == sx && drunk_y == sy,
            1 <= drunk_x <= MAP_WIDTH - 2,
            1 <= drunk_y <= MAP_HEIGHT - 2,
            start_idx == tile_index(sx as int, sy as int),
            0 <= start_idx < MAP_TILES,
            same_but_tiles(*map, *old(map)),
            map.width == MAP_WIDTH,
            map.height == MAP_HEIGHT,
            map.tiles.len() == MAP_TILES,
            drunk_life < DIGGER_LIFE ==> map.tiles@[start_idx as int].tile != TileType::Wall,
            marked.len() == 1 + DIGGER_LIFE - drunk_life,
            forall|k: int| 0 <= k < marked.len() ==> 0 <= #[trigger] marked[k] < MAP_TILES,
            forall|i: int|
                0 <= i < MAP_TILES && !marked.contains(i) ==> #[trigger] map.tiles@[i] == old(map).tiles@[i],
            forall|i: int|
                0 <= i < MAP_TILES ==> digging_tile(
                    #[trigger] map.tiles@[i],
                    i,
                    start_idx as int,
                    drunk_life == DIGGER_LIFE,
                ),
            forall|i: int|
                0 <= i < MAP_TILES && on_border(index_x(i), index_y(i)) ==> #[trigger] map.tiles@[i]
                    == tile_at(i, TileType::Wall, wall_render()),
        decreases drunk_life,
    {
        proof {
            lemma_index_join(drunk_x as int, drunk_y as int);
        }
        let drunk_idx = xy_idx(drunk_x, drunk_y);
        let mut t = map.tiles[drunk_idx];
        t.tile = TileType::DownStairs;
        map.tiles[drunk_idx] = t;
        proof {
            let before = marked;
            marked = marked.push(drunk_idx as int);
            assert forall|i: int| 0 <= i < MAP_TILES && !marked.contains(i) implies #[trigger] map.tiles@[i]
                == old(map).tiles@[i] by {
                assert(!before.contains(i)) by {
                    if before.contains(i) {
                        let k = choose|k: int| 0 <= k < before.len() && before[k] == i;
                        assert(marked[k] == i);
                    }
                }
                assert(i != drunk_idx) by {
                    assert(marked[before.len() as int] == drunk_idx);
                }
            }
        }
        let stagger_direction = roll_dice(rng, 1, 4);
        if stagger_direction == 1 {
            if drunk_x > 2 {
                drunk_x -= 1;
            }
        } else if stagger_direction == 2 {
            if drunk_x < map.width - 2 {
                drunk_x += 1;
            }
        } else if stagger_direction == 3 {
            if drunk_y > 2 {
                drunk_y -= 1;
            }
        } else {
            if drunk_y < map.height - 2 {
                drunk_y += 1;
            }
        }
        drunk_life -= 1;
    }
    let ghost walked = map.tiles@;
    proof {
        assert(walk(walked, *rng, drunk_x as int, drunk_y as int, 0) == (walked, *rng));
    }
    let mut i: usize = 0;
    while i < map.tiles.len()
        invariant
            i <= map.tiles.len(),
            walked.len() == MAP_TILES,
            forall|k: int| 0 <= k < i ==> #[trigger] map.tiles@[k] == settle(walked[k]),
            forall|k: int| i <= k < MAP_TILES ==> #[trigger] map.tiles@[k] == walked[k],
            start_idx == tile_index(sx as int, sy as int),
            0 <= start_idx < MAP_TILES,
            same_but_tiles(*map, *old(map)),
            map.tiles.len() == MAP_TILES,
            i <= start_idx ==> map.tiles@[start_idx as int].tile != TileType::Wall,
            i > start_idx ==> map.tiles@[start_idx as int] == tile_at(start_idx as int, TileType::Floor, dug_render()),
            marked.len() <= DIGGER_LIFE + 1,
            old(map).tiles.len() == MAP_TILES,
            forall|k: int| 0 <= k < MAP_TILES ==> (#[trigger] old(map).tiles@[k]).tile != TileType::DownStairs,
            forall|k: int| 0 <= k < marked.len() ==> 0 <= #[trigger] marked[k] < MAP_TILES,
            forall|k: int|
                0 <= k < MAP_TILES && !marked.contains(k) ==> #[trigger] map.tiles@[k] == old(map).tiles@[k],
            forall|k: int|
                0 <= k < i ==> #[trigger] map.tiles@[k] == tile_at(k, TileType::Wall, wall_render())
                    || map.tiles@[k] == tile_at(k, TileType::Floor, dug_render()),
            forall|k: int| i <= k < MAP_TILES ==> digging_tile(#[trigger] map.tiles@[k], k, start_idx as int, false),
            forall|k: int|
                0 <= k < MAP_TILES && on_border(index_x(k), index_y(k)) ==> #[trigger] map.tiles@[k]
                    == tile_at(k, TileType::Wall, wall_render()),
        decreases map.tiles.len() - i,
    {
        let mut t = map.tiles[i];
        if t.tile == TileType::DownStairs {
            assert(marked.contains(i as int)) by {
                if !marked.contains(i as int) {
                    assert(map.tiles@[i as int] == old(map).tiles@[i as int]);
                }
            }
            t.tile = TileType::Floor;
            t.render.glyph = '.';
            map.tiles[i] = t;
        }
        i += 1;
    }
    proof {
        lemma_count_changes(old(map).tiles@, map.tiles@, marked, TileType::Floor);
        assert(map.tiles@ == walked.map_values(|t: Tile| settle(t)));
        assert(started == old(map).tiles@.update(
            start_idx as int,
            Tile { tile: TileType::Floor, ..old(map).tiles@[start_idx as int] },
        ));
    }
}

impl GameMap {
    /// Builds a map of rock into which random diggers dig until a third of
    /// the map is floor, and chooses where the player, the monsters and the
    /// items start.
    pub fn new_map_drunkardswalk(mapgen: MapGenerator) -> (r: (
        GameMap,
        Position,
        Vec<Position>,
        Vec<Position>,
    ))
        requires
            drunkards_generator_ok(mapgen),
        ensures
            drunkards_result(mapgen.mobs_range, mapgen.items_range, r.0, r.1, r.2@, r.3@),
            r.0.tiles@ == drunkard_tiles(mapgen.rng.0),
    {
        let mobs_range = mapgen.mobs_range;
        let items_range = mapgen.items_range;
        let mut rng = mapgen.rng.0;
        let mut map = blank_map(TileType::Wall, wall_renderable(), MAP_WIDTH, MAP_HEIGHT, true);
        proof {
            assert forall|i: int| 0 <= i < MAP_TILES && on_border(index_x(i), index_y(i)) implies #[trigger] map.tiles@[i]
                == tile_at(i, TileType::Wall, wall_render()) by {}
        }
        let total_tiles = map.width * map.height;
        let desired_floor_tiles = (total_tiles / 3) as usize;
        let mut floor_tile_count = count_floor_tiles(&map.tiles);
        proof {
            lemma_none_of_kind(map.tiles@, TileType::Floor);
        }
        let mut diggers: u64 = 0;
        let ghost rock = map.tiles@;
        proof {
            assert(rock == uniform_tiles(TileType::Wall, wall_render()));
        }
        while floor_tile_count < desired_floor_tiles && diggers < MAX_DIGGERS
            invariant
                dig_until(map.tiles@, rng, diggers as nat) == dig_until(rock, mapgen.rng.0, 0),
                fresh_map(map, MAP_WIDTH as int, MAP_HEIGHT as int, true),
                map.rooms@.len() == 0,
                desired_floor_tiles == MAP_TILES / 3,
                floor_tile_count == floor_count(map.tiles@),
                floor_tile_count < desired_floor_tiles + DIGGER_LIFE + 1,
                forall|i: int|
                    0 <= i < MAP_TILES ==> #[trigger] map.tiles@[i] == tile_at(i, TileType::Wall, wall_render())
                        || map.tiles@[i] == tile_at(i, TileType::Floor, dug_render()),
                forall|i: int|
                    0 <= i < MAP_TILES && on_border(index_x(i), index_y(i)) ==> #[trigger] map.tiles@[i]
                        == tile_at(i, TileType::Wall, wall_render()),
            decreases MAX_DIGGERS - diggers,
        {
            let sx = range_i32(&mut rng, 1, MAP_WIDTH - 1);
            let sy = range_i32(&mut rng, 1, MAP_HEIGHT - 1);
            dig(&mut map, &mut rng, sx, sy);
            floor_tile_count = count_floor_tiles(&map.tiles);
            diggers += 1;
        }
        // Should the diggers ever give up short of the target, the rest is
        // dug out in reading order, row by row inside the outermost ring.
        let ghost dug = map.tiles@;
        proof {
            assert(dig_until(map.tiles@, rng, diggers as nat) == (map.tiles@, rng));
        }
        let mut idx: usize = 0;
        while floor_tile_count < desired_floor_tiles && idx < map.tiles.len()
            invariant
                dig_rest(map.tiles@, idx as nat) == dig_rest(dug, 0),
                dug == dig_until(rock, mapgen.rng.0, 0).0,
                fresh_map(map, MAP_WIDTH as int, MAP_HEIGHT as int, true),
                map.rooms@.len() == 0,
                desired_floor_tiles == MAP_TILES / 3,
                floor_tile_count == floor_count(map.tiles@),
                floor_tile_count < desired_floor_tiles + DIGGER_LIFE + 1,
                idx <= MAP_TILES,
                floor_tile_count < desired_floor_tiles ==> forall|k: int|
                    0 <= k < idx && !on_border(index_x(k), index_y(k)) ==> (#[trigger] map.tiles@[k]).tile
                        == TileType::Floor,
                forall|i: int|
                    0 <= i < MAP_TILES ==> #[trigger] map.tiles@[i] == tile_at(i, TileType::Wall, wall_render())
                        || map.tiles@[i] == tile_at(i, TileType::Floor, dug_render()),
                forall|i: int|
                    0 <= i < MAP_TILES && on_border(index_x(i), index_y(i)) ==> #[trigger] map.tiles@[i]
                        == tile_at(i, TileType::Wall, wall_render()),
            decreases MAP_TILES - idx,
        {
            let (x, y) = idx_xy(idx);
            proof {
                lemma_index_split(idx as int);
            }
            if 1 <= x && x <= MAP_WIDTH - 2 && 1 <= y && y <= MAP_HEIGHT - 2 && map.tiles[idx].tile == TileType::Wall {
                let mut t = map.tiles[idx];
                t.tile = TileType::Floor;
                t.render.glyph = '.';
                let ghost before = map.tiles@;
                map.tiles.set(idx, t);
                proof {
                    lemma_count_update(before, idx as int, t, TileType::Floor);
                }
                floor_tile_count += 1;
            }
            idx += 1;
        }
        proof {
            if floor_tile_count < desired_floor_tiles {
                lemma_interior_floor_count(map.tiles@, MAP_TILES as int);
                lemma_interior_is_large();
            }
            assert forall|i: int| 0 <= i < map.tiles.len() implies (#[trigger] map.tiles@[i]).location == location_of(i) by {}
            lemma_room_left(map.tiles@, centre_start(), Seq::empty());
            assert(dig_rest(map.tiles@, idx as nat) == map.tiles@);
        }
        let player_start_pos = Position { x: MAP_WIDTH / 2, y: MAP_HEIGHT / 2 };
        let (mob_start_pos, item_start_pos) = place_entities(
            &mut rng,
            &map.tiles,
            player_start_pos,
            mobs_range,
            items_range,
        );
        proof {
            if mobs_range.1 + 1 < MAP_TILES / 3 {
                lemma_room_left(map.tiles@, player_start_pos, mob_start_pos@);
            }
        }
        (map, player_start_pos, mob_start_pos, item_start_pos)
    }
}


/// The room sides `MapGenerator::default` allows.
pub open spec fn default_sides() -> (usize, usize) {
    (4usize, 10usize)
}

/// The monster counts `MapGenerator::default` allows.
pub open spec fn default_mobs_range() -> (usize, usize) {
    (1usize, 20usize)
}

/// The item counts `MapGenerator::default` allows.
pub open spec fn default_items_range() -> (usize, usize) {
    (0usize, 13usize)
}

/// What one of the three generators returns with the default parameters.
pub open spec fn random_map_result(map: GameMap, start: Position, mobs: Seq<Position>, items: Seq<Position>) -> bool {
    ||| rooms_and_corridors_result(default_sides(), default_items_range(), map, start, mobs, items)
    ||| drunkards_result(default_mobs_range(), default_items_range(), map, start, mobs, items)
    ||| cellular_result(10usize, default_mobs_range(), default_items_range(), map, start, mobs, items)
}

/// `map` moved to the origin of the world.
pub open spec fn at_origin(map: GameMap) -> GameMap {
    GameMap { world_pos: WorldPosition { x: 0, y: 0, z: 0 }, ..map }
}

impl GameMap {
    /// A rooms-and-corridors map built with the default parameters.
    pub fn default() -> (r: (GameMap, Position, Vec<Position>, Vec<Position>))
        ensures
            rooms_and_corridors_result(default_sides(), default_items_range(), r.0, r.1, r.2@, r.3@),
    {
        let mapgen = MapGenerator::default();
        GameMap::new_map_roomsandcorridors(mapgen)
    }

    /// The map that the roll `roll` of a die chooses to build with `mapgen`:
    /// 1 rooms and corridors, 2 drunkard's walk, any other roll cellular.
    pub fn map_for_roll(roll: i32, mapgen: MapGenerator) -> (r: (GameMap, Position, Vec<Position>, Vec<Position>))
        requires
            rooms_generator_ok(mapgen),
            drunkards_generator_ok(mapgen),
            cellular_generator_ok(mapgen),
        ensures
            roll == 1 ==> rooms_and_corridors_result(
                mapgen.rooms_range->Some_0,
                mapgen.items_range,
                r.0,
                r.1,
                r.2@,
                r.3@,
            ),
            roll == 2 ==> drunkards_result(mapgen.mobs_range, mapgen.items_range, r.0, r.1, r.2@, r.3@),
            roll == 2 ==> r.0.tiles@ == drunkard_tiles(mapgen.rng.0),
            roll != 1 && roll != 2 ==> r.0.tiles@ == planted(mapgen.rng.0, (MAP_TILES / mapgen.cell_density->Some_0) as nat).0,
            roll != 1 && roll != 2 ==> cellular_result(
                mapgen.cell_density->Some_0,
                mapgen.mobs_range,
                mapgen.items_range,
                r.0,
                r.1,
                r.2@,
                r.3@,
            ),
    {
        if roll == 1 {
            GameMap::new_map_roomsandcorridors(mapgen)
        } else if roll == 2 {
            GameMap::new_map_drunkardswalk(mapgen)
        } else {
            GameMap::new_map_cellularautomata(mapgen)
        }
    }

    /// A map built with the default parameters by a generation algorithm
    /// that a roll of one three-sided die chooses (see `map_for_roll`): 1
    /// rooms and corridors, 2 drunkard's walk, 3 cellular.
    pub fn random(rng: &mut RNG) -> (r: (GameMap, Position, Vec<Position>, Vec<Position>))
        ensures
            random_map_result(r.0, r.1, r.2@, r.3@),
            ({
                let roll = dice_roll(old(rng).0, 1, 3).0;
                &&& roll == 1 ==> rooms_and_corridors_result(default_sides(), default_items_range(), r.0, r.1, r.2@, r.3@)
                &&& roll == 2 ==> drunkards_result(default_mobs_range(), default_items_range(), r.0, r.1, r.2@, r.3@)
                &&& roll == 2 ==> r.0.tiles@ == drunkard_tiles(seeded_generator(RNG_SEED))
                &&& roll != 1 && roll != 2 ==> r.0.tiles@ == planted(seeded_generator(RNG_SEED), (MAP_TILES / 10) as nat).0
                &&& roll != 1 && roll != 2 ==> cellular_result(
                    10usize,
                    default_mobs_range(),
                    default_items_range(),
                    r.0,
                    r.1,
                    r.2@,
                    r.3@,
                )
            }),
            final(rng).0 == dice_roll(old(rng).0, 1, 3).1,
    {
        let mapgen = MapGenerator::default();
        let map_type = roll_dice(&mut rng.0, 1, 3);
        GameMap::map_for_roll(map_type, mapgen)
    }
}

} // verus!
