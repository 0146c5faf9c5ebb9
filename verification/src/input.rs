//! The player's commands: what each key pressed in a frame asks for.
use vstd::prelude::*;

use crate::components::{GameLoopState, GameState, InventoryCursor, Point, Position, RunState, WorldPosition};
use crate::map::{is_on_map, on_map, tile_index, xy_idx, lemma_index_join, GameMap, MAP_TILES};
use crate::{MAP_HEIGHT, MAP_WIDTH, WORLD_MAP_HEIGHT, WORLD_MAP_WIDTH};

verus! {

/// The keys the game listens to.
#[derive(Clone, Copy, Debug, PartialEq, Eq, Structural)]
pub enum KeyCode {
    Numpad1,
    Numpad2,
    Numpad3,
    Numpad4,
    Numpad6,
    Numpad7,
    Numpad8,
    Numpad9,
    Z,
    X,
    C,
    A,
    D,
    Q,
    W,
    E,
    Up,
    Down,
    Left,
    Right,
    S,
    G,
    I,
    N,
    Key1,
    Key2,
    Key3,
}

/// Whether `key` was pressed this frame.
pub fn just_pressed(pressed: &Vec<KeyCode>, key: KeyCode) -> (b: bool)
    ensures
        b == pressed@.contains(key),
{
    let mut i: usize = 0;
    while i < pressed.len()
        invariant
            i <= pressed.len(),
            forall|k: int| 0 <= k < i ==> pressed@[k] != key,
        decreases pressed.len() - i,
    {
        if pressed[i] == key {
            return true;
        }
        i += 1;
    }
    false
}

/// The step that the movement keys pressed this frame ask for. Each key
/// sets a column step, a row step or both (up is `+1` in rows); where keys
/// disagree, the later key in the order south-west, south, south-east, west,
/// east, north-west, north, north-east wins.
pub open spec fn movement(p: Seq<KeyCode>) -> Point {
    let sw = p.contains(KeyCode::Numpad1) || p.contains(KeyCode::Z);
    let s = p.contains(KeyCode::Numpad2) || p.contains(KeyCode::X) || p.contains(KeyCode::Down);
    let se = p.contains(KeyCode::Numpad3) || p.contains(KeyCode::C);
    let w = p.contains(KeyCode::Numpad4) || p.contains(KeyCode::A) || p.contains(KeyCode::Left);
    let e = p.contains(KeyCode::Numpad6) || p.contains(KeyCode::D) || p.contains(KeyCode::Right);
    let nw = p.contains(KeyCode::Numpad7) || p.contains(KeyCode::Q);
    let n = p.contains(KeyCode::Numpad8) || p.contains(KeyCode::W) || p.contains(KeyCode::Up);
    let ne = p.contains(KeyCode::Numpad9) || p.contains(KeyCode::E);
    Point {
        x: if ne {
            1i32
        } else if nw {
            -1i32
        } else if e {
            1i32
        } else if w {
            -1i32
        } else if se {
            1i32
        } else if sw {
            -1i32
        } else {
            0i32
        },
        y: if ne || n || nw {
            1i32
        } else if se || s || sw {
            -1i32
        } else {
            0i32
        },
    }
}

/// The step that the movement keys pressed this frame ask for.
pub fn read_movement(pressed: &Vec<KeyCode>) -> (p: Point)
    ensures
        p == movement(pressed@),
{
    let mut p = Point { x: 0, y: 0 };
    if just_pressed(pressed, KeyCode::Numpad1) || just_pressed(pressed, KeyCode::Z) {
        p.x = -1;
        p.y = -1;
    }
    if just_pressed(pressed, KeyCode::Numpad2) || just_pressed(pressed, KeyCode::X) || just_pressed(
        pressed,
        KeyCode::Down,
    ) {
        p.y = -1;
    }
    if just_pressed(pressed, KeyCode::Numpad3) || just_pressed(pressed, KeyCode::C) {
        p.x = 1;
        p.y = -1;
    }
    if just_pressed(pressed, KeyCode::Numpad4) || just_pressed(pressed, KeyCode::A) || just_pressed(
        pressed,
        KeyCode::Left,
    ) {
        p.x = -1;
    }
    if just_pressed(pressed, KeyCode::Numpad6) || just_pressed(pressed, KeyCode::D) || just_pressed(
        pressed,
        KeyCode::Right,
    ) {
        p.x = 1;
    }
    if just_pressed(pressed, KeyCode::Numpad7) || just_pressed(pressed, KeyCode::Q) {
        p.x = -1;
        p.y = 1;
    }
    if just_pressed(pressed, KeyCode::Numpad8) || just_pressed(pressed, KeyCode::W) || just_pressed(
        pressed,
        KeyCode::Up,
    ) {
        p.y = 1;
    }
    if just_pressed(pressed, KeyCode::Numpad9) || just_pressed(pressed, KeyCode::E) {
        p.x = 1;
        p.y = 1;
    }
    p
}

/// What pushing `k` adds to what a sequence of keys contains.
proof fn lemma_push_contains(p: Seq<KeyCode>, k: KeyCode)
    ensures
        forall|j: KeyCode| #[trigger] p.push(k).contains(j) <==> (p.contains(j) || j == k),
{
    assert forall|j: KeyCode| #[trigger] p.push(k).contains(j) <==> (p.contains(j) || j == k) by {
        if p.contains(j) {
            let i = choose|i: int| 0 <= i < p.len() && p[i] == j;
            assert(p.push(k)[i] == j);
        }
        if j == k {
            assert(p.push(k)[p.len() as int] == j);
        }
        if p.push(k).contains(j) {
            let i = choose|i: int| 0 <= i < p.push(k).len() && p.push(k)[i] == j;
            if i < p.len() {
                assert(p[i] == j);
            }
        }
    }
}

/// The keys that ask for a step.
pub open spec fn is_movement_key(k: KeyCode) -> bool {
    ||| k == KeyCode::Numpad1 || k == KeyCode::Z
    ||| k == KeyCode::Numpad2 || k == KeyCode::X || k == KeyCode::Down
    ||| k == KeyCode::Numpad3 || k == KeyCode::C
    ||| k == KeyCode::Numpad4 || k == KeyCode::A || k == KeyCode::Left
    ||| k == KeyCode::Numpad6 || k == KeyCode::D || k == KeyCode::Right
    ||| k == KeyCode::Numpad7 || k == KeyCode::Q
    ||| k == KeyCode::Numpad8 || k == KeyCode::W || k == KeyCode::Up
    ||| k == KeyCode::Numpad9 || k == KeyCode::E
}

/// The letter and arrow keys do what their numpad key does: whatever else
/// is pressed, adding Z is adding Numpad1; X or Down is Numpad2; C is
/// Numpad3; A or Left is Numpad4; D or Right is Numpad6; Q is Numpad7; W or
/// Up is Numpad8; E is Numpad9.
pub proof fn law_movement_aliases(p: Seq<KeyCode>)
    ensures
        movement(p.push(KeyCode::Z)) == movement(p.push(KeyCode::Numpad1)),
        movement(p.push(KeyCode::X)) == movement(p.push(KeyCode::Numpad2)),
        movement(p.push(KeyCode::Down)) == movement(p.push(KeyCode::Numpad2)),
        movement(p.push(KeyCode::C)) == movement(p.push(KeyCode::Numpad3)),
        movement(p.push(KeyCode::A)) == movement(p.push(KeyCode::Numpad4)),
        movement(p.push(KeyCode::Left)) == movement(p.push(KeyCode::Numpad4)),
        movement(p.push(KeyCode::D)) == movement(p.push(KeyCode::Numpad6)),
        movement(p.push(KeyCode::Right)) == movement(p.push(KeyCode::Numpad6)),
        movement(p.push(KeyCode::Q)) == movement(p.push(KeyCode::Numpad7)),
        movement(p.push(KeyCode::W)) == movement(p.push(KeyCode::Numpad8)),
        movement(p.push(KeyCode::Up)) == movement(p.push(KeyCode::Numpad8)),
        movement(p.push(KeyCode::E)) == movement(p.push(KeyCode::Numpad9)),
{
    lemma_push_contains(p, KeyCode::Z);
    lemma_push_contains(p, KeyCode::X);
    lemma_push_contains(p, KeyCode::Down);
    lemma_push_contains(p, KeyCode::C);
    lemma_push_contains(p, KeyCode::A);
    lemma_push_contains(p, KeyCode::Left);
    lemma_push_contains(p, KeyCode::D);
    lemma_push_contains(p, KeyCode::Right);
    lemma_push_contains(p, KeyCode::Q);
    lemma_push_contains(p, KeyCode::W);
    lemma_push_contains(p, KeyCode::Up);
    lemma_push_contains(p, KeyCode::E);
    lemma_push_contains(p, KeyCode::Numpad1);
    lemma_push_contains(p, KeyCode::Numpad2);
    lemma_push_contains(p, KeyCode::Numpad3);
    lemma_push_contains(p, KeyCode::Numpad4);
    lemma_push_contains(p, KeyCode::Numpad6);
    lemma_push_contains(p, KeyCode::Numpad7);
    lemma_push_contains(p, KeyCode::Numpad8);
    lemma_push_contains(p, KeyCode::Numpad9);
}

/// Without movement keys there is no step; one movement key among keys
/// that ask for no step moves one tile its way: Numpad1 south-west (-1, -1),
/// Numpad2 south (0, -1), Numpad3 south-east (1, -1), Numpad4 west (-1, 0),
/// Numpad6 east (1, 0), Numpad7 north-west (-1, 1), Numpad8 north (0, 1),
/// Numpad9 north-east (1, 1).
pub proof fn law_movement_directions(p: Seq<KeyCode>)
    requires
        forall|i: int| 0 <= i < p.len() ==> !is_movement_key(#[trigger] p[i]),
    ensures
        movement(p) == (Point { x: 0, y: 0 }),
        movement(p.push(KeyCode::Numpad1)) == (Point { x: -1i32, y: -1i32 }),
        movement(p.push(KeyCode::Numpad2)) == (Point { x: 0i32, y: -1i32 }),
        movement(p.push(KeyCode::Numpad3)) == (Point { x: 1i32, y: -1i32 }),
        movement(p.push(KeyCode::Numpad4)) == (Point { x: -1i32, y: 0i32 }),
        movement(p.push(KeyCode::Numpad6)) == (Point { x: 1, y: 0 }),
        movement(p.push(KeyCode::Numpad7)) == (Point { x: -1i32, y: 1i32 }),
        movement(p.push(KeyCode::Numpad8)) == (Point { x: 0, y: 1 }),
        movement(p.push(KeyCode::Numpad9)) == (Point { x: 1, y: 1 }),
{
    assert forall|k: KeyCode| is_movement_key(k) implies !p.contains(k) by {
        if p.contains(k) {
            let i = choose|i: int| 0 <= i < p.len() && p[i] == k;
            assert(!is_movement_key(p[i]));
        }
    }
    lemma_push_contains(p, KeyCode::Numpad1);
    lemma_push_contains(p, KeyCode::Numpad2);
    lemma_push_contains(p, KeyCode::Numpad3);
    lemma_push_contains(p, KeyCode::Numpad4);
    lemma_push_contains(p, KeyCode::Numpad6);
    lemma_push_contains(p, KeyCode::Numpad7);
    lemma_push_contains(p, KeyCode::Numpad8);
    lemma_push_contains(p, KeyCode::Numpad9);
}

/// The cursor after Down, with `n` items.
pub open spec fn cursor_down(p: int, n: int) -> int {
    if p + 1 >= n {
        n - 1
    } else {
        p + 1
    }
}

/// The cursor after Up.
pub open spec fn cursor_up(p: int) -> int {
    if p - 1 <= 0 {
        0
    } else {
        p - 1
    }
}

/// The cursor after Left: one column of ten items back.
pub open spec fn cursor_left(p: int) -> int {
    if p - 10 < 0 {
        0
    } else {
        p - 10
    }
}

/// The cursor after Right, with `n` items: one column of ten items on.
pub open spec fn cursor_right(p: int, n: int) -> int {
    if p + 10 > n {
        n - 1
    } else {
        p + 10
    }
}

/// The cursor after each pressed arrow key moved it, in the order Down, Up,
/// Left, Right.
pub open spec fn cursor_moves(p: int, n: int, keys: Seq<KeyCode>) -> (int, int, int, int) {
    let p1 = if keys.contains(KeyCode::Down) { cursor_down(p, n) } else { p };
    let p2 = if keys.contains(KeyCode::Up) { cursor_up(p1) } else { p1 };
    let p3 = if keys.contains(KeyCode::Left) { cursor_left(p2) } else { p2 };
    let p4 = if keys.contains(KeyCode::Right) { cursor_right(p3, n) } else { p3 };
    (p1, p2, p3, p4)
}

/// Every cursor value met while moving it fits an `i32`.
pub open spec fn cursor_moves_fit(p: int, n: int, keys: Seq<KeyCode>) -> bool {
    let (p1, p2, p3, p4) = cursor_moves(p, n, keys);
    &&& keys.contains(KeyCode::Down) ==> p + 1 <= i32::MAX && i32::MIN <= n - 1
    &&& keys.contains(KeyCode::Up) ==> i32::MIN <= p1 - 1
    &&& keys.contains(KeyCode::Left) ==> i32::MIN <= p2 - 10
    &&& keys.contains(KeyCode::Right) ==> p3 + 10 <= i32::MAX && i32::MIN <= n - 1
}

/// Moves the inventory cursor over `num_inventory_items` items with the arrow keys.
pub fn inventory_cursor(cursor: &mut InventoryCursor, num_inventory_items: i32, pressed: &Vec<KeyCode>)
    requires
        cursor_moves_fit(old(cursor).pos as int, num_inventory_items as int, pressed@),
    ensures
        final(cursor).pos == cursor_moves(old(cursor).pos as int, num_inventory_items as int, pressed@).3,
{
    let n = num_inventory_items;
    if just_pressed(pressed, KeyCode::Down) {
        if cursor.pos + 1 >= n {
            cursor.pos = n - 1;
        } else {
            cursor.pos += 1;
        }
    }
    if just_pressed(pressed, KeyCode::Up) {
        if cursor.pos - 1 <= 0 {
            cursor.pos = 0;
        } else {
            cursor.pos -= 1;
        }
    }
    if just_pressed(pressed, KeyCode::Left) {
        if cursor.pos - 10 < 0 {
            cursor.pos = 0;
        } else {
            cursor.pos -= 10;
        }
    }
    if just_pressed(pressed, KeyCode::Right) {
        if cursor.pos + 10 > n {
            cursor.pos = n - 1;
        } else {
            cursor.pos += 10;
        }
    }
}

/// Whether `inventory_cursor` can move the cursor without leaving the
/// range of an `i32`.
pub fn cursor_moves_in_range(pos: i32, num_inventory_items: i32, pressed: &Vec<KeyCode>) -> (ok: bool)
    ensures
        ok == cursor_moves_fit(pos as int, num_inventory_items as int, pressed@),
{
    let n = num_inventory_items as i64;
    let mut p = pos as i64;
    if just_pressed(pressed, KeyCode::Down) {
        if p + 1 > i32::MAX as i64 || n - 1 < i32::MIN as i64 {
            return false;
        }
        p = if p + 1 >= n { n - 1 } else { p + 1 };
    }
    if just_pressed(pressed, KeyCode::Up) {
        if p - 1 < i32::MIN as i64 {
            return false;
        }
        p = if p - 1 <= 0 { 0 } else { p - 1 };
    }
    if just_pressed(pressed, KeyCode::Left) {
        if p - 10 < i32::MIN as i64 {
            return false;
        }
        p = if p - 10 < 0 { 0 } else { p - 10 };
    }
    if just_pressed(pressed, KeyCode::Right) {
        if p + 10 > i32::MAX as i64 || n - 1 < i32::MIN as i64 {
            return false;
        }
    }
    true
}

/// With at least one item and the cursor on one of them, the arrow keys
/// keep the cursor on the items, except that Right may leave it one past the
/// last item (from nine or ten places before it).
pub proof fn law_cursor_stays_near_items(p: int, n: int, keys: Seq<KeyCode>)
    requires
        1 <= n,
        0 <= p < n,
    ensures
        0 <= cursor_moves(p, n, keys).3 <= n,
        !keys.contains(KeyCode::Right) ==> cursor_moves(p, n, keys).3 < n,
{
}

/// What the inventory key asks for.
#[derive(Clone, Copy, Debug, PartialEq, Eq, Structural)]
pub enum InventoryRequest {
    Open,
    Close,
}

/// The inventory key `I` closes the inventory when it is open (and the game
/// runs on), and opens it otherwise.
pub fn player_inventory_screen(
    pressed: &Vec<KeyCode>,
    gamestate: GameLoopState,
    game_state: &mut GameState,
) -> (request: Option<InventoryRequest>)
    ensures
        request == if !pressed@.contains(KeyCode::I) {
            None::<InventoryRequest>
        } else if gamestate == GameLoopState::Inventory {
            Some(InventoryRequest::Close)
        } else {
            Some(InventoryRequest::Open)
        },
        final(game_state).runstate == if request == Some(InventoryRequest::Close) {
            RunState::Running
        } else {
            old(game_state).runstate
        },
{
    if just_pressed(pressed, KeyCode::I) {
        if gamestate == GameLoopState::Inventory {
            game_state.runstate = RunState::Running;
            Some(InventoryRequest::Close)
        } else {
            Some(InventoryRequest::Open)
        }
    } else {
        None
    }
}

/// The wait key `S` ends the player's turn.
pub fn player_wait(pressed: &Vec<KeyCode>, game_state: &mut GameState) -> (next: Option<GameLoopState>)
    ensures
        next == if pressed@.contains(KeyCode::S) {
            Some(GameLoopState::NPCTurn)
        } else {
            None::<GameLoopState>
        },
        final(game_state).runstate == if next is Some {
            RunState::Running
        } else {
            old(game_state).runstate
        },
{
    if !just_pressed(pressed, KeyCode::S) {
        return None;
    }
    game_state.runstate = RunState::Running;
    Some(GameLoopState::NPCTurn)
}

/// On the game-over screen, `N` asks for a new game.
pub fn new_game_requested(pressed: &Vec<KeyCode>) -> (next: Option<GameLoopState>)
    ensures
        next == if pressed@.contains(KeyCode::N) {
            Some(GameLoopState::NewGame)
        } else {
            None::<GameLoopState>
        },
{
    if just_pressed(pressed, KeyCode::N) {
        Some(GameLoopState::NewGame)
    } else {
        None
    }
}

/// The get key `G` asks to pick up what lies where the player stands, and
/// ends the player's turn: the game runs and the NPCs move next.
pub fn player_get_item(pressed: &Vec<KeyCode>, position: Position, game_state: &mut GameState) -> (r: (
    Option<Position>,
    Option<GameLoopState>,
))
    ensures
        r.0 == if pressed@.contains(KeyCode::G) {
            Some(position)
        } else {
            None::<Position>
        },
        r.1 == if r.0 is Some {
            Some(GameLoopState::NPCTurn)
        } else {
            None::<GameLoopState>
        },
        final(game_state).runstate == if r.0 is Some {
            RunState::Running
        } else {
            old(game_state).runstate
        },
{
    if !just_pressed(pressed, KeyCode::G) {
        return (None, None);
    }
    game_state.runstate = RunState::Running;
    (Some(Position { x: position.x, y: position.y }), Some(GameLoopState::NPCTurn))
}

/// The quick slot that the keys `1`, `2`, `3` choose, the first of them
/// pressed winning.
pub open spec fn quick_slot(p: Seq<KeyCode>) -> Option<usize> {
    if p.contains(KeyCode::Key1) {
        Some(0usize)
    } else if p.contains(KeyCode::Key2) {
        Some(1usize)
    } else if p.contains(KeyCode::Key3) {
        Some(2usize)
    } else {
        None
    }
}

/// The quick-slot keys ask to use the item at that place in the player's
/// inventory, if there is one and it has a name; using one ends the turn:
/// the game runs and the NPCs move next.
/// `named[k]` says whether the `k`-th thing the player carries has a name.
pub fn player_use_item(pressed: &Vec<KeyCode>, named: &Vec<bool>, game_state: &mut GameState) -> (r: (
    Option<usize>,
    Option<GameLoopState>,
))
    ensures
        r.0 == match quick_slot(pressed@) {
            Some(k) => if k < named.len() && named@[k as int] {
                Some(k)
            } else {
                None::<usize>
            },
            None => None::<usize>,
        },
        r.1 == if r.0 is Some {
            Some(GameLoopState::NPCTurn)
        } else {
            None::<GameLoopState>
        },
        final(game_state).runstate == if r.0 is Some {
            RunState::Running
        } else {
            old(game_state).runstate
        },
{
    let quick = if just_pressed(pressed, KeyCode::Key1) {
        0
    } else if just_pressed(pressed, KeyCode::Key2) {
        1
    } else if just_pressed(pressed, KeyCode::Key3) {
        2
    } else {
        return (None, None);
    };
    if quick < named.len() && named[quick] {
        game_state.runstate = RunState::Running;
        (Some(quick), Some(GameLoopState::NPCTurn))
    } else {
        (None, None)
    }
}


/// What a step of the player comes to.
#[derive(Clone, Copy, Debug, PartialEq, Eq, Structural)]
pub enum WalkOutcome {
    /// No movement key was pressed.
    Stay,
    /// The step leaves the map: the player goes to the neighbouring map at
    /// `world_pos`, standing at `position` there; a map not generated yet is
    /// generated from `seed`.
    ChangeMap { world_pos: WorldPosition, position: Position, seed: u64 },
    /// The tile stepped onto is blocked: the player attacks whatever stands
    /// at `target`.
    Attack { target: Position },
    /// The player moves to `to`.
    Move { to: Position },
}

/// The world position of the map that a step to `next` off a map at `world`
/// leads to; a step off a corner goes up or down rather than sideways.
pub open spec fn next_map_position(world: WorldPosition, next: (int, int)) -> WorldPosition {
    let w0 = WorldPosition { x: 0, y: 0, z: 0 };
    let w1 = if next.0 < 0 { WorldPosition { x: (world.x - 1) as i32, y: world.y, z: world.z } } else { w0 };
    let w2 = if next.0 > MAP_WIDTH - 1 { WorldPosition { x: (world.x + 1) as i32, y: world.y, z: world.z } } else { w1 };
    let w3 = if next.1 < 0 { WorldPosition { x: world.x, y: (world.y - 1) as i32, z: world.z } } else { w2 };
    if next.1 > MAP_HEIGHT - 1 { WorldPosition { x: world.x, y: (world.y + 1) as i32, z: world.z } } else { w3 }
}

/// Where the player stands on the neighbouring map after stepping from
/// `curr` to `next` off the map: on the opposite edge.
pub open spec fn entry_position(curr: Position, next: (int, int)) -> Position {
    Position {
        x: if next.0 < 0 {
            (MAP_WIDTH - 1) as i32
        } else if next.0 > MAP_WIDTH - 1 {
            (curr.x - MAP_WIDTH + 1) as i32
        } else {
            curr.x
        },
        y: if next.1 < 0 {
            (MAP_HEIGHT - 1) as i32
        } else if next.1 > MAP_HEIGHT - 1 {
            (curr.y - MAP_HEIGHT + 1) as i32
        } else {
            curr.y
        },
    }
}

/// The seed of the map generated when the player steps to `next`.
pub open spec fn map_seed(next: (int, int)) -> u64 {
    (next.0 + WORLD_MAP_WIDTH * next.1 + WORLD_MAP_HEIGHT) as i32 as u64
}

/// What a step by `delta` from `curr` on `map` comes to.
pub open spec fn walk_outcome(map: GameMap, curr: Position, delta: Point) -> WalkOutcome {
    let next = (curr.x + delta.x, curr.y + delta.y);
    if delta.x == 0 && delta.y == 0 {
        WalkOutcome::Stay
    } else if !on_map(next.0, next.1) {
        WalkOutcome::ChangeMap {
            world_pos: next_map_position(map.world_pos, next),
            position: entry_position(curr, next),
            seed: map_seed(next),
        }
    } else if map.blocked_tiles@[tile_index(next.0, next.1)] {
        WalkOutcome::Attack { target: Position { x: next.0 as i32, y: next.1 as i32 } }
    } else {
        WalkOutcome::Move { to: Position { x: next.0 as i32, y: next.1 as i32 } }
    }
}

/// Every value met while stepping fits an `i32` (no step is taken when
/// `delta` is zero).
pub open spec fn walk_fits(map: GameMap, curr: Position, delta: Point) -> bool {
    let next = (curr.x + delta.x, curr.y + delta.y);
    (delta.x == 0 && delta.y == 0) || walk_values_fit(map, curr, next)
}

/// Every value met while stepping from `curr` to `next` fits an `i32`.
pub open spec fn walk_values_fit(map: GameMap, curr: Position, next: (int, int)) -> bool {
    &&& i32::MIN <= next.0 <= i32::MAX
    &&& i32::MIN <= next.1 <= i32::MAX
    &&& !on_map(next.0, next.1) ==> {
        &&& i32::MIN <= WORLD_MAP_WIDTH * next.1 <= i32::MAX
        &&& i32::MIN <= next.0 + WORLD_MAP_WIDTH * next.1 <= i32::MAX
        &&& i32::MIN <= next.0 + WORLD_MAP_WIDTH * next.1 + WORLD_MAP_HEIGHT <= i32::MAX
        &&& next.0 < 0 ==> map.world_pos.x > i32::MIN
        &&& next.0 > MAP_WIDTH - 1 ==> map.world_pos.x < i32::MAX
        &&& next.1 < 0 ==> map.world_pos.y > i32::MIN
        &&& next.1 > MAP_HEIGHT - 1 ==> map.world_pos.y < i32::MAX
        &&& next.0 > MAP_WIDTH - 1 ==> curr.x - MAP_WIDTH + 1 >= i32::MIN
        &&& next.1 > MAP_HEIGHT - 1 ==> curr.y - MAP_HEIGHT + 1 >= i32::MIN
    }
}

/// The player at `curr` on `map` steps by `delta`: off the map to the
/// neighbouring map, into an attack on a blocked tile, or onto a free tile.
pub fn player_walk(map: &GameMap, curr: Position, delta: Point) -> (outcome: WalkOutcome)
    requires
        map.wf(),
        walk_fits(*map, curr, delta),
    ensures
        outcome == walk_outcome(*map, curr, delta),
{
    if delta.x == 0 && delta.y == 0 {
        return WalkOutcome::Stay;
    }
    let next_x = curr.x + delta.x;
    let next_y = curr.y + delta.y;
    if next_x < 0 || next_x > MAP_WIDTH - 1 || next_y < 0 || next_y > MAP_HEIGHT - 1 {
        let mut next_map_pos = WorldPosition { x: 0, y: 0, z: 0 };
        if next_x < 0 {
            next_map_pos = WorldPosition { x: map.world_pos.x - 1, y: map.world_pos.y, z: map.world_pos.z };
        }
        if next_x > MAP_WIDTH - 1 {
            next_map_pos = WorldPosition { x: map.world_pos.x + 1, y: map.world_pos.y, z: map.world_pos.z };
        }
        if next_y < 0 {
            next_map_pos = WorldPosition { x: map.world_pos.x, y: map.world_pos.y - 1, z: map.world_pos.z };
        }
        if next_y > MAP_HEIGHT - 1 {
            next_map_pos = WorldPosition { x: map.world_pos.x, y: map.world_pos.y + 1, z: map.world_pos.z };
        }
        let seed = (next_x + WORLD_MAP_WIDTH * next_y + WORLD_MAP_HEIGHT) as u64;
        let mut pos = curr;
        if next_y > MAP_HEIGHT - 1 {
            pos.y = pos.y - MAP_HEIGHT + 1;
        }
        if next_y < 0 {
            pos.y = MAP_HEIGHT - 1;
        }
        if next_x > MAP_WIDTH - 1 {
            pos.x = pos.x - MAP_WIDTH + 1;
        }
        if next_x < 0 {
            pos.x = MAP_WIDTH - 1;
        }
        return WalkOutcome::ChangeMap { world_pos: next_map_pos, position: pos, seed };
    }
    proof {
        lemma_index_join(next_x as int, next_y as int);
    }
    if map.blocked_tiles[xy_idx(next_x, next_y)] {
        WalkOutcome::Attack { target: Position { x: next_x, y: next_y } }
    } else {
        WalkOutcome::Move { to: Position { x: next_x, y: next_y } }
    }
}

/// How the player's turn ends after a step came to some outcome: the damage
/// range of the attack sent to each enemy on the blocked tile, whether the
/// player's view must be computed again, and the state that comes next.
#[derive(Clone, Copy, Debug)]
pub struct WalkTurn {
    pub attack_damage: Option<(i32, i32)>,
    pub view_dirty: bool,
    pub next: Option<GameLoopState>,
}

/// The end of the turn after a step came to `outcome`, for a player of
/// attack power `power`: standing still or changing map ends nothing; an
/// attack deals `1..=power` to each enemy there, and a move makes the view
/// stale; both end the turn, handing it to the NPCs.
pub open spec fn walk_turn(outcome: WalkOutcome, power: i32) -> WalkTurn {
    match outcome {
        WalkOutcome::Stay => WalkTurn { attack_damage: None, view_dirty: false, next: None },
        WalkOutcome::ChangeMap { .. } => WalkTurn { attack_damage: None, view_dirty: false, next: None },
        WalkOutcome::Attack { .. } => WalkTurn {
            attack_damage: Some((1i32, power)),
            view_dirty: false,
            next: Some(GameLoopState::NPCTurn),
        },
        WalkOutcome::Move { .. } => WalkTurn {
            attack_damage: None,
            view_dirty: true,
            next: Some(GameLoopState::NPCTurn),
        },
    }
}

/// Ends the player's turn after a step came to `outcome` (see `walk_turn`);
/// when the turn ends, the game runs.
pub fn end_walk_turn(outcome: &WalkOutcome, power: i32, game_state: &mut GameState) -> (turn: WalkTurn)
    ensures
        turn == walk_turn(*outcome, power),
        final(game_state).runstate == if turn.next is Some {
            RunState::Running
        } else {
            old(game_state).runstate
        },
{
    match outcome {
        WalkOutcome::Stay => WalkTurn { attack_damage: None, view_dirty: false, next: None },
        WalkOutcome::ChangeMap { .. } => WalkTurn { attack_damage: None, view_dirty: false, next: None },
        WalkOutcome::Attack { .. } => {
            game_state.runstate = RunState::Running;
            WalkTurn { attack_damage: Some((1, power)), view_dirty: false, next: Some(GameLoopState::NPCTurn) }
        },
        WalkOutcome::Move { .. } => {
            game_state.runstate = RunState::Running;
            WalkTurn { attack_damage: None, view_dirty: true, next: Some(GameLoopState::NPCTurn) }
        },
    }
}

/// The enemies among `enemies` whose tile index is that of `target`, in
/// order (an enemy off the map whose index happens to match counts too).
pub fn enemies_at(enemies: &Vec<Position>, target: Position) -> (hit: Vec<usize>)
    ensures
        forall|j: int| 0 <= j < hit.len() ==> #[trigger] hit@[j] < enemies.len() && tile_index(
            enemies@[hit@[j] as int].x as int,
            enemies@[hit@[j] as int].y as int,
        ) == tile_index(target.x as int, target.y as int),
        forall|j: int, l: int| 0 <= j < l < hit.len() ==> #[trigger] hit@[j] < #[trigger] hit@[l],
        forall|k: int|
            0 <= k < enemies.len() && tile_index(#[trigger] enemies@[k].x as int, enemies@[k].y as int) == tile_index(
                target.x as int,
                target.y as int,
            ) ==> hit@.contains(k as usize),
{
    let mut hit: Vec<usize> = Vec::new();
    let target_idx: i64 = target.y as i64 * 80 + target.x as i64;
    let mut k: usize = 0;
    while k < enemies.len()
        invariant
            k <= enemies.len(),
            target_idx == tile_index(target.x as int, target.y as int),
            forall|j: int| 0 <= j < hit.len() ==> #[trigger] hit@[j] < k && tile_index(
                enemies@[hit@[j] as int].x as int,
                enemies@[hit@[j] as int].y as int,
            ) == tile_index(target.x as int, target.y as int),
            forall|j: int, l: int| 0 <= j < l < hit.len() ==> #[trigger] hit@[j] < #[trigger] hit@[l],
            forall|m: int|
                0 <= m < k && tile_index(#[trigger] enemies@[m].x as int, enemies@[m].y as int) == tile_index(
                    target.x as int,
                    target.y as int,
                ) ==> hit@.contains(m as usize),
        decreases enemies.len() - k,
    {
        let e = enemies[k];
        let ghost old_hit = hit@;
        let e_idx: i64 = e.y as i64 * 80 + e.x as i64;
        assert(e_idx == tile_index(e.x as int, e.y as int));
        if e_idx == target_idx {
            hit.push(k);
            assert(hit@[hit.len() - 1] == k);
        }
        proof {
            assert forall|m: int|
                0 <= m < k + 1 && tile_index(#[trigger] enemies@[m].x as int, enemies@[m].y as int) == tile_index(
                    target.x as int,
                    target.y as int,
                ) implies hit@.contains(m as usize) by {
                if m < k {
                    let w = choose|w: int| 0 <= w < old_hit.len() && old_hit[w] == m as usize;
                    assert(hit@[w] == old_hit[w]);
                }
            }
        }
        k += 1;
    }
    hit
}


/// A single step off the map from a tile on it lands the player on the
/// neighbouring map's opposite edge, on that map.
pub proof fn law_entry_on_map(curr: Position, delta: Point)
    requires
        on_map(curr.x as int, curr.y as int),
        -1 <= delta.x <= 1,
        -1 <= delta.y <= 1,
        !on_map(curr.x + delta.x, curr.y + delta.y),
    ensures
        on_map(
            entry_position(curr, (curr.x + delta.x, curr.y + delta.y)).x as int,
            entry_position(curr, (curr.x + delta.x, curr.y + delta.y)).y as int,
        ),
{
}

/// Where the player at `curr` stands once a step has come to `outcome`.
pub open spec fn position_after_walk(curr: Position, outcome: WalkOutcome) -> Position {
    match outcome {
        WalkOutcome::Stay => curr,
        WalkOutcome::ChangeMap { position, .. } => position,
        WalkOutcome::Attack { .. } => curr,
        WalkOutcome::Move { to } => to,
    }
}

/// The player stays on the map: a step of at most one tile each way from a
/// tile on the map, on a map that lies away from the ends of the world's
/// `i32` coordinates, can always be taken, and whatever it comes to (no
/// move, a move, an attack or a change of map) the player stands on a tile
/// of a map afterwards.
pub proof fn law_walk_stays_on_map(map: GameMap, curr: Position, delta: Point)
    requires
        on_map(curr.x as int, curr.y as int),
        -1 <= delta.x <= 1,
        -1 <= delta.y <= 1,
        i32::MIN < map.world_pos.x < i32::MAX,
        i32::MIN < map.world_pos.y < i32::MAX,
    ensures
        walk_fits(map, curr, delta),
        on_map(
            position_after_walk(curr, walk_outcome(map, curr, delta)).x as int,
            position_after_walk(curr, walk_outcome(map, curr, delta)).y as int,
        ),
{
    if !on_map(curr.x + delta.x, curr.y + delta.y) && !(delta.x == 0 && delta.y == 0) {
        law_entry_on_map(curr, delta);
    }
}

fn in_i32(v: i64) -> (b: bool)
    ensures
        b == (i32::MIN <= v <= i32::MAX),
{
    i32::MIN as i64 <= v && v <= i32::MAX as i64
}

/// Whether `player_walk` can take this step without any value leaving the
/// range of an `i32`.
pub fn walk_in_range(map: &GameMap, curr: Position, delta: Point) -> (ok: bool)
    ensures
        ok == walk_fits(*map, curr, delta),
{
    if delta.x == 0 && delta.y == 0 {
        return true;
    }
    let nx = curr.x as i64 + delta.x as i64;
    let ny = curr.y as i64 + delta.y as i64;
    if !(in_i32(nx) && in_i32(ny)) {
        return false;
    }
    if is_on_map(nx as i32, ny as i32) {
        return true;
    }
    let w = WORLD_MAP_WIDTH as i64;
    let h = WORLD_MAP_HEIGHT as i64;
    in_i32(w * ny) && in_i32(nx + w * ny) && in_i32(nx + w * ny + h)
        && (nx >= 0 || map.world_pos.x > i32::MIN)
        && (nx <= (MAP_WIDTH - 1) as i64 || map.world_pos.x < i32::MAX)
        && (ny >= 0 || map.world_pos.y > i32::MIN)
        && (ny <= (MAP_HEIGHT - 1) as i64 || map.world_pos.y < i32::MAX)
        && (nx <= (MAP_WIDTH - 1) as i64 || curr.x as i64 - MAP_WIDTH as i64 + 1 >= i32::MIN as i64)
        && (ny <= (MAP_HEIGHT - 1) as i64 || curr.y as i64 - MAP_HEIGHT as i64 + 1 >= i32::MIN as i64)
}

} // verus!
