//! Plain data carried by the game's entities.
use vstd::prelude::*;

use crate::{MAP_HEIGHT, MAP_WIDTH};

verus! {

/// Location of an entity on its map, in tiles.
#[derive(Clone, Copy, Debug, PartialEq, Eq, Structural)]
pub struct Position {
    pub x: i32,
    pub y: i32,
}

/// Location of a map in the world, in maps.
#[derive(Clone, Copy, Debug, PartialEq, Eq, Structural)]
pub struct WorldPosition {
    pub x: i32,
    pub y: i32,
    pub z: i32,
}

/// A point on a map, as the field-of-view and path searches report them.
#[derive(Clone, Copy, Debug, PartialEq, Eq, Structural)]
pub struct Point {
    pub x: i32,
    pub y: i32,
}

impl Point {
    /// The point `(x, y)`.
    pub fn new(x: i32, y: i32) -> (p: Point)
        ensures
            p == (Point { x, y }),
    {
        Point { x, y }
    }
}

/// The named colours the game draws with.
#[derive(Clone, Copy, Debug, PartialEq, Eq, Structural)]
pub enum Color {
    Black,
    White,
    Gray,
    DarkGray,
    DarkGreen,
    LimeGreen,
    SeaGreen,
    Yellow,
    Orange,
    Red,
    Crimson,
    Maroon,
    Blue,
    Purple,
    AntiqueWhite,
}

/// How an entity or a tile is drawn: a glyph and its colours.
#[derive(Clone, Copy, Debug, PartialEq, Eq, Structural)]
pub struct Renderable {
    pub glyph: char,
    pub fg: Color,
    pub bg: Color,
}

/// What an entity sees: the points in view, the view's radius, and whether
/// it must be drawn again.
#[derive(Clone, Debug)]
pub struct Viewshed {
    pub visible_tiles: Vec<Point>,
    pub range: i32,
    pub dirty: bool,
}

/// Display name of an entity.
#[derive(Clone, Debug)]
pub struct Name(pub String);

/// Fighting statistics of an actor, or the bonus an equipment item gives.
#[derive(Clone, Copy, Debug, PartialEq, Eq, Structural)]
pub struct CombatStats {
    pub max_hp: i32,
    pub hp: i32,
    pub defense: i32,
    pub power: i32,
}

/// A wearable or wieldable item: the statistics it adds to its bearer.
#[derive(Clone, Copy, Debug, PartialEq, Eq, Structural)]
pub struct EquipmentBundle {
    pub stat_bonus: CombatStats,
}

/// A drinkable item that restores hit points.
#[derive(Clone, Copy, Debug, PartialEq, Eq, Structural)]
pub struct HealthPotion {
    pub heal_amount: i32,
}

/// The phases of the game loop.
#[derive(Clone, Copy, Debug, PartialEq, Eq, Structural)]
pub enum GameLoopState {
    Initialization,
    NewGame,
    PlayerTurn,
    Inventory,
    NPCTurn,
    Defeat,
}

impl Default for GameLoopState {
    fn default() -> (s: GameLoopState)
        ensures
            s == GameLoopState::Initialization,
    {
        GameLoopState::Initialization
    }
}

/// Whether the game runs, waits or has ended.
#[derive(Clone, Copy, Debug, PartialEq, Eq, Structural)]
pub enum RunState {
    Paused,
    Running,
    GameOver,
}

/// The run state of the game.
#[derive(Clone, Copy, Debug, PartialEq, Eq, Structural)]
pub struct GameState {
    pub runstate: RunState,
}


/// The cursor of the inventory screen: the position of the selected item.
#[derive(Clone, Copy, Debug, PartialEq, Eq, Structural)]
pub struct InventoryCursor {
    pub pos: i32,
}

/// Everything the player starts with.
#[derive(Clone, Debug)]
pub struct PlayerBundle {
    pub name: Name,
    pub viewshed: Viewshed,
    pub position: Position,
    pub renderable: Renderable,
    pub stats: CombatStats,
    pub world_pos: WorldPosition,
}

/// The parts of the player that do not depend on where the player starts.
pub open spec fn player_basics(b: PlayerBundle) -> bool {
    &&& b.name.0@ == "Hero"@
    &&& b.viewshed.visible_tiles@.len() == 0
    &&& b.viewshed.range == 3
    &&& b.viewshed.dirty
    &&& b.renderable == (Renderable { glyph: '@', fg: Color::LimeGreen, bg: Color::Black })
    &&& b.stats == (CombatStats { max_hp: 30, hp: 30, defense: 2, power: 5 })
    &&& b.world_pos == (WorldPosition { x: 0, y: 0, z: 0 })
}

impl Default for PlayerBundle {
    /// A lime-green `@` named "Hero" at the centre of the map at the world's
    /// origin, with 30 hit points, defence 2 and power 5.
    fn default() -> (b: PlayerBundle)
        ensures
            player_basics(b),
            b.position == (Position { x: (MAP_WIDTH / 2) as i32, y: (MAP_HEIGHT / 2) as i32 }),
    {
        PlayerBundle {
            name: Name("Hero".to_owned()),
            viewshed: Viewshed { visible_tiles: Vec::new(), range: 3, dirty: true },
            position: Position { x: MAP_WIDTH / 2, y: MAP_HEIGHT / 2 },
            renderable: Renderable { glyph: '@', fg: Color::LimeGreen, bg: Color::Black },
            stats: CombatStats { max_hp: 30, hp: 30, defense: 2, power: 5 },
            world_pos: WorldPosition { x: 0, y: 0, z: 0 },
        }
    }
}

/// The player, starting at `position`.
pub fn spawn_player(position: Position) -> (b: PlayerBundle)
    ensures
        player_basics(b),
        b.position == position,
{
    PlayerBundle { position, ..PlayerBundle::default() }
}

} // verus!
