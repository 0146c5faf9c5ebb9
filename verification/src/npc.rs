//! Non-player characters: what they are, and how they decide what to do.
use vstd::prelude::*;

use crate::components::{CombatStats, Color, Name, Point, Position, Renderable, Viewshed, WorldPosition};
use crate::random::{dice_roll, roll_dice, RNG};
use rltk::RandomNumberGenerator;
use crate::{MAP_HEIGHT, MAP_WIDTH};

verus! {

/// The kind of a non-player character.
#[derive(Clone, Copy, Debug, PartialEq, Eq, Structural)]
pub enum NPC_Type {
    Enemy,
}

/// Whether a non-player character acts.
#[derive(Clone, Copy, Debug, PartialEq, Eq, Structural)]
pub enum NPC_AI_State {
    /// It does not act until it sees the player.
    Inactive,
    /// It hunts the player.
    Active,
}

/// The mind of a non-player character.
#[derive(Clone, Copy, Debug, PartialEq, Eq, Structural)]
pub struct NPC_AI {
    pub state: NPC_AI_State,
}

/// Marks hostile characters.
#[derive(Clone, Copy, Debug, PartialEq, Eq, Structural)]
pub struct Enemy;

/// Everything a non-player character starts with.
#[derive(Clone, Debug)]
pub struct NPCBundle {
    pub name: Name,
    pub marker: NPC_Type,
    pub viewshed: Viewshed,
    pub position: Position,
    pub world_pos: WorldPosition,
    pub renderable: Renderable,
    pub stats: CombatStats,
    pub ai: NPC_AI,
}

/// The parts of a non-player character that do not depend on which one it is.
pub open spec fn npc_basics(b: NPCBundle) -> bool {
    &&& b.marker == NPC_Type::Enemy
    &&& b.viewshed.visible_tiles@.len() == 0
    &&& b.viewshed.range == 3
    &&& b.viewshed.dirty
    &&& b.stats == (CombatStats { max_hp: 5, hp: 5, defense: 0, power: 5 })
    &&& b.ai == (NPC_AI { state: NPC_AI_State::Inactive })
}

impl Default for NPCBundle {
    /// An inactive yellow `X` named "NPC" at the centre of the map at the
    /// world's origin, with 5 hit points and 5 power.
    fn default() -> (b: NPCBundle)
        ensures
            npc_basics(b),
            b.name.0@ == "NPC"@,
            b.position == (Position { x: (MAP_WIDTH / 2) as i32, y: (MAP_HEIGHT / 2) as i32 }),
            b.world_pos == (WorldPosition { x: 0, y: 0, z: 0 }),
            b.renderable == (Renderable { glyph: 'X', fg: Color::Yellow, bg: Color::Black }),
    {
        NPCBundle {
            name: Name("NPC".to_owned()),
            marker: NPC_Type::Enemy,
            viewshed: Viewshed { visible_tiles: Vec::new(), range: 3, dirty: true },
            position: Position { x: MAP_WIDTH / 2, y: MAP_HEIGHT / 2 },
            renderable: Renderable { glyph: 'X', fg: Color::Yellow, bg: Color::Black },
            stats: CombatStats { max_hp: 5, hp: 5, defense: 0, power: 5 },
            ai: NPC_AI { state: NPC_AI_State::Inactive },
            world_pos: WorldPosition { x: 0, y: 0, z: 0 },
        }
    }
}

/// The monster a roll of a two-sided die gives: a goblin on 1, an orc on 2.
pub open spec fn mob_for_roll(roll: int) -> (char, Seq<char>) {
    if roll == 1 {
        ('G', "Goblin"@)
    } else if roll == 2 {
        ('O', "Orc"@)
    } else {
        ('X', "Xenity"@)
    }
}

/// The monster that the roll `roll` chooses, at `position` on the map at `world_pos`.
pub fn mob_from_roll(roll: i32, position: Position, world_pos: WorldPosition) -> (b: NPCBundle)
    ensures
        npc_basics(b),
        b.renderable == (Renderable { glyph: mob_for_roll(roll as int).0, fg: Color::Yellow, bg: Color::Black }),
        b.name.0@ == mob_for_roll(roll as int).1,
        b.position == position,
        b.world_pos == world_pos,
{
    let (glyph, name) = if roll == 1 {
        ('G', "Goblin".to_owned())
    } else if roll == 2 {
        ('O', "Orc".to_owned())
    } else {
        ('X', "Xenity".to_owned())
    };
    let base = NPCBundle::default();
    NPCBundle {
        name: Name(name),
        position,
        renderable: Renderable { glyph, fg: Color::Yellow, bg: Color::Black },
        world_pos,
        ..base
    }
}

/// A goblin or an orc at `position` on the map at `world_pos`.
pub open spec fn random_mob_at(b: NPCBundle, position: Position, world_pos: WorldPosition) -> bool {
    &&& npc_basics(b)
    &&& exists|roll: int|
        1 <= roll <= 2 && b.renderable == (Renderable {
            glyph: mob_for_roll(roll).0,
            fg: Color::Yellow,
            bg: Color::Black,
        }) && b.name.0@ == mob_for_roll(roll).1
    &&& b.position == position
    &&& b.world_pos == world_pos
}

/// The state of a generator that started in state `g` after `k` rolls of
/// one two-sided die, one per monster.
pub open spec fn after_mob_rolls(g: RandomNumberGenerator, k: nat) -> RandomNumberGenerator
    decreases k,
{
    if k == 0 {
        g
    } else {
        dice_roll(after_mob_rolls(g, (k - 1) as nat), 1, 2).1
    }
}

/// The roll that chooses the `k`-th of several monsters rolled one after the
/// other from a generator in state `g`.
pub open spec fn mob_roll(g: RandomNumberGenerator, k: nat) -> int {
    dice_roll(after_mob_rolls(g, k), 1, 2).0 as int
}

/// Whether `b` looks like and is named as the monster that `roll` chooses.
pub open spec fn mob_rolled(b: NPCBundle, roll: int) -> bool {
    &&& b.renderable == (Renderable { glyph: mob_for_roll(roll).0, fg: Color::Yellow, bg: Color::Black })
    &&& b.name.0@ == mob_for_roll(roll).1
}

/// Rolling monsters one after the other threads one generator through them:
/// `n` rolls and then `m` more leave it as `n + m` rolls do, and the `m`
/// later monsters are chosen by the rolls that follow the first `n`.
pub proof fn law_mob_rolls_chain(g: RandomNumberGenerator, n: nat, m: nat)
    ensures
        after_mob_rolls(after_mob_rolls(g, n), m) == after_mob_rolls(g, n + m),
        forall|k: nat| k < m ==> #[trigger] mob_roll(after_mob_rolls(g, n), k) == mob_roll(g, n + k),
    decreases m,
{
    if m > 0 {
        law_mob_rolls_chain(g, n, (m - 1) as nat);
    }
    assert forall|k: nat| k < m implies #[trigger] mob_roll(after_mob_rolls(g, n), k) == mob_roll(g, n + k) by {
        lemma_mob_rolls_add(g, n, k);
    }
}

proof fn lemma_mob_rolls_add(g: RandomNumberGenerator, n: nat, k: nat)
    ensures
        after_mob_rolls(after_mob_rolls(g, n), k) == after_mob_rolls(g, n + k),
    decreases k,
{
    if k > 0 {
        lemma_mob_rolls_add(g, n, (k - 1) as nat);
        assert((n + k - 1) as nat == n + (k - 1) as nat);
    }
}

/// Rolls a random monster, a goblin or an orc, at `position` on the map at
/// `world_pos`: a two-sided die rolled with `rng` chooses (see `dice_roll`).
pub fn spawn_random_mob(position: Position, rng: &mut RNG, world_pos: WorldPosition) -> (b: NPCBundle)
    ensures
        random_mob_at(b, position, world_pos),
        ({
            let roll = dice_roll(old(rng).0, 1, 2).0 as int;
            &&& b.renderable == (Renderable { glyph: mob_for_roll(roll).0, fg: Color::Yellow, bg: Color::Black })
            &&& b.name.0@ == mob_for_roll(roll).1
        }),
        final(rng).0 == dice_roll(old(rng).0, 1, 2).1,
{
    let roll = roll_dice(&mut rng.0, 1, 2);
    let b = mob_from_roll(roll, position, world_pos);
    assert(b.name.0@ == mob_for_roll(roll as int).1);
    assert(random_mob_at(b, position, world_pos));
    b
}

/// What a non-player character says.
#[derive(Clone, Copy, Debug, PartialEq, Eq, Structural)]
pub enum NpcSpeech {
    Greeting,
    Attack,
}

impl NpcSpeech {
    /// The words spoken.
    pub open spec fn words(self) -> Seq<char> {
        match self {
            NpcSpeech::Greeting => "Hello, World!"@,
            NpcSpeech::Attack => "Attack!"@,
        }
    }

    /// The words spoken.
    pub fn text(&self) -> (t: &'static str)
        ensures
            t@ == self.words(),
    {
        match self {
            NpcSpeech::Greeting => "Hello, World!",
            NpcSpeech::Attack => "Attack!",
        }
    }
}

/// Words spoken, and where they are written.
#[derive(Clone, Copy, Debug, PartialEq, Eq, Structural)]
pub struct Utterance {
    pub speech: NpcSpeech,
    pub at: Point,
}

/// What a non-player character decided in one turn.
#[derive(Clone, Copy, Debug, PartialEq, Eq, Structural)]
pub struct NpcDecision {
    /// Its state afterwards.
    pub state: NPC_AI_State,
    /// What it says, and where the words are written.
    pub speech: Option<Utterance>,
    /// Whether it searches a path toward the player and takes its first step.
    pub chase: bool,
}

/// Where the words of a character standing at `pos` are written: centred
/// above-right by half their length in bytes, two rows down.
pub open spec fn speech_at(pos: Position, half_len: int) -> Point {
    Point { x: (pos.x - half_len) as i32, y: (pos.y + 2) as i32 }
}

/// Whether the player is next to the character in the game's measure: the
/// differences of the columns and of the rows add up to at most 1 either way.
pub open spec fn player_adjacent(pos: Position, player: Position) -> bool {
    -1 <= (pos.x - player.x) + (pos.y - player.y) <= 1
}

/// The coordinates on which this decision is taken: those on which the
/// game's single-precision arithmetic on them is exact.
pub open spec fn coordinate_ok(v: i32) -> bool {
    -0x40_0000 <= v <= 0x40_0000
}

/// The coordinates on which one turn can be taken: an inactive character
/// that wakes needs room for its greeting above and to the left of it; an
/// active one needs every coordinate where single-precision arithmetic on
/// it is exact.
pub open spec fn npc_step_ok(state: NPC_AI_State, pos: Position, player: Position, sees_player: bool) -> bool {
    match state {
        NPC_AI_State::Inactive => sees_player ==> pos.x - 6 >= i32::MIN && pos.y + 2 <= i32::MAX,
        NPC_AI_State::Active => {
            &&& coordinate_ok(pos.x)
            &&& coordinate_ok(pos.y)
            &&& coordinate_ok(player.x)
            &&& coordinate_ok(player.y)
        },
    }
}

/// Whether `npc_ai_step` can take this turn (see `npc_step_ok`).
pub fn npc_step_in_range(state: NPC_AI_State, pos: Position, player: Position, sees_player: bool) -> (ok: bool)
    ensures
        ok == npc_step_ok(state, pos, player, sees_player),
{
    match state {
        NPC_AI_State::Inactive => !sees_player || (pos.x >= i32::MIN + 6 && pos.y <= i32::MAX - 2),
        NPC_AI_State::Active => {
            -0x40_0000 <= pos.x && pos.x <= 0x40_0000 && -0x40_0000 <= pos.y && pos.y <= 0x40_0000
                && -0x40_0000 <= player.x && player.x <= 0x40_0000 && -0x40_0000 <= player.y && player.y
                <= 0x40_0000
        },
    }
}

/// The decision of one turn; see `npc_ai_step`.
pub open spec fn npc_decision(state: NPC_AI_State, pos: Position, player: Position, sees_player: bool) -> NpcDecision {
    match state {
        NPC_AI_State::Inactive => if sees_player {
            NpcDecision {
                state: NPC_AI_State::Active,
                speech: Some(Utterance { speech: NpcSpeech::Greeting, at: speech_at(pos, 6) }),
                chase: false,
            }
        } else {
            NpcDecision { state, speech: None, chase: false }
        },
        NPC_AI_State::Active => if player_adjacent(pos, player) {
            NpcDecision { state, speech: Some(Utterance { speech: NpcSpeech::Attack, at: speech_at(pos, 3) }), chase: false }
        } else {
            NpcDecision { state, speech: None, chase: sees_player }
        },
    }
}

/// One turn of a non-player character at `pos`, in `state`, with the player
/// at `player`, which it sees or not. An inactive character that sees the
/// player wakes and greets. An active character next to the player shouts
/// "Attack!"; otherwise, if it sees the player, it chases.
pub fn npc_ai_step(state: NPC_AI_State, pos: Position, player: Position, sees_player: bool) -> (d: NpcDecision)
    requires
        npc_step_ok(state, pos, player, sees_player),
    ensures
        d == npc_decision(state, pos, player, sees_player),
{
    match state {
        NPC_AI_State::Inactive => {
            if sees_player {
                let text = NpcSpeech::Greeting.text();
                proof {
                    reveal_strlit("Hello, World!");
                }
                let half = (text.unicode_len() / 2) as i32;
                NpcDecision {
                    state: NPC_AI_State::Active,
                    speech: Some(Utterance { speech: NpcSpeech::Greeting, at: Point { x: pos.x - half, y: pos.y + 1 + 1 } }),
                    chase: false,
                }
            } else {
                NpcDecision { state, speech: None, chase: false }
            }
        },
        NPC_AI_State::Active => {
            let gap = (pos.x as i64 - player.x as i64) + (pos.y as i64 - player.y as i64);
            if -1 <= gap && gap <= 1 {
                let text = NpcSpeech::Attack.text();
                proof {
                    reveal_strlit("Attack!");
                }
                let half = (text.unicode_len() / 2) as i32;
                NpcDecision {
                    state,
                    speech: Some(Utterance { speech: NpcSpeech::Attack, at: Point { x: pos.x - half, y: pos.y + 1 + 1 } }),
                    chase: false,
                }
            } else {
                NpcDecision { state, speech: None, chase: sees_player }
            }
        },
    }
}

/// The position a chasing character moves to: the second step of a
/// successful path of at least two steps, split into column and row by the
/// map's width; nowhere if the search failed or the path is shorter.
pub fn follow_path(success: bool, steps: &Vec<usize>, width: i32) -> (next: Option<Position>)
    requires
        width >= 1,
        success && steps.len() > 1 ==> steps@[1] <= i32::MAX,
    ensures
        next == if success && steps.len() > 1 {
            Some(Position {
                x: (steps@[1] as int % width as int) as i32,
                y: (steps@[1] as int / width as int) as i32,
            })
        } else {
            None::<Position>
        },
{
    if success && steps.len() > 1 {
        let step = steps[1] as i32;
        Some(Position { x: step % width, y: step / width })
    } else {
        None
    }
}


/// Once active, a character stays active, and only a character that sees
/// the player wakes up.
pub proof fn law_npc_wakes_only_on_sight(d: NpcDecision, state: NPC_AI_State, pos: Position, player: Position, sees_player: bool)
    requires
        d == npc_decision(state, pos, player, sees_player),
    ensures
        state == NPC_AI_State::Active ==> d.state == NPC_AI_State::Active,
        state == NPC_AI_State::Inactive && d.state == NPC_AI_State::Active ==> sees_player,
        d.chase ==> sees_player && state == NPC_AI_State::Active,
{
}

/// An active character shouts "Attack!" exactly when the player is next to
/// it, that is when the column difference plus the row difference lies
/// between -1 and 1: then it neither chases nor moves on; otherwise it says
/// nothing and chases if it sees the player.
pub proof fn law_active_attacks_when_adjacent(d: NpcDecision, pos: Position, player: Position, sees_player: bool)
    requires
        d == npc_decision(NPC_AI_State::Active, pos, player, sees_player),
    ensures
        d.state == NPC_AI_State::Active,
        (d.speech is Some) <==> -1 <= (pos.x - player.x) + (pos.y - player.y) <= 1,
        d.speech is Some ==> d.speech->Some_0.speech == NpcSpeech::Attack && d.speech->Some_0.at == (Point {
            x: (pos.x - 3) as i32,
            y: (pos.y + 2) as i32,
        }) && !d.chase,
        d.speech is None ==> d.chase == sees_player,
{
}

/// The test of nearness does not depend on the side the player stands on:
/// a player at `player` and a player at the mirror image of `player` through
/// the character get the same decision from an active character.
pub proof fn law_adjacency_is_symmetric(pos: Position, player: Position, mirrored: Position, sees_player: bool)
    requires
        mirrored.x == 2 * pos.x - player.x,
        mirrored.y == 2 * pos.y - player.y,
    ensures
        npc_decision(NPC_AI_State::Active, pos, player, sees_player) == npc_decision(
            NPC_AI_State::Active,
            pos,
            mirrored,
            sees_player,
        ),
{
}

} // verus!
