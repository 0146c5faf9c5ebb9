//! Resolving attacks between actors.
use vstd::prelude::*;

use crate::components::{CombatStats, GameState, RunState};
use crate::random::{dice_roll, roll_dice, RNG};

verus! {

/// What an attack left of its target.
#[derive(Clone, Copy, Debug, PartialEq, Eq, Structural)]
pub enum AttackOutcome {
    /// The target still stands.
    Survived,
    /// The player fell: the game is over.
    PlayerDefeated,
    /// A target other than the player fell and leaves the world.
    TargetSlain,
}

/// The outcome for a target left with `hp` hit points.
pub open spec fn outcome_for(hp: int, target_is_player: bool) -> AttackOutcome {
    if hp <= 0 {
        if target_is_player {
            AttackOutcome::PlayerDefeated
        } else {
            AttackOutcome::TargetSlain
        }
    } else {
        AttackOutcome::Survived
    }
}

/// Deals `damage_roll` to `target`; if the player falls, the game is over.
pub fn apply_damage(
    target: &mut CombatStats,
    damage_roll: i32,
    target_is_player: bool,
    game_state: &mut GameState,
) -> (outcome: AttackOutcome)
    requires
        i32::MIN <= old(target).hp - damage_roll <= i32::MAX,
    ensures
        final(target).hp == old(target).hp - damage_roll,
        final(target).max_hp == old(target).max_hp,
        final(target).defense == old(target).defense,
        final(target).power == old(target).power,
        outcome == outcome_for(final(target).hp as int, target_is_player),
        final(game_state).runstate == if outcome == AttackOutcome::PlayerDefeated {
            RunState::GameOver
        } else {
            old(game_state).runstate
        },
{
    target.hp = target.hp - damage_roll;
    if target.hp <= 0 {
        if target_is_player {
            game_state.runstate = RunState::GameOver;
            AttackOutcome::PlayerDefeated
        } else {
            AttackOutcome::TargetSlain
        }
    } else {
        AttackOutcome::Survived
    }
}

/// Resolves an attack of `damage.0` dice of `damage.1` faces on `target`:
/// the target loses what the dice rolled with `rng` show (see `dice_roll`),
/// at least one point per die.
pub fn resolve_attack(
    rng: &mut RNG,
    target: &mut CombatStats,
    damage: (i32, i32),
    target_is_player: bool,
    game_state: &mut GameState,
) -> (outcome: AttackOutcome)
    requires
        damage.0 >= 1 ==> 1 <= damage.1 < i32::MAX && damage.0 * damage.1 <= i32::MAX,
        i32::MIN <= old(target).hp - (if damage.0 >= 1 { damage.0 * damage.1 } else { 0 }),
    ensures
        final(target).hp == old(target).hp - dice_roll(old(rng).0, damage.0, damage.1).0,
        final(rng).0 == dice_roll(old(rng).0, damage.0, damage.1).1,
        damage.0 <= 0 ==> final(target).hp == old(target).hp,
        damage.0 >= 1 ==> old(target).hp - damage.0 * damage.1 <= final(target).hp <= old(target).hp
            - damage.0,
        final(target).max_hp == old(target).max_hp,
        final(target).defense == old(target).defense,
        final(target).power == old(target).power,
        outcome == outcome_for(final(target).hp as int, target_is_player),
        final(game_state).runstate == if outcome == AttackOutcome::PlayerDefeated {
            RunState::GameOver
        } else {
            old(game_state).runstate
        },
{
    let roll = roll_dice(&mut rng.0, damage.0, damage.1);
    apply_damage(target, roll, target_is_player, game_state)
}

} // verus!
