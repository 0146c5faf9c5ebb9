//! The game's source of chance: rltk's seeded xorshift generator.
use vstd::prelude::*;

use rltk::RandomNumberGenerator;

verus! {

/// rltk's random number generator, carried through the logic as an opaque value.
#[verifier::external_type_specification]
#[verifier::external_body]
pub struct ExRandomNumberGenerator(rltk::RandomNumberGenerator);

/// The world's random number generator.
pub struct RNG(pub RandomNumberGenerator);

/// The generator that `RandomNumberGenerator::seeded` builds from a seed.
pub uninterp spec fn seeded_generator(seed: u64) -> RandomNumberGenerator;

/// Calls `RandomNumberGenerator::seeded`, which seeds an xorshift generator
/// with `seed` alone: the same seed gives the same generator.
#[verifier::external_body]
pub(crate) fn rng_seeded(seed: u64) -> (rng: RandomNumberGenerator)
    ensures
        rng == seeded_generator(seed),
{
    RandomNumberGenerator::seeded(seed)
}

/// What `RandomNumberGenerator::roll_dice` gives from a generator in state
/// `rng`: the total of `n` dice of `die_type` faces, and the generator's
/// state afterwards. The xorshift draws depend on the state and the
/// arguments alone.
pub uninterp spec fn dice_roll(rng: RandomNumberGenerator, n: i32, die_type: i32) -> (i32, RandomNumberGenerator);

/// What `RandomNumberGenerator::range::<i32>` gives from a generator in
/// state `rng`: a value in `min..max`, and the generator's state afterwards.
/// The draw (through `u32` samples) depends on the state and the arguments
/// alone.
pub uninterp spec fn range_i32_draw(rng: RandomNumberGenerator, min: i32, max: i32) -> (i32, RandomNumberGenerator);

/// Calls `RandomNumberGenerator::roll_dice`, which sums `n` draws of
/// `range(1, die_type + 1)`. No dice give 0; otherwise every die shows a
/// value in `1..=die_type`, so the total lies in `n..=n * die_type`. The
/// total and the state left behind are those `dice_roll` names.
#[verifier::external_body]
pub(crate) fn roll_dice(rng: &mut RandomNumberGenerator, n: i32, die_type: i32) -> (total: i32)
    requires
        n >= 1 ==> 1 <= die_type < i32::MAX && n * die_type <= i32::MAX,
    ensures
        total == dice_roll(*old(rng), n, die_type).0,
        *final(rng) == dice_roll(*old(rng), n, die_type).1,
        n <= 0 ==> total == 0,
        n >= 1 ==> n <= total <= n * die_type,
{
    rng.roll_dice(n, die_type)
}

/// Calls `RandomNumberGenerator::range::<i32>`: a value in `min..max`
/// (the call panics on an empty range). The value and the state left
/// behind are those `range_i32_draw` names.
#[verifier::external_body]
pub(crate) fn range_i32(rng: &mut RandomNumberGenerator, min: i32, max: i32) -> (r: i32)
    requires
        min < max,
    ensures
        r == range_i32_draw(*old(rng), min, max).0,
        *final(rng) == range_i32_draw(*old(rng), min, max).1,
        min <= r < max,
{
    rng.range(min, max)
}

/// Calls `RandomNumberGenerator::range::<usize>`: a value in `min..max`
/// (the call panics on an empty range). Which value comes out depends on
/// the width of `usize` as well as the generator's state, and is not stated.
#[verifier::external_body]
pub(crate) fn range_usize(rng: &mut RandomNumberGenerator, min: usize, max: usize) -> (r: usize)
    requires
        min < max,
    ensures
        min <= r < max,
{
    rng.range(min, max)
}

} // verus!
