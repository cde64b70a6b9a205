//! The random draws that matches and strategies make. Every draw goes
//! through `rand`; what a draw returns depends on chance, so these items
//! state only what holds of every outcome.

use vstd::prelude::*;
use rand::Rng;
use rand::SeedableRng;

use rand_chacha::ChaCha8Rng;

verus! {

#[verifier::external_type_specification]
#[verifier::external_body]
pub struct ExChaCha8Rng(rand_chacha::ChaCha8Rng);

/// `ChaCha8Rng::seed_from_u64`: a generator seeded from `seed`.
#[verifier::external_body]
pub(crate) fn seeded_rng(seed: u64) -> ChaCha8Rng {
    ChaCha8Rng::seed_from_u64(seed)
}

/// `ChaCha8Rng::try_from_os_rng`: a generator seeded from the operating
/// system, or `None` where the operating system cannot supply the entropy
/// (the source hands the `getrandom` error back rather than panicking).
/// Nothing is claimed of which of the two comes back.
#[verifier::external_body]
pub(crate) fn try_entropy_rng() -> Option<ChaCha8Rng> {
    ChaCha8Rng::try_from_os_rng().ok()
}

/// The seed that a generator falls back on when the operating system has no
/// entropy to give.
pub const FALLBACK_SEED: u64 = 0;

/// A generator seeded from the operating system, or from `FALLBACK_SEED`
/// where the operating system cannot supply entropy.
pub(crate) fn entropy_rng() -> ChaCha8Rng {
    match try_entropy_rng() {
        Some(rng) => rng,
        None => seeded_rng(FALLBACK_SEED),
    }
}

/// `(numerator, denominator)` is a chance: a ratio in [0, 1].
pub open spec fn is_chance(ratio: (u32, u32)) -> bool {
    0 < ratio.1 && ratio.0 <= ratio.1
}

/// `r` is an outcome of a draw that comes up with chance
/// `numerator / denominator`: it never comes up for a zero chance and
/// always does for a certain one. Outside this module the predicate is
/// learnt only from `draw_ratio`, so a contract that asks for it asks for
/// the outcome of an actual draw with that chance.
pub closed spec fn came_up(numerator: u32, denominator: u32, r: bool) -> bool {
    &&& numerator == 0 ==> !r
    &&& numerator == denominator ==> r
}

/// What an outcome of a draw tells: a zero chance never comes up, a
/// certain one always does.
pub proof fn law_outcome_respects_its_chance(numerator: u32, denominator: u32, r: bool)
    requires
        came_up(numerator, denominator, r),
    ensures
        numerator == 0 ==> !r,
        numerator == denominator ==> r,
        came_up(numerator, denominator, r),
{
}

/// A chance strictly between zero and one can come up either way.
proof fn law_uncertain_chance_goes_either_way(numerator: u32, denominator: u32)
    requires
        0 < numerator < denominator,
    ensures
        came_up(numerator, denominator, true),
        came_up(numerator, denominator, false),
{
}

/// `r` is an outcome of a uniform draw below `bound`. Outside this module
/// the predicate is learnt only from `draw_below`, so a contract that asks
/// for it asks for the outcome of an actual draw below that bound.
pub closed spec fn picked_below(bound: usize, r: usize) -> bool {
    r < bound
}

/// An outcome of a draw below `bound` is below it.
pub proof fn law_pick_is_below_its_bound(bound: usize, r: usize)
    requires
        picked_below(bound, r),
    ensures
        r < bound,
{
}

/// Every value below the bound is an outcome of a draw below it.
proof fn law_every_value_below_can_be_picked(bound: usize, r: usize)
    requires
        r < bound,
    ensures
        picked_below(bound, r),
{
}

/// `Rng::random_ratio`: `true` with probability `numerator / denominator`.
/// The source builds `Bernoulli::from_ratio`, which is certain when the two
/// are equal and never true when the numerator is zero; it panics when the
/// denominator is zero or smaller than the numerator.
#[verifier::external_body]
pub(crate) fn draw_ratio(rng: &mut ChaCha8Rng, numerator: u32, denominator: u32) -> (r: bool)
    requires
        0 < denominator,
        numerator <= denominator,
    ensures
        numerator == 0 ==> !r,
        numerator == denominator ==> r,
        came_up(numerator, denominator, r),
{
    rng.random_ratio(numerator, denominator)
}

/// `Rng::random_range(0..bound)`: a value below `bound`; it panics on an
/// empty range.
#[verifier::external_body]
pub(crate) fn draw_below(rng: &mut ChaCha8Rng, bound: usize) -> (r: usize)
    requires
        bound > 0,
    ensures
        r < bound,
        picked_below(bound, r),
{
    rng.random_range(0..bound)
}

/// `Rng::random::<bool>`: a fair coin.
#[verifier::external_body]
pub(crate) fn draw_bool(rng: &mut ChaCha8Rng) -> bool {
    rng.random::<bool>()
}

} // verus!
