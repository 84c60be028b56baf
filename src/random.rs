//! The pseudo-random generator that every randomised step draws from.
use vstd::prelude::*;

verus! {

#[verifier::external_type_specification]
#[verifier::external_body]
pub struct ExStdRng(rand::rngs::StdRng);

/// The seedable generator the engine owns.
pub type Generator = rand::rngs::StdRng;

/// Relies on rand's `SeedableRng::seed_from_u64`: a generator whose stream
/// depends on the seed alone.
#[verifier::external_body]
pub(crate) fn seeded_rng(seed: u64) -> (r: Generator) {
    <rand::rngs::StdRng as rand::SeedableRng>::seed_from_u64(seed)
}

/// Relies on rand's `Uniform::new(0, bound)` sampled through `Rng::sample`:
/// a value in `[0, bound)`; `Uniform::new` panics on an empty range.
#[verifier::external_body]
pub(crate) fn draw_below(rng: &mut Generator, bound: usize) -> (r: usize)
    requires
        bound > 0,
    ensures
        r < bound,
{
    rand::Rng::sample(rng, rand::distributions::Uniform::new(0, bound))
}

/// Relies on rand's `Rng::gen_ratio`: `true` with probability
/// `numerator / denominator`, never for a zero numerator, always when the
/// two are equal; it panics when `numerator > denominator` or the
/// denominator is zero.
#[verifier::external_body]
pub(crate) fn draw_chance(rng: &mut Generator, numerator: u32, denominator: u32) -> (r: bool)
    requires
        0 < denominator,
        numerator <= denominator,
    ensures
        numerator == 0 ==> !r,
        numerator == denominator ==> r,
{
    rand::Rng::gen_ratio(rng, numerator, denominator)
}

/// Relies on rand's `SliceRandom::shuffle`: the elements are permuted in
/// place.
#[verifier::external_body]
pub(crate) fn shuffle_in_place(rng: &mut Generator, v: &mut Vec<usize>)
    ensures
        final(v)@.to_multiset() == old(v)@.to_multiset(),
{
    rand::seq::SliceRandom::shuffle(v.as_mut_slice(), rng)
}

} // verus!
