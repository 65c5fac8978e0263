//! The calls into the random number generator.
//!
//! What comes back from them depends on the generator's state, so each
//! contract states only what holds of every outcome.

use rand::seq::SliceRandom;
use rand::Rng;
use vstd::prelude::*;

verus! {

/// Sum of the weights of a list of `(item, weight)` pairs.
pub open spec fn weight_sum(weights: Seq<(usize, usize)>) -> nat
    decreases weights.len(),
{
    if weights.len() == 0 {
        0
    } else {
        weight_sum(weights.drop_last()) + weights.last().1 as nat
    }
}

/// Calls `SliceRandom::choose_weighted` with the second component of each
/// pair as its weight. That call fails only on an empty list, a negative
/// weight or a total of zero, and adds the weights up in a `usize`; with those
/// left out it hands back one of the pairs.
#[verifier::external_body]
pub(crate) fn choose_weighted_pair<R: Rng + ?Sized>(rng: &mut R, weights: &Vec<(usize, usize)>) -> (r: (
    usize,
    usize,
))
    requires
        weights@.len() > 0,
        0 < weight_sum(weights@) <= usize::MAX,
    ensures
        weights@.contains(r),
{
    *weights.choose_weighted(rng, |item| item.1).unwrap()
}

/// Calls `SliceRandom::choose`: nothing from an empty list, else one of its
/// items.
#[verifier::external_body]
pub(crate) fn choose_program_id<R: Rng + ?Sized>(rng: &mut R, program_ids: &Vec<u32>) -> (r: Option<u32>)
    ensures
        r is None <==> program_ids@.len() == 0,
        r matches Some(id) ==> program_ids@.contains(id),
{
    program_ids.choose(rng).copied()
}

/// Calls `Rng::gen_range` on the half-open range from `low` to `high`, which
/// panics on an empty range: the result lies in the range.
#[verifier::external_body]
pub(crate) fn random_cluster_id<R: Rng + ?Sized>(rng: &mut R, low: u8, high: u8) -> (r: u8)
    requires
        low < high,
    ensures
        low <= r < high,
{
    rng.gen_range(low..high)
}

/// Calls `Rng::gen_range` on the half-open range from zero to `bound`, which
/// panics on an empty range: the result lies in the range.
#[verifier::external_body]
pub(crate) fn random_below<R: Rng + ?Sized>(rng: &mut R, bound: usize) -> (r: usize)
    requires
        bound > 0,
    ensures
        r < bound,
{
    rng.gen_range(0..bound)
}

} // verus!
