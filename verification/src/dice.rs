//! The dice: every random draw the game makes.
//!
//! The draws come from the `rand` crate. Their contracts are believed, not
//! proved; each says only what holds of every outcome.

use vstd::prelude::*;
use rand::distributions::{IndependentSample, Weighted, WeightedChoice};
use rand::Rng;

verus! {

/// The sum of a list of weights.
pub open spec fn total_weight(weights: Seq<u32>) -> int
    decreases weights.len(),
{
    if weights.len() == 0 {
        0
    } else {
        total_weight(weights.drop_last()) + weights.last()
    }
}

/// Draws an integer from `low` up to, but not including, `high`.
///
/// Calls `rand::Rng::gen_range` on `rand::thread_rng()`. That function panics
/// unless `low < high`, and returns a value of the half-open range.
#[verifier::external_body]
pub(crate) fn roll_range(low: i32, high: i32) -> (roll: i32)
    requires
        low < high,
    ensures
        low <= roll < high,
{
    rand::thread_rng().gen_range(low, high)
}

/// Flips a coin.
///
/// Calls `rand::random::<bool>()`; nothing is promised of the outcome.
#[verifier::external_body]
pub(crate) fn coin_flip() -> bool {
    rand::random()
}

/// Draws an index into `weights`, each index as likely as its weight is
/// large.
///
/// Builds a `rand::distributions::WeightedChoice` over the indices and
/// samples it once with `rand::thread_rng()`. `WeightedChoice::new` panics on
/// an empty list, on a total of zero and on a total beyond `u32`. Sampling
/// draws a number below the total and returns the first item whose
/// cumulative weight exceeds it, so an index of weight zero never comes out.
#[verifier::external_body]
pub(crate) fn weighted_index(weights: &Vec<u32>) -> (index: usize)
    requires
        weights.len() > 0,
        0 < total_weight(weights@) <= u32::MAX,
    ensures
        index < weights.len(),
        weights[index as int] > 0,
{
    let mut items: Vec<Weighted<usize>> = Vec::new();
    for (index, weight) in weights.iter().enumerate() {
        items.push(Weighted { weight: *weight, item: index });
    }
    WeightedChoice::new(&mut items).ind_sample(&mut rand::thread_rng())
}

} // verus!
