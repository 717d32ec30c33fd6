//! Trusted boundary to the process-local random source.
//!
//! Every function here only states what holds of every possible outcome of a
//! draw (a range, or a valid index); nothing about which value comes back.

use vstd::prelude::*;
use rand::Rng;
use rand::distributions::Distribution;
use rand::distributions::WeightedIndex;

verus! {

/// Relies on rand::Rng::gen_range over `lo..hi`: the draw lies in the
/// half-open range; the range must be non-empty or the call panics.
#[verifier::external_body]
pub(crate) fn random_usize_in(lo: usize, hi: usize) -> (r: usize)
    requires
        lo < hi,
    ensures
        lo <= r < hi,
{
    rand::thread_rng().gen_range(lo..hi)
}

/// Relies on rand::Rng::gen_range over `lo..hi`: the draw lies in the
/// half-open range; the range must be non-empty or the call panics.
#[verifier::external_body]
pub(crate) fn random_i32_in(lo: i32, hi: i32) -> (r: i32)
    requires
        lo < hi,
    ensures
        lo <= r < hi,
{
    rand::thread_rng().gen_range(lo..hi)
}

/// rand's table for fitness-proportionate sampling, opaque to the verifier.
#[verifier::external_body]
pub struct WeightedTable {
    dist: WeightedIndex<u32>,
}

/// The number of weights a table was built over.
pub uninterp spec fn weighted_count(table: WeightedTable) -> nat;

/// Relies on rand::distributions::WeightedIndex::new: over a non-empty list
/// of positive weights whose sum fits the weight type it returns `Ok`, and
/// the distribution draws indices into that list.
#[verifier::external_body]
pub(crate) fn make_weighted(weights: &Vec<u32>) -> (table: WeightedTable)
    requires
        weights@.len() > 0,
        forall|i: int| 0 <= i < weights@.len() ==> weights@[i] > 0,
        weights@.len() * 100 <= u32::MAX,
        forall|i: int| 0 <= i < weights@.len() ==> weights@[i] <= 100,
    ensures
        weighted_count(table) == weights@.len(),
{
    WeightedTable { dist: WeightedIndex::new(weights.iter()).unwrap() }
}

/// Relies on rand::distributions::WeightedIndex::sample: the drawn value
/// indexes the weight list the distribution was built over.
#[verifier::external_body]
pub(crate) fn sample_weighted(table: &WeightedTable) -> (r: usize)
    ensures
        r < weighted_count(*table),
{
    table.dist.sample(&mut rand::thread_rng())
}

} // verus!
