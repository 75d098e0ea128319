//! Trusted access to the random-number facilities the engine draws from:
//! uniform integer draws from `rand`, and Walker-alias weighted index
//! sampling from `weighted_rand`.  Nothing is assumed about which value
//! comes back beyond its range, so everything proved downstream holds for
//! every possible draw.

use rand::Rng;
use vstd::prelude::*;
use weighted_rand::builder::NewBuilder;

verus! {

/// The weighted-sampling table type of `weighted_rand`, opaque to
/// verification.
#[verifier::external_type_specification]
#[verifier::external_body]
pub struct ExWalkerTable(weighted_rand::table::WalkerTable);

/// Relies on `weighted_rand::table::WalkerTable`'s derived `Clone`: it
/// copies the alias and probability arrays, so the clone samples as the
/// original does.
pub assume_specification[ <weighted_rand::table::WalkerTable as Clone>::clone ](
    t: &weighted_rand::table::WalkerTable,
) -> (r: weighted_rand::table::WalkerTable)
    ensures
        r == *t,
;

/// The number of indices a `weighted_rand::table::WalkerTable` samples
/// from: the length of its alias and probability arrays.
pub uninterp spec fn walker_len_of(t: weighted_rand::table::WalkerTable) -> usize;

/// Relies on `weighted_rand::builder::WalkerTableBuilder::new` and
/// `build`: the built table's alias and probability arrays have one entry
/// per weight, and every alias entry indexes the table.  The builder
/// multiplies each weight by the count and sums the products in `u32`, so
/// small weights and counts are required to keep it from overflowing.
#[verifier::external_body]
pub fn build_walker(weights: &Vec<u32>) -> (r: weighted_rand::table::WalkerTable)
    requires
        1 <= weights@.len() <= 100,
        forall|i: int| 0 <= i < weights@.len() ==> weights@[i] <= 10000,
    ensures
        walker_len_of(r) == weights@.len(),
{
    let builder = weighted_rand::builder::WalkerTableBuilder::new(weights.as_slice());
    builder.build()
}

/// Relies on `weighted_rand::table::WalkerTable::next`: it draws an index
/// below the table's length (either the drawn position or its alias, and
/// the builder keeps every alias in range).  It panics on an empty table.
#[verifier::external_body]
pub fn walker_next(t: &weighted_rand::table::WalkerTable) -> (r: usize)
    requires
        walker_len_of(*t) >= 1,
    ensures
        r < walker_len_of(*t),
{
    t.next()
}

/// Relies on `rand::Rng::gen_range` over `rand::thread_rng`: a uniform
/// draw from `0..n`, which panics on an empty range.
#[verifier::external_body]
pub fn rand_below(n: usize) -> (r: usize)
    requires
        n >= 1,
    ensures
        r < n,
{
    rand::thread_rng().gen_range(0..n)
}

/// Relies on `rand::Rng::gen_range` over `rand::thread_rng`: a uniform
/// draw from `lo..hi`, which panics on an empty range.
#[verifier::external_body]
pub fn rand_range_u64(lo: u64, hi: u64) -> (r: u64)
    requires
        lo < hi,
    ensures
        lo <= r < hi,
{
    rand::thread_rng().gen_range(lo..hi)
}

} // verus!
