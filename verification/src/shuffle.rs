//! Row shuffler: randomizes row order once per invocation, so that repeated
//! runs do not bias visual position toward any one process.
//!
//! The random source is outside the reach of proof; what is verified is that
//! whatever order comes back, the rows themselves are exactly the ones that
//! went in.

use vstd::prelude::*;
use vstd::multiset::Multiset;
use rand::seq::SliceRandom;

use crate::resolve::views_of;

verus! {

/// The rows as an unordered collection of their texts.
pub open spec fn rows_bag(rows: Seq<String>) -> Multiset<Seq<char>> {
    views_of(rows).to_multiset()
}

/// Relies on rand's `SliceRandom::shuffle` with `rand::thread_rng`: it
/// permutes the slice in place by swapping elements, so the same texts come
/// out, in an order that depends on the random source.
#[verifier::external_body]
fn shuffle_with_thread_rng(rows: &mut Vec<String>)
    ensures
        final(rows)@.len() == old(rows)@.len(),
        rows_bag(final(rows)@) == rows_bag(old(rows)@),
{
    rows.shuffle(&mut rand::thread_rng());
}

/// Reorders the rows at random.  The output holds the same multiset of row
/// texts as the input, whatever the random source did.
pub fn shuffle_rows(rows: &mut Vec<String>)
    ensures
        final(rows)@.len() == old(rows)@.len(),
        rows_bag(final(rows)@) == rows_bag(old(rows)@),
{
    shuffle_with_thread_rng(rows);
}

} // verus!
