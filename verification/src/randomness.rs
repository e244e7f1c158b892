//! The two points where chance enters the library: shuffling a stack at
//! game setup and drawing a random number for weighted arbitration.
//!
//! Nothing is assumed about which outcome chance produces, only what holds
//! of every outcome.

use vstd::prelude::*;
use vstd::seq_lib::*;

use rand::seq::SliceRandom;
use rand::Rng;

verus! {

/// Relies on rand::seq::SliceRandom::shuffle: it permutes the slice's
/// elements in place, neither adding nor removing any, and never panics.
#[verifier::external_body]
pub(crate) fn shuffle<T>(v: &mut Vec<T>)
    ensures
        final(v)@.to_multiset() == old(v)@.to_multiset(),
        final(v)@.len() == old(v)@.len(),
{
    v.shuffle(&mut rand::thread_rng());
}

/// Relies on rand::Rng::gen_range on the range `0..bound`: it returns a
/// uniformly sampled element of that range and panics only when the range
/// is empty.
#[verifier::external_body]
pub(crate) fn rand_below(bound: u64) -> (r: u64)
    requires
        bound > 0,
    ensures
        r < bound,
{
    rand::thread_rng().gen_range(0..bound)
}

} // verus!
