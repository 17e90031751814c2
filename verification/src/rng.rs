//! Trusted boundary to the process random number generator. Every contract
//! here states only what holds of every possible outcome: a shuffle is a
//! permutation, a ranged draw lies in its range, and nothing at all is known
//! of a free draw.

use rand::seq::SliceRandom;
use vstd::prelude::*;

verus! {

/// Relies on rand's `SliceRandom::shuffle`: an in-place Fisher-Yates
/// permutation of the slice, so the multiset of elements is unchanged.
#[verifier::external_body]
pub(crate) fn shuffle_ids(v: &mut Vec<usize>)
    ensures
        final(v)@.to_multiset() == old(v)@.to_multiset(),
        final(v)@.len() == old(v)@.len(),
{
    v.shuffle(&mut rand::thread_rng());
}

/// Relies on rand's `Rng::gen_range` on an inclusive integer range: the
/// sampled value lies within the range; the call panics only on an empty
/// range, which the precondition rules out.
#[verifier::external_body]
pub(crate) fn rand_in_range(lo: i32, hi: i32) -> (r: i32)
    requires
        lo <= hi,
    ensures
        lo <= r <= hi,
{
    rand::Rng::gen_range(&mut rand::thread_rng(), lo..=hi)
}

/// Relies on rand's `random`: a draw from the thread-local generator, of
/// which nothing can be promised.
pub assume_specification<T>[ rand::random::<T> ]() -> (r: T)
    where
        rand::distributions::Standard: rand::distributions::Distribution<T>,
;

} // verus!
