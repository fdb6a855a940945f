//! The random generator, and what is taken on trust about it.
//!
//! Nothing here is proved: each item states what the `fastrand` crate does.
//! The contracts promise only what holds of every draw.

use vstd::prelude::*;

verus! {

/// The generator of the `fastrand` crate, opaque to the verifier.
#[verifier::external_type_specification]
#[verifier::external_body]
pub struct ExRng(fastrand::Rng);

/// `fastrand::Rng::with_seed`: a generator that starts from `seed`. Nothing is
/// claimed of the generator that comes back.
pub assume_specification[ fastrand::Rng::with_seed ](seed: u64) -> (rng: fastrand::Rng);

/// `fastrand::Rng::new`: a generator seeded from the thread's own generator.
/// Nothing is claimed of the generator that comes back.
pub assume_specification[ fastrand::Rng::new ]() -> (rng: fastrand::Rng);

/// `fastrand::Rng::bool`: a coin flip. Either value may come back.
pub assume_specification[ fastrand::Rng::bool ](rng: &mut fastrand::Rng) -> (coin: bool);

/// `fastrand::Rng::u8` on the range `0..bound`: the value drawn lies below
/// `bound`. The crate panics on an empty range, so `bound` must be positive.
#[verifier::external_body]
pub(crate) fn draw_below(rng: &mut fastrand::Rng, bound: u8) -> (value: u8)
    requires
        bound > 0,
    ensures
        value < bound,
{
    rng.u8(0..bound)
}

/// `fastrand::Rng::shuffle`: the items are rearranged by swaps, so the
/// same items are there afterwards, each as often as before.
#[verifier::external_body]
pub(crate) fn shuffle_indices(rng: &mut fastrand::Rng, items: &mut Vec<usize>)
    ensures
        final(items)@.to_multiset() == old(items)@.to_multiset(),
{
    rng.shuffle(items.as_mut_slice())
}

} // verus!
