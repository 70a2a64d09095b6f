//! The random source: the thread-local generator of the `rand` crate.
use vstd::prelude::*;
use rand::distributions::uniform::SampleRange;
use rand::seq::SliceRandom;

verus! {

/// `rand::rngs::ThreadRng`, a handle to the thread-local generator. Nothing
/// is known of its state.
#[verifier::external_type_specification]
#[verifier::external_body]
pub struct ExThreadRng(rand::rngs::ThreadRng);

/// `rand::thread_rng`: a handle to the generator of the current thread.
/// Nothing is claimed of it.
#[verifier::external_body]
pub(crate) fn thread_generator() -> (rng: rand::rngs::ThreadRng) {
    rand::thread_rng()
}

/// `SampleRange::sample_single` on the range `low..high`, which must not be
/// empty. The claim is the range's: the sample lies in `low..high`. Which
/// number it is depends on the generator.
#[verifier::external_body]
pub(crate) fn sample_range(low: usize, high: usize, rng: &mut rand::rngs::ThreadRng) -> (sample:
    usize)
    requires
        low < high,
    ensures
        low <= sample < high,
{
    (low..high).sample_single(rng)
}

/// `SliceRandom::shuffle` on the whole vector. The claim is that the items
/// are rearranged: the shuffle only swaps. Which arrangement comes out
/// depends on the generator.
#[verifier::external_body]
pub(crate) fn shuffle(items: &mut Vec<i32>, rng: &mut rand::rngs::ThreadRng)
    ensures
        final(items)@.to_multiset() == old(items)@.to_multiset(),
{
    items.shuffle(rng)
}

} // verus!
