//! Random draws, taken from the `rand` crate. Nothing in this file is proved:
//! its contracts state what `rand` documents.

use rand::Rng;
use vstd::prelude::*;

verus! {

/// The handle to the generator that `rand` keeps for each thread. Its contents
/// are hidden from the verifier.
#[verifier::external_type_specification]
#[verifier::external_body]
pub struct ExThreadRng(rand::rngs::ThreadRng);

/// `rand::thread_rng` hands out the calling thread's generator. Nothing is
/// claimed of the handle.
pub assume_specification[ rand::thread_rng ]() -> (rng: rand::rngs::ThreadRng)
;

/// One draw with `Rng::gen_range(0..bound)`: `rand` samples the half-open range,
/// so the number is below `bound`, and that is all that is claimed of it. An
/// empty range makes `gen_range` panic, hence the bound must be positive.
#[verifier::external_body]
pub(crate) fn draw_below(rng: &mut rand::rngs::ThreadRng, bound: u32) -> (draw: u32)
    requires
        bound > 0,
    ensures
        draw < bound,
{
    rng.gen_range(0..bound)
}

} // verus!
