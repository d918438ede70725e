//! The random draws, made by the `rand` crate.
//!
//! Verus does not look into `rand`: what this module says of its functions is
//! taken on trust, and is kept to what their source shows of every outcome.

use rand::rngs::ThreadRng;
use rand::Rng;
use vstd::prelude::*;

verus! {

/// `rand::rngs::ThreadRng`, the handle to the calling thread's generator.
/// Verified code only carries it from [`rand::thread_rng`] to [`random_below`].
#[verifier::external_type_specification]
#[verifier::external_body]
pub struct ExThreadRng(rand::rngs::ThreadRng);

/// `rand::thread_rng` returns the handle to the calling thread's generator,
/// which the operating system seeds. Nothing is claimed of the handle; the
/// call panics where the operating system cannot seed the generator.
pub assume_specification[ rand::thread_rng ]() -> (rng: ThreadRng);

/// `Rng::gen_range` on the half-open range `0..bound`. It panics on an empty
/// range, which `requires` leaves out, and returns a value of the range. Which
/// value is left open: two calls with one bound may differ.
#[verifier::external_body]
pub(crate) fn random_below(rng: &mut ThreadRng, bound: usize) -> (value: usize)
    requires
        bound > 0,
    ensures
        value < bound,
{
    rng.gen_range(0..bound)
}

} // verus!
