//! The randomness source: the thread-local generator of the `rand` crate.
use rand::rngs::ThreadRng;
use rand::Rng;
use vstd::prelude::*;

verus! {

#[verifier::external_type_specification]
#[verifier::external_body]
pub struct ExThreadRng(ThreadRng);

/// Relies on `rand::thread_rng`: a handle to the thread's cryptographically
/// secure generator.
#[verifier::external_body]
pub(crate) fn new_rng() -> (r: ThreadRng) {
    rand::thread_rng()
}

/// Relies on `Rng::gen_range` over `0..n`: a value in the range, which must
/// not be empty.
#[verifier::external_body]
pub(crate) fn draw_index(rng: &mut ThreadRng, n: usize) -> (r: usize)
    requires
        n > 0,
    ensures
        r < n,
{
    rng.gen_range(0..n)
}

} // verus!
