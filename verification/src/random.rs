//! The source of random numbers. Nothing here is proved: each item states
//! what the rest of the library takes on trust from the `rand` crate.

use vstd::prelude::*;
use rand::Rng;
use rand::rngs::ThreadRng;

verus! {

/// `rand::rngs::ThreadRng`, the handle to the calling thread's generator. The
/// library only passes it on.
#[verifier::external_type_specification]
#[verifier::external_body]
pub struct ExThreadRng(ThreadRng);

/// Calls `rand::thread_rng`, which hands out the calling thread's generator.
/// Nothing is claimed of it. The generator is seeded by the system on its
/// first use in a thread, and the call panics if the system gives no seed
/// or refuses the handler that watches for a fork.
#[verifier::external_body]
pub(crate) fn thread_rng() -> ThreadRng {
    rand::thread_rng()
}

/// Calls `rand::Rng::gen` for a `usize`. The number depends on chance, so
/// nothing is claimed of it beyond its type. The generator takes a new seed
/// from the system from time to time, after 64 KiB drawn in the thread or
/// after a fork, and the call panics if the system then gives none.
#[verifier::external_body]
pub(crate) fn random_usize(rng: &mut ThreadRng) -> usize {
    rng.gen::<usize>()
}

} // verus!
