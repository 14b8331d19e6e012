//! The random source: the generator of the `rand` crate, carried as an
//! opaque value. Nothing here is proved; each item says what is taken on
//! trust about `rand`.

use vstd::prelude::*;
use rand::rngs::{OsRng, SmallRng};
use rand::{RngCore, SeedableRng};

verus! {

/// `rand::rngs::SmallRng`, the generator that the machine owns. Its state
/// is hidden from the verifier.
#[verifier::external_type_specification]
#[verifier::external_body]
pub struct ExSmallRng(rand::rngs::SmallRng);

/// `rand::Error`, what seeding reports when the operating system gives no
/// random bytes.
#[verifier::external_type_specification]
#[verifier::external_body]
pub struct ExSeedError(rand::Error);

/// `SmallRng::from_rng(OsRng)`: a generator seeded with bytes of the
/// operating system, or the error of the operating system where it has
/// none to give. Which of the two comes back is up to the system, so the
/// contract promises nothing.
#[verifier::external_body]
pub(crate) fn seed_from_os() -> (seeded: Result<SmallRng, rand::Error>) {
    SmallRng::from_rng(OsRng)
}

/// `RngCore::next_u32` of `SmallRng`: the next number of the generator.
/// Nothing is promised of the number.
#[verifier::external_body]
pub(crate) fn next_random(rng: &mut SmallRng) -> (random: u32) {
    rng.next_u32()
}

} // verus!
