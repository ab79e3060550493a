//! What this library takes on trust: the types and functions of the standard
//! library and of other crates that it uses without proof.

use rand::rngs::{OsRng, StdRng};
use rand::SeedableRng;
use std::path::PathBuf;
use vstd::prelude::*;

verus! {

/// `std::path::PathBuf`, carried through and never looked into.
#[verifier::external_type_specification]
#[verifier::external_body]
pub struct ExPathBuf(PathBuf);

/// `rand::rngs::StdRng`, carried through and never looked into.
#[verifier::external_type_specification]
#[verifier::external_body]
pub struct ExStdRng(StdRng);

/// `String::push` appends one character to the end of the text and leaves the
/// rest as it was.
pub assume_specification[ String::push ](text: &mut String, ch: char)
    ensures
        final(text)@ == old(text)@.push(ch),
;

/// The generator that `StdRng::seed_from_u64` makes from a seed. The seed
/// alone decides it: the function spreads the seed over the generator's
/// state by fixed arithmetic and reads nothing else.
pub uninterp spec fn seeded_rng(seed: u64) -> StdRng;

/// `StdRng::seed_from_u64`: the generator of the seed.
#[verifier::external_body]
pub(crate) fn rng_from_seed(seed: u64) -> (rng: StdRng)
    ensures
        rng == seeded_rng(seed),
{
    StdRng::seed_from_u64(seed)
}

/// `StdRng::from_rng` on `OsRng`: a generator seeded by the operating
/// system, or nothing where the system gives no entropy. Nothing is claimed
/// of the generator.
#[verifier::external_body]
pub(crate) fn rng_from_entropy() -> (rng: Option<StdRng>) {
    StdRng::from_rng(OsRng).ok()
}

/// `num_cpus::get_physical`: the number of physical cores of this machine,
/// which its documentation gives as at least one.
#[verifier::external_body]
pub(crate) fn physical_core_count() -> (count: usize)
    ensures
        count >= 1,
{
    num_cpus::get_physical()
}

} // verus!
