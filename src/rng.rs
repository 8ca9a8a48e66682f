use vstd::prelude::*;

use rand_core::{RngCore, SeedableRng};
use rand_xorshift::XorShiftRng;

verus! {

#[verifier::external_type_specification]
#[verifier::external_body]
pub struct ExXorShiftRng(XorShiftRng);

/// Relies on `SeedableRng::from_seed` of `rand_xorshift::XorShiftRng`: it
/// builds a generator from 16 seed bytes and does not panic.
#[verifier::external_body]
pub(crate) fn seeded_rng(seed: [u8; 16]) -> XorShiftRng {
    XorShiftRng::from_seed(seed)
}

/// Relies on `RngCore::next_u32` of `rand_xorshift::XorShiftRng`: it
/// advances the generator one step and returns a 32-bit word, which may be
/// any word.
#[verifier::external_body]
pub(crate) fn next_word(rng: &mut XorShiftRng) -> u32 {
    rng.next_u32()
}

} // verus!
