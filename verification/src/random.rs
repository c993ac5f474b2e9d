//! The source of chance.

use vstd::prelude::*;
use macroquad::rand::RandGenerator;

verus! {

/// The generator of pseudo-random numbers of `macroquad::rand`. Nothing is
/// known of what it holds.
#[verifier::external_type_specification]
#[verifier::external_body]
pub struct ExRandGenerator(macroquad::rand::RandGenerator);

/// Draws a number between `low` and `high` from the generator:
/// `RandGenerator::gen_range`, which scales the generator's next 32 bits
/// into the range and rounds towards zero. So the number is at least `low`
/// and at most `high`, and below `high` where `low` is not negative. The
/// bounds are kept small enough for the scaling to be exact.
#[verifier::external_body]
pub(crate) fn gen_range(rng: &RandGenerator, low: i32, high: i32) -> (r: i32)
    requires
        -0x10_0000 <= low < high <= 0x10_0000,
    ensures
        low <= r <= high,
        0 <= low ==> r < high,
{
    rng.gen_range(low, high)
}

} // verus!
