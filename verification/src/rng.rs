//! The random source of the splatter generator. The generator itself is an
//! outside value: nothing is promised of the numbers it yields beyond their
//! range, and every contract downstream holds for every outcome.

use vstd::prelude::*;

verus! {

/// The dice-oriented random number generator of the outside terminal crate.
#[verifier::external_type_specification]
#[verifier::external_body]
pub struct ExRandomNumberGenerator(rltk::RandomNumberGenerator);

/// Relies on rltk::RandomNumberGenerator::new: builds a generator seeded
/// from system entropy. Nothing is promised of the values it will yield.
#[verifier::external_body]
pub(crate) fn rng_new() -> rltk::RandomNumberGenerator {
    rltk::RandomNumberGenerator::new()
}

/// Relies on rltk::RandomNumberGenerator::roll_dice: one roll of a die with
/// `sides` faces is a value between 1 and `sides` inclusive. The call is
/// kept off `sides` below 1 (an empty range) and `i32::MAX` (the call adds
/// one to it), where the outside code would panic.
#[verifier::external_body]
pub(crate) fn roll_die(rng: &mut rltk::RandomNumberGenerator, sides: i32) -> (r: i32)
    requires
        1 <= sides < i32::MAX,
    ensures
        1 <= r <= sides,
{
    rng.roll_dice(1, sides)
}

} // verus!
