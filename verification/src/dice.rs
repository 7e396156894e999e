use nanorand::{Rng, WyRand};
use vstd::prelude::*;

verus! {

/// The generator of `nanorand` that the timing and scroll decisions draw from.
/// Nothing is known of its state.
#[verifier::external_type_specification]
#[verifier::external_body]
pub struct ExWyRand(WyRand);

/// `WyRand::new`: a generator seeded from the system's entropy source.
/// Nothing is claimed of the generator that comes back.
#[verifier::external_body]
pub(crate) fn seeded() -> (rng: WyRand) {
    WyRand::new()
}

/// `Rng::generate_range` at `u64` over the closed range `lo..=hi`.
/// The claim is only that the number lies in the range; which number it is
/// depends on the generator's state, so two calls may differ.
#[verifier::external_body]
pub(crate) fn draw(rng: &mut WyRand, lo: u64, hi: u64) -> (value: u64)
    requires
        lo <= hi,
    ensures
        lo <= value <= hi,
{
    rng.generate_range(lo..=hi)
}

/// A random source for one run, seeded anew each time it is made.
pub struct Dice {
    rng: WyRand,
}

impl Dice {
    /// A source seeded from the system, independent of every earlier one.
    pub fn new() -> Dice {
        Dice { rng: seeded() }
    }

    /// A number between `lo` and `hi`, both included.
    pub fn between(&mut self, lo: u64, hi: u64) -> (value: u64)
        requires
            lo <= hi,
        ensures
            lo <= value <= hi,
    {
        draw(&mut self.rng, lo, hi)
    }

    /// Decides an event that is to happen in `percent` cases out of a hundred:
    /// one of the hundred numbers from 0 to 99 is drawn, and the event happens
    /// where the number falls within the first `percent` of them. So with
    /// `percent == 0` it never happens, and from 100 on it always does.
    pub fn chance(&mut self, percent: u64) -> (hit: bool)
        ensures
            exists|roll: u64| roll <= PERCENT_ROLL_MAX && hit == #[trigger] within(roll, percent),
            percent == 0 ==> !hit,
            percent >= 100 ==> hit,
    {
        let roll: u64 = self.between(0, PERCENT_ROLL_MAX);
        let hit = falls_within(roll, percent);
        assert(hit == within(roll, percent));
        hit
    }
}

/// The greatest of the hundred numbers that a chance is decided by.
pub const PERCENT_ROLL_MAX: u64 = 99;

/// Whether the number `roll` is one of the first `percent` numbers, counted
/// from 0.
pub open spec fn within(roll: u64, percent: u64) -> bool {
    roll < percent
}

/// Tells whether an event with a chance of `percent` in a hundred happens on
/// the number `roll`, drawn from 0 to 99.
#[verifier::when_used_as_spec(within)]
pub fn falls_within(roll: u64, percent: u64) -> (hit: bool)
    ensures
        hit == within(roll, percent),
{
    roll < percent
}

} // verus!
