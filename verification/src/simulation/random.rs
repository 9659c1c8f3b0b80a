//! The pseudo-random source of the simulation: a linear congruential
//! generator whose state is carried by the caller.
//!
//! A draw is a 32-bit word `d` that stands for the sample `d / 2^32` of the
//! half-open unit interval.

use vstd::prelude::*;

verus! {

/// The state that follows `state`: `state * 1664525 + 1013904223` modulo 2^32.
pub open spec fn lcg_next(state: u32) -> u32 {
    ((state as int * 1664525 + 1013904223) % 0x1_0000_0000) as u32
}

/// Whether the sample of `draw` lies below `percent` hundredths.
pub open spec fn spec_chance(draw: u32, percent: u32) -> bool {
    draw as int * 100 < percent as int * 0x1_0000_0000
}

/// The quarter of the unit interval that holds the sample of `draw`: 0 to 3.
pub open spec fn spec_pick_quarter(draw: u32) -> u32 {
    (draw as int / 0x4000_0000) as u32
}

/// Whether the sample of `draw` lies below `percent` hundredths: true for
/// `percent` in a hundred of all draws, as near as 2^32 draws can divide.
#[verifier::when_used_as_spec(spec_chance)]
pub fn chance(draw: u32, percent: u32) -> (hit: bool)
    ensures
        hit == spec_chance(draw, percent),
{
    (draw as u64) * 100 < (percent as u64) * 0x1_0000_0000
}

/// The sample of `draw` scaled to four equal choices.
#[verifier::when_used_as_spec(spec_pick_quarter)]
pub fn pick_quarter(draw: u32) -> (quarter: u32)
    ensures
        quarter == spec_pick_quarter(draw),
        quarter < 4,
{
    draw / 0x4000_0000
}

/// A linear congruential generator.
#[derive(Debug, Clone, Copy, PartialEq, Eq, Structural)]
pub struct SimRng {
    /// The last draw, or the seed before the first one.
    pub state: u32,
}

impl SimRng {
    /// A generator that starts from `seed`.
    pub fn new(seed: u32) -> (rng: Self)
        ensures
            rng.state == seed,
    {
        Self { state: seed }
    }

    /// Advances the generator and returns the new state as the draw.
    pub fn next_u32(&mut self) -> (draw: u32)
        ensures
            draw == lcg_next(old(self).state),
            final(self).state == draw,
    {
        let wide: u64 = (self.state as u64) * 1664525 + 1013904223;
        let next: u32 = (wide % 0x1_0000_0000) as u32;
        self.state = next;
        next
    }
}

impl Default for SimRng {
    /// The generator with the seed 12345.
    fn default() -> (rng: Self)
        ensures
            rng.state == 12345,
    {
        Self { state: 12345 }
    }
}

} // verus!
