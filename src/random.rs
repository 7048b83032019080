use vstd::prelude::*;

use bracket_lib::prelude::RandomNumberGenerator;

verus! {

#[verifier::external_type_specification]
#[verifier::external_body]
pub struct ExRandomNumberGenerator(RandomNumberGenerator);

/// Relies on `RandomNumberGenerator::new`: a generator seeded from the
/// operating system's random source, or the clock; nothing is promised of
/// the numbers it gives.
pub assume_specification[ RandomNumberGenerator::new ]() -> RandomNumberGenerator;

/// Relies on `RandomNumberGenerator::range`, which draws from `min..max`
/// (rand's `gen_range`, which panics on an empty range).
#[verifier::external_body]
fn draw(rng: &mut RandomNumberGenerator, min: i32, max: i32) -> (r: i32)
    requires
        min < max,
    ensures
        min <= r < max,
{
    rng.range(min, max)
}

/// Lowest row a gap may be centred on.
pub const MIN_GAP_Y: i32 = 10;

/// Gaps are centred above this row.
pub const MAX_GAP_Y: i32 = 40;

/// Smallest gap size.
pub const MIN_GAP_SIZE: i32 = 10;

/// Gap sizes stay below this.
pub const MAX_GAP_SIZE: i32 = 20;

/// A random gap: its centre row in `[MIN_GAP_Y, MAX_GAP_Y)` and its size in
/// `[MIN_GAP_SIZE, MAX_GAP_SIZE)`.
pub fn roll_gap(rng: &mut RandomNumberGenerator) -> (r: (i32, i32))
    ensures
        MIN_GAP_Y <= r.0 < MAX_GAP_Y,
        MIN_GAP_SIZE <= r.1 < MAX_GAP_SIZE,
{
    let gap_y = draw(rng, MIN_GAP_Y, MAX_GAP_Y);
    let size = draw(rng, MIN_GAP_SIZE, MAX_GAP_SIZE);
    (gap_y, size)
}

} // verus!
