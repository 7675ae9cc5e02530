use vstd::prelude::*;
use bracket_random::prelude::RandomNumberGenerator;

verus! {

/// The random number generator of `bracket_random`. Nothing is known of
/// what it holds.
#[verifier::external_type_specification]
#[verifier::external_body]
pub struct ExRandomNumberGenerator(RandomNumberGenerator);

/// `RandomNumberGenerator::roll_dice` adds up `n` rolls of a die with the
/// faces 1 to `die_type`. Assumed: with at least one face, a face count
/// below `i32::MAX` and a largest sum that fits, the sum lies between `n`
/// and `n * die_type`.
pub assume_specification[ RandomNumberGenerator::roll_dice ](
    rng: &mut RandomNumberGenerator,
    n: i32,
    die_type: i32,
) -> (sum: i32)
    requires
        0 <= n,
        1 <= die_type < i32::MAX,
        n * die_type <= i32::MAX,
    ensures
        n <= sum <= n * die_type,
;

/// `RandomNumberGenerator::range` on `i32`. Assumed: for `min < max` the
/// value is at least `min` and below `max`.
#[verifier::external_body]
pub(crate) fn range_i32(rng: &mut RandomNumberGenerator, min: i32, max: i32) -> (value: i32)
    requires
        min < max,
    ensures
        min <= value < max,
{
    rng.range(min, max)
}

} // verus!
