//! The random source used by generation and by enemies.

use vstd::prelude::*;
use bracket_random::prelude::RandomNumberGenerator;

verus! {

#[verifier::external_type_specification]
#[verifier::external_body]
pub struct ExRandomNumberGenerator(RandomNumberGenerator);

/// Relies on `RandomNumberGenerator::range`, which draws from `min..max`
/// through rand's `gen_range` (that panics on an empty range).
#[verifier::external_body]
pub(crate) fn roll_range(rng: &mut RandomNumberGenerator, min: i32, max: i32) -> (r: i32)
    requires
        min < max,
    ensures
        min <= r < max,
{
    rng.range(min, max)
}

/// Relies on `RandomNumberGenerator::random_slice_index`: `None` for an empty
/// slice, else an index into it (drawn by `range(1, len + 1)`, so the length
/// plus one must fit an `i32`).
#[verifier::external_body]
pub(crate) fn pick_index<T>(rng: &mut RandomNumberGenerator, v: &Vec<T>) -> (r: Option<usize>)
    requires
        v.len() < i32::MAX,
    ensures
        r is None <==> v.len() == 0,
        r matches Some(i) ==> i < v.len(),
{
    rng.random_slice_index(v.as_slice())
}

} // verus!
