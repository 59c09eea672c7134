//! The one place where the library draws random numbers.

use vstd::prelude::*;

verus! {

/// Largest bound that [`random_below`] accepts.
pub const MAX_RANDOM_BOUND: usize = 0x10_0000;

/// Draws an index below `bound` from the process-wide generator, by
/// `macroquad::rand::gen_range(0, bound)`.
///
/// The generator scales a 32-bit draw `k` to `bound * k / 2^32` in double
/// precision and truncates. For the bounds admitted here that product is exact,
/// and `k < 2^32` keeps it below `bound`. Nothing else is claimed of the value:
/// two calls may differ.
#[verifier::external_body]
pub(crate) fn random_below(bound: usize) -> (index: usize)
    requires
        0 < bound <= MAX_RANDOM_BOUND,
    ensures
        index < bound,
{
    macroquad::rand::gen_range(0usize, bound)
}

} // verus!
