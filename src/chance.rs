use vstd::prelude::*;

use rand::Rng;

verus! {

/// Relies on `rand::Rng::gen_ratio` over the thread-local generator: a
/// `true` with probability `numerator / denominator`. Its source answers `true`
/// outright when the two are equal and, from a zero numerator, a threshold of
/// zero that no draw falls under. It panics when the denominator is zero or
/// below the numerator, which `requires` excludes.
#[verifier::external_body]
pub(crate) fn draw_ratio(numerator: u32, denominator: u32) -> (r: bool)
    requires
        0 < denominator,
        numerator <= denominator,
    ensures
        numerator == 0 ==> !r,
        numerator == denominator ==> r,
{
    rand::thread_rng().gen_ratio(numerator, denominator)
}

} // verus!
