use vstd::prelude::*;

use rand::Rng;

verus! {

/// Relies on `rand::Rng::gen_range` over `0..n` (on a fresh
/// `rand::thread_rng()` generator): the result is drawn uniformly from the
/// integers below `n`; the range must not be empty.
#[verifier::external_body]
pub(crate) fn random_below(n: usize) -> (r: usize)
    requires
        0 < n,
    ensures
        r < n,
{
    rand::thread_rng().gen_range(0..n)
}

/// Relies on `rand::Rng::gen_ratio` (on a fresh `rand::thread_rng()`
/// generator): returns `true` with probability `numerator / denominator`;
/// the denominator must be positive and no smaller than the numerator.
/// The extremes are certain — a zero numerator never yields `true` and a
/// full ratio always does; between them, nothing is promised of a single
/// draw.
#[verifier::external_body]
pub(crate) fn random_ratio(numerator: u32, denominator: u32) -> (r: bool)
    requires
        0 < denominator,
        numerator <= denominator,
    ensures
        numerator == 0 ==> !r,
        numerator == denominator ==> r,
{
    rand::thread_rng().gen_ratio(numerator, denominator)
}

} // verus!
