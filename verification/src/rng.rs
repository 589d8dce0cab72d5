//! Randomness for the simulation, drawn from the `rand` crate.
//!
//! Every draw goes through one of the trusted wrappers below; the verified
//! code treats the results as arbitrary values inside the stated range.

use vstd::prelude::*;
use rand::Rng;

verus! {

/// Relies on rand's `Rng::gen_range` over `lo..=hi`: returns a uniformly
/// drawn value inside the inclusive range, and panics only when the range
/// is empty.
#[verifier::external_body]
pub fn random_number(lo: i32, hi: i32) -> (r: i32)
    requires
        lo <= hi,
    ensures
        lo <= r <= hi,
{
    rand::thread_rng().gen_range(lo..=hi)
}

/// Relies on rand's `Rng::gen_range` over `lo..=hi` for `i64`: returns a
/// value inside the inclusive range; panics only on an empty range.
#[verifier::external_body]
pub fn random_fx(lo: i64, hi: i64) -> (r: i64)
    requires
        lo <= hi,
    ensures
        lo <= r <= hi,
{
    rand::thread_rng().gen_range(lo..=hi)
}

/// A uniform draw over one whole unit. Relies on rand's `Rng::gen_range`
/// over `0..FP`: the result lies in `[0, FP)`; the range is constant and
/// non-empty, so the call never panics.
#[verifier::external_body]
fn random_fraction() -> (r: i64)
    ensures
        0 <= r < crate::fixed::FP,
{
    rand::thread_rng().gen_range(0..crate::fixed::FP)
}

/// Roll a critical hit with probability `chance` (a fixed-point fraction
/// of `FP`): the hit lands when a uniform draw over one unit falls below
/// the chance, so a non-positive chance never hits and a chance of one
/// or more always does.
pub fn is_critical_hit(chance: i64) -> (r: bool)
    ensures
        chance <= 0 ==> !r,
        chance >= crate::fixed::FP ==> r,
{
    random_fraction() < chance
}

} // verus!
