//! The pseudo-random source: a seedable generator from `rand`, drawn through
//! two trusted calls. Every draw goes through the one `StdRng` handle that
//! the caller passes, so a seed fixes the whole trajectory.
use rand::Rng;
use rand::rngs::StdRng;
use vstd::prelude::*;

verus! {

#[verifier::external_type_specification]
#[verifier::external_body]
pub struct ExStdRng(StdRng);

/// Relies on `rand::Rng::gen::<u32>`: a uniformly drawn `u32`, any value.
#[verifier::external_body]
pub(crate) fn draw_u32(rng: &mut StdRng) -> (r: u32) {
    rng.gen::<u32>()
}

/// Relies on `rand::Rng::gen_range` over an inclusive range: a value between
/// the bounds, both included; it panics on an empty range, hence `lo <= hi`.
#[verifier::external_body]
pub(crate) fn draw_between(rng: &mut StdRng, lo: i64, hi: i64) -> (r: i64)
    requires
        lo <= hi,
    ensures
        lo <= r <= hi,
{
    rng.gen_range(lo..=hi)
}

} // verus!
