//! The single seeded random source threaded through a run.

use rand::rngs::SmallRng;
use rand::Rng;
use vstd::prelude::*;

verus! {

#[verifier::external_type_specification]
#[verifier::external_body]
pub struct ExSmallRng(SmallRng);

/// Relies on rand's `Rng::random_range` over `0..n`: the draw lies in the
/// half-open range, and the call panics only when the range is empty.
#[verifier::external_body]
pub fn random_below(rng: &mut SmallRng, n: usize) -> (r: usize)
    requires
        n > 0,
    ensures
        r < n,
{
    rng.random_range(0..n)
}

/// A uniformly drawn byte.
pub fn random_byte(rng: &mut SmallRng) -> (r: u8) {
    random_below(rng, 256) as u8
}

/// A uniformly drawn 16-bit value.
pub fn random_u16(rng: &mut SmallRng) -> (r: u16) {
    random_below(rng, 65536) as u16
}

/// A fair coin.
pub fn random_bool(rng: &mut SmallRng) -> (r: bool) {
    random_below(rng, 2) == 1
}

} // verus!
