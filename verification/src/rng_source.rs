//! The uniform random source consumed by the weighted draw.
//!
//! The random number generator is supplied by the caller per call; this
//! module only declares its type and draws one bounded value from it. What
//! is done with the drawn value is verified in `catalog`.

use rand::distributions::{Distribution, Uniform};
use rand::rngs::SmallRng;
use vstd::prelude::*;

verus! {

/// Declares rand's `SmallRng` so the caller-supplied generator can cross the
/// library's signatures; the library never looks inside it.
#[verifier::external_type_specification]
#[verifier::external_body]
pub struct ExSmallRng(SmallRng);

/// Relies on rand's `Uniform::new_inclusive(0, bound)` and `sample`: the
/// sampled value lies in `[0, bound]`, and construction cannot fail since
/// the lower bound never exceeds the upper. Nothing more is assumed of a
/// random value.
#[verifier::external_body]
pub(crate) fn draw_le(rng: &mut SmallRng, bound: u64) -> (r: u64)
    ensures
        r <= bound,
{
    Uniform::new_inclusive(0u64, bound).sample(rng)
}

} // verus!
