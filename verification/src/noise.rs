//! The one source of randomness: small uniform perturbations for velocity
//! commands and sensor readings.

use vstd::prelude::*;

verus! {

/// Relies on rand's `thread_rng` and `Rng::gen_range`: a sample drawn
/// uniformly from `-band..band` lies strictly inside that band. Nothing
/// further is assumed of the value: callers hold for every outcome.
#[verifier::external_body]
pub fn noise_sample(band: i64) -> (r: i64)
    requires
        band > 0,
    ensures
        -band < r < band,
{
    rand::Rng::gen_range(&mut rand::thread_rng(), -(band - 1)..band)
}

} // verus!
