//! Uniform position sampling over a rectangular region, for planners that
//! explore the scene by rejection sampling.

use vstd::prelude::*;

verus! {

/// Relies on rand's `thread_rng` and `Rng::gen_range`: a sample drawn from
/// `lo..hi` lies in that half-open range. Nothing further is assumed of the
/// value: callers hold for every outcome.
#[verifier::external_body]
fn sample_range(lo: i64, hi: i64) -> (r: i64)
    requires
        lo < hi,
    ensures
        lo <= r < hi,
{
    rand::Rng::gen_range(&mut rand::thread_rng(), lo..hi)
}

/// A uniform sampler over an axis-aligned rectangle.
pub struct SimpleSampler {
    /// Lower and upper x bound.
    pub xbounds: (i64, i64),
    /// Lower and upper y bound.
    pub ybounds: (i64, i64),
}

impl SimpleSampler {
    /// A sampler over the given bounds.
    pub fn new(xbounds: (i64, i64), ybounds: (i64, i64)) -> (r: SimpleSampler)
        requires
            xbounds.0 < xbounds.1,
            ybounds.0 < ybounds.1,
        ensures
            r.xbounds == xbounds,
            r.ybounds == ybounds,
            r.xbounds.0 < r.xbounds.1,
            r.ybounds.0 < r.ybounds.1,
    {
        SimpleSampler { xbounds, ybounds }
    }

    /// One position drawn from the rectangle; every outcome lies inside
    /// the bounds.
    pub fn sample(&self) -> (r: (i64, i64))
        requires
            self.xbounds.0 < self.xbounds.1,
            self.ybounds.0 < self.ybounds.1,
        ensures
            self.xbounds.0 <= r.0 < self.xbounds.1,
            self.ybounds.0 <= r.1 < self.ybounds.1,
    {
        (
            sample_range(self.xbounds.0, self.xbounds.1),
            sample_range(self.ybounds.0, self.ybounds.1),
        )
    }
}

} // verus!
