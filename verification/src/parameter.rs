//! Global simulation parameters, in fixed-point units, together with the
//! machine bounds under which the arithmetic of the crate is proved exact.

use vstd::prelude::*;

verus! {

/// World units covered by one pixel, in micro-units.
pub const RESOLUTION: i64 = 25_000;

/// Default tick length, in micro-seconds (one tick at 60 Hz).
pub const DT: i64 = 16_667;

/// Lower x limit of the drawn world, in micro-units.
pub const XLIM_LO: i64 = -15_000_000;

/// Upper x limit of the drawn world, in micro-units.
pub const XLIM_HI: i64 = 15_000_000;

/// Lower y limit of the drawn world, in micro-units.
pub const YLIM_LO: i64 = -15_000_000;

/// Upper y limit of the drawn world, in micro-units.
pub const YLIM_HI: i64 = 15_000_000;

/// Width of the pixel map.
pub const WIDTH: i64 = 1_200;

/// Height of the pixel map.
pub const HEIGHT: i64 = 1_200;

/// Largest coordinate accepted by the pose-interpolation arithmetic.
pub const POS_LIMIT: i64 = 1_000_000_000_000_000;

/// Largest pose coordinate accepted by the stepping and collision pipeline.
pub const POSE_LIMIT: i64 = 500_000_000;

/// Largest pose coordinate accepted by the swept-collision arithmetic.
pub const SWEEP_LIMIT: i64 = 700_000_000;

/// Largest point coordinate accepted by the geometric predicates.
pub const GEOM_LIMIT: i64 = 1_200_000_000;

/// Largest velocity-command component magnitude accepted.
pub const VEL_LIMIT: i64 = 100_000_000;

/// Smallest footprint dimension (radius, width, height) accepted.
pub const DIM_MIN: i64 = 1_000;

/// Largest footprint dimension accepted.
pub const DIM_MAX: i64 = 100_000_000;

/// Largest tick length accepted, in micro-seconds.
pub const DT_MAX: i64 = 100_000;

/// Maximum length of a sensor ray, in micro-units.
pub const RAY_MAX: i64 = 10_000_000;

/// Sentinel range reported by a beam that hits nothing.
pub const SENSE_MAX: i64 = 20_000_000;

/// Broad contact margin: pairs closer than this are reported as touching.
pub const CONTACT_MARGIN: i64 = 100_000;

/// Tight overlap threshold used when probing a candidate pose.
pub const OVERLAP_MARGIN: i64 = 50_000;

} // verus!
