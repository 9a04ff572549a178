//! Volume values in fixed point.
//!
//! The platform reports a session's or endpoint's volume as a scalar in
//! [0.0, 1.0]; the mixer's external contract speaks in percentages, 0 to
//! 100. Verified code holds both in integers: a scalar unit is a millionth
//! of full scale, a percent unit is a ten-thousandth of a percent. With
//! those resolutions `percent = 100 * scalar` is a one-for-one relabelling
//! of the same unit count, so the rescaling is exact in both directions.

use vstd::prelude::*;

verus! {

/// Unit count that stands for the scalar 1.0.
pub const SCALAR_FULL: u32 = 1_000_000;

/// Unit count that stands for 100 percent.
pub const PERCENT_FULL: u32 = 1_000_000;

/// A volume as the platform holds it: a scalar, in millionths of full
/// scale. Values above `SCALAR_FULL` are representable on purpose: the
/// mixer passes out-of-range volumes through to the platform unclamped.
#[derive(Clone, Copy, PartialEq, Eq, Structural, Debug)]
pub struct VolumeScalar {
    pub units: u32,
}

/// A volume as the mixer reports it: a percentage, in ten-thousandths of a
/// percent.
#[derive(Clone, Copy, PartialEq, Eq, Structural, Debug)]
pub struct VolumePercent {
    pub units: u32,
}

/// Rescaling a scalar to a percentage multiplies by 100; under the chosen
/// resolutions that keeps the unit count.
pub open spec fn spec_percent_of_scalar(s: VolumeScalar) -> VolumePercent {
    VolumePercent { units: s.units }
}

/// Rescaling a percentage to a scalar divides by 100; under the chosen
/// resolutions that keeps the unit count.
pub open spec fn spec_scalar_of_percent(p: VolumePercent) -> VolumeScalar {
    VolumeScalar { units: p.units }
}

/// Rescale a platform volume scalar to the externally reported percentage.
pub fn percent_of_scalar(s: VolumeScalar) -> (p: VolumePercent)
    ensures
        p == spec_percent_of_scalar(s),
{
    VolumePercent { units: s.units }
}

/// Rescale a requested percentage to the scalar handed to the platform.
pub fn scalar_of_percent(p: VolumePercent) -> (s: VolumeScalar)
    ensures
        s == spec_scalar_of_percent(p),
{
    VolumeScalar { units: p.units }
}

/// Whenever the underlying scalar is in range [0, 1], the reported
/// percentage is in range [0, 100]; no clamping is involved, the rescaling
/// alone keeps the range.
pub proof fn lemma_scalar_range_gives_percent_range(s: VolumeScalar)
    requires
        s.units <= SCALAR_FULL,
    ensures
        spec_percent_of_scalar(s).units <= PERCENT_FULL,
{
}

/// Writing a percentage to the platform and reading it back through the
/// scalar representation returns the percentage unchanged: the two
/// rescalings are exact inverses.
pub proof fn lemma_percent_scalar_round_trip(p: VolumePercent)
    ensures
        spec_percent_of_scalar(spec_scalar_of_percent(p)) == p,
{
}

/// Reading a scalar out as a percentage and writing that percentage back
/// leaves the scalar unchanged.
pub proof fn lemma_scalar_percent_round_trip(s: VolumeScalar)
    ensures
        spec_scalar_of_percent(spec_percent_of_scalar(s)) == s,
{
}

} // verus!
