//! The point-cloud asset: geometry, optional per-point color, and an
//! optional animation track of timestamped displacement keyframes.

use vstd::prelude::*;

verus! {

/// A point position in the library's fixed-point coordinate format.
/// The world-space coordinate is `value / denominator`, where the
/// denominator is stored once per asset.
#[derive(Clone, Copy, PartialEq, Eq, Structural, Debug)]
pub struct Position {
    pub x: i64,
    pub y: i64,
    pub z: i64,
}

/// A per-point color as an exact rational per channel: `channel / denom`.
/// Direct RGB carries `denom == 65535`; an intensity fallback broadcasts
/// the intensity over all three channels with `denom == 100`.
#[derive(Clone, Copy, PartialEq, Eq, Structural, Debug)]
pub struct PointColor {
    pub red: u16,
    pub green: u16,
    pub blue: u16,
    pub denom: u16,
}

/// A quantized per-point displacement for one keyframe, one signed byte per
/// axis. The world-space displacement is the value normalized to `[-1, 1]`
/// and multiplied by the asset's animation scale at the GPU boundary.
#[derive(Clone, Copy, PartialEq, Eq, Structural, Debug)]
pub struct Displacement {
    pub x: i8,
    pub y: i8,
    pub z: i8,
}

impl Displacement {
    /// The zero displacement, as a zero-filled buffer holds it.
    pub fn zero() -> (r: Displacement)
        ensures
            r == (Displacement { x: 0, y: 0, z: 0 }),
    {
        Displacement { x: 0, y: 0, z: 0 }
    }
}

/// One animation keyframe: a timestamp in whole milliseconds and one
/// displacement per point.
#[derive(Clone, Debug)]
pub struct Keyframe {
    pub time_ms: u64,
    pub displacements: Vec<Displacement>,
}

/// The per-axis animation scale of an asset, carried as the IEEE 754
/// single-precision bit patterns read from the source file. The library
/// never interprets them; the GPU boundary multiplies displacements by them.
#[derive(Clone, Copy, PartialEq, Eq, Structural, Debug)]
pub struct ScaleBits {
    pub x: u32,
    pub y: u32,
    pub z: u32,
}

/// A loaded point-cloud asset, immutable once built by a loader.
#[derive(Clone, Debug)]
pub struct PointCloudAsset {
    /// Point positions in fixed-point units of `1 / position_denom`.
    pub positions: Vec<Position>,
    /// The common positive denominator of all position coordinates.
    pub position_denom: u64,
    /// Optional per-point colors, same length as `positions`.
    pub colors: Option<Vec<PointColor>>,
    /// Optional animation keyframes with strictly increasing timestamps.
    pub animation: Option<Vec<Keyframe>>,
    /// Per-axis conversion from quantized displacement units to world space.
    pub animation_scale: ScaleBits,
}

/// Strictly increasing keyframe timestamps.
pub open spec fn times_strictly_increasing(frames: Seq<Keyframe>) -> bool {
    forall|i: int, j: int| 0 <= i < j < frames.len() ==> frames[i].time_ms < frames[j].time_ms
}

/// Every keyframe carries exactly one displacement per point.
pub open spec fn frames_match_points(frames: Seq<Keyframe>, num_points: int) -> bool {
    forall|i: int| 0 <= i < frames.len() ==> #[trigger] frames[i].displacements@.len() == num_points
}

/// A well-formed animation track: nonempty, strictly increasing timestamps,
/// and a positive duration (the last timestamp).
pub open spec fn animation_wf(frames: Seq<Keyframe>, num_points: int) -> bool {
    &&& frames.len() > 0
    &&& times_strictly_increasing(frames)
    &&& frames_match_points(frames, num_points)
    &&& frames.last().time_ms > 0
}

impl PointCloudAsset {
    /// Well-formedness: a positive coordinate denominator, colors matching
    /// the point count when present, and a well-formed animation track when
    /// present. Every loader establishes this.
    pub open spec fn wf(self) -> bool {
        &&& self.position_denom > 0
        &&& match self.colors {
            Some(colors) => colors@.len() == self.positions@.len(),
            None => true,
        }
        &&& match self.animation {
            Some(frames) => animation_wf(frames@, self.positions@.len() as int),
            None => true,
        }
    }

    /// The animation duration in milliseconds: the last keyframe's
    /// timestamp, or `None` for a static asset.
    pub open spec fn spec_animation_duration(self) -> Option<u64> {
        match self.animation {
            Some(frames) => Some(frames@.last().time_ms),
            None => None,
        }
    }

    /// Returns the animation duration in milliseconds, or `None` for a
    /// static asset.
    pub fn animation_duration(&self) -> (r: Option<u64>)
        requires
            self.wf(),
        ensures
            r == self.spec_animation_duration(),
            r matches Some(d) ==> d > 0,
    {
        match &self.animation {
            Some(frames) => Some(frames[frames.len() - 1].time_ms),
            None => None,
        }
    }

    /// Whether the asset carries per-point colors.
    pub fn colored(&self) -> (r: bool)
        ensures
            r == self.colors is Some,
    {
        self.colors.is_some()
    }

    /// The number of points.
    pub fn num_points(&self) -> (r: usize)
        ensures
            r == self.positions@.len(),
    {
        self.positions.len()
    }
}

} // verus!
