//! Collection of scene clipping planes into the fixed-capacity uniform
//! block that the point-splat fragment stage consumes.

use vstd::prelude::*;

use crate::point_cloud::Position;

verus! {

/// The clipping shader is `O(planes * points)`, so the uniform holds at
/// most this many planes; planes beyond the cap are dropped.
pub const MAX_CLIPPING_PLANES: usize = 16;

/// Sentinel for "no upper bound": everything in front of the plane stays
/// visible.
pub const SDIST_UNBOUNDED: i64 = i64::MAX;

/// The inclusive band of signed distances from a plane whose points stay
/// visible, in fixed-point coordinate units.
#[derive(Clone, Copy, PartialEq, Eq, Structural, Debug)]
pub struct ClippingPlaneRange {
    /// The minimum signed distance from a visible point to the plane.
    pub min_sdist: i64,
    /// The maximum signed distance from a visible point to the plane.
    pub max_sdist: i64,
}

impl Default for ClippingPlaneRange {
    /// Everything in front of the plane: `[0, unbounded)`.
    fn default() -> (r: Self)
        ensures
            r == (ClippingPlaneRange { min_sdist: 0, max_sdist: SDIST_UNBOUNDED }),
    {
        ClippingPlaneRange { min_sdist: 0, max_sdist: SDIST_UNBOUNDED }
    }
}

/// One clipping plane as read from the scene: its visible band together
/// with the placement derived from the owning transform (the world-space
/// position, and the local +X axis as the unit normal), both already in
/// fixed-point coordinates.
#[derive(Clone, Copy, PartialEq, Eq, Structural, Debug)]
pub struct ClippingPlaneInstance {
    pub range: ClippingPlaneRange,
    pub origin: Position,
    pub unit_normal: Position,
}

/// One entry of the uploaded uniform array.
#[derive(Clone, Copy, PartialEq, Eq, Structural, Debug)]
pub struct GpuClippingPlaneRange {
    pub origin: Position,
    pub unit_normal: Position,
    pub min_sdist: i64,
    pub max_sdist: i64,
}

/// The uniform entry a scene instance flattens to.
pub open spec fn spec_gpu_plane(p: ClippingPlaneInstance) -> GpuClippingPlaneRange {
    GpuClippingPlaneRange {
        origin: p.origin,
        unit_normal: p.unit_normal,
        min_sdist: p.range.min_sdist,
        max_sdist: p.range.max_sdist,
    }
}

/// The uniform block handed to the GPU: the surviving planes, their count,
/// and whether any were dropped at the cap (surfaced as a logged warning
/// outside the library).
#[derive(Clone, Debug)]
pub struct GpuClippingPlaneRanges {
    pub ranges: Vec<GpuClippingPlaneRange>,
    pub num_ranges: u32,
    pub truncated: bool,
}

/// Collects the scene's clipping planes into the uniform block, keeping
/// the first `MAX_CLIPPING_PLANES` in iteration order and dropping the
/// rest. Which planes survive is decided by the input order alone —
/// iteration-order dependent and implementation-defined, not guaranteed
/// stable.
pub fn extract_clipping_planes(planes: &Vec<ClippingPlaneInstance>) -> (r: GpuClippingPlaneRanges)
    ensures
        r.ranges@.len() == if planes@.len() <= MAX_CLIPPING_PLANES {
            planes@.len() as int
        } else {
            MAX_CLIPPING_PLANES as int
        },
        r.num_ranges == r.ranges@.len(),
        forall|i: int|
            0 <= i < r.ranges@.len() ==> r.ranges@[i] == spec_gpu_plane(planes@[i]),
        r.truncated <==> planes@.len() > MAX_CLIPPING_PLANES,
{
    let mut ranges: Vec<GpuClippingPlaneRange> = Vec::new();
    let mut i: usize = 0;
    let keep = if planes.len() <= MAX_CLIPPING_PLANES {
        planes.len()
    } else {
        MAX_CLIPPING_PLANES
    };
    while i < keep
        invariant
            i <= keep,
            keep <= planes@.len(),
            ranges@.len() == i,
            forall|j: int| 0 <= j < i ==> ranges@[j] == spec_gpu_plane(planes@[j]),
        decreases keep - i,
    {
        let p = planes[i];
        ranges.push(GpuClippingPlaneRange {
            origin: p.origin,
            unit_normal: p.unit_normal,
            min_sdist: p.range.min_sdist,
            max_sdist: p.range.max_sdist,
        });
        i = i + 1;
    }
    let num_ranges = ranges.len() as u32;
    GpuClippingPlaneRanges { ranges, num_ranges, truncated: planes.len() > MAX_CLIPPING_PLANES }
}

} // verus!
