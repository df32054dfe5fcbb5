//! Verified core of an animated point-cloud playback pipeline.
//!
//! The library models the data and decisions of a point-sprite renderer:
//! parsing point-cloud files into assets, the playback timeline, the
//! double-buffered animation seek machine, clipping-plane collection,
//! pipeline specialization, and the per-frame draw plan. All quantities the
//! logic reasons about are integers or exact rationals; conversion to GPU
//! floating-point happens outside the library, at the device boundary.

pub mod numeric;
pub mod point_cloud;
pub mod render;
pub mod playback;
pub mod clipping_planes;
pub mod pipeline;
pub mod render_graph;
pub mod las_loader;
pub mod opd_loader;
pub mod wpo_loader;
