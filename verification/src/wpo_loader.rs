//! The loader stub for physics-replay point sets in the wpo format.
//!
//! Decoding the replay stream needs its own replay-reading crate, which
//! this build does not carry; the format stands as an explicit, finite
//! extension point. The loader claims the extension and rejects every
//! stream with a distinct error instead of decoding it.

use vstd::prelude::*;

use crate::point_cloud::PointCloudAsset;

verus! {

/// Errors of the wpo loader.
#[derive(Clone, Copy, PartialEq, Eq, Structural, Debug)]
pub enum WpoLoaderError {
    /// Replay streams are not decoded by this build.
    UnsupportedFormat,
}

/// The loader for wpo replay byte streams.
#[derive(Clone, Copy, PartialEq, Eq, Structural, Debug)]
pub struct WpoLoader;

impl WpoLoader {
    /// The file extensions this loader claims.
    pub fn extensions(&self) -> (r: Vec<&'static str>)
        ensures
            r@.len() == 1,
            r@[0]@ == "wpo"@,
    {
        let mut r: Vec<&'static str> = Vec::new();
        r.push("wpo");
        r
    }

    /// Rejects every replay stream: the format is an extension point this
    /// build does not decode.
    pub fn load_wpo_replay(bytes: &[u8]) -> (r: Result<PointCloudAsset, WpoLoaderError>)
        ensures
            r is Err,
    {
        let _ = bytes.len();
        Err(WpoLoaderError::UnsupportedFormat)
    }

    /// The loader entry point.
    pub fn load(&self, bytes: &[u8]) -> (r: Result<PointCloudAsset, WpoLoaderError>)
        ensures
            r is Err,
    {
        Self::load_wpo_replay(bytes)
    }
}

} // verus!
