//! Debug statistics folded into published state snapshots.

use vstd::prelude::*;

verus! {

/// Statistics gathered by the compute worker: mean compute steps per second.
#[derive(Clone, Copy, Debug, PartialEq, Eq, Structural)]
pub struct ComputeDebugInfo {
    pub mean_cps: u32,
}

/// Compute statistics together with the renderer's own frame rate.
#[derive(Clone, Copy, Debug, PartialEq, Eq, Structural)]
pub struct DebugInfo {
    pub compute: ComputeDebugInfo,
    pub mean_fps: u32,
}

impl ComputeDebugInfo {
    /// The statistics before any measurement has completed.
    pub fn initial() -> (r: ComputeDebugInfo)
        ensures
            r.mean_cps == 0,
    {
        ComputeDebugInfo { mean_cps: 0 }
    }

    /// Pairs the compute statistics with the renderer's frame rate.
    pub fn add_render_info(&self, mean_fps: u32) -> (r: DebugInfo)
        ensures
            r.compute == *self,
            r.mean_fps == mean_fps,
    {
        DebugInfo { mean_fps, compute: *self }
    }
}

} // verus!
