//! The GPU availability model: a three-state, one-shot disposition and the
//! guardrails that bypass the GPU path rather than risking device-level
//! failure. Device creation itself happens outside this core; only its
//! outcome is recorded here, exactly once.

use vstd::prelude::*;

verus! {

/// Largest texture side the GPU path will ever touch, whatever the device
/// reports.
pub const GPU_MAX_SAFE_DIM: u32 = 8192;

/// Largest pixel count the GPU path will ever touch.
pub const GPU_MAX_SAFE_PIXELS: u64 = 150_000_000;

/// The lifecycle of the GPU context: initialization has not been tried,
/// succeeded with a device limit, or failed for the rest of the process.
pub enum GpuState {
    Uninitialized,
    Ready { max_safe_dim: u32 },
    Failed,
}

/// The process-lifetime GPU disposition. Initialization is recorded at
/// most once: `note_init_outcome` demands the untried state, so a `Failed`
/// disposition can never become `Ready` again — there is no retry.
pub struct GpuDisposition {
    state: GpuState,
}

/// Whether the guardrails admit an image of the given dimensions: a ready
/// device, both sides within the safe texture limit, and the pixel count
/// under the safety ceiling.
pub open spec fn sp_gpu_allows(s: GpuState, w: int, h: int) -> bool {
    match s {
        GpuState::Ready { max_safe_dim } => {
            &&& w <= max_safe_dim
            &&& h <= max_safe_dim
            &&& w * h <= GPU_MAX_SAFE_PIXELS
        },
        _ => false,
    }
}

impl GpuDisposition {
    /// The current lifecycle state.
    pub closed spec fn sp_state(self) -> GpuState {
        self.state
    }

    /// The untried disposition.
    pub fn new() -> (r: GpuDisposition)
        ensures
            r.sp_state() is Uninitialized,
    {
        GpuDisposition { state: GpuState::Uninitialized }
    }

    /// Record the one-shot initialization outcome: a created device's
    /// reported texture limit (capped at the safe limit), or a failure —
    /// including a captured initialization panic — which disables the GPU
    /// path for the remainder of the process.
    pub fn note_init_outcome(&mut self, outcome: Option<u32>)
        requires
            old(self).sp_state() is Uninitialized,
        ensures
            match outcome {
                Some(device_dim) => final(self).sp_state() == (GpuState::Ready {
                    max_safe_dim: if device_dim <= GPU_MAX_SAFE_DIM {
                        device_dim
                    } else {
                        GPU_MAX_SAFE_DIM
                    },
                }),
                None => final(self).sp_state() is Failed,
            },
    {
        match outcome {
            Some(device_dim) => {
                let capped = if device_dim <= GPU_MAX_SAFE_DIM {
                    device_dim
                } else {
                    GPU_MAX_SAFE_DIM
                };
                self.state = GpuState::Ready { max_safe_dim: capped };
            },
            None => {
                self.state = GpuState::Failed;
            },
        }
    }

    /// Whether the GPU path is available at all.
    pub fn available(&self) -> (r: bool)
        ensures
            r == (self.sp_state() is Ready),
    {
        match self.state {
            GpuState::Ready { .. } => true,
            _ => false,
        }
    }

    /// Whether the guardrails admit an image of the given dimensions.
    pub fn allows(&self, w: u32, h: u32) -> (r: bool)
        ensures
            r == sp_gpu_allows(self.sp_state(), w as int, h as int),
    {
        match self.state {
            GpuState::Ready { max_safe_dim } => {
                if w <= max_safe_dim && h <= max_safe_dim {
                    proof {
                        assert((w as int) * (h as int) < 0x1_0000_0000_0000_0000) by (nonlinear_arith)
                            requires
                                (w as int) < 0x1_0000_0000,
                                (h as int) < 0x1_0000_0000,
                                0 <= w as int,
                                0 <= h as int,
                        ;
                    }
                    (w as u64) * (h as u64) <= GPU_MAX_SAFE_PIXELS
                } else {
                    false
                }
            },
            _ => false,
        }
    }
}

} // verus!
