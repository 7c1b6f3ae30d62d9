//! The per-frame draw cycle.
//!
//! `draw` runs one cycle of the frame synchronizer against the driver's
//! answers: it walks the strictly sequential states, records exactly the
//! fixed operation sequence for the acquired image, and stops at the
//! first failing step, whose error propagates to the caller unmodified.
//! The context's negotiated configuration never changes and no resource
//! is created or destroyed: consecutive cycles issue the identical
//! ordered operation sequence.

use vstd::prelude::*;

use crate::context::Context;
use crate::frame::acquired_index;
use crate::frame::advance_frame_state;
use crate::frame::cycle_error;
use crate::frame::cycle_spec;
use crate::frame::fence_after;
use crate::frame::gpu_all_ok;
use crate::frame::trace_delta;
use crate::frame::FrameOutcomes;
use crate::frame::FrameState;
use crate::RenderError;
use crate::SwapchainFailure;

verus! {

/// Drives the per-frame cycle of a rendering context.
#[derive(Debug)]
pub struct Renderer;

impl Renderer {
    /// A renderer holds no state of its own.
    pub fn new() -> Renderer {
        Renderer
    }

    /// Runs one frame cycle against the driver's answers.
    ///
    /// Requires an idle, live context and leaves it idle. Succeeds iff
    /// every step succeeded; otherwise reports the first failing step's
    /// error unmodified. The issued-operation trace grows by exactly the
    /// fixed cycle sequence cut off at the first failure, the fence ends
    /// signaled exactly when submission succeeded (or keeps its old state
    /// when the cycle failed before the fence reset), and the negotiated
    /// configuration and resource counts are untouched.
    pub fn draw(&mut self, context: &mut Context, gpu: &FrameOutcomes) -> (r: Result<
        (),
        RenderError,
    >)
        requires
            old(context).frame is Idle,
            !old(context).torn_down,
        ensures
            final(context).frame is Idle,
            final(context).width == old(context).width,
            final(context).height == old(context).height,
            final(context).validation == old(context).validation,
            final(context).instance_extensions == old(context).instance_extensions,
            final(context).instance_layers == old(context).instance_layers,
            final(context).selection == old(context).selection,
            final(context).swapchain == old(context).swapchain,
            final(context).image_view_count == old(context).image_view_count,
            final(context).pipeline == old(context).pipeline,
            final(context).torn_down == old(context).torn_down,
            final(context).trace@ == old(context).trace@ + trace_delta(*gpu),
            final(context).fence_signaled == fence_after(*gpu, old(context).fence_signaled),
            r is Ok <==> gpu_all_ok(*gpu),
            r matches Err(e) ==> e == cycle_error(*gpu),
            gpu_all_ok(*gpu) ==> final(context).trace@ == old(context).trace@ + cycle_spec(
                acquired_index(*gpu),
            ),
    {
        let ghost t0 = context.trace@;
        // Idle -> Acquiring: block on the fence, reset it, reset the pool.
        context.frame = advance_frame_state(context.frame);
        match gpu.wait_fence {
            Err(c) => {
                context.frame = FrameState::Idle;
                context.trace = Ghost(t0 + trace_delta(*gpu));
                return Err(RenderError::Synchronization(c));
            },
            Ok(_) => {},
        }
        match gpu.reset_fence {
            Err(c) => {
                context.frame = FrameState::Idle;
                context.trace = Ghost(t0 + trace_delta(*gpu));
                return Err(RenderError::Synchronization(c));
            },
            Ok(_) => {},
        }
        context.fence_signaled = false;
        match gpu.reset_pool {
            Err(c) => {
                context.frame = FrameState::Idle;
                context.trace = Ghost(t0 + trace_delta(*gpu));
                return Err(RenderError::Synchronization(c));
            },
            Ok(_) => {},
        }
        // Acquiring: request the next image; the acquire semaphore is the
        // driver-side completion signal. Failure here is fatal.
        let _image_index: u32 = match gpu.acquire {
            Err(c) => {
                context.frame = FrameState::Idle;
                context.trace = Ghost(t0 + trace_delta(*gpu));
                return Err(RenderError::Swapchain(SwapchainFailure::Acquire(c)));
            },
            Ok(idx) => idx,
        };
        // Acquiring -> Recording: the fixed command sequence for the
        // acquired image.
        context.frame = advance_frame_state(context.frame);
        match gpu.begin_commands {
            Err(c) => {
                context.frame = FrameState::Idle;
                context.trace = Ghost(t0 + trace_delta(*gpu));
                return Err(RenderError::Synchronization(c));
            },
            Ok(_) => {},
        }
        match gpu.end_commands {
            Err(c) => {
                context.frame = FrameState::Idle;
                context.trace = Ghost(t0 + trace_delta(*gpu));
                return Err(RenderError::Synchronization(c));
            },
            Ok(_) => {},
        }
        // Recording -> Submitted: submit waiting on the acquire
        // semaphore, signaling the present semaphore and the fence.
        context.frame = advance_frame_state(context.frame);
        match gpu.submit {
            Err(c) => {
                context.frame = FrameState::Idle;
                context.trace = Ghost(t0 + trace_delta(*gpu));
                return Err(RenderError::Synchronization(c));
            },
            Ok(_) => {},
        }
        context.fence_signaled = true;
        // Submitted -> Presenting: present waiting on the present
        // semaphore; failure propagates uninterpreted.
        context.frame = advance_frame_state(context.frame);
        match gpu.present {
            Err(c) => {
                context.frame = FrameState::Idle;
                context.trace = Ghost(t0 + trace_delta(*gpu));
                return Err(RenderError::Swapchain(SwapchainFailure::Present(c)));
            },
            Ok(_) => {},
        }
        // Presenting -> Idle: the cycle is complete.
        context.frame = advance_frame_state(context.frame);
        context.trace = Ghost(t0 + trace_delta(*gpu));
        Ok(())
    }
}

} // verus!
