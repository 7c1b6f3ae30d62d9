//! The per-frame synchronization protocol.
//!
//! One frame in flight, strictly sequential: Idle, Acquiring, Recording,
//! Submitted, Presenting, and back to Idle. A cycle blocks on the fence,
//! resets it and the command pool, acquires the next image, records the
//! fixed command sequence (a layout barrier to color-attachment, dynamic
//! rendering of one three-vertex draw, a barrier to the present layout),
//! submits waiting on the acquire semaphore and signaling the present
//! semaphore and the fence, and presents waiting on the present semaphore.
//! Every failure aborts the cycle and propagates to the caller unmodified;
//! there are no retries.

use vstd::prelude::*;

use crate::RenderError;
use crate::SwapchainFailure;

verus! {

/// The strictly sequential per-frame states.
#[derive(Clone, Copy, Debug, PartialEq, Eq, Structural)]
pub enum FrameState {
    Idle,
    Acquiring,
    Recording,
    Submitted,
    Presenting,
}

/// The fixed state progression of one frame cycle.
pub open spec fn next_frame_state(s: FrameState) -> FrameState {
    match s {
        FrameState::Idle => FrameState::Acquiring,
        FrameState::Acquiring => FrameState::Recording,
        FrameState::Recording => FrameState::Submitted,
        FrameState::Submitted => FrameState::Presenting,
        FrameState::Presenting => FrameState::Idle,
    }
}

/// Exec mirror of the fixed state progression.
pub fn advance_frame_state(s: FrameState) -> (r: FrameState)
    ensures
        r == next_frame_state(s),
{
    match s {
        FrameState::Idle => FrameState::Acquiring,
        FrameState::Acquiring => FrameState::Recording,
        FrameState::Recording => FrameState::Submitted,
        FrameState::Submitted => FrameState::Presenting,
        FrameState::Presenting => FrameState::Idle,
    }
}

/// One driver operation of the frame cycle, in the order issued.
#[derive(Clone, Copy, Debug, PartialEq, Eq, Structural)]
pub enum FrameOp {
    WaitFence,
    ResetFence,
    ResetCommandPool,
    AcquireImage,
    BeginCommandBuffer,
    BarrierToColorAttachment { image_index: u32 },
    BeginRendering { image_index: u32 },
    BindPipeline,
    Draw { vertex_count: u32, instance_count: u32 },
    EndRendering,
    BarrierToPresent { image_index: u32 },
    EndCommandBuffer,
    Submit,
    Present { image_index: u32 },
}

/// What the driver answered for each step of one cycle. Acquisition
/// carries the acquired image index; every other step carries only its
/// result code.
#[derive(Clone, Copy, Debug)]
pub struct FrameOutcomes {
    pub wait_fence: Result<(), i32>,
    pub reset_fence: Result<(), i32>,
    pub reset_pool: Result<(), i32>,
    pub acquire: Result<u32, i32>,
    pub begin_commands: Result<(), i32>,
    pub end_commands: Result<(), i32>,
    pub submit: Result<(), i32>,
    pub present: Result<(), i32>,
}

/// Every step of the cycle succeeded.
pub open spec fn gpu_all_ok(g: FrameOutcomes) -> bool {
    &&& g.wait_fence is Ok
    &&& g.reset_fence is Ok
    &&& g.reset_pool is Ok
    &&& g.acquire is Ok
    &&& g.begin_commands is Ok
    &&& g.end_commands is Ok
    &&& g.submit is Ok
    &&& g.present is Ok
}

/// The acquired image index, when acquisition succeeded.
pub open spec fn acquired_index(g: FrameOutcomes) -> u32 {
    match g.acquire {
        Ok(i) => i,
        Err(_) => 0,
    }
}

/// The full, fixed operation sequence of one successful cycle for the
/// acquired image index.
pub open spec fn cycle_spec(idx: u32) -> Seq<FrameOp> {
    seq![
        FrameOp::WaitFence,
        FrameOp::ResetFence,
        FrameOp::ResetCommandPool,
        FrameOp::AcquireImage,
        FrameOp::BeginCommandBuffer,
        FrameOp::BarrierToColorAttachment { image_index: idx },
        FrameOp::BeginRendering { image_index: idx },
        FrameOp::BindPipeline,
        FrameOp::Draw { vertex_count: 3, instance_count: 1 },
        FrameOp::EndRendering,
        FrameOp::BarrierToPresent { image_index: idx },
        FrameOp::EndCommandBuffer,
        FrameOp::Submit,
        FrameOp::Present { image_index: idx },
    ]
}

/// The operations one cycle completes under the given outcomes: the fixed
/// sequence cut off at the first failing step.
pub open spec fn trace_delta(g: FrameOutcomes) -> Seq<FrameOp> {
    let full = cycle_spec(acquired_index(g));
    if g.wait_fence is Err {
        full.take(0)
    } else if g.reset_fence is Err {
        full.take(1)
    } else if g.reset_pool is Err {
        full.take(2)
    } else if g.acquire is Err {
        full.take(3)
    } else if g.begin_commands is Err {
        full.take(4)
    } else if g.end_commands is Err {
        full.take(11)
    } else if g.submit is Err {
        full.take(12)
    } else if g.present is Err {
        full.take(13)
    } else {
        full
    }
}

/// The error one cycle reports under the given outcomes: the first failing
/// step's, unmodified. Waits, resets, recording and submission report
/// synchronization failures; acquisition and presentation report swapchain
/// failures.
pub open spec fn cycle_error(g: FrameOutcomes) -> RenderError {
    match g.wait_fence {
        Err(c) => RenderError::Synchronization(c),
        Ok(_) => match g.reset_fence {
            Err(c) => RenderError::Synchronization(c),
            Ok(_) => match g.reset_pool {
                Err(c) => RenderError::Synchronization(c),
                Ok(_) => match g.acquire {
                    Err(c) => RenderError::Swapchain(SwapchainFailure::Acquire(c)),
                    Ok(_) => match g.begin_commands {
                        Err(c) => RenderError::Synchronization(c),
                        Ok(_) => match g.end_commands {
                            Err(c) => RenderError::Synchronization(c),
                            Ok(_) => match g.submit {
                                Err(c) => RenderError::Synchronization(c),
                                Ok(_) => match g.present {
                                    Err(c) => RenderError::Swapchain(
                                        SwapchainFailure::Present(c),
                                    ),
                                    Ok(_) => RenderError::Synchronization(0),
                                },
                            },
                        },
                    },
                },
            },
        },
    }
}

/// Whether the fence ends the cycle signaled: submission signals it, so it
/// is signaled exactly when submission succeeded; a failure before the
/// fence reset leaves it as it was, and any later failure before
/// submission leaves it unsignaled.
pub open spec fn fence_after(g: FrameOutcomes, was_signaled: bool) -> bool {
    if g.wait_fence is Err || g.reset_fence is Err {
        was_signaled
    } else {
        g.reset_pool is Ok && g.acquire is Ok && g.begin_commands is Ok && g.end_commands is Ok
            && g.submit is Ok
    }
}

/// The fixed recording plan of one cycle, as issued to the driver.
pub fn cycle_ops(image_index: u32) -> (r: Vec<FrameOp>)
    ensures
        r@ == cycle_spec(image_index),
{
    let r: Vec<FrameOp> = vec![
        FrameOp::WaitFence,
        FrameOp::ResetFence,
        FrameOp::ResetCommandPool,
        FrameOp::AcquireImage,
        FrameOp::BeginCommandBuffer,
        FrameOp::BarrierToColorAttachment { image_index },
        FrameOp::BeginRendering { image_index },
        FrameOp::BindPipeline,
        FrameOp::Draw { vertex_count: 3, instance_count: 1 },
        FrameOp::EndRendering,
        FrameOp::BarrierToPresent { image_index },
        FrameOp::EndCommandBuffer,
        FrameOp::Submit,
        FrameOp::Present { image_index },
    ];
    assert(r@ =~= cycle_spec(image_index));
    r
}

/// Frame-cycle idempotence: consecutive successful cycles that acquire the
/// same image issue the identical ordered operation sequence, every time.
pub proof fn lemma_frame_cycle_idempotent(g1: FrameOutcomes, g2: FrameOutcomes)
    requires
        gpu_all_ok(g1),
        gpu_all_ok(g2),
        g1.acquire == g2.acquire,
    ensures
        trace_delta(g1) == trace_delta(g2),
        trace_delta(g1) == cycle_spec(acquired_index(g1)),
{
}

/// The command pool is reset exactly once per cycle: the fixed sequence
/// holds the reset at one position and nowhere else.
pub proof fn lemma_pool_reset_once_per_cycle(idx: u32)
    ensures
        cycle_spec(idx)[2] is ResetCommandPool,
        forall|j: int|
            0 <= j < cycle_spec(idx).len() && j != 2 ==> !(#[trigger] cycle_spec(idx)[j]
                is ResetCommandPool),
{
    assert forall|j: int|
        0 <= j < cycle_spec(idx).len() && j != 2 implies !(#[trigger] cycle_spec(idx)[j]
        is ResetCommandPool) by {
        if j == 0 {
        } else if j == 1 {
        } else if j == 3 {
        } else if j == 4 {
        } else if j == 5 {
        } else if j == 6 {
        } else if j == 7 {
        } else if j == 8 {
        } else if j == 9 {
        } else if j == 10 {
        } else if j == 11 {
        } else if j == 12 {
        } else {
            assert(j == 13);
        }
    }
}

} // verus!
