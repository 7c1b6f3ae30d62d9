//! A minimal real-time rendering context, verified.
//!
//! The library negotiates driver capabilities over plain values, fixes a
//! presentation configuration (swapchain and one immutable graphics
//! pipeline), and drives the strictly sequential per-frame protocol:
//! acquire, record, submit, present, one frame in flight, with a fixed
//! reverse-dependency teardown order. Beside the rendering core sits a
//! small asset system: packing, a canonical textual encoding, and
//! lz4-compressed storage. The host application owns the window, the
//! driver handles and all input and output; it hands this library the
//! enumerated capabilities and each driver answer as plain values, and
//! carries out the decisions the library returns.

pub mod asset;
pub mod capability;
pub mod codec;
pub mod context;
pub mod engine;
pub mod frame;
pub mod negotiate;
pub mod pipeline;
pub mod renderer;
pub mod spv;
pub mod swapchain;
pub mod texture;

use vstd::prelude::*;

verus! {

/// A swapchain operation that failed, with the driver's result code.
#[derive(Clone, Copy, Debug, PartialEq, Eq, Structural)]
pub enum SwapchainFailure {
    Creation(i32),
    Acquire(i32),
    Present(i32),
}

/// A pipeline-construction step that failed.
#[derive(Clone, Copy, Debug, PartialEq, Eq, Structural)]
pub enum PipelineFailure {
    ShaderDecode,
    Creation(i32),
}

/// Everything that can go wrong while building the rendering context or
/// driving a frame.
#[derive(Debug)]
pub enum RenderError {
    /// A required layer or extension is unsupported; carries the complete
    /// list of missing names.
    UnsupportedCapability(Vec<Vec<u8>>),
    /// No physical device satisfies every hard requirement.
    NoSuitableDevice,
    /// Swapchain creation, image acquisition, or presentation failed.
    Swapchain(SwapchainFailure),
    /// Shader decoding or pipeline construction failed.
    Pipeline(PipelineFailure),
    /// A wait, reset, record, or submit step failed.
    Synchronization(i32),
}

} // verus!
