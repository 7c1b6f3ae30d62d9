//! The engine root: one context and one renderer.
//!
//! Construction builds the whole rendering context from the enumerated
//! capabilities; a draw call runs one frame cycle against the driver's
//! answers. Every failure propagates to the caller unmodified.

use vstd::prelude::*;

use crate::context::device_stage_ok;
use crate::context::instance_stage_ok;
use crate::context::shader_stage_ok;
use crate::context::Context;
use crate::frame::acquired_index;
use crate::frame::cycle_error;
use crate::frame::cycle_spec;
use crate::frame::gpu_all_ok;
use crate::frame::FrameOutcomes;
use crate::negotiate::PhysicalDeviceInfo;
use crate::renderer::Renderer;
use crate::RenderError;

verus! {

/// The engine: the aggregated rendering context and its frame driver.
pub struct Engine {
    pub renderer: Renderer,
    pub context: Context,
}

impl Engine {
    /// Builds the engine: the whole context, all-or-nothing, and a fresh
    /// renderer. Succeeds exactly when every construction stage
    /// succeeds, and starts idle with the fence signaled.
    pub fn new(
        window_required_extensions: &Vec<Vec<u8>>,
        instance_extensions: &Vec<Vec<u8>>,
        instance_layers: &Vec<Vec<u8>>,
        devices: &Vec<PhysicalDeviceInfo>,
        validation: bool,
        vertex_shader: &Vec<u8>,
        fragment_shader: &Vec<u8>,
        width: u32,
        height: u32,
    ) -> (r: Result<Engine, RenderError>)
        ensures
            r is Ok <==> instance_stage_ok(
                window_required_extensions.deep_view(),
                instance_extensions.deep_view(),
                instance_layers.deep_view(),
                validation,
            ) && device_stage_ok(devices@, validation) && shader_stage_ok(
                vertex_shader@,
                fragment_shader@,
            ),
            r matches Ok(e) ==> e.context.frame is Idle && e.context.fence_signaled
                && !e.context.torn_down && e.context.width == width && e.context.height == height,
    {
        let context = match Context::new(
            window_required_extensions,
            instance_extensions,
            instance_layers,
            devices,
            validation,
            vertex_shader,
            fragment_shader,
            width,
            height,
        ) {
            Ok(c) => c,
            Err(e) => {
                return Err(e);
            },
        };
        let renderer = Renderer::new();
        Ok(Engine { renderer, context })
    }

    /// Runs one frame cycle against the driver's answers. Succeeds iff
    /// every step succeeded; the first failing step's error propagates
    /// unmodified, and the context is left idle either way.
    pub fn draw_call(&mut self, gpu: &FrameOutcomes) -> (r: Result<(), RenderError>)
        requires
            old(self).context.frame is Idle,
            !old(self).context.torn_down,
        ensures
            final(self).context.frame is Idle,
            final(self).context.torn_down == old(self).context.torn_down,
            final(self).context.fence_signaled == crate::frame::fence_after(
                *gpu,
                old(self).context.fence_signaled,
            ),
            r is Ok <==> gpu_all_ok(*gpu),
            r matches Err(e) ==> e == cycle_error(*gpu),
            gpu_all_ok(*gpu) ==> final(self).context.trace@ == old(self).context.trace@
                + cycle_spec(acquired_index(*gpu)),
    {
        let Engine { renderer, context } = self;
        renderer.draw(context, gpu)
    }
}

} // verus!
