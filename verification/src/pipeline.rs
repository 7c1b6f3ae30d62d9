//! Fixed graphics-pipeline configuration.
//!
//! Decodes the two build-time-embedded shader binaries and fixes every
//! other property of the single immutable pipeline: empty vertex input
//! (geometry is procedural in the vertex stage), triangle-list topology, a
//! viewport and scissor covering the full window extent, front-face
//! culling with counter-clockwise front faces, single-sample
//! rasterization, one full-channel color attachment with blending
//! disabled, a layout with no descriptor sets and no push constants, and
//! dynamic rendering against the negotiated color format.

use vstd::prelude::*;

use crate::spv::decode_spv;
use crate::spv::spv_decodes;
use crate::PipelineFailure;
use crate::RenderError;

verus! {

/// The complete record of the fixed graphics pipeline.
#[derive(Debug)]
pub struct PipelineConfig {
    pub vertex_words: Vec<u32>,
    pub fragment_words: Vec<u32>,
    pub color_format: u32,
    pub viewport_width: u32,
    pub viewport_height: u32,
    pub topology_triangle_list: bool,
    pub cull_front: bool,
    pub front_face_counter_clockwise: bool,
    pub sample_count: u32,
    pub blend_enabled: bool,
    pub descriptor_set_count: u32,
    pub push_constant_count: u32,
    pub dynamic_rendering: bool,
}

/// The pipeline record is exactly what the shaders, negotiated color
/// format, and window extent determine.
pub open spec fn pipeline_config_ok(
    c: PipelineConfig,
    vert: Seq<u8>,
    frag: Seq<u8>,
    color_format: u32,
    width: u32,
    height: u32,
) -> bool {
    &&& spv_decodes(vert) == Some(c.vertex_words@)
    &&& spv_decodes(frag) == Some(c.fragment_words@)
    &&& c.color_format == color_format
    &&& c.viewport_width == width
    &&& c.viewport_height == height
    &&& c.topology_triangle_list
    &&& c.cull_front
    &&& c.front_face_counter_clockwise
    &&& c.sample_count == 1
    &&& !c.blend_enabled
    &&& c.descriptor_set_count == 0
    &&& c.push_constant_count == 0
    &&& c.dynamic_rendering
}

/// Builds the fixed pipeline record, decoding both shader binaries.
///
/// Succeeds iff both binaries decode as SPIR-V; a decode failure is fatal
/// and reported as a shader-decode pipeline error.
pub fn build_pipeline_config(
    vert: &Vec<u8>,
    frag: &Vec<u8>,
    color_format: u32,
    width: u32,
    height: u32,
) -> (r: Result<PipelineConfig, RenderError>)
    ensures
        r is Ok <==> spv_decodes(vert@) is Some && spv_decodes(frag@) is Some,
        r matches Ok(c) ==> pipeline_config_ok(c, vert@, frag@, color_format, width, height),
        r matches Err(e) ==> e == RenderError::Pipeline(PipelineFailure::ShaderDecode),
{
    let vertex_words = match decode_spv(vert) {
        Some(w) => w,
        None => {
            return Err(RenderError::Pipeline(PipelineFailure::ShaderDecode));
        },
    };
    let fragment_words = match decode_spv(frag) {
        Some(w) => w,
        None => {
            return Err(RenderError::Pipeline(PipelineFailure::ShaderDecode));
        },
    };
    Ok(
        PipelineConfig {
            vertex_words,
            fragment_words,
            color_format,
            viewport_width: width,
            viewport_height: height,
            topology_triangle_list: true,
            cull_front: true,
            front_face_counter_clockwise: true,
            sample_count: 1,
            blend_enabled: false,
            descriptor_set_count: 0,
            push_constant_count: 0,
            dynamic_rendering: true,
        },
    )
}

} // verus!
