//! Swapchain configuration.
//!
//! Builds the record that describes the presentable image chain: the
//! negotiated format and present mode, the requested image count (the
//! device-reported minimum clamped to [2, 3]), the window's fixed pixel
//! extent, a single array layer, color-attachment usage, the surface's
//! current transform, opaque composite, and clipped presentation. The
//! extent is fixed at creation; a resized window requires rebuilding the
//! whole context.

use vstd::prelude::*;

use crate::negotiate::DeviceSelection;

verus! {

/// The complete creation record of the swapchain.
#[derive(Clone, Copy, Debug, PartialEq, Eq, Structural)]
pub struct SwapchainConfig {
    pub image_count: u32,
    pub format: u32,
    pub color_space: u32,
    pub width: u32,
    pub height: u32,
    pub array_layers: u32,
    pub color_attachment_usage: bool,
    pub pre_transform: u32,
    pub composite_alpha_opaque: bool,
    pub present_mode: u32,
    pub clipped: bool,
}

/// The reported minimum image count clamped to [2, 3].
pub open spec fn clamped_image_count(m: u32) -> u32 {
    if m < 2 {
        2u32
    } else if m > 3 {
        3u32
    } else {
        m
    }
}

/// The swapchain record that the negotiated selection and window extent
/// determine.
pub open spec fn swapchain_config_spec(sel: DeviceSelection, width: u32, height: u32)
    -> SwapchainConfig {
    SwapchainConfig {
        image_count: clamped_image_count(sel.min_image_count),
        format: sel.surface_format.format,
        color_space: sel.surface_format.color_space,
        width,
        height,
        array_layers: 1,
        color_attachment_usage: true,
        pre_transform: sel.current_transform,
        composite_alpha_opaque: true,
        present_mode: sel.present_mode,
        clipped: true,
    }
}

/// Requested swapchain image count: the device-reported minimum clamped to
/// the range [2, 3], with no special case beyond the clamp.
pub fn requested_image_count(min_image_count: u32) -> (r: u32)
    ensures
        r == clamped_image_count(min_image_count),
{
    if min_image_count < 2 {
        2
    } else if min_image_count > 3 {
        3
    } else {
        min_image_count
    }
}

/// Builds the swapchain creation record from the negotiated selection and
/// the window's pixel extent.
pub fn build_swapchain_config(sel: &DeviceSelection, width: u32, height: u32) -> (c:
    SwapchainConfig)
    ensures
        c == swapchain_config_spec(*sel, width, height),
{
    SwapchainConfig {
        image_count: requested_image_count(sel.min_image_count),
        format: sel.surface_format.format,
        color_space: sel.surface_format.color_space,
        width,
        height,
        array_layers: 1,
        color_attachment_usage: true,
        pre_transform: sel.current_transform,
        composite_alpha_opaque: true,
        present_mode: sel.present_mode,
        clipped: true,
    }
}

} // verus!
