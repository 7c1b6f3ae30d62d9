use rurity::context::Context;
use rurity::context::TeardownStep;
use rurity::engine::Engine;
use rurity::frame::cycle_ops;
use rurity::frame::FrameOp;
use rurity::frame::FrameOutcomes;
use rurity::frame::FrameState;
use rurity::negotiate::DeviceKind;
use rurity::negotiate::PhysicalDeviceInfo;
use rurity::negotiate::QueueFamily;
use rurity::negotiate::SurfaceFormat;
use rurity::negotiate::FORMAT_B8G8R8A8_SRGB;
use rurity::negotiate::PRESENT_MODE_FIFO_RELAXED;
use rurity::renderer::Renderer;
use rurity::spv::decode_spv;
use rurity::RenderError;
use rurity::SwapchainFailure;

fn names(list: &[&str]) -> Vec<Vec<u8>> {
    list.iter().map(|s| s.as_bytes().to_vec()).collect()
}

/// A minimal little-endian SPIR-V binary: the magic number and one word.
fn tiny_shader() -> Vec<u8> {
    vec![0x03, 0x02, 0x23, 0x07, 0x0a, 0x00, 0x00, 0x00]
}

fn all_ok(image_index: u32) -> FrameOutcomes {
    FrameOutcomes {
        wait_fence: Ok(()),
        reset_fence: Ok(()),
        reset_pool: Ok(()),
        acquire: Ok(image_index),
        begin_commands: Ok(()),
        end_commands: Ok(()),
        submit: Ok(()),
        present: Ok(()),
    }
}

fn test_device() -> PhysicalDeviceInfo {
    PhysicalDeviceInfo {
        kind: DeviceKind::Discrete,
        queue_families: vec![
            QueueFamily { graphics: true, transfer: false, compute: true, present: true },
            QueueFamily { graphics: true, transfer: true, compute: true, present: true },
        ],
        extensions: names(&["VK_KHR_swapchain"]),
        layers: names(&[]),
        present_modes: vec![2, PRESENT_MODE_FIFO_RELAXED],
        surface_formats: vec![
            SurfaceFormat { format: 44, color_space: 0 },
            SurfaceFormat { format: FORMAT_B8G8R8A8_SRGB, color_space: 0 },
        ],
        min_image_count: 2,
        current_transform: 1,
    }
}

fn test_context() -> Context {
    Context::new(
        &names(&["VK_KHR_surface"]),
        &names(&["VK_KHR_surface", "VK_EXT_debug_utils"]),
        &names(&[]),
        &vec![test_device()],
        false,
        &tiny_shader(),
        &tiny_shader(),
        640,
        480,
    )
    .unwrap()
}

#[test]
fn spv_decodes_little_endian_words() {
    let words = decode_spv(&tiny_shader()).unwrap();
    assert_eq!(words, vec![0x0723_0203, 10]);
}

#[test]
fn spv_decodes_big_endian_words() {
    let bytes = vec![0x07, 0x23, 0x02, 0x03, 0x00, 0x00, 0x00, 0x0a];
    let words = decode_spv(&bytes).unwrap();
    assert_eq!(words, vec![0x0723_0203, 10]);
}

#[test]
fn spv_rejects_ragged_and_unsigned_binaries() {
    assert!(decode_spv(&vec![0x03, 0x02, 0x23]).is_none());
    assert!(decode_spv(&Vec::new()).is_none());
    assert!(decode_spv(&vec![1, 2, 3, 4]).is_none());
}

#[test]
fn construction_fixes_the_negotiated_configuration() {
    let c = test_context();
    assert_eq!(c.width, 640);
    assert_eq!(c.height, 480);
    assert_eq!(c.selection.queue_family_index, 1);
    assert_eq!(c.selection.surface_format.format, FORMAT_B8G8R8A8_SRGB);
    assert_eq!(c.selection.present_mode, PRESENT_MODE_FIFO_RELAXED);
    assert_eq!(c.swapchain.image_count, 2);
    assert_eq!(c.image_view_count, 2);
    assert_eq!(c.pipeline.color_format, FORMAT_B8G8R8A8_SRGB);
    assert!(c.pipeline.cull_front);
    assert!(c.pipeline.front_face_counter_clockwise);
    assert!(c.fence_signaled);
    assert!(matches!(c.frame, FrameState::Idle));
}

#[test]
fn construction_reports_missing_instance_extensions() {
    let r = Context::new(
        &names(&["VK_KHR_surface", "VK_KHR_xlib_surface"]),
        &names(&["VK_KHR_surface"]),
        &names(&[]),
        &vec![test_device()],
        false,
        &tiny_shader(),
        &tiny_shader(),
        640,
        480,
    );
    match r {
        Err(RenderError::UnsupportedCapability(missing)) => {
            assert_eq!(missing, names(&["VK_KHR_xlib_surface"]));
        },
        _ => panic!("expected a capability error"),
    }
}

#[test]
fn construction_reports_missing_validation_layer() {
    let r = Context::new(
        &names(&["VK_KHR_surface"]),
        &names(&["VK_KHR_surface", "VK_EXT_debug_utils"]),
        &names(&[]),
        &vec![test_device()],
        true,
        &tiny_shader(),
        &tiny_shader(),
        640,
        480,
    );
    match r {
        Err(RenderError::UnsupportedCapability(missing)) => {
            assert_eq!(missing, names(&["VK_LAYER_KHRONOS_validation"]));
        },
        _ => panic!("expected a capability error"),
    }
}

#[test]
fn construction_rejects_undecodable_shaders() {
    let r = Context::new(
        &names(&["VK_KHR_surface"]),
        &names(&["VK_KHR_surface"]),
        &names(&[]),
        &vec![test_device()],
        false,
        &vec![1, 2, 3, 4],
        &tiny_shader(),
        640,
        480,
    );
    assert!(matches!(r, Err(RenderError::Pipeline(_))));
}

#[test]
fn frame_cycle_is_identical_every_time() {
    let first = cycle_ops(1);
    let second = cycle_ops(1);
    assert_eq!(first, second);
    assert_eq!(first.len(), 14);
    assert!(matches!(first[0], FrameOp::WaitFence));
    assert!(matches!(first[3], FrameOp::AcquireImage));
    assert!(matches!(first[8], FrameOp::Draw { vertex_count: 3, instance_count: 1 }));
    assert!(matches!(first[13], FrameOp::Present { image_index: 1 }));
    let resets = first
        .iter()
        .filter(|op| matches!(op, FrameOp::ResetCommandPool))
        .count();
    assert_eq!(resets, 1);
}

#[test]
fn consecutive_draws_leave_the_context_idle_and_signaled() {
    let mut context = test_context();
    let mut renderer = Renderer::new();
    for _ in 0..3 {
        renderer.draw(&mut context, &all_ok(0)).unwrap();
        assert!(matches!(context.frame, FrameState::Idle));
        assert!(context.fence_signaled);
        assert_eq!(context.image_view_count, 2);
    }
}

#[test]
fn first_draw_leaves_idle_with_fence_signaled() {
    let mut context = test_context();
    let mut renderer = Renderer::new();
    renderer.draw(&mut context, &all_ok(0)).unwrap();
    assert!(matches!(context.frame, FrameState::Idle));
    assert!(context.fence_signaled);
}

#[test]
fn acquire_failure_propagates_as_swapchain_error() {
    let mut context = test_context();
    let mut renderer = Renderer::new();
    let mut gpu = all_ok(0);
    gpu.acquire = Err(-1000001004);
    let e = renderer.draw(&mut context, &gpu).unwrap_err();
    assert!(matches!(e, RenderError::Swapchain(SwapchainFailure::Acquire(-1000001004))));
    assert!(matches!(context.frame, FrameState::Idle));
}

#[test]
fn present_failure_propagates_as_swapchain_error() {
    let mut context = test_context();
    let mut renderer = Renderer::new();
    let mut gpu = all_ok(0);
    gpu.present = Err(-1000001004);
    let e = renderer.draw(&mut context, &gpu).unwrap_err();
    assert!(matches!(e, RenderError::Swapchain(SwapchainFailure::Present(-1000001004))));
    assert!(context.fence_signaled);
}

#[test]
fn wait_failure_propagates_as_synchronization_error() {
    let mut context = test_context();
    let mut renderer = Renderer::new();
    let mut gpu = all_ok(0);
    gpu.wait_fence = Err(-4);
    let e = renderer.draw(&mut context, &gpu).unwrap_err();
    assert!(matches!(e, RenderError::Synchronization(-4)));
    assert!(context.fence_signaled);
}

#[test]
fn teardown_emits_the_fixed_order_exactly_once() {
    let mut context = test_context();
    let steps = context.teardown();
    let expected = vec![
        TeardownStep::WaitDeviceIdle,
        TeardownStep::DestroyRenderSemaphore,
        TeardownStep::DestroyPresentSemaphore,
        TeardownStep::DestroyFence,
        TeardownStep::DestroyPipeline,
        TeardownStep::DestroyPipelineLayout,
        TeardownStep::DestroyVertexShaderModule,
        TeardownStep::DestroyFragmentShaderModule,
        TeardownStep::DestroyCommandPool,
        TeardownStep::DestroyImageView { index: 0 },
        TeardownStep::DestroyImageView { index: 1 },
        TeardownStep::DestroySwapchain,
        TeardownStep::DestroyDevice,
        TeardownStep::DestroySurface,
        TeardownStep::DestroyInstance,
    ];
    assert_eq!(steps, expected);
    assert_eq!(context.teardown(), Vec::new());
}

#[test]
fn teardown_order_ignores_earlier_frame_failures() {
    let mut untouched = test_context();
    let expected = untouched.teardown();

    let mut failed = test_context();
    let mut renderer = Renderer::new();
    let mut gpu = all_ok(0);
    gpu.submit = Err(-4);
    let _ = renderer.draw(&mut failed, &gpu);
    assert_eq!(failed.teardown(), expected);
}

#[test]
fn teardown_with_diagnostics_destroys_the_messenger() {
    let mut device = test_device();
    device.layers = names(&["VK_LAYER_KHRONOS_validation"]);
    let mut context = Context::new(
        &names(&["VK_KHR_surface"]),
        &names(&["VK_KHR_surface", "VK_EXT_debug_utils"]),
        &names(&["VK_LAYER_KHRONOS_validation"]),
        &vec![device],
        true,
        &tiny_shader(),
        &tiny_shader(),
        640,
        480,
    )
    .unwrap();
    let steps = context.teardown();
    let messenger_at = steps
        .iter()
        .position(|s| matches!(s, TeardownStep::DestroyDebugMessenger))
        .unwrap();
    assert!(matches!(steps[messenger_at + 1], TeardownStep::DestroySurface));
    assert!(matches!(steps[messenger_at + 2], TeardownStep::DestroyInstance));
    assert!(matches!(steps[messenger_at - 1], TeardownStep::DestroyDevice));
}

#[test]
fn engine_composes_construction_and_draw() {
    let mut engine = Engine::new(
        &names(&["VK_KHR_surface"]),
        &names(&["VK_KHR_surface"]),
        &names(&[]),
        &vec![test_device()],
        false,
        &tiny_shader(),
        &tiny_shader(),
        640,
        480,
    )
    .unwrap();
    engine.draw_call(&all_ok(1)).unwrap();
    assert!(matches!(engine.context.frame, FrameState::Idle));
    assert!(engine.context.fence_signaled);
}

#[test]
fn end_to_end_construct_and_first_draw() {
    let window_required = names(&["VK_KHR_surface"]);
    let instance_extensions = names(&["VK_KHR_surface"]);
    let instance_layers = names(&[]);
    let devices = vec![test_device()];
    let mut context = Context::new(
        &window_required,
        &instance_extensions,
        &instance_layers,
        &devices,
        false,
        &tiny_shader(),
        &tiny_shader(),
        640,
        480,
    )
    .unwrap();
    assert_eq!(context.selection.surface_format.format, FORMAT_B8G8R8A8_SRGB);
    assert_eq!(context.image_view_count, 2);
    let mut renderer = Renderer::new();
    renderer.draw(&mut context, &all_ok(0)).unwrap();
    assert!(matches!(context.frame, FrameState::Idle));
    assert!(context.fence_signaled);
}
