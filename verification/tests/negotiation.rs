use rurity::capability::check_support;
use rurity::negotiate::select_physical_device;
use rurity::negotiate::DeviceKind;
use rurity::negotiate::PhysicalDeviceInfo;
use rurity::negotiate::QueueFamily;
use rurity::negotiate::SurfaceFormat;
use rurity::negotiate::FORMAT_B8G8R8A8_SRGB;
use rurity::negotiate::FORMAT_R8G8B8_SRGB;
use rurity::negotiate::PRESENT_MODE_FIFO_RELAXED;
use rurity::swapchain::requested_image_count;
use rurity::RenderError;

fn names(list: &[&str]) -> Vec<Vec<u8>> {
    list.iter().map(|s| s.as_bytes().to_vec()).collect()
}

fn full_queue() -> QueueFamily {
    QueueFamily { graphics: true, transfer: true, compute: true, present: true }
}

fn plain_device(kind: DeviceKind) -> PhysicalDeviceInfo {
    PhysicalDeviceInfo {
        kind,
        queue_families: vec![full_queue()],
        extensions: names(&["VK_KHR_swapchain"]),
        layers: names(&["VK_LAYER_KHRONOS_validation"]),
        present_modes: vec![2, PRESENT_MODE_FIFO_RELAXED],
        surface_formats: vec![SurfaceFormat { format: FORMAT_B8G8R8A8_SRGB, color_space: 0 }],
        min_image_count: 2,
        current_transform: 1,
    }
}

#[test]
fn support_succeeds_on_subset() {
    let required = names(&["VK_KHR_surface", "VK_KHR_swapchain"]);
    let supported = names(&["VK_KHR_swapchain", "VK_EXT_debug_utils", "VK_KHR_surface"]);
    assert!(check_support(&required, &supported).is_ok());
}

#[test]
fn support_reports_every_missing_name() {
    let required = names(&["a_ext", "b_ext", "c_ext", "d_ext"]);
    let supported = names(&["b_ext", "d_ext"]);
    let missing = check_support(&required, &supported).unwrap_err();
    assert_eq!(missing, names(&["a_ext", "c_ext"]));
}

#[test]
fn support_of_empty_requirement_always_succeeds() {
    let required: Vec<Vec<u8>> = Vec::new();
    let supported: Vec<Vec<u8>> = Vec::new();
    assert!(check_support(&required, &supported).is_ok());
}

#[test]
fn discrete_device_wins_in_either_order() {
    let required_extensions = names(&["VK_KHR_swapchain"]);
    let required_layers = names(&[]);

    let devices = vec![plain_device(DeviceKind::Integrated), plain_device(DeviceKind::Discrete)];
    let sel = select_physical_device(&devices, &required_extensions, &required_layers, false)
        .unwrap();
    assert_eq!(sel.device_index, 1);
    assert_eq!(sel.kind, DeviceKind::Discrete);

    let devices = vec![plain_device(DeviceKind::Discrete), plain_device(DeviceKind::Integrated)];
    let sel = select_physical_device(&devices, &required_extensions, &required_layers, false)
        .unwrap();
    assert_eq!(sel.device_index, 0);
    assert_eq!(sel.kind, DeviceKind::Discrete);
}

#[test]
fn ranking_ties_resolve_to_first() {
    let required_extensions = names(&["VK_KHR_swapchain"]);
    let required_layers = names(&[]);
    let devices = vec![plain_device(DeviceKind::Integrated), plain_device(DeviceKind::Integrated)];
    let sel = select_physical_device(&devices, &required_extensions, &required_layers, false)
        .unwrap();
    assert_eq!(sel.device_index, 0);
}

#[test]
fn no_device_yields_no_suitable_device() {
    let required_extensions = names(&["VK_KHR_swapchain"]);
    let required_layers = names(&[]);
    let devices: Vec<PhysicalDeviceInfo> = Vec::new();
    let e = select_physical_device(&devices, &required_extensions, &required_layers, false)
        .unwrap_err();
    assert!(matches!(e, RenderError::NoSuitableDevice));
}

#[test]
fn missing_relaxed_fifo_is_a_hard_failure() {
    let required_extensions = names(&["VK_KHR_swapchain"]);
    let required_layers = names(&[]);
    let mut d = plain_device(DeviceKind::Discrete);
    d.present_modes = vec![2];
    let devices = vec![d];
    let e = select_physical_device(&devices, &required_extensions, &required_layers, false)
        .unwrap_err();
    assert!(matches!(e, RenderError::NoSuitableDevice));
}

#[test]
fn device_without_required_extension_is_skipped() {
    let required_extensions = names(&["VK_KHR_swapchain"]);
    let required_layers = names(&[]);
    let mut bare = plain_device(DeviceKind::Discrete);
    bare.extensions = names(&[]);
    let devices = vec![bare, plain_device(DeviceKind::Integrated)];
    let sel = select_physical_device(&devices, &required_extensions, &required_layers, false)
        .unwrap();
    assert_eq!(sel.device_index, 1);
    assert_eq!(sel.kind, DeviceKind::Integrated);
}

#[test]
fn preferred_srgb_format_is_chosen() {
    let required_extensions = names(&["VK_KHR_swapchain"]);
    let required_layers = names(&[]);
    let mut d = plain_device(DeviceKind::Discrete);
    d.surface_formats = vec![
        SurfaceFormat { format: 123, color_space: 7 },
        SurfaceFormat { format: FORMAT_R8G8B8_SRGB, color_space: 0 },
    ];
    let devices = vec![d];
    let sel = select_physical_device(&devices, &required_extensions, &required_layers, false)
        .unwrap();
    assert_eq!(sel.surface_format.format, FORMAT_R8G8B8_SRGB);
    assert_eq!(sel.surface_format.color_space, 0);
}

#[test]
fn first_format_is_the_fallback() {
    let required_extensions = names(&["VK_KHR_swapchain"]);
    let required_layers = names(&[]);
    let mut d = plain_device(DeviceKind::Discrete);
    d.surface_formats = vec![
        SurfaceFormat { format: 123, color_space: 7 },
        SurfaceFormat { format: 99, color_space: 0 },
    ];
    let devices = vec![d];
    let sel = select_physical_device(&devices, &required_extensions, &required_layers, false)
        .unwrap();
    assert_eq!(sel.surface_format.format, 123);
    assert_eq!(sel.surface_format.color_space, 7);
}

#[test]
fn image_count_clamps_each_boundary_value() {
    assert_eq!(requested_image_count(1), 2);
    assert_eq!(requested_image_count(2), 2);
    assert_eq!(requested_image_count(3), 3);
    assert_eq!(requested_image_count(4), 3);
}
