//! Physical-device selection.
//!
//! The driver's enumeration is modelled as plain values: each candidate
//! device carries its queue families, supported layer and extension names,
//! present modes, surface formats, and surface capabilities. A device is
//! eligible when one queue family offers graphics, transfer, compute and
//! presentation at once and its layers and extensions cover the required
//! sets. Eligible devices are ranked discrete > integrated > other, ties
//! resolved by enumeration order (first wins).

use vstd::prelude::*;

use crate::capability::all_supported;
use crate::capability::check_support;
use crate::RenderError;

verus! {

/// Present-mode code for vsync-relaxed presentation ("relaxed FIFO").
pub const PRESENT_MODE_FIFO_RELAXED: u32 = 3;

/// Format code for 8-bit RGB SRGB.
pub const FORMAT_R8G8B8_SRGB: u32 = 29;

/// Format code for 8-bit BGRA SRGB.
pub const FORMAT_B8G8R8A8_SRGB: u32 = 50;

/// Color-space code for SRGB nonlinear.
pub const COLOR_SPACE_SRGB_NONLINEAR: u32 = 0;

/// The capability flags of one queue family, plus whether it can present to
/// the target surface.
#[derive(Clone, Copy, Debug, PartialEq, Eq, Structural)]
pub struct QueueFamily {
    pub graphics: bool,
    pub transfer: bool,
    pub compute: bool,
    pub present: bool,
}

/// The broad class of a physical device, as reported by its properties.
#[derive(Clone, Copy, Debug, PartialEq, Eq, Structural)]
pub enum DeviceKind {
    Discrete,
    Integrated,
    Other,
}

/// One surface format: a pixel format paired with a color space.
#[derive(Clone, Copy, Debug, PartialEq, Eq, Structural)]
pub struct SurfaceFormat {
    pub format: u32,
    pub color_space: u32,
}

/// Everything the negotiator reads about one candidate physical device.
#[derive(Debug)]
pub struct PhysicalDeviceInfo {
    pub kind: DeviceKind,
    pub queue_families: Vec<QueueFamily>,
    pub extensions: Vec<Vec<u8>>,
    pub layers: Vec<Vec<u8>>,
    pub present_modes: Vec<u32>,
    pub surface_formats: Vec<SurfaceFormat>,
    pub min_image_count: u32,
    pub current_transform: u32,
}

/// The immutable record fixed at construction: the chosen device and its
/// negotiated configuration, never re-evaluated afterwards.
#[derive(Clone, Copy, Debug, PartialEq, Eq, Structural)]
pub struct DeviceSelection {
    pub device_index: usize,
    pub queue_family_index: usize,
    pub surface_format: SurfaceFormat,
    pub present_mode: u32,
    pub kind: DeviceKind,
    pub min_image_count: u32,
    pub current_transform: u32,
}

/// One queue family offers graphics, transfer, compute and presentation.
pub open spec fn queue_flags_ok(q: QueueFamily) -> bool {
    q.graphics && q.transfer && q.compute && q.present
}

/// The device has at least one fully capable queue family.
pub open spec fn has_queue_family(d: PhysicalDeviceInfo) -> bool {
    exists|i: int| 0 <= i < d.queue_families@.len() && queue_flags_ok(#[trigger] d.queue_families@[i])
}

/// `q` is the first fully capable queue family index.
pub open spec fn is_first_suitable_queue(qs: Seq<QueueFamily>, q: int) -> bool {
    &&& 0 <= q < qs.len()
    &&& queue_flags_ok(qs[q])
    &&& forall|j: int| 0 <= j < q ==> !queue_flags_ok(#[trigger] qs[j])
}

/// The device reports the relaxed-FIFO present mode.
pub open spec fn has_relaxed_fifo(d: PhysicalDeviceInfo) -> bool {
    exists|i: int|
        0 <= i < d.present_modes@.len() && #[trigger] d.present_modes@[i]
            == PRESENT_MODE_FIFO_RELAXED
}

/// The device's layers and extensions cover the required sets (layers only
/// when validation is requested).
pub open spec fn device_caps_ok(
    d: PhysicalDeviceInfo,
    required_extensions: Seq<Seq<u8>>,
    required_layers: Seq<Seq<u8>>,
    validation: bool,
) -> bool {
    &&& all_supported(required_extensions, d.extensions.deep_view())
    &&& (validation ==> all_supported(required_layers, d.layers.deep_view()))
}

/// A device is eligible when one queue family carries every needed flag and
/// its capabilities cover the required sets.
pub open spec fn device_eligible(
    d: PhysicalDeviceInfo,
    required_extensions: Seq<Seq<u8>>,
    required_layers: Seq<Seq<u8>>,
    validation: bool,
) -> bool {
    has_queue_family(d) && device_caps_ok(d, required_extensions, required_layers, validation)
}

/// A device with a capable queue family that lacks relaxed FIFO or reports
/// no surface format at all. There is no fallback list: encountering such a
/// device is a hard failure of negotiation.
pub open spec fn presentation_defect(d: PhysicalDeviceInfo) -> bool {
    has_queue_family(d) && (!has_relaxed_fifo(d) || d.surface_formats@.len() == 0)
}

/// Some enumerated device has a presentation defect.
pub open spec fn any_presentation_defect(ds: Seq<PhysicalDeviceInfo>) -> bool {
    exists|i: int| 0 <= i < ds.len() && presentation_defect(#[trigger] ds[i])
}

/// Fixed ranking: discrete 2, integrated 1, anything else 0.
pub open spec fn device_score(k: DeviceKind) -> int {
    match k {
        DeviceKind::Discrete => 2,
        DeviceKind::Integrated => 1,
        DeviceKind::Other => 0,
    }
}

/// `idx` is the selected device: eligible, of maximal score, and the first
/// among eligible devices of that score.
pub open spec fn selected_device(
    ds: Seq<PhysicalDeviceInfo>,
    required_extensions: Seq<Seq<u8>>,
    required_layers: Seq<Seq<u8>>,
    validation: bool,
    idx: int,
) -> bool {
    &&& 0 <= idx < ds.len()
    &&& device_eligible(ds[idx], required_extensions, required_layers, validation)
    &&& forall|j: int|
        0 <= j < ds.len() && #[trigger] device_eligible(
            ds[j],
            required_extensions,
            required_layers,
            validation,
        ) ==> device_score(ds[j].kind) <= device_score(ds[idx].kind)
    &&& forall|j: int|
        0 <= j < idx && #[trigger] device_eligible(
            ds[j],
            required_extensions,
            required_layers,
            validation,
        ) ==> device_score(ds[j].kind) < device_score(ds[idx].kind)
}

/// An 8-bit SRGB nonlinear format in either accepted channel ordering.
pub open spec fn preferred_format(f: SurfaceFormat) -> bool {
    (f.format == FORMAT_R8G8B8_SRGB || f.format == FORMAT_B8G8R8A8_SRGB) && f.color_space
        == COLOR_SPACE_SRGB_NONLINEAR
}

/// `k` is the first preferred format's index.
pub open spec fn is_first_preferred(fs: Seq<SurfaceFormat>, k: int) -> bool {
    &&& 0 <= k < fs.len()
    &&& preferred_format(fs[k])
    &&& forall|j: int| 0 <= j < k ==> !preferred_format(#[trigger] fs[j])
}

/// `f` is the negotiated surface format: the first preferred one, or the
/// first reported format when none is preferred.
pub open spec fn format_choice_ok(fs: Seq<SurfaceFormat>, f: SurfaceFormat) -> bool {
    if exists|k: int| 0 <= k < fs.len() && preferred_format(#[trigger] fs[k]) {
        exists|k: int| #[trigger] is_first_preferred(fs, k) && f == fs[k]
    } else {
        fs.len() > 0 && f == fs[0]
    }
}

/// The selection record agrees with the negotiated choice for device `idx`.
pub open spec fn selection_matches(
    ds: Seq<PhysicalDeviceInfo>,
    idx: int,
    sel: DeviceSelection,
) -> bool {
    &&& sel.device_index == idx
    &&& is_first_suitable_queue(ds[idx].queue_families@, sel.queue_family_index as int)
    &&& format_choice_ok(ds[idx].surface_formats@, sel.surface_format)
    &&& sel.present_mode == PRESENT_MODE_FIFO_RELAXED
    &&& sel.kind == ds[idx].kind
    &&& sel.min_image_count == ds[idx].min_image_count
    &&& sel.current_transform == ds[idx].current_transform
}

/// First fully capable queue family, if any.
fn find_queue_family(qs: &Vec<QueueFamily>) -> (r: Option<usize>)
    ensures
        r matches Some(q) ==> is_first_suitable_queue(qs@, q as int),
        r is None ==> forall|j: int| 0 <= j < qs@.len() ==> !queue_flags_ok(#[trigger] qs@[j]),
{
    let n = qs.len();
    let mut i: usize = 0;
    while i < n
        invariant
            n == qs@.len(),
            0 <= i <= n,
            forall|j: int| 0 <= j < i ==> !queue_flags_ok(#[trigger] qs@[j]),
        decreases n - i,
    {
        let q = qs[i];
        if q.graphics && q.transfer && q.compute && q.present {
            return Some(i);
        }
        i += 1;
    }
    None
}

/// Whether the mode list holds the given present mode.
fn contains_mode(ms: &Vec<u32>, mode: u32) -> (r: bool)
    ensures
        r == exists|i: int| 0 <= i < ms@.len() && #[trigger] ms@[i] == mode,
{
    let n = ms.len();
    let mut i: usize = 0;
    while i < n
        invariant
            n == ms@.len(),
            0 <= i <= n,
            forall|j: int| 0 <= j < i ==> #[trigger] ms@[j] != mode,
        decreases n - i,
    {
        if ms[i] == mode {
            return true;
        }
        i += 1;
    }
    false
}

/// The negotiated surface format: first preferred SRGB format, else the
/// first reported one.
fn pick_surface_format(fs: &Vec<SurfaceFormat>) -> (f: SurfaceFormat)
    requires
        fs@.len() > 0,
    ensures
        format_choice_ok(fs@, f),
{
    let n = fs.len();
    let mut i: usize = 0;
    while i < n
        invariant
            n == fs@.len(),
            0 <= i <= n,
            forall|j: int| 0 <= j < i ==> !preferred_format(#[trigger] fs@[j]),
        decreases n - i,
    {
        let f = fs[i];
        if (f.format == FORMAT_R8G8B8_SRGB || f.format == FORMAT_B8G8R8A8_SRGB) && f.color_space
            == COLOR_SPACE_SRGB_NONLINEAR {
            assert(is_first_preferred(fs@, i as int));
            return f;
        }
        i += 1;
    }
    fs[0]
}

/// Exec mirror of the fixed device ranking.
fn score_of(k: DeviceKind) -> (s: u8)
    ensures
        s as int == device_score(k),
{
    match k {
        DeviceKind::Discrete => 2,
        DeviceKind::Integrated => 1,
        DeviceKind::Other => 0,
    }
}

/// Selects the physical device and its configuration.
///
/// Fails with `NoSuitableDevice` exactly when some capable device lacks
/// relaxed FIFO or reports no surface format (a hard presentation defect,
/// with no fallback), or when no device is eligible. On success the chosen
/// device is eligible, of maximal rank, first among equals, and the record
/// carries its first capable queue family, the preferred (or else first)
/// surface format, and the relaxed-FIFO present mode.
pub fn select_physical_device(
    devices: &Vec<PhysicalDeviceInfo>,
    required_extensions: &Vec<Vec<u8>>,
    required_layers: &Vec<Vec<u8>>,
    validation: bool,
) -> (r: Result<DeviceSelection, RenderError>)
    ensures
        r is Ok <==> !any_presentation_defect(devices@) && exists|i: int|
            0 <= i < devices@.len() && #[trigger] device_eligible(
                devices@[i],
                required_extensions.deep_view(),
                required_layers.deep_view(),
                validation,
            ),
        r matches Ok(sel) ==> selected_device(
            devices@,
            required_extensions.deep_view(),
            required_layers.deep_view(),
            validation,
            sel.device_index as int,
        ) && selection_matches(devices@, sel.device_index as int, sel),
        r matches Err(e) ==> e is NoSuitableDevice,
{
    let ghost re = required_extensions.deep_view();
    let ghost rl = required_layers.deep_view();
    let n = devices.len();
    let mut best: Option<(usize, usize, u8)> = None;
    let mut i: usize = 0;
    while i < n
        invariant
            n == devices@.len(),
            0 <= i <= n,
            re == required_extensions.deep_view(),
            rl == required_layers.deep_view(),
            forall|j: int| 0 <= j < i ==> !presentation_defect(#[trigger] devices@[j]),
            best is None ==> forall|j: int|
                0 <= j < i ==> !device_eligible(#[trigger] devices@[j], re, rl, validation),
            best matches Some((bi, bq, bs)) ==> {
                &&& bi < i
                &&& device_eligible(devices@[bi as int], re, rl, validation)
                &&& is_first_suitable_queue(devices@[bi as int].queue_families@, bq as int)
                &&& bs as int == device_score(devices@[bi as int].kind)
                &&& forall|j: int|
                    0 <= j < i && #[trigger] device_eligible(devices@[j], re, rl, validation)
                        ==> device_score(devices@[j].kind) <= bs as int
                &&& forall|j: int|
                    0 <= j < bi && #[trigger] device_eligible(devices@[j], re, rl, validation)
                        ==> device_score(devices@[j].kind) < bs as int
            },
        decreases n - i,
    {
        let d = &devices[i];
        match find_queue_family(&d.queue_families) {
            None => {
                assert(!has_queue_family(devices@[i as int]));
            },
            Some(q) => {
                assert(has_queue_family(devices@[i as int]));
                if !contains_mode(&d.present_modes, PRESENT_MODE_FIFO_RELAXED) {
                    assert(presentation_defect(devices@[i as int]));
                    return Err(RenderError::NoSuitableDevice);
                }
                if d.surface_formats.len() == 0 {
                    assert(presentation_defect(devices@[i as int]));
                    return Err(RenderError::NoSuitableDevice);
                }
                let exts_ok = check_support(required_extensions, &d.extensions).is_ok();
                let layers_ok = !validation || check_support(required_layers, &d.layers).is_ok();
                if exts_ok && layers_ok {
                    assert(device_eligible(devices@[i as int], re, rl, validation));
                    let s = score_of(d.kind);
                    let replace = match best {
                        None => true,
                        Some((_, _, bs)) => s > bs,
                    };
                    if replace {
                        best = Some((i, q, s));
                    }
                } else {
                    assert(!device_caps_ok(devices@[i as int], re, rl, validation));
                }
            },
        }
        i += 1;
    }
    match best {
        None => Err(RenderError::NoSuitableDevice),
        Some((bi, bq, _)) => {
            let d = &devices[bi];
            assert(!presentation_defect(devices@[bi as int]));
            assert(d.surface_formats@.len() > 0);
            let fmt = pick_surface_format(&d.surface_formats);
            Ok(
                DeviceSelection {
                    device_index: bi,
                    queue_family_index: bq,
                    surface_format: fmt,
                    present_mode: PRESENT_MODE_FIFO_RELAXED,
                    kind: d.kind,
                    min_image_count: d.min_image_count,
                    current_transform: d.current_transform,
                },
            )
        },
    }
}

/// Device ranking is a pure function of device type: whenever any eligible
/// discrete device exists, the selected device is discrete, whatever the
/// enumeration order.
pub proof fn lemma_discrete_device_wins(
    ds: Seq<PhysicalDeviceInfo>,
    required_extensions: Seq<Seq<u8>>,
    required_layers: Seq<Seq<u8>>,
    validation: bool,
    idx: int,
    i: int,
)
    requires
        selected_device(ds, required_extensions, required_layers, validation, idx),
        0 <= i < ds.len(),
        device_eligible(ds[i], required_extensions, required_layers, validation),
        ds[i].kind is Discrete,
    ensures
        ds[idx].kind is Discrete,
{
    assert(device_score(ds[i].kind) <= device_score(ds[idx].kind));
}

} // verus!
