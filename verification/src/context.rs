//! The rendering context: construction and teardown.
//!
//! Construction composes capability negotiation, device selection, the
//! swapchain record and the fixed pipeline in strict order and is
//! all-or-nothing: the first failing stage aborts it. Teardown runs
//! exactly once, unconditionally, in strict reverse-dependency order;
//! that order is a topological sort of the resource dependency graph and
//! must be preserved exactly.

use vstd::prelude::*;

use crate::capability::check_support;
use crate::capability::missing_names;
use crate::frame::FrameOp;
use crate::frame::FrameState;
use crate::negotiate::any_presentation_defect;
use crate::negotiate::device_eligible;
use crate::negotiate::select_physical_device;
use crate::negotiate::selected_device;
use crate::negotiate::selection_matches;
use crate::negotiate::DeviceSelection;
use crate::negotiate::PhysicalDeviceInfo;
use crate::pipeline::build_pipeline_config;
use crate::pipeline::pipeline_config_ok;
use crate::pipeline::PipelineConfig;
use crate::spv::spv_decodes;
use crate::swapchain::build_swapchain_config;
use crate::swapchain::swapchain_config_spec;
use crate::swapchain::SwapchainConfig;
use crate::PipelineFailure;
use crate::RenderError;

verus! {

/// The bytes of the swapchain device extension's name, "VK_KHR_swapchain".
pub open spec fn khr_swapchain_name() -> Seq<u8> {
    seq![86u8, 75u8, 95u8, 75u8, 72u8, 82u8, 95u8, 115u8, 119u8, 97u8, 112u8, 99u8, 104u8, 97u8, 105u8, 110u8]
}

/// The bytes of the diagnostics instance extension's name,
/// "VK_EXT_debug_utils".
pub open spec fn debug_utils_name() -> Seq<u8> {
    seq![86u8, 75u8, 95u8, 69u8, 88u8, 84u8, 95u8, 100u8, 101u8, 98u8, 117u8, 103u8, 95u8, 117u8, 116u8, 105u8, 108u8, 115u8]
}

/// The bytes of the validation layer's name,
/// "VK_LAYER_KHRONOS_validation".
pub open spec fn validation_layer_name() -> Seq<u8> {
    seq![86u8, 75u8, 95u8, 76u8, 65u8, 89u8, 69u8, 82u8, 95u8, 75u8, 72u8, 82u8, 79u8, 78u8, 79u8, 83u8, 95u8, 118u8, 97u8, 108u8, 105u8, 100u8, 97u8, 116u8, 105u8, 111u8, 110u8]
}

/// The name of the swapchain device extension, "VK_KHR_swapchain".
pub fn khr_swapchain_extension_name() -> (r: Vec<u8>)
    ensures
        r@ == khr_swapchain_name(),
{
    let r: Vec<u8> = vec![86u8, 75, 95, 75, 72, 82, 95, 115, 119, 97, 112, 99, 104, 97, 105, 110];
    assert(r@ =~= khr_swapchain_name());
    r
}

/// The name of the diagnostics instance extension, "VK_EXT_debug_utils".
pub fn debug_utils_extension_name() -> (r: Vec<u8>)
    ensures
        r@ == debug_utils_name(),
{
    let r: Vec<u8> = vec![
        86u8,
        75,
        95,
        69,
        88,
        84,
        95,
        100,
        101,
        98,
        117,
        103,
        95,
        117,
        116,
        105,
        108,
        115,
    ];
    assert(r@ =~= debug_utils_name());
    r
}

/// The name of the validation layer, "VK_LAYER_KHRONOS_validation".
pub fn validation_layer_instance_name() -> (r: Vec<u8>)
    ensures
        r@ == validation_layer_name(),
{
    let r: Vec<u8> = vec![
        86u8,
        75,
        95,
        76,
        65,
        89,
        69,
        82,
        95,
        75,
        72,
        82,
        79,
        78,
        79,
        83,
        95,
        118,
        97,
        108,
        105,
        100,
        97,
        116,
        105,
        111,
        110,
    ];
    assert(r@ =~= validation_layer_name());
    r
}

/// The instance extensions requested: what the window system requires,
/// plus the diagnostics extension when validation is on.
pub open spec fn required_instance_extensions_spec(
    window_required: Seq<Seq<u8>>,
    validation: bool,
) -> Seq<Seq<u8>> {
    if validation {
        window_required.push(debug_utils_name())
    } else {
        window_required
    }
}

/// The instance layers requested: the validation layer when validation is
/// on, nothing otherwise.
pub open spec fn required_instance_layers_spec(validation: bool) -> Seq<Seq<u8>> {
    if validation {
        seq![validation_layer_name()]
    } else {
        Seq::empty()
    }
}

/// The device extensions every eligible device must support.
pub open spec fn device_required_extensions_spec() -> Seq<Seq<u8>> {
    seq![khr_swapchain_name()]
}

/// The device layers every eligible device must support when validation
/// is on.
pub open spec fn device_required_layers_spec() -> Seq<Seq<u8>> {
    seq![validation_layer_name()]
}

/// Required instance layers missing from the supported list.
pub open spec fn missing_instance_layers(
    supported_layers: Seq<Seq<u8>>,
    validation: bool,
) -> Seq<Seq<u8>> {
    missing_names(required_instance_layers_spec(validation), supported_layers)
}

/// Required instance extensions missing from the supported list.
pub open spec fn missing_instance_extensions(
    window_required: Seq<Seq<u8>>,
    supported_extensions: Seq<Seq<u8>>,
    validation: bool,
) -> Seq<Seq<u8>> {
    missing_names(
        required_instance_extensions_spec(window_required, validation),
        supported_extensions,
    )
}

/// Instance negotiation succeeds: no required layer or extension is
/// missing.
pub open spec fn instance_stage_ok(
    window_required: Seq<Seq<u8>>,
    supported_extensions: Seq<Seq<u8>>,
    supported_layers: Seq<Seq<u8>>,
    validation: bool,
) -> bool {
    &&& missing_instance_layers(supported_layers, validation).len() == 0
    &&& missing_instance_extensions(window_required, supported_extensions, validation).len() == 0
}

/// Device selection succeeds: no capable device has a presentation defect
/// and some device is eligible.
pub open spec fn device_stage_ok(devices: Seq<PhysicalDeviceInfo>, validation: bool) -> bool {
    &&& !any_presentation_defect(devices)
    &&& exists|i: int|
        0 <= i < devices.len() && #[trigger] device_eligible(
            devices[i],
            device_required_extensions_spec(),
            device_required_layers_spec(),
            validation,
        )
}

/// Both embedded shader binaries decode as SPIR-V.
pub open spec fn shader_stage_ok(vert: Seq<u8>, frag: Seq<u8>) -> bool {
    spv_decodes(vert) is Some && spv_decodes(frag) is Some
}

/// One teardown step, in the fixed reverse-dependency order.
#[derive(Clone, Copy, Debug, PartialEq, Eq, Structural)]
pub enum TeardownStep {
    WaitDeviceIdle,
    DestroyRenderSemaphore,
    DestroyPresentSemaphore,
    DestroyFence,
    DestroyPipeline,
    DestroyPipelineLayout,
    DestroyVertexShaderModule,
    DestroyFragmentShaderModule,
    DestroyCommandPool,
    DestroyImageView { index: u32 },
    DestroySwapchain,
    DestroyDevice,
    DestroyDebugMessenger,
    DestroySurface,
    DestroyInstance,
}

/// The steps up to and including the command pool, fixed for every
/// context.
pub open spec fn teardown_prefix() -> Seq<TeardownStep> {
    seq![
        TeardownStep::WaitDeviceIdle,
        TeardownStep::DestroyRenderSemaphore,
        TeardownStep::DestroyPresentSemaphore,
        TeardownStep::DestroyFence,
        TeardownStep::DestroyPipeline,
        TeardownStep::DestroyPipelineLayout,
        TeardownStep::DestroyVertexShaderModule,
        TeardownStep::DestroyFragmentShaderModule,
        TeardownStep::DestroyCommandPool,
    ]
}

/// One destroy step per application-created image view, in index order.
pub open spec fn image_view_steps(n: int) -> Seq<TeardownStep> {
    Seq::new(n as nat, |i: int| TeardownStep::DestroyImageView { index: i as u32 })
}

/// The complete fixed teardown order: wait for the device to go idle,
/// destroy both semaphores, the fence, the pipeline, its layout, both
/// shader modules, the command pool, every image view, the swapchain, the
/// logical device, the debug messenger when diagnostics were enabled, the
/// surface, and last the instance.
pub open spec fn teardown_order(validation: bool, image_views: u32) -> Seq<TeardownStep> {
    teardown_prefix() + image_view_steps(image_views as int) + seq![
        TeardownStep::DestroySwapchain,
        TeardownStep::DestroyDevice,
    ] + (if validation {
        seq![TeardownStep::DestroyDebugMessenger]
    } else {
        Seq::empty()
    }) + seq![TeardownStep::DestroySurface, TeardownStep::DestroyInstance]
}

/// The aggregated rendering context: the negotiated configuration, the
/// presentation records, and the frame-cycle state. The sole owner of
/// every resource it names.
pub struct Context {
    pub width: u32,
    pub height: u32,
    pub validation: bool,
    pub instance_extensions: Vec<Vec<u8>>,
    pub instance_layers: Vec<Vec<u8>>,
    pub selection: DeviceSelection,
    pub swapchain: SwapchainConfig,
    pub image_view_count: u32,
    pub pipeline: PipelineConfig,
    pub frame: FrameState,
    pub fence_signaled: bool,
    pub torn_down: bool,
    pub trace: Ghost<Seq<FrameOp>>,
}

/// Copies a list of names.
fn copy_names(src: &Vec<Vec<u8>>) -> (r: Vec<Vec<u8>>)
    ensures
        r.deep_view() == src.deep_view(),
{
    let n = src.len();
    let mut r: Vec<Vec<u8>> = Vec::new();
    let mut i: usize = 0;
    while i < n
        invariant
            n == src@.len(),
            0 <= i <= n,
            r.deep_view() =~= src.deep_view().take(i as int),
        decreases n - i,
    {
        let name = src[i].clone();
        assert(name@ == src@[i as int]@);
        let ghost old_r_dv = r.deep_view();
        let ghost old_r_view = r@;
        r.push(name);
        proof {
            assert(old_r_dv.len() == i);
            assert(old_r_view.len() == i);
            assert(r@.len() == i + 1);
            assert forall|k: int| 0 <= k < i + 1 implies r.deep_view()[k] == src.deep_view().take(
                i + 1,
            )[k] by {
                assert(r.deep_view()[k] == r@[k]@);
                assert(src.deep_view()[k] == src@[k]@);
                assert(src.deep_view().take(i + 1)[k] == src.deep_view()[k]);
                if k < i {
                    assert(r@[k] == old_r_view[k]);
                    assert(old_r_dv[k] == old_r_view[k]@);
                    assert(old_r_dv[k] == src.deep_view()[k]);
                } else {
                    assert(r@[k]@ == src@[k]@);
                }
            }
            assert(r.deep_view().len() == i + 1);
            assert(src.deep_view().take(i + 1).len() == i + 1);
            assert(r.deep_view() =~= src.deep_view().take(i + 1));
        }
        i += 1;
    }
    assert(src.deep_view().take(n as int) =~= src.deep_view());
    r
}

impl Context {
    /// Builds the whole rendering context from the enumerated instance
    /// capabilities, the window system's required extensions, the
    /// enumerated physical devices, the two shader binaries, and the
    /// window's fixed pixel extent.
    ///
    /// All-or-nothing, in strict order: instance layers, instance
    /// extensions, device selection, swapchain, pipeline. The first
    /// failing stage aborts construction with its error; missing
    /// capability names are reported completely. On success the context
    /// starts Idle with the fence created signaled.
    pub fn new(
        window_required_extensions: &Vec<Vec<u8>>,
        instance_extensions: &Vec<Vec<u8>>,
        instance_layers: &Vec<Vec<u8>>,
        devices: &Vec<PhysicalDeviceInfo>,
        validation: bool,
        vertex_shader: &Vec<u8>,
        fragment_shader: &Vec<u8>,
        width: u32,
        height: u32,
    ) -> (r: Result<Context, RenderError>)
        ensures
            missing_instance_layers(instance_layers.deep_view(), validation).len() > 0 ==> (
            r matches Err(RenderError::UnsupportedCapability(m)) && m.deep_view()
                == missing_instance_layers(instance_layers.deep_view(), validation)),
            missing_instance_layers(instance_layers.deep_view(), validation).len() == 0
                && missing_instance_extensions(
                window_required_extensions.deep_view(),
                instance_extensions.deep_view(),
                validation,
            ).len() > 0 ==> (r matches Err(RenderError::UnsupportedCapability(m))
                && m.deep_view() == missing_instance_extensions(
                window_required_extensions.deep_view(),
                instance_extensions.deep_view(),
                validation,
            )),
            instance_stage_ok(
                window_required_extensions.deep_view(),
                instance_extensions.deep_view(),
                instance_layers.deep_view(),
                validation,
            ) && !device_stage_ok(devices@, validation) ==> (r matches Err(e) && e
                is NoSuitableDevice),
            instance_stage_ok(
                window_required_extensions.deep_view(),
                instance_extensions.deep_view(),
                instance_layers.deep_view(),
                validation,
            ) && device_stage_ok(devices@, validation) && !shader_stage_ok(
                vertex_shader@,
                fragment_shader@,
            ) ==> (r matches Err(e) && e == RenderError::Pipeline(PipelineFailure::ShaderDecode)),
            r is Ok <==> instance_stage_ok(
                window_required_extensions.deep_view(),
                instance_extensions.deep_view(),
                instance_layers.deep_view(),
                validation,
            ) && device_stage_ok(devices@, validation) && shader_stage_ok(
                vertex_shader@,
                fragment_shader@,
            ),
            r matches Ok(c) ==> {
                &&& c.width == width
                &&& c.height == height
                &&& c.validation == validation
                &&& c.instance_extensions.deep_view() == required_instance_extensions_spec(
                    window_required_extensions.deep_view(),
                    validation,
                )
                &&& c.instance_layers.deep_view() == required_instance_layers_spec(validation)
                &&& selected_device(
                    devices@,
                    device_required_extensions_spec(),
                    device_required_layers_spec(),
                    validation,
                    c.selection.device_index as int,
                )
                &&& selection_matches(devices@, c.selection.device_index as int, c.selection)
                &&& c.swapchain == swapchain_config_spec(c.selection, width, height)
                &&& c.image_view_count == c.swapchain.image_count
                &&& pipeline_config_ok(
                    c.pipeline,
                    vertex_shader@,
                    fragment_shader@,
                    c.selection.surface_format.format,
                    width,
                    height,
                )
                &&& c.frame is Idle
                &&& c.fence_signaled
                &&& !c.torn_down
                &&& c.trace@ == Seq::<FrameOp>::empty()
            },
    {
        // Instance negotiation: the validation layer first, then the
        // window system's extensions plus diagnostics when requested.
        let mut required_layers: Vec<Vec<u8>> = Vec::new();
        if validation {
            required_layers.push(validation_layer_instance_name());
        }
        assert(required_layers.deep_view() =~~= required_instance_layers_spec(validation));
        if validation {
            match check_support(&required_layers, instance_layers) {
                Ok(()) => {
                    proof {
                        crate::capability::lemma_missing_names_empty_iff_supported(
                            required_layers.deep_view(),
                            instance_layers.deep_view(),
                        );
                    }
                },
                Err(m) => {
                    return Err(RenderError::UnsupportedCapability(m));
                },
            }
        } else {
            assert(missing_instance_layers(instance_layers.deep_view(), validation) =~= Seq::<
                Seq<u8>,
            >::empty());
        }
        let mut required_extensions = copy_names(window_required_extensions);
        if validation {
            required_extensions.push(debug_utils_extension_name());
        }
        assert(required_extensions.deep_view() =~~= required_instance_extensions_spec(
            window_required_extensions.deep_view(),
            validation,
        ));
        match check_support(&required_extensions, instance_extensions) {
            Ok(()) => {
                proof {
                    crate::capability::lemma_missing_names_empty_iff_supported(
                        required_extensions.deep_view(),
                        instance_extensions.deep_view(),
                    );
                }
            },
            Err(m) => {
                return Err(RenderError::UnsupportedCapability(m));
            },
        }
        // Device selection against the fixed device requirements.
        let mut device_extensions: Vec<Vec<u8>> = Vec::new();
        device_extensions.push(khr_swapchain_extension_name());
        assert(device_extensions.deep_view() =~~= device_required_extensions_spec());
        let mut device_layers: Vec<Vec<u8>> = Vec::new();
        device_layers.push(validation_layer_instance_name());
        assert(device_layers.deep_view() =~~= device_required_layers_spec());
        let selection = match select_physical_device(
            devices,
            &device_extensions,
            &device_layers,
            validation,
        ) {
            Ok(s) => s,
            Err(e) => {
                return Err(e);
            },
        };
        // The presentable image chain and the fixed pipeline.
        let swapchain = build_swapchain_config(&selection, width, height);
        let pipeline = match build_pipeline_config(
            vertex_shader,
            fragment_shader,
            selection.surface_format.format,
            width,
            height,
        ) {
            Ok(p) => p,
            Err(e) => {
                return Err(e);
            },
        };
        Ok(
            Context {
                width,
                height,
                validation,
                instance_extensions: required_extensions,
                instance_layers: required_layers,
                selection,
                swapchain,
                image_view_count: swapchain.image_count,
                pipeline,
                frame: FrameState::Idle,
                fence_signaled: true,
                torn_down: false,
                trace: Ghost(Seq::empty()),
            },
        )
    }

    /// Tears the context down, exactly once: the first call emits the
    /// complete fixed order, and any later call emits nothing. The order
    /// depends only on whether diagnostics were enabled and on how many
    /// image views exist — never on the frame state, the fence, or any
    /// earlier per-frame failure.
    pub fn teardown(&mut self) -> (r: Vec<TeardownStep>)
        ensures
            final(self).torn_down,
            !old(self).torn_down ==> r@ == teardown_order(
                old(self).validation,
                old(self).image_view_count,
            ),
            old(self).torn_down ==> r@ == Seq::<TeardownStep>::empty(),
            final(self).width == old(self).width,
            final(self).height == old(self).height,
            final(self).validation == old(self).validation,
            final(self).instance_extensions == old(self).instance_extensions,
            final(self).instance_layers == old(self).instance_layers,
            final(self).selection == old(self).selection,
            final(self).swapchain == old(self).swapchain,
            final(self).image_view_count == old(self).image_view_count,
            final(self).pipeline == old(self).pipeline,
            final(self).frame == old(self).frame,
            final(self).fence_signaled == old(self).fence_signaled,
            final(self).trace == old(self).trace,
    {
        if self.torn_down {
            let r: Vec<TeardownStep> = Vec::new();
            assert(r@ =~= Seq::<TeardownStep>::empty());
            return r;
        }
        self.torn_down = true;
        let mut r: Vec<TeardownStep> = vec![
            TeardownStep::WaitDeviceIdle,
            TeardownStep::DestroyRenderSemaphore,
            TeardownStep::DestroyPresentSemaphore,
            TeardownStep::DestroyFence,
            TeardownStep::DestroyPipeline,
            TeardownStep::DestroyPipelineLayout,
            TeardownStep::DestroyVertexShaderModule,
            TeardownStep::DestroyFragmentShaderModule,
            TeardownStep::DestroyCommandPool,
        ];
        assert(r@ =~= teardown_prefix());
        let n = self.image_view_count;
        let mut i: u32 = 0;
        while i < n
            invariant
                0 <= i <= n,
                r@ =~= teardown_prefix() + image_view_steps(i as int),
            decreases n - i,
        {
            r.push(TeardownStep::DestroyImageView { index: i });
            assert(r@ =~= teardown_prefix() + image_view_steps(i + 1));
            i += 1;
        }
        r.push(TeardownStep::DestroySwapchain);
        r.push(TeardownStep::DestroyDevice);
        if self.validation {
            r.push(TeardownStep::DestroyDebugMessenger);
        }
        r.push(TeardownStep::DestroySurface);
        r.push(TeardownStep::DestroyInstance);
        assert(r@ =~= teardown_order(self.validation, n));
        r
    }
}

/// Teardown is independent of frame history: two contexts that agree on
/// diagnostics and image-view count emit the same fixed order, whatever
/// their frame state, fence state, or earlier per-frame failures.
pub proof fn lemma_teardown_independent_of_history(c1: Context, c2: Context)
    requires
        c1.validation == c2.validation,
        c1.image_view_count == c2.image_view_count,
    ensures
        teardown_order(c1.validation, c1.image_view_count) == teardown_order(
            c2.validation,
            c2.image_view_count,
        ),
{
}

/// The fixed teardown order starts by waiting for the device, destroys
/// the logical device only after the swapchain and every image view, and
/// destroys the instance last.
pub proof fn lemma_teardown_order_shape(validation: bool, image_views: u32)
    ensures
        teardown_order(validation, image_views).len() == 13 + image_views + (if validation {
            1int
        } else {
            0int
        }),
        teardown_order(validation, image_views)[0] is WaitDeviceIdle,
        teardown_order(validation, image_views).last() is DestroyInstance,
{
}

} // verus!
