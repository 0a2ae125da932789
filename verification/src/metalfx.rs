//! Temporal upscaling with MetalFX: which scaler a view gets, and what is encoded in a frame.
use crate::capture::format::TextureFormat;
use vstd::prelude::*;

verus! {

/// A size in texels.
#[derive(Debug, Clone, Copy, PartialEq, Eq, Structural)]
pub struct Resolution {
    pub x: u32,
    pub y: u32,
}

/// The pixel formats that Metal has for the formats that can be upscaled.
#[derive(Debug, Clone, Copy, PartialEq, Eq, Structural)]
pub enum MetalPixelFormat {
    Rgba8Unorm,
    Rgba8UnormSrgb,
    Bgra8Unorm,
    Bgra8UnormSrgb,
    Rgba16Float,
    Rg16Float,
    Depth32Float,
}

pub open spec fn metal_pixel_format_spec(format: TextureFormat) -> Option<MetalPixelFormat> {
    match format {
        TextureFormat::Rgba8Unorm => Some(MetalPixelFormat::Rgba8Unorm),
        TextureFormat::Rgba8UnormSrgb => Some(MetalPixelFormat::Rgba8UnormSrgb),
        TextureFormat::Bgra8Unorm => Some(MetalPixelFormat::Bgra8Unorm),
        TextureFormat::Bgra8UnormSrgb => Some(MetalPixelFormat::Bgra8UnormSrgb),
        TextureFormat::Rgba16Float => Some(MetalPixelFormat::Rgba16Float),
        TextureFormat::Rg16Float => Some(MetalPixelFormat::Rg16Float),
        TextureFormat::Depth32Float => Some(MetalPixelFormat::Depth32Float),
        _ => None,
    }
}

/// MetalFX only accepts textures whose pixel format it was configured with, so an unmapped format
/// means "don't create a scaler" rather than "guess".
pub fn metal_pixel_format(format: TextureFormat) -> (r: Option<MetalPixelFormat>)
    ensures
        r == metal_pixel_format_spec(format),
{
    match format {
        TextureFormat::Rgba8Unorm => Some(MetalPixelFormat::Rgba8Unorm),
        TextureFormat::Rgba8UnormSrgb => Some(MetalPixelFormat::Rgba8UnormSrgb),
        TextureFormat::Bgra8Unorm => Some(MetalPixelFormat::Bgra8Unorm),
        TextureFormat::Bgra8UnormSrgb => Some(MetalPixelFormat::Bgra8UnormSrgb),
        TextureFormat::Rgba16Float => Some(MetalPixelFormat::Rgba16Float),
        TextureFormat::Rg16Float => Some(MetalPixelFormat::Rg16Float),
        TextureFormat::Depth32Float => Some(MetalPixelFormat::Depth32Float),
        _ => None,
    }
}

/// The resolutions a scaler is built around.
///
/// MetalFX validates the textures it is handed against the descriptor's dimensions, so `texture` is
/// the allocation size of the view and prepass textures, not the reduced size that the main pass
/// draws into. The reduced size is communicated per frame.
#[derive(Debug, Clone, Copy, PartialEq, Eq, Structural)]
pub struct ScalerResolutions {
    pub texture: Resolution,
    pub output: Resolution,
}

/// Everything the scaler was configured with. Any change means a new scaler.
#[derive(Debug, Clone, Copy, PartialEq, Eq, Structural)]
pub struct ScalerSetup {
    pub resolutions: ScalerResolutions,
    pub color_format: TextureFormat,
    pub frame_generation: bool,
}

/// What a scaler or an interpolator is described with.
#[derive(Debug, Clone, Copy, PartialEq, Eq, Structural)]
pub struct UpscaleDescriptor {
    pub color: MetalPixelFormat,
    pub depth: MetalPixelFormat,
    pub motion: MetalPixelFormat,
    pub input: Resolution,
    pub output: Resolution,
}

/// The scaler's description: the textures as they are allocated, narrowed to the rendered part per
/// frame. `None` means that the color format cannot be upscaled.
pub fn scaler_descriptor(setup: ScalerSetup) -> (r: Option<UpscaleDescriptor>)
    ensures
        r == (match metal_pixel_format_spec(setup.color_format) {
            Some(color) => Some(
                UpscaleDescriptor {
                    color,
                    depth: MetalPixelFormat::Depth32Float,
                    motion: MetalPixelFormat::Rg16Float,
                    input: setup.resolutions.texture,
                    output: setup.resolutions.output,
                },
            ),
            None => None,
        }),
{
    let color: MetalPixelFormat = match metal_pixel_format(setup.color_format) {
        Some(color) => color,
        None => return None,
    };
    let motion: MetalPixelFormat = match metal_pixel_format(TextureFormat::Rg16Float) {
        Some(motion) => motion,
        None => return None,
    };
    let depth: MetalPixelFormat = match metal_pixel_format(TextureFormat::Depth32Float) {
        Some(depth) => depth,
        None => return None,
    };
    Some(
        UpscaleDescriptor {
            color,
            depth,
            motion,
            input: setup.resolutions.texture,
            output: setup.resolutions.output,
        },
    )
}

/// The interpolator's description: it works on reconstructed frames, so both sizes are the output's.
pub fn interpolator_descriptor(scaler: UpscaleDescriptor) -> (r: UpscaleDescriptor)
    ensures
        r == (UpscaleDescriptor { input: scaler.output, ..scaler }),
{
    UpscaleDescriptor {
        color: scaler.color,
        depth: scaler.depth,
        motion: scaler.motion,
        input: scaler.output,
        output: scaler.output,
    }
}

/// What a device gave when it was asked for a scaler and, where one is wanted, an interpolator.
#[derive(Debug, Clone, Copy, PartialEq, Eq, Structural)]
pub struct DeviceSupport {
    pub scaler: bool,
    pub interpolator: bool,
}

/// The state of the upscaling of one view. There is frame generation only when the interpolator and
/// its history textures exist, so that one never goes without the other.
#[derive(Debug, Clone, Copy, PartialEq, Eq, Structural)]
pub struct MetalFxContext {
    pub setup: ScalerSetup,
    /// Starts set, so that a new scaler never reconstructs from uninitialized history.
    pub pending_reset: bool,
    /// Whether the previous frame can be interpolated from, where frames are generated.
    pub history_valid: Option<bool>,
}

impl MetalFxContext {
    /// The state after a device was asked for a scaler. The second value says that frame generation
    /// was wanted and cannot be had.
    pub fn new(setup: ScalerSetup, device: DeviceSupport) -> (r: Option<(Self, bool)>)
        ensures
            r is Some <==> metal_pixel_format_spec(setup.color_format) is Some && device.scaler,
            r matches Some((context, unavailable)) ==> {
                &&& context.setup == setup
                &&& context.pending_reset
                &&& context.history_valid == (if setup.frame_generation && device.interpolator {
                    Some(false)
                } else {
                    None
                })
                &&& unavailable == (setup.frame_generation && !device.interpolator)
            },
    {
        if scaler_descriptor(setup).is_none() || !device.scaler {
            return None;
        }
        let generated: bool = setup.frame_generation && device.interpolator;
        let history_valid: Option<bool> = if generated {
            Some(false)
        } else {
            None
        };
        Some(
            (
                MetalFxContext { setup, pending_reset: true, history_valid },
                setup.frame_generation && !generated,
            ),
        )
    }

    pub fn output_resolution(&self) -> (r: Resolution)
        ensures
            r == self.setup.resolutions.output,
    {
        self.setup.resolutions.output
    }

    /// True when the current setup still matches, i.e. the scaler can be reused. `factor_supported`
    /// says that the scale lies in the range that the scaler was made for.
    pub fn matches(&self, setup: ScalerSetup, factor_supported: bool) -> (r: bool)
        ensures
            r == (self.setup == setup && factor_supported),
    {
        self.setup == setup && factor_supported
    }

    pub fn request_reset(&mut self)
        ensures
            *final(self) == (MetalFxContext { pending_reset: true, ..*old(self) }),
    {
        self.pending_reset = true;
    }

    /// Reads and clears the pending reset. Also invalidates frame-generation history, which is
    /// meaningless once the reconstruction restarts.
    pub fn take_reset(&mut self) -> (r: bool)
        ensures
            r == old(self).pending_reset,
            *final(self) == old(self).after_reset(),
    {
        let reset: bool = self.pending_reset;
        self.pending_reset = false;
        if reset && self.history_valid.is_some() {
            self.history_valid = Some(false);
        }
        reset
    }

    /// The state once a pending reset was taken.
    pub open spec fn after_reset(self) -> Self {
        MetalFxContext {
            setup: self.setup,
            pending_reset: false,
            history_valid: if self.pending_reset && self.history_valid is Some {
                Some(false)
            } else {
                self.history_valid
            },
        }
    }
}

/// What the hand-over from the main to the render world does with a camera.
#[derive(Debug, Clone, Copy, PartialEq, Eq, Structural)]
pub enum ExtractAction {
    /// The camera is not in the render world.
    Skip,
    /// The upscaling is handed over. With a reset, that goes along and is acknowledged; without
    /// one, an earlier reset is taken back.
    Insert { reset: bool },
    /// The upscaling and everything it needs is taken away.
    Remove,
    /// There was nothing and there is nothing.
    Keep,
}

/// What is known of a camera at the hand-over.
#[derive(Debug, Clone, Copy, PartialEq, Eq, Structural)]
pub struct ExtractedCamera {
    pub in_render_world: bool,
    pub wants_upscaling: bool,
    pub is_active: bool,
    pub is_perspective: bool,
    pub reset: bool,
    /// The render world has the upscaling from an earlier frame.
    pub extracted: bool,
}

/// Decides the hand-over of a camera: only active perspective cameras are upscaled.
pub fn extract_metalfx(camera: ExtractedCamera) -> (r: ExtractAction)
    ensures
        r == (if !camera.in_render_world {
            ExtractAction::Skip
        } else if camera.wants_upscaling && camera.is_active && camera.is_perspective {
            ExtractAction::Insert { reset: camera.reset }
        } else if camera.extracted {
            ExtractAction::Remove
        } else {
            ExtractAction::Keep
        }),
{
    if !camera.in_render_world {
        return ExtractAction::Skip;
    }
    if camera.wants_upscaling && camera.is_active && camera.is_perspective {
        return ExtractAction::Insert { reset: camera.reset };
    }
    if camera.extracted {
        ExtractAction::Remove
    } else {
        ExtractAction::Keep
    }
}

/// How many places the jitter goes through.
pub const JITTER_LEN: u32 = 8;

/// What is known of a view when its frame is prepared.
#[derive(Debug, Clone, Copy, PartialEq, Eq, Structural)]
pub struct PreparedView {
    /// The size of the camera's target, once it has one.
    pub target: Option<Resolution>,
    pub viewport_origin: Resolution,
    pub viewport_size: Resolution,
    pub color_format: TextureFormat,
    pub frame_generation: bool,
    pub reset_requested: bool,
    /// The scale lies in the range that the present scaler was made for.
    pub factor_supported: bool,
}

/// What a view that is upscaled needs this frame.
#[derive(Debug, Clone, Copy, PartialEq, Eq, Structural)]
pub struct ViewSettings {
    /// The place in the jitter sequence.
    pub jitter: u32,
    /// The main texture is written by copies too.
    pub copied_to: bool,
    pub setup: ScalerSetup,
}

/// What preparing a view comes to.
#[derive(Debug, Clone, Copy, PartialEq, Eq, Structural)]
pub enum PrepareAction {
    /// The camera has no target yet.
    Skip,
    /// The camera does not cover its target: its upscaling is taken away, with a warning.
    Refuse,
    /// The present scaler goes on.
    Reuse(ViewSettings),
    /// A new scaler is made. If there is none to be had, the upscaling is taken away, with a
    /// warning, and the view renders at full resolution.
    Create(ViewSettings),
}

/// The settings of a view that covers its target.
pub open spec fn view_settings(view: PreparedView, frame_count: u32) -> ViewSettings {
    ViewSettings {
        jitter: frame_count % JITTER_LEN,
        copied_to: view.frame_generation,
        setup: ScalerSetup {
            resolutions: ScalerResolutions { texture: view.target->0, output: view.viewport_size },
            color_format: view.color_format,
            frame_generation: view.frame_generation,
        },
    }
}

/// Prepares a view. MetalFX reads its inputs from the target's origin, which is also where a main
/// pass of reduced size draws; for a camera that does not cover its whole target the two would
/// disagree, so it is refused.
pub fn prepare_metalfx(
    view: PreparedView,
    frame_count: u32,
    context: &mut Option<MetalFxContext>,
) -> (r: PrepareAction)
    ensures
        match view.target {
            None => r is Skip && *final(context) == *old(context),
            Some(target) => if view.viewport_origin != (Resolution { x: 0, y: 0 })
                || view.viewport_size != target {
                r is Refuse && *final(context) is None
            } else {
                let settings = view_settings(view, frame_count);
                match *old(context) {
                    Some(present) if present.setup == settings.setup && view.factor_supported => {
                        &&& r == PrepareAction::Reuse(settings)
                        &&& *final(context) == Some(
                            MetalFxContext {
                                pending_reset: present.pending_reset || view.reset_requested,
                                ..present
                            },
                        )
                    },
                    _ => r == PrepareAction::Create(settings) && *final(context) is None,
                }
            },
        },
{
    let target: Resolution = match view.target {
        Some(target) => target,
        None => return PrepareAction::Skip,
    };
    if view.viewport_origin.x != 0 || view.viewport_origin.y != 0 || view.viewport_size != target {
        *context = None;
        return PrepareAction::Refuse;
    }
    let setup: ScalerSetup = ScalerSetup {
        resolutions: ScalerResolutions { texture: target, output: view.viewport_size },
        color_format: view.color_format,
        frame_generation: view.frame_generation,
    };
    let settings: ViewSettings = ViewSettings {
        jitter: frame_count % JITTER_LEN,
        copied_to: view.frame_generation,
        setup,
    };
    match *context {
        Some(present) => {
            if present.matches(setup, view.factor_supported) {
                let mut next: MetalFxContext = present;
                if view.reset_requested {
                    next.request_reset();
                }
                *context = Some(next);
                return PrepareAction::Reuse(settings);
            }
        },
        None => {},
    }
    *context = None;
    PrepareAction::Create(settings)
}

/// The sizes of the textures that a frame is encoded with.
#[derive(Debug, Clone, Copy, PartialEq, Eq, Structural)]
pub struct FrameTextures {
    pub source: Resolution,
    pub destination: Resolution,
    pub depth: Resolution,
    pub motion: Resolution,
}

/// What a frame encodes.
#[derive(Debug, Clone, Copy, PartialEq, Eq, Structural)]
pub enum UpscaleAction {
    /// The textures are not there, or not of the size that the scaler was made for.
    Skip,
    /// The view is reconstructed straight into its target.
    Upscale { reset: bool },
    /// The history textures are not there.
    SkipGeneration { reset: bool },
    /// The view is reconstructed into the history. With a previous frame, one is interpolated into
    /// the target; without, the reconstructed frame is copied there. It becomes the history.
    UpscaleAndGenerate { reset: bool, interpolate: bool },
}

/// Whether all textures have the size that the scaler was made for.
pub open spec fn sizes_match(textures: FrameTextures, expected: Resolution) -> bool {
    textures.source == expected && textures.destination == expected && textures.depth == expected
        && textures.motion == expected
}

/// What a frame encodes and what state it leaves. `ready` says that the textures are there, in the
/// right size and known to Metal.
pub open spec fn upscale_step(
    context: MetalFxContext,
    ready: bool,
    wants_generation: bool,
    history_metal: bool,
) -> (UpscaleAction, MetalFxContext) {
    let reset = context.pending_reset;
    let started = context.after_reset();
    if !ready {
        (UpscaleAction::Skip, context)
    } else if !wants_generation || context.history_valid is None {
        (UpscaleAction::Upscale { reset }, started)
    } else if !history_metal {
        (UpscaleAction::SkipGeneration { reset }, started)
    } else {
        (
            UpscaleAction::UpscaleAndGenerate {
                reset,
                interpolate: started.history_valid == Some(true),
            },
            MetalFxContext { history_valid: Some(true), ..started },
        )
    }
}

/// Decides what a frame encodes. `textures` are there once the prepass has made them, `metal` says
/// that Metal has all of them, `history_metal` that it has the history textures too. If anything
/// was reallocated at a different size this frame, feeding it through would be undefined rather
/// than merely wrong.
pub fn metalfx_upscale(
    context: &mut MetalFxContext,
    textures: Option<FrameTextures>,
    metal: bool,
    wants_generation: bool,
    history_metal: bool,
) -> (r: UpscaleAction)
    ensures
        (r, *final(context)) == upscale_step(
            *old(context),
            textures is Some && sizes_match(textures->0, old(context).setup.resolutions.output)
                && metal,
            wants_generation,
            history_metal,
        ),
{
    let sizes: FrameTextures = match textures {
        Some(sizes) => sizes,
        None => return UpscaleAction::Skip,
    };
    let expected: Resolution = context.output_resolution();
    if sizes.source != expected || sizes.destination != expected || sizes.depth != expected
        || sizes.motion != expected {
        return UpscaleAction::Skip;
    }
    if !metal {
        return UpscaleAction::Skip;
    }
    let reset: bool = context.take_reset();
    if !wants_generation || context.history_valid.is_none() {
        return UpscaleAction::Upscale { reset };
    }
    if !history_metal {
        return UpscaleAction::SkipGeneration { reset };
    }
    let interpolate: bool = match context.history_valid {
        Some(valid) => valid,
        None => false,
    };
    context.history_valid = Some(true);
    UpscaleAction::UpscaleAndGenerate { reset, interpolate }
}

/// Nothing is ever interpolated across a reset: the frame that takes one, as the first frame of a
/// new scaler does, resets the scaler and interpolates from no frame before it.
pub proof fn law_nothing_is_interpolated_across_a_reset(
    context: MetalFxContext,
    ready: bool,
    wants_generation: bool,
    history_metal: bool,
)
    requires
        context.pending_reset,
    ensures
        match upscale_step(context, ready, wants_generation, history_metal).0 {
            UpscaleAction::Skip => !ready,
            UpscaleAction::Upscale { reset } => reset,
            UpscaleAction::SkipGeneration { reset } => reset,
            UpscaleAction::UpscaleAndGenerate { reset, interpolate } => reset && !interpolate,
        },
{
}

/// A frame that follows a generated one, without a reset between them, is interpolated from it.
pub proof fn law_generated_frames_follow_on(context: MetalFxContext)
    requires
        context.history_valid is Some,
    ensures
        ({
            let (first, after) = upscale_step(context, true, true, true);
            &&& first is UpscaleAndGenerate
            &&& upscale_step(after, true, true, true).0 == (UpscaleAction::UpscaleAndGenerate {
                reset: false,
                interpolate: true,
            })
        }),
{
}

/// Whether a frame reports that it takes a reset.
pub open spec fn takes_reset(action: UpscaleAction) -> bool {
    match action {
        UpscaleAction::Skip => false,
        UpscaleAction::Upscale { reset } => reset,
        UpscaleAction::SkipGeneration { reset } => reset,
        UpscaleAction::UpscaleAndGenerate { reset, .. } => reset,
    }
}

/// A reset that was requested is taken exactly once: frames that lack their textures leave it
/// pending, the first frame that has them takes it, and the next one does not.
pub proof fn law_reset_is_taken_once(
    context: MetalFxContext,
    wants_generation: bool,
    history_metal: bool,
    wants_generation_2: bool,
    history_metal_2: bool,
)
    requires
        context.pending_reset,
    ensures
        ({
            let (skipped, waiting) = upscale_step(context, false, wants_generation, history_metal);
            !takes_reset(skipped) && waiting == context
        }),
        ({
            let (first, between) = upscale_step(context, true, wants_generation, history_metal);
            let (second, after) = upscale_step(between, true, wants_generation_2, history_metal_2);
            &&& takes_reset(first)
            &&& !takes_reset(second)
            &&& !between.pending_reset
            &&& !after.pending_reset
        }),
{
}

/// A format of Metal stands for the format of the same name; those that cannot be upscaled have none,
/// and no two formats share one.
pub proof fn law_pixel_formats_by_name(format: TextureFormat)
    ensures
        match metal_pixel_format_spec(format) {
            Some(MetalPixelFormat::Rgba8Unorm) => format is Rgba8Unorm,
            Some(MetalPixelFormat::Rgba8UnormSrgb) => format is Rgba8UnormSrgb,
            Some(MetalPixelFormat::Bgra8Unorm) => format is Bgra8Unorm,
            Some(MetalPixelFormat::Bgra8UnormSrgb) => format is Bgra8UnormSrgb,
            Some(MetalPixelFormat::Rgba16Float) => format is Rgba16Float,
            Some(MetalPixelFormat::Rg16Float) => format is Rg16Float,
            Some(MetalPixelFormat::Depth32Float) => format is Depth32Float,
            None => {
                &&& format !is Rgba8Unorm && format !is Rgba8UnormSrgb
                &&& format !is Bgra8Unorm && format !is Bgra8UnormSrgb
                &&& format !is Rgba16Float && format !is Rg16Float && format !is Depth32Float
            },
        },
{
}

/// A view is jittered through eight places in turn, and scaled from its whole target to its viewport;
/// its main texture is copied to exactly where frames are generated.
pub proof fn law_settings_of_a_view(view: PreparedView, frame_count: u32)
    requires
        view.target is Some,
        frame_count < u32::MAX - 8,
    ensures
        ({
            let now = view_settings(view, frame_count);
            let next = view_settings(view, (frame_count + 1) as u32);
            let round = view_settings(view, (frame_count + 8) as u32);
            &&& now.jitter < 8
            &&& next.jitter == (if now.jitter == 7 {
                0
            } else {
                now.jitter + 1
            })
            &&& round == now
            &&& next.setup == now.setup
            &&& now.setup.resolutions.texture == view.target->0
            &&& now.setup.resolutions.output == view.viewport_size
            &&& now.setup.color_format == view.color_format
            &&& now.setup.frame_generation == view.frame_generation
            &&& now.copied_to == view.frame_generation
        }),
{
}

/// What a frame encodes follows from what is there: nothing without its textures, the view alone
/// where no frames are to be generated or none can be, and both where the history is there too. What
/// the scaler was made for never changes, and a frame without a reset and without a generated frame
/// leaves the history as it was.
pub proof fn law_what_a_frame_encodes(
    context: MetalFxContext,
    ready: bool,
    wants_generation: bool,
    history_metal: bool,
)
    ensures
        ({
            let (action, after) = upscale_step(context, ready, wants_generation, history_metal);
            &&& action is Skip <==> !ready
            &&& action is Upscale <==> ready && (!wants_generation
                || context.history_valid is None)
            &&& action is SkipGeneration <==> ready && wants_generation
                && context.history_valid is Some && !history_metal
            &&& action is UpscaleAndGenerate <==> ready && wants_generation
                && context.history_valid is Some && history_metal
            &&& action matches UpscaleAction::UpscaleAndGenerate { reset, interpolate } ==> reset
                == context.pending_reset && (interpolate <==> !reset && context.history_valid
                == Some(true)) && after.history_valid == Some(true)
            &&& after.setup == context.setup
            &&& after.history_valid is Some <==> context.history_valid is Some
            &&& ready ==> !after.pending_reset
            &&& !ready ==> after == context
            &&& !context.pending_reset && action !is UpscaleAndGenerate ==> after.history_valid
                == context.history_valid
        }),
{
}

/// A frame is encoded only if each of its textures has the size that the scaler was made for.
pub proof fn law_every_texture_has_the_size_of_the_scaler(
    textures: FrameTextures,
    expected: Resolution,
)
    ensures
        !sizes_match(textures, expected) <==> textures.source != expected || textures.destination
            != expected || textures.depth != expected || textures.motion != expected,
{
}

} // verus!
