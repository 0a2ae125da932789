use daedalus::capture::format::TextureFormat;
use daedalus::metalfx::{
    extract_metalfx, interpolator_descriptor, metal_pixel_format, metalfx_upscale,
    prepare_metalfx, scaler_descriptor, DeviceSupport, ExtractAction, ExtractedCamera,
    FrameTextures, MetalFxContext, MetalPixelFormat, PrepareAction, PreparedView, Resolution,
    ScalerResolutions, ScalerSetup, UpscaleAction,
};

const INPUT: Resolution = Resolution { x: 640, y: 480 };
const OUTPUT: Resolution = Resolution { x: 1280, y: 960 };

fn setup(frame_generation: bool) -> ScalerSetup {
    ScalerSetup {
        resolutions: ScalerResolutions {
            texture: INPUT,
            output: OUTPUT,
        },
        color_format: TextureFormat::Rgba16Float,
        frame_generation,
    }
}

fn context(frame_generation: bool) -> MetalFxContext {
    let device = DeviceSupport {
        scaler: true,
        interpolator: true,
    };
    MetalFxContext::new(setup(frame_generation), device).unwrap().0
}

fn textures() -> Option<FrameTextures> {
    Some(FrameTextures {
        source: OUTPUT,
        destination: OUTPUT,
        depth: OUTPUT,
        motion: OUTPUT,
    })
}

#[test]
fn pixel_formats_are_those_of_the_scaler() {
    assert_eq!(
        metal_pixel_format(TextureFormat::Rg16Float),
        Some(MetalPixelFormat::Rg16Float)
    );
    assert_eq!(metal_pixel_format(TextureFormat::R32Uint), None);
    let descriptor = scaler_descriptor(setup(false)).unwrap();
    assert_eq!(descriptor.input, INPUT);
    assert_eq!(descriptor.output, OUTPUT);
    assert_eq!(interpolator_descriptor(descriptor).input, OUTPUT);
}

#[test]
fn a_device_without_a_scaler_gets_no_context() {
    let none = DeviceSupport {
        scaler: false,
        interpolator: true,
    };
    assert_eq!(MetalFxContext::new(setup(true), none), None);
    let bad = ScalerSetup {
        color_format: TextureFormat::R32Uint,
        ..setup(false)
    };
    let all = DeviceSupport {
        scaler: true,
        interpolator: true,
    };
    assert_eq!(MetalFxContext::new(bad, all), None);
    let only_scaler = DeviceSupport {
        scaler: true,
        interpolator: false,
    };
    let (context, unavailable) = MetalFxContext::new(setup(true), only_scaler).unwrap();
    assert!(unavailable);
    assert_eq!(context.history_valid, None);
}

#[test]
fn a_reset_is_taken_once() {
    let mut context = context(true);
    assert!(context.take_reset());
    assert!(!context.take_reset());
    context.history_valid = Some(true);
    context.request_reset();
    assert!(context.take_reset());
    assert_eq!(context.history_valid, Some(false));
    assert_eq!(context.output_resolution(), OUTPUT);
    assert!(context.matches(setup(true), true));
    assert!(!context.matches(setup(true), false));
    assert!(!context.matches(setup(false), true));
}

#[test]
fn only_active_perspective_cameras_are_upscaled() {
    let camera = ExtractedCamera {
        in_render_world: true,
        wants_upscaling: true,
        is_active: true,
        is_perspective: true,
        reset: true,
        extracted: false,
    };
    assert_eq!(
        extract_metalfx(camera),
        ExtractAction::Insert { reset: true }
    );
    assert_eq!(
        extract_metalfx(ExtractedCamera {
            is_active: false,
            extracted: true,
            ..camera
        }),
        ExtractAction::Remove
    );
    assert_eq!(
        extract_metalfx(ExtractedCamera {
            wants_upscaling: false,
            ..camera
        }),
        ExtractAction::Keep
    );
    assert_eq!(
        extract_metalfx(ExtractedCamera {
            in_render_world: false,
            ..camera
        }),
        ExtractAction::Skip
    );
}

fn view() -> PreparedView {
    PreparedView {
        target: Some(OUTPUT),
        viewport_origin: Resolution { x: 0, y: 0 },
        viewport_size: OUTPUT,
        color_format: TextureFormat::Rgba16Float,
        frame_generation: false,
        reset_requested: true,
        factor_supported: true,
    }
}

#[test]
fn a_context_is_made_anew_when_the_setup_changes() {
    let mut context = None;
    let PrepareAction::Create(settings) = prepare_metalfx(view(), 9, &mut context) else {
        panic!("a new context");
    };
    assert_eq!(settings.jitter, 1);
    context = Some(MetalFxContext {
        setup: settings.setup,
        pending_reset: false,
        history_valid: None,
    });
    assert!(matches!(
        prepare_metalfx(view(), 10, &mut context),
        PrepareAction::Reuse(_)
    ));
    assert!(context.unwrap().pending_reset);
    assert!(matches!(
        prepare_metalfx(
            PreparedView {
                frame_generation: true,
                ..view()
            },
            11,
            &mut context
        ),
        PrepareAction::Create(_)
    ));
    assert_eq!(context, None);
}

#[test]
fn partial_viewports_are_refused() {
    let mut present = Some(context(false));
    assert_eq!(
        prepare_metalfx(
            PreparedView {
                viewport_origin: Resolution { x: 1, y: 0 },
                ..view()
            },
            0,
            &mut present
        ),
        PrepareAction::Refuse
    );
    assert_eq!(present, None);
    let mut kept = Some(context(false));
    assert_eq!(
        prepare_metalfx(
            PreparedView {
                target: None,
                ..view()
            },
            0,
            &mut kept
        ),
        PrepareAction::Skip
    );
    assert!(kept.is_some());
}

#[test]
fn frames_are_generated_once_there_is_history() {
    let mut context = context(true);
    assert_eq!(
        metalfx_upscale(&mut context, None, true, true, true),
        UpscaleAction::Skip
    );
    assert_eq!(
        metalfx_upscale(&mut context, textures(), false, true, true),
        UpscaleAction::Skip
    );
    assert_eq!(
        metalfx_upscale(&mut context, textures(), true, true, true),
        UpscaleAction::UpscaleAndGenerate {
            reset: true,
            interpolate: false
        }
    );
    assert_eq!(
        metalfx_upscale(&mut context, textures(), true, true, true),
        UpscaleAction::UpscaleAndGenerate {
            reset: false,
            interpolate: true
        }
    );
    assert_eq!(
        metalfx_upscale(&mut context, textures(), true, true, false),
        UpscaleAction::SkipGeneration { reset: false }
    );
    assert_eq!(
        metalfx_upscale(&mut context, textures(), true, false, true),
        UpscaleAction::Upscale { reset: false }
    );
}
