//! Camera capture: what is read back from the GPU and what is handed to the consumers.
pub mod driver;
pub mod format;
pub mod frame;
pub mod submission;

use vstd::prelude::*;

verus! {

/// Where the capture camera stands among the cameras: long before the visible ones.
pub const CAPTURE_CAMERA_ORDER: isize = -100;

pub const IMAGE_WIDTH: u32 = 1440;

pub const IMAGE_HEIGHT: u32 = 1080;

/// The capture camera that a world still needs.
#[derive(Clone, Copy, Debug, PartialEq, Eq, Structural)]
pub struct CaptureCameraPlan {
    pub order: isize,
    /// The camera renders through the temporal upscaler.
    pub upscaled: bool,
    /// The upscaler generates frames between those that are rendered.
    pub frame_generation: bool,
}

/// The switches of the configuration that an upscaled camera depends on.
#[derive(Clone, Copy, Debug, PartialEq, Eq, Structural)]
pub struct UpscalingConfig {
    pub metalfx_temporal: bool,
    pub metalfx_frame_generation: bool,
}

/// The capture camera to spawn, unless there is one. The switches of the configuration, where there
/// is a configuration, count on macOS only.
pub fn setup_capture_camera(
    capture_camera_exists: bool,
    macos: bool,
    config: Option<UpscalingConfig>,
) -> (r: Option<CaptureCameraPlan>)
    ensures
        r is None <==> capture_camera_exists,
        r matches Some(plan) ==> {
            &&& plan.order == CAPTURE_CAMERA_ORDER
            &&& plan.upscaled == (macos && config is Some && config->0.metalfx_temporal)
            &&& plan.frame_generation == (plan.upscaled && config->0.metalfx_frame_generation)
        },
{
    if capture_camera_exists {
        return None;
    }
    let (upscaled, frame_generation): (bool, bool) = match config {
        Some(config) => {
            let upscaled: bool = macos && config.metalfx_temporal;
            (upscaled, upscaled && config.metalfx_frame_generation)
        },
        None => (false, false),
    };
    Some(CaptureCameraPlan { order: CAPTURE_CAMERA_ORDER, upscaled, frame_generation })
}

/// The parts of the preview window that a world still needs.
#[derive(Clone, Copy, Debug, PartialEq, Eq, Structural)]
pub struct PreviewPlan {
    pub spawn_camera: bool,
    pub spawn_image_node: bool,
}

/// What the preview window needs, if it is enabled at all.
pub fn setup_preview_window(
    preview_enabled: bool,
    preview_camera_exists: bool,
    preview_node_exists: bool,
) -> (r: PreviewPlan)
    ensures
        r.spawn_camera == (preview_enabled && !preview_camera_exists),
        r.spawn_image_node == (preview_enabled && !preview_node_exists),
{
    if !preview_enabled {
        return PreviewPlan { spawn_camera: false, spawn_image_node: false };
    }
    PreviewPlan { spawn_camera: !preview_camera_exists, spawn_image_node: !preview_node_exists }
}

/// The camera that captures comes before every camera that is shown, and its images have the size of
/// those in shared memory.
pub proof fn law_captures_fit_the_shared_memory()
    ensures
        CAPTURE_CAMERA_ORDER == -100,
        IMAGE_WIDTH == crate::ipc::layout::IMAGE_WIDTH,
        IMAGE_HEIGHT == crate::ipc::layout::IMAGE_HEIGHT,
{
}

} // verus!
