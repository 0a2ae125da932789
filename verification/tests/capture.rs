use daedalus::capture::driver::{
    acquire_frame_buffer, copy_command, image_copy_driver, receive_frame, CameraCapturePlugin,
    CaptureBundle, CaptureConfig, CaptureFault, CapturePluginNode, CopierFrame, ImageCopier,
    ImageCopiers, PendingReadback, SourceTexture,
};
use daedalus::capture::format::{
    align_copy_bytes_per_row, capture_texture_aspect, TextureAspect, TextureFormat,
};
use daedalus::capture::frame::{CapturedFrameKind, ColorOrder, FrameEncoding, FrameLayout};
use daedalus::capture::submission::{
    CaptureChannels, CaptureFrameId, CaptureFrameSubmission, CaptureSubmissionError,
};
use daedalus::capture::{
    setup_capture_camera, setup_preview_window, CaptureCameraPlan, PreviewPlan, UpscalingConfig,
};

#[test]
fn rgb8_layout_drops_row_padding_and_alpha() {
    // 2x2 BGRA, rows padded out to wgpu's copy alignment.
    let layout =
        FrameLayout::new(CapturedFrameKind::Rgb8, TextureFormat::Bgra8UnormSrgb, 2, 2).unwrap();
    assert_eq!(layout.output_len(), 2 * 2 * 3);

    let mut mapped = vec![0u8; layout.padded_row_bytes * 2];
    mapped[..8].copy_from_slice(&[1, 2, 3, 255, 4, 5, 6, 255]);
    mapped[layout.padded_row_bytes..][..8].copy_from_slice(&[7, 8, 9, 255, 10, 11, 12, 255]);

    let mut out = vec![0u8; layout.output_len()];
    layout.write(&mapped, &mut out);

    assert_eq!(out, vec![3, 2, 1, 6, 5, 4, 9, 8, 7, 12, 11, 10]);
}

#[test]
fn rgb8_layout_rejects_formats_it_cannot_pack() {
    assert!(FrameLayout::new(CapturedFrameKind::Rgb8, TextureFormat::Rgba16Float, 4, 4).is_none());
}

#[test]
fn raw_layout_passes_rows_through() {
    let layout = FrameLayout::new(
        CapturedFrameKind::Depth32F,
        TextureFormat::Depth32Float,
        2,
        2,
    )
    .unwrap();
    assert_eq!(layout.output_len(), 2 * 2 * 4);

    let mut mapped = vec![0u8; layout.padded_row_bytes * 2];
    mapped[..8].copy_from_slice(&[1, 2, 3, 4, 5, 6, 7, 8]);
    mapped[layout.padded_row_bytes..][..8].copy_from_slice(&[9, 10, 11, 12, 13, 14, 15, 16]);

    let mut out = vec![0u8; layout.output_len()];
    layout.write(&mapped, &mut out);

    assert_eq!(out, (1..=16).collect::<Vec<u8>>());
}

#[test]
fn frame_buffer_pool_reuses_allocations() {
    let mut pool = Vec::new();

    let buffer = acquire_frame_buffer(&mut pool, 64);
    assert_eq!(buffer.len(), 64);
    let capacity = buffer.capacity();
    pool.push(buffer);

    let reused = acquire_frame_buffer(&mut pool, 64);
    assert_eq!(reused.len(), 64);
    assert_eq!(reused.capacity(), capacity);
    assert!(pool.is_empty());
}

#[test]
fn capture_submission_accepts_all_channels_in_any_order() {
    let mut submission = CaptureFrameSubmission::default();
    let id = CaptureFrameId::new(7);

    submission.begin(id, CaptureChannels::all()).unwrap();
    submission.claim(id, CapturedFrameKind::Depth32F).unwrap();
    submission.claim(id, CapturedFrameKind::R32Uint).unwrap();
    submission.claim(id, CapturedFrameKind::Rgb8).unwrap();

    assert_eq!(submission.finish(id), Ok(()));
    assert_eq!(submission.active_id(), None);
}

#[test]
fn capture_submission_rejects_missing_and_duplicate_channels() {
    let mut submission = CaptureFrameSubmission::default();
    let id = CaptureFrameId::new(11);

    submission.begin(id, CaptureChannels::all()).unwrap();
    submission.claim(id, CapturedFrameKind::Rgb8).unwrap();
    assert!(matches!(
        submission.claim(id, CapturedFrameKind::Rgb8),
        Err(CaptureSubmissionError::DuplicateChannel { .. })
    ));
    assert!(matches!(
        submission.finish(id),
        Err(CaptureSubmissionError::MissingChannels { .. })
    ));
}

#[test]
fn capture_submission_rejects_cross_frame_claims() {
    let mut submission = CaptureFrameSubmission::default();
    let active = CaptureFrameId::new(21);
    let wrong = CaptureFrameId::new(22);

    submission.begin(active, CaptureChannels::all()).unwrap();

    assert!(matches!(
        submission.claim(wrong, CapturedFrameKind::Rgb8),
        Err(CaptureSubmissionError::WrongFrame {
            active: CaptureFrameId(21),
            received: CaptureFrameId(22),
        })
    ));
}

#[test]
fn capture_submission_reports_every_other_misuse() {
    let mut submission = CaptureFrameSubmission::default();
    let id = CaptureFrameId::new(3);
    let other = CaptureFrameId::new(4);
    assert_eq!(
        submission.claim(id, CapturedFrameKind::Rgb8),
        Err(CaptureSubmissionError::NoActiveSubmission)
    );
    assert_eq!(
        submission.finish(id),
        Err(CaptureSubmissionError::NoActiveSubmission)
    );
    submission.begin(id, CaptureChannels::rgb()).unwrap();
    assert_eq!(submission.active_id(), Some(id));
    assert_eq!(
        submission.begin(other, CaptureChannels::all()),
        Err(CaptureSubmissionError::AlreadyActive {
            active: id,
            requested: other
        })
    );
    assert_eq!(
        submission.claim(id, CapturedFrameKind::Depth32F),
        Err(CaptureSubmissionError::UnexpectedChannel {
            id,
            kind: CapturedFrameKind::Depth32F
        })
    );
    assert_eq!(
        submission.finish(other),
        Err(CaptureSubmissionError::WrongFrame {
            active: id,
            received: other
        })
    );
    assert_eq!(id.get(), 3);
}

#[test]
fn channels_contain_what_was_inserted() {
    let mut channels = CaptureChannels::default();
    assert!(!channels.contains(CaptureChannels::rgb()));
    channels.insert(CaptureChannels::for_kind(CapturedFrameKind::Rgb8));
    channels.insert(CaptureChannels::for_kind(CapturedFrameKind::Depth32F));
    assert!(channels.contains(CaptureChannels::rgb()));
    assert!(channels.contains(CaptureChannels::depth()));
    assert!(!channels.contains(CaptureChannels::all()));
    channels.insert(CaptureChannels::for_kind(CapturedFrameKind::R32Uint));
    assert_eq!(channels, CaptureChannels::all());
    assert!(channels.contains(CaptureChannels::r32_uint()));
}

#[test]
fn texel_sizes_come_from_the_texture_formats() {
    assert_eq!(TextureFormat::Rgba8UnormSrgb.pixel_size(), 4);
    assert_eq!(TextureFormat::Rgba16Float.pixel_size(), 8);
    assert_eq!(TextureFormat::Rg16Float.pixel_size(), 4);
    assert_eq!(TextureFormat::Depth16Unorm.pixel_size(), 2);
    assert_eq!(TextureFormat::Depth32Float.pixel_size(), 4);
}

#[test]
fn rows_are_padded_to_the_copy_alignment() {
    assert_eq!(align_copy_bytes_per_row(0), 0);
    assert_eq!(align_copy_bytes_per_row(1), 256);
    assert_eq!(align_copy_bytes_per_row(256), 256);
    assert_eq!(align_copy_bytes_per_row(257), 512);
    assert_eq!(align_copy_bytes_per_row(1440 * 4), 5888);
}

#[test]
fn depth_textures_are_copied_by_their_depth() {
    assert_eq!(
        capture_texture_aspect(TextureFormat::Depth24PlusStencil8),
        TextureAspect::DepthOnly
    );
    assert_eq!(
        capture_texture_aspect(TextureFormat::R32Uint),
        TextureAspect::All
    );
    assert!(TextureFormat::Depth32FloatStencil8.is_depth());
}

#[test]
fn copy_of_a_wide_format_counts_its_texels() {
    let command = copy_command(
        2,
        SourceTexture {
            width: 100,
            height: 10,
            format: TextureFormat::Rgba16Float,
        },
    );
    assert_eq!(command.copier, 2);
    assert_eq!(command.bytes_per_row, 1024);
    assert_eq!(command.buffer_size, 10240);
    assert_eq!(command.aspect, TextureAspect::All);
}

fn copier(
    kind: CapturedFrameKind,
    format: TextureFormat,
    snapshots: Vec<Option<CaptureFrameId>>,
) -> CopierFrame {
    CopierFrame {
        kind,
        source: Some(SourceTexture {
            width: 64,
            height: 2,
            format,
        }),
        snapshots,
    }
}

#[test]
fn a_complete_frame_is_copied_and_finished() {
    let id = CaptureFrameId::new(5);
    let mut submission = CaptureFrameSubmission::default();
    let mut required = CaptureChannels::rgb();
    required.insert(CaptureChannels::depth());
    submission.begin(id, required).unwrap();
    let copiers = vec![
        copier(
            CapturedFrameKind::Rgb8,
            TextureFormat::Bgra8UnormSrgb,
            vec![Some(id), None],
        ),
        copier(
            CapturedFrameKind::Depth32F,
            TextureFormat::Depth32Float,
            vec![Some(id)],
        ),
    ];
    let commands = image_copy_driver(&mut submission, &copiers).unwrap();
    assert_eq!(commands.len(), 2);
    assert_eq!(commands[0].bytes_per_row, 256);
    assert_eq!(commands[1].aspect, TextureAspect::DepthOnly);
    assert_eq!(submission.active_id(), None);
}

#[test]
fn a_snapshot_of_another_frame_stops_the_capture() {
    let id = CaptureFrameId::new(5);
    let old = CaptureFrameId::new(4);
    let mut submission = CaptureFrameSubmission::default();
    submission.begin(id, CaptureChannels::rgb()).unwrap();
    let copiers = vec![copier(
        CapturedFrameKind::Rgb8,
        TextureFormat::Bgra8UnormSrgb,
        vec![Some(old)],
    )];
    assert_eq!(
        image_copy_driver(&mut submission, &copiers).err(),
        Some(CaptureFault::SnapshotFrameMismatch {
            active: id,
            snapshot: old
        })
    );
}

#[test]
fn a_missing_channel_leaves_the_frame_incomplete() {
    let id = CaptureFrameId::new(6);
    let mut submission = CaptureFrameSubmission::default();
    submission.begin(id, CaptureChannels::all()).unwrap();
    let copiers = vec![copier(
        CapturedFrameKind::Rgb8,
        TextureFormat::Rgba8Unorm,
        vec![Some(id)],
    )];
    assert!(matches!(
        image_copy_driver(&mut submission, &copiers),
        Err(CaptureFault::IncompleteSubmission(
            CaptureSubmissionError::MissingChannels { .. }
        ))
    ));
}

#[test]
fn a_channel_twice_is_a_fault() {
    let id = CaptureFrameId::new(6);
    let mut submission = CaptureFrameSubmission::default();
    submission.begin(id, CaptureChannels::rgb()).unwrap();
    let copiers = vec![
        copier(
            CapturedFrameKind::Rgb8,
            TextureFormat::Rgba8Unorm,
            vec![Some(id)],
        ),
        copier(
            CapturedFrameKind::Rgb8,
            TextureFormat::Rgba8Unorm,
            vec![Some(id)],
        ),
    ];
    assert!(matches!(
        image_copy_driver(&mut submission, &copiers),
        Err(CaptureFault::ChannelSubmission(
            CaptureSubmissionError::DuplicateChannel { .. }
        ))
    ));
}

#[test]
fn a_readback_becomes_a_packed_frame() {
    let mut pool = vec![vec![9u8; 3]];
    let source = SourceTexture {
        width: 1,
        height: 2,
        format: TextureFormat::Rgba8Unorm,
    };
    let mut mapped = vec![0u8; 512];
    mapped[..4].copy_from_slice(&[1, 2, 3, 4]);
    mapped[256..260].copy_from_slice(&[5, 6, 7, 8]);
    let frame = receive_frame(&mut pool, CapturedFrameKind::Rgb8, source, &mapped);
    assert_eq!(frame, Some(vec![1, 2, 3, 5, 6, 7]));
    assert!(pool.is_empty());
    let unpackable = SourceTexture {
        format: TextureFormat::Rgba16Float,
        ..source
    };
    assert_eq!(
        receive_frame(&mut pool, CapturedFrameKind::Rgb8, unpackable, &mapped),
        None
    );
}

fn config() -> CaptureConfig {
    CaptureConfig {
        width: 1440,
        height: 1080,
        texture_format: TextureFormat::Bgra8UnormSrgb,
        frame_kind: CapturedFrameKind::Rgb8,
    }
}

#[test]
fn readbacks_are_received_in_order() {
    let mut copier: ImageCopier<u8, ()> = ImageCopier::new(config(), 17);
    assert_eq!(copier.src_image, 17);
    assert_eq!(copier.acquire_buffer(), None);
    let source = SourceTexture {
        width: 1,
        height: 1,
        format: TextureFormat::Bgra8UnormSrgb,
    };
    for buffer in [1u8, 2] {
        copier.push_readback(PendingReadback {
            buffer,
            snapshots: (),
            source,
        });
    }
    assert_eq!(copier.next_readback().map(|r| r.buffer), Some(1));
    assert_eq!(copier.next_readback().map(|r| r.buffer), Some(2));
    assert!(copier.next_readback().is_none());
}

#[test]
fn every_copier_is_asked_for_its_oldest_copy() {
    let mut copiers: ImageCopiers<u8, ()> = ImageCopiers::new();
    for handle in [1, 2, 3] {
        CameraCapturePlugin::from_existing_handle(config(), handle)
            .build(&mut copiers)
            .unwrap();
    }
    let source = SourceTexture {
        width: 1,
        height: 1,
        format: TextureFormat::Bgra8UnormSrgb,
    };
    for (copier, buffer) in [(0, 10), (2, 20), (0, 11)] {
        copiers.copiers[copier].push_readback(PendingReadback {
            buffer,
            snapshots: (),
            source,
        });
    }
    let places = |copiers: &mut ImageCopiers<u8, ()>| -> Vec<(usize, u8)> {
        copiers
            .receive_image_from_buffer()
            .into_iter()
            .map(|(copier, readback)| (copier, readback.buffer))
            .collect()
    };
    assert_eq!(places(&mut copiers), vec![(0, 10), (2, 20)]);
    assert_eq!(places(&mut copiers), vec![(0, 11)]);
    assert_eq!(places(&mut copiers), vec![]);

    // What was read is used again.
    copiers.copiers[0].give_back(10, vec![1, 2, 3]);
    assert_eq!(copiers.copiers[0].acquire_buffer(), Some(10));
    assert_eq!(copiers.copiers[0].acquire_buffer(), None);
    assert_eq!(copiers.copiers[0].free_frames, vec![vec![1, 2, 3]]);
}

#[test]
fn the_copy_driver_is_installed_once() {
    let mut copiers: ImageCopiers<u8, ()> = ImageCopiers::new();
    let (plugin, handle) = CameraCapturePlugin::new(config(), 3);
    assert_eq!(handle, 3);
    let first = plugin.build(&mut copiers).unwrap();
    assert!(first.install_driver);
    let second = CameraCapturePlugin::from_existing_handle(config(), 4)
        .build(&mut copiers)
        .unwrap();
    assert!(!second.install_driver);
    assert_eq!(copiers.copiers.len(), 2);
    let refused = CameraCapturePlugin::from_existing_handle(
        CaptureConfig {
            texture_format: TextureFormat::Rgba16Float,
            ..config()
        },
        5,
    );
    assert!(refused.build(&mut copiers).is_none());
}

#[test]
fn bundles_know_their_targets() {
    let color = CaptureBundle::color(config(), 8);
    assert_eq!(color.color_target(), Some(8));
    assert_eq!(color.depth_target(), None);
    let both = color.with_depth_from_camera_order(
        CaptureConfig {
            texture_format: TextureFormat::Depth32Float,
            frame_kind: CapturedFrameKind::Depth32F,
            ..config()
        },
        -100,
        9,
    );
    assert_eq!(both.color_target(), Some(8));
    assert_eq!(both.depth_target(), Some(9));
    assert!(both.plugins.iter().any(|node| matches!(
        node,
        CapturePluginNode::ViewCopy {
            camera_order: -100,
            ..
        }
    )));
}

#[test]
fn color_and_depth_are_bundled() {
    let both = CaptureBundle::color_and_depth(config(), 8, 9);
    assert_eq!(both.color_target(), Some(8));
    assert_eq!(both.depth_target(), Some(9));
    let depth = CaptureBundle::depth_from_camera_order(config(), 3, 9);
    assert_eq!(depth.color_target(), None);
    assert_eq!(depth.depth_target(), Some(9));
}

#[test]
fn layouts_know_their_encoding() {
    let layout = FrameLayout::new(CapturedFrameKind::Rgb8, TextureFormat::Rgba8Unorm, 100, 1).unwrap();
    assert_eq!(
        layout.encoding,
        FrameEncoding::Rgb8 {
            source: ColorOrder::Rgba
        }
    );
    assert_eq!(layout.row_bytes, 400);
    assert_eq!(layout.padded_row_bytes, 512);
    assert_eq!(layout.output_row_bytes, 300);
    let raw = FrameLayout::new(CapturedFrameKind::R32Uint, TextureFormat::R32Uint, 64, 3).unwrap();
    assert_eq!(raw.encoding, FrameEncoding::Raw);
    assert_eq!(raw.output_len(), 768);
}

#[test]
fn camera_and_preview_are_planned_once() {
    let on = UpscalingConfig {
        metalfx_temporal: true,
        metalfx_frame_generation: true,
    };
    assert_eq!(setup_capture_camera(true, false, None), None);
    assert_eq!(
        setup_capture_camera(false, true, Some(on)),
        Some(CaptureCameraPlan {
            order: -100,
            upscaled: true,
            frame_generation: true
        })
    );
    assert_eq!(
        setup_capture_camera(false, false, Some(on)).map(|plan| plan.upscaled),
        Some(false)
    );
    let plain = UpscalingConfig {
        metalfx_frame_generation: false,
        ..on
    };
    assert_eq!(
        setup_capture_camera(false, true, Some(plain))
            .map(|plan| (plan.upscaled, plan.frame_generation)),
        Some((true, false))
    );
    assert_eq!(
        setup_capture_camera(false, true, None).map(|plan| (plan.upscaled, plan.frame_generation)),
        Some((false, false))
    );
    assert_eq!(
        setup_preview_window(true, false, true),
        PreviewPlan {
            spawn_camera: true,
            spawn_image_node: false
        }
    );
    assert_eq!(
        setup_preview_window(false, false, false),
        PreviewPlan {
            spawn_camera: false,
            spawn_image_node: false
        }
    );
}
