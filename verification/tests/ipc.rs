use daedalus::gimbal_sender::GimbalSender;
use daedalus::ipc::layout::{CameraInfo, GimbalCmd, PoseIndex, IMAGE_SIZE};
use daedalus::ipc::publisher::{
    aux_f32_to_bytes, GimbalCmdPublisher, PoseUpdate, ShmError, ShmPublisher,
};
use daedalus::ipc::triple_buffer::{is_new, ready_word, state_index, TripleBuffer};
use daedalus::mock_server::{
    copy_frame_rgb24, default_camera_info, input_candidates, plays_again, publish_frame,
    resolve_input, AfterFrame, CopyFrameError, InputProbe, Pace, PublishPass, ROW_BYTES,
};

type Publisher = ShmPublisher<u8, u8, u8>;

fn publisher() -> Publisher {
    ShmPublisher::create(100, 0, 0, 0)
}

#[test]
fn state_words_hold_a_slot_and_a_flag() {
    assert_eq!(ready_word(2), 6);
    assert_eq!(state_index(6), 2);
    assert!(is_new(6));
    assert!(!is_new(2));
}

#[test]
fn a_consumer_takes_what_was_published_last() {
    let mut buffer = TripleBuffer::new(0u32);
    assert!(buffer.consumed());
    assert!(!buffer.take());
    buffer.publish(7);
    buffer.publish(8);
    assert!(!buffer.consumed());
    assert!(buffer.take());
    assert_eq!(buffer.slots[buffer.read_idx as usize], 8);
    // Publishing does not touch what is being read.
    for value in 9..20 {
        buffer.publish(value);
        assert_eq!(buffer.slots[buffer.read_idx as usize], 8);
    }
    assert!(buffer.take());
    assert_eq!(buffer.slots[buffer.read_idx as usize], 19);
    assert!(!buffer.take());
    assert_eq!(buffer.slots[buffer.read_idx as usize], 19);
}

#[test]
fn aux_words_become_native_bytes() {
    let bytes = aux_f32_to_bytes([
        1.5f32.to_bits(),
        (-2.0f32).to_bits(),
        0,
        f32::MAX.to_bits(),
    ]);
    assert_eq!(&bytes[0..4], 1.5f32.to_le_bytes());
    assert_eq!(&bytes[4..8], (-2.0f32).to_le_bytes());
    assert_eq!(&bytes[8..12], 0f32.to_le_bytes());
    assert_eq!(&bytes[12..16], f32::MAX.to_le_bytes());
}

#[test]
fn a_new_region_is_stamped_and_empty() {
    let publisher = publisher();
    assert_eq!(publisher.meta.header.created_ns, 100);
    assert_eq!(publisher.meta.header.image_width, 1440);
    assert_eq!(publisher.meta.header.image_height, 1080);
    assert_eq!(publisher.meta.poses.len(), 5);
    assert_eq!(publisher.image_pool.len(), 3 * IMAGE_SIZE);
    assert!(publisher.synchronized_frame_consumed());
    assert_eq!(publisher.meta.camera_info.width, 0);
    assert_eq!(publisher.meta.image.state, 1);
    assert_eq!(publisher.meta.image.write_idx, 0);
    assert_eq!(publisher.meta.image.read_idx, 2);
    assert!(publisher.meta.image.slots.iter().all(|slot| slot.width == 0));
    for pose in &publisher.meta.poses {
        assert_eq!((pose.state, pose.write_idx, pose.read_idx), (1, 0, 2));
        assert!(pose.slots.iter().all(|slot| slot.quaternion == [0; 4]));
    }
    assert_eq!(publisher.meta.gimbal_cmd.state, 1);
}

#[test]
fn what_belongs_to_an_image_comes_after_its_pixels_and_before_its_metadata() {
    let mut publisher = publisher();
    let image = vec![9u8; IMAGE_SIZE];
    let mut calls = 0;
    publisher.publish_image_with(&image, 5, 50, |at| {
        calls += 1;
        assert_eq!(at.image_pool[0], 9);
        assert_eq!(at.image_pool[IMAGE_SIZE - 1], 9);
        assert!(at.meta.image.consumed());
        at.publish_pose(PoseIndex::Camera, [1, 2, 3], [4, 5, 6, 7], 5, 50);
    });
    assert_eq!(calls, 1);
    assert!(!publisher.meta.image.consumed());
    assert!(!publisher.meta.poses[3].consumed());
    assert!(!publisher.try_publish_synchronized_image(&image, 6, 60, |_| panic!()));
    assert!(publisher.meta.image.take());
    assert!(publisher.meta.poses[3].take());
    assert!(publisher.try_publish_synchronized_image(&image, 6, 60, |at| {
        assert_eq!(at.image_pool[IMAGE_SIZE], 9);
        assert!(at.meta.image.consumed());
    }));
    assert_eq!(publisher.last_synchronized_frame_seq, Some(6));
}

fn pose(index: PoseIndex) -> PoseUpdate {
    PoseUpdate {
        index,
        position: [1, 2, 3],
        quaternion: [4, 5, 6, 7],
        aux: [0; 4],
    }
}

#[test]
fn pixels_stay_while_two_more_images_come() {
    let mut publisher = publisher();
    for (k, seq) in [1u8, 2, 3].iter().zip(1u64..) {
        publisher.publish_image(&vec![*k; IMAGE_SIZE], seq, seq * 10);
    }
    assert_eq!(publisher.image_pool[0], 1);
    assert_eq!(publisher.image_pool[IMAGE_SIZE], 2);
    assert_eq!(publisher.image_pool[2 * IMAGE_SIZE], 3);
    assert!(publisher.meta.image.take());
    let meta = publisher.meta.image.slots[publisher.meta.image.read_idx as usize];
    assert_eq!(meta.seq, 3);
    assert_eq!(meta.timestamp_ns, 30);
    assert_eq!(meta.buffer_id, 2);
    publisher.publish_image(&vec![4; IMAGE_SIZE], 4, 40);
    assert_eq!(publisher.image_pool[0], 4);
    assert_eq!(publisher.image_pool[IMAGE_SIZE - 1], 4);
}

#[test]
fn a_synchronized_bundle_waits_for_its_reader() {
    let mut publisher = publisher();
    let poses = vec![
        pose(PoseIndex::Gimbal),
        pose(PoseIndex::Odom),
        pose(PoseIndex::Muzzle),
        pose(PoseIndex::Camera),
    ];
    let image = vec![1u8; IMAGE_SIZE];
    assert!(publisher.try_publish_synchronized_poses(&image, 5, 50, &poses));
    assert!(!publisher.synchronized_frame_consumed());
    assert!(!publisher.try_publish_synchronized_poses(&image, 6, 60, &poses));
    assert!(publisher.meta.image.take());
    assert!(!publisher.try_publish_synchronized_poses(&image, 6, 60, &poses));
    for index in 0..4 {
        assert!(publisher.meta.poses[index].take());
    }
    assert!(publisher.synchronized_frame_consumed());
    // The numbers increase.
    assert!(!publisher.try_publish_synchronized_poses(&image, 5, 60, &poses));
    assert!(publisher.try_publish_synchronized_poses(&image, 6, 60, &poses));
    let slot = publisher.meta.poses[3].slots
        [state_index(publisher.meta.poses[3].state) as usize];
    assert_eq!(slot.frame_seq, 6);
    assert_eq!(slot.position, [1, 2, 3]);
}

#[test]
fn the_rest_of_the_region_is_written_through() {
    let mut publisher = publisher();
    publisher.publish_chassis_observation(11);
    publisher.publish_ground_truth(12);
    publisher.publish_runtime_state(13);
    publisher.update_heartbeat(14);
    publisher.set_camera_info(CameraInfo {
        timestamp_ns: 15,
        ..default_camera_info(0)
    });
    publisher.publish_pose(PoseIndex::Chassis, [1, 1, 1], [2, 2, 2, 2], 16, 17);
    assert_eq!(publisher.meta.chassis_observation, 11);
    assert_eq!(publisher.meta.ground_truth, 12);
    assert_eq!(publisher.meta.runtime_state, 13);
    assert_eq!(publisher.meta.header.heartbeat_ns, 14);
    assert_eq!(publisher.meta.camera_info.timestamp_ns, 15);
    assert!(publisher.meta.poses[PoseIndex::Chassis.index()].take());
}

#[test]
fn gimbal_commands_are_taken_one_by_one() {
    let region = publisher().meta;
    let mut sender = GimbalCmdPublisher::connect(region).unwrap();
    let cmd = GimbalCmd {
        timestamp_ns: 1,
        yaw_diff_deg: 2.0f32.to_bits(),
        pitch_diff_deg: 0,
        distance_m: 0,
        fire_advice: 1,
    };
    assert!(sender.previous_consumed());
    assert!(sender.try_publish(cmd));
    assert!(!sender.previous_consumed());
    assert!(!sender.try_publish(cmd));
    assert!(sender.meta.gimbal_cmd.take());
    assert!(sender.try_publish(cmd));
}

#[test]
fn a_foreign_region_is_refused() {
    let mut region = publisher().meta;
    region.header.magic = 1;
    assert!(matches!(
        GimbalCmdPublisher::connect(region),
        Err(ShmError::InvalidSize)
    ));
}

#[test]
fn frames_are_copied_row_by_row() {
    let stride = ROW_BYTES + 32;
    let mut data = vec![0u8; stride * 1080];
    for y in 0..1080 {
        data[y * stride] = (y % 251) as u8;
        data[y * stride + ROW_BYTES] = 255;
    }
    let mut out = vec![7u8; IMAGE_SIZE];
    assert_eq!(copy_frame_rgb24(&data, stride, &mut out), Ok(()));
    for y in 0..1080 {
        assert_eq!(out[y * ROW_BYTES], (y % 251) as u8);
        assert_eq!(out[y * ROW_BYTES + 1], 0);
    }
}

#[test]
fn frames_that_do_not_fit_are_refused() {
    let mut small = vec![0u8; 5];
    let error = copy_frame_rgb24(&[], 4, &mut small).unwrap_err();
    assert_eq!(
        error,
        CopyFrameError::DstSizeMismatch {
            expected: 4665600,
            got: 5
        }
    );
    assert_eq!(
        error.message(),
        "rgb dst size mismatch: expect 4665600, got 5"
    );
    let mut out = vec![0u8; IMAGE_SIZE];
    let error = copy_frame_rgb24(&vec![1; ROW_BYTES + 10], 10, &mut out).unwrap_err();
    assert_eq!(
        error,
        CopyFrameError::FrameTooSmall {
            src_end: ROW_BYTES + 20,
            data_len: ROW_BYTES + 10
        }
    );
    assert_eq!(
        error.message(),
        "frame buffer too small: src_end=4340, data_len=4330"
    );
}

#[test]
fn mock_frames_carry_mock_poses() {
    let mut publisher = publisher();
    assert_eq!(
        publish_frame(&mut publisher, &vec![3; IMAGE_SIZE], 9, 90, 91),
        None
    );
    assert_eq!(publisher.meta.header.heartbeat_ns, 91);
    assert!(publisher.meta.image.take());
    let muzzle = &mut publisher.meta.poses[PoseIndex::Muzzle.index()];
    assert!(muzzle.take());
    let slot = muzzle.slots[muzzle.read_idx as usize];
    assert_eq!(slot.frame_seq, 9);
    assert_eq!(
        slot.position.map(f32::from_bits),
        [0.0, 0.0, 0.2]
    );
    assert_eq!(
        slot.quaternion.map(f32::from_bits),
        [1.0, 0.0, 0.0, 0.0]
    );
}

#[test]
fn a_mock_frame_takes_the_command_that_has_arrived() {
    let mut publisher = publisher();
    let cmd = GimbalCmd {
        timestamp_ns: 5,
        yaw_diff_deg: 1.5f32.to_bits(),
        pitch_diff_deg: 0,
        distance_m: 3.0f32.to_bits(),
        fire_advice: 1,
    };
    publisher.meta.gimbal_cmd.publish(cmd);
    let frame = vec![0; IMAGE_SIZE];
    assert_eq!(publish_frame(&mut publisher, &frame, 0, 1, 2), Some(cmd));
    assert_eq!(publish_frame(&mut publisher, &frame, 1, 3, 4), None);
}

#[test]
fn the_default_camera_looks_through_its_middle() {
    let info = default_camera_info(5);
    assert_eq!(f64::from_bits(info.fx), 1440.0);
    assert_eq!(f64::from_bits(info.fy), 1080.0);
    assert_eq!(f64::from_bits(info.cx), 720.0);
    assert_eq!(f64::from_bits(info.cy), 540.0);
}

#[test]
fn playback_keeps_its_pace() {
    let mut pass = PublishPass::new(10, 1_000);
    pass.count_frame();
    assert_eq!(pass.frame_seq, 11);
    assert_eq!(pass.published, 1);
    assert_eq!(pass.pace(None, 5_000), Pace::Free);
    assert_eq!(
        pass.pace(Some(500), 1_200),
        Pace::Sleep { wait_ns: 300 }
    );
    assert_eq!(pass.pace(Some(500), 9_000), Pace::Late);
    pass.restart(9_000);
    assert_eq!(pass.next_deadline_ns, 9_000);
    assert!(!pass.logs(2));
    pass.count_frame();
    assert!(pass.logs(2));
    assert!(plays_again(true, 1));
    assert!(!plays_again(true, 0));
    assert!(!plays_again(false, 1));
}

#[test]
fn held_back_frames_are_only_counted() {
    let mut pass = PublishPass::new(7, 1_000);
    let first = pass.frame_published(false, 1, Some(500), 1_100);
    assert_eq!(
        first,
        AfterFrame {
            logs: true,
            pace: Pace::Sleep { wait_ns: 400 }
        }
    );
    assert_eq!(
        pass.frame_published(false, 3, Some(500), 5_000),
        AfterFrame {
            logs: false,
            pace: Pace::Late
        }
    );
    assert_eq!(
        pass.frame_published(true, 1, Some(500), 5_000),
        AfterFrame {
            logs: false,
            pace: Pace::Free
        }
    );
    assert_eq!(
        pass,
        PublishPass {
            frame_seq: 10,
            published: 3,
            next_deadline_ns: 2_000
        }
    );
}

#[test]
fn inputs_are_looked_up_under_three_spellings() {
    assert!(matches!(
        input_candidates("rtsp://camera/1"),
        InputProbe::Address
    ));
    let InputProbe::Paths {
        plain,
        decoded,
        narrowed,
    } = input_candidates("clip 3\\u{202f}PM 4 AM.mov")
    else {
        panic!("a path");
    };
    assert_eq!(plain, "clip 3\\u{202f}PM 4 AM.mov");
    assert_eq!(decoded, "clip 3\u{202f}PM 4 AM.mov");
    assert_eq!(narrowed, "clip 3\\u{202f}PM 4\u{202f}AM.mov");
}

#[test]
fn the_first_spelling_that_exists_is_used() {
    let resolve = |plain, decoded, narrowed| {
        resolve_input("a AM", plain, decoded, narrowed)
    };
    assert_eq!(resolve(true, true, true), Ok("a AM".to_string()));
    assert_eq!(resolve(false, true, true), Ok("a AM".to_string()));
    assert_eq!(resolve(false, false, true), Ok("a\u{202f}AM".to_string()));
    assert_eq!(
        resolve(false, false, false).map_err(|text| text.lines().next().unwrap().to_string()),
        Err("input not found: a AM".to_string())
    );
    assert_eq!(
        resolve_input("5\\u202fPM", false, true, true),
        Ok("5\u{202f}PM".to_string())
    );
    assert_eq!(
        resolve_input("udp://x", false, false, false),
        Ok("udp://x".to_string())
    );
}

#[test]
fn the_sender_counts_accepted_commands_only() {
    let mut sender = GimbalSender::new(0);
    assert!(!sender.finished(1));
    assert_eq!(sender.refused(), 1_000_000);
    assert_eq!(sender.accepted(20_000_000, 5_000_000), 15_000_000);
    assert_eq!(sender.accepted(20_000_000, 90_000_000), 1_000_000);
    assert_eq!(sender.published, 2);
    assert!(sender.finished(2));
    assert!(!sender.finished(0));
}

#[test]
fn rows_that_lie_far_apart_end_behind_the_data() {
    let mut out = vec![0; IMAGE_SIZE];
    let far = usize::MAX - ROW_BYTES;
    assert_eq!(
        copy_frame_rgb24(&vec![7; ROW_BYTES], far, &mut out),
        Err(CopyFrameError::FrameTooSmall {
            src_end: usize::MAX,
            data_len: ROW_BYTES
        })
    );
    assert_eq!(out[ROW_BYTES - 1], 7);
    assert_eq!(out[ROW_BYTES], 0);
    assert_eq!(
        copy_frame_rgb24(&[], usize::MAX, &mut out),
        Err(CopyFrameError::FrameTooSmall {
            src_end: ROW_BYTES,
            data_len: 0
        })
    );
}
