use daedalus::capture::format::TextureFormat;
use daedalus::capture::frame::CapturedFrameKind;
use daedalus::rate_limiter::AverageRateLimiter;
use daedalus::ros2::plan::{ros_build_plan, ros_limiters, RosBuildConfig};
use daedalus::ros2::image::{
    diagonal_covariance_3x3, image_publication, pinhole_matrices, planar_covariance, raw_image,
    ros_camera_info, stamp_to_ns, ImagePublication, PublishGate, RegionOfInterest, Stamp,
};
use daedalus::ros2::state::{
    publish_imu, publish_odometry, publish_tech_core_state, ImuNumbers, OdometryNumbers,
};
use daedalus::ros2::subscription::{process_subscription, AimChange, GimbalCommand};
use daedalus::ros2::tf::{
    armor_markers, armor_name, gimbal_pose, rune_name, target_name, transform_tree, FrameSource, PoseTopic, RuneFrame,
    TargetFrame,
};
use daedalus::ros2::topic::{
    register_pub, register_sub, Delivery, Direction, Mailbox, PublishQueue, Topic, PUBLISH_QUEUE,
};

#[test]
fn planar_covariance_sets_planar_slots_and_marks_unused() {
    let covariance = planar_covariance(0.01, 0.02, 1e6, 0.0);
    assert_eq!(covariance[0], 0.01);
    assert_eq!(covariance[7], 0.01);
    assert_eq!(covariance[14], 0.01);
    assert_eq!(covariance[35], 0.02);
    assert_eq!(covariance[21], 1e6);
    assert_eq!(covariance[28], 1e6);
    assert_eq!(covariance.len(), 36);
    // Only the unobserved roll/pitch slots carry the unused variance.
    // Everything else is zero: off-diagonal fill-in made the 6x6 matrix
    // singular, and consumers that invert it into an information matrix
    // (RTAB-Map) died on "Linear information X should not be null".
    assert_eq!(covariance.iter().filter(|v| **v == 1e6).count(), 2);
    let off_diagonal_nonzero = covariance
        .iter()
        .enumerate()
        .any(|(i, v)| i % 6 != i / 6 && *v != 0.0);
    assert!(!off_diagonal_nonzero);
    // Diagonal, so invertible iff every diagonal entry is positive.
    assert!(covariance.iter().step_by(7).all(|v| *v > 0.0));
}

#[test]
fn a_small_covariance_is_diagonal() {
    assert_eq!(
        diagonal_covariance_3x3(4, 0),
        vec![4, 0, 0, 0, 4, 0, 0, 0, 4]
    );
}

#[test]
fn camera_matrices_are_those_of_a_pinhole() {
    let m = pinhole_matrices(10, 20, 3, 4, 0, 1);
    assert_eq!(m.d, vec![0; 5]);
    assert_eq!(m.k, vec![10, 0, 3, 0, 20, 4, 0, 0, 1]);
    assert_eq!(m.r, vec![1, 0, 0, 0, 1, 0, 0, 0, 1]);
    assert_eq!(m.p, vec![10, 0, 3, 0, 0, 20, 4, 0, 0, 0, 1, 0]);
}

#[test]
fn camera_information_covers_the_whole_image() {
    let info = ros_camera_info(640, 480, 10, 20, 3, 4, 0, 1);
    assert_eq!((info.width, info.height), (640, 480));
    assert_eq!(info.distortion_model, "plumb_bob");
    assert_eq!(info.matrices.k, vec![10, 0, 3, 0, 20, 4, 0, 0, 1]);
    assert_eq!((info.binning_x, info.binning_y), (0, 0));
    assert_eq!(
        info.roi,
        RegionOfInterest {
            x_offset: 0,
            y_offset: 0,
            height: 480,
            width: 640,
            do_rectify: true
        }
    );
}

#[test]
fn topics_are_registered_by_direction() {
    let published = register_pub();
    let subscribed = register_sub();
    assert_eq!(published.len(), 11);
    assert!(published
        .iter()
        .all(|topic| topic.direction() == Direction::Publish));
    assert!(subscribed
        .iter()
        .all(|topic| topic.direction() == Direction::Subscribe));
    let mut names: Vec<&str> = published
        .iter()
        .chain(&subscribed)
        .map(|topic| topic.url())
        .collect();
    names.sort();
    names.dedup();
    assert_eq!(names.len(), 13);
}

#[test]
fn stamps_before_the_epoch_count_from_it() {
    assert_eq!(
        stamp_to_ns(Stamp {
            sec: 12,
            nanosec: 34
        }),
        12_000_000_034
    );
    assert_eq!(
        stamp_to_ns(Stamp {
            sec: -5,
            nanosec: 34
        }),
        34
    );
    assert_eq!(
        stamp_to_ns(Stamp {
            sec: i32::MAX,
            nanosec: u32::MAX
        }),
        2_147_483_647 * 1_000_000_000 + 4_294_967_295
    );
}

#[test]
fn a_gate_lets_frames_through_a_period_apart() {
    let mut gate = PublishGate {
        period_ns: 100,
        last_publish_ns: 0,
    };
    assert!(!gate.try_pass(99));
    assert!(gate.try_pass(100));
    assert!(!gate.try_pass(150));
    assert!(gate.try_pass(200));
    let mut open = PublishGate {
        period_ns: 0,
        last_publish_ns: 7,
    };
    assert!(open.try_pass(0));
    assert_eq!(open.last_publish_ns, 7);
}

#[test]
fn only_color_frames_become_images() {
    assert_eq!(
        image_publication(CapturedFrameKind::Rgb8, false),
        Some(ImagePublication::Raw)
    );
    assert_eq!(
        image_publication(CapturedFrameKind::Rgb8, true),
        Some(ImagePublication::Compressed)
    );
    assert_eq!(image_publication(CapturedFrameKind::Depth32F, true), None);
    let image = raw_image(2, 1, &[1, 2, 3, 4, 5, 6]);
    assert_eq!(image.encoding, "rgb8");
    assert_eq!(image.step, 6);
    assert_eq!(image.data, vec![1, 2, 3, 4, 5, 6]);
    assert_eq!((image.height, image.width, image.is_bigendian), (1, 2, 0));
}

#[test]
fn the_lidar_has_at_least_one_line() {
    let config = RosBuildConfig {
        color_width: 1440,
        color_height: 1080,
        depth_width: 640,
        depth_height: 480,
        image_millihertz: 60_000,
        odom_millihertz: 0,
        imu_millihertz: 100_000,
        livox_enabled: true,
        livox_line_num: 0,
        livox_millihertz: 10_000,
        livox_points_per_second: 100_000,
    };
    let plan = ros_build_plan(config, TextureFormat::Bgra8UnormSrgb);
    assert_eq!(plan.color.width, 1440);
    assert_eq!(plan.color.frame_kind, CapturedFrameKind::Rgb8);
    assert_eq!(plan.gate.period_ns, 16_666_666);
    let lidar = plan.lidar.unwrap();
    assert_eq!(lidar.line_num, 1);
    assert_eq!(lidar.capture.texture_format, TextureFormat::Depth32Float);
    assert_eq!(lidar.publish_period_ns, 100_000_000);
    assert_eq!(lidar.points_per_publish, 10_000);
    let sparse = RosBuildConfig {
        image_millihertz: 0,
        livox_points_per_second: 0,
        ..config
    };
    let plan = ros_build_plan(sparse, TextureFormat::Bgra8UnormSrgb);
    assert_eq!(plan.gate.period_ns, 0);
    assert_eq!(plan.lidar.unwrap().points_per_publish, 1);

    // A rate of zero is a slow one.
    let mut limiters = ros_limiters(config);
    assert!(limiters.odom.allow());
    limiters.odom.tick(9_999_999_999);
    assert!(!limiters.odom.allow());
    limiters.odom.tick(1);
    assert!(limiters.odom.allow());
    assert!(limiters.fire.allow());
    limiters.fire.tick(99_999_999);
    assert!(!limiters.fire.allow());
    limiters.fire.tick(1);
    assert!(limiters.fire.allow());
    let without = ros_build_plan(
        RosBuildConfig {
            livox_enabled: false,
            ..config
        },
        TextureFormat::Bgra8UnormSrgb,
    );
    assert!(without.lidar.is_none());
}

#[test]
fn a_full_queue_drops_the_newest_message() {
    let mut queue = PublishQueue::new();
    for _ in 0..PUBLISH_QUEUE {
        assert!(queue.offer());
    }
    assert!(!queue.offer());
    queue.sent();
    assert!(queue.offer());
    assert!(!queue.offer());
}

#[test]
fn launches_lie_a_period_apart() {
    let mut fire = AverageRateLimiter::from_hz(10_000);
    let mut echo = AverageRateLimiter::from_hz(2_000);
    let mut launched_at = Vec::new();
    for frame in 0..100u64 {
        let plan = process_subscription(
            &vec![command(false, true), command(false, true)],
            &mut fire,
            &mut echo,
            7_000_000,
        );
        if !plan.launches.is_empty() {
            launched_at.push(frame * 7_000_000);
        }
    }
    assert_eq!(launched_at.len(), 7);
    assert!(launched_at
        .windows(2)
        .all(|pair| pair[1] - pair[0] >= 100_000_000));
}

fn command(target_lost: bool, fire_advice: bool) -> GimbalCommand {
    GimbalCommand {
        target_lost,
        fire_advice,
    }
}

#[test]
fn a_frame_fires_at_most_once() {
    let mut fire = AverageRateLimiter::new(1_000);
    let mut echo = AverageRateLimiter::new(1_000);
    let plan = process_subscription(
        &vec![
            command(false, false),
            command(false, true),
            command(false, true),
        ],
        &mut fire,
        &mut echo,
        5,
    );
    assert_eq!(plan.aim, AimChange::Shift);
    assert_eq!(plan.launches, vec![1]);
    assert_eq!(plan.echoes, vec![0]);
    let plan = process_subscription(&vec![command(false, true)], &mut fire, &mut echo, 5);
    assert!(plan.launches.is_empty());
    let plan = process_subscription(&vec![command(false, true)], &mut fire, &mut echo, 995);
    assert_eq!(plan.launches, vec![0]);
}

#[test]
fn a_lost_target_ends_the_frame() {
    let mut fire = AverageRateLimiter::new(1);
    let mut echo = AverageRateLimiter::new(1);
    let plan = process_subscription(
        &vec![command(true, true), command(false, true)],
        &mut fire,
        &mut echo,
        1,
    );
    assert_eq!(plan.aim, AimChange::Drop);
    assert!(plan.launches.is_empty());
    let plan = process_subscription(&vec![], &mut fire, &mut echo, 1);
    assert_eq!(plan.aim, AimChange::Keep);
}

#[test]
fn topics_have_names_and_directions() {
    assert_eq!(Topic::ImageCompressed.url(), "/image_raw/compressed");
    assert_eq!(Topic::GimbalCmd.url(), "/rm_gimbal/cmd");
    assert_eq!(Topic::GimbalCmd.direction(), Direction::Subscribe);
    assert_eq!(Topic::CmdVel.delivery(), Delivery::SensorData);
    assert_eq!(Topic::GlobalTransform.direction(), Direction::Publish);
    assert_eq!(Topic::GlobalTransform.delivery(), Delivery::Default);
}

#[test]
fn a_mailbox_holds_the_newest_message() {
    let mut mailbox = Mailbox::new();
    assert_eq!(mailbox.try_recv(), None);
    mailbox.deliver(1);
    mailbox.deliver(2);
    assert_eq!(mailbox.try_recv(), Some(2));
    assert_eq!(mailbox.try_recv(), None);
}

#[test]
fn frames_are_named_in_lower_case() {
    assert_eq!(rune_name("Small"), "power_rune_small");
    assert_eq!(target_name("Large", "R_3"), "power_rune_large_r_3");
    assert_eq!(armor_name(0), "armor_0");
    assert_eq!(armor_name(120), "armor_120");
}

#[test]
fn every_frame_hangs_under_a_root() {
    let runes = vec![
        RuneFrame {
            entity: 1,
            mode: "Red".to_string(),
        },
        RuneFrame {
            entity: 2,
            mode: "Blue".to_string(),
        },
    ];
    let target = |rune, name: &str, target: &str| TargetFrame {
        rune,
        name: name.to_string(),
        target: target.to_string(),
    };
    let targets = vec![
        target(2, "FACE_1_TARGET_1_ACTIVATED", "1"),
        target(1, "FACE_2_TARGET_2_DISABLED", "2"),
        target(1, "FACE_2_TARGET_3_ACTIVATED", "3"),
    ];
    let edges = transform_tree(&runes, &targets, &vec![7]);
    let names: Vec<_> = edges
        .iter()
        .map(|edge| (edge.parent.as_str(), edge.child.as_str()))
        .collect();
    assert_eq!(
        names,
        vec![
            ("odom", "base_link"),
            ("base_link", "gimbal_link"),
            ("gimbal_link", "muzzle"),
            ("muzzle", "muzzle_link"),
            ("gimbal_link", "camera_link"),
            ("camera_link", "camera_optical_frame"),
            ("map", "power_rune_red"),
            ("power_rune_red", "power_rune_red_3"),
            ("map", "power_rune_blue"),
            ("power_rune_blue", "power_rune_blue_1"),
            ("map", "armor_7"),
        ]
    );
    assert_eq!(edges[0].pose_topic, Some(PoseTopic::Odom));
    assert_eq!(edges[7].source, FrameSource::Target(2));
    for edge in &edges {
        let rooted = edge.parent == "odom"
            || edge.parent == "map"
            || edges.iter().any(|other| other.child == edge.parent);
        assert!(rooted);
    }
}

#[test]
fn odometry_is_planar_and_limited() {
    let numbers = OdometryNumbers {
        observed: 0.01,
        unused: 1e6,
        zero: 0.0,
    };
    let mut limiter = AverageRateLimiter::from_hz(50_000);
    let message =
        publish_odometry(&mut limiter, 0, "pose", 1.5, -0.5, 2.0, numbers).unwrap();
    assert_eq!(message.frame_id, "odom");
    assert_eq!(message.child_frame_id, "base_link");
    assert_eq!(message.pose, "pose");
    assert_eq!(message.twist.linear, (1.5, -0.5, 0.0));
    assert_eq!(message.twist.angular, (0.0, 0.0, 2.0));
    assert_eq!(message.pose_covariance[28], 1e6);
    assert_eq!(message.twist_covariance[35], 0.01);
    assert!(publish_odometry(&mut limiter, 19_999_999, "pose", 0.0, 0.0, 0.0, numbers).is_none());
    assert!(publish_odometry(&mut limiter, 1, "pose", 0.0, 0.0, 0.0, numbers).is_some());
}

#[test]
fn the_inertial_unit_reports_in_the_frame_of_the_base() {
    let numbers = ImuNumbers {
        orientation_variance: 0.01,
        angular_velocity_variance: 0.03,
        linear_acceleration_variance: 0.02,
        zero: 0.0,
    };
    let mut limiter = AverageRateLimiter::from_hz(100_000);
    let message = publish_imu(&mut limiter, 0, "turn", "spin", "force", numbers).unwrap();
    assert_eq!(message.frame_id, "base_link");
    assert_eq!(message.orientation, "turn");
    assert_eq!(message.angular_velocity, "spin");
    assert_eq!(message.linear_acceleration, "force");
    assert_eq!(
        message.angular_velocity_covariance,
        vec![0.03, 0.0, 0.0, 0.0, 0.03, 0.0, 0.0, 0.0, 0.03]
    );
    assert_eq!(message.orientation_covariance[4], 0.01);
    assert_eq!(message.linear_acceleration_covariance[8], 0.02);
    assert!(publish_imu(&mut limiter, 9_999_999, "turn", "spin", "force", numbers).is_none());
}

#[test]
fn the_tech_core_is_reported_at_its_own_rate() {
    let mut limiter = AverageRateLimiter::from_hz(20_000);
    assert_eq!(
        publish_tech_core_state(&mut limiter, 0, 7, 8, 0, &[]).unwrap(),
        "{\"cores\":[],\"stamp\":{\"nanosec\":8,\"sec\":7}}"
    );
    assert!(publish_tech_core_state(&mut limiter, 49_999_999, 7, 8, 0, &[]).is_none());
    assert!(publish_tech_core_state(&mut limiter, 1, 7, 8, 0, &[]).is_some());
}

#[test]
fn every_armor_has_a_marker() {
    let markers = armor_markers(&vec![7, 3]);
    assert_eq!(markers.len(), 2);
    assert_eq!(markers[0].frame_id, "map");
    assert_eq!(markers[0].ns, "armors");
    assert_eq!((markers[0].id, markers[1].id), (7, 3));
    assert_eq!(markers[1].armor, 1);
    assert_eq!(markers[1].lifetime_sec, 0);
    assert_eq!(markers[1].lifetime_nanosec, 300_000_000);
    assert_eq!(markers[1].scale_mm, (30, 150, 125));
    assert_eq!(markers[1].color, (false, true, false, false));
}

#[test]
fn the_gimbal_has_a_pose_outside_the_tree() {
    let pose = gimbal_pose();
    assert_eq!(pose.frame_id, "odom");
    assert_eq!(pose.source, FrameSource::GimbalInWorld);
    assert_eq!(pose.pose_topic.topic().url(), "/gimbal_pose");
    assert!(transform_tree(&vec![], &vec![], &vec![1])
        .iter()
        .all(|edge| edge.source != FrameSource::GimbalInWorld
            && edge.pose_topic != Some(PoseTopic::Gimbal)));
    assert_eq!(PoseTopic::Odom.topic().url(), "/odom_pose");
    assert_eq!(PoseTopic::Muzzle.topic().url(), "/muzzle_pose");
    assert_eq!(PoseTopic::Camera.topic().url(), "/camera_pose");
}
