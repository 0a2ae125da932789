use daedalus::controller::{Axes, ControllerInput, FULL};
use daedalus::hierarchy::{collect_descendants, colliders_ready, SceneNode};
use daedalus::observation::{Observation, PreviousKinematicState};
use daedalus::projectile::{
    cleanup_projectiles, dart_launch, projectile_launch, uav_launch, Launch, OnceTimer,
    ProjectileLifetime,
};
use daedalus::rate_limiter::AverageRateLimiter;
use daedalus::ros2::navigation::{process_cmd_vel, CmdVel};
use daedalus::vehicle::{
    gimbal_controls, remote_vehicle_controls, setup_vehicle, switch_slapper_control,
    vehicle_controls, DriveCommand, GimbalAimTracker, GimbalTurn, MissingPart, NavCmdVel,
    SlapperSwitch, VehicleCommand, NAV_TIMEOUT_NS,
};

const STILL: ((f32, f32), f32) = ((0.0, 0.0), 0.0);

fn nav() -> NavCmdVel<(f32, f32), f32> {
    NavCmdVel::new((0.0, 0.0), 0.0)
}

/// A speed in billionths.
fn speed(value: f32) -> i64 {
    (value as f64 * 1e9) as i64
}

#[test]
fn nav_cmd_vel_is_inactive_until_first_command() {
    let nav = nav();
    assert_eq!(nav.active_target(9_000, 0, 0, STILL), None);
    // even a fast-moving chassis is left to manual control before any
    // command ever arrived
    assert_eq!(
        nav.active_target(9_000, speed(5.0) as u64, speed(1.0), STILL),
        None
    );
}

#[test]
fn nav_cmd_vel_fresh_command_is_passed_through() {
    let mut nav = nav();
    nav.update((1.0, -0.5), 0.7, 1_000);
    assert_eq!(
        nav.active_target(1_000, 0, 0, STILL),
        Some(((1.0, -0.5), 0.7))
    );
}

#[test]
fn nav_cmd_vel_stale_command_brakes_then_releases() {
    let mut nav = nav();
    nav.update((2.0, 0.0), 1.0, 1_000);
    let now = 1_000 + NAV_TIMEOUT_NS + 50_000_000;

    // still rolling/spinning → target zero so the chassis brakes actively
    assert_eq!(
        nav.active_target(now, speed(5.0) as u64, speed(0.0), STILL),
        Some(STILL)
    );
    assert_eq!(
        nav.active_target(now, speed(0.0) as u64, speed(0.3), STILL),
        Some(STILL)
    );

    // stopped → hand control back to manual input
    assert_eq!(
        nav.active_target(now, speed(0.01) as u64, speed(0.0), STILL),
        None
    );
}

#[test]
fn nav_commands_count_up_to_the_timeout() {
    let mut nav = nav();
    nav.update((1.0, 0.0), 0.0, 0);
    assert!(nav.active_target(499_999_999, 0, 0, STILL).is_some());
    assert!(nav.active_target(500_000_000, 0, 0, STILL).is_none());
    assert_eq!(
        nav.active_target(500_000_000, 0, speed(-0.3), STILL),
        Some(STILL)
    );
}

#[test]
fn the_last_velocity_command_counts() {
    let mut nav = nav();
    let mut limiter = AverageRateLimiter::new(100);
    let commands = vec![
        CmdVel {
            linear: (1.0, 0.0),
            angular_z: 0.5,
        },
        CmdVel {
            linear: (2.0, 0.0),
            angular_z: 0.25,
        },
    ];
    assert_eq!(
        process_cmd_vel(&commands, &mut nav, &mut limiter, 10, 77),
        vec![0]
    );
    assert_eq!(nav.linear, (2.0, 0.0));
    assert_eq!(nav.angular_z, 0.25);
    assert_eq!(nav.last_cmd_ns, Some(77));
    assert!(process_cmd_vel(&commands, &mut nav, &mut limiter, 10, 78).is_empty());
    assert!(process_cmd_vel(&Vec::new(), &mut nav, &mut limiter, 100, 79).is_empty());
    assert_eq!(nav.last_cmd_ns, Some(78));
}

#[test]
fn navigation_bypasses_the_player() {
    let mut input = ControllerInput::default();
    input.boost = true;
    input.add_movement(Axes { x: FULL, y: 0 });
    assert!(matches!(
        vehicle_controls(Some((1u8, 2u8)), input),
        DriveCommand::Navigation {
            linear: 1,
            angular_z: 2
        }
    ));
    assert!(matches!(
        vehicle_controls::<u8, u8>(None, input),
        DriveCommand::Manual {
            movement: Axes { x: FULL, y: 0 },
            boost: 2,
            ..
        }
    ));
    assert!(matches!(
        remote_vehicle_controls::<u8, u8>(ControllerInput::default()),
        DriveCommand::Manual { boost: 1, .. }
    ));
}

#[test]
fn a_solver_takes_the_gimbal_out_of_the_players_hands() {
    let mut input = ControllerInput::default();
    input.add_gimbal(Axes { x: 5, y: 6 });
    assert_eq!(gimbal_controls(true, input), None);
    assert_eq!(
        gimbal_controls(false, input),
        Some(GimbalTurn {
            axes: Axes { x: 5, y: 6 },
            percent: 100
        })
    );
    input.precise_gimbal = true;
    assert_eq!(
        gimbal_controls(false, input).map(|turn| turn.percent),
        Some(35)
    );
}

/// A loop that sums up its error.
#[derive(Clone, Copy, Debug, Default, PartialEq)]
struct AxisLoop {
    integral: f32,
    previous_error: f32,
}

impl AxisLoop {
    fn step(&mut self, error: f32, integral_limit: f32, dt: f32) {
        self.integral = (self.integral + error * dt).clamp(-integral_limit, integral_limit);
        self.previous_error = error;
    }
}

#[derive(Clone, Copy, Debug)]
struct AimTarget {
    yaw: f32,
    pitch: f32,
}

fn tracker() -> GimbalAimTracker<AimTarget, AxisLoop> {
    let target = AimTarget {
        yaw: 0.0,
        pitch: 0.0,
    };
    GimbalAimTracker::new(target, AxisLoop::default())
}

#[test]
fn retarget_keeps_loop_state_so_command_stream_is_continuous() {
    let mut tracker = tracker();
    tracker.yaw.step(0.1, 1.0, 0.01);
    let integral = tracker.yaw.integral;
    assert!(integral > 0.0);

    tracker.retarget(AimTarget {
        yaw: 0.5,
        pitch: 0.1,
    });

    assert_eq!(tracker.yaw.integral, integral);
    assert_eq!(tracker.target().yaw, 0.5);
    assert_eq!(tracker.target().pitch, 0.1);
}

#[test]
fn axis_loop_state_is_not_shared_between_yaw_and_pitch() {
    let mut tracker = tracker();

    tracker.yaw.step(1.0, 1.0, 0.5);

    assert_eq!(tracker.yaw.integral, 0.5);
    assert_eq!(tracker.pitch.integral, 0.0);
    assert_eq!(tracker.pitch.previous_error, 0.0);
}

#[test]
fn remote_control_goes_round() {
    let roots = vec![4, 5, 6];
    let switch = |active| switch_slapper_control(true, &roots, active);
    assert_eq!(
        switch(Some(4)),
        Some(SlapperSwitch {
            from: Some(4),
            to: 5
        })
    );
    assert_eq!(switch(Some(6)).map(|s| s.to), Some(4));
    assert_eq!(
        switch(None),
        Some(SlapperSwitch { from: None, to: 4 })
    );
    assert_eq!(switch(Some(9)).map(|s| s.to), Some(4));
    assert_eq!(switch_slapper_control(false, &roots, Some(4)), None);
    assert_eq!(switch_slapper_control(true, &vec![4], Some(4)), None);
}

fn node(entity: u64, name: &str, parent: Option<usize>) -> SceneNode {
    SceneNode {
        entity,
        name: Some(name.to_string()),
        parent,
        has_mesh: true,
        has_triangles: true,
        has_markers: false,
        has_points: true,
        placed: true,
    }
}

fn robot() -> Vec<SceneNode> {
    vec![
        node(10, "VEHICLE", None),
        node(11, "BASE", Some(0)),
        node(12, "GIMBAL", Some(0)),
        node(13, "CHASSIS", Some(1)),
        node(14, "SHOT_DIRECTION", Some(2)),
        node(15, "CAM_DIRECTION", Some(2)),
    ]
}

#[test]
fn the_players_robot_gets_everything() {
    let commands = setup_vehicle(&robot(), true, false).unwrap();
    assert_eq!(commands[0], VehicleCommand::Control(0));
    assert_eq!(commands[6], VehicleCommand::Body { local: true });
    assert_eq!(commands[7], VehicleCommand::ArmorLayers(0));
    assert_eq!(
        &commands[13..],
        &[
            VehicleCommand::Obstacle(3),
            VehicleCommand::NoGimbalTower,
            VehicleCommand::Chassis(1),
            VehicleCommand::Gimbal(2),
            VehicleCommand::LaunchOffset(4),
            VehicleCommand::ViewOffset(5),
        ]
    );
}

#[test]
fn another_robot_is_marked_as_one() {
    let commands = setup_vehicle(&robot(), false, true).unwrap();
    assert_eq!(commands[0], VehicleCommand::Slapper(0));
    assert_eq!(commands[1], VehicleCommand::ActiveSlapper(0));
    assert_eq!(commands[12], VehicleCommand::Body { local: false });
    assert_eq!(commands.last(), Some(&VehicleCommand::Gimbal(2)));
    let passive = setup_vehicle(&robot(), false, false).unwrap();
    assert_eq!(passive[1], VehicleCommand::Slapper(1));
}

#[test]
fn missing_parts_are_named() {
    let without = |name: &str| {
        let mut nodes = robot();
        for node in &mut nodes {
            if node.name.as_deref() == Some(name) {
                node.name = None;
            }
        }
        nodes
    };
    assert_eq!(
        setup_vehicle(&without("VEHICLE"), true, false),
        Err(MissingPart::Base)
    );
    assert_eq!(
        setup_vehicle(&without("BASE"), true, false),
        Err(MissingPart::Base)
    );
    assert_eq!(
        setup_vehicle(&without("GIMBAL"), true, false),
        Err(MissingPart::Gimbal)
    );
    assert_eq!(
        setup_vehicle(&without("SHOT_DIRECTION"), true, false),
        Err(MissingPart::ShotDirection)
    );
    assert_eq!(
        setup_vehicle(&without("CAM_DIRECTION"), true, false),
        Err(MissingPart::CamDirection)
    );
    assert!(setup_vehicle(&without("CAM_DIRECTION"), false, false).is_ok());
}

#[test]
fn descendants_come_right_after_their_parents() {
    let children = vec![vec![1, 4], vec![2, 3], vec![], vec![], vec![5], vec![]];
    let mut below = vec![9];
    collect_descendants(&children, 0, &mut below);
    assert_eq!(below, vec![9, 1, 2, 3, 4, 5]);
    let waiting = vec![true, false, true, false, false, true];
    assert_eq!(colliders_ready(&children, &waiting, 0), vec![2, 5]);
    assert_eq!(colliders_ready(&children, &waiting, 4), vec![5]);
}

#[test]
fn a_timer_runs_out_in_its_time() {
    let mut timer = OnceTimer::new(100);
    assert!(!timer.is_finished());
    timer.tick(60);
    timer.tick(39);
    assert!(!timer.is_finished());
    timer.tick(1);
    assert!(timer.is_finished());
    timer.tick(u64::MAX);
    assert_eq!(timer.elapsed_ns, 100);
    timer.reset();
    assert_eq!(timer, OnceTimer::new(100));
    let mut none = OnceTimer::new(0);
    none.tick(0);
    assert!(none.is_finished());
}

#[test]
fn shots_lie_a_cooldown_apart() {
    let mut cooldown = OnceTimer::new(100);
    assert_eq!(projectile_launch(&mut cooldown, 99, true), Launch::Waiting);
    assert_eq!(projectile_launch(&mut cooldown, 1, true), Launch::Fire);
    assert_eq!(projectile_launch(&mut cooldown, 99, true), Launch::Waiting);
    assert_eq!(projectile_launch(&mut cooldown, 50, false), Launch::Misfire);
    assert_eq!(cooldown, OnceTimer::new(100));
}

#[test]
fn a_dart_needs_one_launcher() {
    assert_eq!(dart_launch(&vec![8], true), Some(8));
    assert_eq!(dart_launch(&vec![8], false), None);
    assert_eq!(dart_launch(&vec![], true), None);
    assert_eq!(dart_launch(&vec![8, 9], true), None);
}

#[test]
fn drones_are_set_down_once_a_second() {
    let mut timer = None;
    assert!(!uav_launch(&mut timer, 999_999_999, true));
    assert!(uav_launch(&mut timer, 1, true));
    assert!(!uav_launch(&mut timer, 10, true));
    assert!(!uav_launch(&mut timer, 1_000_000_000, false));
    assert!(!uav_launch(&mut timer, 10, true));
}

#[test]
fn old_projectiles_are_cleared_away() {
    let mut projectiles = vec![
        ProjectileLifetime {
            entity: 1,
            timer: OnceTimer::new(10),
        },
        ProjectileLifetime {
            entity: 2,
            timer: OnceTimer::new(20),
        },
    ];
    assert!(cleanup_projectiles(&mut projectiles, 9).is_empty());
    assert_eq!(cleanup_projectiles(&mut projectiles, 1), vec![1]);
    assert_eq!(projectiles.len(), 1);
    assert_eq!(projectiles[0].timer.elapsed_ns, 10);
    assert_eq!(cleanup_projectiles(&mut projectiles, 10), vec![2]);
    assert!(projectiles.is_empty());
}

#[test]
fn a_limiter_allows_once_per_period() {
    let mut limiter = AverageRateLimiter::new(100);
    assert!(limiter.allow());
    assert!(!limiter.allow());
    limiter.tick(60);
    assert!(!limiter.allow());
    limiter.tick(60);
    assert!(limiter.allow());
    limiter.tick(99);
    assert!(!limiter.allow());
}

#[test]
fn accelerations_need_two_frames() {
    let mut previous = PreviousKinematicState::new();
    assert!(matches!(previous.observe(Some(1), true), Observation::Steady));
    assert!(matches!(
        previous.observe(Some(2), true),
        Observation::Changed { before: 1 }
    ));
    assert!(matches!(
        previous.observe(Some(3), false),
        Observation::Steady
    ));
    assert!(matches!(previous.observe(None, true), Observation::Lost));
    assert!(matches!(previous.observe(Some(4), true), Observation::Steady));
}

#[test]
fn acceleration_is_zero_without_history() {
    let mut previous = PreviousKinematicState::new();
    let seen = previous.observe(Some(((1.0f32, 1.0f32), 0.5f32)), true);
    assert!(matches!(seen, Observation::Steady));
}
