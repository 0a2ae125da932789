use daedalus::controller::gamepad::{
    gamepad_controller_active, sample_gamepad_controller, Button, Gamepad,
};
use daedalus::controller::keyboard::{
    following_controls, freecam_controls, keyboard_controller_active, sample_keyboard_controller,
    FollowingType, FreecamStep, Key, Keyboard,
};
use daedalus::controller::{
    clear_controller_input, controller_dart_just_pressed, controller_shoot_pressed,
    request_controller_rumble, update_auto_aim_subscription, Axes, ControllerHelp,
    ControllerInput, ControllerState, RumbleRequest, FULL,
};

fn keys(held: &[Key], edges: &[Key]) -> Keyboard {
    Keyboard {
        held: held.to_vec(),
        edges: edges.to_vec(),
    }
}

fn idle_gamepad() -> Gamepad {
    Gamepad {
        entity: 77,
        left_stick: Axes::zero(),
        right_stick: Axes::zero(),
        dpad: Axes::zero(),
        left_trigger: None,
        right_trigger: Some(0),
        held: Vec::new(),
        edges: Vec::new(),
    }
}

#[test]
fn controller_input_clamps_each_axis_without_changing_diagonal_input() {
    let x = Axes { x: FULL, y: 0 };
    let y = Axes { x: 0, y: FULL };
    let one = Axes { x: FULL, y: FULL };
    let mut input = ControllerInput::default();
    input.add_movement(x);
    input.add_movement(y);

    assert_eq!(input.movement, one);

    input.add_movement(one);
    assert_eq!(input.movement, one);
}

#[test]
fn help_provider_switches_between_manual_and_auto_aim_modes() {
    let mut controller = ControllerState::default();
    controller.use_help(ControllerHelp::Xbox);

    assert_eq!(controller.help_source(), "xbox");
    controller.keyboard_auto_aim = false;
    assert_eq!(controller.help_mode(), "manual");
    assert!(controller.help_controls().contains("hold RT"));

    controller.controlled.auto_aim = true;
    assert_eq!(controller.help_mode(), "auto-aim");
    assert!(controller.help_controls().contains("release RT"));
}

#[test]
fn reset_frame_preserves_last_help_provider() {
    let mut controller = ControllerState::default();
    controller.use_help(ControllerHelp::Xbox);

    controller.reset_frame();

    assert_eq!(controller.help_source(), "xbox");
}

#[test]
fn reset_frame_preserves_chassis_spin_modes() {
    let mut controller = ControllerState::default();
    controller.toggle_controlled_chassis_spin();
    controller.toggle_remote_chassis_spin();

    controller.reset_frame();

    assert!(controller.controlled_chassis_spin());
    assert!(controller.remote_chassis_spin());
}

#[test]
fn the_keyboard_drives_both_robots() {
    let mut controller = ControllerState::default();
    let keyboard = keys(
        &[
            Key::KeyW,
            Key::KeyA,
            Key::ArrowUp,
            Key::Space,
            Key::KeyK,
            Key::KeyC,
            Key::KeyV,
            Key::Quote,
            Key::ShiftRight,
        ],
        &[Key::KeyQ, Key::Tab, Key::F5],
    );
    sample_keyboard_controller(&keyboard, &mut controller);
    assert_eq!(controller.controlled.movement, Axes { x: -FULL, y: FULL });
    assert_eq!(controller.controlled.gimbal, Axes { x: 0, y: FULL });
    assert_eq!(controller.controlled.chassis_yaw, FULL);
    assert!(controller.controlled.shoot);
    assert!(!controller.controlled.boost);
    assert!(controller.controlled.switch_slapper_just_pressed);
    assert_eq!(controller.remote.movement, Axes { x: 0, y: -FULL });
    assert_eq!(controller.remote.gimbal, Axes { x: FULL, y: -FULL });
    assert_eq!(controller.remote.chassis_pitch, -FULL);
    assert!(controller.remote.boost);
    assert!(!controller.keyboard_auto_aim);
    assert!(controller.controlled_chassis_spin());
    assert!(controller_shoot_pressed(&controller));
    assert!(!controller_dart_just_pressed(&controller));
}

#[test]
fn the_left_shift_key_holds_the_remote_gimbal() {
    let mut controller = ControllerState::default();
    sample_keyboard_controller(
        &keys(&[Key::ShiftLeft, Key::KeyC, Key::KeyF], &[]),
        &mut controller,
    );
    assert_eq!(controller.remote.gimbal, Axes { x: 0, y: FULL });
    assert!(controller.controlled.boost);
}

#[test]
fn opposite_keys_cancel() {
    let mut controller = ControllerState::default();
    sample_keyboard_controller(&keys(&[Key::KeyW, Key::KeyS], &[]), &mut controller);
    assert_eq!(controller.controlled.movement, Axes::zero());
}

#[test]
fn an_idle_keyboard_changes_nothing_that_lasts() {
    let mut controller = ControllerState::default();
    controller.use_help(ControllerHelp::Xbox);
    controller.use_gamepad(5);
    controller.toggle_remote_chassis_spin();
    let before = controller;
    clear_controller_input(&mut controller);
    sample_keyboard_controller(&keys(&[], &[]), &mut controller);
    assert_eq!(controller.help, before.help);
    assert_eq!(controller.active_gamepad(), Some(5));
    assert_eq!(controller.controlled, ControllerInput::default());
    assert_eq!(controller.remote.chassis_yaw, FULL);
}

#[test]
fn the_right_shift_key_alone_is_no_use_of_the_keyboard() {
    assert!(!keyboard_controller_active(&keys(&[Key::ShiftRight], &[])));
    assert!(keyboard_controller_active(&keys(&[Key::KeyV], &[])));
    assert!(keyboard_controller_active(&keys(&[], &[Key::KeyU])));
    assert!(!keyboard_controller_active(&keys(&[Key::KeyU], &[])));
}

#[test]
fn the_first_gamepad_is_sampled() {
    let mut controller = ControllerState::default();
    let mut gamepad = idle_gamepad();
    gamepad.left_stick = Axes {
        x: 500_000_000,
        y: -250_000_000,
    };
    gamepad.right_stick = Axes {
        x: 100_000_000,
        y: 200_000_000,
    };
    gamepad.dpad = Axes { x: FULL, y: 0 };
    gamepad.left_trigger = Some(350_000_001);
    gamepad.right_trigger = Some(350_000_000);
    gamepad.held = vec![Button::LeftThumb, Button::RightTrigger];
    gamepad.edges = vec![Button::LeftTrigger, Button::RightTrigger2, Button::West];
    let requests = sample_gamepad_controller(&vec![gamepad, idle_gamepad()], &mut controller);
    assert_eq!(
        controller.controlled.movement,
        Axes {
            x: 500_000_000,
            y: -250_000_000
        }
    );
    assert_eq!(
        controller.controlled.gimbal,
        Axes {
            x: -100_000_000,
            y: 200_000_000
        }
    );
    assert_eq!(controller.controlled.chassis_yaw, FULL);
    assert!(controller.controlled.precise_gimbal);
    assert!(!controller.controlled.auto_aim);
    assert!(controller.controlled.boost);
    assert!(controller.controlled.shoot);
    assert!(controller.controlled.dart_just_pressed);
    assert_eq!(controller.remote.movement, Axes { x: -FULL, y: 0 });
    assert_eq!(controller.remote.chassis_roll, 0);
    assert_eq!(controller.active_gamepad(), Some(77));
    assert_eq!(controller.help_source(), "xbox");
    assert_eq!(
        requests,
        vec![
            RumbleRequest {
                gamepad: 77,
                strong_percent: 0,
                weak_percent: 25,
                duration_ms: 70
            },
            RumbleRequest {
                gamepad: 77,
                strong_percent: 12,
                weak_percent: 0,
                duration_ms: 60
            },
        ]
    );
}

#[test]
fn a_pressed_right_stick_tilts_instead_of_aiming() {
    let mut controller = ControllerState::default();
    let mut gamepad = idle_gamepad();
    gamepad.right_stick = Axes { x: 30, y: -40 };
    gamepad.held = vec![Button::RightThumb];
    gamepad.edges = vec![Button::North];
    let requests = sample_gamepad_controller(&vec![gamepad], &mut controller);
    assert_eq!(controller.controlled.gimbal, Axes::zero());
    assert_eq!(controller.remote.chassis_roll, 30);
    assert_eq!(controller.remote.chassis_pitch, -40);
    assert_eq!(controller.remote.chassis_yaw, FULL);
    assert_eq!(requests.len(), 1);
}

#[test]
fn the_last_device_is_shown() {
    let mut controller = ControllerState::default();
    let mut gamepad = idle_gamepad();
    assert!(!gamepad_controller_active(&gamepad));
    gamepad.edges = vec![Button::Select];
    assert!(gamepad_controller_active(&gamepad));
    sample_gamepad_controller(&vec![gamepad], &mut controller);
    assert_eq!(controller.help_source(), "xbox");
    assert!(controller.controlled.switch_camera_just_pressed);
    sample_keyboard_controller(&keys(&[Key::KeyD], &[]), &mut controller);
    assert_eq!(controller.help_source(), "keyboard");
    assert_eq!(controller.active_gamepad(), None);
    sample_gamepad_controller(&vec![idle_gamepad()], &mut controller);
    assert_eq!(controller.help_source(), "keyboard");
    assert!(sample_gamepad_controller(&Vec::new(), &mut controller).is_empty());
}

#[test]
fn a_change_of_who_aims_is_announced_once() {
    let mut controller = ControllerState::default();
    let mut enabled = false;
    assert_eq!(
        update_auto_aim_subscription(&controller, &mut enabled),
        Some(true)
    );
    assert_eq!(update_auto_aim_subscription(&controller, &mut enabled), None);
    controller.toggle_keyboard_auto_aim();
    assert_eq!(
        update_auto_aim_subscription(&controller, &mut enabled),
        Some(false)
    );
    assert!(!enabled);
}

#[test]
fn only_the_gamepad_in_use_shakes() {
    let mut controller = ControllerState::default();
    assert_eq!(request_controller_rumble(None, 45, 20, 80), None);
    assert_eq!(
        request_controller_rumble(Some(&controller), 45, 20, 80),
        None
    );
    controller.use_gamepad(3);
    assert_eq!(
        request_controller_rumble(Some(&controller), 45, 20, 80),
        Some(RumbleRequest {
            gamepad: 3,
            strong_percent: 45,
            weak_percent: 20,
            duration_ms: 80
        })
    );
    controller.clear_gamepad();
    assert_eq!(
        request_controller_rumble(Some(&controller), 45, 20, 80),
        None
    );
}

#[test]
fn speeds_follow_the_buttons() {
    let mut input = ControllerInput::default();
    assert_eq!(input.boost_multiplier(), 1);
    assert_eq!(input.gimbal_scale(), 100);
    input.boost = true;
    input.precise_gimbal = true;
    assert_eq!(input.boost_multiplier(), 2);
    assert_eq!(input.gimbal_scale(), 35);
    input.add_chassis(10, i32::MIN, i32::MAX);
    assert_eq!(input.chassis_yaw, 10);
    assert_eq!(input.chassis_roll, -FULL);
    assert_eq!(input.chassis_pitch, FULL);
}

#[test]
fn views_come_round() {
    let mut controller = ControllerState::default();
    let mut mode = FollowingType::Free;
    following_controls(&mut mode, &controller);
    assert_eq!(mode, FollowingType::Free);
    controller.controlled.switch_camera_just_pressed = true;
    let mut seen = Vec::new();
    for _ in 0..3 {
        following_controls(&mut mode, &controller);
        seen.push(mode);
    }
    assert_eq!(
        seen,
        vec![
            FollowingType::Robot,
            FollowingType::ThirdPerson,
            FollowingType::Free
        ]
    );
}

#[test]
fn the_free_camera_steps_in_order() {
    assert_eq!(
        freecam_controls(FollowingType::Free, &keys(&[Key::KeyJ, Key::KeyD, Key::KeyW], &[])),
        Some(vec![FreecamStep::Forward, FreecamStep::Right, FreecamStep::Down])
    );
    assert_eq!(
        freecam_controls(FollowingType::Free, &keys(&[], &[])),
        Some(vec![])
    );
    for mode in [FollowingType::Robot, FollowingType::ThirdPerson] {
        assert!(!mode.is_free());
        assert_eq!(freecam_controls(mode, &keys(&[Key::KeyW], &[])), None);
    }
}
