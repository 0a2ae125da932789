//! What a gamepad adds to the player's input.
use crate::controller::{
    Axes, ControllerHelp, ControllerInput, ControllerState, RumbleRequest, TRIGGER_THRESHOLD,
};
use crate::EntityId;
use vstd::prelude::*;

verus! {

/// A button that means something.
#[derive(Debug, Clone, Copy, PartialEq, Eq, Structural)]
pub enum Button {
    North,
    West,
    LeftTrigger,
    RightTrigger,
    RightTrigger2,
    Select,
    Start,
    LeftThumb,
    RightThumb,
}

/// A gamepad in a frame. The sticks are taken after their dead zone.
#[derive(Debug)]
pub struct Gamepad {
    pub entity: EntityId,
    pub left_stick: Axes,
    pub right_stick: Axes,
    pub dpad: Axes,
    /// How far the lower triggers are pulled, if the gamepad says so.
    pub left_trigger: Option<i32>,
    pub right_trigger: Option<i32>,
    pub held: Vec<Button>,
    pub edges: Vec<Button>,
}

fn has_button(buttons: &Vec<Button>, button: Button) -> (r: bool)
    ensures
        r == buttons@.contains(button),
{
    let mut i: usize = 0;
    while i < buttons.len()
        invariant
            i <= buttons@.len(),
            forall|k: int| 0 <= k < i ==> buttons@[k] != button,
        decreases buttons@.len() - i,
    {
        if buttons[i] == button {
            assert(buttons@[i as int] == button);
            return true;
        }
        i = i + 1;
    }
    false
}

/// Whether a trigger is pulled far enough to count.
pub open spec fn pulled(trigger: Option<i32>) -> bool {
    trigger matches Some(value) && value > TRIGGER_THRESHOLD
}

fn is_pulled(trigger: Option<i32>) -> (r: bool)
    ensures
        r == pulled(trigger),
{
    match trigger {
        Some(value) => value > TRIGGER_THRESHOLD,
        None => false,
    }
}

impl Gamepad {
    pub open spec fn holds(self, button: Button) -> bool {
        self.held@.contains(button)
    }

    pub open spec fn hits(self, button: Button) -> bool {
        self.edges@.contains(button)
    }

    pub fn pressed(&self, button: Button) -> (r: bool)
        ensures
            r == self.holds(button),
    {
        has_button(&self.held, button)
    }

    pub fn just_pressed(&self, button: Button) -> (r: bool)
        ensures
            r == self.hits(button),
    {
        has_button(&self.edges, button)
    }

    /// Whether the gamepad is used.
    pub open spec fn used(self) -> bool {
        ||| !self.left_stick.centered()
        ||| !self.right_stick.centered()
        ||| !self.dpad.centered()
        ||| self.holds(Button::LeftTrigger)
        ||| self.holds(Button::LeftThumb)
        ||| self.holds(Button::RightThumb)
        ||| pulled(self.left_trigger)
        ||| pulled(self.right_trigger)
        ||| self.holds(Button::RightTrigger)
        ||| self.hits(Button::North)
        ||| self.hits(Button::West)
        ||| self.hits(Button::Start)
        ||| self.hits(Button::Select)
    }

    /// What it shakes for in a frame.
    pub open spec fn rumbles(self) -> Seq<RumbleRequest> {
        rumble_if(self.hits(Button::LeftTrigger), self.entity, 0, 25, 70) + rumble_if(
            self.hits(Button::North),
            self.entity,
            0,
            25,
            70,
        ) + rumble_if(self.hits(Button::RightTrigger2), self.entity, 12, 0, 60)
    }
}

pub open spec fn rumble_if(
    wanted: bool,
    gamepad: EntityId,
    strong_percent: u8,
    weak_percent: u8,
    duration_ms: u32,
) -> Seq<RumbleRequest> {
    if wanted {
        seq![RumbleRequest { gamepad, strong_percent, weak_percent, duration_ms }]
    } else {
        Seq::empty()
    }
}

/// Whether the gamepad is used.
pub fn gamepad_controller_active(gamepad: &Gamepad) -> (r: bool)
    ensures
        r == gamepad.used(),
{
    !(gamepad.left_stick.x == 0 && gamepad.left_stick.y == 0) || !(gamepad.right_stick.x == 0
        && gamepad.right_stick.y == 0) || !(gamepad.dpad.x == 0 && gamepad.dpad.y == 0)
        || gamepad.pressed(Button::LeftTrigger) || gamepad.pressed(Button::LeftThumb)
        || gamepad.pressed(Button::RightThumb) || is_pulled(gamepad.left_trigger) || is_pulled(
        gamepad.right_trigger,
    ) || gamepad.pressed(Button::RightTrigger) || gamepad.just_pressed(Button::North)
        || gamepad.just_pressed(Button::West) || gamepad.just_pressed(Button::Start)
        || gamepad.just_pressed(Button::Select)
}

/// What the player's robot is asked to do once the gamepad is added. While the right stick tilts the
/// other robot's chassis, it does not aim.
pub open spec fn controlled_by_gamepad(
    gamepad: Gamepad,
    input: ControllerInput,
    yaw: int,
) -> ControllerInput {
    ControllerInput {
        movement: crate::controller::axes_sum(
            input.movement,
            gamepad.left_stick.x as int,
            gamepad.left_stick.y as int,
        ),
        gimbal: if gamepad.holds(Button::RightThumb) {
            input.gimbal
        } else {
            crate::controller::axes_sum(
                input.gimbal,
                -gamepad.right_stick.x,
                gamepad.right_stick.y as int,
            )
        },
        chassis_yaw: crate::controller::clamped(input.chassis_yaw + yaw) as i32,
        chassis_roll: crate::controller::clamped(input.chassis_roll as int) as i32,
        chassis_pitch: crate::controller::clamped(input.chassis_pitch as int) as i32,
        boost: input.boost || gamepad.holds(Button::LeftThumb),
        precise_gimbal: input.precise_gimbal || pulled(gamepad.left_trigger),
        shoot: input.shoot || gamepad.holds(Button::RightTrigger),
        dart_just_pressed: input.dart_just_pressed || gamepad.hits(Button::West),
        switch_slapper_just_pressed: input.switch_slapper_just_pressed || gamepad.hits(
            Button::Start,
        ),
        switch_camera_just_pressed: input.switch_camera_just_pressed || gamepad.hits(
            Button::Select,
        ),
        auto_aim: input.auto_aim || pulled(gamepad.right_trigger),
    }
}

/// What the other robot is asked to do once the gamepad is added.
pub open spec fn remote_by_gamepad(
    gamepad: Gamepad,
    input: ControllerInput,
    yaw: int,
) -> ControllerInput {
    let tilting = gamepad.holds(Button::RightThumb);
    ControllerInput {
        movement: crate::controller::axes_sum(input.movement, -gamepad.dpad.x, -gamepad.dpad.y),
        chassis_yaw: crate::controller::clamped(input.chassis_yaw + yaw) as i32,
        chassis_roll: crate::controller::clamped(
            input.chassis_roll + if tilting {
                gamepad.right_stick.x as int
            } else {
                0
            },
        ) as i32,
        chassis_pitch: crate::controller::clamped(
            input.chassis_pitch + if tilting {
                gamepad.right_stick.y as int
            } else {
                0
            },
        ) as i32,
        ..input
    }
}

/// The player's input once a gamepad is added.
pub open spec fn gamepad_sampled(gamepad: Gamepad, before: ControllerState) -> ControllerState {
    let controlled_spin = if gamepad.hits(Button::LeftTrigger) {
        before.controlled_chassis_spin.toggled()
    } else {
        before.controlled_chassis_spin
    };
    let remote_spin = if gamepad.hits(Button::North) {
        before.remote_chassis_spin.toggled()
    } else {
        before.remote_chassis_spin
    };
    ControllerState {
        controlled: controlled_by_gamepad(gamepad, before.controlled, controlled_spin.yaw_spec()),
        remote: remote_by_gamepad(gamepad, before.remote, remote_spin.yaw_spec()),
        keyboard_auto_aim: before.keyboard_auto_aim,
        controlled_chassis_spin: controlled_spin,
        remote_chassis_spin: remote_spin,
        active_gamepad: if gamepad.used() {
            Some(gamepad.entity)
        } else {
            before.active_gamepad
        },
        help: if gamepad.used() {
            ControllerHelp::Xbox
        } else {
            before.help
        },
    }
}

/// Whether a stick is where a device can have it.
pub open spec fn sane(stick: Axes) -> bool {
    crate::controller::in_range(stick.x) && crate::controller::in_range(stick.y)
}

fn push_rumble(
    requests: &mut Vec<RumbleRequest>,
    wanted: bool,
    gamepad: EntityId,
    strong_percent: u8,
    weak_percent: u8,
    duration_ms: u32,
)
    ensures
        final(requests)@ == old(requests)@ + rumble_if(
            wanted,
            gamepad,
            strong_percent,
            weak_percent,
            duration_ms,
        ),
{
    if wanted {
        requests.push(RumbleRequest { gamepad, strong_percent, weak_percent, duration_ms });
    }
    proof {
        assert(requests@ =~= old(requests)@ + rumble_if(
            wanted,
            gamepad,
            strong_percent,
            weak_percent,
            duration_ms,
        ));
    }
}

fn add_controlled_gamepad(gamepad: &Gamepad, input: &mut ControllerInput, yaw: i32)
    requires
        sane(gamepad.right_stick),
    ensures
        *final(input) == controlled_by_gamepad(*gamepad, *old(input), yaw as int),
        old(input).wf() ==> final(input).wf(),
{
    input.add_movement(gamepad.left_stick);
    input.add_chassis(yaw, 0, 0);
    if !gamepad.pressed(Button::RightThumb) {
        input.add_gimbal(Axes { x: -gamepad.right_stick.x, y: gamepad.right_stick.y });
    }
    let precise: bool = is_pulled(gamepad.left_trigger);
    let boost: bool = gamepad.pressed(Button::LeftThumb);
    let auto_aim: bool = is_pulled(gamepad.right_trigger);
    let shoot: bool = gamepad.pressed(Button::RightTrigger);
    let dart: bool = gamepad.just_pressed(Button::West);
    let slapper: bool = gamepad.just_pressed(Button::Start);
    let camera: bool = gamepad.just_pressed(Button::Select);
    input.precise_gimbal = input.precise_gimbal || precise;
    input.boost = input.boost || boost;
    input.auto_aim = input.auto_aim || auto_aim;
    input.shoot = input.shoot || shoot;
    input.dart_just_pressed = input.dart_just_pressed || dart;
    input.switch_slapper_just_pressed = input.switch_slapper_just_pressed || slapper;
    input.switch_camera_just_pressed = input.switch_camera_just_pressed || camera;
}

fn add_remote_gamepad(gamepad: &Gamepad, input: &mut ControllerInput, yaw: i32)
    requires
        sane(gamepad.dpad),
    ensures
        *final(input) == remote_by_gamepad(*gamepad, *old(input), yaw as int),
        old(input).wf() ==> final(input).wf(),
{
    input.add_movement(Axes { x: -gamepad.dpad.x, y: -gamepad.dpad.y });
    if gamepad.pressed(Button::RightThumb) {
        input.add_chassis(yaw, gamepad.right_stick.x, gamepad.right_stick.y);
    } else {
        input.add_chassis(yaw, 0, 0);
    }
}

/// Adds what the first gamepad asks for to the player's input, and gives what it shakes for.
pub fn sample_gamepad_controller(gamepads: &Vec<Gamepad>, controller: &mut ControllerState) -> (r:
    Vec<RumbleRequest>)
    requires
        gamepads@.len() > 0 ==> sane(gamepads@[0].right_stick) && sane(gamepads@[0].dpad),
    ensures
        gamepads@.len() == 0 ==> *final(controller) == *old(controller) && r@.len() == 0,
        gamepads@.len() > 0 ==> *final(controller) == gamepad_sampled(
            gamepads@[0],
            *old(controller),
        ) && r@ == gamepads@[0].rumbles(),
        old(controller).wf() ==> final(controller).wf(),
{
    let mut requests: Vec<RumbleRequest> = Vec::new();
    if gamepads.len() == 0 {
        return requests;
    }
    let gamepad: &Gamepad = &gamepads[0];
    if gamepad_controller_active(gamepad) {
        controller.use_help(ControllerHelp::Xbox);
        controller.use_gamepad(gamepad.entity);
    }
    let controlled_toggled: bool = gamepad.just_pressed(Button::LeftTrigger);
    if controlled_toggled {
        controller.toggle_controlled_chassis_spin();
    }
    push_rumble(&mut requests, controlled_toggled, gamepad.entity, 0, 25, 70);
    let remote_toggled: bool = gamepad.just_pressed(Button::North);
    if remote_toggled {
        controller.toggle_remote_chassis_spin();
    }
    push_rumble(&mut requests, remote_toggled, gamepad.entity, 0, 25, 70);
    let aiming: bool = gamepad.just_pressed(Button::RightTrigger2);
    push_rumble(&mut requests, aiming, gamepad.entity, 12, 0, 60);
    proof {
        assert(requests@ =~= gamepad.rumbles());
    }
    let controlled_yaw: i32 = controller.controlled_chassis_spin.yaw_input();
    let remote_yaw: i32 = controller.remote_chassis_spin.yaw_input();
    add_controlled_gamepad(gamepad, &mut controller.controlled, controlled_yaw);
    add_remote_gamepad(gamepad, &mut controller.remote, remote_yaw);
    requests
}

/// The device that was used last decides what the player is shown, and whether a gamepad shakes for
/// what happens in the game.
pub proof fn law_last_device_is_shown(
    keyboard: crate::controller::keyboard::Keyboard,
    gamepad: Gamepad,
    before: ControllerState,
)
    ensures
        ({
            let after = gamepad_sampled(
                gamepad,
                crate::controller::keyboard::keyboard_sampled(keyboard, before),
            );
            if gamepad.used() {
                after.help == ControllerHelp::Xbox && after.active_gamepad == Some(gamepad.entity)
            } else if crate::controller::keyboard::keyboard_used(keyboard) {
                after.help == ControllerHelp::Keyboard && after.active_gamepad is None
            } else {
                after.help == before.help && after.active_gamepad == before.active_gamepad
            }
        }),
{
}

/// What a gamepad asks of the player's robot in a frame that begins with nothing asked: the left
/// stick moves it and the right one turns the gimbal, to the left when pushed to the left, unless it
/// is pressed; a trigger counts from thirty-five percent on.
pub proof fn law_buttons_of_the_players_robot(gamepad: Gamepad, before: ControllerState)
    requires
        sane(gamepad.left_stick),
        sane(gamepad.right_stick),
        sane(gamepad.dpad),
    ensures
        ({
            let after = gamepad_sampled(gamepad, before.frame_start());
            let asked = after.controlled;
            let held = |button: Button| gamepad.held@.contains(button);
            let edge = |button: Button| gamepad.edges@.contains(button);
            let far = |trigger: Option<i32>| trigger is Some && trigger->0 > 350_000_000;
            &&& asked.movement == gamepad.left_stick
            &&& asked.gimbal.x == (if held(Button::RightThumb) {
                0
            } else {
                -gamepad.right_stick.x
            })
            &&& asked.gimbal.y == (if held(Button::RightThumb) {
                0
            } else {
                gamepad.right_stick.y as int
            })
            &&& asked.chassis_yaw == (if after.controlled_chassis_spin is On {
                1_000_000_000int
            } else {
                0int
            })
            &&& asked.chassis_roll == 0
            &&& asked.chassis_pitch == 0
            &&& asked.boost <==> held(Button::LeftThumb)
            &&& asked.shoot <==> held(Button::RightTrigger)
            &&& asked.precise_gimbal <==> far(gamepad.left_trigger)
            &&& asked.auto_aim <==> far(gamepad.right_trigger)
            &&& asked.dart_just_pressed <==> edge(Button::West)
            &&& asked.switch_slapper_just_pressed <==> edge(Button::Start)
            &&& asked.switch_camera_just_pressed <==> edge(Button::Select)
            &&& after.controlled_chassis_spin != before.controlled_chassis_spin <==> edge(
                Button::LeftTrigger,
            )
            &&& after.keyboard_auto_aim == before.keyboard_auto_aim
        }),
{
}

/// What a gamepad asks of the robot that is driven remotely, in a frame that begins with nothing
/// asked: the pad moves it, seen from the other side, and the right stick tilts it while pressed.
pub proof fn law_buttons_of_the_remote_robot(gamepad: Gamepad, before: ControllerState)
    requires
        sane(gamepad.left_stick),
        sane(gamepad.right_stick),
        sane(gamepad.dpad),
    ensures
        ({
            let after = gamepad_sampled(gamepad, before.frame_start());
            let asked = after.remote;
            let tilting = gamepad.held@.contains(Button::RightThumb);
            &&& asked.movement.x == -gamepad.dpad.x
            &&& asked.movement.y == -gamepad.dpad.y
            &&& asked.gimbal.centered()
            &&& asked.chassis_yaw == (if after.remote_chassis_spin is On {
                1_000_000_000int
            } else {
                0int
            })
            &&& asked.chassis_roll == (if tilting {
                gamepad.right_stick.x as int
            } else {
                0
            })
            &&& asked.chassis_pitch == (if tilting {
                gamepad.right_stick.y as int
            } else {
                0
            })
            &&& !asked.boost
            &&& !asked.shoot
            &&& !asked.precise_gimbal
            &&& !asked.auto_aim
            &&& !asked.dart_just_pressed
            &&& !asked.switch_slapper_just_pressed
            &&& !asked.switch_camera_just_pressed
            &&& after.remote_chassis_spin != before.remote_chassis_spin
                <==> gamepad.edges@.contains(Button::North)
        }),
{
}

/// Keyboard and gamepad add up: what one of them asks for is asked for, and deflections are added
/// axis by axis and kept within their ends.
pub proof fn law_devices_add_up(
    keyboard: crate::controller::keyboard::Keyboard,
    gamepad: Gamepad,
    before: ControllerState,
)
    requires
        sane(gamepad.left_stick),
        sane(gamepad.right_stick),
        sane(gamepad.dpad),
    ensures
        ({
            let start = before.frame_start();
            let keys = crate::controller::keyboard::keyboard_sampled(keyboard, start);
            let pad = gamepad_sampled(gamepad, start);
            let both = gamepad_sampled(gamepad, keys);
            &&& both.controlled.shoot <==> keys.controlled.shoot || pad.controlled.shoot
            &&& both.controlled.boost <==> keys.controlled.boost || pad.controlled.boost
            &&& both.controlled.precise_gimbal <==> keys.controlled.precise_gimbal
                || pad.controlled.precise_gimbal
            &&& both.controlled.auto_aim <==> keys.controlled.auto_aim || pad.controlled.auto_aim
            &&& both.controlled.dart_just_pressed <==> keys.controlled.dart_just_pressed
                || pad.controlled.dart_just_pressed
            &&& both.controlled.switch_slapper_just_pressed
                <==> keys.controlled.switch_slapper_just_pressed
                || pad.controlled.switch_slapper_just_pressed
            &&& both.controlled.switch_camera_just_pressed
                <==> keys.controlled.switch_camera_just_pressed
                || pad.controlled.switch_camera_just_pressed
            &&& both.remote.boost == keys.remote.boost
            &&& both.controlled.movement.x == crate::controller::clamped(
                keys.controlled.movement.x + pad.controlled.movement.x,
            )
            &&& both.controlled.movement.y == crate::controller::clamped(
                keys.controlled.movement.y + pad.controlled.movement.y,
            )
            &&& both.controlled.gimbal.x == crate::controller::clamped(
                keys.controlled.gimbal.x + pad.controlled.gimbal.x,
            )
            &&& both.controlled.gimbal.y == crate::controller::clamped(
                keys.controlled.gimbal.y + pad.controlled.gimbal.y,
            )
            &&& both.remote.movement.x == crate::controller::clamped(
                keys.remote.movement.x + pad.remote.movement.x,
            )
            &&& both.remote.movement.y == crate::controller::clamped(
                keys.remote.movement.y + pad.remote.movement.y,
            )
            &&& both.remote.gimbal == keys.remote.gimbal
            &&& both.remote.chassis_roll == crate::controller::clamped(
                keys.remote.chassis_roll + pad.remote.chassis_roll,
            )
            &&& both.remote.chassis_pitch == crate::controller::clamped(
                keys.remote.chassis_pitch + pad.remote.chassis_pitch,
            )
            &&& both.keyboard_auto_aim == keys.keyboard_auto_aim
        }),
{
}

/// The gamepad is in use exactly while a stick or the pad is off its center, a button is held that
/// drives, a trigger is pulled, or a button goes down that does something then.
pub proof fn law_buttons_that_count_as_use(gamepad: Gamepad)
    ensures
        ({
            let held = |button: Button| gamepad.held@.contains(button);
            let edge = |button: Button| gamepad.edges@.contains(button);
            let far = |trigger: Option<i32>| trigger is Some && trigger->0 > 350_000_000;
            gamepad.used() <==> {
                ||| gamepad.left_stick.x != 0 || gamepad.left_stick.y != 0
                ||| gamepad.right_stick.x != 0 || gamepad.right_stick.y != 0
                ||| gamepad.dpad.x != 0 || gamepad.dpad.y != 0
                ||| held(Button::LeftTrigger) || held(Button::RightTrigger)
                ||| held(Button::LeftThumb) || held(Button::RightThumb)
                ||| far(gamepad.left_trigger) || far(gamepad.right_trigger)
                ||| edge(Button::North) || edge(Button::West)
                ||| edge(Button::Start) || edge(Button::Select)
            }
        }),
{
}

/// A gamepad shakes once for each switch of a spin and once when the solver is asked to aim, itself
/// and for nothing else: lightly for the spins, strongly for the aim.
pub proof fn law_what_a_gamepad_shakes_for(gamepad: Gamepad)
    ensures
        ({
            let edge = |button: Button|
                if gamepad.edges@.contains(button) {
                    1int
                } else {
                    0int
                };
            let shakes = gamepad.rumbles();
            let spin = RumbleRequest {
                gamepad: gamepad.entity,
                strong_percent: 0,
                weak_percent: 25,
                duration_ms: 70,
            };
            let aim = RumbleRequest {
                gamepad: gamepad.entity,
                strong_percent: 12,
                weak_percent: 0,
                duration_ms: 60,
            };
            let spins = edge(Button::LeftTrigger) + edge(Button::North);
            &&& shakes.len() == spins + edge(Button::RightTrigger2)
            &&& forall|i: int|
                0 <= i < shakes.len() ==> #[trigger] shakes[i] == (if i < spins {
                    spin
                } else {
                    aim
                })
        }),
{
}

} // verus!
