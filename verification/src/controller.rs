//! Player input: what keyboard and gamepad add up to in a frame.
//!
//! Deflections are counted in billionths, so that `FULL` is a stick at its end.
use crate::EntityId;
use vstd::prelude::*;

pub mod gamepad;
pub mod keyboard;

verus! {

/// A full deflection.
pub const FULL: i32 = 1_000_000_000;

/// How far a trigger must be pulled to count, in billionths.
pub const TRIGGER_THRESHOLD: i32 = 350_000_000;

/// How the player's devices are described on screen.
#[derive(Debug, Clone, Copy, PartialEq, Eq, Structural)]
pub enum ControllerHelp {
    Keyboard,
    Xbox,
}

impl ControllerHelp {
    pub open spec fn source_spec(self) -> Seq<char> {
        match self {
            ControllerHelp::Keyboard => "keyboard"@,
            ControllerHelp::Xbox => "xbox"@,
        }
    }

    pub open spec fn manual_spec(self) -> Seq<char> {
        match self {
            ControllerHelp::Keyboard => "F3 Camera | WASD Move | Arrows Aim | Space Shoot | G Dart | Q Gyro | U Remote Gyro | F5 AutoAim | Tab Slapper"@,
            ControllerHelp::Xbox => "View Camera | LS Move | L3 Boost | DPad Slapper Move | RS Aim | R3+RS Slapper Roll/Pitch | LB Gyro | Y Slapper Gyro | RB Shoot | X Dart | hold RT AutoAim"@,
        }
    }

    pub open spec fn auto_aim_spec(self) -> Seq<char> {
        match self {
            ControllerHelp::Keyboard => "F5 AutoAim Off | WASD Move | Q Gyro | U Remote Gyro | external fire_advice shoots | Tab Slapper"@,
            ControllerHelp::Xbox => "release RT AutoAim Off | LS Move | L3 Boost | DPad Slapper Move | R3+RS Slapper Roll/Pitch | LB Gyro | Y Slapper Gyro | external fire_advice shoots"@,
        }
    }

    /// The name of the device.
    pub fn source(self) -> (r: &'static str)
        ensures
            r@ == self.source_spec(),
    {
        match self {
            ControllerHelp::Keyboard => "keyboard",
            ControllerHelp::Xbox => "xbox",
        }
    }

    /// The controls while the player aims.
    pub fn manual(self) -> (r: &'static str)
        ensures
            r@ == self.manual_spec(),
    {
        match self {
            ControllerHelp::Keyboard => "F3 Camera | WASD Move | Arrows Aim | Space Shoot | G Dart | Q Gyro | U Remote Gyro | F5 AutoAim | Tab Slapper",
            ControllerHelp::Xbox => "View Camera | LS Move | L3 Boost | DPad Slapper Move | RS Aim | R3+RS Slapper Roll/Pitch | LB Gyro | Y Slapper Gyro | RB Shoot | X Dart | hold RT AutoAim",
        }
    }

    /// The controls while a solver aims.
    pub fn auto_aim(self) -> (r: &'static str)
        ensures
            r@ == self.auto_aim_spec(),
    {
        match self {
            ControllerHelp::Keyboard => "F5 AutoAim Off | WASD Move | Q Gyro | U Remote Gyro | external fire_advice shoots | Tab Slapper",
            ControllerHelp::Xbox => "release RT AutoAim Off | LS Move | L3 Boost | DPad Slapper Move | R3+RS Slapper Roll/Pitch | LB Gyro | Y Slapper Gyro | external fire_advice shoots",
        }
    }
}

/// Whether a chassis spins.
#[derive(Debug, Clone, Copy, PartialEq, Eq, Structural)]
pub enum ChassisSpinMode {
    Off,
    On,
}

impl ChassisSpinMode {
    pub open spec fn toggled(self) -> ChassisSpinMode {
        match self {
            ChassisSpinMode::Off => ChassisSpinMode::On,
            ChassisSpinMode::On => ChassisSpinMode::Off,
        }
    }

    pub fn toggle(&mut self)
        ensures
            *final(self) == old(self).toggled(),
    {
        *self = match *self {
            ChassisSpinMode::Off => ChassisSpinMode::On,
            ChassisSpinMode::On => ChassisSpinMode::Off,
        };
    }

    pub open spec fn yaw_spec(self) -> int {
        match self {
            ChassisSpinMode::Off => 0,
            ChassisSpinMode::On => FULL as int,
        }
    }

    /// The deflection that a spinning chassis stands for.
    pub fn yaw_input(self) -> (r: i32)
        ensures
            r == self.yaw_spec(),
    {
        match self {
            ChassisSpinMode::Off => 0,
            ChassisSpinMode::On => FULL,
        }
    }

    pub fn is_on(self) -> (r: bool)
        ensures
            r == (self == ChassisSpinMode::On),
    {
        self == ChassisSpinMode::On
    }
}

/// A deflection along two axes.
#[derive(Debug, Clone, Copy, PartialEq, Eq, Structural)]
pub struct Axes {
    pub x: i32,
    pub y: i32,
}

impl Axes {
    pub open spec fn centered(self) -> bool {
        self.x == 0 && self.y == 0
    }

    pub fn zero() -> (r: Self)
        ensures
            r.centered(),
    {
        Axes { x: 0, y: 0 }
    }
}

/// A deflection kept within its ends.
pub open spec fn clamped(value: int) -> int {
    if value < -FULL {
        -FULL as int
    } else if value > FULL {
        FULL as int
    } else {
        value
    }
}

/// Two deflections together.
pub open spec fn axes_sum(a: Axes, x: int, y: int) -> Axes {
    Axes { x: clamped(a.x + x) as i32, y: clamped(a.y + y) as i32 }
}

fn add_axis(current: i32, delta: i64) -> (r: i32)
    requires
        -0x1_0000_0000 <= delta <= 0x1_0000_0000,
    ensures
        r == clamped(current + delta),
{
    let sum: i64 = current as i64 + delta;
    if sum < -(FULL as i64) {
        -FULL
    } else if sum > FULL as i64 {
        FULL
    } else {
        sum as i32
    }
}

/// What a robot is asked to do in a frame.
#[derive(Debug, Clone, Copy, PartialEq, Eq, Structural)]
pub struct ControllerInput {
    pub movement: Axes,
    pub gimbal: Axes,
    pub chassis_yaw: i32,
    pub chassis_roll: i32,
    pub chassis_pitch: i32,
    pub boost: bool,
    pub precise_gimbal: bool,
    pub shoot: bool,
    pub dart_just_pressed: bool,
    pub switch_slapper_just_pressed: bool,
    pub switch_camera_just_pressed: bool,
    pub auto_aim: bool,
}

/// Whether a deflection is one that a device can give.
pub open spec fn in_range(value: i32) -> bool {
    -FULL <= value <= FULL
}

impl ControllerInput {
    /// Nothing asked.
    pub open spec fn idle() -> ControllerInput {
        ControllerInput {
            movement: (Axes { x: 0, y: 0 }),
            gimbal: (Axes { x: 0, y: 0 }),
            chassis_yaw: 0,
            chassis_roll: 0,
            chassis_pitch: 0,
            boost: false,
            precise_gimbal: false,
            shoot: false,
            dart_just_pressed: false,
            switch_slapper_just_pressed: false,
            switch_camera_just_pressed: false,
            auto_aim: false,
        }
    }

    /// All deflections are within their ends.
    pub open spec fn wf(self) -> bool {
        in_range(self.movement.x) && in_range(self.movement.y) && in_range(self.gimbal.x)
            && in_range(self.gimbal.y) && in_range(self.chassis_yaw) && in_range(self.chassis_roll)
            && in_range(self.chassis_pitch)
    }

    /// How many times faster than usual to drive.
    pub fn boost_multiplier(self) -> (r: u32)
        ensures
            r == (if self.boost {
                2u32
            } else {
                1u32
            }),
    {
        if self.boost {
            2
        } else {
            1
        }
    }

    /// How fast to turn the gimbal, in percent of the usual speed.
    pub fn gimbal_scale(self) -> (r: u32)
        ensures
            r == (if self.precise_gimbal {
                35u32
            } else {
                100u32
            }),
    {
        if self.precise_gimbal {
            35
        } else {
            100
        }
    }

    /// Adds a deflection to the movement, keeping each axis within its ends.
    pub fn add_movement(&mut self, movement: Axes)
        ensures
            *final(self) == (ControllerInput {
                movement: axes_sum(old(self).movement, movement.x as int, movement.y as int),
                ..*old(self)
            }),
            old(self).wf() ==> final(self).wf(),
    {
        self.movement = Axes {
            x: add_axis(self.movement.x, movement.x as i64),
            y: add_axis(self.movement.y, movement.y as i64),
        };
    }

    /// Adds a deflection to the gimbal's, keeping each axis within its ends.
    pub fn add_gimbal(&mut self, gimbal: Axes)
        ensures
            *final(self) == (ControllerInput {
                gimbal: axes_sum(old(self).gimbal, gimbal.x as int, gimbal.y as int),
                ..*old(self)
            }),
            old(self).wf() ==> final(self).wf(),
    {
        self.gimbal = Axes {
            x: add_axis(self.gimbal.x, gimbal.x as i64),
            y: add_axis(self.gimbal.y, gimbal.y as i64),
        };
    }

    /// Adds deflections to the chassis's, keeping each within its ends.
    pub fn add_chassis(&mut self, yaw: i32, roll: i32, pitch: i32)
        ensures
            *final(self) == (ControllerInput {
                chassis_yaw: clamped(old(self).chassis_yaw + yaw) as i32,
                chassis_roll: clamped(old(self).chassis_roll + roll) as i32,
                chassis_pitch: clamped(old(self).chassis_pitch + pitch) as i32,
                ..*old(self)
            }),
            old(self).wf() ==> final(self).wf(),
    {
        self.chassis_yaw = add_axis(self.chassis_yaw, yaw as i64);
        self.chassis_roll = add_axis(self.chassis_roll, roll as i64);
        self.chassis_pitch = add_axis(self.chassis_pitch, pitch as i64);
    }
}

impl Default for ControllerInput {
    fn default() -> (r: Self)
        ensures
            r == ControllerInput::idle(),
    {
        ControllerInput {
            movement: Axes::zero(),
            gimbal: Axes::zero(),
            chassis_yaw: 0,
            chassis_roll: 0,
            chassis_pitch: 0,
            boost: false,
            precise_gimbal: false,
            shoot: false,
            dart_just_pressed: false,
            switch_slapper_just_pressed: false,
            switch_camera_just_pressed: false,
            auto_aim: false,
        }
    }
}

/// What the player asks of the two robots they drive, and what lasts from frame to frame.
#[derive(Debug, Clone, Copy, PartialEq, Eq, Structural)]
pub struct ControllerState {
    pub controlled: ControllerInput,
    pub remote: ControllerInput,
    pub keyboard_auto_aim: bool,
    pub controlled_chassis_spin: ChassisSpinMode,
    pub remote_chassis_spin: ChassisSpinMode,
    pub active_gamepad: Option<EntityId>,
    pub help: ControllerHelp,
}

impl Default for ControllerState {
    /// The solver aims by default: at rest the gimbal points at the sky, and mapping needs it turned.
    fn default() -> (r: Self)
        ensures
            r.controlled == ControllerInput::idle(),
            r.remote == ControllerInput::idle(),
            r.keyboard_auto_aim,
            r.controlled_chassis_spin == ChassisSpinMode::Off,
            r.remote_chassis_spin == ChassisSpinMode::Off,
            r.active_gamepad is None,
            r.help == ControllerHelp::Keyboard,
    {
        ControllerState {
            controlled: ControllerInput::default(),
            remote: ControllerInput::default(),
            keyboard_auto_aim: true,
            controlled_chassis_spin: ChassisSpinMode::Off,
            remote_chassis_spin: ChassisSpinMode::Off,
            active_gamepad: None,
            help: ControllerHelp::Keyboard,
        }
    }
}

impl ControllerState {
    pub open spec fn wf(self) -> bool {
        self.controlled.wf() && self.remote.wf()
    }

    pub open spec fn auto_aim_spec(self) -> bool {
        self.keyboard_auto_aim || self.controlled.auto_aim
    }

    /// The state at the start of a frame: nothing is asked yet, the rest lasts.
    pub open spec fn frame_start(self) -> ControllerState {
        ControllerState {
            controlled: ControllerInput::idle(),
            remote: ControllerInput::idle(),
            ..self
        }
    }

    /// Forgets what was asked in the last frame.
    pub fn reset_frame(&mut self)
        ensures
            *final(self) == old(self).frame_start(),
    {
        self.controlled = ControllerInput::default();
        self.remote = ControllerInput::default();
    }

    /// Whether a solver aims.
    pub fn auto_aim_active(&self) -> (r: bool)
        ensures
            r == self.auto_aim_spec(),
    {
        self.keyboard_auto_aim || self.controlled.auto_aim
    }

    /// The name of the device used last.
    pub fn help_source(&self) -> (r: &'static str)
        ensures
            r@ == self.help.source_spec(),
    {
        self.help.source()
    }

    /// Who aims.
    pub fn help_mode(&self) -> (r: &'static str)
        ensures
            r@ == (if self.auto_aim_spec() {
                "auto-aim"@
            } else {
                "manual"@
            }),
    {
        if self.auto_aim_active() {
            "auto-aim"
        } else {
            "manual"
        }
    }

    /// The controls of the device used last.
    pub fn help_controls(&self) -> (r: &'static str)
        ensures
            r@ == (if self.auto_aim_spec() {
                self.help.auto_aim_spec()
            } else {
                self.help.manual_spec()
            }),
    {
        if self.auto_aim_active() {
            self.help.auto_aim()
        } else {
            self.help.manual()
        }
    }

    pub fn controlled_chassis_spin(&self) -> (r: bool)
        ensures
            r == (self.controlled_chassis_spin == ChassisSpinMode::On),
    {
        self.controlled_chassis_spin.is_on()
    }

    pub fn remote_chassis_spin(&self) -> (r: bool)
        ensures
            r == (self.remote_chassis_spin == ChassisSpinMode::On),
    {
        self.remote_chassis_spin.is_on()
    }

    /// The gamepad that the player uses, if they use one.
    pub fn active_gamepad(&self) -> (r: Option<EntityId>)
        ensures
            r == self.active_gamepad,
    {
        self.active_gamepad
    }

    pub fn toggle_keyboard_auto_aim(&mut self)
        ensures
            *final(self) == (ControllerState {
                keyboard_auto_aim: !old(self).keyboard_auto_aim,
                ..*old(self)
            }),
    {
        self.keyboard_auto_aim = !self.keyboard_auto_aim;
    }

    pub fn toggle_controlled_chassis_spin(&mut self)
        ensures
            *final(self) == (ControllerState {
                controlled_chassis_spin: old(self).controlled_chassis_spin.toggled(),
                ..*old(self)
            }),
    {
        self.controlled_chassis_spin.toggle();
    }

    pub fn toggle_remote_chassis_spin(&mut self)
        ensures
            *final(self) == (ControllerState {
                remote_chassis_spin: old(self).remote_chassis_spin.toggled(),
                ..*old(self)
            }),
    {
        self.remote_chassis_spin.toggle();
    }

    pub fn use_help(&mut self, help: ControllerHelp)
        ensures
            *final(self) == (ControllerState { help, ..*old(self) }),
    {
        self.help = help;
    }

    pub fn use_gamepad(&mut self, gamepad: EntityId)
        ensures
            *final(self) == (ControllerState { active_gamepad: Some(gamepad), ..*old(self) }),
    {
        self.active_gamepad = Some(gamepad);
    }

    pub fn clear_gamepad(&mut self)
        ensures
            *final(self) == (ControllerState { active_gamepad: None, ..*old(self) }),
    {
        self.active_gamepad = None;
    }
}

/// Whether a shot is asked for.
pub fn controller_shoot_pressed(controller: &ControllerState) -> (r: bool)
    ensures
        r == controller.controlled.shoot,
{
    controller.controlled.shoot
}

/// Whether a dart is asked for.
pub fn controller_dart_just_pressed(controller: &ControllerState) -> (r: bool)
    ensures
        r == controller.controlled.dart_just_pressed,
{
    controller.controlled.dart_just_pressed
}

/// Begins a frame.
pub fn clear_controller_input(controller: &mut ControllerState)
    ensures
        *final(controller) == old(controller).frame_start(),
{
    controller.reset_frame();
}

/// Hands on whether a solver aims. Gives what it is now, if that has changed.
pub fn update_auto_aim_subscription(controller: &ControllerState, enabled: &mut bool) -> (r: Option<
    bool,
>)
    ensures
        *final(enabled) == controller.auto_aim_spec(),
        r == (if *old(enabled) != controller.auto_aim_spec() {
            Some(controller.auto_aim_spec())
        } else {
            None
        }),
{
    let active: bool = controller.auto_aim_active();
    let before: bool = *enabled;
    *enabled = active;
    if before != active {
        Some(active)
    } else {
        None
    }
}

/// A wish to shake a gamepad. Intensities are in percent.
#[derive(Debug, Clone, Copy, PartialEq, Eq, Structural)]
pub struct RumbleRequest {
    pub gamepad: EntityId,
    pub strong_percent: u8,
    pub weak_percent: u8,
    pub duration_ms: u32,
}

/// Shakes the gamepad that the player uses; nothing happens if they use none.
pub fn request_controller_rumble(
    controller: Option<&ControllerState>,
    strong_percent: u8,
    weak_percent: u8,
    duration_ms: u32,
) -> (r: Option<RumbleRequest>)
    ensures
        r == (match controller {
            Some(controller) => match controller.active_gamepad {
                Some(gamepad) => Some(
                    RumbleRequest { gamepad, strong_percent, weak_percent, duration_ms },
                ),
                None => None,
            },
            None => None,
        }),
{
    match controller {
        Some(controller) => match controller.active_gamepad() {
            Some(gamepad) => Some(
                RumbleRequest { gamepad, strong_percent, weak_percent, duration_ms },
            ),
            None => None,
        },
        None => None,
    }
}

/// A deflection that lies within its ends stays, one beyond an end becomes that end, and a larger one
/// never becomes the smaller. The ends lie a billion to either side.
pub proof fn law_deflections_stay_within_their_ends(a: int, b: int)
    ensures
        -1_000_000_000 <= clamped(a) <= 1_000_000_000,
        -1_000_000_000 <= a <= 1_000_000_000 ==> clamped(a) == a,
        a > 1_000_000_000 ==> clamped(a) == 1_000_000_000,
        a < -1_000_000_000 ==> clamped(a) == -1_000_000_000,
        a <= b ==> clamped(a) <= clamped(b),
        clamped(-a) == -clamped(a),
{
}

/// The axes of a stick do not mix: each is the sum of its own deflections.
pub proof fn law_axes_do_not_mix(a: Axes, x: int, y: int)
    requires
        -1_000_000_000 <= a.x + x <= 1_000_000_000,
        -1_000_000_000 <= a.y + y <= 1_000_000_000,
    ensures
        axes_sum(a, x, y).x == a.x + x,
        axes_sum(a, x, y).y == a.y + y,
{
}

/// A spinning chassis is turned as by a stick at its end, one that does not spin is not, and toggling
/// goes from one to the other and back.
pub proof fn law_spinning_is_a_full_deflection(mode: ChassisSpinMode)
    ensures
        ChassisSpinMode::On.yaw_spec() == 1_000_000_000,
        ChassisSpinMode::Off.yaw_spec() == 0,
        mode.toggled() != mode,
        mode.toggled().toggled() == mode,
{
}

/// A new frame asks for nothing and keeps everything that lasts.
pub proof fn law_a_new_frame_asks_for_nothing(state: ControllerState)
    ensures
        ({
            let start = state.frame_start();
            let nothing = |input: ControllerInput|
                {
                    &&& input.movement.x == 0 && input.movement.y == 0
                    &&& input.gimbal.x == 0 && input.gimbal.y == 0
                    &&& input.chassis_yaw == 0
                    &&& input.chassis_roll == 0
                    &&& input.chassis_pitch == 0
                    &&& !input.boost && !input.precise_gimbal && !input.shoot
                    &&& !input.dart_just_pressed && !input.switch_slapper_just_pressed
                    &&& !input.switch_camera_just_pressed && !input.auto_aim
                };
            &&& nothing(start.controlled)
            &&& nothing(start.remote)
            &&& start.keyboard_auto_aim == state.keyboard_auto_aim
            &&& start.controlled_chassis_spin == state.controlled_chassis_spin
            &&& start.remote_chassis_spin == state.remote_chassis_spin
            &&& start.active_gamepad == state.active_gamepad
            &&& start.help == state.help
        }),
{
}

/// The solver aims exactly if the keyboard has switched it on or the gamepad holds it.
pub proof fn law_either_device_lets_the_solver_aim(state: ControllerState)
    ensures
        !state.auto_aim_spec() <==> !state.keyboard_auto_aim && !state.controlled.auto_aim,
{
}

/// The help names the keys and buttons of its own device: how to shoot while the player aims, and how
/// to stop the solver while that does.
pub proof fn law_help_speaks_of_its_device()
    ensures
        ControllerHelp::Keyboard.source_spec() == "keyboard"@,
        ControllerHelp::Xbox.source_spec() == "xbox"@,
        ControllerHelp::Keyboard.manual_spec()
            == "F3 Camera | WASD Move | Arrows Aim | Space Shoot | G Dart | Q Gyro | U Remote Gyro | F5 AutoAim | Tab Slapper"@,
        ControllerHelp::Xbox.manual_spec()
            == "View Camera | LS Move | L3 Boost | DPad Slapper Move | RS Aim | R3+RS Slapper Roll/Pitch | LB Gyro | Y Slapper Gyro | RB Shoot | X Dart | hold RT AutoAim"@,
        ControllerHelp::Keyboard.auto_aim_spec()
            == "F5 AutoAim Off | WASD Move | Q Gyro | U Remote Gyro | external fire_advice shoots | Tab Slapper"@,
        ControllerHelp::Xbox.auto_aim_spec()
            == "release RT AutoAim Off | LS Move | L3 Boost | DPad Slapper Move | R3+RS Slapper Roll/Pitch | LB Gyro | Y Slapper Gyro | external fire_advice shoots"@,
{
}

} // verus!
