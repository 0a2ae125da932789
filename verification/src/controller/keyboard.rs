//! What the keyboard adds to the player's input.
use crate::controller::{Axes, ControllerHelp, ControllerInput, ControllerState, FULL};
use vstd::prelude::*;

verus! {

/// A key that means something.
#[derive(Debug, Clone, Copy, PartialEq, Eq, Structural)]
pub enum Key {
    KeyA,
    KeyB,
    KeyC,
    KeyD,
    KeyF,
    KeyG,
    KeyI,
    KeyJ,
    KeyK,
    KeyL,
    KeyN,
    KeyP,
    KeyQ,
    KeyS,
    KeyU,
    KeyV,
    KeyW,
    ArrowLeft,
    ArrowRight,
    ArrowUp,
    ArrowDown,
    ShiftLeft,
    ShiftRight,
    Space,
    BracketLeft,
    BracketRight,
    Semicolon,
    Quote,
    Tab,
    F3,
    F5,
}

/// The keyboard in a frame: the keys that are held, and those that went down in it.
#[derive(Debug)]
pub struct Keyboard {
    pub held: Vec<Key>,
    pub edges: Vec<Key>,
}

fn has_key(keys: &Vec<Key>, key: Key) -> (r: bool)
    ensures
        r == keys@.contains(key),
{
    let mut i: usize = 0;
    while i < keys.len()
        invariant
            i <= keys@.len(),
            forall|k: int| 0 <= k < i ==> keys@[k] != key,
        decreases keys@.len() - i,
    {
        if keys[i] == key {
            assert(keys@[i as int] == key);
            return true;
        }
        i = i + 1;
    }
    false
}

impl Keyboard {
    pub open spec fn holds(self, key: Key) -> bool {
        self.held@.contains(key)
    }

    pub open spec fn hits(self, key: Key) -> bool {
        self.edges@.contains(key)
    }

    pub fn pressed(&self, key: Key) -> (r: bool)
        ensures
            r == self.holds(key),
    {
        has_key(&self.held, key)
    }

    pub fn just_pressed(&self, key: Key) -> (r: bool)
        ensures
            r == self.hits(key),
    {
        has_key(&self.edges, key)
    }
}

/// The deflection that two opposite keys stand for.
pub open spec fn axis_of(keyboard: Keyboard, positive: Key, negative: Key) -> int {
    (if keyboard.holds(positive) {
        FULL as int
    } else {
        0
    }) - (if keyboard.holds(negative) {
        FULL as int
    } else {
        0
    })
}

fn keyboard_axis(keyboard: &Keyboard, positive: Key, negative: Key) -> (r: i32)
    ensures
        r == axis_of(*keyboard, positive, negative),
{
    let mut input: i32 = 0;
    if keyboard.pressed(positive) {
        input = input + FULL;
    }
    if keyboard.pressed(negative) {
        input = input - FULL;
    }
    input
}

fn keyboard_vec2(keyboard: &Keyboard, forward: Key, left: Key, backward: Key, right: Key) -> (r:
    Axes)
    ensures
        r.x == axis_of(*keyboard, right, left),
        r.y == axis_of(*keyboard, forward, backward),
{
    Axes { x: keyboard_axis(keyboard, right, left), y: keyboard_axis(keyboard, forward, backward) }
}

/// The keys that drive a robot while they are held.
pub const HELD_KEYS: [Key; 22] = [
    Key::KeyW,
    Key::KeyA,
    Key::KeyS,
    Key::KeyD,
    Key::ArrowLeft,
    Key::ArrowRight,
    Key::ArrowUp,
    Key::ArrowDown,
    Key::ShiftLeft,
    Key::Space,
    Key::KeyI,
    Key::KeyJ,
    Key::KeyK,
    Key::KeyL,
    Key::BracketLeft,
    Key::BracketRight,
    Key::Semicolon,
    Key::Quote,
    Key::KeyC,
    Key::KeyB,
    Key::KeyF,
    Key::KeyV,
];

/// The keys that do something when they go down.
pub const EDGE_KEYS: [Key; 6] = [Key::KeyG, Key::Tab, Key::F3, Key::F5, Key::KeyQ, Key::KeyU];

/// Whether the keyboard is used.
pub open spec fn keyboard_used(keyboard: Keyboard) -> bool {
    ||| exists|i: int| 0 <= i < HELD_KEYS@.len() && keyboard.holds(#[trigger] HELD_KEYS@[i])
    ||| exists|i: int| 0 <= i < EDGE_KEYS@.len() && keyboard.hits(#[trigger] EDGE_KEYS@[i])
}

/// Whether the keyboard is used.
pub fn keyboard_controller_active(keyboard: &Keyboard) -> (r: bool)
    ensures
        r == keyboard_used(*keyboard),
{
    let held: [Key; 22] = HELD_KEYS;
    let edges: [Key; 6] = EDGE_KEYS;
    let mut i: usize = 0;
    while i < 22
        invariant
            i <= 22,
            held == HELD_KEYS,
            forall|k: int| 0 <= k < i ==> !keyboard.holds(#[trigger] HELD_KEYS@[k]),
        decreases 22 - i,
    {
        if keyboard.pressed(held[i]) {
            assert(keyboard.holds(HELD_KEYS@[i as int]));
            return true;
        }
        i = i + 1;
    }
    let mut j: usize = 0;
    while j < 6
        invariant
            j <= 6,
            edges == EDGE_KEYS,
            forall|k: int| 0 <= k < 22 ==> !keyboard.holds(#[trigger] HELD_KEYS@[k]),
            forall|k: int| 0 <= k < j ==> !keyboard.hits(#[trigger] EDGE_KEYS@[k]),
        decreases 6 - j,
    {
        if keyboard.just_pressed(edges[j]) {
            assert(keyboard.hits(EDGE_KEYS@[j as int]));
            return true;
        }
        j = j + 1;
    }
    false
}

/// What the player's robot is asked to do once the keyboard is added.
pub open spec fn controlled_by_keys(
    keyboard: Keyboard,
    input: ControllerInput,
    yaw: int,
) -> ControllerInput {
    ControllerInput {
        movement: crate::controller::axes_sum(
            input.movement,
            axis_of(keyboard, Key::KeyD, Key::KeyA),
            axis_of(keyboard, Key::KeyW, Key::KeyS),
        ),
        gimbal: crate::controller::axes_sum(
            input.gimbal,
            axis_of(keyboard, Key::ArrowLeft, Key::ArrowRight),
            axis_of(keyboard, Key::ArrowUp, Key::ArrowDown),
        ),
        chassis_yaw: crate::controller::clamped(input.chassis_yaw + yaw) as i32,
        chassis_roll: crate::controller::clamped(input.chassis_roll as int) as i32,
        chassis_pitch: crate::controller::clamped(input.chassis_pitch as int) as i32,
        boost: input.boost || keyboard.holds(Key::ShiftLeft),
        shoot: input.shoot || keyboard.holds(Key::Space),
        dart_just_pressed: input.dart_just_pressed || keyboard.hits(Key::KeyG),
        switch_slapper_just_pressed: input.switch_slapper_just_pressed || keyboard.hits(Key::Tab),
        switch_camera_just_pressed: input.switch_camera_just_pressed || keyboard.hits(Key::F3),
        ..input
    }
}

/// What the other robot is asked to do once the keyboard is added. Its gimbal only turns while the
/// left shift key is up.
pub open spec fn remote_by_keys(
    keyboard: Keyboard,
    input: ControllerInput,
    yaw: int,
) -> ControllerInput {
    let turned = if keyboard.holds(Key::ShiftLeft) {
        input.gimbal
    } else {
        crate::controller::axes_sum(input.gimbal, axis_of(keyboard, Key::KeyC, Key::KeyB), 0)
    };
    ControllerInput {
        movement: crate::controller::axes_sum(
            input.movement,
            axis_of(keyboard, Key::KeyL, Key::KeyJ),
            axis_of(keyboard, Key::KeyI, Key::KeyK),
        ),
        gimbal: crate::controller::axes_sum(turned, 0, axis_of(keyboard, Key::KeyF, Key::KeyV)),
        chassis_yaw: crate::controller::clamped(input.chassis_yaw + yaw) as i32,
        chassis_roll: crate::controller::clamped(
            input.chassis_roll + axis_of(keyboard, Key::BracketLeft, Key::BracketRight),
        ) as i32,
        chassis_pitch: crate::controller::clamped(
            input.chassis_pitch + axis_of(keyboard, Key::Semicolon, Key::Quote),
        ) as i32,
        boost: input.boost || keyboard.holds(Key::ShiftRight),
        ..input
    }
}

/// The player's input once the keyboard is added.
pub open spec fn keyboard_sampled(keyboard: Keyboard, before: ControllerState) -> ControllerState {
    let controlled_spin = if keyboard.hits(Key::KeyQ) {
        before.controlled_chassis_spin.toggled()
    } else {
        before.controlled_chassis_spin
    };
    let remote_spin = if keyboard.hits(Key::KeyU) {
        before.remote_chassis_spin.toggled()
    } else {
        before.remote_chassis_spin
    };
    ControllerState {
        controlled: controlled_by_keys(keyboard, before.controlled, controlled_spin.yaw_spec()),
        remote: remote_by_keys(keyboard, before.remote, remote_spin.yaw_spec()),
        keyboard_auto_aim: before.keyboard_auto_aim != keyboard.hits(Key::F5),
        controlled_chassis_spin: controlled_spin,
        remote_chassis_spin: remote_spin,
        active_gamepad: if keyboard_used(keyboard) {
            None
        } else {
            before.active_gamepad
        },
        help: if keyboard_used(keyboard) {
            ControllerHelp::Keyboard
        } else {
            before.help
        },
    }
}

fn add_controlled_keys(keyboard: &Keyboard, input: &mut ControllerInput, yaw: i32)
    ensures
        *final(input) == controlled_by_keys(*keyboard, *old(input), yaw as int),
        old(input).wf() ==> final(input).wf(),
{
    input.add_movement(keyboard_vec2(keyboard, Key::KeyW, Key::KeyA, Key::KeyS, Key::KeyD));
    input.add_chassis(yaw, 0, 0);
    input.add_gimbal(
        Axes {
            x: keyboard_axis(keyboard, Key::ArrowLeft, Key::ArrowRight),
            y: keyboard_axis(keyboard, Key::ArrowUp, Key::ArrowDown),
        },
    );
    let boost: bool = keyboard.pressed(Key::ShiftLeft);
    let shoot: bool = keyboard.pressed(Key::Space);
    let dart: bool = keyboard.just_pressed(Key::KeyG);
    let slapper: bool = keyboard.just_pressed(Key::Tab);
    let camera: bool = keyboard.just_pressed(Key::F3);
    input.boost = input.boost || boost;
    input.shoot = input.shoot || shoot;
    input.dart_just_pressed = input.dart_just_pressed || dart;
    input.switch_slapper_just_pressed = input.switch_slapper_just_pressed || slapper;
    input.switch_camera_just_pressed = input.switch_camera_just_pressed || camera;
}

fn add_remote_keys(keyboard: &Keyboard, input: &mut ControllerInput, yaw: i32)
    ensures
        *final(input) == remote_by_keys(*keyboard, *old(input), yaw as int),
        old(input).wf() ==> final(input).wf(),
{
    input.add_movement(keyboard_vec2(keyboard, Key::KeyI, Key::KeyJ, Key::KeyK, Key::KeyL));
    input.add_chassis(
        yaw,
        keyboard_axis(keyboard, Key::BracketLeft, Key::BracketRight),
        keyboard_axis(keyboard, Key::Semicolon, Key::Quote),
    );
    if !keyboard.pressed(Key::ShiftLeft) {
        input.add_gimbal(Axes { x: keyboard_axis(keyboard, Key::KeyC, Key::KeyB), y: 0 });
    }
    input.add_gimbal(Axes { x: 0, y: keyboard_axis(keyboard, Key::KeyF, Key::KeyV) });
    let boost: bool = keyboard.pressed(Key::ShiftRight);
    input.boost = input.boost || boost;
}

/// Adds what the keyboard asks for to the player's input.
pub fn sample_keyboard_controller(keyboard: &Keyboard, controller: &mut ControllerState)
    ensures
        *final(controller) == keyboard_sampled(*keyboard, *old(controller)),
        old(controller).wf() ==> final(controller).wf(),
{
    if keyboard_controller_active(keyboard) {
        controller.use_help(ControllerHelp::Keyboard);
        controller.clear_gamepad();
    }
    if keyboard.just_pressed(Key::KeyQ) {
        controller.toggle_controlled_chassis_spin();
    }
    if keyboard.just_pressed(Key::KeyU) {
        controller.toggle_remote_chassis_spin();
    }
    let controlled_yaw: i32 = controller.controlled_chassis_spin.yaw_input();
    add_controlled_keys(keyboard, &mut controller.controlled, controlled_yaw);
    let remote_yaw: i32 = controller.remote_chassis_spin.yaw_input();
    add_remote_keys(keyboard, &mut controller.remote, remote_yaw);
    if keyboard.just_pressed(Key::F5) {
        controller.toggle_keyboard_auto_aim();
    }
}

/// A step of the free camera.
#[derive(Debug, Clone, Copy, PartialEq, Eq, Structural)]
pub enum FreecamStep {
    Forward,
    Backward,
    Left,
    Right,
    Up,
    Down,
}

pub open spec fn step_if(held: bool, step: FreecamStep) -> Seq<FreecamStep> {
    if held {
        seq![step]
    } else {
        Seq::empty()
    }
}

/// The steps of the free camera in a frame, in order.
pub open spec fn freecam_spec(keyboard: Keyboard) -> Seq<FreecamStep> {
    step_if(keyboard.holds(Key::KeyW), FreecamStep::Forward) + step_if(
        keyboard.holds(Key::KeyS),
        FreecamStep::Backward,
    ) + step_if(keyboard.holds(Key::KeyA), FreecamStep::Left) + step_if(
        keyboard.holds(Key::KeyD),
        FreecamStep::Right,
    ) + step_if(keyboard.holds(Key::KeyN), FreecamStep::Up) + step_if(
        keyboard.holds(Key::KeyJ),
        FreecamStep::Down,
    )
}

fn push_step(steps: &mut Vec<FreecamStep>, held: bool, step: FreecamStep)
    ensures
        final(steps)@ == old(steps)@ + step_if(held, step),
{
    if held {
        steps.push(step);
    }
    proof {
        assert(steps@ =~= old(steps)@ + step_if(held, step));
    }
}

/// The steps that the keyboard asks of the free camera in a frame, in order. While the camera
/// follows a robot there are none, and the mouse does not turn it either.
pub fn freecam_controls(mode: FollowingType, keyboard: &Keyboard) -> (r: Option<Vec<FreecamStep>>)
    ensures
        r is Some <==> mode == FollowingType::Free,
        r matches Some(steps) ==> steps@ == freecam_spec(*keyboard),
{
    if !mode.is_free() {
        return None;
    }
    let mut steps: Vec<FreecamStep> = Vec::new();
    push_step(&mut steps, keyboard.pressed(Key::KeyW), FreecamStep::Forward);
    push_step(&mut steps, keyboard.pressed(Key::KeyS), FreecamStep::Backward);
    push_step(&mut steps, keyboard.pressed(Key::KeyA), FreecamStep::Left);
    push_step(&mut steps, keyboard.pressed(Key::KeyD), FreecamStep::Right);
    push_step(&mut steps, keyboard.pressed(Key::KeyN), FreecamStep::Up);
    push_step(&mut steps, keyboard.pressed(Key::KeyJ), FreecamStep::Down);
    proof {
        assert(steps@ =~= freecam_spec(*keyboard));
    }
    Some(steps)
}

/// What the camera looks at.
#[derive(Debug, Clone, Copy, PartialEq, Eq, Structural)]
pub enum FollowingType {
    Free,
    Robot,
    ThirdPerson,
}

impl FollowingType {
    pub open spec fn next(self) -> FollowingType {
        match self {
            FollowingType::Free => FollowingType::Robot,
            FollowingType::Robot => FollowingType::ThirdPerson,
            FollowingType::ThirdPerson => FollowingType::Free,
        }
    }

    /// Whether the camera moves on its own. The player's robot is driven only while it does not.
    pub fn is_free(self) -> (r: bool)
        ensures
            r == (self == FollowingType::Free),
    {
        match self {
            FollowingType::Free => true,
            FollowingType::Robot | FollowingType::ThirdPerson => false,
        }
    }
}

/// Goes on to the next view when the player asks for it.
pub fn following_controls(mode: &mut FollowingType, controller: &ControllerState)
    ensures
        *final(mode) == (if controller.controlled.switch_camera_just_pressed {
            old(mode).next()
        } else {
            *old(mode)
        }),
{
    if controller.controlled.switch_camera_just_pressed {
        *mode = match *mode {
            FollowingType::Free => FollowingType::Robot,
            FollowingType::Robot => FollowingType::ThirdPerson,
            FollowingType::ThirdPerson => FollowingType::Free,
        };
    }
}

/// The views come round after three steps, and not before.
pub proof fn law_views_come_round(mode: FollowingType)
    ensures
        mode.next().next().next() == mode,
        mode.next() != mode,
        mode.next().next() != mode,
{
}

/// A frame in which nothing is pressed leaves what lasts as it was, and asks for nothing but what
/// spins on.
pub proof fn law_idle_keyboard_changes_nothing_that_lasts(
    keyboard: Keyboard,
    before: ControllerState,
)
    requires
        keyboard.held@.len() == 0,
        keyboard.edges@.len() == 0,
    ensures
        ({
            let after = keyboard_sampled(keyboard, before.frame_start());
            after == (ControllerState {
                controlled: ControllerInput {
                    chassis_yaw: before.controlled_chassis_spin.yaw_spec() as i32,
                    ..ControllerInput::idle()
                },
                remote: ControllerInput {
                    chassis_yaw: before.remote_chassis_spin.yaw_spec() as i32,
                    ..ControllerInput::idle()
                },
                ..before
            })
        }),
{
    assert(forall|key: Key| !keyboard.holds(key) && !keyboard.hits(key));
}

/// What each key asks of the player's robot in a frame that begins with nothing asked: W and S move
/// it forward and back, D and A right and left, the arrows turn the gimbal, opposite keys cancel, and
/// each of the others does one thing.
pub proof fn law_keys_of_the_players_robot(keyboard: Keyboard, before: ControllerState)
    ensures
        ({
            let after = keyboard_sampled(keyboard, before.frame_start());
            let asked = after.controlled;
            let pull = |key: Key|
                if keyboard.held@.contains(key) {
                    1_000_000_000int
                } else {
                    0int
                };
            &&& asked.movement.x == pull(Key::KeyD) - pull(Key::KeyA)
            &&& asked.movement.y == pull(Key::KeyW) - pull(Key::KeyS)
            &&& asked.gimbal.x == pull(Key::ArrowLeft) - pull(Key::ArrowRight)
            &&& asked.gimbal.y == pull(Key::ArrowUp) - pull(Key::ArrowDown)
            &&& asked.chassis_yaw == (if after.controlled_chassis_spin is On {
                1_000_000_000int
            } else {
                0int
            })
            &&& asked.chassis_roll == 0
            &&& asked.chassis_pitch == 0
            &&& asked.boost <==> keyboard.held@.contains(Key::ShiftLeft)
            &&& asked.shoot <==> keyboard.held@.contains(Key::Space)
            &&& asked.dart_just_pressed <==> keyboard.edges@.contains(Key::KeyG)
            &&& asked.switch_slapper_just_pressed <==> keyboard.edges@.contains(Key::Tab)
            &&& asked.switch_camera_just_pressed <==> keyboard.edges@.contains(Key::F3)
            &&& !asked.precise_gimbal
            &&& !asked.auto_aim
            &&& after.controlled_chassis_spin != before.controlled_chassis_spin
                <==> keyboard.edges@.contains(Key::KeyQ)
            &&& after.keyboard_auto_aim != before.keyboard_auto_aim <==> keyboard.edges@.contains(
                Key::F5,
            )
        }),
{
}

/// What each key asks of the robot that is driven remotely, in a frame that begins with nothing
/// asked. It shoots nothing, and its gimbal keeps its direction while the left shift key is held.
pub proof fn law_keys_of_the_remote_robot(keyboard: Keyboard, before: ControllerState)
    ensures
        ({
            let after = keyboard_sampled(keyboard, before.frame_start());
            let asked = after.remote;
            let pull = |key: Key|
                if keyboard.held@.contains(key) {
                    1_000_000_000int
                } else {
                    0int
                };
            &&& asked.movement.x == pull(Key::KeyL) - pull(Key::KeyJ)
            &&& asked.movement.y == pull(Key::KeyI) - pull(Key::KeyK)
            &&& asked.gimbal.x == (if keyboard.held@.contains(Key::ShiftLeft) {
                0
            } else {
                pull(Key::KeyC) - pull(Key::KeyB)
            })
            &&& asked.gimbal.y == pull(Key::KeyF) - pull(Key::KeyV)
            &&& asked.chassis_yaw == (if after.remote_chassis_spin is On {
                1_000_000_000int
            } else {
                0int
            })
            &&& asked.chassis_roll == pull(Key::BracketLeft) - pull(Key::BracketRight)
            &&& asked.chassis_pitch == pull(Key::Semicolon) - pull(Key::Quote)
            &&& asked.boost <==> keyboard.held@.contains(Key::ShiftRight)
            &&& !asked.shoot
            &&& !asked.precise_gimbal
            &&& !asked.auto_aim
            &&& !asked.dart_just_pressed
            &&& !asked.switch_slapper_just_pressed
            &&& !asked.switch_camera_just_pressed
            &&& after.remote_chassis_spin != before.remote_chassis_spin
                <==> keyboard.edges@.contains(Key::KeyU)
        }),
{
}

/// The keyboard takes nothing back that was asked before.
pub proof fn law_keys_take_nothing_back(keyboard: Keyboard, before: ControllerState)
    ensures
        ({
            let after = keyboard_sampled(keyboard, before);
            &&& before.controlled.boost ==> after.controlled.boost
            &&& before.controlled.shoot ==> after.controlled.shoot
            &&& before.controlled.dart_just_pressed ==> after.controlled.dart_just_pressed
            &&& before.controlled.switch_slapper_just_pressed
                ==> after.controlled.switch_slapper_just_pressed
            &&& before.controlled.switch_camera_just_pressed
                ==> after.controlled.switch_camera_just_pressed
            &&& after.controlled.precise_gimbal == before.controlled.precise_gimbal
            &&& after.controlled.auto_aim == before.controlled.auto_aim
            &&& before.remote.boost ==> after.remote.boost
            &&& after.remote.shoot == before.remote.shoot
        }),
{
}

/// The keyboard is in use exactly while a key that drives is held, or when one goes down that does
/// something then. The right shift key alone does not count.
pub proof fn law_keys_that_count_as_use(keyboard: Keyboard)
    ensures
        ({
            let held = |key: Key| keyboard.held@.contains(key);
            let edge = |key: Key| keyboard.edges@.contains(key);
            keyboard_used(keyboard) <==> {
                ||| held(Key::KeyW) || held(Key::KeyA) || held(Key::KeyS) || held(Key::KeyD)
                ||| held(Key::ArrowLeft) || held(Key::ArrowRight) || held(Key::ArrowUp) || held(
                    Key::ArrowDown,
                )
                ||| held(Key::ShiftLeft) || held(Key::Space)
                ||| held(Key::KeyI) || held(Key::KeyJ) || held(Key::KeyK) || held(Key::KeyL)
                ||| held(Key::BracketLeft) || held(Key::BracketRight)
                ||| held(Key::Semicolon) || held(Key::Quote)
                ||| held(Key::KeyC) || held(Key::KeyB) || held(Key::KeyF) || held(Key::KeyV)
                ||| edge(Key::KeyG) || edge(Key::Tab) || edge(Key::F3) || edge(Key::F5)
                ||| edge(Key::KeyQ) || edge(Key::KeyU)
            }
        }),
{
    let held = HELD_KEYS@;
    let edges = EDGE_KEYS@;
    assert(held.len() == 22);
    assert(edges.len() == 6);
    assert(held[0] == Key::KeyW && held[1] == Key::KeyA && held[2] == Key::KeyS && held[3]
        == Key::KeyD);
    assert(held[4] == Key::ArrowLeft && held[5] == Key::ArrowRight && held[6] == Key::ArrowUp
        && held[7] == Key::ArrowDown);
    assert(held[8] == Key::ShiftLeft && held[9] == Key::Space && held[10] == Key::KeyI && held[11]
        == Key::KeyJ);
    assert(held[12] == Key::KeyK && held[13] == Key::KeyL && held[14] == Key::BracketLeft
        && held[15] == Key::BracketRight);
    assert(held[16] == Key::Semicolon && held[17] == Key::Quote && held[18] == Key::KeyC && held[19]
        == Key::KeyB);
    assert(held[20] == Key::KeyF && held[21] == Key::KeyV);
    assert(edges[0] == Key::KeyG && edges[1] == Key::Tab && edges[2] == Key::F3 && edges[3]
        == Key::F5);
    assert(edges[4] == Key::KeyQ && edges[5] == Key::KeyU);
}

/// The free camera takes the step of each key that is held, and no other: W, S, A and D in the plane,
/// N up and J down.
pub proof fn law_keys_of_the_free_camera(keyboard: Keyboard, step: FreecamStep)
    ensures
        freecam_spec(keyboard).contains(step) <==> keyboard.held@.contains(
            match step {
                FreecamStep::Forward => Key::KeyW,
                FreecamStep::Backward => Key::KeyS,
                FreecamStep::Left => Key::KeyA,
                FreecamStep::Right => Key::KeyD,
                FreecamStep::Up => Key::KeyN,
                FreecamStep::Down => Key::KeyJ,
            },
        ),
{
    let forward = step_if(keyboard.holds(Key::KeyW), FreecamStep::Forward);
    let backward = step_if(keyboard.holds(Key::KeyS), FreecamStep::Backward);
    let left = step_if(keyboard.holds(Key::KeyA), FreecamStep::Left);
    let right = step_if(keyboard.holds(Key::KeyD), FreecamStep::Right);
    let up = step_if(keyboard.holds(Key::KeyN), FreecamStep::Up);
    let down = step_if(keyboard.holds(Key::KeyJ), FreecamStep::Down);
    lemma_step_sum(forward, backward, step);
    lemma_step_sum(forward + backward, left, step);
    lemma_step_sum(forward + backward + left, right, step);
    lemma_step_sum(forward + backward + left + right, up, step);
    lemma_step_sum(forward + backward + left + right + up, down, step);
    lemma_step_if(keyboard.holds(Key::KeyW), FreecamStep::Forward, step);
    lemma_step_if(keyboard.holds(Key::KeyS), FreecamStep::Backward, step);
    lemma_step_if(keyboard.holds(Key::KeyA), FreecamStep::Left, step);
    lemma_step_if(keyboard.holds(Key::KeyD), FreecamStep::Right, step);
    lemma_step_if(keyboard.holds(Key::KeyN), FreecamStep::Up, step);
    lemma_step_if(keyboard.holds(Key::KeyJ), FreecamStep::Down, step);
}

proof fn lemma_step_if(held: bool, own: FreecamStep, step: FreecamStep)
    ensures
        step_if(held, own).contains(step) <==> held && step == own,
{
    if held {
        assert(step_if(held, own)[0] == own);
    }
}

proof fn lemma_step_sum(first: Seq<FreecamStep>, second: Seq<FreecamStep>, step: FreecamStep)
    ensures
        (first + second).contains(step) <==> first.contains(step) || second.contains(step),
{
    let all = first + second;
    if first.contains(step) {
        let i = choose|i: int| 0 <= i < first.len() && first[i] == step;
        assert(all[i] == step);
    }
    if second.contains(step) {
        let i = choose|i: int| 0 <= i < second.len() && second[i] == step;
        assert(all[first.len() + i] == step);
    }
    if all.contains(step) {
        let i = choose|i: int| 0 <= i < all.len() && all[i] == step;
        if i < first.len() {
            assert(first[i] == step);
        } else {
            assert(second[i - first.len()] == step);
        }
    }
}

/// The view goes from the free camera to the robot's own, from there to the one behind the robot, and
/// back to the free camera.
pub proof fn law_order_of_the_views(mode: FollowingType)
    ensures
        mode is Free ==> mode.next() is Robot,
        mode is Robot ==> mode.next() is ThirdPerson,
        mode is ThirdPerson ==> mode.next() is Free,
{
}

} // verus!
