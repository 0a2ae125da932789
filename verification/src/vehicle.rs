//! Robots: how a loaded one becomes driveable, and who drives it.
use crate::controller::{Axes, ControllerInput};
use crate::hierarchy::{find_called, find_called_under, SceneNode};
use crate::EntityId;
use vstd::prelude::*;
use vstd::string::*;

verus! {

/// A step of making a robot driveable. Objects are named by their place.
#[derive(Debug, Clone, Copy, PartialEq, Eq, Structural)]
pub enum VehicleCommand {
    /// The object belongs to the robot that the player drives.
    Control(usize),
    /// The object belongs to another robot.
    Slapper(usize),
    /// The object belongs to the robot that is driven remotely.
    ActiveSlapper(usize),
    /// The root becomes a dynamic body, with the layers of the player's robot or of another.
    Body { local: bool },
    /// The object gets the layers of armor.
    ArmorLayers(usize),
    /// The object absorbs projectiles.
    Obstacle(usize),
    /// The robot lacks the chassis shell; projectiles pass through it.
    NoChassisShell,
    /// The robot lacks the gimbal tower; projectiles pass through it.
    NoGimbalTower,
    /// The object is the chassis; its armor is put together.
    Chassis(usize),
    /// The object is the gimbal.
    Gimbal(usize),
    /// The object is where shots leave.
    LaunchOffset(usize),
    /// The object is where the view is from.
    ViewOffset(usize),
}

/// A part that a robot cannot do without.
#[derive(Debug, Clone, Copy, PartialEq, Eq, Structural)]
pub enum MissingPart {
    Base,
    Gimbal,
    ShotDirection,
    CamDirection,
}

/// Whose robot the first `n` objects belong to.
pub open spec fn owners(local: bool, active: bool, n: int) -> Seq<VehicleCommand>
    decreases n,
{
    if n <= 0 {
        Seq::empty()
    } else {
        let before = owners(local, active, n - 1);
        let at = (n - 1) as usize;
        if local {
            before.push(VehicleCommand::Control(at))
        } else if active {
            before.push(VehicleCommand::Slapper(at)).push(VehicleCommand::ActiveSlapper(at))
        } else {
            before.push(VehicleCommand::Slapper(at))
        }
    }
}

/// The first `n` objects with the layers of armor.
pub open spec fn armored(n: int) -> Seq<VehicleCommand> {
    Seq::new(n as nat, |i: int| VehicleCommand::ArmorLayers(i as usize))
}

/// A part that absorbs projectiles, or the complaint that it is missing.
pub open spec fn obstacle(
    nodes: Seq<SceneNode>,
    name: Seq<char>,
    missing: VehicleCommand,
) -> VehicleCommand {
    match crate::hierarchy::first_called(nodes, name, nodes.len() as int) {
        Some(node) => VehicleCommand::Obstacle(node),
        None => missing,
    }
}

/// The part of a robot with a name: it is looked for below the vehicle.
pub open spec fn vehicle_part(nodes: Seq<SceneNode>, name: Seq<char>) -> Option<usize> {
    match crate::hierarchy::first_called(nodes, "VEHICLE"@, nodes.len() as int) {
        Some(vehicle) => crate::hierarchy::first_called_under(
            nodes,
            vehicle as int,
            name,
            nodes.len() as int,
        ),
        None => None,
    }
}

/// What is done whatever parts there are.
pub open spec fn body_commands(nodes: Seq<SceneNode>, local: bool, active: bool) -> Seq<
    VehicleCommand,
> {
    owners(local, active, nodes.len() as int).push(VehicleCommand::Body { local }) + armored(
        nodes.len() as int,
    ) + seq![
        obstacle(nodes, "CHASSIS"@, VehicleCommand::NoChassisShell),
        obstacle(nodes, "GIMBAL_MAIN"@, VehicleCommand::NoGimbalTower),
    ]
}

/// The steps of making a robot driveable, or the first part that it cannot do without and lacks.
pub open spec fn vehicle_commands(nodes: Seq<SceneNode>, local: bool, active: bool) -> Result<
    Seq<VehicleCommand>,
    MissingPart,
> {
    let body = body_commands(nodes, local, active);
    match vehicle_part(nodes, "BASE"@) {
        None => Err(MissingPart::Base),
        Some(base) => match vehicle_part(nodes, "GIMBAL"@) {
            None => Err(MissingPart::Gimbal),
            Some(gimbal) => {
                let driven = body.push(VehicleCommand::Chassis(base)).push(
                    VehicleCommand::Gimbal(gimbal),
                );
                let shot = crate::hierarchy::first_called_under(
                    nodes,
                    gimbal as int,
                    "SHOT_DIRECTION"@,
                    nodes.len() as int,
                );
                let view = crate::hierarchy::first_called_under(
                    nodes,
                    gimbal as int,
                    "CAM_DIRECTION"@,
                    nodes.len() as int,
                );
                if !local {
                    Ok(driven)
                } else if shot is None {
                    Err(MissingPart::ShotDirection)
                } else if view is None {
                    Err(MissingPart::CamDirection)
                } else {
                    Ok(
                        driven.push(VehicleCommand::LaunchOffset(shot->0)).push(
                            VehicleCommand::ViewOffset(view->0),
                        ),
                    )
                }
            },
        },
    }
}

fn push_owners(count: usize, local: bool, active: bool, out: &mut Vec<VehicleCommand>)
    ensures
        final(out)@ == old(out)@ + owners(local, active, count as int),
{
    let ghost before = out@;
    let mut i: usize = 0;
    while i < count
        invariant
            i <= count,
            out@ =~= before + owners(local, active, i as int),
        decreases count - i,
    {
        if local {
            out.push(VehicleCommand::Control(i));
        } else {
            out.push(VehicleCommand::Slapper(i));
            if active {
                out.push(VehicleCommand::ActiveSlapper(i));
            }
        }
        i = i + 1;
    }
}

fn find_vehicle_part(nodes: &Vec<SceneNode>, name: &str) -> (r: Option<usize>)
    requires
        crate::hierarchy::parents_precede(nodes@),
    ensures
        r == vehicle_part(nodes@, name@),
{
    match find_called(nodes, "VEHICLE") {
        Some(vehicle) => find_called_under(nodes, vehicle, name),
        None => None,
    }
}

/// Makes a loaded robot driveable: body, armor layers, what absorbs projectiles, chassis and gimbal,
/// and for the player's robot where shots leave and where the view is from.
pub fn setup_vehicle(nodes: &Vec<SceneNode>, local: bool, active: bool) -> (r: Result<
    Vec<VehicleCommand>,
    MissingPart,
>)
    requires
        crate::hierarchy::parents_precede(nodes@),
    ensures
        match vehicle_commands(nodes@, local, active) {
            Ok(commands) => r is Ok && r->Ok_0@ == commands,
            Err(part) => r == Err::<Vec<VehicleCommand>, MissingPart>(part),
        },
{
    let mut out: Vec<VehicleCommand> = Vec::new();
    push_owners(nodes.len(), local, active, &mut out);
    out.push(VehicleCommand::Body { local });
    let ghost before = out@;
    let mut i: usize = 0;
    while i < nodes.len()
        invariant
            i <= nodes@.len(),
            out@ =~= before + armored(i as int),
        decreases nodes@.len() - i,
    {
        out.push(VehicleCommand::ArmorLayers(i));
        i = i + 1;
    }
    match find_called(nodes, "CHASSIS") {
        Some(node) => out.push(VehicleCommand::Obstacle(node)),
        None => out.push(VehicleCommand::NoChassisShell),
    }
    match find_called(nodes, "GIMBAL_MAIN") {
        Some(node) => out.push(VehicleCommand::Obstacle(node)),
        None => out.push(VehicleCommand::NoGimbalTower),
    }
    proof {
        assert(out@ =~= body_commands(nodes@, local, active));
    }
    let base: usize = match find_vehicle_part(nodes, "BASE") {
        Some(base) => base,
        None => return Err(MissingPart::Base),
    };
    out.push(VehicleCommand::Chassis(base));
    let gimbal: usize = match find_vehicle_part(nodes, "GIMBAL") {
        Some(gimbal) => gimbal,
        None => return Err(MissingPart::Gimbal),
    };
    out.push(VehicleCommand::Gimbal(gimbal));
    if local {
        let shot: usize = match find_called_under(nodes, gimbal, "SHOT_DIRECTION") {
            Some(shot) => shot,
            None => return Err(MissingPart::ShotDirection),
        };
        out.push(VehicleCommand::LaunchOffset(shot));
        let view: usize = match find_called_under(nodes, gimbal, "CAM_DIRECTION") {
            Some(view) => view,
            None => return Err(MissingPart::CamDirection),
        };
        out.push(VehicleCommand::ViewOffset(view));
    }
    Ok(out)
}

/// The first place of an entity.
pub open spec fn place_of(roots: Seq<EntityId>, entity: EntityId) -> Option<int>
    decreases roots.len(),
{
    if roots.len() == 0 {
        None
    } else {
        match place_of(roots.drop_last(), entity) {
            Some(i) => Some(i),
            None => if roots.last() == entity {
                Some(roots.len() - 1)
            } else {
                None
            },
        }
    }
}

proof fn lemma_place_stays(roots: Seq<EntityId>, entity: EntityId, n: int)
    requires
        0 <= n <= roots.len(),
        place_of(roots.take(n), entity) is Some,
    ensures
        place_of(roots, entity) == place_of(roots.take(n), entity),
    decreases roots.len() - n,
{
    if n == roots.len() {
        assert(roots.take(n) =~= roots);
    } else {
        assert(roots.take(n + 1).drop_last() =~= roots.take(n));
        lemma_place_stays(roots, entity, n + 1);
    }
}

fn find_place(roots: &Vec<EntityId>, entity: EntityId) -> (r: Option<usize>)
    ensures
        match place_of(roots@, entity) {
            Some(i) => r == Some(i as usize) && 0 <= i < roots@.len(),
            None => r is None,
        },
{
    let mut i: usize = 0;
    proof {
        assert(roots@.take(0) =~= Seq::empty());
    }
    while i < roots.len()
        invariant
            i <= roots@.len(),
            place_of(roots@.take(i as int), entity) is None,
        decreases roots@.len() - i,
    {
        proof {
            assert(roots@.take(i + 1).drop_last() =~= roots@.take(i as int));
        }
        if roots[i] == entity {
            proof {
                lemma_place_stays(roots@, entity, i + 1);
            }
            return Some(i);
        }
        i = i + 1;
    }
    proof {
        assert(roots@.take(i as int) =~= roots@);
    }
    None
}

/// Remote control passes from one robot to another.
#[derive(Debug, Clone, Copy, PartialEq, Eq, Structural)]
pub struct SlapperSwitch {
    pub from: Option<EntityId>,
    pub to: EntityId,
}

/// Passes remote control on to the next robot in the list, or to the first if none has it. With
/// fewer than two robots nothing changes.
pub fn switch_slapper_control(
    just_pressed: bool,
    roots: &Vec<EntityId>,
    active: Option<EntityId>,
) -> (r: Option<SlapperSwitch>)
    ensures
        if !just_pressed || roots@.len() <= 1 {
            r is None
        } else {
            &&& r is Some
            &&& r->0.from == active
            &&& r->0.to == roots@[(match active {
                Some(entity) => match place_of(roots@, entity) {
                    Some(i) => (i + 1) % (roots@.len() as int),
                    None => 0,
                },
                None => 0,
            })]
        },
{
    if !just_pressed {
        return None;
    }
    if roots.len() <= 1 {
        return None;
    }
    let current: Option<usize> = match active {
        Some(entity) => find_place(roots, entity),
        None => None,
    };
    let next: usize = match current {
        Some(i) => (i + 1) % roots.len(),
        None => 0,
    };
    Some(SlapperSwitch { from: active, to: roots[next] })
}

/// How long a navigation command counts, in nanoseconds. After that it is considered lost.
pub const NAV_TIMEOUT_NS: u64 = 500_000_000;

/// The speed below which a chassis counts as stopped, in billionths of a metre or radian per second.
pub const STOP_EPSILON: i64 = 50_000_000;

/// The latest navigation command for the player's chassis. Velocities are of types that the caller
/// chooses.
#[derive(Debug)]
pub struct NavCmdVel<L, A> {
    /// Velocity along the ground.
    pub linear: L,
    /// Yaw rate.
    pub angular_z: A,
    /// When the command came, if one ever did.
    pub last_cmd_ns: Option<u64>,
}

impl<L: Copy, A: Copy> NavCmdVel<L, A> {
    /// No command yet.
    pub fn new(linear: L, angular_z: A) -> (r: Self)
        ensures
            r.linear == linear,
            r.angular_z == angular_z,
            r.last_cmd_ns is None,
    {
        NavCmdVel { linear, angular_z, last_cmd_ns: None }
    }

    pub fn update(&mut self, linear: L, angular_z: A, now_ns: u64)
        ensures
            final(self).linear == linear,
            final(self).angular_z == angular_z,
            final(self).last_cmd_ns == Some(now_ns),
    {
        self.linear = linear;
        self.angular_z = angular_z;
        self.last_cmd_ns = Some(now_ns);
    }

    /// Whether the command still counts at a moment.
    pub open spec fn fresh(self, now_ns: u64) -> bool {
        self.last_cmd_ns matches Some(last) && now_ns - last < NAV_TIMEOUT_NS
    }

    /// Chassis velocity target while navigation owns the chassis:
    /// - the command while it is fresh;
    /// - standing still after the command is lost but the chassis is still moving, so that it
    ///   actively brakes instead of coasting on friction;
    /// - `None` once stopped, and before the first command, which leaves the chassis to the player.
    ///
    /// Speeds are in billionths of a metre or radian per second.
    pub fn active_target(
        &self,
        now_ns: u64,
        body_speed: u64,
        yaw_speed: i64,
        still: (L, A),
    ) -> (r: Option<(L, A)>)
        ensures
            r == (if self.fresh(now_ns) {
                Some((self.linear, self.angular_z))
            } else if self.last_cmd_ns is Some && (body_speed > STOP_EPSILON || yaw_speed
                > STOP_EPSILON || yaw_speed < -STOP_EPSILON) {
                Some(still)
            } else {
                None
            }),
    {
        match self.last_cmd_ns {
            Some(last) => {
                let age_ns: u64 = now_ns.saturating_sub(last);
                if age_ns < NAV_TIMEOUT_NS {
                    Some((self.linear, self.angular_z))
                } else if body_speed > STOP_EPSILON as u64 || yaw_speed > STOP_EPSILON || yaw_speed
                    < -STOP_EPSILON {
                    Some(still)
                } else {
                    None
                }
            },
            None => None,
        }
    }
}

/// What drives a chassis in a frame.
#[derive(Debug)]
pub enum DriveCommand<L, A> {
    /// Navigation, to a velocity along the ground and a yaw rate.
    Navigation { linear: L, angular_z: A },
    /// The player's input.
    Manual { movement: Axes, boost: u32, yaw: i32, roll: i32, pitch: i32 },
}

/// What the player asks of a chassis.
pub open spec fn manual_drive<L, A>(input: ControllerInput) -> DriveCommand<L, A> {
    DriveCommand::Manual {
        movement: input.movement,
        boost: if input.boost {
            2
        } else {
            1
        },
        yaw: input.chassis_yaw,
        roll: input.chassis_roll,
        pitch: input.chassis_pitch,
    }
}

/// What drives the player's chassis: navigation while it has a target, which bypasses the player
/// entirely, else the player.
pub fn vehicle_controls<L, A>(target: Option<(L, A)>, input: ControllerInput) -> (r: DriveCommand<
    L,
    A,
>)
    ensures
        r == (match target {
            Some((linear, angular_z)) => DriveCommand::Navigation { linear, angular_z },
            None => manual_drive(input),
        }),
{
    match target {
        Some((linear, angular_z)) => DriveCommand::Navigation { linear, angular_z },
        None => remote_vehicle_controls(input),
    }
}

/// What drives a chassis that navigation knows nothing of.
pub fn remote_vehicle_controls<L, A>(input: ControllerInput) -> (r: DriveCommand<L, A>)
    ensures
        r == manual_drive::<L, A>(input),
{
    DriveCommand::Manual {
        movement: input.movement,
        boost: input.boost_multiplier(),
        yaw: input.chassis_yaw,
        roll: input.chassis_roll,
        pitch: input.chassis_pitch,
    }
}

/// How a gimbal is turned by hand in a frame, and at how many percent of its speed.
#[derive(Debug, Clone, Copy, PartialEq, Eq, Structural)]
pub struct GimbalTurn {
    pub axes: Axes,
    pub percent: u32,
}

/// How the player turns a gimbal: not at all while a solver aims it.
pub fn gimbal_controls(solver_aims: bool, input: ControllerInput) -> (r: Option<GimbalTurn>)
    ensures
        r == (if solver_aims {
            None
        } else {
            Some(
                GimbalTurn {
                    axes: input.gimbal,
                    percent: if input.precise_gimbal {
                        35
                    } else {
                        100
                    },
                },
            )
        }),
{
    if solver_aims {
        return None;
    }
    Some(GimbalTurn { axes: input.gimbal, percent: input.gimbal_scale() })
}

/// Closed-loop state for tracking a solver target: the target and a loop per axis. That a gimbal has
/// a tracker is what it means that a solver aims it.
#[derive(Debug)]
pub struct GimbalAimTracker<T, P> {
    pub target: T,
    pub yaw: P,
    pub pitch: P,
}

impl<T: Copy, P: Copy> GimbalAimTracker<T, P> {
    /// A tracker whose loops start clean.
    pub fn new(target: T, clean: P) -> (r: Self)
        ensures
            r.target == target,
            r.yaw == clean,
            r.pitch == clean,
    {
        GimbalAimTracker { target, yaw: clean, pitch: clean }
    }

    pub fn target(&self) -> (r: T)
        ensures
            r == self.target,
    {
        self.target
    }

    /// Updates the target while keeping the loops, so that a stream of commands drives one continuous
    /// controller instead of restarting with every message.
    pub fn retarget(&mut self, target: T)
        ensures
            *final(self) == (GimbalAimTracker { target, ..*old(self) }),
    {
        self.target = target;
    }
}

proof fn lemma_in_push(list: Seq<VehicleCommand>, last: VehicleCommand, c: VehicleCommand)
    ensures
        list.push(last).contains(c) <==> list.contains(c) || c == last,
{
    let all = list.push(last);
    if list.contains(c) {
        let i = choose|i: int| 0 <= i < list.len() && list[i] == c;
        assert(all[i] == c);
    }
    if c == last {
        assert(all[list.len() as int] == c);
    }
    if all.contains(c) && c != last {
        let i = choose|i: int| 0 <= i < all.len() && all[i] == c;
        assert(list[i] == c);
    }
}

proof fn lemma_in_sum(first: Seq<VehicleCommand>, second: Seq<VehicleCommand>, c: VehicleCommand)
    ensures
        (first + second).contains(c) <==> first.contains(c) || second.contains(c),
{
    let all = first + second;
    if first.contains(c) {
        let i = choose|i: int| 0 <= i < first.len() && first[i] == c;
        assert(all[i] == c);
    }
    if second.contains(c) {
        let i = choose|i: int| 0 <= i < second.len() && second[i] == c;
        assert(all[first.len() + i] == c);
    }
    if all.contains(c) {
        let i = choose|i: int| 0 <= i < all.len() && all[i] == c;
        if i < first.len() {
            assert(first[i] == c);
        } else {
            assert(second[i - first.len()] == c);
        }
    }
}

proof fn lemma_owners(local: bool, active: bool, n: int, c: VehicleCommand)
    requires
        0 <= n <= usize::MAX,
    ensures
        owners(local, active, n).contains(c) <==> match c {
            VehicleCommand::Control(i) => local && i < n,
            VehicleCommand::Slapper(i) => !local && i < n,
            VehicleCommand::ActiveSlapper(i) => !local && active && i < n,
            _ => false,
        },
    decreases n,
{
    if n > 0 {
        lemma_owners(local, active, n - 1, c);
        let before = owners(local, active, n - 1);
        let at = (n - 1) as usize;
        lemma_in_push(before, VehicleCommand::Control(at), c);
        lemma_in_push(before, VehicleCommand::Slapper(at), c);
        lemma_in_push(
            before.push(VehicleCommand::Slapper(at)),
            VehicleCommand::ActiveSlapper(at),
            c,
        );
    }
}

/// Everything that making a robot driveable does, command by command. All of its objects belong to
/// it and get the layers of armor; the chassis shell and the gimbal tower absorb projectiles, or it
/// is said that they are missing; chassis and gimbal are looked for below the vehicle; only the
/// player's robot has a place where shots leave and one where the view is from, below its gimbal.
pub proof fn law_what_a_driveable_robot_is_made_of(
    nodes: Seq<SceneNode>,
    local: bool,
    active: bool,
    c: VehicleCommand,
)
    requires
        nodes.len() <= usize::MAX,
        vehicle_commands(nodes, local, active) is Ok,
    ensures
        ({
            let count = nodes.len() as int;
            let vehicle = crate::hierarchy::first_called(nodes, "VEHICLE"@, count);
            let base = crate::hierarchy::first_called_under(
                nodes,
                vehicle->0 as int,
                "BASE"@,
                count,
            );
            let gimbal = crate::hierarchy::first_called_under(
                nodes,
                vehicle->0 as int,
                "GIMBAL"@,
                count,
            );
            let shell = crate::hierarchy::first_called(nodes, "CHASSIS"@, count);
            let tower = crate::hierarchy::first_called(nodes, "GIMBAL_MAIN"@, count);
            &&& vehicle is Some
            &&& base is Some
            &&& gimbal is Some
            &&& vehicle_commands(nodes, local, active)->Ok_0.contains(c) <==> match c {
                VehicleCommand::Control(i) => local && i < nodes.len(),
                VehicleCommand::Slapper(i) => !local && i < nodes.len(),
                VehicleCommand::ActiveSlapper(i) => !local && active && i < nodes.len(),
                VehicleCommand::Body { local: own } => own == local,
                VehicleCommand::ArmorLayers(i) => i < nodes.len(),
                VehicleCommand::Obstacle(i) => shell == Some(i) || tower == Some(i),
                VehicleCommand::NoChassisShell => shell is None,
                VehicleCommand::NoGimbalTower => tower is None,
                VehicleCommand::Chassis(i) => base == Some(i),
                VehicleCommand::Gimbal(i) => gimbal == Some(i),
                VehicleCommand::LaunchOffset(i) => local && crate::hierarchy::first_called_under(
                    nodes,
                    gimbal->0 as int,
                    "SHOT_DIRECTION"@,
                    count,
                ) == Some(i),
                VehicleCommand::ViewOffset(i) => local && crate::hierarchy::first_called_under(
                    nodes,
                    gimbal->0 as int,
                    "CAM_DIRECTION"@,
                    count,
                ) == Some(i),
            }
        }),
{
    let count = nodes.len() as int;
    let base = vehicle_part(nodes, "BASE"@)->0;
    let gimbal = vehicle_part(nodes, "GIMBAL"@)->0;
    let owned = owners(local, active, count);
    let embodied = owned.push(VehicleCommand::Body { local });
    let shell = obstacle(nodes, "CHASSIS"@, VehicleCommand::NoChassisShell);
    let tower = obstacle(nodes, "GIMBAL_MAIN"@, VehicleCommand::NoGimbalTower);
    let pair = seq![shell, tower];
    let body = body_commands(nodes, local, active);
    lemma_owners(local, active, count, c);
    lemma_in_push(owned, VehicleCommand::Body { local }, c);
    lemma_in_sum(embodied, armored(count), c);
    lemma_in_sum(embodied + armored(count), pair, c);
    assert(armored(count).contains(c) <==> (c matches VehicleCommand::ArmorLayers(i) && i < count))
        by {
        if let VehicleCommand::ArmorLayers(i) = c {
            if i < count {
                assert(armored(count)[i as int] == c);
            }
        }
        if armored(count).contains(c) {
            let i = choose|i: int| 0 <= i < count && armored(count)[i] == c;
            assert(c == VehicleCommand::ArmorLayers(i as usize));
        }
    }
    assert(pair.contains(c) <==> c == shell || c == tower) by {
        assert(pair[0] == shell);
        assert(pair[1] == tower);
        if pair.contains(c) {
            let i = choose|i: int| 0 <= i < pair.len() && pair[i] == c;
            assert(i == 0 || i == 1);
        }
    }
    lemma_in_push(body, VehicleCommand::Chassis(base), c);
    let based = body.push(VehicleCommand::Chassis(base));
    lemma_in_push(based, VehicleCommand::Gimbal(gimbal), c);
    let driven = based.push(VehicleCommand::Gimbal(gimbal));
    if local {
        let shot = crate::hierarchy::first_called_under(
            nodes,
            gimbal as int,
            "SHOT_DIRECTION"@,
            count,
        )->0;
        let view = crate::hierarchy::first_called_under(
            nodes,
            gimbal as int,
            "CAM_DIRECTION"@,
            count,
        )->0;
        lemma_in_push(driven, VehicleCommand::LaunchOffset(shot), c);
        lemma_in_push(
            driven.push(VehicleCommand::LaunchOffset(shot)),
            VehicleCommand::ViewOffset(view),
            c,
        );
    }
}

/// A robot is refused exactly when it lacks a part that it cannot do without, and the first such part
/// is named: the base, the gimbal, and for the player's robot what points the shots and the view.
pub proof fn law_robots_are_refused_for_their_first_missing_part(
    nodes: Seq<SceneNode>,
    local: bool,
    active: bool,
)
    ensures
        ({
            let count = nodes.len() as int;
            let vehicle = crate::hierarchy::first_called(nodes, "VEHICLE"@, count);
            let base = crate::hierarchy::first_called_under(
                nodes,
                vehicle->0 as int,
                "BASE"@,
                count,
            );
            let gimbal = crate::hierarchy::first_called_under(
                nodes,
                vehicle->0 as int,
                "GIMBAL"@,
                count,
            );
            let shot = crate::hierarchy::first_called_under(
                nodes,
                gimbal->0 as int,
                "SHOT_DIRECTION"@,
                count,
            );
            let view = crate::hierarchy::first_called_under(
                nodes,
                gimbal->0 as int,
                "CAM_DIRECTION"@,
                count,
            );
            let no_base = vehicle is None || base is None;
            let no_gimbal = !no_base && gimbal is None;
            let no_shot = !no_base && !no_gimbal && local && shot is None;
            let no_view = !no_base && !no_gimbal && local && shot is Some && view is None;
            match vehicle_commands(nodes, local, active) {
                Err(MissingPart::Base) => no_base,
                Err(MissingPart::Gimbal) => no_gimbal,
                Err(MissingPart::ShotDirection) => no_shot,
                Err(MissingPart::CamDirection) => no_view,
                Ok(_) => !no_base && !no_gimbal && !no_shot && !no_view,
            }
        }),
{
}

/// The place of an entity is the first one that it stands at.
pub proof fn law_the_first_place_counts(roots: Seq<EntityId>, entity: EntityId)
    ensures
        match place_of(roots, entity) {
            Some(i) => 0 <= i < roots.len() && roots[i] == entity && forall|k: int|
                0 <= k < i ==> #[trigger] roots[k] != entity,
            None => forall|k: int| 0 <= k < roots.len() ==> #[trigger] roots[k] != entity,
        },
    decreases roots.len(),
{
    if roots.len() > 0 {
        let rest = roots.drop_last();
        law_the_first_place_counts(rest, entity);
        assert forall|k: int| 0 <= k < rest.len() implies #[trigger] roots[k] == rest[k] by {}
    }
}

/// Whoever drives by hand drives as they steer, twice as fast while they boost.
pub proof fn law_manual_drive_is_the_players_input<L, A>(input: ControllerInput)
    ensures
        manual_drive::<L, A>(input) matches DriveCommand::Manual { movement, boost, yaw, roll, pitch }
            && movement == input.movement && yaw == input.chassis_yaw && roll == input.chassis_roll
            && pitch == input.chassis_pitch && boost == (if input.boost {
            2int
        } else {
            1int
        }),
{
}

/// A navigation command counts for half a second from when it came, and none counts before the first.
/// What moves slower than a twentieth of a metre or radian per second stands.
pub proof fn law_commands_count_for_half_a_second<L: Copy, A: Copy>(
    nav: NavCmdVel<L, A>,
    now_ns: u64,
)
    ensures
        nav.last_cmd_ns is None ==> !nav.fresh(now_ns),
        nav.last_cmd_ns matches Some(last) ==> (nav.fresh(now_ns) <==> now_ns < last + 500_000_000),
        20 * STOP_EPSILON == 1_000_000_000,
{
}

} // verus!
