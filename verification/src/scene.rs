//! The order in which a scene is loaded, and what of it can be hit.
//!
//! Worlds become ready whenever their asset happens to be loaded, so spawning everything at once
//! would let a robot become a dynamic body before the environment has any colliders, and fall
//! through the floor. Loading is therefore one linear list of steps, with the robots last.
use crate::tech_core::program::Team;
use crate::text::push_decimal;
use crate::EntityId;
use vstd::prelude::*;
use vstd::string::*;

verus! {

/// The map to play on.
#[derive(Debug, Clone, Copy, PartialEq, Eq, Structural)]
pub enum MapKind {
    /// The full arena with outposts, power rune and tech core.
    Rmuc,
    /// A single self-contained field.
    Rmul,
}

/// A place in the world, in thousandths of a meter along each axis.
#[derive(Debug, Clone, Copy, PartialEq, Eq, Structural)]
pub struct Place {
    pub x_mm: i32,
    pub y_mm: i32,
    pub z_mm: i32,
}

/// A world that is loaded.
#[derive(Debug, Clone, Copy, PartialEq, Eq, Structural)]
pub enum WorldAsset {
    Ground,
    GroundRmul,
    /// A calibration board.
    CalibBoard(Place),
    Outpost,
    TechCore,
    PowerRune,
    Robot(RobotSpawn),
}

/// A robot to spawn.
#[derive(Debug, Clone, Copy, PartialEq, Eq, Structural)]
pub struct RobotSpawn {
    pub team: Team,
    pub hero: bool,
    /// The player drives it.
    pub controlled: bool,
    /// It is the one of the other robots that is driven remotely.
    pub active: bool,
    /// Where it lands.
    pub place: Place,
}

impl WorldAsset {
    pub open spec fn file_spec(self) -> Seq<char> {
        match self {
            WorldAsset::Ground => "GROUND.glb"@,
            WorldAsset::GroundRmul => "GROUND_RMUL.glb"@,
            WorldAsset::CalibBoard(_) => "CALIB.glb"@,
            WorldAsset::Outpost => "OUTPOST.glb"@,
            WorldAsset::TechCore => "TECH_CORE.glb"@,
            WorldAsset::PowerRune => "POWER.glb"@,
            WorldAsset::Robot(robot) => if robot.hero {
                "HERO.glb"@
            } else {
                "vehicle.glb"@
            },
        }
    }

    /// The file that the world is loaded from.
    pub fn file(self) -> (r: &'static str)
        ensures
            r@ == self.file_spec(),
    {
        match self {
            WorldAsset::Ground => "GROUND.glb",
            WorldAsset::GroundRmul => "GROUND_RMUL.glb",
            WorldAsset::CalibBoard(_) => "CALIB.glb",
            WorldAsset::Outpost => "OUTPOST.glb",
            WorldAsset::TechCore => "TECH_CORE.glb",
            WorldAsset::PowerRune => "POWER.glb",
            WorldAsset::Robot(robot) => {
                if robot.hero {
                    "HERO.glb"
                } else {
                    "vehicle.glb"
                }
            },
        }
    }

    pub open spec fn place_spec(self) -> Place {
        match self {
            WorldAsset::CalibBoard(place) => place,
            WorldAsset::Robot(robot) => robot.place,
            _ => Place { x_mm: 0, y_mm: 0, z_mm: 0 },
        }
    }

    /// Where the world is put: all but boards and robots bring their places with them.
    pub fn place(self) -> (r: Place)
        ensures
            r == self.place_spec(),
    {
        match self {
            WorldAsset::CalibBoard(place) => place,
            WorldAsset::Robot(robot) => robot.place,
            _ => Place { x_mm: 0, y_mm: 0, z_mm: 0 },
        }
    }
}

/// Which objects of a world get colliders.
#[derive(Debug, Clone, Copy, PartialEq, Eq, Structural)]
pub enum CollisionSet {
    Ground,
    GroundRmul,
    TechCore,
    PowerRune,
}

/// A step of loading. All but spawning work on the world that was spawned last.
#[derive(Debug, Clone, Copy, PartialEq, Eq, Structural)]
pub enum LoadStep {
    /// Spawns a world and waits until its instance is ready.
    Spawn(WorldAsset),
    SetupDartLaunch,
    SetupOutposts,
    SetupTechCore,
    SetupPowerRune,
    SetupCollision(CollisionSet),
    /// Waits until every collider that was asked for is built.
    AwaitColliders,
    SetupVehicle,
}

/// The calibration boards.
pub open spec fn board_steps() -> Seq<LoadStep> {
    seq![
        LoadStep::Spawn(WorldAsset::CalibBoard(Place { x_mm: 1_000, y_mm: 2_500, z_mm: 1_000 })),
        LoadStep::Spawn(WorldAsset::CalibBoard(Place { x_mm: 2_000, y_mm: 500, z_mm: 2_000 })),
    ]
}

pub open spec fn player() -> RobotSpawn {
    RobotSpawn {
        team: Team::Red,
        hero: false,
        controlled: true,
        active: false,
        place: Place { x_mm: 0, y_mm: 1_000, z_mm: 0 },
    }
}

pub open spec fn slapper() -> RobotSpawn {
    RobotSpawn {
        team: Team::Blue,
        hero: false,
        controlled: false,
        active: false,
        place: Place { x_mm: 1_000, y_mm: 1_000, z_mm: 1_000 },
    }
}

pub open spec fn hero() -> RobotSpawn {
    RobotSpawn {
        team: Team::Blue,
        hero: true,
        controlled: false,
        active: true,
        place: Place { x_mm: 2_000, y_mm: 1_000, z_mm: 1_000 },
    }
}

/// The robots: the player's, one to drive into, and a hero to drive remotely.
pub open spec fn robot_steps() -> Seq<LoadStep> {
    seq![
        LoadStep::Spawn(WorldAsset::Robot(player())),
        LoadStep::SetupVehicle,
        LoadStep::Spawn(WorldAsset::Robot(slapper())),
        LoadStep::SetupVehicle,
        LoadStep::Spawn(WorldAsset::Robot(hero())),
        LoadStep::SetupVehicle,
    ]
}

/// The environment of a map.
pub open spec fn environment_steps(map: MapKind) -> Seq<LoadStep> {
    match map {
        MapKind::Rmuc => seq![
            LoadStep::Spawn(WorldAsset::Ground),
            LoadStep::SetupDartLaunch,
            LoadStep::SetupCollision(CollisionSet::Ground),
            LoadStep::AwaitColliders,
        ] + board_steps() + seq![
            LoadStep::Spawn(WorldAsset::Outpost),
            LoadStep::SetupOutposts,
            LoadStep::Spawn(WorldAsset::TechCore),
            LoadStep::SetupTechCore,
            LoadStep::SetupCollision(CollisionSet::TechCore),
            LoadStep::AwaitColliders,
            LoadStep::Spawn(WorldAsset::PowerRune),
            LoadStep::SetupPowerRune,
            LoadStep::SetupCollision(CollisionSet::PowerRune),
            LoadStep::AwaitColliders,
        ],
        MapKind::Rmul => seq![
            LoadStep::Spawn(WorldAsset::GroundRmul),
            LoadStep::SetupCollision(CollisionSet::GroundRmul),
            LoadStep::AwaitColliders,
        ] + board_steps(),
    }
}

/// All steps of loading a map.
pub open spec fn scene_steps(map: MapKind) -> Seq<LoadStep> {
    environment_steps(map) + robot_steps()
}

fn push_boards(steps: &mut Vec<LoadStep>)
    ensures
        final(steps)@ == old(steps)@ + board_steps(),
{
    let first: Place = Place { x_mm: 1_000, y_mm: 2_500, z_mm: 1_000 };
    let second: Place = Place { x_mm: 2_000, y_mm: 500, z_mm: 2_000 };
    steps.push(LoadStep::Spawn(WorldAsset::CalibBoard(first)));
    steps.push(LoadStep::Spawn(WorldAsset::CalibBoard(second)));
    proof {
        assert(steps@ =~= old(steps)@ + board_steps());
    }
}

/// Robots land last so they can never become dynamic over an empty world.
fn push_robots(steps: &mut Vec<LoadStep>)
    ensures
        final(steps)@ == old(steps)@ + robot_steps(),
{
    let player: RobotSpawn = RobotSpawn {
        team: Team::Red,
        hero: false,
        controlled: true,
        active: false,
        place: Place { x_mm: 0, y_mm: 1_000, z_mm: 0 },
    };
    let slapper: RobotSpawn = RobotSpawn {
        team: Team::Blue,
        hero: false,
        controlled: false,
        active: false,
        place: Place { x_mm: 1_000, y_mm: 1_000, z_mm: 1_000 },
    };
    let hero: RobotSpawn = RobotSpawn {
        team: Team::Blue,
        hero: true,
        controlled: false,
        active: true,
        place: Place { x_mm: 2_000, y_mm: 1_000, z_mm: 1_000 },
    };
    steps.push(LoadStep::Spawn(WorldAsset::Robot(player)));
    steps.push(LoadStep::SetupVehicle);
    steps.push(LoadStep::Spawn(WorldAsset::Robot(slapper)));
    steps.push(LoadStep::SetupVehicle);
    steps.push(LoadStep::Spawn(WorldAsset::Robot(hero)));
    steps.push(LoadStep::SetupVehicle);
    proof {
        assert(steps@ =~= old(steps)@ + robot_steps());
    }
}

/// The steps of loading a map, in order.
pub fn load_scene(map: MapKind) -> (r: Vec<LoadStep>)
    ensures
        r@ == scene_steps(map),
{
    let mut steps: Vec<LoadStep> = Vec::new();
    match map {
        MapKind::Rmuc => {
            steps.push(LoadStep::Spawn(WorldAsset::Ground));
            steps.push(LoadStep::SetupDartLaunch);
            steps.push(LoadStep::SetupCollision(CollisionSet::Ground));
            steps.push(LoadStep::AwaitColliders);
            push_boards(&mut steps);
            steps.push(LoadStep::Spawn(WorldAsset::Outpost));
            steps.push(LoadStep::SetupOutposts);
            steps.push(LoadStep::Spawn(WorldAsset::TechCore));
            steps.push(LoadStep::SetupTechCore);
            steps.push(LoadStep::SetupCollision(CollisionSet::TechCore));
            steps.push(LoadStep::AwaitColliders);
            steps.push(LoadStep::Spawn(WorldAsset::PowerRune));
            steps.push(LoadStep::SetupPowerRune);
            steps.push(LoadStep::SetupCollision(CollisionSet::PowerRune));
            steps.push(LoadStep::AwaitColliders);
        },
        MapKind::Rmul => {
            steps.push(LoadStep::Spawn(WorldAsset::GroundRmul));
            steps.push(LoadStep::SetupCollision(CollisionSet::GroundRmul));
            steps.push(LoadStep::AwaitColliders);
            push_boards(&mut steps);
        },
    }
    proof {
        assert(steps@ =~= environment_steps(map));
    }
    push_robots(&mut steps);
    steps
}

/// Whether a step spawns a robot.
pub open spec fn spawns_robot(step: LoadStep) -> bool {
    step matches LoadStep::Spawn(WorldAsset::Robot(_))
}

/// Robots come last: once one is spawned, only robots are, and nothing is waited for any more. And
/// by then the colliders that were asked for are there: every such step is followed at once by
/// waiting for them.
pub proof fn law_robots_land_on_a_finished_environment(map: MapKind, i: int, j: int)
    requires
        0 <= i < j < scene_steps(map).len(),
    ensures
        spawns_robot(scene_steps(map)[i]) ==> spawns_robot(scene_steps(map)[j])
            || scene_steps(map)[j] is SetupVehicle,
        scene_steps(map)[i] is SetupCollision ==> scene_steps(map)[i + 1] is AwaitColliders,
{
    let environment = environment_steps(map);
    let robots = robot_steps();
    let steps = scene_steps(map);
    if i < environment.len() {
        assert(steps[i] == environment[i]);
        assert(!spawns_robot(environment[i]));
        if environment[i] is SetupCollision {
            assert(environment[i + 1] is AwaitColliders);
            assert(steps[i + 1] == environment[i + 1]);
        }
    } else {
        assert(steps[i] == robots[i - environment.len()]);
        assert(steps[j] == robots[j - environment.len()]);
    }
}

/// How an object is hit.
#[derive(Debug, Clone, Copy, PartialEq, Eq, Structural)]
pub enum ColliderKind {
    /// Its triangles, fixed in the world.
    StaticTriangles,
    /// Voxels that fill it, moving with the world it belongs to.
    Voxels,
}

/// An object that gets a collider, by its name.
#[derive(Debug)]
pub struct CollisionEntry {
    pub name: String,
    pub kind: ColliderKind,
}

/// The states that a rune target is modeled in.
pub open spec fn rune_state_spec(state: int) -> Seq<char> {
    if state == 0 {
        "ACTIVATED"@
    } else if state == 1 {
        "ACTIVE"@
    } else if state == 2 {
        "COMPLETED"@
    } else {
        "DISABLED"@
    }
}

/// The name of a rune target in one of its states: faces and targets are counted from one.
pub open spec fn rune_target_spec(face: int, target: int, state: int) -> Seq<char> {
    "FACE_"@ + crate::text::decimal((face + 1) as nat) + "_TARGET_"@ + crate::text::decimal(
        (target + 1) as nat,
    ) + "_"@ + rune_state_spec(state)
}

fn rune_target_name(face: u64, target: u64, state: u64) -> (r: String)
    requires
        face < 2,
        target < 5,
        state < 4,
    ensures
        r@ == rune_target_spec(face as int, target as int, state as int),
{
    let mut name: String = "FACE_".to_owned();
    push_decimal(&mut name, face + 1);
    name.append("_TARGET_");
    push_decimal(&mut name, target + 1);
    name.append("_");
    let text: &str = match state {
        0 => "ACTIVATED",
        1 => "ACTIVE",
        2 => "COMPLETED",
        _ => "DISABLED",
    };
    name.append(text);
    name
}

/// How many objects of a world get colliders.
pub open spec fn collision_count(set: CollisionSet) -> int {
    match set {
        CollisionSet::Ground => 1,
        CollisionSet::TechCore => 1,
        CollisionSet::GroundRmul => 2,
        CollisionSet::PowerRune => 41,
    }
}

/// The name of the object at a place of the list.
pub open spec fn collision_name(set: CollisionSet, i: int) -> Seq<char> {
    match set {
        CollisionSet::Ground => "GROUND_DENSE"@,
        CollisionSet::TechCore => "GROUND"@,
        CollisionSet::GroundRmul => if i == 0 {
            "SHELL"@
        } else {
            "SOLID"@
        },
        CollisionSet::PowerRune => if i == 0 {
            "BASE"@
        } else {
            rune_target_spec((i - 1) / 20, (i - 1) / 4 % 5, (i - 1) % 4)
        },
    }
}

/// How the object at a place of the list is hit.
pub open spec fn collision_kind(set: CollisionSet, i: int) -> ColliderKind {
    if set is PowerRune && i > 0 {
        ColliderKind::Voxels
    } else {
        ColliderKind::StaticTriangles
    }
}

/// The objects of a world that get colliders. Every rune target gets a voxelized one, so that hits
/// register on the spinning arms.
pub fn collision_entries(set: CollisionSet) -> (r: Vec<CollisionEntry>)
    ensures
        r@.len() == collision_count(set),
        forall|i: int|
            0 <= i < r@.len() ==> (#[trigger] r@[i]).name@ == collision_name(set, i) && r@[i].kind
                == collision_kind(set, i),
{
    let mut entries: Vec<CollisionEntry> = Vec::new();
    let kind: ColliderKind = ColliderKind::StaticTriangles;
    match set {
        CollisionSet::Ground => {
            entries.push(CollisionEntry { name: "GROUND_DENSE".to_owned(), kind });
        },
        CollisionSet::TechCore => {
            entries.push(CollisionEntry { name: "GROUND".to_owned(), kind });
        },
        CollisionSet::GroundRmul => {
            entries.push(CollisionEntry { name: "SHELL".to_owned(), kind });
            entries.push(CollisionEntry { name: "SOLID".to_owned(), kind });
        },
        CollisionSet::PowerRune => {
            entries.push(CollisionEntry { name: "BASE".to_owned(), kind });
            let mut k: u64 = 0;
            while k < 40
                invariant
                    k <= 40,
                    set is PowerRune,
                    entries@.len() == k + 1,
                    forall|i: int|
                        0 <= i < entries@.len() ==> (#[trigger] entries@[i]).name@
                            == collision_name(set, i) && entries@[i].kind == collision_kind(set, i),
                decreases 40 - k,
            {
                let name: String = rune_target_name(k / 20, k / 4 % 5, k % 4);
                entries.push(CollisionEntry { name, kind: ColliderKind::Voxels });
                k = k + 1;
            }
        },
    }
    entries
}

/// The last entry with a name.
pub open spec fn entry_called(entries: Seq<CollisionEntry>, name: Seq<char>) -> Option<usize>
    decreases entries.len(),
{
    if entries.len() == 0 {
        None
    } else if entries.last().name@ == name {
        Some((entries.len() - 1) as usize)
    } else {
        entry_called(entries.drop_last(), name)
    }
}

fn find_entry(entries: &Vec<CollisionEntry>, name: &String) -> (r: Option<usize>)
    ensures
        r == entry_called(entries@, name@),
{
    let mut i: usize = entries.len();
    proof {
        assert(entries@.take(entries@.len() as int) =~= entries@);
    }
    while i > 0
        invariant
            i <= entries@.len(),
            entry_called(entries@, name@) == entry_called(entries@.take(i as int), name@),
        decreases i,
    {
        proof {
            assert(entries@.take(i as int).drop_last() =~= entries@.take(i - 1));
        }
        i = i - 1;
        if entries[i].name == *name {
            return Some(i);
        }
    }
    None
}

/// A named object of a loaded world.
#[derive(Debug)]
pub struct NamedNode {
    pub entity: EntityId,
    pub name: String,
    /// There is something below it.
    pub has_children: bool,
}

/// The objects of a world that get colliders, with the entry that says how, among the first `n`.
/// Meshes hang below the objects that are named after them, so an object without children is none.
pub open spec fn collisions_upto(
    nodes: Seq<NamedNode>,
    entries: Seq<CollisionEntry>,
    n: int,
) -> Seq<(EntityId, usize)>
    decreases n,
{
    if n <= 0 {
        Seq::empty()
    } else {
        match entry_called(entries, nodes[n - 1].name@) {
            Some(entry) if nodes[n - 1].has_children => collisions_upto(
                nodes,
                entries,
                n - 1,
            ).push((nodes[n - 1].entity, entry)),
            _ => collisions_upto(nodes, entries, n - 1),
        }
    }
}

/// Picks the objects of a loaded world that get colliders, by their names.
pub fn setup_collision(
    nodes: &Vec<NamedNode>,
    entries: &Vec<CollisionEntry>,
) -> (r: Vec<(EntityId, usize)>)
    ensures
        r@ == collisions_upto(nodes@, entries@, nodes@.len() as int),
{
    let mut out: Vec<(EntityId, usize)> = Vec::new();
    let mut i: usize = 0;
    while i < nodes.len()
        invariant
            i <= nodes@.len(),
            out@ == collisions_upto(nodes@, entries@, i as int),
        decreases nodes@.len() - i,
    {
        if let Some(entry) = find_entry(entries, &nodes[i].name) {
            if nodes[i].has_children {
                out.push((nodes[i].entity, entry));
            }
        }
        i = i + 1;
    }
    out
}

/// The outposts among the first `n` objects, by their names.
pub open spec fn outposts_upto(nodes: Seq<NamedNode>, n: int) -> Seq<(EntityId, Team)>
    decreases n,
{
    if n <= 0 {
        Seq::empty()
    } else if nodes[n - 1].name@ == "OUTPOST_1"@ {
        outposts_upto(nodes, n - 1).push((nodes[n - 1].entity, Team::Red))
    } else if nodes[n - 1].name@ == "OUTPOST_2"@ {
        outposts_upto(nodes, n - 1).push((nodes[n - 1].entity, Team::Blue))
    } else {
        outposts_upto(nodes, n - 1)
    }
}

/// Finds the two outposts of a loaded world.
pub fn setup_outposts(nodes: &Vec<NamedNode>) -> (r: Vec<(EntityId, Team)>)
    ensures
        r@ == outposts_upto(nodes@, nodes@.len() as int),
{
    let red: String = "OUTPOST_1".to_owned();
    let blue: String = "OUTPOST_2".to_owned();
    proof {
        reveal_strlit("OUTPOST_1");
        reveal_strlit("OUTPOST_2");
        assert("OUTPOST_1"@[8] != "OUTPOST_2"@[8]);
    }
    let mut out: Vec<(EntityId, Team)> = Vec::new();
    let mut i: usize = 0;
    while i < nodes.len()
        invariant
            i <= nodes@.len(),
            red@ == "OUTPOST_1"@,
            blue@ == "OUTPOST_2"@,
            red@ != blue@,
            out@ == outposts_upto(nodes@, i as int),
        decreases nodes@.len() - i,
    {
        if nodes[i].name == red {
            out.push((nodes[i].entity, Team::Red));
        }
        if nodes[i].name == blue {
            out.push((nodes[i].entity, Team::Blue));
        }
        i = i + 1;
    }
    out
}

/// The first dart launch marker among the first `n` objects.
pub open spec fn dart_launch_upto(nodes: Seq<NamedNode>, n: int) -> Option<EntityId>
    decreases n,
{
    if n <= 0 {
        None
    } else {
        match dart_launch_upto(nodes, n - 1) {
            Some(entity) => Some(entity),
            None => if nodes[n - 1].name@ == "DART_LAUNCH_DIRECTION"@ {
                Some(nodes[n - 1].entity)
            } else {
                None
            },
        }
    }
}

proof fn lemma_dart_launch_stays(nodes: Seq<NamedNode>, i: int, n: int)
    requires
        i <= n,
        dart_launch_upto(nodes, i) is Some,
    ensures
        dart_launch_upto(nodes, n) == dart_launch_upto(nodes, i),
    decreases n - i,
{
    if i < n {
        lemma_dart_launch_stays(nodes, i, n - 1);
    }
}

/// Finds the dart launch marker of a loaded world. Where there is none, a warning is due.
pub fn setup_dart_launch(nodes: &Vec<NamedNode>) -> (r: Option<EntityId>)
    ensures
        r == dart_launch_upto(nodes@, nodes@.len() as int),
{
    let marker: String = "DART_LAUNCH_DIRECTION".to_owned();
    let mut i: usize = 0;
    while i < nodes.len()
        invariant
            i <= nodes@.len(),
            marker@ == "DART_LAUNCH_DIRECTION"@,
            dart_launch_upto(nodes@, i as int) is None,
        decreases nodes@.len() - i,
    {
        if nodes[i].name == marker {
            proof {
                lemma_dart_launch_stays(nodes@, i + 1, nodes@.len() as int);
            }
            return Some(nodes[i].entity);
        }
        i = i + 1;
    }
    None
}

/// The world that was spawned last among the first `n` steps.
pub open spec fn spawned_last(steps: Seq<LoadStep>, n: int) -> Option<WorldAsset>
    decreases n,
{
    if n <= 0 {
        None
    } else {
        match steps[n - 1] {
            LoadStep::Spawn(asset) => Some(asset),
            _ => spawned_last(steps, n - 1),
        }
    }
}

/// Every step of setting up works on the world that it is meant for: that one was spawned last. And
/// each world that needs setting up gets it as soon as it is spawned.
pub proof fn law_worlds_are_set_up_as_they_are_spawned(map: MapKind, i: int)
    requires
        0 <= i < scene_steps(map).len(),
    ensures
        ({
            let steps = scene_steps(map);
            let world = spawned_last(steps, i);
            &&& steps[i] is SetupDartLaunch ==> world == Some(WorldAsset::Ground)
            &&& steps[i] is SetupOutposts ==> world == Some(WorldAsset::Outpost)
            &&& steps[i] is SetupTechCore ==> world == Some(WorldAsset::TechCore)
            &&& steps[i] is SetupPowerRune ==> world == Some(WorldAsset::PowerRune)
            &&& steps[i] is SetupVehicle ==> world is Some && world->0 is Robot
            &&& steps[i] == LoadStep::SetupCollision(CollisionSet::Ground) ==> world == Some(
                WorldAsset::Ground,
            )
            &&& steps[i] == LoadStep::SetupCollision(CollisionSet::GroundRmul) ==> world == Some(
                WorldAsset::GroundRmul,
            )
            &&& steps[i] == LoadStep::SetupCollision(CollisionSet::TechCore) ==> world == Some(
                WorldAsset::TechCore,
            )
            &&& steps[i] == LoadStep::SetupCollision(CollisionSet::PowerRune) ==> world == Some(
                WorldAsset::PowerRune,
            )
            &&& steps[i] == LoadStep::Spawn(WorldAsset::Ground) ==> steps[i + 1] is SetupDartLaunch
                && steps[i + 2] == LoadStep::SetupCollision(CollisionSet::Ground)
            &&& steps[i] == LoadStep::Spawn(WorldAsset::GroundRmul) ==> steps[i + 1]
                == LoadStep::SetupCollision(CollisionSet::GroundRmul)
            &&& steps[i] == LoadStep::Spawn(WorldAsset::Outpost) ==> steps[i + 1] is SetupOutposts
            &&& steps[i] == LoadStep::Spawn(WorldAsset::TechCore) ==> steps[i + 1] is SetupTechCore
                && steps[i + 2] == LoadStep::SetupCollision(CollisionSet::TechCore)
            &&& steps[i] == LoadStep::Spawn(WorldAsset::PowerRune)
                ==> steps[i + 1] is SetupPowerRune && steps[i + 2] == LoadStep::SetupCollision(
                CollisionSet::PowerRune,
            )
            &&& spawns_robot(steps[i]) ==> steps[i + 1] is SetupVehicle
        }),
{
    let steps = scene_steps(map);
    let environment = environment_steps(map);
    let robots = robot_steps();
    reveal_with_fuel(spawned_last, 4);
    assert forall|k: int| 0 <= k < steps.len() implies #[trigger] steps[k] == (if k
        < environment.len() {
        environment[k]
    } else {
        robots[k - environment.len()]
    }) by {}
}

/// The ground of a map is the one that it is named after, and only the large arena has outposts, a
/// tech core and a power rune. Both have their robots: one red that the player drives, and of the
/// others the hero is the one that is driven remotely.
pub proof fn law_what_a_map_holds(map: MapKind, robot: RobotSpawn)
    ensures
        ({
            let steps = scene_steps(map);
            let rmuc = map is Rmuc;
            &&& steps.contains(LoadStep::Spawn(WorldAsset::Ground)) <==> rmuc
            &&& steps.contains(LoadStep::Spawn(WorldAsset::GroundRmul)) <==> !rmuc
            &&& steps.contains(LoadStep::Spawn(WorldAsset::Outpost)) <==> rmuc
            &&& steps.contains(LoadStep::Spawn(WorldAsset::TechCore)) <==> rmuc
            &&& steps.contains(LoadStep::Spawn(WorldAsset::PowerRune)) <==> rmuc
            &&& steps.contains(LoadStep::Spawn(WorldAsset::Robot(robot))) ==> {
                &&& robot.team is Red <==> robot.controlled
                &&& robot.hero <==> robot.active
                &&& robot.controlled ==> !robot.active
                &&& robot.place.y_mm == 1_000
            }
        }),
{
    let steps = scene_steps(map);
    let environment = environment_steps(map);
    let robots = robot_steps();
    assert forall|k: int| 0 <= k < steps.len() implies #[trigger] steps[k] == (if k
        < environment.len() {
        environment[k]
    } else {
        robots[k - environment.len()]
    }) by {}
    match map {
        MapKind::Rmuc => {
            assert(steps[0] == LoadStep::Spawn(WorldAsset::Ground));
            assert(steps[6] == LoadStep::Spawn(WorldAsset::Outpost));
            assert(steps[8] == LoadStep::Spawn(WorldAsset::TechCore));
            assert(steps[12] == LoadStep::Spawn(WorldAsset::PowerRune));
        },
        MapKind::Rmul => {
            assert(steps[0] == LoadStep::Spawn(WorldAsset::GroundRmul));
        },
    }
}

/// The objects of a power rune that get colliders are its base and, for both faces, all five targets
/// in all four states: the base as it stands, the targets as voxels that move with the arms.
pub proof fn law_every_target_has_a_collider(face: int, target: int, state: int)
    requires
        0 <= face < 2,
        0 <= target < 5,
        0 <= state < 4,
    ensures
        ({
            let i = 1 + 20 * face + 4 * target + state;
            &&& 0 < i < collision_count(CollisionSet::PowerRune)
            &&& collision_count(CollisionSet::PowerRune) == 1 + 2 * 5 * 4
            &&& collision_name(CollisionSet::PowerRune, i) == "FACE_"@ + crate::text::decimal(
                (face + 1) as nat,
            ) + "_TARGET_"@ + crate::text::decimal((target + 1) as nat) + "_"@ + (if state == 0 {
                "ACTIVATED"@
            } else if state == 1 {
                "ACTIVE"@
            } else if state == 2 {
                "COMPLETED"@
            } else {
                "DISABLED"@
            })
            &&& collision_kind(CollisionSet::PowerRune, i) is Voxels
            &&& collision_name(CollisionSet::PowerRune, 0) == "BASE"@
            &&& collision_kind(CollisionSet::PowerRune, 0) is StaticTriangles
        }),
{
}

/// The grounds stand still, so their triangles are hit as they are.
pub proof fn law_grounds_stand_still(set: CollisionSet, i: int)
    requires
        set !is PowerRune,
        0 <= i < collision_count(set),
    ensures
        collision_kind(set, i) is StaticTriangles,
        set is Ground ==> collision_name(set, i) == "GROUND_DENSE"@,
        set is TechCore ==> collision_name(set, i) == "GROUND"@,
        set is GroundRmul ==> collision_name(set, i) == (if i == 0 {
            "SHELL"@
        } else {
            "SOLID"@
        }),
        set is GroundRmul <==> collision_count(set) == 2,
{
}

/// The last entry with a name is the one that counts.
pub proof fn law_the_last_entry_of_a_name_counts(entries: Seq<CollisionEntry>, name: Seq<char>)
    requires
        entries.len() <= usize::MAX,
    ensures
        match entry_called(entries, name) {
            Some(i) => i < entries.len() && entries[i as int].name@ == name && forall|k: int|
                i < k < entries.len() ==> (#[trigger] entries[k]).name@ != name,
            None => forall|k: int| 0 <= k < entries.len() ==> (#[trigger] entries[k]).name@ != name,
        },
    decreases entries.len(),
{
    if entries.len() > 0 {
        let rest = entries.drop_last();
        law_the_last_entry_of_a_name_counts(rest, name);
        assert forall|k: int| 0 <= k < rest.len() implies #[trigger] entries[k] == rest[k] by {}
    }
}

/// An object gets a collider exactly if there is something below it and an entry has its name; it
/// gets the one that the entry says.
pub proof fn law_colliders_go_to_the_named_objects(
    nodes: Seq<NamedNode>,
    entries: Seq<CollisionEntry>,
    n: int,
    entity: EntityId,
    entry: usize,
)
    requires
        0 <= n <= nodes.len(),
    ensures
        collisions_upto(nodes, entries, n).contains((entity, entry)) <==> exists|i: int|
            0 <= i < n && (#[trigger] nodes[i]).entity == entity && nodes[i].has_children
                && entry_called(entries, nodes[i].name@) == Some(entry),
    decreases n,
{
    if n > 0 {
        law_colliders_go_to_the_named_objects(nodes, entries, n - 1, entity, entry);
        let before = collisions_upto(nodes, entries, n - 1);
        let all = collisions_upto(nodes, entries, n);
        let wanted = (entity, entry);
        if before.contains(wanted) {
            let k = choose|k: int| 0 <= k < before.len() && before[k] == wanted;
            assert(all[k] == wanted);
            let i = choose|i: int|
                0 <= i < n - 1 && (#[trigger] nodes[i]).entity == entity && nodes[i].has_children
                    && entry_called(entries, nodes[i].name@) == Some(entry);
            assert(nodes[i].entity == entity);
        }
        if nodes[n - 1].entity == entity && nodes[n - 1].has_children && entry_called(
            entries,
            nodes[n - 1].name@,
        ) == Some(entry) {
            assert(all[before.len() as int] == wanted);
        }
        if all.contains(wanted) && !before.contains(wanted) {
            let k = choose|k: int| 0 <= k < all.len() && all[k] == wanted;
            if k < before.len() {
                assert(before[k] == wanted);
            }
            assert(nodes[n - 1].entity == entity);
        }
    }
}

/// The first outpost is red and the second blue, and nothing else is an outpost.
pub proof fn law_outposts_are_known_by_name(
    nodes: Seq<NamedNode>,
    n: int,
    entity: EntityId,
    team: Team,
)
    requires
        0 <= n <= nodes.len(),
    ensures
        outposts_upto(nodes, n).contains((entity, team)) <==> exists|i: int|
            0 <= i < n && (#[trigger] nodes[i]).entity == entity && nodes[i].name@ == (
            if team is Red {
                "OUTPOST_1"@
            } else {
                "OUTPOST_2"@
            }),
    decreases n,
{
    reveal_strlit("OUTPOST_1");
    reveal_strlit("OUTPOST_2");
    assert("OUTPOST_1"@[8] != "OUTPOST_2"@[8]);
    if n > 0 {
        law_outposts_are_known_by_name(nodes, n - 1, entity, team);
        let before = outposts_upto(nodes, n - 1);
        let all = outposts_upto(nodes, n);
        let wanted = (entity, team);
        let name = if team is Red {
            "OUTPOST_1"@
        } else {
            "OUTPOST_2"@
        };
        if before.contains(wanted) {
            let k = choose|k: int| 0 <= k < before.len() && before[k] == wanted;
            assert(all[k] == wanted);
            let i = choose|i: int|
                0 <= i < n - 1 && (#[trigger] nodes[i]).entity == entity && nodes[i].name@ == name;
            assert(nodes[i].entity == entity);
        }
        if nodes[n - 1].entity == entity && nodes[n - 1].name@ == name {
            assert(all[before.len() as int] == wanted);
        }
        if all.contains(wanted) && !before.contains(wanted) {
            let k = choose|k: int| 0 <= k < all.len() && all[k] == wanted;
            if k < before.len() {
                assert(before[k] == wanted);
            }
            assert(nodes[n - 1].entity == entity);
        }
    }
}

/// The first marker in the world is where darts leave.
pub proof fn law_the_first_marker_launches_darts(nodes: Seq<NamedNode>, n: int)
    requires
        0 <= n <= nodes.len(),
    ensures
        match dart_launch_upto(nodes, n) {
            Some(entity) => exists|i: int|
                0 <= i < n && (#[trigger] nodes[i]).entity == entity && nodes[i].name@
                    == "DART_LAUNCH_DIRECTION"@ && forall|k: int|
                    0 <= k < i ==> (#[trigger] nodes[k]).name@ != "DART_LAUNCH_DIRECTION"@,
            None => forall|k: int|
                0 <= k < n ==> (#[trigger] nodes[k]).name@ != "DART_LAUNCH_DIRECTION"@,
        },
    decreases n,
{
    if n > 0 {
        law_the_first_marker_launches_darts(nodes, n - 1);
        if dart_launch_upto(nodes, n - 1) is None && nodes[n - 1].name@
            == "DART_LAUNCH_DIRECTION"@ {
            assert(nodes[n - 1].entity == dart_launch_upto(nodes, n)->0);
        }
    }
}

/// Boards and robots stand where they are put, and every other world at the origin.
pub proof fn law_where_worlds_stand(asset: WorldAsset)
    ensures
        asset matches WorldAsset::CalibBoard(place) ==> asset.place_spec() == place,
        asset matches WorldAsset::Robot(robot) ==> asset.place_spec() == robot.place,
        asset !is CalibBoard && asset !is Robot ==> asset.place_spec().x_mm == 0
            && asset.place_spec().y_mm == 0 && asset.place_spec().z_mm == 0,
{
}

/// Every kind of world comes from a file of its own, and only a hero's robot differs from the others.
pub proof fn law_files_of_the_worlds(asset: WorldAsset)
    ensures
        asset.file_spec() == (match asset {
            WorldAsset::Ground => "GROUND.glb"@,
            WorldAsset::GroundRmul => "GROUND_RMUL.glb"@,
            WorldAsset::CalibBoard(_) => "CALIB.glb"@,
            WorldAsset::Outpost => "OUTPOST.glb"@,
            WorldAsset::TechCore => "TECH_CORE.glb"@,
            WorldAsset::PowerRune => "POWER.glb"@,
            WorldAsset::Robot(robot) => if robot.hero {
                "HERO.glb"@
            } else {
                "vehicle.glb"@
            },
        }),
{
}

/// On either map there are two calibration boards and three robots, each at its own place: the player's
/// at the middle of the map, the others next to it, the hero the farther one.
pub proof fn law_where_robots_and_boards_start(map: MapKind, robot: RobotSpawn, place: Place)
    ensures
        ({
            let steps = scene_steps(map);
            let at = |p: Place, x: int, y: int, z: int| p.x_mm == x && p.y_mm == y && p.z_mm == z;
            &&& steps.contains(LoadStep::Spawn(WorldAsset::CalibBoard(place))) <==> at(
                place,
                1_000,
                2_500,
                1_000,
            ) || at(place, 2_000, 500, 2_000)
            &&& steps.contains(LoadStep::Spawn(WorldAsset::Robot(robot))) <==> {
                ||| robot.team is Red && !robot.hero && robot.controlled && !robot.active && at(
                    robot.place,
                    0,
                    1_000,
                    0,
                )
                ||| robot.team is Blue && !robot.hero && !robot.controlled && !robot.active && at(
                    robot.place,
                    1_000,
                    1_000,
                    1_000,
                )
                ||| robot.team is Blue && robot.hero && !robot.controlled && robot.active && at(
                    robot.place,
                    2_000,
                    1_000,
                    1_000,
                )
            }
        }),
{
    let steps = scene_steps(map);
    let environment = environment_steps(map);
    let robots = robot_steps();
    let n = environment.len() as int;
    assert forall|k: int| 0 <= k < steps.len() implies #[trigger] steps[k] == (if k
        < environment.len() {
        environment[k]
    } else {
        robots[k - environment.len()]
    }) by {}
    assert(steps[n] == LoadStep::Spawn(WorldAsset::Robot(player())));
    assert(steps[n + 2] == LoadStep::Spawn(WorldAsset::Robot(slapper())));
    assert(steps[n + 4] == LoadStep::Spawn(WorldAsset::Robot(hero())));
    match map {
        MapKind::Rmuc => {
            assert(steps[4] == board_steps()[0]);
            assert(steps[5] == board_steps()[1]);
        },
        MapKind::Rmul => {
            assert(steps[3] == board_steps()[0]);
            assert(steps[4] == board_steps()[1]);
        },
    }
}

} // verus!
