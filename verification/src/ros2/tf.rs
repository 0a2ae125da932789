//! The transform tree: which frame hangs under which, and where its pose comes from.
use crate::ros2::topic::Topic;
use crate::text::{contains, joined, push_decimal, to_ascii_lowercase};
use crate::EntityId;
use vstd::prelude::*;
use vstd::string::*;

verus! {

/// Where the pose of a frame in its parent comes from.
#[derive(Debug, Clone, Copy, PartialEq, Eq, Structural)]
pub enum FrameSource {
    /// The chassis in the world, with its full rotation.
    Chassis,
    /// The gimbal in the world, turned so that the muzzle points forward.
    GimbalInWorld,
    /// The gimbal in the chassis, turned so that the muzzle points forward.
    GimbalInChassis,
    /// The muzzle's place in the gimbal.
    MuzzleInGimbal,
    /// The camera's place in the gimbal.
    CameraInGimbal,
    /// The same place and direction as the parent.
    Identity,
    /// The turn from the camera to its optical frame.
    OpticalTurn,
    /// A power rune in the world, by its place in the list.
    Rune(usize),
    /// A rune's target in the rune, by its place in the list.
    Target(usize),
    /// An armor's marker in the world, by its place in the list.
    Armor(usize),
}

/// A topic that carries a pose of its own, besides the tree.
#[derive(Debug, Clone, Copy, PartialEq, Eq, Structural)]
pub enum PoseTopic {
    Gimbal,
    Odom,
    Muzzle,
    Camera,
}

impl PoseTopic {
    pub open spec fn topic_spec(self) -> Topic {
        match self {
            PoseTopic::Gimbal => Topic::GimbalPose,
            PoseTopic::Odom => Topic::OdomPose,
            PoseTopic::Muzzle => Topic::MuzzlePose,
            PoseTopic::Camera => Topic::CameraPose,
        }
    }

    /// The topic that the pose is published on.
    pub fn topic(self) -> (r: Topic)
        ensures
            r == self.topic_spec(),
    {
        match self {
            PoseTopic::Gimbal => Topic::GimbalPose,
            PoseTopic::Odom => Topic::OdomPose,
            PoseTopic::Muzzle => Topic::MuzzlePose,
            PoseTopic::Camera => Topic::CameraPose,
        }
    }
}

/// A pose that is published outside the tree, without its stamp.
#[derive(Debug)]
pub struct WorldPose {
    pub frame_id: String,
    pub source: FrameSource,
    pub pose_topic: PoseTopic,
}

/// The gimbal's pose in the world, by which a solver aims. It is no part of the tree, in which the
/// gimbal hangs under the chassis and turns with it.
pub fn gimbal_pose() -> (r: WorldPose)
    ensures
        r.frame_id@ == "odom"@,
        r.source == FrameSource::GimbalInWorld,
        r.pose_topic == PoseTopic::Gimbal,
{
    WorldPose {
        frame_id: "odom".to_owned(),
        source: FrameSource::GimbalInWorld,
        pose_topic: PoseTopic::Gimbal,
    }
}

/// An edge of the tree.
#[derive(Debug)]
pub struct TfEdge {
    pub parent: String,
    pub child: String,
    pub source: FrameSource,
    pub pose_topic: Option<PoseTopic>,
}

/// What an edge says.
pub ghost struct EdgeModel {
    pub parent: Seq<char>,
    pub child: Seq<char>,
    pub source: FrameSource,
    pub pose_topic: Option<PoseTopic>,
}

impl View for TfEdge {
    type V = EdgeModel;

    open spec fn view(&self) -> EdgeModel {
        EdgeModel {
            parent: self.parent@,
            child: self.child@,
            source: self.source,
            pose_topic: self.pose_topic,
        }
    }
}

/// What a list of edges says.
pub open spec fn edge_models(edges: Seq<TfEdge>) -> Seq<EdgeModel> {
    edges.map_values(|edge: TfEdge| edge@)
}

/// A power rune: its entity and the name of its mode.
#[derive(Debug)]
pub struct RuneFrame {
    pub entity: EntityId,
    pub mode: String,
}

/// A target of a power rune: the rune's entity, the target's object name and its index as text.
#[derive(Debug)]
pub struct TargetFrame {
    pub rune: EntityId,
    pub name: String,
    pub target: String,
}

/// The frame of a rune.
pub open spec fn rune_name_spec(mode: Seq<char>) -> Seq<char> {
    crate::text::lowered("power_rune_"@ + mode)
}

/// The frame of a rune's target.
pub open spec fn target_name_spec(mode: Seq<char>, target: Seq<char>) -> Seq<char> {
    crate::text::lowered("power_rune_"@ + mode + "_"@ + target)
}

/// The frame of an armor.
pub open spec fn armor_name_spec(id: nat) -> Seq<char> {
    "armor_"@ + crate::text::decimal(id)
}

pub fn rune_name(mode: &str) -> (r: String)
    ensures
        r@ == rune_name_spec(mode@),
{
    let name: String = joined("power_rune_", mode);
    to_ascii_lowercase(name.as_str())
}

pub fn target_name(mode: &str, target: &str) -> (r: String)
    ensures
        r@ == target_name_spec(mode@, target@),
{
    let mut name: String = joined("power_rune_", mode);
    name.append("_");
    name.append(target);
    to_ascii_lowercase(name.as_str())
}

pub fn armor_name(id: usize) -> (r: String)
    ensures
        r@ == armor_name_spec(id as nat),
{
    let mut name: String = "armor_".to_owned();
    push_decimal(&mut name, id as u64);
    name
}

/// Whether a target belongs to a rune and is one that is shown: of each target only the activated
/// object is.
pub open spec fn target_of(target: TargetFrame, rune: EntityId) -> bool {
    target.rune == rune && crate::text::contains_spec(target.name@, "_ACTIVATED"@)
}

pub open spec fn edge(
    parent: Seq<char>,
    child: Seq<char>,
    source: FrameSource,
    pose_topic: Option<PoseTopic>,
) -> EdgeModel {
    EdgeModel { parent, child, source, pose_topic }
}

/// The edges of the robot. They hang under the odometry frame, which is a root: its place in the
/// map is for others to find out.
pub open spec fn robot_edges() -> Seq<EdgeModel> {
    seq![
        edge("odom"@, "base_link"@, FrameSource::Chassis, Some(PoseTopic::Odom)),
        edge("base_link"@, "gimbal_link"@, FrameSource::GimbalInChassis, None),
        edge("gimbal_link"@, "muzzle"@, FrameSource::MuzzleInGimbal, None),
        edge("muzzle"@, "muzzle_link"@, FrameSource::Identity, Some(PoseTopic::Muzzle)),
        edge("gimbal_link"@, "camera_link"@, FrameSource::CameraInGimbal, Some(PoseTopic::Camera)),
        edge("camera_link"@, "camera_optical_frame"@, FrameSource::OpticalTurn, None),
    ]
}

/// The edges of the first `n` targets that belong to a rune.
pub open spec fn target_edges(rune: RuneFrame, targets: Seq<TargetFrame>, n: int) -> Seq<EdgeModel>
    decreases n,
{
    if n <= 0 {
        Seq::empty()
    } else {
        let before = target_edges(rune, targets, n - 1);
        if target_of(targets[n - 1], rune.entity) {
            before.push(
                edge(
                    rune_name_spec(rune.mode@),
                    target_name_spec(rune.mode@, targets[n - 1].target@),
                    FrameSource::Target((n - 1) as usize),
                    None,
                ),
            )
        } else {
            before
        }
    }
}

/// The edges of the first `n` runes, each followed by those of its targets.
pub open spec fn rune_edges(runes: Seq<RuneFrame>, targets: Seq<TargetFrame>, n: int) -> Seq<
    EdgeModel,
>
    decreases n,
{
    if n <= 0 {
        Seq::empty()
    } else {
        rune_edges(runes, targets, n - 1).push(
            edge(
                "map"@,
                rune_name_spec(runes[n - 1].mode@),
                FrameSource::Rune((n - 1) as usize),
                None,
            ),
        ) + target_edges(runes[n - 1], targets, targets.len() as int)
    }
}

/// The edges of the armors.
pub open spec fn armor_edges(armors: Seq<usize>) -> Seq<EdgeModel> {
    Seq::new(
        armors.len(),
        |i: int|
            edge("map"@, armor_name_spec(armors[i] as nat), FrameSource::Armor(i as usize), None),
    )
}

/// The whole tree: the robot under the odometry frame, runes and armors under the map.
pub open spec fn tree_edges(
    runes: Seq<RuneFrame>,
    targets: Seq<TargetFrame>,
    armors: Seq<usize>,
) -> Seq<EdgeModel> {
    robot_edges() + rune_edges(runes, targets, runes.len() as int) + armor_edges(armors)
}

fn push_edge(
    edges: &mut Vec<TfEdge>,
    parent: &str,
    child: &str,
    source: FrameSource,
    pose_topic: Option<PoseTopic>,
)
    ensures
        edge_models(final(edges)@) == edge_models(old(edges)@).push(
            edge(parent@, child@, source, pose_topic),
        ),
{
    edges.push(
        TfEdge { parent: parent.to_owned(), child: child.to_owned(), source, pose_topic },
    );
    proof {
        assert(edge_models(edges@) =~= edge_models(old(edges)@).push(
            edge(parent@, child@, source, pose_topic),
        ));
    }
}

fn push_robot_edges(edges: &mut Vec<TfEdge>)
    ensures
        edge_models(final(edges)@) == edge_models(old(edges)@) + robot_edges(),
{
    push_edge(edges, "odom", "base_link", FrameSource::Chassis, Some(PoseTopic::Odom));
    push_edge(edges, "base_link", "gimbal_link", FrameSource::GimbalInChassis, None);
    push_edge(edges, "gimbal_link", "muzzle", FrameSource::MuzzleInGimbal, None);
    push_edge(edges, "muzzle", "muzzle_link", FrameSource::Identity, Some(PoseTopic::Muzzle));
    push_edge(
        edges,
        "gimbal_link",
        "camera_link",
        FrameSource::CameraInGimbal,
        Some(PoseTopic::Camera),
    );
    push_edge(edges, "camera_link", "camera_optical_frame", FrameSource::OpticalTurn, None);
    proof {
        assert(edge_models(edges@) =~= edge_models(old(edges)@) + robot_edges());
    }
}

fn push_target_edges(edges: &mut Vec<TfEdge>, rune: &RuneFrame, targets: &Vec<TargetFrame>)
    ensures
        edge_models(final(edges)@) == edge_models(old(edges)@) + target_edges(
            *rune,
            targets@,
            targets@.len() as int,
        ),
{
    let ghost before = edge_models(edges@);
    let parent: String = rune_name(rune.mode.as_str());
    let mut i: usize = 0;
    while i < targets.len()
        invariant
            i <= targets@.len(),
            parent@ == rune_name_spec(rune.mode@),
            edge_models(edges@) =~= before + target_edges(*rune, targets@, i as int),
        decreases targets@.len() - i,
    {
        let target: &TargetFrame = &targets[i];
        if target.rune == rune.entity && contains(target.name.as_str(), "_ACTIVATED") {
            let child: String = target_name(rune.mode.as_str(), target.target.as_str());
            push_edge(edges, parent.as_str(), child.as_str(), FrameSource::Target(i), None);
        }
        i = i + 1;
    }
}

/// The edges of the transform tree.
pub fn transform_tree(
    runes: &Vec<RuneFrame>,
    targets: &Vec<TargetFrame>,
    armors: &Vec<usize>,
) -> (r: Vec<TfEdge>)
    ensures
        edge_models(r@) == tree_edges(runes@, targets@, armors@),
{
    let mut edges: Vec<TfEdge> = Vec::new();
    push_robot_edges(&mut edges);
    proof {
        assert(edge_models(edges@) =~= robot_edges() + rune_edges(runes@, targets@, 0));
    }
    let mut i: usize = 0;
    while i < runes.len()
        invariant
            i <= runes@.len(),
            edge_models(edges@) == robot_edges() + rune_edges(runes@, targets@, i as int),
        decreases runes@.len() - i,
    {
        let rune: &RuneFrame = &runes[i];
        let name: String = rune_name(rune.mode.as_str());
        push_edge(&mut edges, "map", name.as_str(), FrameSource::Rune(i), None);
        push_target_edges(&mut edges, rune, targets);
        proof {
            assert(edge_models(edges@) =~= robot_edges() + rune_edges(runes@, targets@, i + 1));
        }
        i = i + 1;
    }
    let ghost before = edge_models(edges@);
    let mut j: usize = 0;
    while j < armors.len()
        invariant
            j <= armors@.len(),
            edge_models(edges@) =~= before + armor_edges(armors@).take(j as int),
        decreases armors@.len() - j,
    {
        let name: String = armor_name(armors[j]);
        push_edge(&mut edges, "map", name.as_str(), FrameSource::Armor(j), None);
        j = j + 1;
    }
    proof {
        assert(armor_edges(armors@).take(j as int) =~= armor_edges(armors@));
    }
    edges
}

/// How long the marker of an armor stays, in nanoseconds.
pub const MARKER_LIFETIME_NS: u32 = 300_000_000;

/// A box that stands for an armor, without its stamp and pose. Lengths are in thousandths of a
/// meter, and each color channel is off or full.
#[derive(Debug)]
pub struct ArmorMarker {
    pub frame_id: String,
    pub ns: String,
    pub id: i32,
    pub lifetime_sec: i32,
    pub lifetime_nanosec: u32,
    pub scale_mm: (u32, u32, u32),
    pub color: (bool, bool, bool, bool),
    /// The armor's place in the list.
    pub armor: usize,
}

impl ArmorMarker {
    /// Whether this is the marker of the armor at a place of the list: an invisible green box in
    /// the map, under the armor's number.
    pub open spec fn stands_for(self, armors: Seq<usize>, at: int) -> bool {
        &&& self.frame_id@ == "map"@
        &&& self.ns@ == "armors"@
        &&& self.id == armors[at] as i32
        &&& self.lifetime_sec == 0
        &&& self.lifetime_nanosec == MARKER_LIFETIME_NS
        &&& self.scale_mm == (30u32, 150u32, 125u32)
        &&& self.color == (false, true, false, false)
        &&& self.armor == at
    }
}

/// The markers of the armors, one for each, in their order. Numbers beyond those of the message
/// wrap around.
pub fn armor_markers(armors: &Vec<usize>) -> (r: Vec<ArmorMarker>)
    ensures
        r@.len() == armors@.len(),
        forall|i: int| 0 <= i < r@.len() ==> (#[trigger] r@[i]).stands_for(armors@, i),
{
    let mut markers: Vec<ArmorMarker> = Vec::new();
    let mut i: usize = 0;
    while i < armors.len()
        invariant
            i <= armors@.len(),
            markers@.len() == i,
            forall|k: int| 0 <= k < i ==> (#[trigger] markers@[k]).stands_for(armors@, k),
        decreases armors@.len() - i,
    {
        markers.push(
            ArmorMarker {
                frame_id: "map".to_owned(),
                ns: "armors".to_owned(),
                id: #[verifier::truncate] (armors[i] as i32),
                lifetime_sec: 0,
                lifetime_nanosec: MARKER_LIFETIME_NS,
                scale_mm: (30, 150, 125),
                color: (false, true, false, false),
                armor: i,
            },
        );
        i = i + 1;
    }
    markers
}

/// Whether a frame is one of the two roots.
pub open spec fn is_root(frame: Seq<char>) -> bool {
    frame == "odom"@ || frame == "map"@
}

/// Whether every parent is a root or the child of an earlier edge.
pub open spec fn hangs_together(edges: Seq<EdgeModel>) -> bool {
    forall|i: int|
        0 <= i < edges.len() ==> is_root(#[trigger] edges[i].parent) || exists|j: int|
            0 <= j < i && #[trigger] edges[j].child == edges[i].parent
}

proof fn lemma_targets_hang(
    before: Seq<EdgeModel>,
    rune: RuneFrame,
    targets: Seq<TargetFrame>,
    n: int,
)
    requires
        hangs_together(before),
        before.len() > 0,
        before.last().child == rune_name_spec(rune.mode@),
    ensures
        hangs_together(before + target_edges(rune, targets, n)),
    decreases n,
{
    if n <= 0 {
        assert(before + target_edges(rune, targets, n) =~= before);
    } else {
        lemma_targets_hang(before, rune, targets, n - 1);
        if target_of(targets[n - 1], rune.entity) {
            let earlier = before + target_edges(rune, targets, n - 1);
            let last = target_edges(rune, targets, n).last();
            assert(before + target_edges(rune, targets, n) =~= earlier.push(last));
            let at = before.len() - 1;
            assert(earlier.push(last)[at].child == last.parent);
            lemma_hang_push(earlier, last, at as int);
        }
    }
}

proof fn lemma_hang_push(edges: Seq<EdgeModel>, last: EdgeModel, at: int)
    requires
        hangs_together(edges),
        is_root(last.parent) || (0 <= at < edges.len() && edges[at].child == last.parent),
    ensures
        hangs_together(edges.push(last)),
{
    let longer = edges.push(last);
    assert forall|i: int| 0 <= i < longer.len() implies is_root(#[trigger] longer[i].parent)
        || exists|j: int| 0 <= j < i && #[trigger] longer[j].child == longer[i].parent by {
        if i < edges.len() {
            assert(longer[i] == edges[i]);
            if !is_root(edges[i].parent) {
                let j = choose|j: int|
                    0 <= j < i && #[trigger] edges[j].child == edges[i].parent;
                assert(longer[j].child == longer[i].parent);
            }
        } else if !is_root(last.parent) {
            assert(longer[at].child == longer[i].parent);
        }
    }
}

proof fn lemma_runes_hang(runes: Seq<RuneFrame>, targets: Seq<TargetFrame>, n: int)
    requires
        n <= runes.len(),
    ensures
        hangs_together(robot_edges() + rune_edges(runes, targets, n)),
    decreases n,
{
    if n <= 0 {
        let edges = robot_edges();
        assert(edges + rune_edges(runes, targets, n) =~= edges);
        assert(edges[0].child == edges[1].parent);
        assert(edges[1].child == edges[2].parent);
        assert(edges[2].child == edges[3].parent);
        assert(edges[1].child == edges[4].parent);
        assert(edges[4].child == edges[5].parent);
    } else {
        lemma_runes_hang(runes, targets, n - 1);
        let before = robot_edges() + rune_edges(runes, targets, n - 1);
        let rune = edge(
            "map"@,
            rune_name_spec(runes[n - 1].mode@),
            FrameSource::Rune((n - 1) as usize),
            None,
        );
        lemma_hang_push(before, rune, 0);
        lemma_targets_hang(before.push(rune), runes[n - 1], targets, targets.len() as int);
        assert(robot_edges() + rune_edges(runes, targets, n) =~= before.push(rune) + target_edges(
            runes[n - 1],
            targets,
            targets.len() as int,
        ));
    }
}

/// The tree hangs together: every frame is reached from one of the two roots, whatever runes,
/// targets and armors there are, and its parent comes before it.
pub proof fn law_every_frame_hangs_under_a_root(
    runes: Seq<RuneFrame>,
    targets: Seq<TargetFrame>,
    armors: Seq<usize>,
)
    ensures
        hangs_together(tree_edges(runes, targets, armors)),
{
    lemma_runes_hang(runes, targets, runes.len() as int);
    let before = robot_edges() + rune_edges(runes, targets, runes.len() as int);
    lemma_armors_hang(before, armors, armors.len() as int);
    assert(armor_edges(armors).take(armors.len() as int) =~= armor_edges(armors));
}

proof fn lemma_armors_hang(before: Seq<EdgeModel>, armors: Seq<usize>, n: int)
    requires
        0 <= n <= armors.len(),
        hangs_together(before),
    ensures
        hangs_together(before + armor_edges(armors).take(n)),
    decreases n,
{
    if n == 0 {
        assert(before + armor_edges(armors).take(0) =~= before);
    } else {
        lemma_armors_hang(before, armors, n - 1);
        let last = armor_edges(armors)[n - 1];
        lemma_hang_push(before + armor_edges(armors).take(n - 1), last, 0);
        assert(before + armor_edges(armors).take(n) =~= (before + armor_edges(armors).take(
            n - 1,
        )).push(last));
    }
}

/// The frames that carry a pose topic of their own are the chassis, the muzzle and the camera, each
/// once.
pub proof fn law_pose_topics_of_the_tree(
    runes: Seq<RuneFrame>,
    targets: Seq<TargetFrame>,
    armors: Seq<usize>,
    i: int,
)
    requires
        0 <= i < tree_edges(runes, targets, armors).len(),
    ensures
        tree_edges(runes, targets, armors)[i].pose_topic == (if i == 0 {
            Some(PoseTopic::Odom)
        } else if i == 3 {
            Some(PoseTopic::Muzzle)
        } else if i == 4 {
            Some(PoseTopic::Camera)
        } else {
            None
        }),
{
    lemma_runes_without_topic(runes, targets, runes.len() as int);
}

/// The gimbal's pose in the world stays outside the tree: no edge has it, and no edge carries its
/// topic.
pub proof fn law_gimbal_pose_is_outside_the_tree(
    runes: Seq<RuneFrame>,
    targets: Seq<TargetFrame>,
    armors: Seq<usize>,
    i: int,
)
    requires
        0 <= i < tree_edges(runes, targets, armors).len(),
    ensures
        tree_edges(runes, targets, armors)[i].source !is GimbalInWorld,
        tree_edges(runes, targets, armors)[i].pose_topic != Some(PoseTopic::Gimbal),
{
    lemma_runes_without_topic(runes, targets, runes.len() as int);
}

proof fn lemma_targets_without_topic(rune: RuneFrame, targets: Seq<TargetFrame>, n: int)
    ensures
        forall|i: int|
            0 <= i < target_edges(rune, targets, n).len() ==> {
                &&& (#[trigger] target_edges(rune, targets, n)[i]).pose_topic is None
                &&& target_edges(rune, targets, n)[i].source !is GimbalInWorld
            },
    decreases n,
{
    if n > 0 {
        lemma_targets_without_topic(rune, targets, n - 1);
    }
}

proof fn lemma_runes_without_topic(runes: Seq<RuneFrame>, targets: Seq<TargetFrame>, n: int)
    ensures
        forall|i: int|
            0 <= i < rune_edges(runes, targets, n).len() ==> {
                &&& (#[trigger] rune_edges(runes, targets, n)[i]).pose_topic is None
                &&& rune_edges(runes, targets, n)[i].source !is GimbalInWorld
            },
    decreases n,
{
    if n > 0 {
        lemma_runes_without_topic(runes, targets, n - 1);
        lemma_targets_without_topic(runes[n - 1], targets, targets.len() as int);
    }
}

proof fn lemma_in_edge_push(edges: Seq<EdgeModel>, last: EdgeModel, e: EdgeModel)
    ensures
        edges.push(last).contains(e) <==> edges.contains(e) || e == last,
{
    let all = edges.push(last);
    if edges.contains(e) {
        let i = choose|i: int| 0 <= i < edges.len() && edges[i] == e;
        assert(all[i] == e);
    }
    if e == last {
        assert(all[edges.len() as int] == e);
    }
    if all.contains(e) && e != last {
        let i = choose|i: int| 0 <= i < all.len() && all[i] == e;
        assert(edges[i] == e);
    }
}

proof fn lemma_in_edge_sum(first: Seq<EdgeModel>, second: Seq<EdgeModel>, e: EdgeModel)
    ensures
        (first + second).contains(e) <==> first.contains(e) || second.contains(e),
{
    let all = first + second;
    if first.contains(e) {
        let i = choose|i: int| 0 <= i < first.len() && first[i] == e;
        assert(all[i] == e);
    }
    if second.contains(e) {
        let i = choose|i: int| 0 <= i < second.len() && second[i] == e;
        assert(all[first.len() + i] == e);
    }
    if all.contains(e) {
        let i = choose|i: int| 0 <= i < all.len() && all[i] == e;
        if i < first.len() {
            assert(first[i] == e);
        } else {
            assert(second[i - first.len()] == e);
        }
    }
}

proof fn lemma_robot_edges(e: EdgeModel)
    ensures
        robot_edges().contains(e) <==> match e.source {
            FrameSource::Chassis => e == edge(
                "odom"@,
                "base_link"@,
                FrameSource::Chassis,
                Some(PoseTopic::Odom),
            ),
            FrameSource::GimbalInChassis => e == edge(
                "base_link"@,
                "gimbal_link"@,
                FrameSource::GimbalInChassis,
                None,
            ),
            FrameSource::MuzzleInGimbal => e == edge(
                "gimbal_link"@,
                "muzzle"@,
                FrameSource::MuzzleInGimbal,
                None,
            ),
            FrameSource::Identity => e == edge(
                "muzzle"@,
                "muzzle_link"@,
                FrameSource::Identity,
                Some(PoseTopic::Muzzle),
            ),
            FrameSource::CameraInGimbal => e == edge(
                "gimbal_link"@,
                "camera_link"@,
                FrameSource::CameraInGimbal,
                Some(PoseTopic::Camera),
            ),
            FrameSource::OpticalTurn => e == edge(
                "camera_link"@,
                "camera_optical_frame"@,
                FrameSource::OpticalTurn,
                None,
            ),
            _ => false,
        },
{
    let edges = robot_edges();
    if robot_edges().contains(e) {
        let i = choose|i: int| 0 <= i < edges.len() && edges[i] == e;
        assert(i == 0 || i == 1 || i == 2 || i == 3 || i == 4 || i == 5);
    }
    assert(edges.contains(edges[0]));
    assert(edges.contains(edges[1]));
    assert(edges.contains(edges[2]));
    assert(edges.contains(edges[3]));
    assert(edges.contains(edges[4]));
    assert(edges.contains(edges[5]));
}

proof fn lemma_target_edges(rune: RuneFrame, targets: Seq<TargetFrame>, n: int, e: EdgeModel)
    requires
        0 <= n <= targets.len() <= usize::MAX,
    ensures
        target_edges(rune, targets, n).contains(e) <==> (e.source matches FrameSource::Target(t) && t
            < n && targets[t as int].rune == rune.entity && crate::text::contains_spec(
            targets[t as int].name@,
            "_ACTIVATED"@,
        ) && e.pose_topic is None && e.parent == crate::text::lowered("power_rune_"@ + rune.mode@)
            && e.child == crate::text::lowered(
            "power_rune_"@ + rune.mode@ + "_"@ + targets[t as int].target@,
        )),
    decreases n,
{
    if n > 0 {
        lemma_target_edges(rune, targets, n - 1, e);
        let last = edge(
            rune_name_spec(rune.mode@),
            target_name_spec(rune.mode@, targets[n - 1].target@),
            FrameSource::Target((n - 1) as usize),
            None,
        );
        lemma_in_edge_push(target_edges(rune, targets, n - 1), last, e);
    }
}

/// Whether a frame stands for one of the first `n` runes, or for a target of one of them.
pub open spec fn stands_in_a_rune(
    runes: Seq<RuneFrame>,
    targets: Seq<TargetFrame>,
    n: int,
    e: EdgeModel,
) -> bool {
    match e.source {
        FrameSource::Rune(r) => {
            &&& r < n
            &&& e.parent == "map"@
            &&& e.child == crate::text::lowered("power_rune_"@ + runes[r as int].mode@)
            &&& e.pose_topic is None
        },
        FrameSource::Target(t) => {
            &&& t < targets.len()
            &&& crate::text::contains_spec(targets[t as int].name@, "_ACTIVATED"@)
            &&& e.pose_topic is None
            &&& exists|r: int|
                0 <= r < n && (#[trigger] runes[r]).entity == targets[t as int].rune && e.parent
                    == crate::text::lowered("power_rune_"@ + runes[r].mode@) && e.child
                    == crate::text::lowered(
                    "power_rune_"@ + runes[r].mode@ + "_"@ + targets[t as int].target@,
                )
        },
        _ => false,
    }
}

proof fn lemma_rune_edges(runes: Seq<RuneFrame>, targets: Seq<TargetFrame>, n: int, e: EdgeModel)
    requires
        0 <= n <= runes.len() <= usize::MAX,
        targets.len() <= usize::MAX,
    ensures
        rune_edges(runes, targets, n).contains(e) <==> stands_in_a_rune(runes, targets, n, e),
    decreases n,
{
    if n > 0 {
        lemma_rune_edges(runes, targets, n - 1, e);
        let rune = edge(
            "map"@,
            rune_name_spec(runes[n - 1].mode@),
            FrameSource::Rune((n - 1) as usize),
            None,
        );
        let before = rune_edges(runes, targets, n - 1);
        lemma_in_edge_push(before, rune, e);
        lemma_in_edge_sum(
            before.push(rune),
            target_edges(runes[n - 1], targets, targets.len() as int),
            e,
        );
        lemma_target_edges(runes[n - 1], targets, targets.len() as int, e);
        if stands_in_a_rune(runes, targets, n - 1, e) && e.source is Target {
            let t = e.source->Target_0 as int;
            let r = choose|r: int|
                0 <= r < n - 1 && (#[trigger] runes[r]).entity == targets[t].rune && e.parent
                    == crate::text::lowered("power_rune_"@ + runes[r].mode@) && e.child
                    == crate::text::lowered(
                    "power_rune_"@ + runes[r].mode@ + "_"@ + targets[t].target@,
                );
            assert(runes[r].entity == targets[t].rune);
        }
        if stands_in_a_rune(runes, targets, n, e) && e.source is Target {
            let t = e.source->Target_0 as int;
            let r = choose|r: int|
                0 <= r < n && (#[trigger] runes[r]).entity == targets[t].rune && e.parent
                    == crate::text::lowered("power_rune_"@ + runes[r].mode@) && e.child
                    == crate::text::lowered(
                    "power_rune_"@ + runes[r].mode@ + "_"@ + targets[t].target@,
                );
            if r < n - 1 {
                assert(stands_in_a_rune(runes, targets, n - 1, e));
            } else {
                assert(runes[n - 1].entity == targets[t].rune);
            }
        }
    }
}

/// Every frame of the tree, by where its pose comes from, and nothing else. The chassis moves in the
/// odometry frame and carries the gimbal, which carries muzzle and camera; runes and armors lie in
/// the map; a target hangs under the rune that it belongs to, and only the activated objects of it
/// are shown.
pub proof fn law_frames_of_the_tree(
    runes: Seq<RuneFrame>,
    targets: Seq<TargetFrame>,
    armors: Seq<usize>,
    e: EdgeModel,
)
    requires
        runes.len() <= usize::MAX,
        targets.len() <= usize::MAX,
        armors.len() <= usize::MAX,
    ensures
        tree_edges(runes, targets, armors).contains(e) <==> match e.source {
            FrameSource::Chassis => e.parent == "odom"@ && e.child == "base_link"@ && e.pose_topic
                == Some(PoseTopic::Odom),
            FrameSource::GimbalInWorld => false,
            FrameSource::GimbalInChassis => e.parent == "base_link"@ && e.child == "gimbal_link"@
                && e.pose_topic is None,
            FrameSource::MuzzleInGimbal => e.parent == "gimbal_link"@ && e.child == "muzzle"@
                && e.pose_topic is None,
            FrameSource::CameraInGimbal => e.parent == "gimbal_link"@ && e.child == "camera_link"@
                && e.pose_topic == Some(PoseTopic::Camera),
            FrameSource::Identity => e.parent == "muzzle"@ && e.child == "muzzle_link"@
                && e.pose_topic == Some(PoseTopic::Muzzle),
            FrameSource::OpticalTurn => e.parent == "camera_link"@ && e.child
                == "camera_optical_frame"@ && e.pose_topic is None,
            FrameSource::Rune(r) => r < runes.len() && e.parent == "map"@ && e.child
                == crate::text::lowered("power_rune_"@ + runes[r as int].mode@)
                && e.pose_topic is None,
            FrameSource::Target(t) => {
                &&& t < targets.len()
                &&& crate::text::contains_spec(targets[t as int].name@, "_ACTIVATED"@)
                &&& e.pose_topic is None
                &&& exists|r: int|
                    0 <= r < runes.len() && (#[trigger] runes[r]).entity == targets[t as int].rune
                        && e.parent == crate::text::lowered("power_rune_"@ + runes[r].mode@)
                        && e.child == crate::text::lowered(
                        "power_rune_"@ + runes[r].mode@ + "_"@ + targets[t as int].target@,
                    )
            },
            FrameSource::Armor(a) => a < armors.len() && e.parent == "map"@ && e.child == "armor_"@
                + crate::text::decimal(armors[a as int] as nat) && e.pose_topic is None,
        },
{
    let robot = robot_edges();
    let runed = rune_edges(runes, targets, runes.len() as int);
    let armored = armor_edges(armors);
    lemma_in_edge_sum(robot + runed, armored, e);
    lemma_in_edge_sum(robot, runed, e);
    lemma_robot_edges(e);
    lemma_rune_edges(runes, targets, runes.len() as int, e);
    if armored.contains(e) {
        let a = choose|a: int| 0 <= a < armored.len() && armored[a] == e;
        assert(e.source == FrameSource::Armor(a as usize));
    }
    if e.source is Armor {
        let a = e.source->Armor_0 as int;
        if a < armors.len() {
            assert(armored.contains(armored[a]));
        }
    }
}

/// In every tree, the name of a frame of the robot says where its pose comes from: the base link is
/// the chassis, the gimbal link the gimbal in the chassis, the muzzle the muzzle's place in the
/// gimbal and the camera link the camera's; the muzzle link is the muzzle itself, and the optical
/// frame is the camera link turned. There is one of each.
pub proof fn law_pose_source_by_child_name(
    runes: Seq<RuneFrame>,
    targets: Seq<TargetFrame>,
    armors: Seq<usize>,
    i: int,
)
    requires
        runes.len() <= usize::MAX,
        targets.len() <= usize::MAX,
        armors.len() <= usize::MAX,
        0 <= i < tree_edges(runes, targets, armors).len(),
    ensures
        ({
            let e = tree_edges(runes, targets, armors)[i];
            &&& e.child == "base_link"@ <==> e.source == FrameSource::Chassis
            &&& e.child == "gimbal_link"@ <==> e.source == FrameSource::GimbalInChassis
            &&& e.child == "muzzle"@ <==> e.source == FrameSource::MuzzleInGimbal
            &&& e.child == "camera_link"@ <==> e.source == FrameSource::CameraInGimbal
            &&& e.child == "muzzle_link"@ <==> e.source == FrameSource::Identity
            &&& e.child == "camera_optical_frame"@ <==> e.source == FrameSource::OpticalTurn
        }),
{
    let edges = tree_edges(runes, targets, armors);
    let e = edges[i];
    assert(edges.contains(e));
    law_frames_of_the_tree(runes, targets, armors, e);
    reveal_strlit("base_link");
    reveal_strlit("gimbal_link");
    reveal_strlit("muzzle");
    reveal_strlit("camera_link");
    reveal_strlit("muzzle_link");
    reveal_strlit("camera_optical_frame");
    reveal_strlit("power_rune_");
    reveal_strlit("armor_");
    assert("base_link"@[0] == 'b');
    assert("gimbal_link"@[0] == 'g');
    assert("muzzle"@[0] == 'm');
    assert("camera_link"@[0] == 'c');
    assert("muzzle_link"@[0] == 'm');
    assert("camera_optical_frame"@[0] == 'c');
    assert("muzzle"@.len() < "muzzle_link"@.len());
    assert("camera_link"@.len() < "camera_optical_frame"@.len());
    match e.source {
        FrameSource::Rune(r) => {
            assert(e.child[0] == 'p');
        },
        FrameSource::Target(t) => {
            assert(e.child[0] == 'p');
        },
        FrameSource::Armor(a) => {
            assert(e.child[0] == 'a');
        },
        _ => {},
    }
}

/// Each frame of the robot is there, in every tree.
pub proof fn law_the_robot_is_in_every_tree(
    runes: Seq<RuneFrame>,
    targets: Seq<TargetFrame>,
    armors: Seq<usize>,
    source: FrameSource,
)
    requires
        runes.len() <= usize::MAX,
        targets.len() <= usize::MAX,
        armors.len() <= usize::MAX,
        source is Chassis || source is GimbalInChassis || source is MuzzleInGimbal
            || source is CameraInGimbal || source is Identity || source is OpticalTurn,
    ensures
        exists|i: int|
            0 <= i < tree_edges(runes, targets, armors).len() && (#[trigger] tree_edges(
                runes,
                targets,
                armors,
            )[i]).source == source,
{
    let edges = tree_edges(runes, targets, armors);
    let e = match source {
        FrameSource::Chassis => edge("odom"@, "base_link"@, source, Some(PoseTopic::Odom)),
        FrameSource::GimbalInChassis => edge("base_link"@, "gimbal_link"@, source, None),
        FrameSource::MuzzleInGimbal => edge("gimbal_link"@, "muzzle"@, source, None),
        FrameSource::CameraInGimbal => edge(
            "gimbal_link"@,
            "camera_link"@,
            source,
            Some(PoseTopic::Camera),
        ),
        FrameSource::Identity => edge("muzzle"@, "muzzle_link"@, source, Some(PoseTopic::Muzzle)),
        _ => edge("camera_link"@, "camera_optical_frame"@, source, None),
    };
    law_frames_of_the_tree(runes, targets, armors, e);
    let i = choose|i: int| 0 <= i < edges.len() && edges[i] == e;
    assert(edges[i].source == source);
}

/// The poses that have a topic of their own, and its name.
pub proof fn law_topics_of_the_poses(pose: PoseTopic)
    ensures
        pose.topic_spec().url_spec() == (match pose {
            PoseTopic::Gimbal => "/gimbal_pose"@,
            PoseTopic::Odom => "/odom_pose"@,
            PoseTopic::Muzzle => "/muzzle_pose"@,
            PoseTopic::Camera => "/camera_pose"@,
        }),
{
}

/// The marker of an armor is a box in the map under the armor's number, thirty by a hundred and fifty
/// by a hundred and twenty-five millimeters, green and transparent, and lasts for three tenths of a
/// second.
pub proof fn law_what_a_marker_looks_like(marker: ArmorMarker, armors: Seq<usize>, at: int)
    requires
        marker.stands_for(armors, at),
        0 <= at < armors.len(),
        armors[at] <= i32::MAX,
    ensures
        marker.frame_id@ == "map"@,
        marker.ns@ == "armors"@,
        marker.id == armors[at],
        marker.armor == at,
        marker.lifetime_sec == 0,
        marker.lifetime_nanosec == 300_000_000,
        marker.scale_mm.0 == 30,
        marker.scale_mm.1 == 150,
        marker.scale_mm.2 == 125,
        !marker.color.0,
        marker.color.1,
        !marker.color.2,
        !marker.color.3,
{
}

} // verus!
