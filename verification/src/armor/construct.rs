//! Putting a loaded armor plate together: which of its objects become what.
use crate::armor::plate::{ArmorId, ArmorLabel, ArmorRoot, Side};
use crate::hierarchy::{find, find_below, is_named, is_under, SceneNode};
use crate::tech_core::program::Team;
use crate::text::contains;
use vstd::prelude::*;
use vstd::string::*;

verus! {

/// A sticker that a plate of a kind has.
#[derive(Debug)]
pub struct StickerSlot {
    pub name_suffix: String,
    pub label: ArmorLabel,
}

/// A step of putting a plate together. Objects are named by their place.
#[derive(Debug, Clone, Copy, PartialEq, Eq, Structural)]
pub enum ArmorCommand {
    /// The object and what is below it can be hit.
    AddCollider(usize),
    /// The object belongs to the plate.
    Tag(usize),
    /// The object, a light of the other team, goes away.
    Despawn(usize),
    /// The object is a light strip.
    Strip { node: usize, side: Side, visibility_id: u32 },
    /// The object is the marker; it is hidden.
    Marker(usize),
    /// The object holds the corners of one side; it is hidden.
    Vertex { node: usize, side: Side },
    /// The object is hidden.
    Hide(usize),
    /// The object is a sticker, shown or hidden.
    Sticker { node: usize, label: ArmorLabel, visible: bool },
    /// The root belongs to the plate.
    TagRoot,
    /// The hit face is derived from the corners.
    DeriveFrame { armor: usize, marker: usize, left: usize, right: usize },
    /// The hit face cannot be derived; hits count unfiltered.
    Unframed,
    /// The root gets its number, its parts and its sticker selection.
    Finish { marker: usize, left: usize, right: usize },
}

/// How putting a plate together ended.
#[derive(Debug, Clone, Copy, PartialEq, Eq, Structural)]
pub enum ArmorBuild {
    Built(ArmorRoot),
    /// A part is missing; what was done up to there stays.
    Incomplete,
    /// The corners of a side have no points.
    NoCorners,
}

/// The named objects among the first `n`, marked as parts of the plate.
pub open spec fn tags(nodes: Seq<SceneNode>, n: int) -> Seq<ArmorCommand>
    decreases n,
{
    if n <= 0 {
        Seq::empty()
    } else if nodes[n - 1].name is Some {
        tags(nodes, n - 1).push(ArmorCommand::Tag((n - 1) as usize))
    } else {
        tags(nodes, n - 1)
    }
}

/// The drawn objects below a light, among the first `n`.
pub open spec fn light_meshes(nodes: Seq<SceneNode>, light: int, n: int) -> Seq<usize>
    decreases n,
{
    if n <= 0 {
        Seq::empty()
    } else if nodes[n - 1].has_mesh && crate::hierarchy::under(nodes, n - 1, light) {
        light_meshes(nodes, light, n - 1).push((n - 1) as usize)
    } else {
        light_meshes(nodes, light, n - 1)
    }
}

/// What was done, and whether nothing was missing.
pub ghost struct Stage {
    pub commands: Seq<ArmorCommand>,
    pub complete: bool,
}

/// The first `n` meshes of a light as strips, up to the first without triangles.
pub open spec fn strips(
    nodes: Seq<SceneNode>,
    meshes: Seq<usize>,
    side: Side,
    visibility_id: u32,
    n: int,
) -> Stage
    decreases n,
{
    if n <= 0 {
        Stage { commands: Seq::empty(), complete: true }
    } else {
        let before = strips(nodes, meshes, side, visibility_id, n - 1);
        if !before.complete {
            before
        } else if nodes[meshes[n - 1] as int].has_triangles {
            Stage {
                commands: before.commands.push(
                    ArmorCommand::Strip { node: meshes[n - 1], side, visibility_id },
                ),
                complete: true,
            }
        } else {
            Stage { commands: before.commands, complete: false }
        }
    }
}

/// Whether an object is below one that holds the stickers.
pub open spec fn in_sticker_group(nodes: Seq<SceneNode>, j: int) -> bool {
    exists|i: int|
        0 <= i < nodes.len() && crate::hierarchy::named(nodes[i], "_C"@)
            && #[trigger] crate::hierarchy::under(nodes, j, i)
}

/// The objects below one that holds the stickers, hidden, among the first `n`.
pub open spec fn hidden(nodes: Seq<SceneNode>, n: int) -> Seq<ArmorCommand>
    decreases n,
{
    if n <= 0 {
        Seq::empty()
    } else if in_sticker_group(nodes, n - 1) {
        hidden(nodes, n - 1).push(ArmorCommand::Hide((n - 1) as usize))
    } else {
        hidden(nodes, n - 1)
    }
}

/// The first sticker object whose name has an ending, among the first `n`.
pub open spec fn first_sticker(nodes: Seq<SceneNode>, suffix: Seq<char>, n: int) -> Option<usize>
    decreases n,
{
    if n <= 0 {
        None
    } else {
        match first_sticker(nodes, suffix, n - 1) {
            Some(i) => Some(i),
            None => if in_sticker_group(nodes, n - 1) && crate::hierarchy::named(
                nodes[n - 1],
                suffix,
            ) {
                Some((n - 1) as usize)
            } else {
                None
            },
        }
    }
}

/// The first `n` stickers, up to the first that is missing. The one with the plate's label shows.
pub open spec fn stickers(
    nodes: Seq<SceneNode>,
    slots: Seq<StickerSlot>,
    label: ArmorLabel,
    n: int,
) -> Stage
    decreases n,
{
    if n <= 0 {
        Stage { commands: Seq::empty(), complete: true }
    } else {
        let before = stickers(nodes, slots, label, n - 1);
        let slot = slots[n - 1];
        if !before.complete {
            before
        } else {
            match first_sticker(nodes, slot.name_suffix@, nodes.len() as int) {
                Some(node) => Stage {
                    commands: before.commands.push(
                        ArmorCommand::Sticker {
                            node,
                            label: slot.label,
                            visible: slot.label == label,
                        },
                    ),
                    complete: true,
                },
                None => Stage { commands: before.commands, complete: false },
            }
        }
    }
}

/// What putting a plate together does: the steps, how it ended, and whether it took a number.
pub ghost struct ArmorPlan {
    pub commands: Seq<ArmorCommand>,
    pub build: ArmorBuild,
    pub numbered: bool,
}

/// The last part, from the marker on.
pub open spec fn face_plan(
    nodes: Seq<SceneNode>,
    armor: usize,
    label: ArmorLabel,
    slots: Seq<StickerSlot>,
    id: usize,
    before: Seq<ArmorCommand>,
) -> ArmorPlan {
    let count = nodes.len() as int;
    let stop = |commands: Seq<ArmorCommand>, build: ArmorBuild|
        ArmorPlan { commands, build, numbered: true };
    match crate::hierarchy::find_below_spec(nodes, "MARKER"@) {
        None => stop(before, ArmorBuild::Incomplete),
        Some(marker) => if !nodes[marker as int].has_markers {
            stop(before, ArmorBuild::Incomplete)
        } else {
            let marked = before.push(ArmorCommand::Marker(marker));
            match (
                crate::hierarchy::find_below_spec(nodes, "VERTEX_L"@),
                crate::hierarchy::find_below_spec(nodes, "VERTEX_R"@),
            ) {
                (Some(left), Some(right)) => if !nodes[left as int].has_points {
                    stop(marked, ArmorBuild::NoCorners)
                } else if !nodes[right as int].has_points {
                    stop(
                        marked.push(ArmorCommand::Vertex { node: left, side: Side::Left }),
                        ArmorBuild::NoCorners,
                    )
                } else {
                    let cornered = marked.push(
                        ArmorCommand::Vertex { node: left, side: Side::Left },
                    ).push(ArmorCommand::Vertex { node: right, side: Side::Right }) + hidden(
                        nodes,
                        count,
                    );
                    let shown = stickers(nodes, slots, label, slots.len() as int);
                    let stuck = cornered + shown.commands;
                    if !shown.complete {
                        stop(stuck, ArmorBuild::Incomplete)
                    } else {
                        let framed = if nodes[left as int].placed && nodes[right as int].placed {
                            ArmorCommand::DeriveFrame { armor, marker, left, right }
                        } else {
                            ArmorCommand::Unframed
                        };
                        stop(
                            stuck.push(ArmorCommand::TagRoot).push(framed).push(
                                ArmorCommand::Finish { marker, left, right },
                            ),
                            ArmorBuild::Built(ArmorRoot { id: ArmorId(id) }),
                        )
                    }
                },
                _ => stop(marked, ArmorBuild::Incomplete),
            }
        },
    }
}

/// The lights of the plate's own team, left and right, and those of the other.
pub open spec fn light_roots(nodes: Seq<SceneNode>, team: Team) -> Option<
    (usize, usize, usize, usize),
> {
    match (
        crate::hierarchy::find_spec(nodes, "L_L"@),
        crate::hierarchy::find_spec(nodes, "L_R"@),
        crate::hierarchy::find_spec(nodes, "L_L_RED"@),
        crate::hierarchy::find_spec(nodes, "L_R_RED"@),
    ) {
        (Some(left), Some(right), Some(left_red), Some(right_red)) => Some(
            match team {
                Team::Red => (left_red, right_red, left, right),
                Team::Blue => (left, right, left_red, right_red),
            },
        ),
        _ => None,
    }
}

/// What putting a plate together does.
pub open spec fn armor_plan(
    nodes: Seq<SceneNode>,
    team: Team,
    label: ArmorLabel,
    slots: Seq<StickerSlot>,
    id: usize,
) -> ArmorPlan {
    let count = nodes.len() as int;
    match crate::hierarchy::find_spec(nodes, "ARMOR"@) {
        None => ArmorPlan {
            commands: Seq::empty(),
            build: ArmorBuild::Incomplete,
            numbered: false,
        },
        Some(armor) => {
            let tagged = seq![ArmorCommand::AddCollider(armor)] + tags(nodes, count);
            match light_roots(nodes, team) {
                None => ArmorPlan {
                    commands: tagged,
                    build: ArmorBuild::Incomplete,
                    numbered: false,
                },
                Some((left, right, other_left, other_right)) => {
                    let cleared = tagged.push(ArmorCommand::Despawn(other_left)).push(
                        ArmorCommand::Despawn(other_right),
                    );
                    let left_meshes = light_meshes(nodes, left as int, count);
                    let right_meshes = light_meshes(nodes, right as int, count);
                    let left_id = crate::armor::plate::light_visibility_id_spec(
                        id as int,
                        Side::Left,
                    ) as u32;
                    let right_id = crate::armor::plate::light_visibility_id_spec(
                        id as int,
                        Side::Right,
                    ) as u32;
                    let left_strips = strips(
                        nodes,
                        left_meshes,
                        Side::Left,
                        left_id,
                        left_meshes.len() as int,
                    );
                    let right_strips = strips(
                        nodes,
                        right_meshes,
                        Side::Right,
                        right_id,
                        right_meshes.len() as int,
                    );
                    if left_meshes.len() == 0 || right_meshes.len() == 0 {
                        ArmorPlan {
                            commands: cleared,
                            build: ArmorBuild::Incomplete,
                            numbered: true,
                        }
                    } else if !left_strips.complete {
                        ArmorPlan {
                            commands: cleared + left_strips.commands,
                            build: ArmorBuild::Incomplete,
                            numbered: true,
                        }
                    } else if !right_strips.complete {
                        ArmorPlan {
                            commands: cleared + left_strips.commands + right_strips.commands,
                            build: ArmorBuild::Incomplete,
                            numbered: true,
                        }
                    } else {
                        face_plan(
                            nodes,
                            armor,
                            label,
                            slots,
                            id,
                            cleared + left_strips.commands + right_strips.commands,
                        )
                    }
                },
            }
        },
    }
}

fn push_tags(nodes: &Vec<SceneNode>, out: &mut Vec<ArmorCommand>)
    ensures
        final(out)@ == old(out)@ + tags(nodes@, nodes@.len() as int),
{
    let ghost before = out@;
    let mut i: usize = 0;
    while i < nodes.len()
        invariant
            i <= nodes@.len(),
            out@ =~= before + tags(nodes@, i as int),
        decreases nodes@.len() - i,
    {
        if nodes[i].name.is_some() {
            out.push(ArmorCommand::Tag(i));
        }
        i = i + 1;
    }
}

fn find_light_meshes(nodes: &Vec<SceneNode>, light: usize) -> (r: Vec<usize>)
    requires
        crate::hierarchy::parents_precede(nodes@),
    ensures
        r@ == light_meshes(nodes@, light as int, nodes@.len() as int),
        forall|k: int| 0 <= k < r@.len() ==> #[trigger] r@[k] < nodes@.len(),
{
    let mut meshes: Vec<usize> = Vec::new();
    let mut i: usize = 0;
    while i < nodes.len()
        invariant
            i <= nodes@.len(),
            crate::hierarchy::parents_precede(nodes@),
            meshes@ == light_meshes(nodes@, light as int, i as int),
            forall|k: int| 0 <= k < meshes@.len() ==> #[trigger] meshes@[k] < nodes@.len(),
        decreases nodes@.len() - i,
    {
        if nodes[i].has_mesh && is_under(nodes, i, light) {
            meshes.push(i);
        }
        i = i + 1;
    }
    meshes
}

fn push_strips(
    nodes: &Vec<SceneNode>,
    meshes: &Vec<usize>,
    side: Side,
    visibility_id: u32,
    out: &mut Vec<ArmorCommand>,
) -> (r: bool)
    requires
        forall|k: int| 0 <= k < meshes@.len() ==> #[trigger] meshes@[k] < nodes@.len(),
    ensures
        ({
            let stage = strips(nodes@, meshes@, side, visibility_id, meshes@.len() as int);
            &&& r == stage.complete
            &&& final(out)@ == old(out)@ + stage.commands
        }),
{
    let ghost before = out@;
    let mut i: usize = 0;
    while i < meshes.len()
        invariant
            i <= meshes@.len(),
            before == old(out)@,
            forall|k: int| 0 <= k < meshes@.len() ==> #[trigger] meshes@[k] < nodes@.len(),
            strips(nodes@, meshes@, side, visibility_id, i as int).complete,
            out@ =~= before + strips(nodes@, meshes@, side, visibility_id, i as int).commands,
        decreases meshes@.len() - i,
    {
        let node: usize = meshes[i];
        if !nodes[node].has_triangles {
            proof {
                lemma_strips_stop(
                    nodes@,
                    meshes@,
                    side,
                    visibility_id,
                    i + 1,
                    meshes@.len() as int,
                );
            }
            return false;
        }
        out.push(ArmorCommand::Strip { node, side, visibility_id });
        i = i + 1;
    }
    true
}

proof fn lemma_strips_stop(
    nodes: Seq<SceneNode>,
    meshes: Seq<usize>,
    side: Side,
    visibility_id: u32,
    i: int,
    n: int,
)
    requires
        i <= n,
        !strips(nodes, meshes, side, visibility_id, i).complete,
    ensures
        strips(nodes, meshes, side, visibility_id, n) == strips(
            nodes,
            meshes,
            side,
            visibility_id,
            i,
        ),
    decreases n - i,
{
    if i < n {
        lemma_strips_stop(nodes, meshes, side, visibility_id, i, n - 1);
    }
}

fn is_in_sticker_group(nodes: &Vec<SceneNode>, j: usize) -> (r: bool)
    requires
        crate::hierarchy::parents_precede(nodes@),
        j < nodes@.len(),
    ensures
        r == in_sticker_group(nodes@, j as int),
{
    let mut i: usize = 0;
    while i < nodes.len()
        invariant
            i <= nodes@.len(),
            j < nodes@.len(),
            crate::hierarchy::parents_precede(nodes@),
            forall|k: int|
                0 <= k < i ==> !(crate::hierarchy::named(nodes@[k], "_C"@)
                    && #[trigger] crate::hierarchy::under(nodes@, j as int, k)),
        decreases nodes@.len() - i,
    {
        if is_named(&nodes[i], "_C") && is_under(nodes, j, i) {
            assert(crate::hierarchy::under(nodes@, j as int, i as int));
            return true;
        }
        i = i + 1;
    }
    false
}

fn push_hidden(nodes: &Vec<SceneNode>, out: &mut Vec<ArmorCommand>)
    requires
        crate::hierarchy::parents_precede(nodes@),
    ensures
        final(out)@ == old(out)@ + hidden(nodes@, nodes@.len() as int),
{
    let ghost before = out@;
    let mut i: usize = 0;
    while i < nodes.len()
        invariant
            i <= nodes@.len(),
            crate::hierarchy::parents_precede(nodes@),
            out@ =~= before + hidden(nodes@, i as int),
        decreases nodes@.len() - i,
    {
        if is_in_sticker_group(nodes, i) {
            out.push(ArmorCommand::Hide(i));
        }
        i = i + 1;
    }
}

fn find_sticker(nodes: &Vec<SceneNode>, suffix: &str) -> (r: Option<usize>)
    requires
        crate::hierarchy::parents_precede(nodes@),
    ensures
        r == first_sticker(nodes@, suffix@, nodes@.len() as int),
{
    let mut i: usize = 0;
    while i < nodes.len()
        invariant
            i <= nodes@.len(),
            crate::hierarchy::parents_precede(nodes@),
            first_sticker(nodes@, suffix@, i as int) is None,
        decreases nodes@.len() - i,
    {
        if is_in_sticker_group(nodes, i) && is_named(&nodes[i], suffix) {
            proof {
                lemma_sticker_stays(nodes@, suffix@, i + 1, nodes@.len() as int);
            }
            return Some(i);
        }
        i = i + 1;
    }
    None
}

proof fn lemma_sticker_stays(nodes: Seq<SceneNode>, suffix: Seq<char>, i: int, n: int)
    requires
        i <= n,
        first_sticker(nodes, suffix, i) is Some,
    ensures
        first_sticker(nodes, suffix, n) == first_sticker(nodes, suffix, i),
    decreases n - i,
{
    if i < n {
        lemma_sticker_stays(nodes, suffix, i, n - 1);
    }
}

fn push_stickers(
    nodes: &Vec<SceneNode>,
    slots: &Vec<StickerSlot>,
    label: ArmorLabel,
    out: &mut Vec<ArmorCommand>,
) -> (r: bool)
    requires
        crate::hierarchy::parents_precede(nodes@),
    ensures
        ({
            let stage = stickers(nodes@, slots@, label, slots@.len() as int);
            &&& r == stage.complete
            &&& final(out)@ == old(out)@ + stage.commands
        }),
{
    let ghost before = out@;
    let mut i: usize = 0;
    while i < slots.len()
        invariant
            i <= slots@.len(),
            before == old(out)@,
            crate::hierarchy::parents_precede(nodes@),
            stickers(nodes@, slots@, label, i as int).complete,
            out@ =~= before + stickers(nodes@, slots@, label, i as int).commands,
        decreases slots@.len() - i,
    {
        let slot: &StickerSlot = &slots[i];
        match find_sticker(nodes, slot.name_suffix.as_str()) {
            Some(node) => {
                let visible: bool = slot.label == label;
                out.push(ArmorCommand::Sticker { node, label: slot.label, visible });
            },
            None => {
                proof {
                    lemma_stickers_stop(nodes@, slots@, label, i + 1, slots@.len() as int);
                }
                return false;
            },
        }
        i = i + 1;
    }
    true
}

proof fn lemma_stickers_stop(
    nodes: Seq<SceneNode>,
    slots: Seq<StickerSlot>,
    label: ArmorLabel,
    i: int,
    n: int,
)
    requires
        i <= n,
        !stickers(nodes, slots, label, i).complete,
    ensures
        stickers(nodes, slots, label, n) == stickers(nodes, slots, label, i),
    decreases n - i,
{
    if i < n {
        lemma_stickers_stop(nodes, slots, label, i, n - 1);
    }
}

fn process_face(
    nodes: &Vec<SceneNode>,
    armor: usize,
    label: ArmorLabel,
    slots: &Vec<StickerSlot>,
    id: usize,
    out: &mut Vec<ArmorCommand>,
) -> (r: ArmorBuild)
    requires
        crate::hierarchy::parents_precede(nodes@),
    ensures
        ({
            let plan = face_plan(nodes@, armor, label, slots@, id, old(out)@);
            r == plan.build && final(out)@ == plan.commands
        }),
{
    let marker: usize = match find_below(nodes, "MARKER") {
        Some(marker) => marker,
        None => return ArmorBuild::Incomplete,
    };
    if !nodes[marker].has_markers {
        return ArmorBuild::Incomplete;
    }
    out.push(ArmorCommand::Marker(marker));
    let left: usize = match find_below(nodes, "VERTEX_L") {
        Some(left) => left,
        None => return ArmorBuild::Incomplete,
    };
    let right: usize = match find_below(nodes, "VERTEX_R") {
        Some(right) => right,
        None => return ArmorBuild::Incomplete,
    };
    if !nodes[left].has_points {
        return ArmorBuild::NoCorners;
    }
    out.push(ArmorCommand::Vertex { node: left, side: Side::Left });
    if !nodes[right].has_points {
        return ArmorBuild::NoCorners;
    }
    out.push(ArmorCommand::Vertex { node: right, side: Side::Right });
    push_hidden(nodes, out);
    if !push_stickers(nodes, slots, label, out) {
        return ArmorBuild::Incomplete;
    }
    out.push(ArmorCommand::TagRoot);
    if nodes[left].placed && nodes[right].placed {
        out.push(ArmorCommand::DeriveFrame { armor, marker, left, right });
    } else {
        out.push(ArmorCommand::Unframed);
    }
    out.push(ArmorCommand::Finish { marker, left, right });
    ArmorBuild::Built(ArmorRoot { id: ArmorId(id) })
}

/// Puts a plate together: finds its parts by the endings of their names, marker and corners right
/// below the object so named, lists what to do with them, and stops at the first part that is
/// missing. The plate takes the next number as soon as its lights are found.
pub fn process_armor_root(
    nodes: &Vec<SceneNode>,
    team: Team,
    label: ArmorLabel,
    slots: &Vec<StickerSlot>,
    next_id: &mut usize,
) -> (r: (ArmorBuild, Vec<ArmorCommand>))
    requires
        crate::hierarchy::parents_precede(nodes@),
        crate::armor::plate::light_visibility_id_spec(*old(next_id) as int, Side::Right)
            <= u32::MAX,
        *old(next_id) < usize::MAX,
    ensures
        ({
            let plan = armor_plan(nodes@, team, label, slots@, *old(next_id));
            &&& r.0 == plan.build
            &&& r.1@ == plan.commands
            &&& *final(next_id) == (if plan.numbered {
                *old(next_id) + 1
            } else {
                *old(next_id) as int
            })
        }),
        r.0 is Built ==> ({
            let armor = crate::hierarchy::find_spec(nodes@, "ARMOR"@);
            let marker = crate::hierarchy::find_below_spec(nodes@, "MARKER"@);
            let left = crate::hierarchy::find_below_spec(nodes@, "VERTEX_L"@);
            let right = crate::hierarchy::find_below_spec(nodes@, "VERTEX_R"@);
            let face = ArmorCommand::DeriveFrame {
                armor: armor->0,
                marker: marker->0,
                left: left->0,
                right: right->0,
            };
            if nodes@[left->0 as int].placed && nodes@[right->0 as int].placed {
                r.1@.contains(face) && !r.1@.contains(ArmorCommand::Unframed)
            } else {
                r.1@.contains(ArmorCommand::Unframed) && !r.1@.contains(face)
            }
        }),
{
    let mut out: Vec<ArmorCommand> = Vec::new();
    let armor: usize = match find(nodes, "ARMOR") {
        Some(armor) => armor,
        None => return (ArmorBuild::Incomplete, out),
    };
    out.push(ArmorCommand::AddCollider(armor));
    push_tags(nodes, &mut out);
    proof {
        assert(out@ =~= seq![ArmorCommand::AddCollider(armor)] + tags(
            nodes@,
            nodes@.len() as int,
        ));
    }
    let left: usize = match find(nodes, "L_L") {
        Some(left) => left,
        None => return (ArmorBuild::Incomplete, out),
    };
    let right: usize = match find(nodes, "L_R") {
        Some(right) => right,
        None => return (ArmorBuild::Incomplete, out),
    };
    let left_red: usize = match find(nodes, "L_L_RED") {
        Some(left_red) => left_red,
        None => return (ArmorBuild::Incomplete, out),
    };
    let right_red: usize = match find(nodes, "L_R_RED") {
        Some(right_red) => right_red,
        None => return (ArmorBuild::Incomplete, out),
    };
    let (own_left, own_right, other_left, other_right): (usize, usize, usize, usize) = match team {
        Team::Red => (left_red, right_red, left, right),
        Team::Blue => (left, right, left_red, right_red),
    };
    out.push(ArmorCommand::Despawn(other_left));
    out.push(ArmorCommand::Despawn(other_right));
    let root: ArmorRoot = ArmorRoot { id: ArmorId(*next_id) };
    *next_id = *next_id + 1;
    let left_meshes: Vec<usize> = find_light_meshes(nodes, own_left);
    let right_meshes: Vec<usize> = find_light_meshes(nodes, own_right);
    if left_meshes.len() == 0 || right_meshes.len() == 0 {
        return (ArmorBuild::Incomplete, out);
    }
    let left_id: u32 = root.light_visibility_id(Side::Left);
    let right_id: u32 = root.light_visibility_id(Side::Right);
    if !push_strips(nodes, &left_meshes, Side::Left, left_id, &mut out) {
        return (ArmorBuild::Incomplete, out);
    }
    if !push_strips(nodes, &right_meshes, Side::Right, right_id, &mut out) {
        return (ArmorBuild::Incomplete, out);
    }
    let build: ArmorBuild = process_face(
        nodes,
        armor,
        label,
        slots,
        root.id.as_usize(),
        &mut out,
    );
    proof {
        if build is Built {
            assert(nodes@.len() == nodes.len());
            law_a_placed_plate_has_a_hit_face(nodes@, team, label, slots@, *old(next_id));
        }
    }
    (build, out)
}

/// Whether an object is the root of a plate, by its name.
pub fn is_armor_root(name: &str) -> (r: bool)
    ensures
        r == crate::text::contains_spec(name@, "ARMOR_ROOT"@),
{
    contains(name, "ARMOR_ROOT")
}

proof fn lemma_in_push(list: Seq<ArmorCommand>, last: ArmorCommand, c: ArmorCommand)
    ensures
        list.push(last).contains(c) <==> list.contains(c) || c == last,
{
    let all = list.push(last);
    if list.contains(c) {
        let i = choose|i: int| 0 <= i < list.len() && list[i] == c;
        assert(all[i] == c);
    }
    if c == last {
        assert(all[list.len() as int] == c);
    }
    if all.contains(c) && c != last {
        let i = choose|i: int| 0 <= i < all.len() && all[i] == c;
        assert(list[i] == c);
    }
}

proof fn lemma_in_sum(first: Seq<ArmorCommand>, second: Seq<ArmorCommand>, c: ArmorCommand)
    ensures
        (first + second).contains(c) <==> first.contains(c) || second.contains(c),
{
    let all = first + second;
    if first.contains(c) {
        let i = choose|i: int| 0 <= i < first.len() && first[i] == c;
        assert(all[i] == c);
    }
    if second.contains(c) {
        let i = choose|i: int| 0 <= i < second.len() && second[i] == c;
        assert(all[first.len() + i] == c);
    }
    if all.contains(c) {
        let i = choose|i: int| 0 <= i < all.len() && all[i] == c;
        if i < first.len() {
            assert(first[i] == c);
        } else {
            assert(second[i - first.len()] == c);
        }
    }
}

proof fn lemma_tags(nodes: Seq<SceneNode>, n: int, c: ArmorCommand)
    requires
        0 <= n <= nodes.len() <= usize::MAX,
    ensures
        tags(nodes, n).contains(c) <==> (c matches ArmorCommand::Tag(i) && i < n
            && nodes[i as int].name is Some),
    decreases n,
{
    if n > 0 {
        lemma_tags(nodes, n - 1, c);
        lemma_in_push(tags(nodes, n - 1), ArmorCommand::Tag((n - 1) as usize), c);
    }
}

proof fn lemma_light_meshes(nodes: Seq<SceneNode>, light: int, n: int)
    requires
        0 <= n <= nodes.len() <= usize::MAX,
    ensures
        forall|i: usize| #[trigger]
            light_meshes(nodes, light, n).contains(i) <==> i < n && nodes[i as int].has_mesh
                && crate::hierarchy::under(nodes, i as int, light),
    decreases n,
{
    if n > 0 {
        lemma_light_meshes(nodes, light, n - 1);
        let before = light_meshes(nodes, light, n - 1);
        let all = light_meshes(nodes, light, n);
        assert forall|i: usize| #[trigger]
            all.contains(i) <==> i < n && nodes[i as int].has_mesh && crate::hierarchy::under(
                nodes,
                i as int,
                light,
            ) by {
            if before.contains(i) {
                let k = choose|k: int| 0 <= k < before.len() && before[k] == i;
                assert(all[k] == i);
            }
            if i == n - 1 && all.len() > before.len() {
                assert(all[before.len() as int] == i);
            }
            if all.contains(i) {
                let k = choose|k: int| 0 <= k < all.len() && all[k] == i;
                if k < before.len() {
                    assert(before[k] == i);
                }
            }
        }
    }
}

proof fn lemma_strips(
    nodes: Seq<SceneNode>,
    meshes: Seq<usize>,
    side: Side,
    visibility_id: u32,
    n: int,
    c: ArmorCommand,
)
    requires
        0 <= n <= meshes.len(),
    ensures
        ({
            let stage = strips(nodes, meshes, side, visibility_id, n);
            &&& stage.complete <==> forall|k: int|
                0 <= k < n ==> nodes[(#[trigger] meshes[k]) as int].has_triangles
            &&& stage.commands.contains(c) ==> c is Strip
            &&& stage.complete ==> (stage.commands.contains(c) <==> exists|k: int|
                0 <= k < n && c == (ArmorCommand::Strip {
                    node: #[trigger] meshes[k],
                    side,
                    visibility_id,
                }))
        }),
    decreases n,
{
    if n > 0 {
        lemma_strips(nodes, meshes, side, visibility_id, n - 1, c);
        let before = strips(nodes, meshes, side, visibility_id, n - 1);
        let stage = strips(nodes, meshes, side, visibility_id, n);
        let last = ArmorCommand::Strip { node: meshes[n - 1], side, visibility_id };
        lemma_in_push(before.commands, last, c);
        if !before.complete {
            let k = choose|k: int|
                0 <= k < n - 1 && !nodes[(#[trigger] meshes[k]) as int].has_triangles;
            assert(!nodes[meshes[k] as int].has_triangles);
        }
        if stage.complete {
            assert forall|k: int| 0 <= k < n implies nodes[(
            #[trigger] meshes[k]) as int].has_triangles by {
                if k < n - 1 {
                    assert(nodes[meshes[k] as int].has_triangles);
                }
            }
        }
    }
}

proof fn lemma_hidden(nodes: Seq<SceneNode>, n: int, c: ArmorCommand)
    requires
        0 <= n <= nodes.len() <= usize::MAX,
    ensures
        hidden(nodes, n).contains(c) <==> (c matches ArmorCommand::Hide(i) && i < n
            && in_sticker_group(nodes, i as int)),
    decreases n,
{
    if n > 0 {
        lemma_hidden(nodes, n - 1, c);
        lemma_in_push(hidden(nodes, n - 1), ArmorCommand::Hide((n - 1) as usize), c);
    }
}

proof fn lemma_stickers(
    nodes: Seq<SceneNode>,
    slots: Seq<StickerSlot>,
    label: ArmorLabel,
    n: int,
    c: ArmorCommand,
)
    requires
        0 <= n <= slots.len(),
    ensures
        ({
            let stage = stickers(nodes, slots, label, n);
            &&& stage.complete <==> forall|k: int|
                0 <= k < n ==> first_sticker(
                    nodes,
                    (#[trigger] slots[k]).name_suffix@,
                    nodes.len() as int,
                ) is Some
            &&& stage.commands.contains(c) ==> c is Sticker
            &&& stage.complete ==> (stage.commands.contains(c) <==> (
            c matches ArmorCommand::Sticker { node, label: shown, visible } && visible == (shown
                == label) && exists|k: int|
                0 <= k < n && (#[trigger] slots[k]).label == shown && first_sticker(
                    nodes,
                    slots[k].name_suffix@,
                    nodes.len() as int,
                ) == Some(node)))
        }),
    decreases n,
{
    if n > 0 {
        lemma_stickers(nodes, slots, label, n - 1, c);
        let before = stickers(nodes, slots, label, n - 1);
        let stage = stickers(nodes, slots, label, n);
        let slot = slots[n - 1];
        let found = first_sticker(nodes, slot.name_suffix@, nodes.len() as int);
        if !before.complete {
            let k = choose|k: int|
                0 <= k < n - 1 && first_sticker(
                    nodes,
                    (#[trigger] slots[k]).name_suffix@,
                    nodes.len() as int,
                ) is None;
            assert(first_sticker(nodes, slots[k].name_suffix@, nodes.len() as int) is None);
        }
        if stage.complete {
            let last = ArmorCommand::Sticker {
                node: found->0,
                label: slot.label,
                visible: slot.label == label,
            };
            lemma_in_push(before.commands, last, c);
            assert forall|k: int| 0 <= k < n implies first_sticker(
                nodes,
                (#[trigger] slots[k]).name_suffix@,
                nodes.len() as int,
            ) is Some by {
                if k < n - 1 {
                    assert(first_sticker(nodes, slots[k].name_suffix@, nodes.len() as int)
                        is Some);
                }
            }
            if c is Sticker && stage.commands.contains(c) && c != last {
                let k = choose|k: int|
                    0 <= k < n - 1 && (#[trigger] slots[k]).label == c->Sticker_label
                        && first_sticker(nodes, slots[k].name_suffix@, nodes.len() as int) == Some(
                        c->Sticker_node,
                    );
                assert(slots[k].label == c->Sticker_label);
            }
        }
    }
}

/// The commands of a built plate, part by part.
proof fn lemma_built_commands(
    nodes: Seq<SceneNode>,
    team: Team,
    label: ArmorLabel,
    slots: Seq<StickerSlot>,
    id: usize,
)
    requires
        armor_plan(nodes, team, label, slots, id).build is Built,
    ensures
        ({
            let plan = armor_plan(nodes, team, label, slots, id);
            let count = nodes.len() as int;
            let armor = crate::hierarchy::find_spec(nodes, "ARMOR"@);
            let (left, right, other_left, other_right) = light_roots(nodes, team)->0;
            let marker = crate::hierarchy::find_below_spec(nodes, "MARKER"@);
            let left_corners = crate::hierarchy::find_below_spec(nodes, "VERTEX_L"@);
            let right_corners = crate::hierarchy::find_below_spec(nodes, "VERTEX_R"@);
            let left_meshes = light_meshes(nodes, left as int, count);
            let right_meshes = light_meshes(nodes, right as int, count);
            let left_strips = strips(
                nodes,
                left_meshes,
                Side::Left,
                crate::armor::plate::light_visibility_id_spec(id as int, Side::Left) as u32,
                left_meshes.len() as int,
            );
            let right_strips = strips(
                nodes,
                right_meshes,
                Side::Right,
                crate::armor::plate::light_visibility_id_spec(id as int, Side::Right) as u32,
                right_meshes.len() as int,
            );
            let shown = stickers(nodes, slots, label, slots.len() as int);
            &&& armor is Some
            &&& light_roots(nodes, team) is Some
            &&& marker is Some
            &&& left_corners is Some
            &&& right_corners is Some
            &&& left_strips.complete
            &&& right_strips.complete
            &&& shown.complete
            &&& plan.commands == ((((seq![ArmorCommand::AddCollider(armor->0)] + tags(
                nodes,
                count,
            )).push(ArmorCommand::Despawn(other_left)).push(ArmorCommand::Despawn(other_right))
                + left_strips.commands + right_strips.commands).push(
                ArmorCommand::Marker(marker->0),
            ).push(ArmorCommand::Vertex { node: left_corners->0, side: Side::Left }).push(
                ArmorCommand::Vertex { node: right_corners->0, side: Side::Right },
            ) + hidden(nodes, count)) + shown.commands).push(ArmorCommand::TagRoot).push(
                if nodes[left_corners->0 as int].placed && nodes[right_corners->0 as int].placed {
                    ArmorCommand::DeriveFrame {
                        armor: armor->0,
                        marker: marker->0,
                        left: left_corners->0,
                        right: right_corners->0,
                    }
                } else {
                    ArmorCommand::Unframed
                },
            ).push(
                ArmorCommand::Finish {
                    marker: marker->0,
                    left: left_corners->0,
                    right: right_corners->0,
                },
            )
        }),
{
}

/// Everything a built plate is made of, command by command. Only the plate's object can be hit;
/// every object with a name belongs to the plate; the lights of the other team go away, and what is
/// drawn below its own lights becomes strips that carry the plate's numbers; marker and corners are
/// the objects right below those so named; what is below the stickers' object is hidden, and each
/// sticker is shown exactly if it bears the plate's label.
pub proof fn law_what_a_built_plate_is_made_of(
    nodes: Seq<SceneNode>,
    team: Team,
    label: ArmorLabel,
    slots: Seq<StickerSlot>,
    id: usize,
    c: ArmorCommand,
)
    requires
        nodes.len() <= usize::MAX,
        2 * id + 2 <= u32::MAX,
        armor_plan(nodes, team, label, slots, id).build is Built,
    ensures
        armor_plan(nodes, team, label, slots, id).commands.contains(c) <==> match c {
            ArmorCommand::AddCollider(i) => crate::hierarchy::find_spec(nodes, "ARMOR"@) == Some(i),
            ArmorCommand::Tag(i) => i < nodes.len() && nodes[i as int].name is Some,
            ArmorCommand::Despawn(i) => match team {
                Team::Red => crate::hierarchy::find_spec(nodes, "L_L"@) == Some(i)
                    || crate::hierarchy::find_spec(nodes, "L_R"@) == Some(i),
                Team::Blue => crate::hierarchy::find_spec(nodes, "L_L_RED"@) == Some(i)
                    || crate::hierarchy::find_spec(nodes, "L_R_RED"@) == Some(i),
            },
            ArmorCommand::Strip { node, side, visibility_id } => {
                let light = match (team, side) {
                    (Team::Red, Side::Left) => crate::hierarchy::find_spec(nodes, "L_L_RED"@),
                    (Team::Red, Side::Right) => crate::hierarchy::find_spec(nodes, "L_R_RED"@),
                    (Team::Blue, Side::Left) => crate::hierarchy::find_spec(nodes, "L_L"@),
                    (Team::Blue, Side::Right) => crate::hierarchy::find_spec(nodes, "L_R"@),
                };
                &&& node < nodes.len()
                &&& nodes[node as int].has_mesh
                &&& light is Some
                &&& crate::hierarchy::under(nodes, node as int, light->0 as int)
                &&& visibility_id == (if side is Left {
                    2 * id + 1
                } else {
                    2 * id + 2
                })
            },
            ArmorCommand::Marker(i) => crate::hierarchy::find_below_spec(nodes, "MARKER"@) == Some(i),
            ArmorCommand::Vertex { node, side } => if side is Left {
                crate::hierarchy::find_below_spec(nodes, "VERTEX_L"@) == Some(node)
            } else {
                crate::hierarchy::find_below_spec(nodes, "VERTEX_R"@) == Some(node)
            },
            ArmorCommand::Hide(i) => i < nodes.len() && exists|group: int|
                0 <= group < nodes.len() && crate::hierarchy::named(nodes[group], "_C"@)
                    && #[trigger] crate::hierarchy::under(nodes, i as int, group),
            ArmorCommand::Sticker { node, label: shown, visible } => visible == (shown == label)
                && exists|k: int|
                0 <= k < slots.len() && (#[trigger] slots[k]).label == shown && first_sticker(
                    nodes,
                    slots[k].name_suffix@,
                    nodes.len() as int,
                ) == Some(node),
            ArmorCommand::TagRoot => true,
            ArmorCommand::DeriveFrame { armor, marker, left, right } => {
                &&& crate::hierarchy::find_spec(nodes, "ARMOR"@) == Some(armor)
                &&& crate::hierarchy::find_below_spec(nodes, "MARKER"@) == Some(marker)
                &&& crate::hierarchy::find_below_spec(nodes, "VERTEX_L"@) == Some(left)
                &&& crate::hierarchy::find_below_spec(nodes, "VERTEX_R"@) == Some(right)
                &&& nodes[left as int].placed
                &&& nodes[right as int].placed
            },
            ArmorCommand::Unframed => {
                let left = crate::hierarchy::find_below_spec(nodes, "VERTEX_L"@)->0;
                let right = crate::hierarchy::find_below_spec(nodes, "VERTEX_R"@)->0;
                !nodes[left as int].placed || !nodes[right as int].placed
            },
            ArmorCommand::Finish { marker, left, right } => {
                &&& crate::hierarchy::find_below_spec(nodes, "MARKER"@) == Some(marker)
                &&& crate::hierarchy::find_below_spec(nodes, "VERTEX_L"@) == Some(left)
                &&& crate::hierarchy::find_below_spec(nodes, "VERTEX_R"@) == Some(right)
            },
        },
{
    lemma_built_commands(nodes, team, label, slots, id);
    let count = nodes.len() as int;
    let armor = crate::hierarchy::find_spec(nodes, "ARMOR"@)->0;
    let (left, right, other_left, other_right) = light_roots(nodes, team)->0;
    let marker = crate::hierarchy::find_below_spec(nodes, "MARKER"@)->0;
    let left_corners = crate::hierarchy::find_below_spec(nodes, "VERTEX_L"@)->0;
    let right_corners = crate::hierarchy::find_below_spec(nodes, "VERTEX_R"@)->0;
    let left_meshes = light_meshes(nodes, left as int, count);
    let right_meshes = light_meshes(nodes, right as int, count);
    let left_id = crate::armor::plate::light_visibility_id_spec(id as int, Side::Left) as u32;
    let right_id = crate::armor::plate::light_visibility_id_spec(id as int, Side::Right) as u32;
    let left_strips = strips(nodes, left_meshes, Side::Left, left_id, left_meshes.len() as int);
    let right_strips = strips(
        nodes,
        right_meshes,
        Side::Right,
        right_id,
        right_meshes.len() as int,
    );
    let shown = stickers(nodes, slots, label, slots.len() as int);
    let framed = if nodes[left_corners as int].placed && nodes[right_corners as int].placed {
        ArmorCommand::DeriveFrame { armor, marker, left: left_corners, right: right_corners }
    } else {
        ArmorCommand::Unframed
    };
    let start = seq![ArmorCommand::AddCollider(armor)];
    let tagged = start + tags(nodes, count);
    let one_gone = tagged.push(ArmorCommand::Despawn(other_left));
    let both_gone = one_gone.push(ArmorCommand::Despawn(other_right));
    let left_lit = both_gone + left_strips.commands;
    let lit = left_lit + right_strips.commands;
    let marked = lit.push(ArmorCommand::Marker(marker));
    let half_cornered = marked.push(ArmorCommand::Vertex { node: left_corners, side: Side::Left });
    let bare = half_cornered.push(ArmorCommand::Vertex { node: right_corners, side: Side::Right });
    let cornered = bare + hidden(nodes, count);
    let stuck = cornered + shown.commands;
    let rooted = stuck.push(ArmorCommand::TagRoot);
    let faced = rooted.push(framed);
    assert(start[0] == ArmorCommand::AddCollider(armor));
    assert(start.contains(c) <==> c == ArmorCommand::AddCollider(armor));
    lemma_in_sum(start, tags(nodes, count), c);
    lemma_tags(nodes, count, c);
    lemma_in_push(tagged, ArmorCommand::Despawn(other_left), c);
    lemma_in_push(one_gone, ArmorCommand::Despawn(other_right), c);
    lemma_in_sum(both_gone, left_strips.commands, c);
    lemma_in_sum(left_lit, right_strips.commands, c);
    lemma_strips(nodes, left_meshes, Side::Left, left_id, left_meshes.len() as int, c);
    lemma_strips(nodes, right_meshes, Side::Right, right_id, right_meshes.len() as int, c);
    lemma_light_meshes(nodes, left as int, count);
    lemma_light_meshes(nodes, right as int, count);
    lemma_in_push(lit, ArmorCommand::Marker(marker), c);
    lemma_in_push(marked, ArmorCommand::Vertex { node: left_corners, side: Side::Left }, c);
    lemma_in_push(
        half_cornered,
        ArmorCommand::Vertex { node: right_corners, side: Side::Right },
        c,
    );
    lemma_in_sum(bare, hidden(nodes, count), c);
    lemma_hidden(nodes, count, c);
    lemma_in_sum(cornered, shown.commands, c);
    lemma_stickers(nodes, slots, label, slots.len() as int, c);
    lemma_in_push(stuck, ArmorCommand::TagRoot, c);
    lemma_in_push(rooted, framed, c);
    lemma_in_push(
        faced,
        ArmorCommand::Finish { marker, left: left_corners, right: right_corners },
        c,
    );
    if c is Strip {
        let meshes = if c->Strip_side is Left {
            left_meshes
        } else {
            right_meshes
        };
        assert(meshes.contains(c->Strip_node) <==> exists|k: int|
            0 <= k < meshes.len() && #[trigger] meshes[k] == c->Strip_node);
    }
}

/// The hit face of a built plate is derived, from its own object, its marker and its corners, left
/// and right, whenever the places of both corners are known; otherwise hits count unfiltered. It is
/// never both.
pub proof fn law_a_placed_plate_has_a_hit_face(
    nodes: Seq<SceneNode>,
    team: Team,
    label: ArmorLabel,
    slots: Seq<StickerSlot>,
    id: usize,
)
    requires
        nodes.len() <= usize::MAX,
        2 * id + 2 <= u32::MAX,
        armor_plan(nodes, team, label, slots, id).build is Built,
    ensures
        ({
            let commands = armor_plan(nodes, team, label, slots, id).commands;
            let armor = crate::hierarchy::find_spec(nodes, "ARMOR"@);
            let marker = crate::hierarchy::find_below_spec(nodes, "MARKER"@);
            let left = crate::hierarchy::find_below_spec(nodes, "VERTEX_L"@);
            let right = crate::hierarchy::find_below_spec(nodes, "VERTEX_R"@);
            let face = ArmorCommand::DeriveFrame {
                armor: armor->0,
                marker: marker->0,
                left: left->0,
                right: right->0,
            };
            &&& armor is Some
            &&& marker is Some
            &&& left is Some
            &&& right is Some
            &&& nodes[left->0 as int].placed && nodes[right->0 as int].placed
                ==> commands.contains(face) && !commands.contains(ArmorCommand::Unframed)
            &&& !(nodes[left->0 as int].placed && nodes[right->0 as int].placed)
                ==> commands.contains(ArmorCommand::Unframed) && !commands.contains(face)
        }),
{
    lemma_built_commands(nodes, team, label, slots, id);
    let face = ArmorCommand::DeriveFrame {
        armor: crate::hierarchy::find_spec(nodes, "ARMOR"@)->0,
        marker: crate::hierarchy::find_below_spec(nodes, "MARKER"@)->0,
        left: crate::hierarchy::find_below_spec(nodes, "VERTEX_L"@)->0,
        right: crate::hierarchy::find_below_spec(nodes, "VERTEX_R"@)->0,
    };
    law_what_a_built_plate_is_made_of(nodes, team, label, slots, id, face);
    law_what_a_built_plate_is_made_of(nodes, team, label, slots, id, ArmorCommand::Unframed);
}

/// A plate is built exactly when nothing is missing: its object, the lights of both teams, something
/// drawn below each of its own lights and all of it with triangles, a marker with its points, the
/// corners of both sides with points, and every sticker. It takes a number as soon as its object and
/// the lights are there.
pub proof fn law_a_plate_is_built_when_nothing_is_missing(
    nodes: Seq<SceneNode>,
    team: Team,
    label: ArmorLabel,
    slots: Seq<StickerSlot>,
    id: usize,
)
    requires
        nodes.len() <= usize::MAX,
    ensures
        ({
            let plan = armor_plan(nodes, team, label, slots, id);
            let marker = crate::hierarchy::find_below_spec(nodes, "MARKER"@);
            let left = crate::hierarchy::find_below_spec(nodes, "VERTEX_L"@);
            let right = crate::hierarchy::find_below_spec(nodes, "VERTEX_R"@);
            let own_left = crate::hierarchy::find_spec(
                nodes,
                if team is Red {
                    "L_L_RED"@
                } else {
                    "L_L"@
                },
            );
            let own_right = crate::hierarchy::find_spec(
                nodes,
                if team is Red {
                    "L_R_RED"@
                } else {
                    "L_R"@
                },
            );
            &&& plan.numbered <==> {
                &&& crate::hierarchy::find_spec(nodes, "ARMOR"@) is Some
                &&& crate::hierarchy::find_spec(nodes, "L_L"@) is Some
                &&& crate::hierarchy::find_spec(nodes, "L_R"@) is Some
                &&& crate::hierarchy::find_spec(nodes, "L_L_RED"@) is Some
                &&& crate::hierarchy::find_spec(nodes, "L_R_RED"@) is Some
            }
            &&& plan.build is Built <==> {
                &&& plan.numbered
                &&& lit(nodes, own_left->0 as int)
                &&& lit(nodes, own_right->0 as int)
                &&& marker is Some
                &&& nodes[marker->0 as int].has_markers
                &&& left is Some
                &&& nodes[left->0 as int].has_points
                &&& right is Some
                &&& nodes[right->0 as int].has_points
                &&& forall|k: int|
                    0 <= k < slots.len() ==> first_sticker(
                        nodes,
                        (#[trigger] slots[k]).name_suffix@,
                        nodes.len() as int,
                    ) is Some
            }
            &&& plan.build is NoCorners <==> {
                &&& plan.numbered
                &&& lit(nodes, own_left->0 as int)
                &&& lit(nodes, own_right->0 as int)
                &&& marker is Some
                &&& nodes[marker->0 as int].has_markers
                &&& left is Some
                &&& right is Some
                &&& !nodes[left->0 as int].has_points || !nodes[right->0 as int].has_points
            }
        }),
{
    let count = nodes.len() as int;
    if light_roots(nodes, team) is Some {
        let (left, right, other_left, other_right) = light_roots(nodes, team)->0;
        lemma_lit(nodes, left as int, Side::Left, id);
        lemma_lit(nodes, right as int, Side::Right, id);
        lemma_stickers(nodes, slots, label, slots.len() as int, ArmorCommand::TagRoot);
    }
}

/// Whether something is drawn below a light, and all of it has triangles.
pub open spec fn lit(nodes: Seq<SceneNode>, light: int) -> bool {
    &&& exists|i: int|
        0 <= i < nodes.len() && nodes[i].has_mesh && #[trigger] crate::hierarchy::under(
            nodes,
            i,
            light,
        )
    &&& forall|i: int|
        0 <= i < nodes.len() && nodes[i].has_mesh && #[trigger] crate::hierarchy::under(
            nodes,
            i,
            light,
        ) ==> nodes[i].has_triangles
}

proof fn lemma_lit(nodes: Seq<SceneNode>, light: int, side: Side, id: usize)
    requires
        nodes.len() <= usize::MAX,
    ensures
        ({
            let meshes = light_meshes(nodes, light, nodes.len() as int);
            let visibility_id = crate::armor::plate::light_visibility_id_spec(
                id as int,
                side,
            ) as u32;
            lit(nodes, light) <==> meshes.len() > 0 && strips(
                nodes,
                meshes,
                side,
                visibility_id,
                meshes.len() as int,
            ).complete
        }),
{
    let meshes = light_meshes(nodes, light, nodes.len() as int);
    let visibility_id = crate::armor::plate::light_visibility_id_spec(id as int, side) as u32;
    lemma_light_meshes(nodes, light, nodes.len() as int);
    lemma_strips(
        nodes,
        meshes,
        side,
        visibility_id,
        meshes.len() as int,
        ArmorCommand::TagRoot,
    );
    if lit(nodes, light) {
        let i = choose|i: int|
            0 <= i < nodes.len() && nodes[i].has_mesh && #[trigger] crate::hierarchy::under(
                nodes,
                i,
                light,
            );
        assert(meshes.contains(i as usize));
        assert forall|k: int| 0 <= k < meshes.len() implies nodes[(
        #[trigger] meshes[k]) as int].has_triangles by {
            assert(meshes.contains(meshes[k]));
            assert(crate::hierarchy::under(nodes, meshes[k] as int, light));
        }
    }
    if meshes.len() > 0 && strips(
        nodes,
        meshes,
        side,
        visibility_id,
        meshes.len() as int,
    ).complete {
        assert(meshes.contains(meshes[0]));
        assert(crate::hierarchy::under(nodes, meshes[0] as int, light));
        assert forall|i: int|
            0 <= i < nodes.len() && nodes[i].has_mesh && #[trigger] crate::hierarchy::under(
                nodes,
                i,
                light,
            ) implies nodes[i].has_triangles by {
            assert(meshes.contains(i as usize));
            let k = choose|k: int| 0 <= k < meshes.len() && meshes[k] == i as usize;
            assert(nodes[meshes[k] as int].has_triangles);
        }
    }
}

/// A sticker's object is the first below the stickers' object whose name ends so.
pub proof fn law_the_first_sticker_counts(nodes: Seq<SceneNode>, suffix: Seq<char>)
    requires
        nodes.len() <= usize::MAX,
    ensures
        match first_sticker(nodes, suffix, nodes.len() as int) {
            Some(node) => {
                &&& node < nodes.len()
                &&& crate::hierarchy::named(nodes[node as int], suffix)
                &&& exists|group: int|
                    0 <= group < nodes.len() && crate::hierarchy::named(nodes[group], "_C"@)
                        && #[trigger] crate::hierarchy::under(nodes, node as int, group)
                &&& forall|j: int, group: int|
                    0 <= j < node && 0 <= group < nodes.len() && crate::hierarchy::named(
                        nodes[group],
                        "_C"@,
                    ) && #[trigger] crate::hierarchy::under(nodes, j, group)
                        ==> !crate::hierarchy::named(nodes[j], suffix)
            },
            None => forall|j: int, group: int|
                0 <= j < nodes.len() && 0 <= group < nodes.len() && crate::hierarchy::named(
                    nodes[group],
                    "_C"@,
                ) && #[trigger] crate::hierarchy::under(nodes, j, group)
                    ==> !crate::hierarchy::named(nodes[j], suffix),
        },
{
    lemma_first_sticker(nodes, suffix, nodes.len() as int);
    assert forall|j: int, group: int|
        0 <= group < nodes.len() && crate::hierarchy::named(nodes[group], "_C"@)
            && #[trigger] crate::hierarchy::under(nodes, j, group) implies in_sticker_group(
        nodes,
        j,
    ) by {}
}

proof fn lemma_first_sticker(nodes: Seq<SceneNode>, suffix: Seq<char>, n: int)
    requires
        0 <= n <= nodes.len() <= usize::MAX,
    ensures
        match first_sticker(nodes, suffix, n) {
            Some(node) => {
                &&& node < n
                &&& crate::hierarchy::named(nodes[node as int], suffix)
                &&& in_sticker_group(nodes, node as int)
                &&& forall|j: int|
                    0 <= j < node && #[trigger] in_sticker_group(nodes, j)
                        ==> !crate::hierarchy::named(nodes[j], suffix)
            },
            None => forall|j: int|
                0 <= j < n && #[trigger] in_sticker_group(nodes, j) ==> !crate::hierarchy::named(
                    nodes[j],
                    suffix,
                ),
        },
    decreases n,
{
    if n > 0 {
        lemma_first_sticker(nodes, suffix, n - 1);
    }
}

/// The sticker that a plate is to show ends up shown: everything that hides a sticker comes before
/// the commands for the stickers themselves.
pub proof fn law_stickers_are_shown_after_they_are_hidden(
    nodes: Seq<SceneNode>,
    team: Team,
    label: ArmorLabel,
    slots: Seq<StickerSlot>,
    id: usize,
    i: int,
    j: int,
)
    requires
        nodes.len() <= usize::MAX,
        armor_plan(nodes, team, label, slots, id).build is Built,
        0 <= i < armor_plan(nodes, team, label, slots, id).commands.len(),
        0 <= j < armor_plan(nodes, team, label, slots, id).commands.len(),
        armor_plan(nodes, team, label, slots, id).commands[i] is Sticker,
        armor_plan(nodes, team, label, slots, id).commands[j] is Hide,
    ensures
        j < i,
{
    lemma_built_commands(nodes, team, label, slots, id);
    let count = nodes.len() as int;
    let commands = armor_plan(nodes, team, label, slots, id).commands;
    let shown = stickers(nodes, slots, label, slots.len() as int).commands;
    let tail = commands.len() - 3 - shown.len();
    let (left, right, other_left, other_right) = light_roots(nodes, team)->0;
    let left_meshes = light_meshes(nodes, left as int, count);
    let right_meshes = light_meshes(nodes, right as int, count);
    let left_id = crate::armor::plate::light_visibility_id_spec(id as int, Side::Left) as u32;
    let right_id = crate::armor::plate::light_visibility_id_spec(id as int, Side::Right) as u32;
    let left_strips = strips(nodes, left_meshes, Side::Left, left_id, left_meshes.len() as int);
    let right_strips = strips(
        nodes,
        right_meshes,
        Side::Right,
        right_id,
        right_meshes.len() as int,
    );
    let tagged = tags(nodes, count);
    let start = 3 + tagged.len() + left_strips.commands.len() + right_strips.commands.len() + 3;
    assert(commands.len() == start + hidden(nodes, count).len() + shown.len() + 3);
    if j >= tail && j < tail + shown.len() {
        assert(commands[j] == shown[j - tail]);
        assert(shown.contains(commands[j]));
        lemma_stickers(nodes, slots, label, slots.len() as int, commands[j]);
    }
    if i < tail {
        if i >= start {
            assert(commands[i] == hidden(nodes, count)[i - start]);
            assert(hidden(nodes, count).contains(commands[i]));
            lemma_hidden(nodes, count, commands[i]);
        } else if 1 <= i < 1 + tagged.len() {
            assert(commands[i] == tagged[i - 1]);
            assert(tagged.contains(commands[i]));
            lemma_tags(nodes, count, commands[i]);
        } else if 3 + tagged.len() <= i < 3 + tagged.len() + left_strips.commands.len() {
            assert(commands[i] == left_strips.commands[i - 3 - tagged.len()]);
            assert(left_strips.commands.contains(commands[i]));
            lemma_strips(
                nodes,
                left_meshes,
                Side::Left,
                left_id,
                left_meshes.len() as int,
                commands[i],
            );
        } else if 3 + tagged.len() + left_strips.commands.len() <= i < start - 3 {
            assert(commands[i] == right_strips.commands[i - 3 - tagged.len()
                - left_strips.commands.len()]);
            assert(right_strips.commands.contains(commands[i]));
            lemma_strips(
                nodes,
                right_meshes,
                Side::Right,
                right_id,
                right_meshes.len() as int,
                commands[i],
            );
        }
    }
}

/// Every number is given to one plate at most, and a plate that was built has the number that was
/// next: numbers never go back, and a built plate moves on to the following one.
pub proof fn law_built_plates_have_numbers_of_their_own(
    nodes: Seq<SceneNode>,
    team: Team,
    label: ArmorLabel,
    slots: Seq<StickerSlot>,
    id: usize,
)
    ensures
        ({
            let plan = armor_plan(nodes, team, label, slots, id);
            plan.build matches ArmorBuild::Built(root) ==> root.id.0 == id && plan.numbered
        }),
{
}

/// The meshes of a light become strips in their order, up to the first without triangles.
pub proof fn law_strips_follow_the_meshes(
    nodes: Seq<SceneNode>,
    meshes: Seq<usize>,
    side: Side,
    visibility_id: u32,
    n: int,
)
    requires
        0 <= n <= meshes.len(),
    ensures
        ({
            let stage = strips(nodes, meshes, side, visibility_id, n);
            let done = stage.commands.len() as int;
            &&& done <= n
            &&& forall|k: int|
                0 <= k < done ==> (#[trigger] stage.commands[k]) == (ArmorCommand::Strip {
                    node: meshes[k],
                    side,
                    visibility_id,
                }) && nodes[meshes[k] as int].has_triangles
            &&& stage.complete <==> done == n
            &&& !stage.complete ==> !nodes[meshes[done] as int].has_triangles
        }),
    decreases n,
{
    if n > 0 {
        law_strips_follow_the_meshes(nodes, meshes, side, visibility_id, n - 1);
        let before = strips(nodes, meshes, side, visibility_id, n - 1).commands;
        let stage = strips(nodes, meshes, side, visibility_id, n);
        assert forall|k: int| 0 <= k < stage.commands.len() implies (#[trigger] stage.commands[k])
            == (ArmorCommand::Strip { node: meshes[k], side, visibility_id })
            && nodes[meshes[k] as int].has_triangles by {
            if k < before.len() {
                assert(stage.commands[k] == before[k]);
            }
        }
    }
}

/// The stickers are set up in the order of their slots, up to the first that is missing.
pub proof fn law_stickers_follow_their_slots(
    nodes: Seq<SceneNode>,
    slots: Seq<StickerSlot>,
    label: ArmorLabel,
    n: int,
)
    requires
        0 <= n <= slots.len(),
    ensures
        ({
            let stage = stickers(nodes, slots, label, n);
            let done = stage.commands.len() as int;
            let count = nodes.len() as int;
            &&& done <= n
            &&& forall|k: int|
                0 <= k < done ==> (#[trigger] stage.commands[k]) == (ArmorCommand::Sticker {
                    node: first_sticker(nodes, slots[k].name_suffix@, count)->0,
                    label: slots[k].label,
                    visible: slots[k].label == label,
                }) && first_sticker(nodes, slots[k].name_suffix@, count) is Some
            &&& stage.complete <==> done == n
            &&& !stage.complete ==> first_sticker(nodes, slots[done].name_suffix@, count) is None
        }),
    decreases n,
{
    if n > 0 {
        law_stickers_follow_their_slots(nodes, slots, label, n - 1);
        let before = stickers(nodes, slots, label, n - 1).commands;
        let stage = stickers(nodes, slots, label, n);
        let count = nodes.len() as int;
        assert forall|k: int| 0 <= k < stage.commands.len() implies (#[trigger] stage.commands[k])
            == (ArmorCommand::Sticker {
            node: first_sticker(nodes, slots[k].name_suffix@, count)->0,
            label: slots[k].label,
            visible: slots[k].label == label,
        }) && first_sticker(nodes, slots[k].name_suffix@, count) is Some by {
            if k < before.len() {
                assert(stage.commands[k] == before[k]);
            }
        }
    }
}

/// What was done before a part turned out to be missing stays: the object can be hit and everything
/// with a name belongs to the plate as soon as the object is there, the other team's lights go as soon
/// as all lights are, and marker and corners are set up as far as they are found. The root itself is
/// touched only once the plate is whole.
pub proof fn law_what_an_unfinished_plate_keeps(
    nodes: Seq<SceneNode>,
    team: Team,
    label: ArmorLabel,
    slots: Seq<StickerSlot>,
    id: usize,
    i: usize,
)
    requires
        nodes.len() <= usize::MAX,
    ensures
        ({
            let plan = armor_plan(nodes, team, label, slots, id);
            let armor = crate::hierarchy::find_spec(nodes, "ARMOR"@);
            let marker = crate::hierarchy::find_below_spec(nodes, "MARKER"@);
            let left = crate::hierarchy::find_below_spec(nodes, "VERTEX_L"@);
            let right = crate::hierarchy::find_below_spec(nodes, "VERTEX_R"@);
            let (own_left, own_right) = match team {
                Team::Red => (
                    crate::hierarchy::find_spec(nodes, "L_L_RED"@),
                    crate::hierarchy::find_spec(nodes, "L_R_RED"@),
                ),
                Team::Blue => (
                    crate::hierarchy::find_spec(nodes, "L_L"@),
                    crate::hierarchy::find_spec(nodes, "L_R"@),
                ),
            };
            let (other_left, other_right) = match team {
                Team::Red => (
                    crate::hierarchy::find_spec(nodes, "L_L"@),
                    crate::hierarchy::find_spec(nodes, "L_R"@),
                ),
                Team::Blue => (
                    crate::hierarchy::find_spec(nodes, "L_L_RED"@),
                    crate::hierarchy::find_spec(nodes, "L_R_RED"@),
                ),
            };
            let marked = plan.numbered && lit(nodes, own_left->0 as int) && lit(
                nodes,
                own_right->0 as int,
            ) && marker is Some && nodes[marker->0 as int].has_markers;
            let left_cornered = marked && left is Some && right is Some
                && nodes[left->0 as int].has_points;
            let cornered = left_cornered && nodes[right->0 as int].has_points;
            &&& plan.commands.contains(ArmorCommand::AddCollider(i)) <==> armor == Some(i)
            &&& plan.commands.contains(ArmorCommand::Tag(i)) <==> armor is Some && i < nodes.len()
                && nodes[i as int].name is Some
            &&& plan.commands.contains(ArmorCommand::Despawn(i)) <==> plan.numbered && (other_left
                == Some(i) || other_right == Some(i))
            &&& plan.commands.contains(ArmorCommand::Marker(i)) <==> marked && marker == Some(i)
            &&& plan.commands.contains(ArmorCommand::Vertex { node: i, side: Side::Left })
                <==> left_cornered && left == Some(i)
            &&& plan.commands.contains(ArmorCommand::Vertex { node: i, side: Side::Right })
                <==> cornered && right == Some(i)
            &&& plan.commands.contains(ArmorCommand::Hide(i)) <==> cornered && i < nodes.len()
                && in_sticker_group(nodes, i as int)
            &&& plan.commands.contains(ArmorCommand::TagRoot) <==> plan.build is Built
        }),
{
    lemma_unfinished(nodes, team, label, slots, id, ArmorCommand::AddCollider(i));
    lemma_unfinished(nodes, team, label, slots, id, ArmorCommand::Tag(i));
    lemma_unfinished(nodes, team, label, slots, id, ArmorCommand::Despawn(i));
    lemma_unfinished(nodes, team, label, slots, id, ArmorCommand::Marker(i));
    lemma_unfinished(
        nodes,
        team,
        label,
        slots,
        id,
        ArmorCommand::Vertex { node: i, side: Side::Left },
    );
    lemma_unfinished(
        nodes,
        team,
        label,
        slots,
        id,
        ArmorCommand::Vertex { node: i, side: Side::Right },
    );
    lemma_unfinished(nodes, team, label, slots, id, ArmorCommand::Hide(i));
    lemma_unfinished(nodes, team, label, slots, id, ArmorCommand::TagRoot);
    if light_roots(nodes, team) is Some {
        let (left, right, other_left, other_right) = light_roots(nodes, team)->0;
        lemma_lit(nodes, left as int, Side::Left, id);
        lemma_lit(nodes, right as int, Side::Right, id);
    }
}

/// Which commands there are but strips and stickers, however far the plate got.
proof fn lemma_unfinished(
    nodes: Seq<SceneNode>,
    team: Team,
    label: ArmorLabel,
    slots: Seq<StickerSlot>,
    id: usize,
    c: ArmorCommand,
)
    requires
        nodes.len() <= usize::MAX,
        c !is Strip,
        c !is Sticker,
        c !is DeriveFrame,
        c !is Unframed,
        c !is Finish,
    ensures
        ({
            let plan = armor_plan(nodes, team, label, slots, id);
            let count = nodes.len() as int;
            let armor = crate::hierarchy::find_spec(nodes, "ARMOR"@);
            let (left, right, other_left, other_right) = light_roots(nodes, team)->0;
            let marker = crate::hierarchy::find_below_spec(nodes, "MARKER"@);
            let left_corners = crate::hierarchy::find_below_spec(nodes, "VERTEX_L"@);
            let right_corners = crate::hierarchy::find_below_spec(nodes, "VERTEX_R"@);
            let left_meshes = light_meshes(nodes, left as int, count);
            let right_meshes = light_meshes(nodes, right as int, count);
            let left_id = crate::armor::plate::light_visibility_id_spec(
                id as int,
                Side::Left,
            ) as u32;
            let right_id = crate::armor::plate::light_visibility_id_spec(
                id as int,
                Side::Right,
            ) as u32;
            let marked = armor is Some && light_roots(nodes, team) is Some && left_meshes.len() > 0
                && right_meshes.len() > 0 && strips(
                nodes,
                left_meshes,
                Side::Left,
                left_id,
                left_meshes.len() as int,
            ).complete && strips(
                nodes,
                right_meshes,
                Side::Right,
                right_id,
                right_meshes.len() as int,
            ).complete && marker is Some && nodes[marker->0 as int].has_markers;
            let left_cornered = marked && left_corners is Some && right_corners is Some
                && nodes[left_corners->0 as int].has_points;
            let cornered = left_cornered && nodes[right_corners->0 as int].has_points;
            plan.commands.contains(c) <==> {
                ||| armor is Some && c == ArmorCommand::AddCollider(armor->0)
                ||| armor is Some && (c matches ArmorCommand::Tag(i) && i < count
                    && nodes[i as int].name is Some)
                ||| armor is Some && light_roots(nodes, team) is Some && (c
                    == ArmorCommand::Despawn(other_left) || c == ArmorCommand::Despawn(
                    other_right,
                ))
                ||| marked && c == ArmorCommand::Marker(marker->0)
                ||| left_cornered && c == (ArmorCommand::Vertex {
                    node: left_corners->0,
                    side: Side::Left,
                })
                ||| cornered && c == (ArmorCommand::Vertex {
                    node: right_corners->0,
                    side: Side::Right,
                })
                ||| cornered && (c matches ArmorCommand::Hide(i) && i < count && in_sticker_group(
                    nodes,
                    i as int,
                ))
                ||| cornered && stickers(nodes, slots, label, slots.len() as int).complete
                    && c is TagRoot
            }
        }),
{
    let count = nodes.len() as int;
    let armor = crate::hierarchy::find_spec(nodes, "ARMOR"@)->0;
    let (left, right, other_left, other_right) = light_roots(nodes, team)->0;
    let marker = crate::hierarchy::find_below_spec(nodes, "MARKER"@)->0;
    let left_corners = crate::hierarchy::find_below_spec(nodes, "VERTEX_L"@)->0;
    let right_corners = crate::hierarchy::find_below_spec(nodes, "VERTEX_R"@)->0;
    let left_meshes = light_meshes(nodes, left as int, count);
    let right_meshes = light_meshes(nodes, right as int, count);
    let left_id = crate::armor::plate::light_visibility_id_spec(id as int, Side::Left) as u32;
    let right_id = crate::armor::plate::light_visibility_id_spec(id as int, Side::Right) as u32;
    let left_strips = strips(nodes, left_meshes, Side::Left, left_id, left_meshes.len() as int);
    let right_strips = strips(
        nodes,
        right_meshes,
        Side::Right,
        right_id,
        right_meshes.len() as int,
    );
    let shown = stickers(nodes, slots, label, slots.len() as int);
    let framed = if nodes[left_corners as int].placed && nodes[right_corners as int].placed {
        ArmorCommand::DeriveFrame { armor, marker, left: left_corners, right: right_corners }
    } else {
        ArmorCommand::Unframed
    };
    let start = seq![ArmorCommand::AddCollider(armor)];
    let tagged = start + tags(nodes, count);
    let one_gone = tagged.push(ArmorCommand::Despawn(other_left));
    let both_gone = one_gone.push(ArmorCommand::Despawn(other_right));
    let left_lit = both_gone + left_strips.commands;
    let both_lit = left_lit + right_strips.commands;
    let marked = both_lit.push(ArmorCommand::Marker(marker));
    let half_cornered = marked.push(ArmorCommand::Vertex { node: left_corners, side: Side::Left });
    let bare = half_cornered.push(ArmorCommand::Vertex { node: right_corners, side: Side::Right });
    let cornered = bare + hidden(nodes, count);
    let stuck = cornered + shown.commands;
    let rooted = stuck.push(ArmorCommand::TagRoot);
    let faced = rooted.push(framed);
    assert(start[0] == ArmorCommand::AddCollider(armor));
    assert(start.contains(c) <==> c == ArmorCommand::AddCollider(armor));
    lemma_in_sum(start, tags(nodes, count), c);
    lemma_tags(nodes, count, c);
    lemma_in_push(tagged, ArmorCommand::Despawn(other_left), c);
    lemma_in_push(one_gone, ArmorCommand::Despawn(other_right), c);
    lemma_in_sum(both_gone, left_strips.commands, c);
    lemma_in_sum(left_lit, right_strips.commands, c);
    lemma_strips(nodes, left_meshes, Side::Left, left_id, left_meshes.len() as int, c);
    lemma_strips(nodes, right_meshes, Side::Right, right_id, right_meshes.len() as int, c);
    lemma_in_push(both_lit, ArmorCommand::Marker(marker), c);
    lemma_in_push(marked, ArmorCommand::Vertex { node: left_corners, side: Side::Left }, c);
    lemma_in_push(
        half_cornered,
        ArmorCommand::Vertex { node: right_corners, side: Side::Right },
        c,
    );
    lemma_in_sum(bare, hidden(nodes, count), c);
    lemma_hidden(nodes, count, c);
    lemma_in_sum(cornered, shown.commands, c);
    lemma_stickers(nodes, slots, label, slots.len() as int, c);
    lemma_in_push(stuck, ArmorCommand::TagRoot, c);
    lemma_in_push(rooted, framed, c);
    lemma_in_push(
        faced,
        ArmorCommand::Finish { marker, left: left_corners, right: right_corners },
        c,
    );
}

} // verus!
