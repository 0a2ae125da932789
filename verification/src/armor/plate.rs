//! What is known of an armor plate.
use crate::tech_core::program::Team;
use crate::EntityId;
use std::collections::HashMap;
use vstd::prelude::*;

verus! {

#[derive(Debug, Clone, Copy, PartialEq, Eq, Structural)]
pub enum ArmorType {
    Small,
    Large,
}

/// What the sticker on a plate shows, by its number among all stickers.
#[derive(Debug, Clone, Copy, PartialEq, Eq, Structural)]
pub struct ArmorLabel(pub u8);

/// The make of a plate.
#[derive(Debug, Clone, Copy, PartialEq, Eq, Structural)]
pub struct ArmorSpec {
    pub armor_type: ArmorType,
    pub label: ArmorLabel,
}

impl ArmorSpec {
    pub fn armor_type(&self) -> (r: ArmorType)
        ensures
            r == self.armor_type,
    {
        self.armor_type
    }

    pub fn label(&self) -> (r: ArmorLabel)
        ensures
            r == self.label,
    {
        self.label
    }
}

/// Asks for the plates below an object to be put together.
#[derive(Debug, Clone, Copy, PartialEq, Eq, Structural)]
pub struct ScanArmor {
    pub team: Team,
    pub spec: ArmorSpec,
}

impl ScanArmor {
    pub fn new(team: Team, spec: ArmorSpec) -> (r: Self)
        ensures
            r == (ScanArmor { team, spec }),
    {
        ScanArmor { team, spec }
    }
}

/// Marks an object that belongs to a plate.
#[derive(Debug)]
pub struct Armor {
    pub name: String,
    pub team: Team,
    pub spec: ArmorSpec,
    pub label: ArmorLabel,
}

/// A sticker of a plate.
#[derive(Debug, Clone, Copy, PartialEq, Eq, Structural)]
pub struct ArmorSticker {
    pub root: EntityId,
    pub label: ArmorLabel,
}

/// The first place of a label in a sequence.
pub open spec fn first_place(sequence: Seq<ArmorLabel>, label: ArmorLabel) -> Option<int>
    decreases sequence.len(),
{
    if sequence.len() == 0 {
        None
    } else {
        match first_place(sequence.drop_last(), label) {
            Some(i) => Some(i),
            None => if sequence.last() == label {
                Some(sequence.len() - 1)
            } else {
                None
            },
        }
    }
}

/// The sticker that a plate shows, and its place in the debug sequence of stickers.
#[derive(Debug, Clone, Copy, PartialEq, Eq, Structural)]
pub struct ArmorStickerSelection {
    pub label: ArmorLabel,
    pub sequence_index: usize,
}

impl ArmorStickerSelection {
    /// Shows a label. The debug sequence goes on from its place there, or from the start.
    pub fn new(label: ArmorLabel, sequence: &[ArmorLabel]) -> (r: Self)
        ensures
            r.label == label,
            r.sequence_index == (match first_place(sequence@, label) {
                Some(i) => i,
                None => 0,
            }),
    {
        let mut i: usize = 0;
        proof {
            assert(sequence@.take(0) =~= Seq::empty());
        }
        while i < sequence.len()
            invariant
                i <= sequence@.len(),
                first_place(sequence@.take(i as int), label) is None,
            decreases sequence@.len() - i,
        {
            proof {
                assert(sequence@.take(i + 1).drop_last() =~= sequence@.take(i as int));
            }
            if sequence[i] == label {
                proof {
                    lemma_first_place_stays(sequence@, label, i + 1);
                }
                return ArmorStickerSelection { label, sequence_index: i };
            }
            i = i + 1;
        }
        proof {
            assert(sequence@.take(i as int) =~= sequence@);
        }
        ArmorStickerSelection { label, sequence_index: 0 }
    }

    /// Shows the next label of the debug sequence, starting over after the last.
    pub fn advance_debug_sequence(&mut self, sequence: &[ArmorLabel]) -> (r: ArmorLabel)
        requires
            sequence@.len() > 0,
            old(self).sequence_index < usize::MAX,
        ensures
            final(self).sequence_index == (old(self).sequence_index + 1) % (sequence@.len() as int),
            final(self).label == sequence@[final(self).sequence_index as int],
            r == final(self).label,
    {
        self.sequence_index = (self.sequence_index + 1) % sequence.len();
        self.label = sequence[self.sequence_index];
        self.label
    }
}

proof fn lemma_first_place_stays(sequence: Seq<ArmorLabel>, label: ArmorLabel, n: int)
    requires
        0 <= n <= sequence.len(),
        first_place(sequence.take(n), label) is Some,
    ensures
        first_place(sequence, label) == first_place(sequence.take(n), label),
    decreases sequence.len() - n,
{
    if n == sequence.len() {
        assert(sequence.take(n) =~= sequence);
    } else {
        assert(sequence.take(n + 1).drop_last() =~= sequence.take(n));
        lemma_first_place_stays(sequence, label, n + 1);
    }
}

/// Stepping through the debug sequence once per label shows the first label again.
pub proof fn law_debug_sequence_comes_round(len: int, start: int, steps: nat)
    requires
        0 <= start < len,
    ensures
        stepped(len, start, steps) == (start + steps) % len,
        stepped(len, start, len as nat) == start,
{
    lemma_stepped(len, start, steps);
    lemma_stepped(len, start, len as nat);
    vstd::arithmetic::div_mod::lemma_mod_add_multiples_vanish(start, len);
    vstd::arithmetic::div_mod::lemma_small_mod(start as nat, len as nat);
}

/// The place in a sequence after some steps.
pub open spec fn stepped(len: int, start: int, steps: nat) -> int
    decreases steps,
{
    if steps == 0 {
        start
    } else {
        (stepped(len, start, (steps - 1) as nat) + 1) % len
    }
}

proof fn lemma_stepped(len: int, start: int, steps: nat)
    requires
        0 <= start < len,
    ensures
        stepped(len, start, steps) == (start + steps) % len,
    decreases steps,
{
    if steps == 0 {
        vstd::arithmetic::div_mod::lemma_small_mod(start as nat, len as nat);
    } else {
        lemma_stepped(len, start, (steps - 1) as nat);
        vstd::arithmetic::div_mod::lemma_add_mod_noop_right(1, start + steps - 1, len);
        assert(1 + (start + steps - 1) == start + steps);
    }
}

#[derive(Debug, Copy, Clone, PartialEq, Eq, Hash, Structural)]
pub enum Side {
    Left,
    Right,
}

impl Side {
    pub open spec fn index_spec(self) -> int {
        match self {
            Side::Left => 0,
            Side::Right => 1,
        }
    }

    pub fn index(self) -> (r: usize)
        ensures
            r == self.index_spec(),
    {
        match self {
            Side::Left => 0,
            Side::Right => 1,
        }
    }
}

/// The number of a plate, in the order in which plates were put together.
#[derive(Debug, Copy, Clone, PartialEq, Eq, Hash, Structural)]
pub struct ArmorId(pub usize);

impl ArmorId {
    pub fn as_usize(self) -> (r: usize)
        ensures
            r == self.0,
    {
        self.0
    }
}

/// Marks the root of a plate that has been put together.
#[derive(Debug, Copy, Clone, PartialEq, Eq, Structural)]
pub struct ArmorRoot {
    pub id: ArmorId,
}

/// The number by which the light of one side of a plate is found in the visibility image. Zero is
/// never one.
pub open spec fn light_visibility_id_spec(id: int, side: Side) -> int {
    id * 2 + side.index_spec() + 1
}

impl ArmorRoot {
    pub fn light_visibility_id(&self, side: Side) -> (r: u32)
        requires
            light_visibility_id_spec(self.id.0 as int, side) <= u32::MAX,
        ensures
            r == light_visibility_id_spec(self.id.0 as int, side),
    {
        (self.id.as_usize() as u64 * 2 + side.index() as u64 + 1) as u32
    }
}

/// No two lights share a number, and none has the number of the background.
pub proof fn law_light_numbers_are_distinct(a: nat, a_side: Side, b: nat, b_side: Side)
    requires
        light_visibility_id_spec(a as int, a_side) == light_visibility_id_spec(b as int, b_side),
    ensures
        a == b,
        a_side == b_side,
        light_visibility_id_spec(a as int, a_side) > 0,
{
}

/// The parts of a plate.
#[derive(Debug)]
pub struct ArmorParts {
    pub marker: EntityId,
    pub left_lights: Vec<EntityId>,
    pub right_lights: Vec<EntityId>,
    pub left_vertex: EntityId,
    pub right_vertex: EntityId,
}

impl ArmorParts {
    pub fn marker(&self) -> (r: EntityId)
        ensures
            r == self.marker,
    {
        self.marker
    }

    pub fn vertex(&self, side: Side) -> (r: EntityId)
        ensures
            r == (match side {
                Side::Left => self.left_vertex,
                Side::Right => self.right_vertex,
            }),
    {
        match side {
            Side::Left => self.left_vertex,
            Side::Right => self.right_vertex,
        }
    }

    pub fn lights(&self, side: Side) -> (r: &[EntityId])
        ensures
            r@ == (match side {
                Side::Left => self.left_lights@,
                Side::Right => self.right_lights@,
            }),
    {
        match side {
            Side::Left => self.left_lights.as_slice(),
            Side::Right => self.right_lights.as_slice(),
        }
    }
}

/// The stickers of one root, shown or hidden, among the first `n`.
pub open spec fn stickers_of(
    root: EntityId,
    label: ArmorLabel,
    stickers: Seq<(EntityId, ArmorSticker)>,
    n: int,
) -> Seq<(EntityId, bool)>
    decreases n,
{
    if n <= 0 {
        Seq::empty()
    } else {
        let before = stickers_of(root, label, stickers, n - 1);
        if stickers[n - 1].1.root == root {
            before.push((stickers[n - 1].0, stickers[n - 1].1.label == label))
        } else {
            before
        }
    }
}

/// The stickers of the first `n` selections.
pub open spec fn stickers_shown(
    selections: Seq<(EntityId, ArmorLabel)>,
    stickers: Seq<(EntityId, ArmorSticker)>,
    n: int,
) -> Seq<(EntityId, bool)>
    decreases n,
{
    if n <= 0 {
        Seq::empty()
    } else {
        stickers_shown(selections, stickers, n - 1) + stickers_of(
            selections[n - 1].0,
            selections[n - 1].1,
            stickers,
            stickers.len() as int,
        )
    }
}

/// Which stickers to show and which to hide, for the plates whose selection has changed: of each
/// such plate the sticker with the selected label is shown and the others are hidden.
pub fn sync_armor_stickers(
    selections: &Vec<(EntityId, ArmorLabel)>,
    stickers: &Vec<(EntityId, ArmorSticker)>,
) -> (r: Vec<(EntityId, bool)>)
    ensures
        r@ == stickers_shown(selections@, stickers@, selections@.len() as int),
{
    let mut out: Vec<(EntityId, bool)> = Vec::new();
    let mut i: usize = 0;
    while i < selections.len()
        invariant
            i <= selections@.len(),
            out@ == stickers_shown(selections@, stickers@, i as int),
        decreases selections@.len() - i,
    {
        let (root, label): (EntityId, ArmorLabel) = selections[i];
        let ghost before = out@;
        let mut j: usize = 0;
        while j < stickers.len()
            invariant
                j <= stickers@.len(),
                out@ =~= before + stickers_of(root, label, stickers@, j as int),
            decreases stickers@.len() - j,
        {
            let (entity, sticker): (EntityId, ArmorSticker) = stickers[j];
            if sticker.root == root {
                out.push((entity, sticker.label == label));
            }
            j = j + 1;
        }
        i = i + 1;
    }
    out
}

/// The brighter copies of the materials of light strips, by the material they were made from.
#[derive(Debug)]
pub struct BoostedLightMaterialCache {
    copies: HashMap<u64, u64>,
}

impl BoostedLightMaterialCache {
    pub closed spec fn view(&self) -> Map<u64, u64> {
        self.copies@
    }

    pub fn new() -> (r: Self)
        ensures
            r@ == Map::<u64, u64>::empty(),
    {
        BoostedLightMaterialCache { copies: HashMap::new() }
    }

    /// The copy of a material, if there is one yet.
    pub fn copy_of(&self, material: u64) -> (r: Option<u64>)
        ensures
            r == (if self@.dom().contains(material) {
                Some(self@[material])
            } else {
                None
            }),
    {
        broadcast use vstd::std_specs::hash::group_hash_axioms;

        match self.copies.get(&material) {
            Some(copy) => Some(*copy),
            None => None,
        }
    }

    /// The material that a strip shows from now on: the copy of its material, which is the one that
    /// was just made unless there was one before. So strips of one material share one copy.
    pub fn boost_light_strip(&mut self, material: u64, made: u64) -> (r: u64)
        ensures
            final(self)@ == (if old(self)@.dom().contains(material) {
                old(self)@
            } else {
                old(self)@.insert(material, made)
            }),
            r == final(self)@[material],
    {
        broadcast use vstd::std_specs::hash::group_hash_axioms;

        if let Some(copy) = self.copy_of(material) {
            return copy;
        }
        self.copies.insert(material, made);
        made
    }
}

/// The place of a label is the first one at which it stands.
pub proof fn law_the_first_place_of_a_label(sequence: Seq<ArmorLabel>, label: ArmorLabel)
    ensures
        match first_place(sequence, label) {
            Some(i) => 0 <= i < sequence.len() && sequence[i] == label && forall|k: int|
                0 <= k < i ==> #[trigger] sequence[k] != label,
            None => forall|k: int| 0 <= k < sequence.len() ==> #[trigger] sequence[k] != label,
        },
    decreases sequence.len(),
{
    if sequence.len() > 0 {
        let rest = sequence.drop_last();
        law_the_first_place_of_a_label(rest, label);
        assert forall|k: int| 0 <= k < rest.len() implies #[trigger] sequence[k] == rest[k] by {}
    }
}

/// Two lights of a plate have neighboring numbers, the left one first, and the next plate goes on
/// from there.
pub proof fn law_light_numbers_follow_on(id: int)
    ensures
        light_visibility_id_spec(0, Side::Left) == 1,
        light_visibility_id_spec(id, Side::Right) == light_visibility_id_spec(id, Side::Left) + 1,
        light_visibility_id_spec(id + 1, Side::Left) == light_visibility_id_spec(id, Side::Right)
            + 1,
{
}

/// A sticker of a plate whose selection has changed is shown if it bears the selected label and
/// hidden if not; stickers of other plates are left alone.
pub proof fn law_the_selected_stickers_show(
    selections: Seq<(EntityId, ArmorLabel)>,
    stickers: Seq<(EntityId, ArmorSticker)>,
    n: int,
    entity: EntityId,
    visible: bool,
)
    requires
        0 <= n <= selections.len(),
    ensures
        stickers_shown(selections, stickers, n).contains((entity, visible)) <==> exists|
            i: int,
            j: int,
        |
            0 <= i < n && 0 <= j < stickers.len() && (#[trigger] stickers[j]).0 == entity
                && stickers[j].1.root == (#[trigger] selections[i]).0 && visible == (
            stickers[j].1.label == selections[i].1),
    decreases n,
{
    if n > 0 {
        law_the_selected_stickers_show(selections, stickers, n - 1, entity, visible);
        let (root, label) = selections[n - 1];
        let before = stickers_shown(selections, stickers, n - 1);
        let own = stickers_of(root, label, stickers, stickers.len() as int);
        let all = stickers_shown(selections, stickers, n);
        let wanted = (entity, visible);
        lemma_stickers_of(root, label, stickers, stickers.len() as int, entity, visible);
        if before.contains(wanted) {
            let k = choose|k: int| 0 <= k < before.len() && before[k] == wanted;
            assert(all[k] == wanted);
            let (i, j) = choose|i: int, j: int|
                0 <= i < n - 1 && 0 <= j < stickers.len() && (#[trigger] stickers[j]).0 == entity
                    && stickers[j].1.root == (#[trigger] selections[i]).0 && visible == (
                stickers[j].1.label == selections[i].1);
            assert(stickers[j].1.root == selections[i].0);
        }
        if own.contains(wanted) {
            let k = choose|k: int| 0 <= k < own.len() && own[k] == wanted;
            assert(all[before.len() + k] == wanted);
            let j = choose|j: int|
                0 <= j < stickers.len() && (#[trigger] stickers[j]).0 == entity
                    && stickers[j].1.root == root && visible == (stickers[j].1.label == label);
            assert(stickers[j].1.root == selections[n - 1].0);
        }
        if all.contains(wanted) {
            let k = choose|k: int| 0 <= k < all.len() && all[k] == wanted;
            if k < before.len() {
                assert(before[k] == wanted);
            } else {
                assert(own[k - before.len()] == wanted);
            }
        }
        if exists|i: int, j: int|
            0 <= i < n && 0 <= j < stickers.len() && (#[trigger] stickers[j]).0 == entity
                && stickers[j].1.root == (#[trigger] selections[i]).0 && visible == (
            stickers[j].1.label == selections[i].1) {
            let (i, j) = choose|i: int, j: int|
                0 <= i < n && 0 <= j < stickers.len() && (#[trigger] stickers[j]).0 == entity
                    && stickers[j].1.root == (#[trigger] selections[i]).0 && visible == (
                stickers[j].1.label == selections[i].1);
            if i < n - 1 {
                assert(before.contains(wanted));
            } else {
                assert(own.contains(wanted));
            }
        }
    }
}

proof fn lemma_stickers_of(
    root: EntityId,
    label: ArmorLabel,
    stickers: Seq<(EntityId, ArmorSticker)>,
    n: int,
    entity: EntityId,
    visible: bool,
)
    requires
        0 <= n <= stickers.len(),
    ensures
        stickers_of(root, label, stickers, n).contains((entity, visible)) <==> exists|j: int|
            0 <= j < n && (#[trigger] stickers[j]).0 == entity && stickers[j].1.root == root
                && visible == (stickers[j].1.label == label),
    decreases n,
{
    if n > 0 {
        lemma_stickers_of(root, label, stickers, n - 1, entity, visible);
        let before = stickers_of(root, label, stickers, n - 1);
        let all = stickers_of(root, label, stickers, n);
        let wanted = (entity, visible);
        if before.contains(wanted) {
            let k = choose|k: int| 0 <= k < before.len() && before[k] == wanted;
            assert(all[k] == wanted);
            let j = choose|j: int|
                0 <= j < n - 1 && (#[trigger] stickers[j]).0 == entity && stickers[j].1.root == root
                    && visible == (stickers[j].1.label == label);
            assert(stickers[j].0 == entity);
        }
        if stickers[n - 1].0 == entity && stickers[n - 1].1.root == root && visible == (stickers[n
            - 1].1.label == label) {
            assert(all[before.len() as int] == wanted);
        }
        if all.contains(wanted) && !before.contains(wanted) {
            let k = choose|k: int| 0 <= k < all.len() && all[k] == wanted;
            if k < before.len() {
                assert(before[k] == wanted);
            }
            assert(stickers[n - 1].0 == entity);
        }
    }
}

} // verus!
