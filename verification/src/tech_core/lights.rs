//! The lights of a loaded tech core and the material that each of them gets.
use crate::tech_core::program::{
    flow_activation, AssemblyLightProgram, FlowActivation, LightColor, LightProgram, Team,
    TechCoreFirstLightSegment, TechCoreStep5Lights, FIRST_LIGHT_SEGMENT_COUNT,
};
use crate::text::{find_name, joined, push_decimal};
use crate::EntityId;
use vstd::prelude::*;
use vstd::string::*;

verus! {

/// The materials that a light can have.
#[derive(Debug, Clone, Copy, PartialEq, Eq, Structural)]
pub enum LightMaterial {
    Off,
    White,
    Red,
    Blue,
    Green,
}

/// The material to give to an object and everything below it.
pub type LightAssignment = (EntityId, LightMaterial);

impl LightMaterial {
    pub open spec fn of_color(team: Team, color: LightColor) -> Self {
        match color {
            LightColor::White => LightMaterial::White,
            LightColor::Green => LightMaterial::Green,
            LightColor::Team => match team {
                Team::Red => LightMaterial::Red,
                Team::Blue => LightMaterial::Blue,
            },
        }
    }

    pub open spec fn of_program(team: Team, program: LightProgram, elapsed_ns: int) -> Self {
        match program.active_color_spec(elapsed_ns) {
            Some(color) => Self::of_color(team, color),
            None => LightMaterial::Off,
        }
    }

    /// The material that shows a color for a team.
    pub fn resolve_color(team: Team, color: LightColor) -> (r: Self)
        ensures
            r == Self::of_color(team, color),
    {
        match color {
            LightColor::White => LightMaterial::White,
            LightColor::Green => LightMaterial::Green,
            LightColor::Team => match team {
                Team::Red => LightMaterial::Red,
                Team::Blue => LightMaterial::Blue,
            },
        }
    }

    /// The material that a program of uniform color shows at a moment.
    pub fn resolve(team: Team, program: LightProgram, elapsed_ns: u64) -> (r: Self)
        ensures
            r == Self::of_program(team, program, elapsed_ns as int),
    {
        match program.active_color(elapsed_ns) {
            Some(color) => Self::resolve_color(team, color),
            None => LightMaterial::Off,
        }
    }
}

/// The objects that are there, in order.
pub open spec fn present(slots: Seq<Option<EntityId>>) -> Seq<EntityId>
    decreases slots.len(),
{
    if slots.len() == 0 {
        Seq::empty()
    } else {
        match slots.last() {
            Some(entity) => present(slots.drop_last()).push(entity),
            None => present(slots.drop_last()),
        }
    }
}

/// One material for a list of objects.
pub open spec fn painted(entities: Seq<EntityId>, material: LightMaterial) -> Seq<LightAssignment> {
    entities.map_values(|entity: EntityId| (entity, material))
}

proof fn lemma_present_push(slots: Seq<Option<EntityId>>, slot: Option<EntityId>)
    ensures
        present(slots.push(slot)) == (match slot {
            Some(entity) => present(slots).push(entity),
            None => present(slots),
        }),
{
    assert(slots.push(slot).drop_last() =~= slots);
}

proof fn lemma_painted_push(entities: Seq<EntityId>, entity: EntityId, material: LightMaterial)
    ensures
        painted(entities.push(entity), material) == painted(entities, material).push(
            (entity, material),
        ),
{
    assert(painted(entities.push(entity), material) =~= painted(entities, material).push(
        (entity, material),
    ));
}

/// An object of a list is in the list of those that are there.
proof fn lemma_present_contains(slots: Seq<Option<EntityId>>, i: int)
    requires
        0 <= i < slots.len(),
        slots[i] is Some,
    ensures
        present(slots).contains(slots[i]->0),
    decreases slots.len(),
{
    let rest = present(slots.drop_last());
    if i < slots.len() - 1 {
        lemma_present_contains(slots.drop_last(), i);
        let at = choose|at: int| 0 <= at < rest.len() && rest[at] == slots[i]->0;
        assert(present(slots)[at] == slots[i]->0);
    } else {
        assert(present(slots)[rest.len() as int] == slots[i]->0);
    }
}

/// What is in the list of those that are there is in a slot.
proof fn lemma_present_from_slot(slots: Seq<Option<EntityId>>, at: int) -> (i: int)
    requires
        0 <= at < present(slots).len(),
    ensures
        0 <= i < slots.len(),
        slots[i] == Some(present(slots)[at]),
    decreases slots.len(),
{
    let rest = present(slots.drop_last());
    if at < rest.len() {
        lemma_present_from_slot(slots.drop_last(), at)
    } else {
        slots.len() - 1
    }
}

/// The name of a segment of a half ring: the light, the side and the number counted from one.
pub open spec fn segment_name_spec(prefix: Seq<char>, side: Seq<char>, index: int) -> Seq<char> {
    prefix + "_"@ + side + "_"@ + crate::text::decimal((index + 1) as nat)
}

pub fn segment_name(prefix: &str, side: &str, index: usize) -> (r: String)
    requires
        index < FIRST_LIGHT_SEGMENT_COUNT,
    ensures
        r@ == segment_name_spec(prefix@, side@, index as int),
{
    let mut name: String = joined(prefix, "_");
    name.append(side);
    name.append("_");
    push_decimal(&mut name, index as u64 + 1);
    name
}

/// The names of the missing segments of a half ring, up to place `n`.
pub open spec fn missing_upto(
    slots: Seq<Option<EntityId>>,
    prefix: Seq<char>,
    side: Seq<char>,
    n: int,
) -> Seq<Seq<char>>
    decreases n,
{
    if n <= 0 {
        Seq::empty()
    } else {
        let rest = missing_upto(slots, prefix, side, n - 1);
        if slots[n - 1] is None {
            rest.push(segment_name_spec(prefix, side, n - 1))
        } else {
            rest
        }
    }
}

/// The texts of a list of strings.
pub open spec fn texts(strings: Seq<String>) -> Seq<Seq<char>> {
    strings.map_values(|s: String| s@)
}

/// The objects that make up the first light of a team: a whole ring, or two half rings in segments.
#[derive(Debug)]
pub struct FirstLightSet {
    pub whole: Option<EntityId>,
    pub left: Vec<Option<EntityId>>,
    pub right: Vec<Option<EntityId>>,
}

impl FirstLightSet {
    /// Both half rings have a slot for every segment.
    pub open spec fn wf(self) -> bool {
        self.left@.len() == FIRST_LIGHT_SEGMENT_COUNT && self.right@.len()
            == FIRST_LIGHT_SEGMENT_COUNT
    }

    pub open spec fn has_segments_spec(self) -> bool {
        exists|i: int| 0 <= i < (self.left@ + self.right@).len() && #[trigger] (self.left@
            + self.right@)[i] is Some
    }

    /// The segments that are there, the left half ring first.
    pub open spec fn segments(self) -> Seq<EntityId> {
        present(self.left@ + self.right@)
    }

    /// The segments at one place that are there, left before right.
    pub open spec fn pair(self, index: int) -> Seq<EntityId> {
        present(seq![self.left@[index], self.right@[index]])
    }

    /// One material for the whole light.
    pub open spec fn all_assigned(self, material: LightMaterial) -> Seq<LightAssignment> {
        if self.has_segments_spec() {
            painted(self.segments(), material)
        } else {
            painted(present(seq![self.whole]), material)
        }
    }

    pub open spec fn flow_assigned(self, team: Team, color: LightColor, elapsed_ns: int) -> Seq<
        LightAssignment,
    > {
        let lit = LightMaterial::of_color(team, color);
        if !self.has_segments_spec() {
            self.all_assigned(lit)
        } else {
            self.all_assigned(LightMaterial::Off)
                + match crate::tech_core::program::flow_activation_spec(elapsed_ns) {
                FlowActivation::Segment(index) => painted(self.pair(index as int), lit),
                FlowActivation::All => self.all_assigned(lit),
            }
        }
    }

    pub open spec fn assembly_assigned(
        self,
        team: Team,
        assembly: AssemblyLightProgram,
        lights: TechCoreStep5Lights,
    ) -> Seq<LightAssignment> {
        let own = LightMaterial::of_color(team, LightColor::Team);
        let target = self.pair(lights.target.index_spec() as int);
        let energy_unit = self.pair(lights.energy_unit.index_spec() as int);
        match assembly {
            AssemblyLightProgram::InProgress => if !self.has_segments_spec() {
                self.all_assigned(own)
            } else if lights.energy_unit.index_spec() != lights.target.index_spec() {
                self.all_assigned(LightMaterial::Off) + painted(energy_unit, LightMaterial::White)
                    + painted(target, own)
            } else {
                self.all_assigned(LightMaterial::Off) + painted(target, own)
            },
            AssemblyLightProgram::Completed => if !self.has_segments_spec() {
                self.all_assigned(LightMaterial::Green)
            } else {
                self.all_assigned(LightMaterial::Off) + painted(target, LightMaterial::Green)
            },
        }
    }

    /// The materials that a program calls for, a later one for the same object overriding an
    /// earlier one.
    pub open spec fn program_assigned(
        self,
        team: Team,
        program: LightProgram,
        elapsed_ns: int,
        lights: TechCoreStep5Lights,
    ) -> Seq<LightAssignment> {
        match program {
            LightProgram::Flow { color } => self.flow_assigned(team, color, elapsed_ns),
            LightProgram::Assembly(assembly) => self.assembly_assigned(team, assembly, lights),
            _ => self.all_assigned(LightMaterial::of_program(team, program, elapsed_ns)),
        }
    }

    pub fn new(
        whole: Option<EntityId>,
        left: Vec<Option<EntityId>>,
        right: Vec<Option<EntityId>>,
    ) -> (r: Self)
        ensures
            r.whole == whole,
            r.left == left,
            r.right == right,
    {
        FirstLightSet { whole, left, right }
    }

    /// Whether any segment is there.
    pub fn has_segments(&self) -> (r: bool)
        ensures
            r == self.has_segments_spec(),
    {
        let ghost all = self.left@ + self.right@;
        let mut i: usize = 0;
        while i < self.left.len()
            invariant
                i <= self.left@.len(),
                all == self.left@ + self.right@,
                forall|k: int| 0 <= k < i ==> #[trigger] all[k] is None,
            decreases self.left@.len() - i,
        {
            if self.left[i].is_some() {
                assert(all[i as int] is Some);
                return true;
            }
            i = i + 1;
        }
        let mut j: usize = 0;
        while j < self.right.len()
            invariant
                j <= self.right@.len(),
                all == self.left@ + self.right@,
                forall|k: int| 0 <= k < self.left@.len() + j ==> #[trigger] all[k] is None,
            decreases self.right@.len() - j,
        {
            if self.right[j].is_some() {
                assert(all[self.left@.len() + j] is Some);
                return true;
            }
            j = j + 1;
        }
        false
    }

    /// The names of the segments that are not there, the left half ring first.
    pub fn missing_segments(&self, prefix: &str) -> (r: Vec<String>)
        requires
            self.wf(),
        ensures
            texts(r@) == missing_upto(
                self.left@,
                prefix@,
                "L"@,
                FIRST_LIGHT_SEGMENT_COUNT as int,
            ) + missing_upto(self.right@, prefix@, "R"@, FIRST_LIGHT_SEGMENT_COUNT as int),
    {
        let mut missing: Vec<String> = Vec::new();
        proof {
            assert(texts(missing@) =~= Seq::empty());
        }
        push_missing(&mut missing, &self.left, prefix, "L");
        push_missing(&mut missing, &self.right, prefix, "R");
        proof {
            let left = missing_upto(self.left@, prefix@, "L"@, FIRST_LIGHT_SEGMENT_COUNT as int);
            assert(Seq::<Seq<char>>::empty() + left =~= left);
        }
        missing
    }

    /// The segments that are there, the left half ring first.
    pub fn segment_entities(&self) -> (r: Vec<EntityId>)
        ensures
            r@ == self.segments(),
    {
        let ghost all = self.left@ + self.right@;
        let mut entities: Vec<EntityId> = Vec::new();
        let mut i: usize = 0;
        proof {
            assert(all.take(0) =~= Seq::empty());
        }
        while i < self.left.len()
            invariant
                i <= self.left@.len(),
                all == self.left@ + self.right@,
                entities@ == present(all.take(i as int)),
            decreases self.left@.len() - i,
        {
            proof {
                assert(all.take(i + 1) =~= all.take(i as int).push(all[i as int]));
                lemma_present_push(all.take(i as int), all[i as int]);
            }
            if let Some(entity) = self.left[i] {
                entities.push(entity);
            }
            i = i + 1;
        }
        let mut j: usize = 0;
        while j < self.right.len()
            invariant
                j <= self.right@.len(),
                all == self.left@ + self.right@,
                entities@ == present(all.take(self.left@.len() + j)),
            decreases self.right@.len() - j,
        {
            proof {
                let k = self.left@.len() + j;
                assert(all.take(k + 1) =~= all.take(k).push(all[k]));
                lemma_present_push(all.take(k), all[k]);
            }
            if let Some(entity) = self.right[j] {
                entities.push(entity);
            }
            j = j + 1;
        }
        proof {
            assert(all.take(all.len() as int) =~= all);
        }
        entities
    }

    /// Gives the whole light one material.
    fn assign_all(&self, material: LightMaterial, out: &mut Vec<LightAssignment>)
        ensures
            final(out)@ == old(out)@ + self.all_assigned(material),
    {
        if self.has_segments() {
            let entities: Vec<EntityId> = self.segment_entities();
            paint(&entities, material, out);
        } else {
            paint_slot(self.whole, material, out);
        }
    }

    /// Gives a color to the segments that are lit at a moment and switches the others off.
    fn assign_flow(
        &self,
        team: Team,
        color: LightColor,
        elapsed_ns: u64,
        out: &mut Vec<LightAssignment>,
    )
        requires
            self.wf(),
        ensures
            final(out)@ == old(out)@ + self.flow_assigned(team, color, elapsed_ns as int),
    {
        let lit: LightMaterial = LightMaterial::resolve_color(team, color);
        if !self.has_segments() {
            self.assign_all(lit, out);
            return;
        }
        self.assign_all(LightMaterial::Off, out);
        match flow_activation(elapsed_ns) {
            FlowActivation::Segment(index) => self.assign_pair(index, lit, out),
            FlowActivation::All => self.assign_all(lit, out),
        }
        proof {
            assert(out@ =~= old(out)@ + self.flow_assigned(team, color, elapsed_ns as int));
        }
    }

    fn assign_pair(&self, index: usize, material: LightMaterial, out: &mut Vec<LightAssignment>)
        requires
            self.wf(),
            index < FIRST_LIGHT_SEGMENT_COUNT,
        ensures
            final(out)@ == old(out)@ + painted(self.pair(index as int), material),
    {
        let ghost left = self.left@[index as int];
        let ghost right = self.right@[index as int];
        proof {
            assert(seq![left, right] =~= seq![left].push(right));
            lemma_present_push(seq![left], right);
        }
        paint_slot(self.left[index], material, out);
        paint_slot(self.right[index], material, out);
        proof {
            assert(Seq::<Option<EntityId>>::empty().push(right) =~= seq![right]);
            lemma_present_push(Seq::empty(), right);
            assert(out@ =~= old(out)@ + painted(self.pair(index as int), material));
        }
    }

    /// Gives a material to the two segments at one place.
    fn assign_segment_pair(
        &self,
        segment: TechCoreFirstLightSegment,
        material: LightMaterial,
        out: &mut Vec<LightAssignment>,
    )
        requires
            self.wf(),
        ensures
            final(out)@ == old(out)@ + painted(
                self.pair(segment.index_spec() as int),
                material,
            ),
    {
        self.assign_pair(segment.index(), material, out);
    }

    /// Shows the guidance of the assembly. Where target and energy unit are the same segment, the
    /// target wins.
    fn assign_assembly(
        &self,
        team: Team,
        assembly: AssemblyLightProgram,
        lights: TechCoreStep5Lights,
        out: &mut Vec<LightAssignment>,
    )
        requires
            self.wf(),
        ensures
            final(out)@ == old(out)@ + self.assembly_assigned(team, assembly, lights),
    {
        if !self.has_segments() {
            let fallback: LightColor = match assembly {
                AssemblyLightProgram::InProgress => LightColor::Team,
                AssemblyLightProgram::Completed => LightColor::Green,
            };
            self.assign_all(LightMaterial::resolve_color(team, fallback), out);
            return;
        }
        self.assign_all(LightMaterial::Off, out);
        match assembly {
            AssemblyLightProgram::InProgress => {
                let target: TechCoreFirstLightSegment = lights.target();
                let energy_unit: TechCoreFirstLightSegment = lights.energy_unit();
                if !energy_unit.same(target) {
                    self.assign_segment_pair(
                        energy_unit,
                        LightMaterial::resolve_color(team, LightColor::White),
                        out,
                    );
                }
                self.assign_segment_pair(
                    target,
                    LightMaterial::resolve_color(team, LightColor::Team),
                    out,
                );
            },
            AssemblyLightProgram::Completed => {
                self.assign_segment_pair(
                    lights.target(),
                    LightMaterial::resolve_color(team, LightColor::Green),
                    out,
                );
            },
        }
        proof {
            assert(out@ =~= old(out)@ + self.assembly_assigned(team, assembly, lights));
        }
    }

    /// Adds the materials that a program calls for.
    pub fn assign_program(
        &self,
        team: Team,
        program: LightProgram,
        elapsed_ns: u64,
        lights: TechCoreStep5Lights,
        out: &mut Vec<LightAssignment>,
    )
        requires
            self.wf(),
        ensures
            final(out)@ == old(out)@ + self.program_assigned(
                team,
                program,
                elapsed_ns as int,
                lights,
            ),
    {
        match program {
            LightProgram::Flow { color } => self.assign_flow(team, color, elapsed_ns, out),
            LightProgram::Assembly(assembly) => self.assign_assembly(team, assembly, lights, out),
            _ => {
                let material: LightMaterial = LightMaterial::resolve(team, program, elapsed_ns);
                self.assign_all(material, out);
            },
        }
    }
}

fn paint_slot(slot: Option<EntityId>, material: LightMaterial, out: &mut Vec<LightAssignment>)
    ensures
        final(out)@ == old(out)@ + painted(present(seq![slot]), material),
{
    proof {
        assert(Seq::<Option<EntityId>>::empty().push(slot) =~= seq![slot]);
        lemma_present_push(Seq::empty(), slot);
    }
    if let Some(entity) = slot {
        out.push((entity, material));
    }
    proof {
        assert(out@ =~= old(out)@ + painted(present(seq![slot]), material));
    }
}

fn paint(entities: &Vec<EntityId>, material: LightMaterial, out: &mut Vec<LightAssignment>)
    ensures
        final(out)@ == old(out)@ + painted(entities@, material),
{
    let ghost before = out@;
    let mut i: usize = 0;
    while i < entities.len()
        invariant
            i <= entities@.len(),
            out@ =~= before + painted(entities@.take(i as int), material),
        decreases entities@.len() - i,
    {
        proof {
            assert(entities@.take(i + 1) =~= entities@.take(i as int).push(entities@[i as int]));
            lemma_painted_push(entities@.take(i as int), entities@[i as int], material);
        }
        out.push((entities[i], material));
        i = i + 1;
    }
    proof {
        assert(entities@.take(i as int) =~= entities@);
    }
}

fn push_missing(
    missing: &mut Vec<String>,
    slots: &Vec<Option<EntityId>>,
    prefix: &str,
    side: &str,
)
    requires
        slots@.len() == FIRST_LIGHT_SEGMENT_COUNT,
    ensures
        texts(final(missing)@) == texts(old(missing)@) + missing_upto(
            slots@,
            prefix@,
            side@,
            slots@.len() as int,
        ),
{
    let ghost before = texts(missing@);
    let mut i: usize = 0;
    while i < slots.len()
        invariant
            i <= slots@.len(),
            slots@.len() == FIRST_LIGHT_SEGMENT_COUNT,
            texts(missing@) =~= before + missing_upto(slots@, prefix@, side@, i as int),
        decreases slots@.len() - i,
    {
        if slots[i].is_none() {
            let ghost earlier = missing@;
            let name: String = segment_name(prefix, side, i);
            missing.push(name);
            proof {
                assert(texts(missing@) =~= texts(earlier).push(name@));
            }
        }
        i = i + 1;
    }
}

/// The lights of one team.
#[derive(Debug)]
pub struct TeamCoreLights {
    pub team: Team,
    pub first: FirstLightSet,
    pub second: EntityId,
    pub third: EntityId,
}

impl TeamCoreLights {
    pub fn new(team: Team, first: FirstLightSet, second: EntityId, third: EntityId) -> (r: Self)
        ensures
            r.team == team,
            r.first == first,
            r.second == second,
            r.third == third,
    {
        TeamCoreLights { team, first, second, third }
    }
}

/// Whether a light set is what the names of a scene give under a prefix.
pub open spec fn bound_to(
    set: FirstLightSet,
    names: Seq<(String, EntityId)>,
    prefix: Seq<char>,
) -> bool {
    &&& set.wf()
    &&& set.whole == crate::text::lookup(names, prefix)
    &&& forall|i: int|
        0 <= i < FIRST_LIGHT_SEGMENT_COUNT ==> #[trigger] set.left@[i] == crate::text::lookup(
            names,
            segment_name_spec(prefix, "L"@, i),
        )
    &&& forall|i: int|
        0 <= i < FIRST_LIGHT_SEGMENT_COUNT ==> #[trigger] set.right@[i] == crate::text::lookup(
            names,
            segment_name_spec(prefix, "R"@, i),
        )
}

/// Finds the first light of a team by its name and those of its segments.
pub fn find_first_light_set(names: &Vec<(String, EntityId)>, prefix: &str) -> (r: FirstLightSet)
    ensures
        bound_to(r, names@, prefix@),
{
    let mut left: Vec<Option<EntityId>> = Vec::new();
    let mut right: Vec<Option<EntityId>> = Vec::new();
    let mut index: usize = 0;
    while index < FIRST_LIGHT_SEGMENT_COUNT
        invariant
            index <= FIRST_LIGHT_SEGMENT_COUNT,
            left@.len() == index,
            right@.len() == index,
            forall|i: int|
                0 <= i < index ==> #[trigger] left@[i] == crate::text::lookup(
                    names@,
                    segment_name_spec(prefix@, "L"@, i),
                ),
            forall|i: int|
                0 <= i < index ==> #[trigger] right@[i] == crate::text::lookup(
                    names@,
                    segment_name_spec(prefix@, "R"@, i),
                ),
        decreases FIRST_LIGHT_SEGMENT_COUNT - index,
    {
        let left_name: String = segment_name(prefix, "L", index);
        let right_name: String = segment_name(prefix, "R", index);
        left.push(find_name(names, left_name.as_str()));
        right.push(find_name(names, right_name.as_str()));
        index = index + 1;
    }
    FirstLightSet::new(find_name(names, prefix), left, right)
}

/// The names of a team's three lights.
#[derive(Debug)]
pub struct LightNames {
    pub first: String,
    pub second: String,
    pub third: String,
}

/// The complaint that a scene lacks a light.
pub open spec fn missing_light_text(name: Seq<char>) -> Seq<char> {
    "TECH_CORE.glb is missing "@ + name
}

/// The lights of a team, or the complaint about the first light that the scene lacks. The first
/// light may be missing.
pub fn find_team_lights(
    scene: &Vec<(String, EntityId)>,
    team: Team,
    names: &LightNames,
) -> (r: Result<TeamCoreLights, String>)
    ensures
        ({
            let second = crate::text::lookup(scene@, names.second@);
            let third = crate::text::lookup(scene@, names.third@);
            match r {
                Ok(lights) => {
                    &&& second == Some(lights.second)
                    &&& third == Some(lights.third)
                    &&& lights.team == team
                    &&& bound_to(lights.first, scene@, names.first@)
                },
                Err(text) => if second is None {
                    text@ == missing_light_text(names.second@)
                } else {
                    third is None && text@ == missing_light_text(names.third@)
                },
            }
        }),
{
    let first: FirstLightSet = find_first_light_set(scene, names.first.as_str());
    let second: EntityId = match find_name(scene, names.second.as_str()) {
        Some(second) => second,
        None => return Err(joined("TECH_CORE.glb is missing ", names.second.as_str())),
    };
    let third: EntityId = match find_name(scene, names.third.as_str()) {
        Some(third) => third,
        None => return Err(joined("TECH_CORE.glb is missing ", names.third.as_str())),
    };
    Ok(TeamCoreLights::new(team, first, second, third))
}

/// A list of texts with commas between them.
pub open spec fn comma_list(items: Seq<Seq<char>>) -> Seq<char>
    decreases items.len(),
{
    if items.len() == 0 {
        Seq::empty()
    } else if items.len() == 1 {
        items[0]
    } else {
        comma_list(items.drop_last()) + ", "@ + items.last()
    }
}

/// How many missing segments a complaint names.
pub const MISSING_PREVIEW: usize = 6;

/// The complaint about an incomplete first light, if there is something to complain about.
pub open spec fn incomplete_text(prefix: Seq<char>, set: FirstLightSet) -> Option<Seq<char>> {
    let count = FIRST_LIGHT_SEGMENT_COUNT as int;
    let missing = missing_upto(set.left@, prefix, "L"@, count) + missing_upto(
        set.right@,
        prefix,
        "R"@,
        count,
    );
    if !set.has_segments_spec() {
        if set.whole is None {
            Some(
                "TECH_CORE.glb is missing "@ + prefix + " and segmented "@ + prefix + "_{L,R}_1.."@
                    + crate::text::decimal(FIRST_LIGHT_SEGMENT_COUNT as nat),
            )
        } else {
            None
        }
    } else if missing.len() == 0 {
        None
    } else if missing.len() <= MISSING_PREVIEW {
        Some(
            "TECH_CORE.glb has incomplete "@ + prefix + " segments; missing "@ + comma_list(
                missing,
            ),
        )
    } else {
        Some(
            "TECH_CORE.glb has incomplete "@ + prefix + " segments; missing "@ + comma_list(
                missing.take(MISSING_PREVIEW as int),
            ) + " (+"@ + crate::text::decimal((missing.len() - MISSING_PREVIEW) as nat)
                + " more)"@,
        )
    }
}

/// The complaint about an incomplete first light: all of it missing, or some of its segments, the
/// first six by name and the others counted.
pub fn warn_incomplete_first_light_set(prefix: &str, lights: &FirstLightSet) -> (r: Option<String>)
    requires
        lights.wf(),
    ensures
        match incomplete_text(prefix@, *lights) {
            Some(text) => r is Some && r->0@ == text,
            None => r is None,
        },
{
    if !lights.has_segments() {
        if lights.whole.is_none() {
            let mut text: String = joined("TECH_CORE.glb is missing ", prefix);
            text.append(" and segmented ");
            text.append(prefix);
            text.append("_{L,R}_1..");
            push_decimal(&mut text, FIRST_LIGHT_SEGMENT_COUNT as u64);
            return Some(text);
        }
        return None;
    }
    let missing: Vec<String> = lights.missing_segments(prefix);
    proof {
        assert(texts(missing@).len() == missing@.len());
    }
    if missing.len() == 0 {
        return None;
    }
    let mut text: String = joined("TECH_CORE.glb has incomplete ", prefix);
    text.append(" segments; missing ");
    let shown: usize = if missing.len() > MISSING_PREVIEW {
        MISSING_PREVIEW
    } else {
        missing.len()
    };
    let preview: String = join_commas(&missing, shown);
    text.append(preview.as_str());
    if missing.len() > MISSING_PREVIEW {
        text.append(" (+");
        push_decimal(&mut text, (missing.len() - MISSING_PREVIEW) as u64);
        text.append(" more)");
    } else {
        proof {
            assert(texts(missing@).take(shown as int) =~= texts(missing@));
        }
    }
    Some(text)
}

fn join_commas(items: &Vec<String>, n: usize) -> (r: String)
    requires
        n <= items@.len(),
    ensures
        r@ == comma_list(texts(items@).take(n as int)),
{
    let mut text: String = String::new();
    let mut i: usize = 0;
    proof {
        assert(texts(items@).take(0) =~= Seq::empty());
    }
    while i < n
        invariant
            i <= n <= items@.len(),
            text@ == comma_list(texts(items@).take(i as int)),
        decreases n - i,
    {
        let ghost list = texts(items@);
        proof {
            assert(list.take(i + 1).drop_last() =~= list.take(i as int));
            assert(list.take(i + 1).last() == items@[i as int]@);
        }
        if i > 0 {
            text.append(", ");
        } else {
            proof {
                assert(text@ =~= Seq::empty());
                assert(text@ + items@[i as int]@ =~= items@[i as int]@);
            }
        }
        text.append(items[i].as_str());
        i = i + 1;
    }
    text
}

/// The material that an object has in the end: that of the last assignment to it.
pub open spec fn final_material(assignments: Seq<LightAssignment>, entity: EntityId) -> Option<
    LightMaterial,
>
    decreases assignments.len(),
{
    if assignments.len() == 0 {
        None
    } else if assignments.last().0 == entity {
        Some(assignments.last().1)
    } else {
        final_material(assignments.drop_last(), entity)
    }
}

/// Whether no object stands in two slots of a light set.
pub open spec fn slots_distinct(set: FirstLightSet) -> bool {
    let all = set.left@ + set.right@;
    forall|i: int, j: int|
        0 <= i < all.len() && 0 <= j < all.len() && i != j && #[trigger] all[i] is Some
            ==> all[i] != #[trigger] all[j]
}

/// What two lists of assignments come to, one after the other.
pub proof fn lemma_final_of_sum(
    first: Seq<LightAssignment>,
    second: Seq<LightAssignment>,
    entity: EntityId,
)
    ensures
        final_material(first + second, entity) == (match final_material(second, entity) {
            Some(material) => Some(material),
            None => final_material(first, entity),
        }),
    decreases second.len(),
{
    if second.len() == 0 {
        assert(first + second =~= first);
    } else {
        assert((first + second).drop_last() =~= first + second.drop_last());
        lemma_final_of_sum(first, second.drop_last(), entity);
    }
}

proof fn lemma_final_of_painted(
    entities: Seq<EntityId>,
    material: LightMaterial,
    entity: EntityId,
)
    ensures
        final_material(painted(entities, material), entity) == (if entities.contains(entity) {
            Some(material)
        } else {
            None
        }),
    decreases entities.len(),
{
    if entities.len() > 0 {
        let rest = entities.drop_last();
        assert(painted(entities, material).drop_last() =~= painted(rest, material));
        lemma_final_of_painted(rest, material, entity);
        if entities.contains(entity) && entities.last() != entity {
            let i = choose|i: int| 0 <= i < entities.len() && entities[i] == entity;
            assert(rest[i] == entity);
        }
        if rest.contains(entity) {
            let i = choose|i: int| 0 <= i < rest.len() && rest[i] == entity;
            assert(entities[i] == entity);
        }
        if entities.last() == entity {
            assert(entities[entities.len() - 1] == entity);
        }
    }
}

/// A flowing light shows its color on exactly the segments that are lit at the moment: every
/// segment of a segmented ring is repainted, the pair at the lit place with the color and all
/// others off.
pub proof fn law_flow_lights_exactly_the_active_pair(
    set: FirstLightSet,
    team: Team,
    color: LightColor,
    elapsed_ns: int,
    lit: usize,
    at: int,
)
    requires
        set.wf(),
        slots_distinct(set),
        elapsed_ns >= 0,
        crate::tech_core::program::flow_activation_spec(elapsed_ns) == FlowActivation::Segment(lit),
        0 <= at < FIRST_LIGHT_SEGMENT_COUNT,
    ensures
        ({
            let assigned = set.flow_assigned(team, color, elapsed_ns);
            let expected = if at == lit {
                LightMaterial::of_color(team, color)
            } else {
                LightMaterial::Off
            };
            &&& set.left@[at] matches Some(entity) ==> final_material(assigned, entity) == Some(
                expected,
            )
            &&& set.right@[at] matches Some(entity) ==> final_material(assigned, entity) == Some(
                expected,
            )
        }),
{
    let color_material = LightMaterial::of_color(team, color);
    let all = set.left@ + set.right@;
    let count = FIRST_LIGHT_SEGMENT_COUNT as int;
    let pair_slots = seq![set.left@[lit as int], set.right@[lit as int]];
    assert(pair_slots[0] == all[lit as int]);
    assert(pair_slots[1] == all[count + lit]);
    assert forall|k: int| (k == at || k == count + at) && all[k] is Some implies final_material(
        set.flow_assigned(team, color, elapsed_ns),
        (#[trigger] all[k])->0,
    ) == Some(if at == lit { color_material } else { LightMaterial::Off }) by {
        let entity = all[k]->0;
        assert(set.has_segments_spec());
        lemma_present_contains(all, k);
        lemma_final_of_painted(set.segments(), LightMaterial::Off, entity);
        lemma_final_of_painted(set.pair(lit as int), color_material, entity);
        lemma_final_of_sum(
            set.all_assigned(LightMaterial::Off),
            painted(set.pair(lit as int), color_material),
            entity,
        );
        if at == lit {
            if k == at {
                lemma_present_contains(pair_slots, 0);
            } else {
                lemma_present_contains(pair_slots, 1);
            }
        } else if set.pair(lit as int).contains(entity) {
            let place = choose|place: int|
                0 <= place < set.pair(lit as int).len() && set.pair(lit as int)[place] == entity;
            let slot = lemma_present_from_slot(pair_slots, place);
            if slot == 0 {
                assert(all[k] == all[lit as int]);
            } else {
                assert(all[k] == all[count + lit]);
            }
        }
    }
    assert(all[at] == set.left@[at]);
    assert(all[count + at] == set.right@[at]);
}

/// What painting the whole light comes to: every segment has the material where there is one, and
/// the whole ring where there is none.
proof fn lemma_final_of_all(set: FirstLightSet, material: LightMaterial, at: int)
    requires
        set.wf(),
        0 <= at < FIRST_LIGHT_SEGMENT_COUNT,
    ensures
        ({
            let assigned = set.all_assigned(material);
            &&& set.left@[at] matches Some(entity) ==> set.has_segments_spec() && final_material(
                assigned,
                entity,
            ) == Some(material)
            &&& set.right@[at] matches Some(entity) ==> set.has_segments_spec() && final_material(
                assigned,
                entity,
            ) == Some(material)
            &&& !set.has_segments_spec() ==> (set.whole matches Some(entity) ==> final_material(
                assigned,
                entity,
            ) == Some(material))
        }),
{
    let all = set.left@ + set.right@;
    let count = FIRST_LIGHT_SEGMENT_COUNT as int;
    assert(all[at] == set.left@[at]);
    assert(all[count + at] == set.right@[at]);
    if set.left@[at] is Some {
        lemma_present_contains(all, at);
        lemma_final_of_painted(set.segments(), material, set.left@[at]->0);
    }
    if set.right@[at] is Some {
        lemma_present_contains(all, count + at);
        lemma_final_of_painted(set.segments(), material, set.right@[at]->0);
    }
    if !set.has_segments_spec() && set.whole is Some {
        lemma_present_contains(seq![set.whole], 0);
        lemma_final_of_painted(present(seq![set.whole]), material, set.whole->0);
    }
}

proof fn lemma_no_segments(set: FirstLightSet)
    requires
        set.wf(),
        forall|k: int|
            0 <= k < FIRST_LIGHT_SEGMENT_COUNT ==> (#[trigger] set.left@[k]) is None
                && set.right@[k] is None,
    ensures
        !set.has_segments_spec(),
{
    let all = set.left@ + set.right@;
    assert forall|i: int| 0 <= i < all.len() implies #[trigger] all[i] is None by {
        if i < FIRST_LIGHT_SEGMENT_COUNT {
            assert(all[i] == set.left@[i]);
        } else {
            let k = i - FIRST_LIGHT_SEGMENT_COUNT;
            assert(all[i] == set.right@[k]);
            assert(set.left@[k] is None);
        }
    }
}

/// White and green look the same for both teams, and the color of a team is its own.
pub proof fn law_colors_of_the_teams(team: Team, color: LightColor)
    ensures
        LightMaterial::of_color(team, color) == (if color is White {
            LightMaterial::White
        } else if color is Green {
            LightMaterial::Green
        } else if team is Red {
            LightMaterial::Red
        } else {
            LightMaterial::Blue
        }),
        color.name_for_team(team) == (match LightMaterial::of_color(team, color) {
            LightMaterial::White => "white"@,
            LightMaterial::Green => "green"@,
            LightMaterial::Red => "red"@,
            _ => "blue"@,
        }),
{
}

/// A program of uniform color colors the whole first light alike, all of its segments or, where it
/// has none, the whole ring: with the color that is active at the moment, and with none exactly when
/// no color is active.
pub proof fn law_uniform_programs_color_the_whole_light(
    set: FirstLightSet,
    team: Team,
    program: LightProgram,
    elapsed_ns: int,
    lights: TechCoreStep5Lights,
    at: int,
)
    requires
        set.wf(),
        program is Off || program is Solid || program is Blink,
        0 <= at < FIRST_LIGHT_SEGMENT_COUNT,
    ensures
        ({
            let assigned = set.program_assigned(team, program, elapsed_ns, lights);
            let color = match program {
                LightProgram::Solid(color) => Some(color),
                LightProgram::Blink { color, rate } => if (elapsed_ns * (if rate is Hz1 {
                    1int
                } else {
                    3int
                })) % 1_000_000_000 < 500_000_000 {
                    Some(color)
                } else {
                    None
                },
                _ => None,
            };
            let expected = match (color, team) {
                (None, _) => LightMaterial::Off,
                (Some(LightColor::White), _) => LightMaterial::White,
                (Some(LightColor::Green), _) => LightMaterial::Green,
                (Some(LightColor::Team), Team::Red) => LightMaterial::Red,
                (Some(LightColor::Team), Team::Blue) => LightMaterial::Blue,
            };
            &&& color == program.active_color_spec(elapsed_ns)
            &&& set.left@[at] matches Some(entity) ==> final_material(assigned, entity) == Some(
                expected,
            )
            &&& set.right@[at] matches Some(entity) ==> final_material(assigned, entity) == Some(
                expected,
            )
            &&& (forall|k: int|
                0 <= k < FIRST_LIGHT_SEGMENT_COUNT ==> (#[trigger] set.left@[k]) is None
                    && set.right@[k] is None) ==> (set.whole matches Some(entity)
                ==> final_material(assigned, entity) == Some(expected))
        }),
{
    lemma_final_of_all(set, LightMaterial::of_program(team, program, elapsed_ns), at);
    if forall|k: int|
        0 <= k < FIRST_LIGHT_SEGMENT_COUNT ==> (#[trigger] set.left@[k]) is None
            && set.right@[k] is None {
        lemma_no_segments(set);
    }
}

/// Once a flowing light has run up and back, all of its segments show the color.
pub proof fn law_flow_ends_with_every_segment_lit(
    set: FirstLightSet,
    team: Team,
    color: LightColor,
    elapsed_ns: int,
    lights: TechCoreStep5Lights,
    at: int,
)
    requires
        set.wf(),
        12 * elapsed_ns >= 48_000_000_000,
        0 <= at < FIRST_LIGHT_SEGMENT_COUNT,
    ensures
        ({
            let assigned = set.program_assigned(
                team,
                LightProgram::Flow { color },
                elapsed_ns,
                lights,
            );
            let expected = match (color, team) {
                (LightColor::White, _) => LightMaterial::White,
                (LightColor::Green, _) => LightMaterial::Green,
                (LightColor::Team, Team::Red) => LightMaterial::Red,
                (LightColor::Team, Team::Blue) => LightMaterial::Blue,
            };
            &&& set.left@[at] matches Some(entity) ==> final_material(assigned, entity) == Some(
                expected,
            )
            &&& set.right@[at] matches Some(entity) ==> final_material(assigned, entity) == Some(
                expected,
            )
        }),
{
    let lit = LightMaterial::of_color(team, color);
    lemma_final_of_all(set, lit, at);
    lemma_final_of_all(set, LightMaterial::Off, at);
    if set.left@[at] is Some {
        lemma_final_of_sum(
            set.all_assigned(LightMaterial::Off),
            set.all_assigned(lit),
            set.left@[at]->0,
        );
    }
    if set.right@[at] is Some {
        lemma_final_of_sum(
            set.all_assigned(LightMaterial::Off),
            set.all_assigned(lit),
            set.right@[at]->0,
        );
    }
}

/// While a flowing light runs, the pair of segments at its place shows the color and every other
/// segment is off. It passes twelve places in a second, up the ring and back.
pub proof fn law_flow_passes_the_segments_in_turn(
    set: FirstLightSet,
    team: Team,
    color: LightColor,
    elapsed_ns: int,
    lights: TechCoreStep5Lights,
    step: int,
    at: int,
)
    requires
        set.wf(),
        slots_distinct(set),
        0 <= step < 48,
        step * 1_000_000_000 <= 12 * elapsed_ns < (step + 1) * 1_000_000_000,
        0 <= at < FIRST_LIGHT_SEGMENT_COUNT,
    ensures
        ({
            let assigned = set.program_assigned(
                team,
                LightProgram::Flow { color },
                elapsed_ns,
                lights,
            );
            let lit = if step < 24 {
                step
            } else {
                47 - step
            };
            let expected = match (at == lit, color, team) {
                (false, _, _) => LightMaterial::Off,
                (_, LightColor::White, _) => LightMaterial::White,
                (_, LightColor::Green, _) => LightMaterial::Green,
                (_, LightColor::Team, Team::Red) => LightMaterial::Red,
                (_, LightColor::Team, Team::Blue) => LightMaterial::Blue,
            };
            &&& set.left@[at] matches Some(entity) ==> final_material(assigned, entity) == Some(
                expected,
            )
            &&& set.right@[at] matches Some(entity) ==> final_material(assigned, entity) == Some(
                expected,
            )
        }),
{
    let lit = if step < 24 {
        step
    } else {
        47 - step
    };
    law_flow_lights_exactly_the_active_pair(set, team, color, elapsed_ns, lit as usize, at);
}

/// A ring without segments stands for all of them: it shows the color of a flowing light at every
/// moment, the team's color while the fifth step is in progress, and green once it is completed.
pub proof fn law_a_whole_ring_stands_for_its_segments(
    set: FirstLightSet,
    team: Team,
    color: LightColor,
    elapsed_ns: int,
    lights: TechCoreStep5Lights,
)
    requires
        set.wf(),
        set.whole is Some,
        forall|k: int|
            0 <= k < FIRST_LIGHT_SEGMENT_COUNT ==> (#[trigger] set.left@[k]) is None
                && set.right@[k] is None,
    ensures
        ({
            let own = if team is Red {
                LightMaterial::Red
            } else {
                LightMaterial::Blue
            };
            let shown = match color {
                LightColor::White => LightMaterial::White,
                LightColor::Green => LightMaterial::Green,
                LightColor::Team => own,
            };
            let flow = LightProgram::Flow { color };
            let running = LightProgram::Assembly(AssemblyLightProgram::InProgress);
            let done = LightProgram::Assembly(AssemblyLightProgram::Completed);
            let ring = set.whole->0;
            &&& final_material(set.program_assigned(team, flow, elapsed_ns, lights), ring) == Some(
                shown,
            )
            &&& final_material(set.program_assigned(team, running, elapsed_ns, lights), ring)
                == Some(own)
            &&& final_material(set.program_assigned(team, done, elapsed_ns, lights), ring) == Some(
                LightMaterial::Green,
            )
        }),
{
    lemma_no_segments(set);
    lemma_final_of_all(set, LightMaterial::of_color(team, color), 0);
    lemma_final_of_all(set, LightMaterial::of_color(team, LightColor::Team), 0);
    lemma_final_of_all(set, LightMaterial::Green, 0);
}

/// Whether the object in a slot is in the pair of segments at one place: only where the slot is at
/// that place.
proof fn lemma_pair_membership(set: FirstLightSet, lit: int, at: int)
    requires
        set.wf(),
        slots_distinct(set),
        0 <= lit < FIRST_LIGHT_SEGMENT_COUNT,
        0 <= at < FIRST_LIGHT_SEGMENT_COUNT,
    ensures
        set.left@[at] matches Some(entity) ==> (set.pair(lit).contains(entity) <==> at == lit),
        set.right@[at] matches Some(entity) ==> (set.pair(lit).contains(entity) <==> at == lit),
{
    let all = set.left@ + set.right@;
    let count = FIRST_LIGHT_SEGMENT_COUNT as int;
    let pair_slots = seq![set.left@[lit], set.right@[lit]];
    assert(all[at] == set.left@[at]);
    assert(all[count + at] == set.right@[at]);
    assert(all[lit] == pair_slots[0]);
    assert(all[count + lit] == pair_slots[1]);
    assert forall|k: int| (k == at || k == count + at) && all[k] is Some implies (set.pair(
        lit,
    ).contains((#[trigger] all[k])->0) <==> at == lit) by {
        let entity = all[k]->0;
        if at == lit {
            if k == at {
                lemma_present_contains(pair_slots, 0);
            } else {
                lemma_present_contains(pair_slots, 1);
            }
        } else if set.pair(lit).contains(entity) {
            let place = choose|place: int|
                0 <= place < set.pair(lit).len() && set.pair(lit)[place] == entity;
            let slot = lemma_present_from_slot(pair_slots, place);
            if slot == 0 {
                assert(all[k] == all[lit]);
            } else {
                assert(all[k] == all[count + lit]);
            }
        }
    }
}

/// While the fifth step is in progress, the target's pair of segments shows the team's color and the
/// energy unit's pair white, the target winning where both are one; once it is completed, the
/// target's pair is green. Every other segment is off.
pub proof fn law_assembly_guides_by_target_and_energy_unit(
    set: FirstLightSet,
    team: Team,
    elapsed_ns: int,
    lights: TechCoreStep5Lights,
    at: int,
)
    requires
        set.wf(),
        slots_distinct(set),
        lights.target.index_spec() < FIRST_LIGHT_SEGMENT_COUNT,
        lights.energy_unit.index_spec() < FIRST_LIGHT_SEGMENT_COUNT,
        0 <= at < FIRST_LIGHT_SEGMENT_COUNT,
    ensures
        ({
            let running = set.program_assigned(
                team,
                LightProgram::Assembly(AssemblyLightProgram::InProgress),
                elapsed_ns,
                lights,
            );
            let done = set.program_assigned(
                team,
                LightProgram::Assembly(AssemblyLightProgram::Completed),
                elapsed_ns,
                lights,
            );
            let guided = if at == lights.target.index_spec() {
                if team is Red {
                    LightMaterial::Red
                } else {
                    LightMaterial::Blue
                }
            } else if at == lights.energy_unit.index_spec() {
                LightMaterial::White
            } else {
                LightMaterial::Off
            };
            let completed = if at == lights.target.index_spec() {
                LightMaterial::Green
            } else {
                LightMaterial::Off
            };
            &&& set.left@[at] matches Some(entity) ==> final_material(running, entity) == Some(
                guided,
            ) && final_material(done, entity) == Some(completed)
            &&& set.right@[at] matches Some(entity) ==> final_material(running, entity) == Some(
                guided,
            ) && final_material(done, entity) == Some(completed)
        }),
{
    let target = lights.target.index_spec() as int;
    let energy_unit = lights.energy_unit.index_spec() as int;
    lemma_pair_membership(set, target, at);
    lemma_pair_membership(set, energy_unit, at);
    lemma_final_of_all(set, LightMaterial::Off, at);
    if set.left@[at] is Some {
        lemma_assembly_of(set, team, lights, set.left@[at]->0);
    }
    if set.right@[at] is Some {
        lemma_assembly_of(set, team, lights, set.right@[at]->0);
    }
}

proof fn lemma_assembly_of(
    set: FirstLightSet,
    team: Team,
    lights: TechCoreStep5Lights,
    entity: EntityId,
)
    requires
        set.has_segments_spec(),
        final_material(set.all_assigned(LightMaterial::Off), entity) == Some(LightMaterial::Off),
    ensures
        ({
            let own = LightMaterial::of_color(team, LightColor::Team);
            let target = set.pair(lights.target.index_spec() as int);
            let energy_unit = set.pair(lights.energy_unit.index_spec() as int);
            &&& final_material(
                set.assembly_assigned(team, AssemblyLightProgram::InProgress, lights),
                entity,
            ) == Some(
                if target.contains(entity) {
                    own
                } else if energy_unit.contains(entity) {
                    LightMaterial::White
                } else {
                    LightMaterial::Off
                },
            )
            &&& final_material(
                set.assembly_assigned(team, AssemblyLightProgram::Completed, lights),
                entity,
            ) == Some(
                if target.contains(entity) {
                    LightMaterial::Green
                } else {
                    LightMaterial::Off
                },
            )
        }),
{
    let own = LightMaterial::of_color(team, LightColor::Team);
    let target = set.pair(lights.target.index_spec() as int);
    let energy_unit = set.pair(lights.energy_unit.index_spec() as int);
    let off = set.all_assigned(LightMaterial::Off);
    lemma_final_of_painted(target, own, entity);
    lemma_final_of_painted(target, LightMaterial::Green, entity);
    lemma_final_of_painted(energy_unit, LightMaterial::White, entity);
    lemma_final_of_sum(off, painted(energy_unit, LightMaterial::White), entity);
    lemma_final_of_sum(
        off + painted(energy_unit, LightMaterial::White),
        painted(target, own),
        entity,
    );
    lemma_final_of_sum(off, painted(target, own), entity);
    lemma_final_of_sum(off, painted(target, LightMaterial::Green), entity);
}

/// A program changes nothing but the first light: what stands in none of its slots and is not its
/// ring gets no material. The ring gets none either where there are segments.
pub proof fn law_programs_touch_their_own_light_only(
    set: FirstLightSet,
    team: Team,
    program: LightProgram,
    elapsed_ns: int,
    lights: TechCoreStep5Lights,
    entity: EntityId,
)
    requires
        set.wf(),
        elapsed_ns >= 0,
        lights.target.index_spec() < FIRST_LIGHT_SEGMENT_COUNT,
        lights.energy_unit.index_spec() < FIRST_LIGHT_SEGMENT_COUNT,
        set.whole == Some(entity) ==> exists|k: int|
            0 <= k < FIRST_LIGHT_SEGMENT_COUNT && ((#[trigger] set.left@[k]) is Some
                || set.right@[k] is Some),
        forall|k: int|
            0 <= k < FIRST_LIGHT_SEGMENT_COUNT ==> (#[trigger] set.left@[k]) != Some(entity)
                && set.right@[k] != Some(entity),
    ensures
        final_material(set.program_assigned(team, program, elapsed_ns, lights), entity) is None,
{
    let all = set.left@ + set.right@;
    if set.whole == Some(entity) {
        let k = choose|k: int|
            0 <= k < FIRST_LIGHT_SEGMENT_COUNT && ((#[trigger] set.left@[k]) is Some
                || set.right@[k] is Some);
        assert(all[k] == set.left@[k]);
        assert(all[FIRST_LIGHT_SEGMENT_COUNT + k] == set.right@[k]);
        assert(set.has_segments_spec());
    }
    assert forall|i: int| 0 <= i < all.len() implies #[trigger] all[i] != Some(entity) by {
        if i < FIRST_LIGHT_SEGMENT_COUNT {
            assert(all[i] == set.left@[i]);
        } else {
            let k = i - FIRST_LIGHT_SEGMENT_COUNT;
            assert(all[i] == set.right@[k]);
            assert(set.left@[k] != Some(entity));
        }
    }
    lemma_absent(all, entity);
    if set.whole != Some(entity) {
        lemma_absent(seq![set.whole], entity);
    }
    assert forall|lit: int| 0 <= lit < FIRST_LIGHT_SEGMENT_COUNT implies !(#[trigger] set.pair(
        lit,
    )).contains(entity) by {
        assert(set.left@[lit] != Some(entity));
        lemma_absent(seq![set.left@[lit], set.right@[lit]], entity);
    }
    assert forall|material: LightMaterial|
        final_material(#[trigger] set.all_assigned(material), entity) is None by {
        lemma_final_of_painted(set.segments(), material, entity);
        lemma_final_of_painted(present(seq![set.whole]), material, entity);
    }
    match program {
        LightProgram::Flow { color } => {
            let lit = LightMaterial::of_color(team, color);
            match crate::tech_core::program::flow_activation_spec(elapsed_ns) {
                FlowActivation::Segment(index) => {
                    lemma_final_of_painted(set.pair(index as int), lit, entity);
                    lemma_final_of_sum(
                        set.all_assigned(LightMaterial::Off),
                        painted(set.pair(index as int), lit),
                        entity,
                    );
                },
                FlowActivation::All => {
                    lemma_final_of_sum(
                        set.all_assigned(LightMaterial::Off),
                        set.all_assigned(lit),
                        entity,
                    );
                },
            }
        },
        LightProgram::Assembly(assembly) => {
            let own = LightMaterial::of_color(team, LightColor::Team);
            let target = set.pair(lights.target.index_spec() as int);
            let energy_unit = set.pair(lights.energy_unit.index_spec() as int);
            let off = set.all_assigned(LightMaterial::Off);
            lemma_final_of_painted(target, own, entity);
            lemma_final_of_painted(target, LightMaterial::Green, entity);
            lemma_final_of_painted(energy_unit, LightMaterial::White, entity);
            lemma_final_of_sum(off, painted(energy_unit, LightMaterial::White), entity);
            lemma_final_of_sum(
                off + painted(energy_unit, LightMaterial::White),
                painted(target, own),
                entity,
            );
            lemma_final_of_sum(off, painted(target, own), entity);
            lemma_final_of_sum(off, painted(target, LightMaterial::Green), entity);
        },
        _ => {
            let shown = LightMaterial::of_program(team, program, elapsed_ns);
            assert(final_material(set.all_assigned(shown), entity) is None);
        },
    }
}

proof fn lemma_absent(slots: Seq<Option<EntityId>>, entity: EntityId)
    requires
        forall|i: int| 0 <= i < slots.len() ==> #[trigger] slots[i] != Some(entity),
    ensures
        !present(slots).contains(entity),
{
    if present(slots).contains(entity) {
        let at = choose|at: int| 0 <= at < present(slots).len() && present(slots)[at] == entity;
        let i = lemma_present_from_slot(slots, at);
        assert(slots[i] == Some(entity));
    }
}

/// A segment is named among the missing exactly if its slot is empty, by the light, the side and its
/// number counted from one.
pub proof fn law_missing_segments_are_named(
    slots: Seq<Option<EntityId>>,
    prefix: Seq<char>,
    side: Seq<char>,
    n: int,
    name: Seq<char>,
)
    requires
        0 <= n <= slots.len(),
    ensures
        missing_upto(slots, prefix, side, n).contains(name) <==> exists|i: int|
            0 <= i < n && (#[trigger] slots[i]) is None && name == prefix + "_"@ + side + "_"@
                + crate::text::decimal((i + 1) as nat),
    decreases n,
{
    if n > 0 {
        law_missing_segments_are_named(slots, prefix, side, n - 1, name);
        let before = missing_upto(slots, prefix, side, n - 1);
        let all = missing_upto(slots, prefix, side, n);
        let last = segment_name_spec(prefix, side, n - 1);
        if before.contains(name) {
            let k = choose|k: int| 0 <= k < before.len() && before[k] == name;
            assert(all[k] == name);
            let i = choose|i: int|
                0 <= i < n - 1 && (#[trigger] slots[i]) is None && name == prefix + "_"@ + side
                    + "_"@ + crate::text::decimal((i + 1) as nat);
            assert(slots[i] is None);
        }
        if slots[n - 1] is None && name == last {
            assert(all[before.len() as int] == name);
        }
        if all.contains(name) && !before.contains(name) {
            let k = choose|k: int| 0 <= k < all.len() && all[k] == name;
            if k < before.len() {
                assert(before[k] == name);
            }
            assert(slots[n - 1] is None);
        }
    }
}

/// Nothing is complained about exactly where the first light is whole, in one piece or in all of its
/// segments.
pub proof fn law_complete_lights_are_not_complained_about(prefix: Seq<char>, set: FirstLightSet)
    requires
        set.wf(),
    ensures
        incomplete_text(prefix, set) is None <==> if exists|k: int|
            0 <= k < FIRST_LIGHT_SEGMENT_COUNT && ((#[trigger] set.left@[k]) is Some
                || set.right@[k] is Some) {
            forall|k: int|
                0 <= k < FIRST_LIGHT_SEGMENT_COUNT ==> (#[trigger] set.left@[k]) is Some
                    && set.right@[k] is Some
        } else {
            set.whole is Some
        },
{
    let count = FIRST_LIGHT_SEGMENT_COUNT as int;
    let all = set.left@ + set.right@;
    if set.has_segments_spec() {
        let i = choose|i: int| 0 <= i < all.len() && #[trigger] all[i] is Some;
        if i < count {
            assert(set.left@[i] is Some);
        } else {
            assert(set.right@[i - count] is Some);
            assert(set.left@[i - count] is Some || set.left@[i - count] is None);
        }
    } else {
        assert forall|k: int| 0 <= k < count implies (#[trigger] set.left@[k]) is None
            && set.right@[k] is None by {
            assert(all[k] is None);
            assert(all[count + k] is None);
        }
    }
    lemma_missing_none(set.left@, prefix, "L"@, count);
    lemma_missing_none(set.right@, prefix, "R"@, count);
    if forall|k: int|
        0 <= k < FIRST_LIGHT_SEGMENT_COUNT ==> (#[trigger] set.left@[k]) is Some
            && set.right@[k] is Some {
        assert forall|k: int| 0 <= k < count implies (#[trigger] set.right@[k]) is Some by {
            assert(set.left@[k] is Some);
        }
    }
}

proof fn lemma_missing_none(
    slots: Seq<Option<EntityId>>,
    prefix: Seq<char>,
    side: Seq<char>,
    n: int,
)
    requires
        0 <= n <= slots.len(),
    ensures
        missing_upto(slots, prefix, side, n).len() == 0 <==> forall|i: int|
            0 <= i < n ==> (#[trigger] slots[i]) is Some,
    decreases n,
{
    if n > 0 {
        lemma_missing_none(slots, prefix, side, n - 1);
    }
}

/// The segments of a light are bound by their names, the left half ring by its own and the right one
/// by its own, from the first to the twenty-fourth.
pub proof fn law_segments_are_bound_by_name(
    set: FirstLightSet,
    names: Seq<(String, EntityId)>,
    prefix: Seq<char>,
    i: int,
)
    requires
        bound_to(set, names, prefix),
        0 <= i < 24,
    ensures
        set.left@.len() == 24,
        set.right@.len() == 24,
        set.whole == crate::text::lookup(names, prefix),
        set.left@[i] == crate::text::lookup(
            names,
            prefix + "_"@ + "L"@ + "_"@ + crate::text::decimal((i + 1) as nat),
        ),
        set.right@[i] == crate::text::lookup(
            names,
            prefix + "_"@ + "R"@ + "_"@ + crate::text::decimal((i + 1) as nat),
        ),
{
}

/// A list of texts has a comma and a space between each two of them, and nothing around them.
pub proof fn law_commas_stand_between(items: Seq<Seq<char>>, item: Seq<char>)
    ensures
        comma_list(Seq::empty()) == Seq::<char>::empty(),
        comma_list(seq![item]) == item,
        items.len() > 0 ==> comma_list(items.push(item)) == comma_list(items) + ", "@ + item,
{
    assert(items.push(item).drop_last() =~= items);
}

/// What is said of an incomplete light: that all of it is missing, or which segments are, by name up
/// to six of them, the left half ring first, and beyond that how many more.
pub proof fn law_what_is_said_of_incomplete_lights(prefix: Seq<char>, set: FirstLightSet)
    requires
        set.wf(),
    ensures
        ({
            let missing = missing_upto(set.left@, prefix, "L"@, 24) + missing_upto(
                set.right@,
                prefix,
                "R"@,
                24,
            );
            let some = "TECH_CORE.glb has incomplete "@ + prefix + " segments; missing "@;
            incomplete_text(prefix, set) matches Some(text) ==> text == (
            if !set.has_segments_spec() {
                "TECH_CORE.glb is missing "@ + prefix + " and segmented "@ + prefix + "_{L,R}_1.."@
                    + crate::text::decimal(24)
            } else if missing.len() <= 6 {
                some + comma_list(missing)
            } else {
                some + comma_list(missing.take(6)) + " (+"@ + crate::text::decimal(
                    (missing.len() - 6) as nat,
                ) + " more)"@
            })
        }),
        missing_light_text(prefix) == "TECH_CORE.glb is missing "@ + prefix,
{
}

} // verus!
