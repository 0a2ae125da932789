//! The state of a tech core: its phase, when that began to show, and the lights bound to it.
use crate::tech_core::lights::{
    find_team_lights, warn_incomplete_first_light_set, LightAssignment, LightMaterial, LightNames,
    TeamCoreLights,
};
use crate::tech_core::program::{
    LightColor, LightProgram, Team, TechCoreFirstLightSegment, TechCorePhase, TechCoreStep5Lights,
};
use crate::EntityId;
use vstd::prelude::*;
use vstd::string::*;

verus! {

#[derive(Debug)]
pub struct TechCore {
    pub phase: TechCorePhase,
    pub last_rendered_phase: TechCorePhase,
    pub phase_started_at_ns: u64,
    pub step5_lights: TechCoreStep5Lights,
    pub red: TeamCoreLights,
    pub blue: TeamCoreLights,
}

/// The materials that the three groups of a team's lights get.
pub open spec fn team_assigned(
    lights: TeamCoreLights,
    programs: Seq<LightProgram>,
    elapsed_ns: int,
    step5_lights: TechCoreStep5Lights,
) -> Seq<LightAssignment> {
    lights.first.program_assigned(lights.team, programs[0], elapsed_ns, step5_lights) + seq![
        (lights.second, LightMaterial::of_program(lights.team, programs[1], elapsed_ns)),
        (lights.third, LightMaterial::of_program(lights.team, programs[2], elapsed_ns)),
    ]
}

impl TechCore {
    pub open spec fn wf(self) -> bool {
        self.red.first.wf() && self.blue.first.wf()
    }

    /// How long the present phase has been showing at a moment.
    pub open spec fn phase_elapsed_spec(self, elapsed_ns: int) -> int {
        if self.phase == self.last_rendered_phase && elapsed_ns > self.phase_started_at_ns {
            elapsed_ns - self.phase_started_at_ns
        } else {
            0
        }
    }

    /// The core once its present phase has been shown at a moment.
    pub open spec fn rendered(self, elapsed_ns: u64) -> Self {
        TechCore {
            last_rendered_phase: self.phase,
            phase_started_at_ns: if self.phase != self.last_rendered_phase {
                elapsed_ns
            } else {
                self.phase_started_at_ns
            },
            ..self
        }
    }

    /// The materials of all its lights at a moment.
    pub open spec fn assigned(self, elapsed_ns: u64) -> Seq<LightAssignment> {
        let shown = self.rendered(elapsed_ns).phase_elapsed_spec(elapsed_ns as int);
        let programs = self.phase.programs_spec();
        team_assigned(self.red, programs, shown, self.step5_lights) + team_assigned(
            self.blue,
            programs,
            shown,
            self.step5_lights,
        )
    }

    /// A core that idles, with the given lights.
    pub fn new(red: TeamCoreLights, blue: TeamCoreLights) -> (r: Self)
        ensures
            r.phase is MatchRunningIdle,
            r.last_rendered_phase is MatchRunningIdle,
            r.phase_started_at_ns == 0,
            r.step5_lights.is_default(),
            r.red == red,
            r.blue == blue,
    {
        TechCore {
            phase: TechCorePhase::MatchRunningIdle,
            last_rendered_phase: TechCorePhase::MatchRunningIdle,
            phase_started_at_ns: 0,
            step5_lights: TechCoreStep5Lights::default(),
            red,
            blue,
        }
    }

    pub fn phase(&self) -> (r: TechCorePhase)
        ensures
            r == self.phase,
    {
        self.phase
    }

    pub fn set_phase(&mut self, phase: TechCorePhase)
        ensures
            *final(self) == (TechCore { phase, ..*old(self) }),
    {
        self.phase = phase;
    }

    pub fn step5_lights(&self) -> (r: TechCoreStep5Lights)
        ensures
            r == self.step5_lights,
    {
        self.step5_lights
    }

    pub fn set_step5_lights(&mut self, step5_lights: TechCoreStep5Lights)
        ensures
            *final(self) == (TechCore { step5_lights, ..*old(self) }),
    {
        self.step5_lights = step5_lights;
    }

    pub fn set_step5_target_segment(&mut self, segment: TechCoreFirstLightSegment)
        ensures
            *final(self) == (TechCore {
                step5_lights: TechCoreStep5Lights { target: segment, ..old(self).step5_lights },
                ..*old(self)
            }),
    {
        self.step5_lights = TechCoreStep5Lights::new(segment, self.step5_lights.energy_unit());
    }

    pub fn set_step5_energy_unit_segment(&mut self, segment: TechCoreFirstLightSegment)
        ensures
            *final(self) == (TechCore {
                step5_lights: TechCoreStep5Lights { energy_unit: segment, ..old(self).step5_lights },
                ..*old(self)
            }),
    {
        self.step5_lights = TechCoreStep5Lights::new(self.step5_lights.target(), segment);
    }

    /// Points the target at an angle given in millionths of a degree.
    pub fn set_step5_target_angle_degrees(&mut self, micro_degrees: i64)
        ensures
            final(self).step5_lights.target.index_spec() == (micro_degrees as int % 360_000_000)
                * crate::tech_core::program::FIRST_LIGHT_SEGMENT_COUNT / 360_000_000,
            *final(self) == (TechCore {
                step5_lights: TechCoreStep5Lights {
                    target: final(self).step5_lights.target,
                    ..old(self).step5_lights
                },
                ..*old(self)
            }),
    {
        self.set_step5_target_segment(
            TechCoreFirstLightSegment::from_angle_degrees(micro_degrees),
        );
    }

    /// Points the energy unit at an angle given in millionths of a degree.
    pub fn set_step5_energy_unit_angle_degrees(&mut self, micro_degrees: i64)
        ensures
            final(self).step5_lights.energy_unit.index_spec() == (micro_degrees as int
                % 360_000_000) * crate::tech_core::program::FIRST_LIGHT_SEGMENT_COUNT
                / 360_000_000,
            *final(self) == (TechCore {
                step5_lights: TechCoreStep5Lights {
                    energy_unit: final(self).step5_lights.energy_unit,
                    ..old(self).step5_lights
                },
                ..*old(self)
            }),
    {
        self.set_step5_energy_unit_segment(
            TechCoreFirstLightSegment::from_angle_degrees(micro_degrees),
        );
    }

    /// Goes on to the next phase of the debug cycle.
    pub fn advance_debug(&mut self)
        ensures
            *final(self) == (TechCore { phase: old(self).phase.next_spec(), ..*old(self) }),
    {
        self.phase = self.phase.next_debug();
    }

    /// How long the present phase has been showing. A phase that has not been shown yet counts from
    /// now.
    pub fn phase_elapsed_ns(&self, elapsed_ns: u64) -> (r: u64)
        ensures
            r == self.phase_elapsed_spec(elapsed_ns as int),
    {
        if self.phase == self.last_rendered_phase && elapsed_ns > self.phase_started_at_ns {
            elapsed_ns - self.phase_started_at_ns
        } else {
            0
        }
    }

    /// Marks the present phase as shown, and says for how long it has been.
    pub fn render_elapsed_ns(&mut self, elapsed_ns: u64) -> (r: u64)
        ensures
            *final(self) == old(self).rendered(elapsed_ns),
            r == final(self).phase_elapsed_spec(elapsed_ns as int),
    {
        if self.phase != self.last_rendered_phase {
            self.last_rendered_phase = self.phase;
            self.phase_started_at_ns = elapsed_ns;
        }
        self.phase_elapsed_ns(elapsed_ns)
    }
}

/// A phase starts from zero when it is first shown and then advances with the clock, however often
/// it is shown in between.
pub proof fn law_phase_clock_starts_when_first_shown(core: TechCore, first_ns: u64, later_ns: u64)
    requires
        core.phase != core.last_rendered_phase,
        first_ns <= later_ns,
    ensures
        core.phase_elapsed_spec(first_ns as int) == 0,
        core.rendered(first_ns).phase_elapsed_spec(first_ns as int) == 0,
        core.rendered(first_ns).phase_elapsed_spec(later_ns as int) == later_ns - first_ns,
        core.rendered(first_ns).rendered(later_ns) == core.rendered(first_ns),
{
}

fn assign_team(
    lights: &TeamCoreLights,
    programs: &[LightProgram; 3],
    elapsed_ns: u64,
    step5_lights: TechCoreStep5Lights,
    out: &mut Vec<LightAssignment>,
)
    requires
        lights.first.wf(),
    ensures
        final(out)@ == old(out)@ + team_assigned(
            *lights,
            programs@,
            elapsed_ns as int,
            step5_lights,
        ),
{
    lights.first.assign_program(lights.team, programs[0], elapsed_ns, step5_lights, out);
    out.push((lights.second, LightMaterial::resolve(lights.team, programs[1], elapsed_ns)));
    out.push((lights.third, LightMaterial::resolve(lights.team, programs[2], elapsed_ns)));
    proof {
        assert(out@ =~= old(out)@ + team_assigned(
            *lights,
            programs@,
            elapsed_ns as int,
            step5_lights,
        ));
    }
}

/// The materials of the first `n` cores.
pub open spec fn assigned_upto(cores: Seq<TechCore>, elapsed_ns: u64, n: int) -> Seq<
    LightAssignment,
>
    decreases n,
{
    if n <= 0 {
        Seq::empty()
    } else {
        assigned_upto(cores, elapsed_ns, n - 1) + cores[n - 1].assigned(elapsed_ns)
    }
}

/// Shows every core at a moment: the materials to assign, core by core, the red lights before the
/// blue ones.
pub fn update_tech_core_lights(cores: &mut Vec<TechCore>, elapsed_ns: u64) -> (r: Vec<
    LightAssignment,
>)
    requires
        forall|i: int| 0 <= i < old(cores)@.len() ==> (#[trigger] old(cores)@[i]).wf(),
    ensures
        final(cores)@.len() == old(cores)@.len(),
        forall|i: int|
            0 <= i < old(cores)@.len() ==> #[trigger] final(cores)@[i] == old(cores)@[i].rendered(
                elapsed_ns,
            ),
        r@ == assigned_upto(old(cores)@, elapsed_ns, old(cores)@.len() as int),
{
    let ghost before = cores@;
    let mut out: Vec<LightAssignment> = Vec::new();
    let mut i: usize = 0;
    while i < cores.len()
        invariant
            i <= cores@.len(),
            cores@.len() == before.len(),
            forall|k: int| 0 <= k < before.len() ==> (#[trigger] before[k]).wf(),
            forall|k: int|
                0 <= k < i ==> #[trigger] cores@[k] == before[k].rendered(elapsed_ns),
            forall|k: int| i <= k < before.len() ==> #[trigger] cores@[k] == before[k],
            out@ == assigned_upto(before, elapsed_ns, i as int),
        decreases cores@.len() - i,
    {
        let ghost earlier = out@;
        proof {
            assert(before[i as int].wf());
        }
        let shown: u64 = cores[i].render_elapsed_ns(elapsed_ns);
        let core: &TechCore = &cores[i];
        let programs: [LightProgram; 3] = core.phase.programs();
        assign_team(&core.red, &programs, shown, core.step5_lights, &mut out);
        assign_team(&core.blue, &programs, shown, core.step5_lights, &mut out);
        proof {
            assert(out@ =~= earlier + before[i as int].assigned(elapsed_ns));
        }
        i = i + 1;
    }
    out
}

/// What binding a loaded scene gave: the core, if all its lights were found, and what to complain
/// about.
#[derive(Debug)]
pub struct TechCoreSetup {
    pub core: Option<TechCore>,
    pub warnings: Vec<String>,
}

/// The text of a complaint, where there is one.
pub open spec fn optional_text(text: Option<Seq<char>>) -> Seq<Seq<char>> {
    match text {
        Some(text) => seq![text],
        None => Seq::empty(),
    }
}

fn push_warning(warnings: &mut Vec<String>, warning: Option<String>, Ghost(text): Ghost<
    Option<Seq<char>>,
>)
    requires
        match text {
            Some(text) => warning is Some && warning->0@ == text,
            None => warning is None,
        },
    ensures
        crate::tech_core::lights::texts(final(warnings)@) == crate::tech_core::lights::texts(
            old(warnings)@,
        ) + optional_text(text),
{
    if let Some(warning) = warning {
        warnings.push(warning);
    }
    proof {
        assert(crate::tech_core::lights::texts(warnings@) =~= crate::tech_core::lights::texts(
            old(warnings)@,
        ) + optional_text(text));
    }
}

/// Binds the lights of both teams by the names in a loaded scene. The first light that a team
/// needs and the scene lacks ends it with a complaint; an incomplete first light is complained
/// about and bound as it is.
pub fn setup_tech_core(
    scene: &Vec<(String, EntityId)>,
    red_names: &LightNames,
    blue_names: &LightNames,
) -> (r: TechCoreSetup)
    ensures
        ({
            let red_found = crate::text::lookup(scene@, red_names.second@) is Some
                && crate::text::lookup(scene@, red_names.third@) is Some;
            let blue_found = crate::text::lookup(scene@, blue_names.second@) is Some
                && crate::text::lookup(scene@, blue_names.third@) is Some;
            let warnings = crate::tech_core::lights::texts(r.warnings@);
            &&& r.core is Some <==> red_found && blue_found
            &&& r.core matches Some(core) ==> {
                &&& core.wf()
                &&& core.phase is MatchRunningIdle
                &&& core.last_rendered_phase is MatchRunningIdle
                &&& core.phase_started_at_ns == 0
                &&& core.step5_lights.is_default()
                &&& core.red.team is Red
                &&& core.blue.team is Blue
                &&& crate::text::lookup(scene@, red_names.second@) == Some(core.red.second)
                &&& crate::text::lookup(scene@, red_names.third@) == Some(core.red.third)
                &&& crate::text::lookup(scene@, blue_names.second@) == Some(core.blue.second)
                &&& crate::text::lookup(scene@, blue_names.third@) == Some(core.blue.third)
                &&& crate::tech_core::lights::bound_to(core.red.first, scene@, red_names.first@)
                &&& crate::tech_core::lights::bound_to(core.blue.first, scene@, blue_names.first@)
                &&& warnings == optional_text(
                    crate::tech_core::lights::incomplete_text(red_names.first@, core.red.first),
                ) + optional_text(
                    crate::tech_core::lights::incomplete_text(blue_names.first@, core.blue.first),
                )
            }
            &&& r.core is None ==> warnings == seq![
                crate::tech_core::lights::missing_light_text(
                    if crate::text::lookup(scene@, red_names.second@) is None {
                        red_names.second@
                    } else if !red_found {
                        red_names.third@
                    } else if crate::text::lookup(scene@, blue_names.second@) is None {
                        blue_names.second@
                    } else {
                        blue_names.third@
                    },
                ),
            ]
        }),
{
    let mut warnings: Vec<String> = Vec::new();
    proof {
        assert(crate::tech_core::lights::texts(warnings@) =~= Seq::empty());
    }
    let red: TeamCoreLights = match find_team_lights(scene, Team::Red, red_names) {
        Ok(lights) => lights,
        Err(text) => {
            warnings.push(text);
            proof {
                assert(crate::tech_core::lights::texts(warnings@) =~= seq![text@]);
            }
            return TechCoreSetup { core: None, warnings };
        },
    };
    let blue: TeamCoreLights = match find_team_lights(scene, Team::Blue, blue_names) {
        Ok(lights) => lights,
        Err(text) => {
            warnings.push(text);
            proof {
                assert(crate::tech_core::lights::texts(warnings@) =~= seq![text@]);
            }
            return TechCoreSetup { core: None, warnings };
        },
    };
    let ghost red_text = crate::tech_core::lights::incomplete_text(red_names.first@, red.first);
    let ghost blue_text = crate::tech_core::lights::incomplete_text(blue_names.first@, blue.first);
    push_warning(
        &mut warnings,
        warn_incomplete_first_light_set(red_names.first.as_str(), &red.first),
        Ghost(red_text),
    );
    push_warning(
        &mut warnings,
        warn_incomplete_first_light_set(blue_names.first.as_str(), &blue.first),
        Ghost(blue_text),
    );
    proof {
        assert(Seq::<Seq<char>>::empty() + optional_text(red_text) =~= optional_text(red_text));
    }
    TechCoreSetup { core: Some(TechCore::new(red, blue)), warnings }
}

/// Whether the debug key combination asks for the next phase: C goes down while a shift is held.
pub fn debug_cycle_requested(shift_left: bool, shift_right: bool, c_just_pressed: bool) -> (r: bool)
    ensures
        r == ((shift_left || shift_right) && c_just_pressed),
{
    if !(shift_left || shift_right) || !c_just_pressed {
        return false;
    }
    true
}

/// Moves every core to its next phase when the debug key combination asks for it.
pub fn debug_cycle_tech_core_phase(
    cores: &mut Vec<TechCore>,
    shift_left: bool,
    shift_right: bool,
    c_just_pressed: bool,
)
    ensures
        final(cores)@.len() == old(cores)@.len(),
        forall|i: int|
            0 <= i < old(cores)@.len() ==> #[trigger] final(cores)@[i] == (if (shift_left
                || shift_right) && c_just_pressed {
                TechCore { phase: old(cores)@[i].phase.next_spec(), ..old(cores)@[i] }
            } else {
                old(cores)@[i]
            }),
{
    if !debug_cycle_requested(shift_left, shift_right, c_just_pressed) {
        return;
    }
    let ghost before = cores@;
    let mut i: usize = 0;
    while i < cores.len()
        invariant
            i <= cores@.len(),
            cores@.len() == before.len(),
            forall|k: int|
                0 <= k < i ==> #[trigger] cores@[k] == (TechCore {
                    phase: before[k].phase.next_spec(),
                    ..before[k]
                }),
            forall|k: int| i <= k < before.len() ==> #[trigger] cores@[k] == before[k],
        decreases cores@.len() - i,
    {
        cores[i].advance_debug();
        i = i + 1;
    }
}

/// The second and the third light of a team show their own programs, each in the color that is
/// active at the moment, whatever the first light does.
pub proof fn law_second_and_third_lights_show_their_programs(
    lights: TeamCoreLights,
    programs: Seq<LightProgram>,
    elapsed_ns: int,
    step5_lights: TechCoreStep5Lights,
)
    requires
        programs.len() == 3,
    ensures
        ({
            let assigned = team_assigned(lights, programs, elapsed_ns, step5_lights);
            let expected = |program: LightProgram|
                match (program.active_color_spec(elapsed_ns), lights.team) {
                    (None, _) => LightMaterial::Off,
                    (Some(LightColor::White), _) => LightMaterial::White,
                    (Some(LightColor::Green), _) => LightMaterial::Green,
                    (Some(LightColor::Team), Team::Red) => LightMaterial::Red,
                    (Some(LightColor::Team), Team::Blue) => LightMaterial::Blue,
                };
            &&& lights.second != lights.third ==> crate::tech_core::lights::final_material(
                assigned,
                lights.second,
            ) == Some(expected(programs[1]))
            &&& crate::tech_core::lights::final_material(assigned, lights.third) == Some(
                expected(programs[2]),
            )
        }),
{
    let first = lights.first.program_assigned(lights.team, programs[0], elapsed_ns, step5_lights);
    let second = (
        lights.second,
        LightMaterial::of_program(lights.team, programs[1], elapsed_ns),
    );
    let third = (
        lights.third,
        LightMaterial::of_program(lights.team, programs[2], elapsed_ns),
    );
    let assigned = team_assigned(lights, programs, elapsed_ns, step5_lights);
    assert(assigned.last() == third);
    assert(assigned.drop_last().last() == second);
    reveal_with_fuel(crate::tech_core::lights::final_material, 3);
}

/// What is neither the second nor the third light of a team is as its first light says.
pub proof fn law_the_first_light_shows_its_program(
    lights: TeamCoreLights,
    programs: Seq<LightProgram>,
    elapsed_ns: int,
    step5_lights: TechCoreStep5Lights,
    entity: EntityId,
)
    requires
        programs.len() == 3,
        entity != lights.second,
        entity != lights.third,
    ensures
        crate::tech_core::lights::final_material(
            team_assigned(lights, programs, elapsed_ns, step5_lights),
            entity,
        ) == crate::tech_core::lights::final_material(
            lights.first.program_assigned(lights.team, programs[0], elapsed_ns, step5_lights),
            entity,
        ),
{
    let first = lights.first.program_assigned(lights.team, programs[0], elapsed_ns, step5_lights);
    let assigned = team_assigned(lights, programs, elapsed_ns, step5_lights);
    assert(assigned.drop_last().drop_last() =~= first);
    reveal_with_fuel(crate::tech_core::lights::final_material, 3);
}

/// Every object that only one team's lights claim ends as the programs of the core's phase say for
/// that team, at the time for which the phase has been showing.
pub proof fn law_both_teams_show_the_phase(core: TechCore, elapsed_ns: u64, entity: EntityId)
    ensures
        ({
            let shown = if core.phase != core.last_rendered_phase || elapsed_ns
                <= core.phase_started_at_ns {
                0
            } else {
                elapsed_ns - core.phase_started_at_ns
            };
            let programs = core.phase.programs_spec();
            let red = crate::tech_core::lights::final_material(
                team_assigned(core.red, programs, shown, core.step5_lights),
                entity,
            );
            let blue = crate::tech_core::lights::final_material(
                team_assigned(core.blue, programs, shown, core.step5_lights),
                entity,
            );
            let both = crate::tech_core::lights::final_material(core.assigned(elapsed_ns), entity);
            &&& blue is None ==> both == red
            &&& red is None ==> both == blue
        }),
{
    let shown = if core.phase != core.last_rendered_phase || elapsed_ns
        <= core.phase_started_at_ns {
        0
    } else {
        elapsed_ns - core.phase_started_at_ns
    };
    let programs = core.phase.programs_spec();
    crate::tech_core::lights::lemma_final_of_sum(
        team_assigned(core.red, programs, shown, core.step5_lights),
        team_assigned(core.blue, programs, shown, core.step5_lights),
        entity,
    );
}

/// Every core is shown: what only one core assigns ends as that core says.
pub proof fn law_every_core_is_shown(
    cores: Seq<TechCore>,
    elapsed_ns: u64,
    n: int,
    i: int,
    entity: EntityId,
)
    requires
        0 <= i < n <= cores.len(),
        forall|k: int|
            0 <= k < n && k != i ==> crate::tech_core::lights::final_material(
                (#[trigger] cores[k]).assigned(elapsed_ns),
                entity,
            ) is None,
    ensures
        crate::tech_core::lights::final_material(assigned_upto(cores, elapsed_ns, n), entity)
            == crate::tech_core::lights::final_material(cores[i].assigned(elapsed_ns), entity),
    decreases n,
{
    crate::tech_core::lights::lemma_final_of_sum(
        assigned_upto(cores, elapsed_ns, n - 1),
        cores[n - 1].assigned(elapsed_ns),
        entity,
    );
    if i < n - 1 {
        assert(crate::tech_core::lights::final_material(cores[n - 1].assigned(elapsed_ns), entity)
            is None);
        law_every_core_is_shown(cores, elapsed_ns, n - 1, i, entity);
    } else {
        lemma_unassigned(cores, elapsed_ns, n - 1, entity);
    }
}

proof fn lemma_unassigned(cores: Seq<TechCore>, elapsed_ns: u64, n: int, entity: EntityId)
    requires
        0 <= n <= cores.len(),
        forall|k: int|
            0 <= k < n ==> crate::tech_core::lights::final_material(
                (#[trigger] cores[k]).assigned(elapsed_ns),
                entity,
            ) is None,
    ensures
        crate::tech_core::lights::final_material(assigned_upto(cores, elapsed_ns, n), entity) is None,
    decreases n,
{
    if n > 0 {
        lemma_unassigned(cores, elapsed_ns, n - 1, entity);
        crate::tech_core::lights::lemma_final_of_sum(
            assigned_upto(cores, elapsed_ns, n - 1),
            cores[n - 1].assigned(elapsed_ns),
            entity,
        );
        assert(crate::tech_core::lights::final_material(cores[n - 1].assigned(elapsed_ns), entity)
            is None);
    }
}

/// A phase that is being shown goes on from where it was, however often it is shown, and setting the
/// same phase again does not start it over; showing another one for the first time starts at zero.
pub proof fn law_showing_a_phase_keeps_its_clock(core: TechCore, elapsed_ns: u64, later_ns: u64)
    requires
        elapsed_ns <= later_ns,
    ensures
        core.phase == core.last_rendered_phase ==> core.rendered(elapsed_ns).phase_elapsed_spec(
            later_ns as int,
        ) == core.phase_elapsed_spec(later_ns as int),
        core.phase == core.last_rendered_phase && core.phase_started_at_ns <= elapsed_ns
            ==> core.phase_elapsed_spec(later_ns as int) - core.phase_elapsed_spec(
            elapsed_ns as int,
        ) == later_ns - elapsed_ns,
        core.phase == core.last_rendered_phase && core.phase_started_at_ns >= elapsed_ns
            ==> core.phase_elapsed_spec(elapsed_ns as int) == 0,
        core.rendered(elapsed_ns).phase == core.phase,
        core.rendered(elapsed_ns).step5_lights == core.step5_lights,
        core.rendered(elapsed_ns).red == core.red,
        core.rendered(elapsed_ns).blue == core.blue,
{
}

} // verus!
