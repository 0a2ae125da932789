//! The JSON report on the state of the tech cores.
use crate::json::{
    json_array, json_float, json_integer, json_object, json_set, json_string, json_to_string,
    JsonModel,
};
use crate::tech_core::program::{
    flow_activation, team_name, AssemblyLightProgram, FlowActivation, LightColor, LightProgram, Team,
    TechCoreFirstLightSegment, TechCoreLightGroup, TechCorePhase, TechCoreStep5Lights,
    FIRST_LIGHT_SEGMENT_COUNT, FLOW_SEGMENT_HZ,
};
use crate::tech_core::state::TechCore;
use serde_json::Value;
use vstd::prelude::*;

verus! {

/// An object with one entry.
pub open spec fn object_1(k: Seq<char>, v: JsonModel) -> JsonModel {
    JsonModel::Object(Map::empty().insert(k, v))
}

/// An object with two entries.
pub open spec fn object_2(
    k1: Seq<char>,
    v1: JsonModel,
    k2: Seq<char>,
    v2: JsonModel,
) -> JsonModel {
    JsonModel::Object(Map::empty().insert(k1, v1).insert(k2, v2))
}

/// An object with three entries.
pub open spec fn object_3(
    k1: Seq<char>,
    v1: JsonModel,
    k2: Seq<char>,
    v2: JsonModel,
    k3: Seq<char>,
    v3: JsonModel,
) -> JsonModel {
    JsonModel::Object(Map::empty().insert(k1, v1).insert(k2, v2).insert(k3, v3))
}

/// What a program looks like in the report.
pub open spec fn program_json(program: LightProgram, team: Team) -> JsonModel {
    match program {
        LightProgram::Off => object_1("mode"@, JsonModel::Text("off"@)),
        LightProgram::Solid(color) => object_2(
            "mode"@,
            JsonModel::Text("solid"@),
            "color"@,
            JsonModel::Text(color.name_for_team(team)),
        ),
        LightProgram::Blink { color, rate } => object_3(
            "mode"@,
            JsonModel::Text("blink"@),
            "color"@,
            JsonModel::Text(color.name_for_team(team)),
            "hz"@,
            JsonModel::Float(rate.hz_spec() as int),
        ),
        LightProgram::Flow { color } => object_3(
            "mode"@,
            JsonModel::Text("flow"@),
            "color"@,
            JsonModel::Text(color.name_for_team(team)),
            "segment_hz"@,
            JsonModel::Float(FLOW_SEGMENT_HZ as int),
        ),
        LightProgram::Assembly(AssemblyLightProgram::InProgress) => object_3(
            "mode"@,
            JsonModel::Text("step5_in_progress"@),
            "target_color"@,
            JsonModel::Text(LightColor::Team.name_for_team(team)),
            "energy_unit_color"@,
            JsonModel::Text(LightColor::White.name_for_team(team)),
        ),
        LightProgram::Assembly(AssemblyLightProgram::Completed) => object_2(
            "mode"@,
            JsonModel::Text("step5_completed"@),
            "target_color"@,
            JsonModel::Text(LightColor::Green.name_for_team(team)),
        ),
    }
}

impl LightProgram {
    /// The program as it stands in the report.
    pub fn json_value(self, team: Team) -> (r: Value)
        ensures
            crate::json::json_model(r) == program_json(self, team),
    {
        let mut value: Value = json_object();
        match self {
            LightProgram::Off => {
                json_set(&mut value, "mode", json_string("off"));
            },
            LightProgram::Solid(color) => {
                json_set(&mut value, "mode", json_string("solid"));
                json_set(&mut value, "color", json_string(color.as_str_for_team(team)));
            },
            LightProgram::Blink { color, rate } => {
                json_set(&mut value, "mode", json_string("blink"));
                json_set(&mut value, "color", json_string(color.as_str_for_team(team)));
                json_set(&mut value, "hz", json_float(rate.hz()));
            },
            LightProgram::Flow { color } => {
                json_set(&mut value, "mode", json_string("flow"));
                json_set(&mut value, "color", json_string(color.as_str_for_team(team)));
                json_set(&mut value, "segment_hz", json_float(FLOW_SEGMENT_HZ));
            },
            LightProgram::Assembly(AssemblyLightProgram::InProgress) => {
                json_set(&mut value, "mode", json_string("step5_in_progress"));
                json_set(
                    &mut value,
                    "target_color",
                    json_string(LightColor::Team.as_str_for_team(team)),
                );
                json_set(
                    &mut value,
                    "energy_unit_color",
                    json_string(LightColor::White.as_str_for_team(team)),
                );
            },
            LightProgram::Assembly(AssemblyLightProgram::Completed) => {
                json_set(&mut value, "mode", json_string("step5_completed"));
                json_set(
                    &mut value,
                    "target_color",
                    json_string(LightColor::Green.as_str_for_team(team)),
                );
            },
        }
        value
    }
}

/// A segment in the list of those that a flowing light shows.
pub open spec fn flow_segment_json(side: Seq<char>, index: int) -> JsonModel {
    object_2("side"@, JsonModel::Text(side), "index"@, JsonModel::Integer(index + 1))
}

/// The pairs of segments at the first `n` places.
pub open spec fn flow_pairs_json(n: int) -> Seq<JsonModel>
    decreases n,
{
    if n <= 0 {
        Seq::empty()
    } else {
        flow_pairs_json(n - 1).push(flow_segment_json("left"@, n - 1)).push(
            flow_segment_json("right"@, n - 1),
        )
    }
}

/// The segments that a flowing light shows at a moment.
pub open spec fn flow_segments_json(elapsed_ns: int) -> JsonModel {
    match crate::tech_core::program::flow_activation_spec(elapsed_ns) {
        FlowActivation::Segment(index) => JsonModel::Array(
            seq![
                flow_segment_json("left"@, index as int),
                flow_segment_json("right"@, index as int),
            ],
        ),
        FlowActivation::All => JsonModel::Array(
            flow_pairs_json(FIRST_LIGHT_SEGMENT_COUNT as int),
        ),
    }
}

fn segment_json(side: &str, index: usize) -> (r: Value)
    requires
        index < FIRST_LIGHT_SEGMENT_COUNT,
    ensures
        crate::json::json_model(r) == flow_segment_json(side@, index as int),
{
    let mut value: Value = json_object();
    json_set(&mut value, "side", json_string(side));
    json_set(&mut value, "index", json_integer(index as i64 + 1));
    value
}

/// Adds a value to a list, and says so of the contents.
fn push_json(values: &mut Vec<Value>, value: Value)
    ensures
        crate::json::json_models(final(values)@) == crate::json::json_models(old(values)@).push(
            crate::json::json_model(value),
        ),
{
    values.push(value);
    proof {
        assert(crate::json::json_models(values@) =~= crate::json::json_models(old(values)@).push(
            crate::json::json_model(value),
        ));
    }
}

/// The segments that a flowing light shows at a moment, as they stand in the report.
pub fn flow_active_segments_json(elapsed_ns: u64) -> (r: Value)
    ensures
        crate::json::json_model(r) == flow_segments_json(elapsed_ns as int),
{
    let mut values: Vec<Value> = Vec::new();
    proof {
        assert(crate::json::json_models(values@) =~= Seq::empty());
    }
    match flow_activation(elapsed_ns) {
        FlowActivation::Segment(index) => {
            push_json(&mut values, segment_json("left", index));
            push_json(&mut values, segment_json("right", index));
            proof {
                assert(crate::json::json_models(values@) =~= seq![
                    flow_segment_json("left"@, index as int),
                    flow_segment_json("right"@, index as int),
                ]);
            }
        },
        FlowActivation::All => {
            let mut index: usize = 0;
            while index < FIRST_LIGHT_SEGMENT_COUNT
                invariant
                    index <= FIRST_LIGHT_SEGMENT_COUNT,
                    crate::json::json_models(values@) == flow_pairs_json(index as int),
                decreases FIRST_LIGHT_SEGMENT_COUNT - index,
            {
                push_json(&mut values, segment_json("left", index));
                push_json(&mut values, segment_json("right", index));
                index = index + 1;
            }
        },
    }
    json_array(values)
}

/// A lit segment of the assembly guidance.
pub open spec fn guide_json(
    side: Seq<char>,
    index: int,
    color: Seq<char>,
    role: Seq<char>,
) -> JsonModel {
    JsonModel::Object(
        Map::empty().insert("side"@, JsonModel::Text(side)).insert(
            "index"@,
            JsonModel::Integer(index + 1),
        ).insert("color"@, JsonModel::Text(color)).insert("role"@, JsonModel::Text(role)),
    )
}

/// The two segments at one place, left before right.
pub open spec fn guide_pair_json(index: int, color: Seq<char>, role: Seq<char>) -> Seq<JsonModel> {
    seq![guide_json("left"@, index, color, role), guide_json("right"@, index, color, role)]
}

/// The segments that guide the fifth step.
pub open spec fn step5_segments_json(
    team: Team,
    assembly: AssemblyLightProgram,
    lights: TechCoreStep5Lights,
) -> JsonModel {
    let target = lights.target.index_spec() as int;
    let energy_unit = lights.energy_unit.index_spec() as int;
    match assembly {
        AssemblyLightProgram::InProgress => {
            let target_pair = guide_pair_json(
                target,
                LightColor::Team.name_for_team(team),
                "target"@,
            );
            if energy_unit != target {
                JsonModel::Array(
                    target_pair + guide_pair_json(
                        energy_unit,
                        LightColor::White.name_for_team(team),
                        "energy_unit"@,
                    ),
                )
            } else {
                JsonModel::Array(target_pair)
            }
        },
        AssemblyLightProgram::Completed => JsonModel::Array(
            guide_pair_json(target, LightColor::Green.name_for_team(team), "target"@),
        ),
    }
}

fn guide_value(side: &str, number: usize, color: &str, role: &str) -> (r: Value)
    requires
        1 <= number <= FIRST_LIGHT_SEGMENT_COUNT,
    ensures
        crate::json::json_model(r) == guide_json(side@, number - 1, color@, role@),
{
    let mut value: Value = json_object();
    json_set(&mut value, "side", json_string(side));
    json_set(&mut value, "index", json_integer(number as i64));
    json_set(&mut value, "color", json_string(color));
    json_set(&mut value, "role", json_string(role));
    value
}

/// Adds the two segments at one place to a list.
pub fn segment_pair_json(
    values: &mut Vec<Value>,
    segment: TechCoreFirstLightSegment,
    color: &str,
    role: &str,
)
    ensures
        crate::json::json_models(final(values)@) == crate::json::json_models(old(values)@)
            + guide_pair_json(segment.index_spec() as int, color@, role@),
{
    let ghost before = crate::json::json_models(values@);
    push_json(values, guide_value("left", segment.number(), color, role));
    push_json(values, guide_value("right", segment.number(), color, role));
    proof {
        assert(crate::json::json_models(values@) =~= before + guide_pair_json(
            segment.index_spec() as int,
            color@,
            role@,
        ));
    }
}

/// The segments that guide the fifth step, as they stand in the report.
pub fn step5_active_segments_json(
    team: Team,
    assembly: AssemblyLightProgram,
    lights: TechCoreStep5Lights,
) -> (r: Value)
    ensures
        crate::json::json_model(r) == step5_segments_json(team, assembly, lights),
{
    let mut segments: Vec<Value> = Vec::new();
    let target: TechCoreFirstLightSegment = lights.target();
    proof {
        assert(crate::json::json_models(segments@) =~= Seq::empty());
    }
    match assembly {
        AssemblyLightProgram::InProgress => {
            segment_pair_json(
                &mut segments,
                target,
                LightColor::Team.as_str_for_team(team),
                "target",
            );
            let energy_unit: TechCoreFirstLightSegment = lights.energy_unit();
            if !energy_unit.same(target) {
                segment_pair_json(
                    &mut segments,
                    energy_unit,
                    LightColor::White.as_str_for_team(team),
                    "energy_unit",
                );
            }
        },
        AssemblyLightProgram::Completed => {
            segment_pair_json(
                &mut segments,
                target,
                LightColor::Green.as_str_for_team(team),
                "target",
            );
        },
    }
    proof {
        assert(crate::json::json_models(segments@) =~= step5_segments_json(
            team,
            assembly,
            lights,
        )->Array_0);
    }
    json_array(segments)
}

/// The color that the report names for a light group.
pub open spec fn active_color_name(program: LightProgram, team: Team, elapsed_ns: int) -> Seq<
    char,
> {
    match program {
        LightProgram::Assembly(AssemblyLightProgram::InProgress) => "mixed"@,
        _ => match program.active_color_spec(elapsed_ns) {
            Some(color) => color.name_for_team(team),
            None => "off"@,
        },
    }
}

/// What a light group looks like in the report. Only the first group has segments.
pub open spec fn light_json(
    phase: TechCorePhase,
    team: Team,
    group: TechCoreLightGroup,
    elapsed_ns: int,
    lights: TechCoreStep5Lights,
) -> JsonModel {
    let program = phase.programs_spec()[group.index_spec()];
    let entries = Map::empty().insert(
        "team"@,
        JsonModel::Text(crate::tech_core::program::team_name_spec(team)),
    ).insert("group"@, JsonModel::Integer(group.index_spec() + 1)).insert(
        "program"@,
        program_json(program, team),
    ).insert("active_color"@, JsonModel::Text(active_color_name(program, team, elapsed_ns)));
    match program {
        LightProgram::Flow { .. } if group is First => JsonModel::Object(
            entries.insert("active_segments"@, flow_segments_json(elapsed_ns)),
        ),
        LightProgram::Assembly(assembly) if group is First => JsonModel::Object(
            entries.insert("active_segments"@, step5_segments_json(team, assembly, lights)),
        ),
        _ => JsonModel::Object(entries),
    }
}

/// A light group as it stands in the report.
pub fn light_json_value(
    phase: TechCorePhase,
    team: Team,
    group: TechCoreLightGroup,
    elapsed_ns: u64,
    lights: TechCoreStep5Lights,
) -> (r: Value)
    ensures
        crate::json::json_model(r) == light_json(phase, team, group, elapsed_ns as int, lights),
{
    let programs: [LightProgram; 3] = phase.programs();
    let program: LightProgram = programs[group.index()];
    let active_color: &str = match program {
        LightProgram::Assembly(AssemblyLightProgram::InProgress) => "mixed",
        LightProgram::Assembly(AssemblyLightProgram::Completed) => {
            LightColor::Green.as_str_for_team(team)
        },
        _ => match program.active_color(elapsed_ns) {
            Some(color) => color.as_str_for_team(team),
            None => "off",
        },
    };
    let mut value: Value = json_object();
    json_set(&mut value, "team", json_string(team_name(team)));
    json_set(&mut value, "group", json_integer(group.number() as i64));
    json_set(&mut value, "program", program.json_value(team));
    json_set(&mut value, "active_color", json_string(active_color));
    match program {
        LightProgram::Flow { .. } => {
            if group == TechCoreLightGroup::First {
                json_set(&mut value, "active_segments", flow_active_segments_json(elapsed_ns));
            }
        },
        LightProgram::Assembly(assembly) => {
            if group == TechCoreLightGroup::First {
                json_set(
                    &mut value,
                    "active_segments",
                    step5_active_segments_json(team, assembly, lights),
                );
            }
        },
        _ => {},
    }
    value
}

/// What a core looks like in the report: its phase and six light groups, the red ones first.
pub open spec fn core_json(
    phase: TechCorePhase,
    elapsed_ns: int,
    lights: TechCoreStep5Lights,
) -> JsonModel {
    let red = Team::Red;
    let blue = Team::Blue;
    object_2(
        "phase"@,
        object_2(
            "id"@,
            JsonModel::Integer(phase.id_spec() as int),
            "name"@,
            JsonModel::Text(phase.name_spec()),
        ),
        "lights"@,
        JsonModel::Array(
            seq![
                light_json(phase, red, TechCoreLightGroup::First, elapsed_ns, lights),
                light_json(phase, red, TechCoreLightGroup::Second, elapsed_ns, lights),
                light_json(phase, red, TechCoreLightGroup::Third, elapsed_ns, lights),
                light_json(phase, blue, TechCoreLightGroup::First, elapsed_ns, lights),
                light_json(phase, blue, TechCoreLightGroup::Second, elapsed_ns, lights),
                light_json(phase, blue, TechCoreLightGroup::Third, elapsed_ns, lights),
            ],
        ),
    )
}

/// A core as it stands in the report.
pub fn tech_core_phase_json_value(
    phase: TechCorePhase,
    elapsed_ns: u64,
    lights: TechCoreStep5Lights,
) -> (r: Value)
    ensures
        crate::json::json_model(r) == core_json(phase, elapsed_ns as int, lights),
{
    let mut groups: Vec<Value> = Vec::new();
    proof {
        assert(crate::json::json_models(groups@) =~= Seq::empty());
    }
    let first: TechCoreLightGroup = TechCoreLightGroup::First;
    let second: TechCoreLightGroup = TechCoreLightGroup::Second;
    let third: TechCoreLightGroup = TechCoreLightGroup::Third;
    push_json(&mut groups, light_json_value(phase, Team::Red, first, elapsed_ns, lights));
    push_json(&mut groups, light_json_value(phase, Team::Red, second, elapsed_ns, lights));
    push_json(&mut groups, light_json_value(phase, Team::Red, third, elapsed_ns, lights));
    push_json(&mut groups, light_json_value(phase, Team::Blue, first, elapsed_ns, lights));
    push_json(&mut groups, light_json_value(phase, Team::Blue, second, elapsed_ns, lights));
    push_json(&mut groups, light_json_value(phase, Team::Blue, third, elapsed_ns, lights));
    let mut phase_value: Value = json_object();
    json_set(&mut phase_value, "id", json_integer(phase.id() as i64));
    json_set(&mut phase_value, "name", json_string(phase.as_str()));
    let mut value: Value = json_object();
    json_set(&mut value, "phase", phase_value);
    proof {
        assert(crate::json::json_models(groups@) =~= seq![
            light_json(phase, Team::Red, first, elapsed_ns as int, lights),
            light_json(phase, Team::Red, second, elapsed_ns as int, lights),
            light_json(phase, Team::Red, third, elapsed_ns as int, lights),
            light_json(phase, Team::Blue, first, elapsed_ns as int, lights),
            light_json(phase, Team::Blue, second, elapsed_ns as int, lights),
            light_json(phase, Team::Blue, third, elapsed_ns as int, lights),
        ]);
    }
    json_set(&mut value, "lights", json_array(groups));
    value
}

/// The whole report: when it was made and what the cores show.
pub open spec fn state_json(sec: int, nanosec: int, cores: Seq<JsonModel>) -> JsonModel {
    object_2(
        "stamp"@,
        object_2(
            "sec"@,
            JsonModel::Integer(sec),
            "nanosec"@,
            JsonModel::Integer(nanosec),
        ),
        "cores"@,
        JsonModel::Array(cores),
    )
}

fn state_text(stamp_sec: i32, stamp_nanosec: u32, cores: Vec<Value>) -> (r: String)
    ensures
        r@ == crate::json::json_text(
            state_json(
                stamp_sec as int,
                stamp_nanosec as int,
                crate::json::json_models(cores@),
            ),
        ),
{
    let mut stamp: Value = json_object();
    json_set(&mut stamp, "sec", json_integer(stamp_sec as i64));
    json_set(&mut stamp, "nanosec", json_integer(stamp_nanosec as i64));
    let mut value: Value = json_object();
    json_set(&mut value, "stamp", stamp);
    json_set(&mut value, "cores", json_array(cores));
    json_to_string(&value)
}

/// The report on cores of which only the phase is known. Their guidance is the default one.
pub fn tech_core_state_json_from_phases(
    stamp_sec: i32,
    stamp_nanosec: u32,
    elapsed_ns: u64,
    phases: &[TechCorePhase],
) -> (r: String)
    ensures
        exists|lights: TechCoreStep5Lights|
            lights.is_default() && r@ == #[trigger] phases_text(
                stamp_sec as int,
                stamp_nanosec as int,
                elapsed_ns as int,
                phases@,
                lights,
            ),
{
    let lights: TechCoreStep5Lights = TechCoreStep5Lights::default();
    let mut cores: Vec<Value> = Vec::new();
    let mut i: usize = 0;
    while i < phases.len()
        invariant
            i <= phases@.len(),
            cores@.len() == i,
            forall|k: int|
                0 <= k < i ==> #[trigger] crate::json::json_model(cores@[k]) == core_json(
                    phases@[k],
                    elapsed_ns as int,
                    lights,
                ),
        decreases phases@.len() - i,
    {
        cores.push(tech_core_phase_json_value(phases[i], elapsed_ns, lights));
        i = i + 1;
    }
    proof {
        let models = Seq::new(
            phases@.len(),
            |k: int| core_json(phases@[k], elapsed_ns as int, lights),
        );
        assert(crate::json::json_models(cores@) =~= models);
        assert(phases_text(
            stamp_sec as int,
            stamp_nanosec as int,
            elapsed_ns as int,
            phases@,
            lights,
        ) == crate::json::json_text(state_json(stamp_sec as int, stamp_nanosec as int, models)));
    }
    state_text(stamp_sec, stamp_nanosec, cores)
}

/// The text of the report on cores in the given phases with the same guidance.
pub open spec fn phases_text(
    sec: int,
    nanosec: int,
    elapsed_ns: int,
    phases: Seq<TechCorePhase>,
    lights: TechCoreStep5Lights,
) -> Seq<char> {
    crate::json::json_text(
        state_json(
            sec,
            nanosec,
            Seq::new(phases.len(), |k: int| core_json(phases[k], elapsed_ns, lights)),
        ),
    )
}

/// The text of the report on the given cores.
pub open spec fn cores_text(sec: int, nanosec: int, elapsed_ns: int, cores: Seq<TechCore>) -> Seq<
    char,
> {
    crate::json::json_text(
        state_json(
            sec,
            nanosec,
            Seq::new(
                cores.len(),
                |k: int|
                    core_json(
                        cores[k].phase,
                        cores[k].phase_elapsed_spec(elapsed_ns),
                        cores[k].step5_lights,
                    ),
            ),
        ),
    )
}

/// The report on the given cores, each with the time that its phase has been showing.
pub fn tech_core_state_json(
    stamp_sec: i32,
    stamp_nanosec: u32,
    elapsed_ns: u64,
    cores: &[TechCore],
) -> (r: String)
    ensures
        r@ == cores_text(stamp_sec as int, stamp_nanosec as int, elapsed_ns as int, cores@),
{
    let mut values: Vec<Value> = Vec::new();
    let mut i: usize = 0;
    while i < cores.len()
        invariant
            i <= cores@.len(),
            values@.len() == i,
            forall|k: int|
                0 <= k < i ==> #[trigger] crate::json::json_model(values@[k]) == core_json(
                    cores@[k].phase,
                    cores@[k].phase_elapsed_spec(elapsed_ns as int),
                    cores@[k].step5_lights,
                ),
        decreases cores@.len() - i,
    {
        let core: &TechCore = &cores[i];
        values.push(
            tech_core_phase_json_value(
                core.phase(),
                core.phase_elapsed_ns(elapsed_ns),
                core.step5_lights(),
            ),
        );
        i = i + 1;
    }
    proof {
        assert(crate::json::json_models(values@) =~= Seq::new(
            cores@.len(),
            |k: int|
                core_json(
                    cores@[k].phase,
                    cores@[k].phase_elapsed_spec(elapsed_ns as int),
                    cores@[k].step5_lights,
                ),
        ));
    }
    state_text(stamp_sec, stamp_nanosec, values)
}

/// The keys of a report are all different.
proof fn lemma_keys()
    ensures
        ({
            let light = seq!["team"@, "group"@, "program"@, "active_color"@, "active_segments"@];
            let program = seq![
                "mode"@,
                "color"@,
                "hz"@,
                "segment_hz"@,
                "target_color"@,
                "energy_unit_color"@,
            ];
            let segment = seq!["side"@, "index"@, "color"@, "role"@];
            &&& light.no_duplicates()
            &&& program.no_duplicates()
            &&& segment.no_duplicates()
            &&& "id"@ != "name"@
            &&& "phase"@ != "lights"@
            &&& "stamp"@ != "cores"@
            &&& "sec"@ != "nanosec"@
        }),
{
    reveal_strlit("team");
    reveal_strlit("group");
    reveal_strlit("program");
    reveal_strlit("active_color");
    reveal_strlit("active_segments");
    reveal_strlit("mode");
    reveal_strlit("color");
    reveal_strlit("hz");
    reveal_strlit("segment_hz");
    reveal_strlit("target_color");
    reveal_strlit("energy_unit_color");
    reveal_strlit("side");
    reveal_strlit("index");
    reveal_strlit("role");
    reveal_strlit("id");
    reveal_strlit("name");
    reveal_strlit("phase");
    reveal_strlit("lights");
    reveal_strlit("stamp");
    reveal_strlit("cores");
    reveal_strlit("sec");
    reveal_strlit("nanosec");
    assert("side"@[0] != "role"@[0]);
    assert("index"@[0] != "color"@[0]);
    assert("stamp"@[0] != "cores"@[0]);
    assert("id"@.len() != "name"@.len());
    assert("phase"@.len() != "lights"@.len());
    assert("sec"@.len() != "nanosec"@.len());
    let segment = seq!["side"@, "index"@, "color"@, "role"@];
    assert(segment[0].len() == 4 && segment[1].len() == 5 && segment[2].len() == 5
        && segment[3].len() == 4);
    let light = seq!["team"@, "group"@, "program"@, "active_color"@, "active_segments"@];
    assert(light[0].len() == 4 && light[1].len() == 5 && light[2].len() == 7 && light[3].len() == 12
        && light[4].len() == 15);
    let program = seq![
        "mode"@,
        "color"@,
        "hz"@,
        "segment_hz"@,
        "target_color"@,
        "energy_unit_color"@,
    ];
    assert(program[0].len() == 4 && program[1].len() == 5 && program[2].len() == 2
        && program[3].len() == 10 && program[4].len() == 12 && program[5].len() == 17);
}

/// What a light group reports: its team, its number counted from one, the program of the phase for
/// that group, and the color that the light shows at the moment, by the name of its material, or that
/// there are several. Segments are reported of the first group alone, where not all are alike.
pub proof fn law_what_a_light_reports(
    phase: TechCorePhase,
    team: Team,
    group: TechCoreLightGroup,
    elapsed_ns: int,
    lights: TechCoreStep5Lights,
)
    ensures
        ({
            let report = light_json(phase, team, group, elapsed_ns, lights);
            let entries = report->Object_0;
            let number = match group {
                TechCoreLightGroup::First => 1int,
                TechCoreLightGroup::Second => 2int,
                TechCoreLightGroup::Third => 3int,
            };
            let program = phase.programs_spec()[number - 1];
            let shown = match crate::tech_core::lights::LightMaterial::of_program(
                team,
                program,
                elapsed_ns,
            ) {
                crate::tech_core::lights::LightMaterial::Off => "off"@,
                crate::tech_core::lights::LightMaterial::White => "white"@,
                crate::tech_core::lights::LightMaterial::Red => "red"@,
                crate::tech_core::lights::LightMaterial::Blue => "blue"@,
                crate::tech_core::lights::LightMaterial::Green => "green"@,
            };
            let segmented = number == 1 && (phase is DifficultySelectedArmNotReady
                || phase is Step5InProgress || phase is Step5Completed);
            &&& report is Object
            &&& entries["team"@] == JsonModel::Text(
                if team is Red {
                    "red"@
                } else {
                    "blue"@
                },
            )
            &&& entries["group"@] == JsonModel::Integer(number)
            &&& entries["program"@] == program_json(program, team)
            &&& entries["active_color"@] == JsonModel::Text(
                if number == 1 && phase is Step5InProgress {
                    "mixed"@
                } else {
                    shown
                },
            )
            &&& forall|key: Seq<char>| #[trigger]
                entries.dom().contains(key) <==> key == "team"@ || key == "group"@ || key
                    == "program"@ || key == "active_color"@ || (segmented && key
                    == "active_segments"@)
            &&& number == 1 && phase is DifficultySelectedArmNotReady
                ==> entries["active_segments"@] == flow_segments_json(elapsed_ns)
            &&& number == 1 && phase is Step5InProgress ==> entries["active_segments"@]
                == step5_segments_json(team, AssemblyLightProgram::InProgress, lights)
            &&& number == 1 && phase is Step5Completed ==> entries["active_segments"@]
                == step5_segments_json(team, AssemblyLightProgram::Completed, lights)
        }),
{
    lemma_keys();
    let keys = seq!["team"@, "group"@, "program"@, "active_color"@, "active_segments"@];
    assert(keys[0] != keys[1] && keys[0] != keys[2] && keys[0] != keys[3] && keys[0] != keys[4]);
    assert(keys[1] != keys[2] && keys[1] != keys[3] && keys[1] != keys[4]);
    assert(keys[2] != keys[3] && keys[2] != keys[4] && keys[3] != keys[4]);
}

/// What a program reports: how it goes, in which color for the team, and how often, where that
/// matters.
pub proof fn law_what_a_program_reports(color: LightColor, team: Team, fast: bool)
    ensures
        ({
            let name = match color {
                LightColor::White => "white"@,
                LightColor::Green => "green"@,
                LightColor::Team => if team is Red {
                    "red"@
                } else {
                    "blue"@
                },
            };
            let own = if team is Red {
                "red"@
            } else {
                "blue"@
            };
            let rate = if fast {
                crate::tech_core::program::BlinkRate::Hz3
            } else {
                crate::tech_core::program::BlinkRate::Hz1
            };
            let off = program_json(LightProgram::Off, team)->Object_0;
            let solid = program_json(LightProgram::Solid(color), team)->Object_0;
            let blink = program_json(LightProgram::Blink { color, rate }, team)->Object_0;
            let flow = program_json(LightProgram::Flow { color }, team)->Object_0;
            let running = program_json(
                LightProgram::Assembly(AssemblyLightProgram::InProgress),
                team,
            )->Object_0;
            let done = program_json(
                LightProgram::Assembly(AssemblyLightProgram::Completed),
                team,
            )->Object_0;
            &&& off["mode"@] == JsonModel::Text("off"@)
            &&& solid["mode"@] == JsonModel::Text("solid"@)
            &&& solid["color"@] == JsonModel::Text(name)
            &&& blink["mode"@] == JsonModel::Text("blink"@)
            &&& blink["color"@] == JsonModel::Text(name)
            &&& blink["hz"@] == JsonModel::Float(
                if fast {
                    3
                } else {
                    1
                },
            )
            &&& flow["mode"@] == JsonModel::Text("flow"@)
            &&& flow["color"@] == JsonModel::Text(name)
            &&& flow["segment_hz"@] == JsonModel::Float(12)
            &&& running["mode"@] == JsonModel::Text("step5_in_progress"@)
            &&& running["target_color"@] == JsonModel::Text(own)
            &&& running["energy_unit_color"@] == JsonModel::Text("white"@)
            &&& done["mode"@] == JsonModel::Text("step5_completed"@)
            &&& done["target_color"@] == JsonModel::Text("green"@)
        }),
{
    lemma_keys();
    let keys = seq![
        "mode"@,
        "color"@,
        "hz"@,
        "segment_hz"@,
        "target_color"@,
        "energy_unit_color"@,
    ];
    assert(keys[0] != keys[1] && keys[0] != keys[2] && keys[0] != keys[3] && keys[0] != keys[4]
        && keys[0] != keys[5]);
    assert(keys[1] != keys[2] && keys[1] != keys[3] && keys[4] != keys[5]);
}

/// Whether an entry of a report speaks of the segment with a number on one side.
pub open spec fn speaks_of(entry: JsonModel, side: Seq<char>, number: int) -> bool {
    &&& entry is Object
    &&& entry->Object_0["side"@] == JsonModel::Text(side)
    &&& entry->Object_0["index"@] == JsonModel::Integer(number)
}

/// A flowing light reports the two segments that it has reached, left and right, by their number
/// counted from one; once it has run up and back, it reports all of them, pair by pair.
pub proof fn law_reported_segments_of_a_flow(elapsed_ns: int, step: int, k: int)
    requires
        0 <= step,
        step * 1_000_000_000 <= 12 * elapsed_ns < (step + 1) * 1_000_000_000,
        0 <= k < 24,
    ensures
        ({
            let segments = flow_segments_json(elapsed_ns)->Array_0;
            let reached = if step < 24 {
                step + 1
            } else {
                48 - step
            };
            &&& flow_segments_json(elapsed_ns) is Array
            &&& step < 48 ==> segments.len() == 2 && speaks_of(segments[0], "left"@, reached)
                && speaks_of(segments[1], "right"@, reached)
            &&& step >= 48 ==> segments.len() == 48 && speaks_of(segments[2 * k], "left"@, k + 1)
                && speaks_of(segments[2 * k + 1], "right"@, k + 1)
        }),
{
    lemma_keys();
    let keys = seq!["side"@, "index"@, "color"@, "role"@];
    assert(keys[0] != keys[1]);
    lemma_flow_pairs(24, k);
}

proof fn lemma_flow_pairs(n: int, k: int)
    requires
        n >= 0,
    ensures
        flow_pairs_json(n).len() == 2 * n,
        0 <= k < n ==> flow_pairs_json(n)[2 * k] == flow_segment_json("left"@, k)
            && flow_pairs_json(n)[2 * k + 1] == flow_segment_json("right"@, k),
    decreases n,
{
    if n > 0 {
        lemma_flow_pairs(n - 1, k);
    }
}

/// Whether an entry of a report speaks of a segment that guides the fifth step.
pub open spec fn guides(
    entry: JsonModel,
    side: Seq<char>,
    number: int,
    color: Seq<char>,
    role: Seq<char>,
) -> bool {
    &&& speaks_of(entry, side, number)
    &&& entry->Object_0["color"@] == JsonModel::Text(color)
    &&& entry->Object_0["role"@] == JsonModel::Text(role)
}

/// The guidance of the fifth step reports the pair of the target, in the team's color while the step
/// is in progress and green once it is completed, and before that the pair of the energy unit in
/// white, unless the two are one.
pub proof fn law_reported_segments_of_the_guidance(team: Team, lights: TechCoreStep5Lights)
    ensures
        ({
            let running = step5_segments_json(team, AssemblyLightProgram::InProgress, lights);
            let done = step5_segments_json(team, AssemblyLightProgram::Completed, lights);
            let own = if team is Red {
                "red"@
            } else {
                "blue"@
            };
            let target = lights.target.index_spec() + 1;
            let energy_unit = lights.energy_unit.index_spec() + 1;
            &&& running is Array
            &&& done is Array
            &&& running->Array_0.len() == (if target == energy_unit {
                2int
            } else {
                4int
            })
            &&& guides(running->Array_0[0], "left"@, target as int, own, "target"@)
            &&& guides(running->Array_0[1], "right"@, target as int, own, "target"@)
            &&& target != energy_unit ==> guides(
                running->Array_0[2],
                "left"@,
                energy_unit as int,
                "white"@,
                "energy_unit"@,
            ) && guides(
                running->Array_0[3],
                "right"@,
                energy_unit as int,
                "white"@,
                "energy_unit"@,
            )
            &&& done->Array_0.len() == 2
            &&& guides(done->Array_0[0], "left"@, target as int, "green"@, "target"@)
            &&& guides(done->Array_0[1], "right"@, target as int, "green"@, "target"@)
        }),
{
    lemma_keys();
    let keys = seq!["side"@, "index"@, "color"@, "role"@];
    assert(keys[0] != keys[1] && keys[0] != keys[2] && keys[0] != keys[3]);
    assert(keys[1] != keys[2] && keys[1] != keys[3] && keys[2] != keys[3]);
}

/// A core reports number and name of its phase and its six lights: the three of the red team, then
/// those of the blue one, each in their order.
pub proof fn law_what_a_core_reports(
    phase: TechCorePhase,
    elapsed_ns: int,
    lights: TechCoreStep5Lights,
)
    ensures
        ({
            let report = core_json(phase, elapsed_ns, lights);
            let named = report->Object_0["phase"@]->Object_0;
            let groups = report->Object_0["lights"@]->Array_0;
            let first = TechCoreLightGroup::First;
            let second = TechCoreLightGroup::Second;
            let third = TechCoreLightGroup::Third;
            &&& report is Object
            &&& named["id"@] == JsonModel::Integer(phase.id_spec() as int)
            &&& named["name"@] == JsonModel::Text(phase.name_spec())
            &&& groups.len() == 6
            &&& groups[0] == light_json(phase, Team::Red, first, elapsed_ns, lights)
            &&& groups[1] == light_json(phase, Team::Red, second, elapsed_ns, lights)
            &&& groups[2] == light_json(phase, Team::Red, third, elapsed_ns, lights)
            &&& groups[3] == light_json(phase, Team::Blue, first, elapsed_ns, lights)
            &&& groups[4] == light_json(phase, Team::Blue, second, elapsed_ns, lights)
            &&& groups[5] == light_json(phase, Team::Blue, third, elapsed_ns, lights)
        }),
{
    lemma_keys();
}

/// A report says when it was made, and then speaks of its cores in their order.
pub proof fn law_what_a_report_says(sec: int, nanosec: int, cores: Seq<JsonModel>)
    ensures
        ({
            let report = state_json(sec, nanosec, cores);
            let stamp = report->Object_0["stamp"@]->Object_0;
            &&& report is Object
            &&& stamp["sec"@] == JsonModel::Integer(sec)
            &&& stamp["nanosec"@] == JsonModel::Integer(nanosec)
            &&& report->Object_0["cores"@] == JsonModel::Array(cores)
        }),
{
    lemma_keys();
}

/// Every core is reported with its own phase and guidance, at the time for which that phase has been
/// showing: none of it for a phase that has not been shown yet.
pub proof fn law_cores_are_reported_by_their_own_clocks(
    sec: int,
    nanosec: int,
    elapsed_ns: int,
    cores: Seq<TechCore>,
)
    requires
        elapsed_ns >= 0,
    ensures
        cores_text(sec, nanosec, elapsed_ns, cores) == crate::json::json_text(
            state_json(
                sec,
                nanosec,
                Seq::new(
                    cores.len(),
                    |k: int|
                        core_json(
                            cores[k].phase,
                            if cores[k].phase == cores[k].last_rendered_phase && elapsed_ns
                                > cores[k].phase_started_at_ns {
                                elapsed_ns - cores[k].phase_started_at_ns
                            } else {
                                0
                            },
                            cores[k].step5_lights,
                        ),
                ),
            ),
        ),
{
    let expected = Seq::new(
        cores.len(),
        |k: int|
            core_json(
                cores[k].phase,
                if cores[k].phase == cores[k].last_rendered_phase && elapsed_ns
                    > cores[k].phase_started_at_ns {
                    elapsed_ns - cores[k].phase_started_at_ns
                } else {
                    0
                },
                cores[k].step5_lights,
            ),
    );
    assert(Seq::new(
        cores.len(),
        |k: int|
            core_json(
                cores[k].phase,
                cores[k].phase_elapsed_spec(elapsed_ns),
                cores[k].step5_lights,
            ),
    ) =~= expected);
}

} // verus!
