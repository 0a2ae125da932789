use daedalus::tech_core::lights::{
    find_team_lights, warn_incomplete_first_light_set, FirstLightSet, LightMaterial, LightNames,
    TeamCoreLights,
};
use daedalus::tech_core::program::{
    flow_activation, AssemblyLightProgram, BlinkRate, FlowActivation, LightColor, LightProgram, Team,
    TechCoreFirstLightSegment, TechCoreLightGroup, TechCorePhase, TechCoreStep5Lights,
    FIRST_LIGHT_SEGMENT_COUNT, FLOW_SEGMENT_HZ,
};
use daedalus::tech_core::report::{tech_core_state_json, tech_core_state_json_from_phases};
use daedalus::tech_core::state::{
    debug_cycle_tech_core_phase, setup_tech_core, update_tech_core_lights, TechCore,
};
use serde_json::Value;

const SECOND: u64 = 1_000_000_000;

fn segment_steps(steps: u64) -> u64 {
    (steps * SECOND).div_ceil(FLOW_SEGMENT_HZ as u64)
}

#[test]
fn tech_core_debug_sequence_wraps() {
    let mut phase = TechCorePhase::MatchRunningIdle;
    for expected in TechCorePhase::DEBUG_SEQUENCE.into_iter().skip(1) {
        phase = phase.next_debug();
        assert_eq!(phase, expected);
    }

    assert_eq!(phase.next_debug(), TechCorePhase::MatchRunningIdle);
}

#[test]
fn tech_core_phase_ids_are_stable() {
    let ids = TechCorePhase::DEBUG_SEQUENCE.map(TechCorePhase::id);
    assert_eq!(ids, [0, 1, 2, 3, 4, 5, 6, 7, 8]);
}

#[test]
fn light_program_resolves_blink_active_color() {
    let program = LightProgram::Blink {
        color: LightColor::White,
        rate: BlinkRate::Hz1,
    };

    assert_eq!(program.active_color(250_000_000), Some(LightColor::White));
    assert_eq!(program.active_color(750_000_000), None);
}

#[test]
fn blink_changes_at_the_half_of_each_period() {
    let program = LightProgram::Blink {
        color: LightColor::Team,
        rate: BlinkRate::Hz3,
    };
    assert_eq!(program.active_color(0), Some(LightColor::Team));
    assert_eq!(program.active_color(166_666_666), Some(LightColor::Team));
    assert_eq!(program.active_color(166_666_667), None);
    assert_eq!(program.active_color(333_333_334), Some(LightColor::Team));
    assert_eq!(program.active_color(u64::MAX), {
        let cycles = u64::MAX as u128 * 3 % 1_000_000_000;
        if cycles < 500_000_000 {
            Some(LightColor::Team)
        } else {
            None
        }
    });
    assert_eq!(LightProgram::Off.active_color(0), None);
    assert_eq!(
        LightProgram::Assembly(AssemblyLightProgram::InProgress).active_color(5),
        None
    );
    assert_eq!(
        LightProgram::Assembly(AssemblyLightProgram::Completed).active_color(5),
        Some(LightColor::Green)
    );
}

#[test]
fn tech_core_segment_maps_angles_to_first_light_indices() {
    assert_eq!(
        TechCoreFirstLightSegment::from_angle_degrees(0).number(),
        1
    );
    assert_eq!(
        TechCoreFirstLightSegment::from_angle_degrees(20_000_000).number(),
        2
    );
    assert_eq!(
        TechCoreFirstLightSegment::from_angle_degrees(359_900_000).number(),
        FIRST_LIGHT_SEGMENT_COUNT
    );
    assert_eq!(
        TechCoreFirstLightSegment::from_angle_degrees(-1_000_000).number(),
        FIRST_LIGHT_SEGMENT_COUNT
    );
}

#[test]
fn segments_exist_on_the_ring_only() {
    assert!(TechCoreFirstLightSegment::from_zero_based(FIRST_LIGHT_SEGMENT_COUNT).is_none());
    assert!(TechCoreFirstLightSegment::from_number(0).is_none());
    assert!(TechCoreFirstLightSegment::from_number(FIRST_LIGHT_SEGMENT_COUNT + 1).is_none());
    let last = TechCoreFirstLightSegment::from_number(FIRST_LIGHT_SEGMENT_COUNT).unwrap();
    assert_eq!(last.index(), FIRST_LIGHT_SEGMENT_COUNT - 1);
    assert_eq!(
        TechCoreFirstLightSegment::from_zero_based(3),
        TechCoreFirstLightSegment::from_number(4)
    );
    assert_eq!(TechCoreFirstLightSegment::MIN_NUMBER, 1);
    assert_eq!(TechCoreFirstLightSegment::MAX_NUMBER, FIRST_LIGHT_SEGMENT_COUNT);
    let lights = TechCoreStep5Lights::default();
    assert_eq!(lights.target().number(), 1);
    assert_eq!(
        lights.energy_unit().number(),
        FIRST_LIGHT_SEGMENT_COUNT / 2 + 1
    );
}

#[test]
fn tech_core_flow_activation_runs_forward_back_then_all() {
    let count = FIRST_LIGHT_SEGMENT_COUNT as u64;
    assert_eq!(flow_activation(0), FlowActivation::Segment(0));
    assert_eq!(
        flow_activation(segment_steps(count - 1)),
        FlowActivation::Segment(FIRST_LIGHT_SEGMENT_COUNT - 1)
    );
    assert_eq!(
        flow_activation(segment_steps(count)),
        FlowActivation::Segment(FIRST_LIGHT_SEGMENT_COUNT - 1)
    );
    assert_eq!(
        flow_activation(segment_steps(count * 2 - 1)),
        FlowActivation::Segment(0)
    );
    assert_eq!(flow_activation(segment_steps(count * 2)), FlowActivation::All);
}

#[test]
fn flow_runs_back_mirrored() {
    let count = FIRST_LIGHT_SEGMENT_COUNT as u64;
    for step in 0..count {
        assert_eq!(
            flow_activation(segment_steps(step)),
            flow_activation(segment_steps(2 * count - 1 - step))
        );
    }
}

fn parsed(text: &str) -> Value {
    serde_json::from_str(text).unwrap()
}

#[test]
fn tech_core_state_json_contains_flow_segments() {
    let value: Value = parsed(&tech_core_state_json_from_phases(
        0,
        0,
        0,
        &[TechCorePhase::DifficultySelectedArmNotReady],
    ));
    let red_first = &value["cores"][0]["lights"][0];

    assert_eq!(red_first["program"]["mode"], "flow");
    assert_eq!(red_first["program"]["segment_hz"], FLOW_SEGMENT_HZ as f64);
    assert_eq!(red_first["active_segments"][0]["side"], "left");
    assert_eq!(red_first["active_segments"][0]["index"], 1);
    assert_eq!(red_first["active_segments"][1]["side"], "right");
    assert_eq!(red_first["active_segments"][1]["index"], 1);

    let value: Value = parsed(&tech_core_state_json_from_phases(
        0,
        0,
        segment_steps(FIRST_LIGHT_SEGMENT_COUNT as u64 * 2),
        &[TechCorePhase::DifficultySelectedArmNotReady],
    ));

    assert_eq!(
        value["cores"][0]["lights"][0]["active_segments"]
            .as_array()
            .unwrap()
            .len(),
        FIRST_LIGHT_SEGMENT_COUNT * 2
    );
}

#[test]
fn tech_core_state_json_contains_resolved_light_state() {
    let value: Value = parsed(&tech_core_state_json_from_phases(
        12,
        34,
        0,
        &[TechCorePhase::Step5Completed],
    ));

    assert_eq!(value["stamp"]["sec"], 12);
    assert_eq!(value["stamp"]["nanosec"], 34);
    assert_eq!(value["cores"][0]["phase"]["id"], 7);
    assert_eq!(value["cores"][0]["phase"]["name"], "step5_completed");
    assert_eq!(value["cores"][0]["lights"][0]["team"], "red");
    assert_eq!(value["cores"][0]["lights"][0]["group"], 1);
    assert_eq!(
        value["cores"][0]["lights"][0]["program"]["mode"],
        "step5_completed"
    );
    assert_eq!(
        value["cores"][0]["lights"][0]["program"]["target_color"],
        "green"
    );
    assert_eq!(value["cores"][0]["lights"][0]["active_color"], "green");
    assert_eq!(
        value["cores"][0]["lights"][0]["active_segments"][0]["role"],
        "target"
    );
    assert_eq!(
        value["cores"][0]["lights"][0]["active_segments"][0]["color"],
        "green"
    );
    assert_eq!(value["cores"][0]["lights"][3]["team"], "blue");
    assert_eq!(
        value["cores"][0]["lights"][3]["program"]["target_color"],
        "green"
    );
}

#[test]
fn tech_core_state_json_contains_step5_in_progress_segments() {
    let value: Value = parsed(&tech_core_state_json_from_phases(
        0,
        0,
        0,
        &[TechCorePhase::Step5InProgress],
    ));
    let red_first = &value["cores"][0]["lights"][0];

    assert_eq!(red_first["program"]["mode"], "step5_in_progress");
    assert_eq!(red_first["program"]["target_color"], "red");
    assert_eq!(red_first["program"]["energy_unit_color"], "white");
    assert_eq!(red_first["active_color"], "mixed");
    assert_eq!(red_first["active_segments"][0]["role"], "target");
    assert_eq!(red_first["active_segments"][0]["color"], "red");
    assert_eq!(red_first["active_segments"][2]["role"], "energy_unit");
    assert_eq!(red_first["active_segments"][2]["color"], "white");
}

#[test]
fn tech_core_state_json_marks_blink_off_half() {
    let value: Value = parsed(&tech_core_state_json_from_phases(
        0,
        0,
        750_000_000,
        &[TechCorePhase::DifficultySelectedArmReady],
    ));

    assert_eq!(value["cores"][0]["lights"][0]["program"]["mode"], "blink");
    assert_eq!(value["cores"][0]["lights"][0]["program"]["hz"], 1.0);
    assert_eq!(value["cores"][0]["lights"][0]["active_color"], "off");
}

#[test]
fn report_text_is_compact_and_sorted_by_key() {
    let text = tech_core_state_json_from_phases(-3, 4, 0, &[]);
    assert_eq!(text, "{\"cores\":[],\"stamp\":{\"nanosec\":4,\"sec\":-3}}");
    let text = tech_core_state_json_from_phases(0, 0, 0, &[TechCorePhase::MatchRunningIdle]);
    assert!(text.starts_with("{\"cores\":[{\"lights\":[{\"active_color\":\"off\",\"group\":1,"));
    let text = tech_core_state_json_from_phases(
        0,
        0,
        0,
        &[TechCorePhase::DifficultySelectedArmReady],
    );
    assert!(text.contains("\"hz\":1.0"));
}

#[test]
fn light_groups_and_colors_have_stable_names() {
    assert_eq!(
        TechCoreLightGroup::all().map(TechCoreLightGroup::number),
        [1, 2, 3]
    );
    assert_eq!(LightColor::Team.as_str_for_team(Team::Red), "red");
    assert_eq!(LightColor::Team.as_str_for_team(Team::Blue), "blue");
    assert_eq!(LightColor::White.as_str_for_team(Team::Red), "white");
    assert_eq!(LightColor::Green.as_str_for_team(Team::Blue), "green");
    assert_eq!(TechCorePhase::Step3Completed.as_str(), "step3_completed");
}

fn names(team: &str) -> LightNames {
    LightNames {
        first: format!("{team}_1"),
        second: format!("{team}_2"),
        third: format!("{team}_3"),
    }
}

fn scene(complete: bool) -> Vec<(String, u64)> {
    let mut scene = vec![
        ("RED_2".to_string(), 2),
        ("RED_3".to_string(), 3),
        ("BLUE_2".to_string(), 5),
        ("BLUE_3".to_string(), 6),
    ];
    for (team, base) in [("RED", 100), ("BLUE", 200)] {
        for i in 1..=FIRST_LIGHT_SEGMENT_COUNT {
            if complete || i != 7 {
                scene.push((format!("{team}_1_L_{i}"), base + i as u64));
            }
            scene.push((format!("{team}_1_R_{i}"), base + 50 + i as u64));
        }
    }
    scene
}

fn bound() -> TechCore {
    let setup = setup_tech_core(&scene(true), &names("RED"), &names("BLUE"));
    assert!(setup.warnings.is_empty());
    setup.core.unwrap()
}

#[test]
fn setup_binds_lights_by_name_and_complains_about_missing_ones() {
    let core = bound();
    assert_eq!(core.red.second, 2);
    assert_eq!(core.blue.third, 6);
    assert_eq!(core.red.first.left[11], Some(112));
    assert_eq!(core.blue.first.right[0], Some(251));
    assert_eq!(core.phase(), TechCorePhase::MatchRunningIdle);

    let setup = setup_tech_core(&scene(false), &names("RED"), &names("BLUE"));
    assert!(setup.core.is_some());
    assert_eq!(
        setup.warnings,
        vec![
            "TECH_CORE.glb has incomplete RED_1 segments; missing RED_1_L_7".to_string(),
            "TECH_CORE.glb has incomplete BLUE_1 segments; missing BLUE_1_L_7".to_string(),
        ]
    );

    let setup = setup_tech_core(&vec![], &names("RED"), &names("BLUE"));
    assert!(setup.core.is_none());
    assert_eq!(setup.warnings, vec!["TECH_CORE.glb is missing RED_2".to_string()]);

    let only_red = vec![("RED_2".to_string(), 2), ("RED_3".to_string(), 3), ("BLUE_2".to_string(), 1)];
    let setup = setup_tech_core(&only_red, &names("RED"), &names("BLUE"));
    assert_eq!(setup.warnings, vec!["TECH_CORE.glb is missing BLUE_3".to_string()]);
}

#[test]
fn incomplete_first_lights_are_named_up_to_six() {
    let mut left = vec![None; FIRST_LIGHT_SEGMENT_COUNT];
    left[0] = Some(1);
    let right = vec![Some(9); FIRST_LIGHT_SEGMENT_COUNT];
    let set = FirstLightSet::new(None, left, right);
    assert_eq!(
        warn_incomplete_first_light_set("X", &set).unwrap(),
        "TECH_CORE.glb has incomplete X segments; missing X_L_2, X_L_3, X_L_4, X_L_5, X_L_6, X_L_7 (+17 more)"
    );
    assert_eq!(set.missing_segments("X").len(), 23);
    assert_eq!(set.segment_entities().len(), 25);

    let none = vec![None; FIRST_LIGHT_SEGMENT_COUNT];
    let set = FirstLightSet::new(None, none.clone(), none.clone());
    assert_eq!(
        warn_incomplete_first_light_set("X", &set).unwrap(),
        "TECH_CORE.glb is missing X and segmented X_{L,R}_1..24"
    );
    let set = FirstLightSet::new(Some(4), none.clone(), none);
    assert!(warn_incomplete_first_light_set("X", &set).is_none());
}

#[test]
fn the_last_object_of_a_name_counts() {
    let scene = vec![
        ("RED_2".to_string(), 2),
        ("RED_3".to_string(), 3),
        ("RED_2".to_string(), 8),
    ];
    let lights = find_team_lights(&scene, Team::Red, &names("RED")).unwrap();
    assert_eq!(lights.second, 8);
    assert!(!lights.first.has_segments());
}

fn last_material(assignments: &[(u64, LightMaterial)], entity: u64) -> Option<LightMaterial> {
    assignments
        .iter()
        .rev()
        .find(|(e, _)| *e == entity)
        .map(|(_, m)| *m)
}

#[test]
fn flow_lights_exactly_the_active_pair() {
    let mut core = bound();
    core.set_phase(TechCorePhase::DifficultySelectedArmNotReady);
    let mut cores = vec![core];
    update_tech_core_lights(&mut cores, 5 * SECOND);
    let now = 5 * SECOND + segment_steps(3);
    let assignments = update_tech_core_lights(&mut cores, now);
    for i in 1..=FIRST_LIGHT_SEGMENT_COUNT as u64 {
        let expected = if i == 4 {
            LightMaterial::White
        } else {
            LightMaterial::Off
        };
        assert_eq!(last_material(&assignments, 100 + i), Some(expected));
        assert_eq!(last_material(&assignments, 250 + i), Some(expected));
    }
    assert_eq!(last_material(&assignments, 2), Some(LightMaterial::Red));
    assert_eq!(last_material(&assignments, 6), Some(LightMaterial::Blue));
}

#[test]
fn assembly_guidance_prefers_the_target() {
    let mut core = bound();
    core.set_phase(TechCorePhase::Step5InProgress);
    core.set_step5_target_angle_degrees(0);
    core.set_step5_energy_unit_angle_degrees(90_000_000);
    let mut cores = vec![core];
    let assignments = update_tech_core_lights(&mut cores, 0);
    assert_eq!(last_material(&assignments, 101), Some(LightMaterial::Red));
    assert_eq!(last_material(&assignments, 107), Some(LightMaterial::White));
    assert_eq!(last_material(&assignments, 102), Some(LightMaterial::Off));

    cores[0].set_step5_energy_unit_segment(TechCoreFirstLightSegment::from_number(1).unwrap());
    let assignments = update_tech_core_lights(&mut cores, 0);
    assert_eq!(last_material(&assignments, 101), Some(LightMaterial::Red));
    assert_eq!(last_material(&assignments, 107), Some(LightMaterial::Off));

    cores[0].set_phase(TechCorePhase::Step5Completed);
    let assignments = update_tech_core_lights(&mut cores, 0);
    assert_eq!(last_material(&assignments, 201), Some(LightMaterial::Green));
}

#[test]
fn a_whole_light_takes_the_place_of_segments() {
    let mut out = Vec::new();
    let none = vec![None; FIRST_LIGHT_SEGMENT_COUNT];
    let set = FirstLightSet::new(Some(4), none.clone(), none);
    let lights = TeamCoreLights::new(Team::Blue, set, 5, 6);
    lights.first.assign_program(
        Team::Blue,
        LightProgram::Assembly(AssemblyLightProgram::InProgress),
        0,
        TechCoreStep5Lights::default(),
        &mut out,
    );
    assert_eq!(out, vec![(4, LightMaterial::Blue)]);
}

#[test]
fn phase_clock_starts_when_first_shown() {
    let mut core = bound();
    core.set_phase(TechCorePhase::Step2Completed);
    assert_eq!(core.phase_elapsed_ns(7 * SECOND), 0);
    assert_eq!(core.render_elapsed_ns(7 * SECOND), 0);
    assert_eq!(core.render_elapsed_ns(9 * SECOND), 2 * SECOND);
    assert_eq!(core.phase_elapsed_ns(10 * SECOND), 3 * SECOND);
    assert_eq!(core.phase_elapsed_ns(SECOND), 0);
}

#[test]
fn state_report_uses_each_cores_own_clock_and_guidance() {
    let mut core = bound();
    core.set_phase(TechCorePhase::Step5InProgress);
    core.set_step5_lights(TechCoreStep5Lights::new(
        TechCoreFirstLightSegment::from_number(5).unwrap(),
        TechCoreFirstLightSegment::from_number(5).unwrap(),
    ));
    let value = parsed(&tech_core_state_json(1, 2, 0, &[core]));
    let segments = value["cores"][0]["lights"][0]["active_segments"]
        .as_array()
        .unwrap();
    assert_eq!(segments.len(), 2);
    assert_eq!(segments[0]["index"], 5);
    assert_eq!(value["cores"][0]["lights"][1].get("active_segments"), None);
}

#[test]
fn debug_cycle_needs_shift_and_c() {
    let mut cores = vec![bound()];
    debug_cycle_tech_core_phase(&mut cores, false, false, true);
    debug_cycle_tech_core_phase(&mut cores, true, false, false);
    assert_eq!(cores[0].phase(), TechCorePhase::MatchRunningIdle);
    debug_cycle_tech_core_phase(&mut cores, false, true, true);
    assert_eq!(
        cores[0].phase(),
        TechCorePhase::DifficultySelectedArmNotReady
    );
}
