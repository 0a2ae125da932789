use daedalus::platform::{
    allows_noncompliant_adapter, config_hot_reload, is_wsl, present_mode_from_config,
    setup_main_camera, should_enable_talos_plugin, MainCameraConfig, PresentMode, WatchEvent,
};
use daedalus::scene::{
    collision_entries, load_scene, setup_collision, setup_dart_launch, setup_outposts,
    ColliderKind, CollisionSet, LoadStep, MapKind, NamedNode, Place, WorldAsset,
};
use daedalus::tech_core::program::Team;

fn named(names: &[&str]) -> Vec<NamedNode> {
    names
        .iter()
        .zip(100u64..)
        .map(|(name, entity)| NamedNode {
            entity,
            name: name.to_string(),
            has_children: true,
        })
        .collect()
}

fn files(map: MapKind) -> Vec<&'static str> {
    load_scene(map)
        .into_iter()
        .filter_map(|step| match step {
            LoadStep::Spawn(asset) => Some(asset.file()),
            _ => None,
        })
        .collect()
}

#[test]
fn the_arena_is_loaded_before_the_robots() {
    assert_eq!(
        files(MapKind::Rmuc),
        vec![
            "GROUND.glb",
            "CALIB.glb",
            "CALIB.glb",
            "OUTPOST.glb",
            "TECH_CORE.glb",
            "POWER.glb",
            "vehicle.glb",
            "vehicle.glb",
            "HERO.glb",
        ]
    );
}

#[test]
fn the_simple_field_has_no_furniture() {
    assert_eq!(
        files(MapKind::Rmul),
        vec![
            "GROUND_RMUL.glb",
            "CALIB.glb",
            "CALIB.glb",
            "vehicle.glb",
            "vehicle.glb",
            "HERO.glb",
        ]
    );
}

#[test]
fn colliders_are_awaited_at_once() {
    for map in [MapKind::Rmuc, MapKind::Rmul] {
        let steps = load_scene(map);
        for (i, step) in steps.iter().enumerate() {
            if matches!(step, LoadStep::SetupCollision(_)) {
                assert_eq!(steps[i + 1], LoadStep::AwaitColliders);
            }
        }
    }
}

#[test]
fn the_player_is_red_and_the_hero_is_driven_remotely() {
    let robots: Vec<_> = load_scene(MapKind::Rmul)
        .into_iter()
        .filter_map(|step| match step {
            LoadStep::Spawn(WorldAsset::Robot(robot)) => Some(robot),
            _ => None,
        })
        .collect();
    assert_eq!(robots.len(), 3);
    assert!(robots[0].controlled && robots[0].team == Team::Red);
    assert!(!robots[1].controlled && !robots[1].active);
    assert!(robots[2].hero && robots[2].active && robots[2].team == Team::Blue);
    let places: Vec<_> = robots.iter().map(|robot| robot.place).collect();
    assert_eq!(
        places,
        vec![
            Place { x_mm: 0, y_mm: 1_000, z_mm: 0 },
            Place { x_mm: 1_000, y_mm: 1_000, z_mm: 1_000 },
            Place { x_mm: 2_000, y_mm: 1_000, z_mm: 1_000 },
        ]
    );
}

#[test]
fn boards_stand_in_their_places_and_the_ground_at_the_origin() {
    let places: Vec<_> = load_scene(MapKind::Rmuc)
        .into_iter()
        .filter_map(|step| match step {
            LoadStep::Spawn(WorldAsset::Robot(_)) => None,
            LoadStep::Spawn(asset) => Some(asset.place()),
            _ => None,
        })
        .collect();
    let origin = Place { x_mm: 0, y_mm: 0, z_mm: 0 };
    assert_eq!(
        places,
        vec![
            origin,
            Place { x_mm: 1_000, y_mm: 2_500, z_mm: 1_000 },
            Place { x_mm: 2_000, y_mm: 500, z_mm: 2_000 },
            origin,
            origin,
            origin,
        ]
    );
}

#[test]
fn every_rune_target_is_hit_in_every_state() {
    let entries = collision_entries(CollisionSet::PowerRune);
    assert_eq!(entries.len(), 41);
    assert_eq!(entries[0].name, "BASE");
    assert_eq!(entries[0].kind, ColliderKind::StaticTriangles);
    for face in 1..=2 {
        for target in 1..=5 {
            for state in ["ACTIVATED", "ACTIVE", "COMPLETED", "DISABLED"] {
                let name = format!("FACE_{face}_TARGET_{target}_{state}");
                assert!(entries
                    .iter()
                    .any(|entry| entry.name == name && entry.kind == ColliderKind::Voxels));
            }
        }
    }
}

#[test]
fn grounds_have_their_own_colliders() {
    let names = |set| {
        collision_entries(set)
            .into_iter()
            .map(|entry| entry.name)
            .collect::<Vec<_>>()
    };
    assert_eq!(names(CollisionSet::Ground), vec!["GROUND_DENSE"]);
    assert_eq!(names(CollisionSet::TechCore), vec!["GROUND"]);
    assert_eq!(names(CollisionSet::GroundRmul), vec!["SHELL", "SOLID"]);
}

#[test]
fn colliders_go_to_the_named_objects() {
    let mut nodes = named(&["SOLID", "TREE", "SHELL", "SOLID", "SHELL"]);
    nodes[4].has_children = false;
    let entries = collision_entries(CollisionSet::GroundRmul);
    assert_eq!(
        setup_collision(&nodes, &entries),
        vec![(100, 1), (102, 0), (103, 1)]
    );
}

#[test]
fn outposts_belong_to_their_teams() {
    assert_eq!(
        setup_outposts(&named(&["OUTPOST_2", "OUTPOST", "OUTPOST_1"])),
        vec![(100, Team::Blue), (102, Team::Red)]
    );
}

#[test]
fn the_first_dart_launcher_is_used() {
    assert_eq!(
        setup_dart_launch(&named(&[
            "A",
            "DART_LAUNCH_DIRECTION",
            "DART_LAUNCH_DIRECTION"
        ])),
        Some(101)
    );
    assert_eq!(setup_dart_launch(&named(&["A"])), None);
}

#[test]
fn present_modes_are_read_leniently() {
    assert_eq!(
        present_mode_from_config(" Auto_VSync\n"),
        Some(PresentMode::AutoVsync)
    );
    assert_eq!(
        present_mode_from_config("vsync"),
        Some(PresentMode::AutoVsync)
    );
    for name in ["auto_no_vsync", "no_vsync", "novsync"] {
        assert_eq!(
            present_mode_from_config(name),
            Some(PresentMode::AutoNoVsync)
        );
    }
    assert_eq!(present_mode_from_config("FIFO"), Some(PresentMode::Fifo));
    assert_eq!(
        present_mode_from_config("\u{3000}fifo-relaxed\u{a0}"),
        Some(PresentMode::FifoRelaxed)
    );
    assert_eq!(
        present_mode_from_config("fifo_relaxed"),
        Some(PresentMode::FifoRelaxed)
    );
    assert_eq!(
        present_mode_from_config("mailbox"),
        Some(PresentMode::Mailbox)
    );
    assert_eq!(
        present_mode_from_config("immediate"),
        Some(PresentMode::Immediate)
    );
    assert_eq!(present_mode_from_config(""), None);
    assert_eq!(present_mode_from_config("fi fo"), None);
}

#[test]
fn a_windows_kernel_is_recognized() {
    assert!(is_wsl(true, false, None));
    assert!(is_wsl(false, true, None));
    assert!(is_wsl(
        false,
        false,
        Some("5.15.90.1-Microsoft-standard-WSL2")
    ));
    assert!(!is_wsl(false, false, Some("6.1.0-generic")));
    assert!(!is_wsl(false, false, None));
    assert!(allows_noncompliant_adapter(true, true));
    assert!(!allows_noncompliant_adapter(false, true));
}

#[test]
fn talos_stands_back_unless_forced() {
    assert!(should_enable_talos_plugin(false, None));
    assert!(!should_enable_talos_plugin(true, None));
    assert!(!should_enable_talos_plugin(true, Some("yes")));
    assert!(should_enable_talos_plugin(true, Some("1")));
}

#[test]
fn reloading_stops_at_an_error() {
    assert_eq!(
        config_hot_reload(&vec![
            WatchEvent::Modified,
            WatchEvent::Other,
            WatchEvent::Modified,
            WatchEvent::Error,
            WatchEvent::Modified,
        ]),
        2
    );
    assert_eq!(config_hot_reload(&vec![]), 0);
}

#[test]
fn upscaling_takes_the_place_of_other_effects() {
    let config = MainCameraConfig {
        captured: false,
        preview_enabled: true,
        macos: true,
        metalfx_temporal: true,
        metalfx_frame_generation: true,
        fxaa: true,
        bloom: true,
        egui: true,
    };
    let plan = setup_main_camera(config);
    assert!(plan.is_active && plan.upscaled && plan.frame_generation && plan.egui);
    assert!(!plan.fxaa && !plan.bloom && !plan.capture_source);
    let captured = setup_main_camera(MainCameraConfig {
        captured: true,
        macos: false,
        ..config
    });
    assert!(!captured.is_active && captured.capture_source);
    assert!(captured.fxaa && captured.bloom && !captured.upscaled && !captured.frame_generation);
}
