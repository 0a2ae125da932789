use daedalus::armor::collision::{
    armor_team, frame_holder, is_robot_body, projectile_of_contact, within_hit_zone,
    ArmorContacts, ChainLink, ContactVerdict, ProjectileBody,
};
use daedalus::armor::construct::{
    is_armor_root, process_armor_root, ArmorBuild, ArmorCommand, StickerSlot,
};
use daedalus::armor::mesh::{extract_triangle_vertices, extract_vertices};
use daedalus::armor::plate::{
    sync_armor_stickers, ArmorId, ArmorLabel, ArmorParts, ArmorRoot, ArmorSpec, ArmorSticker,
    ArmorStickerSelection, ArmorType, BoostedLightMaterialCache, ScanArmor, Side,
};
use daedalus::hierarchy::SceneNode;
use daedalus::tech_core::program::Team;

fn node(name: Option<&str>, parent: Option<usize>) -> SceneNode {
    SceneNode {
        entity: 0,
        name: name.map(str::to_string),
        parent,
        has_mesh: false,
        has_triangles: true,
        has_markers: true,
        has_points: true,
        placed: true,
    }
}

fn mesh(parent: usize) -> SceneNode {
    SceneNode {
        has_mesh: true,
        ..node(None, Some(parent))
    }
}

fn plate() -> Vec<SceneNode> {
    vec![
        node(Some("F_ARMOR"), None),
        node(Some("F_L_L"), None),
        mesh(1),
        node(Some("F_L_R"), None),
        mesh(3),
        node(Some("F_L_L_RED"), None),
        mesh(5),
        mesh(5),
        node(Some("F_L_R_RED"), None),
        mesh(8),
        node(Some("F_MARKER"), None),
        mesh(10),
        node(Some("F_VERTEX_L"), None),
        mesh(12),
        node(Some("F_VERTEX_R"), None),
        mesh(14),
        node(Some("STICKERS_C"), None),
        node(Some("S_ONE"), Some(16)),
        node(Some("S_TWO"), Some(16)),
    ]
}

fn slots() -> Vec<StickerSlot> {
    vec![
        StickerSlot {
            name_suffix: "_ONE".to_string(),
            label: ArmorLabel(1),
        },
        StickerSlot {
            name_suffix: "_TWO".to_string(),
            label: ArmorLabel(2),
        },
    ]
}

#[test]
fn a_whole_plate_is_built() {
    let mut next = 4;
    let (build, commands) =
        process_armor_root(&plate(), Team::Red, ArmorLabel(2), &slots(), &mut next);
    assert_eq!(build, ArmorBuild::Built(ArmorRoot { id: ArmorId(4) }));
    assert_eq!(next, 5);
    assert_eq!(commands[0], ArmorCommand::AddCollider(0));
    assert!(commands.contains(&ArmorCommand::Despawn(1)));
    assert!(commands.contains(&ArmorCommand::Despawn(3)));
    for strip in [6, 7] {
        assert!(commands.contains(&ArmorCommand::Strip {
            node: strip,
            side: Side::Left,
            visibility_id: 9
        }));
    }
    assert!(commands.contains(&ArmorCommand::Strip {
        node: 9,
        side: Side::Right,
        visibility_id: 10
    }));
    assert!(commands.contains(&ArmorCommand::Sticker {
        node: 17,
        label: ArmorLabel(1),
        visible: false
    }));
    assert!(commands.contains(&ArmorCommand::Sticker {
        node: 18,
        label: ArmorLabel(2),
        visible: true
    }));
    assert_eq!(
        commands.last(),
        Some(&ArmorCommand::Finish {
            marker: 11,
            left: 13,
            right: 15
        })
    );
}

#[test]
fn the_other_team_keeps_its_own_lights() {
    let mut next = 0;
    let (_, commands) =
        process_armor_root(&plate(), Team::Blue, ArmorLabel(1), &slots(), &mut next);
    assert!(commands.contains(&ArmorCommand::Despawn(5)));
    assert!(commands.contains(&ArmorCommand::Despawn(8)));
    assert!(commands.contains(&ArmorCommand::Strip {
        node: 2,
        side: Side::Left,
        visibility_id: 1
    }));
}

#[test]
fn building_stops_at_the_first_missing_part() {
    let build = |change: &dyn Fn(&mut Vec<SceneNode>)| {
        let mut nodes = plate();
        change(&mut nodes);
        let mut next = 0;
        let (build, _) =
            process_armor_root(&nodes, Team::Red, ArmorLabel(1), &slots(), &mut next);
        (build, next)
    };
    assert_eq!(
        build(&|nodes| nodes[0].name = None),
        (ArmorBuild::Incomplete, 0)
    );
    assert_eq!(
        build(&|nodes| nodes[3].name = None),
        (ArmorBuild::Incomplete, 0)
    );
    assert_eq!(
        build(&|nodes| nodes[9].has_mesh = false),
        (ArmorBuild::Incomplete, 1)
    );
    assert_eq!(
        build(&|nodes| nodes[7].has_triangles = false),
        (ArmorBuild::Incomplete, 1)
    );
    assert_eq!(
        build(&|nodes| nodes[11].has_markers = false),
        (ArmorBuild::Incomplete, 1)
    );
    assert_eq!(
        build(&|nodes| nodes[15].has_points = false),
        (ArmorBuild::NoCorners, 1)
    );
    assert_eq!(
        build(&|nodes| nodes[18].name = None),
        (ArmorBuild::Incomplete, 1)
    );
    // The marker's points are those of the object below the named one.
    assert_eq!(
        build(&|nodes| nodes[11].parent = None),
        (ArmorBuild::Incomplete, 1)
    );
}

#[test]
fn a_plate_that_is_nowhere_has_no_frame() {
    let mut nodes = plate();
    nodes[13].placed = false;
    let mut next = 0;
    let (_, commands) = process_armor_root(&nodes, Team::Red, ArmorLabel(1), &slots(), &mut next);
    assert!(commands.contains(&ArmorCommand::Unframed));
}

#[test]
fn plate_roots_are_found_by_name() {
    assert!(is_armor_root("LEFT_ARMOR_ROOT.001"));
    assert!(!is_armor_root("ARMOR"));
}

fn link(armor_team: Option<Team>, robot: bool, framed: bool) -> ChainLink {
    ChainLink {
        armor_team,
        robot,
        framed,
    }
}

#[test]
fn the_nearest_armor_above_a_collider_counts() {
    let chain = [
        link(None, false, false),
        link(Some(Team::Blue), false, true),
        link(Some(Team::Red), true, true),
    ];
    assert_eq!(armor_team(&chain), Some(Team::Blue));
    assert!(is_robot_body(&chain));
    assert_eq!(frame_holder(&chain), Some(1));
    assert_eq!(armor_team(&chain[..1]), None);
    assert!(!is_robot_body(&chain[..2]));
    assert_eq!(frame_holder(&chain[..1]), None);
}

#[test]
fn a_hit_counts_within_the_face_and_the_angle() {
    assert!(within_hit_zone(None, Some(false), false));
    assert!(within_hit_zone(Some(0), Some(true), true));
    assert!(within_hit_zone(Some(0), None, true));
    assert!(!within_hit_zone(Some(0), Some(false), true));
    assert!(!within_hit_zone(Some(0), Some(true), false));
    assert_eq!(
        projectile_of_contact(true, true),
        Some(ProjectileBody::First)
    );
    assert_eq!(
        projectile_of_contact(false, true),
        Some(ProjectileBody::Second)
    );
    assert_eq!(projectile_of_contact(false, false), None);
}

#[test]
fn a_projectile_counts_once() {
    let enemy = [link(Some(Team::Blue), false, false)];
    let friend = [link(Some(Team::Red), false, false)];
    let body = [link(None, true, false)];
    let ground = [link(None, false, false)];
    let mut contacts = ArmorContacts::new();
    assert_eq!(
        contacts.handle_armor_collision(1, Team::Red, &friend, true),
        ContactVerdict::Ignored
    );
    assert_eq!(
        contacts.handle_armor_collision(1, Team::Red, &ground, true),
        ContactVerdict::Ignored
    );
    // The plate wins over the body in one step.
    assert_eq!(
        contacts.handle_armor_collision(1, Team::Red, &body, true),
        ContactVerdict::BodyTouched
    );
    assert_eq!(
        contacts.handle_armor_collision(1, Team::Red, &enemy, true),
        ContactVerdict::Counted
    );
    assert_eq!(
        contacts.handle_armor_collision(1, Team::Red, &enemy, true),
        ContactVerdict::AlreadySpent
    );
    // A hit outside the zone spends the projectile too.
    assert_eq!(
        contacts.handle_armor_collision(2, Team::Red, &enemy, false),
        ContactVerdict::Spent
    );
    assert_eq!(
        contacts.handle_armor_collision(2, Team::Red, &enemy, true),
        ContactVerdict::AlreadySpent
    );
}

#[test]
fn a_body_spends_projectiles_when_the_step_ends() {
    let enemy = [link(Some(Team::Blue), false, false)];
    let body = [link(None, true, false)];
    let mut contacts = ArmorContacts::new();
    contacts.handle_armor_collision(3, Team::Red, &body, true);
    contacts.spend_body_touched_projectiles();
    assert_eq!(
        contacts.handle_armor_collision(3, Team::Red, &enemy, true),
        ContactVerdict::AlreadySpent
    );
    contacts.cleanup_consumed_armor_projectiles(&vec![4, 5]);
    assert!(contacts.consumed.is_empty());
}

#[test]
fn stickers_come_round() {
    let sequence = [ArmorLabel(3), ArmorLabel(1), ArmorLabel(2)];
    let mut selection = ArmorStickerSelection::new(ArmorLabel(1), &sequence);
    assert_eq!(selection.sequence_index, 1);
    assert_eq!(selection.advance_debug_sequence(&sequence), ArmorLabel(2));
    assert_eq!(selection.advance_debug_sequence(&sequence), ArmorLabel(3));
    assert_eq!(selection.advance_debug_sequence(&sequence), ArmorLabel(1));
    let unknown = ArmorStickerSelection::new(ArmorLabel(9), &sequence);
    assert_eq!(unknown.sequence_index, 0);
    assert_eq!(unknown.label, ArmorLabel(9));
}

#[test]
fn the_selected_sticker_shows() {
    let sticker = |root, label| ArmorSticker {
        root,
        label: ArmorLabel(label),
    };
    let stickers = vec![
        (10, sticker(1, 1)),
        (11, sticker(1, 2)),
        (12, sticker(2, 1)),
    ];
    assert_eq!(
        sync_armor_stickers(&vec![(1, ArmorLabel(2))], &stickers),
        vec![(10, false), (11, true)]
    );
}

#[test]
fn light_numbers_are_distinct() {
    let mut seen = Vec::new();
    for id in 0..4 {
        for side in [Side::Left, Side::Right] {
            seen.push(ArmorRoot { id: ArmorId(id) }.light_visibility_id(side));
        }
    }
    assert_eq!(seen, vec![1, 2, 3, 4, 5, 6, 7, 8]);
}

#[test]
fn parts_are_found_by_side() {
    let parts = ArmorParts {
        marker: 1,
        left_lights: vec![2, 3],
        right_lights: vec![4],
        left_vertex: 5,
        right_vertex: 6,
    };
    assert_eq!(parts.marker(), 1);
    assert_eq!(parts.lights(Side::Left), &[2, 3]);
    assert_eq!(parts.lights(Side::Right), &[4]);
    assert_eq!(parts.vertex(Side::Right), 6);
    let scan = ScanArmor::new(
        Team::Blue,
        ArmorSpec {
            armor_type: ArmorType::Large,
            label: ArmorLabel(1),
        },
    );
    assert_eq!(scan.spec.armor_type(), ArmorType::Large);
    assert_eq!(scan.spec.label(), ArmorLabel(1));
}

#[test]
fn triangles_are_whole() {
    let points = Some(vec!['a', 'b', 'c', 'd']);
    assert_eq!(
        extract_triangle_vertices(true, points.clone(), None),
        Some(vec!['a', 'b', 'c'])
    );
    assert_eq!(
        extract_triangle_vertices(true, points.clone(), Some(vec![3, 9, 0, 1, 2])),
        Some(vec!['d', 'a', 'b'])
    );
    assert_eq!(
        extract_triangle_vertices(true, points.clone(), Some(vec![0, 1])),
        None
    );
    assert_eq!(extract_triangle_vertices(false, points, None), None);
    assert_eq!(extract_triangle_vertices::<char>(true, None, None), None);
    assert_eq!(extract_vertices(Some(vec![1, 2])), Some(vec![1, 2]));
    assert_eq!(extract_vertices::<u8>(Some(vec![])), None);
}

#[test]
fn strips_of_one_material_share_one_copy() {
    let mut cache = BoostedLightMaterialCache::new();
    assert_eq!(cache.copy_of(5), None);
    assert_eq!(cache.boost_light_strip(5, 50), 50);
    assert_eq!(cache.boost_light_strip(5, 51), 50);
    assert_eq!(cache.boost_light_strip(6, 60), 60);
    assert_eq!(cache.copy_of(5), Some(50));
}
