use glam::{Quat, Vec3};
use skeletal_anim::character::{Character, ParameterTable};
use skeletal_anim::definition::{GraphDefinition, NodeDefinition, TransitionDefinition};
use skeletal_anim::names::NameTable;
use skeletal_anim::output::Job;
use skeletal_anim::sample::{AnimationClip, Playhead};
use skeletal_anim::scene::{Placement, Scene};
use skeletal_anim::skeleton::Skeleton;
use skeletal_anim::ui::UI;
use skeletal_anim::weight::SPEED_ONE;

fn skeleton() -> Skeleton {
    Skeleton::new(vec![None, Some(0)], vec!["root".to_string(), "tip".to_string()]).unwrap()
}

fn clips() -> NameTable<AnimationClip> {
    let mut table = NameTable::new();
    table.insert("idle".to_string(), AnimationClip { id: 0, duration: 1_000, track_count: 2 });
    table.insert("walk".to_string(), AnimationClip { id: 1, duration: 2_000, track_count: 2 });
    table
}

fn definition(first: &str) -> GraphDefinition {
    GraphDefinition {
        nodes: vec![
            NodeDefinition::Sample { clip: first.to_string(), looping: true, speed: SPEED_ONE },
            NodeDefinition::Sample { clip: "walk".to_string(), looping: true, speed: SPEED_ONE },
        ],
        transitions: vec![TransitionDefinition { from: 0, to: 1, duration: 200 }],
        start: Some(0),
    }
}

fn placements(n: usize) -> Vec<Placement> {
    (0..n)
        .map(|i| Placement { position: Vec3::new(i as f32, 0.0, 1.0), rotation: Quat::IDENTITY })
        .collect()
}

#[test]
fn ui_can_be_made() {
    let _ui: UI = UI::new();
}

#[test]
fn parameters_are_read_by_index() {
    let mut table = ParameterTable::new();
    assert_eq!(table.get_bool_param(0), None);
    table.bools = vec![true, false];
    table.ints = vec![-5];
    table.uints = vec![7, 8, 9];
    assert_eq!(table.get_bool_param(0), Some(true));
    assert_eq!(table.get_bool_param(1), Some(false));
    assert_eq!(table.get_bool_param(2), None);
    assert_eq!(table.get_int_param(0), Some(-5));
    assert_eq!(table.get_int_param(1), None);
    assert_eq!(table.get_uint_param(2), Some(9));
    assert_eq!(table.get_uint_param(3), None);
}

#[test]
fn character_is_made_with_its_graph() {
    let position = Vec3::new(1.0, 2.0, 3.0);
    let orientation = Quat::from_xyzw(0.0, 1.0, 0.0, 0.0);
    let mut c =
        Character::new(&skeleton(), 4, position, orientation, &definition("idle"), &clips()).unwrap();
    assert_eq!(c.skinned_model_node_idx, 4);
    assert_eq!(c.position, position);
    assert_eq!(c.orientation, orientation);
    assert_eq!(c.anim_graph.machine.node_count(), 2);
    assert_eq!(
        c.evaluate(250),
        vec![Job::Sample(Playhead { clip: 0, seek: 250, duration: 1_000 })]
    );
    assert_eq!(c.position, position);
}

#[test]
fn character_needs_a_buildable_graph() {
    assert!(Character::new(&skeleton(), 0, Vec3::ZERO, Quat::IDENTITY, &definition("fly"), &clips())
        .is_none());
}

#[test]
fn characters_are_added_by_type() {
    let mut scene = Scene::new();
    assert_eq!(scene.character_type("knight"), None);
    let first = scene.add_characters(
        11,
        &placements(3),
        &definition("idle"),
        &skeleton(),
        &clips(),
        "knight".to_string(),
    );
    assert_eq!(first, Some(0));
    let second = scene.add_characters(
        12,
        &placements(1),
        &definition("walk"),
        &skeleton(),
        &clips(),
        "horse".to_string(),
    );
    assert_eq!(second, Some(1));
    assert_eq!(scene.characters_contexts.len(), 2);
    assert_eq!(scene.characters_contexts[0].skinned_model_idx, 11);
    assert_eq!(scene.characters_contexts[0].characters.len(), 3);
    assert_eq!(scene.characters_contexts[0].characters[2].position, Vec3::new(2.0, 0.0, 1.0));
    assert_eq!(scene.characters_contexts[0].characters[2].skinned_model_node_idx, 0);
    assert_eq!(scene.characters_contexts[1].characters[0].skinned_model_node_idx, 1);
    assert_eq!(scene.character_type("knight"), Some(0));
    assert_eq!(scene.character_type("horse"), Some(1));
    assert_eq!(scene.character_type("dragon"), None);
}

#[test]
fn later_type_of_the_same_name_wins() {
    let mut scene = Scene::new();
    scene.add_characters(0, &placements(1), &definition("idle"), &skeleton(), &clips(), "a".to_string());
    scene.add_characters(0, &placements(1), &definition("idle"), &skeleton(), &clips(), "b".to_string());
    scene.add_characters(0, &placements(1), &definition("idle"), &skeleton(), &clips(), "a".to_string());
    assert_eq!(scene.character_type("a"), Some(2));
    assert_eq!(scene.character_type("b"), Some(1));
}

#[test]
fn unbuildable_characters_leave_the_scene_alone() {
    let mut scene = Scene::new();
    let r = scene.add_characters(
        0,
        &placements(2),
        &definition("fly"),
        &skeleton(),
        &clips(),
        "bird".to_string(),
    );
    assert_eq!(r, None);
    assert!(scene.characters_contexts.is_empty());
    assert_eq!(scene.character_type("bird"), None);
    let r = scene.add_characters(
        0,
        &placements(0),
        &definition("fly"),
        &skeleton(),
        &clips(),
        "nobody".to_string(),
    );
    assert_eq!(r, Some(0));
    assert!(scene.characters_contexts[0].characters.is_empty());
}

#[test]
fn frame_advances_every_character() {
    let mut scene = Scene::new();
    scene.add_characters(0, &placements(2), &definition("idle"), &skeleton(), &clips(), "a".to_string());
    scene.add_characters(1, &placements(1), &definition("walk"), &skeleton(), &clips(), "b".to_string());
    let walk = scene.characters_contexts[0].characters[1].anim_graph.machine.node_handles[1];
    scene.characters_contexts[0].characters[1].anim_graph.machine.request_transition(walk).unwrap();
    let frames = scene.update_characters(100);
    assert_eq!(frames.len(), 2);
    assert_eq!(frames[0].len(), 2);
    assert_eq!(frames[1].len(), 1);
    assert_eq!(frames[0][0], vec![Job::Sample(Playhead { clip: 0, seek: 100, duration: 1_000 })]);
    assert_eq!(
        frames[0][1],
        vec![
            Job::Sample(Playhead { clip: 0, seek: 100, duration: 1_000 }),
            Job::Sample(Playhead { clip: 1, seek: 100, duration: 2_000 }),
            Job::CrossFade { weight1: 32768, weight2: 32768 },
        ]
    );
    assert_eq!(frames[1][0], vec![Job::Sample(Playhead { clip: 1, seek: 100, duration: 2_000 })]);
    let frames = scene.update_characters(950);
    assert_eq!(frames[0][0], vec![Job::Sample(Playhead { clip: 0, seek: 50, duration: 1_000 })]);
    assert_eq!(frames[0][1], vec![Job::Sample(Playhead { clip: 1, seek: 1_050, duration: 2_000 })]);
}

#[test]
fn graphs_are_changed_for_a_whole_type() {
    let mut scene = Scene::new();
    scene.add_characters(0, &placements(2), &definition("idle"), &skeleton(), &clips(), "a".to_string());
    scene.add_characters(1, &placements(1), &definition("idle"), &skeleton(), &clips(), "b".to_string());
    scene.update_characters(100);
    assert!(!scene.change_anim_graphs(0, &definition("fly"), &skeleton(), &clips()));
    let frames = scene.update_characters(0);
    assert_eq!(frames[0][1], vec![Job::Sample(Playhead { clip: 0, seek: 100, duration: 1_000 })]);
    assert!(scene.change_anim_graphs(0, &definition("walk"), &skeleton(), &clips()));
    let frames = scene.update_characters(0);
    assert_eq!(frames[0][0], vec![Job::Sample(Playhead { clip: 1, seek: 0, duration: 2_000 })]);
    assert_eq!(frames[0][1], vec![Job::Sample(Playhead { clip: 1, seek: 0, duration: 2_000 })]);
    assert_eq!(frames[1][0], vec![Job::Sample(Playhead { clip: 0, seek: 100, duration: 1_000 })]);
    assert_eq!(scene.characters_contexts[0].characters[1].position, Vec3::new(1.0, 0.0, 1.0));
}

#[test]
fn changing_graphs_of_an_empty_type_succeeds() {
    let mut scene = Scene::new();
    scene.add_characters(0, &placements(0), &definition("idle"), &skeleton(), &clips(), "a".to_string());
    assert!(scene.change_anim_graphs(0, &definition("fly"), &skeleton(), &clips()));
}

#[test]
fn set_parameter_triggers_the_transition() {
    let mut c =
        Character::new(&skeleton(), 0, Vec3::ZERO, Quat::IDENTITY, &definition("idle"), &clips()).unwrap();
    let walk = c.anim_graph.machine.node_handles[1];
    let edge = c.anim_graph.machine.edge_handles[0];
    assert_eq!(c.request_transition_if(0, walk), None);
    c.parameters.bools = vec![false, true];
    assert_eq!(c.request_transition_if(0, walk), None);
    assert!(c.anim_graph.on_node());
    assert_eq!(c.request_transition_if(1, walk), Some(Ok(edge)));
    assert_eq!(c.anim_graph.current_edge(), Some(edge));
    let jobs = c.evaluate(200);
    assert_eq!(c.anim_graph.current_node(), Some(walk));
    assert_eq!(jobs, vec![Job::Sample(Playhead { clip: 1, seek: 200, duration: 2_000 })]);
    assert_eq!(
        c.request_transition_if(1, walk),
        Some(Err(skeletal_anim::transition::TransitionError::NoTransition))
    );
}

#[test]
fn frame_output_lays_out_instances_and_bones() {
    let mut scene = Scene::new();
    scene.add_characters(0, &placements(2), &definition("idle"), &skeleton(), &clips(), "a".to_string());
    let context = &scene.characters_contexts[0];
    let instances = context.placements();
    assert_eq!(instances.len(), 2);
    assert_eq!(instances[1].position, Vec3::new(1.0, 0.0, 1.0));
    assert_eq!(instances[1].rotation, Quat::IDENTITY);
    let models: Vec<Vec<i64>> = vec![vec![1, 2], vec![3, 4]];
    let inverse: Vec<i64> = vec![10, 20];
    let (instances, bones) =
        context.frame_output(&models, &inverse, |m: &i64, b: &i64| m * 100 + b).unwrap();
    assert_eq!(instances.len(), 2);
    assert_eq!(instances[0].position, Vec3::new(0.0, 0.0, 1.0));
    assert_eq!(bones, vec![110, 220, 310, 420]);
    let short: Vec<Vec<i64>> = vec![vec![1, 2]];
    assert!(context.frame_output(&short, &inverse, |m: &i64, b: &i64| m + b).is_none());
    let ragged: Vec<Vec<i64>> = vec![vec![1, 2], vec![3]];
    assert!(context.frame_output(&ragged, &inverse, |m: &i64, b: &i64| m + b).is_none());
}
