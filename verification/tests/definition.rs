use skeletal_anim::animation_graph::{AnimEdge, AnimGraph, AnimNode};
use skeletal_anim::definition::{
    build_machine, build_node, GraphDefinition, NodeDefinition, TransitionDefinition,
};
use skeletal_anim::names::NameTable;
use skeletal_anim::sample::AnimationClip;
use skeletal_anim::skeleton::Skeleton;
use skeletal_anim::weight::{SPEED_ONE, WEIGHT_ONE};

fn skeleton() -> Skeleton {
    Skeleton::new(vec![None, Some(0)], vec!["root".to_string(), "tip".to_string()]).unwrap()
}

fn clips() -> NameTable<AnimationClip> {
    let mut table = NameTable::new();
    table.insert("idle".to_string(), AnimationClip { id: 0, duration: 1_000, track_count: 2 });
    table.insert("walk".to_string(), AnimationClip { id: 1, duration: 2_000, track_count: 2 });
    table
}

fn sample(name: &str) -> NodeDefinition {
    NodeDefinition::Sample { clip: name.to_string(), looping: true, speed: SPEED_ONE }
}

fn idle_walk() -> GraphDefinition {
    GraphDefinition {
        nodes: vec![sample("idle"), sample("walk")],
        transitions: vec![
            TransitionDefinition { from: 0, to: 1, duration: 200 },
            TransitionDefinition { from: 1, to: 0, duration: 300 },
        ],
        start: Some(0),
    }
}

#[test]
fn graph_is_built_as_described() {
    let g = AnimGraph::build_from_definition(&skeleton(), &idle_walk(), &clips()).unwrap();
    let m = &g.machine;
    assert_eq!(m.node_count(), 2);
    assert_eq!(m.edge_count(), 2);
    assert_eq!(m.node_handles.len(), 2);
    assert_eq!(m.edge_handles.len(), 2);
    assert_eq!(g.root(), Some(m.node_handles[0]));
    assert_eq!(g.current_node(), Some(m.node_handles[0]));
    assert_eq!(g.current_edge(), None);
    assert!(g.on_node());
    assert_eq!(m.end, None);
    match m.node(m.node_handles[0]) {
        Some(AnimNode::Sample(n)) => {
            assert_eq!(n.clip, Some(AnimationClip { id: 0, duration: 1_000, track_count: 2 }));
            assert_eq!((n.seek, n.speed, n.looping, n.joint_count), (0, SPEED_ONE, true, 2));
        }
        _ => panic!("node 0 plays idle"),
    }
    assert!(matches!(m.node(m.node_handles[1]), Some(AnimNode::Sample(n)) if n.clip.map(|c| c.id) == Some(1)));
    match m.edge(m.edge_handles[1]) {
        Some(AnimEdge::Transition(t)) => {
            assert_eq!(t.duration, 300);
            assert_eq!((t.elapsed, t.seek1, t.seek2), (0, 0, 0));
            assert_eq!((t.weight1, t.weight2), (WEIGHT_ONE, 0));
            assert_eq!(t.blend.joint_count, 2);
        }
        _ => panic!("edge 1 is a transition"),
    }
}

#[test]
fn built_graph_follows_its_transitions() {
    let mut g = AnimGraph::build_from_definition(&skeleton(), &idle_walk(), &clips()).unwrap();
    let walk = g.machine.node_handles[1];
    let idle = g.machine.node_handles[0];
    assert_eq!(g.machine.request_transition(walk), Ok(g.machine.edge_handles[0]));
    g.evaluate(200);
    assert_eq!(g.current_node(), Some(walk));
    assert_eq!(g.machine.request_transition(idle), Ok(g.machine.edge_handles[1]));
    g.evaluate(299);
    assert!(!g.on_node());
    g.evaluate(1);
    assert_eq!(g.current_node(), Some(idle));
}

#[test]
fn missing_clip_builds_nothing() {
    let mut def = idle_walk();
    def.nodes.push(sample("run"));
    assert!(AnimGraph::build_from_definition(&skeleton(), &def, &clips()).is_none());
    assert!(build_node(&skeleton(), &sample("run"), &clips()).is_none());
    assert!(build_node(&skeleton(), &sample("walk"), &clips()).is_some());
}

#[test]
fn dangling_transition_builds_nothing() {
    let mut def = idle_walk();
    def.transitions.push(TransitionDefinition { from: 0, to: 2, duration: 1 });
    assert!(AnimGraph::build_from_definition(&skeleton(), &def, &clips()).is_none());
    let mut def = idle_walk();
    def.transitions.push(TransitionDefinition { from: 5, to: 0, duration: 1 });
    assert!(build_machine(&skeleton(), &def, &clips()).is_none());
}

#[test]
fn repeated_transition_builds_nothing() {
    let mut def = idle_walk();
    def.transitions.push(TransitionDefinition { from: 0, to: 1, duration: 999 });
    assert!(AnimGraph::build_from_definition(&skeleton(), &def, &clips()).is_none());
}

#[test]
fn start_outside_the_nodes_builds_nothing() {
    let mut def = idle_walk();
    def.start = Some(2);
    assert!(AnimGraph::build_from_definition(&skeleton(), &def, &clips()).is_none());
}

#[test]
fn graph_without_start_stands_nowhere() {
    let mut def = idle_walk();
    def.start = None;
    let g = AnimGraph::build_from_definition(&skeleton(), &def, &clips()).unwrap();
    assert_eq!(g.root(), None);
    assert_eq!(g.current_node(), None);
}

#[test]
fn empty_description_builds_an_empty_graph() {
    let def = GraphDefinition { nodes: vec![], transitions: vec![], start: None };
    let g = AnimGraph::build_from_definition(&skeleton(), &def, &NameTable::new()).unwrap();
    assert_eq!(g.machine.node_count(), 0);
}

#[test]
fn nested_descriptions_build_nested_machines() {
    let def = GraphDefinition {
        nodes: vec![
            NodeDefinition::StateMachine(idle_walk()),
            NodeDefinition::Blend,
            NodeDefinition::LocalToModel { locals: 3 },
        ],
        transitions: vec![TransitionDefinition { from: 0, to: 1, duration: 10 }],
        start: Some(0),
    };
    let g = AnimGraph::build_from_definition(&skeleton(), &def, &clips()).unwrap();
    let m = &g.machine;
    match m.node(m.node_handles[0]) {
        Some(AnimNode::StateMachine(inner)) => {
            assert_eq!(inner.node_count(), 2);
            assert_eq!(inner.edge_count(), 2);
            assert_eq!(inner.active_node, Some(inner.node_handles[0]));
        }
        _ => panic!("node 0 is a machine"),
    }
    assert!(matches!(m.node(m.node_handles[1]), Some(AnimNode::Blend(_))));
    assert!(matches!(m.node(m.node_handles[2]), Some(AnimNode::LocalToModel(n)) if n.input == 3));
}

#[test]
fn broken_nested_description_builds_nothing() {
    let mut inner = idle_walk();
    inner.nodes.push(sample("missing"));
    let def = GraphDefinition {
        nodes: vec![NodeDefinition::Blend, NodeDefinition::StateMachine(inner)],
        transitions: vec![],
        start: None,
    };
    assert!(AnimGraph::build_from_definition(&skeleton(), &def, &clips()).is_none());
}
