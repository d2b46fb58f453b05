use skeletal_anim::animation_graph::{
    AnimEdge, AnimGraph, AnimNode, OutputEdge, SimpleEdge, StateMachineNode, TransitionEdge,
    DEFAULT_TRANSITION_NANOS,
};
use skeletal_anim::blend::BlendNode;
use skeletal_anim::output::Job;
use skeletal_anim::sample::{AnimationClip, Playhead};
use skeletal_anim::skeleton::Skeleton;
use skeletal_anim::store::EdgeError;
use skeletal_anim::transition::TransitionError;
use skeletal_anim::weight::{SPEED_ONE, WEIGHT_ONE};

fn skeleton() -> Skeleton {
    Skeleton::new(
        vec![None, Some(0), Some(1)],
        vec!["root".to_string(), "spine".to_string(), "head".to_string()],
    )
    .unwrap()
}

fn clip(id: usize, millis: u64) -> AnimationClip {
    AnimationClip { id, duration: millis * 1_000_000, track_count: 3 }
}

fn transition(millis: u64) -> AnimEdge {
    let mut t = TransitionEdge::new(&skeleton());
    t.duration = millis * 1_000_000;
    AnimEdge::Transition(t)
}

fn seek_of(machine: &StateMachineNode, node: mapgraph::map::slotmap::NodeIndex) -> u64 {
    match machine.node(node) {
        Some(AnimNode::Sample(s)) => s.seek,
        _ => panic!("not a clip node"),
    }
}

fn fade_of(machine: &StateMachineNode, edge: mapgraph::map::slotmap::EdgeIndex) -> (u64, u32, u32) {
    match machine.edge(edge) {
        Some(AnimEdge::Transition(t)) => (t.elapsed, t.weight1, t.weight2),
        _ => panic!("not a transition"),
    }
}

#[test]
fn new_transition_edge_has_defaults() {
    let t = TransitionEdge::new(&skeleton());
    assert_eq!(t.blend.joint_count, 3);
    assert!(t.blend.layers.is_empty());
    assert_eq!((t.seek1, t.seek2, t.elapsed), (0, 0, 0));
    assert_eq!((t.weight1, t.weight2), (WEIGHT_ONE, 0));
    assert_eq!(t.weight1 + t.weight2, WEIGHT_ONE);
    assert_eq!((t.speed1, t.speed2), (SPEED_ONE, SPEED_ONE));
    assert_eq!(t.duration, 200_000_000);
    assert_eq!(DEFAULT_TRANSITION_NANOS, 200_000_000);
}

#[test]
fn transition_edge_fades_linearly() {
    let mut t = TransitionEdge::new(&skeleton());
    t.start(77);
    assert_eq!((t.seek1, t.seek2, t.elapsed), (77, 0, 0));
    assert_eq!((t.weight1, t.weight2), (WEIGHT_ONE, 0));
    assert!(!t.advance(50_000_000));
    assert_eq!((t.weight1, t.weight2), (49152, 16384));
    assert!(!t.advance(50_000_000));
    assert_eq!((t.weight1, t.weight2), (32768, 32768));
    assert!(t.advance(100_000_000));
    assert_eq!((t.weight1, t.weight2), (0, WEIGHT_ONE));
    assert!(t.advance(u64::MAX));
    assert_eq!(t.elapsed, u64::MAX);
    assert_eq!((t.weight1, t.weight2), (0, WEIGHT_ONE));
}

#[test]
fn transition_edge_without_duration_is_over_at_once() {
    let mut t = TransitionEdge::new(&skeleton());
    t.duration = 0;
    t.start(0);
    assert_eq!((t.weight1, t.weight2), (0, WEIGHT_ONE));
    assert!(t.advance(0));
}

#[test]
fn new_machine_is_empty() {
    let m = StateMachineNode::new();
    assert_eq!(m.node_count(), 0);
    assert_eq!(m.edge_count(), 0);
    assert!(m.node_handles.is_empty());
    assert!(m.edge_handles.is_empty());
    assert_eq!(m.start, None);
    assert_eq!(m.end, None);
    assert_eq!(m.active_node, None);
    assert_eq!(m.active_edge, None);
    assert!(m.on_node);
    assert!(m.get_output().is_empty());
}

#[test]
fn added_nodes_are_found_under_their_handles() {
    let s = skeleton();
    let mut m = StateMachineNode::new();
    let a = m.add_sample_node(&s, clip(1, 1000));
    let b = m.add_blend_node(&s);
    let c = m.add_l2m_node(&s, 4);
    let d = m.add_state_machine_node();
    assert_eq!(m.node_count(), 4);
    assert_eq!(m.node_handles, vec![a, b, c, d]);
    assert!(a != b && b != c && c != d && a != c && a != d && b != d);
    assert!(matches!(m.node(a), Some(AnimNode::Sample(n)) if n.clip == Some(clip(1, 1000)) && n.seek == 0 && !n.looping));
    assert!(matches!(m.node(b), Some(AnimNode::Blend(n)) if n.joint_count == 3 && n.layers.is_empty()));
    assert!(matches!(m.node(c), Some(AnimNode::LocalToModel(n)) if n.input == 4 && n.joint_count == 3));
    assert!(matches!(m.node(d), Some(AnimNode::StateMachine(n)) if n.node_count() == 0 && n.on_node));
    assert_eq!(m.try_add_node(AnimNode::Blend(BlendNode::new(&s))).map(|h| m.node(h).is_some()), Some(true));
    assert_eq!(m.node_count(), 5);
}

#[test]
fn foreign_handles_name_nothing() {
    let s = skeleton();
    let mut small = StateMachineNode::new();
    let mut large = StateMachineNode::new();
    small.add_blend_node(&s);
    large.add_blend_node(&s);
    let far = large.add_blend_node(&s);
    assert!(small.node(far).is_none());
    assert!(small.node_mut(far).is_none());
    assert!(!small.set_start(far));
    assert!(!small.set_end(far));
    assert_eq!(small.start, None);
    assert_eq!(small.end, None);
}

#[test]
fn node_mut_changes_the_node_in_place() {
    let s = skeleton();
    let mut m = StateMachineNode::new();
    let a = m.add_sample_node(&s, clip(1, 1000));
    let b = m.add_sample_node(&s, clip(2, 1000));
    match m.node_mut(a) {
        Some(AnimNode::Sample(n)) => {
            n.looping = true;
            n.seek = 5;
        }
        _ => panic!("a is a clip node"),
    }
    assert!(matches!(m.node(a), Some(AnimNode::Sample(n)) if n.looping && n.seek == 5));
    assert!(matches!(m.node(b), Some(AnimNode::Sample(n)) if !n.looping && n.seek == 0));
}

#[test]
fn edges_join_existing_nodes_once() {
    let s = skeleton();
    let mut m = StateMachineNode::new();
    let mut other = StateMachineNode::new();
    let a = m.add_sample_node(&s, clip(1, 1000));
    let b = m.add_sample_node(&s, clip(2, 1000));
    other.add_blend_node(&s);
    other.add_blend_node(&s);
    let far = other.add_blend_node(&s);
    assert_eq!(m.add_edge(transition(200), far, a), Some(Err(EdgeError::InvalidSource)));
    assert_eq!(m.add_edge(transition(200), a, far), Some(Err(EdgeError::InvalidTarget)));
    assert_eq!(m.edge_count(), 0);
    let e = m.add_edge(transition(200), a, b).unwrap().unwrap();
    assert_eq!(m.add_edge(transition(300), a, b), Some(Err(EdgeError::EdgeExists)));
    let back = m.add_edge(transition(300), b, a).unwrap().unwrap();
    assert!(e != back);
    assert_eq!(m.edge_count(), 2);
    assert_eq!(m.edge_handles, vec![e, back]);
    assert!(matches!(m.edge(e), Some(AnimEdge::Transition(t)) if t.duration == 200_000_000));
    assert!(matches!(m.edge(back), Some(AnimEdge::Transition(t)) if t.duration == 300_000_000));
    let after_failed = m.add_edge(AnimEdge::Simple(SimpleEdge {}), a, a).unwrap().unwrap();
    assert!(matches!(m.edge(after_failed), Some(AnimEdge::Simple(_))));
}

#[test]
fn start_is_where_the_machine_stands_first() {
    let s = skeleton();
    let mut m = StateMachineNode::new();
    let a = m.add_sample_node(&s, clip(1, 1000));
    let b = m.add_sample_node(&s, clip(2, 1000));
    assert!(m.set_start(a));
    assert_eq!((m.start, m.active_node), (Some(a), Some(a)));
    assert!(m.set_start(b));
    assert_eq!((m.start, m.active_node), (Some(b), Some(a)));
    assert!(m.set_end(b));
    assert_eq!(m.end, Some(b));
    assert!(m.on_node);
}

#[test]
fn frame_on_a_node_advances_that_node_only() {
    let s = skeleton();
    let mut m = StateMachineNode::new();
    let a = m.add_sample_node(&s, clip(1, 1000));
    let b = m.add_sample_node(&s, clip(2, 1000));
    m.set_start(a);
    m.evaluate(250_000_000);
    assert_eq!(seek_of(&m, a), 250_000_000);
    assert_eq!(seek_of(&m, b), 0);
    assert_eq!(
        m.get_output(),
        vec![Job::Sample(Playhead { clip: 1, seek: 250_000_000, duration: 1_000_000_000 })]
    );
}

#[test]
fn machine_without_active_node_stands_still() {
    let s = skeleton();
    let mut m = StateMachineNode::new();
    let a = m.add_sample_node(&s, clip(1, 1000));
    m.evaluate(250_000_000);
    assert_eq!(seek_of(&m, a), 0);
    assert!(m.get_output().is_empty());
}

#[test]
fn transition_requests_are_checked() {
    let s = skeleton();
    let mut m = StateMachineNode::new();
    let mut other = StateMachineNode::new();
    let idle = m.add_sample_node(&s, clip(1, 1000));
    let walk = m.add_sample_node(&s, clip(2, 1000));
    let run = m.add_sample_node(&s, clip(3, 1000));
    let mix = m.add_blend_node(&s);
    for _ in 0..4 {
        other.add_blend_node(&s);
    }
    let far = other.add_blend_node(&s);
    let pipe = m
        .add_edge(AnimEdge::Output(OutputEdge { weight: WEIGHT_ONE, seek: 0, speed: SPEED_ONE, layer: 0 }), idle, mix)
        .unwrap()
        .unwrap();
    let to_walk = m.add_edge(transition(200), idle, walk).unwrap().unwrap();
    assert_eq!(m.request_transition(walk), Err(TransitionError::NoTransition));
    m.set_start(idle);
    assert_eq!(m.request_transition(far), Err(TransitionError::MissingTarget));
    assert_eq!(m.request_transition(run), Err(TransitionError::NoTransition));
    assert_eq!(m.request_transition(mix), Err(TransitionError::NotATransition));
    assert_eq!(m.start_transition(pipe), Err(TransitionError::NotATransition));
    let mut third = StateMachineNode::new();
    let x = third.add_blend_node(&s);
    let y = third.add_blend_node(&s);
    let z = third.add_blend_node(&s);
    third.add_edge(transition(1), x, y).unwrap().unwrap();
    third.add_edge(transition(1), y, z).unwrap().unwrap();
    let unknown = third.add_edge(transition(1), z, x).unwrap().unwrap();
    assert_eq!(m.start_transition(unknown), Err(TransitionError::UnknownEdge));
    let from_walk = m.add_edge(transition(200), walk, run).unwrap().unwrap();
    assert_eq!(m.start_transition(from_walk), Err(TransitionError::WrongSource));
    assert_eq!((m.active_node, m.active_edge, m.on_node), (Some(idle), None, true));
    assert_eq!(m.request_transition(walk), Ok(to_walk));
    assert_eq!((m.active_node, m.active_edge, m.on_node), (Some(idle), Some(to_walk), false));
}

#[test]
fn starting_a_transition_snapshots_the_source() {
    let s = skeleton();
    let mut m = StateMachineNode::new();
    let idle = m.add_sample_node(&s, clip(1, 1000));
    let walk = m.add_sample_node(&s, clip(2, 1000));
    let e = m.add_edge(transition(200), idle, walk).unwrap().unwrap();
    m.set_start(idle);
    m.evaluate(300_000_000);
    match m.edge(e) {
        Some(AnimEdge::Transition(t)) => assert_eq!((t.weight1, t.weight2), (WEIGHT_ONE, 0)),
        _ => panic!("e is a transition"),
    }
    assert_eq!(m.start_transition(e), Ok(()));
    match m.edge(e) {
        Some(AnimEdge::Transition(t)) => {
            assert_eq!((t.seek1, t.seek2, t.elapsed), (300_000_000, 0, 0));
            assert_eq!((t.weight1, t.weight2), (WEIGHT_ONE, 0));
            assert_eq!(t.duration, 200_000_000);
        }
        _ => panic!("e is a transition"),
    }
}

#[test]
fn frame_in_a_transition_fades_and_advances_both_ends() {
    let s = skeleton();
    let mut m = StateMachineNode::new();
    let idle = m.add_sample_node(&s, clip(1, 1000));
    let walk = m.add_sample_node(&s, clip(2, 800));
    let e = m.add_edge(transition(200), idle, walk).unwrap().unwrap();
    m.set_start(idle);
    m.request_transition(walk).unwrap();
    m.evaluate(100_000_000);
    assert_eq!(fade_of(&m, e), (100_000_000, 32768, 32768));
    assert_eq!(seek_of(&m, idle), 100_000_000);
    assert_eq!(seek_of(&m, walk), 100_000_000);
    assert_eq!((m.active_node, m.active_edge, m.on_node), (Some(idle), Some(e), false));
    assert_eq!(
        m.get_output(),
        vec![
            Job::Sample(Playhead { clip: 1, seek: 100_000_000, duration: 1_000_000_000 }),
            Job::Sample(Playhead { clip: 2, seek: 100_000_000, duration: 800_000_000 }),
            Job::CrossFade { weight1: 32768, weight2: 32768 },
        ]
    );
    m.evaluate(99_999_999);
    assert!(!m.on_node);
    m.evaluate(1);
    assert_eq!(fade_of(&m, e), (200_000_000, 0, WEIGHT_ONE));
    assert_eq!((m.active_node, m.active_edge, m.on_node), (Some(walk), None, true));
    assert_eq!(
        m.get_output(),
        vec![Job::Sample(Playhead { clip: 2, seek: 200_000_000, duration: 800_000_000 })]
    );
}

#[test]
fn transition_without_duration_completes_in_an_empty_frame() {
    let s = skeleton();
    let mut m = StateMachineNode::new();
    let idle = m.add_sample_node(&s, clip(1, 1000));
    let walk = m.add_sample_node(&s, clip(2, 800));
    m.add_edge(transition(0), idle, walk).unwrap().unwrap();
    m.set_start(idle);
    m.request_transition(walk).unwrap();
    m.evaluate(0);
    assert_eq!((m.active_node, m.active_edge, m.on_node), (Some(walk), None, true));
}

#[test]
fn new_request_replaces_the_transition_in_flight() {
    let s = skeleton();
    let mut m = StateMachineNode::new();
    let idle = m.add_sample_node(&s, clip(1, 1000));
    let walk = m.add_sample_node(&s, clip(2, 800));
    let run = m.add_sample_node(&s, clip(3, 600));
    let to_walk = m.add_edge(transition(200), idle, walk).unwrap().unwrap();
    let to_run = m.add_edge(transition(400), idle, run).unwrap().unwrap();
    m.set_start(idle);
    m.request_transition(walk).unwrap();
    m.evaluate(100_000_000);
    assert_eq!(m.request_transition(run), Ok(to_run));
    assert_eq!(m.active_edge, Some(to_run));
    assert_eq!(fade_of(&m, to_run), (0, WEIGHT_ONE, 0));
    assert_eq!(fade_of(&m, to_walk), (100_000_000, 32768, 32768));
    m.evaluate(400_000_000);
    assert_eq!((m.active_node, m.active_edge, m.on_node), (Some(run), None, true));
    assert_eq!(seek_of(&m, walk), 100_000_000);
}

#[test]
fn transition_onto_itself_advances_the_node_once() {
    let s = skeleton();
    let mut m = StateMachineNode::new();
    let idle = m.add_sample_node(&s, clip(1, 1000));
    let e = m.add_edge(transition(200), idle, idle).unwrap().unwrap();
    m.set_start(idle);
    assert_eq!(m.request_transition(idle), Ok(e));
    m.evaluate(100_000_000);
    assert_eq!(seek_of(&m, idle), 100_000_000);
}

#[test]
fn nested_machines_move_with_their_parent() {
    let s = skeleton();
    let mut m = StateMachineNode::new();
    let inner = m.add_state_machine_node();
    m.set_start(inner);
    let (a, b, e) = match m.node_mut(inner) {
        Some(AnimNode::StateMachine(n)) => {
            let a = n.add_sample_node(&s, clip(1, 1000));
            let b = n.add_sample_node(&s, clip(2, 1000));
            let e = n.add_edge(transition(200), a, b).unwrap().unwrap();
            n.set_start(a);
            n.request_transition(b).unwrap();
            (a, b, e)
        }
        _ => panic!("inner is a machine"),
    };
    m.evaluate(50_000_000);
    match m.node(inner) {
        Some(AnimNode::StateMachine(n)) => {
            assert_eq!(seek_of(n, a), 50_000_000);
            assert_eq!(seek_of(n, b), 50_000_000);
            assert_eq!(fade_of(n, e), (50_000_000, 49152, 16384));
        }
        _ => panic!("inner is a machine"),
    }
    assert_eq!(
        m.get_output(),
        vec![
            Job::Sample(Playhead { clip: 1, seek: 50_000_000, duration: 1_000_000_000 }),
            Job::Sample(Playhead { clip: 2, seek: 50_000_000, duration: 1_000_000_000 }),
            Job::CrossFade { weight1: 49152, weight2: 16384 },
        ]
    );
}

#[test]
fn machines_nested_too_deep_stand_still() {
    let s = skeleton();
    let mut leaf = StateMachineNode::new();
    let a = leaf.add_sample_node(&s, clip(1, 1000));
    leaf.set_start(a);
    let mut top = leaf;
    for _ in 0..64 {
        let mut outer = StateMachineNode::new();
        let h = outer.add_node(AnimNode::StateMachine(top));
        outer.set_start(h);
        top = outer;
    }
    top.evaluate(1);
    assert!(top.get_output().is_empty());
    let mut shallow = StateMachineNode::new();
    let mut inner = StateMachineNode::new();
    let b = inner.add_sample_node(&s, clip(1, 1000));
    inner.set_start(b);
    let h = shallow.add_node(AnimNode::StateMachine(inner));
    shallow.set_start(h);
    shallow.evaluate(1);
    assert_eq!(shallow.get_output().len(), 1);
}

#[test]
fn other_nodes_ask_for_their_work() {
    let s = skeleton();
    let mut m = StateMachineNode::new();
    let b = m.add_blend_node(&s);
    let l = m.add_l2m_node(&s, 6);
    m.set_start(b);
    assert!(m.get_output().is_empty());
    match m.node_mut(b) {
        Some(AnimNode::Blend(n)) => {
            n.set_input(1, 3);
            n.set_input(2, 3);
            n.set_weight(0, 1);
            n.set_weight(1, 3);
            n.set_output(9, 3);
        }
        _ => panic!("b is a blend node"),
    }
    m.evaluate(10);
    assert_eq!(
        m.get_output(),
        vec![
            Job::BlendLayer { input: 1, share: 16384 },
            Job::BlendLayer { input: 2, share: 49152 },
            Job::Blend { output: 9, layers: 2, pass_through: false },
        ]
    );
    m.active_node = Some(l);
    assert_eq!(m.get_output(), vec![Job::LocalToModel { input: 6, joint_count: 3 }]);
}

#[test]
fn unplayable_clips_ask_for_nothing() {
    let s = skeleton();
    let mut m = StateMachineNode::new();
    let a = m.add_sample_node(&s, clip(1, 0));
    m.set_start(a);
    m.evaluate(10);
    assert_eq!(seek_of(&m, a), 0);
    assert!(m.get_output().is_empty());
}

#[test]
fn graph_mirrors_its_machine() {
    let s = skeleton();
    let mut g = AnimGraph::new();
    assert_eq!(g.root(), None);
    assert!(g.on_node());
    let idle = g.machine.add_sample_node(&s, clip(1, 1000));
    let walk = g.machine.add_sample_node(&s, clip(2, 1000));
    let e = g.machine.add_edge(transition(200), idle, walk).unwrap().unwrap();
    assert!(g.set_root(idle));
    assert_eq!(g.root(), Some(idle));
    assert_eq!(g.current_node(), Some(idle));
    assert_eq!(g.current_edge(), None);
    g.machine.request_transition(walk).unwrap();
    assert_eq!(g.current_edge(), Some(e));
    assert!(!g.on_node());
    g.evaluate(200_000_000);
    assert_eq!(g.current_node(), Some(walk));
    assert_eq!(g.current_edge(), None);
    assert!(g.on_node());
    assert_eq!(
        g.get_output(),
        vec![Job::Sample(Playhead { clip: 2, seek: 200_000_000, duration: 1_000_000_000 })]
    );
}

#[test]
fn machine_keeps_its_shape_through_its_operations() {
    fn shaped(m: &StateMachineNode) -> bool {
        let node_ok = m.active_node.map_or(true, |a| m.node(a).is_some());
        let edge_ok = m.active_edge.map_or(true, |e| matches!(m.edge(e), Some(AnimEdge::Transition(_))));
        m.on_node == m.active_edge.is_none() && node_ok && edge_ok
    }
    let s = skeleton();
    let mut m = StateMachineNode::new();
    assert!(shaped(&m));
    let idle = m.add_sample_node(&s, clip(1, 1000));
    let walk = m.add_sample_node(&s, clip(2, 1000));
    let e = m.add_edge(transition(200), idle, walk).unwrap().unwrap();
    let back = m.add_edge(transition(200), walk, idle).unwrap().unwrap();
    m.set_start(idle);
    assert!(shaped(&m));
    assert_eq!(m.start_transition(back), Err(TransitionError::WrongSource));
    assert!(shaped(&m));
    assert_eq!(m.start_transition(e), Ok(()));
    assert!(shaped(&m));
    m.evaluate(100_000_000);
    assert_eq!(m.active_node, Some(idle));
    assert!(shaped(&m));
    assert_eq!(m.start_transition(back), Err(TransitionError::WrongSource));
    m.evaluate(100_000_000);
    assert_eq!(m.active_node, Some(walk));
    assert!(shaped(&m));
    assert_eq!(m.request_transition(idle), Ok(back));
    assert!(shaped(&m));
}

#[test]
fn node_count_follows_every_addition() {
    let s = skeleton();
    let mut m = StateMachineNode::new();
    for expected in 1..=5 {
        m.add_blend_node(&s);
        assert_eq!(m.node_count(), expected);
    }
}
