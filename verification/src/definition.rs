//! Building a graph from a declarative description.

use vstd::prelude::*;
use crate::animation_graph::{AnimEdge, AnimGraph, AnimNode, StateMachineNode, TransitionEdge};
use crate::blend::BlendNode;
use crate::evaluation::{EdgeMap, NodeMap};
use crate::local_to_model::LocalToModelNode;
use crate::names::NameTable;
use crate::sample::{AnimationClip, SampleNode};
use crate::skeleton::Skeleton;
use crate::store::{linked, STORE_LIMIT};
use mapgraph::map::slotmap::{EdgeIndex, NodeIndex};

verus! {

/// The clips that descriptions refer to, by name.
pub type ClipMap = Map<Seq<char>, AnimationClip>;

/// The description of one node.
pub enum NodeDefinition {
    /// Plays the clip called `clip` at `speed`, in units of 1/65536,
    /// backwards where `speed` is negative.
    Sample { clip: String, looping: bool, speed: i32 },
    /// Blends what the host wires into it.
    Blend,
    /// Turns the local pose in the buffer `locals` into model space.
    LocalToModel { locals: usize },
    /// A nested state machine.
    StateMachine(GraphDefinition),
}

/// The description of one transition, between two nodes given by their
/// place in the list of nodes, fading for `duration` nanoseconds.
#[derive(Clone, Copy, Debug, PartialEq, Eq, Structural)]
pub struct TransitionDefinition {
    pub from: usize,
    pub to: usize,
    pub duration: u64,
}

/// The description of a graph: its nodes, its transitions, and the place
/// of its start in the list of nodes.
pub struct GraphDefinition {
    pub nodes: Vec<NodeDefinition>,
    pub transitions: Vec<TransitionDefinition>,
    pub start: Option<usize>,
}

/// Whether a node can be built from `def`: the clip it names exists, and
/// so on for the nodes of a nested machine.
pub open spec fn node_buildable(def: NodeDefinition, clips: ClipMap) -> bool
    decreases def,
{
    match def {
        NodeDefinition::Sample { clip, looping, speed } => clips.dom().contains(clip@),
        NodeDefinition::StateMachine(g) => graph_buildable(g, clips),
        _ => true,
    }
}

/// Whether the first `n` of `defs` can all be built.
pub open spec fn nodes_buildable(defs: Seq<NodeDefinition>, clips: ClipMap, n: int) -> bool
    decreases defs, 0nat,
{
    forall|i: int| 0 <= i < n && i < defs.len() ==> node_buildable(#[trigger] defs[i], clips)
}

/// Whether the first `n` of `defs` join nodes out of `count` and no two
/// of them join the same nodes in the same direction.
pub open spec fn transitions_buildable(defs: Seq<TransitionDefinition>, count: int, n: int) -> bool {
    &&& forall|j: int|
        0 <= j < n ==> (#[trigger] defs[j]).from < count && defs[j].to < count
    &&& forall|j: int, k: int|
        0 <= j < k < n ==> !((#[trigger] defs[j]).from == (#[trigger] defs[k]).from && defs[j].to
            == defs[k].to)
}

/// Whether a graph can be built from `def`: every reference resolves, no
/// transition is given twice, and the tables have room for all of it.
pub open spec fn graph_buildable(def: GraphDefinition, clips: ClipMap) -> bool
    decreases def,
{
    &&& def.nodes@.len() <= STORE_LIMIT
    &&& def.transitions@.len() <= STORE_LIMIT
    &&& nodes_buildable(def.nodes@, clips, def.nodes@.len() as int)
    &&& transitions_buildable(
        def.transitions@,
        def.nodes@.len() as int,
        def.transitions@.len() as int,
    )
    &&& def.start matches Some(s) ==> s < def.nodes@.len()
}

/// Whether `t` is a transition of `duration` that has not started.
pub open spec fn transition_built(t: TransitionEdge, joint_count: nat, duration: u64) -> bool {
    &&& t.blend.joint_count == joint_count
    &&& t.blend.layers@.len() == 0
    &&& t.blend.output is None
    &&& t.seek1 == 0
    &&& t.seek2 == 0
    &&& t.weight1 == 65536
    &&& t.weight2 == 0
    &&& t.speed1 == 65536
    &&& t.speed2 == 65536
    &&& t.duration == duration
    &&& t.elapsed == 0
}

/// Whether `node` is what `def` describes.
pub open spec fn node_built(
    node: AnimNode,
    def: NodeDefinition,
    joint_count: nat,
    clips: ClipMap,
) -> bool
    decreases def,
{
    match def {
        NodeDefinition::Sample { clip, looping, speed } => node matches AnimNode::Sample(s)
            && s.clip == Some(clips[clip@]) && s.joint_count == joint_count && s.seek
            == 0 && s.speed == speed && s.looping == looping,
        NodeDefinition::Blend => node matches AnimNode::Blend(b) && b.joint_count == joint_count
            && b.layers@.len() == 0 && b.output is None,
        NodeDefinition::LocalToModel { locals } => node matches AnimNode::LocalToModel(l)
            && l.joint_count == joint_count && l.input == locals,
        NodeDefinition::StateMachine(g) => match node {
            AnimNode::StateMachine(m) => machine_built(m, g, joint_count, clips),
            _ => false,
        },
    }
}

/// Whether the handles `handles` hold, each in the place of its
/// description, the first `n` nodes that `defs` describes, and `nodes`
/// holds nothing else.
pub open spec fn nodes_built(
    nodes: NodeMap,
    handles: Seq<NodeIndex>,
    defs: Seq<NodeDefinition>,
    joint_count: nat,
    clips: ClipMap,
    n: int,
) -> bool
    decreases defs, 0nat,
{
    &&& handles.len() == n
    &&& forall|a: NodeIndex| #[trigger]
        nodes.dom().contains(a) <==> exists|k: int| 0 <= k < n && #[trigger] handles[k] == a
    &&& forall|k: int, l: int| 0 <= k < l < n ==> #[trigger] handles[k] != #[trigger] handles[l]
    &&& forall|k: int|
        0 <= k < n && k < defs.len() ==> node_built(
            nodes[handles[k]],
            #[trigger] defs[k],
            joint_count,
            clips,
        )
}

/// Whether the handles `links` hold, each in the place of its
/// description, the first `n` transitions that `defs` describes between
/// the nodes under `handles`, and `edges` holds nothing else.
pub open spec fn transitions_built(
    edges: EdgeMap,
    links: Seq<EdgeIndex>,
    handles: Seq<NodeIndex>,
    defs: Seq<TransitionDefinition>,
    joint_count: nat,
    n: int,
) -> bool {
    &&& links.len() == n
    &&& forall|e: EdgeIndex| #[trigger]
        edges.dom().contains(e) <==> exists|k: int| 0 <= k < n && #[trigger] links[k] == e
    &&& forall|k: int, l: int| 0 <= k < l < n ==> #[trigger] links[k] != #[trigger] links[l]
    &&& forall|k: int|
        0 <= k < n ==> {
            let entry = edges[#[trigger] links[k]];
            &&& entry.0 == handles[defs[k].from as int]
            &&& entry.1 == handles[defs[k].to as int]
            &&& entry.2 matches AnimEdge::Transition(t) && transition_built(
                t,
                joint_count,
                defs[k].duration,
            )
        }
}

/// Whether `m` is the machine that `def` describes: its handles name, in
/// the order of the description, one node per description and one
/// transition per description, its tables hold nothing else, and it
/// stands on its start.
pub open spec fn machine_built(
    m: StateMachineNode,
    def: GraphDefinition,
    joint_count: nat,
    clips: ClipMap,
) -> bool
    decreases def,
{
    &&& nodes_built(
        m.nodes(),
        m.node_handles@,
        def.nodes@,
        joint_count,
        clips,
        def.nodes@.len() as int,
    )
    &&& transitions_built(
        m.edges(),
        m.edge_handles@,
        m.node_handles@,
        def.transitions@,
        joint_count,
        def.transitions@.len() as int,
    )
    &&& m.end is None
    &&& m.active_edge is None
    &&& m.on_node
    &&& m.active_node == m.start
    &&& m.start == match def.start {
        Some(s) => Some(m.node_handles@[s as int]),
        None => None,
    }
}

/// Builds the node that `def` describes, or nothing where `def` names a
/// clip that does not exist or holds a machine that cannot be built.
pub fn build_node(skeleton: &Skeleton, def: &NodeDefinition, clips: &NameTable<AnimationClip>) -> (r: Option<
    AnimNode,
>)
    ensures
        r is Some <==> node_buildable(*def, clips@),
        r matches Some(n) ==> node_built(n, *def, skeleton.spec_joint_count(), clips@),
    decreases def,
{
    match def {
        NodeDefinition::Sample { clip, looping, speed } => {
            match clips.get(clip.as_str()) {
                Some(found) => Some(
                    AnimNode::Sample(
                        SampleNode {
                            clip: Some(found),
                            joint_count: skeleton.joint_count(),
                            seek: 0,
                            speed: *speed,
                            looping: *looping,
                        },
                    ),
                ),
                None => None,
            }
        },
        NodeDefinition::Blend => Some(AnimNode::Blend(BlendNode::new(skeleton))),
        NodeDefinition::LocalToModel { locals } => Some(
            AnimNode::LocalToModel(LocalToModelNode::new(skeleton, *locals)),
        ),
        NodeDefinition::StateMachine(g) => {
            match build_machine(skeleton, g, clips) {
                Some(m) => Some(AnimNode::StateMachine(m)),
                None => None,
            }
        },
    }
}

/// Builds the machine that `def` describes. Nothing is built when a clip
/// name or a node of a transition does not resolve, when a transition is
/// given twice, when the start is no node of the description, or when the
/// description holds more than the tables take.
pub fn build_machine(skeleton: &Skeleton, def: &GraphDefinition, clips: &NameTable<AnimationClip>) -> (r:
    Option<StateMachineNode>)
    ensures
        r is Some <==> graph_buildable(*def, clips@),
        r matches Some(m) ==> machine_built(m, *def, skeleton.spec_joint_count(), clips@),
        r matches Some(m) ==> m.wf(),
    decreases def,
{
    let ghost joints = skeleton.spec_joint_count();
    let mut machine: StateMachineNode = StateMachineNode::new();
    let count: usize = def.nodes.len();
    let mut i: usize = 0;
    while i < count
        invariant
            i <= count,
            count == def.nodes@.len(),
            joints == skeleton.spec_joint_count(),
            nodes_buildable(def.nodes@, clips@, i as int),
            nodes_built(machine.nodes(), machine.node_handles@, def.nodes@, joints, clips@, i as int),
            machine.nodes().dom().finite(),
            machine.nodes().dom().len() == i,
            i <= STORE_LIMIT,
            machine.edges().dom() == Set::<EdgeIndex>::empty(),
            machine.edge_handles@.len() == 0,
            machine.start is None,
            machine.end is None,
            machine.active_node is None,
            machine.active_edge is None,
            machine.on_node,
        decreases count - i,
    {
        let node: AnimNode = match build_node(skeleton, &def.nodes[i], clips) {
            Some(node) => node,
            None => {
                return None;
            },
        };
        let ghost before = machine.nodes();
        let ghost held = machine.node_handles@;
        let h: NodeIndex = match machine.try_add_node(node) {
            Some(h) => h,
            None => {
                return None;
            },
        };
        proof {
            let after = machine.nodes();
            assert(after == before.insert(h, node));
            assert forall|a: NodeIndex| #[trigger]
                after.dom().contains(a) <==> exists|k: int|
                    0 <= k < i + 1 && #[trigger] machine.node_handles@[k] == a by {
                if after.dom().contains(a) {
                    if a == h {
                        assert(machine.node_handles@[i as int] == a);
                    } else {
                        assert(before.dom().contains(a));
                        let k = choose|k: int| 0 <= k < i && #[trigger] held[k] == a;
                        assert(machine.node_handles@[k] == a);
                    }
                }
                if exists|k: int| 0 <= k < i + 1 && #[trigger] machine.node_handles@[k] == a {
                    let k = choose|k: int| 0 <= k < i + 1 && #[trigger] machine.node_handles@[k] == a;
                    if k < i {
                        assert(held[k] == a);
                        assert(before.dom().contains(a));
                    }
                }
            }
            assert forall|k: int, l: int| 0 <= k < l < i + 1 implies #[trigger] machine.node_handles@[k]
                != #[trigger] machine.node_handles@[l] by {
                assert(held[k] == machine.node_handles@[k]);
                if l == i {
                    assert(before.dom().contains(held[k]));
                } else {
                    assert(held[l] == machine.node_handles@[l]);
                }
            }
            assert forall|k: int| 0 <= k < i + 1 && k < def.nodes@.len() implies node_built(
                after[machine.node_handles@[k]],
                #[trigger] def.nodes@[k],
                joints,
                clips@,
            ) by {
                if k < i {
                    assert(held[k] == machine.node_handles@[k]);
                    assert(before.dom().contains(held[k]));
                    assert(after[machine.node_handles@[k]] == before[held[k]]);
                }
            }
        }
        i += 1;
    }
    let ghost all_nodes = machine.nodes();
    let ghost all_handles = machine.node_handles@;
    let total: usize = def.transitions.len();
    let mut j: usize = 0;
    while j < total
        invariant
            j <= total,
            total == def.transitions@.len(),
            count == def.nodes@.len(),
            count <= STORE_LIMIT,
            machine.node_handles@.len() == count,
            joints == skeleton.spec_joint_count(),
            machine.nodes() == all_nodes,
            machine.node_handles@ == all_handles,
            nodes_buildable(def.nodes@, clips@, count as int),
            nodes_built(all_nodes, machine.node_handles@, def.nodes@, joints, clips@, count as int),
            transitions_buildable(def.transitions@, count as int, j as int),
            transitions_built(machine.edges(), machine.edge_handles@, machine.node_handles@, def.transitions@, joints, j as int),
            machine.edges().dom().finite(),
            machine.edges().dom().len() == j,
            j <= STORE_LIMIT,
            machine.start is None,
            machine.end is None,
            machine.active_node is None,
            machine.active_edge is None,
            machine.on_node,
        decreases total - j,
    {
        let t: TransitionDefinition = def.transitions[j];
        if t.from >= count || t.to >= count {
            return None;
        }
        let mut fade: TransitionEdge = TransitionEdge::new(skeleton);
        fade.duration = t.duration;
        let from: NodeIndex = machine.node_handles[t.from];
        let to: NodeIndex = machine.node_handles[t.to];
        let ghost before = machine.edges();
        let ghost held = machine.edge_handles@;
        let ghost entry = (from, to, AnimEdge::Transition(fade));
        proof {
            assert(all_nodes.dom().contains(machine.node_handles@[t.from as int]));
            assert(all_nodes.dom().contains(machine.node_handles@[t.to as int]));
        }
        let added = machine.add_edge(AnimEdge::Transition(fade), from, to);
        let e: EdgeIndex = match added {
            Some(Ok(e)) => e,
            Some(Err(_)) => {
                proof {
                    assert(linked(before, from, to));
                    let x = choose|x: EdgeIndex| #[trigger]
                        before.dom().contains(x) && before[x].0 == from && before[x].1 == to;
                    let k = choose|k: int| 0 <= k < j && #[trigger] held[k] == x;
                    assert(before[held[k]].0 == machine.node_handles@[def.transitions@[k].from as int]);
                    assert(before[held[k]].1 == machine.node_handles@[def.transitions@[k].to as int]);
                    assert(def.transitions@[k].from == def.transitions@[j as int].from);
                    assert(def.transitions@[k].to == def.transitions@[j as int].to);
                    assert(!transitions_buildable(def.transitions@, count as int, total as int));
                }
                return None;
            },
            None => {
                return None;
            },
        };
        proof {
            let after = machine.edges();
            assert(after == before.insert(e, entry));
            assert forall|a: EdgeIndex| #[trigger]
                after.dom().contains(a) <==> exists|k: int|
                    0 <= k < j + 1 && #[trigger] machine.edge_handles@[k] == a by {
                if after.dom().contains(a) {
                    if a == e {
                        assert(machine.edge_handles@[j as int] == a);
                    } else {
                        assert(before.dom().contains(a));
                        let k = choose|k: int| 0 <= k < j && #[trigger] held[k] == a;
                        assert(machine.edge_handles@[k] == a);
                    }
                }
                if exists|k: int| 0 <= k < j + 1 && #[trigger] machine.edge_handles@[k] == a {
                    let k = choose|k: int| 0 <= k < j + 1 && #[trigger] machine.edge_handles@[k] == a;
                    if k < j {
                        assert(held[k] == a);
                        assert(before.dom().contains(a));
                    }
                }
            }
            assert forall|k: int, l: int| 0 <= k < l < j + 1 implies #[trigger] machine.edge_handles@[k]
                != #[trigger] machine.edge_handles@[l] by {
                assert(held[k] == machine.edge_handles@[k]);
                if l == j {
                    assert(before.dom().contains(held[k]));
                } else {
                    assert(held[l] == machine.edge_handles@[l]);
                }
            }
            assert forall|k: int| 0 <= k < j + 1 implies ({
                let entry = after[#[trigger] machine.edge_handles@[k]];
                &&& entry.0 == machine.node_handles@[def.transitions@[k].from as int]
                &&& entry.1 == machine.node_handles@[def.transitions@[k].to as int]
                &&& entry.2 matches AnimEdge::Transition(t) && transition_built(
                    t,
                    joints,
                    def.transitions@[k].duration,
                )
            }) by {
                if k < j {
                    assert(held[k] == machine.edge_handles@[k]);
                    assert(before.dom().contains(held[k]));
                    assert(after[machine.edge_handles@[k]] == before[held[k]]);
                }
            }
            assert forall|k: int, l: int| 0 <= k < l < j + 1 implies !((
            #[trigger] def.transitions@[k]).from == (#[trigger] def.transitions@[l]).from
                && def.transitions@[k].to == def.transitions@[l].to) by {
                if l == j && def.transitions@[k].from == def.transitions@[l].from
                    && def.transitions@[k].to == def.transitions@[l].to {
                    assert(before.dom().contains(held[k]));
                    assert(before[held[k]].0 == from);
                    assert(before[held[k]].1 == to);
                    assert(linked(before, from, to));
                }
            }
        }
        j += 1;
    }
    match def.start {
        Some(s) => {
            if s >= count {
                return None;
            }
            proof {
                assert(all_nodes.dom().contains(machine.node_handles@[s as int]));
            }
            let start: NodeIndex = machine.node_handles[s];
            let _ = machine.set_start(start);
        },
        None => {},
    }
    Some(machine)
}

impl AnimGraph {
    /// Builds the graph that `definition` describes for a character with
    /// the joints of `skeleton`, taking clips by name from
    /// `clips_by_name`. Nothing is built when any reference in the
    /// description does not resolve.
    pub fn build_from_definition(
        skeleton: &Skeleton,
        definition: &GraphDefinition,
        clips_by_name: &NameTable<AnimationClip>,
    ) -> (r: Option<AnimGraph>)
        ensures
            r is Some <==> graph_buildable(*definition, clips_by_name@),
            r matches Some(g) ==> machine_built(
                g.machine,
                *definition,
                skeleton.spec_joint_count(),
                clips_by_name@,
            ),
            r matches Some(g) ==> g.machine.wf(),
    {
        match build_machine(skeleton, definition, clips_by_name) {
            Some(machine) => Some(AnimGraph { machine }),
            None => None,
        }
    }
}

} // verus!
