//! The nodes and edges of an animation graph.

use vstd::prelude::*;
use crate::blend::{BlendLayer, BlendNode};
use crate::local_to_model::LocalToModelNode;
use crate::sample::SampleNode;
use crate::skeleton::Skeleton;
use crate::evaluation::{
    advance_graph, graph_advanced, lemma_frame_keeps_position, position_wf, running, EdgeMap,
    NodeMap, Position,
};
use crate::output::{graph_jobs, push_graph_jobs, Job};
use crate::sample::AnimationClip;
use crate::store::{linked, store_edges, store_nodes, EdgeError, GraphStore, STORE_LIMIT};
use crate::transition::{
    edges_started, position_started, request_outcome, request_transition_in, start_refusal,
    start_transition_in, TransitionError,
};
use crate::weight::{
    fade_weights, lemma_fade_weights, spec_fade_in, spec_fade_out, SPEED_ONE, WEIGHT_ONE,
};
use mapgraph::map::slotmap::{EdgeIndex, NodeIndex};

verus! {

/// The animation graph of one character: a state machine at the top
/// level, whose start is the root of the graph.
pub struct AnimGraph {
    pub machine: StateMachineNode,
}

/// A node of an animation graph.
pub enum AnimNode {
    Blend(BlendNode),
    LocalToModel(LocalToModelNode),
    Sample(SampleNode),
    StateMachine(StateMachineNode),
}

/// An edge of an animation graph.
pub enum AnimEdge {
    Simple(SimpleEdge),
    Output(OutputEdge),
    Transition(TransitionEdge),
}

/// Connects two nodes that need nothing from the edge between them.
#[derive(Clone, Copy, Debug, PartialEq, Eq, Structural)]
pub struct SimpleEdge {}

/// Pipes the pose of a node into one layer of a blend.
#[derive(Clone, Copy, Debug, PartialEq, Eq, Structural)]
pub struct OutputEdge {
    pub weight: u32,
    pub seek: u64,
    pub speed: i32,
    pub layer: usize,
}

/// A timed cross-fade from one state of a state machine to another.
///
/// Times are in nanoseconds, weights and speeds in units of 1/65536.
pub struct TransitionEdge {
    pub blend: BlendNode,
    pub seek1: u64,
    pub seek2: u64,
    pub weight1: u32,
    pub weight2: u32,
    pub speed1: i32,
    pub speed2: i32,
    pub duration: u64,
    pub elapsed: u64,
}

/// How long a new transition fades: a fifth of a second.
pub const DEFAULT_TRANSITION_NANOS: u64 = 200_000_000;

/// A graph of states with one active state, or one active transition
/// between two states.
pub struct StateMachineNode {
    pub graph: GraphStore,
    /// The handles of the nodes, in the order in which they were added.
    pub node_handles: Vec<NodeIndex>,
    /// The handles of the edges, in the order in which they were added.
    pub edge_handles: Vec<EdgeIndex>,
    pub start: Option<NodeIndex>,
    pub end: Option<NodeIndex>,
    pub active_node: Option<NodeIndex>,
    pub active_edge: Option<EdgeIndex>,
    pub on_node: bool,
}

impl StateMachineNode {
    /// The nodes of the machine, by handle.
    pub open spec fn nodes(self) -> NodeMap {
        store_nodes(self.graph)
    }

    /// The edges of the machine, by handle.
    pub open spec fn edges(self) -> EdgeMap {
        store_edges(self.graph)
    }

    /// Where the machine stands.
    pub open spec fn position(self) -> Position {
        Position {
            active_node: self.active_node,
            active_edge: self.active_edge,
            on_node: self.on_node,
        }
    }
}

impl TransitionEdge {
    /// The transition as it is when it starts from a state whose playhead
    /// is at `seek`: no time has passed, the source playhead is `seek`, the
    /// target playhead is 0, and the weights are those of the first
    /// instant.
    pub open spec fn started(self, seek: u64) -> TransitionEdge {
        TransitionEdge {
            seek1: seek,
            seek2: 0,
            elapsed: 0,
            weight1: spec_fade_out(0, self.duration as nat) as u32,
            weight2: spec_fade_in(0, self.duration as nat) as u32,
            ..self
        }
    }

    /// The transition after `dt` more nanoseconds: the elapsed time has
    /// grown, as far as 64 bits hold it, and the weights are those of the
    /// cross-fade at that time.
    pub open spec fn faded(self, dt: nat) -> TransitionEdge {
        TransitionEdge {
            elapsed: if self.elapsed + dt > u64::MAX {
                u64::MAX
            } else {
                (self.elapsed + dt) as u64
            },
            weight1: spec_fade_out(self.elapsed as nat + dt, self.duration as nat) as u32,
            weight2: spec_fade_in(self.elapsed as nat + dt, self.duration as nat) as u32,
            ..self
        }
    }

    /// Whether the transition is over after `dt` more nanoseconds.
    pub open spec fn done_after(self, dt: nat) -> bool {
        self.elapsed + dt >= self.duration
    }

    /// Starts the transition from a state whose playhead is at `seek`.
    pub fn start(&mut self, seek: u64)
        ensures
            *final(self) == old(self).started(seek),
            final(self).weight1 + final(self).weight2 == WEIGHT_ONE,
            old(self).duration > 0 ==> final(self).weight1 == WEIGHT_ONE,
    {
        let weights: (u32, u32) = fade_weights(0, self.duration);
        proof {
            lemma_fade_weights(0, self.duration as nat);
        }
        self.seek1 = seek;
        self.seek2 = 0;
        self.elapsed = 0;
        self.weight1 = weights.0;
        self.weight2 = weights.1;
    }

    /// Lets `dt` nanoseconds pass and says whether the transition is over.
    /// The two weights add up to 1 at every instant, and the target holds
    /// all of it once the transition is over.
    pub fn advance(&mut self, dt: u64) -> (done: bool)
        ensures
            *final(self) == old(self).faded(dt as nat),
            done == old(self).done_after(dt as nat),
            final(self).weight1 + final(self).weight2 == WEIGHT_ONE,
            done ==> final(self).weight2 == WEIGHT_ONE,
    {
        let reached: u64 = if dt > u64::MAX - self.elapsed {
            u64::MAX
        } else {
            self.elapsed + dt
        };
        let weights: (u32, u32) = fade_weights(reached, self.duration);
        proof {
            lemma_fade_weights(reached as nat, self.duration as nat);
        }
        self.elapsed = reached;
        self.weight1 = weights.0;
        self.weight2 = weights.1;
        reached >= self.duration
    }

    /// Creates a transition for the joints of `skeleton` that has not
    /// moved: both playheads at 0, all of the weight with the source, both
    /// speeds at 1, and the default duration. It is as if it had just
    /// started from a playhead at 0.
    pub fn new(skeleton: &Skeleton) -> (edge: Self)
        ensures
            edge.blend.joint_count == skeleton.spec_joint_count(),
            edge.blend.layers@.len() == 0,
            edge.blend.output is None,
            edge.seek1 == 0,
            edge.seek2 == 0,
            edge.weight1 == WEIGHT_ONE,
            edge.weight2 == 0,
            edge.weight1 + edge.weight2 == WEIGHT_ONE,
            edge == edge.started(0),
            edge.speed1 == SPEED_ONE,
            edge.speed2 == SPEED_ONE,
            edge.duration == DEFAULT_TRANSITION_NANOS,
            edge.elapsed == 0,
    {
        proof {
            lemma_fade_weights(0, DEFAULT_TRANSITION_NANOS as nat);
        }
        TransitionEdge {
            blend: BlendNode::new(skeleton),
            seek1: 0,
            seek2: 0,
            weight1: WEIGHT_ONE,
            weight2: 0,
            speed1: SPEED_ONE,
            speed2: SPEED_ONE,
            duration: DEFAULT_TRANSITION_NANOS,
            elapsed: 0,
        }
    }
}

/// How many levels of nested state machines a frame descends into. Deeper
/// machines stand still and ask for nothing.
pub const MAX_DEPTH: usize = 64;

/// Whether `post` is `pre` with `node` added under the new handle `i`.
pub open spec fn node_added(pre: NodeMap, post: NodeMap, i: NodeIndex, node: AnimNode) -> bool {
    !pre.dom().contains(i) && post == pre.insert(i, node)
}

impl StateMachineNode {
    /// Whether the machine is new: no nodes, no edges, no start, no end,
    /// on no node.
    pub open spec fn fresh(self) -> bool {
        &&& self.nodes().dom() == Set::<NodeIndex>::empty()
        &&& self.edges().dom() == Set::<EdgeIndex>::empty()
        &&& self.node_handles@.len() == 0
        &&& self.edge_handles@.len() == 0
        &&& self.start is None
        &&& self.end is None
        &&& self.active_node is None
        &&& self.active_edge is None
        &&& self.on_node
    }

    /// What holds of a machine through all of its operations: it stands
    /// where it can stand, and its start and its end are nodes of its own.
    pub open spec fn wf(self) -> bool {
        &&& position_wf(self.nodes(), self.edges(), self.position())
        &&& self.start matches Some(s) ==> self.nodes().dom().contains(s)
        &&& self.end matches Some(e) ==> self.nodes().dom().contains(e)
    }

    /// Whether the machine differs from `before` in its tables at most.
    pub open spec fn same_marks(self, before: StateMachineNode) -> bool {
        &&& self.edge_handles == before.edge_handles
        &&& self.start == before.start
        &&& self.end == before.end
        &&& self.position() == before.position()
    }

    /// Creates an empty machine.
    pub fn new() -> (machine: Self)
        ensures
            machine.fresh(),
            machine.wf(),
    {
        StateMachineNode {
            graph: GraphStore::new(),
            node_handles: Vec::new(),
            edge_handles: Vec::new(),
            start: None,
            end: None,
            active_node: None,
            active_edge: None,
            on_node: true,
        }
    }

    /// The number of nodes.
    pub fn node_count(&self) -> (n: usize)
        ensures
            n == self.nodes().dom().len(),
            self.nodes().dom().finite(),
    {
        self.graph.node_count()
    }

    /// The number of edges.
    pub fn edge_count(&self) -> (n: usize)
        ensures
            n == self.edges().dom().len(),
            self.edges().dom().finite(),
    {
        self.graph.edge_count()
    }

    /// The node under `i`, if the machine has one.
    pub fn node(&self, i: NodeIndex) -> (r: Option<&AnimNode>)
        ensures
            r is Some <==> self.nodes().dom().contains(i),
            r matches Some(n) ==> *n == self.nodes()[i],
    {
        self.graph.node(i)
    }

    /// What the edge under `e` holds, if the machine has such an edge.
    pub fn edge(&self, e: EdgeIndex) -> (r: Option<&AnimEdge>)
        ensures
            r is Some <==> self.edges().dom().contains(e),
            r matches Some(w) ==> *w == self.edges()[e].2,
    {
        self.graph.edge(e)
    }

    /// Adds `node` and returns its handle.
    pub fn add_node(&mut self, node: AnimNode) -> (i: NodeIndex)
        requires
            old(self).nodes().dom().len() < STORE_LIMIT,
        ensures
            old(self).wf() ==> final(self).wf(),
            node_added(old(self).nodes(), final(self).nodes(), i, node),
            final(self).node_handles@ == old(self).node_handles@.push(i),
            final(self).edges() == old(self).edges(),
            final(self).same_marks(*old(self)),
    {
        let i: NodeIndex = self.graph.add_node(node);
        self.node_handles.push(i);
        i
    }

    /// Adds `node` if the machine has room for it.
    pub fn try_add_node(&mut self, node: AnimNode) -> (r: Option<NodeIndex>)
        ensures
            old(self).wf() ==> final(self).wf(),
            r is Some <==> old(self).nodes().dom().len() < STORE_LIMIT,
            r matches Some(i) ==> node_added(old(self).nodes(), final(self).nodes(), i, node)
                && final(self).node_handles@ == old(self).node_handles@.push(i),
            r is None ==> final(self).nodes() == old(self).nodes() && final(self).node_handles
                == old(self).node_handles,
            final(self).edges() == old(self).edges(),
            final(self).same_marks(*old(self)),
    {
        if self.graph.node_count() < STORE_LIMIT {
            Some(self.add_node(node))
        } else {
            None
        }
    }

    /// Adds a node that plays `animation` on the joints of `skeleton`.
    pub fn add_sample_node(&mut self, skeleton: &Skeleton, animation: AnimationClip) -> (i:
        NodeIndex)
        requires
            old(self).nodes().dom().len() < STORE_LIMIT,
        ensures
            old(self).wf() ==> final(self).wf(),
            final(self).node_handles@ == old(self).node_handles@.push(i),
            node_added(old(self).nodes(), final(self).nodes(), i, final(self).nodes()[i]),
            final(self).nodes()[i] matches AnimNode::Sample(s) && s.clip == Some(animation)
                && s.joint_count == skeleton.spec_joint_count() && s.seek == 0 && s.speed
                == SPEED_ONE && !s.looping,
            final(self).edges() == old(self).edges(),
            final(self).same_marks(*old(self)),
    {
        let val: AnimNode = AnimNode::Sample(SampleNode::new(skeleton, animation));
        self.add_node(val)
    }

    /// Adds a blend node for the joints of `skeleton`, without layers and
    /// without an output.
    pub fn add_blend_node(&mut self, skeleton: &Skeleton) -> (i: NodeIndex)
        requires
            old(self).nodes().dom().len() < STORE_LIMIT,
        ensures
            old(self).wf() ==> final(self).wf(),
            final(self).node_handles@ == old(self).node_handles@.push(i),
            !old(self).nodes().dom().contains(i),
            final(self).nodes().dom() == old(self).nodes().dom().insert(i),
            forall|k: NodeIndex| #[trigger]
                old(self).nodes().dom().contains(k) ==> final(self).nodes()[k] == old(
                    self,
                ).nodes()[k],
            final(self).nodes()[i] matches AnimNode::Blend(b) && b.joint_count
                == skeleton.spec_joint_count() && b.layers@.len() == 0 && b.output is None,
            final(self).edges() == old(self).edges(),
            final(self).same_marks(*old(self)),
    {
        let val: AnimNode = AnimNode::Blend(BlendNode::new(skeleton));
        self.add_node(val)
    }

    /// Adds a node that turns the local pose in the buffer `locals` into
    /// model-space matrices for the joints of `skeleton`.
    pub fn add_l2m_node(&mut self, skeleton: &Skeleton, locals: usize) -> (i: NodeIndex)
        requires
            old(self).nodes().dom().len() < STORE_LIMIT,
        ensures
            old(self).wf() ==> final(self).wf(),
            final(self).node_handles@ == old(self).node_handles@.push(i),
            node_added(old(self).nodes(), final(self).nodes(), i, final(self).nodes()[i]),
            final(self).nodes()[i] matches AnimNode::LocalToModel(l) && l.joint_count
                == skeleton.spec_joint_count() && l.input == locals,
            final(self).edges() == old(self).edges(),
            final(self).same_marks(*old(self)),
    {
        let val: AnimNode = AnimNode::LocalToModel(LocalToModelNode::new(skeleton, locals));
        self.add_node(val)
    }

    /// Adds an empty state machine as a node.
    pub fn add_state_machine_node(&mut self) -> (i: NodeIndex)
        requires
            old(self).nodes().dom().len() < STORE_LIMIT,
        ensures
            old(self).wf() ==> final(self).wf(),
            final(self).node_handles@ == old(self).node_handles@.push(i),
            !old(self).nodes().dom().contains(i),
            final(self).nodes().dom() == old(self).nodes().dom().insert(i),
            forall|k: NodeIndex| #[trigger]
                old(self).nodes().dom().contains(k) ==> final(self).nodes()[k] == old(
                    self,
                ).nodes()[k],
            final(self).nodes()[i] matches AnimNode::StateMachine(m) && m.fresh(),
            final(self).edges() == old(self).edges(),
            final(self).same_marks(*old(self)),
    {
        let val: AnimNode = AnimNode::StateMachine(StateMachineNode::new());
        self.add_node(val)
    }

    /// The node under `i`, to be changed in place.
    pub fn node_mut(&mut self, i: NodeIndex) -> (r: Option<&mut AnimNode>)
        ensures
            old(self).wf() ==> final(self).wf(),
            r is Some <==> old(self).nodes().dom().contains(i),
            r is Some ==> *r->0 == old(self).nodes()[i] && final(self).nodes() == old(
                self,
            ).nodes().insert(i, *final(r->0)),
            r is None ==> final(self).nodes() == old(self).nodes(),
            final(self).edges() == old(self).edges(),
            final(self).node_handles == old(self).node_handles,
            final(self).same_marks(*old(self)),
    {
        self.graph.node_mut(i)
    }

    /// Adds an edge from `from` to `to`. The edge is refused, and nothing
    /// changes, when the machine has no room for it, when a handle names
    /// no node, or when an edge already leads from `from` to `to`.
    pub fn add_edge(&mut self, edge: AnimEdge, from: NodeIndex, to: NodeIndex) -> (r: Option<
        Result<EdgeIndex, EdgeError>,
    >)
        ensures
            old(self).wf() ==> final(self).wf(),
            r is Some <==> old(self).edges().dom().len() < STORE_LIMIT,
            final(self).nodes() == old(self).nodes(),
            final(self).node_handles == old(self).node_handles,
            final(self).start == old(self).start,
            final(self).end == old(self).end,
            final(self).position() == old(self).position(),
            !(r matches Some(Ok(_))) ==> final(self).edges() == old(self).edges()
                && final(self).edge_handles == old(self).edge_handles,
            r matches Some(Err(why)) ==> why == edge_refusal(
                old(self).nodes(),
                old(self).edges(),
                from,
                to,
            )->0,
            r is Some ==> (r->0 is Err <==> edge_refusal(
                old(self).nodes(),
                old(self).edges(),
                from,
                to,
            ) is Some),
            r matches Some(Ok(e)) ==> !old(self).edges().dom().contains(e) && final(self).edges()
                == old(self).edges().insert(e, (from, to, edge)) && final(self).edge_handles@
                == old(self).edge_handles@.push(e),
    {
        if self.graph.edge_count() < STORE_LIMIT {
            let r = self.graph.add_edge(edge, from, to);
            match r {
                Ok(e) => {
                    self.edge_handles.push(e);
                },
                Err(_) => {},
            }
            Some(r)
        } else {
            None
        }
    }

    /// Pipes the pose of `from` into a layer of the blend node `to`: adds
    /// `edge` as an output edge between the two and gives the layer that
    /// the edge names the weight of the edge. Where `to` is no blend node,
    /// or has no such layer, only the edge is added. The edge is refused as
    /// any other edge is, and then nothing changes.
    pub fn connect_output(&mut self, from: NodeIndex, to: NodeIndex, edge: OutputEdge) -> (r:
        Option<Result<EdgeIndex, EdgeError>>)
        ensures
            old(self).wf() ==> final(self).wf(),
            r is Some <==> old(self).edges().dom().len() < STORE_LIMIT,
            final(self).node_handles == old(self).node_handles,
            final(self).start == old(self).start,
            final(self).end == old(self).end,
            final(self).position() == old(self).position(),
            !(r matches Some(Ok(_))) ==> final(self).nodes() == old(self).nodes() && final(self).edges() == old(self).edges() && final(self).edge_handles == old(self).edge_handles,
            r matches Some(Err(why)) ==> why == edge_refusal(
                old(self).nodes(),
                old(self).edges(),
                from,
                to,
            )->0,
            r is Some ==> (r->0 is Err <==> edge_refusal(
                old(self).nodes(),
                old(self).edges(),
                from,
                to,
            ) is Some),
            r matches Some(Ok(e)) ==> {
                &&& !old(self).edges().dom().contains(e)
                &&& final(self).edges() == old(self).edges().insert(
                    e,
                    (from, to, AnimEdge::Output(edge)),
                )
                &&& final(self).edge_handles@ == old(self).edge_handles@.push(e)
                &&& piped(old(self).nodes(), final(self).nodes(), to, edge)
            },
    {
        let added = self.add_edge(AnimEdge::Output(edge), from, to);
        match added {
            Some(Ok(_)) => {
                match self.graph.node_mut(to) {
                    Some(node) => {
                        match node {
                            AnimNode::Blend(b) => {
                                let _ = b.set_weight(edge.layer, edge.weight);
                            },
                            _ => {},
                        }
                    },
                    None => {},
                }
                proof {
                    assert(self.nodes().dom() =~= old(self).nodes().dom());
                }
            },
            _ => {},
        }
        added
    }

    /// Makes `node` the start of the machine. A machine that stands on no
    /// node yet is put on it. Without such a node nothing changes and the
    /// result is `false`.
    pub fn set_start(&mut self, node: NodeIndex) -> (done: bool)
        ensures
            old(self).wf() ==> final(self).wf(),
            done == old(self).nodes().dom().contains(node),
            final(self).nodes() == old(self).nodes(),
            final(self).edges() == old(self).edges(),
            final(self).node_handles == old(self).node_handles,
            final(self).edge_handles == old(self).edge_handles,
            final(self).end == old(self).end,
            final(self).active_edge == old(self).active_edge,
            final(self).on_node == old(self).on_node,
            !done ==> final(self).start == old(self).start && final(self).active_node == old(
                self,
            ).active_node,
            done ==> final(self).start == Some(node) && final(self).active_node == (if old(
                self,
            ).active_node is None {
                Some(node)
            } else {
                old(self).active_node
            }),
    {
        if self.graph.node(node).is_none() {
            return false;
        }
        self.start = Some(node);
        if self.active_node.is_none() {
            self.active_node = Some(node);
        }
        true
    }

    /// Makes `node` the exit of the machine. Without such a node nothing
    /// changes and the result is `false`.
    pub fn set_end(&mut self, node: NodeIndex) -> (done: bool)
        ensures
            old(self).wf() ==> final(self).wf(),
            done == old(self).nodes().dom().contains(node),
            final(self).nodes() == old(self).nodes(),
            final(self).edges() == old(self).edges(),
            final(self).node_handles == old(self).node_handles,
            final(self).edge_handles == old(self).edge_handles,
            final(self).start == old(self).start,
            final(self).position() == old(self).position(),
            final(self).end == (if done {
                Some(node)
            } else {
                old(self).end
            }),
    {
        if self.graph.node(node).is_none() {
            return false;
        }
        self.end = Some(node);
        true
    }

    /// Starts the transition under `edge`, replacing any transition in
    /// flight. The transition takes the playhead of its source and starts
    /// its own clock at 0. A handle that names no transition of the
    /// machine, a transition that does not leave the active node, or one
    /// whose target the machine does not hold, is refused and changes
    /// nothing.
    pub fn start_transition(&mut self, edge: EdgeIndex) -> (r: Result<(), TransitionError>)
        ensures
            old(self).wf() ==> final(self).wf(),
            final(self).nodes() == old(self).nodes(),
            final(self).node_handles == old(self).node_handles,
            final(self).edge_handles == old(self).edge_handles,
            final(self).start == old(self).start,
            final(self).end == old(self).end,
            match start_refusal(
                old(self).nodes(),
                old(self).edges(),
                old(self).position(),
                edge,
            ) {
                Some(why) => {
                    &&& r == Err::<(), TransitionError>(why)
                    &&& final(self).edges() == old(self).edges()
                    &&& final(self).position() == old(self).position()
                },
                None => {
                    &&& r is Ok
                    &&& final(self).edges() == edges_started(
                        old(self).nodes(),
                        old(self).edges(),
                        edge,
                    )
                    &&& final(self).position() == position_started(old(self).position(), edge)
                },
            },
    {
        let mut pos: Position = Position {
            active_node: self.active_node,
            active_edge: self.active_edge,
            on_node: self.on_node,
        };
        let r = start_transition_in(&mut self.graph, &mut pos, edge);
        self.active_node = pos.active_node;
        self.active_edge = pos.active_edge;
        self.on_node = pos.on_node;
        r
    }

    /// Starts the transition that leads from the active node to `target`.
    /// The request is refused, and nothing changes, when the machine has
    /// no node under `target`, when it stands on no node of its own, when
    /// no edge leads from that node to `target`, or when the edge found is
    /// no transition.
    pub fn request_transition(&mut self, target: NodeIndex) -> (r: Result<
        EdgeIndex,
        TransitionError,
    >)
        ensures
            old(self).wf() ==> final(self).wf(),
            final(self).node_handles == old(self).node_handles,
            final(self).edge_handles == old(self).edge_handles,
            final(self).start == old(self).start,
            final(self).end == old(self).end,
            request_outcome(
                old(self).nodes(),
                old(self).edges(),
                old(self).position(),
                final(self).nodes(),
                final(self).edges(),
                final(self).position(),
                target,
                r,
            ),
    {
        let mut pos: Position = Position {
            active_node: self.active_node,
            active_edge: self.active_edge,
            on_node: self.on_node,
        };
        let r = request_transition_in(&mut self.graph, &mut pos, target);
        self.active_node = pos.active_node;
        self.active_edge = pos.active_edge;
        self.on_node = pos.on_node;
        r
    }

    /// Advances the machine by a frame of `dt` nanoseconds.
    pub fn evaluate(&mut self, dt: u64)
        ensures
            old(self).wf() ==> final(self).wf(),
            final(self).node_handles == old(self).node_handles,
            final(self).edge_handles == old(self).edge_handles,
            final(self).start == old(self).start,
            final(self).end == old(self).end,
            graph_advanced(
                old(self).edge_handles@,
                old(self).nodes(),
                old(self).edges(),
                old(self).position(),
                final(self).nodes(),
                final(self).edges(),
                final(self).position(),
                dt as nat,
                MAX_DEPTH as nat,
            ),
    {
        let mut pos: Position = Position {
            active_node: self.active_node,
            active_edge: self.active_edge,
            on_node: self.on_node,
        };
        advance_graph(&mut self.graph, &self.edge_handles, &mut pos, dt, MAX_DEPTH);
        proof {
            if old(self).wf() {
                lemma_frame_keeps_position(
                    old(self).edge_handles@,
                    old(self).nodes(),
                    old(self).edges(),
                    old(self).position(),
                    self.nodes(),
                    self.edges(),
                    pos,
                    dt as nat,
                    MAX_DEPTH as nat,
                );
            }
        }
        self.active_node = pos.active_node;
        self.active_edge = pos.active_edge;
        self.on_node = pos.on_node;
    }

    /// The jobs that make up the machine's pose in its present state.
    pub fn get_output(&self) -> (jobs: Vec<Job>)
        ensures
            jobs@ == graph_jobs(
                self.edge_handles@,
                self.nodes(),
                self.edges(),
                self.position(),
                MAX_DEPTH as nat,
            ),
    {
        let pos: Position = Position {
            active_node: self.active_node,
            active_edge: self.active_edge,
            on_node: self.on_node,
        };
        let mut jobs: Vec<Job> = Vec::new();
        push_graph_jobs(&self.graph, &self.edge_handles, &pos, &mut jobs, MAX_DEPTH);
        proof {
            assert(Seq::<Job>::empty() + graph_jobs(
                self.edge_handles@,
                self.nodes(),
                self.edges(),
                self.position(),
                MAX_DEPTH as nat,
            ) =~= graph_jobs(
                self.edge_handles@,
                self.nodes(),
                self.edges(),
                self.position(),
                MAX_DEPTH as nat,
            ));
        }
        jobs
    }
}

impl AnimGraph {
    /// The root of the graph.
    pub open spec fn spec_root(self) -> Option<NodeIndex> {
        self.machine.start
    }

    /// Creates an empty graph: no nodes, no root, on no node.
    pub fn new() -> (graph: Self)
        ensures
            graph.machine.fresh(),
            graph.machine.wf(),
    {
        AnimGraph { machine: StateMachineNode::new() }
    }

    /// The root of the graph.
    pub fn root(&self) -> (r: Option<NodeIndex>)
        ensures
            r == self.spec_root(),
    {
        self.machine.start
    }

    /// The node that the graph stands on, or comes from while it is in a
    /// transition.
    pub fn current_node(&self) -> (r: Option<NodeIndex>)
        ensures
            r == self.machine.active_node,
    {
        self.machine.active_node
    }

    /// The transition that the graph is in.
    pub fn current_edge(&self) -> (r: Option<EdgeIndex>)
        ensures
            r == self.machine.active_edge,
    {
        self.machine.active_edge
    }

    /// Whether the graph stands on a node.
    pub fn on_node(&self) -> (r: bool)
        ensures
            r == self.machine.on_node,
    {
        self.machine.on_node
    }

    /// Makes `node` the root. A graph that stands on no node yet is put on
    /// it. Without such a node nothing changes and the result is `false`.
    pub fn set_root(&mut self, node: NodeIndex) -> (done: bool)
        ensures
            old(self).machine.wf() ==> final(self).machine.wf(),
            done == old(self).machine.nodes().dom().contains(node),
            final(self).machine.nodes() == old(self).machine.nodes(),
            final(self).machine.edges() == old(self).machine.edges(),
            final(self).machine.node_handles == old(self).machine.node_handles,
            final(self).machine.edge_handles == old(self).machine.edge_handles,
            final(self).machine.end == old(self).machine.end,
            final(self).machine.active_edge == old(self).machine.active_edge,
            final(self).machine.on_node == old(self).machine.on_node,
            !done ==> final(self).spec_root() == old(self).spec_root()
                && final(self).machine.active_node == old(self).machine.active_node,
            done ==> final(self).spec_root() == Some(node) && final(self).machine.active_node
                == (if old(self).machine.active_node is None {
                Some(node)
            } else {
                old(self).machine.active_node
            }),
    {
        self.machine.set_start(node)
    }

    /// Advances every active node and edge by a frame of `dt` nanoseconds.
    pub fn evaluate(&mut self, dt: u64)
        ensures
            old(self).machine.wf() ==> final(self).machine.wf(),
            final(self).machine.node_handles == old(self).machine.node_handles,
            final(self).machine.edge_handles == old(self).machine.edge_handles,
            final(self).machine.start == old(self).machine.start,
            final(self).machine.end == old(self).machine.end,
            graph_advanced(
                old(self).machine.edge_handles@,
                old(self).machine.nodes(),
                old(self).machine.edges(),
                old(self).machine.position(),
                final(self).machine.nodes(),
                final(self).machine.edges(),
                final(self).machine.position(),
                dt as nat,
                MAX_DEPTH as nat,
            ),
    {
        self.machine.evaluate(dt);
    }

    /// The jobs that make up the character's pose in the graph's present
    /// state.
    pub fn get_output(&self) -> (jobs: Vec<Job>)
        ensures
            jobs@ == graph_jobs(
                self.machine.edge_handles@,
                self.machine.nodes(),
                self.machine.edges(),
                self.machine.position(),
                MAX_DEPTH as nat,
            ),
    {
        self.machine.get_output()
    }
}

/// The cross-fade of a transition in flight keeps its two weights at a sum
/// of 1 through every frame, and a frame that lets no time pass on a fresh
/// transition of positive duration leaves all of it with the source.
pub proof fn lemma_frame_keeps_weights(
    order: Seq<EdgeIndex>,
    pre_nodes: NodeMap,
    pre_edges: EdgeMap,
    pre_pos: Position,
    post_nodes: NodeMap,
    post_edges: EdgeMap,
    post_pos: Position,
    dt: nat,
    fuel: nat,
)
    requires
        fuel > 0,
        running(pre_edges, pre_pos) is Some,
        graph_advanced(
            order,
            pre_nodes,
            pre_edges,
            pre_pos,
            post_nodes,
            post_edges,
            post_pos,
            dt,
            fuel,
        ),
    ensures
        ({
            let run = running(pre_edges, pre_pos)->0;
            &&& post_edges.dom().contains(run.edge)
            &&& post_edges[run.edge].2 matches AnimEdge::Transition(t) && t.weight1 + t.weight2
                == 65536 && (run.fade.elapsed + dt == 0 && run.fade.duration > 0 ==> t.weight1
                == 65536)
        }),
{
    let run = running(pre_edges, pre_pos)->0;
    lemma_fade_weights(run.fade.elapsed as nat + dt, run.fade.duration as nat);
}

/// A frame that takes a transition to the end of its duration or beyond
/// completes it: the graph then stands on the target of the transition,
/// in no edge, and the target holds the whole weight.
pub proof fn lemma_frame_completes_transition(
    order: Seq<EdgeIndex>,
    pre_nodes: NodeMap,
    pre_edges: EdgeMap,
    pre_pos: Position,
    post_nodes: NodeMap,
    post_edges: EdgeMap,
    post_pos: Position,
    dt: nat,
    fuel: nat,
)
    requires
        fuel > 0,
        running(pre_edges, pre_pos) is Some,
        running(pre_edges, pre_pos)->0.fade.elapsed + dt >= running(
            pre_edges,
            pre_pos,
        )->0.fade.duration,
        graph_advanced(
            order,
            pre_nodes,
            pre_edges,
            pre_pos,
            post_nodes,
            post_edges,
            post_pos,
            dt,
            fuel,
        ),
    ensures
        post_pos.active_node == Some(running(pre_edges, pre_pos)->0.to),
        post_pos.active_edge is None,
        post_pos.on_node,
        post_edges[running(pre_edges, pre_pos)->0.edge].2 matches AnimEdge::Transition(t)
            && t.weight1 == 0 && t.weight2 == 65536,
{
    let run = running(pre_edges, pre_pos)->0;
    lemma_fade_weights(run.fade.elapsed as nat + dt, run.fade.duration as nat);
}

/// A transition that has just started is in flight: the graph is off its
/// node, in that edge, with the transition's clock at 0.
pub proof fn lemma_started_transition_runs(nodes: NodeMap, edges: EdgeMap, pos: Position, edge: EdgeIndex)
    requires
        start_refusal(nodes, edges, pos, edge) is None,
    ensures
        running(edges_started(nodes, edges, edge), position_started(pos, edge)) matches Some(run)
            && run.edge == edge && run.from == edges[edge].0 && run.to == edges[edge].1
            && run.fade.elapsed == 0 && run.fade.duration == edges[edge].2->Transition_0.duration,
{
}

/// A granted request followed by a frame that is at least as long as the
/// transition lands on the target: whatever the graph stood on, it then
/// stands on `target`, in no edge.
pub proof fn lemma_request_then_frame_arrives(
    order: Seq<EdgeIndex>,
    pre_nodes: NodeMap,
    pre_edges: EdgeMap,
    pre_pos: Position,
    mid_nodes: NodeMap,
    mid_edges: EdgeMap,
    mid_pos: Position,
    post_nodes: NodeMap,
    post_edges: EdgeMap,
    post_pos: Position,
    target: NodeIndex,
    edge: EdgeIndex,
    dt: nat,
    fuel: nat,
)
    requires
        fuel > 0,
        pre_nodes.dom().contains(target),
        request_outcome(
            pre_nodes,
            pre_edges,
            pre_pos,
            mid_nodes,
            mid_edges,
            mid_pos,
            target,
            Ok(edge),
        ),
        graph_advanced(
            order,
            mid_nodes,
            mid_edges,
            mid_pos,
            post_nodes,
            post_edges,
            post_pos,
            dt,
            fuel,
        ),
        dt >= pre_edges[edge].2->Transition_0.duration,
    ensures
        post_pos.active_node == Some(target),
        post_pos.active_edge is None,
        post_pos.on_node,
{
    lemma_started_transition_runs(pre_nodes, pre_edges, pre_pos, edge);
    lemma_frame_completes_transition(
        order,
        mid_nodes,
        mid_edges,
        mid_pos,
        post_nodes,
        post_edges,
        post_pos,
        dt,
        fuel,
    );
}

/// Whether `post` holds the nodes of `pre` with the weight of `edge` given
/// to the layer that `edge` names of the blend node under `to`, and
/// nothing else changed.
pub open spec fn piped(pre: NodeMap, post: NodeMap, to: NodeIndex, edge: OutputEdge) -> bool {
    &&& post.dom() == pre.dom()
    &&& forall|k: NodeIndex| #[trigger] pre.dom().contains(k) && k != to ==> post[k] == pre[k]
    &&& pre.dom().contains(to) ==> match pre[to] {
        AnimNode::Blend(b) => match post[to] {
            AnimNode::Blend(c) => {
                &&& c.joint_count == b.joint_count
                &&& c.output == b.output
                &&& c.output_joint_count == b.output_joint_count
                &&& c.layers@ == (if edge.layer < b.layers@.len() {
                    b.layers@.update(
                        edge.layer as int,
                        (BlendLayer { weight: edge.weight, ..b.layers@[edge.layer as int] }),
                    )
                } else {
                    b.layers@
                })
            },
            _ => false,
        },
        _ => post[to] == pre[to],
    }
}

/// Why an edge from `from` to `to` cannot be added, if it cannot.
pub open spec fn edge_refusal(nodes: NodeMap, edges: EdgeMap, from: NodeIndex, to: NodeIndex) -> Option<
    EdgeError,
> {
    if !nodes.dom().contains(from) {
        Some(EdgeError::InvalidSource)
    } else if !nodes.dom().contains(to) {
        Some(EdgeError::InvalidTarget)
    } else if linked(edges, from, to) {
        Some(EdgeError::EdgeExists)
    } else {
        None
    }
}

} // verus!
