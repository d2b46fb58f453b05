//! What a graph asks of the host for one frame.
//!
//! The engine does not touch joint transforms. It tells the host what to
//! sample and what to blend as a list of jobs in postfix order: a job that
//! samples or blends leaves a pose behind, and a cross-fade takes the two
//! poses before it and leaves their blend. The jobs of the nodes that feed
//! a node come before its own.

use vstd::prelude::*;
use crate::animation_graph::{AnimEdge, AnimNode};
use crate::blend::{layer_weights, spec_shares, total_weight, BlendJob, BlendNode};
use crate::evaluation::{
    active_nodes, collect_active, find_running, roots_of, running, EdgeMap, NodeMap, Position,
};
use crate::store::same_node;
use crate::sample::{Playhead, SampleNode};
use crate::store::{store_edges, store_nodes, GraphStore};
use mapgraph::map::slotmap::{EdgeIndex, NodeIndex};

verus! {

/// One step of a frame's work.
#[derive(Clone, Copy, Debug, PartialEq, Eq, Structural)]
pub enum Job {
    /// Sample a clip at a playhead.
    Sample(Playhead),
    /// Take the pose in `input` into the running blend at the normalised
    /// weight `share`.
    BlendLayer { input: usize, share: u32 },
    /// Finish the running blend of `layers` layers into `output`. With
    /// `pass_through` all weights were 0 and layer 0 is copied.
    Blend { output: usize, layers: usize, pass_through: bool },
    /// Turn the local pose in `input` into model-space matrices.
    LocalToModel { input: usize, joint_count: usize },
    /// Cross-fade the two poses before this job, the older at `weight1`
    /// and the newer at `weight2`.
    CrossFade { weight1: u32, weight2: u32 },
}

/// The job of a clip node: one sample where the node can be played, and
/// nothing otherwise.
pub open spec fn sample_jobs(s: SampleNode) -> Seq<Job> {
    match s.clip {
        Some(clip) => if clip.duration == 0 {
            Seq::empty()
        } else {
            seq![Job::Sample(Playhead { clip: clip.id, seek: s.seek, duration: clip.duration })]
        },
        None => Seq::empty(),
    }
}

/// The jobs of a blend node: one per layer, in layer order, then the one
/// that finishes the blend. A node that cannot blend has none.
pub open spec fn blend_jobs(b: BlendNode) -> Seq<Job> {
    match b.output {
        Some(output) => if b.refusal() is Some {
            Seq::empty()
        } else {
            Seq::new(
                b.layers@.len(),
                |i: int|
                    Job::BlendLayer {
                        input: b.layers@[i].input,
                        share: spec_shares(layer_weights(b.layers@))[i],
                    },
            ).push(
                Job::Blend {
                    output,
                    layers: b.layers@.len() as usize,
                    pass_through: total_weight(layer_weights(b.layers@)) == 0,
                },
            )
        },
        None => Seq::empty(),
    }
}

/// The jobs of a node, descending at most `fuel` levels.
pub open spec fn node_jobs(node: AnimNode, fuel: nat) -> Seq<Job>
    decreases fuel, 1nat, 0nat,
{
    match node {
        AnimNode::Sample(s) => sample_jobs(s),
        AnimNode::Blend(b) => blend_jobs(b),
        AnimNode::LocalToModel(l) => seq![
            Job::LocalToModel { input: l.input, joint_count: l.joint_count },
        ],
        AnimNode::StateMachine(m) => graph_jobs(
            m.edge_handles@,
            m.nodes(),
            m.edges(),
            m.position(),
            fuel,
        ),
    }
}

/// The jobs of the node under `i`, if the graph has one.
pub open spec fn jobs_at(nodes: NodeMap, i: NodeIndex, fuel: nat) -> Seq<Job>
    decreases fuel, 2nat, 0nat,
{
    if nodes.dom().contains(i) {
        node_jobs(nodes[i], fuel)
    } else {
        Seq::empty()
    }
}

/// The jobs of the nodes of `list` from the place `from` on, the last
/// node first.
pub open spec fn chain_jobs(nodes: NodeMap, list: Seq<NodeIndex>, from: nat, fuel: nat) -> Seq<Job>
    decreases fuel, 3nat, list.len() - from,
{
    if from >= list.len() {
        Seq::empty()
    } else {
        chain_jobs(nodes, list, from + 1, fuel) + jobs_at(nodes, list[from as int], fuel)
    }
}

/// The jobs of a graph, descending at most `fuel` levels. First come the
/// jobs of the nodes that feed what the graph stands on, those found last
/// first. On a node, the jobs of that node follow. In a transition, the
/// jobs of the source follow, then those of the target, then the
/// cross-fade of the two at the transition's weights.
pub open spec fn graph_jobs(
    order: Seq<EdgeIndex>,
    nodes: NodeMap,
    edges: EdgeMap,
    pos: Position,
    fuel: nat,
) -> Seq<Job>
    decreases fuel, 0nat, 0nat,
{
    if fuel == 0 {
        Seq::empty()
    } else {
        let fed = chain_jobs(
            nodes,
            active_nodes(edges, order, pos),
            roots_of(edges, pos).len(),
            (fuel - 1) as nat,
        );
        match running(edges, pos) {
            None => match pos.active_node {
                Some(a) => fed + jobs_at(nodes, a, (fuel - 1) as nat),
                None => fed,
            },
            Some(run) => (fed + jobs_at(nodes, run.from, (fuel - 1) as nat) + jobs_at(
                nodes,
                run.to,
                (fuel - 1) as nat,
            )).push(Job::CrossFade { weight1: run.fade.weight1, weight2: run.fade.weight2 }),
        }
    }
}

/// Appends the jobs of a blend node to `out`.
pub fn push_blend_jobs(b: &BlendNode, out: &mut Vec<Job>)
    ensures
        final(out)@ == old(out)@ + blend_jobs(*b),
{
    let job: BlendJob = match b.update() {
        Ok(job) => job,
        Err(_) => {
            assert(old(out)@ + blend_jobs(*b) =~= old(out)@);
            return ;
        },
    };
    let count: usize = job.inputs.len();
    let ghost layers = Seq::new(
        b.layers@.len(),
        |i: int|
            Job::BlendLayer {
                input: b.layers@[i].input,
                share: spec_shares(layer_weights(b.layers@))[i],
            },
    );
    let mut i: usize = 0;
    while i < count
        invariant
            i <= count,
            count == b.layers@.len(),
            job.inputs@.len() == count,
            job.shares@.len() == count,
            forall|k: int| 0 <= k < count ==> job.inputs@[k] == b.layers@[k].input,
            forall|k: int|
                0 <= k < count ==> job.shares@[k] == spec_shares(layer_weights(b.layers@))[k],
            layers.len() == count,
            forall|k: int|
                0 <= k < count ==> layers[k] == (Job::BlendLayer {
                    input: b.layers@[k].input,
                    share: spec_shares(layer_weights(b.layers@))[k],
                }),
            out@ == old(out)@ + layers.take(i as int),
        decreases count - i,
    {
        out.push(Job::BlendLayer { input: job.inputs[i], share: job.shares[i] });
        proof {
            assert(out@ =~= old(out)@ + layers.take(i + 1));
        }
        i += 1;
    }
    out.push(Job::Blend { output: job.output, layers: count, pass_through: job.pass_through });
    proof {
        assert(layers.take(count as int) =~= layers);
        assert(out@ =~= old(out)@ + blend_jobs(*b));
    }
}

/// Appends the jobs of a node to `out`.
pub fn push_node_jobs(node: &AnimNode, out: &mut Vec<Job>, fuel: usize)
    ensures
        final(out)@ == old(out)@ + node_jobs(*node, fuel as nat),
    decreases fuel, 1nat, 0nat,
{
    match node {
        AnimNode::Sample(s) => {
            match s.clip {
                Some(clip) => {
                    if clip.duration != 0 {
                        out.push(
                            Job::Sample(
                                Playhead { clip: clip.id, seek: s.seek, duration: clip.duration },
                            ),
                        );
                    }
                },
                None => {},
            }
            proof {
                assert(out@ =~= old(out)@ + node_jobs(*node, fuel as nat));
            }
        },
        AnimNode::Blend(b) => {
            push_blend_jobs(b, out);
        },
        AnimNode::LocalToModel(l) => {
            out.push(Job::LocalToModel { input: l.input, joint_count: l.joint_count });
            proof {
                assert(out@ =~= old(out)@ + node_jobs(*node, fuel as nat));
            }
        },
        AnimNode::StateMachine(m) => {
            let pos: Position = Position {
                active_node: m.active_node,
                active_edge: m.active_edge,
                on_node: m.on_node,
            };
            push_graph_jobs(&m.graph, &m.edge_handles, &pos, out, fuel);
        },
    }
}

/// Appends the jobs of the node under `i` to `out`.
fn push_jobs_at(graph: &GraphStore, i: NodeIndex, out: &mut Vec<Job>, fuel: usize)
    ensures
        final(out)@ == old(out)@ + jobs_at(store_nodes(*graph), i, fuel as nat),
    decreases fuel, 2nat, 0nat,
{
    match graph.node(i) {
        Some(node) => {
            push_node_jobs(node, out, fuel);
        },
        None => {
            assert(out@ =~= old(out)@ + jobs_at(store_nodes(*graph), i, fuel as nat));
        },
    }
}

/// Appends the jobs of the nodes of `list` from the place `from` on to
/// `out`, the last node first.
fn push_chain_jobs(
    graph: &GraphStore,
    list: &Vec<NodeIndex>,
    from: usize,
    out: &mut Vec<Job>,
    fuel: usize,
)
    ensures
        final(out)@ == old(out)@ + chain_jobs(
            store_nodes(*graph),
            list@,
            from as nat,
            fuel as nat,
        ),
    decreases fuel, 3nat, 0nat,
{
    let ghost nodes = store_nodes(*graph);
    let mut i: usize = list.len();
    proof {
        assert(old(out)@ + chain_jobs(nodes, list@, i as nat, fuel as nat) =~= old(out)@);
    }
    while i > from
        invariant
            i <= list@.len(),
            from <= list@.len() ==> from <= i,
            from > list@.len() ==> i == list@.len(),
            nodes == store_nodes(*graph),
            out@ == old(out)@ + chain_jobs(nodes, list@, i as nat, fuel as nat),
        decreases i,
    {
        i -= 1;
        let ghost before = out@;
        push_jobs_at(graph, list[i], out, fuel);
        proof {
            assert(out@ =~= old(out)@ + chain_jobs(nodes, list@, i as nat, fuel as nat));
        }
    }
    proof {
        if from as nat > list@.len() {
            assert(i == list@.len());
            assert(chain_jobs(nodes, list@, from as nat, fuel as nat) == Seq::<Job>::empty());
            assert(chain_jobs(nodes, list@, i as nat, fuel as nat) == Seq::<Job>::empty());
        }
    }
}

/// Appends the jobs of a graph to `out`.
pub fn push_graph_jobs(
    graph: &GraphStore,
    order: &Vec<EdgeIndex>,
    pos: &Position,
    out: &mut Vec<Job>,
    fuel: usize,
)
    ensures
        final(out)@ == old(out)@ + graph_jobs(
            order@,
            store_nodes(*graph),
            store_edges(*graph),
            *pos,
            fuel as nat,
        ),
    decreases fuel, 0nat, 0nat,
{
    let ghost expected = graph_jobs(
        order@,
        store_nodes(*graph),
        store_edges(*graph),
        *pos,
        fuel as nat,
    );
    if fuel == 0 {
        assert(out@ =~= old(out)@ + expected);
        return ;
    }
    let list: Vec<NodeIndex> = collect_active(graph, order, pos);
    match find_running(graph, pos) {
        None => {
            match pos.active_node {
                Some(a) => {
                    push_chain_jobs(graph, &list, 1, out, fuel - 1);
                    push_jobs_at(graph, a, out, fuel - 1);
                    proof {
                        assert(out@ =~= old(out)@ + expected);
                    }
                },
                None => {
                    push_chain_jobs(graph, &list, 0, out, fuel - 1);
                },
            }
        },
        Some(found) => {
            let weights: (u32, u32) = fade_of(graph, found.0);
            let roots: usize = if same_node(found.1, found.2) {
                1
            } else {
                2
            };
            push_chain_jobs(graph, &list, roots, out, fuel - 1);
            push_jobs_at(graph, found.1, out, fuel - 1);
            push_jobs_at(graph, found.2, out, fuel - 1);
            out.push(Job::CrossFade { weight1: weights.0, weight2: weights.1 });
            proof {
                assert(out@ =~= old(out)@ + expected);
            }
        },
    }
}

/// The two weights of the transition under `e`, source first.
fn fade_of(graph: &GraphStore, e: EdgeIndex) -> (w: (u32, u32))
    requires
        store_edges(*graph).dom().contains(e),
        store_edges(*graph)[e].2 is Transition,
    ensures
        w.0 == store_edges(*graph)[e].2->Transition_0.weight1,
        w.1 == store_edges(*graph)[e].2->Transition_0.weight2,
{
    match graph.edge(e) {
        Some(edge) => match edge {
            AnimEdge::Transition(t) => (t.weight1, t.weight2),
            _ => (0, 0),
        },
        None => (0, 0),
    }
}

} // verus!
