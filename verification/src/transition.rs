//! Starting a transition.

use vstd::prelude::*;
use crate::animation_graph::{AnimEdge, AnimNode};
use crate::evaluation::{EdgeMap, NodeMap, Position};
use crate::store::{linked, same_node, store_edges, store_nodes, GraphStore};
use mapgraph::map::slotmap::{EdgeIndex, NodeIndex};

verus! {

/// Why a transition did not start.
#[derive(Clone, Copy, Debug, PartialEq, Eq, Structural)]
pub enum TransitionError {
    /// The graph has no edge under the handle.
    UnknownEdge,
    /// The edge under the handle is not a transition.
    NotATransition,
    /// The transition does not leave the node that the graph stands on.
    WrongSource,
    /// The graph has no node under the handle of the target.
    MissingTarget,
    /// No edge leads from the active node to the target.
    NoTransition,
}

/// The playhead of the node under `i`: that of a clip node, and 0 for any
/// other node and where the graph has no such node.
pub open spec fn seek_of(nodes: NodeMap, i: NodeIndex) -> u64 {
    if nodes.dom().contains(i) {
        match nodes[i] {
            AnimNode::Sample(s) => s.seek,
            _ => 0,
        }
    } else {
        0
    }
}

/// Why the transition under `edge` cannot start, if it cannot.
pub open spec fn start_refusal(
    nodes: NodeMap,
    edges: EdgeMap,
    pos: Position,
    edge: EdgeIndex,
) -> Option<TransitionError> {
    if !edges.dom().contains(edge) {
        Some(TransitionError::UnknownEdge)
    } else if !(edges[edge].2 is Transition) {
        Some(TransitionError::NotATransition)
    } else if pos.active_node != Some(edges[edge].0) {
        Some(TransitionError::WrongSource)
    } else if !nodes.dom().contains(edges[edge].1) {
        Some(TransitionError::MissingTarget)
    } else {
        None
    }
}

/// The edges of a graph once the transition under `edge` has started: the
/// transition has taken the playhead of its source, and its own clock and
/// target playhead are back at 0.
pub open spec fn edges_started(nodes: NodeMap, edges: EdgeMap, edge: EdgeIndex) -> EdgeMap {
    edges.insert(
        edge,
        (
            edges[edge].0,
            edges[edge].1,
            AnimEdge::Transition(
                edges[edge].2->Transition_0.started(seek_of(nodes, edges[edge].0)),
            ),
        ),
    )
}

/// Where a graph stands once the transition under `edge` has started: off
/// its node and in that edge.
pub open spec fn position_started(pos: Position, edge: EdgeIndex) -> Position {
    Position { active_node: pos.active_node, active_edge: Some(edge), on_node: false }
}

/// The playhead of the node under `i`.
pub fn seek_at(graph: &GraphStore, i: NodeIndex) -> (seek: u64)
    ensures
        seek == seek_of(store_nodes(*graph), i),
{
    match graph.node(i) {
        Some(node) => match node {
            AnimNode::Sample(s) => s.seek,
            _ => 0,
        },
        None => 0,
    }
}

/// Starts the transition under `edge`, replacing any transition in flight.
/// A handle that names no transition of the graph, a transition that does
/// not leave the active node, or one whose target the graph does not hold,
/// is refused and changes nothing.
pub fn start_transition_in(graph: &mut GraphStore, pos: &mut Position, edge: EdgeIndex) -> (r:
    Result<(), TransitionError>)
    ensures
        store_nodes(*final(graph)) == store_nodes(*old(graph)),
        match start_refusal(
            store_nodes(*old(graph)),
            store_edges(*old(graph)),
            *old(pos),
            edge,
        ) {
            Some(why) => {
                &&& r == Err::<(), TransitionError>(why)
                &&& store_edges(*final(graph)) == store_edges(*old(graph))
                &&& *final(pos) == *old(pos)
            },
            None => {
                &&& r is Ok
                &&& store_edges(*final(graph)) == edges_started(
                    store_nodes(*old(graph)),
                    store_edges(*old(graph)),
                    edge,
                )
                &&& *final(pos) == position_started(*old(pos), edge)
            },
        },
{
    let ends: (NodeIndex, NodeIndex) = match graph.edge_ends(edge) {
        Some(ends) => ends,
        None => {
            return Err(TransitionError::UnknownEdge);
        },
    };
    let is_transition: bool = match graph.edge(edge) {
        Some(e) => match e {
            AnimEdge::Transition(_) => true,
            _ => false,
        },
        None => false,
    };
    if !is_transition {
        return Err(TransitionError::NotATransition);
    }
    let leaves_active: bool = match pos.active_node {
        Some(active) => same_node(active, ends.0),
        None => false,
    };
    if !leaves_active {
        return Err(TransitionError::WrongSource);
    }
    if graph.node(ends.1).is_none() {
        return Err(TransitionError::MissingTarget);
    }
    let seek: u64 = seek_at(graph, ends.0);
    match graph.edge_mut(edge) {
        Some(e) => match e {
            AnimEdge::Transition(t) => {
                t.start(seek);
            },
            _ => {},
        },
        None => {},
    }
    *pos = Position { active_node: pos.active_node, active_edge: Some(edge), on_node: false };
    Ok(())
}

/// Starts the transition that leads from the active node to `target`.
///
/// The request is refused, and nothing changes, when the graph has no
/// node under `target`, when it has no active node, when no edge leads
/// from the active node to `target`, or when the edge found is no
/// transition.
pub fn request_transition_in(graph: &mut GraphStore, pos: &mut Position, target: NodeIndex) -> (r:
    Result<EdgeIndex, TransitionError>)
    ensures
        request_outcome(
            store_nodes(*old(graph)),
            store_edges(*old(graph)),
            *old(pos),
            store_nodes(*final(graph)),
            store_edges(*final(graph)),
            *final(pos),
            target,
            r,
        ),
{
    if graph.node(target).is_none() {
        return Err(TransitionError::MissingTarget);
    }
    let source: NodeIndex = match pos.active_node {
        Some(source) => source,
        None => {
            return Err(TransitionError::NoTransition);
        },
    };
    let found: Option<EdgeIndex> = match graph.find_edge(source, target) {
        Ok(found) => found,
        Err(_) => {
            return Err(TransitionError::NoTransition);
        },
    };
    let edge: EdgeIndex = match found {
        Some(edge) => edge,
        None => {
            return Err(TransitionError::NoTransition);
        },
    };
    match start_transition_in(graph, pos, edge) {
        Ok(()) => Ok(edge),
        Err(why) => Err(why),
    }
}

/// What a request for the transition to `target` comes to.
///
/// It is refused with `MissingTarget` exactly when the graph has no node
/// under `target`, and with `NoTransition` exactly when it has one but
/// stands on no node of its own from which an edge leads there. It is
/// refused with `NotATransition` only where an edge that leads there is no
/// transition. A refused request changes nothing. Otherwise a transition
/// from the active node to `target` has started, and `r` is its handle.
pub open spec fn request_outcome(
    pre_nodes: NodeMap,
    pre_edges: EdgeMap,
    pre_pos: Position,
    post_nodes: NodeMap,
    post_edges: EdgeMap,
    post_pos: Position,
    target: NodeIndex,
    r: Result<EdgeIndex, TransitionError>,
) -> bool {
    &&& post_nodes == pre_nodes
    &&& r is Err ==> post_edges == pre_edges && post_pos == pre_pos
    &&& r is Err && r->Err_0 == TransitionError::MissingTarget <==> !pre_nodes.dom().contains(
        target,
    )
    &&& r is Err && r->Err_0 == TransitionError::NoTransition <==> (pre_nodes.dom().contains(
        target,
    ) && !reachable(pre_nodes, pre_edges, pre_pos, target))
    &&& r is Err && r->Err_0 == TransitionError::NotATransition ==> !transition_linked(
        pre_edges,
        pre_pos.active_node->0,
        target,
    )
    &&& r is Err ==> r->Err_0 != TransitionError::UnknownEdge && r->Err_0
        != TransitionError::WrongSource
    &&& r matches Ok(e) ==> {
        &&& pre_edges.dom().contains(e)
        &&& Some(pre_edges[e].0) == pre_pos.active_node
        &&& pre_edges[e].1 == target
        &&& pre_edges[e].2 is Transition
        &&& post_edges == edges_started(pre_nodes, pre_edges, e)
        &&& post_pos == position_started(pre_pos, e)
    }
}

/// Whether the graph stands on a node of its own from which an edge leads
/// to `target`.
pub open spec fn reachable(nodes: NodeMap, edges: EdgeMap, pos: Position, target: NodeIndex) -> bool {
    match pos.active_node {
        Some(source) => nodes.dom().contains(source) && linked(edges, source, target),
        None => false,
    }
}

/// Whether every edge from `from` to `to` is a transition, and there is
/// one.
pub open spec fn transition_linked(edges: EdgeMap, from: NodeIndex, to: NodeIndex) -> bool {
    &&& linked(edges, from, to)
    &&& forall|e: EdgeIndex| #[trigger]
        edges.dom().contains(e) && edges[e].0 == from && edges[e].1 == to
            ==> edges[e].2 is Transition
}

} // verus!
