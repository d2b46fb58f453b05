//! The table that holds the nodes and edges of one graph.

use vstd::prelude::*;
use crate::animation_graph::{AnimEdge, AnimNode};
use mapgraph::aliases::SlotMapGraph;
use mapgraph::error::{AddEdgeError, InvalidEdgeError};
use mapgraph::map::slotmap::{EdgeIndex, NodeIndex};

verus! {

/// `mapgraph::map::slotmap::NodeIndex`, the handle of a node. Nothing is
/// known of what it holds.
#[verifier::external_type_specification]
#[verifier::external_body]
pub struct ExNodeIndex(NodeIndex);

/// `mapgraph::map::slotmap::EdgeIndex`, the handle of an edge. Nothing is
/// known of what it holds.
#[verifier::external_type_specification]
#[verifier::external_body]
pub struct ExEdgeIndex(EdgeIndex);

/// The most nodes, and the most edges, that a table takes.
pub const STORE_LIMIT: usize = 0x7fff_ffff;

/// Why an edge could not be added.
#[derive(Clone, Copy, Debug, PartialEq, Eq, Structural)]
pub enum EdgeError {
    /// The table has no node under the source handle.
    InvalidSource,
    /// The table has no node under the target handle.
    InvalidTarget,
    /// The table already has an edge from the source to the target.
    EdgeExists,
}

/// A `mapgraph::aliases::SlotMapGraph` of animation nodes and edges, kept
/// out of sight: all that is known of a table is what `store_nodes` and
/// `store_edges` name and what the methods below say of them. Handles stay
/// valid for as long as the table lives: nothing is ever removed from it.
#[verifier::external_body]
pub struct GraphStore {
    graph: SlotMapGraph<AnimNode, AnimEdge>,
}

/// The nodes of a table, by handle.
pub uninterp spec fn store_nodes(s: GraphStore) -> Map<NodeIndex, AnimNode>;

/// The edges of a table, by handle: source, target and what the edge holds.
pub uninterp spec fn store_edges(s: GraphStore) -> Map<EdgeIndex, (NodeIndex, NodeIndex, AnimEdge)>;

/// Whether `edges` has an edge that leads from `from` to `to`.
pub open spec fn linked(
    edges: Map<EdgeIndex, (NodeIndex, NodeIndex, AnimEdge)>,
    from: NodeIndex,
    to: NodeIndex,
) -> bool {
    exists|e: EdgeIndex| #[trigger] edges.dom().contains(e) && edges[e].0 == from && edges[e].1 == to
}

/// `PartialEq::eq` of `NodeIndex`: two handles are equal when they are the
/// same handle.
#[verifier::external_body]
pub(crate) fn same_node(a: NodeIndex, b: NodeIndex) -> (r: bool)
    ensures
        r == (a == b),
{
    a == b
}

impl GraphStore {
    /// `SlotMapGraph::default`: a table without nodes and without edges.
    #[verifier::external_body]
    pub(crate) fn new() -> (s: Self)
        ensures
            store_nodes(s).dom() == Set::<NodeIndex>::empty(),
            store_edges(s).dom() == Set::<EdgeIndex>::empty(),
    {
        GraphStore { graph: SlotMapGraph::default() }
    }

    /// `FrozenGraph::nodes_count`: the number of nodes in the table. The
    /// count is the size of the table's set of handles, and that set is
    /// finite.
    #[verifier::external_body]
    pub(crate) fn node_count(&self) -> (n: usize)
        ensures
            n == store_nodes(*self).dom().len(),
            n == store_nodes(*self).dom().len() <==> store_nodes(*self).dom().finite(),
    {
        self.graph.nodes_count()
    }

    /// `FrozenGraph::edges_count`: the number of edges in the table. The
    /// count is the size of the table's set of handles, and that set is
    /// finite.
    #[verifier::external_body]
    pub(crate) fn edge_count(&self) -> (n: usize)
        ensures
            n == store_edges(*self).dom().len(),
            n == store_edges(*self).dom().len() <==> store_edges(*self).dom().finite(),
    {
        self.graph.edges_count()
    }

    /// `Graph::add_node`: stores the node under a handle that the table did
    /// not hold before and returns the handle. Nothing else changes. The
    /// slot map behind the table panics once it has handed out 2^32 - 1
    /// slots, so the caller keeps the table well below that.
    #[verifier::external_body]
    pub(crate) fn add_node(&mut self, node: AnimNode) -> (i: NodeIndex)
        requires
            store_nodes(*old(self)).dom().len() < STORE_LIMIT,
        ensures
            !store_nodes(*old(self)).dom().contains(i),
            store_nodes(*final(self)) == store_nodes(*old(self)).insert(i, node),
            store_edges(*final(self)) == store_edges(*old(self)),
    {
        self.graph.add_node(node)
    }

    /// `FrozenGraph::node_weight`: the node under the handle, if the table
    /// holds one.
    #[verifier::external_body]
    pub(crate) fn node(&self, i: NodeIndex) -> (r: Option<&AnimNode>)
        ensures
            r is Some <==> store_nodes(*self).dom().contains(i),
            r matches Some(n) ==> *n == store_nodes(*self)[i],
    {
        self.graph.node_weight(i)
    }

    /// `FrozenGraph::node_weight_mut`: the node under the handle, to be
    /// changed in place. What the caller leaves there is what the table
    /// holds under the handle afterwards; nothing else changes.
    #[verifier::external_body]
    pub(crate) fn node_mut(&mut self, i: NodeIndex) -> (r: Option<&mut AnimNode>)
        ensures
            r is Some <==> store_nodes(*old(self)).dom().contains(i),
            r is Some ==> *r->0 == store_nodes(*old(self))[i] && store_nodes(*final(self))
                == store_nodes(*old(self)).insert(i, *final(r->0)) && store_edges(*final(self))
                == store_edges(*old(self)),
            r is None ==> *final(self) == *old(self),
    {
        self.graph.node_weight_mut(i)
    }

    /// `Graph::add_edge`: adds an edge between two nodes of the table under
    /// a handle that the table did not hold before. The edge is refused,
    /// and the table stays as it was, when a handle names no node or an
    /// edge already leads from the source to the target. The slot map
    /// behind the table panics once it has handed out 2^32 - 1 slots, so the
    /// caller keeps the table well below that.
    #[verifier::external_body]
    pub(crate) fn add_edge(&mut self, edge: AnimEdge, from: NodeIndex, to: NodeIndex) -> (r: Result<EdgeIndex, EdgeError>)
        requires
            store_edges(*old(self)).dom().len() < STORE_LIMIT,
        ensures
            store_nodes(*final(self)) == store_nodes(*old(self)),
            r is Err ==> store_edges(*final(self)) == store_edges(*old(self)),
            r is Err && r->Err_0 == EdgeError::InvalidSource <==> !store_nodes(*old(self)).dom().contains(
                from,
            ),
            r is Err && r->Err_0 == EdgeError::InvalidTarget <==> store_nodes(*old(self)).dom().contains(
                from,
            ) && !store_nodes(*old(self)).dom().contains(to),
            r is Err && r->Err_0 == EdgeError::EdgeExists <==> store_nodes(*old(self)).dom().contains(from)
                && store_nodes(*old(self)).dom().contains(to) && linked(
                store_edges(*old(self)),
                from,
                to,
            ),
            r matches Ok(e) ==> !store_edges(*old(self)).dom().contains(e) && store_edges(
                *final(self),
            ) == store_edges(*old(self)).insert(e, (from, to, edge)),
    {
        match self.graph.add_edge(edge, from, to) {
            Ok(e) => Ok(e),
            Err(AddEdgeError::InvalidEdge(InvalidEdgeError::InvalidSourceIndex)) => Err(
                EdgeError::InvalidSource,
            ),
            Err(AddEdgeError::InvalidEdge(InvalidEdgeError::InvalidDestIndex)) => Err(
                EdgeError::InvalidTarget,
            ),
            Err(AddEdgeError::EdgeExists) => Err(EdgeError::EdgeExists),
        }
    }

    /// `FrozenGraph::find_edge`: the handle of an edge that leads from one
    /// node of the table to another, or `None` where no edge does. The
    /// search is refused when a handle names no node.
    #[verifier::external_body]
    pub(crate) fn find_edge(&self, from: NodeIndex, to: NodeIndex) -> (r: Result<Option<EdgeIndex>, EdgeError>)
        ensures
            r is Err && r->Err_0 == EdgeError::InvalidSource <==> !store_nodes(*self).dom().contains(from),
            r is Err && r->Err_0 == EdgeError::InvalidTarget <==> (store_nodes(
                *self,
            ).dom().contains(from) && !store_nodes(*self).dom().contains(to)),
            r is Err ==> r->Err_0 != EdgeError::EdgeExists,
            r matches Ok(Some(e)) ==> store_edges(*self).dom().contains(e) && store_edges(
                *self,
            )[e].0 == from && store_edges(*self)[e].1 == to,
            r matches Ok(None) ==> !linked(store_edges(*self), from, to),
    {
        match self.graph.find_edge(from, to) {
            Ok(found) => Ok(found),
            Err(InvalidEdgeError::InvalidSourceIndex) => Err(EdgeError::InvalidSource),
            Err(InvalidEdgeError::InvalidDestIndex) => Err(EdgeError::InvalidTarget),
        }
    }

    /// `FrozenGraph::edge_weight`: what the edge under the handle holds, if
    /// the table has such an edge.
    #[verifier::external_body]
    pub(crate) fn edge(&self, e: EdgeIndex) -> (r: Option<&AnimEdge>)
        ensures
            r is Some <==> store_edges(*self).dom().contains(e),
            r matches Some(w) ==> *w == store_edges(*self)[e].2,
    {
        self.graph.edge_weight(e)
    }

    /// `FrozenGraph::edge_weight_mut`: what the edge under the handle
    /// holds, to be changed in place. The edge keeps its ends, and nothing
    /// else changes.
    #[verifier::external_body]
    pub(crate) fn edge_mut(&mut self, e: EdgeIndex) -> (r: Option<&mut AnimEdge>)
        ensures
            r is Some <==> store_edges(*old(self)).dom().contains(e),
            r is Some ==> *r->0 == store_edges(*old(self))[e].2 && store_edges(*final(self))
                == store_edges(*old(self)).insert(
                e,
                (store_edges(*old(self))[e].0, store_edges(*old(self))[e].1, *final(r->0)),
            ) && store_nodes(*final(self)) == store_nodes(*old(self)),
            r is None ==> *final(self) == *old(self),
    {
        self.graph.edge_weight_mut(e)
    }

    /// `FrozenGraph::edge` with `Edge::from` and `Edge::to`: the source and
    /// the target of the edge under the handle, if the table has such an
    /// edge.
    #[verifier::external_body]
    pub(crate) fn edge_ends(&self, e: EdgeIndex) -> (r: Option<(NodeIndex, NodeIndex)>)
        ensures
            r is Some <==> store_edges(*self).dom().contains(e),
            r matches Some(ends) ==> ends.0 == store_edges(*self)[e].0 && ends.1 == store_edges(
                *self,
            )[e].1,
    {
        match self.graph.edge(e) {
            Some(edge) => Some((edge.from(), edge.to())),
            None => None,
        }
    }
}

} // verus!
