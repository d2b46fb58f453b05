//! Advancing a graph by one frame.
//!
//! A graph is on a node or in a transition. On a node, the node is
//! advanced. In a transition, the cross-fade moves on and both of its ends
//! are advanced; when the fade is over the graph is on the target. With a
//! node, the nodes that feed it over simple and output edges are advanced,
//! and those that feed them, each node once. A node that is itself a state
//! machine is advanced by the same rule, one level down. The depth of that
//! descent is bounded: at depth 0 nothing moves.

use vstd::prelude::*;
use crate::animation_graph::{AnimEdge, AnimNode, TransitionEdge};
use crate::store::{same_node, store_edges, store_nodes, GraphStore};
use mapgraph::map::slotmap::{EdgeIndex, NodeIndex};

verus! {

/// The nodes of a graph, by handle.
pub type NodeMap = Map<NodeIndex, AnimNode>;

/// The edges of a graph, by handle: source, target and what the edge holds.
pub type EdgeMap = Map<EdgeIndex, (NodeIndex, NodeIndex, AnimEdge)>;

/// Where a graph stands: on `active_node`, or in `active_edge`.
#[derive(Clone, Copy, Debug)]
pub struct Position {
    pub active_node: Option<NodeIndex>,
    pub active_edge: Option<EdgeIndex>,
    pub on_node: bool,
}

/// A transition in flight: the edge, its two ends and its fade.
pub struct Running {
    pub edge: EdgeIndex,
    pub from: NodeIndex,
    pub to: NodeIndex,
    pub fade: TransitionEdge,
}

/// The transition that a graph is in, if it is in one: it is off its node
/// and its active edge is a transition of the graph.
pub open spec fn running(edges: EdgeMap, pos: Position) -> Option<Running> {
    if pos.on_node {
        None
    } else {
        match pos.active_edge {
            Some(e) => if edges.dom().contains(e) {
                match edges[e].2 {
                    AnimEdge::Transition(t) => Some(
                        Running { edge: e, from: edges[e].0, to: edges[e].1, fade: t },
                    ),
                    _ => None,
                }
            } else {
                None
            },
            None => None,
        }
    }
}

/// Whether a graph stands where it can stand: it is on its node exactly
/// when it is in no edge, the node it stands on is one of its nodes, and
/// the edge it is in is one of its transitions, leaves that node and leads
/// to one of its nodes.
pub open spec fn position_wf(nodes: NodeMap, edges: EdgeMap, pos: Position) -> bool {
    &&& pos.on_node <==> pos.active_edge is None
    &&& pos.active_node matches Some(a) ==> nodes.dom().contains(a)
    &&& pos.active_edge matches Some(e) ==> {
        &&& edges.dom().contains(e)
        &&& edges[e].2 is Transition
        &&& pos.active_node == Some(edges[e].0)
        &&& nodes.dom().contains(edges[e].1)
    }
}

/// Where a graph stands once the transition `run` is over.
pub open spec fn arrived(run: Running) -> Position {
    Position { active_node: Some(run.to), active_edge: None, on_node: true }
}

/// How many hops a frame follows the edges that feed a node.
pub const MAX_HOPS: usize = 64;

/// Whether an edge feeds its target with the pose of its source: a simple
/// edge and an output edge do, a transition does not.
pub open spec fn feeds(edge: AnimEdge) -> bool {
    edge is Simple || edge is Output
}

/// `seen` after a look at the first `upto` edges of `order`: the source of
/// each edge that feeds one of the first `limit` nodes of the list is put
/// at its end, unless it is in the list already.
pub open spec fn scanned(
    edges: EdgeMap,
    order: Seq<EdgeIndex>,
    seen: Seq<NodeIndex>,
    limit: nat,
    upto: nat,
) -> Seq<NodeIndex>
    decreases upto,
{
    if upto == 0 {
        seen
    } else {
        let before = scanned(edges, order, seen, limit, (upto - 1) as nat);
        let e = order[upto - 1];
        if edges.dom().contains(e) && feeds(edges[e].2) && before.take(limit as int).contains(
            edges[e].1,
        ) && !before.contains(edges[e].0) {
            before.push(edges[e].0)
        } else {
            before
        }
    }
}

/// The nodes that a frame reaches from `roots` in at most `hops` hops
/// against the edges that feed: first the roots, then what feeds them in
/// the order of `order`, then what feeds those, and so on, each node once.
pub open spec fn upstream(edges: EdgeMap, order: Seq<EdgeIndex>, roots: Seq<NodeIndex>, hops: nat) -> Seq<
    NodeIndex,
>
    decreases hops,
{
    if hops == 0 {
        roots
    } else {
        let before = upstream(edges, order, roots, (hops - 1) as nat);
        scanned(edges, order, before, before.len(), order.len())
    }
}

/// The nodes that a frame starts from: the node that the graph stands on,
/// or the two ends of the transition that it is in.
pub open spec fn roots_of(edges: EdgeMap, pos: Position) -> Seq<NodeIndex> {
    match running(edges, pos) {
        Some(run) => if run.from == run.to {
            seq![run.from]
        } else {
            seq![run.from, run.to]
        },
        None => match pos.active_node {
            Some(a) => seq![a],
            None => Seq::empty(),
        },
    }
}

/// The nodes that a frame advances in a graph, in the order in which it
/// finds them.
pub open spec fn active_nodes(edges: EdgeMap, order: Seq<EdgeIndex>, pos: Position) -> Seq<NodeIndex> {
    upstream(edges, order, roots_of(edges, pos), MAX_HOPS as nat)
}

/// A look at the edges only adds to the list, and leaves it without a
/// node that occurs twice.
pub proof fn lemma_scanned_grows(
    edges: EdgeMap,
    order: Seq<EdgeIndex>,
    seen: Seq<NodeIndex>,
    limit: nat,
    upto: nat,
)
    requires
        seen.no_duplicates(),
        upto <= order.len(),
    ensures
        scanned(edges, order, seen, limit, upto).no_duplicates(),
        scanned(edges, order, seen, limit, upto).len() >= seen.len(),
        scanned(edges, order, seen, limit, upto).take(seen.len() as int) == seen,
    decreases upto,
{
    if upto > 0 {
        lemma_scanned_grows(edges, order, seen, limit, (upto - 1) as nat);
        let before = scanned(edges, order, seen, limit, (upto - 1) as nat);
        let after = scanned(edges, order, seen, limit, upto);
        assert(after.take(seen.len() as int) =~= before.take(seen.len() as int));
    } else {
        assert(seen.take(seen.len() as int) =~= seen);
    }
}

/// The nodes that a frame reaches start with the roots, and no node
/// occurs twice among them.
pub proof fn lemma_upstream_distinct(
    edges: EdgeMap,
    order: Seq<EdgeIndex>,
    roots: Seq<NodeIndex>,
    hops: nat,
)
    requires
        roots.no_duplicates(),
    ensures
        upstream(edges, order, roots, hops).no_duplicates(),
        upstream(edges, order, roots, hops).len() >= roots.len(),
        upstream(edges, order, roots, hops).take(roots.len() as int) == roots,
    decreases hops,
{
    if hops > 0 {
        lemma_upstream_distinct(edges, order, roots, (hops - 1) as nat);
        let before = upstream(edges, order, roots, (hops - 1) as nat);
        lemma_scanned_grows(edges, order, before, before.len(), order.len());
        let after = upstream(edges, order, roots, hops);
        assert(after.take(roots.len() as int) =~= after.take(before.len() as int).take(
            roots.len() as int,
        ));
    } else {
        assert(roots.take(roots.len() as int) =~= roots);
    }
}

/// Once a hop finds no new node, no later hop does.
pub proof fn lemma_upstream_settled(
    edges: EdgeMap,
    order: Seq<EdgeIndex>,
    roots: Seq<NodeIndex>,
    hops: nat,
    later: nat,
)
    requires
        upstream(edges, order, roots, hops + 1) == upstream(edges, order, roots, hops),
        later >= hops,
    ensures
        upstream(edges, order, roots, later) == upstream(edges, order, roots, hops),
    decreases later,
{
    if later > hops {
        lemma_upstream_settled(edges, order, roots, hops, (later - 1) as nat);
    }
}

/// Whether `post` is `pre` advanced by `dt` nanoseconds, descending at
/// most `fuel` levels: a clip node moves its playhead, a state machine
/// moves as a graph does and keeps its handles, start and end, and any other node
/// stays as it is.
pub open spec fn node_advanced(pre: AnimNode, post: AnimNode, dt: nat, fuel: nat) -> bool
    decreases fuel, 1nat,
{
    match pre {
        AnimNode::Sample(s) => post == AnimNode::Sample(s.after(dt)),
        AnimNode::StateMachine(m) => match post {
            AnimNode::StateMachine(n) => {
                &&& n.node_handles == m.node_handles
                &&& n.edge_handles == m.edge_handles
                &&& n.start == m.start
                &&& n.end == m.end
                &&& graph_advanced(
                    m.edge_handles@,
                    m.nodes(),
                    m.edges(),
                    m.position(),
                    n.nodes(),
                    n.edges(),
                    n.position(),
                    dt,
                    fuel,
                )
            },
            _ => false,
        },
        _ => post == pre,
    }
}

/// Whether `post` holds the nodes of `pre` with those in `active`
/// advanced and all others as they were.
pub open spec fn nodes_advanced(
    pre: NodeMap,
    post: NodeMap,
    active: Seq<NodeIndex>,
    dt: nat,
    fuel: nat,
) -> bool
    decreases fuel, 2nat,
{
    &&& post.dom() == pre.dom()
    &&& forall|k: NodeIndex| #[trigger]
        pre.dom().contains(k) ==> if active.contains(k) {
            node_advanced(pre[k], post[k], dt, fuel)
        } else {
            post[k] == pre[k]
        }
}

/// Whether a graph has gone from the `pre` state to the `post` state in a
/// frame of `dt` nanoseconds, descending at most `fuel` levels. `order`
/// lists the handles of the graph's edges in the order in which the frame
/// looks at them.
pub open spec fn graph_advanced(
    order: Seq<EdgeIndex>,
    pre_nodes: NodeMap,
    pre_edges: EdgeMap,
    pre_pos: Position,
    post_nodes: NodeMap,
    post_edges: EdgeMap,
    post_pos: Position,
    dt: nat,
    fuel: nat,
) -> bool
    decreases fuel, 0nat,
{
    if fuel == 0 {
        post_nodes == pre_nodes && post_edges == pre_edges && post_pos == pre_pos
    } else {
        &&& nodes_advanced(
            pre_nodes,
            post_nodes,
            active_nodes(pre_edges, order, pre_pos),
            dt,
            (fuel - 1) as nat,
        )
        &&& match running(pre_edges, pre_pos) {
            None => post_pos == pre_pos && post_edges == pre_edges,
            Some(run) => {
                &&& post_edges == pre_edges.insert(
                    run.edge,
                    (run.from, run.to, AnimEdge::Transition(run.fade.faded(dt))),
                )
                &&& post_pos == if run.fade.done_after(dt) {
                    arrived(run)
                } else {
                    pre_pos
                }
            },
        }
    }
}

/// A frame keeps a graph standing where it can stand, keeps its handles
/// valid, and leaves it on the source of its transition until the
/// transition is over.
pub proof fn lemma_frame_keeps_position(
    order: Seq<EdgeIndex>,
    pre_nodes: NodeMap,
    pre_edges: EdgeMap,
    pre_pos: Position,
    post_nodes: NodeMap,
    post_edges: EdgeMap,
    post_pos: Position,
    dt: nat,
    fuel: nat,
)
    requires
        position_wf(pre_nodes, pre_edges, pre_pos),
        graph_advanced(
            order,
            pre_nodes,
            pre_edges,
            pre_pos,
            post_nodes,
            post_edges,
            post_pos,
            dt,
            fuel,
        ),
    ensures
        position_wf(post_nodes, post_edges, post_pos),
        post_nodes.dom() == pre_nodes.dom(),
        post_edges.dom() == pre_edges.dom(),
        running(pre_edges, pre_pos) matches Some(run) ==> (if fuel > 0 && run.fade.done_after(dt) {
            post_pos == arrived(run)
        } else {
            post_pos == pre_pos && post_pos.active_node == Some(run.from)
        }),
        running(pre_edges, pre_pos) is None ==> post_pos == pre_pos,
{
    if fuel > 0 {
        match running(pre_edges, pre_pos) {
            Some(run) => {
                assert(post_edges.dom() =~= pre_edges.dom());
            },
            None => {},
        }
    }
}

/// Finds the transition that the graph is in, if it is in one.
pub fn find_running(graph: &GraphStore, pos: &Position) -> (r: Option<
    (EdgeIndex, NodeIndex, NodeIndex),
>)
    ensures
        match running(store_edges(*graph), *pos) {
            None => r is None,
            Some(run) => r == Some((run.edge, run.from, run.to)),
        },
{
    if pos.on_node {
        return None;
    }
    let e: EdgeIndex = match pos.active_edge {
        Some(e) => e,
        None => {
            return None;
        },
    };
    let ends: (NodeIndex, NodeIndex) = match graph.edge_ends(e) {
        Some(ends) => ends,
        None => {
            return None;
        },
    };
    match graph.edge(e) {
        Some(edge) => match edge {
            AnimEdge::Transition(_) => Some((e, ends.0, ends.1)),
            _ => None,
        },
        None => None,
    }
}

/// Moves the fade of the transition under `e` on by `dt` nanoseconds and
/// says whether the transition is over.
fn fade_edge(graph: &mut GraphStore, e: EdgeIndex, dt: u64) -> (done: bool)
    requires
        store_edges(*old(graph)).dom().contains(e),
        store_edges(*old(graph))[e].2 is Transition,
    ensures
        store_nodes(*final(graph)) == store_nodes(*old(graph)),
        store_edges(*final(graph)) == store_edges(*old(graph)).insert(
            e,
            (
                store_edges(*old(graph))[e].0,
                store_edges(*old(graph))[e].1,
                AnimEdge::Transition(store_edges(*old(graph))[e].2->Transition_0.faded(dt as nat)),
            ),
        ),
        done == store_edges(*old(graph))[e].2->Transition_0.done_after(dt as nat),
{
    match graph.edge_mut(e) {
        Some(edge) => match edge {
            AnimEdge::Transition(t) => t.advance(dt),
            _ => false,
        },
        None => false,
    }
}

/// Advances one node by `dt` nanoseconds.
pub fn advance_node(node: &mut AnimNode, dt: u64, fuel: usize)
    ensures
        node_advanced(*old(node), *final(node), dt as nat, fuel as nat),
    decreases fuel, 2nat,
{
    match node {
        AnimNode::Sample(s) => {
            let _ = s.advance(dt);
        },
        AnimNode::StateMachine(m) => {
            let mut pos: Position = Position {
                active_node: m.active_node,
                active_edge: m.active_edge,
                on_node: m.on_node,
            };
            advance_graph(&mut m.graph, &m.edge_handles, &mut pos, dt, fuel);
            m.active_node = pos.active_node;
            m.active_edge = pos.active_edge;
            m.on_node = pos.on_node;
        },
        _ => {},
    }
}

/// Whether `k` is one of the first `upto` nodes of `list`.
fn listed(list: &Vec<NodeIndex>, upto: usize, k: NodeIndex) -> (r: bool)
    requires
        upto <= list@.len(),
    ensures
        r == list@.take(upto as int).contains(k),
{
    let mut i: usize = 0;
    while i < upto
        invariant
            i <= upto,
            upto <= list@.len(),
            forall|j: int| 0 <= j < i ==> list@[j] != k,
        decreases upto - i,
    {
        if same_node(list[i], k) {
            assert(list@.take(upto as int)[i as int] == k);
            return true;
        }
        i += 1;
    }
    proof {
        assert forall|j: int| 0 <= j < list@.take(upto as int).len() implies list@.take(
            upto as int,
        )[j] != k by {
            assert(list@.take(upto as int)[j] == list@[j]);
        }
    }
    false
}

/// Looks at every edge of `order` once and puts the sources of those that
/// feed one of the first `limit` nodes of `seen` at the end of `seen`.
fn scan(graph: &GraphStore, order: &Vec<EdgeIndex>, seen: &mut Vec<NodeIndex>, limit: usize)
    requires
        limit <= old(seen)@.len(),
    ensures
        final(seen)@ == scanned(
            store_edges(*graph),
            order@,
            old(seen)@,
            limit as nat,
            order@.len(),
        ),
{
    let ghost start = seen@;
    let mut i: usize = 0;
    while i < order.len()
        invariant
            i <= order.len(),
            limit <= seen@.len(),
            seen@ == scanned(store_edges(*graph), order@, start, limit as nat, i as nat),
        decreases order.len() - i,
    {
        let e: EdgeIndex = order[i];
        match graph.edge_ends(e) {
            Some(ends) => {
                let feeder: bool = match graph.edge(e) {
                    Some(edge) => match edge {
                        AnimEdge::Simple(_) => true,
                        AnimEdge::Output(_) => true,
                        AnimEdge::Transition(_) => false,
                    },
                    None => false,
                };
                if feeder && listed(seen, limit, ends.1) {
                    let all: usize = seen.len();
                    proof {
                        assert(seen@.take(all as int) =~= seen@);
                    }
                    if !listed(seen, all, ends.0) {
                        seen.push(ends.0);
                    }
                }
            },
            None => {},
        }
        i += 1;
    }
}

/// Lists the nodes that a frame advances: the roots and, hop by hop, the
/// nodes that feed them.
pub fn collect_active(graph: &GraphStore, order: &Vec<EdgeIndex>, pos: &Position) -> (list: Vec<
    NodeIndex,
>)
    ensures
        list@ == active_nodes(store_edges(*graph), order@, *pos),
        list@.no_duplicates(),
{
    let mut list: Vec<NodeIndex> = Vec::new();
    match find_running(graph, pos) {
        Some(found) => {
            list.push(found.1);
            if !same_node(found.1, found.2) {
                list.push(found.2);
            }
        },
        None => {
            match pos.active_node {
                Some(a) => {
                    list.push(a);
                },
                None => {},
            }
        },
    }
    let ghost roots = list@;
    proof {
        assert(roots =~= roots_of(store_edges(*graph), *pos));
    }
    let mut hop: usize = 0;
    let mut settled: bool = false;
    while hop < MAX_HOPS && !settled
        invariant
            hop <= MAX_HOPS,
            roots.no_duplicates(),
            list@ == upstream(store_edges(*graph), order@, roots, hop as nat),
            settled ==> list@ == upstream(store_edges(*graph), order@, roots, MAX_HOPS as nat),
        decreases MAX_HOPS - hop + (if settled {
            0int
        } else {
            1int
        }),
    {
        let ghost before = list@;
        let limit: usize = list.len();
        scan(graph, order, &mut list, limit);
        if list.len() == limit {
            proof {
                lemma_upstream_distinct(store_edges(*graph), order@, roots, hop as nat);
                lemma_scanned_grows(
                    store_edges(*graph),
                    order@,
                    before,
                    before.len(),
                    order@.len(),
                );
                assert(list@ =~= list@.take(before.len() as int));
                lemma_upstream_settled(
                    store_edges(*graph),
                    order@,
                    roots,
                    hop as nat,
                    MAX_HOPS as nat,
                );
            }
            settled = true;
        } else {
            hop += 1;
        }
    }
    proof {
        lemma_upstream_distinct(store_edges(*graph), order@, roots, MAX_HOPS as nat);
    }
    list
}

/// Advances the node under `i`, if the graph has one.
fn advance_at(graph: &mut GraphStore, i: NodeIndex, dt: u64, fuel: usize)
    ensures
        store_nodes(*final(graph)).dom() == store_nodes(*old(graph)).dom(),
        forall|k: NodeIndex| #[trigger]
            store_nodes(*old(graph)).dom().contains(k) ==> if k == i {
                node_advanced(
                    store_nodes(*old(graph))[k],
                    store_nodes(*final(graph))[k],
                    dt as nat,
                    fuel as nat,
                )
            } else {
                store_nodes(*final(graph))[k] == store_nodes(*old(graph))[k]
            },
        store_edges(*final(graph)) == store_edges(*old(graph)),
    decreases fuel, 3nat,
{
    match graph.node_mut(i) {
        Some(node) => {
            advance_node(node, dt, fuel);
        },
        None => {},
    }
    proof {
        assert(store_nodes(*final(graph)).dom() =~= store_nodes(*old(graph)).dom());
    }
}

/// Advances every node of `list` once.
fn advance_all(graph: &mut GraphStore, list: &Vec<NodeIndex>, dt: u64, fuel: usize)
    requires
        list@.no_duplicates(),
    ensures
        nodes_advanced(
            store_nodes(*old(graph)),
            store_nodes(*final(graph)),
            list@,
            dt as nat,
            fuel as nat,
        ),
        store_edges(*final(graph)) == store_edges(*old(graph)),
    decreases fuel, 4nat,
{
    let ghost pre = store_nodes(*graph);
    let mut i: usize = 0;
    while i < list.len()
        invariant
            i <= list.len(),
            list@.no_duplicates(),
            store_edges(*graph) == store_edges(*old(graph)),
            pre == store_nodes(*old(graph)),
            store_nodes(*graph).dom() == pre.dom(),
            forall|k: NodeIndex| #[trigger]
                pre.dom().contains(k) ==> if list@.take(i as int).contains(k) {
                    node_advanced(pre[k], store_nodes(*graph)[k], dt as nat, fuel as nat)
                } else {
                    store_nodes(*graph)[k] == pre[k]
                },
        decreases list.len() - i,
    {
        let ghost before = store_nodes(*graph);
        advance_at(graph, list[i], dt, fuel);
        proof {
            let here = list@[i as int];
            let head = list@.take(i as int);
            let more = list@.take(i + 1);
            assert(more =~= head.push(here));
            assert forall|k: NodeIndex| #[trigger] pre.dom().contains(k) implies if more.contains(
                k,
            ) {
                node_advanced(pre[k], store_nodes(*graph)[k], dt as nat, fuel as nat)
            } else {
                store_nodes(*graph)[k] == pre[k]
            } by {
                if k == here {
                    assert(more[i as int] == here);
                    if head.contains(k) {
                        let j = choose|j: int| 0 <= j < head.len() && #[trigger] head[j] == k;
                        assert(list@[j] == list@[i as int]);
                    }
                    assert(before[k] == pre[k]);
                } else {
                    if more.contains(k) {
                        let j = choose|j: int| 0 <= j < more.len() && #[trigger] more[j] == k;
                        assert(head[j] == k);
                    }
                    if head.contains(k) {
                        let j = choose|j: int| 0 <= j < head.len() && #[trigger] head[j] == k;
                        assert(more[j] == k);
                    }
                }
            }
        }
        i += 1;
    }
    proof {
        assert(list@.take(i as int) =~= list@);
    }
}

/// Advances a graph by a frame of `dt` nanoseconds, descending at most
/// `fuel` levels into nested state machines. `order` lists the handles of
/// the graph's edges.
pub fn advance_graph(
    graph: &mut GraphStore,
    order: &Vec<EdgeIndex>,
    pos: &mut Position,
    dt: u64,
    fuel: usize,
)
    ensures
        graph_advanced(
            order@,
            store_nodes(*old(graph)),
            store_edges(*old(graph)),
            *old(pos),
            store_nodes(*final(graph)),
            store_edges(*final(graph)),
            *final(pos),
            dt as nat,
            fuel as nat,
        ),
    decreases fuel, 0nat,
{
    if fuel == 0 {
        return ;
    }
    let list: Vec<NodeIndex> = collect_active(graph, order, pos);
    match find_running(graph, pos) {
        None => {
            advance_all(graph, &list, dt, fuel - 1);
        },
        Some(found) => {
            let done: bool = fade_edge(graph, found.0, dt);
            advance_all(graph, &list, dt, fuel - 1);
            if done {
                *pos = Position { active_node: Some(found.2), active_edge: None, on_node: true };
            }
        },
    }
}

} // verus!
