//! The graph that owns every node and edge, kept in a `petgraph` graph.

use crate::types::{Edge, Node};
use petgraph::Directed;
use petgraph::dot::Dot;
use petgraph::graph::{Graph, NodeIndex};
use vstd::prelude::*;

verus! {

/// `petgraph::graph::Graph`, whose inside the verifier does not see.
#[verifier::external_type_specification]
#[verifier::external_body]
#[verifier::reject_recursive_types(N)]
#[verifier::reject_recursive_types(E)]
#[verifier::reject_recursive_types(D)]
#[verifier::reject_recursive_types(Ix)]
pub struct ExGraph<N, E, D, Ix>(Graph<N, E, D, Ix>);

/// `petgraph::Directed`, the marker of graphs with directed edges.
#[verifier::external_type_specification]
#[verifier::external_body]
pub struct ExDirected(Directed);

/// An edge as the graph records it: the handle it leaves, the handle it enters, its kind.
pub type EdgeRecord = (usize, usize, Edge);

/// The nodes of a graph, in the order of their handles.
pub uninterp spec fn graph_nodes(g: Graph<Node, Edge, Directed, usize>) -> Seq<Node>;

/// The edges of a graph, in the order in which they were added.
pub uninterp spec fn graph_edges(g: Graph<Node, Edge, Directed, usize>) -> Seq<EdgeRecord>;

/// The text that `Dot` writes with `{:?}` for a graph with these nodes and edges.
pub uninterp spec fn dot_text(nodes: Seq<Node>, edges: Seq<EdgeRecord>) -> Seq<char>;

/// Whether the export of the graph without temporaries keeps the node.
pub open spec fn is_shown(node: Node) -> bool {
    match node {
        Node::ContextVar(v) => v.tmp_of.is_none(),
        _ => true,
    }
}

/// How many of the first `i` nodes the export without temporaries keeps.
pub open spec fn shown_before(nodes: Seq<Node>, i: int) -> nat
    decreases i,
{
    if i <= 0 || i > nodes.len() {
        0
    } else if is_shown(nodes[i - 1]) {
        shown_before(nodes, i - 1) + 1
    } else {
        shown_before(nodes, i - 1)
    }
}

/// The nodes that the export without temporaries keeps, in order.
pub open spec fn shown_nodes(nodes: Seq<Node>) -> Seq<Node> {
    nodes.filter(|n: Node| is_shown(n))
}

/// The edges that the export without temporaries keeps: those between kept nodes, in
/// order, with each end renumbered by the kept nodes before it.
pub open spec fn shown_edges(nodes: Seq<Node>, edges: Seq<EdgeRecord>) -> Seq<EdgeRecord>
    decreases edges.len(),
{
    if edges.len() == 0 {
        Seq::empty()
    } else {
        let rest = shown_edges(nodes, edges.drop_last());
        let e = edges.last();
        if e.0 < nodes.len() && e.1 < nodes.len() && is_shown(nodes[e.0 as int]) && is_shown(
            nodes[e.1 as int],
        ) {
            rest.push(
                (
                    shown_before(nodes, e.0 as int) as usize,
                    shown_before(nodes, e.1 as int) as usize,
                    e.2,
                ),
            )
        } else {
            rest
        }
    }
}

/// Where every node is kept, as many nodes are kept before a handle as there are.
pub proof fn lemma_all_shown_before(nodes: Seq<Node>, i: int)
    requires
        0 <= i <= nodes.len(),
        forall|k: int| 0 <= k < nodes.len() ==> is_shown(#[trigger] nodes[k]),
    ensures
        shown_before(nodes, i) == i,
    decreases i,
{
    if i > 0 {
        lemma_all_shown_before(nodes, i - 1);
    }
}

/// Where nothing is temporary, nothing is hidden: the export without temporaries has
/// the nodes and the edges of the graph as they are.
pub proof fn lemma_nothing_hidden(nodes: Seq<Node>, edges: Seq<EdgeRecord>)
    requires
        forall|k: int| 0 <= k < nodes.len() ==> is_shown(#[trigger] nodes[k]),
        forall|k: int|
            0 <= k < edges.len() ==> (#[trigger] edges[k]).0 < nodes.len() && edges[k].1
                < nodes.len(),
    ensures
        shown_nodes(nodes) == nodes,
        shown_edges(nodes, edges) == edges,
    decreases nodes.len() + edges.len(),
{
    reveal(Seq::filter);
    if edges.len() > 0 {
        let e = edges.last();
        lemma_nothing_hidden(nodes, edges.drop_last());
        lemma_all_shown_before(nodes, e.0 as int);
        lemma_all_shown_before(nodes, e.1 as int);
        assert(edges.drop_last().push(e) =~= edges);
    } else if nodes.len() > 0 {
        lemma_nothing_hidden(nodes.drop_last(), edges);
        assert(nodes.drop_last().push(nodes.last()) =~= nodes);
    } else {
        assert(shown_edges(nodes, edges) =~= edges);
    }
}

/// The node itself where the export without temporaries keeps it.
pub fn shown_node(node: &Node) -> (r: Option<&Node>)
    ensures
        r == if is_shown(*node) {
            Some(node)
        } else {
            None
        },
{
    match node {
        Node::ContextVar(cvar) => {
            if cvar.tmp_of.is_some() {
                None
            } else {
                Some(node)
            }
        },
        _ => Some(node),
    }
}

/// Calls `Graph::default`: a graph without nodes or edges.
#[verifier::external_body]
pub(crate) fn graph_new() -> (g: Graph<Node, Edge, Directed, usize>)
    ensures
        graph_nodes(g) == Seq::<Node>::empty(),
        graph_edges(g) == Seq::<EdgeRecord>::empty(),
{
    Graph::default()
}

/// Calls `Graph::node_count`.
#[verifier::external_body]
pub(crate) fn graph_node_count(g: &Graph<Node, Edge, Directed, usize>) -> (n: usize)
    ensures
        n == graph_nodes(*g).len(),
{
    g.node_count()
}

/// Calls `Graph::edge_count`.
#[verifier::external_body]
pub(crate) fn graph_edge_count(g: &Graph<Node, Edge, Directed, usize>) -> (n: usize)
    ensures
        n == graph_edges(*g).len(),
{
    g.edge_count()
}

/// Calls `Graph::add_node`: the node goes behind the others, and its handle is the number
/// of nodes before the call. The edges stay.
#[verifier::external_body]
pub(crate) fn graph_add_node(g: &mut Graph<Node, Edge, Directed, usize>, node: Node) -> (idx:
    usize)
    ensures
        idx == graph_nodes(*old(g)).len(),
        graph_nodes(*final(g)) == graph_nodes(*old(g)).push(node),
        graph_edges(*final(g)) == graph_edges(*old(g)),
{
    g.add_node(node).index()
}

/// Calls `Graph::node_weight`: the node of a handle, or nothing where no node has it.
#[verifier::external_body]
pub(crate) fn graph_node(g: &Graph<Node, Edge, Directed, usize>, idx: usize) -> (n: Option<
    &Node,
>)
    ensures
        n == if idx < graph_nodes(*g).len() {
            Some(&graph_nodes(*g)[idx as int])
        } else {
            None
        },
{
    g.node_weight(NodeIndex::new(idx))
}

/// Calls `Graph::node_weight_mut` for a handle that has a node: what is written through
/// the reference replaces that node; the other nodes and the edges stay.
#[verifier::external_body]
pub(crate) fn graph_node_mut(g: &mut Graph<Node, Edge, Directed, usize>, idx: usize) -> (n:
    &mut Node)
    requires
        idx < graph_nodes(*old(g)).len(),
    ensures
        *n == graph_nodes(*old(g))[idx as int],
        graph_nodes(*final(g)) == graph_nodes(*old(g)).update(idx as int, *final(n)),
        graph_edges(*final(g)) == graph_edges(*old(g)),
{
    g.node_weight_mut(NodeIndex::new(idx)).unwrap()
}

/// Calls `Graph::add_edge` between two handles that have nodes: the edge goes behind the
/// others. The nodes stay.
#[verifier::external_body]
pub(crate) fn graph_add_edge(
    g: &mut Graph<Node, Edge, Directed, usize>,
    from: usize,
    to: usize,
    edge: Edge,
)
    requires
        from < graph_nodes(*old(g)).len(),
        to < graph_nodes(*old(g)).len(),
    ensures
        graph_nodes(*final(g)) == graph_nodes(*old(g)),
        graph_edges(*final(g)) == graph_edges(*old(g)).push((from, to, edge)),
{
    g.add_edge(NodeIndex::new(from), NodeIndex::new(to), edge);
}

/// Reads one edge from `Graph::raw_edges`. Both its ends are handles of nodes: the graph
/// takes no edge between handles that have none.
#[verifier::external_body]
pub(crate) fn graph_edge(g: &Graph<Node, Edge, Directed, usize>, i: usize) -> (e: EdgeRecord)
    requires
        i < graph_edges(*g).len(),
    ensures
        e == graph_edges(*g)[i as int],
        e.0 < graph_nodes(*g).len(),
        e.1 < graph_nodes(*g).len(),
{
    let edge = &g.raw_edges()[i];
    (edge.source().index(), edge.target().index(), edge.weight)
}

/// Formats the graph through `Dot` with `{:?}`.
#[verifier::external_body]
pub(crate) fn graph_dot(g: &Graph<Node, Edge, Directed, usize>) -> (s: String)
    ensures
        s@ == dot_text(graph_nodes(*g), graph_edges(*g)),
{
    format!("{:?}", Dot::new(g))
}

/// Calls `Graph::filter_map` with `shown_node` for the nodes and every edge kept, and
/// formats the result through `Dot` with `{:?}`. `filter_map` keeps the chosen nodes in
/// order, renumbers them, and keeps the edges whose two ends it kept.
#[verifier::external_body]
pub(crate) fn graph_dot_shown(g: &Graph<Node, Edge, Directed, usize>) -> (s: String)
    ensures
        s@ == dot_text(
            shown_nodes(graph_nodes(*g)),
            shown_edges(graph_nodes(*g), graph_edges(*g)),
        ),
{
    let shown = g.filter_map(|_idx, node| shown_node(node), |_idx, edge| Some(edge));
    format!("{:?}", Dot::new(&shown))
}

} // verus!
