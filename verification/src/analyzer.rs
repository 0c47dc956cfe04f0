//! The analyzer: the graph together with the tables that find types by name or shape.

use crate::ast::Expression;
use crate::lower::lower_expr;
use crate::store::{
    dot_text, graph_add_edge, graph_add_node, graph_dot, graph_dot_shown, graph_edge,
    graph_edge_count, graph_edges, graph_new, graph_node, graph_node_count, graph_node_mut,
    graph_nodes, shown_edges, shown_nodes, EdgeRecord,
};
use crate::tables::Table;
use crate::types::{Builtin, DynBuiltin, Edge, Node};
use petgraph::Directed;
use petgraph::graph::Graph;
use vstd::prelude::*;

verus! {

/// The lookup tables of an analyzer, as maps.
pub struct Tables {
    pub builtins: Map<Builtin, usize>,
    pub dyn_builtins: Map<DynBuiltin, usize>,
    pub user_types: Map<Seq<char>, usize>,
}

/// The state of an analyzer: the nodes in the order of their handles, the edges in the
/// order in which they were added, and the lookup tables.
pub struct Model {
    pub nodes: Seq<Node>,
    pub edges: Seq<EdgeRecord>,
    pub builtins: Map<Builtin, usize>,
    pub dyn_builtins: Map<DynBuiltin, usize>,
    pub user_types: Map<Seq<char>, usize>,
}

impl Model {
    /// The state without nodes, edges or table entries.
    pub open spec fn empty() -> Model {
        Model {
            nodes: Seq::empty(),
            edges: Seq::empty(),
            builtins: Map::empty(),
            dyn_builtins: Map::empty(),
            user_types: Map::empty(),
        }
    }

    /// The handle that the next node gets.
    pub open spec fn next(self) -> usize {
        self.nodes.len() as usize
    }

    /// The state with one more node, behind the others.
    pub open spec fn add_node(self, node: Node) -> Model {
        Model { nodes: self.nodes.push(node), ..self }
    }

    /// The state with the node of a handle replaced.
    pub open spec fn set_node(self, idx: usize, node: Node) -> Model {
        Model { nodes: self.nodes.update(idx as int, node), ..self }
    }

    /// The state with one more edge, behind the others.
    pub open spec fn add_edge(self, from: usize, to: usize, edge: Edge) -> Model {
        Model { edges: self.edges.push((from, to, edge)), ..self }
    }

    /// The state with the name registered for the handle.
    pub open spec fn name_type(self, name: Seq<char>, idx: usize) -> Model {
        Model { user_types: self.user_types.insert(name, idx), ..self }
    }

    /// The node of a primitive type: the one that the table has, or a new one that the
    /// table then has.
    pub open spec fn builtin_or_add(self, builtin: Builtin) -> (Model, usize) {
        if self.builtins.contains_key(builtin) {
            (self, self.builtins[builtin])
        } else {
            (
                Model {
                    nodes: self.nodes.push(Node::Builtin(builtin)),
                    builtins: self.builtins.insert(builtin, self.next()),
                    ..self
                },
                self.next(),
            )
        }
    }

    /// The node of a type of dynamic size: the one that the table has, or a new one that
    /// the table then has.
    pub open spec fn dyn_builtin_or_add(self, dyn_builtin: DynBuiltin) -> (Model, usize) {
        if self.dyn_builtins.contains_key(dyn_builtin) {
            (self, self.dyn_builtins[dyn_builtin])
        } else {
            (
                Model {
                    nodes: self.nodes.push(Node::DynBuiltin(dyn_builtin)),
                    dyn_builtins: self.dyn_builtins.insert(dyn_builtin, self.next()),
                    ..self
                },
                self.next(),
            )
        }
    }
}

/// Whether the state `b` came from the state `a` by adding and by rewriting placeholders:
/// no node is removed, a node that is no placeholder stays as it is under its handle, and
/// the edges of `a` are the first edges of `b`, unchanged.
pub open spec fn grows(a: Model, b: Model) -> bool {
    &&& a.nodes.len() <= b.nodes.len()
    &&& forall|i: int|
        0 <= i < a.nodes.len() ==> (#[trigger] a.nodes[i]) is Unresolved || b.nodes[i]
            == a.nodes[i]
    &&& a.edges.len() <= b.edges.len()
    &&& forall|i: int| 0 <= i < a.edges.len() ==> b.edges[i] == #[trigger] a.edges[i]
}

/// The state that a graph and lookup tables make up.
pub open spec fn state_of(g: Graph<Node, Edge, Directed, usize>, t: Tables) -> Model {
    Model {
        nodes: graph_nodes(g),
        edges: graph_edges(g),
        builtins: t.builtins,
        dyn_builtins: t.dyn_builtins,
        user_types: t.user_types,
    }
}

/// Access to the graph. Nodes and edges are only ever added, and a node may be rewritten
/// in place, so a handle stays good once given.
pub trait GraphLike: Sized {
    /// The graph that is held.
    spec fn graph_state(&self) -> Graph<Node, Edge, Directed, usize>;

    /// The lookup tables beside the graph.
    spec fn tables(&self) -> Tables;

    fn graph(&self) -> (g: &Graph<Node, Edge, Directed, usize>)
        ensures
            *g == self.graph_state(),
    ;

    fn graph_mut(&mut self) -> (g: &mut Graph<Node, Edge, Directed, usize>)
        ensures
            *g == old(self).graph_state(),
            final(self).graph_state() == *final(g),
            final(self).tables() == old(self).tables(),
    ;

    /// Adds a node and gives its handle.
    fn add_node(&mut self, node: Node) -> (idx: usize)
        ensures
            idx == state_of(old(self).graph_state(), old(self).tables()).nodes.len(),
            state_of(final(self).graph_state(), final(self).tables()) == state_of(
                old(self).graph_state(),
                old(self).tables(),
            ).add_node(node),
    {
        graph_add_node(self.graph_mut(), node)
    }

    /// How many nodes the graph has.
    fn node_count(&self) -> (n: usize)
        ensures
            n == state_of(self.graph_state(), self.tables()).nodes.len(),
    {
        graph_node_count(self.graph())
    }

    /// The node of a handle that has one.
    fn node(&self, idx: usize) -> (n: &Node)
        requires
            idx < state_of(self.graph_state(), self.tables()).nodes.len(),
        ensures
            *n == state_of(self.graph_state(), self.tables()).nodes[idx as int],
    {
        graph_node(self.graph(), idx).unwrap()
    }

    /// The node of a handle, or nothing where no node has the handle.
    fn try_node(&self, idx: usize) -> (n: Option<&Node>)
        ensures
            n == if idx < state_of(self.graph_state(), self.tables()).nodes.len() {
                Some(&state_of(self.graph_state(), self.tables()).nodes[idx as int])
            } else {
                None
            },
    {
        graph_node(self.graph(), idx)
    }

    /// The node of a handle that has one, to be rewritten in place.
    fn node_mut(&mut self, idx: usize) -> (n: &mut Node)
        requires
            idx < state_of(old(self).graph_state(), old(self).tables()).nodes.len(),
        ensures
            *n == state_of(old(self).graph_state(), old(self).tables()).nodes[idx as int],
            state_of(final(self).graph_state(), final(self).tables()) == state_of(
                old(self).graph_state(),
                old(self).tables(),
            ).set_node(idx, *final(n)),
    {
        graph_node_mut(self.graph_mut(), idx)
    }

    /// Adds an edge between two handles that have nodes.
    fn add_edge(&mut self, from_node: usize, to_node: usize, edge: Edge)
        requires
            from_node < state_of(old(self).graph_state(), old(self).tables()).nodes.len(),
            to_node < state_of(old(self).graph_state(), old(self).tables()).nodes.len(),
        ensures
            state_of(final(self).graph_state(), final(self).tables()) == state_of(
                old(self).graph_state(),
                old(self).tables(),
            ).add_edge(from_node, to_node, edge),
    {
        graph_add_edge(self.graph_mut(), from_node, to_node, edge)
    }

    /// How many edges the graph has.
    fn edge_count(&self) -> (n: usize)
        ensures
            n == state_of(self.graph_state(), self.tables()).edges.len(),
    {
        graph_edge_count(self.graph())
    }

    /// The edge that was added as the `i`-th.
    fn edge(&self, i: usize) -> (e: EdgeRecord)
        requires
            i < state_of(self.graph_state(), self.tables()).edges.len(),
        ensures
            e == state_of(self.graph_state(), self.tables()).edges[i as int],
            e.0 < state_of(self.graph_state(), self.tables()).nodes.len(),
            e.1 < state_of(self.graph_state(), self.tables()).nodes.len(),
    {
        graph_edge(self.graph(), i)
    }

    /// The graph in the DOT language.
    fn dot_str(&self) -> (s: String)
        ensures
            s@ == dot_text(
                state_of(self.graph_state(), self.tables()).nodes,
                state_of(self.graph_state(), self.tables()).edges,
            ),
    {
        graph_dot(self.graph())
    }

    /// The graph in the DOT language, without the temporaries among the variable versions
    /// and without the edges that touch them.
    fn dot_str_no_tmps(&self) -> (s: String)
        ensures
            s@ == dot_text(
                shown_nodes(state_of(self.graph_state(), self.tables()).nodes),
                shown_edges(
                    state_of(self.graph_state(), self.tables()).nodes,
                    state_of(self.graph_state(), self.tables()).edges,
                ),
            ),
    {
        graph_dot_shown(self.graph())
    }
}

/// Access to the lookup tables, and the lowering of expressions.
pub trait AnalyzerLike: GraphLike {
    fn builtins(&self) -> (t: &Table<Builtin>)
        ensures
            t.map() == self.tables().builtins,
    ;

    fn builtins_mut(&mut self) -> (t: &mut Table<Builtin>)
        ensures
            t.map() == old(self).tables().builtins,
            final(self).tables() == (Tables {
                builtins: final(t).map(),
                ..old(self).tables()
            }),
            final(self).graph_state() == old(self).graph_state(),
    ;

    /// The node of a primitive type, added to the graph where it has none yet.
    fn builtin_or_add(&mut self, builtin: Builtin) -> (idx: usize)
        ensures
            (state_of(final(self).graph_state(), final(self).tables()), idx) == state_of(
                old(self).graph_state(),
                old(self).tables(),
            ).builtin_or_add(builtin),
    {
        match self.builtins().get(&builtin) {
            Some(idx) => idx,
            None => {
                let idx = self.add_node(Node::Builtin(builtin));
                self.builtins_mut().insert(builtin, idx);
                idx
            },
        }
    }

    fn dyn_builtins(&self) -> (t: &Table<DynBuiltin>)
        ensures
            t.map() == self.tables().dyn_builtins,
    ;

    fn dyn_builtins_mut(&mut self) -> (t: &mut Table<DynBuiltin>)
        ensures
            t.map() == old(self).tables().dyn_builtins,
            final(self).tables() == (Tables {
                dyn_builtins: final(t).map(),
                ..old(self).tables()
            }),
            final(self).graph_state() == old(self).graph_state(),
    ;

    fn user_types(&self) -> (t: &Table<String>)
        ensures
            t.map() == self.tables().user_types,
    ;

    fn user_types_mut(&mut self) -> (t: &mut Table<String>)
        ensures
            t.map() == old(self).tables().user_types,
            final(self).tables() == (Tables {
                user_types: final(t).map(),
                ..old(self).tables()
            }),
            final(self).graph_state() == old(self).graph_state(),
    ;

    /// Lowers an expression to a node and gives its handle: see `lower_expr`. An
    /// expression that has no node of its own kind gets a new deferred node.
    fn parse_expr(&mut self, expr: &Expression) -> (idx: usize)
        ensures
            (state_of(final(self).graph_state(), final(self).tables()), idx) == lower_expr(
                state_of(old(self).graph_state(), old(self).tables()),
                *expr,
            ),
    ;
}

/// The graph and the tables of one analysis.
#[derive(Debug)]
pub struct Analyzer {
    pub graph: Graph<Node, Edge, Directed, usize>,
    pub builtins: Table<Builtin>,
    pub dyn_builtins: Table<DynBuiltin>,
    pub user_types: Table<String>,
}

impl View for Analyzer {
    type V = Model;

    open spec fn view(&self) -> Model {
        state_of(self.graph_state(), self.tables())
    }
}

impl GraphLike for Analyzer {
    open spec fn graph_state(&self) -> Graph<Node, Edge, Directed, usize> {
        self.graph
    }

    open spec fn tables(&self) -> Tables {
        Tables {
            builtins: self.builtins.map(),
            dyn_builtins: self.dyn_builtins.map(),
            user_types: self.user_types.map(),
        }
    }

    fn graph(&self) -> (g: &Graph<Node, Edge, Directed, usize>) {
        &self.graph
    }

    fn graph_mut(&mut self) -> (g: &mut Graph<Node, Edge, Directed, usize>) {
        &mut self.graph
    }
}

impl Default for Analyzer {
    fn default() -> (a: Analyzer)
        ensures
            a@ == Model::empty(),
    {
        Analyzer {
            graph: graph_new(),
            builtins: Table::new(),
            dyn_builtins: Table::new(),
            user_types: Table::new(),
        }
    }
}

impl Analyzer {
    /// An analyzer without nodes, edges or table entries.
    pub fn new() -> (a: Analyzer)
        ensures
            a@ == Model::empty(),
    {
        Analyzer {
            graph: graph_new(),
            builtins: Table::new(),
            dyn_builtins: Table::new(),
            user_types: Table::new(),
        }
    }
}

} // verus!
