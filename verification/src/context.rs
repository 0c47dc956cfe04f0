//! Execution contexts and the versions of variables in them.
//!
//! A context is one straight-line slice of a function body. Contexts form a tree that
//! forks where control flow splits. A variable is found in a context by the latest
//! version that the context itself holds, else by what its parent finds.

use crate::analyzer::{grows, Analyzer, GraphLike, Model};
use crate::ast::Loc;
use crate::range::{Domain, Range, Relation};
use crate::types::{
    copy_range, Branch, Condition, Context, ContextEdge, ContextVar, Edge, Node, Origin, Value,
};
use vstd::prelude::*;

verus! {

/// The context at a handle, where the handle has one.
pub open spec fn context_at(nodes: Seq<Node>, idx: usize) -> Option<Context> {
    if idx < nodes.len() {
        match nodes[idx as int] {
            Node::Context(c) => Some(c),
            _ => None,
        }
    } else {
        None
    }
}

/// The variable version at a handle, where the handle has one.
pub open spec fn var_at(nodes: Seq<Node>, idx: usize) -> Option<ContextVar> {
    if idx < nodes.len() {
        match nodes[idx as int] {
            Node::ContextVar(v) => Some(v),
            _ => None,
        }
    } else {
        None
    }
}

/// Whether the handle has a context.
pub open spec fn is_context(nodes: Seq<Node>, idx: usize) -> bool {
    context_at(nodes, idx).is_some()
}

/// Whether the node is a version of the named variable of the source in the context.
pub open spec fn binds(node: Node, ctx: usize, name: Seq<char>) -> bool {
    match node {
        Node::ContextVar(v) => v.ctx == ctx && v.tmp_of.is_none() && match v.name {
            Some(n) => n@ == name,
            None => false,
        },
        _ => false,
    }
}

/// The latest version of the named variable that the context itself holds among the
/// first `upto` nodes.
pub open spec fn latest_in(nodes: Seq<Node>, ctx: usize, name: Seq<char>, upto: nat) -> Option<
    usize,
>
    decreases upto,
{
    if upto == 0 || upto > nodes.len() {
        None
    } else if binds(nodes[upto - 1], ctx, name) {
        Some((upto - 1) as usize)
    } else {
        latest_in(nodes, ctx, name, (upto - 1) as nat)
    }
}

/// The context that a context was forked from, where that came earlier in the graph.
pub open spec fn parent_of(nodes: Seq<Node>, ctx: usize) -> Option<usize> {
    match context_at(nodes, ctx) {
        Some(c) => match c.parent {
            Some(p) => if p < ctx {
                Some(p)
            } else {
                None
            },
            None => None,
        },
        None => None,
    }
}

/// The version of the named variable that is live in a context: the latest that the
/// context itself holds, else the one that is live in its parent.
pub open spec fn resolve(nodes: Seq<Node>, ctx: usize, name: Seq<char>) -> Option<usize>
    decreases ctx,
{
    match latest_in(nodes, ctx, name, nodes.len()) {
        Some(v) => Some(v),
        None => match parent_of(nodes, ctx) {
            Some(p) => resolve(nodes, p, name),
            None => None,
        },
    }
}

/// Whether `above` is the context itself or one that it descends from.
pub open spec fn descends(nodes: Seq<Node>, ctx: usize, above: usize) -> bool
    decreases ctx,
{
    ctx == above || match parent_of(nodes, ctx) {
        Some(p) => descends(nodes, p, above),
        None => false,
    }
}

/// The range of the version of a variable that is live in a context.
pub open spec fn live_range(nodes: Seq<Node>, ctx: usize, name: Seq<char>) -> Option<Range> {
    match resolve(nodes, ctx, name) {
        Some(v) => match var_at(nodes, v) {
            Some(var) => var.range,
            None => None,
        },
        None => None,
    }
}

/// Whether every version of a variable stands behind the context it belongs to.
pub open spec fn versions_placed(nodes: Seq<Node>) -> bool {
    forall|i: int|
        0 <= i < nodes.len() ==> match #[trigger] nodes[i] {
            Node::ContextVar(v) => v.ctx < i,
            _ => true,
        }
}

/// Whether every node of `a` is a node of `b` under the same handle.
pub open spec fn extends(a: Seq<Node>, b: Seq<Node>) -> bool {
    a.len() <= b.len() && forall|i: int| 0 <= i < a.len() ==> b[i] == a[i]
}

/// The state after a version of a variable was added: its node, the edge to its context,
/// and the edge to the version it replaces, where there is one in the graph.
pub open spec fn bind(m: Model, var: ContextVar) -> Model {
    let h = m.next();
    let m1 = m.add_node(Node::ContextVar(var)).add_edge(
        h,
        var.ctx,
        Edge::Context(ContextEdge::Variable),
    );
    match var.prev {
        Some(p) => if p < m.nodes.len() {
            m1.add_edge(h, p, Edge::Context(ContextEdge::Prev))
        } else {
            m1
        },
        None => m1,
    }
}

/// The range that covers two ranges, where both are known.
pub open spec fn union_of(a: Option<Range>, b: Option<Range>) -> Option<Range> {
    match (a, b) {
        (Some(x), Some(y)) => Some(Range::Union(Box::new(x), Box::new(y))),
        _ => None,
    }
}

/// The state after one side of a condition was applied in a context: where that side is
/// a variable of known range and the range of the other side is known, the variable gets
/// a new version whose range is the old one restricted by the relation to the other.
pub open spec fn narrow_side(
    m: Model,
    ctx: usize,
    target: Value,
    relation: Relation,
    other: Value,
    loc: Loc,
    origin: Origin,
) -> Model {
    match (target.name, target.range, other.range) {
        (Some(name), Some(tr), Some(or)) => bind(
            m,
            ContextVar {
                loc,
                name: Some(name),
                ctx,
                tmp_of: None,
                prev: resolve(m.nodes, ctx, name@),
                domain: target.domain,
                range: Some(Range::Narrow(Box::new(tr), relation, Box::new(or))),
                origin,
            },
        ),
        _ => m,
    }
}

/// The state after a condition was applied in a context: first to its left side, then,
/// with the relation mirrored, to its right side.
pub open spec fn narrow(m: Model, ctx: usize, condition: Option<Condition>, origin: Origin)
    -> Model {
    match condition {
        Some(c) => {
            let m1 = narrow_side(m, ctx, c.left, c.relation, c.right, c.loc, origin);
            narrow_side(m1, ctx, c.right, c.relation.mirror(), c.left, c.loc, origin)
        },
        None => m,
    }
}

/// Whether the node, standing under the handle `i`, is well placed as an arm of a fork.
/// A context under a fork marker stands behind the marker. The arm on which the condition
/// holds stands right behind the marker. The arm on which it does not hold stands behind
/// that arm and carries the negation of its condition.
pub open spec fn arm_formed(nodes: Seq<Node>, i: int, node: Node) -> bool {
    match node {
        Node::Context(c) => match c.fork {
            Some(k) => k < i && match c.branch {
                Branch::True => i == k + 1,
                Branch::False => k + 1 < i && match nodes[k + 1] {
                    Node::Context(t) => t.branch == Branch::True && t.fork == Some(k)
                        && c.condition == negate(t.condition),
                    _ => false,
                },
                _ => true,
            },
            None => true,
        },
        _ => true,
    }
}

/// Whether every arm of a fork that stands under a handle from `from` on is well placed.
pub open spec fn arms_formed_from(nodes: Seq<Node>, from: nat) -> bool {
    forall|i: int| from <= i < nodes.len() ==> arm_formed(nodes, i, #[trigger] nodes[i])
}

/// Whether every arm of every fork is well placed.
pub open spec fn forks_formed(nodes: Seq<Node>) -> bool {
    arms_formed_from(nodes, 0)
}

/// Whether no context and no version came to stand under a handle of `a` that had none:
/// what is a context or a version in `b` under a handle of `a` is the same node in `a`.
pub open spec fn contexts_kept(a: Seq<Node>, b: Seq<Node>) -> bool {
    forall|i: int|
        0 <= i < a.len() && i < b.len() && ((#[trigger] b[i]) is Context || b[i] is ContextVar)
            ==> b[i] == a[i]
}

/// Whether the contexts and versions of the graph are well placed: every version stands
/// behind its context, and every arm of every fork is well placed.
pub open spec fn tree_formed(nodes: Seq<Node>) -> bool {
    versions_placed(nodes) && forks_formed(nodes)
}

/// Whether one side of a condition is the named variable.
pub open spec fn names_side(condition: Option<Condition>, name: Seq<char>) -> bool {
    match condition {
        Some(c) => (match c.left.name {
            Some(n) => n@ == name,
            None => false,
        }) || (match c.right.name {
            Some(n) => n@ == name,
            None => false,
        }),
        None => false,
    }
}

/// The function of a context; 0 where the handle has no context.
pub open spec fn function_of(nodes: Seq<Node>, ctx: usize) -> usize {
    match context_at(nodes, ctx) {
        Some(c) => c.function,
        None => 0,
    }
}

/// The state after a context was hung under another: its node and the edge to its parent.
pub open spec fn add_child(
    m: Model,
    parent: usize,
    fork: Option<usize>,
    branch: Branch,
    condition: Option<Condition>,
) -> Model {
    m.add_node(
        Node::Context(
            Context {
                function: function_of(m.nodes, parent),
                parent: Some(parent),
                fork,
                branch,
                condition,
            },
        ),
    ).add_edge(m.next(), parent, Edge::Context(ContextEdge::Subcontext))
}

/// The negation of a condition, where there is one.
pub open spec fn negate(condition: Option<Condition>) -> Option<Condition> {
    match condition {
        Some(c) => Some(c.negation()),
        None => None,
    }
}

/// What a fork on a condition makes of a state: a fork marker under the context; a child
/// on which the condition holds, with the condition applied; a child on which the
/// negation holds, with the negation applied. The handles are those of the two children.
pub open spec fn fork(m: Model, ctx: usize, condition: Option<Condition>) -> (
    Model,
    usize,
    usize,
) {
    let marker = m.next();
    let m1 = m.add_node(Node::ContextFork).add_edge(
        marker,
        ctx,
        Edge::Context(ContextEdge::Fork),
    );
    let on_true = m1.next();
    let m2 = narrow(
        add_child(m1, ctx, Some(marker), Branch::True, condition),
        on_true,
        condition,
        Origin::Branch,
    );
    let on_false = m2.next();
    let m3 = narrow(
        add_child(m2, ctx, Some(marker), Branch::False, negate(condition)),
        on_false,
        negate(condition),
        Origin::Branch,
    );
    (m3, on_true, on_false)
}

/// What entering a loop makes of a state: a fork marker under the context and one child
/// for the body. The handle is that of the child.
pub open spec fn fork_loop(m: Model, ctx: usize) -> (Model, usize) {
    let marker = m.next();
    let m1 = m.add_node(Node::ContextFork).add_edge(
        marker,
        ctx,
        Edge::Context(ContextEdge::Fork),
    );
    (add_child(m1, ctx, Some(marker), Branch::Loop, None), m1.next())
}

/// The numbers of the type at a handle, where that is a primitive type that has numbers.
pub open spec fn type_numbers(nodes: Seq<Node>, ty: usize) -> Option<Domain> {
    if ty < nodes.len() {
        match nodes[ty as int] {
            Node::Builtin(b) => b.numbers(),
            _ => None,
        }
    } else {
        None
    }
}

/// Every number of a type, where the type is known.
pub open spec fn top_of(domain: Option<Domain>) -> Option<Range> {
    match domain {
        Some(d) => Some(Range::Top(d)),
        None => None,
    }
}

/// Whether the node is the named parameter of the function.
pub open spec fn is_param(node: Node, function: usize, name: Seq<char>) -> bool {
    match node {
        Node::FunctionParam(p) => p.function == function && match p.name {
            Some(id) => id.name@ == name,
            None => false,
        },
        _ => false,
    }
}

/// The latest node among the first `upto` that is the named parameter of the function.
pub open spec fn param_in(nodes: Seq<Node>, function: usize, name: Seq<char>, upto: nat)
    -> Option<usize>
    decreases upto,
{
    if upto == 0 || upto > nodes.len() {
        None
    } else if is_param(nodes[upto - 1], function, name) {
        Some((upto - 1) as usize)
    } else {
        param_in(nodes, function, name, (upto - 1) as nat)
    }
}

/// The node of the type that a name is declared with, as a context sees it: that of the
/// parameter of the context's function, else that of the declared variable of that name.
pub open spec fn declared_type(m: Model, ctx: usize, name: Seq<char>) -> Option<usize> {
    let param = match context_at(m.nodes, ctx) {
        Some(c) => param_in(m.nodes, c.function, name, m.nodes.len()),
        None => None,
    };
    match param {
        Some(p) => match m.nodes[p as int] {
            Node::FunctionParam(fp) => Some(fp.ty),
            _ => None,
        },
        None => if m.user_types.contains_key(name) && m.user_types[name] < m.nodes.len() {
            match m.nodes[m.user_types[name] as int] {
                Node::Var(var) => Some(var.ty),
                _ => None,
            }
        } else {
            None
        },
    }
}

/// The value of a name in a context: that of the version that is live there; else, for a
/// parameter or a declared variable that nothing has assigned or narrowed yet, every
/// number of its type; else unknown.
pub open spec fn read_var(m: Model, ctx: usize, name: String) -> Value {
    match resolve(m.nodes, ctx, name@) {
        Some(v) => match var_at(m.nodes, v) {
            Some(var) => Value { name: Some(name), domain: var.domain, range: var.range },
            None => Value { name: Some(name), domain: None, range: None },
        },
        None => match declared_type(m, ctx, name@) {
            Some(ty) => Value {
                name: Some(name),
                domain: type_numbers(m.nodes, ty),
                range: top_of(type_numbers(m.nodes, ty)),
            },
            None => Value { name: Some(name), domain: None, range: None },
        },
    }
}

/// Where the first of two versions that exists came about.
pub open spec fn version_loc(nodes: Seq<Node>, va: Option<usize>, vb: Option<usize>) -> Loc {
    match va {
        Some(v) => match var_at(nodes, v) {
            Some(var) => var.loc,
            None => Loc::Implicit,
        },
        None => match vb {
            Some(v) => match var_at(nodes, v) {
                Some(var) => var.loc,
                None => Loc::Implicit,
            },
            None => Loc::Implicit,
        },
    }
}

/// The state after one variable was merged into a joining context `join` from the two
/// contexts `a` and `b`. Where the joining context has no version of it yet, the two find
/// different versions, and each finds one or sees the declaration of the name, the
/// joining context gets a version whose range covers what the two read.
pub open spec fn merge_name(m: Model, join: usize, a: usize, b: usize, name: String) -> Model {
    let va = resolve(m.nodes, a, name@);
    let vb = resolve(m.nodes, b, name@);
    if latest_in(m.nodes, join, name@, m.nodes.len()).is_some() || va == vb {
        m
    } else if (va.is_none() && declared_type(m, a, name@).is_none()) || (vb.is_none()
        && declared_type(m, b, name@).is_none()) {
        m
    } else {
        let x = read_var(m, a, name);
        let y = read_var(m, b, name);
        bind(
            m,
            ContextVar {
                loc: version_loc(m.nodes, va, vb),
                name: Some(name),
                ctx: join,
                tmp_of: None,
                prev: match parent_of(m.nodes, join) {
                    Some(p) => resolve(m.nodes, p, name@),
                    None => None,
                },
                domain: match x.domain {
                    Some(d) => Some(d),
                    None => y.domain,
                },
                range: union_of(x.range, y.range),
                origin: Origin::Merged,
            },
        )
    }
}

/// The state after the variables with a version at a handle from `from` up to, not
/// including, `upto` were merged into a joining context, in the order of the handles.
pub open spec fn merge_scan(m: Model, join: usize, a: usize, b: usize, from: usize, upto: usize)
    -> Model
    decreases upto - from,
{
    if from >= upto || from >= m.nodes.len() {
        m
    } else {
        let m1 = match m.nodes[from as int] {
            Node::ContextVar(v) => match v.name {
                Some(name) => if v.tmp_of.is_none() {
                    merge_name(m, join, a, b, name)
                } else {
                    m
                },
                None => m,
            },
            _ => m,
        };
        merge_scan(m1, join, a, b, (from + 1) as usize, upto)
    }
}

/// What joining two contexts under their common ancestor `parent` makes of a state: a new
/// context under `parent`, into which every variable with a version younger than `parent`
/// is merged. The handle is that of the new context.
pub open spec fn join(m: Model, parent: usize, a: usize, b: usize) -> (Model, usize) {
    let j = m.next();
    let m1 = add_child(m, parent, None, Branch::Join, None);
    (merge_scan(m1, j, a, b, parent, j), j)
}

/// Every number of a type, where the type is known.
pub fn top_range(domain: Option<Domain>) -> (r: Option<Range>)
    ensures
        r == top_of(domain),
{
    match domain {
        Some(d) => Some(Range::Top(d)),
        None => None,
    }
}

impl Analyzer {
    /// The latest version of the named variable that the context itself holds.
    pub fn latest_version(&self, ctx: usize, name: &String) -> (r: Option<usize>)
        ensures
            r == latest_in(self@.nodes, ctx, name@, self@.nodes.len()),
            r.is_some() ==> var_at(self@.nodes, r.unwrap()).is_some(),
    {
        let mut i: usize = self.node_count();
        while i > 0
            invariant
                i <= self@.nodes.len(),
                latest_in(self@.nodes, ctx, name@, self@.nodes.len()) == latest_in(
                    self@.nodes,
                    ctx,
                    name@,
                    i as nat,
                ),
            decreases i,
        {
            match self.node(i - 1) {
                Node::ContextVar(v) => {
                    let found = match &v.name {
                        Some(n) => v.ctx == ctx && v.tmp_of.is_none() && *n == *name,
                        None => false,
                    };
                    if found {
                        return Some(i - 1);
                    }
                },
                _ => {},
            }
            i = i - 1;
        }
        None
    }

    /// The context that a context was forked from, where that came earlier in the graph.
    pub fn parent(&self, ctx: usize) -> (r: Option<usize>)
        ensures
            r == parent_of(self@.nodes, ctx),
            r.is_some() ==> r.unwrap() < ctx,
    {
        match self.try_node(ctx) {
            Some(Node::Context(c)) => match c.parent {
                Some(p) => if p < ctx {
                    Some(p)
                } else {
                    None
                },
                None => None,
            },
            _ => None,
        }
    }

    /// The version of the named variable that is live in a context.
    pub fn resolve(&self, ctx: usize, name: &String) -> (r: Option<usize>)
        ensures
            r == resolve(self@.nodes, ctx, name@),
            r.is_some() ==> var_at(self@.nodes, r.unwrap()).is_some(),
    {
        let mut current: usize = ctx;
        loop
            invariant
                resolve(self@.nodes, ctx, name@) == resolve(self@.nodes, current, name@),
            decreases current,
        {
            match self.latest_version(current, name) {
                Some(v) => {
                    return Some(v);
                },
                None => {},
            }
            match self.parent(current) {
                Some(p) => {
                    current = p;
                },
                None => {
                    return None;
                },
            }
        }
    }

    /// Whether `above` is the context itself or one that it descends from.
    pub fn descends_from(&self, ctx: usize, above: usize) -> (r: bool)
        ensures
            r == descends(self@.nodes, ctx, above),
    {
        let mut current: usize = ctx;
        loop
            invariant
                descends(self@.nodes, ctx, above) == descends(self@.nodes, current, above),
            decreases current,
        {
            if current == above {
                return true;
            }
            match self.parent(current) {
                Some(p) => {
                    current = p;
                },
                None => {
                    return false;
                },
            }
        }
    }

    /// Adds a version of a variable: see `bind`.
    pub fn bind(&mut self, var: ContextVar) -> (idx: usize)
        requires
            var.ctx < old(self)@.nodes.len(),
        ensures
            tree_formed(old(self)@.nodes) ==> tree_formed(final(self)@.nodes),
            grows(old(self)@, final(self)@),
            arms_formed_from(final(self)@.nodes, old(self)@.nodes.len() as nat),
            final(self)@ == bind(old(self)@, var),
            idx == old(self)@.nodes.len(),
            final(self)@.nodes == old(self)@.nodes.push(Node::ContextVar(var)),
    {
        let ctx = var.ctx;
        let prev = var.prev;
        let count = self.node_count();
        let idx = self.add_node(Node::ContextVar(var));
        self.add_edge(idx, ctx, Edge::Context(ContextEdge::Variable));
        match prev {
            Some(p) => {
                if p < count {
                    self.add_edge(idx, p, Edge::Context(ContextEdge::Prev));
                }
            },
            None => {},
        }
        idx
    }

    /// Applies one side of a condition in a context: see `narrow_side`.
    fn narrow_side(
        &mut self,
        ctx: usize,
        target: &Value,
        relation: Relation,
        other: &Value,
        loc: Loc,
        origin: Origin,
    )
        requires
            ctx < old(self)@.nodes.len(),
        ensures
            tree_formed(old(self)@.nodes) ==> tree_formed(final(self)@.nodes),
            grows(old(self)@, final(self)@),
            arms_formed_from(final(self)@.nodes, old(self)@.nodes.len() as nat),
            final(self)@ == narrow_side(old(self)@, ctx, *target, relation, *other, loc, origin),
            extends(old(self)@.nodes, final(self)@.nodes),
    {
        match (&target.name, &target.range, &other.range) {
            (Some(name), Some(tr), Some(or)) => {
                let prev = self.resolve(ctx, name);
                self.bind(
                    ContextVar {
                        loc,
                        name: Some(name.clone()),
                        ctx,
                        tmp_of: None,
                        prev,
                        domain: target.domain,
                        range: Some(
                            Range::Narrow(Box::new(tr.copy()), relation, Box::new(or.copy())),
                        ),
                        origin,
                    },
                );
            },
            _ => {},
        }
    }

    /// Applies a condition in a context: see `narrow`.
    pub fn narrow(&mut self, ctx: usize, condition: &Option<Condition>, origin: Origin)
        requires
            ctx < old(self)@.nodes.len(),
        ensures
            tree_formed(old(self)@.nodes) ==> tree_formed(final(self)@.nodes),
            grows(old(self)@, final(self)@),
            arms_formed_from(final(self)@.nodes, old(self)@.nodes.len() as nat),
            final(self)@ == narrow(old(self)@, ctx, *condition, origin),
            extends(old(self)@.nodes, final(self)@.nodes),
    {
        match condition {
            Some(c) => {
                self.narrow_side(ctx, &c.left, c.relation, &c.right, c.loc, origin);
                self.narrow_side(ctx, &c.right, c.relation.flipped(), &c.left, c.loc, origin);
            },
            None => {},
        }
    }

    /// The function of a context; 0 where the handle has no context.
    pub fn function_of(&self, ctx: usize) -> (r: usize)
        ensures
            r == function_of(self@.nodes, ctx),
    {
        match self.try_node(ctx) {
            Some(Node::Context(c)) => c.function,
            _ => 0,
        }
    }

    /// Hangs a new context under another: see `add_child`.
    fn add_child(
        &mut self,
        parent: usize,
        fork: Option<usize>,
        branch: Branch,
        condition: Option<Condition>,
    ) -> (idx: usize)
        requires
            parent < old(self)@.nodes.len(),
        ensures
            tree_formed(old(self)@.nodes) && arm_formed(
                final(self)@.nodes,
                old(self)@.nodes.len() as int,
                final(self)@.nodes[old(self)@.nodes.len() as int],
            ) ==> tree_formed(final(self)@.nodes),
            grows(old(self)@, final(self)@),
            arm_formed(
                final(self)@.nodes,
                old(self)@.nodes.len() as int,
                final(self)@.nodes[old(self)@.nodes.len() as int],
            ) ==> arms_formed_from(final(self)@.nodes, old(self)@.nodes.len() as nat),
            final(self)@ == add_child(old(self)@, parent, fork, branch, condition),
            idx == old(self)@.nodes.len(),
            is_context(final(self)@.nodes, idx),
            parent_of(final(self)@.nodes, idx) == Some(parent),
            extends(old(self)@.nodes, final(self)@.nodes),
    {
        let function = self.function_of(parent);
        let idx = self.add_node(
            Node::Context(Context { function, parent: Some(parent), fork, branch, condition }),
        );
        self.add_edge(idx, parent, Edge::Context(ContextEdge::Subcontext));
        idx
    }

    /// Forks a context on a condition: see `fork`. The result holds the handles of the
    /// child on which the condition holds and of the child on which it does not.
    pub fn fork(&mut self, ctx: usize, condition: &Option<Condition>) -> (r: (usize, usize))
        requires
            ctx < old(self)@.nodes.len(),
        ensures
            tree_formed(old(self)@.nodes) ==> tree_formed(final(self)@.nodes),
            grows(old(self)@, final(self)@),
            arms_formed_from(final(self)@.nodes, old(self)@.nodes.len() as nat),
            (final(self)@, r.0, r.1) == fork(old(self)@, ctx, *condition),
            extends(old(self)@.nodes, final(self)@.nodes),
            is_context(final(self)@.nodes, r.0),
            is_context(final(self)@.nodes, r.1),
            parent_of(final(self)@.nodes, r.0) == Some(ctx),
            parent_of(final(self)@.nodes, r.1) == Some(ctx),
            context_at(final(self)@.nodes, r.0).unwrap().condition == *condition,
            context_at(final(self)@.nodes, r.1).unwrap().condition == negate(*condition),
    {
        let marker = self.add_node(Node::ContextFork);
        self.add_edge(marker, ctx, Edge::Context(ContextEdge::Fork));
        let on_true = self.add_child(
            ctx,
            Some(marker),
            Branch::True,
            match condition {
                Some(c) => Some(c.copy()),
                None => None,
            },
        );
        self.narrow(on_true, condition, Origin::Branch);
        let negated = match condition {
            Some(c) => Some(c.negated()),
            None => None,
        };
        let on_false = self.add_child(
            ctx,
            Some(marker),
            Branch::False,
            match &negated {
                Some(c) => Some(c.copy()),
                None => None,
            },
        );
        self.narrow(on_false, &negated, Origin::Branch);
        (on_true, on_false)
    }

    /// Enters a loop: see `fork_loop`.
    pub fn fork_loop(&mut self, ctx: usize) -> (body: usize)
        requires
            ctx < old(self)@.nodes.len(),
        ensures
            tree_formed(old(self)@.nodes) ==> tree_formed(final(self)@.nodes),
            grows(old(self)@, final(self)@),
            arms_formed_from(final(self)@.nodes, old(self)@.nodes.len() as nat),
            (final(self)@, body) == fork_loop(old(self)@, ctx),
            extends(old(self)@.nodes, final(self)@.nodes),
            is_context(final(self)@.nodes, body),
            parent_of(final(self)@.nodes, body) == Some(ctx),
    {
        let marker = self.add_node(Node::ContextFork);
        self.add_edge(marker, ctx, Edge::Context(ContextEdge::Fork));
        self.add_child(ctx, Some(marker), Branch::Loop, None)
    }

    /// The numbers of the type at a handle, where that is a primitive type that has
    /// numbers.
    pub fn type_domain(&self, ty: usize) -> (d: Option<Domain>)
        ensures
            d == type_numbers(self@.nodes, ty),
    {
        match self.try_node(ty) {
            Some(Node::Builtin(b)) => b.domain(),
            _ => None,
        }
    }

    /// The latest node that is the named parameter of the function.
    pub fn param_of(&self, function: usize, name: &String) -> (r: Option<usize>)
        ensures
            r == param_in(self@.nodes, function, name@, self@.nodes.len()),
            r.is_some() ==> r.unwrap() < self@.nodes.len(),
    {
        let mut i: usize = self.node_count();
        while i > 0
            invariant
                i <= self@.nodes.len(),
                param_in(self@.nodes, function, name@, self@.nodes.len()) == param_in(
                    self@.nodes,
                    function,
                    name@,
                    i as nat,
                ),
            decreases i,
        {
            match self.node(i - 1) {
                Node::FunctionParam(p) => {
                    let found = match &p.name {
                        Some(id) => p.function == function && id.name == *name,
                        None => false,
                    };
                    if found {
                        return Some(i - 1);
                    }
                },
                _ => {},
            }
            i = i - 1;
        }
        None
    }

    /// The node of the type that a name is declared with, as a context sees it.
    pub fn declared_type(&self, ctx: usize, name: &String) -> (r: Option<usize>)
        ensures
            r == declared_type(self@, ctx, name@),
    {
        let param = match self.try_node(ctx) {
            Some(Node::Context(c)) => self.param_of(c.function, name),
            _ => None,
        };
        match param {
            Some(p) => match self.node(p) {
                Node::FunctionParam(fp) => Some(fp.ty),
                _ => None,
            },
            None => match self.user_types.get(name) {
                Some(h) => match self.try_node(h) {
                    Some(Node::Var(var)) => Some(var.ty),
                    _ => None,
                },
                None => None,
            },
        }
    }

    /// The value of a name in a context: see `read_var`.
    pub fn read_var(&self, ctx: usize, name: &String) -> (v: Value)
        ensures
            v == read_var(self@, ctx, *name),
    {
        match self.resolve(ctx, name) {
            Some(h) => match self.node(h) {
                Node::ContextVar(var) => Value {
                    name: Some(name.clone()),
                    domain: var.domain,
                    range: copy_range(&var.range),
                },
                _ => Value { name: Some(name.clone()), domain: None, range: None },
            },
            None => match self.declared_type(ctx, name) {
                Some(ty) => {
                    let domain = self.type_domain(ty);
                    Value { name: Some(name.clone()), domain, range: top_range(domain) }
                },
                None => Value { name: Some(name.clone()), domain: None, range: None },
            },
        }
    }

    /// Where the first of two versions that exists came about.
    fn version_loc(&self, va: Option<usize>, vb: Option<usize>) -> (loc: Loc)
        ensures
            loc == version_loc(self@.nodes, va, vb),
    {
        let first = match va {
            Some(v) => Some(v),
            None => vb,
        };
        match first {
            Some(v) => match self.try_node(v) {
                Some(Node::ContextVar(var)) => var.loc,
                _ => Loc::Implicit,
            },
            None => Loc::Implicit,
        }
    }

    /// Merges one variable into a joining context: see `merge_name`.
    fn merge_name(&mut self, join: usize, a: usize, b: usize, name: &String)
        requires
            join < old(self)@.nodes.len(),
        ensures
            tree_formed(old(self)@.nodes) ==> tree_formed(final(self)@.nodes),
            grows(old(self)@, final(self)@),
            arms_formed_from(final(self)@.nodes, old(self)@.nodes.len() as nat),
            final(self)@ == merge_name(old(self)@, join, a, b, *name),
            extends(old(self)@.nodes, final(self)@.nodes),
    {
        if self.latest_version(join, name).is_some() {
            return ;
        }
        let va = self.resolve(a, name);
        let vb = self.resolve(b, name);
        let same = match (va, vb) {
            (Some(x), Some(y)) => x == y,
            (None, None) => true,
            _ => false,
        };
        if same {
            return ;
        }
        if va.is_none() && self.declared_type(a, name).is_none() {
            return ;
        }
        if vb.is_none() && self.declared_type(b, name).is_none() {
            return ;
        }
        let x = self.read_var(a, name);
        let y = self.read_var(b, name);
        let prev = match self.parent(join) {
            Some(p) => self.resolve(p, name),
            None => None,
        };
        let range = match (x.range, y.range) {
            (Some(rx), Some(ry)) => Some(Range::Union(Box::new(rx), Box::new(ry))),
            _ => None,
        };
        let loc = self.version_loc(va, vb);
        self.bind(
            ContextVar {
                loc,
                name: Some(name.clone()),
                ctx: join,
                tmp_of: None,
                prev,
                domain: match x.domain {
                    Some(d) => Some(d),
                    None => y.domain,
                },
                range,
                origin: Origin::Merged,
            },
        );
    }

    /// Joins two contexts under their common ancestor: see `join`.
    pub fn join(&mut self, parent: usize, a: usize, b: usize) -> (idx: usize)
        requires
            parent < old(self)@.nodes.len(),
        ensures
            tree_formed(old(self)@.nodes) ==> tree_formed(final(self)@.nodes),
            grows(old(self)@, final(self)@),
            arms_formed_from(final(self)@.nodes, old(self)@.nodes.len() as nat),
            (final(self)@, idx) == join(old(self)@, parent, a, b),
            extends(old(self)@.nodes, final(self)@.nodes),
            is_context(final(self)@.nodes, idx),
            parent_of(final(self)@.nodes, idx) == Some(parent),
    {
        let j = self.add_child(parent, None, Branch::Join, None);
        let ghost start = self@;
        let ghost before = old(self)@.nodes;
        let mut i: usize = parent;
        while i < j
            invariant
                parent <= i <= j,
                j < self@.nodes.len(),
                extends(before, self@.nodes),
                extends(start.nodes, self@.nodes),
                grows(old(self)@, self@),
                arms_formed_from(self@.nodes, old(self)@.nodes.len() as nat),
                tree_formed(before) ==> tree_formed(self@.nodes),
                start.nodes.len() == j + 1,
                merge_scan(start, j, a, b, parent, j) == merge_scan(self@, j, a, b, i, j),
            decreases j - i,
        {
            let name = match self.node(i) {
                Node::ContextVar(v) => match &v.name {
                    Some(n) => if v.tmp_of.is_none() {
                        Some(n.clone())
                    } else {
                        None
                    },
                    None => None,
                },
                _ => None,
            };
            match name {
                Some(n) => {
                    self.merge_name(j, a, b, &n);
                },
                None => {},
            }
            i = i + 1;
        }
        j
    }
}

/// A variable that a context holds no version of is, in that context, what it is in the
/// parent: the same version with the same range.
pub proof fn lemma_inherited(nodes: Seq<Node>, ctx: usize, parent: usize, name: Seq<char>)
    requires
        parent_of(nodes, ctx) == Some(parent),
        latest_in(nodes, ctx, name, nodes.len()).is_none(),
    ensures
        resolve(nodes, ctx, name) == resolve(nodes, parent, name),
        live_range(nodes, ctx, name) == live_range(nodes, parent, name),
{
}

/// What a context itself holds among the first nodes does not depend on later nodes.
pub proof fn lemma_latest_in_prefix(
    a: Seq<Node>,
    b: Seq<Node>,
    ctx: usize,
    name: Seq<char>,
    upto: nat,
)
    requires
        extends(a, b),
        upto <= a.len(),
    ensures
        latest_in(b, ctx, name, upto) == latest_in(a, ctx, name, upto),
    decreases upto,
{
    if upto > 0 {
        lemma_latest_in_prefix(a, b, ctx, name, (upto - 1) as nat);
    }
}

/// Of the two children of a fork, one carries the condition and the other its negation,
/// and any two numbers satisfy the relation of exactly one of them.
pub proof fn lemma_fork_excludes(m: Model, ctx: usize, condition: Condition, x: int, y: int)
    requires
        ctx < m.nodes.len(),
        m.nodes.len() + 8 <= usize::MAX,
    ensures
        ({
            let (after, on_true, on_false) = fork(m, ctx, Some(condition));
            &&& on_true != on_false
            &&& parent_of(after.nodes, on_true) == Some(ctx)
            &&& parent_of(after.nodes, on_false) == Some(ctx)
            &&& context_at(after.nodes, on_true).unwrap().condition == Some(condition)
            &&& context_at(after.nodes, on_false).unwrap().condition == Some(
                condition.negation(),
            )
            &&& condition.negation().relation.holds(x, y) == !condition.relation.holds(x, y)
        }),
{
    let marker = m.next();
    let m1 = m.add_node(Node::ContextFork).add_edge(
        marker,
        ctx,
        Edge::Context(ContextEdge::Fork),
    );
    let on_true = m1.next();
    let c1 = add_child(m1, ctx, Some(marker), Branch::True, Some(condition));
    let m2 = narrow(c1, on_true, Some(condition), Origin::Branch);
    lemma_narrow_extends(c1, on_true, Some(condition), Origin::Branch);
    let on_false = m2.next();
    let c2 = add_child(m2, ctx, Some(marker), Branch::False, Some(condition.negation()));
    let m3 = narrow(c2, on_false, Some(condition.negation()), Origin::Branch);
    lemma_narrow_extends(c2, on_false, Some(condition.negation()), Origin::Branch);
    assert(c1.nodes[on_true as int] == m3.nodes[on_true as int]);
    assert(c2.nodes[on_false as int] == m3.nodes[on_false as int]);
}

/// Applying a condition adds at most two nodes and changes none.
pub proof fn lemma_narrow_extends(
    m: Model,
    ctx: usize,
    condition: Option<Condition>,
    origin: Origin,
)
    ensures
        extends(m.nodes, narrow(m, ctx, condition, origin).nodes),
        narrow(m, ctx, condition, origin).nodes.len() <= m.nodes.len() + 2,
{
}

/// Nodes that are no versions of a variable change, once added, nothing about what a
/// context itself holds of that variable.
pub proof fn lemma_latest_in_extends(
    a: Seq<Node>,
    b: Seq<Node>,
    ctx: usize,
    name: Seq<char>,
    upto: nat,
)
    requires
        extends(a, b),
        a.len() <= upto <= b.len(),
        forall|i: int| a.len() <= i < b.len() ==> !binds(#[trigger] b[i], ctx, name),
    ensures
        latest_in(b, ctx, name, upto) == latest_in(a, ctx, name, a.len()),
    decreases upto,
{
    if upto == a.len() {
        lemma_latest_in_prefix(a, b, ctx, name, upto);
    } else {
        assert(!binds(b[upto - 1], ctx, name));
        lemma_latest_in_extends(a, b, ctx, name, (upto - 1) as nat);
    }
}

/// Nodes that are no versions of a variable change, once added, nothing about the
/// version of that variable that is live in a context of the graph.
pub proof fn lemma_resolve_extends(a: Seq<Node>, b: Seq<Node>, ctx: usize, name: Seq<char>)
    requires
        extends(a, b),
        ctx < a.len(),
        forall|i: int, c: usize| a.len() <= i < b.len() ==> !#[trigger] binds(b[i], c, name),
    ensures
        resolve(b, ctx, name) == resolve(a, ctx, name),
        live_range(b, ctx, name) == live_range(a, ctx, name),
    decreases ctx,
{
    lemma_latest_in_extends(a, b, ctx, name, b.len());
    assert(parent_of(b, ctx) == parent_of(a, ctx));
    match parent_of(a, ctx) {
        Some(p) => {
            lemma_resolve_extends(a, b, p, name);
        },
        None => {},
    }
    lemma_latest_in_bound(a, ctx, name, a.len());
    lemma_resolve_bound(a, ctx, name);
}

/// What a context itself holds is a handle below the bound of the search.
pub proof fn lemma_latest_in_bound(nodes: Seq<Node>, ctx: usize, name: Seq<char>, upto: nat)
    ensures
        latest_in(nodes, ctx, name, upto).is_some() ==> latest_in(nodes, ctx, name, upto).unwrap()
            < nodes.len(),
    decreases upto,
{
    if upto > 0 {
        lemma_latest_in_bound(nodes, ctx, name, (upto - 1) as nat);
    }
}

/// The live version of a variable is a node of the graph.
pub proof fn lemma_resolve_bound(nodes: Seq<Node>, ctx: usize, name: Seq<char>)
    ensures
        resolve(nodes, ctx, name).is_some() ==> resolve(nodes, ctx, name).unwrap() < nodes.len(),
    decreases ctx,
{
    lemma_latest_in_bound(nodes, ctx, name, nodes.len());
    match parent_of(nodes, ctx) {
        Some(p) => {
            lemma_resolve_bound(nodes, p, name);
        },
        None => {},
    }
}

/// A fork loses nothing: a variable that is no side of the condition is, at the start of
/// each child, what it was in the forking context: the same version with the same range.
pub proof fn lemma_fork_keeps(
    m: Model,
    ctx: usize,
    condition: Option<Condition>,
    name: Seq<char>,
)
    requires
        ctx < m.nodes.len(),
        m.nodes.len() + 8 <= usize::MAX,
        versions_placed(m.nodes),
        !names_side(condition, name),
    ensures
        ({
            let (after, on_true, on_false) = fork(m, ctx, condition);
            &&& resolve(after.nodes, on_true, name) == resolve(m.nodes, ctx, name)
            &&& resolve(after.nodes, on_false, name) == resolve(m.nodes, ctx, name)
            &&& live_range(after.nodes, on_true, name) == live_range(m.nodes, ctx, name)
            &&& live_range(after.nodes, on_false, name) == live_range(m.nodes, ctx, name)
        }),
{
    let marker = m.next();
    let m1 = m.add_node(Node::ContextFork).add_edge(
        marker,
        ctx,
        Edge::Context(ContextEdge::Fork),
    );
    let on_true = m1.next();
    let c1 = add_child(m1, ctx, Some(marker), Branch::True, condition);
    let m2 = narrow(c1, on_true, condition, Origin::Branch);
    lemma_narrow_keeps(c1, on_true, condition, Origin::Branch, name);
    let on_false = m2.next();
    let c2 = add_child(m2, ctx, Some(marker), Branch::False, negate(condition));
    let m3 = narrow(c2, on_false, negate(condition), Origin::Branch);
    lemma_narrow_keeps(c2, on_false, negate(condition), Origin::Branch, name);
    let after = m3.nodes;
    assert(extends(m.nodes, after));
    assert forall|i: int, c: usize|
        m.nodes.len() <= i < after.len() implies !#[trigger] binds(after[i], c, name) by {
        if i < c1.nodes.len() {
            assert(after[i] == c1.nodes[i]);
        } else if i < m2.nodes.len() {
            assert(after[i] == m2.nodes[i]);
        } else if i < c2.nodes.len() {
            assert(after[i] == c2.nodes[i]);
        }
    }
    lemma_resolve_extends(m.nodes, after, ctx, name);
    assert(after[on_true as int] == c1.nodes[on_true as int]);
    assert(after[on_false as int] == c2.nodes[on_false as int]);
    assert(parent_of(after, on_true) == Some(ctx));
    assert(parent_of(after, on_false) == Some(ctx));
    assert forall|i: int| 0 <= i < after.len() implies !binds(
        #[trigger] after[i],
        on_true,
        name,
    ) by {
        if i < m.nodes.len() {
            assert(after[i] == m.nodes[i]);
        }
    }
    assert forall|i: int| 0 <= i < after.len() implies !binds(
        #[trigger] after[i],
        on_false,
        name,
    ) by {
        if i < m.nodes.len() {
            assert(after[i] == m.nodes[i]);
        }
    }
    lemma_latest_in_extends(Seq::<Node>::empty(), after, on_true, name, after.len());
    lemma_latest_in_extends(Seq::<Node>::empty(), after, on_false, name, after.len());
}

/// Applying a condition adds no version of a variable that is no side of it.
pub proof fn lemma_narrow_keeps(
    m: Model,
    ctx: usize,
    condition: Option<Condition>,
    origin: Origin,
    name: Seq<char>,
)
    requires
        !names_side(condition, name),
    ensures
        extends(m.nodes, narrow(m, ctx, condition, origin).nodes),
        narrow(m, ctx, condition, origin).nodes.len() <= m.nodes.len() + 2,
        forall|i: int, c: usize|
            m.nodes.len() <= i < narrow(m, ctx, condition, origin).nodes.len()
                ==> !#[trigger] binds(narrow(m, ctx, condition, origin).nodes[i], c, name),
{
}

/// Contexts form a tree: a context that another descends from came no later than it, so
/// no context descends from one of its own descendants.
pub proof fn lemma_descends_order(nodes: Seq<Node>, ctx: usize, above: usize)
    requires
        descends(nodes, ctx, above),
    ensures
        above <= ctx,
        ctx != above ==> !descends(nodes, above, ctx),
    decreases ctx,
{
    if ctx != above {
        match parent_of(nodes, ctx) {
            Some(p) => {
                lemma_descends_order(nodes, p, above);
                if descends(nodes, above, ctx) {
                    lemma_descends_below(nodes, above, ctx);
                }
            },
            None => {},
        }
    }
}

/// A context came no earlier than any context it descends from.
pub proof fn lemma_descends_below(nodes: Seq<Node>, ctx: usize, above: usize)
    requires
        descends(nodes, ctx, above),
    ensures
        above <= ctx,
    decreases ctx,
{
    if ctx != above {
        match parent_of(nodes, ctx) {
            Some(p) => {
                lemma_descends_below(nodes, p, above);
            },
            None => {},
        }
    }
}

/// Narrowing leaves unrelated variables untouched: a variable that is no side of the
/// condition keeps, in every context of the graph, its version and its range.
pub proof fn lemma_narrow_untouched(
    m: Model,
    ctx: usize,
    condition: Option<Condition>,
    origin: Origin,
    at: usize,
    name: Seq<char>,
)
    requires
        at < m.nodes.len(),
        !names_side(condition, name),
    ensures
        resolve(narrow(m, ctx, condition, origin).nodes, at, name) == resolve(m.nodes, at, name),
        live_range(narrow(m, ctx, condition, origin).nodes, at, name) == live_range(
            m.nodes,
            at,
            name,
        ),
{
    lemma_narrow_keeps(m, ctx, condition, origin, name);
    lemma_resolve_extends(m.nodes, narrow(m, ctx, condition, origin).nodes, at, name);
}

/// A version that was just added is the live version of its variable in its context.
pub proof fn lemma_bound_is_live(m: Model, var: ContextVar)
    requires
        m.nodes.len() < usize::MAX,
        var.name.is_some(),
        var.tmp_of.is_none(),
    ensures
        resolve(bind(m, var).nodes, var.ctx, var.name.unwrap()@) == Some(m.next()),
        live_range(bind(m, var).nodes, var.ctx, var.name.unwrap()@) == var.range,
{
    let after = bind(m, var).nodes;
    assert(after =~= m.nodes.push(Node::ContextVar(var)));
    assert(binds(after[after.len() - 1], var.ctx, var.name.unwrap()@));
}

/// Whether no context loses what its parent has: in every context that was forked from
/// another, a variable that the context itself holds no version of has the version and
/// the range that it has in the parent.
pub open spec fn inherits(nodes: Seq<Node>) -> bool {
    forall|ctx: usize, name: Seq<char>|
        parent_of(nodes, ctx).is_some() && (#[trigger] latest_in(
            nodes,
            ctx,
            name,
            nodes.len(),
        )).is_none() ==> resolve(nodes, ctx, name) == resolve(
            nodes,
            parent_of(nodes, ctx).unwrap(),
            name,
        ) && live_range(nodes, ctx, name) == live_range(
            nodes,
            parent_of(nodes, ctx).unwrap(),
            name,
        )
}

/// In every graph, no context loses what its parent has.
pub proof fn lemma_inherits(nodes: Seq<Node>)
    ensures
        inherits(nodes),
{
    assert forall|ctx: usize, name: Seq<char>|
        parent_of(nodes, ctx).is_some() && (#[trigger] latest_in(
            nodes,
            ctx,
            name,
            nodes.len(),
        )).is_none() implies resolve(nodes, ctx, name) == resolve(
        nodes,
        parent_of(nodes, ctx).unwrap(),
        name,
    ) && live_range(nodes, ctx, name) == live_range(
        nodes,
        parent_of(nodes, ctx).unwrap(),
        name,
    ) by {
        lemma_inherited(nodes, ctx, parent_of(nodes, ctx).unwrap(), name);
    }
}

/// The two arms of a fork that both stand under handles from `from` on, where the arms
/// from there on are well placed, exclude each other: the arm on which the condition does
/// not hold carries the negation of the condition of the other arm, and any two numbers
/// satisfy the relation of exactly one of the two. What stands under earlier handles
/// does not matter.
pub proof fn lemma_new_arms_exclude(
    nodes: Seq<Node>,
    from: nat,
    on_true: usize,
    on_false: usize,
    x: int,
    y: int,
)
    requires
        arms_formed_from(nodes, from),
        from <= on_true,
        from <= on_false,
        context_at(nodes, on_true).is_some(),
        context_at(nodes, on_false).is_some(),
        context_at(nodes, on_true).unwrap().branch == Branch::True,
        context_at(nodes, on_false).unwrap().branch == Branch::False,
        context_at(nodes, on_true).unwrap().fork.is_some(),
        context_at(nodes, on_true).unwrap().fork == context_at(nodes, on_false).unwrap().fork,
    ensures
        on_true < on_false,
        context_at(nodes, on_false).unwrap().condition == negate(
            context_at(nodes, on_true).unwrap().condition,
        ),
        match context_at(nodes, on_true).unwrap().condition {
            Some(c) => c.negation().relation.holds(x, y) == !c.relation.holds(x, y),
            None => true,
        },
{
    assert(arm_formed(nodes, on_true as int, nodes[on_true as int]));
    assert(arm_formed(nodes, on_false as int, nodes[on_false as int]));
}

/// In a well-placed graph the two arms of every fork exclude each other: the arm on which
/// the condition does not hold carries the negation of the condition of the other arm,
/// and any two numbers satisfy the relation of exactly one of the two.
pub proof fn lemma_arms_exclude(nodes: Seq<Node>, on_true: usize, on_false: usize, x: int, y: int)
    requires
        tree_formed(nodes),
        context_at(nodes, on_true).is_some(),
        context_at(nodes, on_false).is_some(),
        context_at(nodes, on_true).unwrap().branch == Branch::True,
        context_at(nodes, on_false).unwrap().branch == Branch::False,
        context_at(nodes, on_true).unwrap().fork.is_some(),
        context_at(nodes, on_true).unwrap().fork == context_at(nodes, on_false).unwrap().fork,
    ensures
        on_true < on_false,
        context_at(nodes, on_false).unwrap().condition == negate(
            context_at(nodes, on_true).unwrap().condition,
        ),
        match context_at(nodes, on_true).unwrap().condition {
            Some(c) => c.negation().relation.holds(x, y) == !c.relation.holds(x, y),
            None => true,
        },
{
    assert(arm_formed(nodes, on_true as int, nodes[on_true as int]));
    assert(arm_formed(nodes, on_false as int, nodes[on_false as int]));
}

/// Whether every version whose range is a sum has that sum flagged where its upper ends
/// leave the type, and exact where they do not: see `sum_judged`.
pub open spec fn sums_judged(nodes: Seq<Node>) -> bool {
    forall|i: int|
        0 <= i < nodes.len() ==> match #[trigger] nodes[i] {
            Node::ContextVar(v) => match v.range {
                Some(r) => r.sum_is_judged(),
                None => true,
            },
            _ => true,
        }
}

/// In every graph the sums are judged so.
pub proof fn lemma_sums_judged(nodes: Seq<Node>)
    ensures
        sums_judged(nodes),
{
    assert forall|i: int| 0 <= i < nodes.len() implies match #[trigger] nodes[i] {
        Node::ContextVar(v) => match v.range {
            Some(r) => r.sum_is_judged(),
            None => true,
        },
        _ => true,
    } by {
        match nodes[i] {
            Node::ContextVar(v) => match v.range {
                Some(r) => {
                    r.lemma_sum_is_judged();
                },
                None => {},
            },
            _ => {},
        }
    }
}

} // verus!
