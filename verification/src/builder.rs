//! The walk over a function body that builds its contexts and the versions of its
//! variables.

use crate::analyzer::{grows, Analyzer, GraphLike, Model};
use crate::ast::{Expression, Identifier, Loc, Statement, VariableDeclaration};
use crate::bound::{ArithOp, Bound};
use crate::concrete::Concrete;
use crate::context::{
    arms_formed_from, bind, extends, fork, fork_loop, join, lemma_bound_is_live, live_range,
    narrow, negate, read_var, resolve, top_of, top_range, tree_formed, union_of, var_at,
};
use crate::lower::{lemma_literal_fits, literal_value, literal_word};
use crate::range::{arith_span, lemma_sum_judged, sum_judged, Domain, Range, Relation};
use crate::types::{
    copy_range, Branch, Builtin, Condition, Context, ContextEdge, ContextVar, Edge, Node, Origin,
    Value,
};
use crate::word::{lemma_word_exists, lemma_word_of, word_of, Word};
use vstd::prelude::*;

verus! {

/// The numbers of a written type, where it is a primitive type that has numbers.
pub open spec fn declared_domain(ty: Expression) -> Option<Domain> {
    match ty {
        Expression::Type(_, t) => match Builtin::of_type(t) {
            Some(b) => b.numbers(),
            None => None,
        },
        _ => None,
    }
}

/// The type that holds the results of an operator on two types: as wide as the wider,
/// signed where either is. One unknown type gives the other.
pub open spec fn join_domain(a: Option<Domain>, b: Option<Domain>) -> Option<Domain> {
    match (a, b) {
        (Some(x), Some(y)) => Some(
            Domain {
                signed: x.signed || y.signed,
                bits: if x.bits >= y.bits {
                    x.bits
                } else {
                    y.bits
                },
            },
        ),
        (Some(x), None) => Some(x),
        (None, y) => y,
    }
}

/// The value of an operator on two values. Its range is known where both ranges are; two
/// operands without a type are taken as unsigned 256-bit numbers.
pub open spec fn combine(op: ArithOp, l: Value, r: Value) -> Value {
    let domain = join_domain(l.domain, r.domain);
    match (l.range, r.range) {
        (Some(a), Some(b)) => {
            let d = match domain {
                Some(d) => d,
                None => Domain { signed: false, bits: 256 },
            };
            Value {
                name: None,
                domain: Some(d),
                range: Some(Range::Arith(op, d, Box::new(a), Box::new(b))),
            }
        },
        _ => Value { name: None, domain, range: None },
    }
}

/// A truth value of which nothing is known.
pub open spec fn any_bool() -> Value {
    Value {
        name: None,
        domain: Some(Domain { signed: false, bits: 1 }),
        range: Some(Range::Top(Domain { signed: false, bits: 1 })),
    }
}

/// The value that is nothing but zero.
pub open spec fn zero_value() -> Value {
    Value {
        name: None,
        domain: None,
        range: Some(Range::Exact(Bound { negative: false, magnitude: word_of(0) })),
    }
}

/// Whether the name is that of a call that asserts its first argument.
pub open spec fn asserts(name: Seq<char>) -> bool {
    name == "require"@ || name == "assert"@
}

/// The state after a call from a context was recorded: an edge from the context to the
/// function, where the name is that of a declared function.
pub open spec fn record_call(m: Model, ctx: usize, name: Seq<char>) -> Model {
    if m.user_types.contains_key(name) && m.user_types[name] < m.nodes.len()
        && m.nodes[m.user_types[name] as int] is Function {
        m.add_edge(ctx, m.user_types[name], Edge::Func)
    } else {
        m
    }
}

/// What evaluating an expression in a context makes of a state, the context in which
/// execution goes on, and the value of the expression.
///
/// A number literal becomes a literal node and has exactly its value. A name has the value
/// that is live for it. An operator combines the values of its operands, left first. A
/// comparison or negation evaluates its operands and is an unknown truth value. An
/// assignment to a name gives the name a new version with the range of the right side,
/// or, with an operator, of the operator on the old value and the right side. A
/// conditional forks on its condition, evaluates each arm in its child, joins the ends,
/// and records the union of the arms in the join as a temporary. A call of `require` or
/// `assert` applies its first argument as a condition in the context; any other call is
/// recorded and has an unknown value, as has every other expression.
pub open spec fn eval_expr(m: Model, ctx: usize, expr: Expression) -> (Model, usize, Value)
    decreases expr, 1nat,
{
    match expr {
        Expression::NumberLiteral(_, digits, exponent) => match literal_value(
            digits@,
            exponent@,
        ) {
            Some(v) => (
                m.add_node(Node::Concrete(Concrete::Uint(256, word_of(v)))),
                ctx,
                Value {
                    name: None,
                    domain: None,
                    range: Some(Range::Exact(Bound { negative: false, magnitude: word_of(v) })),
                },
            ),
            None => (m, ctx, Value { name: None, domain: None, range: None }),
        },
        Expression::BoolLiteral(_, b) => (
            m,
            ctx,
            Value {
                name: None,
                domain: Some(Domain { signed: false, bits: 1 }),
                range: Some(
                    Range::Exact(
                        Bound {
                            negative: false,
                            magnitude: word_of(
                                if b {
                                    1
                                } else {
                                    0
                                },
                            ),
                        },
                    ),
                ),
            },
        ),
        Expression::Variable(ident) => (m, ctx, read_var(m, ctx, ident.name)),
        Expression::Arithmetic(_, op, l, r) => {
            let (m1, c1, lv) = eval_expr(m, ctx, *l);
            let (m2, c2, rv) = eval_expr(m1, c1, *r);
            (m2, c2, combine(op, lv, rv))
        },
        Expression::Comparison(_, _, l, r) => {
            let (m1, c1, _) = eval_expr(m, ctx, *l);
            let (m2, c2, _) = eval_expr(m1, c1, *r);
            (m2, c2, any_bool())
        },
        Expression::Not(_, e) => {
            let (m1, c1, _) = eval_expr(m, ctx, *e);
            (m1, c1, any_bool())
        },
        Expression::Assign(_, _, _, _) => eval_assign(m, ctx, expr),
        Expression::Ternary(_, _, _, _) => eval_ternary(m, ctx, expr),
        Expression::FunctionCall(_, _, _) => eval_call(m, ctx, expr),
        _ => (m, ctx, Value { name: None, domain: None, range: None }),
    }
}

/// What evaluating an assignment makes of a state: see `eval_expr`. Any other
/// expression changes nothing and has an unknown value.
pub open spec fn eval_assign(m: Model, ctx: usize, expr: Expression) -> (Model, usize, Value)
    decreases expr, 0nat,
{
    match expr {
        Expression::Assign(loc, op, lhs, rhs) => {
            let (m1, c1, rv) = eval_expr(m, ctx, *rhs);
            match *lhs {
                Expression::Variable(ident) => {
                    let current = read_var(m1, c1, ident.name);
                    let assigned = match op {
                        Some(o) => combine(o, current, rv),
                        None => rv,
                    };
                    let domain = match current.domain {
                        Some(d) => Some(d),
                        None => assigned.domain,
                    };
                    (
                        bind(
                            m1,
                            ContextVar {
                                loc,
                                name: Some(ident.name),
                                ctx: c1,
                                tmp_of: None,
                                prev: resolve(m1.nodes, c1, ident.name@),
                                domain,
                                range: assigned.range,
                                origin: Origin::Assigned,
                            },
                        ),
                        c1,
                        Value { name: Some(ident.name), domain, range: assigned.range },
                    )
                },
                _ => (m1, c1, Value { name: None, domain: None, range: None }),
            }
        },
        _ => (m, ctx, Value { name: None, domain: None, range: None }),
    }
}

/// What evaluating a conditional expression makes of a state: see `eval_expr`. Any other
/// expression changes nothing and has an unknown value.
pub open spec fn eval_ternary(m: Model, ctx: usize, expr: Expression) -> (Model, usize, Value)
    decreases expr, 0nat,
{
    match expr {
        Expression::Ternary(loc, c, a, b) => {
            let (m1, c1, condition) = eval_condition(m, ctx, *c);
            let (m2, on_true, on_false) = fork(m1, c1, condition);
            let (m3, true_end, av) = eval_expr(m2, on_true, *a);
            let (m4, false_end, bv) = eval_expr(m3, on_false, *b);
            let (m5, j) = join(m4, c1, true_end, false_end);
            let domain = join_domain(av.domain, bv.domain);
            let range = union_of(av.range, bv.range);
            (
                bind(
                    m5,
                    ContextVar {
                        loc,
                        name: None,
                        ctx: j,
                        tmp_of: Some(m1.next()),
                        prev: None,
                        domain,
                        range,
                        origin: Origin::Merged,
                    },
                ),
                j,
                Value { name: None, domain, range },
            )
        },
        _ => (m, ctx, Value { name: None, domain: None, range: None }),
    }
}

/// What evaluating a call makes of a state: see `eval_expr`. Any other expression changes
/// nothing and has an unknown value.
pub open spec fn eval_call(m: Model, ctx: usize, expr: Expression) -> (Model, usize, Value)
    decreases expr, 0nat,
{
    match expr {
        Expression::FunctionCall(_, callee, args) => match *callee {
            Expression::Variable(ident) => if asserts(ident.name@) && args@.len() > 0 {
                let (m1, c1, condition) = eval_condition(m, ctx, args@[0]);
                (
                    narrow(m1, c1, condition, Origin::Assertion),
                    c1,
                    Value { name: None, domain: None, range: None },
                )
            } else {
                (
                    record_call(m, ctx, ident.name@),
                    ctx,
                    Value { name: None, domain: None, range: None },
                )
            },
            _ => (m, ctx, Value { name: None, domain: None, range: None }),
        },
        _ => (m, ctx, Value { name: None, domain: None, range: None }),
    }
}

/// What evaluating an expression as a condition makes of a state, the context in which
/// execution goes on, and the condition. A comparison is the condition on the values of
/// its operands; a negation is the negation of its operand's condition; any other
/// expression is the condition that its value is not zero.
pub open spec fn eval_condition(m: Model, ctx: usize, expr: Expression) -> (
    Model,
    usize,
    Option<Condition>,
)
    decreases expr, 2nat,
{
    match expr {
        Expression::Comparison(loc, relation, l, r) => {
            let (m1, c1, lv) = eval_expr(m, ctx, *l);
            let (m2, c2, rv) = eval_expr(m1, c1, *r);
            (m2, c2, Some(Condition { loc, left: lv, relation, right: rv }))
        },
        Expression::Not(_, e) => {
            let (m1, c1, condition) = eval_condition(m, ctx, *e);
            (m1, c1, negate(condition))
        },
        _ => {
            let (m1, c1, v) = eval_expr(m, ctx, expr);
            (
                m1,
                c1,
                Some(
                    Condition {
                        loc: Loc::Implicit,
                        left: v,
                        relation: Relation::Ne,
                        right: zero_value(),
                    },
                ),
            )
        },
    }
}

/// What two ends of a branch make of a state: where both go on, they are joined under
/// `parent`; where one goes on, execution goes on in it; where none does, nowhere.
pub open spec fn finish(m: Model, parent: usize, a: Option<usize>, b: Option<usize>) -> (
    Model,
    Option<usize>,
) {
    match (a, b) {
        (Some(x), Some(y)) => (join(m, parent, x, y).0, Some(join(m, parent, x, y).1)),
        (Some(x), None) => (m, Some(x)),
        (None, Some(y)) => (m, Some(y)),
        (None, None) => (m, None),
    }
}

/// What a declaration in a context makes of a state: see `walk_statement`.
pub open spec fn walk_declaration(
    m: Model,
    ctx: usize,
    loc: Loc,
    decl: VariableDeclaration,
    init: Option<Expression>,
) -> (Model, Option<usize>) {
    let domain = declared_domain(decl.ty);
    let (m1, c1, v) = match init {
        Some(e) => eval_expr(m, ctx, e),
        None => (m, ctx, Value { name: None, domain, range: top_of(domain) }),
    };
    match decl.name {
        Some(id) => (
            bind(
                m1,
                ContextVar {
                    loc,
                    name: Some(id.name),
                    ctx: c1,
                    tmp_of: None,
                    prev: resolve(m1.nodes, c1, id.name@),
                    domain,
                    range: v.range,
                    origin: Origin::Declared,
                },
            ),
            Some(c1),
        ),
        None => (m1, Some(c1)),
    }
}

/// What walking a conditional in a context makes of a state: see `walk_statement`. Any
/// other statement changes nothing.
pub open spec fn walk_if(m: Model, ctx: usize, stmt: Statement) -> (Model, Option<usize>)
    decreases stmt, 0nat, 2nat,
{
    match stmt {
        Statement::If(_, c, then, otherwise) => {
            let (m1, c1, condition) = eval_condition(m, ctx, c);
            let (m2, on_true, on_false) = fork(m1, c1, condition);
            let (m3, true_end) = walk_statement(m2, on_true, *then);
            let (m4, false_end) = match otherwise {
                Some(e) => walk_statement(m3, on_false, *e),
                None => (m3, Some(on_false)),
            };
            finish(m4, c1, true_end, false_end)
        },
        _ => (m, Some(ctx)),
    }
}

/// What leaving a loop makes of a state: the end of the body, where the body goes on, is
/// joined under `parent` with `parent` itself, which stands for no turn of the loop.
pub open spec fn leave_loop(m: Model, parent: usize, end: Option<usize>) -> (
    Model,
    Option<usize>,
) {
    match end {
        Some(e) => (join(m, parent, e, parent).0, Some(join(m, parent, e, parent).1)),
        None => (join(m, parent, parent, parent).0, Some(join(m, parent, parent, parent).1)),
    }
}

/// What walking a statement in a context makes of a state, and the context in which
/// execution goes on, if it does.
///
/// A block walks its statements in order. A declaration gives the name a new version,
/// with the range of the initializer as it is, or every number of its type; the version
/// that was live for the name before, if there was one, is its predecessor. A conditional
/// forks on its condition, walks each arm in its child, and finishes the two ends. A loop
/// forks one child for one turn: a `while` evaluates its condition there and walks its
/// body; a `do` walks its body and then evaluates its condition; a `for` walks its first
/// part before the loop, and in the child evaluates its condition, walks its body and
/// then its last part. The end of the turn is joined with the context before the loop. A
/// return ends the context. A statement that is not modelled changes nothing.
pub open spec fn walk_statement(m: Model, ctx: usize, stmt: Statement) -> (Model, Option<usize>)
    decreases stmt, 1nat, 0nat,
{
    match stmt {
        Statement::Block(_, stmts) => walk_block(m, ctx, stmts@, 0),
        Statement::Expression(_, e) => (eval_expr(m, ctx, e).0, Some(eval_expr(m, ctx, e).1)),
        Statement::VariableDefinition(loc, decl, init) => walk_declaration(
            m,
            ctx,
            loc,
            decl,
            init,
        ),
        Statement::If(_, _, _, _) => walk_if(m, ctx, stmt),
        Statement::While(_, _, _) => walk_loop(m, ctx, stmt),
        Statement::DoWhile(_, _, _) => walk_loop(m, ctx, stmt),
        Statement::For(_, _, _, _, _) => walk_loop(m, ctx, stmt),
        Statement::Return(_, value) => match value {
            Some(e) => (eval_expr(m, ctx, e).0, None),
            None => (m, None),
        },
        Statement::Unsupported(_) => (m, Some(ctx)),
    }
}

/// What walking a `for` loop in a context makes of a state: see `walk_statement`. Any
/// other statement changes nothing.
pub open spec fn walk_for(m: Model, ctx: usize, stmt: Statement) -> (Model, Option<usize>)
    decreases stmt, 0nat, 0nat,
{
    match stmt {
        Statement::For(_, init, c, update, body) => {
            let (m0, start) = match init {
                Some(s) => walk_statement(m, ctx, *s),
                None => (m, Some(ctx)),
            };
            match start {
                Some(before) => {
                    let (m1, inside) = fork_loop(m0, before);
                    let (m2, c1) = match c {
                        Some(e) => (eval_expr(m1, inside, *e).0, eval_expr(m1, inside, *e).1),
                        None => (m1, inside),
                    };
                    let (m3, end) = match body {
                        Some(s) => walk_statement(m2, c1, *s),
                        None => (m2, Some(c1)),
                    };
                    let (m4, last) = match (end, update) {
                        (Some(e), Some(u)) => walk_statement(m3, e, *u),
                        _ => (m3, end),
                    };
                    leave_loop(m4, before, last)
                },
                None => (m0, None),
            }
        },
        _ => (m, Some(ctx)),
    }
}

/// What walking a loop in a context makes of a state: see `walk_statement`. A statement
/// that is no loop changes nothing.
pub open spec fn walk_loop(m: Model, ctx: usize, stmt: Statement) -> (Model, Option<usize>)
    decreases stmt, 0nat, 1nat,
{
    match stmt {
        Statement::While(_, c, body) => {
            let (m1, inside) = fork_loop(m, ctx);
            let (m2, c1, _) = eval_expr(m1, inside, c);
            let (m3, end) = walk_statement(m2, c1, *body);
            leave_loop(m3, ctx, end)
        },
        Statement::DoWhile(_, body, c) => {
            let (m1, inside) = fork_loop(m, ctx);
            let (m2, end) = walk_statement(m1, inside, *body);
            match end {
                Some(e) => leave_loop(eval_expr(m2, e, c).0, ctx, Some(eval_expr(m2, e, c).1)),
                None => leave_loop(m2, ctx, None),
            }
        },
        Statement::For(_, _, _, _, _) => walk_for(m, ctx, stmt),
        _ => (m, Some(ctx)),
    }
}

/// What walking the statements of a block from the `i`-th on makes of a state. Statements
/// behind one that ends the context are not walked.
pub open spec fn walk_block(m: Model, ctx: usize, stmts: Seq<Statement>, i: nat) -> (
    Model,
    Option<usize>,
)
    decreases stmts, stmts.len() - i,
{
    if i >= stmts.len() {
        (m, Some(ctx))
    } else {
        match walk_statement(m, ctx, stmts[i as int]) {
            (m1, Some(c1)) => walk_block(m1, c1, stmts, i + 1),
            (m1, None) => (m1, None),
        }
    }
}

/// What walking the body of a function makes of a state: an entry context with an edge to
/// the function, and the body walked from there. A parameter gets no version before
/// something assigns or narrows it. The handle is that of the entry context.
pub open spec fn walk_body(m: Model, function: usize, body: Statement) -> (Model, usize) {
    let entry = m.next();
    let m1 = m.add_node(
        Node::Context(
            Context {
                function,
                parent: None,
                fork: None,
                branch: Branch::Entry,
                condition: None,
            },
        ),
    ).add_edge(entry, function, Edge::Context(ContextEdge::Context));
    (walk_statement(m1, entry, body).0, entry)
}

/// The numbers of a written type, where it is a primitive type that has numbers.
pub fn domain_of_type(ty: &Expression) -> (d: Option<Domain>)
    ensures
        d == declared_domain(*ty),
{
    match ty {
        Expression::Type(_, t) => match Builtin::try_from_ty(t) {
            Some(b) => b.domain(),
            None => None,
        },
        _ => None,
    }
}

/// The type that holds the results of an operator on two types.
pub fn joined_domain(a: Option<Domain>, b: Option<Domain>) -> (d: Option<Domain>)
    ensures
        d == join_domain(a, b),
{
    match (a, b) {
        (Some(x), Some(y)) => Some(
            Domain {
                signed: x.signed || y.signed,
                bits: if x.bits >= y.bits {
                    x.bits
                } else {
                    y.bits
                },
            },
        ),
        (Some(x), None) => Some(x),
        (None, y) => y,
    }
}

/// The value of an operator on two values.
pub fn combined(op: ArithOp, l: &Value, r: &Value) -> (v: Value)
    ensures
        v == combine(op, *l, *r),
{
    let domain = joined_domain(l.domain, r.domain);
    match (&l.range, &r.range) {
        (Some(a), Some(b)) => {
            let d = match domain {
                Some(d) => d,
                None => Domain { signed: false, bits: 256 },
            };
            Value {
                name: None,
                domain: Some(d),
                range: Some(Range::Arith(op, d, Box::new(a.copy()), Box::new(b.copy()))),
            }
        },
        _ => Value { name: None, domain, range: None },
    }
}

/// Whether the name is that of a call that asserts its first argument.
pub fn is_assertion(name: &String) -> (b: bool)
    ensures
        b == asserts(name@),
{
    let require = "require".to_owned();
    let assert_ = "assert".to_owned();
    *name == require || *name == assert_
}

/// A truth value of which nothing is known.
fn unknown_bool() -> (v: Value)
    ensures
        v == any_bool(),
{
    Value {
        name: None,
        domain: Some(Domain { signed: false, bits: 1 }),
        range: Some(Range::Top(Domain { signed: false, bits: 1 })),
    }
}

/// The range that is nothing but the given small number.
fn exact_small(v: u64) -> (r: Range)
    ensures
        r == Range::Exact(Bound { negative: false, magnitude: word_of(v as nat) }),
{
    let magnitude = Word::from_u64(v);
    proof {
        lemma_word_of(magnitude);
    }
    Range::Exact(Bound { negative: false, magnitude })
}

impl Analyzer {
    /// Records a call from a context: see `record_call`.
    fn record_call(&mut self, ctx: usize, name: &String)
        requires
            ctx < old(self)@.nodes.len(),
        ensures
            grows(old(self)@, final(self)@),
            arms_formed_from(final(self)@.nodes, old(self)@.nodes.len() as nat),
            final(self)@ == record_call(old(self)@, ctx, name@),
            final(self)@.nodes == old(self)@.nodes,
    {
        match self.user_types.get(name) {
            Some(h) => {
                let is_function = match self.try_node(h) {
                    Some(Node::Function(_)) => true,
                    _ => false,
                };
                if is_function {
                    self.add_edge(ctx, h, Edge::Func);
                }
            },
            None => {},
        }
    }

    /// Evaluates an expression in a context: see `eval_expr`. The result holds the
    /// context in which execution goes on, and the value.
    pub fn parse_ctx_expr(&mut self, ctx: usize, expr: &Expression) -> (r: (usize, Value))
        requires
            ctx < old(self)@.nodes.len(),
        ensures
            tree_formed(old(self)@.nodes) ==> tree_formed(final(self)@.nodes),
            grows(old(self)@, final(self)@),
            arms_formed_from(final(self)@.nodes, old(self)@.nodes.len() as nat),
            (final(self)@, r.0, r.1) == eval_expr(old(self)@, ctx, *expr),
            extends(old(self)@.nodes, final(self)@.nodes),
            r.0 < final(self)@.nodes.len(),
        decreases expr, 1nat,
    {
        match expr {
            Expression::NumberLiteral(_loc, digits, exponent) => {
                match literal_word(digits.as_str(), exponent.as_str()) {
                    Some(w) => {
                        self.add_node(Node::Concrete(Concrete::Uint(256, w)));
                        (
                            ctx,
                            Value {
                                name: None,
                                domain: None,
                                range: Some(
                                    Range::Exact(Bound { negative: false, magnitude: w }),
                                ),
                            },
                        )
                    },
                    None => (ctx, Value::unknown()),
                }
            },
            Expression::BoolLiteral(_loc, b) => (
                ctx,
                Value {
                    name: None,
                    domain: Some(Domain { signed: false, bits: 1 }),
                    range: Some(
                        exact_small(
                            if *b {
                                1
                            } else {
                                0
                            },
                        ),
                    ),
                },
            ),
            Expression::Variable(ident) => (ctx, self.read_var(ctx, &ident.name)),
            Expression::Arithmetic(_loc, op, l, r) => {
                let (c1, lv) = self.parse_ctx_expr(ctx, l);
                let (c2, rv) = self.parse_ctx_expr(c1, r);
                (c2, combined(*op, &lv, &rv))
            },
            Expression::Comparison(_loc, _relation, l, r) => {
                let (c1, _lv) = self.parse_ctx_expr(ctx, l);
                let (c2, _rv) = self.parse_ctx_expr(c1, r);
                (c2, unknown_bool())
            },
            Expression::Not(_loc, e) => {
                let (c1, _v) = self.parse_ctx_expr(ctx, e);
                (c1, unknown_bool())
            },
            Expression::Assign(_, _, _, _) => self.parse_ctx_assign(ctx, expr),
            Expression::Ternary(_, _, _, _) => self.parse_ctx_ternary(ctx, expr),
            Expression::FunctionCall(_, _, _) => self.parse_ctx_call(ctx, expr),
            _ => (ctx, Value::unknown()),
        }
    }

    /// Evaluates an assignment in a context: see `eval_assign`.
    pub fn parse_ctx_assign(&mut self, ctx: usize, expr: &Expression) -> (r: (usize, Value))
        requires
            ctx < old(self)@.nodes.len(),
        ensures
            tree_formed(old(self)@.nodes) ==> tree_formed(final(self)@.nodes),
            grows(old(self)@, final(self)@),
            arms_formed_from(final(self)@.nodes, old(self)@.nodes.len() as nat),
            (final(self)@, r.0, r.1) == eval_assign(old(self)@, ctx, *expr),
            extends(old(self)@.nodes, final(self)@.nodes),
            r.0 < final(self)@.nodes.len(),
        decreases expr, 0nat,
    {
        match expr {
            Expression::Assign(loc, op, lhs, rhs) => {
                let (c1, rv) = self.parse_ctx_expr(ctx, rhs);
                match &**lhs {
                    Expression::Variable(ident) => {
                        let current = self.read_var(c1, &ident.name);
                        let assigned = match op {
                            Some(o) => combined(*o, &current, &rv),
                            None => rv,
                        };
                        let domain = match current.domain {
                            Some(d) => Some(d),
                            None => assigned.domain,
                        };
                        let prev = self.resolve(c1, &ident.name);
                        self.bind(
                            ContextVar {
                                loc: *loc,
                                name: Some(ident.name.clone()),
                                ctx: c1,
                                tmp_of: None,
                                prev,
                                domain,
                                range: copy_range(&assigned.range),
                                origin: Origin::Assigned,
                            },
                        );
                        (
                            c1,
                            Value {
                                name: Some(ident.name.clone()),
                                domain,
                                range: assigned.range,
                            },
                        )
                    },
                    _ => (c1, Value::unknown()),
                }
            },
            _ => (ctx, Value::unknown()),
        }
    }

    /// Evaluates a conditional expression in a context: see `eval_ternary`.
    pub fn parse_ctx_ternary(&mut self, ctx: usize, expr: &Expression) -> (r: (usize, Value))
        requires
            ctx < old(self)@.nodes.len(),
        ensures
            tree_formed(old(self)@.nodes) ==> tree_formed(final(self)@.nodes),
            grows(old(self)@, final(self)@),
            arms_formed_from(final(self)@.nodes, old(self)@.nodes.len() as nat),
            (final(self)@, r.0, r.1) == eval_ternary(old(self)@, ctx, *expr),
            extends(old(self)@.nodes, final(self)@.nodes),
            r.0 < final(self)@.nodes.len(),
        decreases expr, 0nat,
    {
        match expr {
            Expression::Ternary(loc, c, a, b) => {
                let (c1, condition) = self.parse_ctx_condition(ctx, c);
                let marker = self.node_count();
                let (on_true, on_false) = self.fork(c1, &condition);
                let (true_end, av) = self.parse_ctx_expr(on_true, a);
                let (false_end, bv) = self.parse_ctx_expr(on_false, b);
                let j = self.join(c1, true_end, false_end);
                let domain = joined_domain(av.domain, bv.domain);
                let range = match (av.range, bv.range) {
                    (Some(x), Some(y)) => Some(Range::Union(Box::new(x), Box::new(y))),
                    _ => None,
                };
                self.bind(
                    ContextVar {
                        loc: *loc,
                        name: None,
                        ctx: j,
                        tmp_of: Some(marker),
                        prev: None,
                        domain,
                        range: copy_range(&range),
                        origin: Origin::Merged,
                    },
                );
                (j, Value { name: None, domain, range })
            },
            _ => (ctx, Value::unknown()),
        }
    }

    /// Evaluates a call in a context: see `eval_call`.
    pub fn parse_ctx_call(&mut self, ctx: usize, expr: &Expression) -> (r: (usize, Value))
        requires
            ctx < old(self)@.nodes.len(),
        ensures
            tree_formed(old(self)@.nodes) ==> tree_formed(final(self)@.nodes),
            grows(old(self)@, final(self)@),
            arms_formed_from(final(self)@.nodes, old(self)@.nodes.len() as nat),
            (final(self)@, r.0, r.1) == eval_call(old(self)@, ctx, *expr),
            extends(old(self)@.nodes, final(self)@.nodes),
            r.0 < final(self)@.nodes.len(),
        decreases expr, 0nat,
    {
        match expr {
            Expression::FunctionCall(_loc, callee, args) => {
                match &**callee {
                    Expression::Variable(ident) => {
                        if is_assertion(&ident.name) && args.len() > 0 {
                            let (c1, condition) = self.parse_ctx_condition(ctx, &args[0]);
                            self.narrow(c1, &condition, Origin::Assertion);
                            (c1, Value::unknown())
                        } else {
                            self.record_call(ctx, &ident.name);
                            (ctx, Value::unknown())
                        }
                    },
                    _ => (ctx, Value::unknown()),
                }
            },
            _ => (ctx, Value::unknown()),
        }
    }

    /// Evaluates an expression as a condition in a context: see `eval_condition`.
    pub fn parse_ctx_condition(&mut self, ctx: usize, expr: &Expression) -> (r: (
        usize,
        Option<Condition>,
    ))
        requires
            ctx < old(self)@.nodes.len(),
        ensures
            tree_formed(old(self)@.nodes) ==> tree_formed(final(self)@.nodes),
            grows(old(self)@, final(self)@),
            arms_formed_from(final(self)@.nodes, old(self)@.nodes.len() as nat),
            (final(self)@, r.0, r.1) == eval_condition(old(self)@, ctx, *expr),
            extends(old(self)@.nodes, final(self)@.nodes),
            r.0 < final(self)@.nodes.len(),
        decreases expr, 2nat,
    {
        match expr {
            Expression::Comparison(loc, relation, l, r) => {
                let (c1, lv) = self.parse_ctx_expr(ctx, l);
                let (c2, rv) = self.parse_ctx_expr(c1, r);
                (c2, Some(Condition { loc: *loc, left: lv, relation: *relation, right: rv }))
            },
            Expression::Not(_loc, e) => {
                let (c1, condition) = self.parse_ctx_condition(ctx, e);
                (
                    c1,
                    match condition {
                        Some(c) => Some(c.negated()),
                        None => None,
                    },
                )
            },
            _ => {
                let (c1, v) = self.parse_ctx_expr(ctx, expr);
                (
                    c1,
                    Some(
                        Condition {
                            loc: Loc::Implicit,
                            left: v,
                            relation: Relation::Ne,
                            right: Value { name: None, domain: None, range: Some(exact_small(0)) },
                        },
                    ),
                )
            },
        }
    }

    /// Finishes a branch: see `finish`.
    fn finish(&mut self, parent: usize, a: Option<usize>, b: Option<usize>) -> (r: Option<usize>)
        requires
            parent < old(self)@.nodes.len(),
            a.is_some() ==> a.unwrap() < old(self)@.nodes.len(),
            b.is_some() ==> b.unwrap() < old(self)@.nodes.len(),
        ensures
            tree_formed(old(self)@.nodes) ==> tree_formed(final(self)@.nodes),
            grows(old(self)@, final(self)@),
            arms_formed_from(final(self)@.nodes, old(self)@.nodes.len() as nat),
            (final(self)@, r) == finish(old(self)@, parent, a, b),
            extends(old(self)@.nodes, final(self)@.nodes),
            r.is_some() ==> r.unwrap() < final(self)@.nodes.len(),
    {
        match (a, b) {
            (Some(x), Some(y)) => Some(self.join(parent, x, y)),
            (Some(x), None) => Some(x),
            (None, Some(y)) => Some(y),
            (None, None) => None,
        }
    }

    /// Walks a declaration in a context: see `walk_declaration`.
    pub fn parse_ctx_declaration(
        &mut self,
        ctx: usize,
        loc: Loc,
        decl: &VariableDeclaration,
        init: &Option<Expression>,
    ) -> (r: Option<usize>)
        requires
            ctx < old(self)@.nodes.len(),
        ensures
            tree_formed(old(self)@.nodes) ==> tree_formed(final(self)@.nodes),
            grows(old(self)@, final(self)@),
            arms_formed_from(final(self)@.nodes, old(self)@.nodes.len() as nat),
            (final(self)@, r) == walk_declaration(old(self)@, ctx, loc, *decl, *init),
            extends(old(self)@.nodes, final(self)@.nodes),
            r.is_some() ==> r.unwrap() < final(self)@.nodes.len(),
    {
        let domain = domain_of_type(&decl.ty);
        let (c1, v) = match init {
            Some(e) => self.parse_ctx_expr(ctx, e),
            None => (ctx, Value { name: None, domain, range: top_range(domain) }),
        };
        match &decl.name {
            Some(id) => {
                let prev = self.resolve(c1, &id.name);
                self.bind(
                    ContextVar {
                        loc,
                        name: Some(id.name.clone()),
                        ctx: c1,
                        tmp_of: None,
                        prev,
                        domain,
                        range: v.range,
                        origin: Origin::Declared,
                    },
                );
            },
            None => {},
        }
        Some(c1)
    }

    /// Walks a conditional in a context: see `walk_if`.
    pub fn parse_ctx_if(&mut self, ctx: usize, stmt: &Statement) -> (r: Option<usize>)
        requires
            ctx < old(self)@.nodes.len(),
        ensures
            tree_formed(old(self)@.nodes) ==> tree_formed(final(self)@.nodes),
            grows(old(self)@, final(self)@),
            arms_formed_from(final(self)@.nodes, old(self)@.nodes.len() as nat),
            (final(self)@, r) == walk_if(old(self)@, ctx, *stmt),
            extends(old(self)@.nodes, final(self)@.nodes),
            r.is_some() ==> r.unwrap() < final(self)@.nodes.len(),
        decreases stmt, 0nat, 2nat,
    {
        match stmt {
            Statement::If(_loc, c, then, otherwise) => {
                let (c1, condition) = self.parse_ctx_condition(ctx, c);
                let (on_true, on_false) = self.fork(c1, &condition);
                let true_end = self.parse_ctx_statement(on_true, then);
                let false_end = match otherwise {
                    Some(e) => self.parse_ctx_statement(on_false, e),
                    None => Some(on_false),
                };
                self.finish(c1, true_end, false_end)
            },
            _ => Some(ctx),
        }
    }

    /// Leaves a loop: see `leave_loop`.
    fn leave_loop(&mut self, parent: usize, end: Option<usize>) -> (r: Option<usize>)
        requires
            parent < old(self)@.nodes.len(),
        ensures
            tree_formed(old(self)@.nodes) ==> tree_formed(final(self)@.nodes),
            grows(old(self)@, final(self)@),
            arms_formed_from(final(self)@.nodes, old(self)@.nodes.len() as nat),
            (final(self)@, r) == leave_loop(old(self)@, parent, end),
            extends(old(self)@.nodes, final(self)@.nodes),
            r.is_some() ==> r.unwrap() < final(self)@.nodes.len(),
    {
        match end {
            Some(e) => Some(self.join(parent, e, parent)),
            None => Some(self.join(parent, parent, parent)),
        }
    }

    /// Walks a statement in a context: see `walk_statement`. The result is the context in
    /// which execution goes on, if it does.
    pub fn parse_ctx_statement(&mut self, ctx: usize, stmt: &Statement) -> (r: Option<usize>)
        requires
            ctx < old(self)@.nodes.len(),
        ensures
            tree_formed(old(self)@.nodes) ==> tree_formed(final(self)@.nodes),
            grows(old(self)@, final(self)@),
            arms_formed_from(final(self)@.nodes, old(self)@.nodes.len() as nat),
            (final(self)@, r) == walk_statement(old(self)@, ctx, *stmt),
            extends(old(self)@.nodes, final(self)@.nodes),
            r.is_some() ==> r.unwrap() < final(self)@.nodes.len(),
        decreases stmt, 1nat, 0nat,
    {
        match stmt {
            Statement::Block(_loc, stmts) => self.parse_ctx_block(ctx, stmts, 0),
            Statement::Expression(_loc, e) => {
                let (c1, _v) = self.parse_ctx_expr(ctx, e);
                Some(c1)
            },
            Statement::VariableDefinition(loc, decl, init) => self.parse_ctx_declaration(
                ctx,
                *loc,
                decl,
                init,
            ),
            Statement::If(_, _, _, _) => self.parse_ctx_if(ctx, stmt),
            Statement::While(_, _, _) => self.parse_ctx_loop(ctx, stmt),
            Statement::DoWhile(_, _, _) => self.parse_ctx_loop(ctx, stmt),
            Statement::For(_, _, _, _, _) => self.parse_ctx_loop(ctx, stmt),
            Statement::Return(_loc, value) => {
                match value {
                    Some(e) => {
                        let _r = self.parse_ctx_expr(ctx, e);
                    },
                    None => {},
                }
                None
            },
            Statement::Unsupported(_loc) => Some(ctx),
        }
    }

    /// Walks a `for` loop in a context: see `walk_for`.
    #[verifier::rlimit(60)]
    pub fn parse_ctx_for(&mut self, ctx: usize, stmt: &Statement) -> (r: Option<usize>)
        requires
            ctx < old(self)@.nodes.len(),
        ensures
            tree_formed(old(self)@.nodes) ==> tree_formed(final(self)@.nodes),
            grows(old(self)@, final(self)@),
            arms_formed_from(final(self)@.nodes, old(self)@.nodes.len() as nat),
            (final(self)@, r) == walk_for(old(self)@, ctx, *stmt),
            extends(old(self)@.nodes, final(self)@.nodes),
            r.is_some() ==> r.unwrap() < final(self)@.nodes.len(),
        decreases stmt, 0nat, 0nat,
    {
        match stmt {
            Statement::For(_loc, init, c, update, body) => {
                let start = match init {
                    Some(s) => self.parse_ctx_statement(ctx, s),
                    None => Some(ctx),
                };
                match start {
                    Some(before) => {
                        let inside = self.fork_loop(before);
                        let c1 = match c {
                            Some(e) => self.parse_ctx_expr(inside, e).0,
                            None => inside,
                        };
                        let end = match body {
                            Some(s) => self.parse_ctx_statement(c1, s),
                            None => Some(c1),
                        };
                        let last = match (end, update) {
                            (Some(e), Some(u)) => self.parse_ctx_statement(e, u),
                            _ => end,
                        };
                        self.leave_loop(before, last)
                    },
                    None => None,
                }
            },
            _ => Some(ctx),
        }
    }

    /// Walks a loop in a context: see `walk_loop`.
    pub fn parse_ctx_loop(&mut self, ctx: usize, stmt: &Statement) -> (r: Option<usize>)
        requires
            ctx < old(self)@.nodes.len(),
        ensures
            tree_formed(old(self)@.nodes) ==> tree_formed(final(self)@.nodes),
            grows(old(self)@, final(self)@),
            arms_formed_from(final(self)@.nodes, old(self)@.nodes.len() as nat),
            (final(self)@, r) == walk_loop(old(self)@, ctx, *stmt),
            extends(old(self)@.nodes, final(self)@.nodes),
            r.is_some() ==> r.unwrap() < final(self)@.nodes.len(),
        decreases stmt, 0nat, 1nat,
    {
        match stmt {
            Statement::While(_loc, c, body) => {
                let inside = self.fork_loop(ctx);
                let (c1, _v) = self.parse_ctx_expr(inside, c);
                let end = self.parse_ctx_statement(c1, body);
                self.leave_loop(ctx, end)
            },
            Statement::DoWhile(_loc, body, c) => {
                let inside = self.fork_loop(ctx);
                let end = self.parse_ctx_statement(inside, body);
                match end {
                    Some(e) => {
                        let (c1, _v) = self.parse_ctx_expr(e, c);
                        self.leave_loop(ctx, Some(c1))
                    },
                    None => self.leave_loop(ctx, None),
                }
            },
            Statement::For(_, _, _, _, _) => self.parse_ctx_for(ctx, stmt),
            _ => Some(ctx),
        }
    }

    /// Walks the statements of a block from the `i`-th on: see `walk_block`.
    pub fn parse_ctx_block(&mut self, ctx: usize, stmts: &Vec<Statement>, i: usize) -> (r:
        Option<usize>)
        requires
            ctx < old(self)@.nodes.len(),
        ensures
            tree_formed(old(self)@.nodes) ==> tree_formed(final(self)@.nodes),
            grows(old(self)@, final(self)@),
            arms_formed_from(final(self)@.nodes, old(self)@.nodes.len() as nat),
            (final(self)@, r) == walk_block(old(self)@, ctx, stmts@, i as nat),
            extends(old(self)@.nodes, final(self)@.nodes),
            r.is_some() ==> r.unwrap() < final(self)@.nodes.len(),
        decreases stmts@, stmts@.len() - i,
    {
        if i >= stmts.len() {
            Some(ctx)
        } else {
            match self.parse_ctx_statement(ctx, &stmts[i]) {
                Some(c1) => self.parse_ctx_block(c1, stmts, i + 1),
                None => None,
            }
        }
    }

    /// Walks the body of a function: see `walk_body`. The result is the entry context.
    pub fn parse_ctx_body(&mut self, function: usize, body: &Statement) -> (entry: usize)
        requires
            function < old(self)@.nodes.len(),
        ensures
            tree_formed(old(self)@.nodes) ==> tree_formed(final(self)@.nodes),
            grows(old(self)@, final(self)@),
            arms_formed_from(final(self)@.nodes, old(self)@.nodes.len() as nat),
            (final(self)@, entry) == walk_body(old(self)@, function, *body),
            extends(old(self)@.nodes, final(self)@.nodes),
            entry == old(self)@.nodes.len(),
    {
        let entry = self.add_node(
            Node::Context(
                Context {
                    function,
                    parent: None,
                    fork: None,
                    branch: Branch::Entry,
                    condition: None,
                },
            ),
        );
        self.add_edge(entry, function, Edge::Context(ContextEdge::Context));
        assert(grows(old(self)@, self@));
        let _end = self.parse_ctx_statement(entry, body);
        entry
    }
}

/// A number literal has exactly its value: its range is that one number, unflagged.
pub proof fn lemma_literal_exact(m: Model, ctx: usize, loc: Loc, digits: String, exponent: String)
    requires
        literal_value(digits@, exponent@).is_some(),
    ensures
        ({
            let v = eval_expr(m, ctx, Expression::NumberLiteral(loc, digits, exponent)).2;
            &&& v.range.is_some()
            &&& v.range.unwrap().is_exact()
            &&& v.range.unwrap().span().min == literal_value(digits@, exponent@).unwrap()
            &&& v.range.unwrap().span().max == literal_value(digits@, exponent@).unwrap()
            &&& !v.range.unwrap().span().flagged
        }),
{
    lemma_literal_fits(digits@, exponent@);
    lemma_word_exists(literal_value(digits@, exponent@).unwrap());
}

/// An assignment gives the variable the range of the right side as it is: after it, the
/// live range of the variable in the context is that range, whatever it was before.
pub proof fn lemma_assignment_verbatim(
    m: Model,
    ctx: usize,
    loc: Loc,
    target: Identifier,
    rhs: Expression,
)
    requires
        eval_expr(m, ctx, rhs).0.nodes.len() < usize::MAX,
    ensures
        ({
            let (m1, c1, rv) = eval_expr(m, ctx, rhs);
            let (after, c2, v) = eval_expr(
                m,
                ctx,
                Expression::Assign(
                    loc,
                    None,
                    Box::new(Expression::Variable(target)),
                    Box::new(rhs),
                ),
            );
            &&& c2 == c1
            &&& v.range == rv.range
            &&& live_range(after.nodes, c1, target.name@) == rv.range
            &&& resolve(after.nodes, c1, target.name@) == Some(m1.next())
            &&& var_at(after.nodes, m1.next()).is_some()
            &&& var_at(after.nodes, m1.next()).unwrap().prev == resolve(
                m1.nodes,
                c1,
                target.name@,
            )
            &&& forall|i: int| 0 <= i < m1.nodes.len() ==> after.nodes[i] == m1.nodes[i]
        }),
{
    let assignment = Expression::Assign(
        loc,
        None,
        Box::new(Expression::Variable(target)),
        Box::new(rhs),
    );
    assert(eval_expr(m, ctx, assignment) == eval_assign(m, ctx, assignment));
    let (m1, c1, rv) = eval_expr(m, ctx, rhs);
    let current = read_var(m1, c1, target.name);
    let domain = match current.domain {
        Some(d) => Some(d),
        None => rv.domain,
    };
    lemma_bound_is_live(
        m1,
        ContextVar {
            loc,
            name: Some(target.name),
            ctx: c1,
            tmp_of: None,
            prev: resolve(m1.nodes, c1, target.name@),
            domain,
            range: rv.range,
            origin: Origin::Assigned,
        },
    );
}

/// A declaration with an initializer gives the variable the range of the initializer as
/// it is. The new version is then the live one of the name in the context; its
/// predecessor is the version that was live before, if there was one, and that version
/// stays as it was.
pub proof fn lemma_declaration_verbatim(
    m: Model,
    ctx: usize,
    loc: Loc,
    decl: VariableDeclaration,
    init: Expression,
)
    requires
        decl.name.is_some(),
        eval_expr(m, ctx, init).0.nodes.len() < usize::MAX,
    ensures
        ({
            let name = decl.name.unwrap().name@;
            let (m1, c1, rv) = eval_expr(m, ctx, init);
            let (after, end) = walk_statement(
                m,
                ctx,
                Statement::VariableDefinition(loc, decl, Some(init)),
            );
            &&& end == Some(c1)
            &&& live_range(after.nodes, c1, name) == rv.range
            &&& resolve(after.nodes, c1, name) == Some(m1.next())
            &&& var_at(after.nodes, m1.next()).is_some()
            &&& var_at(after.nodes, m1.next()).unwrap().prev == resolve(m1.nodes, c1, name)
            &&& forall|i: int| 0 <= i < m1.nodes.len() ==> after.nodes[i] == m1.nodes[i]
        }),
{
    let (m1, c1, rv) = eval_expr(m, ctx, init);
    let id = decl.name.unwrap();
    lemma_bound_is_live(
        m1,
        ContextVar {
            loc,
            name: Some(id.name),
            ctx: c1,
            tmp_of: None,
            prev: resolve(m1.nodes, c1, id.name@),
            domain: declared_domain(decl.ty),
            range: rv.range,
            origin: Origin::Declared,
        },
    );
}

/// The range recorded for a sum of two expressions whose ranges are known is the sum of
/// those ranges in the type that holds both, and its interval is judged as `sum_judged`
/// says: flagged and ending at the largest number of the type where the upper ends sum
/// to more, exact where they do not.
pub proof fn lemma_sum_recorded(m: Model, ctx: usize, loc: Loc, l: Expression, r: Expression)
    requires
        eval_expr(m, ctx, l).2.range.is_some(),
        eval_expr(eval_expr(m, ctx, l).0, eval_expr(m, ctx, l).1, r).2.range.is_some(),
    ensures
        ({
            let (m1, c1, lv) = eval_expr(m, ctx, l);
            let (m2, c2, rv) = eval_expr(m1, c1, r);
            let sum = eval_expr(
                m,
                ctx,
                Expression::Arithmetic(loc, ArithOp::Add, Box::new(l), Box::new(r)),
            ).2;
            let d = match join_domain(lv.domain, rv.domain) {
                Some(d) => d,
                None => Domain { signed: false, bits: 256 },
            };
            &&& sum.domain == Some(d)
            &&& sum.range == Some(
                Range::Arith(
                    ArithOp::Add,
                    d,
                    Box::new(lv.range.unwrap()),
                    Box::new(rv.range.unwrap()),
                ),
            )
            &&& sum.range.unwrap().span() == arith_span(
                ArithOp::Add,
                d,
                lv.range.unwrap().span(),
                rv.range.unwrap().span(),
            )
            &&& sum_judged(d, lv.range.unwrap().span(), rv.range.unwrap().span())
        }),
{
    let (m1, c1, lv) = eval_expr(m, ctx, l);
    let (m2, c2, rv) = eval_expr(m1, c1, r);
    let d = match join_domain(lv.domain, rv.domain) {
        Some(d) => d,
        None => Domain { signed: false, bits: 256 },
    };
    lemma_sum_judged(d, lv.range.unwrap().span(), rv.range.unwrap().span());
}

} // verus!
