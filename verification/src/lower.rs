//! Lowering of declarations and type expressions into nodes and edges.

use crate::analyzer::{grows, Analyzer, AnalyzerLike, GraphLike, Model};
use crate::ast::{
    copy_name, ContractDefinition, ContractPart, EnumDefinition, ErrorDefinition,
    ErrorParameter, Expression, FunctionDefinition, Identifier, Loc, Parameter, SourceUnit,
    SourceUnitPart, StructDefinition, TypeDefinition, VariableDeclaration, VariableDefinition,
};
use crate::builder::walk_body;
use crate::context::{
    arms_formed_from, contexts_kept, inherits, lemma_inherits, lemma_sums_judged, sums_judged,
    tree_formed,
};
use crate::concrete::Concrete;
use crate::tables::Table;
use crate::types::{
    Builtin, Contract, ContractNode, DynBuiltin, Edge, Enum, EnumNode, Error, ErrorNode,
    ErrorParam, Field, Function, FunctionNode, FunctionParam, FunctionReturn, Node, Struct,
    StructNode, Ty, TyNode, Var, VarNode, VarType,
};
use crate::word::{decimal_value, is_decimal, lemma_word_of, word_limit, word_of, Word};
use vstd::arithmetic::power::pow;
use vstd::prelude::*;
use vstd::string::StrSliceExecFns;

verus! {

/// Ten to any power is at least one, and more than the exponent.
pub proof fn lemma_power_of_ten(e: nat)
    ensures
        pow(10, e) >= 1,
        pow(10, e) > e,
    decreases e,
{
    if e == 0 {
        vstd::arithmetic::power::lemma_pow0(10);
    } else {
        lemma_power_of_ten((e - 1) as nat);
        vstd::arithmetic::power::lemma_pow_adds(10, 1, (e - 1) as nat);
        vstd::arithmetic::power::lemma_pow1(10);
    }
}

/// The value of a number literal fits 256 bits.
pub proof fn lemma_literal_fits(digits: Seq<char>, exponent: Seq<char>)
    requires
        literal_value(digits, exponent).is_some(),
    ensures
        literal_value(digits, exponent).unwrap() < word_limit(),
{
    lemma_power_of_ten(decimal_value(exponent));
    assert(decimal_value(digits) * pow(10, decimal_value(exponent)) >= 0) by (nonlinear_arith)
        requires
            pow(10, decimal_value(exponent)) >= 1,
    ;
}

/// The number that a literal stands for: its digits times ten to the power of its
/// exponent; an exponent without digits is zero.
pub open spec fn scaled(digits: Seq<char>, exponent: Seq<char>) -> int {
    decimal_value(digits) * pow(10, decimal_value(exponent))
}

/// The value of a number literal. It has one where both parts are decimal digits and the
/// number that it stands for fits 256 bits.
pub open spec fn literal_value(digits: Seq<char>, exponent: Seq<char>) -> Option<nat> {
    if is_decimal(digits) && is_decimal(exponent) && scaled(digits, exponent) < word_limit() {
        Some(scaled(digits, exponent) as nat)
    } else {
        None
    }
}

/// What deferring an expression makes of a state: a new node that stands for the
/// expression by its place, and nothing else.
pub open spec fn defer(m: Model, loc: Loc) -> (Model, usize) {
    (m.add_node(Node::Deferred(loc)), m.next())
}

/// The reference to a node as a type, where the node can be the type of a variable.
pub open spec fn var_type_at(nodes: Seq<Node>, idx: usize) -> Option<VarType> {
    if idx < nodes.len() {
        match nodes[idx as int] {
            Node::Builtin(_) => Some(VarType::BuiltIn(idx)),
            Node::DynBuiltin(_) => Some(VarType::DynamicBuiltIn(idx)),
            Node::Concrete(_) => Some(VarType::Concrete(idx)),
            Node::Contract(_) | Node::Struct(_) | Node::Enum(_) | Node::Ty(_) | Node::Unresolved(
                _,
            ) => Some(VarType::User(idx)),
            _ => None,
        }
    } else {
        None
    }
}

/// What lowering an expression makes of a state, and the handle it gives.
///
/// A primitive type gives its one node. A name gives the node registered for it, or a new
/// placeholder that is then registered. An array type gives the one node of the array of
/// its element type. A number literal gives a new 256-bit literal node. An indexed access
/// lowers both parts. Whatever has no node of its own kind, so an indexed access, a type
/// that is not primitive, an array of what cannot be a type, a literal without a value and
/// every other expression, is deferred: it gets a new node that stands for it.
pub open spec fn lower_expr(m: Model, expr: Expression) -> (Model, usize)
    decreases expr,
{
    match expr {
        Expression::Type(loc, ty) => match Builtin::of_type(ty) {
            Some(b) => m.builtin_or_add(b),
            None => defer(m, loc),
        },
        Expression::Variable(ident) => if m.user_types.contains_key(ident.name@) {
            (m, m.user_types[ident.name@])
        } else {
            (m.add_node(Node::Unresolved(ident)).name_type(ident.name@, m.next()), m.next())
        },
        Expression::ArraySubscript(loc, ty_expr, None) => {
            let (m1, inner) = lower_expr(m, *ty_expr);
            match var_type_at(m1.nodes, inner) {
                Some(vt) => m1.dyn_builtin_or_add(DynBuiltin::Array(vt)),
                None => defer(m1, loc),
            }
        },
        Expression::ArraySubscript(loc, ty_expr, Some(index_expr)) => {
            let (m1, _) = lower_expr(m, *ty_expr);
            let (m2, _) = lower_expr(m1, *index_expr);
            defer(m2, loc)
        },
        Expression::NumberLiteral(loc, digits, exponent) => match literal_value(
            digits@,
            exponent@,
        ) {
            Some(v) => (m.add_node(Node::Concrete(Concrete::Uint(256, word_of(v)))), m.next()),
            None => defer(m, loc),
        },
        _ => defer(m, expr.place()),
    }
}

/// What a declaration under a name makes of a state, and the handle of the declared node.
/// Where the name is registered for a placeholder, the placeholder is rewritten and its
/// handle kept; otherwise the node is new, and the name, if there is one, is registered
/// for it.
pub open spec fn declare(m: Model, name: Option<Identifier>, node: Node) -> (Model, usize) {
    match name {
        Some(id) => if m.user_types.contains_key(id.name@) && m.user_types[id.name@]
            < m.nodes.len() && m.nodes[m.user_types[id.name@] as int] is Unresolved {
            (m.set_node(m.user_types[id.name@], node), m.user_types[id.name@])
        } else {
            (m.add_node(node).name_type(id.name@, m.next()), m.next())
        },
        None => (m.add_node(node), m.next()),
    }
}

/// The state after a member was tied to its owner: the node of the member, then the edge
/// from that node to the owner.
pub open spec fn attach(m: Model, owner: usize, edge: Edge, node: Node) -> Model {
    m.add_node(node).add_edge(m.next(), owner, edge)
}

/// The state after the first `n` fields of a struct were lowered.
pub open spec fn lower_fields(m: Model, fields: Seq<VariableDeclaration>, owner: usize, n: nat)
    -> Model
    decreases n,
{
    if n == 0 || n > fields.len() {
        m
    } else {
        let before = lower_fields(m, fields, owner, (n - 1) as nat);
        let f = fields[n - 1];
        let (m1, ty) = lower_expr(before, f.ty);
        attach(m1, owner, Edge::Field, Node::Field(Field { loc: f.loc, ty, name: f.name }))
    }
}

/// The state after the first `n` parameters of an error were lowered.
pub open spec fn lower_error_params(
    m: Model,
    fields: Seq<ErrorParameter>,
    owner: usize,
    n: nat,
) -> Model
    decreases n,
{
    if n == 0 || n > fields.len() {
        m
    } else {
        let before = lower_error_params(m, fields, owner, (n - 1) as nat);
        let f = fields[n - 1];
        let (m1, ty) = lower_expr(before, f.ty);
        attach(
            m1,
            owner,
            Edge::ErrorParam,
            Node::ErrorParam(ErrorParam { loc: f.loc, ty, name: f.name }),
        )
    }
}

/// The state after the first `n` parameters, or return values, of a function were
/// lowered. A missing one is passed over.
pub open spec fn lower_params(
    m: Model,
    params: Seq<Option<Parameter>>,
    owner: usize,
    outputs: bool,
    n: nat,
) -> Model
    decreases n,
{
    if n == 0 || n > params.len() {
        m
    } else {
        let before = lower_params(m, params, owner, outputs, (n - 1) as nat);
        match params[n - 1] {
            Some(p) => {
                let (m1, ty) = lower_expr(before, p.ty);
                if outputs {
                    attach(
                        m1,
                        owner,
                        Edge::FunctionReturn,
                        Node::FunctionReturn(FunctionReturn { loc: p.loc, ty, name: p.name }),
                    )
                } else {
                    attach(
                        m1,
                        owner,
                        Edge::FunctionParam,
                        Node::FunctionParam(
                            FunctionParam { loc: p.loc, function: owner, ty, name: p.name },
                        ),
                    )
                }
            },
            None => before,
        }
    }
}

/// What lowering an enum makes of a state.
pub open spec fn lower_enum(m: Model, def: EnumDefinition) -> (Model, usize) {
    declare(m, def.name, Node::Enum(Enum::of(def)))
}

/// What lowering a struct makes of a state: the struct is declared under its name, then
/// its fields are lowered in order.
pub open spec fn lower_struct(m: Model, def: StructDefinition) -> (Model, usize) {
    let (m1, h) = declare(m, def.name, Node::Struct(Struct::of(def)));
    (lower_fields(m1, def.fields@, h, def.fields@.len()), h)
}

/// What lowering an error makes of a state: the error is declared under its name, then
/// its parameters are lowered in order.
pub open spec fn lower_error(m: Model, def: ErrorDefinition) -> (Model, usize) {
    let (m1, h) = declare(m, def.name, Node::Error(Error::of(def)));
    (lower_error_params(m1, def.fields@, h, def.fields@.len()), h)
}

/// What lowering a variable makes of a state: its type, then its initializer, then the
/// variable is declared under its name.
pub open spec fn lower_var(m: Model, def: VariableDefinition, in_contract: bool) -> (
    Model,
    usize,
) {
    let (m1, ty) = lower_expr(m, def.ty);
    let (m2, initializer) = match def.initializer {
        Some(e) => (lower_expr(m1, e).0, Some(lower_expr(m1, e).1)),
        None => (m1, None),
    };
    declare(
        m2,
        def.name,
        Node::Var(Var { loc: def.loc, ty, name: def.name, initializer, in_contract }),
    )
}

/// What lowering a type alias makes of a state: its type, then the alias is declared
/// under its name.
pub open spec fn lower_ty(m: Model, def: TypeDefinition) -> (Model, usize) {
    let (m1, ty) = lower_expr(m, def.ty);
    declare(m1, Some(def.name), Node::Ty(Ty { loc: def.loc, ty, name: def.name }))
}

/// What lowering a function makes of a state: the function is declared under its name;
/// its parameters, then its return values, are lowered in order; then its body, where it
/// has one, is walked.
pub open spec fn lower_function(m: Model, def: FunctionDefinition) -> (Model, usize) {
    let (m1, h) = declare(m, def.name, Node::Function(Function::of(def)));
    let m2 = lower_params(m1, def.params@, h, false, def.params@.len());
    let m3 = lower_params(m2, def.outputs@, h, true, def.outputs@.len());
    match def.body {
        Some(body) => (walk_body(m3, h, body).0, h),
        None => (m3, h),
    }
}

/// The state after one declaration of a contract was lowered and tied to the contract by
/// an edge of its kind. A declaration of another kind changes nothing.
pub open spec fn lower_contract_part(m: Model, part: ContractPart, owner: usize) -> Model {
    match part {
        ContractPart::StructDefinition(def) => lower_struct(m, *def).0.add_edge(
            lower_struct(m, *def).1,
            owner,
            Edge::Struct,
        ),
        ContractPart::EnumDefinition(def) => lower_enum(m, *def).0.add_edge(
            lower_enum(m, *def).1,
            owner,
            Edge::Enum,
        ),
        ContractPart::ErrorDefinition(def) => lower_error(m, *def).0.add_edge(
            lower_error(m, *def).1,
            owner,
            Edge::Error,
        ),
        ContractPart::VariableDefinition(def) => lower_var(m, *def, true).0.add_edge(
            lower_var(m, *def, true).1,
            owner,
            Edge::Var,
        ),
        ContractPart::FunctionDefinition(def) => lower_function(m, *def).0.add_edge(
            lower_function(m, *def).1,
            owner,
            Edge::Func,
        ),
        ContractPart::TypeDefinition(def) => lower_ty(m, *def).0.add_edge(
            lower_ty(m, *def).1,
            owner,
            Edge::Ty,
        ),
        _ => m,
    }
}

/// The state after the first `n` declarations of a contract were lowered.
pub open spec fn lower_contract_parts(m: Model, parts: Seq<ContractPart>, owner: usize, n: nat)
    -> Model
    decreases n,
{
    if n == 0 || n > parts.len() {
        m
    } else {
        lower_contract_part(
            lower_contract_parts(m, parts, owner, (n - 1) as nat),
            parts[n - 1],
            owner,
        )
    }
}

/// What lowering a contract makes of a state: the contract is declared under its name,
/// then its declarations are lowered in order.
pub open spec fn lower_contract(m: Model, def: ContractDefinition) -> (Model, usize) {
    let (m1, h) = declare(m, def.name, Node::Contract(Contract::of(def)));
    (lower_contract_parts(m1, def.parts@, h, def.parts@.len()), h)
}

/// The state after the declaration under a top-level node was lowered and tied to that
/// node by an edge of its kind. A declaration of another kind changes nothing.
pub open spec fn lower_declaration(m: Model, part: SourceUnitPart, owner: usize) -> Model {
    match part {
        SourceUnitPart::ContractDefinition(def) => lower_contract(m, *def).0.add_edge(
            lower_contract(m, *def).1,
            owner,
            Edge::Contract,
        ),
        SourceUnitPart::StructDefinition(def) => lower_struct(m, *def).0.add_edge(
            lower_struct(m, *def).1,
            owner,
            Edge::Struct,
        ),
        SourceUnitPart::EnumDefinition(def) => lower_enum(m, *def).0.add_edge(
            lower_enum(m, *def).1,
            owner,
            Edge::Enum,
        ),
        SourceUnitPart::ErrorDefinition(def) => lower_error(m, *def).0.add_edge(
            lower_error(m, *def).1,
            owner,
            Edge::Error,
        ),
        SourceUnitPart::VariableDefinition(def) => lower_var(m, *def, false).0.add_edge(
            lower_var(m, *def, false).1,
            owner,
            Edge::Var,
        ),
        SourceUnitPart::FunctionDefinition(def) => lower_function(m, *def).0.add_edge(
            lower_function(m, *def).1,
            owner,
            Edge::Func,
        ),
        SourceUnitPart::TypeDefinition(def) => lower_ty(m, *def).0.add_edge(
            lower_ty(m, *def).1,
            owner,
            Edge::Ty,
        ),
        _ => m,
    }
}

/// What lowering a top-level declaration makes of a state: a node for its place in the
/// file, with an edge to the node of the file; then the declaration itself. The handle
/// is that of the node for its place.
pub open spec fn lower_unit_part(
    m: Model,
    part: SourceUnitPart,
    file_no: usize,
    unit_part: usize,
    parent: usize,
) -> (Model, usize) {
    (
        lower_declaration(
            m.add_node(Node::SourceUnitPart(file_no, unit_part)).add_edge(
                m.next(),
                parent,
                Edge::Part,
            ),
            part,
            m.next(),
        ),
        m.next(),
    )
}

/// The state after the first `n` declarations of a file were lowered.
pub open spec fn lower_unit(
    m: Model,
    parts: Seq<SourceUnitPart>,
    file_no: usize,
    parent: usize,
    n: nat,
) -> Model
    decreases n,
{
    if n == 0 || n > parts.len() {
        m
    } else {
        lower_unit_part(
            lower_unit(m, parts, file_no, parent, (n - 1) as nat),
            parts[n - 1],
            file_no,
            (n - 1) as usize,
            parent,
        ).0
    }
}

/// What lowering a file makes of a state: a node for the file, then its declarations in
/// order. The handle is that of the node for the file.
pub open spec fn lower_source(m: Model, unit: SourceUnit, file_no: usize) -> (Model, usize) {
    (
        lower_unit(
            m.add_node(Node::SourceUnit(file_no)),
            unit.0@,
            file_no,
            m.next(),
            unit.0@.len(),
        ),
        m.next(),
    )
}

/// Whether every character of the text is a decimal digit.
pub fn is_decimal_text(text: &str) -> (b: bool)
    ensures
        b == is_decimal(text@),
{
    let n = text.unicode_len();
    let mut i: usize = 0;
    while i < n
        invariant
            i <= n,
            n == text@.len(),
            forall|k: int| 0 <= k < i ==> '0' <= #[trigger] text@[k] <= '9',
        decreases n - i,
    {
        let c = text.get_char(i);
        if !('0' <= c && c <= '9') {
            return false;
        }
        i = i + 1;
    }
    true
}

/// Reads a number literal: see `literal_value`.
pub fn literal_word(digits: &str, exponent: &str) -> (r: Option<Word>)
    ensures
        r.is_some() == literal_value(digits@, exponent@).is_some(),
        r.is_some() ==> r.unwrap() == word_of(literal_value(digits@, exponent@).unwrap()),
{
    if !is_decimal_text(digits) || !is_decimal_text(exponent) {
        return None;
    }
    let ghost d = decimal_value(digits@);
    let ghost e = decimal_value(exponent@);
    proof {
        lemma_power_of_ten(e);
        assert(d * pow(10, e) >= d) by (nonlinear_arith)
            requires
                pow(10, e) >= 1,
                d >= 0,
        ;
        assert(d >= 1 ==> d * pow(10, e) >= pow(10, e)) by (nonlinear_arith)
            requires
                pow(10, e) >= 1,
        ;
        assert(d == 0 ==> d * pow(10, e) == 0) by (nonlinear_arith);
    }
    let r = match Word::from_dec_str(digits) {
        None => None,
        Some(base) => {
            if base.is_zero() {
                Some(base)
            } else {
                match Word::from_dec_str(exponent) {
                    None => None,
                    Some(power) => match Word::from_u64(10).checked_pow(power) {
                        None => None,
                        Some(scale) => base.checked_mul(scale),
                    },
                }
            }
        },
    };
    proof {
        if r.is_some() {
            lemma_word_of(r.unwrap());
        }
    }
    r
}

impl VarType {
    /// The reference to a node as a type, where the node can be the type of a variable.
    pub fn try_from_idx<A: GraphLike>(analyzer: &A, idx: usize) -> (r: Option<VarType>)
        ensures
            r == var_type_at(
                crate::analyzer::state_of(analyzer.graph_state(), analyzer.tables()).nodes,
                idx,
            ),
    {
        match analyzer.try_node(idx) {
            Some(node) => match node {
                Node::Builtin(_) => Some(VarType::BuiltIn(idx)),
                Node::DynBuiltin(_) => Some(VarType::DynamicBuiltIn(idx)),
                Node::Concrete(_) => Some(VarType::Concrete(idx)),
                Node::Contract(_) | Node::Struct(_) | Node::Enum(_) | Node::Ty(_)
                | Node::Unresolved(_) => Some(VarType::User(idx)),
                _ => None,
            },
            None => None,
        }
    }
}

impl AnalyzerLike for Analyzer {
    fn builtins(&self) -> (t: &Table<Builtin>) {
        &self.builtins
    }

    fn builtins_mut(&mut self) -> (t: &mut Table<Builtin>) {
        &mut self.builtins
    }

    fn dyn_builtins(&self) -> (t: &Table<DynBuiltin>) {
        &self.dyn_builtins
    }

    fn dyn_builtins_mut(&mut self) -> (t: &mut Table<DynBuiltin>) {
        &mut self.dyn_builtins
    }

    fn user_types(&self) -> (t: &Table<String>) {
        &self.user_types
    }

    fn user_types_mut(&mut self) -> (t: &mut Table<String>) {
        &mut self.user_types
    }

    fn parse_expr(&mut self, expr: &Expression) -> (idx: usize)
        ensures
            (final(self)@, idx) == lower_expr(old(self)@, *expr),
            grows(old(self)@, final(self)@),
            arms_formed_from(final(self)@.nodes, old(self)@.nodes.len() as nat),
            contexts_kept(old(self)@.nodes, final(self)@.nodes),
            tree_formed(old(self)@.nodes) ==> tree_formed(final(self)@.nodes),
        decreases expr,
    {
        match expr {
            Expression::Type(loc, ty) => {
                match Builtin::try_from_ty(ty) {
                    Some(builtin) => self.builtin_or_add(builtin),
                    None => self.defer(*loc),
                }
            },
            Expression::Variable(ident) => {
                match self.user_types.get(&ident.name) {
                    Some(idx) => idx,
                    None => {
                        let node = self.add_node(Node::Unresolved(ident.copy()));
                        self.user_types.insert(ident.name.clone(), node);
                        node
                    },
                }
            },
            Expression::ArraySubscript(loc, ty_expr, None) => {
                let inner_ty = self.parse_expr(ty_expr);
                match VarType::try_from_idx(self, inner_ty) {
                    Some(var_type) => {
                        let dyn_b = DynBuiltin::Array(var_type);
                        match self.dyn_builtins.get(&dyn_b) {
                            Some(idx) => idx,
                            None => {
                                let idx = self.add_node(Node::DynBuiltin(dyn_b));
                                self.dyn_builtins.insert(dyn_b, idx);
                                idx
                            },
                        }
                    },
                    None => self.defer(*loc),
                }
            },
            Expression::ArraySubscript(loc, ty_expr, Some(index_expr)) => {
                let _inner_ty = self.parse_expr(ty_expr);
                let _index_ty = self.parse_expr(index_expr);
                self.defer(*loc)
            },
            Expression::NumberLiteral(loc, digits, exponent) => {
                match literal_word(digits.as_str(), exponent.as_str()) {
                    Some(val) => self.add_node(Node::Concrete(Concrete::Uint(256, val))),
                    None => self.defer(*loc),
                }
            },
            _ => self.defer(expr.loc()),
        }
    }
}

impl Analyzer {
    /// Defers an expression: see `defer`.
    pub fn defer(&mut self, loc: Loc) -> (idx: usize)
        ensures
            (final(self)@, idx) == defer(old(self)@, loc),
            idx < final(self)@.nodes.len(),
            grows(old(self)@, final(self)@),
            arms_formed_from(final(self)@.nodes, old(self)@.nodes.len() as nat),
            contexts_kept(old(self)@.nodes, final(self)@.nodes),
            tree_formed(old(self)@.nodes) ==> tree_formed(final(self)@.nodes),
    {
        self.add_node(Node::Deferred(loc))
    }

    /// Declares a node under a name: see `declare`.
    pub fn declare(&mut self, name: &Option<Identifier>, node: Node) -> (idx: usize)
        ensures
            (final(self)@, idx) == declare(old(self)@, *name, node),
            idx < final(self)@.nodes.len(),
            grows(old(self)@, final(self)@),
            !(node is Context) && !(node is ContextVar) ==> arms_formed_from(
                final(self)@.nodes,
                old(self)@.nodes.len() as nat,
            ) && contexts_kept(old(self)@.nodes, final(self)@.nodes),
            tree_formed(old(self)@.nodes) && !(node is Context) && !(node is ContextVar)
                ==> tree_formed(final(self)@.nodes),
    {
        match name {
            Some(id) => {
                let found = self.user_types.get(&id.name);
                let reuse = match found {
                    Some(h) => match self.try_node(h) {
                        Some(Node::Unresolved(_)) => true,
                        _ => false,
                    },
                    None => false,
                };
                if reuse {
                    let h = found.unwrap();
                    let slot = self.node_mut(h);
                    *slot = node;
                    h
                } else {
                    let h = self.add_node(node);
                    self.user_types.insert(id.name.clone(), h);
                    h
                }
            },
            None => self.add_node(node),
        }
    }

    /// Adds the node of a member and the edge from it to its owner.
    fn attach(&mut self, owner: usize, edge: Edge, node: Node)
        requires
            owner < old(self)@.nodes.len(),
        ensures
            final(self)@ == attach(old(self)@, owner, edge, node),
            final(self)@.nodes.len() == old(self)@.nodes.len() + 1,
            grows(old(self)@, final(self)@),
            !(node is Context) && !(node is ContextVar) ==> arms_formed_from(
                final(self)@.nodes,
                old(self)@.nodes.len() as nat,
            ) && contexts_kept(old(self)@.nodes, final(self)@.nodes),
            tree_formed(old(self)@.nodes) && !(node is Context) && !(node is ContextVar)
                ==> tree_formed(final(self)@.nodes),
    {
        let idx = self.add_node(node);
        self.add_edge(idx, owner, edge);
    }

    /// Lowers an enum: the enum is declared under its name.
    pub fn parse_enum_def(&mut self, enum_def: &EnumDefinition) -> (node: EnumNode)
        ensures
            (final(self)@, node.0) == lower_enum(old(self)@, *enum_def),
            node.0 < final(self)@.nodes.len(),
            grows(old(self)@, final(self)@),
            arms_formed_from(final(self)@.nodes, old(self)@.nodes.len() as nat),
            contexts_kept(old(self)@.nodes, final(self)@.nodes),
            tree_formed(old(self)@.nodes) ==> tree_formed(final(self)@.nodes),
    {
        EnumNode(self.declare(&enum_def.name, Node::Enum(Enum::from_def(enum_def))))
    }

    /// Lowers a struct: the struct is declared under its name, then each field becomes a
    /// node with an edge to the struct, in the order of the declaration.
    pub fn parse_struct_def(&mut self, struct_def: &StructDefinition) -> (node: StructNode)
        ensures
            (final(self)@, node.0) == lower_struct(old(self)@, *struct_def),
            node.0 < final(self)@.nodes.len(),
            grows(old(self)@, final(self)@),
            arms_formed_from(final(self)@.nodes, old(self)@.nodes.len() as nat),
            contexts_kept(old(self)@.nodes, final(self)@.nodes),
            tree_formed(old(self)@.nodes) ==> tree_formed(final(self)@.nodes),
    {
        let owner = self.declare(&struct_def.name, Node::Struct(Struct::from_def(struct_def)));
        let ghost start = self@;
        let mut i: usize = 0;
        while i < struct_def.fields.len()
            invariant
                i <= struct_def.fields.len(),
                owner < self@.nodes.len(),
                grows(old(self)@, self@),
                arms_formed_from(self@.nodes, old(self)@.nodes.len() as nat),
                contexts_kept(old(self)@.nodes, self@.nodes),
                tree_formed(old(self)@.nodes) ==> tree_formed(self@.nodes),
                self@ == lower_fields(start, struct_def.fields@, owner, i as nat),
            decreases struct_def.fields.len() - i,
        {
            let field = &struct_def.fields[i];
            let ty = self.parse_expr(&field.ty);
            self.attach(
                owner,
                Edge::Field,
                Node::Field(Field { loc: field.loc, ty, name: copy_name(&field.name) }),
            );
            i = i + 1;
        }
        StructNode(owner)
    }

    /// Lowers an error: the error is declared under its name, then each parameter becomes
    /// a node with an edge to the error, in the order of the declaration.
    pub fn parse_err_def(&mut self, err_def: &ErrorDefinition) -> (node: ErrorNode)
        ensures
            (final(self)@, node.0) == lower_error(old(self)@, *err_def),
            node.0 < final(self)@.nodes.len(),
            grows(old(self)@, final(self)@),
            arms_formed_from(final(self)@.nodes, old(self)@.nodes.len() as nat),
            contexts_kept(old(self)@.nodes, final(self)@.nodes),
            tree_formed(old(self)@.nodes) ==> tree_formed(final(self)@.nodes),
    {
        let owner = self.declare(&err_def.name, Node::Error(Error::from_def(err_def)));
        let ghost start = self@;
        let mut i: usize = 0;
        while i < err_def.fields.len()
            invariant
                i <= err_def.fields.len(),
                owner < self@.nodes.len(),
                grows(old(self)@, self@),
                arms_formed_from(self@.nodes, old(self)@.nodes.len() as nat),
                contexts_kept(old(self)@.nodes, self@.nodes),
                tree_formed(old(self)@.nodes) ==> tree_formed(self@.nodes),
                self@ == lower_error_params(start, err_def.fields@, owner, i as nat),
            decreases err_def.fields.len() - i,
        {
            let field = &err_def.fields[i];
            let ty = self.parse_expr(&field.ty);
            self.attach(
                owner,
                Edge::ErrorParam,
                Node::ErrorParam(ErrorParam { loc: field.loc, ty, name: copy_name(&field.name) }),
            );
            i = i + 1;
        }
        ErrorNode(owner)
    }

    /// Lowers the parameters, or the return values, of a function in order: each becomes
    /// a node with an edge to the function.
    pub fn parse_params(&mut self, params: &Vec<Option<Parameter>>, owner: usize, outputs: bool)
        requires
            owner < old(self)@.nodes.len(),
        ensures
            final(self)@ == lower_params(old(self)@, params@, owner, outputs, params@.len()),
            grows(old(self)@, final(self)@),
            arms_formed_from(final(self)@.nodes, old(self)@.nodes.len() as nat),
            contexts_kept(old(self)@.nodes, final(self)@.nodes),
            tree_formed(old(self)@.nodes) ==> tree_formed(final(self)@.nodes),
    {
        let ghost start = self@;
        let mut i: usize = 0;
        while i < params.len()
            invariant
                i <= params.len(),
                owner < self@.nodes.len(),
                grows(old(self)@, self@),
                arms_formed_from(self@.nodes, old(self)@.nodes.len() as nat),
                contexts_kept(old(self)@.nodes, self@.nodes),
                tree_formed(old(self)@.nodes) ==> tree_formed(self@.nodes),
                self@ == lower_params(start, params@, owner, outputs, i as nat),
            decreases params.len() - i,
        {
            match &params[i] {
                Some(p) => {
                    let ty = self.parse_expr(&p.ty);
                    if outputs {
                        self.attach(
                            owner,
                            Edge::FunctionReturn,
                            Node::FunctionReturn(
                                FunctionReturn { loc: p.loc, ty, name: copy_name(&p.name) },
                            ),
                        );
                    } else {
                        self.attach(
                            owner,
                            Edge::FunctionParam,
                            Node::FunctionParam(
                                FunctionParam {
                                    loc: p.loc,
                                    function: owner,
                                    ty,
                                    name: copy_name(&p.name),
                                },
                            ),
                        );
                    }
                },
                None => {},
            }
            i = i + 1;
        }
    }

    /// Lowers a function: the function is declared under its name; each parameter and
    /// each return value becomes a node with an edge to the function; then the body is
    /// walked into contexts.
    pub fn parse_func_def(&mut self, func_def: &FunctionDefinition) -> (node: FunctionNode)
        ensures
            (final(self)@, node.0) == lower_function(old(self)@, *func_def),
            inherits(final(self)@.nodes),
            sums_judged(final(self)@.nodes),
            node.0 < final(self)@.nodes.len(),
            grows(old(self)@, final(self)@),
            arms_formed_from(final(self)@.nodes, old(self)@.nodes.len() as nat),
            contexts_kept(old(self)@.nodes, final(self)@.nodes),
            tree_formed(old(self)@.nodes) ==> tree_formed(final(self)@.nodes),
    {
        let func = self.declare(&func_def.name, Node::Function(Function::from_def(func_def)));
        self.parse_params(&func_def.params, func, false);
        self.parse_params(&func_def.outputs, func, true);
        match &func_def.body {
            Some(body) => {
                let _entry = self.parse_ctx_body(func, body);
            },
            None => {},
        }
        proof {
            lemma_inherits(self@.nodes);
            lemma_sums_judged(self@.nodes);
        }
        FunctionNode(func)
    }

    /// Lowers one declaration of a contract and ties it to the contract.
    fn parse_contract_part(&mut self, part: &ContractPart, owner: usize)
        requires
            owner < old(self)@.nodes.len(),
        ensures
            final(self)@ == lower_contract_part(old(self)@, *part, owner),
            grows(old(self)@, final(self)@),
            arms_formed_from(final(self)@.nodes, old(self)@.nodes.len() as nat),
            contexts_kept(old(self)@.nodes, final(self)@.nodes),
            tree_formed(old(self)@.nodes) ==> tree_formed(final(self)@.nodes),
    {
        match part {
            ContractPart::StructDefinition(def) => {
                let node = self.parse_struct_def(def);
                self.add_edge(node.0, owner, Edge::Struct);
            },
            ContractPart::EnumDefinition(def) => {
                let node = self.parse_enum_def(def);
                self.add_edge(node.0, owner, Edge::Enum);
            },
            ContractPart::ErrorDefinition(def) => {
                let node = self.parse_err_def(def);
                self.add_edge(node.0, owner, Edge::Error);
            },
            ContractPart::VariableDefinition(def) => {
                let node = self.parse_var_def(def, true);
                self.add_edge(node.0, owner, Edge::Var);
            },
            ContractPart::FunctionDefinition(def) => {
                let node = self.parse_func_def(def);
                self.add_edge(node.0, owner, Edge::Func);
            },
            ContractPart::TypeDefinition(def) => {
                let node = self.parse_ty_def(def);
                self.add_edge(node.0, owner, Edge::Ty);
            },
            _ => {},
        }
    }

    /// Lowers a contract: the contract is declared under its name, then each of its
    /// declarations is lowered in order and tied to the contract by an edge of its kind.
    pub fn parse_contract_def(&mut self, contract_def: &ContractDefinition) -> (node:
        ContractNode)
        ensures
            (final(self)@, node.0) == lower_contract(old(self)@, *contract_def),
            node.0 < final(self)@.nodes.len(),
            grows(old(self)@, final(self)@),
            arms_formed_from(final(self)@.nodes, old(self)@.nodes.len() as nat),
            contexts_kept(old(self)@.nodes, final(self)@.nodes),
            tree_formed(old(self)@.nodes) ==> tree_formed(final(self)@.nodes),
    {
        let con_node = self.declare(
            &contract_def.name,
            Node::Contract(Contract::from_def(contract_def)),
        );
        let ghost start = self@;
        let mut i: usize = 0;
        while i < contract_def.parts.len()
            invariant
                i <= contract_def.parts.len(),
                con_node < self@.nodes.len(),
                grows(old(self)@, self@),
                arms_formed_from(self@.nodes, old(self)@.nodes.len() as nat),
                contexts_kept(old(self)@.nodes, self@.nodes),
                tree_formed(old(self)@.nodes) ==> tree_formed(self@.nodes),
                self@ == lower_contract_parts(start, contract_def.parts@, con_node, i as nat),
            decreases contract_def.parts.len() - i,
        {
            self.parse_contract_part(&contract_def.parts[i], con_node);
            i = i + 1;
        }
        ContractNode(con_node)
    }

    /// Lowers the declaration under a top-level node and ties it to that node.
    fn parse_declaration(&mut self, part: &SourceUnitPart, owner: usize)
        requires
            owner < old(self)@.nodes.len(),
        ensures
            final(self)@ == lower_declaration(old(self)@, *part, owner),
            grows(old(self)@, final(self)@),
            arms_formed_from(final(self)@.nodes, old(self)@.nodes.len() as nat),
            contexts_kept(old(self)@.nodes, final(self)@.nodes),
            tree_formed(old(self)@.nodes) ==> tree_formed(final(self)@.nodes),
    {
        match part {
            SourceUnitPart::ContractDefinition(def) => {
                let node = self.parse_contract_def(def);
                self.add_edge(node.0, owner, Edge::Contract);
            },
            SourceUnitPart::StructDefinition(def) => {
                let node = self.parse_struct_def(def);
                self.add_edge(node.0, owner, Edge::Struct);
            },
            SourceUnitPart::EnumDefinition(def) => {
                let node = self.parse_enum_def(def);
                self.add_edge(node.0, owner, Edge::Enum);
            },
            SourceUnitPart::ErrorDefinition(def) => {
                let node = self.parse_err_def(def);
                self.add_edge(node.0, owner, Edge::Error);
            },
            SourceUnitPart::VariableDefinition(def) => {
                let node = self.parse_var_def(def, false);
                self.add_edge(node.0, owner, Edge::Var);
            },
            SourceUnitPart::FunctionDefinition(def) => {
                let node = self.parse_func_def(def);
                self.add_edge(node.0, owner, Edge::Func);
            },
            SourceUnitPart::TypeDefinition(def) => {
                let node = self.parse_ty_def(def);
                self.add_edge(node.0, owner, Edge::Ty);
            },
            _ => {},
        }
    }

    /// Lowers a top-level declaration: a node for its place in the file, with an edge to
    /// the node of the file, then the declaration itself, tied to the node for its place.
    pub fn parse_source_unit_part(
        &mut self,
        sup: &SourceUnitPart,
        file_no: usize,
        unit_part: usize,
        parent: usize,
    ) -> (node: usize)
        requires
            parent < old(self)@.nodes.len(),
        ensures
            (final(self)@, node) == lower_unit_part(old(self)@, *sup, file_no, unit_part, parent),
            node == old(self)@.nodes.len(),
            final(self)@.nodes.len() > old(self)@.nodes.len(),
            grows(old(self)@, final(self)@),
            arms_formed_from(final(self)@.nodes, old(self)@.nodes.len() as nat),
            contexts_kept(old(self)@.nodes, final(self)@.nodes),
            tree_formed(old(self)@.nodes) ==> tree_formed(final(self)@.nodes),
    {
        let sup_node = self.add_node(Node::SourceUnitPart(file_no, unit_part));
        self.add_edge(sup_node, parent, Edge::Part);
        assert(grows(old(self)@, self@));
        self.parse_declaration(sup, sup_node);
        sup_node
    }

    /// Lowers the declarations of a file in order, under the node of the file.
    pub fn parse_source_unit(&mut self, source_unit: &SourceUnit, file_no: usize, parent: usize)
        requires
            parent < old(self)@.nodes.len(),
        ensures
            final(self)@ == lower_unit(
                old(self)@,
                source_unit.0@,
                file_no,
                parent,
                source_unit.0@.len(),
            ),
            grows(old(self)@, final(self)@),
            arms_formed_from(final(self)@.nodes, old(self)@.nodes.len() as nat),
            contexts_kept(old(self)@.nodes, final(self)@.nodes),
            tree_formed(old(self)@.nodes) ==> tree_formed(final(self)@.nodes),
    {
        let ghost start = self@;
        let mut i: usize = 0;
        while i < source_unit.0.len()
            invariant
                i <= source_unit.0.len(),
                parent < self@.nodes.len(),
                grows(old(self)@, self@),
                arms_formed_from(self@.nodes, old(self)@.nodes.len() as nat),
                contexts_kept(old(self)@.nodes, self@.nodes),
                tree_formed(old(self)@.nodes) ==> tree_formed(self@.nodes),
                self@ == lower_unit(start, source_unit.0@, file_no, parent, i as nat),
            decreases source_unit.0.len() - i,
        {
            self.parse_source_unit_part(&source_unit.0[i], file_no, i, parent);
            i = i + 1;
        }
    }

    /// Lowers a file: a node for the file, then its declarations in order. Gives the
    /// handle of the node for the file.
    pub fn parse(&mut self, source_unit: &SourceUnit, file_no: usize) -> (entry: Option<usize>)
        ensures
            entry == Some(lower_source(old(self)@, *source_unit, file_no).1),
            inherits(final(self)@.nodes),
            sums_judged(final(self)@.nodes),
            grows(old(self)@, final(self)@),
            arms_formed_from(final(self)@.nodes, old(self)@.nodes.len() as nat),
            contexts_kept(old(self)@.nodes, final(self)@.nodes),
            tree_formed(old(self)@.nodes) ==> tree_formed(final(self)@.nodes),
            final(self)@ == lower_source(old(self)@, *source_unit, file_no).0,
            entry.unwrap() == old(self)@.nodes.len(),
            entry.unwrap() < final(self)@.nodes.len(),
    {
        let parent = self.add_node(Node::SourceUnit(file_no));
        assert(grows(old(self)@, self@));
        self.parse_source_unit(source_unit, file_no, parent);
        proof {
            lemma_inherits(self@.nodes);
            lemma_sums_judged(self@.nodes);
        }
        Some(parent)
    }

    /// Lowers a variable: its type and its initializer are lowered, then the variable is
    /// declared under its name.
    pub fn parse_var_def(&mut self, var_def: &VariableDefinition, in_contract: bool) -> (node:
        VarNode)
        ensures
            (final(self)@, node.0) == lower_var(old(self)@, *var_def, in_contract),
            node.0 < final(self)@.nodes.len(),
            grows(old(self)@, final(self)@),
            arms_formed_from(final(self)@.nodes, old(self)@.nodes.len() as nat),
            contexts_kept(old(self)@.nodes, final(self)@.nodes),
            tree_formed(old(self)@.nodes) ==> tree_formed(final(self)@.nodes),
    {
        let ty = self.parse_expr(&var_def.ty);
        let initializer = match &var_def.initializer {
            Some(e) => Some(self.parse_expr(e)),
            None => None,
        };
        let idx = self.declare(
            &var_def.name,
            Node::Var(
                Var {
                    loc: var_def.loc,
                    ty,
                    name: copy_name(&var_def.name),
                    initializer,
                    in_contract,
                },
            ),
        );
        VarNode(idx)
    }

    /// Lowers a type alias: its type is lowered, then the alias is declared under its
    /// name.
    pub fn parse_ty_def(&mut self, ty_def: &TypeDefinition) -> (node: TyNode)
        ensures
            (final(self)@, node.0) == lower_ty(old(self)@, *ty_def),
            node.0 < final(self)@.nodes.len(),
            grows(old(self)@, final(self)@),
            arms_formed_from(final(self)@.nodes, old(self)@.nodes.len() as nat),
            contexts_kept(old(self)@.nodes, final(self)@.nodes),
            tree_formed(old(self)@.nodes) ==> tree_formed(final(self)@.nodes),
    {
        let ty = self.parse_expr(&ty_def.ty);
        let name = Some(ty_def.name.copy());
        TyNode(self.declare(&name, Node::Ty(Ty { loc: ty_def.loc, ty, name: ty_def.name.copy() })))
    }
}

/// A declaration keeps every handle: the declared node stands under the handle given,
/// every other node is as before, no edge changes, and the name, if there is one, is
/// registered for the handle while every other name keeps what it had.
pub proof fn lemma_declare_keeps(m: Model, name: Option<Identifier>, node: Node)
    requires
        m.nodes.len() < usize::MAX,
    ensures
        ({
            let (after, h) = declare(m, name, node);
            &&& h < after.nodes.len()
            &&& after.nodes[h as int] == node
            &&& after.nodes.len() >= m.nodes.len()
            &&& forall|i: int| 0 <= i < m.nodes.len() && i != h ==> after.nodes[i] == m.nodes[i]
            &&& after.edges == m.edges
            &&& name.is_some() ==> after.user_types.contains_key(name.unwrap().name@)
                && after.user_types[name.unwrap().name@] == h
            &&& forall|other: Seq<char>|
                (name.is_none() || other != name.unwrap().name@) && m.user_types.contains_key(
                    other,
                ) ==> after.user_types.contains_key(other) && after.user_types[other]
                    == m.user_types[other]
        }),
{
}

/// A primitive type has one node: asking again gives the same handle and changes nothing.
pub proof fn lemma_builtin_once(m: Model, builtin: Builtin)
    requires
        m.nodes.len() < usize::MAX,
    ensures
        ({
            let (after, h) = m.builtin_or_add(builtin);
            &&& after.builtin_or_add(builtin) == (after, h)
            &&& h == m.next() || after == m
        }),
{
}

/// Lowering an expression only adds: every node keeps its handle, no edge changes, and
/// every registered name and type keeps the handle it had.
pub proof fn lemma_lower_expr_adds(m: Model, expr: Expression)
    ensures
        ({
            let after = lower_expr(m, expr).0;
            &&& after.nodes.len() >= m.nodes.len()
            &&& forall|i: int| 0 <= i < m.nodes.len() ==> after.nodes[i] == m.nodes[i]
            &&& after.edges == m.edges
            &&& forall|name: Seq<char>| #[trigger]
                m.user_types.contains_key(name) ==> after.user_types.contains_key(name)
                    && after.user_types[name] == m.user_types[name]
            &&& forall|b: Builtin| #[trigger]
                m.builtins.contains_key(b) ==> after.builtins.contains_key(b) && after.builtins[b]
                    == m.builtins[b]
            &&& forall|d: DynBuiltin| #[trigger]
                m.dyn_builtins.contains_key(d) ==> after.dyn_builtins.contains_key(d)
                    && after.dyn_builtins[d] == m.dyn_builtins[d]
        }),
    decreases expr,
{
    match expr {
        Expression::ArraySubscript(_, ty_expr, None) => {
            lemma_lower_expr_adds(m, *ty_expr);
        },
        Expression::ArraySubscript(_, ty_expr, Some(index_expr)) => {
            lemma_lower_expr_adds(m, *ty_expr);
            lemma_lower_expr_adds(lower_expr(m, *ty_expr).0, *index_expr);
        },
        _ => {},
    }
}

} // verus!
