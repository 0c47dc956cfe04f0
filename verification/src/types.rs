//! What the nodes and edges of the graph hold.

use crate::analyzer::{state_of, AnalyzerLike, GraphLike};
use crate::ast::{
    copy_name, ContractDefinition, ContractTy, EnumDefinition, ErrorDefinition,
    FunctionDefinition, FunctionTy, Identifier, Loc, StructDefinition, Type,
};
use crate::concrete::Concrete;
use crate::range::{Domain, Range, Relation};
use vstd::prelude::*;

verus! {

/// A primitive type.
#[derive(Debug, Clone, Copy, PartialEq, Eq, Hash, Structural)]
pub enum Builtin {
    Address,
    AddressPayable,
    Payable,
    Bool,
    String,
    Int(u16),
    Uint(u16),
    Bytes(u8),
    Rational,
    DynamicBytes,
}

impl Builtin {
    /// The primitive type that a written type names, if it names one.
    pub open spec fn of_type(ty: Type) -> Option<Builtin> {
        match ty {
            Type::Address => Some(Builtin::Address),
            Type::AddressPayable => Some(Builtin::AddressPayable),
            Type::Payable => Some(Builtin::Payable),
            Type::Bool => Some(Builtin::Bool),
            Type::String => Some(Builtin::String),
            Type::Int(n) => Some(Builtin::Int(n)),
            Type::Uint(n) => Some(Builtin::Uint(n)),
            Type::Bytes(n) => Some(Builtin::Bytes(n)),
            Type::Rational => Some(Builtin::Rational),
            Type::DynamicBytes => Some(Builtin::DynamicBytes),
            Type::Mapping(_, _) => None,
            Type::Function => None,
        }
    }

    /// The primitive type that a written type names, if it names one.
    pub fn try_from_ty(ty: &Type) -> (r: Option<Builtin>)
        ensures
            r == Builtin::of_type(*ty),
    {
        match ty {
            Type::Address => Some(Builtin::Address),
            Type::AddressPayable => Some(Builtin::AddressPayable),
            Type::Payable => Some(Builtin::Payable),
            Type::Bool => Some(Builtin::Bool),
            Type::String => Some(Builtin::String),
            Type::Int(n) => Some(Builtin::Int(*n)),
            Type::Uint(n) => Some(Builtin::Uint(*n)),
            Type::Bytes(n) => Some(Builtin::Bytes(*n)),
            Type::Rational => Some(Builtin::Rational),
            Type::DynamicBytes => Some(Builtin::DynamicBytes),
            Type::Mapping(_, _) => None,
            Type::Function => None,
        }
    }

    /// The numbers of the type: integers by their width and signedness, truth values as
    /// one bit, addresses as 160 bits, byte arrays as eight bits a byte. Other types, and
    /// widths outside 1 to 256 bits, have none.
    pub open spec fn numbers(self) -> Option<Domain> {
        match self {
            Builtin::Uint(n) => if 1 <= n <= 256 {
                Some(Domain { signed: false, bits: n })
            } else {
                None
            },
            Builtin::Int(n) => if 1 <= n <= 256 {
                Some(Domain { signed: true, bits: n })
            } else {
                None
            },
            Builtin::Bool => Some(Domain { signed: false, bits: 1 }),
            Builtin::Address | Builtin::AddressPayable | Builtin::Payable => Some(
                Domain { signed: false, bits: 160 },
            ),
            Builtin::Bytes(n) => if 1 <= n <= 32 {
                Some(Domain { signed: false, bits: (8 * n) as u16 })
            } else {
                None
            },
            _ => None,
        }
    }

    /// The numbers of the type: see `numbers`.
    pub fn domain(&self) -> (d: Option<Domain>)
        ensures
            d == self.numbers(),
    {
        match self {
            Builtin::Uint(n) => Domain::new(false, *n),
            Builtin::Int(n) => Domain::new(true, *n),
            Builtin::Bool => Domain::new(false, 1),
            Builtin::Address | Builtin::AddressPayable | Builtin::Payable => Domain::new(
                false,
                160,
            ),
            Builtin::Bytes(n) => if 1 <= *n && *n <= 32 {
                let bits: u16 = 8 * (*n as u16);
                Domain::new(false, bits)
            } else {
                None
            },
            _ => None,
        }
    }
}

/// A reference to the node of a type.
#[derive(Debug, Clone, Copy, PartialEq, Eq, Hash, Structural)]
pub enum VarType {
    User(usize),
    BuiltIn(usize),
    DynamicBuiltIn(usize),
    Concrete(usize),
}

/// A type of dynamic size.
#[derive(Debug, Clone, Copy, PartialEq, Eq, Hash, Structural)]
pub enum DynBuiltin {
    Array(VarType),
    Mapping(VarType, VarType),
}

/// The handle of a literal.
#[derive(Debug, Clone, Copy, PartialEq, Eq, Hash, Structural)]
pub struct ConcreteNode(pub usize);

/// The handle of a contract.
#[derive(Debug, Clone, Copy, PartialEq, Eq, Hash, Structural)]
pub struct ContractNode(pub usize);

/// The handle of an enum.
#[derive(Debug, Clone, Copy, PartialEq, Eq, Hash, Structural)]
pub struct EnumNode(pub usize);

/// The handle of a struct.
#[derive(Debug, Clone, Copy, PartialEq, Eq, Hash, Structural)]
pub struct StructNode(pub usize);

/// The handle of an error.
#[derive(Debug, Clone, Copy, PartialEq, Eq, Hash, Structural)]
pub struct ErrorNode(pub usize);

/// The handle of a function.
#[derive(Debug, Clone, Copy, PartialEq, Eq, Hash, Structural)]
pub struct FunctionNode(pub usize);

/// The handle of a declared variable.
#[derive(Debug, Clone, Copy, PartialEq, Eq, Hash, Structural)]
pub struct VarNode(pub usize);

/// The handle of a type alias.
#[derive(Debug, Clone, Copy, PartialEq, Eq, Hash, Structural)]
pub struct TyNode(pub usize);

/// A contract.
#[derive(Debug, PartialEq, Eq)]
pub struct Contract {
    pub loc: Loc,
    pub ty: ContractTy,
    pub name: Option<Identifier>,
}

/// A function.
#[derive(Debug, PartialEq, Eq)]
pub struct Function {
    pub loc: Loc,
    pub ty: FunctionTy,
    pub name: Option<Identifier>,
}

/// A parameter of a function.
#[derive(Debug, PartialEq, Eq)]
pub struct FunctionParam {
    pub loc: Loc,
    /// The function that takes the parameter.
    pub function: usize,
    /// The node of the parameter's type.
    pub ty: usize,
    pub name: Option<Identifier>,
}

/// A return value of a function.
#[derive(Debug, PartialEq, Eq)]
pub struct FunctionReturn {
    pub loc: Loc,
    pub ty: usize,
    pub name: Option<Identifier>,
}

/// A struct.
#[derive(Debug, PartialEq, Eq)]
pub struct Struct {
    pub loc: Loc,
    pub name: Option<Identifier>,
}

/// A field of a struct.
#[derive(Debug, PartialEq, Eq)]
pub struct Field {
    pub loc: Loc,
    pub ty: usize,
    pub name: Option<Identifier>,
}

/// An enum.
#[derive(Debug, PartialEq, Eq)]
pub struct Enum {
    pub loc: Loc,
    pub name: Option<Identifier>,
    /// How many values the enum lists.
    pub values: usize,
}

/// An error.
#[derive(Debug, PartialEq, Eq)]
pub struct Error {
    pub loc: Loc,
    pub name: Option<Identifier>,
}

/// A parameter of an error.
#[derive(Debug, PartialEq, Eq)]
pub struct ErrorParam {
    pub loc: Loc,
    pub ty: usize,
    pub name: Option<Identifier>,
}

/// A declared variable: a state variable, or one at the top level.
#[derive(Debug, PartialEq, Eq)]
pub struct Var {
    pub loc: Loc,
    pub ty: usize,
    pub name: Option<Identifier>,
    /// The node of the initializer, where the variable has one.
    pub initializer: Option<usize>,
    pub in_contract: bool,
}

/// A type alias.
#[derive(Debug, PartialEq, Eq)]
pub struct Ty {
    pub loc: Loc,
    pub ty: usize,
    pub name: Identifier,
}

impl Contract {
    /// What a contract node holds of a declaration.
    pub open spec fn of(def: ContractDefinition) -> Contract {
        Contract { loc: def.loc, ty: def.ty, name: def.name }
    }

    /// What a contract node holds of a declaration.
    pub fn from_def(def: &ContractDefinition) -> (c: Contract)
        ensures
            c == Contract::of(*def),
    {
        Contract { loc: def.loc, ty: def.ty, name: copy_name(&def.name) }
    }
}

impl Function {
    /// What a function node holds of a declaration.
    pub open spec fn of(def: FunctionDefinition) -> Function {
        Function { loc: def.loc, ty: def.ty, name: def.name }
    }

    /// What a function node holds of a declaration.
    pub fn from_def(def: &FunctionDefinition) -> (f: Function)
        ensures
            f == Function::of(*def),
    {
        Function { loc: def.loc, ty: def.ty, name: copy_name(&def.name) }
    }
}

impl Struct {
    /// What a struct node holds of a declaration.
    pub open spec fn of(def: StructDefinition) -> Struct {
        Struct { loc: def.loc, name: def.name }
    }

    /// What a struct node holds of a declaration.
    pub fn from_def(def: &StructDefinition) -> (s: Struct)
        ensures
            s == Struct::of(*def),
    {
        Struct { loc: def.loc, name: copy_name(&def.name) }
    }
}

impl Enum {
    /// What an enum node holds of a declaration.
    pub open spec fn of(def: EnumDefinition) -> Enum {
        Enum { loc: def.loc, name: def.name, values: def.values.len() }
    }

    /// What an enum node holds of a declaration.
    pub fn from_def(def: &EnumDefinition) -> (e: Enum)
        ensures
            e == Enum::of(*def),
    {
        Enum { loc: def.loc, name: copy_name(&def.name), values: def.values.len() }
    }
}

impl Error {
    /// What an error node holds of a declaration.
    pub open spec fn of(def: ErrorDefinition) -> Error {
        Error { loc: def.loc, name: def.name }
    }

    /// What an error node holds of a declaration.
    pub fn from_def(def: &ErrorDefinition) -> (e: Error)
        ensures
            e == Error::of(*def),
    {
        Error { loc: def.loc, name: copy_name(&def.name) }
    }
}

/// How a context came about.
#[derive(Debug, Clone, Copy, PartialEq, Eq, Hash, Structural)]
pub enum Branch {
    /// The start of a function body.
    Entry,
    /// The arm of a branch on which the condition holds.
    True,
    /// The arm of a branch on which the condition does not hold.
    False,
    /// The body of a loop, run at least once.
    Loop,
    /// What follows a branch or a loop.
    Join,
}

/// The value of an expression: the variable it names, if it is one, the type of its
/// numbers and its range, as far as each is known.
#[derive(Debug, PartialEq, Eq)]
pub struct Value {
    pub name: Option<String>,
    pub domain: Option<Domain>,
    pub range: Option<Range>,
}

/// A comparison of two values that holds throughout a context.
#[derive(Debug, PartialEq, Eq)]
pub struct Condition {
    pub loc: Loc,
    pub left: Value,
    pub relation: Relation,
    pub right: Value,
}

/// One straight-line slice of the execution of a function.
#[derive(Debug, PartialEq, Eq)]
pub struct Context {
    /// The function that the context belongs to.
    pub function: usize,
    /// The context that this one was forked from; none at the start of a function.
    pub parent: Option<usize>,
    /// The fork marker under which the context hangs.
    pub fork: Option<usize>,
    pub branch: Branch,
    /// What the fork decided for this context.
    pub condition: Option<Condition>,
}

/// How a version of a variable came about.
#[derive(Debug, Clone, Copy, PartialEq, Eq, Hash, Structural)]
pub enum Origin {
    /// A parameter or a declaration.
    Declared,
    /// An assignment.
    Assigned,
    /// A restriction by the condition of a branch.
    Branch,
    /// A restriction by an assertion.
    Assertion,
    /// The union of the versions on two paths.
    Merged,
}

/// One version of a variable in one context.
#[derive(Debug, PartialEq, Eq)]
pub struct ContextVar {
    pub loc: Loc,
    /// The name of the variable; a temporary has none.
    pub name: Option<String>,
    /// The context that the version belongs to.
    pub ctx: usize,
    /// The node that this version is a temporary of, where it is not a variable of the source.
    pub tmp_of: Option<usize>,
    /// The version of the same variable that this one replaces.
    pub prev: Option<usize>,
    pub domain: Option<Domain>,
    pub range: Option<Range>,
    pub origin: Origin,
}

/// A copy of an optional string.
pub fn copy_text(text: &Option<String>) -> (r: Option<String>)
    ensures
        r == *text,
{
    match text {
        Some(s) => Some(s.clone()),
        None => None,
    }
}

/// A copy of an optional range.
pub fn copy_range(range: &Option<Range>) -> (r: Option<Range>)
    ensures
        r == *range,
{
    match range {
        Some(x) => Some(x.copy()),
        None => None,
    }
}

impl Value {
    /// A value of which nothing is known.
    pub fn unknown() -> (v: Value)
        ensures
            v == (Value { name: None, domain: None, range: None }),
    {
        Value { name: None, domain: None, range: None }
    }

    /// A copy of the value.
    pub fn copy(&self) -> (r: Value)
        ensures
            r == *self,
    {
        Value {
            name: copy_text(&self.name),
            domain: self.domain,
            range: copy_range(&self.range),
        }
    }
}

impl Condition {
    /// The condition that holds exactly where `self` does not.
    pub open spec fn negation(self) -> Condition {
        Condition {
            loc: self.loc,
            left: self.left,
            relation: self.relation.negation(),
            right: self.right,
        }
    }

    /// A copy of the condition.
    pub fn copy(&self) -> (r: Condition)
        ensures
            r == *self,
    {
        Condition {
            loc: self.loc,
            left: self.left.copy(),
            relation: self.relation,
            right: self.right.copy(),
        }
    }

    /// The condition that holds exactly where `self` does not.
    pub fn negated(&self) -> (r: Condition)
        ensures
            r == self.negation(),
    {
        Condition {
            loc: self.loc,
            left: self.left.copy(),
            relation: self.relation.negated(),
            right: self.right.copy(),
        }
    }
}

/// The relations between contexts and their variables.
#[derive(Debug, Clone, Copy, PartialEq, Eq, Hash, Structural)]
pub enum ContextEdge {
    /// From the entry context to its function.
    Context,
    /// From a forked context to the context it was forked from.
    Subcontext,
    /// From a fork marker to the context that forked.
    Fork,
    /// From a variable version to its context.
    Variable,
    /// From a variable version to the version it replaces.
    Prev,
}

/// The relation that an edge stands for; it runs from the part to the whole.
#[derive(Debug, Clone, Copy, PartialEq, Eq, Hash, Structural)]
pub enum Edge {
    Part,
    Context(ContextEdge),
    Contract,
    Field,
    Enum,
    Struct,
    Error,
    ErrorParam,
    Event,
    Var,
    Ty,
    Func,
    FunctionParam,
    FunctionReturn,
}

/// A node of the graph.
#[derive(Debug, PartialEq, Eq)]
pub enum Node {
    Context(Context),
    ContextVar(ContextVar),
    ContextFork,
    Builtin(Builtin),
    DynBuiltin(DynBuiltin),
    VarType(VarType),
    /// A source file, by its number.
    SourceUnit(usize),
    /// A top-level declaration, by the number of its file and its position in it.
    SourceUnitPart(usize, usize),
    Contract(Contract),
    Function(Function),
    FunctionParam(FunctionParam),
    FunctionReturn(FunctionReturn),
    Struct(Struct),
    Enum(Enum),
    Error(Error),
    ErrorParam(ErrorParam),
    Field(Field),
    Var(Var),
    Ty(Ty),
    /// A name that was used before anything declared it.
    Unresolved(Identifier),
    /// An expression that has no node of its own kind, by its place in the source.
    Deferred(Loc),
    Concrete(Concrete),
}

/// The literal at a handle, where the handle has one.
pub open spec fn concrete_at(nodes: Seq<Node>, idx: usize) -> Option<Concrete> {
    if idx < nodes.len() {
        match nodes[idx as int] {
            Node::Concrete(c) => Some(c),
            _ => None,
        }
    } else {
        None
    }
}

impl ConcreteNode {
    /// The literal that the handle stands for.
    pub fn underlying<'a, A: AnalyzerLike>(&self, analyzer: &'a A) -> (c: &'a Concrete)
        requires
            concrete_at(
                state_of(analyzer.graph_state(), analyzer.tables()).nodes,
                self.0,
            ).is_some(),
        ensures
            Some(*c) == concrete_at(
                state_of(analyzer.graph_state(), analyzer.tables()).nodes,
                self.0,
            ),
    {
        match analyzer.node(self.0) {
            Node::Concrete(c) => c,
            _ => vstd::pervasive::unreached(),
        }
    }

    /// The literal that the handle stands for, or nothing where it stands for none.
    pub fn try_underlying<'a, A: AnalyzerLike>(&self, analyzer: &'a A) -> (c: Option<
        &'a Concrete,
    >)
        ensures
            match c {
                Some(x) => Some(*x),
                None => None,
            } == concrete_at(state_of(analyzer.graph_state(), analyzer.tables()).nodes, self.0),
    {
        match analyzer.try_node(self.0) {
            Some(Node::Concrete(c)) => Some(c),
            _ => None,
        }
    }
}

} // verus!
