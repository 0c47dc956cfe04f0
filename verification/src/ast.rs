//! The syntax tree that the analysis reads: declarations, statements and expressions.

use crate::bound::ArithOp;
use crate::range::Relation;
use vstd::prelude::*;

verus! {

/// Where a piece of syntax stands.
#[derive(Debug, Clone, Copy, PartialEq, Eq, Structural)]
pub enum Loc {
    Builtin,
    CommandLine,
    Implicit,
    Codegen,
    /// File number, start offset and end offset.
    File(usize, usize, usize),
}

/// A name with its place.
#[derive(Debug, PartialEq, Eq)]
pub struct Identifier {
    pub loc: Loc,
    pub name: String,
}

impl Identifier {
    /// A copy of the identifier.
    pub fn copy(&self) -> (r: Identifier)
        ensures
            r == *self,
    {
        Identifier { loc: self.loc, name: self.name.clone() }
    }
}

/// A copy of an optional identifier.
pub fn copy_name(name: &Option<Identifier>) -> (r: Option<Identifier>)
    ensures
        r == *name,
{
    match name {
        Some(id) => Some(id.copy()),
        None => None,
    }
}

/// A type written in the source.
#[derive(Debug, PartialEq, Eq)]
pub enum Type {
    Address,
    AddressPayable,
    Payable,
    Bool,
    String,
    Int(u16),
    Uint(u16),
    Bytes(u8),
    Rational,
    DynamicBytes,
    Mapping(Box<Expression>, Box<Expression>),
    Function,
}

/// An expression.
#[derive(Debug, PartialEq, Eq)]
pub enum Expression {
    /// A type used as an expression.
    Type(Loc, Type),
    /// A name.
    Variable(Identifier),
    /// `a[]` or `a[i]`.
    ArraySubscript(Loc, Box<Expression>, Option<Box<Expression>>),
    /// A number literal: its digits and the digits of its exponent, which may be empty.
    NumberLiteral(Loc, String, String),
    BoolLiteral(Loc, bool),
    /// `a + b` and the like.
    Arithmetic(Loc, ArithOp, Box<Expression>, Box<Expression>),
    /// `a < b` and the like.
    Comparison(Loc, Relation, Box<Expression>, Box<Expression>),
    /// `a = b`, or `a += b` and the like where an operator is given.
    Assign(Loc, Option<ArithOp>, Box<Expression>, Box<Expression>),
    /// `!a`.
    Not(Loc, Box<Expression>),
    /// `c ? a : b`.
    Ternary(Loc, Box<Expression>, Box<Expression>, Box<Expression>),
    /// `f(a, b)`.
    FunctionCall(Loc, Box<Expression>, Vec<Expression>),
    /// An expression that the analysis does not model.
    Unsupported(Loc),
}

impl Expression {
    /// Where the expression stands.
    pub open spec fn place(self) -> Loc {
        match self {
            Expression::Type(loc, _) => loc,
            Expression::Variable(ident) => ident.loc,
            Expression::ArraySubscript(loc, _, _) => loc,
            Expression::NumberLiteral(loc, _, _) => loc,
            Expression::BoolLiteral(loc, _) => loc,
            Expression::Arithmetic(loc, _, _, _) => loc,
            Expression::Comparison(loc, _, _, _) => loc,
            Expression::Assign(loc, _, _, _) => loc,
            Expression::Not(loc, _) => loc,
            Expression::Ternary(loc, _, _, _) => loc,
            Expression::FunctionCall(loc, _, _) => loc,
            Expression::Unsupported(loc) => loc,
        }
    }

    /// Where the expression stands.
    pub fn loc(&self) -> (l: Loc)
        ensures
            l == self.place(),
    {
        match self {
            Expression::Type(loc, _) => *loc,
            Expression::Variable(ident) => ident.loc,
            Expression::ArraySubscript(loc, _, _) => *loc,
            Expression::NumberLiteral(loc, _, _) => *loc,
            Expression::BoolLiteral(loc, _) => *loc,
            Expression::Arithmetic(loc, _, _, _) => *loc,
            Expression::Comparison(loc, _, _, _) => *loc,
            Expression::Assign(loc, _, _, _) => *loc,
            Expression::Not(loc, _) => *loc,
            Expression::Ternary(loc, _, _, _) => *loc,
            Expression::FunctionCall(loc, _, _) => *loc,
            Expression::Unsupported(loc) => *loc,
        }
    }
}

/// A declaration of a struct field or of a local variable.
#[derive(Debug, PartialEq, Eq)]
pub struct VariableDeclaration {
    pub loc: Loc,
    pub ty: Expression,
    pub name: Option<Identifier>,
}

/// A statement.
#[derive(Debug, PartialEq, Eq)]
pub enum Statement {
    Block(Loc, Vec<Statement>),
    Expression(Loc, Expression),
    VariableDefinition(Loc, VariableDeclaration, Option<Expression>),
    If(Loc, Expression, Box<Statement>, Option<Box<Statement>>),
    /// `while (c) body`.
    While(Loc, Expression, Box<Statement>),
    /// `do body while (c)`.
    DoWhile(Loc, Box<Statement>, Expression),
    /// `for (init; c; update) body`; each part may be missing.
    For(
        Loc,
        Option<Box<Statement>>,
        Option<Box<Expression>>,
        Option<Box<Statement>>,
        Option<Box<Statement>>,
    ),
    Return(Loc, Option<Expression>),
    /// A statement that the analysis does not model.
    Unsupported(Loc),
}

/// A parameter or a return value of a function.
#[derive(Debug, PartialEq, Eq)]
pub struct Parameter {
    pub loc: Loc,
    pub ty: Expression,
    pub name: Option<Identifier>,
}

/// The declaration of a struct.
#[derive(Debug, PartialEq, Eq)]
pub struct StructDefinition {
    pub loc: Loc,
    pub name: Option<Identifier>,
    pub fields: Vec<VariableDeclaration>,
}

/// The declaration of an enum.
#[derive(Debug, PartialEq, Eq)]
pub struct EnumDefinition {
    pub loc: Loc,
    pub name: Option<Identifier>,
    pub values: Vec<Option<Identifier>>,
}

/// A parameter of an error.
#[derive(Debug, PartialEq, Eq)]
pub struct ErrorParameter {
    pub loc: Loc,
    pub ty: Expression,
    pub name: Option<Identifier>,
}

/// The declaration of an error.
#[derive(Debug, PartialEq, Eq)]
pub struct ErrorDefinition {
    pub loc: Loc,
    pub name: Option<Identifier>,
    pub fields: Vec<ErrorParameter>,
}

/// The declaration of a state variable or of a variable at the top level.
#[derive(Debug, PartialEq, Eq)]
pub struct VariableDefinition {
    pub loc: Loc,
    pub ty: Expression,
    pub name: Option<Identifier>,
    pub initializer: Option<Expression>,
}

/// The declaration of a type alias.
#[derive(Debug, PartialEq, Eq)]
pub struct TypeDefinition {
    pub loc: Loc,
    pub name: Identifier,
    pub ty: Expression,
}

/// The kind of a function.
#[derive(Debug, Clone, Copy, PartialEq, Eq, Structural)]
pub enum FunctionTy {
    Constructor,
    Function,
    Fallback,
    Receive,
    Modifier,
}

/// The declaration of a function.
#[derive(Debug, PartialEq, Eq)]
pub struct FunctionDefinition {
    pub loc: Loc,
    pub ty: FunctionTy,
    pub name: Option<Identifier>,
    pub params: Vec<Option<Parameter>>,
    /// The values that the function gives back.
    pub outputs: Vec<Option<Parameter>>,
    pub body: Option<Statement>,
}

/// The kind of a contract.
#[derive(Debug, Clone, Copy, PartialEq, Eq, Structural)]
pub enum ContractTy {
    Abstract,
    Contract,
    Interface,
    Library,
}

/// A declaration inside a contract.
#[derive(Debug, PartialEq, Eq)]
pub enum ContractPart {
    StructDefinition(Box<StructDefinition>),
    EnumDefinition(Box<EnumDefinition>),
    ErrorDefinition(Box<ErrorDefinition>),
    VariableDefinition(Box<VariableDefinition>),
    FunctionDefinition(Box<FunctionDefinition>),
    TypeDefinition(Box<TypeDefinition>),
    EventDefinition,
    Annotation,
    Using,
    StraySemicolon,
}

/// The declaration of a contract.
#[derive(Debug, PartialEq, Eq)]
pub struct ContractDefinition {
    pub loc: Loc,
    pub ty: ContractTy,
    pub name: Option<Identifier>,
    pub parts: Vec<ContractPart>,
}

/// A declaration at the top level of a source file.
#[derive(Debug, PartialEq, Eq)]
pub enum SourceUnitPart {
    ContractDefinition(Box<ContractDefinition>),
    StructDefinition(Box<StructDefinition>),
    EnumDefinition(Box<EnumDefinition>),
    ErrorDefinition(Box<ErrorDefinition>),
    VariableDefinition(Box<VariableDefinition>),
    FunctionDefinition(Box<FunctionDefinition>),
    TypeDefinition(Box<TypeDefinition>),
    EventDefinition,
    Annotation,
    Using,
    StraySemicolon,
    PragmaDirective,
    ImportDirective,
}

/// A source file: its declarations in order.
#[derive(Debug, PartialEq, Eq)]
pub struct SourceUnit(pub Vec<SourceUnitPart>);

} // verus!
