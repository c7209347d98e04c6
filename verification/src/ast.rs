//! The input syntax tree: declarations, statements and expressions as the
//! parsing collaborator hands them over, with names still unresolved.
//!
//! Number literals carry their digits as little-endian 32-bit limbs, so
//! values wider than a machine word arrive without loss.

use crate::diag::Loc;
use vstd::prelude::*;

verus! {

/// A type as written in source: either a builtin or a user-defined name.
#[derive(Clone, Debug)]
pub enum AstType {
    Bool,
    /// Unsigned integer of the given bit width (a multiple of 32, at most 256).
    Uint(u32),
    /// A user-defined name, resolved against enums and structs.
    Named(String),
}

/// A documentation tag attached to a declaration. For repeatable tags such
/// as `param`, `no` is the zero-based field position the tag addresses.
#[derive(Clone, Debug)]
pub struct DocTag {
    pub tag: String,
    pub no: usize,
    pub value: String,
}

/// Side-effect-free or side-effecting expression forms.
pub enum Expr {
    BoolLiteral(bool),
    /// A number literal as little-endian limbs.
    NumberLiteral(Vec<u32>),
    Variable(String),
    Add(Box<Expr>, Box<Expr>),
    Sub(Box<Expr>, Box<Expr>),
    Mul(Box<Expr>, Box<Expr>),
    Lt(Box<Expr>, Box<Expr>),
    Le(Box<Expr>, Box<Expr>),
    Gt(Box<Expr>, Box<Expr>),
    Ge(Box<Expr>, Box<Expr>),
    Eq(Box<Expr>, Box<Expr>),
    Ne(Box<Expr>, Box<Expr>),
    /// `x++`: yields the old value, then adds one, wrapping at the width.
    PostIncr(String),
    /// `x--`: yields the old value, then subtracts one, wrapping at the width.
    PostDecr(String),
    /// A call to a named function, resolved to one overload.
    Call(String, Vec<Expr>),
}

/// Structured statements of a function body.
pub enum Stmt {
    /// Declares a local; the initializer, if any, must convert implicitly.
    VarDecl(String, AstType, Option<Expr>),
    /// Assigns to a local or a contract variable.
    Assign(String, Expr),
    /// Evaluates for its side effects.
    Expression(Expr),
    If(Expr, Vec<Stmt>, Vec<Stmt>),
    While(Expr, Vec<Stmt>),
    DoWhile(Vec<Stmt>, Expr),
    /// `for (init; cond; next) body`; a missing condition means forever.
    For(Option<Box<Stmt>>, Option<Expr>, Option<Box<Stmt>>, Vec<Stmt>),
    Break,
    Continue,
    Return(Option<Expr>),
}

/// Visibility of a contract member.
#[derive(Clone, Copy, PartialEq, Eq, Structural, Debug)]
pub enum Visibility {
    Public,
    Private,
    Internal,
    External,
}

/// A contract-level variable declaration.
pub struct VariableDef {
    pub loc: Loc,
    pub name: String,
    pub ty: AstType,
    /// Compile-time constant rather than persistent storage.
    pub constant: bool,
    pub visibility: Visibility,
    pub initializer: Option<Expr>,
    pub tags: Vec<DocTag>,
}

/// One function of a contract.
pub struct FunctionDef {
    pub loc: Loc,
    pub name: String,
    pub params: Vec<(String, AstType)>,
    pub returns: Option<AstType>,
    pub visibility: Visibility,
    pub body: Vec<Stmt>,
}

/// The kind of a contract-like declaration.
#[derive(Clone, Copy, PartialEq, Eq, Structural, Debug)]
pub enum ContractKind {
    Contract,
    Library,
    Interface,
}

/// A contract with its declared base-contract names.
pub struct ContractDef {
    pub loc: Loc,
    pub name: String,
    pub kind: ContractKind,
    pub bases: Vec<String>,
    pub variables: Vec<VariableDef>,
    pub functions: Vec<FunctionDef>,
    pub tags: Vec<DocTag>,
}

/// An enum declaration: each value carries its declared position, which is
/// authoritative regardless of textual order.
#[derive(Clone, Debug)]
pub struct EnumDef {
    pub loc: Loc,
    pub name: String,
    pub contract: Option<String>,
    pub values: Vec<(String, usize)>,
    pub tags: Vec<DocTag>,
}

/// A struct declaration with ordered, typed fields.
#[derive(Clone, Debug)]
pub struct StructDef {
    pub loc: Loc,
    pub name: String,
    pub contract: Option<String>,
    pub fields: Vec<(String, AstType)>,
    pub tags: Vec<DocTag>,
}

/// An event declaration; each field is typed and marked indexed or not.
#[derive(Clone, Debug)]
pub struct EventDef {
    pub loc: Loc,
    pub name: String,
    pub contract: Option<String>,
    pub fields: Vec<(String, AstType, bool)>,
    pub anonymous: bool,
    pub tags: Vec<DocTag>,
}

/// One parsed compilation input.
pub struct SourceUnit {
    pub contracts: Vec<ContractDef>,
    pub enums: Vec<EnumDef>,
    pub structs: Vec<StructDef>,
    pub events: Vec<EventDef>,
}

} // verus!
