//! The resolved program model: the inheritance-flattened, fully typed
//! `Namespace` a compilation unit resolves to, read-only input for code
//! generation and for documentation readers.

use crate::ast::{ContractKind, Visibility};
use crate::diag::{Diagnostic, Loc};
use crate::types::{Type, VTy};
use vstd::prelude::*;

verus! {

/// A resolved documentation tag: tag name, occurrence index (aligning
/// repeatable tags with field positions) and text.
#[derive(Clone, Debug)]
pub struct Tag {
    pub tag: String,
    pub no: usize,
    pub value: String,
}

/// A typed, named field or parameter.
pub struct Parameter {
    pub name: String,
    pub ty: Type,
    pub indexed: bool,
}

/// A resolved enum: values carry their authoritative declared position.
#[derive(Clone, Debug)]
pub struct EnumDecl {
    pub loc: Loc,
    pub name: String,
    pub contract: Option<String>,
    pub values: Vec<(String, usize)>,
    pub tags: Vec<Tag>,
}

/// A resolved struct with ordered fields.
pub struct StructDecl {
    pub loc: Loc,
    pub name: String,
    pub contract: Option<String>,
    pub fields: Vec<Parameter>,
    pub tags: Vec<Tag>,
}

/// A resolved event with ordered fields, each marked indexed or not.
pub struct EventDecl {
    pub loc: Loc,
    pub name: String,
    pub contract: Option<String>,
    pub fields: Vec<Parameter>,
    pub anonymous: bool,
    pub tags: Vec<Tag>,
}

/// A contract member variable: persistent storage unless constant.
pub struct ContractVariable {
    pub loc: Loc,
    pub name: String,
    pub ty: Type,
    pub constant: bool,
    pub visibility: Visibility,
    /// The resolved initializer; only literal values are supported.
    pub initializer: Option<RExpr>,
    pub tags: Vec<Tag>,
}

impl ContractVariable {
    /// Whether the variable occupies persistent storage.
    pub fn is_storage(&self) -> (r: bool)
        ensures
            r == !self.constant,
    {
        !self.constant
    }
}

/// Arithmetic operators of the expression language; all wrap at the width.
#[derive(Clone, Copy, PartialEq, Eq, Structural, Debug)]
pub enum BinOp {
    Add,
    Sub,
    Mul,
}

/// Comparison operators; unsigned order on integers.
#[derive(Clone, Copy, PartialEq, Eq, Structural, Debug)]
pub enum CmpOp {
    Lt,
    Le,
    Gt,
    Ge,
    Eq,
    Ne,
}

/// A resolved assignment target.
pub enum VarRef {
    /// A local slot of the enclosing function.
    Local(usize, VTy),
    /// A storage variable: declaring contract index and variable index.
    Storage(usize, usize, VTy),
}

/// A typed expression: every node carries the concrete type the resolver
/// assigned to it.
pub enum RExpr {
    Bool(bool),
    /// An integer constant: width in bits and exactly width/32 limbs.
    Number(u32, Vec<u32>),
    Local(usize, VTy),
    /// A read of a storage variable: declaring contract, variable, type.
    StorageLoad(usize, usize, VTy),
    /// Arithmetic at the given width; both operands already have it.
    Binary(BinOp, u32, Box<RExpr>, Box<RExpr>),
    /// Comparison of two operands of one type; the result is boolean.
    Compare(CmpOp, Box<RExpr>, Box<RExpr>),
    /// Zero-extension of an integer to a wider width.
    Widen(u32, Box<RExpr>),
    /// `x++` on a local: yields the old value, wrapping at the width.
    PostIncr(usize, u32),
    /// `x--` on a local: yields the old value, wrapping at the width.
    PostDecr(usize, u32),
    /// A call resolved to one overload: contract index, function index.
    Call(usize, usize, Vec<RExpr>),
}

/// A typed statement.
pub enum RStmt {
    Store(VarRef, RExpr),
    Expression(RExpr),
    If(RExpr, Vec<RStmt>, Vec<RStmt>),
    While(RExpr, Vec<RStmt>),
    DoWhile(Vec<RStmt>, RExpr),
    For(Option<Box<RStmt>>, Option<RExpr>, Option<Box<RStmt>>, Vec<RStmt>),
    Break,
    Continue,
    Return(Option<RExpr>),
}

/// A resolved function: parameters occupy the first local slots.
pub struct ResolvedFn {
    pub loc: Loc,
    pub name: String,
    pub params: Vec<VTy>,
    pub param_names: Vec<String>,
    pub ret: Option<VTy>,
    pub visibility: Visibility,
    /// Types of all local slots, parameters first.
    pub locals: Vec<VTy>,
    pub body: Vec<RStmt>,
}

impl ResolvedFn {
    /// Externally visible functions become exported entry points.
    pub open spec fn spec_is_external(self) -> bool {
        self.visibility == Visibility::Public || self.visibility == Visibility::External
    }

    /// Whether this function is externally callable.
    pub fn is_external(&self) -> (r: bool)
        ensures
            r == self.spec_is_external(),
    {
        matches!(self.visibility, Visibility::Public | Visibility::External)
    }
}

/// A resolved contract: its own members only; inherited members are reached
/// through the linearizer over `bases`.
pub struct Contract {
    pub loc: Loc,
    pub name: String,
    pub kind: ContractKind,
    /// Indices of the directly declared base contracts.
    pub bases: Vec<usize>,
    pub variables: Vec<ContractVariable>,
    pub functions: Vec<ResolvedFn>,
    pub tags: Vec<Tag>,
}

/// The resolved model of one compilation unit. Built once, immutable
/// afterwards, and read by code generation and documentation rendering.
pub struct Namespace {
    pub contracts: Vec<Contract>,
    pub enums: Vec<EnumDecl>,
    pub structs: Vec<StructDecl>,
    pub events: Vec<EventDecl>,
    pub diagnostics: Vec<Diagnostic>,
}

/// First tag with the given name, if any: the specification `get_tag`
/// satisfies.
pub open spec fn spec_find_tag(tags: Seq<Tag>, name: Seq<char>) -> Option<Seq<char>>
    decreases tags.len(),
{
    if tags.len() == 0 {
        None
    } else if tags[0].tag@ == name {
        Some(tags[0].value@)
    } else {
        spec_find_tag(tags.drop_first(), name)
    }
}

/// First tag with the given name and occurrence index, if any.
pub open spec fn spec_find_tag_no(tags: Seq<Tag>, name: Seq<char>, no: nat) -> Option<
    Seq<char>,
>
    decreases tags.len(),
{
    if tags.len() == 0 {
        None
    } else if tags[0].tag@ == name && tags[0].no == no {
        Some(tags[0].value@)
    } else {
        spec_find_tag_no(tags.drop_first(), name, no)
    }
}

/// Looks up the first tag with the given name.
pub fn get_tag(name: &str, tags: &Vec<Tag>) -> (r: Option<String>)
    ensures
        match r {
            Some(v) => spec_find_tag(tags@, name@) == Some(v@),
            None => spec_find_tag(tags@, name@) is None,
        },
{
    let name_key: String = name.to_owned();
    proof {
        assert(tags@.skip(0) =~= tags@);
    }
    let mut i: usize = 0;
    while i < tags.len()
        invariant
            0 <= i <= tags@.len(),
            name_key@ == name@,
            spec_find_tag(tags@, name@) == spec_find_tag(tags@.skip(i as int), name@),
        decreases tags@.len() - i,
    {
        proof {
            assert(tags@.skip(i as int).drop_first() =~= tags@.skip(i as int + 1));
            assert(tags@.skip(i as int)[0] == tags@[i as int]);
        }
        if tags[i].tag == name_key {
            return Some(tags[i].value.clone());
        }
        i = i + 1;
    }
    proof {
        assert(tags@.skip(tags@.len() as int) =~= Seq::<Tag>::empty());
    }
    None
}

/// Looks up the first tag with the given name and occurrence index.
pub fn get_tag_no(name: &str, no: usize, tags: &Vec<Tag>) -> (r: Option<String>)
    ensures
        match r {
            Some(v) => spec_find_tag_no(tags@, name@, no as nat) == Some(v@),
            None => spec_find_tag_no(tags@, name@, no as nat) is None,
        },
{
    let name_key: String = name.to_owned();
    proof {
        assert(tags@.skip(0) =~= tags@);
    }
    let mut i: usize = 0;
    while i < tags.len()
        invariant
            0 <= i <= tags@.len(),
            name_key@ == name@,
            spec_find_tag_no(tags@, name@, no as nat) == spec_find_tag_no(
                tags@.skip(i as int),
                name@,
                no as nat,
            ),
        decreases tags@.len() - i,
    {
        proof {
            assert(tags@.skip(i as int).drop_first() =~= tags@.skip(i as int + 1));
            assert(tags@.skip(i as int)[0] == tags@[i as int]);
        }
        if tags[i].tag == name_key && tags[i].no == no {
            return Some(tags[i].value.clone());
        }
        i = i + 1;
    }
    proof {
        assert(tags@.skip(tags@.len() as int) =~= Seq::<Tag>::empty());
    }
    None
}

impl Type {
    /// The canonical rendering of a type; user-defined names resolve
    /// relative to the owning namespace.
    pub fn to_string(&self, ns: &Namespace) -> (r: String)
        decreases *self,
    {
        match self {
            Type::Bool => "bool".to_owned(),
            Type::Uint(w) => match *w {
                32u32 => "uint32".to_owned(),
                64u32 => "uint64".to_owned(),
                96u32 => "uint96".to_owned(),
                128u32 => "uint128".to_owned(),
                160u32 => "uint160".to_owned(),
                192u32 => "uint192".to_owned(),
                224u32 => "uint224".to_owned(),
                256u32 => "uint256".to_owned(),
                _ => "uint".to_owned(),
            },
            Type::Enum(n) => {
                let mut s = "enum ".to_owned();
                if *n < ns.enums.len() {
                    let d = &ns.enums[*n];
                    match &d.contract {
                        Some(c) => {
                            s.append(c.as_str());
                            s.append(".");
                        },
                        None => {},
                    }
                    s.append(d.name.as_str());
                }
                s
            },
            Type::Struct(n) => {
                let mut s = "struct ".to_owned();
                if *n < ns.structs.len() {
                    let d = &ns.structs[*n];
                    match &d.contract {
                        Some(c) => {
                            s.append(c.as_str());
                            s.append(".");
                        },
                        None => {},
                    }
                    s.append(d.name.as_str());
                }
                s
            },
            Type::Contract(n) => {
                let mut s = "contract ".to_owned();
                if *n < ns.contracts.len() {
                    s.append(ns.contracts[*n].name.as_str());
                }
                s
            },
            Type::Array(e) => {
                let mut s = e.to_string(ns);
                s.append("[]");
                s
            },
            Type::Mapping(k, v) => {
                let mut s = "mapping(".to_owned();
                s.append(k.to_string(ns).as_str());
                s.append(" => ");
                s.append(v.to_string(ns).as_str());
                s.append(")");
                s
            },
            Type::Unresolved => "unresolved".to_owned(),
        }
    }
}

} // verus!
