//! Resolved types: the recursive type description assigned to every
//! declaration and expression, its canonical rendering, and the implicit
//! conversion rule between integer widths.

use vstd::prelude::*;

verus! {

/// A fully resolved type. User-defined types refer to their declaration by
/// index into the owning namespace.
pub enum Type {
    Bool,
    /// Unsigned integer of the given bit width, a multiple of 32, at most 256.
    Uint(u32),
    Enum(usize),
    Struct(usize),
    /// A reference to a contract instance.
    Contract(usize),
    /// A dynamic array of the element type.
    Array(Box<Type>),
    /// A mapping from key type to value type.
    Mapping(Box<Type>, Box<Type>),
    /// The placeholder substituted when resolution failed; lets the builder
    /// keep collecting diagnostics, and is barred from code generation.
    Unresolved,
}

/// The type of a runtime value in a function body: the subset of types the
/// expression language computes with.
#[derive(Clone, Copy, PartialEq, Eq, Structural, Debug)]
pub enum VTy {
    Bool,
    /// Unsigned integer of the given number of 32-bit limbs (1 to 8).
    Uint(u32),
}

impl VTy {
    /// Number of limbs a value of this type occupies.
    pub open spec fn spec_limbs(self) -> nat {
        match self {
            VTy::Bool => 0,
            VTy::Uint(w) => (w / 32) as nat,
        }
    }

    /// Whether this is a well-formed value type: widths are non-zero
    /// multiples of 32 up to 256.
    pub open spec fn valid(self) -> bool {
        match self {
            VTy::Bool => true,
            VTy::Uint(w) => w % 32 == 0 && 32 <= w <= 256,
        }
    }

    pub fn limbs(&self) -> (r: usize)
        ensures
            r == self.spec_limbs(),
    {
        match self {
            VTy::Bool => 0,
            VTy::Uint(w) => (w / 32) as usize,
        }
    }
}

/// Whether `from` converts implicitly to `to`: equal value types, or an
/// unsigned integer widening to a larger or equal width. Narrowing is never
/// implicit.
pub open spec fn implicitly_convertible(from: VTy, to: VTy) -> bool {
    match (from, to) {
        (VTy::Bool, VTy::Bool) => true,
        (VTy::Uint(a), VTy::Uint(b)) => a <= b,
        _ => false,
    }
}

/// Decides the implicit conversion rule.
pub fn can_convert(from: &VTy, to: &VTy) -> (r: bool)
    ensures
        r == implicitly_convertible(*from, *to),
{
    match (from, to) {
        (VTy::Bool, VTy::Bool) => true,
        (VTy::Uint(a), VTy::Uint(b)) => *a <= *b,
        _ => false,
    }
}

impl Clone for Type {
    /// Deep copy; the copy equals the original.
    fn clone(&self) -> (r: Self)
        ensures
            r == *self,
        decreases *self,
    {
        match self {
            Type::Bool => Type::Bool,
            Type::Uint(w) => Type::Uint(*w),
            Type::Enum(n) => Type::Enum(*n),
            Type::Struct(n) => Type::Struct(*n),
            Type::Contract(n) => Type::Contract(*n),
            Type::Array(e) => Type::Array(Box::new((**e).clone())),
            Type::Mapping(k, v) => Type::Mapping(
                Box::new((**k).clone()),
                Box::new((**v).clone()),
            ),
            Type::Unresolved => Type::Unresolved,
        }
    }
}

/// Structural equality of resolved types.
pub fn type_eq(a: &Type, b: &Type) -> (r: bool)
    ensures
        r == (a == b),
    decreases *a,
{
    match (a, b) {
        (Type::Bool, Type::Bool) => true,
        (Type::Uint(x), Type::Uint(y)) => *x == *y,
        (Type::Enum(x), Type::Enum(y)) => *x == *y,
        (Type::Struct(x), Type::Struct(y)) => *x == *y,
        (Type::Contract(x), Type::Contract(y)) => *x == *y,
        (Type::Array(x), Type::Array(y)) => type_eq(x, y),
        (Type::Mapping(xk, xv), Type::Mapping(yk, yv)) => type_eq(xk, yk) && type_eq(xv, yv),
        (Type::Unresolved, Type::Unresolved) => true,
        _ => false,
    }
}

/// Whether a resolved type mentions the unresolved placeholder anywhere.
pub open spec fn spec_has_unresolved(t: Type) -> bool
    decreases t,
{
    match t {
        Type::Unresolved => true,
        Type::Array(e) => spec_has_unresolved(*e),
        Type::Mapping(k, v) => spec_has_unresolved(*k) || spec_has_unresolved(*v),
        _ => false,
    }
}

/// Reports whether a type still holds the unresolved placeholder; such a
/// type must never reach code generation.
pub fn has_unresolved(t: &Type) -> (r: bool)
    ensures
        r == spec_has_unresolved(*t),
    decreases *t,
{
    match t {
        Type::Unresolved => true,
        Type::Array(e) => has_unresolved(e),
        Type::Mapping(k, v) => has_unresolved(k) || has_unresolved(v),
        _ => false,
    }
}

} // verus!
