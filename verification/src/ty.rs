//! The type table.
//!
//! Types are interned: a type is an index into a table of [`TyDef`]
//! entries, and two types are the same type exactly when their indices are
//! equal. A well-formed table only ever references earlier entries, so
//! every structural recursion over types terminates.

use vstd::prelude::*;

verus! {

/// Mutability of a reference type.
#[derive(Clone, Copy, Debug, PartialEq, Eq, Structural)]
pub enum Mutability {
    MutImmutable,
    MutMutable,
}

/// Unsigned integer types.
#[derive(Clone, Copy, Debug, PartialEq, Eq, Structural)]
pub enum UintTy {
    U8,
    U16,
    U32,
    U64,
    Usize,
}

/// Signed integer types.
#[derive(Clone, Copy, Debug, PartialEq, Eq, Structural)]
pub enum IntTy {
    I8,
    I16,
    I32,
    I64,
    Isize,
}

/// Floating-point types, carried only for their width; this layer never
/// computes with their values, it only moves their bits.
#[derive(Clone, Copy, Debug, PartialEq, Eq, Structural)]
pub enum FloatTy {
    F32,
    F64,
}

/// One entry of the type table.
///
/// A `usize` inside a definition is the index of another table entry.
/// `FnPtr` carries the identity of its normalized signature: two function
/// pointer types are compatible exactly when those identities are equal.
/// `Dynamic` carries the identity of its principal trait. `Phantom` is the
/// zero-sized marker type that the unsizing coercion skips over.
#[derive(Clone, Debug)]
pub enum TyDef {
    Bool,
    Char,
    Uint(UintTy),
    Int(IntTy),
    Float(FloatTy),
    Ref(Mutability, usize),
    RawPtr(Mutability, usize),
    Boxed(usize),
    FnPtr(u64),
    Array(usize, u64),
    Slice(usize),
    Dynamic(u64),
    Struct(Vec<usize>),
    Enum(Vec<usize>),
    Phantom,
}

/// The type a pointer type points at, if `t` is a pointer type.
pub open spec fn spec_pointee(types: Seq<TyDef>, t: int) -> Option<usize> {
    match types[t] {
        TyDef::Ref(_, p) => Some(p),
        TyDef::RawPtr(_, p) => Some(p),
        TyDef::Boxed(p) => Some(p),
        _ => None,
    }
}

/// Assignment compatibility, checked before every write.
///
/// A type may be written over itself. A reference may be written over a
/// reference to the same pointee as long as a destination that demands
/// exclusive access does not receive a shared source. A function pointer
/// may be written over a function pointer with the same normalized
/// signature. Nothing else is compatible.
pub open spec fn spec_ty_compat(types: Seq<TyDef>, from: int, to: int) -> bool {
    if from == to {
        true
    } else {
        match (types[from], types[to]) {
            (TyDef::Ref(src_mut, t), TyDef::Ref(dest_mut, u)) => {
                t == u && !(dest_mut == Mutability::MutMutable && src_mut != dest_mut)
            },
            (TyDef::FnPtr(s1), TyDef::FnPtr(s2)) => s1 == s2,
            _ => false,
        }
    }
}

/// Executable form of [`spec_ty_compat`].
pub fn ty_compat(types: &Vec<TyDef>, from: usize, to: usize) -> (r: bool)
    requires
        from < types@.len(),
        to < types@.len(),
    ensures
        r == spec_ty_compat(types@, from as int, to as int),
{
    if from == to {
        return true;
    }
    match (&types[from], &types[to]) {
        (TyDef::Ref(src_mut, t), TyDef::Ref(dest_mut, u)) => {
            t == u && !(*dest_mut == Mutability::MutMutable && *src_mut != *dest_mut)
        },
        (TyDef::FnPtr(s1), TyDef::FnPtr(s2)) => s1 == s2,
        _ => false,
    }
}

} // verus!
