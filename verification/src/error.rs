//! Internal-consistency failures.
//!
//! Every failure this layer can hit means an earlier pass handed it input
//! it must not trust any further: a representation that the type's layout
//! forbids, an assignment between incompatible types, an unsized place
//! used as a scalar. None of them is recoverable; lowering of the current
//! function is abandoned, and the error names the types involved so the
//! caller can report them.

use vstd::prelude::*;

verus! {

/// Why lowering was abandoned. Each `ty` field is an index into the type
/// table of the function being lowered.
#[derive(Clone, Copy, Debug, PartialEq, Eq, Structural)]
pub enum LowerError {
    /// A type definition references an entry at or above its own index.
    BadTypeIndex { ty: usize },
    /// An array's element type has no size known at compile time.
    ArrayOfUnsized { ty: usize },
    /// A record field before the last one has no size known at compile time.
    FieldNotLast { ty: usize, field: usize },
    /// An enum variant has no size known at compile time.
    VariantNotSized { ty: usize, variant: usize },
    /// A computed size went past [`crate::layout::MAX_SIZE`].
    SizeOverflow { ty: usize },
    /// A value was written to a place of an incompatible type.
    TypeMismatch { from: usize, to: usize },
    /// A register pair was used where one scalar was needed.
    ScalarOfPair { ty: usize },
    /// A single scalar was used where a register pair was needed.
    PairOfScalar { ty: usize },
    /// A scalar load was asked of a type with no register class.
    NoRegisterClass { ty: usize },
    /// A pair load was asked of memory that is not two pointers wide.
    NotAPairInMemory { ty: usize },
    /// A field was projected out of a value that is not held in memory.
    FieldOfNonMemory { ty: usize },
    /// A field was projected out of a place held in a virtual variable.
    FieldOfVar { ty: usize },
    /// A value was written to a place whose type is unsized.
    WriteToUnsized { ty: usize },
    /// An unsized place was read, or used, where a sized one is needed.
    UnsizedPlace { ty: usize },
    /// A virtual variable stood where an addressed place is needed.
    VarWhereAddr { ty: usize },
    /// A place of a type that cannot be indexed was indexed.
    IndexOfNonArray { ty: usize },
    /// A place of a type that cannot be dereferenced was dereferenced.
    DerefOfNonPointer { ty: usize },
    /// A fat pointer whose layout is not a register pair was split.
    FatPointerNotPair { ty: usize },
    /// A reference was written into a place whose type is not one pointer.
    RefIntoNonPointer { ty: usize },
    /// An unsized place without its extra metadata was referenced.
    MissingMetadata { ty: usize },
    /// An enum was asked to take part in an unsizing coercion.
    UnsizeOfEnum { ty: usize },
    /// More than one field differed between unsizing source and target.
    SecondDifferingField { from: usize, to: usize },
    /// No unsizing rule relates the source type to the target type.
    BadUnsize { from: usize, to: usize },
    /// A variant index was taken out of range of its enum.
    BadVariant { ty: usize, variant: usize },
    /// A field index was taken out of range of its record type.
    BadField { ty: usize, field: usize },
}

} // verus!
