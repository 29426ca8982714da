//! Value and place lowering for an SSA instruction generator.
//!
//! This crate lowers typed, structured values of a mid-level IR onto flat
//! scalar registers and linear memory. A [`value::CValue`] is a computed,
//! read-only value held by reference, in one register, or in a register
//! pair; a [`place::CPlace`] is an assignable location, either a virtual
//! variable or an addressed region of memory. The layout of every type —
//! size, alignment, field offsets, register classification — comes from a
//! layout table computed per type table, and the instruction generator is
//! modelled by [`context::FunctionCx`], which owns the memory, the virtual
//! variables, and the vtable registry of one function being lowered.

pub mod bytes;
pub mod context;
pub mod debuginfo;
pub mod error;
pub mod laws;
pub mod layout;
pub mod metadata;
pub mod place;
pub mod ty;
pub mod unsize;
pub mod value;

