//! Laws of the lowering layer, stated once and proved for every input.
//!
//! Each proof function here states a property of the operations in terms
//! of the same spec functions their contracts use, so a caller can chain
//! it directly onto those contracts.

use crate::bytes::{
    copied, fits, holds_le, lemma_le_round_trip, lemma_word_at_bound, stored, word_at,
};
use crate::context::{FunctionCx, VTABLE_BASE};
use crate::layout::{layout_wf_at, Abi};
use crate::ty::{spec_ty_compat, Mutability, TyDef};
use vstd::prelude::*;

verus! {

/// Writing a one-register value into a sized addressed place and reading
/// the place back yields the value that was written: `write` ensures
/// `stored`, realizing the place reads the same address at the same
/// layout, and the word read is exactly the scalar written.
pub proof fn lemma_write_read_round_trip(
    fx1: FunctionCx,
    fx2: FunctionCx,
    a: u64,
    t: usize,
    v: u64,
)
    requires
        fx1.wf(),
        t < fx1.n_types(),
        fx1.lay(t as int).abi matches Abi::Scalar(c) && fits(v, c.spec_width()),
        stored(fx1.mem@, fx2.mem@, a as int, fx1.sizeof(t as int), v),
    ensures
        word_at(fx2.mem@, a as int, fx1.lay(t as int).abi->Scalar_0.spec_width()) == v,
{
    assert(layout_wf_at(fx1.types@, fx1.layouts@, t as int));
    let c = fx1.lay(t as int).abi->Scalar_0;
    assert(fx1.sizeof(t as int) == c.spec_width());
    lemma_le_round_trip(fx2.mem@, a as int, c.spec_width(), v);
}

/// Projecting field `i` of a record and reading its bytes gives the same
/// bytes that reading the whole record and cutting out
/// `offset .. offset + field size` gives.
pub proof fn lemma_field_bytes_are_record_bytes(fx: FunctionCx, t: usize, i: int, base: u64)
    requires
        fx.wf(),
        t < fx.n_types(),
        fx.types@[t as int] matches TyDef::Struct(fs) && 0 <= i < fs@.len(),
        !fx.lay(fx.types@[t as int]->Struct_0@[i] as int).spec_is_unsized(),
        base + fx.sizeof(t as int) <= fx.mem@.len(),
    ensures
        ({
            let off = fx.lay(t as int).field_offsets@[i] as int;
            let fsize = fx.sizeof(fx.types@[t as int]->Struct_0@[i] as int) as int;
            fx.mem@.subrange(base + off, base + off + fsize) == fx.mem@.subrange(
                base as int,
                base + fx.sizeof(t as int),
            ).subrange(off, off + fsize)
        }),
{
    assert(layout_wf_at(fx.types@, fx.layouts@, t as int));
    let fs = fx.types@[t as int]->Struct_0@;
    let off = fx.lay(t as int).field_offsets@[i] as int;
    let fsize = fx.sizeof(fs[i] as int) as int;
    assert(crate::layout::spec_field_size(fx.layouts@, fs, i) == fx.sizeof(fs[i] as int));
    assert(off + fsize <= fx.sizeof(t as int));
    let whole = fx.mem@.subrange(base as int, base + fx.sizeof(t as int));
    assert(fx.mem@.subrange(base + off, base + off + fsize) =~= whole.subrange(off, off + fsize));
}

/// A word written as slice metadata reads back as exactly the array
/// length it was synthesized from — whatever that length is, zero
/// included.
pub proof fn lemma_slice_len_exact(m: Seq<u8>, d: u64, n: u64)
    requires
        holds_le(m, d + 8, 8, n as nat),
    ensures
        word_at(m, d + 8, 8) == n,
{
    crate::bytes::lemma_pow256_values();
    lemma_le_round_trip(m, d + 8, 8, n);
}

/// Two different concrete types seen through the same trait never share
/// a vtable address: an address encodes its registry index, and one index
/// holds one pair.
pub proof fn lemma_vtables_distinct(
    fx: FunctionCx,
    i: int,
    j: int,
    t1: usize,
    t2: usize,
    tr: u64,
)
    requires
        0 <= i < fx.vtables@.len(),
        0 <= j < fx.vtables@.len(),
        fx.vtables@[i] == (t1, tr),
        fx.vtables@[j] == (t2, tr),
        t1 != t2,
    ensures
        VTABLE_BASE + 8 * i != VTABLE_BASE + 8 * j,
{
    assert(i != j);
}

/// The assignment-compatibility truth table for references: a source
/// demanding exclusive access may feed a shared destination, never the
/// other way round, and the pointee types must be the very same type.
pub proof fn lemma_ref_compat_table(
    types: Seq<TyDef>,
    mut_ref: int,
    shared_ref: int,
    other_ref: int,
    u: usize,
    w: usize,
)
    requires
        0 <= mut_ref < types.len(),
        0 <= shared_ref < types.len(),
        0 <= other_ref < types.len(),
        mut_ref != shared_ref,
        mut_ref != other_ref,
        shared_ref != other_ref,
        types[mut_ref] == TyDef::Ref(Mutability::MutMutable, u),
        types[shared_ref] == TyDef::Ref(Mutability::MutImmutable, u),
        types[other_ref] == TyDef::Ref(Mutability::MutImmutable, w),
        u != w,
    ensures
        spec_ty_compat(types, mut_ref, shared_ref),
        !spec_ty_compat(types, shared_ref, mut_ref),
        !spec_ty_compat(types, shared_ref, other_ref),
        !spec_ty_compat(types, other_ref, shared_ref),
{
}

/// A block copy of `n` bytes moves exactly those `n` bytes and no more:
/// every byte of the destination block comes from the source block, and
/// every byte outside it — the sentinel after the block included — keeps
/// its old value.
pub proof fn lemma_block_copy_exact(old_m: Seq<u8>, new_m: Seq<u8>, src: int, dst: int, n: nat)
    requires
        copied(old_m, new_m, src, dst, n),
    ensures
        forall|k: int| 0 <= k < n ==> #[trigger] new_m[dst + k] == old_m[src + k],
        forall|i: int|
            0 <= i < old_m.len() && !(dst <= i < dst + n) ==> #[trigger] new_m[i] == old_m[i],
{
    assert forall|k: int| 0 <= k < n implies #[trigger] new_m[dst + k] == old_m[src + k] by {
        assert(new_m[dst + k] == old_m[src + ((dst + k) - dst)]);
    }
}

} // verus!
