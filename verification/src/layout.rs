//! Layouts: size, alignment, field offsets and register classification.
//!
//! A [`Layout`] is computed for every entry of a type table, bottom up, by
//! [`compute_layouts`]. The classification [`Abi`] says whether a value of
//! the type is held in zero or more memory bytes (`Aggregate`), one machine
//! register (`Scalar`), or a register pair (`ScalarPair`, used for fat
//! pointers and two-scalar records). [`layouts_wf`] collects the facts the
//! rest of the crate consumes about a computed layout table.

use crate::error::LowerError;
use crate::ty::{IntTy, TyDef, UintTy};
use vstd::prelude::*;

verus! {

/// Largest size, in bytes, that any layout may have.
pub const MAX_SIZE: u64 = 0x1000_0000;

/// Size of a pointer, in bytes: the machine modelled here is 64-bit.
pub const POINTER_SIZE: u64 = 8;

/// A scalar register class, named for its bit width. The two float
/// classes matter only for their width here: this layer moves float bits,
/// it never computes with them.
#[derive(Clone, Copy, Debug, PartialEq, Eq, Structural)]
pub enum ClifType {
    I8,
    I16,
    I32,
    I64,
    F32,
    F64,
}

impl ClifType {
    /// Width of the register class in bytes.
    pub open spec fn spec_width(self) -> nat {
        match self {
            ClifType::I8 => 1,
            ClifType::I16 => 2,
            ClifType::I32 => 4,
            ClifType::I64 => 8,
            ClifType::F32 => 4,
            ClifType::F64 => 8,
        }
    }

    /// Executable form of [`Self::spec_width`].
    pub fn width(&self) -> (w: u64)
        ensures
            w == self.spec_width(),
    {
        match self {
            ClifType::I8 => 1,
            ClifType::I16 => 2,
            ClifType::I32 => 4,
            ClifType::I64 => 8,
            ClifType::F32 => 4,
            ClifType::F64 => 8,
        }
    }
}

/// Register classification of a type held by value.
#[derive(Clone, Copy, Debug, PartialEq, Eq, Structural)]
pub enum Abi {
    Scalar(ClifType),
    ScalarPair(ClifType, ClifType),
    Aggregate { sized: bool },
}

/// The layout of one type: total size, alignment, classification, and the
/// byte offset of each field for record types and fat pointers.
#[derive(Clone, Debug)]
pub struct Layout {
    pub size: u64,
    pub align: u64,
    pub abi: Abi,
    pub field_offsets: Vec<u64>,
}

impl Layout {
    /// A type without a size known at compile time: a slice, a dynamic
    /// interface type, or a record whose tail field is one of those.
    pub open spec fn spec_is_unsized(self) -> bool {
        self.abi == (Abi::Aggregate { sized: false })
    }

    /// Executable form of [`Self::spec_is_unsized`].
    pub fn is_unsized(&self) -> (r: bool)
        ensures
            r == self.spec_is_unsized(),
    {
        matches!(self.abi, Abi::Aggregate { sized: false })
    }
}

/// The register class of an integer type.
pub open spec fn spec_uint_clif(u: UintTy) -> ClifType {
    match u {
        UintTy::U8 => ClifType::I8,
        UintTy::U16 => ClifType::I16,
        UintTy::U32 => ClifType::I32,
        UintTy::U64 => ClifType::I64,
        UintTy::Usize => ClifType::I64,
    }
}

/// The register class of a signed integer type.
pub open spec fn spec_int_clif(i: IntTy) -> ClifType {
    match i {
        IntTy::I8 => ClifType::I8,
        IntTy::I16 => ClifType::I16,
        IntTy::I32 => ClifType::I32,
        IntTy::I64 => ClifType::I64,
        IntTy::Isize => ClifType::I64,
    }
}

/// The register class of a type that fits in one register, if it does.
/// Pointers to unsized types do not: they are register pairs.
pub open spec fn spec_clif_type(types: Seq<TyDef>, ls: Seq<Layout>, t: int) -> Option<ClifType> {
    match types[t] {
        TyDef::Bool => Some(ClifType::I8),
        TyDef::Char => Some(ClifType::I32),
        TyDef::Uint(u) => Some(spec_uint_clif(u)),
        TyDef::Int(i) => Some(spec_int_clif(i)),
        TyDef::Float(f) => Some(
            match f {
                crate::ty::FloatTy::F32 => ClifType::F32,
                crate::ty::FloatTy::F64 => ClifType::F64,
            },
        ),
        TyDef::FnPtr(_) => Some(ClifType::I64),
        TyDef::Ref(_, p) => if ls[p as int].spec_is_unsized() {
            None
        } else {
            Some(ClifType::I64)
        },
        TyDef::RawPtr(_, p) => if ls[p as int].spec_is_unsized() {
            None
        } else {
            Some(ClifType::I64)
        },
        _ => None,
    }
}

/// Map a pointer bit width to its register class; the only pointer sizes
/// the instruction set offers are 16, 32 and 64 bits.
pub fn pointer_ty(ptr_bits: u64) -> (r: ClifType)
    requires
        ptr_bits == 16 || ptr_bits == 32 || ptr_bits == 64,
    ensures
        ptr_bits == 16 ==> r == ClifType::I16,
        ptr_bits == 32 ==> r == ClifType::I32,
        ptr_bits == 64 ==> r == ClifType::I64,
{
    if ptr_bits == 16 {
        ClifType::I16
    } else if ptr_bits == 32 {
        ClifType::I32
    } else {
        ClifType::I64
    }
}

/// Map a scalar's byte width to its integer register class; the only
/// widths a scalar can have are 1, 2, 4 and 8 bytes.
pub fn scalar_to_clif_type(width: u64) -> (r: ClifType)
    requires
        width == 1 || width == 2 || width == 4 || width == 8,
    ensures
        r.spec_width() == width,
{
    if width == 1 {
        ClifType::I8
    } else if width == 2 {
        ClifType::I16
    } else if width == 4 {
        ClifType::I32
    } else {
        ClifType::I64
    }
}

/// Executable form of [`spec_clif_type`].
pub fn clif_type_from_ty(types: &Vec<TyDef>, ls: &Vec<Layout>, t: usize) -> (r: Option<ClifType>)
    requires
        layouts_wf(types@, ls@),
        t < types@.len(),
    ensures
        r == spec_clif_type(types@, ls@, t as int),
{
    proof {
        assert(layout_wf_at(types@, ls@, t as int));
    }
    match &types[t] {
        TyDef::Bool => Some(ClifType::I8),
        TyDef::Char => Some(ClifType::I32),
        TyDef::Uint(u) => Some(
            match u {
                UintTy::U8 => ClifType::I8,
                UintTy::U16 => ClifType::I16,
                UintTy::U32 => ClifType::I32,
                UintTy::U64 => ClifType::I64,
                UintTy::Usize => ClifType::I64,
            },
        ),
        TyDef::Int(i) => Some(
            match i {
                IntTy::I8 => ClifType::I8,
                IntTy::I16 => ClifType::I16,
                IntTy::I32 => ClifType::I32,
                IntTy::I64 => ClifType::I64,
                IntTy::Isize => ClifType::I64,
            },
        ),
        TyDef::Float(f) => Some(
            match f {
                crate::ty::FloatTy::F32 => ClifType::F32,
                crate::ty::FloatTy::F64 => ClifType::F64,
            },
        ),
        TyDef::FnPtr(_) => Some(ClifType::I64),
        TyDef::Ref(_, p) => {
            if ls[*p].is_unsized() {
                None
            } else {
                Some(ClifType::I64)
            }
        },
        TyDef::RawPtr(_, p) => {
            if ls[*p].is_unsized() {
                None
            } else {
                Some(ClifType::I64)
            }
        },
        _ => None,
    }
}


/// Size a field contributes to containment facts: an unsized tail
/// contributes nothing.
pub open spec fn spec_field_size(ls: Seq<Layout>, fs: Seq<usize>, i: int) -> nat {
    if ls[fs[i] as int].spec_is_unsized() {
        0
    } else {
        ls[fs[i] as int].size as nat
    }
}

/// `x` rounded up to the next multiple of `a`.
pub open spec fn spec_round_up(x: nat, a: nat) -> nat {
    if a == 0 {
        x
    } else if x % a == 0 {
        x
    } else {
        (x + (a - x % a)) as nat
    }
}

/// Executable form of [`spec_round_up`].
pub fn round_up(x: u64, a: u64) -> (r: u64)
    requires
        1 <= a,
        x + a <= u64::MAX,
    ensures
        r == spec_round_up(x as nat, a as nat),
        x <= r < x + a,
        r % a == 0,
{
    let rem: u64 = x % a;
    if rem == 0 {
        x
    } else {
        proof {
            vstd::arithmetic::div_mod::lemma_fundamental_div_mod(x as int, a as int);
            let q = x as int / a as int;
            assert(x + (a - rem) == a * q + a);
            assert(a * q + a == a as int * (q + 1)) by (nonlinear_arith);
            vstd::arithmetic::div_mod::lemma_mod_multiples_vanish(q + 1, 0, a as int);
        }
        x + (a - rem)
    }
}

/// What must hold of a layout given its register classification alone.
pub open spec fn abi_wf(l: Layout) -> bool {
    match l.abi {
        Abi::Scalar(c) => l.size == c.spec_width() && l.align == c.spec_width(),
        Abi::ScalarPair(c1, c2) => {
            &&& l.field_offsets@.len() == 2
            &&& l.field_offsets@[0] == 0
            &&& l.field_offsets@[1] >= c1.spec_width()
            &&& l.field_offsets@[1] + c2.spec_width() <= l.size
        },
        Abi::Aggregate { .. } => true,
    }
}

/// What must hold of the layout of a pointer type whose pointee is `p`.
pub open spec fn ptr_layout_wf(ls: Seq<Layout>, t: int, p: int, l: Layout) -> bool {
    &&& 0 <= p < t
    &&& if ls[p].spec_is_unsized() {
        &&& l.abi == Abi::ScalarPair(ClifType::I64, ClifType::I64)
        &&& l.size == 2 * POINTER_SIZE
        &&& l.field_offsets@.len() == 2
        &&& l.field_offsets@[0] == 0
        &&& l.field_offsets@[1] == POINTER_SIZE
    } else {
        l.abi == Abi::Scalar(ClifType::I64) && l.field_offsets@.len() == 0
    }
}

/// The exact placement the layout algorithm computes for a record: the
/// first field at offset zero, each later field at the previous field's
/// end rounded up to its own alignment, the record's alignment its widest
/// field's, and its size its last field's end — rounded up to the
/// record's alignment unless an unsized tail leaves the total open.
/// Opaque: proofs reach for these equations only where the exact values
/// matter, the containment and disjointness facts beside them serve
/// everything else.
#[verifier::opaque]
pub open spec fn struct_layout_exact(ls: Seq<Layout>, fs: Seq<usize>, l: Layout) -> bool {
    &&& (fs.len() > 0 ==> l.field_offsets@[0] == 0)
    &&& forall|i: int|
        1 <= i < fs.len() ==> (#[trigger] l.field_offsets@[i]) == spec_round_up(
            (l.field_offsets@[i - 1] + spec_field_size(ls, fs, i - 1)) as nat,
            ls[fs[i] as int].align as nat,
        )
    &&& l.size == if fs.len() == 0 {
        0nat
    } else if ls[fs[fs.len() - 1] as int].spec_is_unsized() {
        (l.field_offsets@[fs.len() - 1] + spec_field_size(ls, fs, fs.len() - 1)) as nat
    } else {
        spec_round_up(
            (l.field_offsets@[fs.len() - 1] + spec_field_size(ls, fs, fs.len() - 1)) as nat,
            l.align as nat,
        )
    }
    &&& forall|i: int| 0 <= i < fs.len() ==> ls[(#[trigger] fs[i]) as int].align <= l.align
    &&& (l.align == 1 || exists|i: int|
        0 <= i < fs.len() && ls[(#[trigger] fs[i]) as int].align == l.align)
}

/// The exact shape the layout algorithm computes for an enum: its size is
/// its largest variant's, rounded up to its alignment, which is its most
/// demanding variant's. Opaque, as [`struct_layout_exact`] is.
#[verifier::opaque]
pub open spec fn enum_layout_exact(ls: Seq<Layout>, vs: Seq<usize>, l: Layout) -> bool {
    &&& (vs.len() == 0 ==> l.size == 0)
    &&& (vs.len() > 0 ==> exists|i: int|
        0 <= i < vs.len() && l.size == spec_round_up(
            ls[(#[trigger] vs[i]) as int].size as nat,
            l.align as nat,
        ))
    &&& forall|i: int| 0 <= i < vs.len() ==> ls[(#[trigger] vs[i]) as int].align <= l.align
    &&& (l.align == 1 || exists|i: int|
        0 <= i < vs.len() && ls[(#[trigger] vs[i]) as int].align == l.align)
}

/// What must hold of the layout of a record type with fields `fs`: each
/// field at the next offset its alignment allows, every field inside the
/// record and ahead of the next, the record's alignment its widest
/// field's, and its size the end of its last field, rounded up unless an
/// unsized tail leaves the total open.
pub open spec fn struct_layout_wf(ls: Seq<Layout>, t: int, fs: Seq<usize>, l: Layout) -> bool {
    &&& l.field_offsets@.len() == fs.len()
    &&& forall|i: int| 0 <= i < fs.len() ==> 0 <= (#[trigger] fs[i]) < t
    &&& forall|i: int|
        0 <= i < fs.len() - 1 ==> !ls[(#[trigger] fs[i]) as int].spec_is_unsized()
    &&& forall|i: int|
        0 <= i < fs.len() ==> (#[trigger] l.field_offsets@[i]) + spec_field_size(ls, fs, i)
            <= l.size
    &&& forall|i: int, j: int|
        0 <= i < j < fs.len() ==> (#[trigger] l.field_offsets@[i]) + spec_field_size(ls, fs, i)
            <= #[trigger] l.field_offsets@[j]
    &&& struct_layout_exact(ls, fs, l)
    &&& match l.abi {
        Abi::Aggregate { sized } => sized == (fs.len() == 0 || !ls[fs[fs.len() - 1] as int].spec_is_unsized()),
        Abi::ScalarPair(c1, c2) => {
            &&& fs.len() == 2
            &&& ls[fs[0] as int].abi == Abi::Scalar(c1)
            &&& ls[fs[1] as int].abi == Abi::Scalar(c2)
        },
        Abi::Scalar(_) => false,
    }
}

/// What must hold of the layout of an enum type with variants `vs`: as
/// large as its largest variant, rounded up to its alignment, which is
/// its most demanding variant's.
pub open spec fn enum_layout_wf(ls: Seq<Layout>, t: int, vs: Seq<usize>, l: Layout) -> bool {
    &&& forall|i: int|
        0 <= i < vs.len() ==> {
            &&& 0 <= (#[trigger] vs[i]) < t
            &&& !ls[vs[i] as int].spec_is_unsized()
            &&& ls[vs[i] as int].size <= l.size
        }
    &&& enum_layout_exact(ls, vs, l)
    &&& l.abi == (Abi::Aggregate { sized: true })
    &&& l.field_offsets@.len() == 0
}

/// Everything the rest of the crate relies on about `l` standing as the
/// layout of type table entry `t`, with `ls` giving the layouts of the
/// entries below `t`.
pub open spec fn layout_ok_for(types: Seq<TyDef>, ls: Seq<Layout>, t: int, l: Layout) -> bool {
    &&& l.size <= MAX_SIZE
    &&& 1 <= l.align <= 8
    &&& abi_wf(l)
    &&& match types[t] {
        TyDef::Bool => l.abi == Abi::Scalar(ClifType::I8) && l.field_offsets@.len() == 0,
        TyDef::Char => l.abi == Abi::Scalar(ClifType::I32) && l.field_offsets@.len() == 0,
        TyDef::Uint(u) => l.abi == Abi::Scalar(spec_uint_clif(u)) && l.field_offsets@.len() == 0,
        TyDef::Int(i) => l.abi == Abi::Scalar(spec_int_clif(i)) && l.field_offsets@.len() == 0,
        TyDef::Float(f) => l.abi == Abi::Scalar(
            match f {
                crate::ty::FloatTy::F32 => ClifType::F32,
                crate::ty::FloatTy::F64 => ClifType::F64,
            },
        ) && l.field_offsets@.len() == 0,
        TyDef::FnPtr(_) => l.abi == Abi::Scalar(ClifType::I64) && l.field_offsets@.len() == 0,
        TyDef::Ref(_, p) => ptr_layout_wf(ls, t, p as int, l),
        TyDef::RawPtr(_, p) => ptr_layout_wf(ls, t, p as int, l),
        TyDef::Boxed(p) => ptr_layout_wf(ls, t, p as int, l),
        TyDef::Array(e, n) => {
            &&& 0 <= e < t
            &&& !ls[e as int].spec_is_unsized()
            &&& l.size == n * ls[e as int].size
            &&& l.abi == (Abi::Aggregate { sized: true })
            &&& l.align == ls[e as int].align
            &&& l.field_offsets@.len() == 0
        },
        TyDef::Slice(e) => {
            &&& 0 <= e < t
            &&& !ls[e as int].spec_is_unsized()
            &&& l.size == 0
            &&& l.abi == (Abi::Aggregate { sized: false })
            &&& l.align == ls[e as int].align
            &&& l.field_offsets@.len() == 0
        },
        TyDef::Dynamic(_) => l.size == 0 && l.abi == (Abi::Aggregate { sized: false })
            && l.field_offsets@.len() == 0,
        TyDef::Phantom => l.size == 0 && l.abi == (Abi::Aggregate { sized: true })
            && l.field_offsets@.len() == 0,
        TyDef::Struct(fs) => struct_layout_wf(ls, t, fs@, l),
        TyDef::Enum(vs) => enum_layout_wf(ls, t, vs@, l),
    }
}

/// Everything the rest of the crate relies on about the layout of one
/// type table entry.
pub open spec fn layout_wf_at(types: Seq<TyDef>, ls: Seq<Layout>, t: int) -> bool {
    layout_ok_for(types, ls, t, ls[t])
}

/// The whole layout table is consistent with the whole type table.
pub open spec fn layouts_wf(types: Seq<TyDef>, ls: Seq<Layout>) -> bool {
    &&& ls.len() == types.len()
    &&& forall|t: int| 0 <= t < types.len() ==> #[trigger] layout_wf_at(types, ls, t)
}

/// A well-formed layout for entry `s` stays well-formed when the table
/// grows: it only ever looks at entries up to `s`.
proof fn lemma_wf_at_extend(types: Seq<TyDef>, ls: Seq<Layout>, l: Layout, s: int)
    requires
        0 <= s < ls.len(),
        s < types.len(),
        layout_wf_at(types, ls, s),
    ensures
        layout_wf_at(types, ls.push(l), s),
{
    reveal(crate::layout::struct_layout_exact);
    reveal(crate::layout::enum_layout_exact);
    let ls2 = ls.push(l);
    assert(forall|i: int| 0 <= i < ls.len() ==> ls2[i] == ls[i]);
}

/// A layout that is in order for entry `t` over the table of the entries
/// below `t` is well-formed once pushed onto that table.
proof fn lemma_ok_push(types: Seq<TyDef>, ls: Seq<Layout>, t: int, l: Layout)
    requires
        ls.len() == t,
        0 <= t < types.len(),
        layout_ok_for(types, ls, t, l),
    ensures
        layout_wf_at(types, ls.push(l), t),
{
    reveal(crate::layout::struct_layout_exact);
    reveal(crate::layout::enum_layout_exact);
    let ls2 = ls.push(l);
    assert(ls2[t] == l);
    assert(forall|i: int| 0 <= i < ls.len() ==> ls2[i] == ls[i]);
}


/// Build the layout shared by all scalar register classes: size and
/// alignment equal to the class width, no fields.
fn scalar_layout(c: ClifType) -> (l: Layout)
    ensures
        l.abi == Abi::Scalar(c),
        l.size == c.spec_width(),
        l.align == c.spec_width(),
        l.field_offsets@.len() == 0,
{
    let w: u64 = c.width();
    Layout { size: w, align: w, abi: Abi::Scalar(c), field_offsets: Vec::new() }
}

/// Build the layout of a fat pointer: a pointer and its metadata, side by
/// side.
fn fat_ptr_layout() -> (l: Layout)
    ensures
        l.abi == Abi::ScalarPair(ClifType::I64, ClifType::I64),
        l.size == 2 * POINTER_SIZE,
        l.align == POINTER_SIZE,
        l.field_offsets@.len() == 2,
        l.field_offsets@[0] == 0,
        l.field_offsets@[1] == POINTER_SIZE,
{
    let mut offs: Vec<u64> = Vec::new();
    offs.push(0);
    offs.push(POINTER_SIZE);
    Layout {
        size: 2 * POINTER_SIZE,
        align: POINTER_SIZE,
        abi: Abi::ScalarPair(ClifType::I64, ClifType::I64),
        field_offsets: offs,
    }
}

/// Lay out a record type: each field at the next offset its alignment
/// allows, the record aligned to its widest field. A record of exactly
/// two scalars is classified as a register pair; an unsized tail field
/// makes the whole record unsized.
fn struct_layout_of(ls: &Vec<Layout>, fs: &Vec<usize>, t: usize) -> (r: Result<
    Layout,
    LowerError,
>)
    requires
        t <= ls@.len(),
        forall|s: int|
            0 <= s < ls@.len() ==> {
                &&& (#[trigger] ls@[s]).size <= MAX_SIZE
                &&& 1 <= ls@[s].align <= 8
                &&& abi_wf(ls@[s])
            },
    ensures
        r matches Ok(l) ==> {
            &&& struct_layout_wf(ls@, t as int, fs@, l)
            &&& l.size <= MAX_SIZE
            &&& 1 <= l.align <= 8
            &&& abi_wf(l)
        },
{
    let nf: usize = fs.len();
    let mut offsets: Vec<u64> = Vec::new();
    let mut end: u64 = 0;
    let mut align: u64 = 1;
    let mut tail_unsized: bool = false;
    let mut i: usize = 0;
    while i < nf
        invariant
            i <= nf,
            nf == fs@.len(),
            offsets@.len() == i,
            end <= MAX_SIZE,
            1 <= align <= 8,
            t <= ls@.len(),
            forall|s: int|
                0 <= s < ls@.len() ==> {
                    &&& (#[trigger] ls@[s]).size <= MAX_SIZE
                    &&& 1 <= ls@[s].align <= 8
                    &&& abi_wf(ls@[s])
                },
            forall|j: int| 0 <= j < i ==> 0 <= (#[trigger] fs@[j]) < t,
            forall|j: int| 0 <= j < i && j < nf - 1 ==> !ls@[(#[trigger] fs@[j]) as int].spec_is_unsized(),
            forall|j: int|
                0 <= j < i ==> (#[trigger] offsets@[j]) + spec_field_size(ls@, fs@, j) <= end,
            forall|j: int, k: int|
                0 <= j < k < i ==> (#[trigger] offsets@[j]) + spec_field_size(ls@, fs@, j)
                    <= (#[trigger] offsets@[k]),
            i == 0 ==> end == 0,
            i > 0 ==> offsets@[0] == 0,
            i > 0 ==> end == (offsets@[i - 1] + spec_field_size(ls@, fs@, i - 1)) as nat,
            forall|j: int|
                1 <= j < i ==> (#[trigger] offsets@[j]) == spec_round_up(
                    (offsets@[j - 1] + spec_field_size(ls@, fs@, j - 1)) as nat,
                    ls@[fs@[j] as int].align as nat,
                ),
            forall|j: int| 0 <= j < i ==> ls@[(#[trigger] fs@[j]) as int].align <= align,
            align == 1 || exists|j: int|
                0 <= j < i && ls@[(#[trigger] fs@[j]) as int].align == align,
            tail_unsized <==> (i == nf && nf > 0 && i > 0 && ls@[fs@[i - 1] as int].spec_is_unsized()),
        decreases nf - i,
    {
        let f: usize = fs[i];
        if f >= t {
            return Err(LowerError::BadTypeIndex { ty: t });
        }
        let funsized: bool = ls[f].is_unsized();
        if funsized && i + 1 != nf {
            return Err(LowerError::FieldNotLast { ty: t, field: i });
        }
        let falign: u64 = ls[f].align;
        let off: u64 = round_up(end, falign);
        let fsz: u64 = if funsized {
            0
        } else {
            ls[f].size
        };
        if off > MAX_SIZE || fsz > MAX_SIZE - off {
            return Err(LowerError::SizeOverflow { ty: t });
        }
        proof {
            if i == 0 {
                assert(end == 0);
                assert(1 <= falign);
                vstd::arithmetic::div_mod::lemma_small_mod(0, falign as nat);
                assert(off == 0);
            }
        }
        offsets.push(off);
        end = off + fsz;
        if falign > align {
            align = falign;
        }
        if funsized {
            tail_unsized = true;
        }
        i = i + 1;
    }
    let sized: bool = !tail_unsized;
    let size: u64 = if sized {
        let su: u64 = round_up(end, align);
        if su > MAX_SIZE {
            return Err(LowerError::SizeOverflow { ty: t });
        }
        proof {
            if nf == 0 {
                vstd::arithmetic::div_mod::lemma_small_mod(0, align as nat);
            }
        }
        su
    } else {
        end
    };
    let abi: Abi = if nf == 2 {
        match (ls[fs[0]].abi, ls[fs[1]].abi) {
            (Abi::Scalar(c1), Abi::Scalar(c2)) => Abi::ScalarPair(c1, c2),
            _ => Abi::Aggregate { sized },
        }
    } else {
        Abi::Aggregate { sized }
    };
    let l = Layout { size, align, abi, field_offsets: offsets };
    proof {
        reveal(crate::layout::struct_layout_exact);
        if l.abi matches Abi::ScalarPair(c1, c2) {
            assert(spec_field_size(ls@, fs@, 0) == ls@[fs@[0] as int].size);
            assert(spec_field_size(ls@, fs@, 1) == ls@[fs@[1] as int].size);
        }
    }
    Ok(l)
}

/// Lay out an enum type: as large and as aligned as its largest variant.
fn enum_layout_of(ls: &Vec<Layout>, vs: &Vec<usize>, t: usize) -> (r: Result<Layout, LowerError>)
    requires
        t <= ls@.len(),
        forall|s: int|
            0 <= s < ls@.len() ==> {
                &&& (#[trigger] ls@[s]).size <= MAX_SIZE
                &&& 1 <= ls@[s].align <= 8
                &&& abi_wf(ls@[s])
            },
    ensures
        r matches Ok(l) ==> {
            &&& enum_layout_wf(ls@, t as int, vs@, l)
            &&& l.size <= MAX_SIZE
            &&& 1 <= l.align <= 8
            &&& abi_wf(l)
        },
{
    let nv: usize = vs.len();
    let mut size: u64 = 0;
    let mut align: u64 = 1;
    let mut i: usize = 0;
    while i < nv
        invariant
            i <= nv,
            nv == vs@.len(),
            size <= MAX_SIZE,
            1 <= align <= 8,
            t <= ls@.len(),
            forall|s: int|
                0 <= s < ls@.len() ==> {
                    &&& (#[trigger] ls@[s]).size <= MAX_SIZE
                    &&& 1 <= ls@[s].align <= 8
                    &&& abi_wf(ls@[s])
                },
            forall|j: int|
                0 <= j < i ==> {
                    &&& 0 <= (#[trigger] vs@[j]) < t
                    &&& !ls@[vs@[j] as int].spec_is_unsized()
                    &&& ls@[vs@[j] as int].size <= size
                },
            i == 0 ==> size == 0,
            i > 0 ==> exists|j: int| 0 <= j < i && ls@[(#[trigger] vs@[j]) as int].size == size,
            forall|j: int| 0 <= j < i ==> ls@[(#[trigger] vs@[j]) as int].align <= align,
            align == 1 || exists|j: int|
                0 <= j < i && ls@[(#[trigger] vs@[j]) as int].align == align,
        decreases nv - i,
    {
        let v: usize = vs[i];
        if v >= t {
            return Err(LowerError::BadTypeIndex { ty: t });
        }
        if ls[v].is_unsized() {
            return Err(LowerError::VariantNotSized { ty: t, variant: i });
        }
        if ls[v].size > size {
            size = ls[v].size;
        }
        if ls[v].align > align {
            align = ls[v].align;
        }
        i = i + 1;
    }
    let rounded: u64 = round_up(size, align);
    let size_final: u64 = if rounded > MAX_SIZE {
        return Err(LowerError::SizeOverflow { ty: t });
    } else {
        proof {
            if nv == 0 {
                vstd::arithmetic::div_mod::lemma_small_mod(0, align as nat);
            }
        }
        rounded
    };
    proof {
        reveal(crate::layout::enum_layout_exact);
    }
    Ok(
        Layout {
            size: size_final,
            align,
            abi: Abi::Aggregate { sized: true },
            field_offsets: Vec::new(),
        },
    )
}

/// Lay out one type table entry, given the layouts of all entries below
/// it.
fn layout_of_entry(types: &Vec<TyDef>, ls: &Vec<Layout>, t: usize) -> (r: Result<
    Layout,
    LowerError,
>)
    requires
        t < types@.len(),
        ls@.len() == t,
        forall|s: int| 0 <= s < t ==> #[trigger] layout_wf_at(types@, ls@, s),
    ensures
        r matches Ok(l) ==> layout_ok_for(types@, ls@, t as int, l),
{
    proof {
        assert forall|s: int| 0 <= s < ls@.len() implies {
            &&& (#[trigger] ls@[s]).size <= MAX_SIZE
            &&& 1 <= ls@[s].align <= 8
            &&& abi_wf(ls@[s])
        } by {
            assert(layout_wf_at(types@, ls@, s));
        }
    }
    match &types[t] {
        TyDef::Bool => Ok(scalar_layout(ClifType::I8)),
        TyDef::Char => Ok(scalar_layout(ClifType::I32)),
        TyDef::Uint(u) => Ok(
            scalar_layout(
                match u {
                    UintTy::U8 => ClifType::I8,
                    UintTy::U16 => ClifType::I16,
                    UintTy::U32 => ClifType::I32,
                    UintTy::U64 => ClifType::I64,
                    UintTy::Usize => ClifType::I64,
                },
            ),
        ),
        TyDef::Int(i) => Ok(
            scalar_layout(
                match i {
                    IntTy::I8 => ClifType::I8,
                    IntTy::I16 => ClifType::I16,
                    IntTy::I32 => ClifType::I32,
                    IntTy::I64 => ClifType::I64,
                    IntTy::Isize => ClifType::I64,
                },
            ),
        ),
        TyDef::Float(f) => Ok(
            scalar_layout(
                match f {
                    crate::ty::FloatTy::F32 => ClifType::F32,
                    crate::ty::FloatTy::F64 => ClifType::F64,
                },
            ),
        ),
        TyDef::FnPtr(_) => Ok(scalar_layout(ClifType::I64)),
        TyDef::Ref(_, p) | TyDef::RawPtr(_, p) | TyDef::Boxed(p) => {
            if *p >= t {
                return Err(LowerError::BadTypeIndex { ty: t });
            }
            if ls[*p].is_unsized() {
                Ok(fat_ptr_layout())
            } else {
                Ok(scalar_layout(ClifType::I64))
            }
        },
        TyDef::Array(e, n) => {
            if *e >= t {
                return Err(LowerError::BadTypeIndex { ty: t });
            }
            if ls[*e].is_unsized() {
                return Err(LowerError::ArrayOfUnsized { ty: t });
            }
            let esz: u64 = ls[*e].size;
            let total: u64 = if esz == 0 {
                0
            } else {
                if *n > MAX_SIZE / esz {
                    return Err(LowerError::SizeOverflow { ty: t });
                }
                proof {
                    vstd::arithmetic::mul::lemma_mul_inequality(
                        *n as int,
                        (MAX_SIZE / esz) as int,
                        esz as int,
                    );
                    vstd::arithmetic::div_mod::lemma_fundamental_div_mod(
                        MAX_SIZE as int,
                        esz as int,
                    );
                    assert((MAX_SIZE / esz) * esz <= MAX_SIZE) by (nonlinear_arith)
                        requires
                            esz >= 1,
                            MAX_SIZE as int == esz * (MAX_SIZE as int / esz as int) + MAX_SIZE as int
                                % esz as int,
                            MAX_SIZE as int % esz as int >= 0,
                    ;
                }
                *n * esz
            };
            Ok(
                Layout {
                    size: total,
                    align: ls[*e].align,
                    abi: Abi::Aggregate { sized: true },
                    field_offsets: Vec::new(),
                },
            )
        },
        TyDef::Slice(e) => {
            if *e >= t {
                return Err(LowerError::BadTypeIndex { ty: t });
            }
            if ls[*e].is_unsized() {
                return Err(LowerError::ArrayOfUnsized { ty: t });
            }
            Ok(
                Layout {
                    size: 0,
                    align: ls[*e].align,
                    abi: Abi::Aggregate { sized: false },
                    field_offsets: Vec::new(),
                },
            )
        },
        TyDef::Dynamic(_) => Ok(
            Layout {
                size: 0,
                align: 1,
                abi: Abi::Aggregate { sized: false },
                field_offsets: Vec::new(),
            },
        ),
        TyDef::Phantom => Ok(
            Layout {
                size: 0,
                align: 1,
                abi: Abi::Aggregate { sized: true },
                field_offsets: Vec::new(),
            },
        ),
        TyDef::Struct(fs) => struct_layout_of(ls, fs, t),
        TyDef::Enum(vs) => enum_layout_of(ls, vs, t),
    }
}

/// Compute the layout of every entry of a type table, bottom up.
///
/// An `Err` names an entry that is malformed: it references an entry at
/// or above its own index, builds an array, slice or enum from an unsized
/// type, places an unsized field before a record's last, or reaches a
/// size past [`MAX_SIZE`]. A table that is `Ok` satisfies [`layouts_wf`],
/// which the operations of this crate rely on.
pub fn compute_layouts(types: &Vec<TyDef>) -> (r: Result<Vec<Layout>, LowerError>)
    ensures
        r matches Ok(ls) ==> layouts_wf(types@, ls@),
{
    let n: usize = types.len();
    let mut ls: Vec<Layout> = Vec::new();
    let mut t: usize = 0;
    while t < n
        invariant
            t <= n,
            n == types@.len(),
            ls@.len() == t,
            forall|s: int| 0 <= s < t ==> #[trigger] layout_wf_at(types@, ls@, s),
        decreases n - t,
    {
        let l: Layout = match layout_of_entry(types, &ls, t) {
            Ok(l) => l,
            Err(e) => {
                return Err(e);
            },
        };
        let ghost ls0 = ls@;
        proof {
            lemma_ok_push(types@, ls0, t as int, l);
        }
        ls.push(l);
        proof {
            assert forall|s: int| 0 <= s < t + 1 implies #[trigger] layout_wf_at(
                types@,
                ls@,
                s,
            ) by {
                assert(ls@ == ls0.push(l));
                if s < t {
                    lemma_wf_at_extend(types@, ls0, l, s);
                }
            }
        }
        t = t + 1;
    }
    Ok(ls)
}


/// A type with a register class is laid out as exactly that one scalar.
pub proof fn lemma_clif_abi(types: Seq<TyDef>, ls: Seq<Layout>, t: int)
    requires
        layouts_wf(types, ls),
        0 <= t < types.len(),
    ensures
        spec_clif_type(types, ls, t) matches Some(c) ==> ls[t].abi == Abi::Scalar(c),
{
    assert(layout_wf_at(types, ls, t));
}

} // verus!
