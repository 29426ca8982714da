//! Assignable places.
//!
//! A [`CPlace`] is a location a value can be written to or read back from:
//! either a virtual variable of the instruction generator (for values that
//! are register-sized in their entirety) or an addressed region of memory.
//! An addressed place of an unsized type carries one extra scalar — the
//! slice length or the vtable address — and an addressed place without
//! that extra is always of a sized type.
//!
//! [`CPlace::write_cvalue`] is the central operation: it checks every write
//! against the assignment-compatibility rule, reduces register-sized
//! writes to variable definitions or scalar stores, and performs
//! memory-to-memory writes as a greedy block copy of eight-, four- and
//! one-byte chunks.

use crate::bytes::{
    copied, fits, holds_le, lemma_bytes_of_word, lemma_word_at_congr, stored, unchanged_outside,
    word_at,
};
use crate::context::{mir_var, FunctionCx, Local};
use crate::error::LowerError;
use crate::layout::{layout_wf_at, Abi, ClifType};
use crate::ty::{spec_ty_compat, ty_compat, TyDef};
use crate::value::{spec_load_type, CValue};
use vstd::prelude::*;

verus! {

/// An assignable place: a virtual variable, or an address with optional
/// unsized-metadata. The last component of each form is the place's type,
/// an index into the type table of the [`FunctionCx`] it lives in.
#[derive(Clone, Copy, Debug, PartialEq, Eq)]
pub enum CPlace {
    Var(Local, usize),
    Addr(u64, Option<u64>, usize),
}

/// Compatible types share one physical layout: the same classification,
/// size, and field offsets.
pub proof fn lemma_compat_layout(fx: FunctionCx, ft: int, tt: int)
    requires
        fx.wf(),
        0 <= ft < fx.n_types(),
        0 <= tt < fx.n_types(),
        spec_ty_compat(fx.types@, ft, tt),
    ensures
        fx.lay(ft).abi == fx.lay(tt).abi,
        fx.lay(ft).size == fx.lay(tt).size,
        fx.lay(ft).field_offsets@ =~= fx.lay(tt).field_offsets@,
        spec_load_type(fx, ft) == spec_load_type(fx, tt),
{
    assert(layout_wf_at(fx.types@, fx.layouts@, ft));
    assert(layout_wf_at(fx.types@, fx.layouts@, tt));
    if ft != tt {
        match (fx.types@[ft], fx.types@[tt]) {
            (TyDef::Ref(_, p1), TyDef::Ref(_, p2)) => {
                assert(p1 == p2);
                if fx.lay(p1 as int).spec_is_unsized() {
                    assert(fx.lay(ft).field_offsets@.len() == 2);
                    assert(fx.lay(tt).field_offsets@.len() == 2);
                    assert(fx.lay(ft).field_offsets@[0] == 0 && fx.lay(ft).field_offsets@[1]
                        == crate::layout::POINTER_SIZE);
                    assert(fx.lay(tt).field_offsets@[0] == 0 && fx.lay(tt).field_offsets@[1]
                        == crate::layout::POINTER_SIZE);
                } else {
                    assert(fx.lay(ft).field_offsets@.len() == 0);
                    assert(fx.lay(tt).field_offsets@.len() == 0);
                }
            },
            (TyDef::FnPtr(_), TyDef::FnPtr(_)) => {
                assert(fx.lay(ft).field_offsets@.len() == 0);
                assert(fx.lay(tt).field_offsets@.len() == 0);
            },
            _ => {
                assert(false);
            },
        }
    }
}

/// The error [`CPlace::write_cvalue`] stops on, if any: the compatibility
/// check first, then the form checks the destination makes.
pub open spec fn spec_write_err(place: CPlace, from: CValue, fx: FunctionCx) -> Option<
    LowerError,
> {
    let ft = from.spec_layout();
    let tt = place.spec_layout();
    if !spec_ty_compat(fx.types@, ft as int, tt as int) {
        Some(LowerError::TypeMismatch { from: ft, to: tt })
    } else {
        match place {
            CPlace::Var(_, _) => match from {
                CValue::ByValPair(_, _, _) => Some(LowerError::ScalarOfPair { ty: ft }),
                CValue::ByRef(_, _) => if spec_load_type(fx, ft as int) is None {
                    Some(LowerError::NoRegisterClass { ty: ft })
                } else {
                    None
                },
                CValue::ByVal(_, _) => None,
            },
            CPlace::Addr(_, extra, t) => if extra is Some {
                Some(LowerError::WriteToUnsized { ty: t })
            } else {
                None
            },
        }
    }
}

/// The one scalar a value reduces to when written into a virtual
/// variable: the register datum itself, or the word loaded from memory.
pub open spec fn spec_scalar_of(fx: FunctionCx, v: CValue) -> u64 {
    match v {
        CValue::ByVal(x, _) => x,
        CValue::ByRef(a, ft) => word_at(
            fx.mem@,
            a as int,
            spec_load_type(fx, ft as int)->Some_0.spec_width(),
        ) as u64,
        CValue::ByValPair(x, _, _) => x,
    }
}

/// What a successful write of `from` into `place` does, relating the
/// context before (`o`) to the context after (`f`): a virtual variable is
/// redefined to the value's one scalar; an addressed place receives a
/// scalar store, a pair of stores at its layout's two field offsets, or a
/// block copy of exactly its own size, with everything outside the
/// destination untouched.
pub open spec fn spec_write_post(place: CPlace, from: CValue, o: FunctionCx, f: FunctionCx) -> bool {
    match place {
        CPlace::Var(local, t) => {
            &&& f.mem == o.mem
            &&& f.vars@ == o.vars@.update(local.0 as int, (t, spec_scalar_of(o, from)))
        },
        CPlace::Addr(d, _, dt) => {
            &&& f.vars == o.vars
            &&& unchanged_outside(o.mem@, f.mem@, d as int, o.sizeof(dt as int))
            &&& match from {
                CValue::ByVal(v, _) => stored(o.mem@, f.mem@, d as int, o.sizeof(dt as int), v),
                CValue::ByValPair(x, y, _) => match o.lay(dt as int).abi {
                    Abi::ScalarPair(c1, c2) => {
                        &&& holds_le(
                            f.mem@,
                            d + o.lay(dt as int).field_offsets@[0],
                            c1.spec_width(),
                            x as nat,
                        )
                        &&& holds_le(
                            f.mem@,
                            d + o.lay(dt as int).field_offsets@[1],
                            c2.spec_width(),
                            y as nat,
                        )
                    },
                    _ => false,
                },
                CValue::ByRef(sa, _) => copied(
                    o.mem@,
                    f.mem@,
                    sa as int,
                    d as int,
                    o.sizeof(dt as int),
                ),
            }
        },
    }
}

impl CPlace {
    /// The place's type: the layout handle everything else is asked of.
    pub open spec fn spec_layout(self) -> usize {
        match self {
            CPlace::Var(_, t) => t,
            CPlace::Addr(_, _, t) => t,
        }
    }

    /// Executable form of [`Self::spec_layout`].
    pub fn layout(&self) -> (t: usize)
        ensures
            t == self.spec_layout(),
    {
        match self {
            CPlace::Var(_, t) => *t,
            CPlace::Addr(_, _, t) => *t,
        }
    }

    /// The place is in order for its type: the type exists; a virtual
    /// variable place names a declared variable of that same type; and an
    /// addressed place carries its extra metadata exactly when its type is
    /// unsized.
    pub open spec fn wf(self, fx: FunctionCx) -> bool {
        &&& self.spec_layout() < fx.n_types()
        &&& match self {
            CPlace::Var(local, t) => {
                &&& local.0 < fx.vars@.len()
                &&& fx.vars@[local.0 as int].0 == t
            },
            CPlace::Addr(_, extra, t) => extra is Some <==> fx.lay(t as int).spec_is_unsized(),
        }
    }

    /// An addressed place's bytes lie inside the context's memory.
    pub open spec fn in_bounds(self, fx: FunctionCx) -> bool {
        match self {
            CPlace::Addr(a, _, t) => a + fx.sizeof(t as int) <= fx.mem@.len(),
            CPlace::Var(_, _) => true,
        }
    }

    /// A fresh anonymous place for a value of sized type `ty`: a new
    /// zeroed stack slot of the type's size and alignment.
    pub fn temp(fx: &mut FunctionCx, ty: usize) -> (r: CPlace)
        requires
            old(fx).wf(),
            ty < old(fx).n_types(),
            !old(fx).lay(ty as int).spec_is_unsized(),
            old(fx).mem@.len() + 8 + old(fx).sizeof(ty as int) <= crate::context::MAX_MEM,
        ensures
            final(fx).wf(),
            old(fx).same_meta(*final(fx)),
            final(fx).vars == old(fx).vars,
            final(fx).vtables == old(fx).vtables,
            final(fx).mem@.len() >= old(fx).mem@.len(),
            forall|i: int|
                0 <= i < old(fx).mem@.len() ==> #[trigger] final(fx).mem@[i] == old(fx).mem@[i],
            r matches CPlace::Addr(a, extra, t) && extra is None && t == ty && a >= old(
                fx,
            ).mem@.len(),
            r.wf(*final(fx)),
            r.in_bounds(*final(fx)),
    {
        proof {
            assert(layout_wf_at(fx.types@, fx.layouts@, ty as int));
        }
        let size: u64 = fx.layout_of(ty).size;
        let align: u64 = fx.layout_of(ty).align;
        let addr: u64 = fx.create_stack_slot(size, align);
        CPlace::Addr(addr, None, ty)
    }

    /// The place over an existing stack slot at `addr`, read as sized type
    /// `ty`.
    pub fn from_stack_slot(fx: &FunctionCx, addr: u64, ty: usize) -> (r: CPlace)
        requires
            fx.wf(),
            ty < fx.n_types(),
            !fx.lay(ty as int).spec_is_unsized(),
        ensures
            r == CPlace::Addr(addr, None::<u64>, ty),
            r.wf(*fx),
    {
        CPlace::Addr(addr, None, ty)
    }

    /// Realize this place as a value: a virtual variable yields its
    /// current register content, a sized addressed place yields itself by
    /// reference. An unsized place cannot be realized.
    pub fn to_cvalue(self, fx: &FunctionCx) -> (r: Result<CValue, LowerError>)
        requires
            fx.wf(),
            self.wf(*fx),
        ensures
            match self {
                CPlace::Var(local, t) => r == Ok::<CValue, LowerError>(
                    CValue::ByVal(fx.vars@[local.0 as int].1, t),
                ),
                CPlace::Addr(a, extra, t) => if extra is None {
                    r == Ok::<CValue, LowerError>(CValue::ByRef(a, t))
                } else {
                    r == Err::<CValue, LowerError>(LowerError::UnsizedPlace { ty: t })
                },
            },
            r matches Ok(v) ==> v.wf(*fx),
            self.in_bounds(*fx) ==> (r matches Ok(v) ==> v.in_bounds(*fx)),
    {
        match self {
            CPlace::Var(local, t) => {
                proof {
                    crate::layout::lemma_clif_abi(fx.types@, fx.layouts@, t as int);
                }
                Ok(CValue::ByVal(fx.use_var(mir_var(local)), t))
            },
            CPlace::Addr(a, extra, t) => match extra {
                Option::None => Ok(CValue::ByRef(a, t)),
                Option::Some(_) => Err(LowerError::UnsizedPlace { ty: t }),
            },
        }
    }

    /// The address of a sized addressed place; a virtual variable or an
    /// unsized place has none to give.
    pub fn expect_addr(self) -> (r: Result<u64, LowerError>)
        ensures
            match self {
                CPlace::Addr(a, extra, t) => if extra is None {
                    r == Ok::<u64, LowerError>(a)
                } else {
                    r == Err::<u64, LowerError>(LowerError::UnsizedPlace { ty: t })
                },
                CPlace::Var(_, t) => r == Err::<u64, LowerError>(
                    LowerError::VarWhereAddr { ty: t },
                ),
            },
    {
        match self {
            CPlace::Addr(a, Option::None, _) => Ok(a),
            CPlace::Addr(_, Option::Some(_), t) => Err(LowerError::UnsizedPlace { ty: t }),
            CPlace::Var(_, t) => Err(LowerError::VarWhereAddr { ty: t }),
        }
    }

    /// Write `from` into this place.
    ///
    /// The assignment-compatibility check comes first: identical types
    /// pass; a reference passes if the pointee types are identical and a
    /// destination demanding exclusive access is not fed a shared source;
    /// function pointers pass when their normalized signatures are equal;
    /// anything else is a type mismatch. A virtual variable destination
    /// takes one scalar; a sized addressed destination takes a scalar
    /// store, a pair of stores at its two field offsets, or — for a
    /// memory-to-memory write — a block copy of exactly its own size,
    /// whatever follows the destination in memory left untouched.
    ///
    /// A memory-to-memory write asks its caller for disjoint ranges: the
    /// greedy copy reads and writes chunkwise, and the modelled memory
    /// holds it to moving the source bytes as they were. Assignments the
    /// earlier passes emit never overlap.
    pub fn write_cvalue(self, fx: &mut FunctionCx, from: CValue) -> (r: Result<(), LowerError>)
        requires
            old(fx).wf(),
            self.wf(*old(fx)),
            from.wf(*old(fx)),
            from.in_bounds(*old(fx)),
            self.in_bounds(*old(fx)),
            // a memory-to-memory write must not overlap
            match (self, from) {
                (CPlace::Addr(d, _, dt), CValue::ByRef(s, _)) => d + old(fx).sizeof(dt as int) <= s
                    || s + old(fx).sizeof(dt as int) <= d,
                _ => true,
            },
        ensures
            final(fx).wf(),
            old(fx).same_meta(*final(fx)),
            final(fx).vtables == old(fx).vtables,
            final(fx).mem@.len() == old(fx).mem@.len(),
            r is Err <==> spec_write_err(self, from, *old(fx)) is Some,
            r is Err ==> r->Err_0 == spec_write_err(self, from, *old(fx))->Some_0 && *final(fx)
                == *old(fx),
            r is Ok ==> spec_write_post(self, from, *old(fx), *final(fx)),
    {
        let from_ty: usize = from.layout();
        let to_ty: usize = self.layout();
        if !ty_compat(&fx.types, from_ty, to_ty) {
            return Err(LowerError::TypeMismatch { from: from_ty, to: to_ty });
        }
        proof {
            lemma_compat_layout(*fx, from_ty as int, to_ty as int);
            assert(layout_wf_at(fx.types@, fx.layouts@, from_ty as int));
            assert(layout_wf_at(fx.types@, fx.layouts@, to_ty as int));
        }
        match self {
            CPlace::Var(local, t) => {
                let data: u64 = match from.load_value(fx) {
                    Ok(d) => d,
                    Err(e) => {
                        return Err(e);
                    },
                };
                proof {
                    crate::layout::lemma_clif_abi(fx.types@, fx.layouts@, t as int);
                    crate::layout::lemma_clif_abi(fx.types@, fx.layouts@, from_ty as int);
                }
                fx.def_var(mir_var(local), t, data);
                Ok(())
            },
            CPlace::Addr(d, Option::None, dt) => {
                match from {
                    CValue::ByVal(v, _) => {
                        let c: ClifType = match fx.layout_of(from_ty).abi {
                            Abi::Scalar(c) => c,
                            _ => {
                                proof {
                                    assert(false);
                                }
                                ClifType::I64
                            },
                        };
                        fx.store(c, v, d, 0);
                        Ok(())
                    },
                    CValue::ByValPair(x, y, _) => {
                        let (c1, c2): (ClifType, ClifType) = match fx.layout_of(from_ty).abi {
                            Abi::ScalarPair(c1, c2) => (c1, c2),
                            _ => {
                                proof {
                                    assert(false);
                                }
                                (ClifType::I64, ClifType::I64)
                            },
                        };
                        let off0: u64 = fx.layout_of(dt).field_offsets[0];
                        let off1: u64 = fx.layout_of(dt).field_offsets[1];
                        fx.store(c1, x, d, off0);
                        let ghost mem_mid = fx.mem@;
                        fx.store(c2, y, d, off1);
                        proof {
                            assert forall|i: int|
                                d + off0 <= i < d + off0 + c1.spec_width() implies #[trigger] fx.mem@[i]
                                == crate::bytes::nth_byte(x as nat, (i - (d + off0)) as nat) by {
                                assert(fx.mem@[i] == mem_mid[i]);
                            }
                        }
                        Ok(())
                    },
                    CValue::ByRef(s, _) => {
                        let size: u64 = fx.layout_of(dt).size;
                        let ghost mem0 = fx.mem@;
                        let mut offset: u64 = 0;
                        while size - offset >= 8
                            invariant
                                offset <= size,
                                size == fx.sizeof(dt as int),
                                fx.wf(),
                                old(fx).same_meta(*fx),
                                fx.vars == old(fx).vars,
                                fx.vtables == old(fx).vtables,
                                fx.mem@.len() == mem0.len(),
                                mem0 == old(fx).mem@,
                                d + size <= mem0.len(),
                                s + size <= mem0.len(),
                                d + size <= s || s + size <= d,
                                forall|i: int|
                                    0 <= i < mem0.len() && !(d <= i < d + size)
                                        ==> #[trigger] fx.mem@[i] == mem0[i],
                                forall|i: int|
                                    d <= i < d + offset ==> #[trigger] fx.mem@[i] == mem0[s + (i
                                        - d)],
                            decreases size - offset,
                        {
                            copy_chunk(fx, ClifType::I64, s, d, offset, Ghost(mem0), Ghost(size as nat));
                            offset = offset + 8;
                        }
                        while size - offset >= 4
                            invariant
                                offset <= size,
                                size == fx.sizeof(dt as int),
                                fx.wf(),
                                old(fx).same_meta(*fx),
                                fx.vars == old(fx).vars,
                                fx.vtables == old(fx).vtables,
                                fx.mem@.len() == mem0.len(),
                                mem0 == old(fx).mem@,
                                d + size <= mem0.len(),
                                s + size <= mem0.len(),
                                d + size <= s || s + size <= d,
                                forall|i: int|
                                    0 <= i < mem0.len() && !(d <= i < d + size)
                                        ==> #[trigger] fx.mem@[i] == mem0[i],
                                forall|i: int|
                                    d <= i < d + offset ==> #[trigger] fx.mem@[i] == mem0[s + (i
                                        - d)],
                            decreases size - offset,
                        {
                            copy_chunk(fx, ClifType::I32, s, d, offset, Ghost(mem0), Ghost(size as nat));
                            offset = offset + 4;
                        }
                        while offset < size
                            invariant
                                offset <= size,
                                size == fx.sizeof(dt as int),
                                fx.wf(),
                                old(fx).same_meta(*fx),
                                fx.vars == old(fx).vars,
                                fx.vtables == old(fx).vtables,
                                fx.mem@.len() == mem0.len(),
                                mem0 == old(fx).mem@,
                                d + size <= mem0.len(),
                                s + size <= mem0.len(),
                                d + size <= s || s + size <= d,
                                forall|i: int|
                                    0 <= i < mem0.len() && !(d <= i < d + size)
                                        ==> #[trigger] fx.mem@[i] == mem0[i],
                                forall|i: int|
                                    d <= i < d + offset ==> #[trigger] fx.mem@[i] == mem0[s + (i
                                        - d)],
                            decreases size - offset,
                        {
                            copy_chunk(fx, ClifType::I8, s, d, offset, Ghost(mem0), Ghost(size as nat));
                            offset = offset + 1;
                        }
                        Ok(())
                    },
                }
            },
            CPlace::Addr(_, Option::Some(_), dt) => Err(LowerError::WriteToUnsized { ty: dt }),
        }
    }
}

/// Copy one chunk of `c`'s width from `src + offset` to `dst + offset`,
/// preserving the block-copy invariants: the destination prefix up to
/// `offset + width` holds the source bytes, and nothing outside the
/// destination block changes.
fn copy_chunk(
    fx: &mut FunctionCx,
    c: ClifType,
    src: u64,
    dst: u64,
    offset: u64,
    Ghost(mem0): Ghost<Seq<u8>>,
    Ghost(size): Ghost<nat>,
)
    requires
        old(fx).wf(),
        offset + c.spec_width() <= size,
        dst + size <= mem0.len(),
        src + size <= mem0.len(),
        dst + size <= src || src + size <= dst,
        old(fx).mem@.len() == mem0.len(),
        forall|i: int|
            0 <= i < mem0.len() && !(dst <= i < dst + size) ==> #[trigger] old(fx).mem@[i]
                == mem0[i],
        forall|i: int|
            dst <= i < dst + offset ==> #[trigger] old(fx).mem@[i] == mem0[src + (i - dst)],
    ensures
        final(fx).wf(),
        old(fx).same_meta(*final(fx)),
        final(fx).vars == old(fx).vars,
        final(fx).vtables == old(fx).vtables,
        final(fx).mem@.len() == mem0.len(),
        forall|i: int|
            0 <= i < mem0.len() && !(dst <= i < dst + size) ==> #[trigger] final(fx).mem@[i]
                == mem0[i],
        forall|i: int|
            dst <= i < dst + offset + c.spec_width() ==> #[trigger] final(fx).mem@[i] == mem0[src
                + (i - dst)],
{
    proof {
        assert forall|i: int| src + offset <= i < src + offset + c.spec_width() implies #[trigger] fx.mem@[i]
            == mem0[i] by {
            assert(!(dst <= i < dst + size));
        }
        lemma_word_at_congr(fx.mem@, mem0, src + offset, c.spec_width());
    }
    let v: u64 = fx.load(c, src, offset);
    let ghost mem_before = fx.mem@;
    fx.store(c, v, dst, offset);
    proof {
        let w = c.spec_width();
        assert forall|i: int| dst <= i < dst + offset + w implies #[trigger] fx.mem@[i] == mem0[src
            + (i - dst)] by {
            if i < dst + offset {
                assert(fx.mem@[i] == mem_before[i]);
            } else {
                let k = i - (dst + offset);
                assert(fx.mem@[i] == crate::bytes::nth_byte(v as nat, (k) as nat));
                lemma_bytes_of_word(mem0, (src + offset) as int, w, (k) as nat);
            }
        }
    }
}


impl CPlace {
    /// The place of field `field`: the same memory, narrowed to the
    /// field's offset and type. An unsized field keeps the parent's extra
    /// metadata; a place held in a virtual variable has no fields to
    /// project.
    pub fn place_field(self, fx: &FunctionCx, field: usize) -> (r: Result<CPlace, LowerError>)
        requires
            fx.wf(),
            self.wf(*fx),
            self.in_bounds(*fx),
        ensures
            match self {
                CPlace::Var(_, t) => r == Err::<CPlace, LowerError>(
                    LowerError::FieldOfVar { ty: t },
                ),
                CPlace::Addr(a, extra, t) => match fx.types@[t as int] {
                    TyDef::Struct(fs) => if field < fs@.len() {
                        r == Ok::<CPlace, LowerError>(
                            CPlace::Addr(
                                (a + fx.lay(t as int).field_offsets@[field as int]) as u64,
                                if fx.lay(fs@[field as int] as int).spec_is_unsized() {
                                    extra
                                } else {
                                    None
                                },
                                fs@[field as int],
                            ),
                        )
                    } else {
                        r == Err::<CPlace, LowerError>(LowerError::BadField { ty: t, field })
                    },
                    _ => r == Err::<CPlace, LowerError>(LowerError::BadField { ty: t, field }),
                },
            },
            r matches Ok(p) ==> {
                &&& p.wf(*fx)
                &&& p matches CPlace::Addr(_, _, _)
                &&& !fx.lay(p.spec_layout() as int).spec_is_unsized() ==> p.in_bounds(*fx)
            },
    {
        match self {
            CPlace::Var(_, t) => Err(LowerError::FieldOfVar { ty: t }),
            CPlace::Addr(base, extra, t) => {
                proof {
                    assert(layout_wf_at(fx.types@, fx.layouts@, t as int));
                }
                match &fx.types[t] {
                    TyDef::Struct(fs) => {
                        if field < fs.len() {
                            let fty: usize = fs[field];
                            let off: u64 = fx.layout_of(t).field_offsets[field];
                            proof {
                                assert(layout_wf_at(fx.types@, fx.layouts@, fty as int));
                                assert(crate::layout::spec_field_size(
                                    fx.layouts@,
                                    fx.types@[t as int]->Struct_0@,
                                    field as int,
                                ) == if fx.lay(fty as int).spec_is_unsized() {
                                    0
                                } else {
                                    fx.lay(fty as int).size as nat
                                });
                            }
                            let field_unsized: bool = fx.layout_of(fty).is_unsized();
                            let new_extra: Option<u64> = if field_unsized {
                                proof {
                                    // an unsized field is the last, so the parent is
                                    // unsized and carries its metadata
                                    assert(fx.lay(t as int).spec_is_unsized());
                                }
                                extra
                            } else {
                                None
                            };
                            Ok(CPlace::Addr(base + off, new_extra, fty))
                        } else {
                            Err(LowerError::BadField { ty: t, field })
                        }
                    },
                    _ => Err(LowerError::BadField { ty: t, field }),
                }
            },
        }
    }

    /// What indexing this place needs of the caller: an index inside a
    /// fixed-size array, or — for a slice, whose extent the type does not
    /// carry — an element that still lies inside memory.
    pub open spec fn index_pre(self, fx: FunctionCx, index: u64) -> bool {
        match fx.types@[self.spec_layout() as int] {
            TyDef::Array(_, n) => index < n,
            TyDef::Slice(e) => match self {
                CPlace::Addr(a, _, _) => a + (index + 1) * fx.sizeof(e as int) <= fx.mem@.len(),
                CPlace::Var(_, _) => true,
            },
            _ => true,
        }
    }

    /// The place of element `index` of an array or slice place: the base
    /// address plus the index scaled by the element size, computed at run
    /// time as indices are in general not known earlier.
    ///
    /// The caller keeps the element inside memory — inside the array, or
    /// inside the slice's extent: the scaled address is used as a real
    /// address here, where the generated code would only later be checked
    /// by the bounds tests the earlier passes emit separately.
    pub fn place_index(self, fx: &FunctionCx, index: u64) -> (r: Result<CPlace, LowerError>)
        requires
            fx.wf(),
            self.wf(*fx),
            self.in_bounds(*fx),
            self.index_pre(*fx, index),
        ensures
            match fx.types@[self.spec_layout() as int] {
                TyDef::Array(e, _) => match self {
                    CPlace::Addr(a, extra, t) => if extra is None {
                        r == Ok::<CPlace, LowerError>(
                            CPlace::Addr((a + index * fx.sizeof(e as int)) as u64, None, e),
                        )
                    } else {
                        r == Err::<CPlace, LowerError>(LowerError::UnsizedPlace { ty: t })
                    },
                    CPlace::Var(_, t) => r == Err::<CPlace, LowerError>(
                        LowerError::VarWhereAddr { ty: t },
                    ),
                },
                TyDef::Slice(e) => match self {
                    CPlace::Addr(a, _, _) => r == Ok::<CPlace, LowerError>(
                        CPlace::Addr((a + index * fx.sizeof(e as int)) as u64, None, e),
                    ),
                    CPlace::Var(_, t) => r == Err::<CPlace, LowerError>(
                        LowerError::VarWhereAddr { ty: t },
                    ),
                },
                _ => r == Err::<CPlace, LowerError>(
                    LowerError::IndexOfNonArray { ty: self.spec_layout() },
                ),
            },
            r matches Ok(p) ==> p.wf(*fx) && p.in_bounds(*fx) && (p matches CPlace::Addr(_, _, _)),
    {
        let t: usize = self.layout();
        proof {
            assert(layout_wf_at(fx.types@, fx.layouts@, t as int));
        }
        match &fx.types[t] {
            TyDef::Array(e, n) => {
                let elem: usize = *e;
                proof {
                    assert(layout_wf_at(fx.types@, fx.layouts@, elem as int));
                }
                let addr: u64 = match self.expect_addr() {
                    Ok(a) => a,
                    Err(err) => {
                        return Err(err);
                    },
                };
                let esz: u64 = fx.layout_of(elem).size;
                proof {
                    let cnt = fx.types@[t as int]->Array_1;
                    vstd::arithmetic::mul::lemma_mul_inequality(
                        (index + 1) as int,
                        cnt as int,
                        esz as int,
                    );
                    assert((index + 1) * esz == index * esz + esz) by (nonlinear_arith);
                    assert(fx.lay(t as int).size == cnt * esz);
                }
                let off: u64 = index * esz;
                Ok(CPlace::Addr(addr + off, None, elem))
            },
            TyDef::Slice(e) => {
                let elem: usize = *e;
                proof {
                    assert(layout_wf_at(fx.types@, fx.layouts@, elem as int));
                }
                match self {
                    CPlace::Addr(addr, _, _) => {
                        let esz: u64 = fx.layout_of(elem).size;
                        proof {
                            assert((index + 1) * esz == index * esz + esz) by (nonlinear_arith);
                        }
                        let off: u64 = index * esz;
                        Ok(CPlace::Addr(addr + off, None, elem))
                    },
                    CPlace::Var(_, vt) => Err(LowerError::VarWhereAddr { ty: vt }),
                }
            },
            _ => Err(LowerError::IndexOfNonArray { ty: t }),
        }
    }
}


impl CPlace {
    /// Dereference this pointer-typed place. A pointer to a sized type is
    /// loaded and becomes a plain addressed place; a fat pointer is split
    /// into its data pointer and its extra metadata by two loads, at
    /// offset zero and at the first scalar's width.
    pub fn place_deref(self, fx: &FunctionCx) -> (r: Result<CPlace, LowerError>)
        requires
            fx.wf(),
            self.wf(*fx),
            self.in_bounds(*fx),
        ensures
            match crate::ty::spec_pointee(fx.types@, self.spec_layout() as int) {
                None => r == Err::<CPlace, LowerError>(
                    LowerError::DerefOfNonPointer { ty: self.spec_layout() },
                ),
                Some(p) => if !fx.lay(p as int).spec_is_unsized() {
                    r == Ok::<CPlace, LowerError>(
                        CPlace::Addr(
                            match self {
                                CPlace::Var(local, _) => fx.vars@[local.0 as int].1,
                                CPlace::Addr(a, _, _) => word_at(fx.mem@, a as int, 8) as u64,
                            },
                            None,
                            p,
                        ),
                    )
                } else {
                    match self {
                        CPlace::Addr(a, _, _) => r == Ok::<CPlace, LowerError>(
                            CPlace::Addr(
                                word_at(fx.mem@, a as int, 8) as u64,
                                Some(word_at(fx.mem@, a + 8, 8) as u64),
                                p,
                            ),
                        ),
                        CPlace::Var(_, _) => true,
                    }
                },
            },
            r matches Ok(pl) ==> pl.wf(*fx) && (pl matches CPlace::Addr(_, _, _)),
    {
        let t: usize = self.layout();
        proof {
            assert(layout_wf_at(fx.types@, fx.layouts@, t as int));
        }
        let pointee: usize = match &fx.types[t] {
            TyDef::Ref(_, p) => *p,
            TyDef::RawPtr(_, p) => *p,
            TyDef::Boxed(p) => *p,
            _ => {
                return Err(LowerError::DerefOfNonPointer { ty: t });
            },
        };
        proof {
            assert(layout_wf_at(fx.types@, fx.layouts@, pointee as int));
        }
        if !fx.layout_of(pointee).is_unsized() {
            let ptr_val: u64 = match self {
                CPlace::Var(local, _) => {
                    proof {
                        crate::layout::lemma_clif_abi(fx.types@, fx.layouts@, t as int);
                    }
                    fx.use_var(mir_var(local))
                },
                CPlace::Addr(a, _, _) => fx.load(ClifType::I64, a, 0),
            };
            Ok(CPlace::Addr(ptr_val, None, pointee))
        } else {
            match self {
                CPlace::Addr(a, _, _) => {
                    let ptr_val: u64 = fx.load(ClifType::I64, a, 0);
                    let extra_val: u64 = fx.load(ClifType::I64, a, 8);
                    Ok(CPlace::Addr(ptr_val, Some(extra_val), pointee))
                },
                CPlace::Var(_, vt) => {
                    proof {
                        assert(false);
                    }
                    Err(LowerError::VarWhereAddr { ty: vt })
                },
            }
        }
    }

    /// Write a reference to this place into `dest`: one pointer scalar for
    /// a sized place, the pair of address and extra metadata for an
    /// unsized one, into a destination laid out as a register pair of
    /// pointers.
    pub fn write_place_ref(self, fx: &mut FunctionCx, dest: CPlace) -> (r: Result<
        (),
        LowerError,
    >)
        requires
            old(fx).wf(),
            self.wf(*old(fx)),
            dest.wf(*old(fx)),
            dest.in_bounds(*old(fx)),
        ensures
            final(fx).wf(),
            old(fx).same_meta(*final(fx)),
            final(fx).vtables == old(fx).vtables,
            final(fx).mem@.len() == old(fx).mem@.len(),
            if !old(fx).lay(self.spec_layout() as int).spec_is_unsized() {
                match self {
                    CPlace::Var(_, st) => r == Err::<(), LowerError>(
                        LowerError::VarWhereAddr { ty: st },
                    ) && *final(fx) == *old(fx),
                    CPlace::Addr(a, _, st) => if old(fx).lay(dest.spec_layout() as int).abi
                        == Abi::Scalar(ClifType::I64) {
                        match dest {
                            CPlace::Var(local, dt) => r is Ok && final(fx).mem == old(fx).mem
                                && final(fx).vars@ == old(fx).vars@.update(
                                local.0 as int,
                                (dt, a),
                            ),
                            CPlace::Addr(d, extra, dt) => if extra is None {
                                &&& r is Ok
                                &&& final(fx).vars == old(fx).vars
                                &&& stored(old(fx).mem@, final(fx).mem@, d as int, 8, a)
                            } else {
                                r == Err::<(), LowerError>(LowerError::WriteToUnsized { ty: dt })
                                    && *final(fx) == *old(fx)
                            },
                        }
                    } else {
                        r == Err::<(), LowerError>(
                            LowerError::RefIntoNonPointer { ty: dest.spec_layout() },
                        ) && *final(fx) == *old(fx)
                    },
                }
            } else {
                match self {
                    CPlace::Addr(a, extra, _) => if old(fx).lay(dest.spec_layout() as int).abi
                        == Abi::ScalarPair(ClifType::I64, ClifType::I64) {
                        match dest {
                            CPlace::Addr(d, dest_extra, _) => {
                                &&& r is Ok
                                &&& final(fx).vars == old(fx).vars
                                &&& unchanged_outside(old(fx).mem@, final(fx).mem@, d as int, 16)
                                &&& holds_le(final(fx).mem@, d as int, 8, a as nat)
                                &&& holds_le(final(fx).mem@, d + 8, 8, extra->Some_0 as nat)
                            },
                            CPlace::Var(_, dt) => r == Err::<(), LowerError>(
                                LowerError::VarWhereAddr { ty: dt },
                            ) && *final(fx) == *old(fx),
                        }
                    } else {
                        r == Err::<(), LowerError>(
                            LowerError::FatPointerNotPair { ty: dest.spec_layout() },
                        ) && *final(fx) == *old(fx)
                    },
                    CPlace::Var(_, _) => true,
                }
            },
    {
        let st: usize = self.layout();
        let dt: usize = dest.layout();
        proof {
            assert(layout_wf_at(fx.types@, fx.layouts@, st as int));
            assert(layout_wf_at(fx.types@, fx.layouts@, dt as int));
            crate::bytes::lemma_pow256_values();
        }
        if !fx.layout_of(st).is_unsized() {
            let a: u64 = match self.expect_addr() {
                Ok(a) => a,
                Err(e) => {
                    return Err(e);
                },
            };
            let scalar_ptr: bool = match fx.layout_of(dt).abi {
                Abi::Scalar(ClifType::I64) => true,
                _ => false,
            };
            if !scalar_ptr {
                return Err(LowerError::RefIntoNonPointer { ty: dt });
            }
            let ptr: CValue = CValue::ByVal(a, dt);
            dest.write_cvalue(fx, ptr)
        } else {
            match self {
                CPlace::Var(_, vt) => {
                    proof {
                        assert(false);
                    }
                    Err(LowerError::VarWhereAddr { ty: vt })
                },
                CPlace::Addr(a, extra, _) => {
                    let pair_of_ptrs: bool = match fx.layout_of(dt).abi {
                        Abi::ScalarPair(ClifType::I64, ClifType::I64) => true,
                        _ => false,
                    };
                    if !pair_of_ptrs {
                        return Err(LowerError::FatPointerNotPair { ty: dt });
                    }
                    let x: u64 = match extra {
                        Option::Some(x) => x,
                        Option::None => {
                            proof {
                                assert(false);
                            }
                            return Err(LowerError::MissingMetadata { ty: st });
                        },
                    };
                    let d: u64 = match dest.expect_addr() {
                        Ok(d) => d,
                        Err(e) => {
                            return Err(e);
                        },
                    };
                    fx.store(ClifType::I64, a, d, 0);
                    let ghost mem_mid = fx.mem@;
                    fx.store(ClifType::I64, x, d, 8);
                    proof {
                        assert forall|i: int| d <= i < d + 8 implies #[trigger] fx.mem@[i]
                            == crate::bytes::nth_byte(a as nat, (i - d) as nat) by {
                            assert(fx.mem@[i] == mem_mid[i]);
                        }
                    }
                    Ok(())
                },
            }
        }
    }

    /// A relabelling keeps the place in order: a virtual variable must
    /// already be declared at the new type, and an addressed place must be
    /// sized both before and after.
    pub open spec fn cast_ok(self, fx: FunctionCx, new_ty: usize) -> bool {
        match self {
            CPlace::Var(local, _) => fx.vars@[local.0 as int].0 == new_ty,
            CPlace::Addr(_, extra, _) => extra is None && !fx.lay(
                new_ty as int,
            ).spec_is_unsized(),
        }
    }

    /// The same location, relabelled with `new_ty`'s layout. The caller
    /// guarantees the two layouts describe compatible physical storage.
    pub fn unchecked_cast_to(self, fx: &FunctionCx, new_ty: usize) -> (r: CPlace)
        requires
            fx.wf(),
            self.wf(*fx),
            new_ty < fx.n_types(),
            self.cast_ok(*fx, new_ty),
        ensures
            match self {
                CPlace::Var(local, _) => r == CPlace::Var(local, new_ty),
                CPlace::Addr(a, extra, _) => r == CPlace::Addr(a, extra, new_ty),
            },
            r.wf(*fx),
            self.in_bounds(*fx) && fx.sizeof(new_ty as int) <= fx.sizeof(
                self.spec_layout() as int,
            ) ==> r.in_bounds(*fx),
    {
        match self {
            CPlace::Var(local, _) => CPlace::Var(local, new_ty),
            CPlace::Addr(a, extra, _) => CPlace::Addr(a, extra, new_ty),
        }
    }

    /// Narrow an enum place to the layout of one of its variants: a pure
    /// relabelling that issues no instructions.
    pub fn downcast_variant(self, fx: &FunctionCx, variant: usize) -> (r: Result<
        CPlace,
        LowerError,
    >)
        requires
            fx.wf(),
            self.wf(*fx),
        ensures
            match fx.types@[self.spec_layout() as int] {
                TyDef::Enum(vs) => if variant < vs@.len() {
                    r matches Ok(p) && p == match self {
                        CPlace::Var(local, _) => CPlace::Var(local, vs@[variant as int]),
                        CPlace::Addr(a, extra, _) => CPlace::Addr(a, extra, vs@[variant as int]),
                    }
                } else {
                    r == Err::<CPlace, LowerError>(
                        LowerError::BadVariant { ty: self.spec_layout(), variant },
                    )
                },
                _ => r == Err::<CPlace, LowerError>(
                    LowerError::BadVariant { ty: self.spec_layout(), variant },
                ),
            },
            r matches Ok(p) ==> p.wf(*fx) && (self.in_bounds(*fx) ==> p.in_bounds(*fx)),
    {
        let t: usize = self.layout();
        proof {
            assert(layout_wf_at(fx.types@, fx.layouts@, t as int));
        }
        match &fx.types[t] {
            TyDef::Enum(vs) => {
                if variant < vs.len() {
                    let vty: usize = vs[variant];
                    proof {
                        assert(layout_wf_at(fx.types@, fx.layouts@, vty as int));
                        if self matches CPlace::Var(local, _) {
                            crate::layout::lemma_clif_abi(fx.types@, fx.layouts@, t as int);
                            assert(false);
                        }
                    }
                    Ok(self.unchecked_cast_to(fx, vty))
                } else {
                    Err(LowerError::BadVariant { ty: t, variant })
                }
            },
            _ => Err(LowerError::BadVariant { ty: t, variant }),
        }
    }
}

} // verus!
