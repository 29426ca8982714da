//! Read-only values.
//!
//! A [`CValue`] is an already-computed value of one type, in the physical
//! form the type's layout calls for: behind an address in memory, in one
//! scalar register, or in a register pair. The form is part of the
//! invariant [`CValue::wf`]: a scalar value must belong to a type the
//! layout classifies as one scalar, a pair to a register-pair type, and
//! register contents always fit their register class.

use crate::bytes::{fits, holds_le, lemma_pow256_values, pow256, word_at};
use crate::context::FunctionCx;
use crate::error::LowerError;
use crate::layout::{layout_wf_at, Abi, ClifType};
use crate::ty::TyDef;
use vstd::prelude::*;

verus! {

/// The register class a scalar load of type `t` uses: the type's own
/// class, or a plain pointer for a box of a sized type, which has no
/// class of its own but is loaded as the pointer it is.
pub open spec fn spec_load_type(fx: FunctionCx, t: int) -> Option<ClifType> {
    match fx.clif_of(t) {
        Some(c) => Some(c),
        None => match fx.types@[t] {
            TyDef::Boxed(p) => if !fx.lay(p as int).spec_is_unsized() {
                Some(ClifType::I64)
            } else {
                None
            },
            _ => None,
        },
    }
}

/// `v` reduced to the width of register class `c`.
pub open spec fn spec_mask(c: ClifType, v: u64) -> u64 {
    ((v as nat) % pow256(c.spec_width())) as u64
}

/// Executable form of [`spec_mask`].
pub fn mask_to(c: ClifType, v: u64) -> (r: u64)
    ensures
        r == spec_mask(c, v),
        fits(r, c.spec_width()),
{
    proof {
        lemma_pow256_values();
    }
    match c {
        ClifType::I8 => v % 0x100,
        ClifType::I16 => v % 0x1_0000,
        ClifType::I32 => v % 0x1_0000_0000,
        ClifType::F32 => v % 0x1_0000_0000,
        ClifType::I64 => {
            proof {
                vstd::arithmetic::div_mod::lemma_small_mod(v as nat, pow256(8));
            }
            v
        },
        ClifType::F64 => {
            proof {
                vstd::arithmetic::div_mod::lemma_small_mod(v as nat, pow256(8));
            }
            v
        },
    }
}

/// A read-only value: an address of its bytes, one register datum, or two.
/// The second component of the tagged forms is the value's type, an index
/// into the type table of the [`FunctionCx`] it lives in.
#[derive(Clone, Copy, Debug, PartialEq, Eq)]
pub enum CValue {
    ByRef(u64, usize),
    ByVal(u64, usize),
    ByValPair(u64, u64, usize),
}

impl CValue {
    /// The value's type: the layout handle everything else is asked of.
    pub open spec fn spec_layout(self) -> usize {
        match self {
            CValue::ByRef(_, t) => t,
            CValue::ByVal(_, t) => t,
            CValue::ByValPair(_, _, t) => t,
        }
    }

    /// Executable form of [`Self::spec_layout`].
    pub fn layout(&self) -> (t: usize)
        ensures
            t == self.spec_layout(),
    {
        match self {
            CValue::ByRef(_, t) => *t,
            CValue::ByVal(_, t) => *t,
            CValue::ByValPair(_, _, t) => *t,
        }
    }

    /// The value is in order for its type: the type exists, a one-register
    /// value belongs to a one-register type and fits its register class,
    /// and a register pair belongs to a register-pair type likewise.
    pub open spec fn wf(self, fx: FunctionCx) -> bool {
        &&& self.spec_layout() < fx.n_types()
        &&& match self {
            CValue::ByRef(_, _) => true,
            CValue::ByVal(v, t) => match fx.lay(t as int).abi {
                Abi::Scalar(c) => fits(v, c.spec_width()),
                _ => false,
            },
            CValue::ByValPair(a, b, t) => match fx.lay(t as int).abi {
                Abi::ScalarPair(c1, c2) => fits(a, c1.spec_width()) && fits(b, c2.spec_width()),
                _ => false,
            },
        }
    }

    /// A by-reference value's bytes lie inside the context's memory.
    pub open spec fn in_bounds(self, fx: FunctionCx) -> bool {
        match self {
            CValue::ByRef(a, t) => a + fx.sizeof(t as int) <= fx.mem@.len(),
            _ => true,
        }
    }

    /// The address of a memory location holding this value's bytes. A
    /// value already in memory is returned where it is; register contents
    /// are spilled to a fresh stack slot, scalars at offset zero, pairs at
    /// their layout's two field offsets.
    pub fn force_stack(self, fx: &mut FunctionCx) -> (addr: u64)
        requires
            old(fx).wf(),
            self.wf(*old(fx)),
            self.in_bounds(*old(fx)),
            old(fx).mem@.len() + 8 + old(fx).sizeof(self.spec_layout() as int) <= crate::context::MAX_MEM,
        ensures
            final(fx).wf(),
            old(fx).same_meta(*final(fx)),
            final(fx).vars == old(fx).vars,
            final(fx).vtables == old(fx).vtables,
            final(fx).mem@.len() >= old(fx).mem@.len(),
            forall|i: int|
                0 <= i < old(fx).mem@.len() ==> #[trigger] final(fx).mem@[i] == old(fx).mem@[i],
            addr + old(fx).sizeof(self.spec_layout() as int) <= final(fx).mem@.len(),
            match self {
                CValue::ByRef(a, _) => addr == a && final(fx).mem == old(fx).mem,
                CValue::ByVal(v, t) => {
                    &&& addr >= old(fx).mem@.len()
                    &&& holds_le(final(fx).mem@, addr as int, old(fx).sizeof(t as int), v as nat)
                },
                CValue::ByValPair(a, b, t) => {
                    &&& addr >= old(fx).mem@.len()
                    &&& match old(fx).lay(t as int).abi {
                        Abi::ScalarPair(c1, c2) => {
                            &&& holds_le(
                                final(fx).mem@,
                                addr + old(fx).lay(t as int).field_offsets@[0],
                                c1.spec_width(),
                                a as nat,
                            )
                            &&& holds_le(
                                final(fx).mem@,
                                addr + old(fx).lay(t as int).field_offsets@[1],
                                c2.spec_width(),
                                b as nat,
                            )
                        },
                        _ => false,
                    }
                },
            },
    {
        match self {
            CValue::ByRef(addr, _) => addr,
            CValue::ByVal(v, t) => {
                proof {
                    assert(layout_wf_at(fx.types@, fx.layouts@, t as int));
                }
                let size: u64 = fx.layout_of(t).size;
                let align: u64 = fx.layout_of(t).align;
                let c: ClifType = match fx.layout_of(t).abi {
                    Abi::Scalar(c) => c,
                    _ => {
                        proof {
                            assert(false);
                        }
                        ClifType::I64
                    },
                };
                let slot: u64 = fx.create_stack_slot(size, align);
                fx.store(c, v, slot, 0);
                slot
            },
            CValue::ByValPair(a, b, t) => {
                proof {
                    assert(layout_wf_at(fx.types@, fx.layouts@, t as int));
                }
                let size: u64 = fx.layout_of(t).size;
                let align: u64 = fx.layout_of(t).align;
                let (c1, c2): (ClifType, ClifType) = match fx.layout_of(t).abi {
                    Abi::ScalarPair(c1, c2) => (c1, c2),
                    _ => {
                        proof {
                            assert(false);
                        }
                        (ClifType::I64, ClifType::I64)
                    },
                };
                let off0: u64 = fx.layout_of(t).field_offsets[0];
                let off1: u64 = fx.layout_of(t).field_offsets[1];
                let slot: u64 = fx.create_stack_slot(size, align);
                fx.store(c1, a, slot, off0);
                let ghost mem_mid = fx.mem@;
                fx.store(c2, b, slot, off1);
                proof {
                    assert forall|i: int|
                        slot + off0 <= i < slot + off0 + c1.spec_width() implies #[trigger] fx.mem@[i]
                        == crate::bytes::nth_byte(a as nat, (i - (slot + off0)) as nat) by {
                        assert(fx.mem@[i] == mem_mid[i]);
                    }
                }
                slot
            },
        }
    }

    /// This value as one register datum. A value already in a register is
    /// handed back; a by-reference value is loaded at its type's register
    /// class — a box of a sized type counts as a plain pointer. A register
    /// pair is refused, as is a memory value of a type with no register
    /// class.
    pub fn load_value(self, fx: &FunctionCx) -> (r: Result<u64, LowerError>)
        requires
            fx.wf(),
            self.wf(*fx),
            self.in_bounds(*fx),
        ensures
            match self {
                CValue::ByVal(v, _) => r == Ok::<u64, LowerError>(v),
                CValue::ByRef(a, t) => match spec_load_type(*fx, t as int) {
                    Some(c) => r == Ok::<u64, LowerError>(
                        word_at(fx.mem@, a as int, c.spec_width()) as u64,
                    ) && fits(r->Ok_0, c.spec_width()),
                    None => r == Err::<u64, LowerError>(LowerError::NoRegisterClass { ty: t }),
                },
                CValue::ByValPair(_, _, t) => r == Err::<u64, LowerError>(
                    LowerError::ScalarOfPair { ty: t },
                ),
            },
    {
        match self {
            CValue::ByVal(v, _) => Ok(v),
            CValue::ByRef(a, t) => {
                proof {
                    assert(layout_wf_at(fx.types@, fx.layouts@, t as int));
                }
                let c: ClifType = match fx.clif_type(t) {
                    Some(c) => c,
                    None => {
                        match &fx.types[t] {
                            TyDef::Boxed(p) => {
                                proof {
                                    assert(layout_wf_at(fx.types@, fx.layouts@, t as int));
                                }
                                if fx.layout_of(*p).is_unsized() {
                                    return Err(LowerError::NoRegisterClass { ty: t });
                                }
                                ClifType::I64
                            },
                            _ => {
                                return Err(LowerError::NoRegisterClass { ty: t });
                            },
                        }
                    },
                };
                proof {
                    assert(fx.lay(t as int).size == c.spec_width());
                }
                Ok(fx.load(c, a, 0))
            },
            CValue::ByValPair(_, _, t) => Err(LowerError::ScalarOfPair { ty: t }),
        }
    }

    /// A by-reference value's layout lets it be read as two pointer-width
    /// words: its size is exactly two pointer widths, it has two field
    /// offsets, and a pointer-width load at each offset stays inside the
    /// value. The last condition is what keeps the loads inside the
    /// modelled memory; a layout of the right size whose field offsets sit
    /// in its last seven bytes has no two words to give.
    pub open spec fn pair_loadable(fx: FunctionCx, t: int) -> bool {
        &&& fx.sizeof(t) == 2 * crate::layout::POINTER_SIZE
        &&& fx.lay(t).field_offsets@.len() == 2
        &&& fx.lay(t).field_offsets@[0] + 8 <= fx.sizeof(t)
        &&& fx.lay(t).field_offsets@[1] + 8 <= fx.sizeof(t)
    }

    /// This value as two register data. A pair already in registers is
    /// handed back; a by-reference value must be exactly two pointers wide
    /// and is loaded as two pointer-width words at its layout's two field
    /// offsets. A plain one-register value is refused.
    pub fn load_value_pair(self, fx: &FunctionCx) -> (r: Result<(u64, u64), LowerError>)
        requires
            fx.wf(),
            self.wf(*fx),
            self.in_bounds(*fx),
        ensures
            match self {
                CValue::ByValPair(a, b, _) => r == Ok::<(u64, u64), LowerError>((a, b)),
                CValue::ByVal(_, t) => r == Err::<(u64, u64), LowerError>(
                    LowerError::PairOfScalar { ty: t },
                ),
                CValue::ByRef(a, t) => if Self::pair_loadable(*fx, t as int) {
                    r == Ok::<(u64, u64), LowerError>(
                        (
                            word_at(
                                fx.mem@,
                                a + fx.lay(t as int).field_offsets@[0],
                                8,
                            ) as u64,
                            word_at(
                                fx.mem@,
                                a + fx.lay(t as int).field_offsets@[1],
                                8,
                            ) as u64,
                        ),
                    )
                } else {
                    r == Err::<(u64, u64), LowerError>(LowerError::NotAPairInMemory { ty: t })
                },
            },
    {
        match self {
            CValue::ByValPair(a, b, _) => Ok((a, b)),
            CValue::ByVal(_, t) => Err(LowerError::PairOfScalar { ty: t }),
            CValue::ByRef(a, t) => {
                proof {
                    assert(layout_wf_at(fx.types@, fx.layouts@, t as int));
                }
                let size: u64 = fx.layout_of(t).size;
                if size != 2 * crate::layout::POINTER_SIZE || fx.layout_of(
                    t,
                ).field_offsets.len() != 2 {
                    return Err(LowerError::NotAPairInMemory { ty: t });
                }
                let off0: u64 = fx.layout_of(t).field_offsets[0];
                let off1: u64 = fx.layout_of(t).field_offsets[1];
                if off0 > size - 8 || off1 > size - 8 {
                    return Err(LowerError::NotAPairInMemory { ty: t });
                }
                let v1: u64 = fx.load(ClifType::I64, a, off0);
                let v2: u64 = fx.load(ClifType::I64, a, off1);
                Ok((v1, v2))
            },
        }
    }

    /// The value of field `field`: the same memory, narrowed to the
    /// field's offset and type. Only a value held in memory, of a record
    /// type that has such a field, can be projected.
    pub fn value_field(self, fx: &FunctionCx, field: usize) -> (r: Result<CValue, LowerError>)
        requires
            fx.wf(),
            self.wf(*fx),
            self.in_bounds(*fx),
        ensures
            match self {
                CValue::ByRef(a, t) => match fx.types@[t as int] {
                    TyDef::Struct(fs) => if field < fs@.len() {
                        r == Ok::<CValue, LowerError>(
                            CValue::ByRef(
                                (a + fx.lay(t as int).field_offsets@[field as int]) as u64,
                                fs@[field as int],
                            ),
                        )
                    } else {
                        r == Err::<CValue, LowerError>(LowerError::BadField { ty: t, field })
                    },
                    _ => r == Err::<CValue, LowerError>(LowerError::BadField { ty: t, field }),
                },
                _ => r == Err::<CValue, LowerError>(
                    LowerError::FieldOfNonMemory { ty: self.spec_layout() },
                ),
            },
            r matches Ok(v) ==> {
                &&& v.wf(*fx)
                &&& v matches CValue::ByRef(_, _)
                &&& !fx.lay(v.spec_layout() as int).spec_is_unsized() ==> v.in_bounds(*fx)
            },
    {
        match self {
            CValue::ByRef(a, t) => {
                proof {
                    assert(layout_wf_at(fx.types@, fx.layouts@, t as int));
                }
                match &fx.types[t] {
                    TyDef::Struct(fs) => {
                        if field < fs.len() {
                            let fty: usize = fs[field];
                            let off: u64 = fx.layout_of(t).field_offsets[field];
                            proof {
                                assert(layout_wf_at(fx.types@, fx.layouts@, fty as int));
                                assert(crate::layout::spec_field_size(
                                    fx.layouts@,
                                    fx.types@[t as int]->Struct_0@,
                                    field as int,
                                ) == if fx.lay(fty as int).spec_is_unsized() {
                                    0
                                } else {
                                    fx.lay(fty as int).size as nat
                                });
                            }
                            Ok(CValue::ByRef(a + off, fty))
                        } else {
                            Err(LowerError::BadField { ty: t, field })
                        }
                    },
                    _ => Err(LowerError::BadField { ty: t, field }),
                }
            },
            CValue::ByVal(_, t) => Err(LowerError::FieldOfNonMemory { ty: t }),
            CValue::ByValPair(_, _, t) => Err(LowerError::FieldOfNonMemory { ty: t }),
        }
    }

    /// A constant of one-register type `ty`, reduced to the width of the
    /// type's register class, as the instruction generator's constant
    /// instruction would.
    pub fn const_val(fx: &FunctionCx, ty: usize, v: i64) -> (r: CValue)
        requires
            fx.wf(),
            ty < fx.n_types(),
            fx.clif_of(ty as int) is Some,
        ensures
            r == CValue::ByVal(spec_mask(fx.clif_of(ty as int)->Some_0, v as u64), ty),
            r.wf(*fx),
    {
        proof {
            assert(layout_wf_at(fx.types@, fx.layouts@, ty as int));
        }
        let c: ClifType = match fx.clif_type(ty) {
            Some(c) => c,
            None => {
                proof {
                    assert(false);
                }
                ClifType::I64
            },
        };
        CValue::ByVal(mask_to(c, v as u64), ty)
    }

    /// The same underlying storage, relabelled with `new_ty`'s layout. The
    /// caller guarantees the two layouts describe compatible physical
    /// storage; the register classifications must agree for register-held
    /// values.
    pub fn unchecked_cast_to(self, fx: &FunctionCx, new_ty: usize) -> (r: CValue)
        requires
            fx.wf(),
            self.wf(*fx),
            new_ty < fx.n_types(),
            self.cast_ok(*fx, new_ty),
        ensures
            r.spec_layout() == new_ty,
            r.wf(*fx),
            match self {
                CValue::ByRef(a, _) => r == CValue::ByRef(a, new_ty),
                CValue::ByVal(v, _) => r == CValue::ByVal(v, new_ty),
                CValue::ByValPair(a, b, _) => r == CValue::ByValPair(a, b, new_ty),
            },
    {
        match self {
            CValue::ByRef(a, _) => CValue::ByRef(a, new_ty),
            CValue::ByVal(v, _) => CValue::ByVal(v, new_ty),
            CValue::ByValPair(a, b, _) => CValue::ByValPair(a, b, new_ty),
        }
    }

    /// A relabelling to `new_ty` keeps the value in order: register-held
    /// values need the new layout to classify them the same way.
    pub open spec fn cast_ok(self, fx: FunctionCx, new_ty: usize) -> bool {
        match self {
            CValue::ByRef(_, _) => true,
            CValue::ByVal(v, _) => match fx.lay(new_ty as int).abi {
                Abi::Scalar(c) => fits(v, c.spec_width()),
                _ => false,
            },
            CValue::ByValPair(a, b, _) => match fx.lay(new_ty as int).abi {
                Abi::ScalarPair(c1, c2) => fits(a, c1.spec_width()) && fits(b, c2.spec_width()),
                _ => false,
            },
        }
    }
}

} // verus!
