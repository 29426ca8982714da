//! The function-lowering context: the modelled instruction generator.
//!
//! [`FunctionCx`] owns everything one function's lowering works against:
//! the type table and its layouts, a byte-addressed linear memory in which
//! stack slots are carved out, the virtual variables of the instruction
//! generator, the vtable registry, and the maps from IR blocks and locals
//! to their lowered counterparts. Loads and stores move little-endian
//! words of one to eight bytes, exactly as the generated code would.

use crate::bytes::{
    fits, holds_le, lemma_pow256_increases, lemma_pow256_values, lemma_word_at_bound, nth_byte,
    pow256, stored, word_at,
};
use crate::error::LowerError;
use crate::layout::{
    compute_layouts, layout_wf_at, layouts_wf, spec_clif_type, ClifType, Layout, MAX_SIZE,
};
use crate::place::CPlace;
use crate::ty::TyDef;
use vstd::prelude::*;

verus! {

/// Largest memory the context will hand out, in bytes.
pub const MAX_MEM: u64 = 0x4000_0000;

/// Vtable addresses live in their own region, far above data memory.
pub const VTABLE_BASE: u64 = 0x1_0000_0000;

/// An IR-level local variable, by number.
#[derive(Clone, Copy, Debug, PartialEq, Eq, Structural)]
pub struct Local(pub u32);

/// A virtual variable of the instruction generator, by number.
#[derive(Clone, Copy, Debug, PartialEq, Eq, Structural)]
pub struct Variable(pub u32);

/// The virtual variable an IR local is held in: same number, other
/// namespace.
pub fn mir_var(loc: Local) -> (v: Variable)
    ensures
        v.0 == loc.0,
{
    Variable(loc.0)
}

/// The context one function is lowered in.
pub struct FunctionCx {
    /// The type table; never changes while lowering.
    pub types: Vec<TyDef>,
    /// The layout of each type table entry, computed up front.
    pub layouts: Vec<Layout>,
    /// Linear data memory; stack slots are carved from its top.
    pub mem: Vec<u8>,
    /// Virtual variables: the type and current value of each.
    pub vars: Vec<(usize, u64)>,
    /// Registered vtables: the concrete type and trait identity of each.
    pub vtables: Vec<(usize, u64)>,
    /// The block label of each IR basic block.
    pub ebbs: Vec<u64>,
    /// The place each IR local is lowered to.
    pub locals: Vec<CPlace>,
}

impl FunctionCx {
    /// How many types the table has.
    pub open spec fn n_types(self) -> nat {
        self.types@.len()
    }

    /// The layout of type `t`.
    pub open spec fn lay(self, t: int) -> Layout {
        self.layouts@[t]
    }

    /// The size of type `t`, in bytes.
    pub open spec fn sizeof(self, t: int) -> nat {
        self.layouts@[t].size as nat
    }

    /// The register class of type `t`, if it has one.
    pub open spec fn clif_of(self, t: int) -> Option<ClifType> {
        spec_clif_type(self.types@, self.layouts@, t)
    }

    /// The type tables are consistent.
    pub open spec fn types_wf(self) -> bool {
        layouts_wf(self.types@, self.layouts@)
    }

    /// Every virtual variable has a one-register type and holds a value
    /// that fits that register class.
    pub open spec fn vars_wf(self) -> bool {
        forall|i: int|
            0 <= i < self.vars@.len() ==> {
                &&& (#[trigger] self.vars@[i]).0 < self.n_types()
                &&& self.clif_of(self.vars@[i].0 as int) is Some
                &&& fits(self.vars@[i].1, self.clif_of(self.vars@[i].0 as int)->Some_0.spec_width())
            }
    }

    /// No concrete type and trait are registered twice, so every pair has
    /// exactly one vtable address.
    pub open spec fn vtables_wf(self) -> bool {
        &&& self.vtables@.len() <= 0x1000_0000
        &&& forall|i: int, j: int|
            0 <= i < j < self.vtables@.len() ==> #[trigger] self.vtables@[i]
                != #[trigger] self.vtables@[j]
    }

    /// The whole context is in order.
    pub open spec fn wf(self) -> bool {
        &&& self.types_wf()
        &&& self.vars_wf()
        &&& self.vtables_wf()
        &&& self.mem@.len() <= MAX_MEM
    }

    /// Everything a memory or variable operation never touches.
    pub open spec fn same_meta(self, new: FunctionCx) -> bool {
        &&& new.types == self.types
        &&& new.layouts == self.layouts
        &&& new.ebbs == self.ebbs
        &&& new.locals == self.locals
    }

    /// Set up a context for the given type table: layouts computed, all
    /// stores empty. `Err` hands through what [`compute_layouts`] found
    /// wrong with the table.
    pub fn new(types: Vec<TyDef>) -> (r: Result<FunctionCx, LowerError>)
        ensures
            r matches Ok(fx) ==> {
                &&& fx.wf()
                &&& fx.types == types
                &&& fx.mem@.len() == 0
                &&& fx.vars@.len() == 0
                &&& fx.vtables@.len() == 0
                &&& fx.ebbs@.len() == 0
                &&& fx.locals@.len() == 0
            },
    {
        match compute_layouts(&types) {
            Ok(layouts) => Ok(
                FunctionCx {
                    types,
                    layouts,
                    mem: Vec::new(),
                    vars: Vec::new(),
                    vtables: Vec::new(),
                    ebbs: Vec::new(),
                    locals: Vec::new(),
                },
            ),
            Err(e) => Err(e),
        }
    }

    /// The layout of type `t`, read from the table.
    pub fn layout_of(&self, t: usize) -> (l: &Layout)
        requires
            t < self.n_types(),
            self.types_wf(),
        ensures
            l == self.lay(t as int),
    {
        &self.layouts[t]
    }

    /// The register class of type `t`, if it has one.
    pub fn clif_type(&self, t: usize) -> (r: Option<ClifType>)
        requires
            t < self.n_types(),
            self.types_wf(),
        ensures
            r == self.clif_of(t as int),
    {
        crate::layout::clif_type_from_ty(&self.types, &self.layouts, t)
    }

    /// The block label of IR basic block `bb`.
    pub fn get_ebb(&self, bb: usize) -> (r: u64)
        requires
            bb < self.ebbs@.len(),
        ensures
            r == self.ebbs@[bb as int],
    {
        self.ebbs[bb]
    }

    /// The place IR local `local` is lowered to.
    pub fn get_local_place(&self, local: Local) -> (r: CPlace)
        requires
            local.0 < self.locals@.len(),
        ensures
            r == self.locals@[local.0 as int],
    {
        self.locals[local.0 as usize]
    }

    /// Carve a fresh stack slot of `size` bytes, aligned to `align`, out
    /// of the top of memory. The new slot is zeroed and everything below
    /// it is untouched.
    pub fn create_stack_slot(&mut self, size: u64, align: u64) -> (addr: u64)
        requires
            1 <= align <= 8,
            size <= MAX_SIZE,
            old(self).mem@.len() + align + size <= MAX_MEM,
        ensures
            old(self).same_meta(*final(self)),
            final(self).vars == old(self).vars,
            final(self).vtables == old(self).vtables,
            addr % align == 0,
            old(self).mem@.len() <= addr,
            addr + size == final(self).mem@.len(),
            final(self).mem@.len() <= MAX_MEM,
            forall|i: int|
                0 <= i < old(self).mem@.len()
                    ==> #[trigger] final(self).mem@[i] == old(self).mem@[i],
            forall|i: int|
                old(self).mem@.len() <= i < final(self).mem@.len()
                    ==> #[trigger] final(self).mem@[i] == 0,
            old(self).wf() ==> final(self).wf(),
    {
        let len: u64 = self.mem.len() as u64;
        let addr: u64 = crate::layout::round_up(len, align);
        let new_len: u64 = addr + size;
        let ghost old_mem = self.mem@;
        self.mem.resize(new_len as usize, 0u8);
        proof {
            if new_len as usize > old_mem.len() {
                assert(self.mem@.subrange(0, old_mem.len() as int) == old_mem);
                assert forall|i: int| 0 <= i < old_mem.len() implies #[trigger] self.mem@[i]
                    == old_mem[i] by {
                    assert(self.mem@.subrange(0, old_mem.len() as int)[i] == self.mem@[i]);
                }
            } else {
                assert(new_len == old_mem.len());
                assert(self.mem@ == old_mem.subrange(0, new_len as int));
                assert(old_mem.subrange(0, new_len as int) == old_mem);
            }
        }
        addr
    }

    /// Store `val` as a word of `ty`'s width at `addr + offset`.
    pub fn store(&mut self, ty: ClifType, val: u64, addr: u64, offset: u64)
        requires
            fits(val, ty.spec_width()),
            addr + offset + ty.spec_width() <= old(self).mem@.len(),
            old(self).mem@.len() <= MAX_MEM,
        ensures
            old(self).same_meta(*final(self)),
            final(self).vars == old(self).vars,
            final(self).vtables == old(self).vtables,
            stored(
                old(self).mem@,
                final(self).mem@,
                addr + offset,
                ty.spec_width(),
                val,
            ),
            old(self).wf() ==> final(self).wf(),
    {
        let w: u64 = ty.width();
        let base: u64 = addr + offset;
        let mut cur: u64 = val;
        let mut k: u64 = 0;
        proof {
            assert(pow256(0) == 1);
            assert((val as nat) / pow256(0) == val as nat);
        }
        while k < w
            invariant
                0 <= k <= w,
                w == ty.spec_width(),
                base + w <= self.mem@.len(),
                self.mem@.len() == old(self).mem@.len(),
                self.mem@.len() <= MAX_MEM,
                cur == (val as nat) / pow256(k as nat),
                forall|i: int|
                    0 <= i < old(self).mem@.len() && !(base <= i < base + k)
                        ==> #[trigger] self.mem@[i] == old(self).mem@[i],
                forall|i: int|
                    base <= i < base + k ==> #[trigger] self.mem@[i] == nth_byte(
                        val as nat,
                        (i - base) as nat,
                    ),
                old(self).same_meta(*self),
                self.vars == old(self).vars,
                self.vtables == old(self).vtables,
            decreases w - k,
        {
            let byte: u8 = (cur % 256) as u8;
            proof {
                assert(byte == nth_byte(val as nat, k as nat));
                crate::bytes::lemma_pow256_pos(k as nat);
                vstd::arithmetic::div_mod::lemma_div_denominator(
                    val as int,
                    pow256(k as nat) as int,
                    256,
                );
                assert(pow256((k + 1) as nat) == 256 * pow256(k as nat));
                assert(pow256(k as nat) * 256 == 256 * pow256(k as nat));
            }
            let idx: usize = (base + k) as usize;
            proof {
                assert(idx == base + k);
            }
            self.mem[idx] = byte;
            cur = cur / 256;
            k = k + 1;
        }
    }

    /// Load the word of `ty`'s width stored at `addr + offset`.
    pub fn load(&self, ty: ClifType, addr: u64, offset: u64) -> (r: u64)
        requires
            addr + offset + ty.spec_width() <= self.mem@.len(),
            self.mem@.len() <= MAX_MEM,
        ensures
            r == word_at(self.mem@, addr + offset, ty.spec_width()),
            fits(r, ty.spec_width()),
    {
        let w: u64 = ty.width();
        let base: u64 = addr + offset;
        let mut r: u64 = 0;
        let mut k: u64 = w;
        while k > 0
            invariant
                0 <= k <= w,
                w == ty.spec_width(),
                base + w <= self.mem@.len(),
                self.mem@.len() <= MAX_MEM,
                r == word_at(self.mem@, base + k, (w - k) as nat),
                r < pow256((w - k) as nat),
            decreases k,
        {
            k = k - 1;
            let idx: usize = (base + k) as usize;
            proof {
                assert(idx == base + k);
            }
            let b: u8 = self.mem[idx];
            proof {
                lemma_pow256_values();
                lemma_pow256_increases((w - k - 1) as nat, 7);
                assert(word_at(self.mem@, base + k, (w - k) as nat) == (self.mem@[base + k] + 256
                    * word_at(self.mem@, base + k + 1, (w - k - 1) as nat)) as nat);
            }
            r = (b as u64) + 256 * r;
        }
        proof {
            lemma_word_at_bound(self.mem@, base as int, w as nat);
        }
        r
    }

    /// Declare a fresh virtual variable of one-register type `ty`,
    /// holding zero.
    pub fn declare_var(&mut self, ty: usize) -> (v: Variable)
        requires
            ty < old(self).n_types(),
            old(self).clif_of(ty as int) is Some,
            old(self).vars@.len() < 0x1000_0000,
        ensures
            old(self).same_meta(*final(self)),
            final(self).mem == old(self).mem,
            final(self).vtables == old(self).vtables,
            v.0 == old(self).vars@.len(),
            final(self).vars@ == old(self).vars@.push((ty, 0u64)),
            old(self).wf() ==> final(self).wf(),
    {
        let v = Variable(self.vars.len() as u32);
        self.vars.push((ty, 0));
        proof {
            lemma_pow256_values();
        }
        v
    }

    /// Redefine virtual variable `var`, which must hold values of type
    /// `ty`, to `data`.
    pub fn def_var(&mut self, var: Variable, ty: usize, data: u64)
        requires
            var.0 < old(self).vars@.len(),
            old(self).vars@[var.0 as int].0 == ty,
            ty < old(self).n_types(),
            old(self).clif_of(ty as int) matches Some(c) && fits(data, c.spec_width()),
        ensures
            old(self).same_meta(*final(self)),
            final(self).mem == old(self).mem,
            final(self).vtables == old(self).vtables,
            final(self).vars@ == old(self).vars@.update(var.0 as int, (ty, data)),
            old(self).wf() ==> final(self).wf(),
    {
        self.vars[var.0 as usize] = (ty, data);
    }

    /// Read the current value of virtual variable `var`.
    pub fn use_var(&self, var: Variable) -> (r: u64)
        requires
            var.0 < self.vars@.len(),
        ensures
            r == self.vars@[var.0 as int].1,
    {
        self.vars[var.0 as usize].1
    }

    /// The vtable address for concrete type `concrete_ty` seen through the
    /// trait with identity `trait_id`: the registered address if the pair
    /// is known, a fresh one otherwise. Two distinct pairs never share an
    /// address, since an address encodes its registry index.
    pub fn get_vtable(&mut self, concrete_ty: usize, trait_id: u64) -> (r: u64)
        requires
            old(self).vtables_wf(),
            old(self).vtables@.len() < 0x1000_0000,
        ensures
            old(self).same_meta(*final(self)),
            final(self).mem == old(self).mem,
            final(self).vars == old(self).vars,
            final(self).vtables_wf(),
            old(self).wf() ==> final(self).wf(),
            // the registry only ever grows, by at most this one pair
            final(self).vtables@.len() >= old(self).vtables@.len(),
            final(self).vtables@.len() <= old(self).vtables@.len() + 1,
            forall|j: int|
                0 <= j < old(self).vtables@.len()
                    ==> #[trigger] final(self).vtables@[j] == old(self).vtables@[j],
            // the result encodes the registry index of this exact pair
            exists|i: int|
                {
                    &&& 0 <= i < final(self).vtables@.len()
                    &&& #[trigger] final(self).vtables@[i] == (concrete_ty, trait_id)
                    &&& r == VTABLE_BASE + 8 * i
                },
            // a pair already registered is found, not registered again
            (exists|i: int|
                0 <= i < old(self).vtables@.len() && #[trigger] old(self).vtables@[i] == (
                concrete_ty,
                trait_id,
                )) ==> final(self).vtables == old(self).vtables,
    {
        let n: usize = self.vtables.len();
        let mut i: usize = 0;
        while i < n
            invariant
                i <= n,
                n == self.vtables@.len(),
                n < 0x1000_0000,
                old(self).vtables_wf(),
                old(self).wf() ==> self.wf(),
                old(self).same_meta(*self),
                self.mem == old(self).mem,
                self.vars == old(self).vars,
                self.vtables == old(self).vtables,
                forall|j: int|
                    0 <= j < i ==> #[trigger] self.vtables@[j] != (concrete_ty, trait_id),
            decreases n - i,
        {
            let (t, tr) = self.vtables[i];
            if t == concrete_ty && tr == trait_id {
                return VTABLE_BASE + 8 * (i as u64);
            }
            i = i + 1;
        }
        let ghost before = self.vtables@;
        self.vtables.push((concrete_ty, trait_id));
        proof {
            assert(self.vtables@[n as int] == (concrete_ty, trait_id));
            assert forall|a: int, b: int|
                0 <= a < b < self.vtables@.len() implies #[trigger] self.vtables@[a]
                != #[trigger] self.vtables@[b] by {
                if b < n {
                    assert(self.vtables@[a] == before[a]);
                    assert(self.vtables@[b] == before[b]);
                } else {
                    assert(b == n);
                    assert(self.vtables@[a] == before[a]);
                }
            }
        }
        VTABLE_BASE + 8 * (n as u64)
    }
}

/// Pick `lhs` where `cond` is nonzero, `rhs` where it is zero: the select
/// instruction over values that share one register class.
pub fn codegen_select(c: ClifType, cond: u64, lhs: u64, rhs: u64) -> (r: u64)
    requires
        fits(lhs, c.spec_width()),
        fits(rhs, c.spec_width()),
    ensures
        r == if cond != 0 {
            lhs
        } else {
            rhs
        },
        fits(r, c.spec_width()),
{
    if cond != 0 {
        lhs
    } else {
        rhs
    }
}


/// The largest value of register class `c`: one less than 256 to its
/// width.
fn clif_max(c: ClifType) -> (m: u64)
    ensures
        m as nat == pow256(c.spec_width()) - 1,
{
    proof {
        lemma_pow256_values();
    }
    match c {
        ClifType::I8 => 0xFF,
        ClifType::I16 => 0xFFFF,
        ClifType::I32 => 0xFFFF_FFFF,
        ClifType::F32 => 0xFFFF_FFFF,
        ClifType::I64 => 0xFFFF_FFFF_FFFF_FFFF,
        ClifType::F64 => 0xFFFF_FFFF_FFFF_FFFF,
    }
}

/// Half the range of register class `c`: where its sign bit begins.
fn clif_half(c: ClifType) -> (m: u64)
    ensures
        m as nat == pow256(c.spec_width()) / 2,
{
    proof {
        lemma_pow256_values();
    }
    match c {
        ClifType::I8 => 0x80,
        ClifType::I16 => 0x8000,
        ClifType::I32 => 0x8000_0000,
        ClifType::F32 => 0x8000_0000,
        ClifType::I64 => 0x8000_0000_0000_0000,
        ClifType::F64 => 0x8000_0000_0000_0000,
    }
}

/// Sign extension from `wf` bytes to `wt` bytes, on the bit patterns:
/// values in the lower half pass through, values in the upper half keep
/// their distance from the top of the range.
pub open spec fn spec_sext(v: u64, wf: nat, wt: nat) -> u64 {
    if (v as nat) < pow256(wf) / 2 {
        v
    } else {
        ((v as nat) + pow256(wt) - pow256(wf)) as u64
    }
}

/// What an integer cast from class `from` to class `to` yields: the value
/// itself when widening unsigned, its sign extension when widening
/// signed, and its low bytes when narrowing.
pub open spec fn spec_intcast(v: u64, from: ClifType, to: ClifType, signed: bool) -> u64 {
    let wf = from.spec_width();
    let wt = to.spec_width();
    if wt >= wf {
        if signed {
            spec_sext(v, wf, wt)
        } else {
            v
        }
    } else {
        ((v as nat) % pow256(wt)) as u64
    }
}

/// Cast a value of register class `from` to register class `to`: a no-op
/// between equal widths, an extension — by zero or by sign — when
/// widening, a truncation when narrowing.
pub fn clif_intcast(val: u64, from: ClifType, to: ClifType, signed: bool) -> (r: u64)
    requires
        fits(val, from.spec_width()),
    ensures
        r == spec_intcast(val, from, to, signed),
        fits(r, to.spec_width()),
{
    let wf: u64 = from.width();
    let wt: u64 = to.width();
    proof {
        lemma_pow256_values();
    }
    if wf == wt {
        val
    } else if wt > wf {
        if signed {
            let half: u64 = clif_half(from);
            if val >= half {
                let addend: u64 = clif_max(to) - clif_max(from);
                proof {
                    crate::bytes::lemma_pow256_increases(from.spec_width(), to.spec_width());
                }
                val + addend
            } else {
                val
            }
        } else {
            proof {
                crate::bytes::lemma_pow256_increases(from.spec_width(), to.spec_width());
            }
            val
        }
    } else {
        crate::value::mask_to(to, val)
    }
}

} // verus!
