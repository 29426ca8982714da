//! The unsizing coercion.
//!
//! [`CValue::unsize_value`] converts a value of a statically sized type
//! into a destination place whose type carries dynamically sized
//! information. A pointer source gets its metadata synthesized: the
//! compile-time length for an array becoming a slice, a vtable for a
//! concrete type becoming a dynamic interface reference, or its existing
//! pair reloaded when both sides are already dynamic. A record source has
//! exactly one field that differs between source and destination; that
//! field is unsized recursively, every other field is copied as it is, and
//! zero-size marker fields are skipped altogether.

use crate::bytes::{bytes_match, holds_le, unchanged_outside, word_at};
use crate::context::{FunctionCx, VTABLE_BASE};
use crate::error::LowerError;
use crate::layout::layout_wf_at;
use crate::place::{spec_write_err, spec_write_post, CPlace};
use crate::ty::TyDef;
use crate::value::CValue;
use vstd::prelude::*;

verus! {

/// The scalar a pointer-typed source reduces to: its register datum, or
/// the word its memory holds.
pub open spec fn spec_ptr_of(fx: FunctionCx, v: CValue) -> u64 {
    match v {
        CValue::ByVal(x, _) => x,
        CValue::ByRef(a, _) => word_at(fx.mem@, a as int, 8) as u64,
        CValue::ByValPair(x, _, _) => x,
    }
}

/// Field `i` differs between the source record (fields `fs`) and the
/// destination record (fields `fd`): the types are not the same type, and
/// the source field is not the zero-size marker — marker fields are
/// skipped whatever their nominal identity.
pub open spec fn spec_differing(types: Seq<TyDef>, fs: Seq<usize>, fd: Seq<usize>, i: int) -> bool {
    &&& !(types[fs[i] as int] matches TyDef::Phantom)
    &&& fs[i] != fd[i]
}

/// What coercing a record held at `s` into a record destination at `d`
/// settles, beyond the frame. On success the source has no more fields
/// than the destination and at most one differing field, and every field
/// of equal type — markers aside — was copied byte for byte from its
/// source offset to its destination offset. The second-differing-field
/// rejection names records where two fields really differ.
pub open spec fn spec_fields_post(
    o: FunctionCx,
    f: FunctionCx,
    s: u64,
    st: usize,
    d: u64,
    dt: usize,
    r: Result<(), LowerError>,
) -> bool {
    match (o.types@[st as int], o.types@[dt as int]) {
        (TyDef::Struct(fs), TyDef::Struct(fd)) => {
            &&& (r is Ok ==> fs@.len() <= fd@.len())
            &&& (r is Ok ==> forall|i: int, j: int|
                0 <= i < j < fs@.len() ==> !(#[trigger] spec_differing(o.types@, fs@, fd@, i)
                    && #[trigger] spec_differing(o.types@, fs@, fd@, j)))
            &&& (r == Err::<(), LowerError>(LowerError::SecondDifferingField { from: st, to: dt })
                ==> exists|i: int, j: int|
                    0 <= i < j < fs@.len() && #[trigger] spec_differing(o.types@, fs@, fd@, i)
                        && #[trigger] spec_differing(o.types@, fs@, fd@, j))
            &&& (r is Ok ==> forall|i: int|
                0 <= i < fs@.len() && i < fd@.len() && (#[trigger] fs@[i]) == fd@[i] && !(
                o.types@[fs@[i] as int] matches TyDef::Phantom) ==> bytes_match(
                    o.mem@,
                    f.mem@,
                    s + o.lay(st as int).field_offsets@[i],
                    d + o.lay(dt as int).field_offsets@[i],
                    o.sizeof(fs@[i] as int),
                ))
        },
        _ => true,
    }
}

impl CValue {
    /// Coerce this value into `dest`, whose type carries dynamically sized
    /// information.
    ///
    /// Identical source and destination types reduce to a plain write — a
    /// redundant coercion the earlier passes sometimes emit. A reference
    /// or raw pointer source is turned into the pair the destination
    /// expects: an array pointee pairs the data pointer with the array's
    /// compile-time length, a concrete pointee pairs it with the vtable
    /// for the destination's trait, an already-dynamic pointee reloads its
    /// existing pair. A record source must not be an enum; its one
    /// differing field is coerced recursively and every other field is
    /// copied unchanged. Whatever happens, memory outside the destination
    /// is untouched, and already-registered vtables keep their addresses.
    pub fn unsize_value(self, fx: &mut FunctionCx, dest: CPlace) -> (r: Result<(), LowerError>)
        requires
            old(fx).wf(),
            self.wf(*old(fx)),
            dest.wf(*old(fx)),
            self.in_bounds(*old(fx)),
            dest.in_bounds(*old(fx)),
            old(fx).vtables@.len() + self.spec_layout() < 0x1000_0000,
            match (dest, self) {
                (CPlace::Addr(d, _, dt), CValue::ByRef(s, st)) => d + old(fx).sizeof(dt as int)
                    <= s || s + old(fx).sizeof(st as int) <= d,
                _ => true,
            },
        ensures
            final(fx).wf(),
            old(fx).same_meta(*final(fx)),
            final(fx).mem@.len() == old(fx).mem@.len(),
            final(fx).vtables@.len() >= old(fx).vtables@.len(),
            final(fx).vtables@.len() <= old(fx).vtables@.len() + self.spec_layout(),
            forall|j: int|
                0 <= j < old(fx).vtables@.len()
                    ==> #[trigger] final(fx).vtables@[j] == old(fx).vtables@[j],
            match dest {
                CPlace::Addr(d, _, dt) => final(fx).vars == old(fx).vars && unchanged_outside(
                    old(fx).mem@,
                    final(fx).mem@,
                    d as int,
                    old(fx).sizeof(dt as int),
                ),
                CPlace::Var(local, _) => final(fx).mem == old(fx).mem && final(fx).vars@.len()
                    == old(fx).vars@.len() && (forall|j: int|
                    0 <= j < old(fx).vars@.len() && j != local.0
                        ==> #[trigger] final(fx).vars@[j] == old(fx).vars@[j]),
            },
            self.spec_layout() == dest.spec_layout() ==> {
                &&& (r is Err <==> spec_write_err(dest, self, *old(fx)) is Some)
                &&& (r is Err ==> r->Err_0 == spec_write_err(dest, self, *old(fx))->Some_0
                    && *final(fx) == *old(fx))
                &&& (r is Ok ==> spec_write_post(dest, self, *old(fx), *final(fx)))
            },
            match crate::ty::spec_pointee(old(fx).types@, self.spec_layout() as int) {
                None => true,
                Some(sp) => (self.spec_layout() != dest.spec_layout() && !(old(
                    fx,
                ).types@[self.spec_layout() as int] matches TyDef::Boxed(_))) ==> {
                    let st = self.spec_layout();
                    let dt = dest.spec_layout();
                    match crate::ty::spec_pointee(old(fx).types@, dt as int) {
                    None => r == Err::<(), LowerError>(LowerError::DerefOfNonPointer { ty: dt })
                        && *final(fx) == *old(fx),
                    Some(dp) => match old(fx).types@[dp as int] {
                        TyDef::Slice(se) => match old(fx).types@[sp as int] {
                            TyDef::Array(ae, n) => if ae == se {
                                match dest {
                                    CPlace::Addr(d, _, _) => {
                                        &&& r is Ok
                                        &&& holds_le(
                                            final(fx).mem@,
                                            d as int,
                                            8,
                                            spec_ptr_of(*old(fx), self) as nat,
                                        )
                                        &&& holds_le(final(fx).mem@, d + 8, 8, n as nat)
                                    },
                                    CPlace::Var(_, _) => true,
                                }
                            } else {
                                r == Err::<(), LowerError>(LowerError::BadUnsize { from: st, to: dt })
                                    && *final(fx) == *old(fx)
                            },
                            _ => r == Err::<(), LowerError>(
                                LowerError::BadUnsize { from: st, to: dt },
                            ) && *final(fx) == *old(fx),
                        },
                        TyDef::Dynamic(tr) => match old(fx).types@[sp as int] {
                            TyDef::Dynamic(_) => match dest {
                                CPlace::Addr(d, _, _) => {
                                    &&& r is Ok
                                    &&& holds_le(
                                        final(fx).mem@,
                                        d as int,
                                        8,
                                        spec_ptr_of(*old(fx), self) as nat,
                                    )
                                    &&& match self {
                                        CValue::ByValPair(_, x, _) => holds_le(
                                            final(fx).mem@,
                                            d + 8,
                                            8,
                                            x as nat,
                                        ),
                                        CValue::ByRef(a, _) => holds_le(
                                            final(fx).mem@,
                                            d + 8,
                                            8,
                                            word_at(old(fx).mem@, a + 8, 8),
                                        ),
                                        CValue::ByVal(_, _) => true,
                                    }
                                },
                                CPlace::Var(_, _) => true,
                            },
                            _ => if old(fx).lay(sp as int).spec_is_unsized() {
                                r == Err::<(), LowerError>(
                                    if self matches CValue::ByValPair(_, _, _) {
                                        LowerError::ScalarOfPair { ty: st }
                                    } else {
                                        LowerError::NoRegisterClass { ty: st }
                                    },
                                ) && *final(fx) == *old(fx)
                            } else {
                                match dest {
                                    CPlace::Addr(d, _, _) => {
                                        &&& r is Ok
                                        &&& holds_le(
                                            final(fx).mem@,
                                            d as int,
                                            8,
                                            spec_ptr_of(*old(fx), self) as nat,
                                        )
                                        &&& exists|i: int|
                                            {
                                                &&& 0 <= i < final(fx).vtables@.len()
                                                &&& #[trigger] final(fx).vtables@[i] == (
                                                sp as usize,
                                                tr,
                                                )
                                                &&& holds_le(
                                                    final(fx).mem@,
                                                    d + 8,
                                                    8,
                                                    (VTABLE_BASE + 8 * i) as nat,
                                                )
                                            }
                                    },
                                    CPlace::Var(_, _) => true,
                                }
                            },
                        },
                        _ => r == Err::<(), LowerError>(LowerError::BadUnsize { from: st, to: dt })
                            && *final(fx) == *old(fx),
                    },
                    }
                },
            },
            (self.spec_layout() != dest.spec_layout() && old(fx).types@[self.spec_layout() as int]
                matches TyDef::Enum(_)) ==> r == Err::<(), LowerError>(
                LowerError::UnsizeOfEnum { ty: self.spec_layout() },
            ) && *final(fx) == *old(fx),
            match r {
                Err(LowerError::SecondDifferingField { from: f2, .. }) => f2
                    <= self.spec_layout(),
                _ => true,
            },
            self.spec_layout() != dest.spec_layout() ==> match (self, dest) {
                (CValue::ByRef(s, st2), CPlace::Addr(d, _, dt2)) => spec_fields_post(
                    *old(fx),
                    *final(fx),
                    s,
                    st2,
                    d,
                    dt2,
                    r,
                ),
                _ => true,
            },
        decreases self.spec_layout(), 1int,
    {
        let st: usize = self.layout();
        let dt: usize = dest.layout();
        if st == dt {
            // a redundant coercion from the earlier passes: a plain write
            return dest.write_cvalue(fx, self);
        }
        proof {
            assert(layout_wf_at(fx.types@, fx.layouts@, st as int));
            assert(layout_wf_at(fx.types@, fx.layouts@, dt as int));
        }
        let is_ptr_src: bool = match &fx.types[st] {
            TyDef::Ref(_, _) => true,
            TyDef::RawPtr(_, _) => true,
            _ => false,
        };
        if is_ptr_src {
            let sp: usize = match &fx.types[st] {
                TyDef::Ref(_, p) => *p,
                TyDef::RawPtr(_, p) => *p,
                _ => 0,
            };
            let dp: usize = match &fx.types[dt] {
                TyDef::Ref(_, p) => *p,
                TyDef::RawPtr(_, p) => *p,
                TyDef::Boxed(p) => *p,
                _ => {
                    return Err(LowerError::DerefOfNonPointer { ty: dt });
                },
            };
            proof {
                assert(layout_wf_at(fx.types@, fx.layouts@, sp as int));
                assert(layout_wf_at(fx.types@, fx.layouts@, dp as int));
                crate::bytes::lemma_pow256_values();
            }
            match &fx.types[dp] {
                TyDef::Slice(se) => {
                    let selem: usize = *se;
                    match &fx.types[sp] {
                        TyDef::Array(ae, n) => {
                            if *ae != selem {
                                return Err(LowerError::BadUnsize { from: st, to: dt });
                            }
                            let count: u64 = *n;
                            let p: u64 = match self.load_value(fx) {
                                Ok(p) => p,
                                Err(e) => {
                                    proof {
                                        assert(false);
                                    }
                                    return Err(e);
                                },
                            };
                            let pair: CValue = CValue::ByValPair(p, count, dt);
                            dest.write_cvalue(fx, pair)
                        },
                        _ => Err(LowerError::BadUnsize { from: st, to: dt }),
                    }
                },
                TyDef::Dynamic(tr) => {
                    let trait_id: u64 = *tr;
                    let src_is_dyn: bool = match &fx.types[sp] {
                        TyDef::Dynamic(_) => true,
                        _ => false,
                    };
                    if src_is_dyn {
                        let (p, x): (u64, u64) = match self.load_value_pair(fx) {
                            Ok(pair) => pair,
                            Err(e) => {
                                proof {
                                    assert(false);
                                }
                                return Err(e);
                            },
                        };
                        proof {
                            match self {
                                CValue::ByRef(sa, _) => {
                                    crate::bytes::lemma_word_at_bound(old(fx).mem@, sa as int, 8);
                                    crate::bytes::lemma_word_at_bound(old(fx).mem@, sa + 8, 8);
                                },
                                _ => {},
                            }
                        }
                        let pair: CValue = CValue::ByValPair(p, x, dt);
                        return dest.write_cvalue(fx, pair);
                    } else {
                        let p: u64 = match self.load_value(fx) {
                            Ok(p) => p,
                            Err(e) => {
                                return Err(e);
                            },
                        };
                        let vtable: u64 = fx.get_vtable(sp, trait_id);
                        let pair: CValue = CValue::ByValPair(p, vtable, dt);
                        return dest.write_cvalue(fx, pair);
                    }
                },
                _ => {
                    return Err(LowerError::BadUnsize { from: st, to: dt });
                },
            }
        } else {
            match &fx.types[st] {
                TyDef::Enum(_) => Err(LowerError::UnsizeOfEnum { ty: st }),
                TyDef::Struct(_) => self.unsize_fields(fx, dest),
                _ => Err(LowerError::BadUnsize { from: st, to: dt }),
            }
        }
    }

    /// Coerce a record source field by field: zero-size markers are
    /// skipped, the one differing field is coerced recursively, every
    /// other field is copied unchanged. A second differing field is an
    /// invariant violation.
    fn unsize_fields(self, fx: &mut FunctionCx, dest: CPlace) -> (r: Result<(), LowerError>)
        requires
            old(fx).wf(),
            self.wf(*old(fx)),
            dest.wf(*old(fx)),
            self.in_bounds(*old(fx)),
            dest.in_bounds(*old(fx)),
            old(fx).vtables@.len() + self.spec_layout() < 0x1000_0000,
            old(fx).types@[self.spec_layout() as int] matches TyDef::Struct(_),
            self.spec_layout() != dest.spec_layout(),
            match (dest, self) {
                (CPlace::Addr(d, _, dt), CValue::ByRef(s, st)) => d + old(fx).sizeof(dt as int)
                    <= s || s + old(fx).sizeof(st as int) <= d,
                _ => true,
            },
        ensures
            final(fx).wf(),
            old(fx).same_meta(*final(fx)),
            final(fx).mem@.len() == old(fx).mem@.len(),
            final(fx).vtables@.len() >= old(fx).vtables@.len(),
            final(fx).vtables@.len() <= old(fx).vtables@.len() + self.spec_layout(),
            forall|j: int|
                0 <= j < old(fx).vtables@.len()
                    ==> #[trigger] final(fx).vtables@[j] == old(fx).vtables@[j],
            match dest {
                CPlace::Addr(d, _, dt) => final(fx).vars == old(fx).vars && unchanged_outside(
                    old(fx).mem@,
                    final(fx).mem@,
                    d as int,
                    old(fx).sizeof(dt as int),
                ),
                CPlace::Var(local, _) => final(fx).mem == old(fx).mem && final(fx).vars@.len()
                    == old(fx).vars@.len() && (forall|j: int|
                    0 <= j < old(fx).vars@.len() && j != local.0
                        ==> #[trigger] final(fx).vars@[j] == old(fx).vars@[j]),
            },
            match r {
                Err(LowerError::SecondDifferingField { from: f2, .. }) => f2
                    <= self.spec_layout(),
                _ => true,
            },
            match (self, dest) {
                (CValue::ByRef(s, st2), CPlace::Addr(d, _, dt2)) => spec_fields_post(
                    *old(fx),
                    *final(fx),
                    s,
                    st2,
                    d,
                    dt2,
                    r,
                ),
                _ => true,
            },
        decreases self.spec_layout(), 0int,
    {
        let st: usize = self.layout();
        let dt: usize = dest.layout();
        proof {
            assert(layout_wf_at(fx.types@, fx.layouts@, st as int));
            assert(layout_wf_at(fx.types@, fx.layouts@, dt as int));
        }
        if fx.layout_of(st).is_unsized() {
            return Err(LowerError::BadUnsize { from: st, to: dt });
        }
        let nf: usize = match &fx.types[st] {
            TyDef::Struct(fs) => fs.len(),
            _ => 0,
        };
        let mut found_unsize_field: bool = false;
        let mut idx: usize = 0;
        while idx < nf
            invariant
                idx <= nf,
                fx.wf(),
                old(fx).wf(),
                old(fx).same_meta(*fx),
                fx.mem@.len() == old(fx).mem@.len(),
                fx.vars == old(fx).vars,
                fx.vtables@.len() >= old(fx).vtables@.len(),
                fx.vtables@.len() <= old(fx).vtables@.len() + (
                if found_unsize_field {
                    st as int
                } else {
                    0
                }),
                forall|j: int|
                    0 <= j < old(fx).vtables@.len()
                        ==> #[trigger] fx.vtables@[j] == old(fx).vtables@[j],
                old(fx).vtables@.len() + st < 0x1000_0000,
                st == self.spec_layout(),
                dt == dest.spec_layout(),
                st != dt,
                self.wf(*fx),
                dest.wf(*fx),
                self.in_bounds(*fx),
                dest.in_bounds(*fx),
                old(fx).types@[st as int] matches TyDef::Struct(fs) && nf == fs@.len(),
                !old(fx).lay(st as int).spec_is_unsized(),
                match (dest, self) {
                    (CPlace::Addr(d, _, pdt), CValue::ByRef(s, pst)) => d + old(fx).sizeof(
                        pdt as int,
                    ) <= s || s + old(fx).sizeof(pst as int) <= d,
                    _ => true,
                },
                match dest {
                    CPlace::Addr(d, _, pdt) => unchanged_outside(
                        old(fx).mem@,
                        fx.mem@,
                        d as int,
                        old(fx).sizeof(pdt as int),
                    ),
                    CPlace::Var(_, _) => fx.mem == old(fx).mem,
                },
                match (self, dest) {
                    (CValue::ByRef(s2, st2), CPlace::Addr(d2, _, dt2)) => match (
                        old(fx).types@[st2 as int],
                        old(fx).types@[dt2 as int],
                    ) {
                        (TyDef::Struct(fs), TyDef::Struct(fd)) => {
                            &&& idx <= fd@.len()
                            &&& (found_unsize_field <==> exists|j: int|
                                0 <= j < idx && #[trigger] spec_differing(
                                    old(fx).types@,
                                    fs@,
                                    fd@,
                                    j,
                                ))
                            &&& (forall|i: int, j: int|
                                0 <= i < j < idx ==> !(#[trigger] spec_differing(
                                    old(fx).types@,
                                    fs@,
                                    fd@,
                                    i,
                                ) && #[trigger] spec_differing(old(fx).types@, fs@, fd@, j)))
                            &&& (forall|i: int|
                                0 <= i < idx && i < fd@.len() && (#[trigger] fs@[i]) == fd@[i]
                                    && !(old(fx).types@[fs@[i] as int] matches TyDef::Phantom)
                                    ==> bytes_match(
                                    old(fx).mem@,
                                    fx.mem@,
                                    s2 + old(fx).lay(st2 as int).field_offsets@[i],
                                    d2 + old(fx).lay(dt2 as int).field_offsets@[i],
                                    old(fx).sizeof(fs@[i] as int),
                                ))
                        },
                        _ => true,
                    },
                    _ => true,
                },
            decreases nf - idx,
        {
            proof {
                assert(layout_wf_at(fx.types@, fx.layouts@, st as int));
                assert(layout_wf_at(fx.types@, fx.layouts@, dt as int));
            }
            let field_dest: CPlace = match dest.place_field(fx, idx) {
                Ok(p) => p,
                Err(e) => {
                    return Err(e);
                },
            };
            let field_src: CValue = match self.value_field(fx, idx) {
                Ok(v) => v,
                Err(e) => {
                    return Err(e);
                },
            };
            let sfty: usize = field_src.layout();
            let dfty: usize = field_dest.layout();
            proof {
                assert(layout_wf_at(fx.types@, fx.layouts@, sfty as int));
                assert(layout_wf_at(fx.types@, fx.layouts@, dfty as int));
            }
            let skip: bool = match &fx.types[sfty] {
                TyDef::Phantom => true,
                _ => false,
            };
            if !skip {
                if sfty != dfty {
                    if found_unsize_field {
                        proof {
                            match (self, dest) {
                                (CValue::ByRef(s2, st2), CPlace::Addr(d2, _, dt2)) => {
                                    let fs = old(fx).types@[st2 as int]->Struct_0@;
                                    let fd = old(fx).types@[dt2 as int]->Struct_0@;
                                    assert(spec_differing(old(fx).types@, fs, fd, idx as int));
                                    let j0 = choose|j: int|
                                        0 <= j < idx && #[trigger] spec_differing(
                                            old(fx).types@,
                                            fs,
                                            fd,
                                            j,
                                        );
                                    assert(spec_differing(old(fx).types@, fs, fd, j0)
                                        && spec_differing(old(fx).types@, fs, fd, idx as int));
                                },
                                _ => {
                                    assert(false);
                                },
                            }
                        }
                        return Err(LowerError::SecondDifferingField { from: st, to: dt });
                    }
                    found_unsize_field = true;
                    if fx.layout_of(dfty).is_unsized() {
                        return Err(LowerError::BadUnsize { from: sfty, to: dfty });
                    }
                    proof {
                        lemma_field_frame(*fx, self, dest, idx as int);
                    }
                    let ghost fxb = *fx;
                    match field_src.unsize_value(fx, field_dest) {
                        Ok(()) => {},
                        Err(e) => {
                            proof {
                                assert(sfty < st);
                            }
                            return Err(e);
                        },
                    }
                    proof {
                        match (self, dest) {
                            (CValue::ByRef(s2, st2), CPlace::Addr(d2, _, dt2)) => {
                                lemma_older_fields_stable(
                                    *old(fx),
                                    fxb,
                                    *fx,
                                    s2,
                                    st2,
                                    d2,
                                    dt2,
                                    idx as int,
                                );
                            },
                            _ => {},
                        }
                    }
                } else {
                    proof {
                        lemma_field_frame(*fx, self, dest, idx as int);
                    }
                    let ghost fxb = *fx;
                    match field_dest.write_cvalue(fx, field_src) {
                        Ok(()) => {},
                        Err(e) => {
                            return Err(e);
                        },
                    }
                    proof {
                        match (self, dest) {
                            (CValue::ByRef(s2, st2), CPlace::Addr(d2, _, dt2)) => {
                                lemma_older_fields_stable(
                                    *old(fx),
                                    fxb,
                                    *fx,
                                    s2,
                                    st2,
                                    d2,
                                    dt2,
                                    idx as int,
                                );
                                lemma_copied_field_bytes(
                                    *old(fx),
                                    fxb,
                                    *fx,
                                    s2,
                                    st2,
                                    d2,
                                    dt2,
                                    idx as int,
                                );
                            },
                            _ => {},
                        }
                    }
                }
            }
            proof {
                match (self, dest) {
                    (CValue::ByRef(s2, st2), CPlace::Addr(d2, _, dt2)) => {
                        let fs = old(fx).types@[st2 as int]->Struct_0@;
                        let fd = old(fx).types@[dt2 as int]->Struct_0@;
                        // the field just processed: its source and
                        // destination types, and whether it differed
                        assert(idx < fd.len());
                        assert(sfty == fs[idx as int]);
                        assert(dfty == fd[idx as int]);
                        if spec_differing(old(fx).types@, fs, fd, idx as int) {
                            assert(found_unsize_field);
                            assert(exists|j: int|
                                0 <= j < idx + 1 && #[trigger] spec_differing(
                                    old(fx).types@,
                                    fs,
                                    fd,
                                    j,
                                ));
                        } else {
                            assert forall|j: int|
                                0 <= j < idx + 1 && #[trigger] spec_differing(
                                    old(fx).types@,
                                    fs,
                                    fd,
                                    j,
                                ) implies j < idx by {}
                        }
                        assert(found_unsize_field <==> exists|j: int|
                            0 <= j < idx + 1 && #[trigger] spec_differing(
                                old(fx).types@,
                                fs,
                                fd,
                                j,
                            ));
                        assert(forall|i: int, j: int|
                            0 <= i < j < idx + 1 ==> !(#[trigger] spec_differing(
                                old(fx).types@,
                                fs,
                                fd,
                                i,
                            ) && #[trigger] spec_differing(old(fx).types@, fs, fd, j)));
                        assert(forall|i: int|
                            0 <= i < idx + 1 && i < fd.len() && (#[trigger] fs[i]) == fd[i] && !(
                            old(fx).types@[fs[i] as int] matches TyDef::Phantom) ==> bytes_match(
                                old(fx).mem@,
                                fx.mem@,
                                s2 + old(fx).lay(st2 as int).field_offsets@[i],
                                d2 + old(fx).lay(dt2 as int).field_offsets@[i],
                                old(fx).sizeof(fs[i] as int),
                            ));
                    },
                    _ => {},
                }
            }
            idx = idx + 1;
        }
        Ok(())
    }
}

/// A step that wrote only within destination field `idx`'s region keeps
/// every byte-for-byte claim about the earlier fields: their regions sit
/// strictly below field `idx`'s offset.
proof fn lemma_older_fields_stable(
    o: FunctionCx,
    b: FunctionCx,
    a: FunctionCx,
    s2: u64,
    st2: usize,
    d2: u64,
    dt2: usize,
    idx: int,
)
    requires
        o.wf(),
        st2 < o.n_types(),
        dt2 < o.n_types(),
        o.types@[st2 as int] matches TyDef::Struct(_),
        o.types@[dt2 as int] matches TyDef::Struct(_),
        0 <= idx < o.types@[dt2 as int]->Struct_0@.len(),
        !o.lay(st2 as int).spec_is_unsized(),
        a.mem@.len() == b.mem@.len(),
        d2 + o.sizeof(dt2 as int) <= b.mem@.len(),
        unchanged_outside(
            b.mem@,
            a.mem@,
            d2 + o.lay(dt2 as int).field_offsets@[idx],
            o.sizeof(o.types@[dt2 as int]->Struct_0@[idx] as int),
        ),
    ensures
        forall|j: int|
            (0 <= j < idx && j < o.types@[st2 as int]->Struct_0@.len()
                && o.types@[st2 as int]->Struct_0@[j] == o.types@[dt2 as int]->Struct_0@[j] && !(
            o.types@[o.types@[st2 as int]->Struct_0@[j] as int] matches TyDef::Phantom)
                && bytes_match(
                o.mem@,
                b.mem@,
                s2 + o.lay(st2 as int).field_offsets@[j],
                d2 + o.lay(dt2 as int).field_offsets@[j],
                o.sizeof(o.types@[st2 as int]->Struct_0@[j] as int),
            )) ==> #[trigger] bytes_match(
                o.mem@,
                a.mem@,
                s2 + o.lay(st2 as int).field_offsets@[j],
                d2 + o.lay(dt2 as int).field_offsets@[j],
                o.sizeof(o.types@[st2 as int]->Struct_0@[j] as int),
            ),
{
    assert(layout_wf_at(o.types@, o.layouts@, st2 as int));
    assert(layout_wf_at(o.types@, o.layouts@, dt2 as int));
    let fs = o.types@[st2 as int]->Struct_0@;
    let fd = o.types@[dt2 as int]->Struct_0@;
    let doffs = o.lay(dt2 as int).field_offsets@;
    assert forall|j: int|
        (0 <= j < idx && j < fs.len() && fs[j] == fd[j] && !(
        o.types@[fs[j] as int] matches TyDef::Phantom) && bytes_match(
            o.mem@,
            b.mem@,
            s2 + o.lay(st2 as int).field_offsets@[j],
            d2 + doffs[j],
            o.sizeof(fs[j] as int),
        )) implies #[trigger] bytes_match(
        o.mem@,
        a.mem@,
        s2 + o.lay(st2 as int).field_offsets@[j],
        d2 + doffs[j],
        o.sizeof(fs[j] as int),
    ) by {
        assert(layout_wf_at(o.types@, o.layouts@, fs[j] as int));
        // an equal-typed field is sized: the source record is sized, so
        // all its fields are
        assert(!o.lay(fs[j] as int).spec_is_unsized());
        // field j's destination region ends at or before field idx's begins
        assert(crate::layout::spec_field_size(o.layouts@, fd, j) == o.sizeof(fd[j] as int));
        assert(doffs[j] + o.sizeof(fd[j] as int) <= doffs[idx]);
        // and the whole of it lies inside the destination record
        assert(doffs[j] + crate::layout::spec_field_size(o.layouts@, fd, j) <= o.sizeof(
            dt2 as int,
        ));
        assert forall|k: int|
            0 <= k < o.sizeof(fs[j] as int) implies #[trigger] a.mem@[d2 + doffs[j] + k]
            == b.mem@[d2 + doffs[j] + k] by {
            assert(d2 + doffs[j] + k < d2 + doffs[idx]);
            assert(d2 + doffs[j] + k < b.mem@.len());
        }
    }
}

/// An equal-typed field that was just block-copied holds, in the
/// destination, exactly the bytes the source field held before the whole
/// coercion began: the copy read the source region, which no step of the
/// coercion ever writes.
proof fn lemma_copied_field_bytes(
    o: FunctionCx,
    b: FunctionCx,
    a: FunctionCx,
    s2: u64,
    st2: usize,
    d2: u64,
    dt2: usize,
    idx: int,
)
    requires
        o.wf(),
        st2 < o.n_types(),
        dt2 < o.n_types(),
        o.types@[st2 as int] matches TyDef::Struct(_),
        o.types@[dt2 as int] matches TyDef::Struct(_),
        0 <= idx < o.types@[st2 as int]->Struct_0@.len(),
        !o.lay(st2 as int).spec_is_unsized(),
        s2 + o.sizeof(st2 as int) <= o.mem@.len(),
        d2 + o.sizeof(dt2 as int) <= o.mem@.len(),
        d2 + o.sizeof(dt2 as int) <= s2 || s2 + o.sizeof(st2 as int) <= d2,
        b.mem@.len() == o.mem@.len(),
        unchanged_outside(o.mem@, b.mem@, d2 as int, o.sizeof(dt2 as int)),
        crate::bytes::copied(
            b.mem@,
            a.mem@,
            s2 + o.lay(st2 as int).field_offsets@[idx],
            d2 + o.lay(dt2 as int).field_offsets@[idx],
            o.sizeof(o.types@[st2 as int]->Struct_0@[idx] as int),
        ),
    ensures
        bytes_match(
            o.mem@,
            a.mem@,
            s2 + o.lay(st2 as int).field_offsets@[idx],
            d2 + o.lay(dt2 as int).field_offsets@[idx],
            o.sizeof(o.types@[st2 as int]->Struct_0@[idx] as int),
        ),
{
    assert(layout_wf_at(o.types@, o.layouts@, st2 as int));
    let fs = o.types@[st2 as int]->Struct_0@;
    let soff = o.lay(st2 as int).field_offsets@[idx] as int;
    let doff = o.lay(dt2 as int).field_offsets@[idx] as int;
    let n = o.sizeof(fs[idx] as int);
    assert(layout_wf_at(o.types@, o.layouts@, fs[idx] as int));
    // the source field lies inside the source record
    assert(!o.lay(fs[idx] as int).spec_is_unsized());
    assert(crate::layout::spec_field_size(o.layouts@, fs, idx) == n);
    assert(soff + n <= o.sizeof(st2 as int));
    assert forall|k: int| 0 <= k < n implies #[trigger] a.mem@[d2 + doff + k] == o.mem@[s2 + soff
        + k] by {
        assert(a.mem@[d2 + doff + k] == b.mem@[s2 + soff + k]);
        // the source byte was never inside the destination record
        assert(!(d2 <= s2 + soff + k < d2 + o.sizeof(dt2 as int)));
    }
}

/// Projecting field `idx` out of a record source and destination keeps
/// everything inside the parents: the field ranges are in bounds, disjoint
/// from each other, and the source's fields are sized.
proof fn lemma_field_frame(fx: FunctionCx, src: CValue, dest: CPlace, idx: int)
    requires
        fx.wf(),
        src.wf(fx),
        dest.wf(fx),
        src.in_bounds(fx),
        dest.in_bounds(fx),
        fx.types@[src.spec_layout() as int] matches TyDef::Struct(fs) && 0 <= idx < fs@.len(),
        !fx.lay(src.spec_layout() as int).spec_is_unsized(),
        match (dest, src) {
            (CPlace::Addr(d, _, dt), CValue::ByRef(s, st)) => d + fx.sizeof(dt as int) <= s || s
                + fx.sizeof(st as int) <= d,
            _ => true,
        },
    ensures
        src matches CValue::ByRef(s, st) ==> {
            let fs = fx.types@[st as int]->Struct_0@;
            let off = fx.lay(st as int).field_offsets@[idx];
            let fty = fs[idx] as int;
            &&& !fx.lay(fty).spec_is_unsized()
            &&& off + fx.sizeof(fty) <= fx.sizeof(st as int)
            &&& s + off + fx.sizeof(fty) <= fx.mem@.len()
        },
{
    let st = src.spec_layout() as int;
    assert(layout_wf_at(fx.types@, fx.layouts@, st));
    if src matches CValue::ByRef(s, _) {
        let fs = fx.types@[st]->Struct_0@;
        let fty = fs[idx] as int;
        assert(layout_wf_at(fx.types@, fx.layouts@, fty));
        if idx < fs.len() - 1 {
            assert(!fx.lay(fty).spec_is_unsized());
        } else {
            assert(!fx.lay(fty).spec_is_unsized());
        }
        assert(crate::layout::spec_field_size(fx.layouts@, fs, idx) == fx.sizeof(fty));
        assert(fx.lay(st).field_offsets@[idx] + crate::layout::spec_field_size(
            fx.layouts@,
            fs,
            idx,
        ) <= fx.lay(st).size);
    }
}

} // verus!
