//! End-to-end checks of the value/place lowering operations on concrete
//! type tables.

use clif_lower::context::{FunctionCx, Local, Variable, codegen_select, clif_intcast, mir_var};
use clif_lower::error::LowerError;
use clif_lower::layout::{pointer_ty, scalar_to_clif_type, Abi, ClifType};
use clif_lower::place::CPlace;
use clif_lower::ty::{Mutability, TyDef, UintTy, IntTy};
use clif_lower::value::CValue;

fn ctx(types: Vec<TyDef>) -> FunctionCx {
    FunctionCx::new(types).expect("well-formed type table")
}

fn addr_of(place: CPlace) -> u64 {
    place.expect_addr().expect("addressed place")
}

#[test]
fn write_then_read_round_trips() {
    // one type: a 32-bit unsigned integer
    let mut fx = ctx(vec![TyDef::Uint(UintTy::U32)]);
    let place = CPlace::temp(&mut fx, 0);
    let value = CValue::const_val(&fx, 0, 0x1234_5678);
    place.write_cvalue(&mut fx, value).unwrap();
    let back = place.to_cvalue(&fx).unwrap();
    assert_eq!(back.layout(), 0);
    assert_eq!(back.load_value(&fx).unwrap(), 0x1234_5678);
}

#[test]
fn write_truncates_constant_to_width() {
    let mut fx = ctx(vec![TyDef::Uint(UintTy::U8)]);
    let place = CPlace::temp(&mut fx, 0);
    let value = CValue::const_val(&fx, 0, 0x1ff);
    place.write_cvalue(&mut fx, value).unwrap();
    assert_eq!(place.to_cvalue(&fx).unwrap().load_value(&fx).unwrap(), 0xff);
}

#[test]
fn variable_place_round_trips() {
    let mut fx = ctx(vec![TyDef::Uint(UintTy::U64)]);
    let var = fx.declare_var(0);
    assert_eq!(var, Variable(0));
    let place = CPlace::Var(Local(0), 0);
    let value = CValue::const_val(&fx, 0, 99);
    place.write_cvalue(&mut fx, value).unwrap();
    assert_eq!(place.to_cvalue(&fx).unwrap().load_value(&fx).unwrap(), 99);
    assert_eq!(mir_var(Local(7)), Variable(7));
}

#[test]
fn field_projection_reads_the_record_bytes() {
    // struct { a: u16, b: u32 } -> offsets 0 and 4, size 8
    let mut fx = ctx(vec![
        TyDef::Uint(UintTy::U16),
        TyDef::Uint(UintTy::U32),
        TyDef::Struct(vec![0, 1]),
    ]);
    let place = CPlace::temp(&mut fx, 2);
    let base = addr_of(place);
    let fa = place.place_field(&fx, 0).unwrap();
    let fb = place.place_field(&fx, 1).unwrap();
    let va = CValue::const_val(&fx, 0, 0x1122);
    fa.write_cvalue(&mut fx, va).unwrap();
    let vb = CValue::const_val(&fx, 1, 0xAABBCCDD);
    fb.write_cvalue(&mut fx, vb).unwrap();
    // the projected field reads exactly the bytes at base + offset
    assert_eq!(addr_of(fb), base + 4);
    let through_field = fb.to_cvalue(&fx).unwrap().load_value(&fx).unwrap();
    let through_record = fx.load(ClifType::I32, base, 4);
    assert_eq!(through_field, 0xAABBCCDD);
    assert_eq!(through_field, through_record);
    // and the same through a value projection
    let whole = place.to_cvalue(&fx).unwrap();
    let vb = whole.value_field(&fx, 1).unwrap();
    assert_eq!(vb.load_value(&fx).unwrap(), 0xAABBCCDD);
}

fn array_slice_table(len: u64) -> Vec<TyDef> {
    vec![
        TyDef::Uint(UintTy::U32),                  // 0: element
        TyDef::Array(0, len),                      // 1: [u32; len]
        TyDef::Ref(Mutability::MutImmutable, 1),   // 2: &[u32; len]
        TyDef::Slice(0),                           // 3: [u32]
        TyDef::Ref(Mutability::MutImmutable, 3),   // 4: &[u32]
    ]
}

#[test]
fn unsize_array_to_slice_keeps_pointer_and_takes_length() {
    for len in [0u64, 1, 5, 117] {
        let mut fx = ctx(array_slice_table(len));
        let arr = CPlace::temp(&mut fx, 1);
        let arr_addr = addr_of(arr);
        let fat = CPlace::temp(&mut fx, 4);
        let d = addr_of(fat);
        let src = CValue::ByVal(arr_addr, 2);
        src.unsize_value(&mut fx, fat).unwrap();
        assert_eq!(fx.load(ClifType::I64, d, 0), arr_addr);
        assert_eq!(fx.load(ClifType::I64, d, 8), len);
    }
}

#[test]
fn unsize_mismatched_element_types_is_refused() {
    let mut fx = ctx(vec![
        TyDef::Uint(UintTy::U32),                // 0
        TyDef::Uint(UintTy::U16),                // 1
        TyDef::Array(0, 3),                      // 2: [u32; 3]
        TyDef::Ref(Mutability::MutImmutable, 2), // 3: &[u32; 3]
        TyDef::Slice(1),                         // 4: [u16]
        TyDef::Ref(Mutability::MutImmutable, 4), // 5: &[u16]
    ]);
    let arr = CPlace::temp(&mut fx, 2);
    let arr_addr = addr_of(arr);
    let fat = CPlace::temp(&mut fx, 5);
    let src = CValue::ByVal(arr_addr, 3);
    assert_eq!(
        src.unsize_value(&mut fx, fat),
        Err(LowerError::BadUnsize { from: 3, to: 5 })
    );
}

fn dyn_table() -> Vec<TyDef> {
    vec![
        TyDef::Uint(UintTy::U32),                // 0: one concrete type
        TyDef::Bool,                             // 1: another concrete type
        TyDef::Dynamic(7),                       // 2: the interface
        TyDef::Ref(Mutability::MutImmutable, 0), // 3: &u32
        TyDef::Ref(Mutability::MutImmutable, 1), // 4: &bool
        TyDef::Ref(Mutability::MutImmutable, 2), // 5: &dyn
    ]
}

#[test]
fn unsize_concrete_to_interface_keeps_pointer_and_separates_vtables() {
    let mut fx = ctx(dyn_table());
    let a = CPlace::temp(&mut fx, 0);
    let b = CPlace::temp(&mut fx, 1);
    let a_addr = addr_of(a);
    let b_addr = addr_of(b);
    let fat_a = CPlace::temp(&mut fx, 5);
    let fat_b = CPlace::temp(&mut fx, 5);
    let da = addr_of(fat_a);
    let db = addr_of(fat_b);
    CValue::ByVal(a_addr, 3).unsize_value(&mut fx, fat_a).unwrap();
    CValue::ByVal(b_addr, 4).unsize_value(&mut fx, fat_b).unwrap();
    // the data pointers pass through unchanged
    assert_eq!(fx.load(ClifType::I64, da, 0), a_addr);
    assert_eq!(fx.load(ClifType::I64, db, 0), b_addr);
    // two concrete types behind one interface get different vtables
    let vt_a = fx.load(ClifType::I64, da, 8);
    let vt_b = fx.load(ClifType::I64, db, 8);
    assert_ne!(vt_a, vt_b);
    // the same concrete type asked twice gets the same vtable
    let fat_a2 = CPlace::temp(&mut fx, 5);
    let da2 = addr_of(fat_a2);
    CValue::ByVal(a_addr, 3).unsize_value(&mut fx, fat_a2).unwrap();
    assert_eq!(fx.load(ClifType::I64, da2, 8), vt_a);
}

#[test]
fn unsize_interface_to_interface_reloads_the_pair() {
    let mut fx = ctx(vec![
        TyDef::Uint(UintTy::U32),                // 0
        TyDef::Dynamic(7),                       // 1
        TyDef::Ref(Mutability::MutImmutable, 1), // 2: &dyn
        TyDef::RawPtr(Mutability::MutImmutable, 1), // 3: *const dyn
    ]);
    let dest = CPlace::temp(&mut fx, 3);
    let d = addr_of(dest);
    CValue::ByValPair(0x1000, 0x2000, 2).unsize_value(&mut fx, dest).unwrap();
    assert_eq!(fx.load(ClifType::I64, d, 0), 0x1000);
    assert_eq!(fx.load(ClifType::I64, d, 8), 0x2000);
}

#[test]
fn unsize_wrapper_record_coerces_its_one_differing_field() {
    let mut fx = ctx(vec![
        TyDef::Uint(UintTy::U32),                // 0
        TyDef::Array(0, 4),                      // 1: [u32; 4]
        TyDef::Ref(Mutability::MutImmutable, 1), // 2: &[u32; 4]
        TyDef::Slice(0),                         // 3: [u32]
        TyDef::Ref(Mutability::MutImmutable, 3), // 4: &[u32]
        TyDef::Phantom,                          // 5
        TyDef::Struct(vec![2, 5]),               // 6: wrapper over &[u32; 4]
        TyDef::Struct(vec![4, 5]),               // 7: wrapper over &[u32]
    ]);
    let arr = CPlace::temp(&mut fx, 1);
    let arr_addr = addr_of(arr);
    let src_place = CPlace::temp(&mut fx, 6);
    src_place
        .place_field(&fx, 0)
        .unwrap()
        .write_cvalue(&mut fx, CValue::ByVal(arr_addr, 2))
        .unwrap();
    let dest = CPlace::temp(&mut fx, 7);
    let d = addr_of(dest);
    let src_val = src_place.to_cvalue(&fx).unwrap();
    src_val.unsize_value(&mut fx, dest).unwrap();
    assert_eq!(fx.load(ClifType::I64, d, 0), arr_addr);
    assert_eq!(fx.load(ClifType::I64, d, 8), 4);
}

#[test]
fn unsize_of_an_enum_is_refused() {
    let mut fx = ctx(vec![
        TyDef::Uint(UintTy::U32),  // 0
        TyDef::Struct(vec![0]),    // 1: a variant
        TyDef::Enum(vec![1]),      // 2
        TyDef::Struct(vec![0, 0]), // 3: some other type
    ]);
    let dest = CPlace::temp(&mut fx, 3);
    let src_place = CPlace::temp(&mut fx, 2);
    let src = src_place.to_cvalue(&fx).unwrap();
    assert_eq!(
        src.unsize_value(&mut fx, dest),
        Err(LowerError::UnsizeOfEnum { ty: 2 })
    );
}

#[test]
fn unsize_with_two_differing_fields_is_refused() {
    let mut fx = ctx(vec![
        TyDef::Uint(UintTy::U32),                // 0
        TyDef::Array(0, 2),                      // 1
        TyDef::Ref(Mutability::MutImmutable, 1), // 2: &[u32; 2]
        TyDef::Slice(0),                         // 3
        TyDef::Ref(Mutability::MutImmutable, 3), // 4: &[u32]
        TyDef::Struct(vec![2, 2]),               // 5: two coercible fields
        TyDef::Struct(vec![4, 4]),               // 6
    ]);
    let src_place = CPlace::temp(&mut fx, 5);
    let dest = CPlace::temp(&mut fx, 6);
    let src = src_place.to_cvalue(&fx).unwrap();
    assert_eq!(
        src.unsize_value(&mut fx, dest),
        Err(LowerError::SecondDifferingField { from: 5, to: 6 })
    );
}

fn ref_table() -> Vec<TyDef> {
    vec![
        TyDef::Uint(UintTy::U8),                 // 0: U
        TyDef::Ref(Mutability::MutMutable, 0),   // 1: &mut U
        TyDef::Ref(Mutability::MutImmutable, 0), // 2: &U
        TyDef::Uint(UintTy::U32),                // 3: V
        TyDef::Ref(Mutability::MutImmutable, 3), // 4: &V
    ]
}

#[test]
fn exclusive_reference_may_feed_a_shared_destination() {
    let mut fx = ctx(ref_table());
    let dest = CPlace::temp(&mut fx, 2);
    assert_eq!(dest.write_cvalue(&mut fx, CValue::ByVal(0x40, 1)), Ok(()));
}

#[test]
fn shared_reference_must_not_feed_an_exclusive_destination() {
    let mut fx = ctx(ref_table());
    let dest = CPlace::temp(&mut fx, 1);
    assert_eq!(
        dest.write_cvalue(&mut fx, CValue::ByVal(0x40, 2)),
        Err(LowerError::TypeMismatch { from: 2, to: 1 })
    );
}

#[test]
fn references_to_different_pointees_never_mix() {
    let mut fx = ctx(ref_table());
    let dest = CPlace::temp(&mut fx, 4);
    assert_eq!(
        dest.write_cvalue(&mut fx, CValue::ByVal(0x40, 2)),
        Err(LowerError::TypeMismatch { from: 2, to: 4 })
    );
}

#[test]
fn function_pointers_mix_exactly_when_signatures_match() {
    let mut fx = ctx(vec![TyDef::FnPtr(11), TyDef::FnPtr(11), TyDef::FnPtr(12)]);
    let same = CPlace::temp(&mut fx, 1);
    assert_eq!(same.write_cvalue(&mut fx, CValue::ByVal(0x40, 0)), Ok(()));
    let diff = CPlace::temp(&mut fx, 2);
    assert_eq!(
        diff.write_cvalue(&mut fx, CValue::ByVal(0x40, 0)),
        Err(LowerError::TypeMismatch { from: 0, to: 2 })
    );
}

#[test]
fn block_copy_copies_exactly_the_destination_size() {
    for size in [0u64, 1, 7, 8, 9, 15, 16, 17] {
        let mut fx = ctx(vec![TyDef::Uint(UintTy::U8), TyDef::Array(0, size)]);
        let src_place = CPlace::temp(&mut fx, 1);
        let s = addr_of(src_place);
        for k in 0..size {
            fx.store(ClifType::I8, (k % 251 + 1) & 0xff, s, k);
        }
        let dest = CPlace::temp(&mut fx, 1);
        let d = addr_of(dest);
        // sentinel bytes right after the destination block
        let guard = fx.create_stack_slot(4, 1);
        for k in 0..4 {
            fx.store(ClifType::I8, 0x5A, guard, k);
        }
        dest.write_cvalue(&mut fx, CValue::ByRef(s, 1)).unwrap();
        for k in 0..size {
            assert_eq!(fx.load(ClifType::I8, d, k), (k % 251 + 1) & 0xff);
        }
        for k in 0..4 {
            assert_eq!(fx.load(ClifType::I8, guard, k), 0x5A, "sentinel touched at size {size}");
        }
    }
}

#[test]
fn by_value_pair_lands_at_its_two_offsets() {
    // struct Pair(i64, i64): offsets 0 and 8 under an 8-byte alignment
    let mut fx = ctx(vec![TyDef::Int(IntTy::I64), TyDef::Struct(vec![0, 0])]);
    let place = CPlace::temp(&mut fx, 1);
    let d = addr_of(place);
    assert_eq!(d % 8, 0);
    place.write_cvalue(&mut fx, CValue::ByValPair(5, 7, 1)).unwrap();
    assert_eq!(fx.load(ClifType::I64, d, 0), 5);
    assert_eq!(fx.load(ClifType::I64, d, 8), 7);
    // and the pair loads back whole from memory
    let back = place.to_cvalue(&fx).unwrap();
    assert_eq!(back.load_value_pair(&fx).unwrap(), (5, 7));
}

#[test]
fn place_index_scales_by_element_size() {
    let mut fx = ctx(array_slice_table(6));
    let arr = CPlace::temp(&mut fx, 1);
    let base = addr_of(arr);
    let third = arr.place_index(&fx, 3).unwrap();
    assert_eq!(addr_of(third), base + 12);
    let mut fx2 = ctx(vec![TyDef::Uint(UintTy::U32)]);
    let scalar = CPlace::temp(&mut fx2, 0);
    assert_eq!(
        scalar.place_index(&fx2, 0),
        Err(LowerError::IndexOfNonArray { ty: 0 })
    );
}

#[test]
fn deref_splits_a_fat_pointer() {
    let mut fx = ctx(array_slice_table(9));
    // a fat pointer value in memory: data pointer 0x30, length 9
    let fat = CPlace::temp(&mut fx, 4);
    let d = addr_of(fat);
    fx.store(ClifType::I64, 0x30, d, 0);
    fx.store(ClifType::I64, 9, d, 8);
    let slice_place = fat.place_deref(&fx).unwrap();
    assert_eq!(slice_place, CPlace::Addr(0x30, Some(9), 3));
    // a thin pointer just loads
    let thin = CPlace::temp(&mut fx, 2);
    let t = addr_of(thin);
    fx.store(ClifType::I64, 0x77, t, 0);
    assert_eq!(thin.place_deref(&fx).unwrap(), CPlace::Addr(0x77, None, 1));
}

#[test]
fn write_place_ref_stores_address_and_metadata() {
    let mut fx = ctx(array_slice_table(9));
    // sized place: its address is stored as one pointer
    let arr = CPlace::temp(&mut fx, 1);
    let a = addr_of(arr);
    let ptr_dest = CPlace::temp(&mut fx, 2);
    let pd = addr_of(ptr_dest);
    arr.write_place_ref(&mut fx, ptr_dest).unwrap();
    assert_eq!(fx.load(ClifType::I64, pd, 0), a);
    // unsized place: address and extra land side by side
    let fat_dest = CPlace::temp(&mut fx, 4);
    let fd = addr_of(fat_dest);
    let unsized_place = CPlace::Addr(0x500, Some(9), 3);
    unsized_place.write_place_ref(&mut fx, fat_dest).unwrap();
    assert_eq!(fx.load(ClifType::I64, fd, 0), 0x500);
    assert_eq!(fx.load(ClifType::I64, fd, 8), 9);
}

#[test]
fn downcast_narrows_to_the_variant_layout() {
    let mut fx = ctx(vec![
        TyDef::Uint(UintTy::U8),   // 0
        TyDef::Uint(UintTy::U64),  // 1
        TyDef::Struct(vec![0]),    // 2: small variant
        TyDef::Struct(vec![1, 1]), // 3: large variant
        TyDef::Enum(vec![2, 3]),   // 4
    ]);
    let place = CPlace::temp(&mut fx, 4);
    let a = addr_of(place);
    let narrowed = place.downcast_variant(&fx, 1).unwrap();
    assert_eq!(narrowed, CPlace::Addr(a, None, 3));
    assert_eq!(
        place.downcast_variant(&fx, 2),
        Err(LowerError::BadVariant { ty: 4, variant: 2 })
    );
}

#[test]
fn representation_mismatches_are_invariant_violations() {
    let mut fx = ctx(array_slice_table(2));
    // one scalar out of a register pair
    let pair = CValue::ByValPair(1, 2, 4);
    assert_eq!(pair.load_value(&fx), Err(LowerError::ScalarOfPair { ty: 4 }));
    // a register pair out of one scalar
    let scalar = CValue::ByVal(1, 0);
    assert_eq!(scalar.load_value_pair(&fx), Err(LowerError::PairOfScalar { ty: 0 }));
    // an unsized place realized as a value
    let unsized_place = CPlace::Addr(0x10, Some(2), 3);
    assert_eq!(unsized_place.to_cvalue(&fx), Err(LowerError::UnsizedPlace { ty: 3 }));
    // a variable place has no address
    assert_eq!(
        CPlace::Var(Local(0), 0).expect_addr(),
        Err(LowerError::VarWhereAddr { ty: 0 })
    );
    // a write into an unsized place
    let dest = CPlace::Addr(0x10, Some(2), 3);
    assert_eq!(
        dest.write_cvalue(&mut fx, CValue::ByRef(0, 3)),
        Err(LowerError::WriteToUnsized { ty: 3 })
    );
}

#[test]
fn relabelling_keeps_the_storage() {
    let mut fx = ctx(vec![TyDef::Uint(UintTy::U32), TyDef::Char]);
    let v = CValue::ByVal(0x61, 0);
    assert_eq!(v.unchecked_cast_to(&fx, 1), CValue::ByVal(0x61, 1));
    let p = CPlace::temp(&mut fx, 0);
    let a = addr_of(p);
    assert_eq!(p.unchecked_cast_to(&fx, 1), CPlace::Addr(a, None, 1));
    assert_eq!(CPlace::from_stack_slot(&fx, a, 1), CPlace::Addr(a, None, 1));
}

#[test]
fn force_stack_spills_registers_and_keeps_memory_values() {
    let mut fx = ctx(array_slice_table(3));
    let v = CValue::ByVal(0xBEEF, 0);
    let spilled = v.force_stack(&mut fx);
    assert_eq!(fx.load(ClifType::I32, spilled, 0), 0xBEEF);
    let pair = CValue::ByValPair(0x11, 0x22, 4);
    let ps = pair.force_stack(&mut fx);
    assert_eq!(fx.load(ClifType::I64, ps, 0), 0x11);
    assert_eq!(fx.load(ClifType::I64, ps, 8), 0x22);
    let by_ref = CValue::ByRef(spilled, 0);
    assert_eq!(by_ref.force_stack(&mut fx), spilled);
}

#[test]
fn intcast_extends_and_truncates() {
    assert_eq!(clif_intcast(0xFF, ClifType::I8, ClifType::I32, false), 0xFF);
    assert_eq!(clif_intcast(0xFF, ClifType::I8, ClifType::I32, true), 0xFFFF_FFFF);
    assert_eq!(clif_intcast(0x7F, ClifType::I8, ClifType::I64, true), 0x7F);
    assert_eq!(clif_intcast(0x1234, ClifType::I16, ClifType::I8, true), 0x34);
    assert_eq!(clif_intcast(0x8000, ClifType::I16, ClifType::I64, true), 0xFFFF_FFFF_FFFF_8000);
    assert_eq!(clif_intcast(5, ClifType::I32, ClifType::I32, true), 5);
}

#[test]
fn select_picks_by_condition() {
    assert_eq!(codegen_select(ClifType::I32, 1, 10, 20), 10);
    assert_eq!(codegen_select(ClifType::I32, 0, 10, 20), 20);
    assert_eq!(codegen_select(ClifType::I8, 0xFF, 1, 2), 1);
}

#[test]
fn pointer_and_scalar_classes_by_width() {
    assert_eq!(pointer_ty(16), ClifType::I16);
    assert_eq!(pointer_ty(32), ClifType::I32);
    assert_eq!(pointer_ty(64), ClifType::I64);
    assert_eq!(scalar_to_clif_type(1), ClifType::I8);
    assert_eq!(scalar_to_clif_type(2), ClifType::I16);
    assert_eq!(scalar_to_clif_type(4), ClifType::I32);
    assert_eq!(scalar_to_clif_type(8), ClifType::I64);
}

#[test]
fn layouts_classify_types() {
    let fx = ctx(dyn_table());
    assert!(matches!(fx.layout_of(0).abi, Abi::Scalar(ClifType::I32)));
    assert!(matches!(fx.layout_of(5).abi, Abi::ScalarPair(ClifType::I64, ClifType::I64)));
    assert_eq!(fx.layout_of(5).size, 16);
    assert!(fx.layout_of(2).is_unsized());
    assert_eq!(fx.clif_type(3), Some(ClifType::I64));
    assert_eq!(fx.clif_type(5), None);
}

#[test]
fn malformed_type_tables_are_rejected() {
    // an array of an unsized element type
    assert!(matches!(
        FunctionCx::new(vec![TyDef::Uint(UintTy::U8), TyDef::Slice(0), TyDef::Array(1, 3)]),
        Err(LowerError::ArrayOfUnsized { ty: 2 })
    ));
    // an unsized field before the last
    assert!(matches!(
        FunctionCx::new(vec![
            TyDef::Uint(UintTy::U8),
            TyDef::Slice(0),
            TyDef::Struct(vec![1, 0]),
        ]),
        Err(LowerError::FieldNotLast { ty: 2, field: 0 })
    ));
    // a definition referencing a later entry
    assert!(matches!(
        FunctionCx::new(vec![TyDef::Ref(Mutability::MutImmutable, 5)]),
        Err(LowerError::BadTypeIndex { ty: 0 })
    ));
}

#[test]
fn pair_load_goes_by_size_not_scalar_classes() {
    // a 16-byte record of a u64 and a u32 is still two pointer widths:
    // both words load, at offsets 0 and 8
    let mut fx = ctx(vec![
        TyDef::Uint(UintTy::U64),
        TyDef::Uint(UintTy::U32),
        TyDef::Struct(vec![0, 1]),
    ]);
    assert_eq!(fx.layout_of(2).size, 16);
    let place = CPlace::temp(&mut fx, 2);
    let d = addr_of(place);
    fx.store(ClifType::I64, 0x0102030405060708, d, 0);
    fx.store(ClifType::I32, 0x11223344, d, 8);
    let back = place.to_cvalue(&fx).unwrap();
    assert_eq!(back.load_value_pair(&fx).unwrap(), (0x0102030405060708, 0x11223344));
    // an 8-byte record of two u32 scalars is not two pointer widths
    let mut fx2 = ctx(vec![TyDef::Uint(UintTy::U32), TyDef::Struct(vec![0, 0])]);
    let small = CPlace::temp(&mut fx2, 1).to_cvalue(&fx2).unwrap();
    assert_eq!(small.load_value_pair(&fx2), Err(LowerError::NotAPairInMemory { ty: 1 }));
}

#[test]
fn redundant_coercion_is_a_plain_write() {
    // identical source and destination types: unsizing degenerates to a
    // full write, here a block copy
    let mut fx = ctx(vec![TyDef::Uint(UintTy::U8), TyDef::Array(0, 5)]);
    let src_place = CPlace::temp(&mut fx, 1);
    let s = addr_of(src_place);
    for k in 0..5 {
        fx.store(ClifType::I8, 0x21 + k, s, k);
    }
    let dest = CPlace::temp(&mut fx, 1);
    let d = addr_of(dest);
    let src = src_place.to_cvalue(&fx).unwrap();
    src.unsize_value(&mut fx, dest).unwrap();
    for k in 0..5 {
        assert_eq!(fx.load(ClifType::I8, d, k), 0x21 + k);
    }
}
