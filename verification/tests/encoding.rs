use crow::errors::ErrorKind;
use crow::op::Arg24;
use crow::shorthand as op;
use crow::Op;

#[test]
fn test_op_size() {
    assert!(
        std::mem::size_of::<Op>() <= 4,
        "instruction must by at most 32-bits"
    );
}

#[test]
fn test_arg24() {
    assert_eq!(Arg24::from_i64(1).unwrap().0, [1, 0, 0]);
    assert_eq!(Arg24::from_i64(1).unwrap().into_i64(), 1);
}

#[test]
fn instruction_is_exactly_four_bytes() {
    assert_eq!(std::mem::size_of::<Op>(), 4);
}

#[test]
fn signed_round_trip_at_the_edges() {
    for value in [-8_388_608i64, -8_388_607, -256, -1, 0, 1, 255, 256, 65_535, 65_536, 8_388_607] {
        let arg = Arg24::from_i64(value).unwrap();
        assert_eq!(arg.into_i64(), value);
    }
    assert_eq!(Arg24::from_i64(-1).unwrap().0, [0xff, 0xff, 0xff]);
    assert_eq!(Arg24::from_i64(-8_388_608).unwrap().0, [0, 0, 0x80]);
    assert_eq!(Arg24::from_i64(0x12_3456).unwrap().0, [0x56, 0x34, 0x12]);
}

#[test]
fn signed_round_trip_everywhere() {
    let mut value = -8_388_608i64;
    while value < 8_388_608 {
        assert_eq!(Arg24::from_i64(value).unwrap().into_i64(), value);
        value += 1;
    }
}

#[test]
fn signed_encoding_out_of_range_fails() {
    let high = Arg24::from_i64(8_388_608).unwrap_err();
    assert_eq!(high.kind, ErrorKind::Runtime);
    assert_eq!(high.message, "value is too large to fit in 24 bits");
    assert_eq!(high.to_string(), "value is too large to fit in 24 bits");
    assert!(!high.is_typecheck_err());
    let low = Arg24::from_i64(-8_388_609).unwrap_err();
    assert_eq!(low.message, "value is too small to fit in 24 bits");
    assert!(Arg24::from_i64(i64::MAX).is_err());
    assert!(Arg24::from_i64(i64::MIN).is_err());
    assert!(Arg24::from_i32(8_388_608).is_err());
    assert!(Arg24::from_i32(-8_388_609).is_err());
    assert_eq!(Arg24::from_i32(-2).unwrap().into_i64(), -2);
}

#[test]
fn unsigned_encoding() {
    assert_eq!(Arg24::from_u32(0).unwrap().into_u32(), 0);
    assert_eq!(Arg24::from_u32(16_777_215).unwrap().into_u32(), 16_777_215);
    assert_eq!(Arg24::from_u32(16_777_215).unwrap().into_usize(), 16_777_215);
    assert_eq!(Arg24::from_u32(16_777_215).unwrap().0, [0xff, 0xff, 0xff]);
    assert_eq!(Arg24::from_u32(0x01_0203).unwrap().0, [3, 2, 1]);
    let err = Arg24::from_u32(16_777_216).unwrap_err();
    assert_eq!(err.message, "value is too large to fit in 24 bits");
    assert_eq!(err.kind, ErrorKind::Runtime);
}

#[test]
fn the_two_readings_of_the_same_bytes() {
    let arg = Arg24([0xff, 0xff, 0xff]);
    assert_eq!(arg.into_i64(), -1);
    assert_eq!(arg.into_u32(), 16_777_215);
    let arg = Arg24([0x00, 0x00, 0x80]);
    assert_eq!(arg.into_i64(), -8_388_608);
    assert_eq!(arg.into_u32(), 8_388_608);
}

#[test]
fn shorthand_builds_the_instructions() {
    assert!(matches!(op::noop(), Op::NoOp));
    assert!(matches!(op::end(), Op::End));
    assert!(matches!(op::return_(3), Op::Return { results: 3 }));
    assert!(matches!(op::call(2, 1), Op::Call { base: 2, results: 1 }));
    assert!(matches!(op::set_local(4), Op::SetLocal { slot: 4 }));
    assert!(matches!(op::get_local(5), Op::GetLocal { slot: 5 }));
    assert!(matches!(op::set_upvalue(6), Op::SetUpValue { upvalue_id: 6 }));
    assert!(matches!(op::get_upvalue(7), Op::GetUpValue { upvalue_id: 7 }));
    assert!(matches!(op::set_global(8), Op::SetGlobal { string: 8 }));
    assert!(matches!(op::get_global(9), Op::GetGlobal { string: 9 }));
    assert!(matches!(op::int_add(), Op::Int_Add));
    assert!(matches!(op::int_sub(), Op::Int_Sub));
    match op::pop(3) {
        Op::Pop(n) => assert_eq!(n.into_u32(), 3),
        other => panic!("{other:?}"),
    }
    match op::push_int_inlined(-5) {
        Op::PushIntIn(n) => assert_eq!(n.into_i64(), -5),
        other => panic!("{other:?}"),
    }
    match op::create_closure(9) {
        Op::CreateClosure { func_id } => assert_eq!(func_id.into_usize(), 9),
        other => panic!("{other:?}"),
    }
    match op::jump_le(-3) {
        Op::JumpLe { addr } => assert_eq!(addr.into_i64(), -3),
        other => panic!("{other:?}"),
    }
    match op::jump_gt(4) {
        Op::JumpGt { addr } => assert_eq!(addr.into_i64(), 4),
        other => panic!("{other:?}"),
    }
    match op::jump(-8_388_608) {
        Op::Jump { addr } => assert_eq!(addr.into_i64(), -8_388_608),
        other => panic!("{other:?}"),
    }
}
