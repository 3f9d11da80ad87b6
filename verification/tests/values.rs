use std::rc::Rc;

use crow::errors::Result;
use crow::float::Float;
use crow::object::{Closure, Constants, Func, Object, UpValue};
use crow::op::Arg24;
use crow::value::Value;
use crow::Op;

#[test]
fn test_value_size() {
    assert!(
        std::mem::size_of::<Value>() <= std::mem::size_of::<usize>() * 2,
        "Value should be at most two machine words"
    );
}

#[test]
fn test_slot() -> Result<()> {
    let func = Rc::new(Func {
        code: Box::new([
            Op::PushIntIn(Arg24::from_i64(7)?),
            Op::PushIntIn(Arg24::from_i64(11)?),
            Op::Int_Add,
            Op::End,
        ]),
        stack_size: 3,
        is_varg: true,
        constants: Constants {
            ints: Box::new([]),
            floats: Box::new([]),
            strings: Box::new([]),
            funcs: Box::new([]),
        },
        up_values: Box::new([]),
    });
    assert_eq!(func.code.len(), 4);
    assert_eq!(func.stack_size, 3);
    assert!(func.is_varg);

    Ok(())
}

fn empty_func() -> Rc<Func> {
    Rc::new(Func::new(
        Box::new([]),
        1,
        false,
        Constants::new(Box::new([]), Box::new([]), Box::new([]), Box::new([])),
        Box::new([]),
    ))
}

#[test]
fn values_know_their_kind() {
    assert_eq!(Value::from_bool(true).as_int(), Some(1));
    assert_eq!(Value::from_bool(false).as_int(), Some(0));
    assert_eq!(Value::Int(-3).as_int(), Some(-3));
    assert_eq!(Value::UInt(3).as_int(), None);
    assert!(Value::Int(3).as_float().is_none());
    assert_eq!(Value::Float(Float::from_bits(9)).as_float().map(|f| f.to_bits()), Some(9));
    let func = empty_func();
    let value = Value::from_func(func.clone());
    assert!(Rc::ptr_eq(value.as_func().unwrap(), &func));
    assert!(value.as_closure().is_none());
    assert!(value.as_string().is_none());
    assert!(value.as_int().is_none());
    assert!(Rc::ptr_eq(&value.to_func().unwrap(), &func));
    assert!(Value::Int(1).to_func().is_none());
    let closure = Rc::new(Closure::new(func.clone()));
    assert!(closure.up_values.is_empty());
    let value = Value::from_closure(closure.clone());
    assert!(Rc::ptr_eq(value.as_closure().unwrap(), &closure));
    assert!(value.as_func().is_none());
    let copy = value.clone();
    assert!(Rc::ptr_eq(copy.as_closure().unwrap(), &closure));
    let text = Rc::new(String::from("crow"));
    let value = Value::from_string(text.clone());
    assert!(Rc::ptr_eq(value.as_string().unwrap(), &text));
    assert!(matches!(value.clone(), Value::Object(Object::String(_))));
    let closure = Closure::with_up_values(func, vec![3, 1]);
    assert_eq!(closure.up_values, vec![3, 1]);
}

#[test]
fn closing_a_cell_replaces_what_it_held() {
    let mut cell = UpValue::Open(4);
    cell.close(Value::Int(9));
    assert!(matches!(cell, UpValue::Closed(Value::Int(9))));
    cell.close(Value::Int(10));
    assert!(matches!(cell, UpValue::Closed(Value::Int(10))));
}

#[test]
fn floats_compare_as_numbers() {
    let samples = [
        0.0, -0.0, 1.0, -1.0, 0.1, -0.1, 1e300, -1e300, f64::INFINITY, f64::NEG_INFINITY,
        f64::NAN, -f64::NAN, f64::MIN_POSITIVE, 5e-324, -5e-324, f64::MAX, f64::MIN,
    ];
    for a in samples {
        let x = Float::from_bits(a.to_bits());
        assert_eq!(x.to_bits(), a.to_bits());
        assert_eq!(x.is_nan(), a.is_nan());
        assert_eq!(x.neg().to_bits(), (-a).to_bits());
        for b in samples {
            let y = Float::from_bits(b.to_bits());
            assert_eq!(x.is_eq(y), a == b, "{a} == {b}");
            assert_eq!(x.is_ne(y), a != b, "{a} != {b}");
            assert_eq!(x.is_lt(y), a < b, "{a} < {b}");
            assert_eq!(x.is_le(y), a <= b, "{a} <= {b}");
            assert_eq!(x.is_gt(y), a > b, "{a} > {b}");
            assert_eq!(x.is_ge(y), a >= b, "{a} >= {b}");
        }
    }
}
