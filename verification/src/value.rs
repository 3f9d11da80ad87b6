//! Values: what a stack slot, a constant or a closed up-value holds.
use crate::float::Float;
use crate::object::{Closure, Func, Object, ObjectView};
use std::rc::Rc;
use vstd::prelude::*;

verus! {

/// Value is a typed, safe value.
#[derive(Debug)]
pub enum Value {
    Int(i64),
    UInt(u64),
    Float(Float),
    Object(Object),
}

/// A value as contracts speak of it.
#[verifier::ext_equal]
pub enum ValueView {
    Int(i64),
    UInt(u64),
    Float(Float),
    Object(ObjectView),
}

impl View for Value {
    type V = ValueView;

    open spec fn view(&self) -> ValueView {
        match *self {
            Value::Int(val) => ValueView::Int(val),
            Value::UInt(val) => ValueView::UInt(val),
            Value::Float(val) => ValueView::Float(val),
            Value::Object(obj) => ValueView::Object(obj@),
        }
    }
}

impl Clone for Value {
    fn clone(&self) -> (copy: Self)
        ensures
            copy == *self,
    {
        match self {
            Value::Int(val) => Value::Int(*val),
            Value::UInt(val) => Value::UInt(*val),
            Value::Float(val) => Value::Float(*val),
            Value::Object(obj) => Value::Object(obj.clone()),
        }
    }
}

impl ValueView {
    /// The value that stands for a truth value: one for true, zero for false.
    pub open spec fn of_bool(val: bool) -> ValueView {
        ValueView::Int(if val { 1i64 } else { 0i64 })
    }
}

impl Value {
    pub fn from_bool(val: bool) -> (value: Self)
        ensures
            value == Value::Int(if val { 1i64 } else { 0i64 }),
            value@ == ValueView::of_bool(val),
    {
        Value::Int(if val { 1 } else { 0 })
    }

    pub fn as_int(&self) -> (int_val: Option<i64>)
        ensures
            int_val == (match *self {
                Value::Int(val) => Some(val),
                _ => None,
            }),
    {
        match *self {
            Value::Int(val) => Some(val),
            _ => None,
        }
    }

    pub fn as_float(&self) -> (float_val: Option<Float>)
        ensures
            float_val == (match *self {
                Value::Float(val) => Some(val),
                _ => None,
            }),
    {
        match *self {
            Value::Float(val) => Some(val),
            _ => None,
        }
    }

    pub fn from_func(func: Rc<Func>) -> (value: Self)
        ensures
            value == Value::Object(Object::Func(func)),
    {
        Value::Object(Object::Func(func))
    }

    pub fn as_func(&self) -> (func: Option<&Rc<Func>>)
        ensures
            func == (match *self {
                Value::Object(Object::Func(func_rc)) => Some(&func_rc),
                _ => None,
            }),
    {
        match self {
            Value::Object(Object::Func(func_rc)) => Some(func_rc),
            _ => None,
        }
    }

    pub fn to_func(self) -> (func: Option<Rc<Func>>)
        ensures
            func == (match self {
                Value::Object(Object::Func(func_rc)) => Some(func_rc),
                _ => None,
            }),
    {
        match self {
            Value::Object(Object::Func(func_rc)) => Some(func_rc),
            _ => None,
        }
    }

    pub fn from_string(string: Rc<String>) -> (value: Self)
        ensures
            value == Value::Object(Object::String(string)),
    {
        Value::Object(Object::String(string))
    }

    pub fn as_string(&self) -> (string: Option<&Rc<String>>)
        ensures
            string == (match *self {
                Value::Object(Object::String(string_rc)) => Some(&string_rc),
                _ => None,
            }),
    {
        match self {
            Value::Object(Object::String(string_rc)) => Some(string_rc),
            _ => None,
        }
    }

    pub fn from_closure(closure: Rc<Closure>) -> (value: Self)
        ensures
            value == Value::Object(Object::Closure(closure)),
    {
        Value::Object(Object::Closure(closure))
    }

    pub fn as_closure(&self) -> (closure: Option<&Rc<Closure>>)
        ensures
            closure == (match *self {
                Value::Object(Object::Closure(rc)) => Some(&rc),
                _ => None,
            }),
    {
        match self {
            Value::Object(Object::Closure(rc)) => Some(rc),
            _ => None,
        }
    }
}

} // verus!
