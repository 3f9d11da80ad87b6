//! Objects: the values that live on the heap and are reached through
//! shared handles.
use crate::float::Float;
use crate::op::Op;
use crate::value::{Value, ValueView};
use std::rc::Rc;
use vstd::prelude::*;

verus! {

/// The place of an up-value cell in the heap of the machine that made it.
/// Every holder of the same `CellId` shares the same cell.
pub type CellId = usize;

#[derive(Debug)]
pub enum Object {
    Closure(Rc<Closure>),
    Func(Rc<Func>),
    String(Rc<String>),
}

/// Function prototype: what the compiler hands to the machine. Nothing
/// changes it afterwards, and any number of closures share it.
#[derive(Debug)]
pub struct Func {
    pub code: Box<[Op]>,
    /// The number of stack slots this function requires in its activation frame,
    /// including the callable object.
    pub stack_size: u32,
    /// Indicates whether the function takes variable arguments.
    pub is_varg: bool,
    pub constants: Constants,
    /// Up-values are local variables from outer lexical scopes that have been captured
    /// by this function's scope.
    ///
    /// This table describes whether an up-value is directly from the parent scope, or
    /// from an outer scope farther out.
    pub up_values: Box<[UpValueOrigin]>,
}

/// The typed constant pools of a prototype.
#[derive(Debug)]
pub struct Constants {
    pub ints: Box<[i64]>,
    pub floats: Box<[Float]>,
    pub strings: Box<[String]>,
    pub funcs: Box<[Rc<Func>]>,
}

/// Indicates how far from the local scope the up-value originated.
///
/// In this example z is local, y is an up-value pointing to a parent's
/// local (origin `Parent`), and x is an up-value pointing to a parent's
/// up-value (origin `Outer`) which in turn points to the grand-parent's
/// local.
///
/// ```scheme
/// (lambda (x)      ;; outer
///   (lambda (y)    ;; parent
///     (lambda (z)  ;; local
///       (+ x y z)
///   )))
/// ```
///
/// Up-values from outer scopes are copied down into inner scopes,
/// their cells shared so "closing" will reflect in all, effectively
/// *flattening* the closures.
#[derive(Debug, Clone, Copy, PartialEq, Eq, Structural)]
pub enum UpValueOrigin {
    /// UpValue is located in parent's local variables.
    Parent(u32),
    /// UpValue is located in parent's up-value list.
    Outer(u32),
}

/// A callable instance of a function, with the cells of the outer variables
/// it captured: one per entry of the prototype's up-value table.
#[derive(Debug)]
pub struct Closure {
    /// Shared handle to the function definition.
    pub func: Rc<Func>,
    /// The cells of the captured variables.
    pub up_values: Vec<CellId>,
}

/// The places that a sequence of handles names, in order.
pub open spec fn places(handles: Seq<CellId>) -> Seq<int> {
    Seq::new(handles.len(), |i: int| handles[i] as int)
}

/// A closure as contracts speak of it: its prototype, and the places of
/// its cells in the heap.
#[verifier::ext_equal]
pub struct ClosureView {
    pub func: Func,
    pub up_values: Seq<int>,
}

/// An object as contracts speak of it.
#[verifier::ext_equal]
pub enum ObjectView {
    Closure(ClosureView),
    Func(Func),
    String(Seq<char>),
}

/// An Up-value is a variable that is referenced within a scope, but is not
/// local to that scope.
#[derive(Debug)]
pub enum UpValue {
    /// A local variable is an **open** up-value when it is still within scope
    /// and on the operand stack.
    ///
    /// In this case the up-value holds an absolute *stack offset* pointing to the
    /// local variable.
    Open(usize),
    /// A local variable is a **closed** up-value when the closure escapes its
    /// parent scope. The lifetime of those locals extend beyond their lexical
    /// scope, so the cell owns the value.
    Closed(Value),
}

/// An up-value cell as contracts speak of it.
#[verifier::ext_equal]
pub enum UpValueView {
    Open(int),
    Closed(ValueView),
}

impl View for Closure {
    type V = ClosureView;

    open spec fn view(&self) -> ClosureView {
        ClosureView { func: *self.func, up_values: places(self.up_values@) }
    }
}

impl View for Object {
    type V = ObjectView;

    open spec fn view(&self) -> ObjectView {
        match *self {
            Object::Closure(rc) => ObjectView::Closure(rc@),
            Object::Func(rc) => ObjectView::Func(*rc),
            Object::String(rc) => ObjectView::String(rc@),
        }
    }
}

impl View for UpValue {
    type V = UpValueView;

    open spec fn view(&self) -> UpValueView {
        match *self {
            UpValue::Open(offset) => UpValueView::Open(offset as int),
            UpValue::Closed(value) => UpValueView::Closed(value@),
        }
    }
}

impl Clone for Object {
    fn clone(&self) -> (copy: Self)
        ensures
            copy == *self,
    {
        match self {
            Object::Closure(rc) => Object::Closure(rc.clone()),
            Object::Func(rc) => Object::Func(rc.clone()),
            Object::String(rc) => Object::String(rc.clone()),
        }
    }
}

impl Constants {
    pub fn new(
        ints: Box<[i64]>,
        floats: Box<[Float]>,
        strings: Box<[String]>,
        funcs: Box<[Rc<Func>]>,
    ) -> (constants: Constants)
        ensures
            constants.ints == ints,
            constants.floats == floats,
            constants.strings == strings,
            constants.funcs == funcs,
    {
        Constants { ints, floats, strings, funcs }
    }
}

impl Func {
    pub fn new(
        code: Box<[Op]>,
        stack_size: u32,
        is_varg: bool,
        constants: Constants,
        up_values: Box<[UpValueOrigin]>,
    ) -> (func: Func)
        ensures
            func.code == code,
            func.stack_size == stack_size,
            func.is_varg == is_varg,
            func.constants == constants,
            func.up_values == up_values,
    {
        Func { code, stack_size, is_varg, constants, up_values }
    }
}

impl Closure {
    /// A closure that captures nothing.
    pub fn new(func: Rc<Func>) -> (closure: Closure)
        ensures
            closure@ == (ClosureView { func: *func, up_values: Seq::empty() }),
    {
        let closure = Closure { func, up_values: Vec::new() };
        assert(closure@.up_values =~= Seq::empty());
        closure
    }

    /// A closure over the given cells.
    pub fn with_up_values(func: Rc<Func>, up_values: Vec<CellId>) -> (closure: Closure)
        ensures
            closure@ == (ClosureView { func: *func, up_values: places(up_values@) }),
    {
        Closure { func, up_values }
    }
}

impl UpValue {
    /// Close the up-value, placing the given value into its slot.
    ///
    /// If the up-value is already closed, the existing value will
    /// be overwritten.
    #[inline]
    pub fn close(&mut self, value: Value)
        ensures
            *final(self) == UpValue::Closed(value),
    {
        *self = UpValue::Closed(value);
    }
}

} // verus!
