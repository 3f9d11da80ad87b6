//! The virtual machine: an operand stack, a call stack and a heap of
//! up-value cells, driven one instruction at a time.
//!
//! The machine never computes with rounding arithmetic itself. When an
//! instruction asks for it, the machine takes the operands off the stack
//! and stops with [`Outcome::FloatPending`]; its host computes the result,
//! hands it over with [`Vm::supply_float`] and lets the machine go on.
use crate::errors::{arity_err, indexed_err, outcome, runtime_err, Error, ErrorView, Result};
use crate::float::{Float, FloatOp};
use crate::object::{
    places, CellId, Closure, ClosureView, Func, UpValue, UpValueOrigin, UpValueView,
};
use crate::op::Op;
use crate::text::{slice, slice_str, sliceable};
use crate::value::{Value, ValueView};
use crate::vm::model::{
    capturable, captured, close_all, close_cells, closed, fresh_ids, opened, FloatRequest,
    FloatTest, Frame, IntOp, JumpTest, Machine, Phase, Signal,
};
use std::rc::Rc;
use vstd::prelude::*;
use vstd::string::*;

pub mod laws;
pub mod model;

verus! {

/// The views of a sequence of values, in order.
pub open spec fn values(items: Seq<Value>) -> Seq<ValueView> {
    Seq::new(items.len(), |i: int| items[i]@)
}

/// The views of a sequence of cells, in order.
pub open spec fn cells(items: Seq<UpValue>) -> Seq<UpValueView> {
    Seq::new(items.len(), |i: int| items[i]@)
}

/// The views of a sequence of frames, in order.
pub open spec fn frames(items: Seq<CallFrame>) -> Seq<Frame> {
    Seq::new(items.len(), |i: int| items[i]@)
}

/// An entry of the call stack.
pub struct CallFrame {
    /// Instruction pointer.
    ip: usize,
    /// Stack base where the frame's local variables and temporary value start.
    base: usize,
    /// The number of resulting values the caller expects from the callee.
    results: usize,
    /// The closure being executed by this frame.
    closure: Rc<Closure>,
    /// Function prototype that this frame is executing.
    func: Rc<Func>,
    /// These are the *open* up-values belonging to all closures created in this
    /// call frame that captured local variables belonging to this call frame.
    ///
    /// Before this frame is popped off the call stack, all its captured locals must
    /// be copied into the up-values, and the up-values closed.
    up_values: Vec<CellId>,
}

impl View for CallFrame {
    type V = Frame;

    closed spec fn view(&self) -> Frame {
        Frame {
            ip: self.ip as int,
            base: self.base as int,
            results: self.results as int,
            closure: self.closure@,
            cells: places(self.up_values@),
        }
    }
}

impl CallFrame {
    fn new(closure: Rc<Closure>) -> (frame: Self)
        ensures
            frame@ == Frame::enter(closure@, 0, 0),
            frame.func == closure.func,
    {
        Self {
            ip: 0,
            base: 0,
            results: 0,
            func: closure.func.clone(),
            closure,
            up_values: Vec::new(),
        }
    }
}

/// What a step or a run hands back when it does not fail.
#[derive(Debug)]
pub enum Outcome {
    /// There is more to execute.
    Running,
    /// The outermost frame returned these results, first result first.
    Finished(Vec<Value>),
    /// The machine waits for the result of this operation.
    FloatPending(FloatRequest),
}

impl View for Outcome {
    type V = Signal;

    open spec fn view(&self) -> Signal {
        match *self {
            Outcome::Running => Signal::Running,
            Outcome::Finished(results) => Signal::Finished(values(results@)),
            Outcome::FloatPending(request) => Signal::FloatPending(request),
        }
    }
}

/// What a step or a run reports, as contracts speak of it.
pub open spec fn signal(result: Result<Outcome>) -> core::result::Result<Signal, ErrorView> {
    match result {
        Ok(found) => Ok(found@),
        Err(err) => Err(err@),
    }
}

/// Computes a binary operation on two integers.
fn int_apply(op: IntOp, a: i64, b: i64) -> (value: Value)
    requires
        op.divides() ==> b != 0,
    ensures
        value@ == op.apply(a, b),
{
    match op {
        IntOp::Add => Value::Int(a.wrapping_add(b)),
        IntOp::Sub => Value::Int(a.wrapping_sub(b)),
        IntOp::Mul => Value::Int(a.wrapping_mul(b)),
        IntOp::Div => {
            let q = match a.checked_div(b) {
                Some(q) => q,
                None => i64::MIN,
            };
            Value::Int(q)
        },
        IntOp::Mod => {
            let r = match a.checked_rem(b) {
                Some(r) => r,
                None => 0,
            };
            Value::Int(r)
        },
        IntOp::Ne => Value::from_bool(a != b),
        IntOp::Eq => Value::from_bool(a == b),
        IntOp::Lt => Value::from_bool(a < b),
        IntOp::Le => Value::from_bool(a <= b),
        IntOp::Gt => Value::from_bool(a > b),
        IntOp::Ge => Value::from_bool(a >= b),
    }
}

/// Evaluates a comparison of two numbers.
fn float_test(test: FloatTest, a: Float, b: Float) -> (yes: bool)
    ensures
        yes == test.holds(a, b),
{
    match test {
        FloatTest::Ne => a.is_ne(b),
        FloatTest::Eq => a.is_eq(b),
        FloatTest::Lt => a.is_lt(b),
        FloatTest::Le => a.is_le(b),
        FloatTest::Gt => a.is_gt(b),
        FloatTest::Ge => a.is_ge(b),
    }
}

/// Evaluates the test of a conditional jump.
fn jump_test(test: JumpTest, a: i64) -> (yes: bool)
    ensures
        yes == test.holds(a),
{
    match test {
        JumpTest::Ne => a != 0,
        JumpTest::Eq => a == 0,
        JumpTest::Lt => a < 0,
        JumpTest::Le => a <= 0,
        JumpTest::Ge => a >= 0,
    }
}

/// Whether `x` is among the first `k + 1` of `ids` is whether it is among
/// the first `k` or is the one after them.
proof fn lemma_take_contains(ids: Seq<int>, k: int, x: int)
    requires
        0 <= k < ids.len(),
    ensures
        ids.take(k + 1).contains(x) == (ids.take(k).contains(x) || ids[k] == x),
{
    let shorter = ids.take(k);
    let longer = ids.take(k + 1);
    if shorter.contains(x) {
        let i = choose|i: int| 0 <= i < shorter.len() && #[trigger] shorter[i] == x;
        assert(longer[i] == x);
    }
    if ids[k] == x {
        assert(longer[k] == x);
    }
    if longer.contains(x) {
        let i = choose|i: int| 0 <= i < longer.len() && #[trigger] longer[i] == x;
        if i < k {
            assert(shorter[i] == x);
        }
    }
}

/// The part of `text` whose UTF-8 form is the bytes from `start` up to
/// `end` of the form of `text`, where there is one.
fn slice_text(text: &str, start: i64, end: i64) -> (part: Option<String>)
    ensures
        part is Some == sliceable(text@, start as int, end as int),
        part matches Some(found) ==> found@ == slice(text@, start as int, end as int),
{
    if start < 0 || end < 0 {
        return None;
    }
    let len = text.as_bytes().len();
    if start as u64 > len as u64 || end as u64 > len as u64 {
        return None;
    }
    match slice_str(text, start as usize, end as usize) {
        Some(part) => Some(String::from_str(part)),
        None => None,
    }
}

pub struct Vm {
    /// Operand stack.
    stack: Vec<Value>,
    /// Callstack; the last frame is the one that runs.
    calls: Vec<CallFrame>,
    /// Heap of up-value cells.
    cells: Vec<UpValue>,
    phase: Phase,
}

impl View for Vm {
    type V = Machine;

    closed spec fn view(&self) -> Machine {
        Machine {
            stack: values(self.stack@),
            frames: frames(self.calls@),
            cells: cells(self.cells@),
            phase: self.phase,
        }
    }
}

impl Vm {
    /// Whether the machine is in a state that its own operations can reach.
    pub closed spec fn wf(&self) -> bool {
        &&& self@.wf()
        &&& forall|i: int|
            0 <= i < self.calls@.len() ==> (#[trigger] self.calls@[i]).func
                == self.calls@[i].closure.func
    }

    pub fn new() -> (vm: Self)
        ensures
            vm.wf(),
            vm@ == Machine::idle(),
    {
        let vm = Self { stack: Vec::new(), calls: Vec::new(), cells: Vec::new(), phase: Phase::Halted };
        assert(vm@ =~~= Machine::idle());
        vm
    }

    /// The operand stack as the last step left it.
    pub fn stack(&self) -> (stack: &Vec<Value>)
        ensures
            values(stack@) == self@.stack,
    {
        &self.stack
    }

    /// The heap of up-value cells as the last step left it.
    pub fn cells(&self) -> (heap: &Vec<UpValue>)
        ensures
            cells(heap@) == self@.cells,
    {
        &self.cells
    }

    /// What the machine is doing.
    pub fn phase(&self) -> (phase: Phase)
        ensures
            phase == self@.phase,
    {
        self.phase
    }

    /// How many calls are under way.
    pub fn depth(&self) -> (depth: usize)
        ensures
            depth == self@.frames.len(),
    {
        self.calls.len()
    }

    /// Whether every frame's cached prototype is that of its closure.
    closed spec fn cached(&self) -> bool {
        forall|i: int|
            0 <= i < self.calls@.len() ==> (#[trigger] self.calls@[i]).func
                == self.calls@[i].closure.func
    }

    /// Whether the machine is about to execute an instruction.
    closed spec fn live(&self) -> bool {
        &&& self@.wf()
        &&& self.cached()
        &&& self.phase is Running
    }

    /// The base of the running frame.
    fn base(&self) -> (base: usize)
        requires
            self.live(),
        ensures
            base == self@.frame().base,
            base <= self.stack@.len(),
            self.stack@.len() - base == self@.depth(),
    {
        let n = self.calls.len();
        assert(self@.frames[n - 1].wf(self@.stack.len() as int, self@.cells.len() as int));
        self.calls[n - 1].base
    }

    fn op_pop(&mut self, n: usize) -> (result: Result<Outcome>)
        requires
            old(self).live(),
        ensures
            (final(self)@, signal(result)) == old(self)@.pop(n as int),
            final(self).cached(),
    {
        let base = self.base();
        let len = self.stack.len();
        if n > len - base {
            return self.fail(runtime_err("stack underflow"));
        }
        self.stack.truncate(len - n);
        assert(self@ =~~= old(self)@.drop_top(n as int));
        Ok(Outcome::Running)
    }

    fn op_set_local(&mut self, slot: u16) -> (result: Result<Outcome>)
        requires
            old(self).live(),
        ensures
            (final(self)@, signal(result)) == old(self)@.set_local(slot as int),
            final(self).cached(),
    {
        let base = self.base();
        let len = self.stack.len();
        if len - base < 1 {
            return self.fail(runtime_err("stack underflow"));
        }
        if slot as usize >= len - base {
            return self.fail(runtime_err("local slot out of range"));
        }
        let value = self.stack[len - 1].clone();
        self.stack[base + slot as usize] = value;
        assert(self@ =~~= old(self)@.with_stack(
            old(self)@.stack.update(old(self)@.frame().base + slot, old(self)@.top(0)),
        ));
        Ok(Outcome::Running)
    }

    fn op_get_local(&mut self, slot: u16) -> (result: Result<Outcome>)
        requires
            old(self).live(),
        ensures
            (final(self)@, signal(result)) == old(self)@.get_local(slot as int),
            final(self).cached(),
    {
        let base = self.base();
        let len = self.stack.len();
        if slot as usize >= len - base {
            return self.fail(runtime_err("local slot out of range"));
        }
        let value = self.stack[base + slot as usize].clone();
        self.push_value(value)
    }

    /// Pushes a value and goes on.
    fn push_value(&mut self, value: Value) -> (result: Result<Outcome>)
        requires
            old(self).cached(),
        ensures
            (final(self)@, signal(result)) == old(self)@.push(value@).go(),
            final(self).cached(),
    {
        self.stack.push(value);
        assert(self@ =~~= old(self)@.push(value@));
        Ok(Outcome::Running)
    }

    fn op_get_up_value(&mut self, index: u16) -> (result: Result<Outcome>)
        requires
            old(self).live(),
        ensures
            (final(self)@, signal(result)) == old(self)@.get_up_value(index as int),
            final(self).cached(),
    {
        let n = self.calls.len();
        assert(self@.frames[n - 1].wf(self@.stack.len() as int, self@.cells.len() as int));
        if index as usize >= self.calls[n - 1].closure.up_values.len() {
            return self.fail(runtime_err("up-value not found"));
        }
        let id = self.calls[n - 1].closure.up_values[index as usize];
        assert(self@.frame().closure.up_values[index as int] == id);
        let found = match &self.cells[id] {
            UpValue::Open(offset) => {
                if *offset < self.stack.len() {
                    Some(self.stack[*offset].clone())
                } else {
                    None
                }
            },
            UpValue::Closed(value) => Some(value.clone()),
        };
        match found {
            Some(value) => self.push_value(value),
            None => self.fail(runtime_err("up-value not found")),
        }
    }

    fn op_set_up_value(&mut self, index: u16) -> (result: Result<Outcome>)
        requires
            old(self).live(),
        ensures
            (final(self)@, signal(result)) == old(self)@.set_up_value(index as int),
            final(self).cached(),
    {
        let base = self.base();
        let len = self.stack.len();
        let n = self.calls.len();
        assert(self@.frames[n - 1].wf(self@.stack.len() as int, self@.cells.len() as int));
        if len - base < 1 {
            return self.fail(runtime_err("stack underflow"));
        }
        if index as usize >= self.calls[n - 1].closure.up_values.len() {
            return self.fail(runtime_err("up-value not found"));
        }
        let id = self.calls[n - 1].closure.up_values[index as usize];
        assert(self@.frame().closure.up_values[index as int] == id);
        let target = match &self.cells[id] {
            UpValue::Open(offset) => Some(*offset),
            UpValue::Closed(_) => None,
        };
        match target {
            Some(offset) => {
                if offset < len - 1 {
                    let value = self.stack[len - 1].clone();
                    self.stack.truncate(len - 1);
                    self.stack[offset] = value;
                    assert(self@ =~~= old(self)@.drop_top(1).with_stack(
                        old(self)@.drop_top(1).stack.update(offset as int, old(self)@.top(0)),
                    ));
                    Ok(Outcome::Running)
                } else {
                    self.fail(runtime_err("up-value not found"))
                }
            },
            None => {
                let value = self.stack[len - 1].clone();
                self.stack.truncate(len - 1);
                self.cells[id] = UpValue::Closed(value);
                assert(self@ =~~= (Machine {
                    cells: old(self)@.cells.update(id as int, UpValueView::Closed(old(self)@.top(0))),
                    ..old(self)@.drop_top(1)
                }));
                Ok(Outcome::Running)
            },
        }
    }

    fn op_push_int(&mut self, index: usize) -> (result: Result<Outcome>)
        requires
            old(self).live(),
        ensures
            (final(self)@, signal(result)) == old(self)@.push_int(index as int),
            final(self).cached(),
    {
        let n = self.calls.len();
        if index >= self.calls[n - 1].func.constants.ints.len() {
            return self.fail(indexed_err("no integer constant defined: ", index as u64));
        }
        let value = Value::Int(self.calls[n - 1].func.constants.ints[index]);
        self.push_value(value)
    }

    fn op_push_float(&mut self, index: usize) -> (result: Result<Outcome>)
        requires
            old(self).live(),
        ensures
            (final(self)@, signal(result)) == old(self)@.push_float(index as int),
            final(self).cached(),
    {
        let n = self.calls.len();
        if index >= self.calls[n - 1].func.constants.floats.len() {
            return self.fail(indexed_err("no float constant defined: ", index as u64));
        }
        let value = Value::Float(self.calls[n - 1].func.constants.floats[index]);
        self.push_value(value)
    }

    fn op_push_string(&mut self, index: usize) -> (result: Result<Outcome>)
        requires
            old(self).live(),
        ensures
            (final(self)@, signal(result)) == old(self)@.push_string(index as int),
            final(self).cached(),
    {
        let n = self.calls.len();
        if index >= self.calls[n - 1].func.constants.strings.len() {
            return self.fail(indexed_err("no string constant defined: ", index as u64));
        }
        let text = self.calls[n - 1].func.constants.strings[index].clone();
        self.push_value(Value::from_string(Rc::new(text)))
    }

    fn op_push_func(&mut self, index: usize) -> (result: Result<Outcome>)
        requires
            old(self).live(),
        ensures
            (final(self)@, signal(result)) == old(self)@.push_func(index as int),
            final(self).cached(),
    {
        let n = self.calls.len();
        if index >= self.calls[n - 1].func.constants.funcs.len() {
            return self.fail(indexed_err("no function found at constant ", index as u64));
        }
        let func = self.calls[n - 1].func.constants.funcs[index].clone();
        self.push_value(Value::from_func(func))
    }

    /// Replaces the top `n` values by `value` and goes on.
    fn replace_top(&mut self, n: usize, value: Value) -> (result: Result<Outcome>)
        requires
            old(self).cached(),
            n <= old(self).stack@.len(),
        ensures
            (final(self)@, signal(result)) == old(self)@.drop_top(n as int).push(value@).go(),
            final(self).cached(),
    {
        let len = self.stack.len();
        self.stack.truncate(len - n);
        self.stack.push(value);
        assert(self@ =~~= old(self)@.drop_top(n as int).push(value@));
        Ok(Outcome::Running)
    }

    fn op_int_neg(&mut self) -> (result: Result<Outcome>)
        requires
            old(self).live(),
        ensures
            (final(self)@, signal(result)) == old(self)@.int_neg(),
            final(self).cached(),
    {
        let base = self.base();
        let len = self.stack.len();
        if len - base < 1 {
            return self.fail(runtime_err("stack underflow"));
        }
        match self.stack[len - 1].as_int() {
            Some(a) => {
                let negated = (0i64).wrapping_sub(a);
                self.replace_top(1, Value::Int(negated))
            },
            None => self.fail(runtime_err("integer value expected")),
        }
    }

    fn op_int_binary(&mut self, op: IntOp) -> (result: Result<Outcome>)
        requires
            old(self).live(),
        ensures
            (final(self)@, signal(result)) == old(self)@.int_binary(op),
            final(self).cached(),
    {
        let base = self.base();
        let len = self.stack.len();
        if len - base < 2 {
            return self.fail(runtime_err("stack underflow"));
        }
        match (self.stack[len - 2].as_int(), self.stack[len - 1].as_int()) {
            (Some(a), Some(b)) => {
                let divides = match op {
                    IntOp::Div => true,
                    IntOp::Mod => true,
                    _ => false,
                };
                if divides && b == 0 {
                    self.fail(runtime_err("integer divide by zero"))
                } else {
                    self.replace_top(2, int_apply(op, a, b))
                }
            },
            _ => self.fail(runtime_err("integer value expected")),
        }
    }

    fn op_float_neg(&mut self) -> (result: Result<Outcome>)
        requires
            old(self).live(),
        ensures
            (final(self)@, signal(result)) == old(self)@.float_neg(),
            final(self).cached(),
    {
        let base = self.base();
        let len = self.stack.len();
        if len - base < 1 {
            return self.fail(runtime_err("stack underflow"));
        }
        match self.stack[len - 1].as_float() {
            Some(a) => self.replace_top(1, Value::Float(a.neg())),
            None => self.fail(runtime_err("float value expected")),
        }
    }

    fn op_float_binary(&mut self, op: FloatOp) -> (result: Result<Outcome>)
        requires
            old(self).live(),
        ensures
            (final(self)@, signal(result)) == old(self)@.float_binary(op),
            final(self).cached(),
    {
        let base = self.base();
        let len = self.stack.len();
        if len - base < 2 {
            return self.fail(runtime_err("stack underflow"));
        }
        match (self.stack[len - 2].as_float(), self.stack[len - 1].as_float()) {
            (Some(lhs), Some(rhs)) => {
                let request = FloatRequest { op, lhs, rhs };
                self.stack.truncate(len - 2);
                self.phase = Phase::AwaitingFloat(request);
                assert(self@ =~~= (Machine {
                    phase: Phase::AwaitingFloat(request),
                    ..old(self)@.drop_top(2)
                }));
                Ok(Outcome::FloatPending(request))
            },
            _ => self.fail(runtime_err("float value expected")),
        }
    }

    fn op_float_compare(&mut self, test: FloatTest) -> (result: Result<Outcome>)
        requires
            old(self).live(),
        ensures
            (final(self)@, signal(result)) == old(self)@.float_compare(test),
            final(self).cached(),
    {
        let base = self.base();
        let len = self.stack.len();
        if len - base < 2 {
            return self.fail(runtime_err("stack underflow"));
        }
        match (self.stack[len - 2].as_float(), self.stack[len - 1].as_float()) {
            (Some(a), Some(b)) => self.replace_top(2, Value::from_bool(float_test(test, a, b))),
            _ => self.fail(runtime_err("float value expected")),
        }
    }

    /// Where a jump by `offset` lands, if that is inside the code or just past it.
    fn jump_target(&self, offset: i64) -> (target: Option<usize>)
        requires
            self.live(),
            -0x80_0000 <= offset < 0x80_0000,
        ensures
            match target {
                Some(at) => at == self@.frame().ip + offset && at <= self@.frame().code().len(),
                None => self@.frame().ip + offset < 0 || self@.frame().ip + offset
                    > self@.frame().code().len(),
            },
    {
        let n = self.calls.len();
        let ip = self.calls[n - 1].ip;
        let len = self.calls[n - 1].func.code.len();
        if offset >= 0 {
            let forward = offset as usize;
            if ip <= len && forward <= len - ip {
                Some(ip + forward)
            } else {
                None
            }
        } else {
            let back = (-offset) as usize;
            if back <= ip && ip - back <= len {
                Some(ip - back)
            } else {
                None
            }
        }
    }

    /// Moves the instruction pointer of the running frame to `target`.
    fn set_ip(&mut self, target: usize)
        requires
            old(self).live(),
        ensures
            final(self)@ == old(self)@.with_frame(Frame { ip: target as int, ..old(self)@.frame() }),
            final(self).cached(),
            final(self).stack == old(self).stack,
            final(self).phase == old(self).phase,
    {
        let n = self.calls.len();
        self.calls[n - 1].ip = target;
        assert(self@ =~~= old(self)@.with_frame(Frame { ip: target as int, ..old(self)@.frame() }));
    }

    fn op_jump(&mut self, offset: i64) -> (result: Result<Outcome>)
        requires
            old(self).live(),
            -0x80_0000 <= offset < 0x80_0000,
        ensures
            (final(self)@, signal(result)) == old(self)@.jump(offset as int),
            final(self).cached(),
    {
        match self.jump_target(offset) {
            Some(target) => {
                self.set_ip(target);
                Ok(Outcome::Running)
            },
            None => self.fail(runtime_err("instruction pointer out of bytecode bounds")),
        }
    }

    /// Takes `n` values off the stack and, if `taken`, jumps by `offset`.
    fn branch(&mut self, n: usize, taken: bool, offset: i64) -> (result: Result<Outcome>)
        requires
            old(self).live(),
            n <= old(self).stack@.len() - old(self)@.frame().base,
            -0x80_0000 <= offset < 0x80_0000,
        ensures
            (final(self)@, signal(result)) == (if taken {
                let (next, signal) = old(self)@.jump(offset as int);
                if signal is Err {
                    (next, signal)
                } else {
                    next.drop_top(n as int).go()
                }
            } else {
                old(self)@.drop_top(n as int).go()
            }),
            final(self).cached(),
    {
        let len = self.stack.len();
        if taken {
            match self.jump_target(offset) {
                Some(target) => {
                    self.set_ip(target);
                    self.stack.truncate(len - n);
                    assert(self@ =~~= old(self)@.jump(offset as int).0.drop_top(n as int));
                    Ok(Outcome::Running)
                },
                None => self.fail(runtime_err("instruction pointer out of bytecode bounds")),
            }
        } else {
            self.stack.truncate(len - n);
            assert(self@ =~~= old(self)@.drop_top(n as int));
            Ok(Outcome::Running)
        }
    }

    fn op_jump_if(&mut self, test: JumpTest, offset: i64) -> (result: Result<Outcome>)
        requires
            old(self).live(),
            -0x80_0000 <= offset < 0x80_0000,
        ensures
            (final(self)@, signal(result)) == old(self)@.jump_if(test, offset as int),
            final(self).cached(),
    {
        let base = self.base();
        let len = self.stack.len();
        if len - base < 1 {
            return self.fail(runtime_err("stack underflow"));
        }
        match self.stack[len - 1].as_int() {
            Some(a) => self.branch(1, jump_test(test, a), offset),
            None => self.fail(runtime_err("integer value expected")),
        }
    }

    fn op_jump_if_greater(&mut self, offset: i64) -> (result: Result<Outcome>)
        requires
            old(self).live(),
            -0x80_0000 <= offset < 0x80_0000,
        ensures
            (final(self)@, signal(result)) == old(self)@.jump_if_greater(offset as int),
            final(self).cached(),
    {
        let base = self.base();
        let len = self.stack.len();
        if len - base < 2 {
            return self.fail(runtime_err("stack underflow"));
        }
        match (self.stack[len - 2].as_int(), self.stack[len - 1].as_int()) {
            (Some(a), Some(b)) => self.branch(2, a > b, offset),
            _ => self.fail(runtime_err("integer value expected")),
        }
    }

    fn op_call(&mut self, base: u16, results: u8) -> (result: Result<Outcome>)
        requires
            old(self).live(),
        ensures
            (final(self)@, signal(result)) == old(self)@.call(base as int, results as int),
            final(self).cached(),
    {
        let frame_base = self.base();
        let len = self.stack.len();
        if base as usize >= len - frame_base {
            return self.fail(runtime_err("closure value expected"));
        }
        let at = frame_base + base as usize;
        let callee = match self.stack[at].as_closure() {
            Some(rc) => Some(rc.clone()),
            None => None,
        };
        match callee {
            Some(closure) => {
                let frame = CallFrame {
                    ip: 0,
                    base: at,
                    results: results as usize,
                    func: closure.func.clone(),
                    closure,
                    up_values: Vec::new(),
                };
                self.calls.push(frame);
                assert(self@ =~~= (Machine {
                    frames: old(self)@.frames.push(
                        Frame::enter(frame.closure@, at as int, results as int),
                    ),
                    ..old(self)@
                }));
                Ok(Outcome::Running)
            },
            None => self.fail(runtime_err("closure value expected")),
        }
    }

    /// Closes the cells that the running frame opened.
    fn close_frame_cells(&mut self)
        requires
            old(self).live(),
        ensures
            final(self)@ == (Machine {
                cells: close_cells(old(self)@.cells, old(self)@.frame().cells, old(self)@.stack),
                ..old(self)@
            }),
            final(self).calls == old(self).calls,
            final(self).stack == old(self).stack,
            final(self).phase == old(self).phase,
    {
        let n = self.calls.len();
        let ghost before = self.cells@;
        let ghost ids = places(self.calls@[n - 1].up_values@);
        assert(self@.frames[n - 1].wf(self@.stack.len() as int, self@.cells.len() as int));
        let count = self.calls[n - 1].up_values.len();
        let heap = self.cells.len();
        let mut k: usize = 0;
        while k < count
            invariant
                k <= count,
                heap == before.len(),
                n == self.calls@.len(),
                n > 0,
                count == ids.len(),
                ids == places(self.calls@[n - 1].up_values@),
                forall|i: int| 0 <= i < ids.len() ==> 0 <= #[trigger] ids[i] < before.len(),
                self.cells@.len() == before.len(),
                self.stack == old(self).stack,
                self.calls == old(self).calls,
                self.phase == old(self).phase,
                forall|j: int|
                    0 <= j < before.len() ==> (#[trigger] self.cells@[j])@ == (if ids.take(
                        k as int,
                    ).contains(j) {
                        closed(before[j]@, values(self.stack@))
                    } else {
                        before[j]@
                    }),
            decreases count - k,
        {
            let id = self.calls[n - 1].up_values[k];
            assert(ids[k as int] == id);
            let ghost current = self.cells@;
            let target = match &self.cells[id] {
                UpValue::Open(offset) => Some(*offset),
                UpValue::Closed(_) => None,
            };
            if let Some(offset) = target {
                let value = if offset < self.stack.len() {
                    self.stack[offset].clone()
                } else {
                    Value::Int(0)
                };
                self.cells[id] = UpValue::Closed(value);
            }
            assert forall|j: int| 0 <= j < before.len() implies (#[trigger] self.cells@[j])@ == (
            if ids.take(k + 1).contains(j) {
                closed(before[j]@, values(self.stack@))
            } else {
                before[j]@
            }) by {
                lemma_take_contains(ids, k as int, j);
                assert(current[j]@ == (if ids.take(k as int).contains(j) {
                    closed(before[j]@, values(self.stack@))
                } else {
                    before[j]@
                }));
                if j == id as int {
                    assert(self.cells@[j]@ == closed(current[j]@, values(self.stack@)));
                } else {
                    assert(self.cells@[j] == current[j]);
                }
            }
            k += 1;
        }
        assert(ids.take(count as int) =~= ids);
        assert(self@.cells =~~= close_cells(
            old(self)@.cells,
            old(self)@.frame().cells,
            old(self)@.stack,
        ));
        assert(self@ =~~= (Machine {
            cells: close_cells(old(self)@.cells, old(self)@.frame().cells, old(self)@.stack),
            ..old(self)@
        }));
    }

    /// Moves the first `kept` of the top `count` values down to where the
    /// running frame begins, and drops everything above them.
    fn hand_down(&mut self, base: usize, count: usize, kept: usize)
        requires
            kept <= count,
            base + count <= old(self).stack@.len(),
        ensures
            final(self).stack@ == old(self).stack@.take(base as int) + old(self).stack@.subrange(
                old(self).stack@.len() - count,
                old(self).stack@.len() - count + kept,
            ),
            final(self).calls == old(self).calls,
            final(self).cells == old(self).cells,
            final(self).phase == old(self).phase,
    {
        let len = self.stack.len();
        let from = len - count;
        let mut i: usize = 0;
        while i < kept
            invariant
                i <= kept <= count,
                base + count <= len,
                from == len - count,
                self.stack@.len() == len,
                len == old(self).stack@.len(),
                self.calls == old(self).calls,
                self.cells == old(self).cells,
                self.phase == old(self).phase,
                forall|j: int|
                    base <= j < base + i ==> #[trigger] self.stack@[j] == old(self).stack@[j - base
                        + from],
                forall|j: int|
                    0 <= j < len && !(base <= j < base + i) ==> #[trigger] self.stack@[j] == old(
                        self,
                    ).stack@[j],
            decreases kept - i,
        {
            let value = self.stack[from + i].clone();
            self.stack[base + i] = value;
            i += 1;
        }
        self.stack.truncate(base + kept);
        assert(self.stack@ =~= old(self).stack@.take(base as int) + old(self).stack@.subrange(
            len - count,
            len - count + kept,
        ));
    }

    fn op_leave(&mut self, count: u8) -> (result: Result<Outcome>)
        requires
            old(self).live(),
        ensures
            (final(self)@, signal(result)) == old(self)@.leave(count as int),
            final(self).cached(),
    {
        let base = self.base();
        let len = self.stack.len();
        if count as usize > len - base {
            return self.fail(runtime_err("stack underflow"));
        }
        self.close_frame_cells();
        let n = self.calls.len();
        let expected = self.calls[n - 1].results;
        let ghost cells = self@.cells;
        if n == 1 {
            let results = self.stack.split_off(len - count as usize);
            self.stack.clear();
            self.calls.clear();
            self.phase = Phase::Halted;
            assert(self@ =~~= (Machine {
                stack: Seq::empty(),
                frames: Seq::empty(),
                cells,
                phase: Phase::Halted,
            }));
            assert(values(results@) =~~= old(self)@.stack.subrange(len - count, len as int));
            Ok(Outcome::Finished(results))
        } else if expected > count as usize {
            self.close_every_cell();
            self.calls.clear();
            self.phase = Phase::Halted;
            self.stack.truncate(base);
            assert(self@ =~~= (Machine {
                stack: old(self)@.stack.take(base as int),
                frames: Seq::empty(),
                cells: close_all(cells, old(self)@.stack),
                phase: Phase::Halted,
            }));
            Err(arity_err(expected as u64, count as u64))
        } else {
            self.hand_down(base, count as usize, expected);
            self.calls.pop();
            assert(self@ =~~= (Machine {
                stack: old(self)@.stack.take(base as int) + old(self)@.stack.subrange(
                    len - count,
                    len - count + expected,
                ),
                frames: old(self)@.frames.drop_last(),
                cells,
                phase: old(self)@.phase,
            }));
            Ok(Outcome::Running)
        }
    }

    /// Whether the running frame can make every capture that `func` asks for.
    fn can_capture(&self, func: &Rc<Func>) -> (ok: bool)
        requires
            self.live(),
        ensures
            ok == capturable(
                func.up_values@,
                self@.frame().base,
                self@.frame().closure.up_values,
            ),
    {
        let n = self.calls.len();
        let base = self.calls[n - 1].base;
        let outer = self.calls[n - 1].closure.up_values.len();
        let count = func.up_values.len();
        let mut k: usize = 0;
        while k < count
            invariant
                k <= count,
                count == func.up_values@.len(),
                base == self@.frame().base,
                outer == self@.frame().closure.up_values.len(),
                forall|j: int|
                    0 <= j < k ==> match #[trigger] func.up_values@[j] {
                        UpValueOrigin::Parent(local) => base + local <= usize::MAX,
                        UpValueOrigin::Outer(up) => up < outer,
                    },
            decreases count - k,
        {
            let fits = match func.up_values[k] {
                UpValueOrigin::Parent(local) => local as usize <= usize::MAX - base,
                UpValueOrigin::Outer(up) => (up as usize) < outer,
            };
            if !fits {
                assert(!(match func.up_values@[k as int] {
                    UpValueOrigin::Parent(local) => base + local <= usize::MAX,
                    UpValueOrigin::Outer(up) => up < outer,
                }));
                return false;
            }
            k += 1;
        }
        true
    }

    fn op_create_closure(&mut self, index: usize) -> (result: Result<Outcome>)
        requires
            old(self).live(),
        ensures
            (final(self)@, signal(result)) == old(self)@.create_closure(index as int),
            final(self).cached(),
    {
        let n = self.calls.len();
        if index >= self.calls[n - 1].func.constants.funcs.len() {
            return self.fail(runtime_err("constant not found"));
        }
        let func = self.calls[n - 1].func.constants.funcs[index].clone();
        if !self.can_capture(&func) {
            return self.fail(runtime_err("up-value not found"));
        }
        let base = self.calls[n - 1].base;
        let heap = self.cells.len();
        let count = func.up_values.len();
        let ghost origins = func.up_values@;
        let ghost outer = self@.frame().closure.up_values;
        let ghost frame = self@.frame();
        let mut ids: Vec<CellId> = Vec::new();
        let mut k: usize = 0;
        while k < count
            invariant
                k <= count,
                count == origins.len(),
                origins == func.up_values@,
                n == self.calls@.len(),
                n > 0,
                n == old(self).calls@.len(),
                capturable(origins, base as int, outer),
                outer == places(self.calls@[n - 1].closure.up_values@),
                frame == old(self)@.frame(),
                base == frame.base,
                heap == old(self).cells@.len(),
                self.stack == old(self).stack,
                self.phase == old(self).phase,
                self.cached(),
                forall|i: int| 0 <= i < n - 1 ==> #[trigger] self.calls@[i] == old(self).calls@[i],
                self.calls@[n - 1]@ == (Frame {
                    cells: frame.cells + fresh_ids(
                        heap as int,
                        opened(origins, k as int, base as int).len() as int,
                    ),
                    ..frame
                }),
                cells(self.cells@) == cells(old(self).cells@) + opened(origins, k as int, base as int),
                places(ids@) == captured(origins, k as int, base as int, outer, heap as int),
            decreases count - k,
        {
            let ghost grown = opened(origins, k as int, base as int);
            match func.up_values[k] {
                UpValueOrigin::Parent(local) => {
                    let id = self.cells.len();
                    assert(cells(self.cells@).len() == id);
                    assert((cells(old(self).cells@) + grown).len() == heap + grown.len());
                    assert(origins[k as int] == UpValueOrigin::Parent(local));
                    assert(opened(origins, k + 1, base as int) == grown.push(
                        UpValueView::Open(base + local),
                    ));
                    let ghost pre = self.cells@;
                    self.cells.push(UpValue::Open(base + local as usize));
                    ids.push(id);
                    self.calls[n - 1].up_values.push(id);
                    assert(cells(self.cells@) =~~= cells(pre).push(UpValueView::Open(base + local)));
                    assert(cells(self.cells@) =~~= cells(old(self).cells@) + grown.push(
                        UpValueView::Open(base + local),
                    ));
                    assert(frame.cells + fresh_ids(heap as int, grown.len() as int + 1) =~= (frame.cells
                        + fresh_ids(heap as int, grown.len() as int)).push(id as int));
                },
                UpValueOrigin::Outer(up) => {
                    ids.push(self.calls[n - 1].closure.up_values[up as usize]);
                },
            }
            k += 1;
        }
        let closure = Closure::with_up_values(func, ids);
        self.stack.push(Value::from_closure(Rc::new(closure)));
        assert(self@ =~~= old(self)@.create_closure(index as int).0);
        Ok(Outcome::Running)
    }

    fn op_str_concat(&mut self) -> (result: Result<Outcome>)
        requires
            old(self).live(),
        ensures
            (final(self)@, signal(result)) == old(self)@.str_concat(),
            final(self).cached(),
    {
        let base = self.base();
        let len = self.stack.len();
        if len - base < 2 {
            return self.fail(runtime_err("stack underflow"));
        }
        let joined = match (self.stack[len - 2].as_string(), self.stack[len - 1].as_string()) {
            (Some(a), Some(b)) => Some(String::from_str(a.as_str()).concat(b.as_str())),
            _ => None,
        };
        match joined {
            Some(text) => self.replace_top(2, Value::from_string(Rc::new(text))),
            None => self.fail(runtime_err("string value expected")),
        }
    }

    fn op_str_slice(&mut self) -> (result: Result<Outcome>)
        requires
            old(self).live(),
        ensures
            (final(self)@, signal(result)) == old(self)@.str_slice(),
            final(self).cached(),
    {
        let base = self.base();
        let len = self.stack.len();
        if len - base < 3 {
            return self.fail(runtime_err("stack underflow"));
        }
        let text = match self.stack[len - 3].as_string() {
            Some(rc) => rc.clone(),
            None => {
                return self.fail(runtime_err("string value expected"));
            },
        };
        match (self.stack[len - 2].as_int(), self.stack[len - 1].as_int()) {
            (Some(start), Some(end)) => {
                match slice_text(text.as_str(), start, end) {
                    Some(part) => self.replace_top(3, Value::from_string(Rc::new(part))),
                    None => self.fail(runtime_err("string index out of range")),
                }
            },
            _ => self.fail(runtime_err("integer value expected")),
        }
    }

    /// Loads `func`: whatever the machine held is dropped, a closure of
    /// `func` that captures nothing is put in slot 0 of the stack, and the
    /// machine is about to execute its first instruction.
    pub fn start(&mut self, func: Rc<Func>)
        ensures
            final(self).wf(),
            final(self)@ == Machine::loaded(ClosureView { func: *func, up_values: Seq::empty() }),
    {
        // All callables are wrapped in closures to simplify the VM loop.
        let closure = Rc::new(Closure::new(func));
        let frame = CallFrame::new(closure.clone());
        self.stack.clear();
        self.calls.clear();
        self.cells.clear();
        self.stack.push(Value::from_closure(closure));
        self.calls.push(frame);
        self.phase = Phase::Running;
        assert(self@ =~~= Machine::loaded(ClosureView { func: *func, up_values: Seq::empty() }));
        assert(self@.frames[0].wf(1, 0));
    }

    /// Executes one instruction.
    pub fn step(&mut self) -> (result: Result<Outcome>)
        requires
            old(self).wf(),
        ensures
            final(self).wf(),
            (final(self)@, signal(result)) == old(self)@.step(),
    {
        proof {
            old(self)@.lemma_step_keeps_order();
        }
        match self.phase {
            Phase::Halted => {
                return Err(runtime_err("machine is not running"));
            },
            Phase::AwaitingFloat(request) => {
                return Ok(Outcome::FloatPending(request));
            },
            Phase::Running => {},
        }
        let n = self.calls.len();
        assert(self@.frames[n - 1].wf(self@.stack.len() as int, self@.cells.len() as int));
        let ip = self.calls[n - 1].ip;
        if ip >= self.calls[n - 1].func.code.len() {
            return self.fail(runtime_err("instruction pointer out of bytecode bounds"));
        }
        let op = self.calls[n - 1].func.code[ip];
        self.set_ip(ip + 1);
        proof {
            old(self)@.lemma_advance(ip + 1);
        }
        match op {
            Op::NoOp => Ok(Outcome::Running),
            Op::Pop(n) => self.op_pop(n.into_usize()),
            Op::End => self.op_leave(0),
            Op::Return { results } => self.op_leave(results),
            Op::Call { base, results } => self.op_call(base, results),
            Op::Load { .. } => self.fail(runtime_err("unsupported instruction")),
            Op::Store { .. } => self.fail(runtime_err("unsupported instruction")),
            Op::SetLocal { slot } => self.op_set_local(slot),
            Op::GetLocal { slot } => self.op_get_local(slot),
            Op::SetUpValue { upvalue_id } => self.op_set_up_value(upvalue_id),
            Op::GetUpValue { upvalue_id } => self.op_get_up_value(upvalue_id),
            Op::SetGlobal { .. } => self.fail(runtime_err("unsupported instruction")),
            Op::GetGlobal { .. } => self.fail(runtime_err("unsupported instruction")),
            Op::PushIntIn(value) => self.push_value(Value::Int(value.into_i64())),
            Op::PushInt(index) => self.op_push_int(index.into_usize()),
            Op::PushFloat(index) => self.op_push_float(index.into_usize()),
            Op::PushString(index) => self.op_push_string(index.into_usize()),
            Op::PushFunc(index) => self.op_push_func(index.into_usize()),
            Op::CaptureValue { .. } => self.fail(runtime_err("unsupported instruction")),
            Op::CreateClosure { func_id } => self.op_create_closure(func_id.into_usize()),
            Op::Int_Neg => self.op_int_neg(),
            Op::Int_Add => self.op_int_binary(IntOp::Add),
            Op::Int_Sub => self.op_int_binary(IntOp::Sub),
            Op::Int_Mul => self.op_int_binary(IntOp::Mul),
            Op::Int_Div => self.op_int_binary(IntOp::Div),
            Op::Int_Mod => self.op_int_binary(IntOp::Mod),
            Op::Int_Ne => self.op_int_binary(IntOp::Ne),
            Op::Int_Eq => self.op_int_binary(IntOp::Eq),
            Op::Int_Lt => self.op_int_binary(IntOp::Lt),
            Op::Int_Le => self.op_int_binary(IntOp::Le),
            Op::Int_Gt => self.op_int_binary(IntOp::Gt),
            Op::Int_Ge => self.op_int_binary(IntOp::Ge),
            Op::Float_Neg => self.op_float_neg(),
            Op::Float_Add => self.op_float_binary(FloatOp::Add),
            Op::Float_Sub => self.op_float_binary(FloatOp::Sub),
            Op::Float_Mul => self.op_float_binary(FloatOp::Mul),
            Op::Float_Div => self.op_float_binary(FloatOp::Div),
            Op::Float_Mod => self.op_float_binary(FloatOp::Mod),
            Op::Float_Ne => self.op_float_compare(FloatTest::Ne),
            Op::Float_Eq => self.op_float_compare(FloatTest::Eq),
            Op::Float_Lt => self.op_float_compare(FloatTest::Lt),
            Op::Float_Le => self.op_float_compare(FloatTest::Le),
            Op::Float_Gt => self.op_float_compare(FloatTest::Gt),
            Op::Float_Ge => self.op_float_compare(FloatTest::Ge),
            Op::Str_Concat => self.op_str_concat(),
            Op::Str_Slice => self.op_str_slice(),
            Op::JumpNe { addr } => self.op_jump_if(JumpTest::Ne, addr.into_i64()),
            Op::JumpEq { addr } => self.op_jump_if(JumpTest::Eq, addr.into_i64()),
            Op::JumpLt { addr } => self.op_jump_if(JumpTest::Lt, addr.into_i64()),
            Op::JumpLe { addr } => self.op_jump_if(JumpTest::Le, addr.into_i64()),
            Op::JumpGt { addr } => self.op_jump_if_greater(addr.into_i64()),
            Op::JumpGe { addr } => self.op_jump_if(JumpTest::Ge, addr.into_i64()),
            Op::JumpZero { addr } => self.op_jump_if(JumpTest::Eq, addr.into_i64()),
            Op::Jump { addr } => self.op_jump(addr.into_i64()),
        }
    }

    /// Executes instructions until the run ends, fails or waits for a
    /// number, but no more than `fuel` of them.
    pub fn resume(&mut self, fuel: u64) -> (result: Result<Outcome>)
        requires
            old(self).wf(),
        ensures
            final(self).wf(),
            (final(self)@, signal(result)) == old(self)@.run(fuel as nat),
    {
        let mut left = fuel;
        while left > 0
            invariant
                self.wf(),
                self@.run(left as nat) == old(self)@.run(fuel as nat),
            decreases left,
        {
            let result = self.step();
            match result {
                Ok(Outcome::Running) => {},
                _ => {
                    return result;
                },
            }
            left -= 1;
        }
        Ok(Outcome::Running)
    }

    /// Execute a function constant: loads it and runs it.
    ///
    /// The run is cut off after `u64::MAX` instructions, which reports
    /// [`Outcome::Running`] as every unfinished run does.
    pub fn run_function(&mut self, _env: (), func: Rc<Func>) -> (result: Result<Outcome>)
        ensures
            final(self).wf(),
            (final(self)@, signal(result)) == Machine::loaded(
                ClosureView { func: *func, up_values: Seq::empty() },
            ).run(u64::MAX as nat),
    {
        self.start(func);
        self.resume(u64::MAX)
    }

    /// Hands the machine the result of the operation it waits for. The
    /// number is pushed and the machine is ready to go on; a machine that
    /// waits for nothing refuses and stays as it is.
    pub fn supply_float(&mut self, value: Float) -> (result: Result<()>)
        requires
            old(self).wf(),
        ensures
            final(self).wf(),
            (final(self)@, outcome(result)) == old(self)@.supply(value),
    {
        proof {
            old(self)@.lemma_supply_keeps_order(value);
        }
        match self.phase {
            Phase::AwaitingFloat(_) => {
                self.stack.push(Value::Float(value));
                self.phase = Phase::Running;
                assert(self@ =~~= old(self)@.supply(value).0);
                Ok(())
            },
            _ => Err(runtime_err("no float operation is pending")),
        }
    }

    /// Closes every cell of the heap over the stack as it stands.
    fn close_every_cell(&mut self)
        ensures
            final(self)@ == (Machine { cells: close_all(old(self)@.cells, old(self)@.stack), ..old(self)@ }),
            final(self).calls == old(self).calls,
    {
        let ghost before = self.cells@;
        let mut i: usize = 0;
        while i < self.cells.len()
            invariant
                i <= self.cells@.len(),
                self.cells@.len() == before.len(),
                self.stack == old(self).stack,
                self.calls == old(self).calls,
                self.phase == old(self).phase,
                forall|j: int| 0 <= j < i ==> (#[trigger] self.cells@[j])@ == closed(before[j]@, values(self.stack@)),
                forall|j: int| i <= j < before.len() ==> #[trigger] self.cells@[j] == before[j],
            decreases self.cells@.len() - i,
        {
            let target = match &self.cells[i] {
                UpValue::Open(offset) => Some(*offset),
                UpValue::Closed(_) => None,
            };
            if let Some(offset) = target {
                let value = if offset < self.stack.len() {
                    self.stack[offset].clone()
                } else {
                    Value::Int(0)
                };
                self.cells[i] = UpValue::Closed(value);
            }
            i += 1;
        }
        assert(self@.cells =~~= close_all(old(self)@.cells, old(self)@.stack));
        assert(self@ =~~= (Machine { cells: close_all(old(self)@.cells, old(self)@.stack), ..old(self)@ }));
    }

    /// Ends the run on a fatal error: closes every open cell, drops every
    /// frame and leaves the stack as it is.
    fn fail(&mut self, err: Error) -> (result: Result<Outcome>)
        ensures
            final(self)@ == old(self)@.torn_down(),
            result == Err::<Outcome, Error>(err),
            final(self).calls@.len() == 0,
    {
        self.close_every_cell();
        self.calls.clear();
        self.phase = Phase::Halted;
        assert(self@ =~~= old(self)@.torn_down());
        Err(err)
    }
}

} // verus!
