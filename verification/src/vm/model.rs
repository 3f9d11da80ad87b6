//! The machine as mathematics: its state, and the function from one state
//! to the next. The executable machine is proved to follow it step by step.
use crate::errors::{arity_message, indexed_message, runtime, ErrorView};
use crate::float::{Float, FloatOp};
use crate::object::{ClosureView, ObjectView, UpValueOrigin, UpValueView};
use crate::op::Op;
use crate::text::{slice, sliceable};
use crate::value::ValueView;
use vstd::prelude::*;

verus! {

/// One activation of a closure.
#[verifier::ext_equal]
pub struct Frame {
    /// Index of the next instruction in the closure's code.
    pub ip: int,
    /// Absolute stack index of the frame's slot 0, which holds the callable.
    pub base: int,
    /// How many results the caller expects.
    pub results: int,
    /// The closure being executed.
    pub closure: ClosureView,
    /// The places of the cells that this frame opened over its own locals,
    /// in the order in which it opened them.
    pub cells: Seq<int>,
}

/// A rounding operation on two numbers that the machine waits for.
#[derive(Debug, Clone, Copy)]
pub struct FloatRequest {
    pub op: FloatOp,
    pub lhs: Float,
    pub rhs: Float,
}

/// What the machine is doing between two steps.
#[derive(Debug, Clone, Copy)]
pub enum Phase {
    /// No function is loaded, or the last run has ended.
    Halted,
    /// The next step executes an instruction.
    Running,
    /// The operands of a rounding operation were taken off the stack; the
    /// machine goes on once it is given the result.
    AwaitingFloat(FloatRequest),
}

/// The whole state of a machine.
#[verifier::ext_equal]
pub struct Machine {
    /// Operand stack, bottom first.
    pub stack: Seq<ValueView>,
    /// Call stack, outermost first; the last frame is the one that runs.
    pub frames: Seq<Frame>,
    /// The heap of up-value cells; a closure and a frame name a cell by its
    /// place in it.
    pub cells: Seq<UpValueView>,
    pub phase: Phase,
}

/// What a step or a run reports when it does not fail.
#[verifier::ext_equal]
pub enum Signal {
    /// There is more to execute.
    Running,
    /// The outermost frame returned these results, first result first.
    Finished(Seq<ValueView>),
    /// The machine waits for the result of this operation.
    FloatPending(FloatRequest),
}

/// A state together with what was reported on reaching it.
pub type Step = (Machine, Result<Signal, ErrorView>);

/// The value of a stack slot that was never written.
pub open spec fn empty_slot() -> ValueView {
    ValueView::Int(0)
}

/// A 64-bit integer from any integer, keeping the low 64 bits in two's complement.
pub open spec fn wrap(n: int) -> i64 {
    let low = n % 0x1_0000_0000_0000_0000;
    if low > i64::MAX {
        (low - 0x1_0000_0000_0000_0000) as i64
    } else {
        low as i64
    }
}

pub open spec fn magnitude(n: int) -> int {
    if n < 0 {
        -n
    } else {
        n
    }
}

/// Division that rounds toward zero; `b` is not zero.
pub open spec fn quotient(a: int, b: int) -> int {
    if (a < 0) == (b < 0) {
        magnitude(a) / magnitude(b)
    } else {
        -(magnitude(a) / magnitude(b))
    }
}

/// What division that rounds toward zero leaves over: it has the sign of `a`.
pub open spec fn remainder(a: int, b: int) -> int {
    if a < 0 {
        -(magnitude(a) % magnitude(b))
    } else {
        magnitude(a) % magnitude(b)
    }
}

/// The binary operations on two integers.
#[derive(Debug, Clone, Copy)]
pub enum IntOp {
    Add,
    Sub,
    Mul,
    Div,
    Mod,
    Ne,
    Eq,
    Lt,
    Le,
    Gt,
    Ge,
}

impl IntOp {
    pub open spec fn divides(self) -> bool {
        self is Div || self is Mod
    }

    /// The result on `a` and `b`; for a division `b` is not zero.
    pub open spec fn apply(self, a: i64, b: i64) -> ValueView {
        match self {
            IntOp::Add => ValueView::Int(wrap(a + b)),
            IntOp::Sub => ValueView::Int(wrap(a - b)),
            IntOp::Mul => ValueView::Int(wrap(a * b)),
            IntOp::Div => ValueView::Int(wrap(quotient(a as int, b as int))),
            IntOp::Mod => ValueView::Int(wrap(remainder(a as int, b as int))),
            IntOp::Ne => ValueView::of_bool(a != b),
            IntOp::Eq => ValueView::of_bool(a == b),
            IntOp::Lt => ValueView::of_bool(a < b),
            IntOp::Le => ValueView::of_bool(a <= b),
            IntOp::Gt => ValueView::of_bool(a > b),
            IntOp::Ge => ValueView::of_bool(a >= b),
        }
    }
}

/// The comparisons of two numbers.
#[derive(Debug, Clone, Copy)]
pub enum FloatTest {
    Ne,
    Eq,
    Lt,
    Le,
    Gt,
    Ge,
}

impl FloatTest {
    pub open spec fn holds(self, a: Float, b: Float) -> bool {
        match self {
            FloatTest::Ne => !a.same(b),
            FloatTest::Eq => a.same(b),
            FloatTest::Lt => a.below(b),
            FloatTest::Le => a.below(b) || a.same(b),
            FloatTest::Gt => b.below(a),
            FloatTest::Ge => b.below(a) || a.same(b),
        }
    }
}

/// The tests that a conditional jump makes on the integer it pops.
#[derive(Debug, Clone, Copy)]
pub enum JumpTest {
    Ne,
    Eq,
    Lt,
    Le,
    Ge,
}

impl JumpTest {
    pub open spec fn holds(self, a: i64) -> bool {
        match self {
            JumpTest::Ne => a != 0,
            JumpTest::Eq => a == 0,
            JumpTest::Lt => a < 0,
            JumpTest::Le => a <= 0,
            JumpTest::Ge => a >= 0,
        }
    }
}

/// The kinds of number that the arithmetic instructions work on.
pub enum Kind {
    Int,
    Float,
}

impl Kind {
    /// Whether a value is a number of this kind.
    pub open spec fn admits(self, value: ValueView) -> bool {
        match self {
            Kind::Int => value is Int,
            Kind::Float => value is Float,
        }
    }

    /// What an instruction says of an operand that is not of this kind.
    pub open spec fn complaint(self) -> Seq<char> {
        match self {
            Kind::Int => "integer value expected"@,
            Kind::Float => "float value expected"@,
        }
    }
}

/// For an arithmetic or comparison instruction, the kind of its operands
/// and how many it takes from the top of the stack.
pub open spec fn operands(op: Op) -> Option<(Kind, int)> {
    match op {
        Op::Int_Neg => Some((Kind::Int, 1)),
        Op::Int_Add | Op::Int_Sub | Op::Int_Mul | Op::Int_Div | Op::Int_Mod | Op::Int_Ne
        | Op::Int_Eq | Op::Int_Lt | Op::Int_Le | Op::Int_Gt | Op::Int_Ge => Some((Kind::Int, 2)),
        Op::Float_Neg => Some((Kind::Float, 1)),
        Op::Float_Add | Op::Float_Sub | Op::Float_Mul | Op::Float_Div | Op::Float_Mod
        | Op::Float_Ne | Op::Float_Eq | Op::Float_Lt | Op::Float_Le | Op::Float_Gt
        | Op::Float_Ge => Some((Kind::Float, 2)),
        _ => None,
    }
}

/// For an instruction that leaves the running frame, the number of
/// results it returns.
pub open spec fn returned(op: Op) -> Option<int> {
    match op {
        Op::End => Some(0),
        Op::Return { results } => Some(results as int),
        _ => None,
    }
}

/// Every cell that `ids` names exists in a heap of `cells` cells.
pub open spec fn ids_ok(ids: Seq<int>, cells: int) -> bool {
    forall|k: int| 0 <= k < ids.len() ==> 0 <= #[trigger] ids[k] < cells
}

/// A value names only cells that exist.
pub open spec fn value_ok(value: ValueView, cells: int) -> bool {
    value matches ValueView::Object(ObjectView::Closure(closure)) ==> ids_ok(
        closure.up_values,
        cells,
    )
}

/// A cell after closing: an open cell takes the value of the slot it points
/// to, or of an empty slot where the stack no longer reaches it; a closed
/// cell stays as it is.
pub open spec fn closed(cell: UpValueView, stack: Seq<ValueView>) -> UpValueView {
    match cell {
        UpValueView::Open(offset) => UpValueView::Closed(
            if 0 <= offset < stack.len() {
                stack[offset]
            } else {
                empty_slot()
            },
        ),
        UpValueView::Closed(_) => cell,
    }
}

/// The heap after closing the cells that `ids` names.
pub open spec fn close_cells(cells: Seq<UpValueView>, ids: Seq<int>, stack: Seq<ValueView>) -> Seq<
    UpValueView,
> {
    Seq::new(
        cells.len(),
        |i: int|
            if ids.contains(i) {
                closed(cells[i], stack)
            } else {
                cells[i]
            },
    )
}

/// The heap after closing every cell.
pub open spec fn close_all(cells: Seq<UpValueView>, stack: Seq<ValueView>) -> Seq<UpValueView> {
    Seq::new(cells.len(), |i: int| closed(cells[i], stack))
}

/// Whether a frame with this base and these up-values can make every
/// capture that `origins` asks for: an outer up-value must exist, and the
/// address of a local must be a stack index.
pub open spec fn capturable(origins: Seq<UpValueOrigin>, base: int, outer: Seq<int>) -> bool {
    forall|k: int|
        0 <= k < origins.len() ==> match #[trigger] origins[k] {
            UpValueOrigin::Parent(local) => base + local <= usize::MAX,
            UpValueOrigin::Outer(up) => up < outer.len(),
        }
}

/// The cells that the first `n` captures open, in order: one for each
/// `Parent` origin, pointing at that local of the frame.
pub open spec fn opened(origins: Seq<UpValueOrigin>, n: int, base: int) -> Seq<UpValueView>
    decreases n,
{
    if n <= 0 {
        Seq::empty()
    } else {
        match origins[n - 1] {
            UpValueOrigin::Parent(local) => opened(origins, n - 1, base).push(
                UpValueView::Open(base + local),
            ),
            UpValueOrigin::Outer(_) => opened(origins, n - 1, base),
        }
    }
}

/// The cells of the new closure for the first `n` captures: a fresh cell,
/// appended to a heap of `heap` cells, for each `Parent` origin, and the
/// enclosing closure's own cell for each `Outer` origin.
pub open spec fn captured(
    origins: Seq<UpValueOrigin>,
    n: int,
    base: int,
    outer: Seq<int>,
    heap: int,
) -> Seq<int>
    decreases n,
{
    if n <= 0 {
        Seq::empty()
    } else {
        let before = captured(origins, n - 1, base, outer, heap);
        match origins[n - 1] {
            UpValueOrigin::Parent(_) => before.push(heap + opened(origins, n - 1, base).len()),
            UpValueOrigin::Outer(up) => before.push(outer[up as int]),
        }
    }
}

/// The places of `count` cells appended to a heap of `heap` cells.
pub open spec fn fresh_ids(heap: int, count: int) -> Seq<int> {
    Seq::new(count as nat, |j: int| heap + j)
}

impl Frame {
    pub open spec fn code(self) -> Seq<Op> {
        self.closure.func.code@
    }

    /// A frame that is about to execute the first instruction of `closure`.
    pub open spec fn enter(closure: ClosureView, base: int, results: int) -> Frame {
        Frame { ip: 0, base, results, closure, cells: Seq::empty() }
    }

    pub open spec fn wf(self, stack: int, cells: int) -> bool {
        &&& 0 <= self.ip
        &&& 0 <= self.base <= stack
        &&& 0 <= self.results
        &&& ids_ok(self.closure.up_values, cells)
        &&& ids_ok(self.cells, cells)
    }
}

impl Machine {
    /// A machine with nothing loaded.
    pub open spec fn idle() -> Machine {
        Machine { stack: Seq::empty(), frames: Seq::empty(), cells: Seq::empty(), phase: Phase::Halted }
    }

    /// A machine about to execute the first instruction of `closure`, which
    /// captures nothing and sits in slot 0 of an otherwise empty stack.
    pub open spec fn loaded(closure: ClosureView) -> Machine {
        Machine {
            stack: seq![ValueView::Object(ObjectView::Closure(closure))],
            frames: seq![Frame::enter(closure, 0, 0)],
            cells: Seq::empty(),
            phase: Phase::Running,
        }
    }

    /// The frame that runs.
    pub open spec fn frame(self) -> Frame {
        self.frames.last()
    }

    /// How many slots the running frame holds, its callable included.
    pub open spec fn depth(self) -> int {
        self.stack.len() - self.frame().base
    }

    /// The value `k` slots below the top of the stack.
    pub open spec fn top(self, k: int) -> ValueView {
        self.stack[self.stack.len() - 1 - k]
    }

    /// The invariant of every machine: frames exist exactly while a run is
    /// under way, each frame's window starts inside the stack and at or
    /// above its caller's, and every cell that a frame, a closure on the
    /// stack or a closed cell names is in the heap.
    pub open spec fn wf(self) -> bool {
        &&& (self.phase is Halted) == (self.frames.len() == 0)
        &&& forall|i: int|
            0 <= i < self.frames.len() ==> (#[trigger] self.frames[i]).wf(
                self.stack.len() as int,
                self.cells.len() as int,
            )
        &&& forall|i: int, j: int|
            0 <= i < j < self.frames.len() ==> (#[trigger] self.frames[i]).base <= (
            #[trigger] self.frames[j]).base
        &&& forall|i: int|
            0 <= i < self.stack.len() ==> value_ok(#[trigger] self.stack[i], self.cells.len() as int)
        &&& forall|i: int|
            0 <= i < self.cells.len() ==> (#[trigger] self.cells[i] matches UpValueView::Closed(value)
                ==> value_ok(value, self.cells.len() as int))
    }

    pub open spec fn with_stack(self, stack: Seq<ValueView>) -> Machine {
        Machine { stack, ..self }
    }

    pub open spec fn with_frame(self, frame: Frame) -> Machine {
        Machine { frames: self.frames.drop_last().push(frame), ..self }
    }

    pub open spec fn push(self, value: ValueView) -> Machine {
        self.with_stack(self.stack.push(value))
    }

    /// The machine without the top `n` values of its stack.
    pub open spec fn drop_top(self, n: int) -> Machine {
        self.with_stack(self.stack.take(self.stack.len() - n))
    }

    /// The step that changes nothing more and goes on.
    pub open spec fn go(self) -> Step {
        (self, Ok(Signal::Running))
    }

    /// The machine after a fatal error: every open cell is closed over the
    /// stack as it stands, all frames are gone, the stack is left in place.
    pub open spec fn torn_down(self) -> Machine {
        Machine {
            stack: self.stack,
            frames: Seq::empty(),
            cells: close_all(self.cells, self.stack),
            phase: Phase::Halted,
        }
    }

    /// The step that ends the run with a runtime error.
    pub open spec fn fail(self, message: Seq<char>) -> Step {
        (self.torn_down(), Err(runtime(message)))
    }

    /// Moves the instruction pointer by `offset`, or fails when that leaves the code.
    pub open spec fn jump(self, offset: int) -> Step {
        let frame = self.frame();
        let target = frame.ip + offset;
        if target < 0 || target > frame.code().len() {
            self.fail("instruction pointer out of bytecode bounds"@)
        } else {
            self.with_frame(Frame { ip: target, ..frame }).go()
        }
    }

    /// Pops an integer and jumps by `offset` if `test` holds of it.
    pub open spec fn jump_if(self, test: JumpTest, offset: int) -> Step {
        if self.depth() < 1 {
            self.fail("stack underflow"@)
        } else {
            match self.top(0) {
                ValueView::Int(a) => if test.holds(a) {
                    let (next, signal) = self.jump(offset);
                    if signal is Err {
                        (next, signal)
                    } else {
                        next.drop_top(1).go()
                    }
                } else {
                    self.drop_top(1).go()
                },
                _ => self.fail("integer value expected"@),
            }
        }
    }

    /// Pops two integers and jumps by `offset` if the lower is greater than the upper.
    pub open spec fn jump_if_greater(self, offset: int) -> Step {
        if self.depth() < 2 {
            self.fail("stack underflow"@)
        } else {
            match (self.top(1), self.top(0)) {
                (ValueView::Int(a), ValueView::Int(b)) => if a > b {
                    let (next, signal) = self.jump(offset);
                    if signal is Err {
                        (next, signal)
                    } else {
                        next.drop_top(2).go()
                    }
                } else {
                    self.drop_top(2).go()
                },
                _ => self.fail("integer value expected"@),
            }
        }
    }

    pub open spec fn pop(self, n: int) -> Step {
        if n > self.depth() {
            self.fail("stack underflow"@)
        } else {
            self.drop_top(n).go()
        }
    }

    /// Copies the top of the stack into a local, and leaves it on the stack.
    pub open spec fn set_local(self, slot: int) -> Step {
        if self.depth() < 1 {
            self.fail("stack underflow"@)
        } else if slot >= self.depth() {
            self.fail("local slot out of range"@)
        } else {
            self.with_stack(self.stack.update(self.frame().base + slot, self.top(0))).go()
        }
    }

    pub open spec fn get_local(self, slot: int) -> Step {
        if slot >= self.depth() {
            self.fail("local slot out of range"@)
        } else {
            self.push(self.stack[self.frame().base + slot]).go()
        }
    }

    /// Pops the top of the stack into the `index`-th cell of the running
    /// closure: into the slot that an open cell points to, or into a closed
    /// cell itself.
    pub open spec fn set_up_value(self, index: int) -> Step {
        let ups = self.frame().closure.up_values;
        if self.depth() < 1 {
            self.fail("stack underflow"@)
        } else if index >= ups.len() {
            self.fail("up-value not found"@)
        } else {
            let id = ups[index];
            let value = self.top(0);
            let rest = self.drop_top(1);
            match self.cells[id] {
                UpValueView::Open(offset) => if 0 <= offset < rest.stack.len() {
                    rest.with_stack(rest.stack.update(offset, value)).go()
                } else {
                    self.fail("up-value not found"@)
                },
                UpValueView::Closed(_) => Machine {
                    cells: self.cells.update(id, UpValueView::Closed(value)),
                    ..rest
                }.go(),
            }
        }
    }

    /// Pushes what the `index`-th cell of the running closure holds.
    pub open spec fn get_up_value(self, index: int) -> Step {
        let ups = self.frame().closure.up_values;
        if index >= ups.len() {
            self.fail("up-value not found"@)
        } else {
            match self.cells[ups[index]] {
                UpValueView::Open(offset) => if 0 <= offset < self.stack.len() {
                    self.push(self.stack[offset]).go()
                } else {
                    self.fail("up-value not found"@)
                },
                UpValueView::Closed(value) => self.push(value).go(),
            }
        }
    }

    pub open spec fn push_int(self, index: int) -> Step {
        let ints = self.frame().closure.func.constants.ints@;
        if index >= ints.len() {
            self.fail(indexed_message("no integer constant defined: "@, index as nat))
        } else {
            self.push(ValueView::Int(ints[index])).go()
        }
    }

    pub open spec fn push_float(self, index: int) -> Step {
        let floats = self.frame().closure.func.constants.floats@;
        if index >= floats.len() {
            self.fail(indexed_message("no float constant defined: "@, index as nat))
        } else {
            self.push(ValueView::Float(floats[index])).go()
        }
    }

    pub open spec fn push_string(self, index: int) -> Step {
        let strings = self.frame().closure.func.constants.strings@;
        if index >= strings.len() {
            self.fail(indexed_message("no string constant defined: "@, index as nat))
        } else {
            self.push(ValueView::Object(ObjectView::String(strings[index]@))).go()
        }
    }

    pub open spec fn push_func(self, index: int) -> Step {
        let funcs = self.frame().closure.func.constants.funcs@;
        if index >= funcs.len() {
            self.fail(indexed_message("no function found at constant "@, index as nat))
        } else {
            self.push(ValueView::Object(ObjectView::Func(*funcs[index]))).go()
        }
    }

    /// Makes a closure of the `index`-th nested prototype and pushes it. The
    /// closure gets one cell per entry of the prototype's up-value table;
    /// the cells opened for it are also entered in the running frame's list.
    pub open spec fn create_closure(self, index: int) -> Step {
        let frame = self.frame();
        let funcs = frame.closure.func.constants.funcs@;
        if index >= funcs.len() {
            self.fail("constant not found"@)
        } else {
            let func = *funcs[index];
            let origins = func.up_values@;
            let outer = frame.closure.up_values;
            if !capturable(origins, frame.base, outer) {
                self.fail("up-value not found"@)
            } else {
                let n = origins.len() as int;
                let heap = self.cells.len() as int;
                let fresh = opened(origins, n, frame.base);
                let closure = ClosureView {
                    func,
                    up_values: captured(origins, n, frame.base, outer, heap),
                };
                Machine {
                    stack: self.stack.push(ValueView::Object(ObjectView::Closure(closure))),
                    frames: self.frames.drop_last().push(
                        Frame { cells: frame.cells + fresh_ids(heap, fresh.len() as int), ..frame },
                    ),
                    cells: self.cells + fresh,
                    phase: self.phase,
                }.go()
            }
        }
    }

    /// Replaces the integer on top of the stack by its negation.
    pub open spec fn int_neg(self) -> Step {
        if self.depth() < 1 {
            self.fail("stack underflow"@)
        } else {
            match self.top(0) {
                ValueView::Int(a) => self.drop_top(1).push(ValueView::Int(wrap(-a))).go(),
                _ => self.fail("integer value expected"@),
            }
        }
    }

    /// Pops two integers and pushes what `op` makes of them.
    pub open spec fn int_binary(self, op: IntOp) -> Step {
        if self.depth() < 2 {
            self.fail("stack underflow"@)
        } else {
            match (self.top(1), self.top(0)) {
                (ValueView::Int(a), ValueView::Int(b)) => if op.divides() && b == 0 {
                    self.fail("integer divide by zero"@)
                } else {
                    self.drop_top(2).push(op.apply(a, b)).go()
                },
                _ => self.fail("integer value expected"@),
            }
        }
    }

    /// Replaces the number on top of the stack by its negation.
    pub open spec fn float_neg(self) -> Step {
        if self.depth() < 1 {
            self.fail("stack underflow"@)
        } else {
            match self.top(0) {
                ValueView::Float(a) => self.drop_top(1).push(ValueView::Float(a.negated())).go(),
                _ => self.fail("float value expected"@),
            }
        }
    }

    /// Pops two numbers and waits for what `op` makes of them.
    pub open spec fn float_binary(self, op: FloatOp) -> Step {
        if self.depth() < 2 {
            self.fail("stack underflow"@)
        } else {
            match (self.top(1), self.top(0)) {
                (ValueView::Float(lhs), ValueView::Float(rhs)) => {
                    let request = FloatRequest { op, lhs, rhs };
                    (
                        Machine { phase: Phase::AwaitingFloat(request), ..self.drop_top(2) },
                        Ok(Signal::FloatPending(request)),
                    )
                },
                _ => self.fail("float value expected"@),
            }
        }
    }

    /// Pops two numbers and pushes whether `test` holds of them.
    pub open spec fn float_compare(self, test: FloatTest) -> Step {
        if self.depth() < 2 {
            self.fail("stack underflow"@)
        } else {
            match (self.top(1), self.top(0)) {
                (ValueView::Float(a), ValueView::Float(b)) => self.drop_top(2).push(
                    ValueView::of_bool(test.holds(a, b)),
                ).go(),
                _ => self.fail("float value expected"@),
            }
        }
    }

    /// Pops two strings and pushes the lower followed by the upper.
    pub open spec fn str_concat(self) -> Step {
        if self.depth() < 2 {
            self.fail("stack underflow"@)
        } else {
            match (self.top(1), self.top(0)) {
                (
                    ValueView::Object(ObjectView::String(a)),
                    ValueView::Object(ObjectView::String(b)),
                ) => self.drop_top(2).push(ValueView::Object(ObjectView::String(a + b))).go(),
                _ => self.fail("string value expected"@),
            }
        }
    }

    /// Pops a string, a start and an end, and pushes the bytes of the
    /// string's UTF-8 form from start up to end, as a string. Fails unless
    /// both are boundaries between characters with start not after end.
    pub open spec fn str_slice(self) -> Step {
        if self.depth() < 3 {
            self.fail("stack underflow"@)
        } else {
            match (self.top(2), self.top(1), self.top(0)) {
                (ValueView::Object(ObjectView::String(text)), ValueView::Int(start), ValueView::Int(end)) => {
                    if sliceable(text, start as int, end as int) {
                        self.drop_top(3).push(
                            ValueView::Object(
                                ObjectView::String(slice(text, start as int, end as int)),
                            ),
                        ).go()
                    } else {
                        self.fail("string index out of range"@)
                    }
                },
                (ValueView::Object(ObjectView::String(_)), _, _) => self.fail("integer value expected"@),
                _ => self.fail("string value expected"@),
            }
        }
    }

    /// Enters the closure in slot `base` of the running frame; that slot
    /// becomes slot 0 of the new frame.
    pub open spec fn call(self, base: int, results: int) -> Step {
        let at = self.frame().base + base;
        if at >= self.stack.len() {
            self.fail("closure value expected"@)
        } else {
            match self.stack[at] {
                ValueView::Object(ObjectView::Closure(closure)) => Machine {
                    frames: self.frames.push(Frame::enter(closure, at, results)),
                    ..self
                }.go(),
                _ => self.fail("closure value expected"@),
            }
        }
    }

    /// Leaves the running frame with the top `count` values as its results.
    ///
    /// The frame's cells are closed first. The outermost frame then hands
    /// out all its results and leaves an empty stack. Any other frame hands
    /// the first of them to its caller, as many as the caller expects, in
    /// the slots where the frame began; if there are too few, the run fails
    /// and the stack keeps only what lay below the frame.
    pub open spec fn leave(self, count: int) -> Step {
        let frame = self.frame();
        let len = self.stack.len() as int;
        if count > self.depth() {
            self.fail("stack underflow"@)
        } else {
            let cells = close_cells(self.cells, frame.cells, self.stack);
            if self.frames.len() == 1 {
                (
                    Machine { stack: Seq::empty(), frames: Seq::empty(), cells, phase: Phase::Halted },
                    Ok(Signal::Finished(self.stack.subrange(len - count, len))),
                )
            } else if frame.results > count {
                (
                    Machine {
                        stack: self.stack.take(frame.base),
                        frames: Seq::empty(),
                        cells: close_all(cells, self.stack),
                        phase: Phase::Halted,
                    },
                    Err(runtime(arity_message(frame.results as nat, count as nat))),
                )
            } else {
                Machine {
                    stack: self.stack.take(frame.base) + self.stack.subrange(
                        len - count,
                        len - count + frame.results,
                    ),
                    frames: self.frames.drop_last(),
                    cells,
                    phase: self.phase,
                }.go()
            }
        }
    }

    /// What `op` does to a machine whose instruction pointer is already past it.
    pub open spec fn execute(self, op: Op) -> Step {
        match op {
            Op::NoOp => self.go(),
            Op::Pop(n) => self.pop(n.unsigned()),
            Op::End => self.leave(0),
            Op::Return { results } => self.leave(results as int),
            Op::Call { base, results } => self.call(base as int, results as int),
            Op::Load { .. } => self.fail("unsupported instruction"@),
            Op::Store { .. } => self.fail("unsupported instruction"@),
            Op::SetLocal { slot } => self.set_local(slot as int),
            Op::GetLocal { slot } => self.get_local(slot as int),
            Op::SetUpValue { upvalue_id } => self.set_up_value(upvalue_id as int),
            Op::GetUpValue { upvalue_id } => self.get_up_value(upvalue_id as int),
            Op::SetGlobal { .. } => self.fail("unsupported instruction"@),
            Op::GetGlobal { .. } => self.fail("unsupported instruction"@),
            Op::PushIntIn(value) => self.push(ValueView::Int(value.signed() as i64)).go(),
            Op::PushInt(index) => self.push_int(index.unsigned()),
            Op::PushFloat(index) => self.push_float(index.unsigned()),
            Op::PushString(index) => self.push_string(index.unsigned()),
            Op::PushFunc(index) => self.push_func(index.unsigned()),
            Op::CaptureValue { .. } => self.fail("unsupported instruction"@),
            Op::CreateClosure { func_id } => self.create_closure(func_id.unsigned()),
            Op::Int_Neg => self.int_neg(),
            Op::Int_Add => self.int_binary(IntOp::Add),
            Op::Int_Sub => self.int_binary(IntOp::Sub),
            Op::Int_Mul => self.int_binary(IntOp::Mul),
            Op::Int_Div => self.int_binary(IntOp::Div),
            Op::Int_Mod => self.int_binary(IntOp::Mod),
            Op::Int_Ne => self.int_binary(IntOp::Ne),
            Op::Int_Eq => self.int_binary(IntOp::Eq),
            Op::Int_Lt => self.int_binary(IntOp::Lt),
            Op::Int_Le => self.int_binary(IntOp::Le),
            Op::Int_Gt => self.int_binary(IntOp::Gt),
            Op::Int_Ge => self.int_binary(IntOp::Ge),
            Op::Float_Neg => self.float_neg(),
            Op::Float_Add => self.float_binary(FloatOp::Add),
            Op::Float_Sub => self.float_binary(FloatOp::Sub),
            Op::Float_Mul => self.float_binary(FloatOp::Mul),
            Op::Float_Div => self.float_binary(FloatOp::Div),
            Op::Float_Mod => self.float_binary(FloatOp::Mod),
            Op::Float_Ne => self.float_compare(FloatTest::Ne),
            Op::Float_Eq => self.float_compare(FloatTest::Eq),
            Op::Float_Lt => self.float_compare(FloatTest::Lt),
            Op::Float_Le => self.float_compare(FloatTest::Le),
            Op::Float_Gt => self.float_compare(FloatTest::Gt),
            Op::Float_Ge => self.float_compare(FloatTest::Ge),
            Op::Str_Concat => self.str_concat(),
            Op::Str_Slice => self.str_slice(),
            Op::JumpNe { addr } => self.jump_if(JumpTest::Ne, addr.signed()),
            Op::JumpEq { addr } => self.jump_if(JumpTest::Eq, addr.signed()),
            Op::JumpLt { addr } => self.jump_if(JumpTest::Lt, addr.signed()),
            Op::JumpLe { addr } => self.jump_if(JumpTest::Le, addr.signed()),
            Op::JumpGt { addr } => self.jump_if_greater(addr.signed()),
            Op::JumpGe { addr } => self.jump_if(JumpTest::Ge, addr.signed()),
            Op::JumpZero { addr } => self.jump_if(JumpTest::Eq, addr.signed()),
            Op::Jump { addr } => self.jump(addr.signed()),
        }
    }

    /// Whether the machine is about to execute an instruction, and which.
    pub open spec fn fetches(self, op: Op) -> bool {
        &&& self.phase is Running
        &&& 0 <= self.frame().ip < self.frame().code().len()
        &&& self.frame().code()[self.frame().ip] == op
    }

    /// One step: fetch the instruction at the running frame's instruction
    /// pointer, advance the pointer, execute. A machine that waits for a
    /// number says so again; a halted machine has nothing to execute.
    pub open spec fn step(self) -> Step {
        match self.phase {
            Phase::Halted => (self, Err(runtime("machine is not running"@))),
            Phase::AwaitingFloat(request) => (self, Ok(Signal::FloatPending(request))),
            Phase::Running => {
                let frame = self.frame();
                if frame.ip >= frame.code().len() {
                    self.fail("instruction pointer out of bytecode bounds"@)
                } else {
                    self.with_frame(Frame { ip: frame.ip + 1, ..frame }).execute(frame.code()[frame.ip])
                }
            },
        }
    }

    /// At most `fuel` steps, stopping at the first that does not report
    /// `Running`.
    pub open spec fn run(self, fuel: nat) -> Step
        decreases fuel,
    {
        if fuel == 0 {
            (self, Ok(Signal::Running))
        } else {
            let (next, signal) = self.step();
            if signal == Ok::<Signal, ErrorView>(Signal::Running) {
                next.run((fuel - 1) as nat)
            } else {
                (next, signal)
            }
        }
    }

    /// Gives a waiting machine the number it waits for: the number is
    /// pushed and the machine runs again. Any other machine refuses.
    pub open spec fn supply(self, value: Float) -> (Machine, Result<(), ErrorView>) {
        match self.phase {
            Phase::AwaitingFloat(_) => (
                Machine { phase: Phase::Running, ..self.push(ValueView::Float(value)) },
                Ok(()),
            ),
            _ => (self, Err(runtime("no float operation is pending"@))),
        }
    }
}

} // verus!
