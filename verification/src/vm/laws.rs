//! What holds of every machine, proved of the model that the executable
//! machine follows.
use crate::errors::{runtime, ErrorKind, ErrorView};
use crate::float::{Float, FloatOp};
use crate::object::{ObjectView, UpValueOrigin, UpValueView};
use crate::op::Op;
use crate::value::ValueView;
use crate::vm::model::{
    capturable, captured, close_all, close_cells, closed, ids_ok, opened, operands, returned,
    value_ok, FloatTest, Frame, IntOp, JumpTest, Kind, Machine, Signal,
};
use vstd::prelude::*;

verus! {

/// A value that names only cells of a heap names only cells of every larger heap.
pub proof fn lemma_value_ok_grows(value: ValueView, cells: int, more: int)
    requires
        value_ok(value, cells),
        cells <= more,
    ensures
        value_ok(value, more),
{
    if let ValueView::Object(ObjectView::Closure(closure)) = value {
        lemma_ids_ok_grow(closure.up_values, cells, more);
    }
}

/// Ids that name only cells of a heap name only cells of every larger heap.
pub proof fn lemma_ids_ok_grow(ids: Seq<int>, cells: int, more: int)
    requires
        ids_ok(ids, cells),
        cells <= more,
    ensures
        ids_ok(ids, more),
{
    assert forall|k: int| 0 <= k < ids.len() implies 0 <= #[trigger] ids[k] < more by {
        assert(0 <= ids[k] < cells);
    }
}

/// A closure gets one cell for each capture, and every one of them is in
/// the heap once the opened cells are appended to it.
pub proof fn lemma_captured(
    origins: Seq<UpValueOrigin>,
    n: int,
    base: int,
    outer: Seq<int>,
    heap: int,
)
    requires
        0 <= n <= origins.len(),
        0 <= heap,
        capturable(origins, base, outer),
        ids_ok(outer, heap),
    ensures
        captured(origins, n, base, outer, heap).len() == n,
        opened(origins, n, base).len() <= n,
        opened(origins, n, base).len() <= opened(origins, origins.len() as int, base).len(),
        ids_ok(captured(origins, n, base, outer, heap), heap + opened(origins, n, base).len()),
    decreases origins.len() - n,
{
    lemma_opened_grows(origins, n, origins.len() as int, base);
    lemma_captured_prefix(origins, n, base, outer, heap);
}

proof fn lemma_opened_grows(origins: Seq<UpValueOrigin>, n: int, m: int, base: int)
    requires
        0 <= n <= m <= origins.len(),
    ensures
        opened(origins, n, base).len() <= opened(origins, m, base).len(),
        opened(origins, n, base).len() <= n,
    decreases m,
{
    if n < m {
        lemma_opened_grows(origins, n, m - 1, base);
    } else if n > 0 {
        lemma_opened_grows(origins, n - 1, n - 1, base);
    }
}

/// Every cell that captures open is open.
proof fn lemma_opened_are_open(origins: Seq<UpValueOrigin>, n: int, base: int, k: int)
    requires
        0 <= n <= origins.len(),
        0 <= k < opened(origins, n, base).len(),
    ensures
        opened(origins, n, base)[k] is Open,
    decreases n,
{
    if n > 0 {
        let before = opened(origins, n - 1, base);
        if k < before.len() {
            lemma_opened_are_open(origins, n - 1, base, k);
        }
    }
}

proof fn lemma_captured_prefix(
    origins: Seq<UpValueOrigin>,
    n: int,
    base: int,
    outer: Seq<int>,
    heap: int,
)
    requires
        0 <= n <= origins.len(),
        0 <= heap,
        capturable(origins, base, outer),
        ids_ok(outer, heap),
    ensures
        captured(origins, n, base, outer, heap).len() == n,
        ids_ok(captured(origins, n, base, outer, heap), heap + opened(origins, n, base).len()),
    decreases n,
{
    if n > 0 {
        lemma_captured_prefix(origins, n - 1, base, outer, heap);
        lemma_opened_grows(origins, n - 1, n, base);
        lemma_opened_grows(origins, n, origins.len() as int, base);
        let before = captured(origins, n - 1, base, outer, heap);
        let ids = captured(origins, n, base, outer, heap);
        let cells = heap + opened(origins, n, base).len();
        assert forall|k: int| 0 <= k < ids.len() implies 0 <= #[trigger] ids[k] < cells by {
            if k < n - 1 {
                assert(ids[k] == before[k]);
                assert(0 <= before[k] < heap + opened(origins, n - 1, base).len());
            } else {
                match origins[n - 1] {
                    UpValueOrigin::Parent(_) => {},
                    UpValueOrigin::Outer(up) => {
                        assert(0 <= outer[up as int] < heap);
                    },
                }
            }
        }
    }
}

impl Machine {
    /// Tearing a machine down leaves a machine in order, with no frame and
    /// no open cell.
    pub proof fn lemma_torn_down(self)
        requires
            self.wf(),
        ensures
            self.torn_down().wf(),
            self.torn_down().stack == self.stack,
            forall|i: int|
                0 <= i < self.torn_down().cells.len() ==> #[trigger] self.torn_down().cells[i] is Closed,
    {
    }

    proof fn lemma_drop_top(self, n: int)
        requires
            self.wf(),
            self.frames.len() > 0,
            0 <= n <= self.depth(),
        ensures
            self.drop_top(n).wf(),
    {
        let next = self.drop_top(n);
        assert forall|i: int| 0 <= i < next.frames.len() implies (#[trigger] next.frames[i]).wf(
            next.stack.len() as int,
            next.cells.len() as int,
        ) by {
            assert(self.frames[i].wf(self.stack.len() as int, self.cells.len() as int));
            assert(self.frames[i].base <= self.frame().base);
        }
    }

    proof fn lemma_push(self, value: ValueView)
        requires
            self.wf(),
            value_ok(value, self.cells.len() as int),
        ensures
            self.push(value).wf(),
    {
        let next = self.push(value);
        assert forall|i: int| 0 <= i < next.frames.len() implies (#[trigger] next.frames[i]).wf(
            next.stack.len() as int,
            next.cells.len() as int,
        ) by {
            assert(self.frames[i].wf(self.stack.len() as int, self.cells.len() as int));
        }
    }

    /// Moving the instruction pointer of the running frame keeps the
    /// machine in order and leaves its stack, heap and depth alone.
    pub proof fn lemma_advance(self, ip: int)
        requires
            self.wf(),
            self.frames.len() > 0,
            0 <= ip,
        ensures
            self.with_frame(Frame { ip, ..self.frame() }).wf(),
    {
        self.lemma_with_ip(ip);
    }

    proof fn lemma_with_ip(self, ip: int)
        requires
            self.wf(),
            self.frames.len() > 0,
            0 <= ip,
        ensures
            self.with_frame(Frame { ip, ..self.frame() }).wf(),
            self.with_frame(Frame { ip, ..self.frame() }).depth() == self.depth(),
    {
        let next = self.with_frame(Frame { ip, ..self.frame() });
        assert forall|i: int| 0 <= i < next.frames.len() implies (#[trigger] next.frames[i]).wf(
            next.stack.len() as int,
            next.cells.len() as int,
        ) by {
            assert(self.frames[i].wf(self.stack.len() as int, self.cells.len() as int));
        }
        assert forall|i: int, j: int| 0 <= i < j < next.frames.len() implies (
        #[trigger] next.frames[i]).base <= (#[trigger] next.frames[j]).base by {
            assert(self.frames[i].base <= self.frames[j].base);
        }
    }

    proof fn lemma_jump(self, offset: int)
        requires
            self.wf(),
            self.frames.len() > 0,
        ensures
            self.jump(offset).0.wf(),
            self.jump(offset).1 is Ok ==> self.jump(offset).0.depth() == self.depth()
                && self.jump(offset).0.frames.len() > 0,
    {
        self.lemma_torn_down();
        let target = self.frame().ip + offset;
        if 0 <= target {
            self.lemma_with_ip(target);
        }
    }

    proof fn lemma_jump_if(self, test: JumpTest, offset: int)
        requires
            self.wf(),
            self.frames.len() > 0,
        ensures
            self.jump_if(test, offset).0.wf(),
    {
        self.lemma_torn_down();
        self.lemma_jump(offset);
        if self.depth() >= 1 {
            self.lemma_drop_top(1);
            if self.jump(offset).1 is Ok {
                self.jump(offset).0.lemma_drop_top(1);
            }
        }
    }

    proof fn lemma_jump_if_greater(self, offset: int)
        requires
            self.wf(),
            self.frames.len() > 0,
        ensures
            self.jump_if_greater(offset).0.wf(),
    {
        self.lemma_torn_down();
        self.lemma_jump(offset);
        if self.depth() >= 2 {
            self.lemma_drop_top(2);
            if self.jump(offset).1 is Ok {
                self.jump(offset).0.lemma_drop_top(2);
            }
        }
    }

    proof fn lemma_replace_top(self, n: int, value: ValueView)
        requires
            self.wf(),
            self.frames.len() > 0,
            0 <= n <= self.depth(),
            value_ok(value, self.cells.len() as int),
        ensures
            self.drop_top(n).push(value).wf(),
    {
        self.lemma_drop_top(n);
        self.drop_top(n).lemma_push(value);
    }

    proof fn lemma_set_local(self, slot: int)
        requires
            self.wf(),
            self.frames.len() > 0,
            0 <= slot,
        ensures
            self.set_local(slot).0.wf(),
    {
        self.lemma_torn_down();
        assert(self.frame().wf(self.stack.len() as int, self.cells.len() as int));
    }

    proof fn lemma_get_local(self, slot: int)
        requires
            self.wf(),
            self.frames.len() > 0,
            0 <= slot,
        ensures
            self.get_local(slot).0.wf(),
    {
        self.lemma_torn_down();
        assert(self.frame().wf(self.stack.len() as int, self.cells.len() as int));
        if slot < self.depth() {
            self.lemma_push(self.stack[self.frame().base + slot]);
        }
    }

    proof fn lemma_set_up_value(self, index: int)
        requires
            self.wf(),
            self.frames.len() > 0,
            0 <= index,
        ensures
            self.set_up_value(index).0.wf(),
    {
        self.lemma_torn_down();
        assert(self.frame().wf(self.stack.len() as int, self.cells.len() as int));
        if self.depth() >= 1 {
            self.lemma_drop_top(1);
        }
    }

    proof fn lemma_get_up_value(self, index: int)
        requires
            self.wf(),
            self.frames.len() > 0,
            0 <= index,
        ensures
            self.get_up_value(index).0.wf(),
    {
        self.lemma_torn_down();
        assert(self.frame().wf(self.stack.len() as int, self.cells.len() as int));
        let ups = self.frame().closure.up_values;
        if index < ups.len() {
            match self.cells[ups[index]] {
                UpValueView::Open(offset) => {
                    if 0 <= offset < self.stack.len() {
                        self.lemma_push(self.stack[offset]);
                    }
                },
                UpValueView::Closed(value) => {
                    self.lemma_push(value);
                },
            }
        }
    }

    proof fn lemma_constants(self, index: int)
        requires
            self.wf(),
            self.frames.len() > 0,
            0 <= index,
        ensures
            self.push_int(index).0.wf(),
            self.push_float(index).0.wf(),
            self.push_string(index).0.wf(),
            self.push_func(index).0.wf(),
    {
        self.lemma_torn_down();
        assert forall|value: ValueView| value_ok(value, self.cells.len() as int) implies (
        #[trigger] self.push(value)).wf() by {
            self.lemma_push(value);
        }
    }

    proof fn lemma_arithmetic(self)
        requires
            self.wf(),
            self.frames.len() > 0,
        ensures
            self.int_neg().0.wf(),
            self.float_neg().0.wf(),
            forall|op: IntOp| (#[trigger] self.int_binary(op)).0.wf(),
            forall|op: FloatOp| (#[trigger] self.float_binary(op)).0.wf(),
            forall|test: FloatTest| (#[trigger] self.float_compare(test)).0.wf(),
            self.str_concat().0.wf(),
            self.str_slice().0.wf(),
    {
        self.lemma_torn_down();
        if self.depth() >= 1 {
            self.lemma_drop_top(1);
            assert forall|value: ValueView| value_ok(value, self.cells.len() as int) implies (
            #[trigger] self.drop_top(1).push(value)).wf() by {
                self.lemma_replace_top(1, value);
            }
        }
        if self.depth() >= 2 {
            self.lemma_drop_top(2);
            assert forall|value: ValueView| value_ok(value, self.cells.len() as int) implies (
            #[trigger] self.drop_top(2).push(value)).wf() by {
                self.lemma_replace_top(2, value);
            }
        }
        if self.depth() >= 3 {
            self.lemma_drop_top(3);
            assert forall|value: ValueView| value_ok(value, self.cells.len() as int) implies (
            #[trigger] self.drop_top(3).push(value)).wf() by {
                self.lemma_replace_top(3, value);
            }
        }
    }

    proof fn lemma_call(self, base: int, results: int)
        requires
            self.wf(),
            self.frames.len() > 0,
            0 <= base,
            0 <= results,
        ensures
            self.call(base, results).0.wf(),
    {
        self.lemma_torn_down();
        assert(self.frame().wf(self.stack.len() as int, self.cells.len() as int));
        let at = self.frame().base + base;
        if at < self.stack.len() {
            if let ValueView::Object(ObjectView::Closure(closure)) = self.stack[at] {
                let next = self.call(base, results).0;
                assert(value_ok(self.stack[at], self.cells.len() as int));
                assert forall|i: int| 0 <= i < next.frames.len() implies (
                #[trigger] next.frames[i]).wf(next.stack.len() as int, next.cells.len() as int) by {
                    if i < self.frames.len() {
                        assert(self.frames[i].wf(self.stack.len() as int, self.cells.len() as int));
                    }
                }
                assert forall|i: int, j: int| 0 <= i < j < next.frames.len() implies (
                #[trigger] next.frames[i]).base <= (#[trigger] next.frames[j]).base by {
                    if j < self.frames.len() {
                        assert(self.frames[i].base <= self.frames[j].base);
                    } else {
                        assert(self.frames[i].base <= self.frame().base);
                    }
                }
            }
        }
    }

    proof fn lemma_leave(self, count: int)
        requires
            self.wf(),
            self.frames.len() > 0,
            self.phase is Running,
            0 <= count,
        ensures
            self.leave(count).0.wf(),
    {
        self.lemma_torn_down();
        let frame = self.frame();
        assert(frame.wf(self.stack.len() as int, self.cells.len() as int));
        if count <= self.depth() {
            let next = self.leave(count).0;
            let cells = close_cells(self.cells, frame.cells, self.stack);
            assert forall|i: int| 0 <= i < cells.len() implies (#[trigger] cells[i] matches UpValueView::Closed(
                value,
            ) ==> value_ok(value, cells.len() as int)) by {
                assert(closed(self.cells[i], self.stack) matches UpValueView::Closed(value)
                    ==> value_ok(value, cells.len() as int));
            }
            if self.frames.len() > 1 && frame.results <= count {
                assert forall|i: int| 0 <= i < next.frames.len() implies (
                #[trigger] next.frames[i]).wf(next.stack.len() as int, next.cells.len() as int) by {
                    assert(self.frames[i].wf(self.stack.len() as int, self.cells.len() as int));
                    assert(self.frames[i].base <= frame.base);
                }
                assert forall|i: int, j: int| 0 <= i < j < next.frames.len() implies (
                #[trigger] next.frames[i]).base <= (#[trigger] next.frames[j]).base by {
                    assert(self.frames[i].base <= self.frames[j].base);
                }
            }
        }
    }

    proof fn lemma_create_closure(self, index: int)
        requires
            self.wf(),
            self.frames.len() > 0,
            0 <= index,
        ensures
            self.create_closure(index).0.wf(),
    {
        self.lemma_torn_down();
        let frame = self.frame();
        assert(frame.wf(self.stack.len() as int, self.cells.len() as int));
        let funcs = frame.closure.func.constants.funcs@;
        if index < funcs.len() {
            let origins = funcs[index].up_values@;
            let outer = frame.closure.up_values;
            let n = origins.len() as int;
            let heap = self.cells.len() as int;
            let fresh = opened(origins, n, frame.base);
            if capturable(origins, frame.base, outer) {
                let next = self.create_closure(index).0;
                let more = next.cells.len() as int;
                lemma_captured(origins, n, frame.base, outer, heap);
                assert forall|i: int| 0 <= i < next.stack.len() implies value_ok(
                    #[trigger] next.stack[i],
                    more,
                ) by {
                    if i < self.stack.len() {
                        lemma_value_ok_grows(self.stack[i], heap, more);
                    }
                }
                assert forall|i: int| 0 <= i < next.cells.len() implies (
                #[trigger] next.cells[i] matches UpValueView::Closed(value) ==> value_ok(value, more)) by {
                    if i < heap {
                        if let UpValueView::Closed(value) = self.cells[i] {
                            lemma_value_ok_grows(value, heap, more);
                        }
                    } else {
                        lemma_opened_are_open(origins, n, frame.base, i - heap);
                    }
                }
                assert forall|i: int| 0 <= i < next.frames.len() implies (
                #[trigger] next.frames[i]).wf(next.stack.len() as int, more) by {
                    assert(self.frames[i].wf(self.stack.len() as int, heap));
                    lemma_ids_ok_grow(self.frames[i].closure.up_values, heap, more);
                    lemma_ids_ok_grow(self.frames[i].cells, heap, more);
                }
                assert forall|i: int, j: int| 0 <= i < j < next.frames.len() implies (
                #[trigger] next.frames[i]).base <= (#[trigger] next.frames[j]).base by {
                    assert(self.frames[i].base <= self.frames[j].base);
                }
            }
        }
    }

    proof fn lemma_execute(self, op: Op)
        requires
            self.wf(),
            self.phase is Running,
        ensures
            self.execute(op).0.wf(),
    {
        self.lemma_torn_down();
        self.lemma_arithmetic();
        match op {
            Op::NoOp => {},
            Op::Pop(n) => {
                if n.unsigned() <= self.depth() {
                    self.lemma_drop_top(n.unsigned());
                }
            },
            Op::End => {
                self.lemma_leave(0);
            },
            Op::Return { results } => {
                self.lemma_leave(results as int);
            },
            Op::Call { base, results } => {
                self.lemma_call(base as int, results as int);
            },
            Op::SetLocal { slot } => {
                self.lemma_set_local(slot as int);
            },
            Op::GetLocal { slot } => {
                self.lemma_get_local(slot as int);
            },
            Op::SetUpValue { upvalue_id } => {
                self.lemma_set_up_value(upvalue_id as int);
            },
            Op::GetUpValue { upvalue_id } => {
                self.lemma_get_up_value(upvalue_id as int);
            },
            Op::PushIntIn(value) => {
                self.lemma_push(ValueView::Int(value.signed() as i64));
            },
            Op::PushInt(index) => {
                self.lemma_constants(index.unsigned());
            },
            Op::PushFloat(index) => {
                self.lemma_constants(index.unsigned());
            },
            Op::PushString(index) => {
                self.lemma_constants(index.unsigned());
            },
            Op::PushFunc(index) => {
                self.lemma_constants(index.unsigned());
            },
            Op::CreateClosure { func_id } => {
                self.lemma_create_closure(func_id.unsigned());
            },
            Op::JumpNe { addr } => {
                self.lemma_jump_if(JumpTest::Ne, addr.signed());
            },
            Op::JumpEq { addr } => {
                self.lemma_jump_if(JumpTest::Eq, addr.signed());
            },
            Op::JumpLt { addr } => {
                self.lemma_jump_if(JumpTest::Lt, addr.signed());
            },
            Op::JumpLe { addr } => {
                self.lemma_jump_if(JumpTest::Le, addr.signed());
            },
            Op::JumpGt { addr } => {
                self.lemma_jump_if_greater(addr.signed());
            },
            Op::JumpGe { addr } => {
                self.lemma_jump_if(JumpTest::Ge, addr.signed());
            },
            Op::JumpZero { addr } => {
                self.lemma_jump_if(JumpTest::Eq, addr.signed());
            },
            Op::Jump { addr } => {
                self.lemma_jump(addr.signed());
            },
            _ => {},
        }
    }

    /// A step takes a machine that is in order to a machine that is in order.
    pub proof fn lemma_step_keeps_order(self)
        requires
            self.wf(),
        ensures
            self.step().0.wf(),
    {
        if self.phase is Running {
            self.lemma_torn_down();
            let frame = self.frame();
            assert(frame.wf(self.stack.len() as int, self.cells.len() as int));
            if frame.ip < frame.code().len() {
                self.lemma_with_ip(frame.ip + 1);
                self.with_frame(Frame { ip: frame.ip + 1, ..frame }).lemma_execute(
                    frame.code()[frame.ip],
                );
            }
        }
    }

    /// A run of any length takes a machine that is in order to a machine
    /// that is in order.
    pub proof fn lemma_run_keeps_order(self, fuel: nat)
        requires
            self.wf(),
        ensures
            self.run(fuel).0.wf(),
        decreases fuel,
    {
        if fuel > 0 {
            self.lemma_step_keeps_order();
            let (next, signal) = self.step();
            if signal == Ok::<Signal, crate::errors::ErrorView>(Signal::Running) {
                next.lemma_run_keeps_order((fuel - 1) as nat);
            }
        }
    }

    /// Handing a number to a machine that is in order leaves it in order.
    pub proof fn lemma_supply_keeps_order(self, value: Float)
        requires
            self.wf(),
        ensures
            self.supply(value).0.wf(),
    {
        if self.phase is AwaitingFloat {
            self.lemma_push(ValueView::Float(value));
        }
    }

    /// A run that ends normally leaves an empty stack: the results of the
    /// outermost call are handed out, not left behind.
    pub proof fn lemma_finished_leaves_nothing(self, fuel: nat)
        requires
            self.wf(),
        ensures
            self.run(fuel).1 matches Ok(Signal::Finished(_)) ==> self.run(fuel).0.stack.len() == 0
                && self.run(fuel).0.frames.len() == 0 && self.run(fuel).0.phase is Halted,
        decreases fuel,
    {
        if fuel > 0 {
            self.lemma_step_keeps_order();
            let (next, signal) = self.step();
            if signal == Ok::<Signal, ErrorView>(Signal::Running) {
                next.lemma_finished_leaves_nothing((fuel - 1) as nat);
            }
        }
    }

    /// When a frame returns, every cell that it opened is closed, however
    /// the return ends: with results handed down, with the run finished, or
    /// with an error.
    pub proof fn lemma_return_closes_cells(self, op: Op)
        requires
            self.wf(),
            self.fetches(op),
            returned(op) is Some,
        ensures
            forall|k: int|
                0 <= k < self.frame().cells.len() ==> self.step().0.cells[#[trigger] self.frame().cells[k]] is Closed,
            self.step().0.cells.len() == self.cells.len(),
    {
        let frame = self.frame();
        let advanced = self.with_frame(Frame { ip: frame.ip + 1, ..frame });
        let count = returned(op)->Some_0;
        assert(self.step() == advanced.leave(count));
        assert(advanced.frame().cells == frame.cells);
        assert(frame.wf(self.stack.len() as int, self.cells.len() as int));
        assert forall|k: int| 0 <= k < frame.cells.len() implies self.step().0.cells[#[trigger] frame.cells[k]] is Closed by {
            let id = frame.cells[k];
            assert(0 <= id < self.cells.len());
            assert(frame.cells.contains(id));
        }
    }

    /// While a frame is on the call stack, a step that goes on takes no
    /// cell out of its list: whatever the frame opened is still listed when
    /// the frame returns.
    pub proof fn lemma_frame_keeps_cells(self, i: int, k: int)
        requires
            self.wf(),
            0 <= i < self.frames.len(),
            0 <= i < self.step().0.frames.len(),
            0 <= k < self.frames[i].cells.len(),
        ensures
            k < self.step().0.frames[i].cells.len(),
            self.step().0.frames[i].cells[k] == self.frames[i].cells[k],
            self.step().0.frames[i].base == self.frames[i].base,
    {
        if self.phase is Running {
            let frame = self.frame();
            if frame.ip < frame.code().len() {
                let advanced = self.with_frame(Frame { ip: frame.ip + 1, ..frame });
                assert(advanced.frames[i].cells == self.frames[i].cells);
                assert(advanced.frames[i].base == self.frames[i].base);
            }
        }
    }

    /// After a call that expected `r` results and got `n`, with `n` at least
    /// `r`: the caller runs again, what lay below the callee is untouched,
    /// and on top of it lie exactly the first `r` results, in order.
    pub proof fn lemma_return_hands_results(self, op: Op, count: int)
        requires
            self.wf(),
            self.fetches(op),
            returned(op) == Some(count),
            self.frames.len() > 1,
            self.frame().results <= count <= self.depth(),
        ensures
            self.step().1 == Ok::<Signal, ErrorView>(Signal::Running),
            self.step().0.frames == self.frames.drop_last(),
            self.step().0.stack.len() == self.frame().base + self.frame().results,
            forall|j: int|
                0 <= j < self.frame().base ==> #[trigger] self.step().0.stack[j] == self.stack[j],
            forall|j: int|
                0 <= j < self.frame().results ==> #[trigger] self.step().0.stack[self.frame().base
                    + j] == self.stack[self.stack.len() - count + j],
    {
        let frame = self.frame();
        let advanced = self.with_frame(Frame { ip: frame.ip + 1, ..frame });
        assert(self.step() == advanced.leave(count));
        assert(frame.wf(self.stack.len() as int, self.cells.len() as int));
        assert(advanced.frames.drop_last() =~= self.frames.drop_last());
    }

    /// A call that expected more results than it got fails with the message
    /// that names both numbers, and the stack keeps only what lay below the
    /// callee.
    pub proof fn lemma_return_too_few(self, op: Op, count: int)
        requires
            self.wf(),
            self.fetches(op),
            returned(op) == Some(count),
            self.frames.len() > 1,
            count <= self.depth(),
            count < self.frame().results,
        ensures
            self.step().1 == Err::<Signal, ErrorView>(
                runtime(crate::errors::arity_message(self.frame().results as nat, count as nat)),
            ),
            self.step().0.stack == self.stack.take(self.frame().base),
            self.step().0.phase is Halted,
    {
        let frame = self.frame();
        let advanced = self.with_frame(Frame { ip: frame.ip + 1, ..frame });
        assert(self.step() == advanced.leave(count));
    }

    /// The outermost frame hands out the top of the stack as the results
    /// of the run, first result at the bottom, and leaves nothing behind.
    pub proof fn lemma_outermost_return(self, op: Op, count: int)
        requires
            self.wf(),
            self.fetches(op),
            returned(op) == Some(count),
            self.frames.len() == 1,
            count <= self.depth(),
        ensures
            self.step().1 == Ok::<Signal, ErrorView>(
                Signal::Finished(
                    self.stack.subrange(self.stack.len() - count, self.stack.len() as int),
                ),
            ),
            self.step().0.stack.len() == 0,
            self.step().0.phase is Halted,
    {
        let frame = self.frame();
        let advanced = self.with_frame(Frame { ip: frame.ip + 1, ..frame });
        assert(self.step() == advanced.leave(count));
    }

    /// Monomorphism: a step whose instruction is an arithmetic or comparison
    /// instruction, and finds among its operands one of another kind, fails
    /// with a runtime error that names the kind it wanted, and leaves the
    /// stack as it found it.
    pub proof fn lemma_monomorphic(self, op: Op, kind: Kind, count: int, k: int)
        requires
            self.wf(),
            self.fetches(op),
            operands(op) == Some((kind, count)),
            0 <= k < count <= self.depth(),
            !kind.admits(self.top(k)),
        ensures
            self.step().1 == Err::<Signal, ErrorView>(runtime(kind.complaint())),
            self.step().0.stack == self.stack,
    {
        let frame = self.frame();
        let advanced = self.with_frame(Frame { ip: frame.ip + 1, ..frame });
        assert(advanced.stack == self.stack);
        assert(advanced.frame().base == frame.base);
        assert(advanced.top(0) == self.top(0));
        assert(advanced.top(1) == self.top(1));
    }

    /// Whatever instruction fails, the error is a runtime error, no frame
    /// and no open cell is left, and, unless the failure is a call that
    /// returned too few results, the stack is as the instruction found it.
    pub proof fn lemma_failure(self)
        requires
            self.wf(),
            self.step().1 is Err,
        ensures
            self.step().1->Err_0.kind == ErrorKind::Runtime,
            self.step().0.frames.len() == 0,
            self.phase is Running ==> forall|i: int|
                0 <= i < self.step().0.cells.len() ==> #[trigger] self.step().0.cells[i] is Closed,
            self.step().0.stack == self.stack || (self.frames.len() > 1 && self.step().0.stack
                == self.stack.take(self.frame().base)),
    {
        if self.phase is Running {
            self.lemma_torn_down();
            let frame = self.frame();
            if frame.ip < frame.code().len() {
                let advanced = self.with_frame(Frame { ip: frame.ip + 1, ..frame });
                self.lemma_with_ip(frame.ip + 1);
                advanced.lemma_torn_down();
                assert(advanced.torn_down() == self.torn_down());
                advanced.lemma_failed_execute(frame.code()[frame.ip]);
            }
        }
    }

    proof fn lemma_failed_execute(self, op: Op)
        requires
            self.wf(),
            self.phase is Running,
            self.execute(op).1 is Err,
        ensures
            self.execute(op).1->Err_0.kind == ErrorKind::Runtime,
            self.execute(op).0 == self.torn_down() || (self.frames.len() > 1 && self.execute(op).0
                == Machine { stack: self.stack.take(self.frame().base), ..self.torn_down() }),
    {
        let frame = self.frame();
        assert(frame.wf(self.stack.len() as int, self.cells.len() as int));
        match op {
            Op::End => {
                self.lemma_failed_leave(0);
            },
            Op::Return { results } => {
                self.lemma_failed_leave(results as int);
            },
            _ => {},
        }
    }

    proof fn lemma_failed_leave(self, count: int)
        requires
            self.wf(),
            self.phase is Running,
            self.leave(count).1 is Err,
        ensures
            self.leave(count).0 == self.torn_down() || (self.frames.len() > 1 && self.leave(count).0
                == Machine { stack: self.stack.take(self.frame().base), ..self.torn_down() }),
    {
        let frame = self.frame();
        if count <= self.depth() {
            let cells = close_cells(self.cells, frame.cells, self.stack);
            assert(close_all(cells, self.stack) =~= close_all(self.cells, self.stack));
        }
    }
}

} // verus!
