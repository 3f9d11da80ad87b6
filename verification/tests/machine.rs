use std::rc::Rc;

use crow::errors::{ErrorKind, Result};
use crow::float::{Float, FloatOp};
use crow::object::{Constants, Func, UpValueOrigin};
use crow::op::Arg24;
use crow::shorthand as op;
use crow::value::Value;
use crow::vm::model::Phase;
use crow::vm::{Outcome, Vm};
use crow::Op;

fn no_constants() -> Constants {
    Constants {
        ints: Box::new([]),
        floats: Box::new([]),
        strings: Box::new([]),
        funcs: Box::new([]),
    }
}

fn func_of(code: Vec<Op>, funcs: Vec<Rc<Func>>, up_values: Vec<UpValueOrigin>) -> Rc<Func> {
    Rc::new(Func::new(
        code.into_boxed_slice(),
        8,
        false,
        Constants::new(Box::new([]), Box::new([]), Box::new([]), funcs.into_boxed_slice()),
        up_values.into_boxed_slice(),
    ))
}

fn program(code: Vec<Op>) -> Rc<Func> {
    func_of(code, vec![], vec![])
}

fn ints_of(outcome: Outcome) -> Vec<i64> {
    match outcome {
        Outcome::Finished(values) => values.iter().map(|v| v.as_int().expect("an integer")).collect(),
        other => panic!("the run did not finish: {other:?}"),
    }
}

fn run_ints(func: Rc<Func>) -> Vec<i64> {
    let mut vm = Vm::new();
    let outcome = vm.run_function((), func).expect("the run fails");
    assert_eq!(vm.stack().len(), 0);
    assert_eq!(vm.depth(), 0);
    assert!(matches!(vm.phase(), Phase::Halted));
    ints_of(outcome)
}

fn run_error(func: Rc<Func>) -> (Vm, String) {
    let mut vm = Vm::new();
    let err = vm.run_function((), func).expect_err("the run succeeds");
    assert_eq!(err.kind, ErrorKind::Runtime);
    assert_eq!(vm.depth(), 0);
    assert!(matches!(vm.phase(), Phase::Halted));
    (vm, err.message)
}

fn push(value: i32) -> Op {
    op::push_int_inlined(value)
}

#[test]
fn test_basic_math() -> Result<()> {
    let code = &[
        Op::PushIntIn(Arg24::from_i64(7)?),
        Op::PushIntIn(Arg24::from_i64(11)?),
        Op::Int_Add,
        Op::End,
    ];

    let func = Rc::new(Func {
        code: code.iter().cloned().collect(),
        stack_size: 3,
        is_varg: true,
        constants: Constants {
            ints: Box::new([]),
            floats: Box::new([]),
            strings: Box::new([]),
            funcs: Box::new([]),
        },
        up_values: Box::new([]),
    });

    let env = ();

    let mut vm = Vm::new();

    vm.run_function(env, func)?;

    println!("stack: {:?}", vm.stack());

    Ok(())
}

#[test]
fn test_basic_branch() -> Result<()> {
    let func = Rc::new(Func {
        stack_size: 4,
        is_varg: true,
        constants: Constants {
            ints: Box::new([]),
            floats: Box::new([]),
            strings: Box::new([]),
            funcs: Box::new([]),
        },
        up_values: Box::new([]),
        code: Box::new([
            // locals a, b
            Op::PushIntIn(Arg24::from_i64(7)?),
            Op::PushIntIn(Arg24::from_i64(11)?),
            // if a > b
            Op::GetLocal { slot: 1 },
            Op::GetLocal { slot: 2 },
            Op::Int_Lt,
            Op::JumpZero {
                addr: Arg24::from_i64(2)?,
            },
            // then return 123
            Op::PushIntIn(Arg24::from_i64(123)?),
            Op::Return { results: 1 },
            // else
            Op::PushIntIn(Arg24::from_i64(456)?),
            Op::Return { results: 1 },
            Op::End,
        ]),
    });

    let env = ();

    let mut vm = Vm::new();

    vm.run_function(env, func)?;

    println!("stack: {:?}", vm.stack());

    Ok(())
}

/// The callable that this program puts in the call slot is a bare
/// prototype, not a closure, so the call is refused.
#[test]
fn test_basic_call() {
    let add_func = Rc::new(Func {
        stack_size: 2,
        is_varg: false,
        constants: no_constants(),
        up_values: Box::new([]),
        code: vec![Op::Int_Add, Op::Return { results: 1 }, Op::End].into_boxed_slice(),
    });

    let top_func = Rc::new(Func {
        stack_size: 6,
        is_varg: false,
        constants: Constants {
            ints: Box::new([]),
            floats: Box::new([]),
            strings: Box::new([]),
            funcs: Box::new([add_func]),
        },
        up_values: Box::new([]),
        code: Box::new([
            // locals a, b
            Op::PushIntIn(Arg24::from_i64(7).unwrap()),
            Op::PushIntIn(Arg24::from_i64(11).unwrap()),
            Op::PushFunc(Arg24::from_u32(0).unwrap()),
            Op::GetLocal { slot: 1 },
            Op::GetLocal { slot: 2 },
            Op::Call { base: 3, results: 1 },
            Op::End,
        ]),
    });

    let mut vm = Vm::new();
    let err = vm.run_function((), top_func).unwrap_err();
    println!("stack: {:?}", vm.stack());
    assert_eq!(err.message, "closure value expected");
    assert_eq!(vm.stack().len(), 6);
    assert!(vm.stack()[3].as_func().is_some());
}

fn fib_program(input: i32) -> Rc<Func> {
    // local fib = func(n: Int) -> Int {
    //    if n <= 1 {
    //       return n
    //    }
    //    return fib(n-1) + fib(n-2)
    // };
    let fib_func = Rc::new(Func {
        stack_size: 7,
        is_varg: false,
        constants: no_constants(),
        up_values: Box::new([
            UpValueOrigin::Parent(1), // local fib = func...
        ]),
        code: vec![
            // .local 1, n:Int
            // if n >= 1 then
            op::get_local(1),
            op::push_int_inlined(1),
            op::jump_gt(1),
            op::return_(1), // return local 1
            // fib(n-2)
            op::get_upvalue(0),
            op::get_local(1),
            op::push_int_inlined(2),
            op::int_sub(),
            op::call(2, 1),
            // fib(n-1)
            op::get_upvalue(0),
            op::get_local(1),
            op::push_int_inlined(1),
            op::int_sub(),
            op::call(3, 1),
            // fib(n-1) + fib(n-2)
            op::int_add(),
            op::return_(1),
            op::end(),
        ]
        .into_boxed_slice(),
    });

    Rc::new(Func {
        stack_size: 6,
        is_varg: false,
        constants: Constants {
            ints: Box::new([]),
            floats: Box::new([]),
            strings: Box::new([]),
            funcs: Box::new([fib_func]),
        },
        up_values: Box::new([]),
        code: Box::new([
            // local fib = func(n: Int) -> Int { ...
            op::create_closure(0),
            // fib(20)
            op::get_local(1),
            op::push_int_inlined(input),
            op::call(2, 1),
            op::return_(1),
            op::end(),
        ]),
    })
}

#[test]
fn test_recursion() -> Result<()> {
    const INPUT: i32 = 5;
    let top_func = fib_program(INPUT);

    let mut vm = Vm::new();
    vm.run_function((), top_func)?;

    Ok(())
}

#[test]
fn literal_add_leaves_the_sum_on_top() {
    let func = program(vec![push(7), push(11), op::int_add(), op::end()]);
    let mut vm = Vm::new();
    vm.start(func);
    assert_eq!(vm.stack().len(), 1);
    assert!(vm.stack()[0].as_closure().is_some());
    for _ in 0..3 {
        assert!(matches!(vm.step().unwrap(), Outcome::Running));
    }
    // One value above the callable, before `End`.
    assert_eq!(vm.stack().len(), 2);
    assert_eq!(vm.stack()[1].as_int(), Some(18));
    assert_eq!(vm.depth(), 1);
    assert!(matches!(vm.phase(), Phase::Running));
    match vm.step().unwrap() {
        Outcome::Finished(values) => assert!(values.is_empty()),
        other => panic!("{other:?}"),
    }
    assert_eq!(vm.stack().len(), 0);
    assert_eq!(vm.depth(), 0);
    let err = vm.step().unwrap_err();
    assert_eq!(err.message, "machine is not running");
}

#[test]
fn branch_on_less_than_returns_123() {
    let func = program(vec![
        push(7),
        push(11),
        op::get_local(1),
        op::get_local(2),
        Op::Int_Lt,
        Op::JumpZero { addr: Arg24::from_i64(2).unwrap() },
        push(123),
        op::return_(1),
        push(456),
        op::return_(1),
    ]);
    assert_eq!(run_ints(func), vec![123]);
    let other = program(vec![
        push(11),
        push(7),
        op::get_local(1),
        op::get_local(2),
        Op::Int_Lt,
        Op::JumpZero { addr: Arg24::from_i64(2).unwrap() },
        push(123),
        op::return_(1),
        push(456),
        op::return_(1),
    ]);
    assert_eq!(run_ints(other), vec![456]);
}

#[test]
fn direct_call_of_a_closure_adds() {
    let add = program(vec![op::int_add(), op::return_(1)]);
    let top = func_of(
        vec![
            push(7),
            push(11),
            op::create_closure(0),
            op::get_local(1),
            op::get_local(2),
            op::call(3, 1),
            op::return_(1),
        ],
        vec![add],
        vec![],
    );
    assert_eq!(run_ints(top), vec![18]);
}

#[test]
fn recursive_fibonacci_with_captured_self() {
    assert_eq!(run_ints(fib_program(5)), vec![5]);
    assert_eq!(run_ints(fib_program(0)), vec![0]);
    assert_eq!(run_ints(fib_program(1)), vec![1]);
    assert_eq!(run_ints(fib_program(10)), vec![55]);
    assert_eq!(run_ints(fib_program(15)), vec![610]);
}

fn escaping_closure_program() -> Rc<Func> {
    let inner = func_of(
        vec![op::get_upvalue(0), op::return_(1)],
        vec![],
        vec![UpValueOrigin::Parent(1)],
    );
    let outer = func_of(vec![push(42), op::create_closure(0), op::return_(1)], vec![inner], vec![]);
    func_of(
        vec![op::create_closure(0), op::call(1, 1), op::call(1, 1), op::return_(1)],
        vec![outer],
        vec![],
    )
}

#[test]
fn closed_up_value_outlives_its_frame() {
    assert_eq!(run_ints(escaping_closure_program()), vec![42]);
}

#[test]
fn cells_of_a_frame_are_closed_when_it_returns() {
    let mut vm = Vm::new();
    vm.start(escaping_closure_program());
    // create outer, call it, push 42, create inner
    for _ in 0..4 {
        assert!(matches!(vm.step().unwrap(), Outcome::Running));
    }
    assert_eq!(vm.depth(), 2);
    assert_eq!(vm.cells().len(), 1);
    assert!(matches!(vm.cells()[0], crow::object::UpValue::Open(2)));
    // return from outer
    assert!(matches!(vm.step().unwrap(), Outcome::Running));
    assert_eq!(vm.depth(), 1);
    match &vm.cells()[0] {
        crow::object::UpValue::Closed(value) => assert_eq!(value.as_int(), Some(42)),
        other => panic!("{other:?}"),
    }
    assert_eq!(vm.stack().len(), 2);
    assert!(vm.stack()[1].as_closure().is_some());
}

#[test]
fn shared_cell_is_seen_by_every_closure() {
    // The grand-child shares its parent's cell through `Outer`: what the
    // parent writes after its own maker has returned, the grand-child reads.
    let leaf = func_of(
        vec![op::get_upvalue(0), op::return_(1)],
        vec![],
        vec![UpValueOrigin::Outer(0)],
    );
    let get = func_of(
        vec![op::create_closure(0), push(5), op::set_upvalue(0), op::call(1, 1), op::return_(1)],
        vec![leaf],
        vec![UpValueOrigin::Parent(1)],
    );
    let maker = func_of(vec![push(10), op::create_closure(0), op::return_(1)], vec![get], vec![]);
    let top = func_of(
        vec![op::create_closure(0), op::call(1, 1), op::call(1, 1), op::return_(1)],
        vec![maker],
        vec![],
    );
    assert_eq!(run_ints(top), vec![5]);
}

#[test]
fn an_open_cell_aliases_the_local() {
    let set = func_of(
        vec![op::get_local(1), op::set_upvalue(0), op::return_(0)],
        vec![],
        vec![UpValueOrigin::Parent(1)],
    );
    let get = func_of(vec![op::get_upvalue(0), op::return_(1)], vec![], vec![UpValueOrigin::Parent(1)]);
    let top = func_of(
        vec![
            push(10),              // slot 1: n
            op::create_closure(0), // slot 2: set
            op::create_closure(1), // slot 3: get
            op::get_local(2),      // slot 4: set
            push(77),              // slot 5: argument
            op::call(4, 0),        // set(77) while n is still open
            op::get_local(3),
            op::call(4, 1),        // get()
            op::get_local(1),
            op::return_(2),
        ],
        vec![set, get],
        vec![],
    );
    assert_eq!(run_ints(top), vec![77, 77]);
}

#[test]
fn arity_mismatch_is_an_error() {
    let callee = program(vec![push(1), op::return_(1)]);
    let top = func_of(
        vec![push(9), op::create_closure(0), op::call(2, 2), op::end()],
        vec![callee],
        vec![],
    );
    let (vm, message) = run_error(top);
    assert_eq!(message, "caller expected 2 results, callee returned 1");
    // What lay below the callee is all that is left.
    assert_eq!(vm.stack().len(), 2);
    assert_eq!(vm.stack()[1].as_int(), Some(9));
}

#[test]
fn surplus_results_are_dropped() {
    let callee = program(vec![push(1), push(2), push(3), op::return_(3)]);
    let top = func_of(
        vec![push(9), op::create_closure(0), op::call(2, 2), op::return_(3)],
        vec![callee],
        vec![],
    );
    assert_eq!(run_ints(top), vec![9, 1, 2]);
    let callee = program(vec![push(1), push(2), op::return_(2)]);
    let top = func_of(
        vec![push(9), op::create_closure(0), op::call(2, 0), op::return_(1)],
        vec![callee],
        vec![],
    );
    assert_eq!(run_ints(top), vec![9]);
}

#[test]
fn end_returns_nothing() {
    let callee = program(vec![push(1), op::end()]);
    let top = func_of(
        vec![push(9), op::create_closure(0), op::call(2, 0), op::return_(1)],
        vec![callee.clone()],
        vec![],
    );
    assert_eq!(run_ints(top), vec![9]);
    let top = func_of(vec![op::create_closure(0), op::call(1, 1), op::end()], vec![callee], vec![]);
    let (_, message) = run_error(top);
    assert_eq!(message, "caller expected 1 results, callee returned 0");
}

#[test]
fn integer_arithmetic() {
    let cases: Vec<(Op, i32, i32, i64)> = vec![
        (Op::Int_Add, 7, 11, 18),
        (Op::Int_Sub, 7, 11, -4),
        (Op::Int_Mul, -7, 11, -77),
        (Op::Int_Div, 7, 2, 3),
        (Op::Int_Div, -7, 2, -3),
        (Op::Int_Div, 7, -2, -3),
        (Op::Int_Div, -7, -2, 3),
        (Op::Int_Mod, 7, 3, 1),
        (Op::Int_Mod, -7, 3, -1),
        (Op::Int_Mod, 7, -3, 1),
        (Op::Int_Mod, -7, -3, -1),
        (Op::Int_Ne, 1, 2, 1),
        (Op::Int_Ne, 2, 2, 0),
        (Op::Int_Eq, 2, 2, 1),
        (Op::Int_Eq, 1, 2, 0),
        (Op::Int_Lt, 1, 2, 1),
        (Op::Int_Lt, 2, 2, 0),
        (Op::Int_Le, 2, 2, 1),
        (Op::Int_Le, 3, 2, 0),
        (Op::Int_Gt, 3, 2, 1),
        (Op::Int_Gt, 2, 2, 0),
        (Op::Int_Ge, 2, 2, 1),
        (Op::Int_Ge, 1, 2, 0),
    ];
    for (instruction, a, b, expected) in cases {
        let func = program(vec![push(a), push(b), instruction, op::return_(1)]);
        assert_eq!(run_ints(func), vec![expected], "{instruction:?} {a} {b}");
    }
    let func = program(vec![push(5), Op::Int_Neg, op::return_(1)]);
    assert_eq!(run_ints(func), vec![-5]);
}

fn with_ints(ints: Vec<i64>, code: Vec<Op>) -> Rc<Func> {
    Rc::new(Func::new(
        code.into_boxed_slice(),
        8,
        false,
        Constants::new(ints.into_boxed_slice(), Box::new([]), Box::new([]), Box::new([])),
        Box::new([]),
    ))
}

fn constant(index: u32) -> Op {
    Op::PushInt(Arg24::from_u32(index).unwrap())
}

#[test]
fn integer_arithmetic_wraps() {
    let ints = vec![i64::MAX, i64::MIN, 1, -1, 2];
    let run = |code: Vec<Op>| run_ints(with_ints(ints.clone(), code));
    assert_eq!(run(vec![constant(0), constant(2), Op::Int_Add, op::return_(1)]), vec![i64::MIN]);
    assert_eq!(run(vec![constant(1), constant(2), Op::Int_Sub, op::return_(1)]), vec![i64::MAX]);
    assert_eq!(run(vec![constant(0), constant(4), Op::Int_Mul, op::return_(1)]), vec![-2]);
    assert_eq!(run(vec![constant(1), constant(3), Op::Int_Div, op::return_(1)]), vec![i64::MIN]);
    assert_eq!(run(vec![constant(1), constant(3), Op::Int_Mod, op::return_(1)]), vec![0]);
    assert_eq!(run(vec![constant(1), Op::Int_Neg, op::return_(1)]), vec![i64::MIN]);
    assert_eq!(run(vec![constant(0), Op::Int_Neg, op::return_(1)]), vec![i64::MIN + 1]);
}

#[test]
fn division_by_zero_is_an_error() {
    for instruction in [Op::Int_Div, Op::Int_Mod] {
        let (vm, message) = run_error(program(vec![push(1), push(0), instruction, op::end()]));
        assert_eq!(message, "integer divide by zero");
        assert_eq!(vm.stack().len(), 3);
    }
}

#[test]
fn constants_are_fetched_by_index() {
    assert_eq!(
        run_ints(with_ints(vec![40, 2], vec![constant(0), constant(1), op::int_add(), op::return_(1)])),
        vec![42]
    );
    let (_, message) = run_error(with_ints(vec![40, 2], vec![constant(2), op::end()]));
    assert_eq!(message, "no integer constant defined: 2");
    let (_, message) = run_error(program(vec![Op::PushFloat(Arg24::from_u32(12).unwrap())]));
    assert_eq!(message, "no float constant defined: 12");
    let (_, message) = run_error(program(vec![Op::PushString(Arg24::from_u32(3).unwrap())]));
    assert_eq!(message, "no string constant defined: 3");
    let (_, message) = run_error(program(vec![Op::PushFunc(Arg24::from_u32(100).unwrap())]));
    assert_eq!(message, "no function found at constant 100");
    let (_, message) = run_error(program(vec![op::create_closure(0)]));
    assert_eq!(message, "constant not found");
}

#[test]
fn wrong_kind_of_operand_keeps_the_stack() {
    let float = Rc::new(Func::new(
        vec![push(1), Op::PushFloat(Arg24::from_u32(0).unwrap()), Op::NoOp, op::end()].into_boxed_slice(),
        4,
        false,
        Constants::new(
            Box::new([]),
            Box::new([Float::from_bits(1.5f64.to_bits())]),
            Box::new([]),
            Box::new([]),
        ),
        Box::new([]),
    ));
    let instructions = [
        Op::Int_Add, Op::Int_Sub, Op::Int_Mul, Op::Int_Div, Op::Int_Mod, Op::Int_Ne, Op::Int_Eq,
        Op::Int_Lt, Op::Int_Le, Op::Int_Gt, Op::Int_Ge, Op::Int_Neg, Op::Float_Add, Op::Float_Sub,
        Op::Float_Mul, Op::Float_Div, Op::Float_Mod, Op::Float_Ne, Op::Float_Eq, Op::Float_Lt,
        Op::Float_Le, Op::Float_Gt, Op::Float_Ge,
    ];
    for instruction in instructions {
        let mut code: Vec<Op> = float.code.iter().cloned().collect();
        code[2] = instruction;
        let func = Rc::new(Func::new(
            code.into_boxed_slice(),
            4,
            false,
            Constants::new(
                Box::new([]),
                Box::new([Float::from_bits(1.5f64.to_bits())]),
                Box::new([]),
                Box::new([]),
            ),
            Box::new([]),
        ));
        let mut vm = Vm::new();
        vm.start(func);
        vm.step().unwrap();
        vm.step().unwrap();
        assert_eq!(vm.stack().len(), 3);
        let err = vm.step().unwrap_err();
        assert_eq!(err.kind, ErrorKind::Runtime, "{instruction:?}");
        let expected = match instruction {
            Op::Int_Neg => "integer value expected",
            Op::Float_Add | Op::Float_Sub | Op::Float_Mul | Op::Float_Div | Op::Float_Mod
            | Op::Float_Ne | Op::Float_Eq | Op::Float_Lt | Op::Float_Le | Op::Float_Gt
            | Op::Float_Ge => "float value expected",
            _ => "integer value expected",
        };
        assert_eq!(err.message, expected, "{instruction:?}");
        assert_eq!(vm.stack().len(), 3, "{instruction:?}");
        assert_eq!(vm.stack()[1].as_int(), Some(1));
        assert_eq!(vm.stack()[2].as_float().map(|f| f.to_bits()), Some(1.5f64.to_bits()));
    }
    // Negating an integer as a float.
    let (vm, message) = run_error(program(vec![push(1), Op::Float_Neg]));
    assert_eq!(message, "float value expected");
    assert_eq!(vm.stack().len(), 2);
}

#[test]
fn stack_underflow_is_an_error() {
    let cases = vec![
        vec![Op::Pop(Arg24::from_u32(2).unwrap())],
        vec![op::return_(2)],
        vec![op::noop(), op::int_add()],
        vec![Op::Pop(Arg24::from_u32(1).unwrap()), Op::Int_Neg],
        vec![Op::Pop(Arg24::from_u32(1).unwrap()), op::set_local(0)],
        vec![Op::Pop(Arg24::from_u32(1).unwrap()), Op::JumpZero { addr: Arg24::from_i64(0).unwrap() }],
        vec![op::jump_gt(0)],
        vec![Op::Str_Concat],
        vec![Op::Str_Slice],
        vec![Op::Float_Add],
        vec![Op::Float_Eq],
        vec![Op::Pop(Arg24::from_u32(1).unwrap()), Op::Float_Neg],
        vec![Op::Pop(Arg24::from_u32(1).unwrap()), op::set_upvalue(0)],
    ];
    for code in cases {
        let shown = format!("{code:?}");
        let (_, message) = run_error(program(code));
        assert_eq!(message, "stack underflow", "{shown}");
    }
}

#[test]
fn a_callee_cannot_pop_below_its_base() {
    let callee = program(vec![Op::Pop(Arg24::from_u32(2).unwrap()), op::end()]);
    let top = func_of(
        vec![push(9), op::create_closure(0), op::call(2, 0), op::end()],
        vec![callee],
        vec![],
    );
    let (vm, message) = run_error(top);
    assert_eq!(message, "stack underflow");
    assert_eq!(vm.stack().len(), 3);
}

#[test]
fn pop_discards_values() {
    let func = program(vec![push(1), push(2), push(3), Op::Pop(Arg24::from_u32(2).unwrap()), op::return_(1)]);
    assert_eq!(run_ints(func), vec![1]);
    let func = program(vec![push(1), op::pop(0), op::noop(), op::return_(1)]);
    assert_eq!(run_ints(func), vec![1]);
}

#[test]
fn set_local_keeps_the_value_on_the_stack() {
    let func = program(vec![push(1), push(2), op::set_local(1), op::return_(2)]);
    assert_eq!(run_ints(func), vec![2, 2]);
    let (_, message) = run_error(program(vec![push(1), op::set_local(2)]));
    assert_eq!(message, "local slot out of range");
    let (_, message) = run_error(program(vec![op::get_local(1)]));
    assert_eq!(message, "local slot out of range");
}

#[test]
fn locals_are_relative_to_the_frame() {
    let callee = program(vec![op::get_local(1), op::get_local(2), op::int_sub(), op::return_(1)]);
    let top = func_of(
        vec![push(100), op::create_closure(0), push(50), push(8), op::call(2, 1), op::return_(2)],
        vec![callee],
        vec![],
    );
    assert_eq!(run_ints(top), vec![100, 42]);
}

#[test]
fn jumps() {
    let addr = |n: i64| Arg24::from_i64(n).unwrap();
    // Jump is relative to the instruction after the jump.
    let func = program(vec![op::jump(1), push(1), push(2), op::return_(1)]);
    assert_eq!(run_ints(func), vec![2]);
    // A loop that counts down from 3: the sum 3 + 2 + 1 is left.
    let func = program(vec![
        push(0),                       // slot 1: sum
        push(3),                       // slot 2: counter
        op::get_local(1),              // 2
        op::get_local(2),
        op::int_add(),
        op::set_local(1),
        op::pop(1),
        op::get_local(2),              // 7
        push(1),
        op::int_sub(),
        op::set_local(2),
        Op::JumpNe { addr: addr(-10) }, // 11: back to 2 while the counter is not zero
        op::get_local(1),
        op::return_(1),
    ]);
    assert_eq!(run_ints(func), vec![6]);
    let taken = |instruction: Op, values: Vec<i32>| {
        let mut code: Vec<Op> = values.into_iter().map(push).collect();
        code.extend([instruction, push(0), op::return_(1), push(1), op::return_(1)]);
        run_ints(program(code))[0] == 1
    };
    assert!(taken(Op::JumpZero { addr: addr(2) }, vec![0]));
    assert!(!taken(Op::JumpZero { addr: addr(2) }, vec![5]));
    assert!(taken(Op::JumpEq { addr: addr(2) }, vec![0]));
    assert!(!taken(Op::JumpEq { addr: addr(2) }, vec![-1]));
    assert!(taken(Op::JumpNe { addr: addr(2) }, vec![-1]));
    assert!(!taken(Op::JumpNe { addr: addr(2) }, vec![0]));
    assert!(taken(Op::JumpLt { addr: addr(2) }, vec![-1]));
    assert!(!taken(Op::JumpLt { addr: addr(2) }, vec![0]));
    assert!(taken(Op::JumpLe { addr: addr(2) }, vec![0]));
    assert!(!taken(Op::JumpLe { addr: addr(2) }, vec![1]));
    assert!(taken(Op::JumpGe { addr: addr(2) }, vec![0]));
    assert!(!taken(Op::JumpGe { addr: addr(2) }, vec![-1]));
    assert!(taken(Op::JumpGt { addr: addr(2) }, vec![2, 1]));
    assert!(!taken(Op::JumpGt { addr: addr(2) }, vec![1, 1]));
    assert!(!taken(Op::JumpGt { addr: addr(2) }, vec![1, 2]));
}

#[test]
fn conditional_jumps_pop_their_operands() {
    let func = program(vec![push(7), push(0), Op::JumpZero { addr: Arg24::from_i64(0).unwrap() }, op::return_(1)]);
    assert_eq!(run_ints(func), vec![7]);
    let func = program(vec![push(7), push(2), push(1), op::jump_gt(0), op::return_(1)]);
    assert_eq!(run_ints(func), vec![7]);
}

#[test]
fn instruction_pointer_out_of_range_is_an_error() {
    let message = "instruction pointer out of bytecode bounds";
    assert_eq!(run_error(program(vec![])).1, message);
    assert_eq!(run_error(program(vec![push(1)])).1, message);
    assert_eq!(run_error(program(vec![op::jump(-2)])).1, message);
    assert_eq!(run_error(program(vec![op::jump(1)])).1, message);
    // Just past the end is a place to jump to; the fetch there fails.
    assert_eq!(run_error(program(vec![op::jump(0)])).1, message);
    let (vm, text) = run_error(program(vec![push(0), Op::JumpZero { addr: Arg24::from_i64(5).unwrap() }]));
    assert_eq!(text, message);
    assert_eq!(vm.stack().len(), 2);
    // The callable in slot 0 is no integer.
    let (_, text) = run_error(program(vec![push(1), Op::JumpZero { addr: Arg24::from_i64(0).unwrap() }, op::jump_le(0)]));
    assert_eq!(text, "integer value expected");
}

#[test]
fn calling_what_is_no_closure_is_an_error() {
    assert_eq!(run_error(program(vec![push(1), op::call(1, 0)])).1, "closure value expected");
    assert_eq!(run_error(program(vec![op::call(1, 0)])).1, "closure value expected");
    assert_eq!(run_error(program(vec![op::call(65535, 0)])).1, "closure value expected");
}

#[test]
fn slot_zero_holds_the_callable() {
    let func = program(vec![op::get_local(0), op::return_(1)]);
    let mut vm = Vm::new();
    match vm.run_function((), func.clone()).unwrap() {
        Outcome::Finished(values) => {
            assert_eq!(values.len(), 1);
            let closure = values[0].as_closure().expect("a closure");
            assert!(Rc::ptr_eq(&closure.func, &func));
            assert!(closure.up_values.is_empty());
        }
        other => panic!("{other:?}"),
    }
}

#[test]
fn up_value_errors() {
    assert_eq!(run_error(program(vec![op::get_upvalue(0)])).1, "up-value not found");
    assert_eq!(run_error(program(vec![push(1), op::set_upvalue(0)])).1, "up-value not found");
    // A capture of an up-value that the enclosing closure does not have.
    let inner = func_of(vec![op::end()], vec![], vec![UpValueOrigin::Outer(0)]);
    let top = func_of(vec![op::create_closure(0)], vec![inner], vec![]);
    let (vm, message) = run_error(top);
    assert_eq!(message, "up-value not found");
    assert_eq!(vm.stack().len(), 1);
    assert_eq!(vm.cells().len(), 0);
    // An open cell whose slot is not on the stack.
    let inner = func_of(vec![op::get_upvalue(0), op::return_(1)], vec![], vec![UpValueOrigin::Parent(5)]);
    let top = func_of(vec![op::create_closure(0), op::call(1, 1)], vec![inner], vec![]);
    assert_eq!(run_error(top).1, "up-value not found");
}

#[test]
fn an_error_closes_every_open_cell() {
    let inner = func_of(vec![push(1), push(0), Op::Int_Div], vec![], vec![UpValueOrigin::Parent(1)]);
    let top = func_of(vec![push(33), op::create_closure(0), op::call(2, 0)], vec![inner], vec![]);
    let (vm, message) = run_error(top);
    assert_eq!(message, "integer divide by zero");
    assert_eq!(vm.cells().len(), 1);
    match &vm.cells()[0] {
        crow::object::UpValue::Closed(value) => assert_eq!(value.as_int(), Some(33)),
        other => panic!("{other:?}"),
    }
}

#[test]
fn a_cell_whose_slot_is_gone_closes_over_an_empty_slot() {
    let inner = func_of(vec![op::get_upvalue(0), op::return_(1)], vec![], vec![UpValueOrigin::Parent(3)]);
    let outer = func_of(vec![op::create_closure(0), op::return_(1)], vec![inner], vec![]);
    let top = func_of(
        vec![op::create_closure(0), op::call(1, 1), op::call(1, 1), op::return_(1)],
        vec![outer],
        vec![],
    );
    assert_eq!(run_ints(top), vec![0]);
}

#[test]
fn reserved_instructions_are_refused() {
    let reserved = [
        Op::Load { offset: 0, len: 1 },
        Op::Store { offset: 0, len: 1 },
        Op::SetGlobal { string: 0 },
        Op::GetGlobal { string: 0 },
        Op::CaptureValue { from_parent: true, index: 0 },
    ];
    for instruction in reserved {
        let (vm, message) = run_error(program(vec![push(1), instruction]));
        assert_eq!(message, "unsupported instruction");
        assert_eq!(vm.stack().len(), 2);
    }
}

fn floats_program(floats: Vec<f64>, code: Vec<Op>) -> Rc<Func> {
    let floats: Vec<Float> = floats.into_iter().map(|f| Float::from_bits(f.to_bits())).collect();
    Rc::new(Func::new(
        code.into_boxed_slice(),
        8,
        false,
        Constants::new(Box::new([]), floats.into_boxed_slice(), Box::new([]), Box::new([])),
        Box::new([]),
    ))
}

fn float_constant(index: u32) -> Op {
    Op::PushFloat(Arg24::from_u32(index).unwrap())
}

/// Runs to the end, computing for the machine what it asks for.
fn drive(vm: &mut Vm, func: Rc<Func>) -> Vec<Value> {
    let mut outcome = vm.run_function((), func).unwrap();
    loop {
        match outcome {
            Outcome::Finished(values) => return values,
            Outcome::Running => outcome = vm.resume(u64::MAX).unwrap(),
            Outcome::FloatPending(request) => {
                let a = f64::from_bits(request.lhs.to_bits());
                let b = f64::from_bits(request.rhs.to_bits());
                let value = match request.op {
                    FloatOp::Add => a + b,
                    FloatOp::Sub => a - b,
                    FloatOp::Mul => a * b,
                    FloatOp::Div => a / b,
                    FloatOp::Mod => a % b,
                };
                vm.supply_float(Float::from_bits(value.to_bits())).unwrap();
                outcome = vm.resume(u64::MAX).unwrap();
            }
        }
    }
}

#[test]
fn float_arithmetic_is_handed_to_the_host() {
    let func = floats_program(vec![1.5, 2.25], vec![float_constant(0), float_constant(1), Op::Float_Add, op::return_(1)]);
    let mut vm = Vm::new();
    match vm.run_function((), func).unwrap() {
        Outcome::FloatPending(request) => {
            assert_eq!(request.op, FloatOp::Add);
            assert_eq!(f64::from_bits(request.lhs.to_bits()), 1.5);
            assert_eq!(f64::from_bits(request.rhs.to_bits()), 2.25);
        }
        other => panic!("{other:?}"),
    }
    // The operands are gone, and the machine says again what it waits for.
    assert_eq!(vm.stack().len(), 1);
    assert!(matches!(vm.phase(), Phase::AwaitingFloat(_)));
    assert!(matches!(vm.step().unwrap(), Outcome::FloatPending(_)));
    assert!(matches!(vm.resume(10).unwrap(), Outcome::FloatPending(_)));
    vm.supply_float(Float::from_bits(3.75f64.to_bits())).unwrap();
    assert_eq!(vm.stack().len(), 2);
    assert!(matches!(vm.phase(), Phase::Running));
    let err = vm.supply_float(Float::from_bits(0)).unwrap_err();
    assert_eq!(err.message, "no float operation is pending");
    match vm.resume(u64::MAX).unwrap() {
        Outcome::Finished(values) => {
            assert_eq!(values.len(), 1);
            assert_eq!(values[0].as_float().unwrap().to_bits(), 3.75f64.to_bits());
        }
        other => panic!("{other:?}"),
    }
}

#[test]
fn float_programs_run_with_a_host() {
    let cases: Vec<(Op, f64)> = vec![
        (Op::Float_Add, 7.5 + 2.0),
        (Op::Float_Sub, 7.5 - 2.0),
        (Op::Float_Mul, 7.5 * 2.0),
        (Op::Float_Div, 7.5 / 2.0),
        (Op::Float_Mod, 7.5 % 2.0),
    ];
    for (instruction, expected) in cases {
        let func = floats_program(vec![7.5, 2.0], vec![float_constant(0), float_constant(1), instruction, op::return_(1)]);
        let values = drive(&mut Vm::new(), func);
        assert_eq!(f64::from_bits(values[0].as_float().unwrap().to_bits()), expected);
    }
    let func = floats_program(vec![1.0, 0.0], vec![float_constant(0), float_constant(1), Op::Float_Div, op::return_(1)]);
    let values = drive(&mut Vm::new(), func);
    assert_eq!(f64::from_bits(values[0].as_float().unwrap().to_bits()), f64::INFINITY);
    let func = floats_program(vec![0.0], vec![float_constant(0), float_constant(0), Op::Float_Div, op::return_(1)]);
    let values = drive(&mut Vm::new(), func);
    assert!(f64::from_bits(values[0].as_float().unwrap().to_bits()).is_nan());
}

#[test]
fn float_comparisons_and_negation_need_no_host() {
    let samples = [0.0, -0.0, 1.0, -1.0, 1.5, f64::INFINITY, f64::NEG_INFINITY, f64::NAN, f64::MIN_POSITIVE, f64::MAX, -f64::MAX, 5e-324];
    for a in samples {
        for b in samples {
            let cases: Vec<(Op, bool)> = vec![
                (Op::Float_Ne, a != b),
                (Op::Float_Eq, a == b),
                (Op::Float_Lt, a < b),
                (Op::Float_Le, a <= b),
                (Op::Float_Gt, a > b),
                (Op::Float_Ge, a >= b),
            ];
            for (instruction, expected) in cases {
                let func = floats_program(vec![a, b], vec![float_constant(0), float_constant(1), instruction, op::return_(1)]);
                assert_eq!(run_ints(func), vec![expected as i64], "{instruction:?} {a} {b}");
            }
        }
        let func = floats_program(vec![a], vec![float_constant(0), Op::Float_Neg, op::return_(1)]);
        let mut vm = Vm::new();
        match vm.run_function((), func).unwrap() {
            Outcome::Finished(values) => {
                assert_eq!(values[0].as_float().unwrap().to_bits(), (-a).to_bits());
            }
            other => panic!("{other:?}"),
        }
    }
}

fn strings_program(strings: Vec<&str>, code: Vec<Op>) -> Rc<Func> {
    let strings: Vec<String> = strings.into_iter().map(String::from).collect();
    Rc::new(Func::new(
        code.into_boxed_slice(),
        8,
        false,
        Constants::new(Box::new([]), Box::new([]), strings.into_boxed_slice(), Box::new([])),
        Box::new([]),
    ))
}

fn string_constant(index: u32) -> Op {
    Op::PushString(Arg24::from_u32(index).unwrap())
}

fn run_string(func: Rc<Func>) -> String {
    let mut vm = Vm::new();
    match vm.run_function((), func).unwrap() {
        Outcome::Finished(values) => values[0].as_string().expect("a string").as_ref().clone(),
        other => panic!("{other:?}"),
    }
}

#[test]
fn strings_concatenate() {
    let func = strings_program(vec!["foo", "bar"], vec![string_constant(0), string_constant(1), Op::Str_Concat, op::return_(1)]);
    assert_eq!(run_string(func), "foobar");
    let func = strings_program(vec!["", "h\u{e9}"], vec![string_constant(1), string_constant(0), Op::Str_Concat, op::return_(1)]);
    assert_eq!(run_string(func), "h\u{e9}");
    let (vm, message) = run_error(strings_program(vec!["foo"], vec![string_constant(0), push(1), Op::Str_Concat]));
    assert_eq!(message, "string value expected");
    assert_eq!(vm.stack().len(), 3);
}

#[test]
fn strings_slice_by_bytes() {
    let slice = |start: i32, end: i32| {
        strings_program(vec!["h\u{e9}llo"], vec![string_constant(0), push(start), push(end), Op::Str_Slice, op::return_(1)])
    };
    assert_eq!(run_string(slice(0, 6)), "h\u{e9}llo");
    assert_eq!(run_string(slice(1, 3)), "\u{e9}");
    assert_eq!(run_string(slice(3, 5)), "ll");
    assert_eq!(run_string(slice(6, 6)), "");
    for (start, end) in [(0, 7), (-1, 2), (3, 2), (1, 2), (2, 4), (7, 7)] {
        let (vm, message) = run_error(slice(start, end));
        assert_eq!(message, "string index out of range", "{start} {end}");
        assert_eq!(vm.stack().len(), 4);
    }
    let (_, message) = run_error(strings_program(vec!["x"], vec![push(0), push(0), push(1), Op::Str_Slice]));
    assert_eq!(message, "string value expected");
    let (_, message) = run_error(strings_program(vec!["x"], vec![string_constant(0), string_constant(0), push(1), Op::Str_Slice]));
    assert_eq!(message, "integer value expected");
}

#[test]
fn push_func_pushes_the_prototype() {
    let nested = program(vec![op::end()]);
    let top = func_of(vec![Op::PushFunc(Arg24::from_u32(0).unwrap()), op::return_(1)], vec![nested.clone()], vec![]);
    let mut vm = Vm::new();
    match vm.run_function((), top).unwrap() {
        Outcome::Finished(values) => {
            assert!(Rc::ptr_eq(values[0].as_func().unwrap(), &nested));
            assert!(Rc::ptr_eq(&values[0].clone().to_func().unwrap(), &nested));
        }
        other => panic!("{other:?}"),
    }
}

#[test]
fn a_run_can_be_taken_in_pieces() {
    let mut vm = Vm::new();
    vm.start(fib_program(10));
    let mut pieces = 0;
    let values = loop {
        match vm.resume(7).unwrap() {
            Outcome::Running => pieces += 1,
            Outcome::Finished(values) => break values,
            other => panic!("{other:?}"),
        }
    };
    assert!(pieces > 10);
    assert_eq!(values[0].as_int(), Some(55));
    assert!(matches!(vm.resume(0).unwrap(), Outcome::Running));
    assert_eq!(vm.resume(1).unwrap_err().message, "machine is not running");
}

#[test]
fn an_endless_loop_is_cut_off() {
    let mut vm = Vm::new();
    vm.start(program(vec![op::jump(-1)]));
    assert!(matches!(vm.resume(100_000).unwrap(), Outcome::Running));
    assert!(matches!(vm.phase(), Phase::Running));
    assert_eq!(vm.stack().len(), 1);
}

#[test]
fn a_machine_can_be_used_again() {
    let mut vm = Vm::new();
    assert_eq!(vm.stack().len(), 0);
    assert!(matches!(vm.phase(), Phase::Halted));
    assert!(vm.run_function((), program(vec![push(1), push(0), Op::Int_Div])).is_err());
    assert_eq!(vm.stack().len(), 3);
    assert_eq!(ints_of(vm.run_function((), program(vec![push(4), op::return_(1)])).unwrap()), vec![4]);
    assert_eq!(vm.stack().len(), 0);
    assert_eq!(vm.cells().len(), 0);
}
