//! Short constructors for instructions. Those that take an immediate ask
//! that it fits: an operand that cannot be encoded is a mistake of the
//! caller, not a condition to handle.
use crate::op::{Arg24, Op};
use vstd::prelude::*;

verus! {

fn signed_arg(value: i32) -> (arg: Arg24)
    requires
        Arg24::fits_signed(value as int),
    ensures
        arg == Arg24::encode(value as int),
{
    let low: u32 = if value < 0 {
        (value + 0x100_0000) as u32
    } else {
        value as u32
    };
    Arg24::from_low_bits(low)
}

fn unsigned_arg(value: u32) -> (arg: Arg24)
    requires
        Arg24::fits_unsigned(value as int),
    ensures
        arg == Arg24::encode(value as int),
{
    Arg24::from_low_bits(value)
}

pub fn noop() -> (op: Op)
    ensures
        op == Op::NoOp,
{
    Op::NoOp
}

pub fn pop(n: u32) -> (op: Op)
    requires
        Arg24::fits_unsigned(n as int),
    ensures
        op == Op::Pop(Arg24::encode(n as int)),
{
    Op::Pop(unsigned_arg(n))
}

pub fn end() -> (op: Op)
    ensures
        op == Op::End,
{
    Op::End
}

pub fn return_(result_count: u8) -> (op: Op)
    ensures
        op == (Op::Return { results: result_count }),
{
    Op::Return { results: result_count }
}

pub fn call(base: u16, result_count: u8) -> (op: Op)
    ensures
        op == (Op::Call { base, results: result_count }),
{
    Op::Call { base, results: result_count }
}

pub fn set_local(slot: u16) -> (op: Op)
    ensures
        op == (Op::SetLocal { slot }),
{
    Op::SetLocal { slot }
}

pub fn get_local(slot: u16) -> (op: Op)
    ensures
        op == (Op::GetLocal { slot }),
{
    Op::GetLocal { slot }
}

pub fn set_upvalue(upvalue_id: u16) -> (op: Op)
    ensures
        op == (Op::SetUpValue { upvalue_id }),
{
    Op::SetUpValue { upvalue_id }
}

pub fn get_upvalue(upvalue_id: u16) -> (op: Op)
    ensures
        op == (Op::GetUpValue { upvalue_id }),
{
    Op::GetUpValue { upvalue_id }
}

pub fn set_global(string: u16) -> (op: Op)
    ensures
        op == (Op::SetGlobal { string }),
{
    Op::SetGlobal { string }
}

pub fn get_global(string: u16) -> (op: Op)
    ensures
        op == (Op::GetGlobal { string }),
{
    Op::GetGlobal { string }
}

pub fn push_int_inlined(value: i32) -> (op: Op)
    requires
        Arg24::fits_signed(value as int),
    ensures
        op == Op::PushIntIn(Arg24::encode(value as int)),
{
    Op::PushIntIn(signed_arg(value))
}

pub fn create_closure(func_id: u32) -> (op: Op)
    requires
        Arg24::fits_unsigned(func_id as int),
    ensures
        op == (Op::CreateClosure { func_id: Arg24::encode(func_id as int) }),
{
    Op::CreateClosure { func_id: unsigned_arg(func_id) }
}

pub fn int_add() -> (op: Op)
    ensures
        op == Op::Int_Add,
{
    Op::Int_Add
}

pub fn int_sub() -> (op: Op)
    ensures
        op == Op::Int_Sub,
{
    Op::Int_Sub
}

pub fn jump_le(address_offset: i32) -> (op: Op)
    requires
        Arg24::fits_signed(address_offset as int),
    ensures
        op == (Op::JumpLe { addr: Arg24::encode(address_offset as int) }),
{
    Op::JumpLe { addr: signed_arg(address_offset) }
}

/// Jump if greater than (>).
pub fn jump_gt(address_offset: i32) -> (op: Op)
    requires
        Arg24::fits_signed(address_offset as int),
    ensures
        op == (Op::JumpGt { addr: Arg24::encode(address_offset as int) }),
{
    Op::JumpGt { addr: signed_arg(address_offset) }
}

pub fn jump(address_offset: i32) -> (op: Op)
    requires
        Arg24::fits_signed(address_offset as int),
    ensures
        op == (Op::Jump { addr: Arg24::encode(address_offset as int) }),
{
    Op::Jump { addr: signed_arg(address_offset) }
}

} // verus!
