//! Bytecode instructions and their 24-bit immediate operand.
use crate::errors::{outcome, runtime, runtime_err, ErrorView, Result};
use crate::limits::{MAX_ARG_24, MAX_UARG24, MIN_ARG24};
use vstd::prelude::*;

pub mod shorthand;

verus! {

/// Bytecode instruction: an opcode and at most three bytes of operands.
#[derive(Debug, Clone, Copy)]
#[allow(non_camel_case_types)]
pub enum Op {
    /// Does nothing. Only the instruction pointer is advanced.
    NoOp,
    /// Remove and discard the given number of values from the top of the stack.
    Pop(Arg24),
    /// Return no results; at the outermost frame, finish the run.
    End,
    Return {
        /// Actual number of result values returned by the callee.
        results: u8,
    },
    /// Call a closure.
    Call {
        /// Stack base of the callee, relative to the caller's stack base.
        base: u16,
        /// Number of result values the caller expects to be returned
        /// from the callee.
        results: u8,
    },
    /// Copy multiple values from the stack offset to the top.
    Load { offset: u16, len: u8 },
    /// Copy multiple values from the top of the stack to the given offset.
    Store { offset: u16, len: u8 },
    SetLocal { slot: u16 },
    GetLocal { slot: u16 },
    SetUpValue { upvalue_id: u16 },
    GetUpValue { upvalue_id: u16 },
    SetGlobal { string: u16 },
    GetGlobal { string: u16 },
    /// Push an inlined integer value onto the stack.
    PushIntIn(Arg24),
    /// Push an integer constant onto the stack.
    PushInt(Arg24),
    PushFloat(Arg24),
    PushString(Arg24),
    PushFunc(Arg24),
    /// Name one variable to capture for the closure that the next
    /// [`Op::CreateClosure`] makes: a local of the running frame when
    /// `from_parent` is set, else an up-value of the running closure.
    CaptureValue { from_parent: bool, index: u16 },
    /// Instantiate a new closure object.
    ///
    /// The `func_id` argument is the location of the function prototype
    /// that this closure instantiates.
    CreateClosure { func_id: Arg24 },
    // Integer arithmetic.
    Int_Neg,
    Int_Add,
    Int_Sub,
    Int_Mul,
    Int_Div,
    Int_Mod,
    // Integer comparison.
    Int_Ne,
    Int_Eq,
    Int_Lt,
    Int_Le,
    Int_Gt,
    Int_Ge,
    // Float arithmetic.
    Float_Neg,
    Float_Add,
    Float_Sub,
    Float_Mul,
    Float_Div,
    Float_Mod,
    // Float comparison.
    Float_Ne,
    Float_Eq,
    Float_Lt,
    Float_Le,
    Float_Gt,
    Float_Ge,
    // String operations.
    Str_Concat,
    Str_Slice,
    // Jumps.
    JumpNe { addr: Arg24 },
    JumpEq { addr: Arg24 },
    JumpLt { addr: Arg24 },
    JumpLe { addr: Arg24 },
    JumpGt { addr: Arg24 },
    JumpGe { addr: Arg24 },
    JumpZero { addr: Arg24 },
    Jump { addr: Arg24 },
}

/// A 24-bit immediate: three bytes, least significant first. The same bytes
/// read as an unsigned number in `[0, 2^24)` or, in two's complement, as a
/// signed number in `[-2^23, 2^23)`.
#[derive(Debug, Clone, Copy)]
pub struct Arg24(pub [u8; 3]);

impl Arg24 {
    /// The bytes read as an unsigned number.
    pub open spec fn unsigned(self) -> int {
        self.0@[0] + 0x100 * self.0@[1] + 0x1_0000 * self.0@[2]
    }

    /// The bytes read as a signed number in two's complement.
    pub open spec fn signed(self) -> int {
        if self.unsigned() >= 0x80_0000 {
            self.unsigned() - 0x100_0000
        } else {
            self.unsigned()
        }
    }

    /// The immediate whose bytes are the low 24 bits of `value`.
    pub open spec fn encode(value: int) -> Arg24 {
        let low = value % 0x100_0000;
        Arg24([(low % 0x100) as u8, ((low / 0x100) % 0x100) as u8, (low / 0x1_0000) as u8])
    }

    /// Whether a signed immediate can hold `value`.
    pub open spec fn fits_signed(value: int) -> bool {
        MIN_ARG24 <= value < MAX_ARG_24
    }

    /// Whether an unsigned immediate can hold `value`.
    pub open spec fn fits_unsigned(value: int) -> bool {
        0 <= value < MAX_UARG24
    }

    /// What encoding a signed `value` gives: the immediate, or the error that
    /// says on which side `value` leaves the range.
    pub open spec fn encode_signed(value: int) -> core::result::Result<Arg24, ErrorView> {
        if value >= MAX_ARG_24 {
            Err(runtime("value is too large to fit in 24 bits"@))
        } else if value < MIN_ARG24 {
            Err(runtime("value is too small to fit in 24 bits"@))
        } else {
            Ok(Self::encode(value))
        }
    }

    /// What encoding an unsigned `value` gives.
    pub open spec fn encode_unsigned(value: int) -> core::result::Result<Arg24, ErrorView> {
        if value >= MAX_UARG24 {
            Err(runtime("value is too large to fit in 24 bits"@))
        } else {
            Ok(Self::encode(value))
        }
    }

    /// Sign-extends the immediate to 64 bits.
    #[inline(always)]
    pub fn into_i64(self) -> (value: i64)
        ensures
            value == self.signed(),
    {
        let a = self.0[0] as u64;
        let b = self.0[1] as u64;
        let c = self.0[2] as u64;
        let low: u64 = a + 0x100 * b + 0x1_0000 * c;
        let value = ((low << 40) as i64) >> 40;
        assert(((low << 40) as i64) >> 40 == (if low >= 0x80_0000u64 {
            (low - 0x100_0000) as i64
        } else {
            low as i64
        })) by (bit_vector)
            requires
                low < 0x100_0000u64,
        ;
        value
    }

    /// Zero-extends the immediate to 32 bits.
    #[inline(always)]
    pub fn into_u32(self) -> (value: u32)
        ensures
            value == self.unsigned(),
    {
        let a = self.0[0] as u32;
        let b = self.0[1] as u32;
        let c = self.0[2] as u32;
        a + 0x100 * b + 0x1_0000 * c
    }

    /// Zero-extends the immediate to the width of an index.
    #[inline(always)]
    pub fn into_usize(self) -> (value: usize)
        ensures
            value == self.unsigned(),
    {
        self.into_u32() as usize
    }

    pub(crate) fn from_low_bits(low: u32) -> (arg: Arg24)
        requires
            low < 0x100_0000,
        ensures
            arg == Self::encode(low as int),
            arg.unsigned() == low,
    {
        let arg = Arg24([(low % 0x100) as u8, ((low / 0x100) % 0x100) as u8, (low / 0x1_0000) as u8]);
        assert(arg.0@ =~= Self::encode(low as int).0@);
        arg
    }

    /// Encodes a signed number, or fails when it is outside `[-2^23, 2^23)`.
    #[inline(always)]
    pub fn from_i64(value: i64) -> (arg: Result<Self>)
        ensures
            outcome(arg) == Self::encode_signed(value as int),
    {
        if value >= MAX_ARG_24 {
            Err(runtime_err("value is too large to fit in 24 bits"))
        } else if value < MIN_ARG24 {
            Err(runtime_err("value is too small to fit in 24 bits"))
        } else {
            let low: u32 = if value < 0 {
                (value + 0x100_0000) as u32
            } else {
                value as u32
            };
            Ok(Self::from_low_bits(low))
        }
    }

    /// Encodes a signed number, or fails when it is outside `[-2^23, 2^23)`.
    #[inline(always)]
    pub fn from_i32(value: i32) -> (arg: Result<Self>)
        ensures
            outcome(arg) == Self::encode_signed(value as int),
    {
        Self::from_i64(value as i64)
    }

    /// Encodes an unsigned number, or fails when it is `2^24` or more.
    #[inline(always)]
    pub fn from_u32(value: u32) -> (arg: Result<Self>)
        ensures
            outcome(arg) == Self::encode_unsigned(value as int),
    {
        if value >= MAX_UARG24 {
            Err(runtime_err("value is too large to fit in 24 bits"))
        } else {
            Ok(Self::from_low_bits(value))
        }
    }

    /// Decoding a signed immediate gives back the number that was encoded,
    /// for every number in `[-2^23, 2^23)`.
    pub proof fn lemma_signed_round_trip(value: int)
        requires
            Self::fits_signed(value),
        ensures
            Self::encode_signed(value) is Ok,
            Self::encode(value).signed() == value,
    {
    }

    /// Decoding an unsigned immediate gives back the number that was encoded,
    /// for every number in `[0, 2^24)`.
    pub proof fn lemma_unsigned_round_trip(value: int)
        requires
            Self::fits_unsigned(value),
        ensures
            Self::encode_unsigned(value) is Ok,
            Self::encode(value).unsigned() == value,
    {
    }

    /// A number outside the range of its reading has no encoding.
    pub proof fn lemma_out_of_range_fails(value: int)
        ensures
            !Self::fits_signed(value) ==> Self::encode_signed(value) is Err,
            !Self::fits_unsigned(value) && value >= 0 ==> Self::encode_unsigned(value) is Err,
    {
    }

    /// Two immediates that read as the same number hold the same bytes.
    pub proof fn lemma_reading_is_injective(a: Arg24, b: Arg24)
        requires
            a.signed() == b.signed() || a.unsigned() == b.unsigned(),
        ensures
            a == b,
    {
        let x = a.unsigned();
        let y = b.unsigned();
        assert(x == y);
        assert(a.0@[0] == x % 0x100 && b.0@[0] == y % 0x100);
        assert(a.0@[1] == (x / 0x100) % 0x100 && b.0@[1] == (y / 0x100) % 0x100);
        assert(a.0@[2] == x / 0x1_0000 && b.0@[2] == y / 0x1_0000);
        assert(a.0@ =~= b.0@);
        assert(a.0 == b.0);
    }
}

} // verus!
