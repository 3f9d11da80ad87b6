//! Double-precision numbers as the machine stores them.
//!
//! A [`Float`] is the 64-bit pattern of an IEEE 754 binary64 number: one sign
//! bit, eleven exponent bits, fifty-two fraction bits. Negation and the six
//! comparisons are functions of the two patterns alone and are defined here.
//! Rounding arithmetic is not: the machine hands it to its host.
use vstd::prelude::*;

verus! {

/// The sign bit of a pattern.
pub const SIGN_BIT: u64 = 0x8000_0000_0000_0000;

/// The pattern of positive infinity: every larger magnitude is not a number.
pub const INFINITY_BITS: u64 = 0x7ff0_0000_0000_0000;

/// An IEEE 754 binary64 number, held as its bit pattern.
#[derive(Debug, Clone, Copy)]
pub struct Float {
    pub bits: u64,
}

/// The rounding operations that the machine asks its host to compute.
#[derive(Debug, Clone, Copy, PartialEq, Eq, Structural)]
pub enum FloatOp {
    Add,
    Sub,
    Mul,
    Div,
    Mod,
}

impl Float {
    /// The pattern without its sign bit.
    pub open spec fn magnitude(self) -> int {
        if self.bits >= SIGN_BIT {
            self.bits - SIGN_BIT
        } else {
            self.bits as int
        }
    }

    /// Whether the sign bit is set.
    pub open spec fn is_negative(self) -> bool {
        self.bits >= SIGN_BIT
    }

    /// Whether the pattern is not a number: all exponent bits set and a
    /// fraction that is not zero.
    pub open spec fn nan(self) -> bool {
        self.magnitude() > INFINITY_BITS
    }

    /// Where a number stands on the number line relative to the others:
    /// magnitudes grow with the pattern, negative numbers mirror them, and
    /// the two zeros coincide. Meaningful only for patterns that are numbers.
    pub open spec fn rank(self) -> int {
        if self.is_negative() {
            -self.magnitude()
        } else {
            self.magnitude()
        }
    }

    /// Numeric equality: false whenever either side is not a number.
    pub open spec fn same(self, other: Float) -> bool {
        !self.nan() && !other.nan() && self.rank() == other.rank()
    }

    /// Numeric order: false whenever either side is not a number.
    pub open spec fn below(self, other: Float) -> bool {
        !self.nan() && !other.nan() && self.rank() < other.rank()
    }

    /// The pattern with its sign bit flipped.
    pub open spec fn negated(self) -> Float {
        if self.bits >= SIGN_BIT {
            Float { bits: (self.bits - SIGN_BIT) as u64 }
        } else {
            Float { bits: (self.bits + SIGN_BIT) as u64 }
        }
    }

    pub fn from_bits(bits: u64) -> (value: Float)
        ensures
            value.bits == bits,
    {
        Float { bits }
    }

    pub fn to_bits(self) -> (bits: u64)
        ensures
            bits == self.bits,
    {
        self.bits
    }

    fn magnitude_of(self) -> (m: u64)
        ensures
            m == self.magnitude(),
    {
        if self.bits >= SIGN_BIT {
            self.bits - SIGN_BIT
        } else {
            self.bits
        }
    }

    pub fn is_nan(self) -> (yes: bool)
        ensures
            yes == self.nan(),
    {
        self.magnitude_of() > INFINITY_BITS
    }

    /// Flips the sign, also of zeros, infinities and patterns that are not numbers.
    pub fn neg(self) -> (value: Float)
        ensures
            value == self.negated(),
    {
        if self.bits >= SIGN_BIT {
            Float { bits: self.bits - SIGN_BIT }
        } else {
            Float { bits: self.bits + SIGN_BIT }
        }
    }

    pub fn is_eq(self, other: Float) -> (yes: bool)
        ensures
            yes == self.same(other),
    {
        if self.is_nan() || other.is_nan() {
            return false;
        }
        let a = self.magnitude_of();
        let b = other.magnitude_of();
        if a == 0 && b == 0 {
            true
        } else {
            self.bits == other.bits
        }
    }

    pub fn is_ne(self, other: Float) -> (yes: bool)
        ensures
            yes == !self.same(other),
    {
        !self.is_eq(other)
    }

    pub fn is_lt(self, other: Float) -> (yes: bool)
        ensures
            yes == self.below(other),
    {
        if self.is_nan() || other.is_nan() {
            return false;
        }
        let a = self.magnitude_of();
        let b = other.magnitude_of();
        let a_negative = self.bits >= SIGN_BIT;
        let b_negative = other.bits >= SIGN_BIT;
        if a_negative && b_negative {
            b < a
        } else if a_negative {
            a != 0 || b != 0
        } else if b_negative {
            false
        } else {
            a < b
        }
    }

    pub fn is_le(self, other: Float) -> (yes: bool)
        ensures
            yes == (self.below(other) || self.same(other)),
    {
        self.is_lt(other) || self.is_eq(other)
    }

    pub fn is_gt(self, other: Float) -> (yes: bool)
        ensures
            yes == other.below(self),
    {
        other.is_lt(self)
    }

    pub fn is_ge(self, other: Float) -> (yes: bool)
        ensures
            yes == (other.below(self) || self.same(other)),
    {
        other.is_lt(self) || self.is_eq(other)
    }

    /// Of two numbers exactly one of below, same and above holds; of a pair
    /// with a pattern that is not a number, none.
    pub proof fn lemma_order_is_total_on_numbers(a: Float, b: Float)
        ensures
            !a.nan() && !b.nan() ==> (a.below(b) || a.same(b) || b.below(a)),
            !(a.below(b) && a.same(b)),
            !(a.below(b) && b.below(a)),
            a.nan() || b.nan() ==> !a.below(b) && !a.same(b) && !b.below(a),
    {
    }

    /// Negating twice gives the pattern back, and negation mirrors the order.
    pub proof fn lemma_negation(a: Float, b: Float)
        ensures
            a.negated().negated() == a,
            a.negated().nan() == a.nan(),
            a.below(b) == b.negated().below(a.negated()),
    {
    }
}

} // verus!
