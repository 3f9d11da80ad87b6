//! Numeric limits of the instruction encoding.
use vstd::prelude::*;

verus! {

/// Smallest integer that a signed 24-bit immediate can hold.
pub const MIN_ARG24: i64 = -8_388_608;

/// One past the largest integer that a signed 24-bit immediate can hold.
pub const MAX_ARG_24: i64 = 8_388_608;

/// One past the largest integer that an unsigned 24-bit immediate can hold.
pub const MAX_UARG24: u32 = 16_777_216;

} // verus!
