//! A bit-level model of IEEE-754 doubles.
//!
//! Every real number handled by the metrics is carried through this crate as
//! the raw bit pattern of a double (`u64`).  The predicates here pick out the
//! two classes of pattern the selection rules depend on: patterns that encode
//! a zero, and patterns that encode a value comparing strictly greater than
//! zero.  Both are plain tests on the pattern: a double's encoding places the
//! sign in the top bit, and for patterns with the sign bit clear the unsigned
//! order of the bits agrees with the numeric order of the encoded values.

use vstd::prelude::*;

verus! {

/// Bit pattern of the negative zero: only the sign bit is set.  The
/// positive zero has the all-clear pattern; no other pattern encodes a
/// zero.
pub const F64_NEGATIVE_ZERO_BITS: u64 = 0x8000_0000_0000_0000;

/// Bit pattern of positive infinity.  Patterns above this one with the sign
/// bit clear encode a NaN.
pub const F64_INFINITY_BITS: u64 = 0x7ff0_0000_0000_0000;

/// Holds when `bits` encodes a zero of either sign.
pub open spec fn encodes_zero(bits: u64) -> bool {
    bits == 0 || bits == F64_NEGATIVE_ZERO_BITS
}

/// Holds when `bits` encodes a double that compares strictly greater than
/// zero: the sign bit is clear, the pattern is not the positive zero, and
/// it is not a NaN (which compares greater than nothing).  Positive
/// infinity qualifies.
pub open spec fn encodes_positive(bits: u64) -> bool {
    0 < bits <= F64_INFINITY_BITS
}

/// Decides whether `bits` encodes a zero of either sign.
pub fn is_zero_bits(bits: u64) -> (z: bool)
    ensures
        z == encodes_zero(bits),
{
    bits == 0 || bits == F64_NEGATIVE_ZERO_BITS
}

/// Decides whether `bits` encodes a double strictly greater than zero.
pub fn is_positive_bits(bits: u64) -> (p: bool)
    ensures
        p == encodes_positive(bits),
{
    0 < bits && bits <= F64_INFINITY_BITS
}

} // verus!
