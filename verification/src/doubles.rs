//! The IEEE-754 ordering of doubles, read from their bit patterns.

use vstd::prelude::*;

verus! {

pub open spec fn sign_bit() -> int {
    0x8000_0000_0000_0000int
}

/// Whether the bit pattern is a NaN: all exponent bits set, mantissa not zero.
pub open spec fn is_nan_bits(b: u64) -> bool {
    (b as int) % sign_bit() > 0x7FF0_0000_0000_0000int
}

/// Signed magnitude of a bit pattern; orders non-NaN doubles as `<` does,
/// with both zeros equal.
pub open spec fn order_key(b: u64) -> int {
    if (b as int) >= sign_bit() {
        -((b as int) - sign_bit())
    } else {
        b as int
    }
}

/// The IEEE-754 `<` of two doubles given by their bit patterns: false when
/// either is NaN.
pub open spec fn double_lt(a: u64, b: u64) -> bool {
    !is_nan_bits(a) && !is_nan_bits(b) && order_key(a) < order_key(b)
}

fn is_nan_exec(b: u64) -> (r: bool)
    ensures
        r == is_nan_bits(b),
{
    b % 0x8000_0000_0000_0000u64 > 0x7FF0_0000_0000_0000u64
}

fn order_key_exec(b: u64) -> (r: i128)
    ensures
        r == order_key(b),
{
    if b >= 0x8000_0000_0000_0000u64 {
        let m: u64 = b - 0x8000_0000_0000_0000u64;
        -(m as i128)
    } else {
        b as i128
    }
}

/// The IEEE-754 `<` of two doubles given by their bit patterns.
pub fn double_less_than(a: u64, b: u64) -> (r: bool)
    ensures
        r == double_lt(a, b),
{
    !is_nan_exec(a) && !is_nan_exec(b) && order_key_exec(a) < order_key_exec(b)
}

/// `<` is irreflexive and transitive, and the two zeros are not ordered.
pub proof fn lemma_double_lt_order(a: u64, b: u64, c: u64)
    ensures
        !double_lt(a, a),
        double_lt(a, b) ==> !double_lt(b, a),
        double_lt(a, b) && double_lt(b, c) ==> double_lt(a, c),
        !double_lt(0, 0x8000_0000_0000_0000u64) && !double_lt(0x8000_0000_0000_0000u64, 0),
{
}

} // verus!
