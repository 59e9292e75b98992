//! Comparing numbers held as IEEE-754 binary64 bit patterns.
use vstd::prelude::*;

use crate::model::NumberBits;

verus! {

/// The bit pattern is a NaN: all exponent bits set and a non-zero fraction.
pub open spec fn is_nan(b: u64) -> bool {
    (b / 0x10000000000000) % 0x800 == 0x7FF && b % 0x10000000000000 != 0
}

/// The bit pattern is positive or negative zero.
pub open spec fn is_zero(b: u64) -> bool {
    b % 0x8000000000000000 == 0
}

/// A key that orders non-NaN bit patterns as the numbers they hold (negative zero just
/// below positive zero).
pub open spec fn order_key(b: u64) -> int {
    if b >= 0x8000000000000000 {
        0xFFFF_FFFF_FFFF_FFFF - b
    } else {
        b + 0x8000000000000000
    }
}

/// `a < b` as numbers; false when either is NaN.
pub open spec fn number_lt(a: NumberBits, b: NumberBits) -> bool {
    &&& !is_nan(a.bits)
    &&& !is_nan(b.bits)
    &&& !(is_zero(a.bits) && is_zero(b.bits))
    &&& order_key(a.bits) < order_key(b.bits)
}

/// `a == b` as numbers; false when either is NaN.
pub open spec fn number_eq(a: NumberBits, b: NumberBits) -> bool {
    &&& !is_nan(a.bits)
    &&& !is_nan(b.bits)
    &&& (a.bits == b.bits || (is_zero(a.bits) && is_zero(b.bits)))
}

fn nan(b: u64) -> (r: bool)
    ensures
        r == is_nan(b),
{
    (b / 0x10000000000000) % 0x800 == 0x7FF && b % 0x10000000000000 != 0
}

fn zero(b: u64) -> (r: bool)
    ensures
        r == is_zero(b),
{
    b % 0x8000000000000000 == 0
}

fn key(b: u64) -> (r: u64)
    ensures
        r == order_key(b),
{
    if b >= 0x8000000000000000 {
        0xFFFF_FFFF_FFFF_FFFF - b
    } else {
        b + 0x8000000000000000
    }
}

/// Whether `a < b` as numbers.
pub fn less_than(a: NumberBits, b: NumberBits) -> (r: bool)
    ensures
        r == number_lt(a, b),
{
    !nan(a.bits) && !nan(b.bits) && !(zero(a.bits) && zero(b.bits)) && key(a.bits) < key(b.bits)
}

/// Whether `a == b` as numbers.
pub fn equal_numbers(a: NumberBits, b: NumberBits) -> (r: bool)
    ensures
        r == number_eq(a, b),
{
    !nan(a.bits) && !nan(b.bits) && (a.bits == b.bits || (zero(a.bits) && zero(b.bits)))
}

} // verus!
