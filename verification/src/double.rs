//! Arithmetic on double-precision numbers, held as their 64-bit patterns.
//! The layers that place points at fractions of a cell compare distances
//! that are computed in this arithmetic, rounding included.
//!
//! The library holds no floating-point number of the machine. The
//! arithmetic is that of `rustc_apfloat`, which computes by the rules of
//! IEEE 754 in software, rounding to the nearest and to the even of two
//! that are as near: the same patterns come out as the machine gives for
//! its doubles, on every machine. The contracts name what each operation
//! gives and state nothing of the value, so what is proved of the jitter
//! of the last zoom, of the distances in space and of the noise is proved
//! for whatever these operations give.

use vstd::prelude::*;
use rustc_apfloat::ieee::{Double, Single};
use rustc_apfloat::Float;

verus! {

/// The pattern of 0.0.
pub const ZERO: u64 = 0x0;

/// The pattern of 0.2.
pub const FIFTH: u64 = 0x3fc999999999999a;

/// The pattern of 0.4.
pub const TWO_FIFTHS: u64 = 0x3fd999999999999a;

/// The pattern of -0.2.
pub const MINUS_FIFTH: u64 = 0xbfc999999999999a;

/// The pattern of -0.4.
pub const MINUS_TWO_FIFTHS: u64 = 0xbfd999999999999a;

/// The pattern of 0.5.
pub const HALF: u64 = 0x3fe0000000000000;

/// The pattern of 0.9.
pub const NINE_TENTHS: u64 = 0x3feccccccccccccd;

/// The pattern of 1.0.
pub const ONE: u64 = 0x3ff0000000000000;

/// The pattern of -1.0.
pub const MINUS_ONE: u64 = 0xbff0000000000000;

/// The pattern of 3.6.
pub const THREE_POINT_SIX: u64 = 0x400ccccccccccccd;

/// The pattern of 4.0.
pub const FOUR: u64 = 0x4010000000000000;

/// The pattern of 6.0.
pub const SIX: u64 = 0x4018000000000000;

/// The pattern of 8.0.
pub const EIGHT: u64 = 0x4020000000000000;

/// The pattern of 10.0.
pub const TEN: u64 = 0x4024000000000000;

/// The pattern of 15.0.
pub const FIFTEEN: u64 = 0x402e000000000000;

/// The pattern of 256.0.
pub const TWO_TO_8: u64 = 0x4070000000000000;

/// The pattern of 1024.0.
pub const TWO_TO_10: u64 = 0x4090000000000000;

/// The pattern of 2^53.
pub const TWO_TO_53: u64 = 0x4340000000000000;

/// The pattern of 2^24 in single precision.
pub const SINGLE_TWO_TO_24: u32 = 0x4b800000;

/// The pattern of the number in single precision that is nearest to an
/// integer.
pub uninterp spec fn single_of_int(i: i64) -> u32;

/// The pattern of the quotient of two numbers in single precision.
pub uninterp spec fn single_quotient(a: u32, b: u32) -> u32;

/// The pattern of the sum of two doubles.
pub uninterp spec fn double_sum(a: u64, b: u64) -> u64;

/// The pattern of the difference of two doubles.
pub uninterp spec fn double_difference(a: u64, b: u64) -> u64;

/// The pattern of the product of two doubles.
pub uninterp spec fn double_product(a: u64, b: u64) -> u64;

/// The pattern of the quotient of two doubles.
pub uninterp spec fn double_quotient(a: u64, b: u64) -> u64;

/// The pattern of the double nearest to an integer.
pub uninterp spec fn double_of_int(i: i64) -> u64;

/// The integer that a double is cut down to.
pub uninterp spec fn double_truncated(a: u64) -> i64;

/// Whether the first of two doubles is less than the second.
pub uninterp spec fn double_less(a: u64, b: u64) -> bool;

/// `IeeeFloat::add` on doubles, through `+`: the sum of the two doubles
/// with the given patterns, rounded to the nearest double. The contract
/// only names the result.
#[verifier::external_body]
pub(crate) fn dadd(a: u64, b: u64) -> (r: u64)
    ensures
        r == double_sum(a, b),
{
    (Double::from_bits(u128::from(a)) + Double::from_bits(u128::from(b))).value.to_bits() as u64
}

/// `IeeeFloat::sub` on doubles, through `-`: the difference of the two
/// doubles with the given patterns, rounded to the nearest double. The
/// contract only names the result.
#[verifier::external_body]
pub(crate) fn dsub(a: u64, b: u64) -> (r: u64)
    ensures
        r == double_difference(a, b),
{
    (Double::from_bits(u128::from(a)) - Double::from_bits(u128::from(b))).value.to_bits() as u64
}

/// `IeeeFloat::mul` on doubles, through `*`: the product of the two
/// doubles with the given patterns, rounded to the nearest double. The
/// contract only names the result.
#[verifier::external_body]
pub(crate) fn dmul(a: u64, b: u64) -> (r: u64)
    ensures
        r == double_product(a, b),
{
    (Double::from_bits(u128::from(a)) * Double::from_bits(u128::from(b))).value.to_bits() as u64
}

/// `IeeeFloat::div` on doubles, through `/`: the quotient of the two
/// doubles with the given patterns, rounded to the nearest double. The
/// contract only names the result.
#[verifier::external_body]
pub(crate) fn ddiv(a: u64, b: u64) -> (r: u64)
    ensures
        r == double_quotient(a, b),
{
    (Double::from_bits(u128::from(a)) / Double::from_bits(u128::from(b))).value.to_bits() as u64
}

/// `Float::from_i128` on doubles: the pattern of the double nearest to the
/// integer. The contract only names the result.
#[verifier::external_body]
pub(crate) fn dfrom(i: i64) -> (r: u64)
    ensures
        r == double_of_int(i),
{
    Double::from_i128(i128::from(i)).value.to_bits() as u64
}

/// `Float::to_i128` on doubles, with a width of 64 bits: the integer that
/// the double with the given pattern is cut down to, towards zero. The
/// contract only names the result.
#[verifier::external_body]
pub(crate) fn dtrunc(a: u64) -> (r: i64)
    ensures
        r == double_truncated(a),
{
    Double::from_bits(u128::from(a)).to_i128(64).value as i64
}

/// The `<` of doubles: whether the double with the first pattern is less
/// than the one with the second. The contract only names the result.
#[verifier::external_body]
pub(crate) fn dless(a: u64, b: u64) -> (r: bool)
    ensures
        r == double_less(a, b),
{
    Double::from_bits(u128::from(a)) < Double::from_bits(u128::from(b))
}

/// `Float::from_i128` in single precision: the pattern of the number
/// nearest to the integer. The contract only names the result.
#[verifier::external_body]
pub(crate) fn sfrom(i: i64) -> (r: u32)
    ensures
        r == single_of_int(i),
{
    Single::from_i128(i128::from(i)).value.to_bits() as u32
}

/// `IeeeFloat::div` in single precision, through `/`: the quotient of the
/// two numbers with the given patterns, rounded to the nearest. The
/// contract only names the result.
#[verifier::external_body]
pub(crate) fn sdiv(a: u32, b: u32) -> (r: u32)
    ensures
        r == single_quotient(a, b),
{
    (Single::from_bits(u128::from(a)) / Single::from_bits(u128::from(b))).value.to_bits() as u32
}

} // verus!
