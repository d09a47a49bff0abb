//! Arithmetic on the language's numbers.
//!
//! Numbers in the language are IEEE-754 binary64 values. Verified code cannot
//! hold a floating-point value, so a number is carried everywhere as its raw
//! 64-bit pattern, and the arithmetic itself is done by `rustc_apfloat`'s
//! software implementation of IEEE-754 (`ieee::Double`), which works on
//! exactly those bit patterns. Each operation is deterministic — a pure
//! function of the operand bits — so each is named by an uninterpreted spec
//! function, and the wrappers below promise nothing beyond that name.

use vstd::prelude::*;

use rustc_apfloat::Float;
use rustc_apfloat::ieee::Double;

verus! {

/// The bits of the IEEE-754 binary64 sum of two numbers given by their bits.
pub uninterp spec fn double_add(a: u64, b: u64) -> u64;

/// The bits of the IEEE-754 binary64 difference of two numbers given by their bits.
pub uninterp spec fn double_sub(a: u64, b: u64) -> u64;

/// The bits of the IEEE-754 binary64 product of two numbers given by their bits.
pub uninterp spec fn double_mul(a: u64, b: u64) -> u64;

/// The bits of the IEEE-754 binary64 quotient of two numbers given by their bits.
pub uninterp spec fn double_div(a: u64, b: u64) -> u64;

/// The bits of an IEEE-754 binary64 number with its sign flipped.
pub uninterp spec fn double_neg(a: u64) -> u64;

/// Whether the first number compares strictly less than the second (IEEE
/// ordering: false whenever either is NaN).
pub uninterp spec fn double_lt(a: u64, b: u64) -> bool;

/// Whether the first number compares strictly greater than the second (IEEE
/// ordering: false whenever either is NaN).
pub uninterp spec fn double_gt(a: u64, b: u64) -> bool;

/// Whether two numbers compare equal under IEEE-754 (`-0 == +0`; NaN equals
/// nothing, itself included).
pub uninterp spec fn double_eq(a: u64, b: u64) -> bool;

/// The bits of the IEEE-754 binary64 value denoted by a decimal numeral,
/// rounded to nearest (ties to even), or `None` if the bytes are not a
/// numeral that the parser accepts.
pub uninterp spec fn double_of_decimal(s: Seq<u8>) -> Option<u64>;

/// Relies on `rustc_apfloat::ieee::Double`'s `Add` impl: IEEE-754 binary64
/// addition, round to nearest, ties to even, on the raw bit patterns.
#[verifier::external_body]
pub(crate) fn num_add(a: u64, b: u64) -> (r: u64)
    ensures
        r == double_add(a, b),
{
    (Double::from_bits(a as u128) + Double::from_bits(b as u128)).value.to_bits() as u64
}

/// Relies on `rustc_apfloat::ieee::Double`'s `Sub` impl: IEEE-754 binary64
/// subtraction, round to nearest, ties to even, on the raw bit patterns.
#[verifier::external_body]
pub(crate) fn num_sub(a: u64, b: u64) -> (r: u64)
    ensures
        r == double_sub(a, b),
{
    (Double::from_bits(a as u128) - Double::from_bits(b as u128)).value.to_bits() as u64
}

/// Relies on `rustc_apfloat::ieee::Double`'s `Mul` impl: IEEE-754 binary64
/// multiplication, round to nearest, ties to even, on the raw bit patterns.
#[verifier::external_body]
pub(crate) fn num_mul(a: u64, b: u64) -> (r: u64)
    ensures
        r == double_mul(a, b),
{
    (Double::from_bits(a as u128) * Double::from_bits(b as u128)).value.to_bits() as u64
}

/// Relies on `rustc_apfloat::ieee::Double`'s `Div` impl: IEEE-754 binary64
/// division, round to nearest, ties to even, on the raw bit patterns.
#[verifier::external_body]
pub(crate) fn num_div(a: u64, b: u64) -> (r: u64)
    ensures
        r == double_div(a, b),
{
    (Double::from_bits(a as u128) / Double::from_bits(b as u128)).value.to_bits() as u64
}

/// Relies on `rustc_apfloat::ieee::Double`'s `Neg` impl: flips the sign bit.
#[verifier::external_body]
pub(crate) fn num_neg(a: u64) -> (r: u64)
    ensures
        r == double_neg(a),
{
    (-Double::from_bits(a as u128)).to_bits() as u64
}

/// Relies on `rustc_apfloat::ieee::Double`'s `PartialOrd` impl (`lt`), which
/// implements the IEEE-754 comparison predicate.
#[verifier::external_body]
pub(crate) fn num_lt(a: u64, b: u64) -> (r: bool)
    ensures
        r == double_lt(a, b),
{
    Double::from_bits(a as u128) < Double::from_bits(b as u128)
}

/// Relies on `rustc_apfloat::ieee::Double`'s `PartialOrd` impl (`gt`), which
/// implements the IEEE-754 comparison predicate.
#[verifier::external_body]
pub(crate) fn num_gt(a: u64, b: u64) -> (r: bool)
    ensures
        r == double_gt(a, b),
{
    Double::from_bits(a as u128) > Double::from_bits(b as u128)
}

/// Relies on `rustc_apfloat::ieee::Double`'s `PartialEq` impl: IEEE-754
/// equality (`partial_cmp == Some(Equal)`).
#[verifier::external_body]
pub(crate) fn num_eq(a: u64, b: u64) -> (r: bool)
    ensures
        r == double_eq(a, b),
{
    Double::from_bits(a as u128) == Double::from_bits(b as u128)
}

/// Relies on `rustc_apfloat::ieee::Double`'s `FromStr` impl: correctly
/// rounded (nearest, ties to even) decimal-to-binary64 conversion.
/// `core::str::from_utf8` only converts the argument. The length bound keeps
/// the parser's exponent arithmetic inside `i32`, where a numeral with more
/// digits than that would make it panic.
#[verifier::external_body]
pub(crate) fn num_parse(s: &[u8]) -> (r: Option<u64>)
    requires
        s@.len() < 0x8000_0000,
    ensures
        r == double_of_decimal(s@),
{
    match core::str::from_utf8(s) {
        Ok(text) => match text.parse::<Double>() {
            Ok(d) => Some(d.to_bits() as u64),
            Err(_) => None,
        },
        Err(_) => None,
    }
}

} // verus!
