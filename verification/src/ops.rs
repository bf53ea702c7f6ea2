//! Scalar double-precision operations, represented on IEEE-754 bit patterns.
//!
//! The whole library works on `u64` values holding the bit pattern of an
//! IEEE-754 double. The arithmetic itself is carried out by an IEEE-754
//! implementation from an outside crate; each operation's result is given a
//! name (`fadd`, `fmul`, ...) that the kernels' contracts are stated over.

use vstd::prelude::*;
use rustc_apfloat::Float;
use rustc_apfloat::ieee::Double;

verus! {

/// Bit pattern of the IEEE-754 double `+0.0`, the reduction identity.
pub const ZERO_BITS: u64 = 0;

/// The IEEE-754 double sum of two bit patterns: rounding to nearest-even,
/// a function of the two operands alone.
pub uninterp spec fn fadd(a: u64, b: u64) -> u64;

/// The IEEE-754 double product of two bit patterns.
pub uninterp spec fn fmul(a: u64, b: u64) -> u64;

/// The IEEE-754 double difference of two bit patterns.
pub uninterp spec fn fsub(a: u64, b: u64) -> u64;

/// The IEEE-754 double quotient of two bit patterns.
pub uninterp spec fn fdiv(a: u64, b: u64) -> u64;

/// The IEEE-754 `<` comparison of two bit patterns (false when either
/// operand is a NaN).
pub uninterp spec fn flt(a: u64, b: u64) -> bool;

/// Relies on `rustc_apfloat::ieee::Double`'s `Add`: IEEE-754 double addition
/// with round-to-nearest-even, computed on the bit patterns alone.
#[verifier::external_body]
pub(crate) fn add_bits(a: u64, b: u64) -> (r: u64)
    ensures
        r == fadd(a, b),
{
    let x = Double::from_bits(a as u128);
    let y = Double::from_bits(b as u128);
    (x + y).value.to_bits() as u64
}

/// Relies on `rustc_apfloat::ieee::Double`'s `Mul`: IEEE-754 double
/// multiplication with round-to-nearest-even.
#[verifier::external_body]
pub(crate) fn mul_bits(a: u64, b: u64) -> (r: u64)
    ensures
        r == fmul(a, b),
{
    let x = Double::from_bits(a as u128);
    let y = Double::from_bits(b as u128);
    (x * y).value.to_bits() as u64
}

/// Relies on `rustc_apfloat::ieee::Double`'s `Sub`: IEEE-754 double
/// subtraction with round-to-nearest-even.
#[verifier::external_body]
pub(crate) fn sub_bits(a: u64, b: u64) -> (r: u64)
    ensures
        r == fsub(a, b),
{
    let x = Double::from_bits(a as u128);
    let y = Double::from_bits(b as u128);
    (x - y).value.to_bits() as u64
}

/// Relies on `rustc_apfloat::ieee::Double`'s `Div`: IEEE-754 double division
/// with round-to-nearest-even.
#[verifier::external_body]
pub(crate) fn div_bits(a: u64, b: u64) -> (r: u64)
    ensures
        r == fdiv(a, b),
{
    let x = Double::from_bits(a as u128);
    let y = Double::from_bits(b as u128);
    (x / y).value.to_bits() as u64
}

/// Relies on `rustc_apfloat::ieee::Double`'s `PartialOrd`: the IEEE-754
/// ordered `<` comparison, false on NaN operands.
#[verifier::external_body]
pub(crate) fn lt_bits(a: u64, b: u64) -> (r: bool)
    ensures
        r == flt(a, b),
{
    let x = Double::from_bits(a as u128);
    let y = Double::from_bits(b as u128);
    x < y
}

/// The absolute value of a double is its bit pattern with the sign bit
/// cleared; IEEE-754 defines `abs` as exactly this sign-bit operation.
pub open spec fn abs_bits(a: u64) -> u64 {
    a & 0x7fff_ffff_ffff_ffff
}

/// Clears the sign bit, yielding the bit pattern of the absolute value.
pub fn abs_value_bits(a: u64) -> (r: u64)
    ensures
        r == abs_bits(a),
{
    a & 0x7fff_ffff_ffff_ffff
}

} // verus!
