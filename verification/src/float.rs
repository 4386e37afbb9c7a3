//! Single-precision numbers as bit patterns.
//!
//! A number is a `u32` holding an IEEE 754 binary32 pattern. Classification
//! and ordering are decided on the bits here; rounding arithmetic is done by
//! the `softfloat` and `rustc_apfloat` crates, whose results are named by the
//! uninterpreted functions below.

use crate::order::{int_relation, Relation};
use vstd::prelude::*;

verus! {

/// The pattern of `+0.0`.
pub const ZERO: u32 = 0;

/// The pattern of `1.0`.
pub const ONE: u32 = 0x3f80_0000;

/// Mask that clears the sign bit.
pub const MAGNITUDE_MASK: u32 = 0x7fff_ffff;

/// The pattern of `+infinity`; every magnitude above it is a NaN.
pub const INFINITY: u32 = 0x7f80_0000;

/// The magnitude of a pattern: the pattern with its sign bit cleared.
pub open spec fn magnitude(bits: u32) -> u32 {
    bits & MAGNITUDE_MASK
}

/// Whether the pattern is `+0.0` or `-0.0`.
pub open spec fn is_zero(bits: u32) -> bool {
    magnitude(bits) == 0
}

/// Whether the pattern is a NaN.
pub open spec fn is_nan(bits: u32) -> bool {
    magnitude(bits) > INFINITY
}

/// Whether the sign bit is set.
pub open spec fn is_negative(bits: u32) -> bool {
    bits >= 0x8000_0000
}

/// A key that orders the non-NaN patterns as the numbers they stand for:
/// `+0.0` and `-0.0` both map to 0, positive patterns to their magnitude and
/// negative patterns to the negated magnitude.
pub open spec fn order_key(bits: u32) -> int {
    if is_negative(bits) {
        -(magnitude(bits) as int)
    } else {
        magnitude(bits) as int
    }
}

/// The relation between the numbers two patterns stand for; a NaN stands in
/// no relation to anything.
pub open spec fn float_relation(a: u32, b: u32) -> Option<Relation> {
    if is_nan(a) || is_nan(b) {
        None
    } else {
        Some(int_relation(order_key(a), order_key(b)))
    }
}

/// Result of `softfloat::F32::add` on two patterns.
pub uninterp spec fn float_sum(a: u32, b: u32) -> u32;

/// Result of `softfloat::F32::sub` on two patterns.
pub uninterp spec fn float_difference(a: u32, b: u32) -> u32;

/// Result of `softfloat::F32::mul` on two patterns.
pub uninterp spec fn float_product(a: u32, b: u32) -> u32;

/// Result of `softfloat::F32::div` on two patterns.
pub uninterp spec fn float_quotient(a: u32, b: u32) -> u32;

/// Result of `softfloat::F32::sqrt` on a pattern.
pub uninterp spec fn float_sqrt(a: u32) -> u32;

/// Pattern that `rustc_apfloat` gives for an integer, rounded to nearest
/// with ties to even.
pub uninterp spec fn float_of_int(i: int) -> u32;

/// Integer that `rustc_apfloat` gives for a pattern, truncated toward zero
/// at 64 bits.
pub uninterp spec fn int_of_float(a: u32) -> i64;

/// Exec test for a zero of either sign.
pub fn zero(bits: u32) -> (r: bool)
    ensures
        r == is_zero(bits),
{
    bits & MAGNITUDE_MASK == 0
}

/// Exec test for a NaN.
pub fn nan(bits: u32) -> (r: bool)
    ensures
        r == is_nan(bits),
{
    bits & MAGNITUDE_MASK > INFINITY
}

/// Computes [`order_key`].
fn key(bits: u32) -> (r: i64)
    ensures
        r == order_key(bits),
{
    let size = (bits & MAGNITUDE_MASK) as i64;
    if bits >= 0x8000_0000 {
        0 - size
    } else {
        size
    }
}

/// The relation between two numbers, or `None` when either is a NaN.
pub fn relation(a: u32, b: u32) -> (r: Option<Relation>)
    ensures
        r == float_relation(a, b),
{
    if nan(a) || nan(b) {
        None
    } else {
        Some(crate::order::relate_ints(key(a), key(b)))
    }
}

/// Calls `softfloat::F32::add`. The contract only names the result: the
/// same two patterns always give the same sum.
#[verifier::external_body]
pub(crate) fn sum(a: u32, b: u32) -> (r: u32)
    ensures
        r == float_sum(a, b),
{
    softfloat::F32::from_bits(a).add(softfloat::F32::from_bits(b)).to_bits()
}

/// Calls `softfloat::F32::sub`. The contract only names the result.
#[verifier::external_body]
pub(crate) fn difference(a: u32, b: u32) -> (r: u32)
    ensures
        r == float_difference(a, b),
{
    softfloat::F32::from_bits(a).sub(softfloat::F32::from_bits(b)).to_bits()
}

/// Calls `softfloat::F32::mul`. The contract only names the result.
#[verifier::external_body]
pub(crate) fn product(a: u32, b: u32) -> (r: u32)
    ensures
        r == float_product(a, b),
{
    softfloat::F32::from_bits(a).mul(softfloat::F32::from_bits(b)).to_bits()
}

/// Calls `softfloat::F32::div`. The contract only names the result; division
/// by a zero pattern returns an infinity or a NaN and does not trap.
#[verifier::external_body]
pub(crate) fn quotient(a: u32, b: u32) -> (r: u32)
    ensures
        r == float_quotient(a, b),
{
    softfloat::F32::from_bits(a).div(softfloat::F32::from_bits(b)).to_bits()
}

/// Calls `softfloat::F32::sqrt`. The contract only names the result.
#[verifier::external_body]
pub(crate) fn square_root(a: u32) -> (r: u32)
    ensures
        r == float_sqrt(a),
{
    softfloat::F32::from_bits(a).sqrt().to_bits()
}

/// Calls `rustc_apfloat::Float::from_i128` at single precision, which rounds
/// to nearest with ties to even. The contract only names the result.
#[verifier::external_body]
pub(crate) fn from_int(i: i128) -> (r: u32)
    ensures
        r == float_of_int(i as int),
{
    let single = <rustc_apfloat::ieee::Single as rustc_apfloat::Float>::from_i128(i).value;
    rustc_apfloat::Float::to_bits(single) as u32
}

/// Calls `rustc_apfloat::Float::to_i128` with a width of 64 bits, which
/// truncates toward zero, gives 0 for a NaN and the nearest bound for a
/// number out of range. The contract only names the result.
#[verifier::external_body]
pub(crate) fn to_int(a: u32) -> (r: i64)
    ensures
        r == int_of_float(a),
{
    let single = <rustc_apfloat::ieee::Single as rustc_apfloat::Float>::from_bits(a as u128);
    rustc_apfloat::Float::to_i128(single, 64).value as i64
}

} // verus!
