//! Scalar double-precision arithmetic on IEEE-754 bit patterns.
//!
//! The library never holds a floating-point value directly: a number is
//! carried as the `u64` bit pattern of a double. The two arithmetic
//! operations that the multiply kernel needs are delegated to the
//! `rustc_apfloat` software implementation of IEEE-754, which computes
//! on bit patterns; what each operation returns is given a name by an
//! uninterpreted spec function, so that callers' contracts can speak of
//! it exactly.

use vstd::prelude::*;
use rustc_apfloat::Float;

verus! {

/// The bit pattern of the double that is the IEEE-754 product of the
/// doubles with bit patterns `a` and `b`, rounded to nearest, ties to
/// even.
pub uninterp spec fn mul_bits(a: u64, b: u64) -> u64;

/// The bit pattern of the double that is the IEEE-754 sum of the
/// doubles with bit patterns `a` and `b`, rounded to nearest, ties to
/// even.
pub uninterp spec fn add_bits(a: u64, b: u64) -> u64;

/// Relies on `rustc_apfloat::ieee::Double::mul_r` with round to nearest,
/// ties to even: IEEE-754 double multiplication, a deterministic
/// function of the two operands' bit patterns.
#[verifier::external_body]
pub(crate) fn mul_double(a: u64, b: u64) -> (r: u64)
    ensures
        r == mul_bits(a, b),
{
    let x = rustc_apfloat::ieee::Double::from_bits(a as u128);
    let y = rustc_apfloat::ieee::Double::from_bits(b as u128);
    x.mul_r(y, rustc_apfloat::Round::NearestTiesToEven).value.to_bits() as u64
}

/// Relies on `rustc_apfloat::ieee::Double::add_r` with round to nearest,
/// ties to even: IEEE-754 double addition, a deterministic function of
/// the two operands' bit patterns.
#[verifier::external_body]
pub(crate) fn add_double(a: u64, b: u64) -> (r: u64)
    ensures
        r == add_bits(a, b),
{
    let x = rustc_apfloat::ieee::Double::from_bits(a as u128);
    let y = rustc_apfloat::ieee::Double::from_bits(b as u128);
    x.add_r(y, rustc_apfloat::Round::NearestTiesToEven).value.to_bits() as u64
}

} // verus!
