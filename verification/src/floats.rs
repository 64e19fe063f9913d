//! IEEE 754 binary64 values, represented by their bit patterns.
//!
//! The engine's `Float` values carry the 64-bit encoding of an IEEE 754
//! double. Arithmetic on them is delegated to `rustc_apfloat`, a software
//! implementation of IEEE 754 whose API works on bit patterns, so every
//! operation here is a pure function from bits to bits. Negation alone is
//! done locally: IEEE 754 negation is exactly a flip of the sign bit.

use vstd::prelude::*;
use rustc_apfloat::Float as SoftFloat;

verus! {

/// The sign bit of an IEEE 754 binary64 encoding.
pub const F64_SIGN_MASK: u64 = 0x8000_0000_0000_0000;

/// The bits of the IEEE 754 sum of the doubles encoded by `a` and `b`,
/// rounded to nearest, ties to even.
pub uninterp spec fn fadd_bits(a: u64, b: u64) -> u64;

/// The bits of the IEEE 754 difference of the doubles encoded by `a` and `b`.
pub uninterp spec fn fsub_bits(a: u64, b: u64) -> u64;

/// The bits of the IEEE 754 product of the doubles encoded by `a` and `b`.
pub uninterp spec fn fmul_bits(a: u64, b: u64) -> u64;

/// The bits of the IEEE 754 quotient of the doubles encoded by `a` and `b`.
pub uninterp spec fn fdiv_bits(a: u64, b: u64) -> u64;

/// The bits of the double nearest to the integer `i`.
pub uninterp spec fn float_of_i64(i: i64) -> u64;

/// The bits of the double that the text `s` denotes, or `None` where `s` is
/// not a decimal floating-point literal.
pub uninterp spec fn float_of_text(s: Seq<char>) -> Option<u64>;

/// The decimal rendering of the double encoded by `b`.
pub uninterp spec fn text_of_float(b: u64) -> Seq<char>;

/// Relies on rustc_apfloat's `Double::add_r`: IEEE 754 binary64 addition,
/// round to nearest, ties to even, a function of the two bit patterns alone.
#[verifier::external_body]
pub fn f64_add(a: u64, b: u64) -> (r: u64)
    ensures
        r == fadd_bits(a, b),
{
    let x = rustc_apfloat::ieee::Double::from_bits(a as u128);
    let y = rustc_apfloat::ieee::Double::from_bits(b as u128);
    x.add_r(y, rustc_apfloat::Round::NearestTiesToEven).value.to_bits() as u64
}

/// Relies on rustc_apfloat's `Double::sub_r`: IEEE 754 binary64 subtraction,
/// round to nearest, ties to even, a function of the two bit patterns alone.
#[verifier::external_body]
pub fn f64_sub(a: u64, b: u64) -> (r: u64)
    ensures
        r == fsub_bits(a, b),
{
    let x = rustc_apfloat::ieee::Double::from_bits(a as u128);
    let y = rustc_apfloat::ieee::Double::from_bits(b as u128);
    x.sub_r(y, rustc_apfloat::Round::NearestTiesToEven).value.to_bits() as u64
}

/// Relies on rustc_apfloat's `Double::mul_r`: IEEE 754 binary64
/// multiplication, round to nearest, ties to even, a function of the two bit
/// patterns alone.
#[verifier::external_body]
pub fn f64_mul(a: u64, b: u64) -> (r: u64)
    ensures
        r == fmul_bits(a, b),
{
    let x = rustc_apfloat::ieee::Double::from_bits(a as u128);
    let y = rustc_apfloat::ieee::Double::from_bits(b as u128);
    x.mul_r(y, rustc_apfloat::Round::NearestTiesToEven).value.to_bits() as u64
}

/// Relies on rustc_apfloat's `Double::div_r`: IEEE 754 binary64 division,
/// round to nearest, ties to even, a function of the two bit patterns alone.
#[verifier::external_body]
pub fn f64_div(a: u64, b: u64) -> (r: u64)
    ensures
        r == fdiv_bits(a, b),
{
    let x = rustc_apfloat::ieee::Double::from_bits(a as u128);
    let y = rustc_apfloat::ieee::Double::from_bits(b as u128);
    x.div_r(y, rustc_apfloat::Round::NearestTiesToEven).value.to_bits() as u64
}

/// IEEE 754 negation: the sign bit flips and nothing else changes.
pub fn f64_neg(a: u64) -> (r: u64)
    ensures
        r == a ^ F64_SIGN_MASK,
{
    a ^ F64_SIGN_MASK
}

/// Relies on rustc_apfloat's `Double::from_i128`: the conversion of an
/// integer to the nearest double, a function of the integer alone.
#[verifier::external_body]
pub fn f64_of_i64(i: i64) -> (r: u64)
    ensures
        r == float_of_i64(i),
{
    rustc_apfloat::ieee::Double::from_i128(i as i128).value.to_bits() as u64
}

/// Relies on rustc_apfloat's `Double::from_str`: parsing a decimal
/// floating-point literal, round to nearest, a function of the text alone.
#[verifier::external_body]
pub fn f64_parse(s: &str) -> (r: Option<u64>)
    ensures
        r == float_of_text(s@),
{
    match <rustc_apfloat::ieee::Double as core::str::FromStr>::from_str(s) {
        Ok(d) => Some(d.to_bits() as u64),
        Err(_) => None,
    }
}

/// Relies on rustc_apfloat's `Display` for `Double`: the decimal rendering
/// of a double, a function of the bit pattern alone.
#[verifier::external_body]
pub fn f64_to_text(b: u64) -> (r: String)
    ensures
        r@ == text_of_float(b),
{
    format!("{}", rustc_apfloat::ieee::Double::from_bits(b as u128))
}

} // verus!
