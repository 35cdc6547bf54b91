//! The language's numbers are IEEE 754 single-precision values, carried
//! everywhere as their 32-bit encodings. Comparison, equality and negation
//! are defined and verified here directly over the encoding; the rounding
//! arithmetic (add, subtract, multiply, divide) and decimal parsing are
//! performed by the `rustc_apfloat` software implementation of the format.
use rustc_apfloat::ieee::Single;
use rustc_apfloat::Float;
use vstd::prelude::*;

verus! {

/// What IEEE binary32 addition (round to nearest, ties to even) returns,
/// as computed by `rustc_apfloat`, on two encoded singles.
pub uninterp spec fn add_bits(a: u32, b: u32) -> u32;

/// What IEEE binary32 subtraction returns on two encoded singles.
pub uninterp spec fn sub_bits(a: u32, b: u32) -> u32;

/// What IEEE binary32 multiplication returns on two encoded singles.
pub uninterp spec fn mul_bits(a: u32, b: u32) -> u32;

/// What IEEE binary32 division returns on two encoded singles.
pub uninterp spec fn div_bits(a: u32, b: u32) -> u32;

/// The IEEE binary32 encoding that `rustc_apfloat` parses a piece of decimal
/// text to, or `None` where the text is not a decimal number.
pub uninterp spec fn single_of_decimal(s: Seq<char>) -> Option<u32>;

/// The decimal text that `rustc_apfloat` renders an encoded single to.
pub uninterp spec fn single_display(a: u32) -> Seq<char>;

/// Relies on rustc_apfloat's `Single` addition, which rounds to nearest,
/// ties to even: the result depends on the two encodings alone.
#[verifier::external_body]
pub fn num_add(a: u32, b: u32) -> (r: u32)
    ensures
        r == add_bits(a, b),
{
    (Single::from_bits(a as u128) + Single::from_bits(b as u128)).value.to_bits() as u32
}

/// Relies on rustc_apfloat's `Single` subtraction, which rounds to nearest,
/// ties to even: the result depends on the two encodings alone.
#[verifier::external_body]
pub fn num_sub(a: u32, b: u32) -> (r: u32)
    ensures
        r == sub_bits(a, b),
{
    (Single::from_bits(a as u128) - Single::from_bits(b as u128)).value.to_bits() as u32
}

/// Relies on rustc_apfloat's `Single` multiplication, which rounds to
/// nearest, ties to even: the result depends on the two encodings alone.
#[verifier::external_body]
pub fn num_mul(a: u32, b: u32) -> (r: u32)
    ensures
        r == mul_bits(a, b),
{
    (Single::from_bits(a as u128) * Single::from_bits(b as u128)).value.to_bits() as u32
}

/// Relies on rustc_apfloat's `Single` division, which rounds to nearest,
/// ties to even: the result depends on the two encodings alone. Division by
/// zero is not an error in the format: it yields an infinity or a NaN.
#[verifier::external_body]
pub fn num_div(a: u32, b: u32) -> (r: u32)
    ensures
        r == div_bits(a, b),
{
    (Single::from_bits(a as u128) / Single::from_bits(b as u128)).value.to_bits() as u32
}

/// Relies on rustc_apfloat's `Single` decimal parsing (`from_str_r`, round
/// to nearest, ties to even): the result depends on the characters alone,
/// and text made of decimal digits alone always parses. The length bound is
/// a machine limit: on hexadecimal text whose significant digits stand
/// further than `i32::MAX` bytes from the point, the crate's exponent
/// arithmetic does not return.
#[verifier::external_body]
pub fn num_from_decimal(s: &str) -> (r: Option<u32>)
    requires
        s@.len() < 0x8000_0000,
    ensures
        r == single_of_decimal(s@),
        s@.len() > 0 && (forall|i: int| 0 <= i < s@.len() ==> '0' <= s@[i] && s@[i] <= '9')
            ==> r is Some,
{
    match s.parse::<Single>() {
        Ok(v) => Some(v.to_bits() as u32),
        Err(_) => None,
    }
}

/// Relies on rustc_apfloat's `Display` for `Single`: the text depends on
/// the encoding alone.
#[verifier::external_body]
pub fn num_display(a: u32) -> (r: String)
    ensures
        r@ == single_display(a),
{
    format!("{}", Single::from_bits(a as u128))
}

/// The encoding of an IEEE 754 single has a negative sign bit here.
pub open spec fn sign_bit(a: u32) -> bool {
    a >= 0x8000_0000
}

/// The magnitude (all bits but the sign) of an encoded single.
pub open spec fn magnitude(a: u32) -> u32 {
    if sign_bit(a) {
        (a - 0x8000_0000) as u32
    } else {
        a
    }
}

/// An encoded single is a NaN: exponent all ones, significand not zero.
pub open spec fn is_nan_bits(a: u32) -> bool {
    magnitude(a) > 0x7f80_0000
}

/// The place of a non-NaN encoded single on the real line, scaled to an
/// integer: sign-magnitude order, with the two zero encodings both at 0.
pub open spec fn numeric_key(a: u32) -> int {
    if sign_bit(a) {
        -(magnitude(a) as int)
    } else {
        magnitude(a) as int
    }
}

/// IEEE equality of two encoded singles: false if either is NaN, and the
/// two zeroes are equal to each other.
pub open spec fn spec_num_eq(a: u32, b: u32) -> bool {
    &&& !is_nan_bits(a)
    &&& !is_nan_bits(b)
    &&& numeric_key(a) == numeric_key(b)
}

/// IEEE "less than" of two encoded singles: false if either is NaN.
pub open spec fn spec_num_lt(a: u32, b: u32) -> bool {
    &&& !is_nan_bits(a)
    &&& !is_nan_bits(b)
    &&& numeric_key(a) < numeric_key(b)
}

/// IEEE negation flips the sign bit, whatever the value.
pub open spec fn spec_num_neg(a: u32) -> u32 {
    if sign_bit(a) {
        (a - 0x8000_0000) as u32
    } else {
        (a + 0x8000_0000) as u32
    }
}

fn exec_sign_bit(a: u32) -> (r: bool)
    ensures
        r == sign_bit(a),
{
    a >= 0x8000_0000
}

fn exec_magnitude(a: u32) -> (r: u32)
    ensures
        r == magnitude(a),
{
    if a >= 0x8000_0000 {
        a - 0x8000_0000
    } else {
        a
    }
}

fn exec_is_nan_bits(a: u32) -> (r: bool)
    ensures
        r == is_nan_bits(a),
{
    exec_magnitude(a) > 0x7f80_0000
}

/// IEEE equality of two encoded singles.
pub fn num_eq(a: u32, b: u32) -> (r: bool)
    ensures
        r == spec_num_eq(a, b),
{
    if exec_is_nan_bits(a) || exec_is_nan_bits(b) {
        false
    } else if exec_sign_bit(a) == exec_sign_bit(b) {
        exec_magnitude(a) == exec_magnitude(b)
    } else {
        exec_magnitude(a) == 0 && exec_magnitude(b) == 0
    }
}

/// IEEE "less than" of two encoded singles.
pub fn num_lt(a: u32, b: u32) -> (r: bool)
    ensures
        r == spec_num_lt(a, b),
{
    if exec_is_nan_bits(a) || exec_is_nan_bits(b) {
        false
    } else {
        let ka: i64 = if exec_sign_bit(a) {
            -(exec_magnitude(a) as i64)
        } else {
            exec_magnitude(a) as i64
        };
        let kb: i64 = if exec_sign_bit(b) {
            -(exec_magnitude(b) as i64)
        } else {
            exec_magnitude(b) as i64
        };
        ka < kb
    }
}

/// IEEE negation of an encoded single.
pub fn num_neg(a: u32) -> (r: u32)
    ensures
        r == spec_num_neg(a),
{
    if a >= 0x8000_0000 {
        a - 0x8000_0000
    } else {
        a + 0x8000_0000
    }
}

} // verus!
