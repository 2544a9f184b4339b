//! Lox numbers are IEEE-754 doubles, carried through verified code as their
//! 64-bit pattern. The arithmetic is done by `rustc_apfloat`, a software
//! implementation of IEEE-754; each operation is wrapped in one trusted
//! item. Comparison and equality of doubles have an exact bit-level
//! statement (a NaN compares with nothing; the two zeros are equal;
//! otherwise sign-magnitude order), which the wrappers promise. The results
//! of arithmetic, parsing and rendering are only named: each is a pure
//! function of the operand bits.

use rustc_apfloat::Float;
use rustc_apfloat::ieee::Double;
use vstd::prelude::*;

verus! {

/// The bits of the double `a + b`.
pub uninterp spec fn add_bits(a: u64, b: u64) -> u64;

/// The bits of the double `a - b`.
pub uninterp spec fn sub_bits(a: u64, b: u64) -> u64;

/// The bits of the double `a * b`.
pub uninterp spec fn mul_bits(a: u64, b: u64) -> u64;

/// The bits of the double `a / b`.
pub uninterp spec fn div_bits(a: u64, b: u64) -> u64;

/// The decimal rendering of the double with bits `a`: `rustc_apfloat`'s
/// reference form, a pure function of the bits.
pub uninterp spec fn fmt_bits(a: u64) -> Seq<char>;

/// The bits of the double that the decimal numeral `s` parses to.
pub uninterp spec fn bits_of_decimal(s: Seq<char>) -> u64;

/// The bits of the double nearest to the integer `n`.
pub uninterp spec fn bits_of_integer(n: u64) -> u64;

/// The pattern is a NaN: exponent all ones, mantissa non-zero.
pub open spec fn is_nan_bits(a: u64) -> bool {
    (a >> 52) & 0x7ff == 0x7ff && a & 0xf_ffff_ffff_ffff != 0
}

/// The pattern is one of the two IEEE zeros.
pub open spec fn is_zero_bits(a: u64) -> bool {
    a & 0x7fff_ffff_ffff_ffff == 0
}

/// Maps the bits of a double to a key whose unsigned order is the numeric
/// order of the doubles: negative patterns are complemented, positive ones
/// get the high bit set, and both zeros share one key.
pub open spec fn order_key(a: u64) -> u64 {
    if is_zero_bits(a) {
        0x8000_0000_0000_0000
    } else if a & 0x8000_0000_0000_0000 != 0 {
        !a
    } else {
        a | 0x8000_0000_0000_0000
    }
}

/// IEEE equality of two doubles: a NaN equals nothing; the two zeros are
/// equal; otherwise equal patterns only.
pub open spec fn eq_bits(a: u64, b: u64) -> bool {
    !is_nan_bits(a) && !is_nan_bits(b) && order_key(a) == order_key(b)
}

/// IEEE `<` of two doubles.
pub open spec fn lt_bits(a: u64, b: u64) -> bool {
    !is_nan_bits(a) && !is_nan_bits(b) && order_key(a) < order_key(b)
}

/// IEEE `<=` of two doubles.
pub open spec fn le_bits(a: u64, b: u64) -> bool {
    !is_nan_bits(a) && !is_nan_bits(b) && order_key(a) <= order_key(b)
}

/// IEEE `>` of two doubles.
pub open spec fn gt_bits(a: u64, b: u64) -> bool {
    lt_bits(b, a)
}

/// IEEE `>=` of two doubles.
pub open spec fn ge_bits(a: u64, b: u64) -> bool {
    le_bits(b, a)
}

/// Negating a double flips exactly its sign bit.
pub open spec fn neg_bits(a: u64) -> u64 {
    a ^ 0x8000_0000_0000_0000
}

/// The bits of the double `-a`. IEEE-754 negation flips the sign bit alone.
pub fn num_neg(a: u64) -> (r: u64)
    ensures
        r == neg_bits(a),
{
    a ^ 0x8000_0000_0000_0000
}

/// Relies on `rustc_apfloat` double addition (round to nearest even);
/// `from_bits`/`to_bits` convert losslessly.
#[verifier::external_body]
pub fn num_add(a: u64, b: u64) -> (r: u64)
    ensures
        r == add_bits(a, b),
{
    (Double::from_bits(a as u128) + Double::from_bits(b as u128)).value.to_bits() as u64
}

/// Relies on `rustc_apfloat` double subtraction.
#[verifier::external_body]
pub fn num_sub(a: u64, b: u64) -> (r: u64)
    ensures
        r == sub_bits(a, b),
{
    (Double::from_bits(a as u128) - Double::from_bits(b as u128)).value.to_bits() as u64
}

/// Relies on `rustc_apfloat` double multiplication.
#[verifier::external_body]
pub fn num_mul(a: u64, b: u64) -> (r: u64)
    ensures
        r == mul_bits(a, b),
{
    (Double::from_bits(a as u128) * Double::from_bits(b as u128)).value.to_bits() as u64
}

/// Relies on `rustc_apfloat` double division.
#[verifier::external_body]
pub fn num_div(a: u64, b: u64) -> (r: u64)
    ensures
        r == div_bits(a, b),
{
    (Double::from_bits(a as u128) / Double::from_bits(b as u128)).value.to_bits() as u64
}

/// Relies on `rustc_apfloat`'s `partial_cmp`, which orders doubles by sign
/// and magnitude, equates the two zeros, and gives a NaN no order.
#[verifier::external_body]
pub fn num_lt(a: u64, b: u64) -> (r: bool)
    ensures
        r == lt_bits(a, b),
{
    Double::from_bits(a as u128) < Double::from_bits(b as u128)
}

/// Relies on `rustc_apfloat`'s `partial_cmp`, as `num_lt` does.
#[verifier::external_body]
pub fn num_le(a: u64, b: u64) -> (r: bool)
    ensures
        r == le_bits(a, b),
{
    Double::from_bits(a as u128) <= Double::from_bits(b as u128)
}

/// Relies on `rustc_apfloat`'s `partial_cmp`, as `num_lt` does.
#[verifier::external_body]
pub fn num_gt(a: u64, b: u64) -> (r: bool)
    ensures
        r == gt_bits(a, b),
{
    Double::from_bits(a as u128) > Double::from_bits(b as u128)
}

/// Relies on `rustc_apfloat`'s `partial_cmp`, as `num_lt` does.
#[verifier::external_body]
pub fn num_ge(a: u64, b: u64) -> (r: bool)
    ensures
        r == ge_bits(a, b),
{
    Double::from_bits(a as u128) >= Double::from_bits(b as u128)
}

/// Relies on `rustc_apfloat`'s `partial_cmp`: a NaN equals nothing, the two
/// zeros are equal, and otherwise only equal patterns are.
#[verifier::external_body]
pub fn num_eq(a: u64, b: u64) -> (r: bool)
    ensures
        r == eq_bits(a, b),
{
    Double::from_bits(a as u128) == Double::from_bits(b as u128)
}

/// Relies on `rustc_apfloat`'s `Display`: a decimal rendering computed
/// from the exact digits of the double (an integer shows no decimal
/// point; a long fraction shows its leading significant digits, and a
/// very large or small value is shown in scientific notation); a pure
/// function of the bits.
#[verifier::external_body]
pub fn num_to_string(a: u64) -> (r: String)
    ensures
        r@ == fmt_bits(a),
{
    format!("{}", Double::from_bits(a as u128))
}

/// A numeral as the scanner produces one: digits, optionally one dot with
/// digits on both sides.
pub open spec fn is_number_lexeme(s: Seq<char>) -> bool {
    &&& s.len() > 0
    &&& crate::text::is_digit(s[0])
    &&& crate::text::is_digit(s[s.len() - 1])
    &&& forall|i: int| 0 <= i < s.len() ==> (crate::text::is_digit(s[i]) || s[i] == '.')
    &&& forall|i: int, j: int| 0 <= i < j < s.len() && s[i] == '.' ==> s[j] != '.'
}

/// Relies on `rustc_apfloat`'s decimal parsing (round to nearest even):
/// the result is a pure function of the characters, and parsing succeeds
/// on every numeral of the scanner's shape.
#[verifier::external_body]
pub fn parse_number(s: &str) -> (r: Option<u64>)
    ensures
        r matches Some(b) ==> b == bits_of_decimal(s@),
        is_number_lexeme(s@) ==> r == Some(bits_of_decimal(s@)),
{
    match s.parse::<Double>() {
        Ok(v) => Some(v.to_bits() as u64),
        Err(_) => None,
    }
}

/// Relies on `rustc_apfloat`'s integer conversion (round to nearest even).
#[verifier::external_body]
pub fn integer_to_bits(n: u64) -> (r: u64)
    ensures
        r == bits_of_integer(n),
{
    Double::from_u128(n as u128).value.to_bits() as u64
}

/// Equality of doubles is reflexive on every pattern that is not a NaN.
pub proof fn lemma_eq_bits_reflexive(a: u64)
    requires
        !is_nan_bits(a),
    ensures
        eq_bits(a, a),
{
}

} // verus!
