use rlox::number::integer_to_bits;
use rlox::number::num_add;
use rlox::number::num_div;
use rlox::number::num_eq;
use rlox::number::num_ge;
use rlox::number::num_gt;
use rlox::number::num_le;
use rlox::number::num_lt;
use rlox::number::num_mul;
use rlox::number::num_neg;
use rlox::number::num_sub;
use rlox::number::num_to_string;
use rlox::number::parse_number;

fn b(x: f64) -> u64 {
    x.to_bits()
}

#[test]
fn arithmetic_matches_hardware() {
    assert_eq!(num_add(b(1.5), b(2.25)), b(1.5 + 2.25));
    assert_eq!(num_sub(b(1.0), b(3.0)), b(1.0 - 3.0));
    assert_eq!(num_mul(b(2.0), b(3.0)), b(6.0));
    assert_eq!(num_div(b(1.0), b(2.0)), b(0.5));
    assert_eq!(num_div(b(1.0), b(0.0)), b(f64::INFINITY));
    assert_eq!(num_neg(b(2.0)), b(-2.0));
}

#[test]
fn comparisons_match_hardware() {
    assert!(num_lt(b(1.0), b(2.0)));
    assert!(!num_lt(b(2.0), b(1.0)));
    assert!(num_lt(b(-2.0), b(-1.0)));
    assert!(num_le(b(0.0), b(-0.0)));
    assert!(num_ge(b(0.0), b(-0.0)));
    assert!(num_gt(b(1.0), b(-1.0)));
    let nan = b(f64::NAN);
    assert!(!num_lt(nan, b(1.0)));
    assert!(!num_le(nan, nan));
    assert!(!num_gt(b(1.0), nan));
}

#[test]
fn equality_matches_ieee() {
    assert!(num_eq(b(1.0), b(1.0)));
    assert!(num_eq(b(0.0), b(-0.0)));
    assert!(!num_eq(b(1.0), b(2.0)));
    let nan = b(f64::NAN);
    assert!(!num_eq(nan, nan));
}

#[test]
fn rendering_of_reference_values() {
    assert_eq!(num_to_string(b(7.0)), "7");
    assert_eq!(num_to_string(b(0.5)), "0.5");
    assert_eq!(num_to_string(b(-2.0)), "-2");
}

#[test]
fn parsing_numerals() {
    assert_eq!(parse_number("1.5"), Some(b(1.5)));
    assert_eq!(parse_number("007"), Some(b(7.0)));
    assert_eq!(parse_number("123"), Some(b(123.0)));
}

#[test]
fn integer_conversion() {
    assert_eq!(integer_to_bits(5), b(5.0));
    assert_eq!(integer_to_bits(0), b(0.0));
}
