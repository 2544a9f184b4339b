use rlox::error::Error;
use rlox::error::ErrorDetail;
use rlox::text::str_eq;
use rlox::text::u32_to_string;
use rlox::text::u64_to_string;
use rlox::token::TokenType;

#[test]
fn decimal_rendering() {
    assert_eq!(u32_to_string(0), "0");
    assert_eq!(u32_to_string(7), "7");
    assert_eq!(u32_to_string(1234567890), "1234567890");
    assert_eq!(u64_to_string(18446744073709551615), "18446744073709551615");
}

#[test]
fn string_equality() {
    assert!(str_eq("abc", "abc"));
    assert!(!str_eq("abc", "abd"));
    assert!(!str_eq("abc", "ab"));
    assert!(str_eq("", ""));
}

#[test]
fn token_type_names() {
    assert_eq!(TokenType::Semicolon.name(), "Semicolon");
    assert_eq!(TokenType::RightParen.name(), "RightParen");
}

#[test]
fn error_detail_rendering() {
    let d = ErrorDetail::new(42, "Something went wrong.");
    assert_eq!(d.render(), "[ line 42 ] : Something went wrong.");
}

#[test]
fn error_batches_render_under_banner() {
    let e = Error::SyntaxErrors(vec![
        ErrorDetail::new(1, "first."),
        ErrorDetail::new(2, "second."),
    ]);
    assert_eq!(
        e.render(),
        "Syntax error(s):\n[ line 1 ] : first.\n[ line 2 ] : second.\n"
    );
    let r = Error::RuntimeError(ErrorDetail::new(3, "bad."));
    assert_eq!(r.render(), "Runtime error: [ line 3 ] : bad.\n");
}
