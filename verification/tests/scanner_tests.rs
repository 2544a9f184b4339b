use rlox::scanner::scan_tokens;
use rlox::token::Literal;
use rlox::token::TokenType;

fn types(src: &str) -> Vec<TokenType> {
    scan_tokens(src).unwrap().iter().map(|t| t.ty).collect()
}

#[test]
fn scans_declaration() {
    assert_eq!(
        types("var x = 1.5;"),
        vec![
            TokenType::Var,
            TokenType::Identifier,
            TokenType::Equal,
            TokenType::Number,
            TokenType::Semicolon,
            TokenType::Eof
        ]
    );
}

#[test]
fn scans_operators_and_comments() {
    assert_eq!(
        types("! != = == < <= > >= / // comment to end\n*"),
        vec![
            TokenType::Bang,
            TokenType::BangEqual,
            TokenType::Equal,
            TokenType::EqualEqual,
            TokenType::Less,
            TokenType::LessEqual,
            TokenType::Greater,
            TokenType::GreaterEqual,
            TokenType::Slash,
            TokenType::Star,
            TokenType::Eof
        ]
    );
}

#[test]
fn scans_string_literal() {
    let tokens = scan_tokens("\"hi\nthere\"").unwrap();
    assert_eq!(tokens[0].ty, TokenType::String);
    assert_eq!(tokens[0].lexeme, "hi\nthere");
    assert_eq!(tokens[0].line, 2);
    match &tokens[0].literal {
        Some(Literal::String(s)) => assert_eq!(s, "hi\nthere"),
        _ => panic!("expected a string literal"),
    }
}

#[test]
fn scans_number_literal_bits() {
    let tokens = scan_tokens("2.5").unwrap();
    match tokens[0].literal {
        Some(Literal::Number(bits)) => assert_eq!(bits, 2.5f64.to_bits()),
        _ => panic!("expected a number literal"),
    }
}

#[test]
fn keywords_and_identifiers() {
    assert_eq!(
        types("and class else false for fun if nil or print return super this true var while andx"),
        vec![
            TokenType::And,
            TokenType::Class,
            TokenType::Else,
            TokenType::False,
            TokenType::For,
            TokenType::Fun,
            TokenType::If,
            TokenType::Nil,
            TokenType::Or,
            TokenType::Print,
            TokenType::Return,
            TokenType::Super,
            TokenType::This,
            TokenType::True,
            TokenType::Var,
            TokenType::While,
            TokenType::Identifier,
            TokenType::Eof
        ]
    );
}

#[test]
fn unterminated_string_is_reported() {
    let err = scan_tokens("\"abc").unwrap_err();
    let rendered = err.render();
    assert!(rendered.starts_with("Scanner error(s):\n"));
    assert!(rendered.contains("Unterminated string."));
}

#[test]
fn unexpected_character_is_reported() {
    let err = scan_tokens("@").unwrap_err();
    assert!(err.render().contains("Unexpected character: @."));
}

#[test]
fn rescan_of_spaced_lexemes_keeps_types() {
    let src = "var answer = 6 * 7; print answer <= 43;";
    let first = scan_tokens(src).unwrap();
    let lexemes: Vec<String> = first
        .iter()
        .filter(|t| t.ty != TokenType::Eof)
        .map(|t| t.lexeme.clone())
        .collect();
    let rejoined = lexemes.join(" ");
    let second = scan_tokens(&rejoined).unwrap();
    let first_types: Vec<TokenType> = first.iter().map(|t| t.ty).collect();
    let second_types: Vec<TokenType> = second.iter().map(|t| t.ty).collect();
    assert_eq!(first_types, second_types);
}
