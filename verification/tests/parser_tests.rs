use rlox::ast::BinaryOperator;
use rlox::ast::Expr;
use rlox::ast::Stmt;
use rlox::parser::Parser;
use rlox::scanner::scan_tokens;

fn parse_source(src: &str) -> Result<Vec<Stmt>, String> {
    let tokens = scan_tokens(src).map_err(|e| e.render())?;
    Parser::new(&tokens).parse().map_err(|e| e.render())
}

#[test]
fn parses_binary_precedence() {
    let stmts = parse_source("1 + 2 * 3;").unwrap();
    assert_eq!(stmts.len(), 1);
    match &stmts[0] {
        Stmt::Expression(e) => match &*e.0 {
            Expr::Binary(b) => {
                assert_eq!(b.operator, BinaryOperator::Add);
                assert!(matches!(&*b.right, Expr::Binary(inner)
                    if inner.operator == BinaryOperator::Multiply));
            }
            _ => panic!("expected a binary expression"),
        },
        _ => panic!("expected an expression statement"),
    }
}

#[test]
fn parses_class_with_method_and_superclass() {
    let stmts = parse_source("class B < A { m(x) { return x; } }").unwrap();
    match &stmts[0] {
        Stmt::Class(c) => {
            assert_eq!(c.name, "B");
            assert_eq!(c.maybe_superclass.as_ref().unwrap().name, "A");
            assert_eq!(c.methods.len(), 1);
            assert_eq!(c.methods[0].name, "m");
            assert_eq!(c.methods[0].parameters.len(), 1);
        }
        _ => panic!("expected a class statement"),
    }
}

#[test]
fn assignment_target_reinterpretation() {
    let stmts = parse_source("a.b = 1;").unwrap();
    match &stmts[0] {
        Stmt::Expression(e) => assert!(matches!(&*e.0, Expr::SetProp(_))),
        _ => panic!("expected an expression statement"),
    }
}

#[test]
fn invalid_assignment_target_is_recorded() {
    let err = parse_source("1 = 2;").unwrap_err();
    assert!(err.starts_with("Syntax error(s):\n"));
    assert!(err.contains("Invalid assignment target."));
}

#[test]
fn missing_semicolon_message() {
    let err = parse_source("var a = 1").unwrap_err();
    assert!(err.contains("Expect 'Semicolon'."));
}

#[test]
fn missing_operand_message() {
    let err = parse_source("print ;").unwrap_err();
    assert!(err.contains("Expect expression."));
}

#[test]
fn parser_recovers_at_statement_boundary() {
    let err = parse_source("var = 1; var b = ;").unwrap_err();
    assert!(err.contains("Expect 'Identifier'."));
    assert!(err.contains("Expect expression."));
}
