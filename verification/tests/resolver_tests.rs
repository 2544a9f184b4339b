use rlox::parser::Parser;
use rlox::resolver::resolve;
use rlox::ast::Expr;
use rlox::ast::Stmt;
use rlox::scanner::scan_tokens;

fn resolve_source(src: &str) -> Result<Vec<Stmt>, String> {
    let tokens = scan_tokens(src).map_err(|e| e.render())?;
    let stmts = Parser::new(&tokens).parse().map_err(|e| e.render())?;
    resolve(stmts).map_err(|e| e.render())
}

#[test]
fn local_reference_gets_depth_zero() {
    let stmts = resolve_source("{ var a = 1; print a; }").unwrap();
    match &stmts[0] {
        Stmt::Block(b) => match &b.statements[1] {
            Stmt::Print(p) => match &*p.expression {
                Expr::Variable(v) => assert_eq!(v.maybe_distance, Some(0)),
                _ => panic!("expected a variable"),
            },
            _ => panic!("expected a print statement"),
        },
        _ => panic!("expected a block"),
    }
}

#[test]
fn global_reference_stays_unresolved() {
    let stmts = resolve_source("var a = 1; print a;").unwrap();
    match &stmts[1] {
        Stmt::Print(p) => match &*p.expression {
            Expr::Variable(v) => assert_eq!(v.maybe_distance, None),
            _ => panic!("expected a variable"),
        },
        _ => panic!("expected a print statement"),
    }
}

#[test]
fn capture_depth_counts_hops() {
    let stmts = resolve_source("{ var a = 1; fun f() { print a; } }").unwrap();
    match &stmts[0] {
        Stmt::Block(b) => match &b.statements[1] {
            Stmt::Function(f) => match &f.statements[0] {
                Stmt::Print(p) => match &*p.expression {
                    Expr::Variable(v) => assert_eq!(v.maybe_distance, Some(1)),
                    _ => panic!("expected a variable"),
                },
                _ => panic!("expected a print statement"),
            },
            _ => panic!("expected a function declaration"),
        },
        _ => panic!("expected a block"),
    }
}

#[test]
fn resolver_error_batches() {
    let err = resolve_source("{ var a = 1; var a = 2; } return 1;").unwrap_err();
    assert!(err.starts_with("Resolver error(s):\n"));
    assert!(err.contains("Already a variable with this name in this scope."));
    assert!(err.contains("Can't return from top-level code."));
}
