use rlox::env::Environment;
use rlox::env::UndefinedVariable;
use rlox::loxtype::LoxType;

fn test_env() -> (Environment, usize) {
    let mut env = Environment::new();
    env.define(0, "a", LoxType::Number(1.0f64.to_bits()));
    let e1 = env.new_frame(0);
    let e2 = env.new_frame(e1);
    (env, e2)
}

#[test]
fn test_get() {
    let (env, e2) = test_env();
    let n = env.get_at(e2, 2, "a").unwrap();
    assert!(n.equals(&LoxType::Number(1.0f64.to_bits())));
}

#[test]
fn test_get_undefined() {
    let (env, e2) = test_env();
    let e = env.get_at(e2, 2, "c").unwrap_err();
    assert_eq!(e, UndefinedVariable());
}

#[test]
fn test_assign() {
    let (mut env, e2) = test_env();
    env.assign_at(e2, 2, "a", LoxType::Boolean(false)).unwrap();
    let v = env.get_at(e2, 2, "a").unwrap();
    assert!(v.equals(&LoxType::Boolean(false)));
}

#[test]
fn test_assign_undefined() {
    let (mut env, e2) = test_env();
    let e = env.assign_at(e2, 2, "c", LoxType::Boolean(false)).unwrap_err();
    assert_eq!(e, UndefinedVariable());
}

#[test]
fn test_define() {
    let (mut env, e2) = test_env();
    env.define(e2, "foo", LoxType::Nil);
    let v = env.get_at(e2, 0, "foo").unwrap();
    assert!(v.equals(&LoxType::Nil));
}

#[test]
fn shadowing_reads_innermost() {
    let (mut env, e2) = test_env();
    env.define(e2, "a", LoxType::Number(2.0f64.to_bits()));
    let inner = env.get_at(e2, 0, "a").unwrap();
    let outer = env.get_at(e2, 2, "a").unwrap();
    assert!(inner.equals(&LoxType::Number(2.0f64.to_bits())));
    assert!(outer.equals(&LoxType::Number(1.0f64.to_bits())));
}
