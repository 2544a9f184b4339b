use rlox::interpreter::Interpreter;

fn run_source(src: &str) -> Result<String, String> {
    let mut interpreter = Interpreter::new();
    match interpreter.run(src) {
        Ok(()) => Ok(interpreter.get_output()),
        Err(e) => Err(e.render()),
    }
}

#[test]
fn arithmetic_precedence() {
    assert_eq!(run_source("print 1 + 2 * 3;").unwrap(), "7\n");
}

#[test]
fn block_scoping() {
    assert_eq!(
        run_source("var a=1; { var a=2; print a; } print a;").unwrap(),
        "2\n1\n"
    );
}

#[test]
fn closure_counter() {
    let src = "fun mk() { var i=0; fun inc() { i = i+1; return i; } return inc; } \
               var c = mk(); print c(); print c(); print c();";
    assert_eq!(run_source(src).unwrap(), "1\n2\n3\n");
}

#[test]
fn super_dispatch() {
    let src = "class A { greet() { print \"hi\"; } } \
               class B < A { greet() { super.greet(); print \"yo\"; } } \
               B().greet();";
    assert_eq!(run_source(src).unwrap(), "hi\nyo\n");
}

#[test]
fn initializer_sets_field() {
    assert_eq!(
        run_source("class P { init(x) { this.x = x; } } print P(7).x;").unwrap(),
        "7\n"
    );
}

#[test]
fn self_initializer_is_resolver_error() {
    let err = run_source("{ var a = a; }").unwrap_err();
    assert!(err.starts_with("Resolver error(s):\n"));
    assert!(err.contains("Can't read local variable in its own initializer."));
}

#[test]
fn incompatible_operands_runtime_error() {
    let err = run_source("\"a\" - 1;").unwrap_err();
    assert_eq!(err, "Runtime error: [ line 1 ] : Incompatible operands.\n");
}

#[test]
fn or_short_circuit_skips_right() {
    let src = "fun f() { print \"f\"; return true; } \
               fun g() { print \"g\"; return true; } \
               print f() or g();";
    assert_eq!(run_source(src).unwrap(), "f\ntrue\n");
}

#[test]
fn and_short_circuit_skips_right() {
    let src = "fun f() { print \"f\"; return false; } \
               fun g() { print \"g\"; return true; } \
               print f() and g();";
    assert_eq!(run_source(src).unwrap(), "f\nfalse\n");
}

#[test]
fn arity_mismatch_never_runs_body() {
    let src = "fun h(a) { print \"ran\"; } h(1, 2);";
    let err = run_source(src).unwrap_err();
    assert_eq!(err, "Runtime error: [ line 1 ] : Expected 1 arguments but got 2.\n");
}

#[test]
fn init_called_directly_returns_instance() {
    let src = "class P { init(x) { this.x = x; } } \
               var p = P(7); var q = p.init(9); print p == q; print p.x;";
    assert_eq!(run_source(src).unwrap(), "true\n9\n");
}

#[test]
fn equality_semantics() {
    let src = "print 1 == 1; print \"ab\" == \"ab\"; print nil == nil; \
               print 1 == \"1\"; print 0/0 == 0/0;";
    assert_eq!(run_source(src).unwrap(), "true\ntrue\ntrue\nfalse\nfalse\n");
}

#[test]
fn reference_identity_of_instances() {
    let src = "class A {} var x = A(); var y = x; print x == y; print A() == A();";
    assert_eq!(run_source(src).unwrap(), "true\nfalse\n");
}

#[test]
fn for_loop_desugars_to_while() {
    assert_eq!(
        run_source("for (var i = 0; i < 3; i = i + 1) print i;").unwrap(),
        "0\n1\n2\n"
    );
}

#[test]
fn truthiness() {
    let src = "if (0) print \"zero\"; if (\"\") print \"empty\"; if (nil) print \"nil\"; \
               if (false) print \"no\"; else print \"else\";";
    assert_eq!(run_source(src).unwrap(), "zero\nempty\nelse\n");
}

#[test]
fn string_concatenation() {
    assert_eq!(run_source("print \"foo\" + \"bar\";").unwrap(), "foobar\n");
}

#[test]
fn undefined_variable_error() {
    let err = run_source("print missing;").unwrap_err();
    assert_eq!(err, "Runtime error: [ line 1 ] : Undefined variable 'missing'.\n");
}

#[test]
fn undefined_property_error() {
    let err = run_source("class A {} A().b;").unwrap_err();
    assert_eq!(err, "Runtime error: [ line 1 ] : Undefined property 'b'.\n");
}

#[test]
fn calling_non_callable() {
    let err = run_source("var a = 1; a();").unwrap_err();
    assert_eq!(err, "Runtime error: [ line 1 ] : Can only call functions and classes.\n");
}

#[test]
fn fields_shadow_methods() {
    let src = "class A { x() { return 1; } } var a = A(); print a.x() == 1;";
    assert_eq!(run_source(src).unwrap(), "true\n");
}

#[test]
fn display_forms() {
    let src = "fun f() {} class C {} var c = C(); \
               print f; print clock; print C; print c; print nil; print true;";
    assert_eq!(
        run_source(src).unwrap(),
        "<fn \"f\">\n<native fn clock>\nC\nC instance\nnil\ntrue\n"
    );
}

#[test]
fn clock_is_a_number() {
    assert_eq!(run_source("print clock() >= 0;").unwrap(), "true\n");
}

#[test]
fn class_binds_name_before_body_runs() {
    let src = "class A { mk() { return A(); } } print A().mk() == nil;";
    assert_eq!(run_source(src).unwrap(), "false\n");
}

#[test]
fn return_at_top_level_is_resolver_error() {
    let err = run_source("return 1;").unwrap_err();
    assert!(err.starts_with("Resolver error(s):\n"));
    assert!(err.contains("Can't return from top-level code."));
}

#[test]
fn value_return_from_init_is_resolver_error() {
    let err = run_source("class A { init() { return 1; } }").unwrap_err();
    assert!(err.contains("Can't return a value from an initializer."));
}

#[test]
fn this_outside_class_is_resolver_error() {
    let err = run_source("print this;").unwrap_err();
    assert!(err.contains("Can't use 'this' outside of a class."));
}

#[test]
fn super_without_superclass_is_resolver_error() {
    let err = run_source("class A { m() { super.m(); } }").unwrap_err();
    assert!(err.contains("Can't use 'super' in a class with no superclass."));
}

#[test]
fn class_cannot_inherit_itself() {
    let err = run_source("class A < A {}").unwrap_err();
    assert!(err.contains("A class can't inherit from itself."));
}

#[test]
fn duplicate_local_is_resolver_error() {
    let err = run_source("{ var a = 1; var a = 2; }").unwrap_err();
    assert!(err.contains("Already a variable with this name in this scope."));
}

#[test]
fn superclass_must_be_a_class() {
    let err = run_source("var NotAClass = 1; class A < NotAClass {}").unwrap_err();
    assert_eq!(err, "Runtime error: [ line 1 ] : Superclass must be a class.\n");
}

#[test]
fn syntax_error_batch() {
    let err = run_source("print 1 print 2;").unwrap_err();
    assert!(err.starts_with("Syntax error(s):\n"));
}

#[test]
fn closure_mutation_is_shared() {
    let src = "var shared = 0; \
               fun a() { shared = shared + 10; } \
               fun b() { return shared; } \
               a(); print b(); a(); print b();";
    assert_eq!(run_source(src).unwrap(), "10\n20\n");
}
