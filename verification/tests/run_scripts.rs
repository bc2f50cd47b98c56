use script_core::Ast;
use script_core::Dynamic;
use script_core::Engine;
use script_core::EvalAltResult;
use script_core::FnSig;
use script_core::NativeFn;
use script_core::Scope;
use script_core::Stmt;

fn engine() -> Engine {
    let mut engine = Engine::new();
    assert!(engine.register_native(String::from("show"), FnSig::General(1), NativeFn::TypeOf));
    assert!(engine.register_native(String::from("invert"), FnSig::General(1), NativeFn::NotBool));
    engine
}

#[test]
fn a_simple_script_runs() {
    let engine = engine();
    engine.run("let x = true; invert(x); show(x)").unwrap();
    engine.run("show(())").unwrap();
    engine.run("show(true); show(false);").unwrap();
}

#[test]
fn an_empty_or_blank_script_runs() {
    let engine = engine();
    engine.run("").unwrap();
    engine.run("   \t\n  ").unwrap();
}

#[test]
fn compile_gives_an_ast_that_run_ast_accepts() {
    let engine = engine();
    let ast: Ast = engine.compile("let flag = false; invert(flag)").unwrap();
    engine.run_ast(&ast).unwrap();
}

#[test]
fn a_script_reads_the_caller_scope_and_binds_into_it() {
    let engine = engine();
    let mut scope = Scope::new();
    scope.push(String::from("flag"), Dynamic::Bool(true));

    engine.run_with_scope(&mut scope, "invert(flag); let copy = flag").unwrap();
    assert_eq!(scope.get_value(&String::from("copy")), Some(Dynamic::Bool(true)));
}

#[test]
fn a_malformed_script_reports_where_parsing_stopped() {
    let engine = engine();
    let err = engine.run("???").unwrap_err();
    assert_eq!(*err, EvalAltResult::ErrorParsing(0));

    // `let` must be followed by a name.
    let err = engine.run("let = true").unwrap_err();
    assert_eq!(*err, EvalAltResult::ErrorParsing(4));

    // A statement name must be followed by an argument list.
    let err = engine.run("show").unwrap_err();
    assert_eq!(*err, EvalAltResult::ErrorParsing(4));

    // Junk between statements.
    let err = engine.run("show(true) show(false)").unwrap_err();
    assert_eq!(*err, EvalAltResult::ErrorParsing(11));
}

#[test]
fn a_parse_error_leaves_the_scope_untouched() {
    let engine = engine();
    let mut scope = Scope::new();
    scope.push(String::from("flag"), Dynamic::Bool(true));

    let err = engine.run_with_scope(&mut scope, "let broken").unwrap_err();
    assert!(matches!(*err, EvalAltResult::ErrorParsing(_)));
    assert_eq!(scope.get_value(&String::from("flag")), Some(Dynamic::Bool(true)));
}

#[test]
fn an_unknown_function_in_a_script_is_reported() {
    let engine = engine();
    let err = engine.run("missing(true, false)").unwrap_err();
    assert_eq!(*err, EvalAltResult::ErrorFunctionNotFound(String::from("missing"), 2));
}

#[test]
fn an_unbound_variable_in_a_script_is_reported() {
    let engine = engine();
    let err = engine.run("show(nothing_here)").unwrap_err();
    assert_eq!(*err, EvalAltResult::ErrorVariableNotFound(String::from("nothing_here")));
}

#[test]
fn deprecated_consume_matches_run() {
    let engine = engine();
    let scripts = [
        "let x = true; invert(x)",
        "show(true) show(false)",
        "missing()",
        "???",
        "",
    ];
    for script in scripts {
        assert_eq!(engine.consume(script), engine.run(script));
    }
}

#[test]
fn deprecated_consume_with_scope_matches_run_with_scope() {
    let engine = engine();
    let scripts = ["invert(flag); let copy = flag", "let broken", "missing()"];
    for script in scripts {
        let mut scope_deprecated = Scope::new();
        scope_deprecated.push(String::from("flag"), Dynamic::Bool(false));
        let mut scope_canonical = Scope::new();
        scope_canonical.push(String::from("flag"), Dynamic::Bool(false));

        let r1 = engine.consume_with_scope(&mut scope_deprecated, script);
        let r2 = engine.run_with_scope(&mut scope_canonical, script);
        assert_eq!(r1, r2);
        assert_eq!(
            scope_deprecated.get_value(&String::from("copy")),
            scope_canonical.get_value(&String::from("copy")),
        );
    }
}

#[test]
fn compile_builds_the_expected_statements() {
    let engine = engine();
    let ast = engine.compile("let x = (); show(x, true)").unwrap();
    assert_eq!(ast.stmts.len(), 2);
    assert!(matches!(&ast.stmts[0], Stmt::Bind { name, .. } if name == "x"));
    assert!(
        matches!(&ast.stmts[1], Stmt::FnCall { name, args } if name == "show" && args.len() == 2)
    );
}
