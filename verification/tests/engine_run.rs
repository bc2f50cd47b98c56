use script_core::Ast;
use script_core::Dynamic;
use script_core::Engine;
use script_core::EvalAltResult;
use script_core::Expr;
use script_core::FnSig;
use script_core::NativeCallContext;
use script_core::NativeFn;
use script_core::Scope;
use script_core::Stmt;

fn engine() -> Engine {
    let mut engine = Engine::new();
    assert!(engine.register_native(String::from("show"), FnSig::General(1), NativeFn::TypeOf));
    assert!(engine.register_native(String::from("negate"), FnSig::General(1), NativeFn::NotBool));
    engine
}

#[test]
fn a_script_runs_and_binds_into_the_scope() {
    let engine = engine();
    let ast = Ast::new(vec![
        Stmt::Bind { name: String::from("x"), expr: Expr::Lit(Dynamic::Int(5)) },
        Stmt::FnCall { name: String::from("show"), args: vec![Expr::Var(String::from("x"))] },
        Stmt::Bind { name: String::from("y"), expr: Expr::Var(String::from("x")) },
    ]);

    let mut scope = Scope::new();
    engine.run_ast_with_scope(&mut scope, &ast).unwrap();
    assert_eq!(scope.get_value(&String::from("x")), Some(Dynamic::Int(5)));
    assert_eq!(scope.get_value(&String::from("y")), Some(Dynamic::Int(5)));
    assert_eq!(scope.get_value(&String::from("z")), None);
}

#[test]
fn a_later_binding_shadows_an_earlier_one() {
    let engine = engine();
    let ast = Ast::new(vec![
        Stmt::Bind { name: String::from("x"), expr: Expr::Lit(Dynamic::Int(1)) },
        Stmt::Bind { name: String::from("x"), expr: Expr::Lit(Dynamic::Bool(true)) },
    ]);

    let mut scope = Scope::new();
    engine.run_ast_with_scope(&mut scope, &ast).unwrap();
    assert_eq!(scope.get_value(&String::from("x")), Some(Dynamic::Bool(true)));
}

#[test]
fn the_first_error_stops_the_run_and_keeps_earlier_bindings() {
    let engine = engine();
    let ast = Ast::new(vec![
        Stmt::Bind { name: String::from("x"), expr: Expr::Lit(Dynamic::Int(1)) },
        Stmt::FnCall { name: String::from("missing"), args: vec![] },
        Stmt::Bind { name: String::from("y"), expr: Expr::Lit(Dynamic::Int(2)) },
    ]);

    let mut scope = Scope::new();
    let err = engine.run_ast_with_scope(&mut scope, &ast).unwrap_err();
    assert_eq!(*err, EvalAltResult::ErrorFunctionNotFound(String::from("missing"), 0));
    assert_eq!(scope.get_value(&String::from("x")), Some(Dynamic::Int(1)));
    assert_eq!(scope.get_value(&String::from("y")), None);
}

#[test]
fn an_unbound_variable_in_an_argument_errors() {
    let engine = engine();
    let ast = Ast::new(vec![Stmt::FnCall {
        name: String::from("show"),
        args: vec![Expr::Var(String::from("ghost_name"))],
    }]);

    let err = engine.run_ast(&ast).unwrap_err();
    assert_eq!(*err, EvalAltResult::ErrorVariableNotFound(String::from("ghost_name")));
}

#[test]
fn a_callee_error_propagates_out_of_the_run() {
    let engine = engine();
    let ast = Ast::new(vec![Stmt::FnCall {
        name: String::from("negate"),
        args: vec![Expr::Lit(Dynamic::Int(3))],
    }]);

    let err = engine.run_ast(&ast).unwrap_err();
    assert_eq!(
        *err,
        EvalAltResult::ErrorMismatchDataType(String::from("bool"), String::from("int")),
    );
}

#[test]
fn deprecated_consume_ast_matches_run_ast() {
    let engine = engine();
    let good = Ast::new(vec![Stmt::FnCall {
        name: String::from("show"),
        args: vec![Expr::Lit(Dynamic::Unit)],
    }]);
    let bad = Ast::new(vec![Stmt::FnCall { name: String::from("missing"), args: vec![] }]);

    assert_eq!(engine.consume_ast(&good), engine.run_ast(&good));
    assert_eq!(engine.consume_ast(&bad), engine.run_ast(&bad));
}

#[test]
fn deprecated_consume_ast_with_scope_matches_run_ast_with_scope() {
    let engine = engine();
    let ast = Ast::new(vec![
        Stmt::Bind { name: String::from("x"), expr: Expr::Lit(Dynamic::Int(9)) },
        Stmt::FnCall { name: String::from("missing"), args: vec![] },
    ]);

    let mut scope_deprecated = Scope::new();
    let mut scope_canonical = Scope::new();
    let r1 = engine.consume_ast_with_scope(&mut scope_deprecated, &ast);
    let r2 = engine.run_ast_with_scope(&mut scope_canonical, &ast);
    assert_eq!(r1, r2);
    assert_eq!(
        scope_deprecated.get_value(&String::from("x")),
        scope_canonical.get_value(&String::from("x")),
    );
}

#[test]
fn run_ast_uses_a_fresh_scope_each_time() {
    let engine = engine();
    // The binding made by one run is not visible to the next.
    let bind = Ast::new(vec![Stmt::Bind {
        name: String::from("x"),
        expr: Expr::Lit(Dynamic::Int(1)),
    }]);
    let read = Ast::new(vec![Stmt::FnCall {
        name: String::from("show"),
        args: vec![Expr::Var(String::from("x"))],
    }]);

    engine.run_ast(&bind).unwrap();
    let err = engine.run_ast(&read).unwrap_err();
    assert_eq!(*err, EvalAltResult::ErrorVariableNotFound(String::from("x")));
}

#[test]
fn a_preseeded_scope_feeds_the_script() {
    let engine = engine();
    let mut scope = Scope::new();
    scope.push(String::from("greeting"), Dynamic::Str(String::from("hi")));

    let ast = Ast::new(vec![Stmt::FnCall {
        name: String::from("show"),
        args: vec![Expr::Var(String::from("greeting"))],
    }]);
    engine.run_ast_with_scope(&mut scope, &ast).unwrap();
    assert_eq!(
        scope.get_value(&String::from("greeting")),
        Some(Dynamic::Str(String::from("hi"))),
    );
}

#[test]
fn the_engine_registry_backs_a_call_context() {
    let engine = engine();
    let ctx = NativeCallContext::new(engine.registry());

    let mut args = vec![Dynamic::Bool(false)];
    let r = ctx.call_fn_raw("negate", false, false, &mut args).unwrap();
    assert_eq!(r, Dynamic::Bool(true));
}
