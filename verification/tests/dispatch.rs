use script_core::Dynamic;
use script_core::ImmutableString;
use script_core::EvalAltResult;
use script_core::Expr;
use script_core::FnRegistry;
use script_core::FnSig;
use script_core::NativeCallContext;
use script_core::NativeFn;
use script_core::ScriptFnDef;
use script_core::Tag;

fn registry() -> FnRegistry {
    let mut reg = FnRegistry::new();
    assert!(reg.register_native(
        String::from("append"),
        FnSig::Exact(vec![Tag::Str, Tag::Str]),
        NativeFn::Concat,
    ));
    assert!(reg.register_native(String::from("show"), FnSig::General(1), NativeFn::TypeOf));
    assert!(reg.register_native(String::from("negate"), FnSig::General(1), NativeFn::NotBool));
    assert!(reg.register_native(String::from("wipe"), FnSig::General(1), NativeFn::Clear));
    reg
}

#[test]
fn method_call_keeps_receiver_and_consumes_the_rest() {
    let reg = registry();
    let ctx = NativeCallContext::new(&reg);
    let mut args = vec![Dynamic::Str(String::from("ab")), Dynamic::Str(String::from("cd"))];

    let r = ctx.call_fn_raw("append", true, true, &mut args).unwrap();
    assert_eq!(r, Dynamic::Str(String::from("abcd")));
    // Slot 0 still holds the receiver, usable after the call.
    assert_eq!(args[0], Dynamic::Str(String::from("ab")));
    // Slot 1 was consumed and holds the unit placeholder.
    assert_eq!(args[1], Dynamic::Unit);
}

#[test]
fn plain_call_consumes_every_slot() {
    let reg = registry();
    let ctx = NativeCallContext::new(&reg);
    let mut args = vec![Dynamic::Str(String::from("ab")), Dynamic::Str(String::from("cd"))];

    let r = ctx.call_fn_raw("append", false, false, &mut args).unwrap();
    assert_eq!(r, Dynamic::Str(String::from("abcd")));
    assert_eq!(args[0], Dynamic::Unit);
    assert_eq!(args[1], Dynamic::Unit);
}

#[test]
fn unregistered_name_echoes_name_and_arity() {
    let reg = registry();
    let ctx = NativeCallContext::new(&reg);
    let mut args = vec![Dynamic::Int(1), Dynamic::Int(2)];

    let err = ctx.call_fn_raw("nope", false, false, &mut args).unwrap_err();
    assert_eq!(*err, EvalAltResult::ErrorFunctionNotFound(String::from("nope"), 2));
    // Resolution failed, so no slot was touched.
    assert_eq!(args[0], Dynamic::Int(1));
    assert_eq!(args[1], Dynamic::Int(2));
}

#[test]
fn same_name_other_arity_is_an_arity_mismatch() {
    let reg = registry();
    let ctx = NativeCallContext::new(&reg);
    let mut args = vec![Dynamic::Str(String::from("only one"))];

    let err = ctx.call_fn_raw("append", false, false, &mut args).unwrap_err();
    assert_eq!(*err, EvalAltResult::ErrorArityMismatch(String::from("append"), 2, 1));
    assert_eq!(args[0], Dynamic::Str(String::from("only one")));
}

#[test]
fn exact_signature_wins_over_general() {
    let mut reg = FnRegistry::new();
    // The general registration comes first; the exact one must still win.
    assert!(reg.register_native(String::from("f"), FnSig::General(1), NativeFn::TypeOf));
    assert!(reg.register_native(String::from("f"), FnSig::Exact(vec![Tag::Bool]), NativeFn::NotBool));
    let ctx = NativeCallContext::new(&reg);

    let mut args = vec![Dynamic::Bool(true)];
    let r = ctx.call_fn_raw("f", false, false, &mut args).unwrap();
    assert_eq!(r, Dynamic::Bool(false));

    let mut args = vec![Dynamic::Int(9)];
    let r = ctx.call_fn_raw("f", false, false, &mut args).unwrap();
    assert_eq!(r, Dynamic::Str(String::from("int")));
}

#[test]
fn script_function_is_the_fallback() {
    let mut reg = registry();
    reg.register_script_fn(ScriptFnDef {
        name: String::from("pick_second"),
        params: vec![String::from("a"), String::from("b")],
        body: Expr::Var(String::from("b")),
    });
    let ctx = NativeCallContext::new(&reg);

    let mut args = vec![Dynamic::Int(1), Dynamic::Int(2)];
    let r = ctx.call_fn_raw("pick_second", false, false, &mut args).unwrap();
    assert_eq!(r, Dynamic::Int(2));
    assert_eq!(args[0], Dynamic::Unit);
    assert_eq!(args[1], Dynamic::Unit);
}

#[test]
fn script_function_reading_a_missing_parameter_errors() {
    let mut reg = FnRegistry::new();
    reg.register_script_fn(ScriptFnDef {
        name: String::from("broken"),
        params: vec![String::from("a")],
        body: Expr::Var(String::from("zzz")),
    });
    let ctx = NativeCallContext::new(&reg);

    let mut args = vec![Dynamic::Int(1)];
    let err = ctx.call_fn_raw("broken", false, false, &mut args).unwrap_err();
    assert_eq!(*err, EvalAltResult::ErrorVariableNotFound(String::from("zzz")));
}

#[test]
fn callee_errors_propagate_unchanged() {
    let reg = registry();
    let ctx = NativeCallContext::new(&reg);

    let mut args = vec![Dynamic::Int(1)];
    let err = ctx.call_fn_raw("negate", false, false, &mut args).unwrap_err();
    assert_eq!(
        *err,
        EvalAltResult::ErrorMismatchDataType(String::from("bool"), String::from("int")),
    );
    // The callee ran, so the slot was still consumed.
    assert_eq!(args[0], Dynamic::Unit);
}

#[test]
fn native_method_may_mutate_the_receiver_in_place() {
    let reg = registry();
    let ctx = NativeCallContext::new(&reg);

    let mut args = vec![Dynamic::Str(String::from("gone"))];
    let r = ctx.call_fn_raw("wipe", true, true, &mut args).unwrap();
    assert_eq!(r, Dynamic::Unit);
    assert_eq!(args[0], Dynamic::Unit);

    // Without receiver semantics the caller's slot is kept as it was.
    let mut args = vec![Dynamic::Str(String::from("kept"))];
    let r = ctx.call_fn_raw("wipe", true, false, &mut args).unwrap();
    assert_eq!(r, Dynamic::Unit);
    assert_eq!(args[0], Dynamic::Str(String::from("kept")));
}

#[test]
fn registration_rejects_a_signature_of_the_wrong_arity() {
    let mut reg = FnRegistry::new();
    assert!(!reg.register_native(String::from("bad"), FnSig::General(3), NativeFn::NotBool));
    assert!(!reg.register_native(
        String::from("bad"),
        FnSig::Exact(vec![Tag::Str]),
        NativeFn::Concat,
    ));
    // Nothing was registered.
    let ctx = NativeCallContext::new(&reg);
    let mut args = vec![Dynamic::Bool(true), Dynamic::Bool(true), Dynamic::Bool(true)];
    let err = ctx.call_fn_raw("bad", false, false, &mut args).unwrap_err();
    assert_eq!(*err, EvalAltResult::ErrorFunctionNotFound(String::from("bad"), 3));
}

#[test]
fn deprecated_call_fn_dynamic_raw_matches_call_fn_raw() {
    let reg = registry();
    let ctx = NativeCallContext::new(&reg);

    let cases: Vec<(&str, bool, Vec<Dynamic>)> = vec![
        ("append", true, vec![
            Dynamic::Str(String::from("x")),
            Dynamic::Str(String::from("y")),
        ]),
        ("append", false, vec![
            Dynamic::Str(String::from("x")),
            Dynamic::Str(String::from("y")),
        ]),
        ("negate", false, vec![Dynamic::Int(1)]),
        ("missing", true, vec![Dynamic::Unit]),
        ("wipe", true, vec![Dynamic::Bool(true)]),
    ];
    for (name, is_method, args) in cases {
        let mut via_deprecated = args.clone();
        let mut via_canonical = args;
        let r1 = ctx.call_fn_dynamic_raw(name, is_method, &mut via_deprecated);
        let r2 = ctx.call_fn_raw(name, is_method, is_method, &mut via_canonical);
        assert_eq!(r1, r2);
        assert_eq!(via_deprecated, via_canonical);
    }
}

#[test]
fn script_only_name_with_wrong_arity_is_an_arity_mismatch() {
    let mut reg = FnRegistry::new();
    reg.register_script_fn(ScriptFnDef {
        name: String::from("pair"),
        params: vec![String::from("a"), String::from("b")],
        body: Expr::Var(String::from("a")),
    });
    let ctx = NativeCallContext::new(&reg);

    let mut args = vec![Dynamic::Int(1)];
    let err = ctx.call_fn_raw("pair", false, false, &mut args).unwrap_err();
    assert_eq!(*err, EvalAltResult::ErrorArityMismatch(String::from("pair"), 2, 1));
}

#[test]
fn script_function_with_a_literal_body_returns_the_literal() {
    let mut reg = FnRegistry::new();
    reg.register_script_fn(ScriptFnDef {
        name: String::from("seven"),
        params: vec![],
        body: Expr::Lit(Dynamic::Int(7)),
    });
    let ctx = NativeCallContext::new(&reg);

    let mut args = vec![];
    let r = ctx.call_fn_raw("seven", false, false, &mut args).unwrap();
    assert_eq!(r, Dynamic::Int(7));
}

#[test]
fn shared_strings_are_accepted_where_strings_are() {
    let reg = registry();
    let ctx = NativeCallContext::new(&reg);

    let mut args = vec![
        Dynamic::ImmutStr(ImmutableString::new(String::from("ab"))),
        Dynamic::Str(String::from("cd")),
    ];
    let r = ctx.call_fn_raw("append", false, false, &mut args).unwrap();
    assert_eq!(r, Dynamic::Str(String::from("abcd")));
}
