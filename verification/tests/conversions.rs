use script_core::Dynamic;
use script_core::ImmutableString;

#[test]
fn owned_string_converts_to_exact_content() {
    let d = Dynamic::Str(String::from("hello world"));
    assert_eq!(d.into_string().unwrap(), "hello world");

    let d = Dynamic::Str(String::new());
    assert_eq!(d.into_string().unwrap(), "");
}

#[test]
fn owned_string_moves_through_without_copy() {
    // A copy would shrink the capacity to the length; moving keeps the buffer.
    let mut s = String::with_capacity(4096);
    s.push_str("hi");
    let d = Dynamic::Str(s);
    let back = d.into_string().unwrap();
    assert_eq!(back, "hi");
    assert!(back.capacity() >= 4096);
}

#[test]
fn single_holder_shared_string_moves_out_without_copy() {
    let mut s = String::with_capacity(4096);
    s.push_str("hi");
    let handle = ImmutableString::new(s);
    let d = Dynamic::ImmutStr(handle);
    let back = d.into_string().unwrap();
    assert_eq!(back, "hi");
    assert!(back.capacity() >= 4096);
}

#[test]
fn multi_holder_shared_string_clones_and_leaves_others_unchanged() {
    let first = ImmutableString::new(String::from("shared"));
    let second = first.share();
    let third = first.share();

    let converted = Dynamic::ImmutStr(third).into_string().unwrap();
    assert_eq!(converted, "shared");
    assert_eq!(first.as_str(), "shared");
    assert_eq!(second.as_str(), "shared");
}

#[test]
fn into_immutable_string_keeps_other_holders_unchanged() {
    let first = ImmutableString::new(String::from("alias"));
    let second = first.share();

    let converted = Dynamic::ImmutStr(first.share()).into_immutable_string().unwrap();
    assert_eq!(converted.as_str(), "alias");
    assert_eq!(first.as_str(), "alias");
    assert_eq!(second.as_str(), "alias");
}

#[test]
fn owned_string_wraps_into_shared_string() {
    let d = Dynamic::Str(String::from("wrap me"));
    let shared = d.into_immutable_string().unwrap();
    assert_eq!(shared.as_str(), "wrap me");
}

#[test]
fn non_string_variants_fail_with_their_variant_name() {
    assert_eq!(Dynamic::Unit.into_string().unwrap_err(), "()");
    assert_eq!(Dynamic::Bool(true).into_string().unwrap_err(), "bool");
    assert_eq!(Dynamic::Int(7).into_string().unwrap_err(), "int");
    assert_eq!(Dynamic::Float(0x3ff0000000000000).into_string().unwrap_err(), "float");

    assert_eq!(Dynamic::Unit.into_immutable_string().unwrap_err(), "()");
    assert_eq!(Dynamic::Bool(false).into_immutable_string().unwrap_err(), "bool");
    assert_eq!(Dynamic::Int(-3).into_immutable_string().unwrap_err(), "int");
    assert_eq!(Dynamic::Float(0).into_immutable_string().unwrap_err(), "float");
}

#[test]
fn deprecated_as_string_matches_into_string() {
    let inputs = || {
        vec![
            Dynamic::Unit,
            Dynamic::Bool(true),
            Dynamic::Int(42),
            Dynamic::Float(0x4008000000000000),
            Dynamic::Str(String::from("text")),
            Dynamic::ImmutStr(ImmutableString::new(String::from("more"))),
        ]
    };
    for (a, b) in inputs().into_iter().zip(inputs().into_iter()) {
        assert_eq!(a.as_string(), b.into_string());
    }
}

#[test]
fn deprecated_as_immutable_string_matches_into_immutable_string() {
    let inputs = || {
        vec![
            Dynamic::Unit,
            Dynamic::Bool(false),
            Dynamic::Int(-1),
            Dynamic::Str(String::from("text")),
            Dynamic::ImmutStr(ImmutableString::new(String::from("more"))),
        ]
    };
    for (a, b) in inputs().into_iter().zip(inputs().into_iter()) {
        assert_eq!(a.as_immutable_string(), b.into_immutable_string());
    }
}

#[test]
fn variant_names_read_as_expected() {
    assert_eq!(Dynamic::Unit.variant_name(), "()");
    assert_eq!(Dynamic::Bool(true).variant_name(), "bool");
    assert_eq!(Dynamic::Int(0).variant_name(), "int");
    assert_eq!(Dynamic::Float(0).variant_name(), "float");
    assert_eq!(Dynamic::Str(String::new()).variant_name(), "string");
    assert_eq!(Dynamic::ImmutStr(ImmutableString::new(String::new())).variant_name(), "string");
}
