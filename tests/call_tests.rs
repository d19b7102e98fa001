use cheese_shop::call::{bind_arguments, CallError, CallSignature, Parameter};
use cheese_shop::value::{DynamicValue, NativeType};

fn param(name: &str, default: Option<DynamicValue>, native: NativeType) -> Parameter {
    Parameter { name: name.to_string(), default, native }
}

fn sig(params: Vec<Parameter>, var_positional: bool, var_keyword: bool) -> CallSignature {
    CallSignature { name: "op".to_string(), params, var_positional, var_keyword }
}

fn text(s: &str) -> DynamicValue {
    DynamicValue::Str(s.to_string())
}

#[test]
fn missing_required_argument() {
    let s = sig(
        vec![param("a", None, NativeType::Anything), param("b", None, NativeType::Anything)],
        false,
        false,
    );
    match bind_arguments(&s, &vec![text("x")], &vec![]) {
        Err(CallError::MissingRequiredArgument(n)) => assert_eq!(n, "b"),
        _ => panic!("b is missing"),
    }
    match bind_arguments(&s, &vec![], &vec![]) {
        Err(CallError::MissingRequiredArgument(n)) => assert_eq!(n, "a"),
        _ => panic!("a is missing"),
    }
}

#[test]
fn keyword_fills_and_default_applies() {
    let s = sig(
        vec![
            param("a", None, NativeType::Text),
            param("n", Some(DynamicValue::Int(123)), NativeType::Integer),
        ],
        false,
        false,
    );
    let b = bind_arguments(&s, &vec![], &vec![("a".to_string(), text("spam"))]).ok().unwrap();
    assert_eq!(b.values.len(), 2);
    assert_eq!(b.values[0].as_text(), Some("spam".to_string()));
    assert_eq!(b.values[1].as_int(), Some(123));
    assert!(b.rest.is_empty());
    assert!(b.extra.is_empty());
}

#[test]
fn too_many_positional_arguments() {
    let s = sig(vec![param("a", None, NativeType::Anything)], false, false);
    assert!(matches!(
        bind_arguments(&s, &vec![text("x"), text("y")], &vec![]),
        Err(CallError::TooManyArguments)
    ));
}

#[test]
fn variadic_tail_takes_the_rest_in_order() {
    let s = sig(
        vec![param("a", None, NativeType::Anything), param("b", Some(DynamicValue::Null), NativeType::Anything)],
        true,
        false,
    );
    let pos = vec![text("1"), text("2"), text("3"), text("4"), text("5")];
    let b = bind_arguments(&s, &pos, &vec![]).ok().unwrap();
    assert_eq!(b.values[0].as_text(), Some("1".to_string()));
    assert_eq!(b.values[1].as_text(), Some("2".to_string()));
    let rest: Vec<Option<String>> = b.rest.iter().map(|v| v.as_text()).collect();
    assert_eq!(rest, vec![Some("3".to_string()), Some("4".to_string()), Some("5".to_string())]);
}

#[test]
fn unexpected_keyword_and_keyword_tail() {
    let params = || vec![param("a", Some(DynamicValue::Null), NativeType::Anything)];
    let kw = vec![("Lancelot".to_string(), text("Brave"))];
    match bind_arguments(&sig(params(), false, false), &vec![], &kw) {
        Err(CallError::UnexpectedKeywordArgument(n)) => assert_eq!(n, "Lancelot"),
        _ => panic!("Lancelot is unexpected"),
    }
    let b = bind_arguments(&sig(params(), false, true), &vec![], &kw).ok().unwrap();
    assert_eq!(b.extra.len(), 1);
    assert_eq!(b.extra[0].0, "Lancelot");
    assert_eq!(b.extra[0].1.as_text(), Some("Brave".to_string()));
}

#[test]
fn keyword_for_positionally_filled_parameter_is_unexpected() {
    let s = sig(vec![param("a", None, NativeType::Anything)], false, false);
    match bind_arguments(&s, &vec![text("x")], &vec![("a".to_string(), text("y"))]) {
        Err(CallError::UnexpectedKeywordArgument(n)) => assert_eq!(n, "a"),
        _ => panic!("a was already filled"),
    }
}

#[test]
fn type_mismatch_names_parameter() {
    let s = sig(
        vec![param("cheese_type", None, NativeType::Text), param("n", None, NativeType::Integer)],
        false,
        false,
    );
    match bind_arguments(&s, &vec![text("brie"), text("seven")], &vec![]) {
        Err(CallError::TypeMismatch(n)) => assert_eq!(n, "n"),
        _ => panic!("n is not an integer"),
    }
}
