use cheese_shop::value::{DynamicValue, NativeType, Shape};

#[test]
fn round_trip_of_natives() {
    let v = DynamicValue::from_int(-17);
    assert_eq!(v.as_int(), Some(-17));
    let v = DynamicValue::from_text("spam".to_string());
    assert_eq!(v.as_text(), Some("spam".to_string()));
    let v = DynamicValue::from_bool(true);
    assert_eq!(v.as_bool(), Some(true));
    let bits = 1.618f64.to_bits();
    let v = DynamicValue::from_float_bits(bits);
    assert_eq!(f64::from_bits(v.as_float_bits().unwrap()), 1.618);
    let words = vec!["egg".to_string(), "bacon".to_string(), "spam".to_string()];
    let v = DynamicValue::from_texts(words.clone());
    assert_eq!(v.as_texts(), Some(words));
}

#[test]
fn extraction_refuses_other_kinds() {
    assert_eq!(DynamicValue::Int(1 << 40).as_int(), None);
    assert_eq!(DynamicValue::Bool(true).as_int(), Some(1));
    assert_eq!(DynamicValue::Bool(false).as_int(), Some(0));
    assert_eq!(DynamicValue::Int(1).as_text(), None);
    let mixed = DynamicValue::Sequence(vec![DynamicValue::Str("a".to_string()), DynamicValue::Int(2)]);
    assert_eq!(mixed.as_texts(), None);
    assert!(DynamicValue::Int(1 << 40).converts_to(NativeType::Real));
    assert!(!DynamicValue::Null.converts_to(NativeType::Boolean));
    assert!(DynamicValue::Null.converts_to(NativeType::Anything));
}

#[test]
fn shapes_in_priority_order() {
    assert_eq!(DynamicValue::Str("x".to_string()).shape(), Some(Shape::Text));
    assert_eq!(DynamicValue::Int(5).shape(), Some(Shape::Integer));
    assert_eq!(DynamicValue::Int(1 << 40).shape(), Some(Shape::Real));
    assert_eq!(DynamicValue::Float(0).shape(), Some(Shape::Real));
    assert_eq!(DynamicValue::Bool(false).shape(), Some(Shape::Integer));
    assert!(DynamicValue::Bool(true).converts_to(NativeType::Real));
    assert!(DynamicValue::Bool(true).converts_to(NativeType::Boolean));
    assert_eq!(DynamicValue::Sequence(vec![]).shape(), Some(Shape::List));
    assert_eq!(DynamicValue::SetOf(vec![]).shape(), Some(Shape::SetShape));
    assert_eq!(DynamicValue::Mapping(vec![]).shape(), Some(Shape::Dictionary));
    assert_eq!(DynamicValue::Callable(1).shape(), Some(Shape::Function));
    assert_eq!(DynamicValue::Module(1).shape(), Some(Shape::Module));
    assert_eq!(DynamicValue::Tuple(vec![]).shape(), None);
    assert_eq!(DynamicValue::Null.shape(), None);
}

#[test]
fn duplicate_is_deep() {
    let v = DynamicValue::Mapping(vec![(
        "k".to_string(),
        DynamicValue::Sequence(vec![DynamicValue::Str("x".to_string())]),
    )]);
    match v.duplicate() {
        DynamicValue::Mapping(entries) => {
            assert_eq!(entries.len(), 1);
            assert_eq!(entries[0].0, "k");
            assert_eq!(entries[0].1.as_texts(), Some(vec!["x".to_string()]));
        }
        _ => panic!("a mapping stays a mapping"),
    }
}
