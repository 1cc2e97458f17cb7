use eri::value::object_ref_to_value;
use eri::value::is_finite_bits;
use eri::value::insert_entry;
use eri::value::ConvertError;
use eri::value::SourceEntry;
use eri::value::SourceNode;
use eri::value::Value;

fn entry(key: &str, node: SourceNode) -> SourceEntry {
    SourceEntry { key: Some(key.to_string()), node }
}

#[test]
fn integer_converts_to_integer_not_float() {
    assert_eq!(object_ref_to_value(&SourceNode::Int(644)), Ok(Value::Integer(644)));
}

#[test]
fn scalars_keep_kind_and_value() {
    assert_eq!(object_ref_to_value(&SourceNode::Null), Ok(Value::Null));
    assert_eq!(object_ref_to_value(&SourceNode::Bool(true)), Ok(Value::Bool(true)));
    assert_eq!(object_ref_to_value(&SourceNode::Bool(false)), Ok(Value::Bool(false)));
    assert_eq!(object_ref_to_value(&SourceNode::Int(-7)), Ok(Value::Integer(-7)));
    assert_eq!(
        object_ref_to_value(&SourceNode::Str("hello".to_string())),
        Ok(Value::Str("hello".to_string()))
    );
    let bits = 1.5f64.to_bits();
    assert_eq!(object_ref_to_value(&SourceNode::Float(bits)), Ok(Value::Float(bits)));
}

#[test]
fn time_converts_to_its_epoch_number() {
    let bits = 1_600_000_000.25f64.to_bits();
    assert_eq!(object_ref_to_value(&SourceNode::Time(bits)), Ok(Value::Float(bits)));
}

#[test]
fn non_finite_number_is_refused() {
    assert_eq!(object_ref_to_value(&SourceNode::Float(f64::NAN.to_bits())), Err(ConvertError::NotFinite));
    assert_eq!(object_ref_to_value(&SourceNode::Float(f64::INFINITY.to_bits())), Err(ConvertError::NotFinite));
    assert_eq!(object_ref_to_value(&SourceNode::Time(f64::NEG_INFINITY.to_bits())), Err(ConvertError::NotFinite));
}

#[test]
fn finite_bits_test() {
    assert!(is_finite_bits(0.0f64.to_bits()));
    assert!(is_finite_bits(f64::MAX.to_bits()));
    assert!(is_finite_bits((-2.5f64).to_bits()));
    assert!(!is_finite_bits(f64::NAN.to_bits()));
    assert!(!is_finite_bits(f64::INFINITY.to_bits()));
}

#[test]
fn user_data_is_unsupported() {
    assert_eq!(object_ref_to_value(&SourceNode::UserData), Err(ConvertError::UnsupportedKind));
}

#[test]
fn object_child_without_key_is_an_error() {
    let node = SourceNode::Object(vec![
        entry("a", SourceNode::Int(1)),
        SourceEntry { key: None, node: SourceNode::Int(2) },
    ]);
    assert_eq!(object_ref_to_value(&node), Err(ConvertError::MissingKey));
}

#[test]
fn error_deep_inside_propagates() {
    let node = SourceNode::Array(vec![
        SourceNode::Int(1),
        SourceNode::Object(vec![entry("bad", SourceNode::UserData)]),
        SourceNode::Float(f64::NAN.to_bits()),
    ]);
    assert_eq!(object_ref_to_value(&node), Err(ConvertError::UnsupportedKind));
}

#[test]
fn nested_tree_converts_depth_first() {
    let node = SourceNode::Object(vec![
        entry("name", SourceNode::Str("x".to_string())),
        entry(
            "list",
            SourceNode::Array(vec![SourceNode::Int(1), SourceNode::Bool(true), SourceNode::Null]),
        ),
        entry("inner", SourceNode::Object(vec![entry("port", SourceNode::Int(80))])),
    ]);
    let expected = Value::Object(vec![
        ("name".to_string(), Value::Str("x".to_string())),
        (
            "list".to_string(),
            Value::Array(vec![Value::Integer(1), Value::Bool(true), Value::Null]),
        ),
        (
            "inner".to_string(),
            Value::Object(vec![("port".to_string(), Value::Integer(80))]),
        ),
    ]);
    assert_eq!(object_ref_to_value(&node), Ok(expected));
}

#[test]
fn repeated_key_keeps_first_place_and_last_value() {
    let node = SourceNode::Object(vec![
        entry("a", SourceNode::Int(1)),
        entry("b", SourceNode::Int(2)),
        entry("a", SourceNode::Int(3)),
    ]);
    let expected = Value::Object(vec![
        ("a".to_string(), Value::Integer(3)),
        ("b".to_string(), Value::Integer(2)),
    ]);
    assert_eq!(object_ref_to_value(&node), Ok(expected));
}

#[test]
fn empty_containers_convert() {
    assert_eq!(object_ref_to_value(&SourceNode::Array(vec![])), Ok(Value::Array(vec![])));
    assert_eq!(object_ref_to_value(&SourceNode::Object(vec![])), Ok(Value::Object(vec![])));
}

#[test]
fn insert_entry_replaces_in_place_or_appends() {
    let mut entries = vec![("a".to_string(), Value::Integer(1))];
    insert_entry(&mut entries, "b".to_string(), Value::Integer(2));
    insert_entry(&mut entries, "a".to_string(), Value::Bool(false));
    assert_eq!(
        entries,
        vec![("a".to_string(), Value::Bool(false)), ("b".to_string(), Value::Integer(2))]
    );
}
