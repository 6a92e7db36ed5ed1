use agent_rig::json::{IntoValue, Object, Value};
use agent_rig::render::{display, from_serde, render, to_serde};

fn number(n: u64) -> Value {
    Value::Number(serde_json::Number::from(n))
}

fn sample() -> Object {
    let mut object = Object::new();
    object.insert("a".to_string(), number(1));
    object.insert("b".to_string(), Value::Bool(true));
    object
}

#[test]
fn object_gets_what_was_inserted() {
    let object = sample();
    assert_eq!(object.len(), 2);
    assert_eq!(object.get("a"), Some(&number(1)));
    assert_eq!(object.get("b"), Some(&Value::Bool(true)));
    assert_eq!(object.get("c"), None);
    assert_eq!(object.entry(1).0, "b");
}

#[test]
fn object_insert_replaces() {
    let mut object = sample();
    object.insert("a".to_string(), Value::Null);
    assert_eq!(object.len(), 2);
    assert_eq!(object.get("a"), Some(&Value::Null));
    assert_eq!(object.entry(0).0, "a");
}

#[test]
fn object_remove_takes_out() {
    let mut object = sample();
    assert_eq!(object.remove("a"), Some(number(1)));
    assert_eq!(object.remove("a"), None);
    assert_eq!(object.len(), 1);
    assert_eq!(object.get("b"), Some(&Value::Bool(true)));
}

#[test]
fn value_accessors() {
    let value = Value::singleton("k".to_string(), Value::text("v"));
    assert!(value.is_object());
    assert_eq!(value.get("k").and_then(Value::as_str), Some("v"));
    assert_eq!(value.get("x"), None);
    assert_eq!(Value::Null.get("k"), None);
    assert_eq!(Value::Bool(true).as_str(), None);
    assert!(!Value::Array(vec![]).is_object());
    assert_eq!(Value::empty_object(), Value::Object(Object::new()));
}

#[test]
fn equality_ignores_the_order_of_keys() {
    let mut other = Object::new();
    other.insert("b".to_string(), Value::Bool(true));
    other.insert("a".to_string(), number(1));
    assert_eq!(Value::Object(sample()), Value::Object(other));
}

#[test]
fn equality_tells_values_apart() {
    let mut other = sample();
    other.insert("a".to_string(), number(2));
    assert_ne!(Value::Object(sample()), Value::Object(other));
    assert_ne!(Value::Object(sample()), Value::Object(Object::new()));
    assert_ne!(number(1), Value::text("1"));
    assert_ne!(Value::Array(vec![number(1)]), Value::Array(vec![]));
    assert_ne!(Value::Array(vec![number(1)]), Value::Array(vec![number(2)]));
    assert_ne!(Value::Null, Value::Bool(false));
    let mut renamed = Object::new();
    renamed.insert("a".to_string(), number(1));
    renamed.insert("c".to_string(), Value::Bool(true));
    assert_ne!(Value::Object(sample()), Value::Object(renamed));
}

#[test]
fn clone_copies_the_tree() {
    let value = Value::Array(vec![Value::Object(sample()), Value::Null, Value::text("x")]);
    assert_eq!(value.clone(), value);
}

#[test]
fn into_value_for_plain_values() {
    assert_eq!("x".into_value(), Value::text("x"));
    assert_eq!(String::from("x").into_value(), Value::text("x"));
    assert_eq!(true.into_value(), Value::Bool(true));
    assert_eq!(number(3).into_value(), number(3));
    assert_eq!(3u8.into_value(), number(3));
    assert_eq!(3usize.into_value(), number(3));
    assert_eq!(3i64.into_value(), number(3));
    assert_eq!(display(&u64::MAX.into_value()), "18446744073709551615");
    assert_eq!(display(&(-3).into_value()), "-3");
    assert_eq!(display(&i64::MIN.into_value()), "-9223372036854775808");
    assert_ne!((-3i8).into_value(), 3i8.into_value());
    assert_eq!(vec![1, 2].into_value(), Value::Array(vec![number(1), number(2)]));
    assert_eq!(vec![Some("x"), None].into_value(), Value::Array(vec![Value::text("x"), Value::Null]));
    assert_eq!(().into_value(), Value::Null);
    assert_eq!(sample().into_value(), Value::Object(sample()));
    assert_eq!(serde_json::Number::from(7u64).into_value(), number(7));
}

#[test]
fn render_writes_compact_json() {
    let value = Value::Array(vec![
        Value::Null,
        Value::Bool(false),
        number(7),
        Value::text("a\"b\n"),
        Value::singleton("k".to_string(), Value::Array(vec![])),
    ]);
    assert_eq!(render(&value), Ok("[null,false,7,\"a\\\"b\\n\",{\"k\":[]}]".to_string()));
    assert_eq!(display(&value), "[null,false,7,\"a\\\"b\\n\",{\"k\":[]}]");
}

#[test]
fn to_serde_holds_the_same() {
    let value = Value::Object(sample());
    let tree = to_serde(&value);
    assert_eq!(tree.get("a").and_then(|v| v.as_u64()), Some(1));
    assert_eq!(tree.get("b").and_then(|v| v.as_bool()), Some(true));
    assert_eq!(tree.as_object().map(|o| o.len()), Some(2));
    assert!(to_serde(&Value::Null).is_null());
}

#[test]
fn from_serde_gives_back_what_to_serde_took() {
    let text = "{\"a\":[1,2.5,null,{\"b\":false}],\"c\":\"x\",\"d\":{}}";
    let tree: serde_json::Value = serde_json::from_str(text).unwrap();
    let value = from_serde(tree.clone());
    assert_eq!(value.get("c").and_then(Value::as_str), Some("x"));
    assert_eq!(value.get("d"), Some(&Value::empty_object()));
    assert!(matches!(value.get("a"), Some(Value::Array(items)) if items.len() == 4));
    assert_eq!(to_serde(&value), tree);
    assert_eq!(from_serde(to_serde(&value)), value);
}
