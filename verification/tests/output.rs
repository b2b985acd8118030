use serde_json::{Number, Value};
use spice2x_cli::json::{Json, Member};
use spice2x_cli::output::TextFormatter;

fn to_json(v: &Value) -> Json {
    match v {
        Value::Null => Json::Null,
        Value::Bool(b) => Json::Bool(*b),
        Value::Number(n) => Json::Number(n.to_string()),
        Value::String(s) => Json::Str(s.clone()),
        Value::Array(items) => Json::Array(items.iter().map(to_json).collect()),
        Value::Object(map) => Json::Object(
            map.iter()
                .map(|(k, v)| Member { key: k.clone(), value: to_json(v) })
                .collect(),
        ),
    }
}

fn s(text: &str) -> Value {
    Value::String(text.to_string())
}

fn float(x: f64) -> Value {
    Value::Number(Number::from_f64(x).unwrap())
}

fn object(members: &[(&str, Value)]) -> Value {
    let mut map = serde_json::Map::new();
    for (k, v) in members {
        map.insert(k.to_string(), v.clone());
    }
    Value::Object(map)
}

fn format(v: &Value) -> String {
    TextFormatter.format(&to_json(v))
}

#[test]
fn text_formatter_object() {
    let val = object(&[("model", s("LDJ")), ("dest", s("J"))]);
    let out = format(&val);
    assert!(out.contains("model: LDJ"));
    assert!(out.contains("dest: J"));
}

#[test]
fn text_formatter_array_of_objects() {
    let val = Value::Array(vec![
        object(&[("name", s("BT_A")), ("value", float(0.0))]),
        object(&[("name", s("BT_B")), ("value", float(1.0))]),
    ]);
    let out = format(&val);
    assert!(out.contains("name: BT_A"));
    assert!(out.contains("value: 0"));
    assert!(out.contains("name: BT_B"));
    assert!(out.contains("value: 1"));
}

#[test]
fn text_formatter_array_of_primitives() {
    let val = Value::Array(vec![Value::from(0), Value::from(1), Value::from(2)]);
    let out = format(&val);
    assert_eq!(out, "0\n1\n2");
}

#[test]
fn text_formatter_single_number() {
    let val = Value::from(42);
    assert_eq!(format(&val), "42");
}

#[test]
fn text_formatter_single_string() {
    let val = s("hello");
    assert_eq!(format(&val), "hello");
}

#[test]
fn text_formatter_null() {
    assert_eq!(format(&Value::Null), "null");
}

#[test]
fn text_formatter_nested_object() {
    let val = object(&[("outer", object(&[("inner", s("value"))]))]);
    let out = format(&val);
    assert!(out.contains("outer:"));
    assert!(out.contains("  inner: value"));
}

#[test]
fn text_formatter_exact_layout_of_objects_in_array() {
    let val = Value::Array(vec![
        object(&[("name", s("BT_A")), ("value", Value::from(0))]),
        object(&[("name", s("BT_B")), ("value", Value::from(1))]),
    ]);
    assert_eq!(format(&val), "name: BT_A\nvalue: 0\n\nname: BT_B\nvalue: 1");
}

#[test]
fn text_formatter_trims_inline_values_and_trailing_newlines() {
    let val = object(&[("a", s("x  \t")), ("b", Value::Bool(true)), ("c", s("\n\n"))]);
    assert_eq!(format(&val), "a: x\nb: true\nc: ");
}

#[test]
fn text_formatter_nested_array_in_object() {
    let val = object(&[("args", Value::Array(vec![s("-ea"), s("-io")])), ("v", Value::Null)]);
    assert_eq!(format(&val), "args:\n  -ea\n  -io\nv: null");
}

#[test]
fn text_formatter_string_with_trailing_newlines_at_top() {
    assert_eq!(format(&s("line\n\n")), "line");
    assert_eq!(format(&Value::Array(vec![])), "");
}
