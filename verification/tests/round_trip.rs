use json_materializer::{materialize, HostValue, DEFAULT_MAX_DEPTH};
use serde_json::{Number, Value};

fn read_back(graph: &HostValue) -> Value {
    match graph {
        HostValue::Null => Value::Null,
        HostValue::Bool(b) => Value::Bool(*b),
        HostValue::Number(bits) => Value::Number(Number::from_f64(f64::from_bits(*bits)).unwrap()),
        HostValue::Text(text) => Value::String(text.clone()),
        HostValue::Sequence(elements) => Value::Array(elements.iter().map(read_back).collect()),
        HostValue::Mapping(entries) => {
            let mut map = serde_json::Map::new();
            for (key, child) in entries {
                map.insert(key.clone(), read_back(child));
            }
            Value::Object(map)
        }
    }
}

fn deeply_equal(left: &Value, right: &Value) -> bool {
    match (left, right) {
        (Value::Null, Value::Null) => true,
        (Value::Bool(a), Value::Bool(b)) => a == b,
        (Value::Number(a), Value::Number(b)) => a.as_f64() == b.as_f64(),
        (Value::String(a), Value::String(b)) => a == b,
        (Value::Array(a), Value::Array(b)) => {
            a.len() == b.len() && a.iter().zip(b.iter()).all(|(x, y)| deeply_equal(x, y))
        }
        (Value::Object(a), Value::Object(b)) => {
            a.len() == b.len()
                && a.iter().all(|(key, x)| match b.get(key) {
                    Some(y) => deeply_equal(x, y),
                    None => false,
                })
        }
        _ => false,
    }
}

fn round_trips(document: &str) {
    let parsed: Value = serde_json::from_str(document).unwrap();
    let graph = materialize(&parsed, DEFAULT_MAX_DEPTH).unwrap();
    let written = serde_json::to_string(&read_back(&graph)).unwrap();
    let reparsed: Value = serde_json::from_str(&written).unwrap();
    assert!(deeply_equal(&reparsed, &parsed), "{} came back as {}", document, written);
}

#[test]
fn scalars_round_trip() {
    round_trips("null");
    round_trips("true");
    round_trips("false");
    round_trips("0");
    round_trips("3");
    round_trips("3.5");
    round_trips("-12.25e3");
    round_trips("\"\"");
    round_trips("\"line\\nbreak \\u00e9 \\\"quoted\\\"\"");
}

#[test]
fn containers_round_trip() {
    round_trips("[]");
    round_trips("{}");
    round_trips("[1, [2, [3, []]], {}]");
    round_trips("{\"a\": 1, \"b\": [true, null, \"x\"], \"c\": {}}");
    round_trips("{\"zeta\": {\"alpha\": [null, {\"k\": \"v\"}]}, \"alpha\": -1}");
}

#[test]
fn round_trip_keeps_keys_in_order() {
    let parsed: Value = serde_json::from_str("{\"zeta\": 1, \"alpha\": 2, \"mid\": 3}").unwrap();
    let graph = materialize(&parsed, DEFAULT_MAX_DEPTH).unwrap();
    let written = serde_json::to_string(&read_back(&graph)).unwrap();
    assert_eq!(written, "{\"zeta\":1.0,\"alpha\":2.0,\"mid\":3.0}");
}

#[test]
fn deep_equality_tells_documents_apart() {
    let left: Value = serde_json::from_str("{\"a\": [1, 2]}").unwrap();
    let right: Value = serde_json::from_str("{\"a\": [2, 1]}").unwrap();
    assert!(!deeply_equal(&left, &right));
    assert!(deeply_equal(&left, &left));
}
