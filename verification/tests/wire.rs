use orai::client::stream_reply_text;
use orai::json::JsonValue;
use orai::wire::{read_deltas_exec, read_tool_calls_exec};

fn from_value(v: serde_json::Value) -> JsonValue {
    match v {
        serde_json::Value::Null => JsonValue::Null,
        serde_json::Value::Bool(b) => JsonValue::Bool(b),
        serde_json::Value::Number(n) => JsonValue::Number(n.to_string()),
        serde_json::Value::String(s) => JsonValue::Str(s),
        serde_json::Value::Array(a) => JsonValue::Array(a.into_iter().map(from_value).collect()),
        serde_json::Value::Object(m) => {
            JsonValue::Object(m.into_iter().map(|(k, v)| (k, from_value(v))).collect())
        }
    }
}

#[allow(dead_code)]
fn to_value(v: &JsonValue) -> serde_json::Value {
    match v {
        JsonValue::Null => serde_json::Value::Null,
        JsonValue::Bool(b) => serde_json::Value::Bool(*b),
        JsonValue::Number(n) => serde_json::Value::Number(n.parse().unwrap()),
        JsonValue::Str(s) => serde_json::Value::String(s.clone()),
        JsonValue::Array(a) => serde_json::Value::Array(a.iter().map(to_value).collect()),
        JsonValue::Object(m) => {
            serde_json::Value::Object(m.iter().map(|(k, v)| (k.clone(), to_value(v))).collect())
        }
    }
}

fn from_text(s: &str) -> JsonValue {
    from_value(serde_json::from_str(s).unwrap())
}

#[allow(dead_code)]
fn assert_json(v: &JsonValue, expected: &str) {
    assert_eq!(to_value(v), serde_json::from_str::<serde_json::Value>(expected).unwrap());
}

#[test]
fn json_values_are_read_and_printed_through_serde() {
    let v = from_text(" {\"b\":[1,2.5,null],\"a\":\"x\"} ");
    assert_eq!(stream_reply_text(&Some(v.clone())), "{\"a\":\"x\",\"b\":[1,2.5,null]}");
    assert_eq!(v.get("a").unwrap().as_str(), Some("x"));
    assert_eq!(v.get("b").unwrap().at(2), Some(&JsonValue::Null));
    assert_eq!(v.get("b").unwrap().at(3), None);
    assert_eq!(v.get("zz"), None);
}

#[test]
fn tool_calls_read_like_serde() {
    let ok = from_text("[{\"id\":\"c\",\"type\":\"function\",\"function\":{\"name\":\"n\",\"arguments\":\"{}\"}}]");
    let calls = read_tool_calls_exec(&ok).unwrap();
    assert_eq!(calls.len(), 1);
    assert_eq!(calls[0].call_type, "function");
    assert_eq!(calls[0].function.arguments, "{}");
    assert_eq!(read_tool_calls_exec(&from_text("[{}]")).unwrap_err(), "missing field `id`");
    assert_eq!(
        read_tool_calls_exec(&from_text("[1]")).unwrap_err(),
        "invalid type: integer `1`, expected struct ToolCall"
    );
    assert_eq!(
        read_tool_calls_exec(&from_text("{}")).unwrap_err(),
        "invalid type: map, expected a sequence"
    );
}

#[test]
fn deltas_read_like_serde() {
    let v = from_text("[{\"index\":1,\"function\":{\"arguments\":\"x\"}},{}]");
    let ds = read_deltas_exec(&v).unwrap();
    assert_eq!(ds.len(), 2);
    assert_eq!(ds[0].index, Some(1));
    assert_eq!(ds[0].function.as_ref().unwrap().arguments, Some("x".to_string()));
    assert_eq!(ds[1].index, None);
    assert!(read_deltas_exec(&from_text("[{\"index\":-1}]")).is_none());
    assert!(read_deltas_exec(&from_text("{}")).is_none());
}
