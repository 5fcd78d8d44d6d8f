use orai::stream::{parse_sse_line, AccumulatedToolCalls, FunctionDelta, ToolCallDelta};

fn delta(index: Option<u32>, id: Option<&str>, name: Option<&str>, args: Option<&str>) -> ToolCallDelta {
    ToolCallDelta {
        index,
        id: id.map(|s| s.to_string()),
        call_type: None,
        function: Some(FunctionDelta {
            name: name.map(|s| s.to_string()),
            arguments: args.map(|s| s.to_string()),
        }),
    }
}

#[test]
fn test_accumulate_tool_calls() {
    let mut acc = AccumulatedToolCalls::new();
    acc.apply_delta(vec![ToolCallDelta {
        index: Some(0),
        id: Some("call_123".to_string()),
        call_type: Some("function".to_string()),
        function: Some(FunctionDelta {
            name: Some("shell".to_string()),
            arguments: None,
        }),
    }]);
    acc.apply_delta(vec![ToolCallDelta {
        index: Some(0),
        id: None,
        call_type: None,
        function: Some(FunctionDelta {
            name: None,
            arguments: Some("{\"comma".to_string()),
        }),
    }]);
    acc.apply_delta(vec![ToolCallDelta {
        index: Some(0),
        id: None,
        call_type: None,
        function: Some(FunctionDelta {
            name: None,
            arguments: Some("nd\":\"ls\"}".to_string()),
        }),
    }]);

    let calls = acc.into_tool_calls();
    assert_eq!(calls.len(), 1);
    assert_eq!(calls[0].id, "call_123");
    assert_eq!(calls[0].function.name, "shell");
    assert_eq!(calls[0].function.arguments, "{\"command\":\"ls\"}");
}

#[test]
fn test_parse_sse_line() {
    assert_eq!(
        parse_sse_line("data: {\"hello\":true}"),
        Some("{\"hello\":true}".to_string())
    );
    assert_eq!(parse_sse_line("data: [DONE]"), None);
    assert_eq!(parse_sse_line(""), None);
    assert_eq!(parse_sse_line("event: ping"), None);
}

#[test]
fn sse_line_is_trimmed_before_matching() {
    assert_eq!(parse_sse_line("  data: x \r\n"), Some("x".to_string()));
    assert_eq!(parse_sse_line("   data: [DONE]  "), None);
    assert_eq!(parse_sse_line("data:x"), None);
    assert_eq!(parse_sse_line("data: "), None);
}

#[test]
fn calls_come_out_ordered_by_id_number() {
    let mut acc = AccumulatedToolCalls::new();
    acc.apply_delta(vec![
        delta(Some(2), Some("call_12"), Some("b"), Some("{}")),
        delta(Some(1), Some("call_7"), Some("a"), Some("[")),
        delta(Some(1), None, None, Some("]")),
        delta(None, Some("x"), Some("c"), None),
    ]);
    assert!(!acc.is_empty());
    let calls = acc.into_tool_calls();
    assert_eq!(calls.len(), 3);
    assert_eq!(calls[0].id, "x");
    assert_eq!(calls[1].id, "call_7");
    assert_eq!(calls[1].function.arguments, "[]");
    assert_eq!(calls[2].id, "call_12");
}

#[test]
fn new_accumulator_is_empty() {
    let acc = AccumulatedToolCalls::new();
    assert!(acc.is_empty());
    assert!(acc.into_tool_calls().is_empty());
}

#[test]
fn chunking_of_deltas_does_not_matter() {
    let ds = || {
        vec![
            delta(Some(0), Some("call_1"), Some("shell"), Some("{\"a\"")),
            delta(Some(1), Some("call_2"), Some("read"), Some("{")),
            delta(Some(0), None, None, Some(":1}")),
            delta(Some(1), None, None, Some("}")),
        ]
    };
    let mut whole = AccumulatedToolCalls::new();
    whole.apply_delta(ds());
    let mut split = AccumulatedToolCalls::new();
    let mut parts = ds();
    let rest = parts.split_off(1);
    split.apply_delta(parts);
    split.apply_delta(rest);
    let a = whole.into_tool_calls();
    let b = split.into_tool_calls();
    assert_eq!(a, b);
    assert_eq!(a[0].function.arguments, "{\"a\":1}");
    assert_eq!(a[1].function.arguments, "{}");
}

#[test]
fn data_lines_give_back_their_payload() {
    for p in ["x", "[DONE]x", "  lead", "{\"k\":[1, 2]}"] {
        assert_eq!(parse_sse_line(&format!("data: {}", p)), Some(p.to_string()));
    }
}

#[test]
fn accumulator_is_empty_exactly_when_no_delta_came() {
    let mut acc = AccumulatedToolCalls::new();
    acc.apply_delta(vec![]);
    acc.apply_delta(vec![]);
    assert!(acc.is_empty());
    acc.apply_delta(vec![ToolCallDelta { index: None, id: None, call_type: None, function: None }]);
    assert!(!acc.is_empty());
    let calls = acc.into_tool_calls();
    assert_eq!(calls.len(), 1);
    assert_eq!(calls[0].id, "");
}
