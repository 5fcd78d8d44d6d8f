use orai::tools::{record_answer, tui_answer, TuiAnswer};
use orai::json::JsonValue;
use orai::tools::{
    build_tools_array, confirm_prompt_accepts, confirm_prompt_message, confirm_tui_accepts,
    confirm_tui_message, denied_result, get_native_tool_definitions, get_server_tools,
    get_server_tools_with_config, prepare_native_tool, required_arg, truncate_args,
    unknown_tool_result, ConfirmMode, NativeTool, ToolConfig, ToolResult, MAX_TOOL_ITERATIONS,
};

#[allow(dead_code)]
fn from_value(v: serde_json::Value) -> JsonValue {
    match v {
        serde_json::Value::Null => JsonValue::Null,
        serde_json::Value::Bool(b) => JsonValue::Bool(b),
        serde_json::Value::Number(n) => JsonValue::Number(n.to_string()),
        serde_json::Value::String(s) => JsonValue::Str(s),
        serde_json::Value::Array(a) => JsonValue::Array(a.into_iter().map(from_value).collect()),
        serde_json::Value::Object(m) => {
            JsonValue::Object(m.into_iter().map(|(k, v)| (k, from_value(v))).collect())
        }
    }
}

fn to_value(v: &JsonValue) -> serde_json::Value {
    match v {
        JsonValue::Null => serde_json::Value::Null,
        JsonValue::Bool(b) => serde_json::Value::Bool(*b),
        JsonValue::Number(n) => serde_json::Value::Number(n.parse().unwrap()),
        JsonValue::Str(s) => serde_json::Value::String(s.clone()),
        JsonValue::Array(a) => serde_json::Value::Array(a.iter().map(to_value).collect()),
        JsonValue::Object(m) => {
            serde_json::Value::Object(m.iter().map(|(k, v)| (k.clone(), to_value(v))).collect())
        }
    }
}

#[allow(dead_code)]
fn from_text(s: &str) -> JsonValue {
    from_value(serde_json::from_str(s).unwrap())
}

fn assert_json(v: &JsonValue, expected: &str) {
    assert_eq!(to_value(v), serde_json::from_str::<serde_json::Value>(expected).unwrap());
}

fn config(auto_approve: bool) -> ToolConfig {
    ToolConfig { auto_approve, shell_timeout: 30, mode: ConfirmMode::Tui }
}

fn name_of(tool: &JsonValue) -> String {
    tool.get("function").unwrap().get("name").unwrap().as_str().unwrap().to_string()
}

#[test]
fn results_as_the_model_sees_them() {
    let ok = ToolResult::Success("done".to_string());
    let err = ToolResult::Error("bad".to_string());
    assert_eq!(ok.to_content(), "done");
    assert_eq!(err.to_content(), "Error: bad");
    assert!(!ok.is_error());
    assert!(err.is_error());
    assert_eq!(MAX_TOOL_ITERATIONS, 25);
}

#[test]
fn native_tools_are_read_write_shell_fetch() {
    let tools = get_native_tool_definitions();
    let names: Vec<String> = tools.iter().map(name_of).collect();
    assert_eq!(names, vec!["read", "write", "shell", "web_fetch"]);
    let write = &tools[1];
    let required = write.get("function").unwrap().get("parameters").unwrap().get("required").unwrap();
    assert_json(required, "[\"path\",\"content\"]");
    assert_eq!(write.get("type").unwrap().as_str(), Some("function"));
}

#[test]
fn tools_array_orders_native_search_date() {
    let all = build_tools_array(true, true, true, "exa", 3);
    assert_eq!(all.len(), 6);
    assert_json(&all[4], "{\"parameters\":{\"engine\":\"exa\",\"max_results\":3},\"type\":\"openrouter:web_search\"}");
    assert_json(&all[5], "{\"type\":\"openrouter:datetime\"}");
    let plain = build_tools_array(false, true, false, "auto", 5);
    assert_eq!(plain.len(), 1);
    assert_json(&plain[0], "{\"type\":\"openrouter:web_search\"}");
    let only_results = get_server_tools_with_config(true, false, "auto", 9);
    assert_json(&only_results[0], "{\"parameters\":{\"max_results\":9},\"type\":\"openrouter:web_search\"}");
    assert!(build_tools_array(false, false, false, "auto", 5).is_empty());
}

#[test]
fn server_tools_without_parameters() {
    let tools = get_server_tools(false, true);
    assert_eq!(tools.len(), 1);
    assert_json(&tools[0], "{\"type\":\"openrouter:datetime\"}");
    assert_eq!(get_server_tools(true, true).len(), 2);
}

#[test]
fn write_and_shell_need_confirmation_unless_approved() {
    let req = prepare_native_tool("shell", "{\"command\":\"ls\"}", &config(false)).unwrap();
    assert_eq!(req.tool, Some(NativeTool::Shell));
    assert_eq!(req.confirm, Some(ConfirmMode::Tui));
    assert_eq!(req.args.len(), 1);
    let auto = prepare_native_tool("write", "{}", &config(true)).unwrap();
    assert_eq!(auto.confirm, None);
    let read = prepare_native_tool("read", "{\"path\":\"a\"}", &config(false)).unwrap();
    assert_eq!(read.tool, Some(NativeTool::Read));
    assert_eq!(read.confirm, None);
    let unknown = prepare_native_tool("rm", "{}", &config(false)).unwrap();
    assert_eq!(unknown.tool, None);
}

#[test]
fn arguments_must_be_a_json_object() {
    match prepare_native_tool("read", "not json", &config(false)) {
        Err(ToolResult::Error(m)) => {
            assert_eq!(m, "Invalid JSON arguments: expected ident at line 1 column 2");
        }
        other => panic!("unexpected {:?}", other),
    }
    assert_eq!(
        prepare_native_tool("read", "[1]", &config(false)),
        Err(ToolResult::Error(
            "Invalid JSON arguments: invalid type: sequence, expected a map at line 1 column 0".to_string()
        ))
    );
    assert_eq!(
        prepare_native_tool("read", "", &config(false)),
        Err(ToolResult::Error(
            "Invalid JSON arguments: EOF while parsing a value at line 1 column 0".to_string()
        ))
    );
}

#[test]
fn denied_and_unknown_results() {
    assert_eq!(denied_result(), ToolResult::Error("User denied this tool call.".to_string()));
    assert_eq!(unknown_tool_result("rm"), ToolResult::Error("Unknown tool: rm".to_string()));
}

#[test]
fn required_arguments_are_strings() {
    let args = vec![
        ("path".to_string(), JsonValue::Str("a.txt".to_string())),
        ("n".to_string(), JsonValue::Number("3".to_string())),
    ];
    assert_eq!(required_arg(&args, "path"), Ok("a.txt".to_string()));
    assert_eq!(
        required_arg(&args, "n"),
        Err(ToolResult::Error("Missing 'n' argument".to_string()))
    );
    assert_eq!(
        required_arg(&args, "url"),
        Err(ToolResult::Error("Missing 'url' argument".to_string()))
    );
}

#[test]
fn confirmation_replies() {
    assert!(confirm_prompt_accepts(" Yes\n"));
    assert!(confirm_prompt_accepts("Y"));
    assert!(!confirm_prompt_accepts("all"));
    assert!(!confirm_prompt_accepts("yep"));
    assert!(confirm_tui_accepts("ALL"));
    assert!(confirm_tui_accepts("a"));
    assert!(!confirm_tui_accepts("n"));
}

#[test]
fn confirmation_questions_cut_long_arguments() {
    let long = "x".repeat(150);
    assert_eq!(truncate_args(&long), format!("{}...", "x".repeat(100)));
    assert_eq!(truncate_args("{}"), "{}");
    assert_eq!(
        confirm_prompt_message("shell", "{\"command\":\"ls\"}"),
        "\n\u{2699} shell({\"command\":\"ls\"})\nAllow? [y/N] "
    );
    assert_eq!(
        confirm_tui_message("write", "{}"),
        "\n\u{2699} Tool call: write({})\nAllow? [y/N/a(ll)] "
    );
}

#[test]
fn answering_all_approves_the_remaining_calls() {
    assert_eq!(tui_answer(" ALL\n"), TuiAnswer::ApproveAll);
    assert_eq!(tui_answer("a"), TuiAnswer::ApproveAll);
    assert_eq!(tui_answer("Yes"), TuiAnswer::Approve);
    assert_eq!(tui_answer("nope"), TuiAnswer::Deny);
    let mut c = config(false);
    assert!(record_answer(&mut c, TuiAnswer::Approve));
    assert!(!c.auto_approve);
    assert!(!record_answer(&mut c, TuiAnswer::Deny));
    assert!(record_answer(&mut c, TuiAnswer::ApproveAll));
    assert!(c.auto_approve);
    assert_eq!(c.mode, ConfirmMode::Tui);
    let later = prepare_native_tool("shell", "{\"command\":\"ls\"}", &c).unwrap();
    assert_eq!(later.confirm, None);
}
