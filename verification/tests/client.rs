use orai::attachment::{Attachment, ContentPart};
use orai::cli::{Cli, Commands};
use orai::client::{
    build_request_body, chunk_event, client_setup, extract_json, first_reply, model_tool_support,
    next_iteration, parse_response, parse_sse_response, read_reply_body, receive_reply,
    record_tool_results, retry_reply, strip_tools, stream_reply_text, text_message, tool_message,
    tools_disabled_note, truncate_display, AgentStep, Message, ReplyStep, StreamEvent,
};
use orai::json::JsonValue;
use orai::tools::{ConfirmMode, ToolCallInfo, ToolResult};

fn from_value(v: serde_json::Value) -> JsonValue {
    match v {
        serde_json::Value::Null => JsonValue::Null,
        serde_json::Value::Bool(b) => JsonValue::Bool(b),
        serde_json::Value::Number(n) => JsonValue::Number(n.to_string()),
        serde_json::Value::String(s) => JsonValue::Str(s),
        serde_json::Value::Array(a) => JsonValue::Array(a.into_iter().map(from_value).collect()),
        serde_json::Value::Object(m) => {
            JsonValue::Object(m.into_iter().map(|(k, v)| (k, from_value(v))).collect())
        }
    }
}

fn to_value(v: &JsonValue) -> serde_json::Value {
    match v {
        JsonValue::Null => serde_json::Value::Null,
        JsonValue::Bool(b) => serde_json::Value::Bool(*b),
        JsonValue::Number(n) => serde_json::Value::Number(n.parse().unwrap()),
        JsonValue::Str(s) => serde_json::Value::String(s.clone()),
        JsonValue::Array(a) => serde_json::Value::Array(a.iter().map(to_value).collect()),
        JsonValue::Object(m) => {
            serde_json::Value::Object(m.iter().map(|(k, v)| (k.clone(), to_value(v))).collect())
        }
    }
}

fn from_text(s: &str) -> JsonValue {
    from_value(serde_json::from_str(s).unwrap())
}

fn assert_json(v: &JsonValue, expected: &str) {
    assert_eq!(to_value(v), serde_json::from_str::<serde_json::Value>(expected).unwrap());
}

fn cli(command: Commands) -> Cli {
    Cli {
        command,
        model: "openrouter/free".to_string(),
        attach: vec![],
        yes: false,
        no_web_search: false,
        no_datetime: true,
        search_engine: "auto".to_string(),
        max_search_results: 5,
        no_native_tools: false,
        shell_timeout: 30,
    }
}

#[test]
fn request_body_puts_attachments_on_the_last_message() {
    let msgs = vec![text_message("user", "hi".to_string())];
    let att = Attachment {
        filename: "a".to_string(),
        parts: vec![
            ContentPart::Text { text: "T".to_string() },
            ContentPart::ImageUrl { url: "U".to_string() },
        ],
    };
    let body = build_request_body("m", &msgs, &[att], false, &vec![]);
    assert_json(
        &body,
        "{\"messages\":[{\"content\":[{\"text\":\"hi\",\"type\":\"text\"},{\"text\":\"T\",\"type\":\"text\"},{\"image_url\":{\"url\":\"U\"},\"type\":\"image_url\"}],\"role\":\"user\"}],\"model\":\"m\",\"stream\":false}",
    );
    match &body {
        JsonValue::Object(ms) => {
            let keys: Vec<&str> = ms.iter().map(|(k, _)| k.as_str()).collect();
            assert_eq!(keys, vec!["model", "messages", "stream"]);
        }
        _ => panic!("expected an object"),
    }
}

#[test]
fn request_body_lists_tools_and_stripping_removes_them() {
    let msgs = vec![
        text_message("user", "q".to_string()),
        tool_message("c1", &ToolResult::Error("no".to_string())),
    ];
    let tools = vec![JsonValue::Bool(true)];
    let body = build_request_body("m", &msgs, &[], true, &tools);
    assert_json(
        &body,
        "{\"messages\":[{\"content\":\"q\",\"role\":\"user\"},{\"content\":\"Error: no\",\"role\":\"tool\",\"tool_call_id\":\"c1\"}],\"model\":\"m\",\"stream\":true,\"tools\":[true]}",
    );
    let stripped = strip_tools(&body);
    assert!(stripped.get("tools").is_none());
    assert!(stripped.get("model").is_some());
}

#[test]
fn retry_body_is_the_body_without_tools() {
    let msgs = vec![text_message("user", "q".to_string())];
    let with = build_request_body("m", &msgs, &[], false, &vec![JsonValue::Null]);
    let without = build_request_body("m", &msgs, &[], false, &vec![]);
    assert_eq!(strip_tools(&with), without);
}

#[test]
fn response_message_is_read_from_the_first_choice() {
    let j = from_text("{\"choices\":[{\"message\":{\"content\":\"hey\"}}]}");
    let m = parse_response(&j).unwrap();
    assert_eq!(m.role, "assistant");
    assert_eq!(m.content, Some(JsonValue::Str("hey".to_string())));
    assert_eq!(m.tool_calls, None);
    assert_eq!(parse_response(&from_text("{}")).unwrap_err(), "No choices in response");
    assert_eq!(
        parse_response(&from_text("{\"choices\":[{}]}")).unwrap_err(),
        "No message in response"
    );
    let with_calls = from_text(
        "{\"choices\":[{\"message\":{\"role\":\"assistant\",\"tool_calls\":[{\"id\":\"c\",\"type\":\"function\",\"function\":{\"name\":\"read\",\"arguments\":\"{}\"}}]}}]}",
    );
    let m2 = parse_response(&with_calls).unwrap();
    let calls = m2.tool_calls.unwrap();
    assert_eq!(calls[0].id, "c");
    assert_eq!(calls[0].function.name, "read");
    assert_eq!(
        parse_response(&from_text("{\"choices\":[{\"message\":{\"tool_calls\":[{}]}}]}")).unwrap_err(),
        "missing field `id`"
    );
}

#[test]
fn streamed_body_gathers_content_and_calls() {
    let body = "data: {\"choices\":[{\"delta\":{\"role\":\"assistant\",\"content\":\"He\"}}]}\n\
                data: {\"choices\":[{\"delta\":{\"content\":\"llo\"}}]}\n\
                data: [DONE]\n";
    let m = parse_sse_response(body);
    assert_eq!(m.role, "assistant");
    assert_eq!(m.content, Some(JsonValue::Str("Hello".to_string())));
    assert_eq!(m.tool_calls, None);
    let calls = "data: {\"choices\":[{\"delta\":{\"tool_calls\":[{\"index\":0,\"id\":\"call_1\",\"function\":{\"name\":\"shell\",\"arguments\":\"{}\"}}]}}]}\n";
    let m2 = parse_sse_response(calls);
    assert_eq!(m2.content, None);
    assert_eq!(m2.tool_calls.unwrap()[0].function.name, "shell");
}

#[test]
fn stream_chunks_become_events() {
    let delta = b"data: {\"choices\":[{\"delta\":{\"content\":\"a\"}}]}\n";
    assert_eq!(chunk_event(delta), StreamEvent::Delta("a".to_string()));
    let done = b"data: {\"choices\":[{\"delta\":{\"content\":\"b\"},\"finish_reason\":\"stop\"}]}\n";
    assert_eq!(chunk_event(done), StreamEvent::Done("b".to_string()));
    let calls = b"data: {\"choices\":[{\"delta\":{\"tool_calls\":[{\"index\":0,\"id\":\"x\",\"function\":{\"name\":\"read\",\"arguments\":\"{}\"}}]}}]}\n";
    assert_eq!(
        chunk_event(calls),
        StreamEvent::ToolCalls(vec![ToolCallInfo {
            id: "x".to_string(),
            name: "read".to_string(),
            arguments: "{}".to_string()
        }])
    );
    assert_eq!(chunk_event(b": keep-alive\n"), StreamEvent::Delta(String::new()));
}

#[test]
fn json_start_and_display() {
    assert_eq!(extract_json("junk {\"a\":1}"), "{\"a\":1}");
    assert_eq!(extract_json("xx [1]"), "[1]");
    assert_eq!(extract_json("  none  "), "none");
    assert_eq!(truncate_display("one\ntwo", 80), "one two");
    assert_eq!(truncate_display("abcdef", 4), "abcd...");
}

#[test]
fn first_reply_decides_retry_error_or_message() {
    assert_eq!(
        first_reply(true, 422, "422 Unprocessable Entity", "x"),
        Some(ReplyStep::RetryWithoutTools)
    );
    assert_eq!(
        first_reply(false, 400, "400 Bad Request", "oops"),
        Some(ReplyStep::Done(Err("OpenRouter API error: 400 Bad Request - oops".to_string())))
    );
    match first_reply(true, 200, "200 OK", "{\"choices\":[{\"message\":{\"content\":\"ok\"}}]}") {
        Some(ReplyStep::Done(Ok(m))) => assert_eq!(m.content, Some(JsonValue::Str("ok".to_string()))),
        other => panic!("unexpected {:?}", other),
    }
    assert_eq!(
        first_reply(false, 200, "200 OK", "abc"),
        Some(ReplyStep::Done(Err("Failed to parse API response (3 bytes): abc".to_string())))
    );
}

#[test]
fn retry_reply_reads_events_or_errors() {
    let m = retry_reply(200, "200 OK", "data: {\"choices\":[{\"delta\":{\"content\":\"z\"}}]}")
        .unwrap()
        .unwrap();
    assert_eq!(m.content, Some(JsonValue::Str("z".to_string())));
    assert_eq!(
        retry_reply(500, "500 Internal Server Error", "down"),
        Some(Err("OpenRouter API error: 500 Internal Server Error - down".to_string()))
    );
    assert_eq!(
        read_reply_body("nope", true),
        Some(Err("Failed to parse API response: nope".to_string()))
    );
    let long = format!("{}\u{e9}", "x".repeat(499));
    assert_eq!(read_reply_body(&long, true), None);
}

#[test]
fn iterations_stop_at_the_limit() {
    assert_eq!(next_iteration(0), Ok(1));
    assert_eq!(next_iteration(24), Ok(25));
    assert_eq!(next_iteration(25), Err("Max tool iterations (25) reached".to_string()));
}

#[test]
fn replies_with_calls_join_and_run_tools() {
    let mut msgs: Vec<Message> = vec![];
    let reply = parse_response(&from_text(
        "{\"choices\":[{\"message\":{\"role\":\"assistant\",\"tool_calls\":[{\"id\":\"c\",\"type\":\"function\",\"function\":{\"name\":\"read\",\"arguments\":\"{}\"}}]}}]}",
    ))
    .unwrap();
    match receive_reply(&mut msgs, reply) {
        AgentStep::RunTools(infos) => {
            assert_eq!(infos.len(), 1);
            assert_eq!(infos[0].name, "read");
            record_tool_results(&mut msgs, &infos, &vec![ToolResult::Success("text".to_string())]);
        }
        other => panic!("unexpected {:?}", other),
    }
    assert_eq!(msgs.len(), 2);
    assert_eq!(msgs[1].role, "tool");
    assert_eq!(msgs[1].tool_call_id, Some("c".to_string()));
    assert_eq!(msgs[1].content, Some(JsonValue::Str("text".to_string())));
    let answer = text_message("assistant", "fine".to_string());
    assert_eq!(receive_reply(&mut msgs, answer), AgentStep::Finish("fine".to_string()));
    assert_eq!(msgs.len(), 2);
    let mut odd = text_message("assistant", String::new());
    odd.content = None;
    assert_eq!(receive_reply(&mut msgs, odd), AgentStep::Finish("null".to_string()));
}

#[test]
fn streamed_prompt_prints_the_answer() {
    assert_eq!(stream_reply_text(&Some(JsonValue::Str("a \"b\"".to_string()))), "a \"b\"");
    assert_eq!(stream_reply_text(&None), "null");
    let obj = JsonValue::Object(vec![
        ("b".to_string(), JsonValue::Number("1".to_string())),
        ("a".to_string(), JsonValue::Array(vec![JsonValue::Bool(false)])),
    ]);
    assert_eq!(stream_reply_text(&Some(obj)), "{\"a\":[false],\"b\":1}");
}

#[test]
fn model_list_decides_tool_support() {
    let body = "{\"data\":[{\"id\":\"a\",\"supported_parameters\":[\"tools\"]},{\"id\":\"b\",\"supported_parameters\":[\"temperature\"]},{\"id\":\"c\"}]}";
    assert_eq!(model_tool_support(body, "a"), (true, false));
    assert_eq!(model_tool_support(body, "b"), (false, false));
    assert_eq!(model_tool_support(body, "c"), (true, false));
    assert_eq!(model_tool_support(body, "zzz"), (true, true));
    assert_eq!(model_tool_support("not json", "a"), (true, false));
}

#[test]
fn setup_follows_the_command_line() {
    let setup = client_setup(&cli(Commands::Chat), true);
    assert_eq!(setup.tools.len(), 5);
    assert_eq!(setup.tool_config.mode, ConfirmMode::Chat);
    assert_eq!(setup.tool_config.shell_timeout, 30);
    assert!(!setup.tool_config.auto_approve);
    let none = client_setup(&cli(Commands::Tui), false);
    assert!(none.tools.is_empty());
    assert_eq!(
        tools_disabled_note(&cli(Commands::Tui), false),
        Some("Note: Model 'openrouter/free' does not support tools. Tools disabled for this session.".to_string())
    );
    assert_eq!(tools_disabled_note(&cli(Commands::Tui), true), None);
}

#[test]
fn yes_flag_skips_confirmation_of_write_and_shell() {
    let mut c = cli(Commands::Prompt { prompt: vec!["x".to_string()], no_stream: false, system: None });
    let asked = client_setup(&c, true);
    let shell = orai::tools::prepare_native_tool("shell", "{}", &asked.tool_config).unwrap();
    assert_eq!(shell.confirm, Some(ConfirmMode::Prompt));
    let read = orai::tools::prepare_native_tool("read", "{}", &asked.tool_config).unwrap();
    assert_eq!(read.confirm, None);
    c.yes = true;
    let approved = client_setup(&c, true);
    let write = orai::tools::prepare_native_tool("write", "{}", &approved.tool_config).unwrap();
    assert_eq!(write.confirm, None);
}
