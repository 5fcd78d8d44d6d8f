use orai::client::{text_message, Message};
use orai::json::JsonValue;
use orai::markdown::{Color, Style};
use orai::tui::{
    apply_completions, assistant_reply, begin_send, handle_input, handle_key_event,
    handle_popup_event, message_lines, popup_lines, take_reply, title_text, App, ChatMessage, InputKey,
    Key, KeyAction, KeyCode, Popup, Role,
};

fn key(code: KeyCode) -> Key {
    Key { code, shift: false, control: false }
}

fn ctrl(c: char) -> Key {
    Key { code: KeyCode::Char(c), shift: false, control: true }
}

fn app() -> App {
    App::new("m/x".to_string(), false)
}

fn picker(input: &str, completions: &[&str], selected: usize) -> Popup {
    Popup::FilePicker {
        input: input.to_string(),
        completions: completions.iter().map(|s| s.to_string()).collect(),
        selected,
    }
}

#[test]
fn new_app_starts_idle() {
    let a = App::new("model".to_string(), true);
    assert!(a.messages.is_empty());
    assert!(!a.is_streaming);
    assert!(a.auto_scroll);
    assert!(a.approve_all);
    assert!(a.popup.is_none());
}

#[test]
fn escape_quits_without_popup_and_closes_popup_otherwise() {
    let mut a = app();
    let mut api: Vec<Message> = vec![];
    assert_eq!(handle_key_event(key(KeyCode::Esc), &mut a, &mut api, ""), KeyAction::Quit);
    assert!(a.should_quit);

    let mut b = app();
    b.popup = Some(picker("x", &[], 0));
    assert_eq!(handle_key_event(ctrl('c'), &mut b, &mut api, ""), KeyAction::Nothing);
    assert!(b.popup.is_none());
    assert!(!b.should_quit);
}

#[test]
fn keys_are_ignored_while_streaming() {
    let mut a = app();
    a.is_streaming = true;
    let mut api: Vec<Message> = vec![];
    assert_eq!(handle_key_event(key(KeyCode::Esc), &mut a, &mut api, "hi"), KeyAction::Nothing);
    assert!(!a.should_quit);
    assert_eq!(handle_key_event(key(KeyCode::Enter), &mut a, &mut api, "hi"), KeyAction::Nothing);
}

#[test]
fn enter_sends_or_runs_commands() {
    let mut api: Vec<Message> = vec![text_message("user", "old".to_string())];
    let mut a = app();
    assert_eq!(handle_key_event(key(KeyCode::Enter), &mut a, &mut api, "  \n "), KeyAction::Nothing);
    assert_eq!(
        handle_key_event(key(KeyCode::Enter), &mut a, &mut api, " hello +a.txt "),
        KeyAction::Submit(" hello +a.txt ".to_string())
    );
    assert_eq!(api.len(), 1);
    a.messages.push(ChatMessage { role: Role::User, content: "x".to_string() });
    a.current_response = "partial".to_string();
    assert_eq!(handle_key_event(key(KeyCode::Enter), &mut a, &mut api, " /clear "), KeyAction::Clear);
    assert!(a.messages.is_empty());
    assert!(a.current_response.is_empty());
    assert!(api.is_empty());
    assert_eq!(handle_key_event(key(KeyCode::Enter), &mut a, &mut api, "/exit"), KeyAction::Quit);
    assert!(a.should_quit);
}

#[test]
fn newline_keys_and_file_picker() {
    let mut a = app();
    let mut api: Vec<Message> = vec![];
    let shift_enter = Key { code: KeyCode::Enter, shift: true, control: false };
    assert_eq!(handle_key_event(shift_enter, &mut a, &mut api, "x"), KeyAction::Newline);
    assert_eq!(handle_key_event(ctrl('j'), &mut a, &mut api, "x"), KeyAction::Newline);
    assert_eq!(handle_key_event(key(KeyCode::Char('q')), &mut a, &mut api, "x"), KeyAction::Edit);
    assert_eq!(handle_key_event(ctrl('a'), &mut a, &mut api, "x"), KeyAction::Nothing);
    assert_eq!(a.popup, Some(picker("", &[], 0)));
    handle_key_event(key(KeyCode::Char('s')), &mut a, &mut api, "x");
    handle_key_event(ctrl('a'), &mut a, &mut api, "x");
    assert_eq!(a.popup, Some(picker("sa", &[], 0)));
    handle_key_event(key(KeyCode::Backspace), &mut a, &mut api, "x");
    assert_eq!(a.popup, Some(picker("s", &[], 0)));
    assert_eq!(
        handle_key_event(key(KeyCode::Tab), &mut a, &mut api, "x"),
        KeyAction::ListDir("s".to_string())
    );
    assert_eq!(handle_key_event(key(KeyCode::Enter), &mut a, &mut api, "x"), KeyAction::Nothing);
    assert!(a.popup.is_none());
}

#[test]
fn picker_highlight_moves_within_completions() {
    let mut a = app();
    a.popup = Some(picker("s", &["src", "sub"], 0));
    assert_eq!(handle_popup_event(key(KeyCode::Up), &mut a), None);
    assert_eq!(a.popup, Some(picker("s", &["src", "sub"], 0)));
    handle_popup_event(key(KeyCode::Down), &mut a);
    handle_popup_event(key(KeyCode::Down), &mut a);
    assert_eq!(a.popup, Some(picker("s", &["src", "sub"], 1)));
    handle_popup_event(key(KeyCode::Up), &mut a);
    assert_eq!(a.popup, Some(picker("s", &["src", "sub"], 0)));
    let mut empty = app();
    empty.popup = Some(picker("", &[], 0));
    assert_eq!(handle_popup_event(key(KeyCode::Tab), &mut empty), None);
}

#[test]
fn tool_confirmation_answers() {
    let confirm = || Popup::ToolConfirm { tool_name: "shell".to_string(), arguments: "{}".to_string() };
    let mut a = app();
    a.popup = Some(confirm());
    handle_popup_event(key(KeyCode::Char('x')), &mut a);
    assert!(a.popup.is_some());
    handle_popup_event(key(KeyCode::Char('N')), &mut a);
    assert!(a.popup.is_none());
    assert!(!a.approve_all);
    a.popup = Some(confirm());
    handle_popup_event(key(KeyCode::Char('a')), &mut a);
    assert!(a.popup.is_none());
    assert!(a.approve_all);
    a.popup = Some(confirm());
    handle_popup_event(key(KeyCode::Char('y')), &mut a);
    assert!(a.approve_all);
}

#[test]
fn completions_match_path_or_file_name() {
    let mut a = app();
    a.popup = Some(picker("ma", &["old"], 3));
    let entries = vec![
        ("./main.rs".to_string(), Some("main.rs".to_string())),
        ("ma/x".to_string(), Some("x".to_string())),
        ("./lib.rs".to_string(), Some("lib.rs".to_string())),
        ("/".to_string(), None),
    ];
    apply_completions(&mut a, &entries);
    assert_eq!(a.popup, Some(picker("ma", &["./main.rs", "ma/x"], 0)));
    let mut b = app();
    apply_completions(&mut b, &entries);
    assert!(b.popup.is_none());
}

#[test]
fn sending_records_failures_then_the_message() {
    let mut a = app();
    a.auto_scroll = false;
    a.current_response = "old".to_string();
    let mut api: Vec<Message> = vec![];
    let failures = vec![("x.png".to_string(), "File not found: x.png".to_string())];
    begin_send(&mut a, &mut api, "look".to_string(), &failures);
    assert_eq!(a.messages.len(), 2);
    assert_eq!(a.messages[0].role, Role::System);
    assert_eq!(a.messages[0].content, "Error loading 'x.png': File not found: x.png");
    assert_eq!(a.messages[1], ChatMessage { role: Role::User, content: "look".to_string() });
    assert_eq!(api, vec![text_message("user", "look".to_string())]);
    assert!(a.is_streaming);
    assert!(a.auto_scroll);
    assert!(a.current_response.is_empty());
}

#[test]
fn replies_join_the_conversation_when_not_empty() {
    let mut a = app();
    a.is_streaming = true;
    let mut api: Vec<Message> = vec![];
    take_reply(&mut a, &mut api, assistant_reply(Ok("done".to_string())));
    assert!(!a.is_streaming);
    assert_eq!(a.messages[0], ChatMessage { role: Role::Assistant, content: "done".to_string() });
    assert_eq!(api.len(), 1);
    a.is_streaming = true;
    take_reply(&mut a, &mut api, assistant_reply(Ok(String::new())));
    assert!(!a.is_streaming);
    assert_eq!(a.messages.len(), 1);
    assert_eq!(api.len(), 1);
    let err = assistant_reply(Err("boom".to_string()));
    assert_eq!(err.content, Some(JsonValue::Str("Error: boom".to_string())));
    assert_eq!(err.role, "assistant");
    let mut json_reply = text_message("assistant", String::new());
    json_reply.content = Some(JsonValue::Bool(true));
    take_reply(&mut a, &mut api, json_reply);
    assert_eq!(a.messages[1].content, "true");
}

#[test]
fn title_shows_model_and_streaming() {
    let mut a = app();
    assert_eq!(title_text(&a), " orai \u{2500} m/x ");
    a.is_streaming = true;
    assert_eq!(title_text(&a), " orai \u{2500} m/x  \u{25cf} streaming");
}

#[test]
fn conversation_lines_label_each_message() {
    let mut a = app();
    a.messages.push(ChatMessage { role: Role::User, content: "hi".to_string() });
    a.current_response = "so".to_string();
    let lines = message_lines(&a);
    assert_eq!(lines[0].spans[0].content, "You: ");
    assert_eq!(lines[0].spans[0].style, Style::bold_fg(Color::Cyan));
    assert_eq!(lines[1].spans[0].content, "hi");
    assert!(lines[2].spans.is_empty());
    assert!(lines[3].spans.is_empty());
    assert_eq!(lines[4].spans[0].content, "Assistant: ");
    assert_eq!(lines[5].spans[0].content, "so");
    let last = lines.last().unwrap();
    assert_eq!(last.spans[0].content, " \u{25cf} ");
    assert_eq!(last.spans[0].style, Style::fg(Color::Yellow));
    assert_eq!(lines.len(), 8);
}

#[test]
fn popup_lines_show_path_and_arguments() {
    let lines = popup_lines(&picker("sr", &["src", "srv"], 1));
    assert_eq!(lines.len(), 8);
    assert_eq!(lines[0].spans[0].content, " Attach File");
    assert_eq!(lines[2].spans[0].content, " Path: sr");
    assert_eq!(lines[4].spans[0].content, " src");
    assert_eq!(lines[4].spans[0].style, Style::plain());
    assert_eq!(lines[5].spans[0].content, " srv");
    assert_eq!(lines[5].spans[0].style.bg, Some(Color::Cyan));
    assert_eq!(lines[7].spans[0].content, " Enter=attach  Tab=complete  Esc=cancel");

    let long = "x".repeat(250);
    let c = popup_lines(&Popup::ToolConfirm { tool_name: "shell".to_string(), arguments: long });
    assert_eq!(c.len(), 5);
    assert_eq!(c[2].spans[0].content, format!(" \u{2699} shell({}...)", "x".repeat(200)));
    assert_eq!(c[4].spans[0].content, " [Y] Approve  [N] Deny  [A] Approve all");
}

#[test]
fn input_box_keys() {
    assert_eq!(handle_input(key(KeyCode::Enter), " a "), InputKey::Submit(" a ".to_string()));
    assert_eq!(handle_input(key(KeyCode::Enter), "  "), InputKey::Nothing);
    assert_eq!(handle_input(ctrl('j'), "a"), InputKey::Newline);
    assert_eq!(handle_input(key(KeyCode::Char('j')), "a"), InputKey::Edit);
}

#[test]
fn approving_all_is_never_undone_by_keys() {
    let mut a = App::new("m".to_string(), true);
    let mut api: Vec<Message> = vec![];
    a.popup = Some(Popup::ToolConfirm { tool_name: "shell".to_string(), arguments: "{}".to_string() });
    for k in [key(KeyCode::Char('n')), key(KeyCode::Esc), ctrl('a'), key(KeyCode::Char('y'))] {
        handle_key_event(k, &mut a, &mut api, "");
        assert!(a.approve_all);
    }
}

#[test]
fn enter_in_the_picker_attaches_the_choice_to_the_next_message() {
    let mut a = app();
    let mut api: Vec<Message> = vec![];
    a.popup = Some(picker("sr", &["src/a.rs", "src/b.rs"], 1));
    assert_eq!(handle_key_event(key(KeyCode::Enter), &mut a, &mut api, ""), KeyAction::Nothing);
    assert!(a.popup.is_none());
    assert_eq!(a.pending_attachments, vec!["src/b.rs".to_string()]);
    a.popup = Some(picker("notes.md", &[], 0));
    handle_popup_event(key(KeyCode::Enter), &mut a);
    a.popup = Some(picker("", &[], 0));
    handle_popup_event(key(KeyCode::Enter), &mut a);
    assert_eq!(a.pending_attachments, vec!["src/b.rs".to_string(), "notes.md".to_string()]);
    let paths = orai::tui::send_paths(&mut a, vec!["x.png".to_string()]);
    assert_eq!(paths, vec!["src/b.rs".to_string(), "notes.md".to_string(), "x.png".to_string()]);
    assert!(a.pending_attachments.is_empty());
    a.popup = Some(picker("z", &["zz"], 0));
    handle_popup_event(key(KeyCode::Esc), &mut a);
    assert!(a.pending_attachments.is_empty());
}
