use orai::session::prompt_messages;
use orai::client::{text_message, Message};
use orai::session::{chat_command, prompt_text, truncate_for_display, ChatInput};
use orai::tools::confirm_chat;

#[test]
fn chat_lines_are_commands_or_messages() {
    let mut msgs: Vec<Message> = vec![text_message("user", "a".to_string())];
    assert_eq!(chat_command(&mut msgs, "   "), ChatInput::Skip);
    assert_eq!(chat_command(&mut msgs, "/quit"), ChatInput::Quit);
    assert_eq!(chat_command(&mut msgs, " /exit\n"), ChatInput::Quit);
    assert_eq!(chat_command(&mut msgs, "  hi there "), ChatInput::Send("hi there".to_string()));
    assert_eq!(msgs.len(), 1);
    assert_eq!(chat_command(&mut msgs, "/clear"), ChatInput::Clear);
    assert!(msgs.is_empty());
}

#[test]
fn prompt_words_are_joined_by_spaces() {
    assert_eq!(prompt_text(&vec!["Explain".to_string(), "this".to_string()]), "Explain this");
    assert_eq!(prompt_text(&vec![]), "");
}

#[test]
fn display_text_is_one_line_and_cut() {
    assert_eq!(truncate_for_display("a\nb\r\nc", 80), "a b c");
    assert_eq!(truncate_for_display("abcdef", 3), "abc...");
    assert_eq!(truncate_for_display("abc", 3), "abc");
}

#[test]
fn chat_confirmation_accepts_yes_only() {
    assert!(confirm_chat("y\n"));
    assert!(confirm_chat(" YES "));
    assert!(!confirm_chat("a"));
    assert!(!confirm_chat(""));
}

#[test]
fn prompt_opens_with_the_system_message_where_given() {
    let plain = prompt_messages("hi".to_string(), None);
    assert_eq!(plain, vec![text_message("user", "hi".to_string())]);
    let with = prompt_messages("hi".to_string(), Some("be brief".to_string()));
    assert_eq!(
        with,
        vec![text_message("system", "be brief".to_string()), text_message("user", "hi".to_string())]
    );
}
