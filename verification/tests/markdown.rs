use orai::markdown::{markdown_to_lines, plain_text_to_lines, Color, Line, Style};

fn texts(line: &Line) -> Vec<String> {
    line.spans.iter().map(|s| s.content.clone()).collect()
}

#[test]
fn test_markdown_bold() {
    let lines = markdown_to_lines("**hello**");
    assert!(!lines.is_empty());
}

#[test]
fn test_markdown_code() {
    let lines = markdown_to_lines("`foo`");
    assert!(!lines.is_empty());
}

#[test]
fn test_plain_text() {
    let lines = plain_text_to_lines("hello\nworld");
    assert_eq!(lines.len(), 2);
}

#[test]
fn strong_text_is_bold_and_paragraph_ends_with_blank_line() {
    let lines = markdown_to_lines("**hello**");
    assert_eq!(lines.len(), 2);
    assert_eq!(texts(&lines[0]), vec!["".to_string(), "hello".to_string()]);
    assert!(lines[0].spans[1].style.bold);
    assert!(lines[1].spans.is_empty());
}

#[test]
fn inline_code_is_yellow_on_dark_grey() {
    let lines = markdown_to_lines("`foo`");
    assert_eq!(lines.len(), 2);
    assert_eq!(texts(&lines[0]), vec!["foo".to_string()]);
    assert_eq!(lines[0].spans[0].style, Style::code());
    assert_eq!(lines[0].spans[0].style.fg, Some(Color::Yellow));
    assert_eq!(lines[0].spans[0].style.bg, Some(Color::DarkGray));
}

#[test]
fn heading_is_bold_cyan() {
    let lines = markdown_to_lines("# Title");
    assert_eq!(lines.len(), 2);
    assert_eq!(texts(&lines[0]), vec!["".to_string(), "Title".to_string()]);
    assert_eq!(lines[0].spans[1].style, Style::bold_fg(Color::Cyan));
    assert!(lines[1].spans.is_empty());
}

#[test]
fn code_block_lines_are_framed_by_blank_lines() {
    let lines = markdown_to_lines("```\nfn x\nlet y\n```");
    assert_eq!(lines.len(), 4);
    assert!(lines[0].spans.is_empty());
    assert_eq!(texts(&lines[1]), vec!["fn x".to_string()]);
    assert_eq!(texts(&lines[2]), vec!["let y".to_string()]);
    assert_eq!(lines[2].spans[0].style, Style::code());
    assert!(lines[3].spans.is_empty());
}

#[test]
fn list_items_get_bullets() {
    let lines = markdown_to_lines("- a\n- b");
    assert_eq!(lines.len(), 2);
    assert_eq!(texts(&lines[0]), vec!["  \u{2022} ".to_string(), "a".to_string()]);
    assert_eq!(texts(&lines[1]), vec!["  \u{2022} ".to_string(), "b".to_string()]);
}

#[test]
fn emphasis_and_links_are_styled() {
    let lines = markdown_to_lines("*it* [l](http://x)");
    assert_eq!(lines.len(), 2);
    let spans = &lines[0].spans;
    assert!(spans[1].style.italic);
    assert_eq!(spans[1].content, "it");
    let link = spans.iter().find(|s| s.content == "l").unwrap();
    assert!(link.style.underlined);
    assert_eq!(link.style.fg, Some(Color::Blue));
}

#[test]
fn soft_break_starts_a_new_line() {
    let lines = markdown_to_lines("one\ntwo");
    assert_eq!(lines.len(), 3);
    assert_eq!(texts(&lines[0]), vec!["one".to_string()]);
    assert_eq!(texts(&lines[1]), vec!["two".to_string()]);
}

#[test]
fn empty_markdown_has_no_lines() {
    assert!(markdown_to_lines("").is_empty());
}

#[test]
fn plain_text_empty_line_has_no_spans() {
    let lines = plain_text_to_lines("a\n\nb\n");
    assert_eq!(lines.len(), 3);
    assert_eq!(texts(&lines[0]), vec!["a".to_string()]);
    assert!(lines[1].spans.is_empty());
    assert_eq!(lines[2].spans[0].style, Style::plain());
}
