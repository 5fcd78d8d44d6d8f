use orai::native::{
    fetch_output, http_error_result, read_output, read_size_error, shell_output,
    shell_report_text, shell_timeout_result, shell_timeout_secs, write_output, MAX_READ_SIZE,
};
use orai::tools::ToolResult;

fn success(r: ToolResult) -> String {
    match r {
        ToolResult::Success(m) => m,
        ToolResult::Error(m) => panic!("error {}", m),
    }
}

#[test]
fn binary_files_are_read_as_standard_base64() {
    assert_eq!(
        success(read_output(vec![0xfb, 0xff])),
        "[Binary file: 2 bytes, base64 encoded]\n+/8="
    );
    assert_eq!(
        success(read_output(vec![0xc3, 0x28, 0x61])),
        "[Binary file: 3 bytes, base64 encoded]\nwyhh"
    );
    assert_eq!(success(read_output(b"h\xc3\xa9".to_vec())), "h\u{e9}");
    assert_eq!(success(read_output(vec![])), "");
}

#[test]
fn read_limits_and_output() {
    assert_eq!(read_size_error(MAX_READ_SIZE as u64), None);
    assert_eq!(
        read_size_error(MAX_READ_SIZE as u64 + 1),
        Some(ToolResult::Error("File too large (10485761 bytes, max 10485760 bytes)".to_string()))
    );
    assert_eq!(success(read_output(b"text".to_vec())), "text");
    assert_eq!(
        success(read_output(vec![0xff, 0x00])),
        "[Binary file: 2 bytes, base64 encoded]\n/wA="
    );
}

#[test]
fn write_reports_bytes() {
    assert_eq!(success(write_output("h\u{e9}llo", "a.txt")), "Successfully wrote 6 bytes to a.txt");
}

#[test]
fn shell_timeout_defaults_to_two_minutes() {
    assert_eq!(shell_timeout_secs(0), 120);
    assert_eq!(shell_timeout_secs(7), 7);
    assert_eq!(
        shell_timeout_result(30),
        ToolResult::Error("Shell command timed out after 30 seconds".to_string())
    );
}

#[test]
fn shell_report_layout() {
    assert_eq!(shell_report_text("out", "err", Some(2)), "out\n[stderr]\nerr\n[exit code: 2]");
    assert_eq!(shell_report_text("", "", None), "\n[exit code: -1]");
    assert_eq!(shell_report_text("", "e", Some(0)), "[stderr]\ne\n[exit code: 0]");
    assert_eq!(shell_report_text("o", "", Some(-3)), "o\n[exit code: -3]");
}

#[test]
fn shell_output_is_capped_and_decoded() {
    let big = vec![b'a'; 60000];
    let m = success(shell_output(&big, b"", Some(0)).unwrap());
    assert_eq!(
        m,
        format!("{}...\n(truncated, 60000 bytes total)\n[exit code: 0]", "a".repeat(51200))
    );
    let lossy = success(shell_output(&[b'a', 0xff], b"", Some(1)).unwrap());
    assert_eq!(lossy, "a\u{fffd}\n[exit code: 1]");
    let mut split = vec![b'a'; 51199];
    split.extend_from_slice("\u{e9}".as_bytes());
    split.push(b'b');
    assert!(shell_output(&split, b"", Some(0)).is_none());
}

#[test]
fn fetch_errors_and_output() {
    assert_eq!(
        http_error_result(404, "Not Found"),
        ToolResult::Error("HTTP error: 404 Not Found".to_string())
    );
    assert_eq!(success(fetch_output("page")), "page");
    let big = "b".repeat(102401);
    assert_eq!(
        success(fetch_output(&big)),
        format!("{}...\n(truncated, 102401 bytes total)", "b".repeat(102400))
    );
}
