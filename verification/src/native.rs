//! The results of the native tools, computed from what the machine gave back.
use vstd::prelude::*;
use base64::Engine;
use vstd::utf8::{decode_utf8, valid_utf8};
use crate::text::{
    byte_len, can_shorten, cat, cut_ok, decimal, decimal_string, exceeds_bytes, owned, byte_prefix,
    signed_decimal, signed_decimal_string,
};
use crate::tools::ToolResult;

verus! {

/// The largest file the read tool returns, in bytes.
pub const MAX_READ_SIZE: usize = 10485760;

/// The most bytes of each output stream the shell tool returns.
pub const MAX_SHELL_OUTPUT: usize = 51200;

/// The most bytes of a page the fetch tool returns.
pub const MAX_WEB_FETCH_SIZE: usize = 102400;

/// The character for a six-bit value in the standard base64 alphabet.
pub open spec fn base64_char(n: u8) -> char {
    if n < 26 {
        (n + 'A' as u8) as char
    } else if n < 52 {
        ((n - 26) + 'a' as u8) as char
    } else if n < 62 {
        ((n - 52) + '0' as u8) as char
    } else if n == 62 {
        '+'
    } else {
        '/'
    }
}

/// Standard base64 with padding (RFC 4648, section 4).
pub open spec fn base64(b: Seq<u8>) -> Seq<char>
    decreases b.len(),
{
    if b.len() == 0 {
        Seq::empty()
    } else if b.len() == 1 {
        seq![base64_char(b[0] >> 2), base64_char((b[0] & 3) << 4), '=', '=']
    } else if b.len() == 2 {
        seq![
            base64_char(b[0] >> 2),
            base64_char(((b[0] & 3) << 4) | (b[1] >> 4)),
            base64_char((b[1] & 15) << 2),
            '=',
        ]
    } else {
        seq![
            base64_char(b[0] >> 2),
            base64_char(((b[0] & 3) << 4) | (b[1] >> 4)),
            base64_char(((b[1] & 15) << 2) | (b[2] >> 6)),
            base64_char(b[2] & 63),
        ] + base64(b.skip(3))
    }
}

/// Encodes bytes with the base64 crate's standard engine
/// (`general_purpose::STANDARD.encode`): the standard alphabet, with padding.
#[verifier::external_body]
pub(crate) fn base64_encode(bytes: &[u8]) -> (r: String)
    ensures
        r@ == base64(bytes@),
{
    base64::engine::general_purpose::STANDARD.encode(bytes)
}

/// Decodes UTF-8 (`String::from_utf8`): the text where the bytes are valid
/// UTF-8, nothing where they are not.
#[verifier::external_body]
pub(crate) fn utf8_text(bytes: Vec<u8>) -> (r: Option<String>)
    ensures
        match r {
            Some(s) => valid_utf8(bytes@) && s@ == decode_utf8(bytes@),
            None => !valid_utf8(bytes@),
        },
{
    String::from_utf8(bytes).ok()
}

/// What `String::from_utf8_lossy` gives for some bytes: invalid sequences
/// become U+FFFD.
pub uninterp spec fn lossy_text(bytes: Seq<u8>) -> Seq<char>;

/// Decodes UTF-8, replacing invalid sequences (`String::from_utf8_lossy`);
/// valid UTF-8 is decoded as it is.
#[verifier::external_body]
pub(crate) fn utf8_lossy(bytes: &[u8]) -> (r: String)
    ensures
        r@ == lossy_text(bytes@),
        valid_utf8(bytes@) ==> r@ == decode_utf8(bytes@),
{
    String::from_utf8_lossy(bytes).to_string()
}

/// The read tool's answer for a file of `len` bytes that is too large, if it is.
pub fn read_size_error(len: u64) -> (r: Option<ToolResult>)
    ensures
        match r {
            Some(ToolResult::Error(m)) => len as usize > MAX_READ_SIZE && m@ == "File too large ("@
                + decimal(len as nat) + " bytes, max 10485760 bytes)"@,
            Some(ToolResult::Success(_)) => false,
            None => len as usize <= MAX_READ_SIZE,
        },
{
    if len as usize > MAX_READ_SIZE {
        let a = cat("File too large (", decimal_string(len as u128).as_str());
        Some(ToolResult::Error(cat(a.as_str(), " bytes, max 10485760 bytes)")))
    } else {
        None
    }
}

/// The read tool's answer for a file's contents: the text where it is
/// UTF-8, otherwise its size and base64.
pub fn read_output(bytes: Vec<u8>) -> (r: ToolResult)
    ensures
        r matches ToolResult::Success(m) && m@ == (if valid_utf8(bytes@) {
            decode_utf8(bytes@)
        } else {
            "[Binary file: "@ + decimal(bytes@.len()) + " bytes, base64 encoded]\n"@ + base64(bytes@)
        }),
{
    let n = bytes.len();
    let b64 = base64_encode(bytes.as_slice());
    match utf8_text(bytes) {
        Some(text) => ToolResult::Success(text),
        None => {
            let a = cat("[Binary file: ", decimal_string(n as u128).as_str());
            let b = cat(a.as_str(), " bytes, base64 encoded]\n");
            ToolResult::Success(cat(b.as_str(), b64.as_str()))
        },
    }
}

/// The write tool's answer after the content was written to `path`.
pub fn write_output(content: &str, path: &str) -> (r: ToolResult)
    ensures
        r matches ToolResult::Success(m) && m@ == "Successfully wrote "@ + decimal(content.len() as nat)
            + " bytes to "@ + path@,
{
    let a = cat("Successfully wrote ", decimal_string(content.len() as u128).as_str());
    let b = cat(a.as_str(), " bytes to ");
    ToolResult::Success(cat(b.as_str(), path))
}

/// How long a shell command may run: the configured seconds, or 120 where
/// none are configured.
pub fn shell_timeout_secs(configured: u64) -> (r: u64)
    ensures
        r == (if configured > 0 {
            configured
        } else {
            120
        }),
{
    if configured > 0 {
        configured
    } else {
        120
    }
}

/// An output stream, cut after `MAX_SHELL_OUTPUT` bytes with a note of its size.
pub open spec fn capped_stream(s: Seq<char>) -> Seq<char> {
    if byte_len(s) > MAX_SHELL_OUTPUT {
        byte_prefix(s, MAX_SHELL_OUTPUT as int) + "...\n(truncated, "@ + decimal(byte_len(s)) + " bytes total)"@
    } else {
        s
    }
}

/// The shell tool's report: stdout, then stderr under a `[stderr]` line,
/// then the exit code (-1 where there is none).
pub open spec fn shell_report(out: Seq<char>, err: Seq<char>, code: int) -> Seq<char> {
    let o = capped_stream(out);
    let e = capped_stream(err);
    let with_err = if e.len() > 0 {
        o + (if o.len() > 0 { "\n"@ } else { Seq::empty() }) + "[stderr]\n"@ + e
    } else {
        o
    };
    with_err + "\n[exit code: "@ + signed_decimal(code) + "]"@
}

/// The exit code reported for a process: its code, or -1 where it has none.
pub open spec fn exit_code(code: Option<i32>) -> int {
    match code {
        Some(c) => c as int,
        None => -1,
    }
}

fn cap_stream(s: &str) -> (r: String)
    requires
        can_shorten(s@, MAX_SHELL_OUTPUT as int),
    ensures
        r@ == capped_stream(s@),
{
    if exceeds_bytes(s, MAX_SHELL_OUTPUT) {
        let (head, _) = s.split_at(MAX_SHELL_OUTPUT);
        proof {
            vstd::utf8::encode_utf8_decode_utf8(head@);
            assert(vstd::utf8::encode_utf8(head@) =~= vstd::utf8::encode_utf8(s@).subrange(
                0,
                MAX_SHELL_OUTPUT as int,
            ));
        }
        let total = crate::text::byte_count(s);
        let a = cat(head, "...\n(truncated, ");
        let b = cat(a.as_str(), decimal_string(total).as_str());
        cat(b.as_str(), " bytes total)")
    } else {
        owned(s)
    }
}

/// The shell tool's report from the text of its two output streams.
pub fn shell_report_text(out: &str, err: &str, code: Option<i32>) -> (r: String)
    requires
        can_shorten(out@, MAX_SHELL_OUTPUT as int),
        can_shorten(err@, MAX_SHELL_OUTPUT as int),
    ensures
        r@ == shell_report(out@, err@, exit_code(code)),
{
    let o = cap_stream(out);
    let e = cap_stream(err);
    let mut result = owned(o.as_str());
    if !e.as_str().is_empty() {
        if !result.as_str().is_empty() {
            result.append("\n");
        }
        result.append("[stderr]\n");
        result.append(e.as_str());
    }
    let c: i32 = match code {
        Some(c) => c,
        None => -1,
    };
    result.append("\n[exit code: ");
    result.append(signed_decimal_string(c).as_str());
    result.append("]");
    result
}

/// Each output stream can be cut at `MAX_SHELL_OUTPUT` bytes: the cut does
/// not fall inside a character.
pub open spec fn shell_streams_cut_ok(stdout: Seq<u8>, stderr: Seq<u8>) -> bool {
    can_shorten(lossy_text(stdout), MAX_SHELL_OUTPUT as int) && can_shorten(
        lossy_text(stderr),
        MAX_SHELL_OUTPUT as int,
    )
}

/// The shell tool's answer for a finished command: its output streams
/// decoded (invalid UTF-8 replaced) and reported; nothing where cutting a
/// stream would split a character.
pub fn shell_output(stdout: &[u8], stderr: &[u8], code: Option<i32>) -> (r: Option<ToolResult>)
    ensures
        match r {
            Some(ToolResult::Success(m)) => shell_streams_cut_ok(stdout@, stderr@) && m@ == shell_report(
                lossy_text(stdout@),
                lossy_text(stderr@),
                exit_code(code),
            ),
            Some(ToolResult::Error(_)) => false,
            None => !shell_streams_cut_ok(stdout@, stderr@),
        },
{
    let out = utf8_lossy(stdout);
    let err = utf8_lossy(stderr);
    if !crate::text::shortenable(out.as_str(), MAX_SHELL_OUTPUT) || !crate::text::shortenable(
        err.as_str(),
        MAX_SHELL_OUTPUT,
    ) {
        return None;
    }
    Some(ToolResult::Success(shell_report_text(out.as_str(), err.as_str(), code)))
}

/// The shell tool's answer when the command ran out of time.
pub fn shell_timeout_result(secs: u64) -> (r: ToolResult)
    ensures
        r matches ToolResult::Error(m) && m@ == "Shell command timed out after "@ + decimal(secs as nat)
            + " seconds"@,
{
    let a = cat("Shell command timed out after ", decimal_string(secs as u128).as_str());
    ToolResult::Error(cat(a.as_str(), " seconds"))
}

/// The fetch tool's answer for a response status that is not a success.
pub fn http_error_result(code: u16, reason: &str) -> (r: ToolResult)
    ensures
        r matches ToolResult::Error(m) && m@ == "HTTP error: "@ + decimal(code as nat) + " "@ + reason@,
{
    let a = cat("HTTP error: ", decimal_string(code as u128).as_str());
    let b = cat(a.as_str(), " ");
    ToolResult::Error(cat(b.as_str(), reason))
}

/// The fetch tool's answer for a page: the text, cut after
/// `MAX_WEB_FETCH_SIZE` bytes with a note of its size.
pub fn fetch_output(text: &str) -> (r: ToolResult)
    requires
        can_shorten(text@, MAX_WEB_FETCH_SIZE as int),
    ensures
        r matches ToolResult::Success(m) && m@ == (if byte_len(text@) > MAX_WEB_FETCH_SIZE {
            byte_prefix(text@, MAX_WEB_FETCH_SIZE as int) + "...\n(truncated, "@ + decimal(byte_len(text@))
                + " bytes total)"@
        } else {
            text@
        }),
{
    if exceeds_bytes(text, MAX_WEB_FETCH_SIZE) {
        let (head, _) = text.split_at(MAX_WEB_FETCH_SIZE);
        proof {
            vstd::utf8::encode_utf8_decode_utf8(head@);
            assert(vstd::utf8::encode_utf8(head@) =~= vstd::utf8::encode_utf8(text@).subrange(
                0,
                MAX_WEB_FETCH_SIZE as int,
            ));
        }
        let total = crate::text::byte_count(text);
        let a = cat(head, "...\n(truncated, ");
        let b = cat(a.as_str(), decimal_string(total).as_str());
        ToolResult::Success(cat(b.as_str(), " bytes total)"))
    } else {
        ToolResult::Success(owned(text))
    }
}

} // verus!
