//! The decisions of the prompt and chat sessions.
use vstd::prelude::*;
use crate::client::{display_cut_ok, display_text, info_of, info_views, message_views, Message, MessageView};
use crate::stream::CallParts;
use crate::tools::ToolCallInfo;
use crate::text::{
    chars_of, join, join_chars, lines_of, shorten, str_eq, string_of, string_views, trim, trim_chars,
};

verus! {

/// What a line typed in a chat session asks for.
#[derive(Debug, PartialEq)]
pub enum ChatInput {
    /// A blank line: ask again.
    Skip,
    /// `/quit` or `/exit`: end the session.
    Quit,
    /// `/clear`: the conversation was forgotten.
    Clear,
    /// Send this text (the line, trimmed).
    Send(String),
}

/// What a typed line asks for, as plain values.
pub enum ChatInputView {
    Skip,
    Quit,
    Clear,
    Send(Seq<char>),
}

impl View for ChatInput {
    type V = ChatInputView;

    open spec fn view(&self) -> ChatInputView {
        match self {
            ChatInput::Skip => ChatInputView::Skip,
            ChatInput::Quit => ChatInputView::Quit,
            ChatInput::Clear => ChatInputView::Clear,
            ChatInput::Send(t) => ChatInputView::Send(t@),
        }
    }
}

/// What a typed line asks for, by its trimmed text.
pub open spec fn chat_input(line: Seq<char>) -> ChatInputView {
    let t = trim(line);
    if t.len() == 0 {
        ChatInputView::Skip
    } else if t == "/quit"@ || t == "/exit"@ {
        ChatInputView::Quit
    } else if t == "/clear"@ {
        ChatInputView::Clear
    } else {
        ChatInputView::Send(t)
    }
}

/// Takes a line typed in a chat session; `/clear` forgets the conversation.
pub fn chat_command(messages: &mut Vec<Message>, line: &str) -> (r: ChatInput)
    ensures
        r@ == chat_input(line@),
        final(messages)@ == (if r is Clear {
            Seq::<Message>::empty()
        } else {
            old(messages)@
        }),
{
    let t = string_of(&trim_chars(&chars_of(line)));
    if t.as_str().is_empty() {
        ChatInput::Skip
    } else if str_eq(t.as_str(), "/quit") || str_eq(t.as_str(), "/exit") {
        ChatInput::Quit
    } else if str_eq(t.as_str(), "/clear") {
        messages.clear();
        ChatInput::Clear
    } else {
        ChatInput::Send(t)
    }
}

/// The prompt of a one-shot run: its words joined by spaces.
pub fn prompt_text(words: &Vec<String>) -> (r: String)
    ensures
        r@ == join(string_views(words@), " "@),
{
    let mut parts: Vec<Vec<char>> = Vec::new();
    let n = words.len();
    let mut i: usize = 0;
    while i < n
        invariant
            i <= n == words@.len(),
            crate::text::views(parts@) == string_views(words@).take(i as int),
        decreases n - i,
    {
        let ghost prev = parts@;
        parts.push(chars_of(words[i].as_str()));
        proof {
            assert(crate::text::views(parts@) =~= crate::text::views(prev).push(words@[i as int]@));
            assert(string_views(words@).take(i + 1) =~= string_views(words@).take(i as int).push(
                words@[i as int]@,
            ));
        }
        i = i + 1;
    }
    proof {
        assert(string_views(words@).take(n as int) =~= string_views(words@));
    }
    string_of(&join_chars(&parts, &chars_of(" ")))
}

/// A text for a one-line display: its lines joined by spaces, cut after
/// `max_len` bytes with `"..."` where it is longer; the same text, on the
/// same inputs, as `client::truncate_display`.
pub fn truncate_for_display(s: &str, max_len: usize) -> (r: String)
    requires
        display_cut_ok(s@, max_len as int),
    ensures
        r@ == display_text(s@, max_len as int),
{
    let ls = lines_of(&chars_of(s));
    let joined = string_of(&join_chars(&ls, &chars_of(" ")));
    shorten(joined.as_str(), max_len)
}

/// Takes a reply in a streamed prompt: a reply with tool calls joins the
/// conversation with its calls taken out, and the calls are to run; any
/// other reply leaves the conversation as it is.
pub fn receive_streamed_reply(messages: &mut Vec<Message>, response: Message) -> (r: Option<
    Vec<ToolCallInfo>,
>)
    ensures
        match response@.tool_calls {
            Some(cs) => message_views(final(messages)@) == message_views(old(messages)@).push(
                MessageView { tool_calls: None, ..response@ },
            ) && (r matches Some(infos) && info_views(infos@) == cs.map_values(
                |c: CallParts| info_of(c),
            )),
            None => final(messages)@ == old(messages)@ && r is None,
        },
{
    let mut response = response;
    match response.tool_calls.take() {
        Some(cs) => {
            let mut infos: Vec<ToolCallInfo> = Vec::new();
            let mut k: usize = 0;
            while k < cs.len()
                invariant
                    k <= cs@.len(),
                    infos@.len() == k,
                    forall|j: int|
                        0 <= j < k ==> (#[trigger] infos@[j]).id@ == cs@[j].id@ && infos@[j].name@
                            == cs@[j].function.name@ && infos@[j].arguments@
                            == cs@[j].function.arguments@,
                decreases cs@.len() - k,
            {
                infos.push(
                    ToolCallInfo {
                        id: cs[k].id.clone(),
                        name: cs[k].function.name.clone(),
                        arguments: cs[k].function.arguments.clone(),
                    },
                );
                k = k + 1;
            }
            proof {
                assert(info_views(infos@) =~= crate::stream::call_views(cs@).map_values(
                    |c: CallParts| info_of(c),
                ));
            }
            let ghost before = messages@;
            let ghost mv = response@;
            messages.push(response);
            proof {
                assert(message_views(messages@) =~= message_views(before).push(mv));
            }
            Some(infos)
        },
        None => None,
    }
}

/// The opening messages of a one-shot prompt: the system message, where
/// one is given, then the prompt from the user.
pub open spec fn prompt_messages_view(text: Seq<char>, system: Option<Seq<char>>) -> Seq<MessageView> {
    match system {
        Some(sys) => seq![
            crate::client::text_message_view("system"@, sys),
            crate::client::text_message_view("user"@, text),
        ],
        None => seq![crate::client::text_message_view("user"@, text)],
    }
}

/// The opening messages of a one-shot prompt.
pub fn prompt_messages(text: String, system: Option<String>) -> (r: Vec<Message>)
    ensures
        message_views(r@) == prompt_messages_view(
            text@,
            match system {
                Some(s) => Some(s@),
                None => None,
            },
        ),
{
    let mut r: Vec<Message> = Vec::new();
    let ghost sys = match &system {
        Some(s) => Some(s@),
        None => None::<Seq<char>>,
    };
    match system {
        Some(s) => r.push(crate::client::text_message("system", s)),
        None => {},
    }
    r.push(crate::client::text_message("user", text));
    proof {
        assert(message_views(r@) =~= prompt_messages_view(text@, sys));
    }
    r
}

} // verus!
