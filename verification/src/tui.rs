//! The terminal UI: its state, how keys change it, and the lines it shows.
use vstd::prelude::*;
use crate::client::{Message, MessageView, message_views};
use crate::json::{Json, JsonValue};
use crate::markdown::{
    bold_fg, fg, line_views, markdown_to_lines, md_events, md_lines, plain, Color, Line, Span,
    SpanView, Style, span_views,
};
use crate::text::{
    can_shorten, cat, chars_of, lines, lines_of, owned, shorten, shortened, str_eq, string_of,
    string_views, sub_chars, trim, trim_chars,
};

verus! {

/// Who wrote a message in the conversation view.
#[derive(Clone, Copy, Debug, PartialEq)]
pub enum Role {
    User,
    Assistant,
    System,
}

/// A message as the conversation view shows it.
#[derive(Debug, PartialEq)]
pub struct ChatMessage {
    pub role: Role,
    pub content: String,
}

impl View for ChatMessage {
    type V = (Role, Seq<char>);

    open spec fn view(&self) -> (Role, Seq<char>) {
        (self.role, self.content@)
    }
}

/// The views of a sequence of messages.
pub open spec fn chat_views(v: Seq<ChatMessage>) -> Seq<(Role, Seq<char>)> {
    v.map_values(|m: ChatMessage| m@)
}

/// A dialog shown over the conversation.
#[derive(Debug, PartialEq)]
pub enum Popup {
    /// Picking a file to attach: the path typed so far, the paths that
    /// complete it, and the highlighted one.
    FilePicker { input: String, completions: Vec<String>, selected: usize },
    /// Asking whether a tool call may run.
    ToolConfirm { tool_name: String, arguments: String },
}

/// A dialog, as plain values.
pub enum PopupView {
    FilePicker { input: Seq<char>, completions: Seq<Seq<char>>, selected: usize },
    ToolConfirm { tool_name: Seq<char>, arguments: Seq<char> },
}

impl View for Popup {
    type V = PopupView;

    open spec fn view(&self) -> PopupView {
        match self {
            Popup::FilePicker { input, completions, selected } => PopupView::FilePicker {
                input: input@,
                completions: string_views(completions@),
                selected: *selected,
            },
            Popup::ToolConfirm { tool_name, arguments } => PopupView::ToolConfirm {
                tool_name: tool_name@,
                arguments: arguments@,
            },
        }
    }
}

/// The state of the terminal UI.
pub struct App {
    pub messages: Vec<ChatMessage>,
    pub current_response: String,
    pub is_streaming: bool,
    pub model: String,
    pub auto_scroll: bool,
    pub scroll_offset: u16,
    pub should_quit: bool,
    pub popup: Option<Popup>,
    pub approve_all: bool,
    /// Files picked in the file picker, attached to the next message sent.
    pub pending_attachments: Vec<String>,
}

/// The state of the terminal UI, as plain values.
pub struct AppView {
    pub messages: Seq<(Role, Seq<char>)>,
    pub current_response: Seq<char>,
    pub is_streaming: bool,
    pub model: Seq<char>,
    pub auto_scroll: bool,
    pub scroll_offset: u16,
    pub should_quit: bool,
    pub popup: Option<PopupView>,
    pub approve_all: bool,
    pub pending_attachments: Seq<Seq<char>>,
}

/// The view of an optional dialog.
pub open spec fn popup_view(p: Option<Popup>) -> Option<PopupView> {
    match p {
        Some(q) => Some(q@),
        None => None,
    }
}

impl View for App {
    type V = AppView;

    open spec fn view(&self) -> AppView {
        AppView {
            messages: chat_views(self.messages@),
            current_response: self.current_response@,
            is_streaming: self.is_streaming,
            model: self.model@,
            auto_scroll: self.auto_scroll,
            scroll_offset: self.scroll_offset,
            should_quit: self.should_quit,
            popup: popup_view(self.popup),
            approve_all: self.approve_all,
            pending_attachments: string_views(self.pending_attachments@),
        }
    }
}

impl App {
    /// The UI at start: no messages, nothing streaming, following the end of
    /// the conversation, with every tool call approved where the session
    /// approves all.
    pub fn new(model: String, approve_all: bool) -> (a: App)
        ensures
            a@ == (AppView {
                messages: Seq::empty(),
                current_response: Seq::empty(),
                is_streaming: false,
                model: model@,
                auto_scroll: true,
                scroll_offset: 0,
                should_quit: false,
                popup: None,
                approve_all,
                pending_attachments: Seq::empty(),
            }),
    {
        let a = App {
            messages: Vec::new(),
            current_response: String::new(),
            is_streaming: false,
            model,
            auto_scroll: true,
            scroll_offset: 0,
            should_quit: false,
            popup: None,
            approve_all,
            pending_attachments: Vec::new(),
        };
        proof {
            assert(string_views(a.pending_attachments@) =~= Seq::<Seq<char>>::empty());
            assert(chat_views(a.messages@) =~= Seq::<(Role, Seq<char>)>::empty());
        }
        a
    }
}

/// A key, as the UI tells keys apart.
#[derive(Clone, Copy, Debug, PartialEq)]
pub enum KeyCode {
    Enter,
    Esc,
    Tab,
    Up,
    Down,
    Backspace,
    Char(char),
    Other,
}

/// A key press: the key, and whether Shift and Control were held.
#[derive(Clone, Copy, Debug, PartialEq)]
pub struct Key {
    pub code: KeyCode,
    pub shift: bool,
    pub control: bool,
}

/// The key is the character `c`.
pub open spec fn is_char(code: KeyCode, c: char) -> bool {
    match code {
        KeyCode::Char(d) => d == c,
        _ => false,
    }
}

fn is_char_exec(code: KeyCode, c: char) -> (b: bool)
    ensures
        b == is_char(code, c),
{
    match code {
        KeyCode::Char(d) => d == c,
        _ => false,
    }
}

/// What a key in an open dialog does: the dialog after it (none once it
/// closes), whether every tool call is now approved, and the typed path
/// whose directory to list for completions, if any.
pub open spec fn popup_key(p: PopupView, approve_all: bool, key: Key) -> (
    Option<PopupView>,
    bool,
    Option<Seq<char>>,
) {
    match p {
        PopupView::FilePicker { input, completions, selected } => match key.code {
            KeyCode::Esc | KeyCode::Enter => (None, approve_all, None),
            KeyCode::Tab => (Some(p), approve_all, if input.len() > 0 {
                Some(input)
            } else {
                None
            }),
            KeyCode::Up => (
                Some(
                    PopupView::FilePicker {
                        input,
                        completions,
                        selected: if selected > 0 {
                            (selected - 1) as usize
                        } else {
                            selected
                        },
                    },
                ),
                approve_all,
                None,
            ),
            KeyCode::Down => (
                Some(
                    PopupView::FilePicker {
                        input,
                        completions,
                        selected: if selected + 1 < completions.len() {
                            (selected + 1) as usize
                        } else {
                            selected
                        },
                    },
                ),
                approve_all,
                None,
            ),
            KeyCode::Char(c) => (
                Some(PopupView::FilePicker { input: input.push(c), completions, selected }),
                approve_all,
                None,
            ),
            KeyCode::Backspace => (
                Some(
                    PopupView::FilePicker {
                        input: if input.len() > 0 {
                            input.drop_last()
                        } else {
                            input
                        },
                        completions,
                        selected,
                    },
                ),
                approve_all,
                None,
            ),
            KeyCode::Other => (Some(p), approve_all, None),
        },
        PopupView::ToolConfirm { .. } => match key.code {
            KeyCode::Char(c) => if c == 'y' || c == 'Y' || c == 'n' || c == 'N' {
                (None, approve_all, None)
            } else if c == 'a' || c == 'A' {
                (None, true, None)
            } else {
                (Some(p), approve_all, None)
            },
            _ => (Some(p), approve_all, None),
        },
    }
}

/// What the caller does after a key.
#[derive(Debug, PartialEq)]
pub enum KeyAction {
    /// Nothing more.
    Nothing,
    /// Leave the UI.
    Quit,
    /// The conversation was cleared; empty the input box too.
    Clear,
    /// Send the typed text.
    Submit(String),
    /// Start a new line in the input box.
    Newline,
    /// The input box takes the key.
    Edit,
    /// List the directory of this typed path and offer its completions.
    ListDir(String),
}

/// What the caller does after a key, as plain values.
pub enum KeyActionView {
    Nothing,
    Quit,
    Clear,
    Submit(Seq<char>),
    Newline,
    Edit,
    ListDir(Seq<char>),
}

impl View for KeyAction {
    type V = KeyActionView;

    open spec fn view(&self) -> KeyActionView {
        match self {
            KeyAction::Nothing => KeyActionView::Nothing,
            KeyAction::Quit => KeyActionView::Quit,
            KeyAction::Clear => KeyActionView::Clear,
            KeyAction::Submit(t) => KeyActionView::Submit(t@),
            KeyAction::Newline => KeyActionView::Newline,
            KeyAction::Edit => KeyActionView::Edit,
            KeyAction::ListDir(p) => KeyActionView::ListDir(p@),
        }
    }
}

/// Escape and Ctrl+C: close the dialog if one is open, else quit.
pub open spec fn close_or_quit(a: AppView) -> (AppView, KeyActionView) {
    if a.popup is Some {
        (AppView { popup: None, ..a }, KeyActionView::Nothing)
    } else {
        (AppView { should_quit: true, ..a }, KeyActionView::Quit)
    }
}

/// The file Enter attaches in the file picker: the highlighted completion,
/// else the typed path; nothing where that is empty.
pub open spec fn popup_choice(p: PopupView, key: Key) -> Option<Seq<char>> {
    match p {
        PopupView::FilePicker { input, completions, selected } => if key.code is Enter {
            let c = if selected < completions.len() {
                completions[selected as int]
            } else {
                input
            };
            if c.len() > 0 {
                Some(c)
            } else {
                None
            }
        } else {
            None
        },
        _ => None,
    }
}

/// The files waiting for the next message, with a chosen one added.
pub open spec fn with_choice(pending: Seq<Seq<char>>, c: Option<Seq<char>>) -> Seq<Seq<char>> {
    match c {
        Some(x) => pending.push(x),
        None => pending,
    }
}

/// A key handled by the open dialog; a file chosen with Enter waits to be
/// attached to the next message.
pub open spec fn in_popup(a: AppView, key: Key) -> (AppView, KeyActionView)
    recommends
        a.popup is Some,
{
    let (p, approve_all, list) = popup_key(a.popup->0, a.approve_all, key);
    (
        AppView {
            popup: p,
            approve_all,
            pending_attachments: with_choice(a.pending_attachments, popup_choice(a.popup->0, key)),
            ..a
        },
        match list {
            Some(d) => KeyActionView::ListDir(d),
            None => KeyActionView::Nothing,
        },
    )
}

/// Enter with no dialog open: blank input does nothing, `/quit` and `/exit`
/// quit, `/clear` empties the conversation, anything else is sent.
pub open spec fn submit_step(a: AppView, input: Seq<char>) -> (AppView, KeyActionView) {
    let t = trim(input);
    if t.len() == 0 {
        (a, KeyActionView::Nothing)
    } else if t == "/quit"@ || t == "/exit"@ {
        (AppView { should_quit: true, ..a }, KeyActionView::Quit)
    } else if t == "/clear"@ {
        (
            AppView { messages: Seq::empty(), current_response: Seq::empty(), ..a },
            KeyActionView::Clear,
        )
    } else {
        (a, KeyActionView::Submit(input))
    }
}

/// A key press applied to the UI, where `input` is the text in the input box.
pub open spec fn key_step(a: AppView, key: Key, input: Seq<char>) -> (AppView, KeyActionView) {
    if a.is_streaming {
        (a, KeyActionView::Nothing)
    } else if key.code is Esc || (is_char(key.code, 'c') && key.control) {
        close_or_quit(a)
    } else if key.code is Enter && !key.shift {
        if a.popup is Some {
            in_popup(a, key)
        } else {
            submit_step(a, input)
        }
    } else if (key.code is Enter && key.shift) || (is_char(key.code, 'j') && key.control) {
        (a, KeyActionView::Newline)
    } else if is_char(key.code, 'a') && key.control && a.popup is None {
        (
            AppView {
                popup: Some(
                    PopupView::FilePicker { input: Seq::empty(), completions: Seq::empty(), selected: 0 },
                ),
                ..a
            },
            KeyActionView::Nothing,
        )
    } else if a.popup is Some {
        in_popup(a, key)
    } else {
        (a, KeyActionView::Edit)
    }
}

/// A key in an open dialog; gives the typed path whose directory to list.
fn popup_key_exec(p: Popup, approve_all: bool, key: Key) -> (r: (Option<Popup>, bool, Option<String>))
    ensures
        (popup_view(r.0), r.1, match r.2 {
            Some(d) => Some(d@),
            None => None,
        }) == popup_key(p@, approve_all, key),
{
    match p {
        Popup::FilePicker { input, completions, selected } => match key.code {
            KeyCode::Esc | KeyCode::Enter => (None, approve_all, None),
            KeyCode::Tab => {
                let list = if input.as_str().is_empty() {
                    None
                } else {
                    Some(input.clone())
                };
                (Some(Popup::FilePicker { input, completions, selected }), approve_all, list)
            },
            KeyCode::Up => {
                let s = if selected > 0 {
                    selected - 1
                } else {
                    selected
                };
                (Some(Popup::FilePicker { input, completions, selected: s }), approve_all, None)
            },
            KeyCode::Down => {
                let s = if completions.len() > 0 && selected < completions.len() - 1 {
                    selected + 1
                } else {
                    selected
                };
                proof {
                    assert(string_views(completions@).len() == completions@.len());
                }
                (Some(Popup::FilePicker { input, completions, selected: s }), approve_all, None)
            },
            KeyCode::Char(c) => {
                let mut one: Vec<char> = Vec::new();
                one.push(c);
                let typed = cat(input.as_str(), string_of(one.as_slice()).as_str());
                proof {
                    assert(one@ =~= seq![c]);
                    assert(typed@ =~= input@.push(c));
                }
                (Some(Popup::FilePicker { input: typed, completions, selected }), approve_all, None)
            },
            KeyCode::Backspace => {
                let cs = chars_of(input.as_str());
                let shorter = if cs.len() > 0 {
                    string_of(&sub_chars(cs.as_slice(), 0, cs.len() - 1))
                } else {
                    input
                };
                proof {
                    if cs@.len() > 0 {
                        assert(cs@.subrange(0, cs@.len() - 1) =~= cs@.drop_last());
                        assert(shorter@ =~= input@.drop_last());
                    }
                }
                (Some(Popup::FilePicker { input: shorter, completions, selected }), approve_all, None)
            },
            KeyCode::Other => (Some(Popup::FilePicker { input, completions, selected }), approve_all, None),
        },
        Popup::ToolConfirm { tool_name, arguments } => match key.code {
            KeyCode::Char(c) => if c == 'y' || c == 'Y' || c == 'n' || c == 'N' {
                (None, approve_all, None)
            } else if c == 'a' || c == 'A' {
                (None, true, None)
            } else {
                (Some(Popup::ToolConfirm { tool_name, arguments }), approve_all, None)
            },
            _ => (Some(Popup::ToolConfirm { tool_name, arguments }), approve_all, None),
        },
    }
}

/// The file Enter attaches in the file picker, if any.
fn popup_choice_exec(p: &Popup, key: Key) -> (r: Option<String>)
    ensures
        match r {
            Some(c) => popup_choice(p@, key) == Some(c@),
            None => popup_choice(p@, key) is None,
        },
{
    match p {
        Popup::FilePicker { input, completions, selected } => match key.code {
            KeyCode::Enter => {
                proof {
                    assert(string_views(completions@).len() == completions@.len());
                }
                let c = if *selected < completions.len() {
                    completions[*selected].clone()
                } else {
                    input.clone()
                };
                if c.as_str().is_empty() {
                    None
                } else {
                    Some(c)
                }
            },
            _ => None,
        },
        Popup::ToolConfirm { .. } => None,
    }
}

/// A key handled by the open dialog: it moves the highlight, edits the
/// typed path, closes the dialog, or answers a tool confirmation.  Enter in
/// the file picker attaches the chosen file to the next message.  Gives
/// the typed path whose directory to list for completions, on Tab.
pub fn handle_popup_event(key: Key, app: &mut App) -> (r: Option<String>)
    ensures
        old(app)@.popup is None ==> final(app)@ == old(app)@ && r is None,
        old(app)@.popup is Some ==> ({
            let (p, approve_all, list) = popup_key(old(app)@.popup->0, old(app)@.approve_all, key);
            &&& final(app)@ == (AppView {
                popup: p,
                approve_all,
                pending_attachments: with_choice(
                    old(app)@.pending_attachments,
                    popup_choice(old(app)@.popup->0, key),
                ),
                ..old(app)@
            })
            &&& match r {
                Some(d) => list == Some(d@),
                None => list is None,
            }
        }),
{
    match app.popup.take() {
        Some(p) => {
            match popup_choice_exec(&p, key) {
                Some(c) => {
                    let ghost before = app.pending_attachments@;
                    app.pending_attachments.push(c);
                    proof {
                        assert(string_views(app.pending_attachments@) =~= string_views(before).push(
                            c@,
                        ));
                    }
                },
                None => {},
            }
            let (np, aa, list) = popup_key_exec(p, app.approve_all, key);
            app.popup = np;
            app.approve_all = aa;
            list
        },
        None => None,
    }
}

/// A key press in the UI, where `input` is the text in the input box.
/// While a reply streams keys are ignored.  Escape and Ctrl+C close the
/// open dialog, else quit; Enter sends the input or acts in the dialog;
/// Shift+Enter and Ctrl+J start a new line; Ctrl+A opens the file picker;
/// other keys go to the dialog or the input box.  `/clear` also empties the
/// request history.
pub fn handle_key_event(key: Key, app: &mut App, api_messages: &mut Vec<Message>, input: &str) -> (r:
    KeyAction)
    ensures
        (final(app)@, r@) == key_step(old(app)@, key, input@),
        final(api_messages)@ == (if r is Clear {
            Seq::<Message>::empty()
        } else {
            old(api_messages)@
        }),
{
    if app.is_streaming {
        return KeyAction::Nothing;
    }
    let esc = match key.code {
        KeyCode::Esc => true,
        _ => false,
    };
    let enter = match key.code {
        KeyCode::Enter => true,
        _ => false,
    };
    if esc || (is_char_exec(key.code, 'c') && key.control) {
        if app.popup.is_some() {
            app.popup = None;
            return KeyAction::Nothing;
        }
        app.should_quit = true;
        return KeyAction::Quit;
    }
    if enter && !key.shift {
        if app.popup.is_some() {
            return match handle_popup_event(key, app) {
                Some(d) => KeyAction::ListDir(d),
                None => KeyAction::Nothing,
            };
        }
        let t = string_of(&trim_chars(&chars_of(input)));
        if t.as_str().is_empty() {
            return KeyAction::Nothing;
        }
        if str_eq(t.as_str(), "/quit") || str_eq(t.as_str(), "/exit") {
            app.should_quit = true;
            return KeyAction::Quit;
        }
        if str_eq(t.as_str(), "/clear") {
            app.messages.clear();
            api_messages.clear();
            app.current_response = String::new();
            proof {
                assert(chat_views(app.messages@) =~= Seq::<(Role, Seq<char>)>::empty());
            }
            return KeyAction::Clear;
        }
        return KeyAction::Submit(owned(input));
    }
    if (enter && key.shift) || (is_char_exec(key.code, 'j') && key.control) {
        return KeyAction::Newline;
    }
    if is_char_exec(key.code, 'a') && key.control && app.popup.is_none() {
        app.popup = Some(
            Popup::FilePicker { input: String::new(), completions: Vec::new(), selected: 0 },
        );
        proof {
            assert(string_views(Seq::<String>::empty()) =~= Seq::<Seq<char>>::empty());
        }
        return KeyAction::Nothing;
    }
    if app.popup.is_some() {
        match handle_popup_event(key, app) {
            Some(d) => KeyAction::ListDir(d),
            None => KeyAction::Nothing,
        }
    } else {
        KeyAction::Edit
    }
}

/// A directory entry offered for completion: its path, and its file name
/// where it has one.
pub open spec fn completion_matches(input: Seq<char>, e: (Seq<char>, Option<Seq<char>>)) -> bool {
    crate::text::starts_with(e.0, input) || match e.1 {
        Some(n) => crate::text::starts_with(n, input),
        None => false,
    }
}

/// The paths of the entries whose path or file name starts with the typed text.
pub open spec fn matching_paths(input: Seq<char>, es: Seq<(Seq<char>, Option<Seq<char>>)>) -> Seq<
    Seq<char>,
>
    decreases es.len(),
{
    if es.len() == 0 {
        Seq::empty()
    } else {
        let r = matching_paths(input, es.drop_last());
        if completion_matches(input, es.last()) {
            r.push(es.last().0)
        } else {
            r
        }
    }
}

/// The views of listed directory entries.
pub open spec fn entry_views(v: Seq<(String, Option<String>)>) -> Seq<(Seq<char>, Option<Seq<char>>)> {
    v.map_values(
        |e: (String, Option<String>)|
            (
                e.0@,
                match e.1 {
                    Some(n) => Some(n@),
                    None => None,
                },
            ),
    )
}

/// The entries of a listed directory become the file picker's completions:
/// those whose path or file name starts with the typed path, in listing
/// order, the first highlighted.  Without a file picker open, nothing changes.
pub fn apply_completions(app: &mut App, entries: &Vec<(String, Option<String>)>)
    ensures
        match old(app)@.popup {
            Some(PopupView::FilePicker { input, .. }) => final(app)@ == (AppView {
                popup: Some(
                    PopupView::FilePicker {
                        input,
                        completions: matching_paths(input, entry_views(entries@)),
                        selected: 0,
                    },
                ),
                ..old(app)@
            }),
            _ => final(app)@ == old(app)@,
        },
{
    match app.popup.take() {
        Some(Popup::FilePicker { input, completions, selected }) => {
            let typed = chars_of(input.as_str());
            let mut found: Vec<String> = Vec::new();
            let n = entries.len();
            let mut i: usize = 0;
            while i < n
                invariant
                    i <= n == entries@.len(),
                    typed@ == input@,
                    string_views(found@) == matching_paths(input@, entry_views(entries@).take(i as int)),
                decreases n - i,
            {
                proof {
                    let es = entry_views(entries@);
                    assert(es.take(i + 1).drop_last() =~= es.take(i as int));
                }
                let on_path = crate::text::starts_with_exec(&chars_of(entries[i].0.as_str()), &typed);
                let on_name = match &entries[i].1 {
                    Some(name) => crate::text::starts_with_exec(&chars_of(name.as_str()), &typed),
                    None => false,
                };
                if on_path || on_name {
                    let ghost prev = found@;
                    found.push(entries[i].0.clone());
                    proof {
                        assert(string_views(found@) =~= string_views(prev).push(entries@[i as int].0@));
                    }
                }
                i = i + 1;
            }
            proof {
                assert(entry_views(entries@).take(n as int) =~= entry_views(entries@));
            }
            app.popup = Some(Popup::FilePicker { input, completions: found, selected: 0 });
        },
        other => {
            app.popup = other;
        },
    }
}

/// The files a message sent now attaches: those picked in the file picker,
/// then those its text names; the picked ones no longer wait.
pub fn send_paths(app: &mut App, named: Vec<String>) -> (r: Vec<String>)
    ensures
        string_views(r@) == old(app)@.pending_attachments + string_views(named@),
        final(app)@ == (AppView { pending_attachments: Seq::empty(), ..old(app)@ }),
{
    let mut paths: Vec<String> = Vec::new();
    std::mem::swap(&mut paths, &mut app.pending_attachments);
    let ghost picked = paths@;
    let mut rest = named;
    paths.append(&mut rest);
    proof {
        assert(string_views(paths@) =~= string_views(picked) + string_views(named@));
        assert(string_views(app.pending_attachments@) =~= Seq::<Seq<char>>::empty());
    }
    paths
}

/// The message shown for an attachment that failed to load.
pub open spec fn load_failure(f: (Seq<char>, Seq<char>)) -> (Role, Seq<char>) {
    (Role::System, "Error loading '"@ + f.0 + "': "@ + f.1)
}

/// The views of pairs of strings.
pub open spec fn pair_views(v: Seq<(String, String)>) -> Seq<(Seq<char>, Seq<char>)> {
    v.map_values(|p: (String, String)| (p.0@, p.1@))
}

/// Starts sending a message: each attachment that failed to load is noted
/// (its path and error), then the message joins the conversation and the
/// request history, and the UI waits for the reply, following the end of
/// the conversation.
pub fn begin_send(
    app: &mut App,
    api_messages: &mut Vec<Message>,
    text: String,
    failures: &Vec<(String, String)>,
)
    ensures
        final(app)@ == (AppView {
            messages: (old(app)@.messages + pair_views(failures@).map_values(
                |f: (Seq<char>, Seq<char>)| load_failure(f),
            )).push((Role::User, text@)),
            current_response: Seq::empty(),
            is_streaming: true,
            auto_scroll: true,
            ..old(app)@
        }),
        message_views(final(api_messages)@) == message_views(old(api_messages)@).push(
            crate::client::text_message_view("user"@, text@),
        ),
{
    let n = failures.len();
    let mut i: usize = 0;
    while i < n
        invariant
            i <= n == failures@.len(),
            app.is_streaming == old(app).is_streaming,
            app.current_response@ == old(app).current_response@,
            app.auto_scroll == old(app).auto_scroll,
            app.model@ == old(app).model@,
            app.scroll_offset == old(app).scroll_offset,
            app.should_quit == old(app).should_quit,
            popup_view(app.popup) == popup_view(old(app).popup),
            app.approve_all == old(app).approve_all,
            app.pending_attachments@ == old(app).pending_attachments@,
            chat_views(app.messages@) == old(app)@.messages + pair_views(failures@).take(
                i as int,
            ).map_values(|f: (Seq<char>, Seq<char>)| load_failure(f)),
        decreases n - i,
    {
        let a = cat("Error loading '", failures[i].0.as_str());
        let b = cat(a.as_str(), "': ");
        let content = cat(b.as_str(), failures[i].1.as_str());
        let ghost prev = app.messages@;
        app.messages.push(ChatMessage { role: Role::System, content });
        proof {
            let fs = pair_views(failures@);
            assert(fs.take(i + 1) =~= fs.take(i as int).push(fs[i as int]));
            assert(fs.take(i + 1).map_values(|f: (Seq<char>, Seq<char>)| load_failure(f)) =~= fs.take(
                i as int,
            ).map_values(|f: (Seq<char>, Seq<char>)| load_failure(f)).push(load_failure(fs[i as int])));
            assert(chat_views(app.messages@) =~= chat_views(prev).push(load_failure(fs[i as int])));
        }
        i = i + 1;
    }
    proof {
        assert(pair_views(failures@).take(n as int) =~= pair_views(failures@));
    }
    let ghost before = app.messages@;
    app.messages.push(ChatMessage { role: Role::User, content: text.clone() });
    proof {
        assert(chat_views(app.messages@) =~= chat_views(before).push((Role::User, text@)));
    }
    let ghost api_before = api_messages@;
    api_messages.push(crate::client::text_message("user", text));
    proof {
        assert(message_views(api_messages@) =~= message_views(api_before).push(
            crate::client::text_message_view("user"@, text@),
        ));
    }
    app.is_streaming = true;
    app.current_response = String::new();
    app.auto_scroll = true;
}

/// The reply the UI shows for a finished request: the answer, or the error
/// after `"Error: "`.
pub open spec fn reply_message_view(result: Result<Seq<char>, Seq<char>>) -> MessageView {
    match result {
        Ok(t) => crate::client::text_message_view("assistant"@, t),
        Err(e) => crate::client::text_message_view("assistant"@, "Error: "@ + e),
    }
}

/// The reply message for a finished request.
pub fn assistant_reply(result: Result<String, String>) -> (r: Message)
    ensures
        r@ == reply_message_view(
            match result {
                Ok(t) => Ok(t@),
                Err(e) => Err(e@),
            },
        ),
{
    match result {
        Ok(t) => crate::client::text_message("assistant", t),
        Err(e) => crate::client::text_message("assistant", cat("Error: ", e.as_str())),
    }
}

/// The text a reply shows: string content as it is, other content as JSON
/// text, none as the empty text.
pub open spec fn shown_reply(c: Option<Json>) -> Seq<char> {
    match c {
        Some(Json::Str(s)) => s,
        Some(other) => crate::json::serde_text(other),
        None => Seq::empty(),
    }
}

/// A reply arrives: where it shows any text it joins the conversation and
/// the request history; the UI stops waiting either way.
pub fn take_reply(app: &mut App, api_messages: &mut Vec<Message>, reply: Message)
    ensures
        ({
            let t = shown_reply(reply@.content);
            &&& final(app)@ == (AppView {
                messages: if t.len() > 0 {
                    old(app)@.messages.push((Role::Assistant, t))
                } else {
                    old(app)@.messages
                },
                is_streaming: false,
                ..old(app)@
            })
            &&& final(api_messages)@ == if t.len() > 0 {
                old(api_messages)@.push(reply)
            } else {
                old(api_messages)@
            }
        }),
{
    let content = match &reply.content {
        Some(JsonValue::Str(s)) => s.clone(),
        Some(other) => crate::json::json_text(other),
        None => String::new(),
    };
    if !content.as_str().is_empty() {
        let ghost before = app.messages@;
        app.messages.push(ChatMessage { role: Role::Assistant, content });
        proof {
            assert(chat_views(app.messages@) =~= chat_views(before).push(
                (Role::Assistant, shown_reply(reply@.content)),
            ));
        }
        api_messages.push(reply);
    }
    app.is_streaming = false;
}

/// The title bar's text: the model, and a mark while a reply streams.
pub open spec fn title(a: AppView) -> Seq<char> {
    " orai \u{2500} "@ + a.model + " "@ + if a.is_streaming {
        " \u{25cf} streaming"@
    } else {
        ""@
    }
}

/// The title bar's text.
pub fn title_text(app: &App) -> (r: String)
    ensures
        r@ == title(app@),
{
    let a = cat(" orai \u{2500} ", app.model.as_str());
    let b = cat(a.as_str(), " ");
    if app.is_streaming {
        cat(b.as_str(), " \u{25cf} streaming")
    } else {
        cat(b.as_str(), "")
    }
}

/// A line of one span in the default look.
pub open spec fn plain_line(t: Seq<char>) -> Seq<SpanView> {
    seq![SpanView { content: t, style: plain() }]
}

/// A line made from a text: one span in the default look for each line of it.
pub open spec fn text_line(t: Seq<char>) -> Seq<SpanView> {
    lines(t).map_values(|l: Seq<char>| SpanView { content: l, style: plain() })
}

fn plain_line_of(t: &str) -> (r: Line)
    ensures
        r@ == plain_line(t@),
{
    let mut v: Vec<Span> = Vec::new();
    v.push(Span::raw(owned(t)));
    proof {
        assert(span_views(v@) =~= plain_line(t@));
    }
    Line::from_spans(v)
}

fn styled_line_of(t: String, style: Style) -> (r: Line)
    ensures
        r@ == seq![SpanView { content: t@, style }],
{
    let mut v: Vec<Span> = Vec::new();
    v.push(Span::styled(t, style));
    proof {
        assert(span_views(v@) =~= seq![SpanView { content: t@, style }]);
    }
    Line::from_spans(v)
}

fn text_line_of(t: &str) -> (r: Line)
    ensures
        r@ == text_line(t@),
{
    let ls = lines_of(&chars_of(t));
    let n = ls.len();
    let mut v: Vec<Span> = Vec::new();
    let mut i: usize = 0;
    while i < n
        invariant
            i <= n == ls@.len(),
            crate::text::views(ls@) == lines(t@),
            span_views(v@) == crate::text::views(ls@).take(i as int).map_values(
                |l: Seq<char>| SpanView { content: l, style: plain() },
            ),
        decreases n - i,
    {
        let ghost prev = v@;
        v.push(Span::raw(string_of(ls[i].as_slice())));
        proof {
            let vs = crate::text::views(ls@);
            assert(vs.take(i + 1) =~= vs.take(i as int).push(vs[i as int]));
            assert(span_views(v@) =~= span_views(prev).push(SpanView { content: vs[i as int], style: plain() }));
            assert(vs.take(i + 1).map_values(|l: Seq<char>| SpanView { content: l, style: plain() })
                =~= vs.take(i as int).map_values(|l: Seq<char>| SpanView { content: l, style: plain() }).push(
                SpanView { content: vs[i as int], style: plain() },
            ));
        }
        i = i + 1;
    }
    proof {
        assert(crate::text::views(ls@).take(n as int) =~= crate::text::views(ls@));
    }
    Line::from_spans(v)
}

/// The label and style that open a message of a role.
pub open spec fn role_label(r: Role) -> (Seq<char>, Style) {
    match r {
        Role::User => ("You: "@, bold_fg(Color::Cyan)),
        Role::Assistant => ("Assistant: "@, bold_fg(Color::Green)),
        Role::System => ("System: "@, bold_fg(Color::Yellow)),
    }
}

/// A message in the conversation view: its label, its text rendered as
/// markdown, and an empty line.
pub open spec fn message_block(m: (Role, Seq<char>)) -> Seq<Seq<SpanView>> {
    let (label, style) = role_label(m.0);
    seq![seq![SpanView { content: label, style }]] + md_lines(md_events(m.1)) + seq![
        Seq::<SpanView>::empty(),
    ]
}

/// The conversation view's blocks for the messages, in order.
pub open spec fn message_blocks(ms: Seq<(Role, Seq<char>)>) -> Seq<Seq<SpanView>>
    decreases ms.len(),
{
    if ms.len() == 0 {
        Seq::empty()
    } else {
        message_blocks(ms.drop_last()) + message_block(ms.last())
    }
}

/// The conversation view: each message, then the reply being streamed, if
/// any, with a mark after it.
pub open spec fn conversation(a: AppView) -> Seq<Seq<SpanView>> {
    message_blocks(a.messages) + if a.current_response.len() > 0 {
        seq![seq![SpanView { content: "Assistant: "@, style: bold_fg(Color::Green) }]] + md_lines(
            md_events(a.current_response),
        ) + seq![seq![SpanView { content: " \u{25cf} "@, style: fg(Color::Yellow) }]]
    } else {
        Seq::empty()
    }
}

/// The lines of the conversation view.
pub fn message_lines(app: &App) -> (r: Vec<Line>)
    ensures
        line_views(r@) == conversation(app@),
{
    let mut out: Vec<Line> = Vec::new();
    let n = app.messages.len();
    let mut i: usize = 0;
    while i < n
        invariant
            i <= n == app.messages@.len(),
            line_views(out@) == message_blocks(app@.messages.take(i as int)),
        decreases n - i,
    {
        let m = &app.messages[i];
        let (label, style) = match m.role {
            Role::User => (owned("You: "), Style::bold_fg(Color::Cyan)),
            Role::Assistant => (owned("Assistant: "), Style::bold_fg(Color::Green)),
            Role::System => (owned("System: "), Style::bold_fg(Color::Yellow)),
        };
        let ghost prev = out@;
        out.push(styled_line_of(label, style));
        let mut md = markdown_to_lines(m.content.as_str());
        let ghost mdv = md@;
        out.append(&mut md);
        out.push(Line::empty());
        proof {
            let ms = app@.messages;
            assert(ms.take(i + 1).drop_last() =~= ms.take(i as int));
            assert(ms[i as int] == m@);
            assert(line_views(out@) =~= line_views(prev) + message_block(ms[i as int]));
        }
        i = i + 1;
    }
    proof {
        assert(app@.messages.take(n as int) =~= app@.messages);
    }
    if !app.current_response.as_str().is_empty() {
        let ghost prev = out@;
        out.push(styled_line_of(owned("Assistant: "), Style::bold_fg(Color::Green)));
        let mut md = markdown_to_lines(app.current_response.as_str());
        out.append(&mut md);
        out.push(styled_line_of(owned(" \u{25cf} "), Style::fg(Color::Yellow)));
        proof {
            assert(line_views(out@) =~= line_views(prev) + (seq![
                seq![SpanView { content: "Assistant: "@, style: bold_fg(Color::Green) }],
            ] + md_lines(md_events(app@.current_response)) + seq![
                seq![SpanView { content: " \u{25cf} "@, style: fg(Color::Yellow) }],
            ]));
        }
    }
    out
}

/// The highlighted completion: black on cyan.
pub open spec fn selected_style() -> Style {
    Style { fg: Some(Color::Black), bg: Some(Color::Cyan), ..plain() }
}

/// The completions of the file picker, one line each, the highlighted one
/// marked.
pub open spec fn completion_lines(cs: Seq<Seq<char>>, selected: int) -> Seq<Seq<SpanView>> {
    Seq::new(
        cs.len(),
        |i: int|
            seq![
                SpanView {
                    content: " "@ + cs[i],
                    style: if i == selected {
                        selected_style()
                    } else {
                        plain()
                    },
                },
            ],
    )
}

/// The lines of a dialog.  A tool call's arguments are cut after 200
/// bytes, with `"..."`.
pub open spec fn popup_text(p: PopupView) -> Seq<Seq<SpanView>> {
    let empty = Seq::<SpanView>::empty();
    match p {
        PopupView::FilePicker { input, completions, selected } => seq![
            plain_line(" Attach File"@),
            empty,
            text_line(" Path: "@ + input),
            empty,
        ] + completion_lines(completions, selected as int) + seq![
            empty,
            plain_line(" Enter=attach  Tab=complete  Esc=cancel"@),
        ],
        PopupView::ToolConfirm { tool_name, arguments } => seq![
            plain_line(" Tool Call Confirmation"@),
            empty,
            seq![
                SpanView {
                    content: " \u{2699} "@ + tool_name + "("@ + shortened(arguments, 200) + ")"@,
                    style: fg(Color::Yellow),
                },
            ],
            empty,
            plain_line(" [Y] Approve  [N] Deny  [A] Approve all"@),
        ],
    }
}

/// A dialog's arguments can be shown: cutting them at 200 bytes does not
/// fall inside a character.
pub open spec fn popup_shows(p: PopupView) -> bool {
    match p {
        PopupView::ToolConfirm { arguments, .. } => can_shorten(arguments, 200),
        _ => true,
    }
}

/// The lines of a dialog.
pub fn popup_lines(popup: &Popup) -> (r: Vec<Line>)
    requires
        popup_shows(popup@),
    ensures
        line_views(r@) == popup_text(popup@),
{
    let mut out: Vec<Line> = Vec::new();
    match popup {
        Popup::FilePicker { input, completions, selected } => {
            out.push(plain_line_of(" Attach File"));
            out.push(Line::empty());
            out.push(text_line_of(cat(" Path: ", input.as_str()).as_str()));
            out.push(Line::empty());
            let ghost head = line_views(out@);
            proof {
                assert(head =~= seq![
                    plain_line(" Attach File"@),
                    Seq::<SpanView>::empty(),
                    text_line(" Path: "@ + input@),
                    Seq::<SpanView>::empty(),
                ]);
            }
            let n = completions.len();
            let mut i: usize = 0;
            while i < n
                invariant
                    i <= n == completions@.len(),
                    line_views(out@) == head + completion_lines(string_views(completions@).take(i as int), *selected as int),
                decreases n - i,
            {
                let style = if i == *selected {
                    Style { fg: Some(Color::Black), bg: Some(Color::Cyan), bold: false, italic: false, underlined: false }
                } else {
                    Style::plain()
                };
                let ghost prev = out@;
                out.push(styled_line_of(cat(" ", completions[i].as_str()), style));
                proof {
                    let cs = string_views(completions@);
                    assert(completion_lines(cs.take(i + 1), *selected as int) =~= completion_lines(
                        cs.take(i as int),
                        *selected as int,
                    ).push(line_views(out@).last()));
                    assert(line_views(out@) =~= line_views(prev).push(line_views(out@).last()));
                }
                i = i + 1;
            }
            proof {
                assert(string_views(completions@).take(n as int) =~= string_views(completions@));
            }
            let ghost mid = line_views(out@);
            out.push(Line::empty());
            out.push(plain_line_of(" Enter=attach  Tab=complete  Esc=cancel"));
            proof {
                assert(line_views(out@) =~= mid + seq![
                    Seq::<SpanView>::empty(),
                    plain_line(" Enter=attach  Tab=complete  Esc=cancel"@),
                ]);
                assert(line_views(out@) =~= popup_text(popup@));
            }
        },
        Popup::ToolConfirm { tool_name, arguments } => {
            out.push(plain_line_of(" Tool Call Confirmation"));
            out.push(Line::empty());
            let a = cat(" \u{2699} ", tool_name.as_str());
            let b = cat(a.as_str(), "(");
            let c = cat(b.as_str(), shorten(arguments.as_str(), 200).as_str());
            out.push(styled_line_of(cat(c.as_str(), ")"), Style::fg(Color::Yellow)));
            out.push(Line::empty());
            out.push(plain_line_of(" [Y] Approve  [N] Deny  [A] Approve all"));
            proof {
                assert(line_views(out@) =~= popup_text(popup@));
            }
        },
    }
    out
}

/// What a key does in the input box alone.
#[derive(Debug, PartialEq)]
pub enum InputKey {
    /// The text is sent; empty the box.
    Submit(String),
    /// Blank text is not sent.
    Nothing,
    /// Start a new line.
    Newline,
    /// The box takes the key.
    Edit,
}

/// What a key does in the input box, as plain values.
pub enum InputKeyView {
    Submit(Seq<char>),
    Nothing,
    Newline,
    Edit,
}

impl View for InputKey {
    type V = InputKeyView;

    open spec fn view(&self) -> InputKeyView {
        match self {
            InputKey::Submit(t) => InputKeyView::Submit(t@),
            InputKey::Nothing => InputKeyView::Nothing,
            InputKey::Newline => InputKeyView::Newline,
            InputKey::Edit => InputKeyView::Edit,
        }
    }
}

/// Enter sends text that is not blank; Ctrl+J starts a new line; other
/// keys edit.
pub open spec fn input_key(key: Key, text: Seq<char>) -> InputKeyView {
    if key.code is Enter && !key.shift {
        if trim(text).len() > 0 {
            InputKeyView::Submit(text)
        } else {
            InputKeyView::Nothing
        }
    } else if is_char(key.code, 'j') && key.control {
        InputKeyView::Newline
    } else {
        InputKeyView::Edit
    }
}

/// A key in the input box, where `text` is the box's text.
pub fn handle_input(key: Key, text: &str) -> (r: InputKey)
    ensures
        r@ == input_key(key, text@),
{
    let enter = match key.code {
        KeyCode::Enter => true,
        _ => false,
    };
    if enter && !key.shift {
        if trim_chars(&chars_of(text)).len() > 0 {
            InputKey::Submit(owned(text))
        } else {
            InputKey::Nothing
        }
    } else if is_char_exec(key.code, 'j') && key.control {
        InputKey::Newline
    } else {
        InputKey::Edit
    }
}

/// Once every tool call is approved, no key takes that back.
pub proof fn lemma_approve_all_stays(a: AppView, key: Key, input: Seq<char>)
    requires
        a.approve_all,
    ensures
        key_step(a, key, input).0.approve_all,
{
}

/// While a reply streams, keys change nothing and ask for nothing.
pub proof fn lemma_streaming_ignores_keys(a: AppView, key: Key, input: Seq<char>)
    requires
        a.is_streaming,
    ensures
        key_step(a, key, input) == (a, KeyActionView::Nothing),
{
}

/// The file picker's highlight is on one of its completions, or at the
/// top where there are none.
pub open spec fn highlight_ok(p: Option<PopupView>) -> bool {
    match p {
        Some(PopupView::FilePicker { completions, selected, .. }) => if completions.len() == 0 {
            selected == 0
        } else {
            selected < completions.len()
        },
        _ => true,
    }
}

/// No key moves the file picker's highlight off its completions.
pub proof fn lemma_highlight_stays_in_range(a: AppView, key: Key, input: Seq<char>)
    requires
        highlight_ok(a.popup),
    ensures
        highlight_ok(key_step(a, key, input).0.popup),
{
}

/// Enter in the file picker closes it and keeps the highlighted
/// completion, else the typed path, for the next message sent; nothing
/// else of the UI changes.
pub proof fn lemma_enter_attaches_choice(a: AppView, key: Key, input: Seq<char>)
    requires
        !a.is_streaming,
        key.code is Enter,
        !key.shift,
        a.popup matches Some(PopupView::FilePicker { .. }),
    ensures
        key_step(a, key, input) == (
            AppView {
                popup: None,
                pending_attachments: with_choice(a.pending_attachments, popup_choice(a.popup->0, key)),
                ..a
            },
            KeyActionView::Nothing,
        ),
        ({
            let (input_text, completions, selected) = match a.popup->0 {
                PopupView::FilePicker { input, completions, selected } => (input, completions, selected),
                _ => (Seq::empty(), Seq::empty(), 0usize),
            };
            let chosen = if selected < completions.len() {
                completions[selected as int]
            } else {
                input_text
            };
            chosen.len() > 0 ==> key_step(a, key, input).0.pending_attachments == a.pending_attachments.push(
                chosen,
            )
        }),
{
}

/// Enter with no dialog open sends `/quit` or `/exit` (around white
/// space) to no one: the UI quits, and nothing else changes.  `/clear`
/// empties the conversation and is not sent either.
pub proof fn lemma_quit_commands_quit(a: AppView, key: Key, input: Seq<char>)
    requires
        !a.is_streaming,
        a.popup is None,
        key.code is Enter,
        !key.shift,
    ensures
        (trim(input) == "/quit"@ || trim(input) == "/exit"@) ==> key_step(a, key, input) == (
            AppView { should_quit: true, ..a },
            KeyActionView::Quit,
        ),
        trim(input) == "/clear"@ ==> key_step(a, key, input) == (
            AppView { messages: Seq::empty(), current_response: Seq::empty(), ..a },
            KeyActionView::Clear,
        ),
        key_step(a, key, input).1 matches KeyActionView::Submit(t) ==> t == input && trim(input)
            != "/quit"@ && trim(input) != "/exit"@ && trim(input) != "/clear"@ && trim(input).len() > 0,
{
    reveal_strlit("/quit");
    reveal_strlit("/exit");
    reveal_strlit("/clear");
    assert("/quit"@.len() > 0);
    assert("/exit"@.len() > 0);
    assert("/clear"@.len() > 0);
    assert("/quit"@ != "/clear"@) by {
        assert("/quit"@[1] != "/clear"@[1]);
    }
    assert("/exit"@ != "/clear"@) by {
        assert("/exit"@[1] != "/clear"@[1]);
    }
}

} // verus!
