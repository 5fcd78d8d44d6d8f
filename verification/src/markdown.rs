//! Markdown rendered as styled terminal lines.
//!
//! The text is parsed by pulldown-cmark; its events are folded here into
//! lines of styled spans.
use vstd::prelude::*;
use crate::text::{chars_of, lines, lines_of, string_of};

verus! {

/// The colours the terminal views use.
#[derive(Clone, Copy, Debug, PartialEq)]
pub enum Color {
    Black,
    White,
    Cyan,
    Green,
    Yellow,
    Blue,
    DarkGray,
}

/// How a span is drawn: colours and text modifiers.
#[derive(Clone, Copy, Debug, PartialEq)]
pub struct Style {
    pub fg: Option<Color>,
    pub bg: Option<Color>,
    pub bold: bool,
    pub italic: bool,
    pub underlined: bool,
}

/// The terminal's default look.
pub open spec fn plain() -> Style {
    Style { fg: None, bg: None, bold: false, italic: false, underlined: false }
}

/// A foreground colour on the default look.
pub open spec fn fg(c: Color) -> Style {
    Style { fg: Some(c), ..plain() }
}

/// Bold text in a colour.
pub open spec fn bold_fg(c: Color) -> Style {
    Style { fg: Some(c), bold: true, ..plain() }
}

/// Inline and block code: yellow on dark grey.
pub open spec fn code_style() -> Style {
    Style { fg: Some(Color::Yellow), bg: Some(Color::DarkGray), ..plain() }
}

/// Headings: bold cyan.
pub open spec fn heading_style() -> Style {
    bold_fg(Color::Cyan)
}

/// Emphasis: italic.
pub open spec fn italic_style() -> Style {
    Style { italic: true, ..plain() }
}

/// Strong emphasis: bold.
pub open spec fn bold_style() -> Style {
    Style { bold: true, ..plain() }
}

/// Links: underlined blue.
pub open spec fn link_style() -> Style {
    Style { fg: Some(Color::Blue), underlined: true, ..plain() }
}

impl Style {
    /// The terminal's default look.
    pub fn plain() -> (s: Style)
        ensures
            s == plain(),
    {
        Style { fg: None, bg: None, bold: false, italic: false, underlined: false }
    }

    /// A foreground colour on the default look.
    pub fn fg(c: Color) -> (s: Style)
        ensures
            s == fg(c),
    {
        Style { fg: Some(c), bg: None, bold: false, italic: false, underlined: false }
    }

    /// Bold text in a colour.
    pub fn bold_fg(c: Color) -> (s: Style)
        ensures
            s == bold_fg(c),
    {
        Style { fg: Some(c), bg: None, bold: true, italic: false, underlined: false }
    }

    /// Inline and block code.
    pub fn code() -> (s: Style)
        ensures
            s == code_style(),
    {
        Style {
            fg: Some(Color::Yellow),
            bg: Some(Color::DarkGray),
            bold: false,
            italic: false,
            underlined: false,
        }
    }

    /// Emphasis.
    pub fn italic() -> (s: Style)
        ensures
            s == italic_style(),
    {
        Style { fg: None, bg: None, bold: false, italic: true, underlined: false }
    }

    /// Strong emphasis.
    pub fn bold() -> (s: Style)
        ensures
            s == bold_style(),
    {
        Style { fg: None, bg: None, bold: true, italic: false, underlined: false }
    }

    /// Links.
    pub fn link() -> (s: Style)
        ensures
            s == link_style(),
    {
        Style { fg: Some(Color::Blue), bg: None, bold: false, italic: false, underlined: true }
    }
}

/// A piece of text drawn in one style.
#[derive(Debug, PartialEq)]
pub struct Span {
    pub content: String,
    pub style: Style,
}

/// A span, with its text as characters.
pub struct SpanView {
    pub content: Seq<char>,
    pub style: Style,
}

impl View for Span {
    type V = SpanView;

    open spec fn view(&self) -> SpanView {
        SpanView { content: self.content@, style: self.style }
    }
}

/// One line of a terminal view: its spans, left to right.
#[derive(Debug, PartialEq)]
pub struct Line {
    pub spans: Vec<Span>,
}

/// The views of a sequence of spans.
pub open spec fn span_views(v: Seq<Span>) -> Seq<SpanView> {
    v.map_values(|s: Span| s@)
}

impl View for Line {
    type V = Seq<SpanView>;

    open spec fn view(&self) -> Seq<SpanView> {
        span_views(self.spans@)
    }
}

/// The views of a sequence of lines.
pub open spec fn line_views(v: Seq<Line>) -> Seq<Seq<SpanView>> {
    v.map_values(|l: Line| l@)
}

impl Span {
    /// Text in a style.
    pub fn styled(content: String, style: Style) -> (s: Span)
        ensures
            s@ == (SpanView { content: content@, style }),
    {
        Span { content, style }
    }

    /// Text in the default look.
    pub fn raw(content: String) -> (s: Span)
        ensures
            s@ == (SpanView { content: content@, style: plain() }),
    {
        Span { content, style: Style::plain() }
    }
}

impl Line {
    /// A line with no spans, drawn empty.
    pub fn empty() -> (l: Line)
        ensures
            l@ == Seq::<SpanView>::empty(),
    {
        Line { spans: Vec::new() }
    }

    /// A line of the given spans.
    pub fn from_spans(spans: Vec<Span>) -> (l: Line)
        ensures
            l@ == span_views(spans@),
    {
        Line { spans }
    }
}

/// The spans of a line of text in the default look, as a terminal line made
/// from a string has them: none for an empty text, else one.
pub open spec fn raw_line(l: Seq<char>) -> Seq<SpanView> {
    if l.len() == 0 {
        Seq::empty()
    } else {
        seq![SpanView { content: l, style: plain() }]
    }
}

/// A line of one span; a text without a newline in it, in the default look.
pub fn raw_line_of(l: String) -> (r: Line)
    ensures
        r@ == raw_line(l@),
{
    if l.as_str().is_empty() {
        Line::empty()
    } else {
        let mut v: Vec<Span> = Vec::new();
        v.push(Span::raw(l));
        Line::from_spans(v)
    }
}

/// The block and inline elements whose start and end the rendering
/// distinguishes; all others are `Other`.
#[derive(Clone, Copy, Debug, PartialEq)]
pub enum MdTag {
    Paragraph,
    Heading,
    BlockQuote,
    CodeBlock,
    List,
    Item,
    Emphasis,
    Strong,
    Link,
    Other,
}

/// A markdown parse event.
#[derive(Debug, PartialEq)]
pub enum MdEvent {
    Start(MdTag),
    End(MdTag),
    Text(String),
    Code(String),
    SoftBreak,
    HardBreak,
    Other,
}

/// A parse event, with its text as characters.
pub enum MdEventView {
    Start(MdTag),
    End(MdTag),
    Text(Seq<char>),
    Code(Seq<char>),
    SoftBreak,
    HardBreak,
    Other,
}

impl View for MdEvent {
    type V = MdEventView;

    open spec fn view(&self) -> MdEventView {
        match self {
            MdEvent::Start(t) => MdEventView::Start(*t),
            MdEvent::End(t) => MdEventView::End(*t),
            MdEvent::Text(s) => MdEventView::Text(s@),
            MdEvent::Code(s) => MdEventView::Code(s@),
            MdEvent::SoftBreak => MdEventView::SoftBreak,
            MdEvent::HardBreak => MdEventView::HardBreak,
            MdEvent::Other => MdEventView::Other,
        }
    }
}

/// The views of a sequence of parse events.
pub open spec fn event_views(v: Seq<MdEvent>) -> Seq<MdEventView> {
    v.map_values(|e: MdEvent| e@)
}

/// The events pulldown-cmark (0.12, every extension on) gives for a text.
pub uninterp spec fn md_events(text: Seq<char>) -> Seq<MdEventView>;

/// pulldown-cmark's parse event, carried through opaquely.
#[verifier::external_type_specification]
#[verifier::external_body]
pub struct ExMdEvent<'a>(pulldown_cmark::Event<'a>);

/// pulldown-cmark's tag end, carried through opaquely.
#[verifier::external_type_specification]
#[verifier::external_body]
pub struct ExMdTagEnd(pulldown_cmark::TagEnd);

/// The element that a pulldown-cmark tag end closes.
#[verifier::external_body]
fn md_tag(t: &pulldown_cmark::TagEnd) -> MdTag {
    match t {
        pulldown_cmark::TagEnd::Paragraph => MdTag::Paragraph,
        pulldown_cmark::TagEnd::Heading(_) => MdTag::Heading,
        pulldown_cmark::TagEnd::BlockQuote(_) => MdTag::BlockQuote,
        pulldown_cmark::TagEnd::CodeBlock => MdTag::CodeBlock,
        pulldown_cmark::TagEnd::List(_) => MdTag::List,
        pulldown_cmark::TagEnd::Item => MdTag::Item,
        pulldown_cmark::TagEnd::Emphasis => MdTag::Emphasis,
        pulldown_cmark::TagEnd::Strong => MdTag::Strong,
        pulldown_cmark::TagEnd::Link => MdTag::Link,
        _ => MdTag::Other,
    }
}

/// A pulldown-cmark event as a value of this library.
#[verifier::external_body]
fn md_event(e: pulldown_cmark::Event) -> MdEvent {
    match e {
        pulldown_cmark::Event::Start(t) => MdEvent::Start(md_tag(&t.to_end())),
        pulldown_cmark::Event::End(t) => MdEvent::End(md_tag(&t)),
        pulldown_cmark::Event::Text(s) => MdEvent::Text(s.to_string()),
        pulldown_cmark::Event::Code(s) => MdEvent::Code(s.to_string()),
        pulldown_cmark::Event::SoftBreak => MdEvent::SoftBreak,
        pulldown_cmark::Event::HardBreak => MdEvent::HardBreak,
        _ => MdEvent::Other,
    }
}

/// Parses markdown with pulldown-cmark's `Parser::new_ext` and every option
/// on.  The contract claims only that the events are those `md_events` names
/// for the text: the parse depends on the text alone.
#[verifier::external_body]
fn markdown_events(text: &str) -> (r: Vec<MdEvent>)
    ensures
        event_views(r@) == md_events(text@),
{
    pulldown_cmark::Parser::new_ext(text, pulldown_cmark::Options::all()).map(md_event).collect()
}

/// Where the rendering stands between two events.
pub struct MdState {
    pub lines: Seq<Seq<SpanView>>,
    pub in_code: bool,
    pub code_lines: Seq<Seq<char>>,
    pub spans: Seq<SpanView>,
}

/// The rendering before any event.
pub open spec fn md_start() -> MdState {
    MdState { lines: Seq::empty(), in_code: false, code_lines: Seq::empty(), spans: Seq::empty() }
}

/// The lines so far, with the pending spans closed into a line if there are any.
pub open spec fn flushed(st: MdState) -> Seq<Seq<SpanView>> {
    if st.spans.len() > 0 {
        st.lines.push(st.spans)
    } else {
        st.lines
    }
}

/// The style a text takes: that of the span before it, else the default.
pub open spec fn text_style(spans: Seq<SpanView>) -> Style {
    if spans.len() > 0 {
        spans.last().style
    } else {
        plain()
    }
}

/// A code block's lines, each one span in the code style.
pub open spec fn code_block(code: Seq<Seq<char>>) -> Seq<Seq<SpanView>> {
    code.map_values(|l: Seq<char>| seq![SpanView { content: l, style: code_style() }])
}

/// One parse event applied to the rendering.
pub open spec fn md_step(st: MdState, e: MdEventView) -> MdState {
    let empty = Seq::<SpanView>::empty();
    match e {
        MdEventView::Start(MdTag::CodeBlock) => MdState {
            lines: flushed(st),
            in_code: true,
            code_lines: Seq::empty(),
            spans: Seq::empty(),
        },
        MdEventView::End(MdTag::CodeBlock) => MdState {
            lines: (st.lines.push(empty) + code_block(st.code_lines)).push(empty),
            in_code: false,
            ..st
        },
        MdEventView::Start(MdTag::Heading) => MdState {
            lines: flushed(st),
            spans: seq![SpanView { content: Seq::empty(), style: heading_style() }],
            ..st
        },
        MdEventView::End(MdTag::Heading) => MdState {
            lines: st.lines.push(st.spans).push(empty),
            spans: Seq::empty(),
            ..st
        },
        MdEventView::Start(MdTag::Emphasis) => MdState {
            spans: st.spans.push(SpanView { content: Seq::empty(), style: italic_style() }),
            ..st
        },
        MdEventView::Start(MdTag::Strong) => MdState {
            spans: st.spans.push(SpanView { content: Seq::empty(), style: bold_style() }),
            ..st
        },
        MdEventView::Start(MdTag::BlockQuote) => MdState { lines: st.lines.push(empty), ..st },
        MdEventView::End(MdTag::BlockQuote) => MdState { lines: st.lines.push(empty), ..st },
        MdEventView::End(MdTag::Paragraph) => MdState {
            lines: st.lines.push(st.spans).push(empty),
            spans: Seq::empty(),
            ..st
        },
        MdEventView::Code(c) => MdState {
            spans: st.spans.push(SpanView { content: c, style: code_style() }),
            ..st
        },
        MdEventView::Text(t) => if st.in_code {
            MdState { code_lines: st.code_lines + lines(t), ..st }
        } else {
            MdState {
                spans: st.spans.push(SpanView { content: t, style: text_style(st.spans) }),
                ..st
            }
        },
        MdEventView::SoftBreak | MdEventView::HardBreak => if st.in_code {
            st
        } else {
            MdState { lines: st.lines.push(st.spans), spans: Seq::empty(), ..st }
        },
        MdEventView::Start(MdTag::Link) => MdState {
            spans: st.spans.push(SpanView { content: Seq::empty(), style: link_style() }),
            ..st
        },
        MdEventView::Start(MdTag::Item) => MdState {
            spans: st.spans.push(SpanView { content: "  \u{2022} "@, style: plain() }),
            ..st
        },
        MdEventView::End(MdTag::Item) => MdState {
            lines: st.lines.push(st.spans),
            spans: Seq::empty(),
            ..st
        },
        _ => st,
    }
}

/// The rendering after a run of events.
pub open spec fn md_run(es: Seq<MdEventView>) -> MdState
    decreases es.len(),
{
    if es.len() == 0 {
        md_start()
    } else {
        md_step(md_run(es.drop_last()), es.last())
    }
}

/// The lines a run of events renders to.
pub open spec fn md_lines(es: Seq<MdEventView>) -> Seq<Seq<SpanView>> {
    flushed(md_run(es))
}

/// The state of the rendering as it is built.
struct Renderer {
    lines: Vec<Line>,
    in_code: bool,
    code_lines: Vec<String>,
    spans: Vec<Span>,
}

impl View for Renderer {
    type V = MdState;

    closed spec fn view(&self) -> MdState {
        MdState {
            lines: line_views(self.lines@),
            in_code: self.in_code,
            code_lines: crate::text::string_views(self.code_lines@),
            spans: span_views(self.spans@),
        }
    }
}

impl Renderer {
    /// Closes the pending spans into a line, even when there are none.
    fn close_line(&mut self)
        ensures
            final(self)@ == (MdState {
                lines: old(self)@.lines.push(old(self)@.spans),
                spans: Seq::empty(),
                ..old(self)@
            }),
    {
        let mut spans: Vec<Span> = Vec::new();
        std::mem::swap(&mut spans, &mut self.spans);
        self.lines.push(Line::from_spans(spans));
        proof {
            assert(line_views(self.lines@) == old(self)@.lines.push(old(self)@.spans));
            assert(span_views(self.spans@) == Seq::<SpanView>::empty());
        }
    }

    /// Closes the pending spans into a line where there are any.
    fn flush(&mut self)
        ensures
            final(self)@ == (MdState { lines: flushed(old(self)@), spans: Seq::empty(), ..old(self)@ }),
    {
        if self.spans.len() > 0 {
            self.close_line();
        } else {
            proof {
                assert(span_views(self.spans@) == Seq::<SpanView>::empty());
            }
        }
    }

    /// Appends an empty line.
    fn blank(&mut self)
        ensures
            final(self)@ == (MdState {
                lines: old(self)@.lines.push(Seq::<SpanView>::empty()),
                ..old(self)@
            }),
    {
        self.lines.push(Line::empty());
        proof {
            assert(line_views(self.lines@) == old(self)@.lines.push(Seq::<SpanView>::empty()));
        }
    }

    /// Appends a span to the pending ones.
    fn add_span(&mut self, s: Span)
        ensures
            final(self)@ == (MdState { spans: old(self)@.spans.push(s@), ..old(self)@ }),
    {
        self.spans.push(s);
        proof {
            assert(span_views(self.spans@) == old(self)@.spans.push(s@));
        }
    }

    /// Appends the code block's lines, each in the code style.
    fn push_code_lines(&mut self)
        ensures
            final(self)@ == (MdState {
                lines: old(self)@.lines + code_block(old(self)@.code_lines),
                ..old(self)@
            }),
    {
        let n = self.code_lines.len();
        let mut i: usize = 0;
        while i < n
            invariant
                i <= n == self.code_lines.len(),
                self.code_lines@ == old(self).code_lines@,
                self.spans@ == old(self).spans@,
                self.in_code == old(self).in_code,
                line_views(self.lines@) == old(self)@.lines + code_block(
                    crate::text::string_views(self.code_lines@).take(i as int),
                ),
            decreases n - i,
        {
            let mut v: Vec<Span> = Vec::new();
            v.push(Span::styled(self.code_lines[i].clone(), Style::code()));
            let ghost prev = self.lines@;
            let ghost sv = span_views(v@);
            self.lines.push(Line::from_spans(v));
            proof {
                let cs = crate::text::string_views(self.code_lines@);
                let x = seq![SpanView { content: cs[i as int], style: code_style() }];
                assert(cs.take(i + 1) =~= cs.take(i as int).push(cs[i as int]));
                assert(code_block(cs.take(i + 1)) =~= code_block(cs.take(i as int)).push(x));
                assert(sv =~= x);
                assert(line_views(self.lines@) =~= line_views(prev).push(x));
                assert(old(self)@.lines + code_block(cs.take(i as int)).push(x) =~= (old(self)@.lines
                    + code_block(cs.take(i as int))).push(x));
            }
            i = i + 1;
        }
        proof {
            let cs = crate::text::string_views(self.code_lines@);
            assert(cs.take(n as int) == cs);
        }
    }

    /// Appends the lines of a text to the code block.
    fn add_code_text(&mut self, t: &str)
        ensures
            final(self)@ == (MdState {
                code_lines: old(self)@.code_lines + lines(t@),
                ..old(self)@
            }),
    {
        let ls = lines_of(&chars_of(t));
        let n = ls.len();
        let mut i: usize = 0;
        while i < n
            invariant
                i <= n == ls.len(),
                crate::text::views(ls@) == lines(t@),
                self.lines@ == old(self).lines@,
                self.spans@ == old(self).spans@,
                self.in_code == old(self).in_code,
                crate::text::string_views(self.code_lines@) == old(self)@.code_lines
                    + crate::text::views(ls@).take(i as int),
            decreases n - i,
        {
            let s = string_of(ls[i].as_slice());
            let ghost prev = self.code_lines@;
            self.code_lines.push(s);
            proof {
                let vs = crate::text::views(ls@);
                assert(vs.take(i + 1) =~= vs.take(i as int).push(vs[i as int]));
                assert(crate::text::string_views(self.code_lines@) =~= crate::text::string_views(
                    prev,
                ).push(vs[i as int]));
                assert(old(self)@.code_lines + vs.take(i as int).push(vs[i as int]) =~= (
                old(self)@.code_lines + vs.take(i as int)).push(vs[i as int]));
            }
            i = i + 1;
        }
        proof {
            let vs = crate::text::views(ls@);
            assert(vs.take(n as int) == vs);
        }
    }

    /// Applies one parse event.
    fn step(&mut self, e: &MdEvent)
        ensures
            final(self)@ == md_step(old(self)@, e@),
    {
        match e {
            MdEvent::Start(MdTag::CodeBlock) => {
                self.flush();
                self.in_code = true;
                self.code_lines = Vec::new();
                proof {
                    assert(crate::text::string_views(self.code_lines@) == Seq::<Seq<char>>::empty());
                }
            },
            MdEvent::End(MdTag::CodeBlock) => {
                self.in_code = false;
                self.blank();
                self.push_code_lines();
                self.blank();
            },
            MdEvent::Start(MdTag::Heading) => {
                self.flush();
                self.add_span(Span::styled(String::new(), Style::bold_fg(Color::Cyan)));
                proof {
                    assert(span_views(self.spans@) == seq![
                        SpanView { content: Seq::empty(), style: heading_style() },
                    ]);
                }
            },
            MdEvent::End(MdTag::Heading) | MdEvent::End(MdTag::Paragraph) => {
                self.close_line();
                self.blank();
            },
            MdEvent::Start(MdTag::Emphasis) => {
                self.add_span(Span::styled(String::new(), Style::italic()));
            },
            MdEvent::Start(MdTag::Strong) => {
                self.add_span(Span::styled(String::new(), Style::bold()));
            },
            MdEvent::Start(MdTag::BlockQuote) | MdEvent::End(MdTag::BlockQuote) => {
                self.blank();
            },
            MdEvent::Code(c) => {
                self.add_span(Span::styled(c.clone(), Style::code()));
            },
            MdEvent::Text(t) => {
                if self.in_code {
                    self.add_code_text(t.as_str());
                } else {
                    let style = if self.spans.len() > 0 {
                        self.spans[self.spans.len() - 1].style
                    } else {
                        Style::plain()
                    };
                    self.add_span(Span::styled(t.clone(), style));
                }
            },
            MdEvent::SoftBreak | MdEvent::HardBreak => {
                if !self.in_code {
                    self.close_line();
                }
            },
            MdEvent::Start(MdTag::Link) => {
                self.add_span(Span::styled(String::new(), Style::link()));
            },
            MdEvent::Start(MdTag::Item) => {
                self.add_span(Span::raw(crate::text::owned("  \u{2022} ")));
                proof {
                    reveal_strlit("  \u{2022} ");
                }
            },
            MdEvent::End(MdTag::Item) => {
                self.close_line();
            },
            _ => {},
        }
    }
}

/// The lines a run of parse events renders to.
pub fn render_events(events: &[MdEvent]) -> (r: Vec<Line>)
    ensures
        line_views(r@) == md_lines(event_views(events@)),
{
    let mut st = Renderer { lines: Vec::new(), in_code: false, code_lines: Vec::new(), spans: Vec::new() };
    proof {
        assert(st@ == md_start()) by {
            assert(line_views(st.lines@) == Seq::<Seq<SpanView>>::empty());
            assert(span_views(st.spans@) == Seq::<SpanView>::empty());
            assert(crate::text::string_views(st.code_lines@) == Seq::<Seq<char>>::empty());
        }
    }
    let n = events.len();
    let mut i: usize = 0;
    while i < n
        invariant
            i <= n == events@.len(),
            st@ == md_run(event_views(events@).take(i as int)),
        decreases n - i,
    {
        st.step(&events[i]);
        proof {
            let es = event_views(events@);
            assert(es.take(i + 1).drop_last() == es.take(i as int));
        }
        i = i + 1;
    }
    proof {
        let es = event_views(events@);
        assert(es.take(n as int) == es);
    }
    st.flush();
    st.lines
}

/// Markdown rendered as styled lines: headings bold cyan, emphasis italic,
/// strong text bold, links underlined blue, code yellow on dark grey, list
/// items bulleted, and blocks separated by empty lines.
pub fn markdown_to_lines(text: &str) -> (r: Vec<Line>)
    ensures
        line_views(r@) == md_lines(md_events(text@)),
{
    let events = markdown_events(text);
    render_events(events.as_slice())
}

/// Plain text as lines, one per line of the text, in the default look.
pub fn plain_text_to_lines(text: &str) -> (r: Vec<Line>)
    ensures
        line_views(r@) == lines(text@).map_values(|l: Seq<char>| raw_line(l)),
{
    let ls = lines_of(&chars_of(text));
    let n = ls.len();
    let mut out: Vec<Line> = Vec::new();
    let mut i: usize = 0;
    while i < n
        invariant
            i <= n == ls.len(),
            crate::text::views(ls@) == lines(text@),
            line_views(out@) == crate::text::views(ls@).take(i as int).map_values(
                |l: Seq<char>| raw_line(l),
            ),
        decreases n - i,
    {
        let ghost prev = out@;
        out.push(raw_line_of(string_of(ls[i].as_slice())));
        proof {
            let vs = crate::text::views(ls@);
            assert(vs.take(i + 1) =~= vs.take(i as int).push(vs[i as int]));
            assert(line_views(out@) =~= line_views(prev).push(raw_line(vs[i as int])));
            assert(vs.take(i + 1).map_values(|l: Seq<char>| raw_line(l)) =~= vs.take(
                i as int,
            ).map_values(|l: Seq<char>| raw_line(l)).push(raw_line(vs[i as int])));
        }
        i = i + 1;
    }
    proof {
        let vs = crate::text::views(ls@);
        assert(vs.take(n as int) == vs);
    }
    out
}

/// A hard line break ends a line just as a soft one does: outside a code
/// block the pending spans close into a line, and inside one nothing
/// changes.
pub proof fn lemma_breaks_end_lines(st: MdState)
    ensures
        md_step(st, MdEventView::HardBreak) == md_step(st, MdEventView::SoftBreak),
        !st.in_code ==> md_step(st, MdEventView::HardBreak) == (MdState {
            lines: st.lines.push(st.spans),
            spans: Seq::empty(),
            ..st
        }),
        st.in_code ==> md_step(st, MdEventView::HardBreak) == st,
{
}

} // verus!
