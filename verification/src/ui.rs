//! What the interface shows, as plain values: styled lines for the chat
//! history and the status bar, the size of the middle pane, and the
//! colours that tell states and roles apart. Drawing them on a terminal is
//! left to the driver.

use vstd::prelude::*;
use crate::app::{pairs_view, spinner_glyph, suggestions_spec, App, AppView};
use crate::editor::{buffer_lines, buffer_text};
use crate::message::{conversation, Message, MessageRole, MessageView};
use crate::state::AppState;
use crate::text::{
    byte_count, byte_len, chars_of, decimal_of, decimal_text, find_chars, find_from,
    first_non_space, is_space, join_spec, lemma_find_from,
    lemma_first_non_space, lines_of, occurs_at, split_lines, string_of_range,
    texts,
};

verus! {

/// The colours that the interface uses.
#[derive(Debug, Clone, Copy, PartialEq, Eq, Hash, Structural)]
pub enum Color {
    Black,
    Red,
    Green,
    Yellow,
    Blue,
    Magenta,
    Cyan,
    White,
    DarkGray,
}

/// How a piece of text is shown.
#[derive(Debug, Clone, Copy, PartialEq, Eq, Hash, Structural)]
pub struct Style {
    /// The colour of the text, if it has one of its own.
    pub fg: Option<Color>,
    /// The colour behind the text, if it has one of its own.
    pub bg: Option<Color>,
    /// Whether the text is bold.
    pub bold: bool,
    /// Whether the text blinks slowly.
    pub slow_blink: bool,
}

/// A piece of text with its style.
#[derive(Debug, PartialEq, Eq)]
pub struct Span {
    pub content: String,
    pub style: Style,
}

/// One line of the interface: spans, one after the other.
#[derive(Debug, PartialEq, Eq)]
pub struct Line {
    pub spans: Vec<Span>,
}

/// A span as plain values.
pub struct SpanView {
    pub content: Seq<char>,
    pub style: Style,
}

impl View for Span {
    type V = SpanView;

    open spec fn view(&self) -> SpanView {
        SpanView { content: self.content@, style: self.style }
    }
}

/// The spans of a list as plain values.
pub open spec fn spans_view(spans: Seq<Span>) -> Seq<SpanView> {
    Seq::new(spans.len(), |i: int| spans[i]@)
}

impl View for Line {
    type V = Seq<SpanView>;

    open spec fn view(&self) -> Seq<SpanView> {
        spans_view(self.spans@)
    }
}

/// The lines of a list as plain values.
pub open spec fn lines_view(lines: Seq<Line>) -> Seq<Seq<SpanView>> {
    Seq::new(lines.len(), |i: int| lines[i]@)
}

/// The style without any colour or effect.
pub open spec fn plain_style() -> Style {
    Style { fg: None, bg: None, bold: false, slow_blink: false }
}

impl Style {
    /// The style without any colour or effect.
    pub fn new() -> (style: Self)
        ensures
            style == plain_style(),
    {
        Style { fg: None, bg: None, bold: false, slow_blink: false }
    }

    /// This style with the text in `color`.
    pub fn fg(self, color: Color) -> (style: Self)
        ensures
            style == (Style { fg: Some(color), ..self }),
    {
        Style { fg: Some(color), bg: self.bg, bold: self.bold, slow_blink: self.slow_blink }
    }

    /// This style with `color` behind the text.
    pub fn bg(self, color: Color) -> (style: Self)
        ensures
            style == (Style { bg: Some(color), ..self }),
    {
        Style { fg: self.fg, bg: Some(color), bold: self.bold, slow_blink: self.slow_blink }
    }

    /// This style in bold.
    pub fn bold(self) -> (style: Self)
        ensures
            style == (Style { bold: true, ..self }),
    {
        Style { fg: self.fg, bg: self.bg, bold: true, slow_blink: self.slow_blink }
    }

    /// This style without bold.
    pub fn not_bold(self) -> (style: Self)
        ensures
            style == (Style { bold: false, ..self }),
    {
        Style { fg: self.fg, bg: self.bg, bold: false, slow_blink: self.slow_blink }
    }

    /// This style, blinking slowly.
    pub fn slow_blink(self) -> (style: Self)
        ensures
            style == (Style { slow_blink: true, ..self }),
    {
        Style { fg: self.fg, bg: self.bg, bold: self.bold, slow_blink: true }
    }
}

/// The least width of a terminal in which the interface is drawn.
pub const MIN_WIDTH: u16 = 40;

/// The least height of a terminal in which the interface is drawn.
pub const MIN_HEIGHT: u16 = 10;

/// The colour of the text of a role: green for the user, blue for the
/// model, yellow for notices.
pub open spec fn role_color(role: MessageRole) -> Color {
    match role {
        MessageRole::User => Color::Green,
        MessageRole::Model => Color::Blue,
        MessageRole::System => Color::Yellow,
    }
}

/// The heading under which the messages of a role are shown.
pub open spec fn role_heading(role: MessageRole) -> Seq<char> {
    match role {
        MessageRole::User => "You:"@,
        MessageRole::Model => "AI:"@,
        MessageRole::System => "System:"@,
    }
}

/// The heading and the style of the messages of a role: the heading tells
/// the roles apart, and so does the colour; both are bold.
pub fn get_message_style(role: &MessageRole) -> (look: (&'static str, Style))
    ensures
        look.0@ == role_heading(*role),
        look.1 == (Style { fg: Some(role_color(*role)), bold: true, ..plain_style() }),
{
    match role {
        MessageRole::User => ("You:", Style::new().fg(Color::Green).bold()),
        MessageRole::Model => ("AI:", Style::new().fg(Color::Blue).bold()),
        MessageRole::System => ("System:", Style::new().fg(Color::Yellow).bold()),
    }
}

/// The colour that marks a state in the status bar.
pub open spec fn state_color(state: AppState) -> Color {
    match state {
        AppState::Input => Color::Green,
        AppState::Thinking => Color::Yellow,
        AppState::ReviewAction => Color::Cyan,
        AppState::Executing => Color::Magenta,
        AppState::Finalizing => Color::Yellow,
        AppState::Done => Color::Green,
    }
}

/// The colour that marks a state in the status bar.
pub fn get_state_color(state: &AppState) -> (color: Color)
    ensures
        color == state_color(*state),
{
    match state {
        AppState::Input => Color::Green,
        AppState::Thinking => Color::Yellow,
        AppState::ReviewAction => Color::Cyan,
        AppState::Executing => Color::Magenta,
        AppState::Finalizing => Color::Yellow,
        AppState::Done => Color::Green,
    }
}

/// The keys that the status bar names for a state.
pub open spec fn keybindings_spec(state: AppState) -> Seq<char> {
    match state {
        AppState::Input => "Enter: Submit | Esc: Quit | ↑↓: Scroll"@,
        AppState::Thinking => "Esc: Cancel"@,
        AppState::ReviewAction => "Enter: Execute | Esc: Cancel | Edit command"@,
        AppState::Executing => "Esc: Cancel"@,
        AppState::Finalizing => "Esc: Cancel"@,
        AppState::Done => "Enter: Continue | Esc/q: Quit"@,
    }
}

/// The keys that the status bar names for a state.
pub fn keybindings(state: &AppState) -> (text: &'static str)
    ensures
        text@ == keybindings_spec(*state),
{
    match state {
        AppState::Input => "Enter: Submit | Esc: Quit | ↑↓: Scroll",
        AppState::Thinking => "Esc: Cancel",
        AppState::ReviewAction => "Enter: Execute | Esc: Cancel | Edit command",
        AppState::Executing => "Esc: Cancel",
        AppState::Finalizing => "Esc: Cancel",
        AppState::Done => "Enter: Continue | Esc/q: Quit",
    }
}

/// Whether a terminal of this size is too small for the interface.
pub fn is_too_small(width: u16, height: u16) -> (small: bool)
    ensures
        small == (width < 40 || height < 10),
{
    width < MIN_WIDTH || height < MIN_HEIGHT
}

/// The span for text that was read up to a mark: none where there is no
/// text.
pub open spec fn flushed(current: Seq<char>, base: Style) -> Seq<SpanView> {
    if current.len() > 0 {
        seq![SpanView { content: current, style: base }]
    } else {
        Seq::empty()
    }
}

/// Where marked text ends: at the first `mark` at or after `from`, or at
/// the end of the line where the mark is not closed.
pub open spec fn closing(line: Seq<char>, mark: Seq<char>, from: int) -> int {
    match find_from(line, mark, from) {
        Some(at) => at,
        None => line.len() as int,
    }
}

/// Where reading goes on after marked text that starts at `from` and ends
/// at `end` with a mark of `width` characters.
pub open spec fn after_closing(line: Seq<char>, from: int, end: int, width: int) -> int {
    if from <= end && end + width <= line.len() {
        end + width
    } else {
        line.len() as int
    }
}

/// The style of bold text: yellow and bold.
pub open spec fn bold_style(base: Style) -> Style {
    Style { fg: Some(Color::Yellow), bold: true, ..base }
}

/// The style of emphasised text: cyan.
pub open spec fn emphasis_style(base: Style) -> Style {
    Style { fg: Some(Color::Cyan), ..base }
}

/// The style of code: green, whatever the style around it.
pub open spec fn code_style() -> Style {
    Style { fg: Some(Color::Green), ..plain_style() }
}

/// Whether the mark at `at` is a double star.
pub open spec fn is_double_star(line: Seq<char>, at: int) -> bool {
    line[at] == '*' && at + 1 < line.len() && line[at + 1] == '*'
}

/// The span of the marked text that starts with the mark at `at`, and the
/// index at which reading goes on: text between `**` is bold, text
/// between single `*` is emphasised, text between backticks is code; a
/// mark that is not closed holds to the end of the line.
pub open spec fn marked(line: Seq<char>, at: int, base: Style) -> (SpanView, int) {
    if is_double_star(line, at) {
        let end = closing(line, "**"@, at + 2);
        (
            SpanView { content: line.subrange(at + 2, end), style: bold_style(base) },
            after_closing(line, at + 2, end, 2),
        )
    } else if line[at] == '*' {
        let end = closing(line, "*"@, at + 1);
        (
            SpanView { content: line.subrange(at + 1, end), style: emphasis_style(base) },
            after_closing(line, at + 1, end, 1),
        )
    } else {
        let end = closing(line, "`"@, at + 1);
        (
            SpanView { content: line.subrange(at + 1, end), style: code_style() },
            after_closing(line, at + 1, end, 1),
        )
    }
}

/// The spans of the part of a line from `at` on, with `current` the plain
/// text read so far: plain text up to the next star or backtick, then the
/// marked text, and so on to the end of the line.
pub open spec fn inline_spans(line: Seq<char>, at: int, current: Seq<char>, base: Style) -> Seq<
    SpanView,
>
    decreases line.len() - at,
{
    if at < 0 || at >= line.len() {
        flushed(current, base)
    } else if line[at] == '*' || line[at] == '`' {
        let next = marked(line, at, base).1;
        if next <= at {
            flushed(current, base)
        } else {
            flushed(current, base) + seq![marked(line, at, base).0] + inline_spans(
                line,
                next,
                Seq::empty(),
                base,
            )
        }
    } else {
        inline_spans(line, at + 1, current.push(line[at]), base)
    }
}

/// Whether a line is a list item: after its indentation it starts with
/// `* ` or `- `.
pub open spec fn is_bullet(line: Seq<char>) -> bool {
    let rest = line.skip(first_non_space(line));
    occurs_at(rest, "* "@, 0) || occurs_at(rest, "- "@, 0)
}

/// `count` spaces.
pub open spec fn spaces(count: nat) -> Seq<char> {
    Seq::new(count, |i: int| ' ')
}

/// The spans of a line of a model message. A list item starts with a
/// cyan bullet, indented by as many spaces as its indentation takes
/// bytes; the rest is read for bold, emphasis and code. A line without
/// text gives one empty span.
pub open spec fn markdown_spans(line: Seq<char>, base: Style) -> Seq<SpanView> {
    let start = first_non_space(line);
    let spans = if is_bullet(line) {
        seq![
            SpanView {
                content: spaces(byte_len(line.take(start))) + "• "@,
                style: emphasis_style(base),
            },
        ] + inline_spans(line.skip(start).skip(2), 0, Seq::empty(), base)
    } else {
        inline_spans(line, 0, Seq::empty(), base)
    };
    if spans.len() == 0 {
        seq![SpanView { content: Seq::empty(), style: base }]
    } else {
        spans
    }
}

fn flush(spans: &mut Vec<Span>, current: &mut String, base: Style)
    ensures
        spans_view(final(spans)@) == spans_view(old(spans)@) + flushed(old(current)@, base),
        final(current)@.len() == 0,
{
    if !current.as_str().is_empty() {
        let ghost before = spans_view(spans@);
        let text = current.clone();
        spans.push(Span { content: text, style: base });
        *current = String::new();
        assert(spans_view(spans@) =~= before + flushed(old(current)@, base));
    } else {
        assert(spans_view(spans@) =~= spans_view(old(spans)@) + flushed(old(current)@, base));
    }
}

fn read_marked(line: &[char], at: usize, base: Style) -> (read: (Span, usize))
    requires
        at < line.len(),
        line[at as int] == '*' || line[at as int] == '`',
    ensures
        (read.0@, read.1 as int) == marked(line@, at as int, base),
        at < read.1 <= line.len(),
{
    let ch = line[at];
    let double = ch == '*' && at + 1 < line.len() && line[at + 1] == '*';
    let width: usize = if double {
        2
    } else {
        1
    };
    let from = at + width;
    let mark = if double {
        chars_of("**")
    } else if ch == '*' {
        chars_of("*")
    } else {
        chars_of("`")
    };
    let found = find_chars(line, mark.as_slice(), from);
    proof {
        reveal_strlit("**");
        reveal_strlit("*");
        reveal_strlit("`");
        lemma_find_from(line@, mark@, from as int);
        assert(mark@.len() == width);
        if found is Some {
            assert(occurs_at(line@, mark@, found->0 as int));
        }
    }
    let end = match found {
        Some(end) => end,
        None => line.len(),
    };
    let style = if double {
        Style { fg: Some(Color::Yellow), bg: base.bg, bold: true, slow_blink: base.slow_blink }
    } else if ch == '*' {
        Style { fg: Some(Color::Cyan), bg: base.bg, bold: base.bold, slow_blink: base.slow_blink }
    } else {
        Style { fg: Some(Color::Green), bg: None, bold: false, slow_blink: false }
    };
    let text = string_of_range(line, from, end);
    let next = if found.is_some() {
        end + width
    } else {
        line.len()
    };
    (Span { content: text, style }, next)
}

fn read_inline(line: &[char], base: Style, spans: &mut Vec<Span>)
    ensures
        spans_view(final(spans)@) == spans_view(old(spans)@) + inline_spans(
            line@,
            0,
            Seq::empty(),
            base,
        ),
{
    let ghost start = spans_view(spans@);
    let ghost all = inline_spans(line@, 0, Seq::empty(), base);
    let mut current = String::new();
    let mut at: usize = 0;
    while at < line.len()
        invariant
            at <= line.len(),
            start + all == spans_view(spans@) + inline_spans(line@, at as int, current@, base),
        decreases line.len() - at,
    {
        let ch = line[at];
        let ghost before = spans_view(spans@);
        let ghost pending = current@;
        if ch == '*' || ch == '`' {
            let (span, next) = read_marked(line, at, base);
            flush(spans, &mut current, base);
            let ghost shown = span@;
            spans.push(span);
            proof {
                let rest = inline_spans(line@, next as int, Seq::empty(), base);
                assert(current@ =~= Seq::<char>::empty());
                assert(spans_view(spans@) =~= before + flushed(pending, base) + seq![shown]);
                assert(inline_spans(line@, at as int, pending, base) == flushed(pending, base)
                    + seq![shown] + rest);
                assert(before + (flushed(pending, base) + seq![shown] + rest) =~= before + flushed(
                    pending,
                    base,
                ) + seq![shown] + rest);
            }
            at = next;
        } else {
            current.push(ch);
            proof {
                assert(inline_spans(line@, at as int, pending, base) == inline_spans(
                    line@,
                    at + 1,
                    pending.push(line@[at as int]),
                    base,
                ));
            }
            at += 1;
        }
    }
    let ghost pending = current@;
    flush(spans, &mut current, base);
    proof {
        assert(inline_spans(line@, at as int, pending, base) == flushed(pending, base));
        assert(spans_view(spans@) == start + all);
    }
}

/// The spans of a line of a model message, as `markdown_spans` defines
/// them.
pub fn parse_markdown_line(line: &str, base_style: Style) -> (parsed: Line)
    ensures
        parsed@ == markdown_spans(line@, base_style),
{
    let chars = chars_of(line);
    let mut start: usize = 0;
    proof {
        assert(chars@.skip(0) == chars@);
    }
    while start < chars.len() && is_space(chars[start])
        invariant
            start <= chars.len(),
            first_non_space(chars@) == start + first_non_space(chars@.skip(start as int)),
        decreases chars.len() - start,
    {
        assert(chars@.skip(start as int).drop_first() == chars@.skip(start + 1));
        start += 1;
    }
    let all = chars.as_slice();
    let rest = &all[start..chars.len()];
    proof {
        assert(rest@ == chars@.skip(start as int));
        reveal_strlit("* ");
        reveal_strlit("- ");
    }
    let bullet = rest.len() >= 2 && (rest[0] == '*' || rest[0] == '-') && rest[1] == ' ';
    proof {
        if rest.len() >= 2 {
            assert(rest@.subrange(0, 2) =~= seq![rest@[0], rest@[1]]);
            assert("* "@ =~= seq!['*', ' ']);
            assert("- "@ =~= seq!['-', ' ']);
        }
        assert(bullet == is_bullet(chars@));
    }
    let mut spans: Vec<Span> = Vec::new();
    if bullet {
        let indent = byte_count(&all[0..start]);
        proof {
            assert(all@.subrange(0, start as int) == chars@.take(start as int));
        }
        let mut text = String::new();
        let mut i: u128 = 0;
        while i < indent
            invariant
                i <= indent,
                text@ == spaces(i as nat),
            decreases indent - i,
        {
            text.push(' ');
            i += 1;
            assert(text@ =~= spaces(i as nat));
        }
        text.append("• ");
        spans.push(
            Span {
                content: text,
                style: Style {
                    fg: Some(Color::Cyan),
                    bg: base_style.bg,
                    bold: base_style.bold,
                    slow_blink: base_style.slow_blink,
                },
            },
        );
        let ghost head = spans_view(spans@);
        let content = &rest[2..rest.len()];
        proof {
            assert(content@ == chars@.skip(start as int).skip(2));
            assert(head =~= seq![
                SpanView {
                    content: spaces(byte_len(chars@.take(start as int))) + "• "@,
                    style: emphasis_style(base_style),
                },
            ]);
        }
        read_inline(content, base_style, &mut spans);
    } else {
        proof {
            assert(spans_view(spans@) + inline_spans(chars@, 0, Seq::empty(), base_style)
                =~= inline_spans(chars@, 0, Seq::empty(), base_style));
        }
        read_inline(all, base_style, &mut spans);
    }
    if spans.len() == 0 {
        spans.push(Span { content: String::new(), style: base_style });
        assert(spans_view(spans@) =~= seq![SpanView { content: Seq::empty(), style: base_style }]);
    }
    proof {
        lemma_first_non_space(chars@);
        assert(start == first_non_space(chars@)) by {
            if start < chars.len() {
                assert(chars@.skip(start as int)[0] == chars@[start as int]);
            }
        }
    }
    Line { spans }
}

/// A span of plain text.
pub open spec fn raw_span(text: Seq<char>) -> SpanView {
    SpanView { content: text, style: plain_style() }
}

fn span_of(text: &str, style: Style) -> (span: Span)
    ensures
        span@ == (SpanView { content: text@, style }),
{
    Span { content: text.to_owned(), style }
}

/// The height of the middle pane: room for the action and its border
/// while reviewing, at most 12 rows; room for the output while executing,
/// between 3 and 15 rows; room for the completions while a slash command
/// is typed; and 3 rows otherwise.
pub open spec fn middle_height_spec(view: AppView) -> int {
    match view.state {
        AppState::ReviewAction => {
            let lines = split_lines(buffer_text(view.action)).len() as int;
            let rows = if lines < 1 {
                3
            } else {
                lines + 2
            };
            if rows > 12 {
                12
            } else {
                rows
            }
        },
        AppState::Executing => {
            let rows = split_lines(view.execution_output).len() as int + 3;
            if rows > 15 {
                15
            } else {
                rows
            }
        },
        AppState::Input => {
            let offered = suggestions_spec(
                join_spec(buffer_lines(view.input), Seq::empty()),
            ).len() as int;
            if offered > 0 {
                offered + 5
            } else {
                3
            }
        },
        _ => 3,
    }
}

/// The height of the middle pane, as `middle_height_spec` defines it.
pub fn middle_height(app: &App) -> (rows: u16)
    ensures
        rows == middle_height_spec(app@),
{
    match app.state {
        AppState::ReviewAction => {
            let text = app.get_action_text();
            let chars = chars_of(text.as_str());
            let shown = lines_of(chars.as_slice());
            let lines = shown.len();
            assert(texts(shown@).len() == lines);
            if lines < 1 {
                3
            } else if lines > 10 {
                12
            } else {
                (lines + 2) as u16
            }
        },
        AppState::Executing => {
            let chars = chars_of(app.execution_output.as_str());
            let shown = lines_of(chars.as_slice());
            let lines = shown.len();
            assert(texts(shown@).len() == lines);
            if lines > 12 {
                15
            } else {
                (lines + 3) as u16
            }
        },
        AppState::Input => {
            let suggestions = app.get_suggestions();
            let offered = suggestions.len();
            proof {
                let all = crate::app::slash_commands_spec();
                let typed = join_spec(buffer_lines(app@.input), Seq::empty());
                assert(all.len() == 7);
                assert(pairs_view(suggestions@).len() == offered);
                if typed.len() > 0 && typed[0] == '/' {
                    all.lemma_filter_len(
                        |c: (Seq<char>, Seq<char>)| crate::text::has_prefix(c.0, typed),
                    );
                }
                assert(offered <= 7);
            }
            if offered > 0 {
                (offered + 5) as u16
            } else {
                3
            }
        },
        _ => 3,
    }
}

/// How far down the chat history is shown: with `offset` 0 its end is in
/// view; each step of `offset` shows one line more of what came before.
pub open spec fn chat_scroll_spec(total: nat, visible: nat, offset: nat) -> nat {
    if total <= visible + offset {
        0
    } else {
        (total - visible - offset) as nat
    }
}

/// The first line of the chat history that is in view, as
/// `chat_scroll_spec` defines it, up to the largest row number.
pub fn chat_scroll(total_lines: usize, visible_height: usize, scroll_offset: u16) -> (first: u16)
    ensures
        first == (if chat_scroll_spec(
            total_lines as nat,
            visible_height as nat,
            scroll_offset as nat,
        ) > u16::MAX {
            u16::MAX as nat
        } else {
            chat_scroll_spec(total_lines as nat, visible_height as nat, scroll_offset as nat)
        }),
{
    let above = if total_lines > visible_height {
        total_lines - visible_height
    } else {
        0
    };
    let first = if above > scroll_offset as usize {
        above - scroll_offset as usize
    } else {
        0
    };
    if first > u16::MAX as usize {
        u16::MAX
    } else {
        first as u16
    }
}

/// What the spinner pane says in a state.
pub open spec fn spinner_message(state: AppState) -> Seq<char> {
    match state {
        AppState::Thinking => "Thinking..."@,
        AppState::Finalizing => "Analyzing output..."@,
        _ => "Processing..."@,
    }
}

/// The text of the spinner pane: the spinner's character, a space, and
/// what is going on.
pub fn spinner_text(app: &App) -> (text: String)
    ensures
        text@ == seq![spinner_glyph(app@.spinner_frame as int % 10), ' '] + spinner_message(
            app@.state,
        ),
{
    let mut text = String::new();
    text.push(app.spinner_char());
    text.push(' ');
    assert(text@ =~= seq![spinner_glyph(app@.spinner_frame as int % 10), ' ']);
    let message = match app.state {
        AppState::Thinking => "Thinking...",
        AppState::Finalizing => "Analyzing output...",
        _ => "Processing...",
    };
    text.append(message);
    text
}

/// The text of the output pane: the output, or the spinner with
/// "Executing command..." while there is none.
pub fn execution_text(app: &App) -> (text: String)
    ensures
        text@ == (if app@.execution_output.len() == 0 {
            seq![spinner_glyph(app@.spinner_frame as int % 10)] + " Executing command..."@
        } else {
            app@.execution_output
        }),
{
    if app.execution_output.as_str().is_empty() {
        let mut text = String::new();
        text.push(app.spinner_char());
        assert(text@ =~= seq![spinner_glyph(app@.spinner_frame as int % 10)]);
        text.append(" Executing command...");
        text
    } else {
        app.execution_output.clone()
    }
}

/// The border of the review box: green normally; red and bold for a
/// dangerous action, blinking on every other frame of the spinner.
pub open spec fn command_box_style(dangerous: bool, frame: usize) -> Style {
    if dangerous {
        Style {
            fg: Some(Color::Red),
            bold: true,
            slow_blink: frame % 2 == 0,
            ..plain_style()
        }
    } else {
        Style { fg: Some(Color::Green), ..plain_style() }
    }
}

/// The title of the review box.
pub open spec fn command_box_title(dangerous: bool) -> Seq<char> {
    if dangerous {
        " ⚠ DANGEROUS COMMAND - Review Carefully! "@
    } else {
        " Command (Enter to execute, Esc to cancel) "@
    }
}

/// The title and the border of the review box, which warn of a dangerous
/// action.
pub fn command_box_look(app: &App) -> (look: (&'static str, Style))
    ensures
        look.0@ == command_box_title(app@.dangerous_command_detected),
        look.1 == command_box_style(app@.dangerous_command_detected, app@.spinner_frame),
{
    if app.dangerous_command_detected {
        let style = Style::new().fg(Color::Red).bold();
        let style = if app.spinner_frame % 2 == 0 {
            style.slow_blink()
        } else {
            style
        };
        (" ⚠ DANGEROUS COMMAND - Review Carefully! ", style)
    } else {
        (" Command (Enter to execute, Esc to cancel) ", Style::new().fg(Color::Green))
    }
}

/// What a terminal that is too small shows instead of the interface.
pub fn size_warning(width: u16, height: u16) -> (text: String)
    ensures
        text@ == "Terminal too small\nMin: 40x10\nCurrent: "@ + decimal_text(width as int) + "x"@
            + decimal_text(height as int),
{
    let mut text = String::from_str("Terminal too small\nMin: 40x10\nCurrent: ");
    let w = decimal_of(width as u128);
    text.append(w.as_str());
    text.append("x");
    let h = decimal_of(height as u128);
    text.append(h.as_str());
    text
}

/// The status bar: the state on its colour, the marks for safe mode and
/// for Python, the last error, and the keys of the state.
pub open spec fn status_spans(view: AppView) -> Seq<SpanView> {
    seq![
        SpanView {
            content: " "@ + view.state.spec_display_name() + " "@,
            style: Style {
                fg: Some(Color::Black),
                bg: Some(state_color(view.state)),
                bold: true,
                ..plain_style()
            },
        },
        raw_span(" "@),
    ] + (if view.config.safe_mode {
        seq![
            SpanView {
                content: " 🔒 SAFE "@,
                style: Style {
                    fg: Some(Color::Black),
                    bg: Some(Color::Yellow),
                    bold: true,
                    ..plain_style()
                },
            },
            raw_span(" "@),
        ]
    } else {
        Seq::empty()
    }) + (if view.python_available {
        seq![SpanView { content: " 🐍 "@, style: Style { fg: Some(Color::Green), ..plain_style() } }]
    } else {
        Seq::empty()
    }) + (match view.error_message {
        Some(error) => seq![
            SpanView {
                content: "Error: "@ + error + " "@,
                style: Style { fg: Some(Color::Red), ..plain_style() },
            },
        ],
        None => Seq::empty(),
    }) + seq![
        SpanView {
            content: keybindings_spec(view.state),
            style: Style { fg: Some(Color::DarkGray), ..plain_style() },
        },
    ]
}

/// The status bar, as `status_spans` defines it.
pub fn status_line(app: &App) -> (line: Line)
    ensures
        line@ == status_spans(app@),
{
    let mut spans: Vec<Span> = Vec::new();
    let mut name = String::from_str(" ");
    name.append(app.state.display_name());
    name.append(" ");
    spans.push(
        Span {
            content: name,
            style: Style::new().fg(Color::Black).bg(get_state_color(&app.state)).bold(),
        },
    );
    spans.push(span_of(" ", Style::new()));
    if app.config.safe_mode {
        spans.push(span_of(" 🔒 SAFE ", Style::new().fg(Color::Black).bg(Color::Yellow).bold()));
        spans.push(span_of(" ", Style::new()));
    }
    if app.python_available {
        spans.push(span_of(" 🐍 ", Style::new().fg(Color::Green)));
    }
    if let Some(error) = &app.error_message {
        let mut text = String::from_str("Error: ");
        text.append(error.as_str());
        text.append(" ");
        spans.push(Span { content: text, style: Style::new().fg(Color::Red) });
    }
    spans.push(span_of(keybindings(&app.state), Style::new().fg(Color::DarkGray)));
    let line = Line { spans };
    assert(line@ =~= status_spans(app@));
    line
}

/// The line that offers a command: the command in bold yellow, a dash,
/// and what the command does in dark gray.
pub open spec fn suggestion_spans(command: Seq<char>, what: Seq<char>) -> Seq<SpanView> {
    seq![
        SpanView {
            content: command,
            style: Style { fg: Some(Color::Yellow), bold: true, ..plain_style() },
        },
        raw_span(" - "@),
        SpanView { content: what, style: Style { fg: Some(Color::DarkGray), ..plain_style() } },
    ]
}

/// The lines that offer the commands, one per command.
pub fn suggestion_lines(offered: &Vec<(&'static str, &'static str)>) -> (lines: Vec<Line>)
    ensures
        lines_view(lines@) == pairs_view(offered@).map_values(
            |c: (Seq<char>, Seq<char>)| suggestion_spans(c.0, c.1),
        ),
{
    let mut lines: Vec<Line> = Vec::new();
    let mut i: usize = 0;
    while i < offered.len()
        invariant
            i <= offered.len(),
            lines.len() == i,
            forall|k: int|
                0 <= k < i ==> (#[trigger] lines@[k])@ == suggestion_spans(
                    offered@[k].0@,
                    offered@[k].1@,
                ),
        decreases offered.len() - i,
    {
        let mut spans: Vec<Span> = Vec::new();
        spans.push(span_of(offered[i].0, Style::new().fg(Color::Yellow).bold()));
        spans.push(span_of(" - ", Style::new()));
        spans.push(span_of(offered[i].1, Style::new().fg(Color::DarkGray)));
        let line = Line { spans };
        assert(line@ =~= suggestion_spans(offered@[i as int].0@, offered@[i as int].1@));
        lines.push(line);
        i += 1;
    }
    assert(lines_view(lines@) =~= pairs_view(offered@).map_values(
        |c: (Seq<char>, Seq<char>)| suggestion_spans(c.0, c.1),
    ));
    lines
}

/// Whether a message is the tools preamble, which the history does not
/// show.
pub open spec fn is_tools_prompt(message: MessageView) -> bool {
    message.role == MessageRole::System && find_from(message.content, "MUST use tools"@, 0)
        is Some
}

/// A text cut into pieces of `width` characters, the last one shorter
/// where the text does not divide evenly.
pub open spec fn chunks(text: Seq<char>, width: int) -> Seq<Seq<char>>
    decreases text.len(),
{
    if text.len() == 0 {
        Seq::empty()
    } else if width <= 0 || text.len() <= width {
        seq![text]
    } else {
        seq![text.take(width)] + chunks(text.skip(width), width)
    }
}

/// The pieces in which a line of a message is shown: the line, indented
/// by two spaces, as it is, or cut to the width where it is longer and
/// the width is more than 10.
pub open spec fn line_pieces(line: Seq<char>, width: int) -> Seq<Seq<char>> {
    let indented = "  "@ + line;
    if indented.len() > width && width > 10 {
        chunks(indented, width)
    } else {
        seq![indented]
    }
}

/// The spans of a piece of a message: read for emphasis where the model
/// wrote it, plain otherwise.
pub open spec fn piece_spans(piece: Seq<char>, role: MessageRole, base: Style) -> Seq<SpanView> {
    if role == MessageRole::Model {
        markdown_spans(piece, base)
    } else {
        seq![SpanView { content: piece, style: base }]
    }
}

/// The line that stands for what was left out of a long message.
pub open spec fn cut_marker() -> Seq<SpanView> {
    seq![
        SpanView {
            content: "  ... [truncated for display]"@,
            style: Style { fg: Some(Color::DarkGray), ..plain_style() },
        },
    ]
}

/// The lines for the pieces of a line.
pub open spec fn pieces_lines(pieces: Seq<Seq<char>>, role: MessageRole, base: Style) -> Seq<
    Seq<SpanView>,
> {
    Seq::new(pieces.len(), |i: int| piece_spans(pieces[i], role, base))
}

/// The lines for the text lines of a message, `count` lines having been
/// shown of it already: once 100 lines are shown, a marker stands for the
/// rest.
pub open spec fn body_lines(
    lines: Seq<Seq<char>>,
    count: int,
    role: MessageRole,
    base: Style,
    width: int,
) -> Seq<Seq<SpanView>>
    decreases lines.len(),
{
    if lines.len() == 0 {
        Seq::empty()
    } else if count >= 100 {
        seq![cut_marker()]
    } else {
        let pieces = line_pieces(lines[0], width);
        pieces_lines(pieces, role, base) + body_lines(
            lines.drop_first(),
            count + pieces.len(),
            role,
            base,
            width,
        )
    }
}

/// The style of the text of a role: its colour, not bold.
pub open spec fn role_style(role: MessageRole) -> Style {
    Style { fg: Some(role_color(role)), ..plain_style() }
}

/// The lines for a message: its heading, its text, and an empty line.
pub open spec fn message_lines(message: MessageView, width: int) -> Seq<Seq<SpanView>> {
    seq![
        seq![
            SpanView {
                content: role_heading(message.role),
                style: Style { bold: true, ..role_style(message.role) },
            },
        ],
    ] + body_lines(
        split_lines(message.content),
        0,
        message.role,
        role_style(message.role),
        width,
    ) + seq![seq![raw_span(Seq::empty())]]
}

/// The lines for a conversation, message after message, without the
/// tools preamble.
pub open spec fn conversation_lines(messages: Seq<MessageView>, width: int) -> Seq<Seq<SpanView>>
    decreases messages.len(),
{
    if messages.len() == 0 {
        Seq::empty()
    } else {
        conversation_lines(messages.drop_last(), width) + (if is_tools_prompt(messages.last()) {
            Seq::empty()
        } else {
            message_lines(messages.last(), width)
        })
    }
}

/// The lines of the chat history: the last 500 lines of the
/// conversation.
pub open spec fn history_lines(messages: Seq<MessageView>, width: int) -> Seq<Seq<SpanView>> {
    let all = conversation_lines(messages, width);
    if all.len() > 500 {
        all.skip(all.len() - 500)
    } else {
        all
    }
}

fn piece_line(piece: String, role: MessageRole, base: Style) -> (line: Line)
    ensures
        line@ == piece_spans(piece@, role, base),
{
    if role == MessageRole::Model {
        parse_markdown_line(piece.as_str(), base)
    } else {
        let mut spans: Vec<Span> = Vec::new();
        spans.push(Span { content: piece, style: base });
        let line = Line { spans };
        assert(line@ =~= piece_spans(piece@, role, base));
        line
    }
}

fn push_pieces(
    out: &mut Vec<Line>,
    text_line: &str,
    role: MessageRole,
    base: Style,
    width: usize,
) -> (count: usize)
    ensures
        count == line_pieces(text_line@, width as int).len(),
        lines_view(final(out)@) == lines_view(old(out)@) + pieces_lines(
            line_pieces(text_line@, width as int),
            role,
            base,
        ),
{
    let ghost start = lines_view(out@);
    let mut indented_text = String::from_str("  ");
    indented_text.append(text_line);
    let indented = chars_of(indented_text.as_str());
    proof {
        reveal_strlit("  ");
        assert(indented@.len() >= 2);
    }
    if indented.len() > width && width > 10 {
        let ghost all = chunks(indented@, width as int);
        let ghost mut done: Seq<Seq<char>> = Seq::empty();
        let mut pos: usize = 0;
        let mut count: usize = 0;
        proof {
            assert(indented@.skip(0) == indented@);
            assert(all =~= done + chunks(indented@.skip(0), width as int));
            assert(lines_view(out@) =~= start + pieces_lines(done, role, base));
        }
        while pos < indented.len()
            invariant
                pos <= indented.len(),
                width > 10,
                count <= pos,
                done.len() == count,
                all == done + chunks(indented@.skip(pos as int), width as int),
                lines_view(out@) == start + pieces_lines(done, role, base),
            decreases indented.len() - pos,
        {
            let end = if indented.len() - pos > width {
                pos + width
            } else {
                indented.len()
            };
            let piece = string_of_range(indented.as_slice(), pos, end);
            let ghost shown = piece@;
            let ghost before = lines_view(out@);
            out.push(piece_line(piece, role, base));
            proof {
                let rest = indented@.skip(pos as int);
                if rest.len() <= width {
                    assert(shown == rest);
                    assert(indented@.skip(end as int) == Seq::<char>::empty());
                    assert(chunks(rest, width as int) == seq![rest]);
                    assert(chunks(indented@.skip(end as int), width as int) == Seq::<
                        Seq<char>,
                    >::empty());
                } else {
                    assert(shown == rest.take(width as int));
                    assert(rest.skip(width as int) == indented@.skip(end as int));
                }
                let next = done.push(shown);
                assert(all =~= next + chunks(indented@.skip(end as int), width as int));
                assert(lines_view(out@) =~= before.push(piece_spans(shown, role, base)));
                assert(pieces_lines(next, role, base) =~= pieces_lines(done, role, base).push(
                    piece_spans(shown, role, base),
                ));
                assert(lines_view(out@) =~= start + pieces_lines(next, role, base));
                done = next;
            }
            pos = end;
            count += 1;
        }
        proof {
            assert(indented@.skip(pos as int) == Seq::<char>::empty());
            assert(all =~= done);
        }
        count
    } else {
        let ghost before = lines_view(out@);
        out.push(piece_line(indented_text, role, base));
        proof {
            let pieces = seq![indented@];
            assert(lines_view(out@) =~= before + pieces_lines(pieces, role, base));
        }
        1
    }
}

fn push_message(out: &mut Vec<Line>, message: &Message, width: usize)
    ensures
        lines_view(final(out)@) == lines_view(old(out)@) + message_lines(message@, width as int),
{
    let ghost start = lines_view(out@);
    let (heading, style) = get_message_style(&message.role);
    let base = style.not_bold();
    let mut spans: Vec<Span> = Vec::new();
    spans.push(span_of(heading, style));
    let head = Line { spans };
    let ghost head_view = head@;
    out.push(head);
    let chars = chars_of(message.content.as_str());
    let text_lines = lines_of(chars.as_slice());
    let ghost all = texts(text_lines@);
    let ghost body = body_lines(all, 0, message.role, base, width as int);
    let mut count: usize = 0;
    let mut i: usize = 0;
    let mut cut = false;
    proof {
        assert(all.skip(0) == all);
        assert(lines_view(out@) =~= start + seq![head_view]);
        assert(start + seq![head_view] + body =~= lines_view(out@) + body);
    }
    while i < text_lines.len() && !cut
        invariant
            i <= text_lines.len(),
            all == texts(text_lines@),
            all == split_lines(message@.content),
            !cut ==> start + seq![head_view] + body == lines_view(out@) + body_lines(
                all.skip(i as int),
                count as int,
                message.role,
                base,
                width as int,
            ),
            cut ==> start + seq![head_view] + body == lines_view(out@),
        decreases text_lines.len() - i + (if cut { 0int } else { 1int }),
    {
        let ghost before = lines_view(out@);
        proof {
            assert(all.skip(i as int)[0] == text_lines@[i as int]@);
            assert(all.skip(i as int).drop_first() == all.skip(i + 1));
        }
        if count >= 100 {
            let mut marker: Vec<Span> = Vec::new();
            marker.push(span_of("  ... [truncated for display]", Style::new().fg(Color::DarkGray)));
            let line = Line { spans: marker };
            assert(line@ =~= cut_marker());
            out.push(line);
            proof {
                assert(lines_view(out@) =~= before + seq![cut_marker()]);
            }
            cut = true;
        } else {
            let added = push_pieces(out, text_lines[i].as_str(), message.role, base, width);
            proof {
                let pieces = line_pieces(all.skip(i as int)[0], width as int);
                let rest = body_lines(
                    all.skip(i + 1),
                    count + pieces.len(),
                    message.role,
                    base,
                    width as int,
                );
                assert(before + (pieces_lines(pieces, message.role, base) + rest) =~= before
                    + pieces_lines(pieces, message.role, base) + rest);
            }
            count = if added > usize::MAX - count {
                usize::MAX
            } else {
                count + added
            };
            i += 1;
        }
    }
    let ghost shown = lines_view(out@);
    let mut blank: Vec<Span> = Vec::new();
    blank.push(span_of("", Style::new()));
    let last = Line { spans: blank };
    proof {
        reveal_strlit("");
        assert(""@ =~= Seq::<char>::empty());
        assert(last@ =~= seq![raw_span(Seq::empty())]);
        assert(base == role_style(message.role));
        if !cut {
            assert(all.skip(text_lines.len() as int) == Seq::<Seq<char>>::empty());
        }
        assert(shown =~= start + seq![head_view] + body);
    }
    out.push(last);
    proof {
        let blank_line = seq![seq![raw_span(Seq::empty())]];
        assert(lines_view(out@) =~= shown + blank_line);
        assert(head_view =~= seq![
            SpanView {
                content: role_heading(message.role),
                style: Style { bold: true, ..role_style(message.role) },
            },
        ]);
        assert(body == body_lines(
            split_lines(message@.content),
            0,
            message.role,
            role_style(message.role),
            width as int,
        ));
        assert(start + (seq![head_view] + body + blank_line) =~= start + seq![head_view] + body
            + blank_line);
    }
}

fn hides(message: &Message) -> (hidden: bool)
    ensures
        hidden == is_tools_prompt(message@),
{
    if message.role != MessageRole::System {
        return false;
    }
    let content = chars_of(message.content.as_str());
    let needle = chars_of("MUST use tools");
    find_chars(content.as_slice(), needle.as_slice(), 0).is_some()
}

/// The lines of the chat history for a pane that is `content_width`
/// characters wide, as `history_lines` defines them.
pub fn chat_history_lines(messages: &Vec<Message>, content_width: usize) -> (lines: Vec<Line>)
    ensures
        lines_view(lines@) == history_lines(conversation(messages@), content_width as int),
{
    let ghost all = conversation(messages@);
    let mut shown: Vec<Line> = Vec::new();
    let mut i: usize = 0;
    proof {
        assert(all.take(0) == Seq::<MessageView>::empty());
        assert(lines_view(shown@) =~= conversation_lines(all.take(0), content_width as int));
    }
    while i < messages.len()
        invariant
            i <= messages.len(),
            all == conversation(messages@),
            lines_view(shown@) == conversation_lines(all.take(i as int), content_width as int),
        decreases messages.len() - i,
    {
        proof {
            assert(all.take(i + 1).drop_last() == all.take(i as int));
            assert(all.take(i + 1).last() == messages@[i as int]@);
        }
        if !hides(&messages[i]) {
            push_message(&mut shown, &messages[i], content_width);
        } else {
            assert(lines_view(shown@) + Seq::<Seq<SpanView>>::empty() =~= lines_view(shown@));
        }
        i += 1;
    }
    proof {
        assert(all.take(messages.len() as int) == all);
    }
    if shown.len() > 500 {
        let skip = shown.len() - 500;
        let ghost whole = lines_view(shown@);
        let kept = shown.split_off(skip);
        proof {
            assert(lines_view(kept@) =~= whole.skip(skip as int));
        }
        kept
    } else {
        shown
    }
}

/// What the input box shows while nothing is typed.
pub open spec fn input_placeholder() -> Seq<SpanView> {
    seq![
        SpanView {
            content: "Type your query here..."@,
            style: Style { fg: Some(Color::DarkGray), ..plain_style() },
        },
    ]
}

/// The lines of an edit buffer, as plain text.
pub open spec fn plain_lines(lines: Seq<Seq<char>>) -> Seq<Seq<SpanView>> {
    Seq::new(lines.len(), |i: int| seq![raw_span(lines[i])])
}

fn lines_for(texts_of_lines: Vec<String>) -> (lines: Vec<Line>)
    ensures
        lines_view(lines@) == plain_lines(texts(texts_of_lines@)),
{
    let mut lines: Vec<Line> = Vec::new();
    let mut i: usize = 0;
    while i < texts_of_lines.len()
        invariant
            i <= texts_of_lines.len(),
            lines.len() == i,
            forall|k: int|
                0 <= k < i ==> (#[trigger] lines@[k])@ == seq![raw_span(texts_of_lines@[k]@)],
        decreases texts_of_lines.len() - i,
    {
        let mut spans: Vec<Span> = Vec::new();
        spans.push(span_of(texts_of_lines[i].as_str(), Style::new()));
        let line = Line { spans };
        assert(line@ =~= seq![raw_span(texts_of_lines@[i as int]@)]);
        lines.push(line);
        i += 1;
    }
    assert(lines_view(lines@) =~= plain_lines(texts(texts_of_lines@)));
    lines
}

/// The lines of the input box: what is typed, or a hint in dark gray
/// while the buffer holds one empty line.
pub fn input_box_lines(app: &App) -> (lines: Vec<Line>)
    ensures
        lines_view(lines@) == (if buffer_lines(app@.input) == seq![Seq::<char>::empty()] {
            seq![input_placeholder()]
        } else {
            plain_lines(buffer_lines(app@.input))
        }),
{
    let typed = app.input_textarea.lines();
    let blank = typed.len() == 1 && typed[0].as_str().is_empty();
    proof {
        assert(texts(typed@).len() == typed.len());
        if typed.len() == 1 {
            assert(texts(typed@)[0] == typed@[0]@);
            if blank {
                assert(typed@[0]@ =~= Seq::<char>::empty());
                assert(texts(typed@) =~= seq![Seq::<char>::empty()]);
            } else {
                assert(seq![Seq::<char>::empty()][0].len() == 0);
            }
        }
    }
    if blank {
        let mut spans: Vec<Span> = Vec::new();
        spans.push(span_of("Type your query here...", Style::new().fg(Color::DarkGray)));
        let line = Line { spans };
        assert(line@ =~= input_placeholder());
        let mut lines: Vec<Line> = Vec::new();
        lines.push(line);
        assert(lines_view(lines@) =~= seq![input_placeholder()]);
        lines
    } else {
        lines_for(typed)
    }
}

/// The lines of the review box: the action as the buffer holds it.
pub fn action_box_lines(app: &App) -> (lines: Vec<Line>)
    ensures
        lines_view(lines@) == plain_lines(buffer_lines(app@.action)),
{
    lines_for(app.action_textarea.lines())
}

} // verus!
