//! The edit buffers: a `tui_textarea::TextArea` each, and what the agent
//! relies on of that widget. A buffer is known by what made it: the text
//! that was loaded into it and the keys that it was handed since. The
//! contracts of the functions marked as taken on trust say what is
//! believed of the widget; the rest is proved from them. What the keys
//! that change text make of a buffer is long to say and has a name here;
//! what any other key does is said in full.

use vstd::prelude::*;
use crate::key::{KeyCode, KeyEvent};
use crate::text::{
    chars_of, free_of, index_of, join, join_spec, lemma_index_of_after, lemma_join_front,
    lemma_lines_free_of_newline, lines_of, split_lines, strip_cr, texts, trim, trim_spec,
};

verus! {

/// A multi-line edit buffer, kept by the editor widget. The widget is
/// private to the buffer: it is made empty, a text is typed into it at
/// most once, before any key, and after that it is handed keys only. It is
/// never drawn, so no screen size reaches it.
#[verifier::external_body]
pub struct EditBuffer {
    area: tui_textarea::TextArea<'static>,
}

/// A name for the text that was typed into a buffer when it was made;
/// empty for a buffer that was made empty.
pub uninterp spec fn buffer_loaded(buffer: EditBuffer) -> Seq<char>;

/// A name for the keys that a buffer was handed since it was made, in
/// order.
pub uninterp spec fn buffer_keys(buffer: EditBuffer) -> Seq<KeyEvent>;

/// A name for the lines that the widget holds after `loaded` was typed into
/// an empty widget and `keys` were handed to it one after the other, with
/// its default key bindings: a character is typed in, or stands for a
/// command where control or alt is held; Enter breaks the line; Tab
/// indents; Backspace and Delete take text away; the other keys move the
/// cursor or do nothing.
pub uninterp spec fn lines_after_keys(loaded: Seq<char>, keys: Seq<KeyEvent>) -> Seq<Seq<char>>;

/// A name for what the widget reports of the last of `keys`, handed to it
/// after `loaded` was typed into an empty widget and the keys before the
/// last were handed to it: whether it took the key for a change of the
/// text.
pub uninterp spec fn change_reported(loaded: Seq<char>, keys: Seq<KeyEvent>) -> bool;

/// A buffer as plain values: what was loaded into it, and the keys since.
pub struct BufferView {
    pub loaded: Seq<char>,
    pub keys: Seq<KeyEvent>,
}

impl View for EditBuffer {
    type V = BufferView;

    open spec fn view(&self) -> BufferView {
        BufferView { loaded: buffer_loaded(*self), keys: buffer_keys(*self) }
    }
}

/// The lines of text that a buffer holds, in order.
pub open spec fn buffer_lines(buffer: BufferView) -> Seq<Seq<char>> {
    lines_after_keys(buffer.loaded, buffer.keys)
}

/// The text of a buffer as the agent reads it: its lines joined by line
/// feeds, without leading and trailing whitespace.
pub open spec fn buffer_text(buffer: BufferView) -> Seq<char> {
    trim_spec(join_spec(buffer_lines(buffer), "\n"@))
}

/// A buffer into which nothing was loaded and that was handed no key.
pub open spec fn blank_buffer() -> BufferView {
    BufferView { loaded: Seq::empty(), keys: Seq::empty() }
}

/// A buffer into which the lines of `text` were loaded, joined by line
/// feeds, and that was handed no key.
pub open spec fn loaded_buffer(text: Seq<char>) -> BufferView {
    BufferView { loaded: join_spec(split_lines(text), "\n"@), keys: Seq::empty() }
}

/// What the widget reported of the last key of a buffer.
pub open spec fn last_report(buffer: BufferView) -> bool {
    change_reported(buffer.loaded, buffer.keys)
}

/// A buffer after one more key.
pub open spec fn pressed(buffer: BufferView, key: KeyEvent) -> BufferView {
    BufferView { keys: buffer.keys.push(key), ..buffer }
}

/// Whether a buffer is new and holds one empty line.
pub open spec fn is_cleared(buffer: BufferView) -> bool {
    buffer == blank_buffer() && buffer_lines(buffer) == seq![Seq::<char>::empty()]
}

/// Whether a buffer was made with `text` and holds its lines.
pub open spec fn holds_text(buffer: BufferView, text: Seq<char>) -> bool {
    buffer == loaded_buffer(text) && buffer_lines(buffer) == loaded_lines(text)
}

/// The lines that typing `text` into an empty buffer gives: the text cut
/// at every line feed, each piece without one trailing carriage return.
pub open spec fn typed_lines(text: Seq<char>) -> Seq<Seq<char>>
    decreases text.len(),
{
    let i = index_of(text, '\n');
    if i < 0 || i >= text.len() {
        seq![strip_cr(text)]
    } else {
        seq![strip_cr(text.take(i))] + typed_lines(text.skip(i + 1))
    }
}

/// The lines that a buffer holds after `text` was loaded into it: the
/// lines of the text, as typed in one after the other.
pub open spec fn loaded_lines(text: Seq<char>) -> Seq<Seq<char>> {
    typed_lines(join_spec(split_lines(text), "\n"@))
}

/// `TextArea::default`: a widget that holds one empty line. Nothing was
/// loaded into it and it was handed no key.
#[verifier::external_body]
fn fresh_buffer() -> (buffer: EditBuffer)
    ensures
        buffer_loaded(buffer) == Seq::<char>::empty(),
        buffer_keys(buffer) == Seq::<KeyEvent>::empty(),
        lines_after_keys(buffer_loaded(buffer), buffer_keys(buffer)) == seq![Seq::<char>::empty()],
{
    EditBuffer { area: tui_textarea::TextArea::default() }
}

/// `TextArea::insert_str` on a widget as `TextArea::default` made it: the
/// text counts as loaded, and the widget then holds the lines of
/// `typed_lines`. An empty text leaves the widget as it was made.
#[verifier::external_body]
fn insert_text(buffer: &mut EditBuffer, text: &str)
    requires
        buffer_loaded(*old(buffer)) == Seq::<char>::empty(),
        buffer_keys(*old(buffer)) == Seq::<KeyEvent>::empty(),
    ensures
        buffer_loaded(*final(buffer)) == text@,
        buffer_keys(*final(buffer)) == Seq::<KeyEvent>::empty(),
        lines_after_keys(buffer_loaded(*final(buffer)), buffer_keys(*final(buffer))) == typed_lines(
            text@,
        ),
{
    buffer.area.insert_str(text);
}

/// `TextArea::lines`: the lines that the widget holds, which are those
/// that the text loaded into it and the keys since have made.
#[verifier::external_body]
fn content(buffer: &EditBuffer) -> (lines: Vec<String>)
    ensures
        texts(lines@) == lines_after_keys(buffer_loaded(*buffer), buffer_keys(*buffer)),
{
    buffer.area.lines().to_vec()
}

/// `TextArea::input` for a key that does not move the cursor: the key is
/// one more that the widget was handed, and the result is the widget's
/// report of it. Escape, the function keys and the null key are bound to
/// nothing: the lines stay as they are and the widget reports no change.
/// Of a key that changes text nothing more is said here: what the widget
/// reports for it is not tied to the lines.
#[verifier::external_body]
fn input_key(buffer: &mut EditBuffer, key: KeyEvent) -> (modified: bool)
    requires
        !key.code.moves_cursor(),
    ensures
        buffer_loaded(*final(buffer)) == buffer_loaded(*old(buffer)),
        buffer_keys(*final(buffer)) == buffer_keys(*old(buffer)).push(key),
        !key.code.edits_text() ==> lines_after_keys(
            buffer_loaded(*final(buffer)),
            buffer_keys(*final(buffer)),
        ) == lines_after_keys(buffer_loaded(*old(buffer)), buffer_keys(*old(buffer))),
        modified == change_reported(buffer_loaded(*final(buffer)), buffer_keys(*final(buffer))),
        !key.code.edits_text() ==> !modified,
{
    let widget_key = match key.code {
        KeyCode::Char(c) => tui_textarea::Key::Char(c),
        KeyCode::F(n) => tui_textarea::Key::F(n),
        KeyCode::Backspace => tui_textarea::Key::Backspace,
        KeyCode::Enter => tui_textarea::Key::Enter,
        KeyCode::Tab => tui_textarea::Key::Tab,
        KeyCode::Delete => tui_textarea::Key::Delete,
        KeyCode::Esc => tui_textarea::Key::Esc,
        _ => tui_textarea::Key::Null,
    };
    let held = key.modifiers;
    buffer.area.input(tui_textarea::Input { key: widget_key, ctrl: held.ctrl, alt: held.alt, shift: held.shift })
}

impl EditBuffer {
    /// A buffer that holds one empty line.
    pub fn new() -> (buffer: Self)
        ensures
            is_cleared(buffer@),
    {
        fresh_buffer()
    }

    /// A buffer that holds the lines of `text`.
    pub fn with_text(text: &str) -> (buffer: Self)
        ensures
            holds_text(buffer@, text@),
    {
        let chars = chars_of(text);
        let lines = lines_of(chars.as_slice());
        let joined = join(&lines, "\n");
        let mut buffer = fresh_buffer();
        insert_text(&mut buffer, joined.as_str());
        buffer
    }

    /// The lines that the buffer holds.
    pub fn lines(&self) -> (lines: Vec<String>)
        ensures
            texts(lines@) == buffer_lines(self@),
    {
        content(self)
    }

    /// The text of the buffer, trimmed.
    pub fn text(&self) -> (text: String)
        ensures
            text@ == buffer_text(self@),
    {
        let lines = content(self);
        let joined = join(&lines, "\n");
        trim(joined.as_str())
    }

    /// Hands a key press to the widget, which handles it as its key
    /// bindings say. The key is one more that the buffer was handed, so
    /// the buffer then holds the lines that its loaded text and its keys,
    /// this one included, make. A key that does not change text (an
    /// arrow, Home, End, a page key, Escape, a function key, the null key)
    /// leaves the lines as they are, and is reported as no change. The
    /// result is the widget's own report of the key.
    pub fn input(&mut self, key: KeyEvent) -> (modified: bool)
        ensures
            final(self)@ == pressed(old(self)@, key),
            modified == last_report(final(self)@),
            !key.code.edits_text() ==> buffer_lines(final(self)@) == buffer_lines(old(self)@),
            !key.code.edits_text() ==> !modified,
    {
        if key.code.is_movement() {
            input_cursor_key(self, key)
        } else {
            input_key(self, key)
        }
    }
}

/// `TextArea::input` for a key that moves the cursor: the key is one more
/// that the widget was handed, and the result is the widget's report of
/// it. With any modifiers, the arrows, Home, End and the page keys move
/// the cursor, the selection or the view; the lines stay as they are and
/// the widget reports no change.
#[verifier::external_body]
fn input_cursor_key(buffer: &mut EditBuffer, key: KeyEvent) -> (modified: bool)
    requires
        key.code.moves_cursor(),
    ensures
        buffer_loaded(*final(buffer)) == buffer_loaded(*old(buffer)),
        buffer_keys(*final(buffer)) == buffer_keys(*old(buffer)).push(key),
        lines_after_keys(buffer_loaded(*final(buffer)), buffer_keys(*final(buffer)))
            == lines_after_keys(buffer_loaded(*old(buffer)), buffer_keys(*old(buffer))),
        modified == change_reported(buffer_loaded(*final(buffer)), buffer_keys(*final(buffer))),
        !modified,
{
    let widget_key = match key.code {
        KeyCode::Left => tui_textarea::Key::Left,
        KeyCode::Right => tui_textarea::Key::Right,
        KeyCode::Up => tui_textarea::Key::Up,
        KeyCode::Down => tui_textarea::Key::Down,
        KeyCode::Home => tui_textarea::Key::Home,
        KeyCode::End => tui_textarea::Key::End,
        KeyCode::PageUp => tui_textarea::Key::PageUp,
        KeyCode::PageDown => tui_textarea::Key::PageDown,
        _ => tui_textarea::Key::Null,
    };
    let held = key.modifiers;
    buffer.area.input(tui_textarea::Input { key: widget_key, ctrl: held.ctrl, alt: held.alt, shift: held.shift })
}

/// Typing in parts that hold no line feed, joined by line feeds, gives
/// one line per part: the part without one trailing carriage return.
pub proof fn lemma_typed_join(parts: Seq<Seq<char>>)
    requires
        parts.len() > 0,
        forall|k: int| 0 <= k < parts.len() ==> free_of(#[trigger] parts[k], '\n'),
    ensures
        typed_lines(join_spec(parts, "\n"@)) == parts.map_values(|p: Seq<char>| strip_cr(p)),
    decreases parts.len(),
{
    reveal_strlit("\n");
    let sep = "\n"@;
    assert(sep == seq!['\n']);
    let first = parts[0];
    let stripped = |p: Seq<char>| strip_cr(p);
    assert(free_of(first, '\n'));
    if parts.len() == 1 {
        lemma_index_of_after(first, '\n', Seq::empty());
        assert(typed_lines(first) =~= parts.map_values(stripped));
    } else {
        let rest = parts.drop_first();
        assert(parts =~= seq![first] + rest);
        lemma_join_front(first, rest, sep);
        let tail = join_spec(rest, sep);
        let joined = first + sep + tail;
        lemma_index_of_after(first, '\n', tail);
        assert(joined.take(first.len() as int) =~= first);
        assert(joined.skip(first.len() as int + 1) =~= tail);
        assert forall|k: int| 0 <= k < rest.len() implies free_of(#[trigger] rest[k], '\n') by {
            assert(rest[k] == parts[k + 1]);
        }
        lemma_typed_join(rest);
        assert(seq![strip_cr(first)] + rest.map_values(stripped) =~= parts.map_values(stripped));
    }
}

/// A buffer into which a text was loaded holds the lines of the text,
/// each without one trailing carriage return; and one empty line where
/// the text has no line.
pub proof fn lemma_loaded_lines(text: Seq<char>)
    ensures
        loaded_lines(text) == (if split_lines(text).len() == 0 {
            seq![Seq::<char>::empty()]
        } else {
            split_lines(text).map_values(|p: Seq<char>| strip_cr(p))
        }),
{
    let lines = split_lines(text);
    if lines.len() == 0 {
        assert(join_spec(lines, "\n"@) =~= Seq::<char>::empty());
        assert(typed_lines(Seq::<char>::empty()) =~= seq![Seq::<char>::empty()]);
    } else {
        lemma_lines_free_of_newline(text);
        lemma_typed_join(lines);
    }
}

} // verus!
