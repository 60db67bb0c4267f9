//! The editable text box, backed by a `tui_textarea::TextArea`.
use tui_textarea::{CursorMove, Input, Key, TextArea};
use vstd::prelude::*;

use crate::text::{content_lines, joined, join_lines, split_content, strings_view, textwrap_lines, textwrap_rows};

verus! {

/// A `tui_textarea::TextArea`, held whole and opaque to proofs: what it
/// holds is read through `textarea_lines`, `textarea_cursor` and
/// `textarea_selecting`.  The field is there for drawing.
#[verifier::external_body]
pub struct TextBuffer {
    pub ta: TextArea<'static>,
}

/// The lines of text that a text area holds.
pub uninterp spec fn textarea_lines(ta: TextBuffer) -> Seq<Seq<char>>;

/// Where a text area's cursor is: its row and its column in characters.
pub uninterp spec fn textarea_cursor(ta: TextBuffer) -> (usize, usize);

/// The lines a text area made from `lines` holds: `TextArea::new` keeps them,
/// and puts one empty line in place of none.
pub open spec fn new_textarea_lines(lines: Seq<Seq<char>>) -> Seq<Seq<char>> {
    if lines.len() == 0 {
        seq![Seq::empty()]
    } else {
        lines
    }
}

/// Calls `TextArea::new(lines)`.  Its source keeps the lines as they are,
/// pushing one empty line when there are none, and puts the cursor at the
/// start of the first line.
#[verifier::external_body]
pub(crate) fn textarea_new(lines: Vec<String>) -> (r: TextBuffer)
    ensures
        textarea_lines(r) == new_textarea_lines(strings_view(lines@)),
        textarea_cursor(r) == (0usize, 0usize),
        !textarea_selecting(r),
{
    TextBuffer { ta: TextArea::new(lines) }
}

/// Calls `TextArea::lines` and copies the lines out.
#[verifier::external_body]
fn textarea_text(ta: &TextBuffer) -> (r: Vec<String>)
    ensures
        strings_view(r@) == textarea_lines(*ta),
{
    ta.ta.lines().to_vec()
}

/// A cursor key.
#[derive(Debug, Clone, Copy, PartialEq, Eq, Structural)]
pub enum MoveKey {
    Left,
    Right,
    Up,
    Down,
    Home,
    End,
    PageUp,
    PageDown,
}

/// A key, as a terminal's key event can bring it to a text area.
#[derive(Debug, Clone, Copy, PartialEq, Eq, Structural)]
pub enum KeyCode {
    Char(char),
    F(u8),
    Move(MoveKey),
    Backspace,
    Enter,
    Tab,
    Delete,
    Esc,
    /// A key the text area has no name for.
    Null,
}

/// A key together with its modifiers.
#[derive(Debug, Clone, Copy, PartialEq, Eq, Structural)]
pub struct KeyStroke {
    pub key: KeyCode,
    pub ctrl: bool,
    pub alt: bool,
    pub shift: bool,
}

/// A key press for a text area: a typed character and Enter are told apart,
/// any other key is handed over as it is.
#[derive(Debug, Clone, Copy, PartialEq, Eq, Structural)]
pub enum KeyInput {
    /// A character typed without Ctrl or Alt; `'\n'` and `'\r'` break the line.
    Typed(char),
    /// The Enter key.
    Enter,
    /// Any other key.
    Other(KeyStroke),
}

/// A key with no modifier.
pub open spec fn bare(key: KeyCode) -> KeyStroke {
    KeyStroke { key, ctrl: false, alt: false, shift: false }
}

/// The key stroke a key press stands for.
pub open spec fn stroke_of(k: KeyInput) -> KeyStroke {
    match k {
        KeyInput::Typed(c) => bare(KeyCode::Char(c)),
        KeyInput::Enter => bare(KeyCode::Enter),
        KeyInput::Other(s) => s,
    }
}

impl KeyInput {
    /// The key stroke this key press stands for.
    pub fn stroke(&self) -> (r: KeyStroke)
        ensures
            r == stroke_of(*self),
    {
        match self {
            KeyInput::Typed(c) => KeyStroke { key: KeyCode::Char(*c), ctrl: false, alt: false, shift: false },
            KeyInput::Enter => KeyStroke { key: KeyCode::Enter, ctrl: false, alt: false, shift: false },
            KeyInput::Other(s) => *s,
        }
    }
}

/// What editing in a text area depends on: its lines, its cursor (row, and
/// column in characters) and whether a selection is under way.
pub struct TextState {
    pub lines: Seq<Seq<char>>,
    pub cursor: (usize, usize),
    pub selecting: bool,
}

/// Whether a text area has a selection under way (`TextArea::is_selecting`).
pub uninterp spec fn textarea_selecting(ta: TextBuffer) -> bool;

/// What `TextArea::input` does with a key: whether it reports an edit, and
/// the lines it leaves.
pub uninterp spec fn textarea_keyed(ta: TextBuffer, key: KeyStroke) -> (bool, Seq<Seq<char>>);

/// The editing state of a text area.
pub open spec fn textarea_state(ta: TextBuffer) -> TextState {
    TextState { lines: textarea_lines(ta), cursor: textarea_cursor(ta), selecting: textarea_selecting(ta) }
}

/// The cursor is on a line and not past its end.
pub open spec fn cursor_on_text(lines: Seq<Seq<char>>, cursor: (usize, usize)) -> bool {
    cursor.0 < lines.len() && cursor.1 <= lines[cursor.0 as int].len()
}

/// `lines` with `c` put in at the cursor.
pub open spec fn with_char(lines: Seq<Seq<char>>, cursor: (usize, usize), c: char) -> Seq<Seq<char>> {
    let line = lines[cursor.0 as int];
    lines.update(
        cursor.0 as int,
        line.subrange(0, cursor.1 as int).push(c) + line.subrange(cursor.1 as int, line.len() as int),
    )
}

/// `lines` with the cursor's line split in two at the cursor.
pub open spec fn broken_at(lines: Seq<Seq<char>>, cursor: (usize, usize)) -> Seq<Seq<char>> {
    let row = cursor.0 as int;
    let line = lines[row];
    lines.subrange(0, row).push(line.subrange(0, cursor.1 as int)).push(line.subrange(cursor.1 as int, line.len() as int))
        + lines.subrange(row + 1, lines.len() as int)
}

/// Whether a text area takes the key as a line break: Enter, Ctrl+M, or a
/// `'\n'` or `'\r'` character without Ctrl or Alt.
pub open spec fn breaks_line(k: KeyStroke) -> bool {
    ||| k.key == KeyCode::Enter
    ||| !k.ctrl && !k.alt && (k.key == KeyCode::Char('\n') || k.key == KeyCode::Char('\r'))
    ||| k.ctrl && !k.alt && k.key == KeyCode::Char('m')
}

/// Whether a text area takes the key as a character to put in.
pub open spec fn types_char(k: KeyStroke) -> bool {
    !breaks_line(k) && k.key is Char && !k.ctrl && !k.alt
}

/// What a key stroke is known to do to a text area that goes from `before`
/// to `after` and reports `modified`.  A line break or a typed character is
/// an edit and ends any selection; when no selection was under way and the
/// cursor was on the text, a line break splits the cursor's line at the
/// cursor and moves the cursor to the start of the new line, and a typed
/// character goes in at the cursor, which moves one column right.  Of other
/// keys nothing is known here beyond `textarea_keyed`.
pub open spec fn key_effect(k: KeyStroke, before: TextState, modified: bool, after: TextState) -> bool {
    let plain = !before.selecting && cursor_on_text(before.lines, before.cursor);
    if breaks_line(k) {
        &&& modified
        &&& !after.selecting
        &&& plain ==> after.lines == broken_at(before.lines, before.cursor) && after.cursor.0 == before.cursor.0 + 1
            && after.cursor.1 == 0
    } else if types_char(k) {
        &&& modified
        &&& !after.selecting
        &&& plain ==> after.lines == with_char(before.lines, before.cursor, k.key->Char_0) && after.cursor.0
            == before.cursor.0 && after.cursor.1 == before.cursor.1 + 1
    } else {
        true
    }
}

#[verifier::external_type_specification]
#[verifier::external_body]
pub struct ExKey(Key);

/// Writes a cursor key as the text area's `Key`, variant for variant.
#[verifier::external_body]
fn move_key(k: MoveKey) -> Key {
    match k {
        MoveKey::Left => Key::Left,
        MoveKey::Right => Key::Right,
        MoveKey::Up => Key::Up,
        MoveKey::Down => Key::Down,
        MoveKey::Home => Key::Home,
        MoveKey::End => Key::End,
        MoveKey::PageUp => Key::PageUp,
        MoveKey::PageDown => Key::PageDown,
    }
}

/// Calls `TextArea::input` with the key written as the text area's `Input`,
/// variant for variant.  Its result and the lines it leaves are named by
/// `textarea_keyed`.  Its source (`input`, `insert_newline`,
/// `insert_char`) takes Enter, Ctrl+M, `'\n'` and `'\r'` as a line break
/// and another character without Ctrl or Alt as that character: either way
/// it deletes the selection (and ends it), reports an edit, and, with no
/// selection under way, splits the line or puts the character in at the
/// cursor, moving the cursor as `key_effect` says.  Where the text and the
/// cursor go when a selection was under way, and where the cursor goes for
/// other keys, is left unsaid.
#[verifier::external_body]
fn textarea_input(ta: &mut TextBuffer, k: KeyStroke) -> (r: bool)
    ensures
        (r, textarea_lines(*final(ta))) == textarea_keyed(*old(ta), k),
        key_effect(k, textarea_state(*old(ta)), r, textarea_state(*final(ta))),
{
    let key = match k.key {
        KeyCode::Char(c) => Key::Char(c),
        KeyCode::F(n) => Key::F(n),
        KeyCode::Move(m) => move_key(m),
        KeyCode::Backspace => Key::Backspace,
        KeyCode::Enter => Key::Enter,
        KeyCode::Tab => Key::Tab,
        KeyCode::Delete => Key::Delete,
        KeyCode::Esc => Key::Esc,
        KeyCode::Null => Key::Null,
    };
    ta.ta.input(Input { key, ctrl: k.ctrl, alt: k.alt, shift: k.shift })
}

/// Where the cursor is sent.
pub enum CursorTarget {
    Bottom,
    End,
}

/// Calls `TextArea::move_cursor` with `CursorMove::Bottom` or
/// `CursorMove::End`.  Its source moves the cursor (extending a selection if
/// there is one) and leaves the lines as they are: `Bottom` goes to the last
/// line (the column kept as far as that line allows), `End` to the end of
/// the cursor's line.
#[verifier::external_body]
fn textarea_move_cursor(ta: &mut TextBuffer, to: CursorTarget)
    ensures
        textarea_lines(*final(ta)) == textarea_lines(*old(ta)),
        !textarea_selecting(*old(ta)) ==> !textarea_selecting(*final(ta)),
        to is Bottom ==> textarea_cursor(*final(ta)).0 + 1 == textarea_lines(*final(ta)).len(),
        to is End ==> textarea_cursor(*final(ta)) == (
            textarea_cursor(*old(ta)).0,
            textarea_lines(*old(ta))[textarea_cursor(*old(ta)).0 as int].len() as usize,
        ),
{
    match to {
        CursorTarget::Bottom => ta.ta.move_cursor(CursorMove::Bottom),
        CursorTarget::End => ta.ta.move_cursor(CursorMove::End),
    }
}


/// state-tracked
pub struct InputBox {
    ta: TextBuffer,
}

impl View for InputBox {
    type V = Seq<Seq<char>>;

    closed spec fn view(&self) -> Seq<Seq<char>> {
        textarea_lines(self.ta)
    }
}

impl InputBox {
    /// Where the cursor is: its row and its column in characters.
    pub closed spec fn cursor(&self) -> (usize, usize) {
        textarea_cursor(self.ta)
    }

    /// Whether a selection is under way.
    pub closed spec fn selecting(&self) -> bool {
        textarea_selecting(self.ta)
    }

    /// What handing `key` to the box gives: whether it reports an edit, and
    /// the lines it leaves.
    pub closed spec fn keyed(&self, key: KeyInput) -> (bool, Seq<Seq<char>>) {
        textarea_keyed(self.ta, stroke_of(key))
    }

    /// The box's lines, cursor and selection.
    pub open spec fn state(&self) -> TextState {
        TextState { lines: self@, cursor: self.cursor(), selecting: self.selecting() }
    }

    /// Hands a key to the text area; says whether it reports an edit.
    pub fn input(&mut self, input: KeyInput) -> (r: bool)
        ensures
            (r, final(self)@) == old(self).keyed(input),
            key_effect(stroke_of(input), old(self).state(), r, final(self).state()),
    {
        let k = input.stroke();
        textarea_input(&mut self.ta, k)
    }

    pub fn lines(&self) -> (r: Vec<String>)
        ensures
            strings_view(r@) == self@,
    {
        textarea_text(&self.ta)
    }

    /// Empties the box.
    pub fn clear(&mut self)
        ensures
            final(self)@ == seq![Seq::<char>::empty()],
            final(self).cursor() == (0usize, 0usize),
            !final(self).selecting(),
    {
        self.ta = textarea_new(Vec::new());
        assert(strings_view(Seq::<String>::empty()) =~= Seq::empty());
    }

    /// The box's height at width `w`: its text's rows plus two lines of frame.
    pub fn total_widget_height(&self, w: usize) -> (r: usize)
        ensures
            r == crate::text::sat_add(textwrap_rows(joined(self@, '\n'), w).len() as int, 2),
    {
        let text = join_lines(self.lines().as_slice());
        let rows = textwrap_lines(text.as_str(), w).len();
        rows.saturating_add(2)
    }

    /// A box holding `content` split into lines, with the cursor at the end
    /// of the last line.
    pub fn new(content: &str) -> (r: Self)
        ensures
            r@ == split_content(content@),
            r.cursor() == ((r@.len() - 1) as usize, r@.last().len() as usize),
            !r.selecting(),
    {
        let lines = content_lines(content);
        let mut ta = textarea_new(lines);
        textarea_move_cursor(&mut ta, CursorTarget::Bottom);
        textarea_move_cursor(&mut ta, CursorTarget::End);
        Self { ta }
    }

    /// The text area itself, for drawing.
    pub fn textarea(&self) -> (r: &TextBuffer)
        ensures
            textarea_lines(*r) == self@,
    {
        &self.ta
    }
}

} // verus!
