//! The status bar: a spinner while a reply streams, the stream's state, and
//! the notices.
use ratatui::text::Span;
use unicode_width::UnicodeWidthStr;
use vstd::prelude::*;

use crate::cli::spinner_at;
use crate::text::{char_string, sat_sub};
use crate::model::model::{notes_of, Model, StreamActivity};
use crate::model::notification::Notification;

verus! {

/// The columns a span of `text` takes, as ratatui measures it.
pub uninterp spec fn span_width_of(text: Seq<char>) -> usize;

/// The columns `text` takes, as `unicode_width` measures it.
pub uninterp spec fn str_width_of(text: Seq<char>) -> usize;

/// Calls ratatui's `Span::width` on a span of `text` (its source measures the
/// span's text with `unicode-width`).  The width depends on the text alone.
#[verifier::external_body]
fn span_width(text: &str) -> (r: usize)
    ensures
        r == span_width_of(text@),
{
    Span::raw(text).width()
}

/// Calls `UnicodeWidthStr::width` of `unicode_width`.  The width depends on
/// the text alone.
#[verifier::external_body]
fn str_width(text: &str) -> (r: usize)
    ensures
        r == str_width_of(text@),
{
    UnicodeWidthStr::width(text)
}

/// The text of a notice's span: its message with a space on each side.
pub open spec fn notice_text(message: Seq<char>) -> Seq<char> {
    seq![' '] + message + seq![' ']
}

/// The columns the first `k` notices take side by side.
pub open spec fn notices_width(notes: Seq<Notification>, k: int) -> nat
    decreases k,
{
    if k <= 0 || k > notes.len() {
        0
    } else {
        notices_width(notes, k - 1) + span_width_of(notice_text(notes[k - 1].message@)) as nat
    }
}

pub struct StatusBar<'a> {
    spinner: Option<char>,
    notifications: Vec<&'a Notification>,
    left: &'static str,
    /// The background of the state label as red, green and blue; `None` for
    /// the default look.
    left_style: Option<(u8, u8, u8)>,
}

/// The label of a stream state and its background.
pub open spec fn state_label(a: StreamActivity) -> (Seq<char>, Option<(u8, u8, u8)>) {
    match a {
        StreamActivity::Streaming => (" streaming "@, Some((200u8, 200u8, 50u8))),
        StreamActivity::AwaitingStream => (" waiting for response "@, Some((75u8, 75u8, 0u8))),
        StreamActivity::Idle => (" idle "@, None),
        StreamActivity::Error => (" error "@, Some((100u8, 0u8, 0u8))),
    }
}

/// A chat whose reply stream failed is labelled " error " on a red
/// background, and no two stream states share a label: a failed request is
/// never shown as idle, waiting or streaming.
pub proof fn failed_stream_is_shown_as_error(a: StreamActivity, b: StreamActivity)
    ensures
        a == StreamActivity::Error ==> state_label(a) == (" error "@, Some((100u8, 0u8, 0u8))),
        a == StreamActivity::Idle ==> state_label(a) == (" idle "@, None::<(u8, u8, u8)>),
        state_label(a) == state_label(b) ==> a == b,
{
}

impl<'a> StatusBar<'a> {
    /// What the bar shows: the spinner's glyph while a reply is awaited or
    /// streamed, the label of the stream state, and the notices.
    pub closed spec fn spinner_spec(&self) -> Option<char> {
        self.spinner
    }

    pub closed spec fn notifications_spec(&self) -> Seq<Notification> {
        notes_of(self.notifications@)
    }

    pub closed spec fn left_spec(&self) -> (Seq<char>, Option<(u8, u8, u8)>) {
        (self.left@, self.left_style)
    }

    pub fn new(model: &'a Model) -> (r: Self)
        ensures
            r.spinner_spec() == if model@.active() {
                Some(spinner_at(model@.spinner_index))
            } else {
                None
            },
            r.left_spec() == state_label(model@.activity),
            r.notifications_spec() == model@.notifications,
    {
        let spinner = match model.streaming_state() {
            StreamActivity::Streaming | StreamActivity::AwaitingStream => {
                let k = model.spinner_index() % 4;
                Some(
                    if k == 0 {
                        '|'
                    } else if k == 1 {
                        '/'
                    } else if k == 2 {
                        '-'
                    } else {
                        '\\'
                    },
                )
            },
            _ => None,
        };
        let (left, left_style): (&'static str, Option<(u8, u8, u8)>) = match model.streaming_state() {
            StreamActivity::Streaming => (" streaming ", Some((200u8, 200u8, 50u8))),
            StreamActivity::AwaitingStream => (" waiting for response ", Some((75u8, 75u8, 0u8))),
            StreamActivity::Idle => (" idle ", None),
            StreamActivity::Error => (" error ", Some((100u8, 0u8, 0u8))),
        };
        Self { spinner, notifications: model.all_notifications(), left, left_style }
    }

    /// The spans of the notices, oldest first: each message with a space on
    /// each side.
    pub fn notification_texts(&self) -> (r: Vec<String>)
        ensures
            r@.len() == self.notifications_spec().len(),
            forall|i: int|
                0 <= i < r@.len() ==> #[trigger] r@[i]@ == notice_text(self.notifications_spec()[i].message@),
    {
        let n = self.notifications.len();
        let mut r: Vec<String> = Vec::new();
        let mut i: usize = 0;
        while i < n
            invariant
                n == self.notifications@.len(),
                i <= n,
                r@.len() == i,
                forall|k: int|
                    0 <= k < i ==> #[trigger] r@[k]@ == notice_text(notes_of(self.notifications@)[k].message@),
            decreases n - i,
        {
            let mut t = String::new();
            t.append(" ");
            t.append(self.notifications[i].message.as_str());
            t.append(" ");
            proof {
                reveal_strlit(" ");
            }
            assert(t@ =~= notice_text(notes_of(self.notifications@)[i as int].message@));
            r.push(t);
            i += 1;
        }
        r
    }

    /// The columns the notices take side by side, or `None` when that does
    /// not fit a `usize`.
    pub fn notifications_width(&self) -> (r: Option<usize>)
        ensures
            ({
                let notes = self.notifications_spec();
                let w = notices_width(notes, notes.len() as int);
                &&& w <= usize::MAX ==> r == Some(w as usize)
                &&& w > usize::MAX ==> r is None
            }),
    {
        let texts = self.notification_texts();
        let ghost notes = self.notifications_spec();
        let n = texts.len();
        let mut total: usize = 0;
        let mut i: usize = 0;
        while i < n
            invariant
                n == texts@.len(),
                n == notes.len(),
                notes == self.notifications_spec(),
                forall|k: int| 0 <= k < n ==> #[trigger] texts@[k]@ == notice_text(notes[k].message@),
                i <= n,
                total == notices_width(notes, i as int),
            decreases n - i,
        {
            let w = span_width(texts[i].as_str());
            assert(notices_width(notes, i + 1) == total + w);
            if w > usize::MAX - total {
                proof {
                    lemma_notices_width_grows(notes, i + 1, n as int);
                }
                return None;
            }
            total = total + w;
            i += 1;
        }
        Some(total)
    }

    /// How many columns the notices are scrolled by so that their right end
    /// shows in an area `width` columns wide: what they take beyond the
    /// width, as the terminal counts it.
    pub fn notifications_scroll(&self, width: u16) -> (r: Option<u16>)
        ensures
            ({
                let notes = self.notifications_spec();
                let w = notices_width(notes, notes.len() as int);
                &&& w <= usize::MAX ==> r == Some((sat_sub(w as int, width as int) as usize) as u16)
                &&& w > usize::MAX ==> r is None
            }),
    {
        match self.notifications_width() {
            Some(w) => {
                let over = w.saturating_sub(width as usize);
                assert(over == sat_sub(w as int, width as int));
                Some(#[verifier::truncate] (over as u16))
            },
            None => None,
        }
    }

    /// The spinner's text: the glyph with a space on each side, or nothing.
    pub fn spinner_text(&self) -> (r: String)
        ensures
            r@ == match self.spinner_spec() {
                Some(c) => seq![' ', c, ' '],
                None => Seq::<char>::empty(),
            },
    {
        match self.spinner {
            Some(c) => {
                let mut t = String::new();
                t.append(" ");
                let g = char_string(c);
                t.append(g.as_str());
                t.append(" ");
                proof {
                    reveal_strlit(" ");
                }
                assert(t@ =~= seq![' ', c, ' ']);
                t
            },
            None => {
                proof {
                    reveal_strlit("");
                }
                String::new()
            },
        }
    }

    /// The widest the spinner's column and the label's column may be: three
    /// columns for a spinner (none without), and the label's width.
    pub fn column_widths(&self) -> (r: (u16, u16))
        ensures
            r.0 == if self.spinner_spec() is Some { 3u16 } else { 0u16 },
            r.1 == str_width_of(self.left_spec().0) as u16,
    {
        let spinner_cols: u16 = if self.spinner.is_some() {
            3
        } else {
            0
        };
        let label_cols = #[verifier::truncate] (str_width(self.left) as u16);
        (spinner_cols, label_cols)
    }

    /// The spinner's glyph, if any.
    pub fn spinner(&self) -> (r: Option<char>)
        ensures
            r == self.spinner_spec(),
    {
        self.spinner
    }

    /// The notices, oldest first.
    pub fn notifications(&self) -> (r: &Vec<&'a Notification>)
        ensures
            notes_of(r@) == self.notifications_spec(),
    {
        &self.notifications
    }

    /// The label of the stream state.
    pub fn left(&self) -> (r: &'static str)
        ensures
            r@ == self.left_spec().0,
    {
        self.left
    }

    /// The background of the label, if not the default.
    pub fn left_style(&self) -> (r: Option<(u8, u8, u8)>)
        ensures
            r == self.left_spec().1,
    {
        self.left_style
    }
}

proof fn lemma_notices_width_grows(notes: Seq<Notification>, i: int, j: int)
    requires
        0 <= i <= j <= notes.len(),
    ensures
        notices_width(notes, i) <= notices_width(notes, j),
    decreases j - i,
{
    if i < j {
        lemma_notices_width_grows(notes, i, j - 1);
    }
}

} // verus!
