//! Scroll coordinates of the chat: rows of content, and positions as a
//! message and a row inside it.
use vstd::prelude::*;

use crate::cli::Area;
use crate::model::model::Focus;
use crate::text::sat_sub;

use super::chat::Chat;
use super::message::{Message, MessageWidgetView, shown_height};

verus! {

/// use this to keep a state
#[derive(Debug, Clone, Copy, Default)]
pub struct ScrollPos {
    /// absolute index of a message in the Model
    pub message: usize,
    /// line offset into that message that should be at the top of the viewport
    pub skip: usize,
}

#[derive(Debug, PartialEq, Eq, Default, Clone, Copy, Structural)]
pub enum Scroll {
    #[default]
    Max,
    /// please remember to clear this to Delta(0) or something else when done
    Delta(i64),
    Focus,
}

/// ephemeral. scroll logic
pub struct ChatCoords<'a> {
    messages: &'a [Message],
    editing: Option<usize>,
    input_box_height: usize,
}

/// What scroll coordinates are computed from: the messages, the one being
/// edited (drawn as the input box), and the input box's height.
pub struct CoordsView {
    pub msgs: Seq<MessageWidgetView>,
    pub editing: Option<usize>,
    pub input_box_height: usize,
}

impl<'a> View for ChatCoords<'a> {
    type V = CoordsView;

    closed spec fn view(&self) -> CoordsView {
        CoordsView {
            msgs: self.messages@.map_values(|m: Message| m@),
            editing: self.editing,
            input_box_height: self.input_box_height,
        }
    }
}

impl CoordsView {
    pub open spec fn len(self) -> nat {
        self.msgs.len()
    }

    /// Whether message `i` is shown.
    pub open spec fn shown(self, i: int) -> bool {
        self.msgs[i].visible
    }

    /// The rows message `i` takes: the input box's height when it is being
    /// edited, its own height otherwise.
    pub open spec fn h(self, i: int) -> nat {
        if self.editing == Some(i as usize) {
            self.input_box_height as nat
        } else {
            shown_height(self.msgs[i])
        }
    }

    /// The rows taken by the shown messages before message `i`.
    pub open spec fn rows_to(self, i: int) -> nat
        decreases i,
    {
        if i <= 0 {
            0
        } else {
            self.rows_to(i - 1) + if self.shown(i - 1) {
                self.h(i - 1)
            } else {
                0
            }
        }
    }

    /// The rows of all shown messages.
    pub open spec fn total(self) -> nat {
        self.rows_to(self.len() as int)
    }

    /// The first shown message at or after `from`.
    pub open spec fn next_shown(self, from: int) -> Option<int>
        decreases self.len() - from,
    {
        if from < 0 || from >= self.len() {
            None
        } else if self.shown(from) {
            Some(from)
        } else {
            self.next_shown(from + 1)
        }
    }

    /// The last shown message at or before `from`.
    pub open spec fn prev_shown(self, from: int) -> Option<int>
        decreases from + 1,
    {
        if from < 0 || from >= self.len() {
            None
        } else if self.shown(from) {
            Some(from)
        } else {
            self.prev_shown(from - 1)
        }
    }

    /// The position of the last row of content: the bottom row of the last
    /// shown message, or the top when none is shown.
    pub open spec fn bottom_pos(self) -> ScrollPos {
        match self.prev_shown(self.len() - 1) {
            Some(i) => ScrollPos { message: i as usize, skip: sat_sub(self.h(i) as int, 1) as usize },
            None => ScrollPos { message: 0, skip: 0 },
        }
    }

    /// The position of `remaining` rows below the top of message `i`,
    /// counting only shown messages from `i` on.
    pub open spec fn scan(self, i: int, remaining: int) -> ScrollPos
        decreases self.len() - i,
    {
        if i < 0 || i >= self.len() {
            self.bottom_pos()
        } else if !self.shown(i) {
            self.scan(i + 1, remaining)
        } else if remaining < self.h(i) {
            ScrollPos { message: i as usize, skip: remaining as usize }
        } else {
            self.scan(i + 1, remaining - self.h(i))
        }
    }

    /// The position of content row `row`, clamped to the last row.
    pub open spec fn at_row(self, row: int) -> ScrollPos {
        if self.len() == 0 {
            ScrollPos { message: 0, skip: 0 }
        } else {
            self.scan(0, row)
        }
    }

    /// The content row of position `pos`.  A message index past the end
    /// counts as the last message; a row past the bottom of a message counts
    /// as its bottom row.  A hidden message counts as the top of the next
    /// shown one, or else the bottom of the previous shown one.
    pub open spec fn at_pos(self, pos: ScrollPos) -> int {
        if self.len() == 0 {
            0
        } else {
            let idx: int = if pos.message < self.len() - 1 { pos.message as int } else { self.len() - 1 };
            if self.shown(idx) {
                self.rows_to(idx) + if pos.skip < sat_sub(self.h(idx) as int, 1) {
                    pos.skip as int
                } else {
                    sat_sub(self.h(idx) as int, 1)
                }
            } else {
                match self.next_shown(idx) {
                    Some(i) => self.rows_to(i) as int,
                    None => match self.prev_shown(idx) {
                        Some(i) => self.rows_to(i) + sat_sub(self.h(i) as int, 1),
                        None => 0,
                    },
                }
            }
        }
    }

    /// The sums of rows fit in a `usize`.
    pub open spec fn fits(self) -> bool {
        self.total() <= usize::MAX && self.len() <= usize::MAX
    }
}

/// The rows before a message never decrease further down.
pub proof fn lemma_rows_to_mono(c: CoordsView, i: int, j: int)
    requires
        i <= j,
    ensures
        c.rows_to(i) <= c.rows_to(j),
    decreases j - i,
{
    if i < j {
        lemma_rows_to_mono(c, i, j - 1);
    }
}

/// `next_shown` finds a shown message at or after `from`, with none shown between.
proof fn lemma_next_shown(c: CoordsView, from: int)
    requires
        0 <= from,
    ensures
        c.next_shown(from) matches Some(i) ==> from <= i < c.len() && c.shown(i),
    decreases c.len() - from,
{
    if from < c.len() && !c.shown(from) {
        lemma_next_shown(c, from + 1);
    }
}

/// `prev_shown` finds a shown message at or before `from`.
proof fn lemma_prev_shown(c: CoordsView, from: int)
    ensures
        c.prev_shown(from) matches Some(i) ==> 0 <= i <= from && i < c.len() && c.shown(i),
    decreases from + 1,
{
    if 0 <= from < c.len() && !c.shown(from) {
        lemma_prev_shown(c, from - 1);
    }
}

/// Scanning from message `i` with `row - rows_to(i)` rows to go lands on the
/// shown message that holds content row `row`.
proof fn lemma_scan_locates(c: CoordsView, i: int, row: int)
    requires
        0 <= i <= c.len(),
        c.fits(),
        c.rows_to(i) <= row < c.total(),
    ensures
        ({
            let p = c.scan(i, row - c.rows_to(i));
            &&& i <= p.message < c.len()
            &&& c.shown(p.message as int)
            &&& c.rows_to(p.message as int) + p.skip == row
            &&& p.skip < c.h(p.message as int)
        }),
    decreases c.len() - i,
{
    if i == c.len() {
    } else if !c.shown(i) {
        assert(c.rows_to(i + 1) == c.rows_to(i));
        lemma_scan_locates(c, i + 1, row);
    } else if row - c.rows_to(i) < c.h(i) {
    } else {
        assert(c.rows_to(i + 1) == c.rows_to(i) + c.h(i));
        lemma_scan_locates(c, i + 1, row);
    }
}

/// A content row above the bottom is found on the shown message that holds
/// it, at the row's offset into that message.
pub proof fn at_row_locates(c: CoordsView, row: int)
    requires
        c.fits(),
        0 <= row < c.total(),
    ensures
        c.at_row(row).message < c.len(),
        c.shown(c.at_row(row).message as int),
        c.rows_to(c.at_row(row).message as int) + c.at_row(row).skip == row,
        c.at_row(row).skip < c.h(c.at_row(row).message as int),
{
    lemma_scan_locates(c, 0, row);
}

/// The row of the position of a row is that row, for any row of content.
pub proof fn at_pos_undoes_at_row(c: CoordsView, row: int)
    requires
        c.fits(),
        0 <= row < c.total(),
    ensures
        c.at_pos(c.at_row(row)) == row,
{
    at_row_locates(c, row);
}

/// Moving `k` rows down and then `k` rows up comes back to the row started
/// from, while the rows stay within the content.
pub proof fn scroll_down_up_returns(c: CoordsView, pos: ScrollPos, k: int)
    requires
        c.fits(),
        0 <= k,
        0 <= c.at_pos(pos),
        c.at_pos(pos) + k < c.total(),
    ensures
        c.at_row(sat_sub(c.at_pos(c.at_row(c.at_pos(pos) + k)), k)) == c.at_row(c.at_pos(pos)),
{
    at_pos_undoes_at_row(c, c.at_pos(pos) + k);
}

/// A position found for a row is inside the messages, no further down than
/// the bottom row of its message.
pub proof fn at_row_in_range(c: CoordsView, row: int)
    requires
        c.fits(),
        0 <= row,
    ensures
        c.len() > 0 ==> c.at_row(row).message < c.len(),
        c.len() > 0 ==> c.at_row(row).skip <= c.h(c.at_row(row).message as int),
        c.len() == 0 ==> c.at_row(row) == (ScrollPos { message: 0, skip: 0 }),
{
    if c.len() > 0 {
        if row < c.total() {
            at_row_locates(c, row);
        } else {
            lemma_scan_past_end(c, 0, row);
            lemma_prev_shown(c, c.len() - 1);
        }
    }
}

/// Past the last row, scanning ends at the bottom position.
proof fn lemma_scan_past_end(c: CoordsView, i: int, row: int)
    requires
        0 <= i <= c.len(),
        c.fits(),
        c.total() <= row,
        c.rows_to(i) <= row,
    ensures
        c.scan(i, row - c.rows_to(i)) == c.bottom_pos(),
    decreases c.len() - i,
{
    if i < c.len() {
        lemma_rows_to_mono(c, i + 1, c.len() as int);
        if !c.shown(i) {
            lemma_scan_past_end(c, i + 1, row);
        } else {
            lemma_scan_past_end(c, i + 1, row);
        }
    }
}

/// The rows down to the end of message `j` are those down to the end of the
/// last shown message at or before it, or none when no such message is shown.
proof fn lemma_rows_after_last_shown(c: CoordsView, j: int)
    requires
        -1 <= j < c.len(),
    ensures
        match c.prev_shown(j) {
            Some(i) => c.rows_to(j + 1) == c.rows_to(i) + c.h(i),
            None => c.rows_to(j + 1) == 0,
        },
    decreases j + 1,
{
    if j >= 0 && !c.shown(j) {
        lemma_rows_after_last_shown(c, j - 1);
    }
}

/// Every shown message takes at least one row.
pub open spec fn shown_rows_nonempty(c: CoordsView) -> bool {
    forall|i: int| 0 <= i < c.len() && c.shown(i) ==> c.h(i) >= 1
}

/// Every position stands for a row of the content: none lies past the last
/// row, and every position of an empty content is row 0.
pub proof fn at_pos_within_content(c: CoordsView, pos: ScrollPos)
    requires
        c.fits(),
        shown_rows_nonempty(c),
    ensures
        0 <= c.at_pos(pos) <= sat_sub(c.total() as int, 1),
{
    let n = c.len() as int;
    if n > 0 {
        let idx: int = if pos.message < n - 1 { pos.message as int } else { n - 1 };
        if c.shown(idx) {
            lemma_rows_to_mono(c, idx + 1, n);
        } else {
            lemma_next_shown(c, idx);
            lemma_prev_shown(c, idx);
            match c.next_shown(idx) {
                Some(i) => {
                    lemma_rows_to_mono(c, i + 1, n);
                },
                None => match c.prev_shown(idx) {
                    Some(i) => {
                        lemma_rows_to_mono(c, i + 1, n);
                    },
                    None => {},
                },
            }
        }
    }
}

/// The row of the position found for any row is that row, clamped to the
/// last row of the content (row 0 when the content is empty).
pub proof fn at_pos_of_at_row_clamps(c: CoordsView, row: int)
    requires
        c.fits(),
        shown_rows_nonempty(c),
        row >= 0,
    ensures
        c.at_pos(c.at_row(row)) == if row < c.total() { row } else { sat_sub(c.total() as int, 1) },
{
    if row < c.total() {
        at_pos_undoes_at_row(c, row);
    } else if c.total() == 0 {
        at_pos_within_content(c, c.at_row(row));
    } else {
        lemma_scan_past_end(c, 0, row);
        lemma_prev_shown(c, c.len() - 1);
        lemma_rows_after_last_shown(c, c.len() - 1);
    }
}

impl<'a> ChatCoords<'a> {
    /// The rows of all shown messages, or `None` when the sum does not fit a `usize`.
    pub fn checked_total(&self) -> (r: Option<usize>)
        ensures
            r matches Some(t) ==> t == self@.total() && self@.fits(),
            r is None ==> !self@.fits(),
    {
        let n = self.messages.len();
        let mut sum: usize = 0;
        let mut i: usize = 0;
        while i < n
            invariant
                n == self@.len(),
                i <= n,
                sum == self@.rows_to(i as int),
            decreases n - i,
        {
            if self.messages[i].visible() {
                let h = self.height(i);
                if sum > usize::MAX - h {
                    proof {
                        lemma_rows_to_mono(self@, i + 1, n as int);
                    }
                    return None;
                }
                sum = sum + h;
            }
            i += 1;
        }
        Some(sum)
    }

    pub fn from(messages: &'a [Message], focus: &Focus, state: &Chat, area: Area) -> (r: Self)
        ensures
            r@.msgs == messages@.map_values(|m: Message| m@),
            r@.editing == match *focus {
                Focus::Edit(i) => Some(i),
                _ => None,
            },
            r@.input_box_height == crate::text::sat_add(
                crate::text::textwrap_rows(crate::text::joined(state@.input, '\n'), area.width as usize).len() as int,
                2,
            ),
    {
        let editing = match focus {
            Focus::Edit(i) => Some(*i),
            _ => None,
        };
        let input_box_height = state.input_box_height(area.width as usize);
        Self { messages, editing, input_box_height }
    }

    /// Coordinates of `messages` with `focus` and an input box `input_box_height` rows tall.
    pub fn new(messages: &'a [Message], focus: &Focus, input_box_height: usize) -> (r: Self)
        ensures
            r@.msgs == messages@.map_values(|m: Message| m@),
            r@.editing == match *focus {
                Focus::Edit(i) => Some(i),
                _ => None,
            },
            r@.input_box_height == input_box_height,
            r@.len() <= usize::MAX,
    {
        let _n = messages.len();
        let editing = match focus {
            Focus::Edit(i) => Some(*i),
            _ => None,
        };
        Self { messages, editing, input_box_height }
    }

    /// The number of messages.
    pub fn len(&self) -> (r: usize)
        ensures
            r == self@.len(),
    {
        self.messages.len()
    }

    pub fn focused_index(&self) -> (r: Option<usize>)
        ensures
            r == self@.editing,
    {
        self.editing
    }

    /// height a message actually renders at: the input box's height if
    /// it's the focused message, otherwise its own wrapped content height
    pub fn height(&self, index: usize) -> (r: usize)
        requires
            self@.editing == Some(index) || index < self@.len(),
        ensures
            r == if self@.editing == Some(index) {
                self@.input_box_height as nat
            } else {
                shown_height(self@.msgs[index as int])
            },
    {
        if Some(index) == self.editing {
            self.input_box_height
        } else {
            self.messages[index].height()
        }
    }

    pub fn total_height(&self) -> (r: usize)
        requires
            self@.fits(),
        ensures
            r == self@.total(),
    {
        self.rows_before(self.messages.len())
    }

    pub fn pos_below(&self, pos: &ScrollPos, rows: usize) -> (r: ScrollPos)
        requires
            self@.fits(),
            self@.at_pos(*pos) + rows <= usize::MAX,
        ensures
            r == self@.at_row(self@.at_pos(*pos) + rows),
    {
        self.at_row(self.at_pos(pos) + rows)
    }

    pub fn pos_above(&self, pos: &ScrollPos, rows: usize) -> (r: ScrollPos)
        requires
            self@.fits(),
        ensures
            r == self@.at_row(sat_sub(self@.at_pos(*pos), rows as int)),
    {
        self.at_row(self.at_pos(pos).saturating_sub(rows))
    }

    /// nearest visible shape at or after `from`, if any
    fn next_visible(&self, from: usize) -> (r: Option<usize>)
        ensures
            r matches Some(i) ==> self@.next_shown(from as int) == Some(i as int),
            r is None ==> self@.next_shown(from as int) is None,
    {
        let n = self.messages.len();
        let mut i = from;
        while i < n
            invariant
                n == self@.len(),
                from <= i,
                self@.next_shown(from as int) == self@.next_shown(i as int),
            decreases n - i,
        {
            if self.messages[i].visible() {
                return Some(i);
            }
            i += 1;
        }
        None
    }

    /// nearest visible shape at or before `from`, if any
    fn prev_visible(&self, from: usize) -> (r: Option<usize>)
        requires
            from < self@.len(),
        ensures
            r matches Some(i) ==> self@.prev_shown(from as int) == Some(i as int),
            r is None ==> self@.prev_shown(from as int) is None,
    {
        let mut i = from;
        loop
            invariant
                i <= from < self@.len(),
                self@.prev_shown(from as int) == self@.prev_shown(i as int),
            decreases i,
        {
            if self.messages[i].visible() {
                return Some(i);
            }
            if i == 0 {
                assert(self@.prev_shown(-1) is None);
                return None;
            }
            i -= 1;
        }
    }

    /// sum of heights of all visible shapes before `index`
    pub fn rows_before(&self, index: usize) -> (r: usize)
        requires
            index <= self@.len(),
            self@.fits(),
        ensures
            r == self@.rows_to(index as int),
    {
        let mut sum: usize = 0;
        let mut i: usize = 0;
        while i < index
            invariant
                index <= self@.len(),
                self@.fits(),
                i <= index,
                sum == self@.rows_to(i as int),
            decreases index - i,
        {
            proof {
                lemma_rows_to_mono(self@, i + 1, self@.len() as int);
            }
            if self.messages[i].visible() {
                sum = sum + self.height(i);
            }
            i += 1;
        }
        sum
    }

    pub fn at_row(&self, row: usize) -> (r: ScrollPos)
        ensures
            r == self@.at_row(row as int),
    {
        if self.messages.len() == 0 {
            return ScrollPos { message: 0, skip: 0 };
        }
        let n = self.messages.len();
        let mut remaining = row;
        let mut i: usize = 0;
        while i < n
            invariant
                n == self@.len(),
                n > 0,
                i <= n,
                self@.scan(0, row as int) == self@.scan(i as int, remaining as int),
            decreases n - i,
        {
            if self.messages[i].visible() {
                let h = self.height(i);
                if remaining < h {
                    return ScrollPos { message: i, skip: remaining };
                }
                remaining -= h;
            }
            i += 1;
        }
        // row is past the end of the visible content: clamp to the bottom
        // of the last visible message
        proof {
            lemma_prev_shown(self@, n - 1);
        }
        match self.prev_visible(n - 1) {
            Some(i) => ScrollPos { message: i, skip: self.height(i).saturating_sub(1) },
            None => ScrollPos { message: 0, skip: 0 },
        }
    }

    pub fn at_pos(&self, pos: &ScrollPos) -> (r: usize)
        requires
            self@.fits(),
        ensures
            r == self@.at_pos(*pos),
    {
        if self.messages.len() == 0 {
            return 0;
        }
        let n = self.messages.len();
        let msg_idx = if pos.message < n - 1 { pos.message } else { n - 1 };
        proof {
            lemma_next_shown(self@, msg_idx as int);
            lemma_prev_shown(self@, msg_idx as int);
        }
        let (anchor, skip) = if self.messages[msg_idx].visible() {
            let last = self.height(msg_idx).saturating_sub(1);
            (msg_idx, if pos.skip < last { pos.skip } else { last })
        } else if let Some(i) = self.next_visible(msg_idx) {
            // the hidden message's content slides up to be replaced by
            // whatever comes after it, so anchor to the top of that
            (i, 0)
        } else if let Some(i) = self.prev_visible(msg_idx) {
            (i, self.height(i).saturating_sub(1))
        } else {
            return 0;
        };
        proof {
            lemma_rows_to_mono(self@, anchor + 1, self@.len() as int);
        }
        self.rows_before(anchor) + skip
    }
}

} // verus!
