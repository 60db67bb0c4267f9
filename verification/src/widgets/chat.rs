//! The chat view of the first chat window: its state, and where each
//! message goes when drawn.
use vstd::prelude::*;

use crate::cli::Area;
use crate::cli::widgets::chat::chat::{slots_from, Slot};
use crate::cli::widgets::input_box::{key_effect, stroke_of, InputBox, KeyInput, TextState};
use crate::model::{FocusState, Message as ModelMessage, MessageView, Model, ModelView, views_of};
use crate::text::{joined, join_lines, sat_add, sat_sub, split_content, strings_view, textwrap_rows};

use super::message::{Message, MessageLook, PADDING};
use crate::wrapped_text::wrapped_rows;

verus! {

#[derive(Debug, PartialEq, Eq, Clone, Copy, Structural)]
pub enum Scroll {
    Offset(usize),
    Max,
    // snap to focus. if the focus is the input box, do nothing
    Focus,
}

/// state-tracking
pub struct Chat {
    pub scroll: Scroll,
    last_scroll_offset: usize,
    last_focus_state: FocusState,
    input_box: InputBox,
}

/// What the chat view holds.
pub struct ChatView {
    pub scroll: Scroll,
    pub last_scroll_offset: usize,
    pub focus: FocusState,
    /// The lines of the input box.
    pub input: Seq<Seq<char>>,
}

impl View for Chat {
    type V = ChatView;

    closed spec fn view(&self) -> ChatView {
        ChatView {
            scroll: self.scroll,
            last_scroll_offset: self.last_scroll_offset,
            focus: self.last_focus_state,
            input: self.input_box@,
        }
    }
}

/// The text kept for the focus `f`: a message's own text, or the input box text.
pub open spec fn focus_text(m: ModelView, f: FocusState) -> Seq<char> {
    match f {
        FocusState::Message(i) => m.messages[i as int].content,
        FocusState::Input => m.input_box,
    }
}

/// The sum of `heights[from..to)`.
pub open spec fn sum_heights(heights: Seq<usize>, to: int) -> int
    decreases to,
{
    if to <= 0 {
        0
    } else {
        sum_heights(heights, to - 1) + heights[to - 1]
    }
}

/// Skipping `rows` rows from message `i` on: the first message that is not
/// wholly scrolled away, and the rows of it that are.
pub open spec fn skip_to(heights: Seq<usize>, i: int, rows: int) -> (int, int)
    decreases heights.len() - i,
{
    if i < 0 || i >= heights.len() || rows < heights[i] {
        (i, rows)
    } else {
        skip_to(heights, i + 1, rows - heights[i])
    }
}

/// The row the view starts at: a set offset or the bottom, clamped to the
/// last screenful; for `Focus`, the focused message brought into view (its
/// bottom at the area's bottom when it fits, its top at the top otherwise),
/// or the last offset when the input box has the focus.
pub open spec fn offset_for(heights: Seq<usize>, area_height: int, scroll: Scroll, focus: FocusState, last: int) -> int {
    let max_scroll = sat_sub(sum_heights(heights, heights.len() as int), area_height);
    match scroll {
        Scroll::Offset(i) => if i < max_scroll { i as int } else { max_scroll },
        Scroll::Max => max_scroll,
        Scroll::Focus => match focus {
            FocusState::Message(i) => {
                let off = sum_heights(heights, i as int);
                let h = heights[i as int];
                let s = if h <= area_height { sat_sub(off + h, area_height) } else { off };
                if s < max_scroll { s } else { max_scroll }
            },
            FocusState::Input => last,
        },
    }
}

/// When the view is to snap to the focus and the input box has it, the view
/// starts where it was last drawn, whatever the boxes and the area.
pub proof fn input_focus_keeps_last_offset(heights: Seq<usize>, area_height: int, last: int)
    ensures
        offset_for(heights, area_height, Scroll::Focus, FocusState::Input, last) == last,
{
}

/// The first window's view never starts past its last screenful, except when
/// it is to snap to the focus while the input box has it: it then stays
/// where it was last drawn.
pub proof fn offset_within_last_screen(heights: Seq<usize>, area_height: int, scroll: Scroll, focus: FocusState, last: int)
    requires
        !(scroll == Scroll::Focus && focus == FocusState::Input),
    ensures
        offset_for(heights, area_height, scroll, focus, last) <= sat_sub(
            sum_heights(heights, heights.len() as int),
            area_height,
        ),
{
}

proof fn lemma_sum_heights_mono(heights: Seq<usize>, i: int, j: int)
    requires
        i <= j <= heights.len(),
    ensures
        sum_heights(heights, i) <= sum_heights(heights, j),
    decreases j - i,
{
    if i < j {
        lemma_sum_heights_mono(heights, i, j - 1);
    }
}

impl Chat {
    /// Where the input box's cursor is: its row and its column in characters.
    pub closed spec fn cursor(&self) -> (usize, usize) {
        self.input_box.cursor()
    }

    /// Whether a selection is under way in the input box.
    pub closed spec fn selecting(&self) -> bool {
        self.input_box.selecting()
    }

    /// What handing `key` to the input box gives: whether it reports an
    /// edit, and the lines it leaves.
    pub closed spec fn keyed(&self, key: KeyInput) -> (bool, Seq<Seq<char>>) {
        self.input_box.keyed(key)
    }

    /// The input box's lines, cursor and selection.
    pub open spec fn text_state(&self) -> TextState {
        TextState { lines: self@.input, cursor: self.cursor(), selecting: self.selecting() }
    }

    pub fn new() -> (r: Self)
        ensures
            r@ == (ChatView { scroll: Scroll::Max, last_scroll_offset: 0, focus: FocusState::Input, input: seq![Seq::empty()] }),
            r.cursor() == (0usize, 0usize),
            !r.selecting(),
    {
        proof {
            reveal_strlit("");
        }
        let input_box = InputBox::new("");
        Self { scroll: Scroll::Max, last_scroll_offset: 0, last_focus_state: FocusState::Input, input_box }
    }

    /// syncs the state with the model
    /// focus state sync
    ///
    /// When the model's focus has moved, the box's text is written back to
    /// what the old focus edited, and the box is loaded with what the new
    /// focus edits.
    pub fn sync(&mut self, model: &mut Model)
        requires
            old(self)@.focus matches FocusState::Message(i) ==> i < old(model)@.messages.len(),
            old(model)@.focus matches FocusState::Message(j) ==> j < old(model)@.messages.len(),
        ensures
            old(self)@.focus == old(model)@.focus ==> final(self)@ == old(self)@ && final(model)@ == old(model)@,
            old(self)@.focus != old(model)@.focus ==> ({
                let text = joined(old(self)@.input, '\n');
                let m = final(model)@;
                &&& m == match old(self)@.focus {
                    FocusState::Message(i) => ModelView {
                        messages: old(model)@.messages.update(i as int, MessageView { content: text, ..old(model)@.messages[i as int] }),
                        ..old(model)@
                    },
                    FocusState::Input => ModelView { input_box: text, ..old(model)@ },
                }
                &&& final(self)@ == (ChatView {
                    focus: old(model)@.focus,
                    input: split_content(focus_text(m, old(model)@.focus)),
                    ..old(self)@
                })
                &&& joined(final(self)@.input, '\n') == focus_text(m, old(model)@.focus)
            }),
            old(self)@.focus == old(model)@.focus ==> final(self).cursor() == old(self).cursor(),
            old(self)@.focus != old(model)@.focus ==> final(self).cursor() == (
                (final(self)@.input.len() - 1) as usize,
                final(self)@.input.last().len() as usize,
            ),
            old(self)@.focus == old(model)@.focus ==> final(self).selecting() == old(self).selecting(),
            old(self)@.focus != old(model)@.focus ==> !final(self).selecting(),
    {
        if &self.last_focus_state == model.focus_state() {
            return;
        }
        let content = join_lines(self.input_box.lines().as_slice());
        match self.last_focus_state {
            FocusState::Message(i) => model.set_message_text(i, content),
            FocusState::Input => model.set_input_box(content),
        }
        let content = match model.focus_state() {
            FocusState::Message(i) => model.message_text(*i),
            FocusState::Input => model.input_text(),
        };
        self.input_box = InputBox::new(content.as_str());
        self.last_focus_state = *model.focus_state();
        proof {
            crate::text::join_undoes_split(content@);
        }
    }

    pub fn input(&mut self, input: KeyInput) -> (r: bool)
        ensures
            final(self)@ == (ChatView { input: final(self)@.input, ..old(self)@ }),
            (r, final(self)@.input) == old(self).keyed(input),
            key_effect(stroke_of(input), old(self).text_state(), r, final(self).text_state()),
    {
        self.input_box.input(input)
    }

    pub fn lines(&self) -> (r: Vec<String>)
        ensures
            strings_view(r@) == self@.input,
    {
        self.input_box.lines()
    }

    pub fn clear_input(&mut self)
        ensures
            final(self)@ == (ChatView { input: seq![Seq::empty()], ..old(self)@ }),
            final(self).cursor() == (0usize, 0usize),
            !final(self).selecting(),
    {
        self.input_box.clear();
    }

    pub fn scroll_up(&mut self, i: usize)
        ensures
            final(self)@ == (ChatView {
                scroll: Scroll::Offset(sat_sub(old(self)@.last_scroll_offset as int, i as int) as usize),
                ..old(self)@
            }),
            final(self).cursor() == old(self).cursor(),
            final(self).selecting() == old(self).selecting(),
    {
        self.scroll = Scroll::Offset(self.last_scroll_offset.saturating_sub(i));
    }

    pub fn scroll_down(&mut self, i: usize)
        ensures
            final(self)@ == (ChatView {
                scroll: Scroll::Offset(sat_add(old(self)@.last_scroll_offset as int, i as int) as usize),
                ..old(self)@
            }),
            final(self).cursor() == old(self).cursor(),
            final(self).selecting() == old(self).selecting(),
    {
        self.scroll = Scroll::Offset(self.last_scroll_offset.saturating_add(i));
    }

    /// Sets how the next draw scrolls.
    pub fn set_scroll(&mut self, scroll: Scroll)
        ensures
            final(self)@ == (ChatView { scroll, ..old(self)@ }),
            final(self).cursor() == old(self).cursor(),
            final(self).selecting() == old(self).selecting(),
    {
        self.scroll = scroll;
    }

    /// Records the offset the view was last drawn at.
    pub fn set_last_scroll_offset(&mut self, offset: usize)
        ensures
            final(self)@ == (ChatView { last_scroll_offset: offset, ..old(self)@ }),
            final(self).cursor() == old(self).cursor(),
            final(self).selecting() == old(self).selecting(),
    {
        self.last_scroll_offset = offset;
    }

    /// The focus the view last synced to.
    pub fn focus_state(&self) -> (r: &FocusState)
        ensures
            *r == self@.focus,
    {
        &self.last_focus_state
    }

    /// The input box, for drawing.
    pub fn input_box(&self) -> (r: &InputBox)
        ensures
            r@ == self@.input,
            r.cursor() == self.cursor(),
            r.selecting() == self.selecting(),
    {
        &self.input_box
    }
}

pub struct ChatWidget<'m> {
    messages: &'m Vec<ModelMessage>,
    focus: &'m FocusState,
}

/// What drawing the chat needs: the shown messages, where each goes, and
/// the top row of the view.
pub struct ChatPlan<'m> {
    pub messages: Vec<Message<'m>>,
    pub slots: Vec<Slot>,
    pub scroll_offset: usize,
}

impl<'m> ChatWidget<'m> {
    pub closed spec fn messages_spec(&self) -> Seq<MessageView> {
        views_of(self.messages@)
    }

    pub closed spec fn focus_spec(&self) -> FocusState {
        *self.focus
    }

    pub fn new(model: &'m Model) -> (r: Self)
        ensures
            r.messages_spec() == model@.messages,
            r.focus_spec() == model@.focus,
    {
        Self { messages: model.messages(), focus: model.focus_state() }
    }

    /// The top row of the view (see `offset_for`).
    pub fn scroll_offset(&self, area: Area, effective_heights: &[usize], state: &Chat) -> (r: usize)
        requires
            sum_heights(effective_heights@, effective_heights@.len() as int) <= usize::MAX,
            state@.scroll == Scroll::Focus ==> (self.focus_spec() matches FocusState::Message(i) ==> i
                < effective_heights@.len()),
        ensures
            r == offset_for(
                effective_heights@,
                area.height as int,
                state@.scroll,
                self.focus_spec(),
                state@.last_scroll_offset as int,
            ),
    {
        let n = effective_heights.len();
        let total = sum_prefix(effective_heights, n);
        let max_scroll = total.saturating_sub(area.height as usize);
        match state.scroll {
            Scroll::Offset(i) => if i < max_scroll {
                i
            } else {
                max_scroll
            },
            Scroll::Max => max_scroll,
            Scroll::Focus => {
                match self.focus {
                    FocusState::Message(i) => {
                        proof {
                            lemma_sum_heights_mono(effective_heights@, *i + 1, n as int);
                        }
                        let focused_offset = sum_prefix(effective_heights, *i);
                        let focused_height = effective_heights[*i];
                        let s = if focused_height <= area.height as usize {
                            (focused_offset + focused_height).saturating_sub(area.height as usize)
                        } else {
                            focused_offset
                        };
                        if s < max_scroll {
                            s
                        } else {
                            max_scroll
                        }
                    },
                    _ => state.last_scroll_offset,
                }
            },
        }
    }

    /// Lays the chat out in `area`: each message as shown at its width (the
    /// focused one as tall as the input box), the top row, and a slot for
    /// each message from the first not wholly scrolled away down until the
    /// area is full.  `None` when the sum of rows would not fit in a `usize`,
    /// or when the view is to snap to a focused message that does not exist.
    pub fn render_chat(&self, area: Area, state: &Chat) -> (r: Option<ChatPlan<'m>>)
        requires
            area.y + area.height <= u16::MAX,
        ensures
            ({
                let msgs = self.messages_spec();
                let h = shown_heights(msgs, self.focus_spec(), area.width, state@.input);
                let bad_focus = state@.scroll == Scroll::Focus && (self.focus_spec() matches FocusState::Message(i)
                    && i >= msgs.len());
                &&& r is None <==> (sum_heights(h, h.len() as int) > usize::MAX || bad_focus)
                &&& r matches Some(plan) ==> {
                    let offset = offset_for(h, area.height as int, state@.scroll, self.focus_spec(), state@.last_scroll_offset as int);
                    let (start, skip) = skip_to(h, 0, offset);
                    &&& plan.messages@.len() == msgs.len()
                    &&& forall|i: int| 0 <= i < msgs.len() ==> #[trigger] plan.messages@[i]@ == shown_message(msgs[i], area.width)
                    &&& plan.scroll_offset == offset
                    &&& plan.slots@ == slots_from(h, start, skip, area.y as int, area.y + area.height)
                }
            }),
    {
        let n = self.messages.len();
        let ghost msgs = self.messages_spec();
        let mut messages: Vec<Message<'m>> = Vec::new();
        let mut i: usize = 0;
        while i < n
            invariant
                n == self.messages@.len(),
                msgs == self.messages_spec(),
                i <= n,
                messages@.len() == i,
                forall|k: int| 0 <= k < i ==> #[trigger] messages@[k]@ == shown_message(msgs[k], area.width),
            decreases n - i,
        {
            let mut widget = Message::new(&self.messages[i]);
            widget.init_wrap(area.width as usize);
            messages.push(widget);
            i += 1;
        }
        let focused_idx: Option<usize> = match self.focus {
            FocusState::Message(i) => Some(*i),
            _ => None,
        };
        let input_box_height = state.input_box.total_widget_height(area.width as usize);
        let ghost h = shown_heights(msgs, self.focus_spec(), area.width, state@.input);
        let mut effective_heights: Vec<usize> = Vec::new();
        let mut j: usize = 0;
        while j < n
            invariant
                n == messages@.len(),
                n == msgs.len(),
                h == shown_heights(msgs, self.focus_spec(), area.width, state@.input),
                input_box_height == sat_add(textwrap_rows(joined(state@.input, '\n'), area.width as usize).len() as int, 2),
                focused_idx == match self.focus_spec() {
                    FocusState::Message(i) => Some(i),
                    _ => None,
                },
                forall|k: int| 0 <= k < n ==> #[trigger] messages@[k]@ == shown_message(msgs[k], area.width),
                j <= n,
                effective_heights@ == h.take(j as int),
            decreases n - j,
        {
            let hj = if focused_idx == Some(j) {
                input_box_height
            } else {
                messages[j].height()
            };
            effective_heights.push(hj);
            j += 1;
            assert(effective_heights@ =~= h.take(j as int));
        }
        assert(h.take(n as int) =~= h);
        let total = checked_sum(effective_heights.as_slice());
        if total.is_none() {
            return None;
        }
        if state.scroll == Scroll::Focus {
            if let FocusState::Message(i) = self.focus {
                if *i >= n {
                    return None;
                }
            }
        }
        let scroll_offset = self.scroll_offset(area, effective_heights.as_slice(), state);
        let (start, skip) = skip_rows(effective_heights.as_slice(), scroll_offset);
        let slots = plan_slots(effective_heights.as_slice(), start, skip, area);
        Some(ChatPlan { messages, slots, scroll_offset })
    }
}

/// How a message of the chat is first shown in an area `width` columns wide:
/// unscrolled, with its text wrapped two columns narrower.
pub open spec fn shown_message(m: MessageView, width: u16) -> MessageLook {
    MessageLook {
        skip: 0,
        kind: m.kind,
        content: m.content,
        wrapped: Some(
            (
                wrapped_rows(m.content, sat_sub(width as int, PADDING as int) as nat),
                sat_sub(width as int, PADDING as int) as nat,
            ),
        ),
    }
}

/// The rows each message takes in an area `width` columns wide: the focused
/// one as tall as the input box (its text's rows plus two), the others their
/// wrapped rows plus the padding.
pub open spec fn shown_heights(msgs: Seq<MessageView>, focus: FocusState, width: u16, input: Seq<Seq<char>>) -> Seq<usize> {
    Seq::new(
        msgs.len(),
        |i: int|
            if focus == FocusState::Message(i as usize) {
                sat_add(textwrap_rows(joined(input, '\n'), width as usize).len() as int, 2) as usize
            } else {
                sat_add(
                    wrapped_rows(msgs[i].content, sat_sub(width as int, PADDING as int) as nat).len() as int,
                    PADDING as int,
                ) as usize
            },
    )
}

/// The sum of `heights[..to]`.
fn sum_prefix(heights: &[usize], to: usize) -> (r: usize)
    requires
        to <= heights@.len(),
        sum_heights(heights@, heights@.len() as int) <= usize::MAX,
    ensures
        r == sum_heights(heights@, to as int),
{
    let mut sum: usize = 0;
    let mut i: usize = 0;
    while i < to
        invariant
            to <= heights@.len(),
            sum_heights(heights@, heights@.len() as int) <= usize::MAX,
            i <= to,
            sum == sum_heights(heights@, i as int),
        decreases to - i,
    {
        proof {
            lemma_sum_heights_mono(heights@, i + 1, heights@.len() as int);
        }
        sum = sum + heights[i];
        i += 1;
    }
    sum
}

/// The sum of `heights`, or `None` when it does not fit a `usize`.
pub fn checked_sum(heights: &[usize]) -> (r: Option<usize>)
    ensures
        r matches Some(t) ==> t == sum_heights(heights@, heights@.len() as int),
        r is None ==> sum_heights(heights@, heights@.len() as int) > usize::MAX,
{
    let mut sum: usize = 0;
    let mut i: usize = 0;
    while i < heights.len()
        invariant
            i <= heights@.len(),
            sum == sum_heights(heights@, i as int),
        decreases heights@.len() - i,
    {
        if sum > usize::MAX - heights[i] {
            proof {
                lemma_sum_heights_mono(heights@, i + 1, heights@.len() as int);
            }
            return None;
        }
        sum = sum + heights[i];
        i += 1;
    }
    Some(sum)
}

/// Skips `rows` rows from the top (see `skip_to`).
pub fn skip_rows(heights: &[usize], rows: usize) -> (r: (usize, usize))
    ensures
        r.0 as int == skip_to(heights@, 0, rows as int).0,
        r.1 as int == skip_to(heights@, 0, rows as int).1,
        r.0 < heights@.len() ==> r.1 < heights@[r.0 as int],
        r.0 <= heights@.len(),
{
    let mut remaining_skip = rows;
    let mut i: usize = 0;
    while i < heights.len()
        invariant
            i <= heights@.len(),
            skip_to(heights@, 0, rows as int) == skip_to(heights@, i as int, remaining_skip as int),
        ensures
            i <= heights@.len(),
            skip_to(heights@, 0, rows as int) == (i as int, remaining_skip as int),
            i < heights@.len() ==> remaining_skip < heights@[i as int],
        decreases heights@.len() - i,
    {
        if remaining_skip < heights[i] {
            break;
        }
        remaining_skip -= heights[i];
        i += 1;
    }
    (i, remaining_skip)
}

/// Lays out the messages from `start` on, `skip` rows of it scrolled away
/// (see `slots_from`).
pub fn plan_slots(heights: &[usize], start: usize, skip: usize, area: Area) -> (r: Vec<Slot>)
    requires
        start < heights@.len() ==> skip <= heights@[start as int],
        area.y + area.height <= u16::MAX,
    ensures
        r@ == slots_from(heights@, start as int, skip as int, area.y as int, area.y + area.height),
{
    let n = heights.len();
    let bottom: usize = (area.y + area.height) as usize;
    let mut slots: Vec<Slot> = Vec::new();
    let mut remaining_skip = skip;
    let mut y: usize = area.y as usize;
    let mut k: usize = start;
    while k < n
        invariant
            n == heights@.len(),
            k < n ==> remaining_skip <= heights@[k as int],
            y <= bottom <= u16::MAX,
            slots@ + slots_from(heights@, k as int, remaining_skip as int, y as int, bottom as int) == slots_from(
                heights@,
                start as int,
                skip as int,
                area.y as int,
                bottom as int,
            ),
        ensures
            slots@ == slots_from(heights@, start as int, skip as int, area.y as int, bottom as int),
        decreases n - k,
    {
        if y >= bottom {
            assert(slots_from(heights@, k as int, remaining_skip as int, y as int, bottom as int) =~= Seq::empty());
            assert(slots@ =~= slots@ + Seq::<Slot>::empty());
            break;
        }
        let rest = heights[k] - remaining_skip;
        let render_height = if rest < bottom - y {
            rest
        } else {
            bottom - y
        };
        slots.push(Slot { index: k, y, height: render_height, skip: remaining_skip });
        y += render_height;
        remaining_skip = 0;
        k += 1;
    }
    slots
}

} // verus!
