//! The chat view's state, and the decisions of drawing it: which row is at
//! the top, and where each message goes.

use vstd::prelude::*;

use crate::cli::Area;
use crate::cli::widgets::input_box::{key_effect, stroke_of, InputBox, KeyInput, TextState};
use crate::model::message::{Message as ModelMessage, MessageKind, MessageView, views_of};
use crate::model::model::{Focus, Model, ModelView};
use crate::model::notification::{seconds, NotificationKind};
use crate::text::{joined, join_lines, sat_add, sat_sub, split_content, strings_view, textwrap_rows};

use super::message::{Message, MessageWidgetView, PADDING, shown, shown_text};
use super::scroll::{
    at_pos_of_at_row_clamps, at_pos_undoes_at_row, at_pos_within_content, at_row_in_range, shown_rows_nonempty, ChatCoords,
    CoordsView, Scroll, ScrollPos,
};

verus! {


#[derive(Debug, PartialEq, Eq, Clone, Copy, Structural)]
pub enum VisMode {
    All,
    NonThinking,
}

/// The other visibility mode.
pub open spec fn toggled(v: VisMode) -> VisMode {
    match v {
        VisMode::All => VisMode::NonThinking,
        VisMode::NonThinking => VisMode::All,
    }
}

/// Toggling the visibility twice brings it back.
pub proof fn toggle_twice_restores(v: VisMode)
    ensures
        toggled(toggled(v)) == v,
{
}

/// state-tracking
pub struct Chat {
    pub scroll: Scroll,
    pub(super) pos: ScrollPos,
    /// updated before every render
    pub(super) focus_state: Focus,
    pub(super) input_box: InputBox,
    pub(super) vis_mode: VisMode,
}

/// What the chat view holds.
pub struct ChatView {
    pub scroll: Scroll,
    pub pos: ScrollPos,
    pub focus: Focus,
    /// The lines of the input box.
    pub input: Seq<Seq<char>>,
    pub vis: VisMode,
}

impl View for Chat {
    type V = ChatView;

    closed spec fn view(&self) -> ChatView {
        ChatView {
            scroll: self.scroll,
            pos: self.pos,
            focus: self.focus_state,
            input: self.input_box@,
            vis: self.vis_mode,
        }
    }
}

impl Default for Chat {
    fn default() -> (r: Self)
        ensures
            r@ == (ChatView {
                scroll: Scroll::Max,
                pos: ScrollPos { message: 0, skip: 0 },
                focus: Focus::Input,
                input: seq![Seq::empty()],
                vis: VisMode::All,
            }),
            r.cursor() == (0usize, 0usize),
            !r.selecting(),
    {
        proof {
            reveal_strlit("");
        }
        Self {
            scroll: Scroll::Max,
            pos: ScrollPos { message: 0, skip: 0 },
            focus_state: Focus::Input,
            input_box: InputBox::new(""),
            vis_mode: VisMode::All,
        }
    }
}

/// Whether leaving focus `from` for focus `to` pins the view to the bottom:
/// the last message was selected or edited and the input box takes the focus.
pub open spec fn pins_scroll(from: Focus, to: Focus, last_msg: int) -> bool {
    to == Focus::Input && match from {
        Focus::Edit(i) => i == last_msg,
        Focus::Select(i) => i == last_msg,
        Focus::Input => false,
    }
}

/// How syncing the view with the model leaves them: unchanged when the
/// focus has not moved; otherwise the box's text is written back to what
/// the old focus edited (an edited message, or the model's input box), the
/// view is pinned to the bottom (with a notice, when it can be shown) when
/// the focus leaves the last message for the input box, and the box is
/// loaded with what the new focus edits.
pub open spec fn synced(c0: ChatView, c1: ChatView, m0: ModelView, m1: ModelView) -> bool {
    &&& c0.focus == m0.focus ==> c1 == c0 && m1 == m0
    &&& c0.focus != m0.focus ==> {
            let last = if m0.messages.len() == 0 { 0 } else { m0.messages.len() - 1 };
            let pinned = pins_scroll(c0.focus, m0.focus, last);
            let text = joined(c0.input, '\n');
            let m = m1;
            &&& m.messages == match c0.focus {
                Focus::Edit(i) => with_content(m0.messages, i as int, text),
                _ => m0.messages,
            }
            &&& m.input_box == match c0.focus {
                Focus::Edit(_) => m0.input_box,
                _ => text,
            }
            &&& !pinned ==> m.notifications == m0.notifications
            &&& pinned ==> m.notifications == m0.notifications || {
                &&& m.notifications.len() == m0.notifications.len() + 1
                &&& m.notifications.drop_last() == m0.notifications
                &&& m.notifications.last().kind == NotificationKind::Info
                &&& vstd::string::to_string_from_display_ensures::<&str>(&"scroll pinned", m.notifications.last().message)
            }
            &&& m == (ModelView { messages: m.messages, input_box: m.input_box, notifications: m.notifications, ..m0 })
            &&& c1 == (ChatView {
                scroll: if pinned { Scroll::Max } else { c0.scroll },
                focus: m0.focus,
                input: split_content(focus_text(m, m0.focus)),
                ..c0
            })
            &&& joined(c1.input, '\n') == focus_text(m, m0.focus)
        }
}

/// Leaving the last message for the input box pins the view to the bottom,
/// whether that message was selected or edited; any other change of focus
/// keeps the scroll request.  When the view is pinned the notices are kept,
/// with at most a "scroll pinned" notice added.
pub proof fn leaving_last_message_pins_view(c0: ChatView, c1: ChatView, m0: ModelView, m1: ModelView)
    requires
        synced(c0, c1, m0, m1),
        c0.focus != m0.focus,
        m0.messages.len() > 0,
    ensures
        ({
            let last = m0.messages.len() - 1;
            let leaves_last = match c0.focus {
                Focus::Edit(i) => i == last,
                Focus::Select(i) => i == last,
                Focus::Input => false,
            };
            &&& (leaves_last && m0.focus == Focus::Input) ==> c1.scroll == Scroll::Max
            &&& !(leaves_last && m0.focus == Focus::Input) ==> c1.scroll == c0.scroll
            &&& m1.notifications.len() <= m0.notifications.len() + 1
            &&& m1.notifications.take(m0.notifications.len() as int) == m0.notifications
        }),
{
    assert(m0.notifications.take(m0.notifications.len() as int) =~= m0.notifications);
    if m1.notifications != m0.notifications {
        assert(m1.notifications.take(m0.notifications.len() as int) =~= m1.notifications.drop_last());
    }
}

/// The text kept for the focus `f`: an edited message's own text, otherwise
/// the input box text.
pub open spec fn focus_text(m: ModelView, f: Focus) -> Seq<char> {
    match f {
        Focus::Edit(i) => m.messages[i as int].content,
        _ => m.input_box,
    }
}

/// The messages after message `i` is given the text `text`.
pub open spec fn with_content(msgs: Seq<MessageView>, i: int, text: Seq<char>) -> Seq<MessageView> {
    msgs.update(i, MessageView { content: text, ..msgs[i] })
}

impl Chat {
    /// Where the input box's cursor is: its row and its column in characters.
    pub closed spec fn cursor(&self) -> (usize, usize) {
        self.input_box.cursor()
    }

    /// Whether a selection is under way in the input box.
    pub closed spec fn selecting(&self) -> bool {
        self.input_box.selecting()
    }

    /// What handing `key` to the input box gives: whether it reports an
    /// edit, and the lines it leaves.
    pub closed spec fn keyed(&self, key: KeyInput) -> (bool, Seq<Seq<char>>) {
        self.input_box.keyed(key)
    }

    /// The input box's lines, cursor and selection.
    pub open spec fn text_state(&self) -> TextState {
        TextState { lines: self@.input, cursor: self.cursor(), selecting: self.selecting() }
    }

    pub fn new() -> (r: Self)
        ensures
            r@ == (ChatView {
                scroll: Scroll::Max,
                pos: ScrollPos { message: 0, skip: 0 },
                focus: Focus::Input,
                input: seq![Seq::empty()],
                vis: VisMode::All,
            }),
            r.cursor() == (0usize, 0usize),
            !r.selecting(),
    {
        Self::default()
    }

    /// syncs the state with the model
    /// update stale old data
    ///
    /// When the model's focus has moved, the input box's text is written back
    /// to what the old focus edited (an edited message, or the input box of
    /// the model), and the box is loaded with what the new focus edits.
    pub fn sync(&mut self, model: &mut Model)
        requires
            old(self)@.focus matches Focus::Edit(i) ==> i < old(model)@.messages.len(),
            old(model)@.focus matches Focus::Edit(j) ==> j < old(model)@.messages.len(),
        ensures
            synced(old(self)@, final(self)@, old(model)@, final(model)@),
            old(self)@.focus == old(model)@.focus ==> final(self).cursor() == old(self).cursor(),
            old(self)@.focus != old(model)@.focus ==> final(self).cursor() == (
                (final(self)@.input.len() - 1) as usize,
                final(self)@.input.last().len() as usize,
            ),
            old(self)@.focus == old(model)@.focus ==> final(self).selecting() == old(self).selecting(),
            old(self)@.focus != old(model)@.focus ==> !final(self).selecting(),
    {
        if &self.focus_state == model.current_focus() {
            return;
        }
        let ghost m0 = model@;
        let last_msg = model.last_msg_idx();
        let pinned = match &self.focus_state {
            Focus::Edit(i) => *i == last_msg,
            Focus::Select(i) => *i == last_msg,
            Focus::Input => false,
        } && model.current_focus() == &Focus::Input;
        if pinned {
            self.scroll = Scroll::Max;
            let _shown = model.notify(NotificationKind::Info, "scroll pinned", seconds(1));
        }
        let ghost m1 = model@;
        let content = join_lines(self.input_box.lines().as_slice());
        match self.focus_state {
            Focus::Edit(i) => {
                let msgs = model.all_messages_mut();
                let old_msg = &msgs[i];
                let updated = ModelMessage { uuid: old_msg.uuid, index: old_msg.index, kind: old_msg.kind, content };
                msgs.set(i, updated);
            },
            Focus::Input | Focus::Select(_) => model.set_input_box(content),
        }
        let ghost m2 = model@;
        assert(m2.messages =~= match old(self)@.focus {
            Focus::Edit(i) => with_content(m0.messages, i as int, joined(old(self)@.input, '\n')),
            _ => m0.messages,
        });
        let content = match model.current_focus() {
            Focus::Edit(i) => model.all_messages()[*i].content.clone(),
            Focus::Input | Focus::Select(_) => model.input_text(),
        };
        self.input_box = InputBox::new(content.as_str());
        self.focus_state = *model.current_focus();
        proof {
            crate::text::join_undoes_split(content@);
        }
    }

    pub fn input(&mut self, input: KeyInput) -> (r: bool)
        ensures
            final(self)@ == (ChatView { input: final(self)@.input, ..old(self)@ }),
            (r, final(self)@.input) == old(self).keyed(input),
            key_effect(stroke_of(input), old(self).text_state(), r, final(self).text_state()),
    {
        self.input_box.input(input)
    }

    pub fn lines(&self) -> (r: Vec<String>)
        ensures
            strings_view(r@) == self@.input,
    {
        self.input_box.lines()
    }

    pub fn clear_input(&mut self)
        ensures
            final(self)@ == (ChatView { input: seq![Seq::empty()], ..old(self)@ }),
            final(self).cursor() == (0usize, 0usize),
            !final(self).selecting(),
    {
        self.input_box.clear();
    }

    pub fn scroll_up(&mut self, i: usize)
        requires
            i <= i64::MAX,
        ensures
            final(self)@ == (ChatView { scroll: Scroll::Delta(-(i as int) as i64), ..old(self)@ }),
            final(self).cursor() == old(self).cursor(),
            final(self).selecting() == old(self).selecting(),
    {
        self.scroll = Scroll::Delta(-(i as i64));
    }

    pub fn scroll_down(&mut self, i: usize)
        requires
            i <= i64::MAX,
        ensures
            final(self)@ == (ChatView { scroll: Scroll::Delta(i as i64), ..old(self)@ }),
            final(self).cursor() == old(self).cursor(),
            final(self).selecting() == old(self).selecting(),
    {
        self.scroll = Scroll::Delta(i as i64);
    }

    pub fn input_box_height(&self, width: usize) -> (r: usize)
        ensures
            r == sat_add(textwrap_rows(joined(self@.input, '\n'), width).len() as int, 2),
    {
        self.input_box.total_widget_height(width)
    }

    pub fn vis_mode(&self) -> (r: &VisMode)
        ensures
            *r == self@.vis,
    {
        &self.vis_mode
    }

    pub fn set_visibility_opt(&mut self, filter_opt: VisMode)
        ensures
            final(self)@ == (ChatView { vis: filter_opt, ..old(self)@ }),
            final(self).cursor() == old(self).cursor(),
            final(self).selecting() == old(self).selecting(),
    {
        self.vis_mode = filter_opt;
    }

    pub fn toggle_vis(&mut self)
        ensures
            final(self)@ == (ChatView { vis: toggled(old(self)@.vis), ..old(self)@ }),
            final(self).cursor() == old(self).cursor(),
            final(self).selecting() == old(self).selecting(),
    {
        match self.vis_mode {
            VisMode::All => self.vis_mode = VisMode::NonThinking,
            VisMode::NonThinking => self.vis_mode = VisMode::All,
        }
    }

    /// The focus the view last synced to.
    pub fn focus_state(&self) -> (r: &Focus)
        ensures
            *r == self@.focus,
    {
        &self.focus_state
    }

    /// The scroll position the view is anchored at.
    pub fn pos(&self) -> (r: ScrollPos)
        ensures
            r == self@.pos,
    {
        self.pos
    }

    /// The input box, for drawing.
    pub fn input_box(&self) -> (r: &InputBox)
        ensures
            r@ == self@.input,
            r.cursor() == self.cursor(),
            r.selecting() == self.selecting(),
    {
        &self.input_box
    }
}

/// The slots laid out are no taller than the area, each below the one before.
pub proof fn layout_stays_in_area(heights: Seq<usize>, pos: ScrollPos, area: Area)
    requires
        pos.message < heights.len() ==> pos.skip <= heights[pos.message as int],
        area.y + area.height <= u16::MAX,
    ensures
        ({
            let s = slots_from(heights, pos.message as int, pos.skip as int, area.y as int, area.y + area.height);
            &&& forall|k: int| 0 <= k < s.len() ==> area.y <= #[trigger] s[k].y && s[k].y + s[k].height <= area.y + area.height
            &&& forall|k: int, l: int| 0 <= k < l < s.len() ==> s[k].y + s[k].height <= s[l].y
        }),
{
    slots_stay_inside(heights, pos.message as int, pos.skip as int, area.y as int, area.y + area.height);
}

pub struct ChatWidget<'m> {
    messages: &'m Vec<ModelMessage>,
    focus: &'m Focus,
}

/// Where one message goes in the chat area: its index, its top row, how many
/// rows of it are drawn, and how many of its rows are scrolled away above.
#[derive(Debug, Clone, Copy, PartialEq, Eq, Structural)]
pub struct Slot {
    pub index: usize,
    pub y: usize,
    pub height: usize,
    pub skip: usize,
}

/// The slots of the messages from `i` on, drawn from row `y` down to
/// `bottom`, with `skip` rows of message `i` scrolled away: each message gets
/// its rows less the skipped ones, cut at the bottom, until the area is full.
pub open spec fn slots_from(heights: Seq<usize>, i: int, skip: int, y: int, bottom: int) -> Seq<Slot>
    decreases heights.len() - i,
{
    if i < 0 || i >= heights.len() || y >= bottom {
        Seq::empty()
    } else {
        let rest = heights[i] - skip;
        let h = if rest < bottom - y {
            rest
        } else {
            bottom - y
        };
        seq![Slot { index: i as usize, y: y as usize, height: h as usize, skip: skip as usize }] + slots_from(
            heights,
            i + 1,
            0,
            y + h,
            bottom,
        )
    }
}

/// Every slot lies inside the rows `y..bottom`, below the slots before it.
pub proof fn slots_stay_inside(heights: Seq<usize>, i: int, skip: int, y: int, bottom: int)
    requires
        0 <= i,
        0 <= skip,
        0 <= y,
        i < heights.len() ==> skip <= heights[i],
        bottom <= usize::MAX,
    ensures
        forall|k: int|
            0 <= k < slots_from(heights, i, skip, y, bottom).len() ==> y <= #[trigger] slots_from(
                heights,
                i,
                skip,
                y,
                bottom,
            )[k].y && slots_from(heights, i, skip, y, bottom)[k].y + slots_from(heights, i, skip, y, bottom)[k].height
                <= bottom,
        forall|k: int, l: int|
            0 <= k < l < slots_from(heights, i, skip, y, bottom).len() ==> slots_from(heights, i, skip, y, bottom)[k].y
                + slots_from(heights, i, skip, y, bottom)[k].height <= slots_from(heights, i, skip, y, bottom)[l].y,
    decreases heights.len() - i,
{
    let all = slots_from(heights, i, skip, y, bottom);
    if i < heights.len() && y < bottom {
        let rest = heights[i] - skip;
        let h = if rest < bottom - y { rest } else { bottom - y };
        slots_stay_inside(heights, i + 1, 0, y + h, bottom);
        let tail = slots_from(heights, i + 1, 0, y + h, bottom);
        assert(all == seq![Slot { index: i as usize, y: y as usize, height: h as usize, skip: skip as usize }] + tail);
        assert forall|k: int| 0 <= k < all.len() implies y <= #[trigger] all[k].y && all[k].y + all[k].height <= bottom by {
            if k > 0 {
                assert(all[k] == tail[k - 1]);
            }
        }
        assert forall|k: int, l: int| 0 <= k < l < all.len() implies all[k].y + all[k].height <= all[l].y by {
            assert(all[l] == tail[l - 1]);
            if k > 0 {
                assert(all[k] == tail[k - 1]);
            }
        }
    }
}

/// The row the view starts at for a given scroll request, before clamping
/// to the last screenful: a nudge moves from the current position, `Max`
/// goes to the bottom, and `Focus` brings the edited message into view
/// (its bottom at the area's bottom when it fits, its top at the top
/// otherwise), or stays put when nothing is edited.
pub open spec fn scroll_target(c: CoordsView, scroll: Scroll, pos: ScrollPos, area_height: int) -> int {
    let max_scroll = sat_sub(c.total() as int, area_height);
    match scroll {
        Scroll::Delta(d) => if d >= 0 {
            c.at_pos(c.at_row(c.at_pos(pos) + (d as usize)))
        } else {
            c.at_pos(c.at_row(sat_sub(c.at_pos(pos), (-d) as usize as int)))
        },
        Scroll::Max => max_scroll,
        Scroll::Focus => match c.editing {
            Some(i) => if c.h(i as int) <= area_height {
                sat_sub((c.rows_to(i as int) + c.h(i as int)) as int, area_height)
            } else {
                c.rows_to(i as int) as int
            },
            None => c.at_pos(pos),
        },
    }
}

/// A nudge is applied once: resolving it moves the view and spends it, and
/// resolving again with nothing changed keeps the view where it is.
pub proof fn nudge_applies_once(c: CoordsView, d: i64, pos: ScrollPos, area_height: int)
    requires
        c.fits(),
        area_height >= 1,
    ensures
        ({
            let r1 = resolved_row(c, Scroll::Delta(d), pos, area_height);
            &&& spent(Scroll::Delta(d)) == Scroll::Delta(0)
            &&& resolved_row(c, Scroll::Delta(0), c.at_row(r1), area_height) == r1
        }),
{
    let r1 = resolved_row(c, Scroll::Delta(d), pos, area_height);
    assert(c.at_pos(pos) >= 0);
    if c.total() > 0 {
        assert(0 <= r1 < c.total());
        at_pos_undoes_at_row(c, r1);
        assert(c.at_pos(c.at_row(r1)) + (0i64 as usize) == r1);
    }
}

/// Resolving the scroll twice with nothing changed in between keeps the
/// view: the second time is allowed, gives the same top row and the same
/// position, and leaves the request spent.  A nudge is applied once.
pub proof fn resolving_twice_keeps_the_view(c: CoordsView, scroll: Scroll, pos: ScrollPos, area_height: int)
    requires
        layout_fits(c, scroll, pos),
        shown_rows_nonempty(c),
        area_height >= 1,
    ensures
        ({
            let r1 = resolved_row(c, scroll, pos, area_height);
            let s1 = spent(scroll);
            let p1 = c.at_row(r1);
            &&& layout_fits(c, s1, p1)
            &&& resolved_row(c, s1, p1, area_height) == r1
            &&& spent(s1) == s1
            &&& c.at_row(resolved_row(c, s1, p1, area_height)) == p1
        }),
{
    at_pos_within_content(c, pos);
    if let Scroll::Delta(d) = scroll {
        if d >= 0 {
            at_pos_within_content(c, c.at_row(c.at_pos(pos) + (d as usize)));
        } else {
            at_pos_within_content(c, c.at_row(sat_sub(c.at_pos(pos), (-d) as usize as int)));
        }
    }
    let r1 = resolved_row(c, scroll, pos, area_height);
    assert(r1 >= 0);
    at_pos_of_at_row_clamps(c, r1);
    let p1 = c.at_row(r1);
    assert(c.at_pos(p1) == r1);
    at_pos_of_at_row_clamps(c, c.at_pos(p1) + (0i64 as usize));
}

/// What drawing the chat needs: the shown messages, where each goes, and
/// the top row of the view.
pub struct ChatPlan {
    pub messages: Vec<Message>,
    pub slots: Vec<Slot>,
    pub scroll_offset: usize,
}

/// The later window's view never starts past its last screenful.
pub proof fn view_row_within_last_screen(c: CoordsView, scroll: Scroll, pos: ScrollPos, area_height: int)
    ensures
        resolved_row(c, scroll, pos, area_height) <= sat_sub(c.total() as int, area_height),
{
}

/// Whether the sums that laying out needs fit in a `usize`: the rows of
/// the content, the rows down to the end of the edited message, and the
/// row a nudge goes to.
pub open spec fn layout_fits(c: CoordsView, scroll: Scroll, pos: ScrollPos) -> bool {
    &&& c.fits()
    &&& c.editing matches Some(i) ==> i < c.len() && c.rows_to(i as int) + c.h(i as int) <= usize::MAX
    &&& scroll matches Scroll::Delta(d) ==> d != i64::MIN && (d >= 0 ==> c.at_pos(pos) + (d as usize)
        <= usize::MAX)
}

/// The top row of the view: `scroll_target` clamped to the last screenful.
pub open spec fn resolved_row(c: CoordsView, scroll: Scroll, pos: ScrollPos, area_height: int) -> int {
    let max_scroll = sat_sub(c.total() as int, area_height);
    let target = scroll_target(c, scroll, pos, area_height);
    if target < max_scroll {
        target
    } else {
        max_scroll
    }
}

/// The scroll request after it has been resolved: a nudge is used once.
pub open spec fn spent(scroll: Scroll) -> Scroll {
    match scroll {
        Scroll::Delta(_) => Scroll::Delta(0),
        s => s,
    }
}

/// resolves `scroll` into a top-of-viewport row, then re-anchors `pos` to
/// that row so later nudges stay stable; a nudge is used once and then reset
/// to no movement.
pub fn resolve_scroll_at(area: Area, coords: &ChatCoords, scroll: &mut Scroll, pos: &mut ScrollPos) -> (r: usize)
    requires
        layout_fits(coords@, *old(scroll), *old(pos)),
    ensures
        r == resolved_row(coords@, *old(scroll), *old(pos), area.height as int),
        *final(scroll) == spent(*old(scroll)),
        *final(pos) == coords@.at_row(r as int),
{
    let max_scroll = coords.total_height().saturating_sub(area.height as usize);
    let target_row = match *scroll {
        Scroll::Delta(delta) => {
            let new_pos = if delta >= 0 {
                coords.pos_below(pos, delta as usize)
            } else {
                coords.pos_above(pos, (-delta) as usize)
            };
            coords.at_pos(&new_pos)
        },
        Scroll::Max => max_scroll,
        Scroll::Focus => {
            match coords.focused_index() {
                Some(i) => {
                    let focused_offset = coords.rows_before(i);
                    let focused_height = coords.height(i);
                    if focused_height <= area.height as usize {
                        (focused_offset + focused_height).saturating_sub(area.height as usize)
                    } else {
                        focused_offset
                    }
                },
                None => coords.at_pos(pos),
            }
        },
    };
    let row = if target_row < max_scroll {
        target_row
    } else {
        max_scroll
    };
    // reset delta
    if let Scroll::Delta(_) = *scroll {
        *scroll = Scroll::Delta(0);
    }
    *pos = coords.at_row(row);
    row
}

/// The rows each message takes in `c`.
pub open spec fn heights_of(c: CoordsView) -> Seq<usize> {
    Seq::new(c.len(), |i: int| c.h(i) as usize)
}

/// Resolves the scroll and lays the messages out in `area`: the top row of
/// the view, and a slot for each message from the anchored one down until
/// the area is full.
pub fn lay_out(area: Area, coords: &ChatCoords, scroll: &mut Scroll, pos: &mut ScrollPos) -> (r: (usize, Vec<Slot>))
    requires
        area.y + area.height <= u16::MAX,
        layout_fits(coords@, *old(scroll), *old(pos)),
    ensures
        r.0 == resolved_row(coords@, *old(scroll), *old(pos), area.height as int),
        *final(scroll) == spent(*old(scroll)),
        *final(pos) == coords@.at_row(r.0 as int),
        r.1@ == slots_from(heights_of(coords@), final(pos).message as int, final(pos).skip as int, area.y as int, area.y
            + area.height),
{
    let scroll_offset = resolve_scroll_at(area, coords, scroll, pos);
    let n = coords.len();
    let ghost c = coords@;
    let mut heights: Vec<usize> = Vec::new();
    let mut i: usize = 0;
    while i < n
        invariant
            n == c.len(),
            c == coords@,
            c.fits(),
            i <= n,
            heights@ == Seq::new(i as nat, |j: int| c.h(j) as usize),
        decreases n - i,
    {
        let h = coords.height(i);
        heights.push(h);
        i += 1;
        assert(heights@ =~= Seq::new(i as nat, |j: int| c.h(j) as usize));
    }
    proof {
        at_row_in_range(c, scroll_offset as int);
    }
    let p = *pos;
    let bottom: usize = (area.y + area.height) as usize;
    let mut slots: Vec<Slot> = Vec::new();
    let mut remaining_skip = p.skip;
    let mut y: usize = area.y as usize;
    let mut k: usize = p.message;
    let ghost hs = heights@;
    while k < n
        invariant
            n == hs.len(),
            hs == heights@,
            k < n ==> remaining_skip <= hs[k as int],
            y <= bottom <= u16::MAX,
            slots@ + slots_from(hs, k as int, remaining_skip as int, y as int, bottom as int) == slots_from(
                hs,
                p.message as int,
                p.skip as int,
                area.y as int,
                bottom as int,
            ),
        ensures
            slots@ == slots_from(hs, p.message as int, p.skip as int, area.y as int, bottom as int),
        decreases n - k,
    {
        if y >= bottom {
            assert(slots_from(hs, k as int, remaining_skip as int, y as int, bottom as int) =~= Seq::empty());
            assert(slots@ =~= slots@ + Seq::<Slot>::empty());
            break;
        }
        let effective_h = heights[k];
        let rest = effective_h - remaining_skip;
        let render_height = if rest < bottom - y {
            rest
        } else {
            bottom - y
        };
        slots.push(Slot { index: k, y, height: render_height, skip: remaining_skip });
        y += render_height;
        remaining_skip = 0;
        k += 1;
    }
    assert(hs =~= heights_of(c));
    (scroll_offset, slots)
}

/// Tests `layout_fits` for `coords`.
pub fn check_layout_fits(coords: &ChatCoords, scroll: Scroll, pos: ScrollPos) -> (r: bool)
    ensures
        r == layout_fits(coords@, scroll, pos),
{
    let total = coords.checked_total();
    if total.is_none() {
        return false;
    }
    match coords.focused_index() {
        Some(i) => {
            if i >= coords.len() {
                return false;
            }
            let before = coords.rows_before(i);
            let h = coords.height(i);
            if before > usize::MAX - h {
                return false;
            }
        },
        None => {},
    }
    match scroll {
        Scroll::Delta(d) => {
            if d == i64::MIN {
                return false;
            }
            if d >= 0 {
                let at = coords.at_pos(&pos);
                if at > usize::MAX - #[verifier::truncate] (d as usize) {
                    return false;
                }
            }
        },
        _ => {},
    }
    true
}

impl<'m> ChatWidget<'m> {
    pub fn new(model: &'m Model) -> (r: Self)
        ensures
            r.messages_spec() == model.message_values(),
            r.focus_spec() == model@.focus,
    {
        Self { messages: model.all_messages(), focus: model.current_focus() }
    }

    /// The messages the widget shows.
    pub closed spec fn messages_spec(&self) -> Seq<ModelMessage> {
        self.messages@
    }

    /// The focus the widget shows.
    pub closed spec fn focus_spec(&self) -> Focus {
        *self.focus
    }

    /// resolves `state.scroll` into a top-of-viewport row (see `resolve_scroll_at`).
    fn resolve_scroll(&self, area: Area, coords: &ChatCoords, state: &mut Chat) -> (r: usize)
        requires
            layout_fits(coords@, old(state)@.scroll, old(state)@.pos),
        ensures
            r == resolved_row(coords@, old(state)@.scroll, old(state)@.pos, area.height as int),
            final(state)@ == (ChatView {
                scroll: spent(old(state)@.scroll),
                pos: coords@.at_row(r as int),
                ..old(state)@
            }),
    {
        let mut scroll = state.scroll;
        let mut pos = state.pos;
        let r = resolve_scroll_at(area, coords, &mut scroll, &mut pos);
        state.scroll = scroll;
        state.pos = pos;
        r
    }

    /// Lays the chat out in `area`: the messages as shown at its width (see
    /// `Message::new` and `Message::init_wrap`), the top row after resolving
    /// the scroll request, and their slots (see `lay_out`).  `None`, with
    /// the state untouched, when the sums of rows would not fit in a `usize`.
    pub fn render_chat(&self, area: Area, state: &mut Chat) -> (r: Option<ChatPlan>)
        requires
            area.y + area.height <= u16::MAX,
        ensures
            r is None <==> !layout_fits(
                chat_coords(self.messages_spec(), old(state)@.vis, old(state)@.focus, self.focus_spec(), old(state)@.input, area.width),
                old(state)@.scroll,
                old(state)@.pos,
            ),
            r is None ==> final(state)@ == old(state)@,
            r matches Some(plan) ==> plan.messages@.map_values(|m: Message| m@) == chat_coords(
                self.messages_spec(), old(state)@.vis, old(state)@.focus, self.focus_spec(), old(state)@.input, area.width,
            ).msgs,
            r matches Some(plan) ==> {
                let c = CoordsView {
                    msgs: plan.messages@.map_values(|m: Message| m@),
                    editing: match self.focus_spec() {
                        Focus::Edit(i) => Some(i),
                        _ => None,
                    },
                    input_box_height: sat_add(textwrap_rows(joined(old(state)@.input, '\n'), area.width as usize).len() as int, 2) as usize,
                };
                &&& plan.messages@.len() == self.messages_spec().len()
                &&& forall|i: int| 0 <= i < plan.messages@.len() ==> #[trigger] plan.messages@[i]@ == (MessageWidgetView {
                    wrapped: Some((textwrap_rows(shown_text(self.messages_spec()[i].kind, self.messages_spec()[i].content@, old(state)@.vis), sat_sub(area.width as int, PADDING as int) as usize),
                        sat_sub(area.width as int, PADDING as int) as usize)),
                    ..shown(self.messages_spec()[i], old(state)@.vis, old(state)@.focus)
                })
                &&& plan.scroll_offset == resolved_row(c, old(state)@.scroll, old(state)@.pos, area.height as int)
                &&& final(state)@ == (ChatView {
                    scroll: spent(old(state)@.scroll),
                    pos: c.at_row(plan.scroll_offset as int),
                    ..old(state)@
                })
                &&& plan.slots@ == slots_from(heights_of(c), final(state)@.pos.message as int, final(state)@.pos.skip as int, area.y as int, area.y + area.height)
            },
    {
        let n = self.messages.len();
        let mut messages: Vec<Message> = Vec::new();
        let mut i: usize = 0;
        while i < n
            invariant
                n == self.messages@.len(),
                i <= n,
                messages@.len() == i,
                forall|j: int| 0 <= j < i ==> #[trigger] messages@[j]@ == (MessageWidgetView {
                    wrapped: Some((textwrap_rows(shown_text(self.messages@[j].kind, self.messages@[j].content@, state@.vis), sat_sub(area.width as int, PADDING as int) as usize),
                        sat_sub(area.width as int, PADDING as int) as usize)),
                    ..shown(self.messages@[j], state@.vis, state@.focus)
                }),
            decreases n - i,
        {
            let mut widget = Message::new(&self.messages[i], &*state);
            widget.init_wrap(area.width as usize);
            messages.push(widget);
            i += 1;
        }
        let input_box_height = state.input_box_height(area.width as usize);
        let coords = ChatCoords::new(messages.as_slice(), self.focus, input_box_height);
        assert(coords@.msgs =~= chat_coords(self.messages@, state@.vis, state@.focus, *self.focus, state@.input, area.width).msgs);
        if !check_layout_fits(&coords, state.scroll, state.pos) {
            return None;
        }
        let mut scroll = state.scroll;
        let mut pos = state.pos;
        let (scroll_offset, slots) = lay_out(area, &coords, &mut scroll, &mut pos);
        state.scroll = scroll;
        state.pos = pos;
        Some(ChatPlan { messages, slots, scroll_offset })
    }
}

/// How message `m` is shown in an area `width` columns wide: as `shown`
/// says, with its text wrapped two columns narrower.
pub open spec fn shown_wrapped(m: ModelMessage, vis: VisMode, focus: Focus, width: u16) -> MessageWidgetView {
    MessageWidgetView {
        wrapped: Some(
            (
                textwrap_rows(shown_text(m.kind, m.content@, vis), sat_sub(width as int, PADDING as int) as usize),
                sat_sub(width as int, PADDING as int) as usize,
            ),
        ),
        ..shown(m, vis, focus)
    }
}

/// The scroll coordinates of the messages `msgs` shown in an area `width`
/// columns wide, with thinking shown as `vis` says, the view's focus
/// `view_focus` marking the selected message, the message the model edits
/// (`model_focus`) drawn as the input box, and that box holding `input`.
pub open spec fn chat_coords(
    msgs: Seq<ModelMessage>,
    vis: VisMode,
    view_focus: Focus,
    model_focus: Focus,
    input: Seq<Seq<char>>,
    width: u16,
) -> CoordsView {
    CoordsView {
        msgs: msgs.map_values(|m: ModelMessage| shown_wrapped(m, vis, view_focus, width)),
        editing: match model_focus {
            Focus::Edit(i) => Some(i),
            _ => None,
        },
        input_box_height: sat_add(textwrap_rows(joined(input, '\n'), width as usize).len() as int, 2) as usize,
    }
}

} // verus!
