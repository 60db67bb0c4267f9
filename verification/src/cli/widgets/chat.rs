//! The chat view, in the form that names its options `VisibilityOpt`; the
//! submodules hold the chat view in its later form, its messages and its
//! scroll coordinates.
use vstd::prelude::*;

use crate::cli::Area;
use crate::cli::widgets::input_box::{key_effect, stroke_of, InputBox, KeyInput, TextState};
use crate::model::message::{Message as ModelMessage, MessageView};
use crate::model::model::{Focus, Model, ModelView};
use crate::text::{joined, join_lines, sat_add, sat_sub, split_content, strings_view, textwrap_rows};

use self::chat::{
    chat_coords, check_layout_fits, focus_text, heights_of, layout_fits, lay_out, resolved_row, slots_from, spent, with_content, ChatPlan, VisMode,
};
use self::message::{shown, shown_text, Message, MessageWidgetView, PADDING};
use self::scroll::{ChatCoords, CoordsView, Scroll, ScrollPos};

pub mod chat;
pub mod message;
pub mod scroll;

verus! {

#[derive(Debug, PartialEq, Eq, Clone, Copy, Structural)]
pub enum VisibilityOpt {
    All,
    NonThinking,
}

/// state-tracking
pub struct Chat {
    pub scroll: Scroll,
    pos: ScrollPos,
    last_focus_state: Focus,
    input_box: InputBox,
    visibility_opt: VisibilityOpt,
}

/// What the chat view holds.
pub struct ChatView {
    pub scroll: Scroll,
    pub pos: ScrollPos,
    pub focus: Focus,
    pub input: Seq<Seq<char>>,
    pub vis: VisibilityOpt,
}

impl View for Chat {
    type V = ChatView;

    closed spec fn view(&self) -> ChatView {
        ChatView {
            scroll: self.scroll,
            pos: self.pos,
            focus: self.last_focus_state,
            input: self.input_box@,
            vis: self.visibility_opt,
        }
    }
}

impl Chat {
    /// Where the input box's cursor is: its row and its column in characters.
    pub closed spec fn cursor(&self) -> (usize, usize) {
        self.input_box.cursor()
    }

    /// Whether a selection is under way in the input box.
    pub closed spec fn selecting(&self) -> bool {
        self.input_box.selecting()
    }

    /// What handing `key` to the input box gives: whether it reports an
    /// edit, and the lines it leaves.
    pub closed spec fn keyed(&self, key: KeyInput) -> (bool, Seq<Seq<char>>) {
        self.input_box.keyed(key)
    }

    /// The input box's lines, cursor and selection.
    pub open spec fn text_state(&self) -> TextState {
        TextState { lines: self@.input, cursor: self.cursor(), selecting: self.selecting() }
    }

    pub fn new() -> (r: Self)
        ensures
            r@ == (ChatView {
                scroll: Scroll::Max,
                pos: ScrollPos { message: 0, skip: 0 },
                focus: Focus::Input,
                input: seq![Seq::empty()],
                vis: VisibilityOpt::All,
            }),
            r.cursor() == (0usize, 0usize),
            !r.selecting(),
    {
        proof {
            reveal_strlit("");
        }
        let input_box = InputBox::new("");
        Self {
            scroll: Scroll::Max,
            pos: ScrollPos { message: 0, skip: 0 },
            last_focus_state: Focus::Input,
            input_box,
            visibility_opt: VisibilityOpt::All,
        }
    }

    /// syncs the state with the model
    /// focus state sync
    ///
    /// When the model's focus has moved, the box's text is written back to
    /// the message being edited, or else to the model's input box, and the
    /// box is loaded with what the new focus edits.
    pub fn sync(&mut self, model: &mut Model)
        requires
            old(self)@.focus matches Focus::Edit(i) ==> i < old(model)@.messages.len(),
            old(model)@.focus matches Focus::Edit(j) ==> j < old(model)@.messages.len(),
        ensures
            old(self)@.focus == old(model)@.focus ==> final(self)@ == old(self)@ && final(model)@ == old(model)@,
            old(self)@.focus != old(model)@.focus ==> ({
                let text = joined(old(self)@.input, '\n');
                let m = final(model)@;
                &&& m == match old(self)@.focus {
                    Focus::Edit(i) => ModelView { messages: with_content(old(model)@.messages, i as int, text), ..old(model)@ },
                    _ => ModelView { input_box: text, ..old(model)@ },
                }
                &&& final(self)@ == (ChatView {
                    focus: old(model)@.focus,
                    input: split_content(focus_text(m, old(model)@.focus)),
                    ..old(self)@
                })
                &&& joined(final(self)@.input, '\n') == focus_text(m, old(model)@.focus)
            }),
            old(self)@.focus == old(model)@.focus ==> final(self).cursor() == old(self).cursor(),
            old(self)@.focus != old(model)@.focus ==> final(self).cursor() == (
                (final(self)@.input.len() - 1) as usize,
                final(self)@.input.last().len() as usize,
            ),
            old(self)@.focus == old(model)@.focus ==> final(self).selecting() == old(self).selecting(),
            old(self)@.focus != old(model)@.focus ==> !final(self).selecting(),
    {
        if &self.last_focus_state == model.current_focus() {
            return;
        }
        let ghost m0 = model@;
        let content = join_lines(self.input_box.lines().as_slice());
        match self.last_focus_state {
            Focus::Edit(i) => {
                let msgs = model.all_messages_mut();
                let old_msg = &msgs[i];
                let updated = ModelMessage { uuid: old_msg.uuid, index: old_msg.index, kind: old_msg.kind, content };
                msgs.set(i, updated);
            },
            _ => model.set_input_box(content),
        }
        assert(model@.messages =~= match old(self)@.focus {
            Focus::Edit(i) => with_content(m0.messages, i as int, joined(old(self)@.input, '\n')),
            _ => m0.messages,
        });
        let content = match model.current_focus() {
            Focus::Edit(i) => model.all_messages()[*i].content.clone(),
            _ => model.input_text(),
        };
        self.input_box = InputBox::new(content.as_str());
        self.last_focus_state = *model.current_focus();
        proof {
            crate::text::join_undoes_split(content@);
        }
    }

    pub fn input(&mut self, input: KeyInput) -> (r: bool)
        ensures
            final(self)@ == (ChatView { input: final(self)@.input, ..old(self)@ }),
            (r, final(self)@.input) == old(self).keyed(input),
            key_effect(stroke_of(input), old(self).text_state(), r, final(self).text_state()),
    {
        self.input_box.input(input)
    }

    pub fn lines(&self) -> (r: Vec<String>)
        ensures
            strings_view(r@) == self@.input,
    {
        self.input_box.lines()
    }

    pub fn clear_input(&mut self)
        ensures
            final(self)@ == (ChatView { input: seq![Seq::empty()], ..old(self)@ }),
            final(self).cursor() == (0usize, 0usize),
            !final(self).selecting(),
    {
        self.input_box.clear();
    }

    pub fn scroll_up(&mut self, i: usize)
        requires
            i <= i64::MAX,
        ensures
            final(self)@ == (ChatView { scroll: Scroll::Delta(-(i as int) as i64), ..old(self)@ }),
            final(self).cursor() == old(self).cursor(),
            final(self).selecting() == old(self).selecting(),
    {
        self.scroll = Scroll::Delta(-(i as i64));
    }

    pub fn scroll_down(&mut self, i: usize)
        requires
            i <= i64::MAX,
        ensures
            final(self)@ == (ChatView { scroll: Scroll::Delta(i as i64), ..old(self)@ }),
            final(self).cursor() == old(self).cursor(),
            final(self).selecting() == old(self).selecting(),
    {
        self.scroll = Scroll::Delta(i as i64);
    }

    pub fn input_box_height(&self, width: usize) -> (r: usize)
        ensures
            r == sat_add(textwrap_rows(joined(self@.input, '\n'), width).len() as int, 2),
    {
        self.input_box.total_widget_height(width)
    }

    pub fn visibility_opt(&self) -> (r: &VisibilityOpt)
        ensures
            *r == self@.vis,
    {
        &self.visibility_opt
    }

    pub fn set_visibility_opt(&mut self, filter_opt: VisibilityOpt)
        ensures
            final(self)@ == (ChatView { vis: filter_opt, ..old(self)@ }),
            final(self).cursor() == old(self).cursor(),
            final(self).selecting() == old(self).selecting(),
    {
        self.visibility_opt = filter_opt;
    }

    /// The input box, for drawing.
    pub fn input_box(&self) -> (r: &InputBox)
        ensures
            r@ == self@.input,
            r.cursor() == self.cursor(),
            r.selecting() == self.selecting(),
    {
        &self.input_box
    }
}

pub struct ChatWidget<'m> {
    messages: &'m Vec<ModelMessage>,
    focus: &'m Focus,
}

impl<'m> ChatWidget<'m> {
    pub closed spec fn messages_spec(&self) -> Seq<ModelMessage> {
        self.messages@
    }

    pub closed spec fn focus_spec(&self) -> Focus {
        *self.focus
    }

    pub fn new(model: &'m Model) -> (r: Self)
        ensures
            r.messages_spec() == model.message_values(),
            r.focus_spec() == model@.focus,
    {
        Self { messages: model.all_messages(), focus: model.current_focus() }
    }

    /// Lays the chat out in `area` as the later chat view does (see
    /// `chat::ChatWidget::render_chat`), with thinking shown as the
    /// visibility option says.  `None`, with the state untouched, when the
    /// sums of rows would not fit in a `usize`.
    pub fn render_chat(&self, area: Area, state: &mut Chat) -> (r: Option<ChatPlan>)
        requires
            area.y + area.height <= u16::MAX,
        ensures
            r is None <==> !layout_fits(
                chat_coords(
                    self.messages_spec(),
                    vis_mode_of(old(state)@.vis),
                    old(state)@.focus,
                    self.focus_spec(),
                    old(state)@.input,
                    area.width,
                ),
                old(state)@.scroll,
                old(state)@.pos,
            ),
            r is None ==> final(state)@ == old(state)@,
            r matches Some(plan) ==> plan.messages@.map_values(|m: Message| m@) == chat_coords(
                self.messages_spec(),
                vis_mode_of(old(state)@.vis),
                old(state)@.focus,
                self.focus_spec(),
                old(state)@.input,
                area.width,
            ).msgs,
            r matches Some(plan) ==> {
                let vis = vis_mode_of(old(state)@.vis);
                let c = CoordsView {
                    msgs: plan.messages@.map_values(|m: Message| m@),
                    editing: match self.focus_spec() {
                        Focus::Edit(i) => Some(i),
                        _ => None,
                    },
                    input_box_height: sat_add(
                        textwrap_rows(joined(old(state)@.input, '\n'), area.width as usize).len() as int,
                        2,
                    ) as usize,
                };
                &&& plan.messages@.len() == self.messages_spec().len()
                &&& forall|i: int|
                    0 <= i < plan.messages@.len() ==> #[trigger] plan.messages@[i]@ == (MessageWidgetView {
                        wrapped: Some(
                            (
                                textwrap_rows(
                                    shown_text(self.messages_spec()[i].kind, self.messages_spec()[i].content@, vis),
                                    sat_sub(area.width as int, PADDING as int) as usize,
                                ),
                                sat_sub(area.width as int, PADDING as int) as usize,
                            ),
                        ),
                        ..shown(self.messages_spec()[i], vis, old(state)@.focus)
                    })
                &&& plan.scroll_offset == resolved_row(c, old(state)@.scroll, old(state)@.pos, area.height as int)
                &&& final(state)@ == (ChatView {
                    scroll: spent(old(state)@.scroll),
                    pos: c.at_row(plan.scroll_offset as int),
                    ..old(state)@
                })
                &&& plan.slots@ == slots_from(
                    heights_of(c),
                    final(state)@.pos.message as int,
                    final(state)@.pos.skip as int,
                    area.y as int,
                    area.y + area.height,
                )
            },
    {
        let vis = match state.visibility_opt {
            VisibilityOpt::All => VisMode::All,
            VisibilityOpt::NonThinking => VisMode::NonThinking,
        };
        let n = self.messages.len();
        let mut messages: Vec<Message> = Vec::new();
        let mut i: usize = 0;
        while i < n
            invariant
                n == self.messages@.len(),
                vis == vis_mode_of(state@.vis),
                i <= n,
                messages@.len() == i,
                forall|j: int|
                    0 <= j < i ==> #[trigger] messages@[j]@ == (MessageWidgetView {
                        wrapped: Some(
                            (
                                textwrap_rows(
                                    shown_text(self.messages@[j].kind, self.messages@[j].content@, vis),
                                    sat_sub(area.width as int, PADDING as int) as usize,
                                ),
                                sat_sub(area.width as int, PADDING as int) as usize,
                            ),
                        ),
                        ..shown(self.messages@[j], vis, state@.focus)
                    }),
            decreases n - i,
        {
            let mut widget = Message::from_parts(&self.messages[i], &vis, &state.last_focus_state);
            widget.init_wrap(area.width as usize);
            messages.push(widget);
            i += 1;
        }
        let input_box_height = state.input_box_height(area.width as usize);
        let coords = ChatCoords::new(messages.as_slice(), self.focus, input_box_height);
        assert(coords@.msgs =~= chat_coords(
            self.messages@,
            vis,
            state@.focus,
            *self.focus,
            state@.input,
            area.width,
        ).msgs);
        if !check_layout_fits(&coords, state.scroll, state.pos) {
            return None;
        }
        let mut scroll = state.scroll;
        let mut pos = state.pos;
        let (scroll_offset, slots) = lay_out(area, &coords, &mut scroll, &mut pos);
        state.scroll = scroll;
        state.pos = pos;
        Some(ChatPlan { messages, slots, scroll_offset })
    }
}

/// The visibility mode a visibility option stands for.
pub open spec fn vis_mode_of(v: VisibilityOpt) -> VisMode {
    match v {
        VisibilityOpt::All => VisMode::All,
        VisibilityOpt::NonThinking => VisMode::NonThinking,
    }
}

} // verus!
