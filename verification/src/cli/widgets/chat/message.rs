//! How one message of the conversation is shown: its text, its wrapped rows
//! and height, and the look of its box.
use vstd::prelude::*;
use vstd::string::StringExecFns;

use crate::model::message::{Message as ModelMessage, MessageKind};
use crate::model::model::Focus;
use crate::text::{count_words, decimal, push_decimal, sat_add, sat_sub, strings_view, textwrap_lines, textwrap_rows, word_count};

use super::chat::{Chat, VisMode};

verus! {

/// The rows of a message wrapped at some width, kept with that width.
struct WrappedTextCache {
    lines: Vec<String>,
    width: usize,
}

pub struct Message {
    index: usize,
    skip: usize,
    kind: MessageKind,
    selected: bool,
    content: String,
    wrapped: Option<WrappedTextCache>,
    visible: bool,
}

/// What a shown message holds.
pub struct MessageWidgetView {
    pub index: usize,
    pub skip: usize,
    pub kind: MessageKind,
    pub selected: bool,
    pub content: Seq<char>,
    /// The wrapped rows and the width they were wrapped at.
    pub wrapped: Option<(Seq<Seq<char>>, usize)>,
    pub visible: bool,
}

impl View for Message {
    type V = MessageWidgetView;

    closed spec fn view(&self) -> MessageWidgetView {
        MessageWidgetView {
            index: self.index,
            skip: self.skip,
            kind: self.kind,
            selected: self.selected,
            content: self.content@,
            wrapped: match self.wrapped {
                Some(w) => Some((strings_view(w.lines@), w.width)),
                None => None,
            },
            visible: self.visible,
        }
    }
}

/// Lines of padding around a message's text.
pub const PADDING: usize = 2;

/// The rows a message takes: none when hidden, its wrapped rows plus the
/// padding once wrapped, and one row plus the padding before.
pub open spec fn shown_height(m: MessageWidgetView) -> nat {
    if !m.visible {
        0
    } else {
        match m.wrapped {
            Some((lines, _)) => sat_add(lines.len() as int, PADDING as int) as nat,
            None => (1 + PADDING) as nat,
        }
    }
}

/// The text shown for a message: a word count in place of thinking when
/// thinking is hidden, a waiting line for a placeholder, and the message
/// itself otherwise.
pub open spec fn shown_text(kind: MessageKind, content: Seq<char>, vis: VisMode) -> Seq<char> {
    if kind == MessageKind::Thinking && vis == VisMode::NonThinking {
        "Thinking... "@ + decimal(word_count(content)) + " words"@
    } else if kind == MessageKind::ResponsePlaceholder {
        "Waiting for response..."@
    } else {
        content
    }
}

/// How message `msg` is first shown, with thinking shown as `vis` says and
/// `focus` telling whether it is selected.
pub open spec fn shown(msg: ModelMessage, vis: VisMode, focus: Focus) -> MessageWidgetView {
    MessageWidgetView {
        index: msg.index,
        skip: 0,
        kind: msg.kind,
        selected: focus == Focus::Select(msg.index),
        content: shown_text(msg.kind, msg.content@, vis),
        wrapped: None,
        visible: true,
    }
}

/// The look of a message's box, which the drawing code turns into a block.
pub struct BlockLook {
    /// The background as red, green and blue before highlighting a selected
    /// message; `None` for the plain red of an error.
    pub base_bg: Option<(u8, u8, u8)>,
    /// Whether the text is drawn dimmed, as thinking is.
    pub dim_text: bool,
    /// Lines of padding below the text.
    pub bottom_padding: u16,
    /// The number shown at the top right, present when the top of the box is shown.
    pub title: Option<String>,
}

impl Message {
    pub fn new(msg: &ModelMessage, state: &Chat) -> (r: Self)
        ensures
            r@ == shown(*msg, state@.vis, state@.focus),
    {
        Self::from_parts(msg, state.vis_mode(), state.focus_state())
    }

    /// `new`, with the view's visibility and focus given apart.
    pub fn from_parts(msg: &ModelMessage, vis: &VisMode, focus: &Focus) -> (r: Self)
        ensures
            r@ == shown(*msg, *vis, *focus),
    {
        let content: String = if msg.kind == MessageKind::Thinking && vis == &VisMode::NonThinking {
            let mut s = String::new();
            s.append("Thinking... ");
            push_decimal(&mut s, count_words(msg.content.as_str()));
            s.append(" words");
            s
        } else if msg.kind == MessageKind::ResponsePlaceholder {
            "Waiting for response...".to_owned()
        } else {
            msg.content.clone()
        };
        let selected = match focus {
            Focus::Select(i) => *i == msg.index,
            _ => false,
        };
        Self { index: msg.index, skip: 0, kind: msg.kind, selected, content, wrapped: None, visible: true }
    }

    pub fn visible(&self) -> (r: bool)
        ensures
            r == self@.visible,
    {
        self.visible
    }

    pub fn skip(&mut self, lines: usize)
        ensures
            final(self)@ == (MessageWidgetView { skip: lines, ..old(self)@ }),
    {
        self.skip = lines;
    }

    pub fn height(&self) -> (r: usize)
        ensures
            r == shown_height(self@),
    {
        if !self.visible() {
            return 0;
        }
        match &self.wrapped {
            Some(w) => w.lines.len().saturating_add(PADDING),
            None => 1 + PADDING,
        }
    }

    /// area width is the TOTAL width given to the widget
    pub fn init_wrap(&mut self, area_width: usize)
        ensures
            final(self)@ == (MessageWidgetView {
                wrapped: Some(
                    (
                        textwrap_rows(old(self)@.content, sat_sub(area_width as int, PADDING as int) as usize),
                        sat_sub(area_width as int, PADDING as int) as usize,
                    ),
                ),
                ..old(self)@
            }),
    {
        let wrap_width = area_width.saturating_sub(PADDING);
        let lines = textwrap_lines(self.content.as_str(), wrap_width);
        self.wrapped = Some(WrappedTextCache { lines, width: wrap_width });
    }

    /// The rows drawn in an area `area_width` wide: the kept rows when they
    /// were wrapped for that width, otherwise the text wrapped anew.
    pub fn body_lines(&self, area_width: u16) -> (r: Vec<String>)
        ensures
            strings_view(r@) == match self@.wrapped {
                Some((lines, w)) if w == sat_sub(area_width as int, PADDING as int) => lines,
                _ => textwrap_rows(self@.content, sat_sub(area_width as int, PADDING as int) as usize),
            },
    {
        let width = (area_width as usize).saturating_sub(PADDING);
        match &self.wrapped {
            Some(w) if w.width == width => {
                let lines = w.lines.clone();
                assert(lines@ =~= w.lines@);
                lines
            },
            _ => textwrap_lines(self.content.as_str(), width),
        }
    }

    /// The look of the box: its background and text by kind, padding below
    /// all but thinking, and the message's number (counting from 1) while
    /// the top of the box is shown.
    pub fn block_look(&self) -> (r: BlockLook)
        requires
            self@.skip == 0 ==> self@.index < usize::MAX,
        ensures
            r.base_bg == match self@.kind {
                MessageKind::Response => Some((30u8, 30u8, 30u8)),
                MessageKind::ResponsePlaceholder => Some((20u8, 20u8, 20u8)),
                MessageKind::User => Some((10u8, 10u8, 10u8)),
                MessageKind::Thinking => Some((20u8, 20u8, 20u8)),
                MessageKind::Error => None,
            },
            r.dim_text == (self@.kind == MessageKind::Thinking),
            r.bottom_padding == if self@.kind == MessageKind::Thinking { 0u16 } else { 1u16 },
            self@.skip > 0 ==> r.title.is_none(),
            self@.skip == 0 ==> r.title.is_some() && r.title.unwrap()@ == decimal((self@.index + 1) as nat)
                + " "@,
    {
        let (base_bg, dim_text, bottom_padding) = match self.kind {
            MessageKind::Response => (Some((30u8, 30u8, 30u8)), false, 1u16),
            MessageKind::ResponsePlaceholder => (Some((20u8, 20u8, 20u8)), false, 1u16),
            MessageKind::User => (Some((10u8, 10u8, 10u8)), false, 1u16),
            MessageKind::Thinking => (Some((20u8, 20u8, 20u8)), true, 0u16),
            MessageKind::Error => (None, false, 1u16),
        };
        let title = if self.skip > 0 {
            None
        } else {
            let mut t = String::new();
            push_decimal(&mut t, self.index + 1);
            t.append(" ");
            Some(t)
        };
        BlockLook { base_bg, dim_text, bottom_padding, title }
    }

    /// The message's position in the conversation.
    pub fn index(&self) -> (r: usize)
        ensures
            r == self@.index,
    {
        self.index
    }

    /// Whether the message is highlighted as selected.
    pub fn selected(&self) -> (r: bool)
        ensures
            r == self@.selected,
    {
        self.selected
    }

    /// Rows of the message above the area that are not drawn.
    pub fn skipped(&self) -> (r: usize)
        ensures
            r == self@.skip,
    {
        self.skip
    }
}

} // verus!
