//! How one message is shown in the first chat window.
use vstd::prelude::*;

use crate::model::{Message as ModelMessage, MessageKind};
use crate::text::{sat_add, sat_sub};
use crate::wrapped_text::{rows_view, wrapped_rows, WrappedText};

verus! {

pub struct Message<'a> {
    skip: usize,
    kind: MessageKind,
    content: &'a str,
    wrapped: Option<WrappedText<'a>>,
}

/// What a shown message holds.
pub struct MessageLook {
    pub skip: usize,
    pub kind: MessageKind,
    pub content: Seq<char>,
    /// The rows and the width they were wrapped at, once wrapped.
    pub wrapped: Option<(Seq<Seq<char>>, nat)>,
}

impl<'a> View for Message<'a> {
    type V = MessageLook;

    closed spec fn view(&self) -> MessageLook {
        MessageLook {
            skip: self.skip,
            kind: self.kind,
            content: self.content@,
            wrapped: match self.wrapped {
                Some(w) => Some((w@.rows, w@.width)),
                None => None,
            },
        }
    }
}

/// Lines of padding around a message's text.
pub const PADDING: usize = 2;

/// The look of a message's box, which the drawing code turns into a block.
pub struct BlockLook {
    /// The background as red, green and blue, if set.
    pub bg: Option<(u8, u8, u8)>,
    /// Whether the background is plain red, as for an error.
    pub red_bg: bool,
    /// The text colour as red, green and blue, if set.
    pub fg: Option<(u8, u8, u8)>,
    pub top_padding: u16,
    pub bottom_padding: u16,
    /// Whether the box is titled "Error", in bold.
    pub error_title: bool,
}

impl<'a> Message<'a> {
    pub fn new(model: &'a ModelMessage) -> (r: Self)
        ensures
            r@ == (MessageLook { skip: 0, kind: model.kind, content: model.content@, wrapped: None }),
    {
        Self { skip: 0, kind: model.kind, content: model.content.as_str(), wrapped: None }
    }

    pub fn skip(&mut self, lines: usize)
        ensures
            final(self)@ == (MessageLook { skip: lines, ..old(self)@ }),
    {
        self.skip = lines;
    }

    /// The rows the message takes: its wrapped rows plus the padding once
    /// wrapped, one row before.
    pub fn height(&self) -> (r: usize)
        ensures
            r == match self@.wrapped {
                Some((rows, _)) => sat_add(rows.len() as int, PADDING as int),
                None => 1,
            },
    {
        match &self.wrapped {
            Some(w) => w.height().saturating_add(PADDING),
            None => 1,
        }
    }

    /// area width is the TOTAL width given to the widget
    pub fn init_wrap(&mut self, area_width: usize) -> (r: &[&'a str])
        ensures
            final(self)@ == (MessageLook {
                wrapped: Some(
                    (
                        wrapped_rows(old(self)@.content, sat_sub(area_width as int, PADDING as int) as nat),
                        sat_sub(area_width as int, PADDING as int) as nat,
                    ),
                ),
                ..old(self)@
            }),
            rows_view(r@) == wrapped_rows(old(self)@.content, sat_sub(area_width as int, PADDING as int) as nat),
    {
        let wrapped = WrappedText::new(self.content, area_width.saturating_sub(PADDING));
        self.wrapped = Some(wrapped);
        self.wrapped.as_ref().unwrap().lines()
    }

    /// The look of the box: its colours by kind, one line of padding above
    /// while the top of the box is shown (none for an error), and one below
    /// (none for thinking).
    pub fn block_look(&self) -> (r: BlockLook)
        ensures
            r.bg == match self@.kind {
                MessageKind::Response => Some((30u8, 30u8, 30u8)),
                MessageKind::ResponsePlaceholder => Some((30u8, 30u8, 30u8)),
                MessageKind::User => Some((10u8, 10u8, 10u8)),
                _ => None,
            },
            r.red_bg == (self@.kind == MessageKind::Error),
            r.fg == if self@.kind == MessageKind::Thinking { Some((125u8, 125u8, 125u8)) } else { None },
            r.top_padding == if self@.kind == MessageKind::Error || self@.skip > 0 { 0u16 } else { 1u16 },
            r.bottom_padding == if self@.kind == MessageKind::Thinking { 0u16 } else { 1u16 },
            r.error_title == (self@.kind == MessageKind::Error),
    {
        let top_pad: u16 = if self.skip > 0 {
            0
        } else {
            1
        };
        match self.kind {
            MessageKind::Response => BlockLook {
                bg: Some((30, 30, 30)),
                red_bg: false,
                fg: None,
                top_padding: top_pad,
                bottom_padding: 1,
                error_title: false,
            },
            MessageKind::ResponsePlaceholder => BlockLook {
                bg: Some((30, 30, 30)),
                red_bg: false,
                fg: None,
                top_padding: top_pad,
                bottom_padding: 1,
                error_title: false,
            },
            MessageKind::User => BlockLook {
                bg: Some((10, 10, 10)),
                red_bg: false,
                fg: None,
                top_padding: top_pad,
                bottom_padding: 1,
                error_title: false,
            },
            MessageKind::Thinking => BlockLook {
                bg: None,
                red_bg: false,
                fg: Some((125, 125, 125)),
                top_padding: top_pad,
                bottom_padding: 0,
                error_title: false,
            },
            MessageKind::Error => BlockLook {
                bg: None,
                red_bg: true,
                fg: None,
                top_padding: 0,
                bottom_padding: 1,
                error_title: true,
            },
        }
    }

    /// The rows drawn in an area `area_width` wide: `...` for an error, the
    /// kept rows when they were wrapped for that width, otherwise the text
    /// wrapped anew.
    pub fn body_lines(&self, area_width: u16) -> (r: Vec<&'a str>)
        ensures
            rows_view(r@) == if self@.kind == MessageKind::Error {
                seq!["..."@]
            } else {
                match self@.wrapped {
                    Some((rows, w)) if w == sat_sub(area_width as int, PADDING as int) => rows,
                    _ => wrapped_rows(self@.content, sat_sub(area_width as int, PADDING as int) as nat),
                }
            },
    {
        let width = (area_width as usize).saturating_sub(PADDING);
        if self.kind == MessageKind::Error {
            let mut v: Vec<&'a str> = Vec::new();
            v.push("...");
            assert(rows_view(v@) =~= seq!["..."@]);
            return v;
        }
        match &self.wrapped {
            Some(w) if w.width() == width => {
                let lines = w.lines();
                let mut v: Vec<&'a str> = Vec::new();
                let mut i: usize = 0;
                while i < lines.len()
                    invariant
                        i <= lines@.len(),
                        rows_view(v@) == rows_view(lines@.take(i as int)),
                    decreases lines@.len() - i,
                {
                    let ghost before = v@;
                    v.push(lines[i]);
                    assert(rows_view(before.push(lines@[i as int])) =~= rows_view(before).push(lines@[i as int]@));
                    i += 1;
                    assert(rows_view(v@) =~= rows_view(lines@.take(i as int)));
                }
                assert(lines@.take(lines@.len() as int) =~= lines@);
                v
            },
            _ => crate::wrapped_text::wrap_text(self.content, width),
        }
    }
}

} // verus!
