//! The window: the chat view, and handing the typed text to the model.
use vstd::prelude::*;

use crate::model::model::{Model, ModelView};
use crate::text::{join_lines, joined};

use super::widgets::chat::chat::{synced, Chat, ChatView};

verus! {

#[derive(Default)]
pub struct Window {
    pub chat: Chat,
}

impl Window {
    pub fn new() -> (r: Self)
        ensures
            r.chat@ == (ChatView {
                scroll: super::widgets::chat::scroll::Scroll::Max,
                pos: super::widgets::chat::scroll::ScrollPos { message: 0, skip: 0 },
                focus: crate::model::model::Focus::Input,
                input: seq![Seq::empty()],
                vis: super::widgets::chat::chat::VisMode::All,
            }),
            r.chat.cursor() == (0usize, 0usize),
    {
        Self { chat: Chat::new() }
    }

    /// Sends the typed text (the box's lines joined with `'\n'`) as new
    /// input; the box is emptied when the model takes it.
    pub fn submit_input(&mut self, model: &mut Model)
        ensures
            ({
                let text = joined(old(self).chat@.input, '\n');
                let taken = old(model)@.accepts_input(text);
                &&& taken ==> final(self).chat@ == (ChatView { input: seq![Seq::empty()], ..old(self).chat@ })
                &&& taken ==> final(self).chat.cursor() == (0usize, 0usize)
                &&& taken ==> old(model)@.sent_input(final(model)@, text)
                &&& !taken ==> final(self).chat@ == old(self).chat@ && final(model)@ == old(model)@
                &&& !taken ==> final(self).chat.cursor() == old(self).chat.cursor()
            }),
    {
        let input = join_lines(self.chat.lines().as_slice());
        if model.new_input(input.as_str()) {
            self.chat.clear_input();
        }
    }
}

/// Brings the view up to date with the model (see `Chat::sync`).
pub fn sync(view: &mut Window, model: &mut Model)
    requires
        old(view).chat@.focus matches crate::model::model::Focus::Edit(i) ==> i < old(model)@.messages.len(),
        old(model)@.focus matches crate::model::model::Focus::Edit(j) ==> j < old(model)@.messages.len(),
    ensures
        synced(old(view).chat@, final(view).chat@, old(model)@, final(model)@),
        old(view).chat@.focus == old(model)@.focus ==> final(view).chat.cursor() == old(view).chat.cursor(),
        old(view).chat@.focus != old(model)@.focus ==> final(view).chat.cursor() == (
            (final(view).chat@.input.len() - 1) as usize,
            final(view).chat@.input.last().len() as usize,
        ),
{
    view.chat.sync(model);
}

} // verus!
