//! A named conversation, as it is saved.
use std::fmt::Display;

use uuid::Uuid;
use vstd::prelude::*;

use super::message::{Message, MessageKind, views_of};
use super::message::new_uuid;

verus! {

// for saving purposes
pub struct Chat {
    pub uuid: Uuid,
    pub name: String,
    pub messages: Vec<Message>,
}

impl Chat {
    /// An empty conversation called `name`, with a fresh id.
    pub fn new(name: &str) -> (r: Self)
        ensures
            r.name@ == name@,
            r.messages@.len() == 0,
    {
        Self { uuid: new_uuid(), messages: Vec::new(), name: name.to_owned() }
    }

    /// Appends a message of `kind` showing `content`, numbered by its position.
    pub fn push_message<T: Display>(&mut self, kind: MessageKind, content: T)
        ensures
            final(self).messages@.drop_last() == old(self).messages@,
            final(self).messages@.len() == old(self).messages@.len() + 1,
            final(self).messages@.last().index == old(self).messages@.len(),
            final(self).messages@.last().kind == kind,
            vstd::string::to_string_from_display_ensures::<T>(&content, final(self).messages@.last().content),
            final(self).uuid == old(self).uuid,
            final(self).name == old(self).name,
    {
        let index = self.messages.len();
        self.messages.push(Message::new(index, kind, content));
        assert(self.messages@.drop_last() =~= old(self).messages@);
    }

    pub fn num_messages(&self) -> (r: usize)
        ensures
            r == self.messages@.len(),
    {
        self.messages.len()
    }
}

} // verus!
