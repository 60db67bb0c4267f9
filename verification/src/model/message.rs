//! A message of a saved conversation, with its identity and position.
use std::fmt::Display;

use uuid::Uuid;
use vstd::prelude::*;

verus! {

#[verifier::external_type_specification]
#[verifier::external_body]
pub struct ExUuid(Uuid);

/// `Uuid` is `Copy`: its clone is the same value.
pub assume_specification[ <Uuid as Clone>::clone ](u: &Uuid) -> (r: Uuid)
    ensures
        r == *u,
;

/// Calls `uuid::Uuid::now_v7`.  Nothing is claimed of the result: it holds
/// the current time and random bits.
#[verifier::external_body]
pub(crate) fn new_uuid() -> (r: Uuid) {
    Uuid::now_v7()
}

#[derive(Debug, Clone, Copy, PartialEq, Eq, Structural)]
pub enum MessageKind {
    Response,
    /// placeholder for any pending streams without any content (AwaitingStream)
    ResponsePlaceholder,
    User,
    Thinking,
    Error,
}

#[derive(Debug, Clone)]
pub struct Message {
    pub uuid: Uuid,
    pub index: usize,
    pub kind: MessageKind,
    pub content: String,
}

/// What a message holds, with its text as characters.
pub struct MessageView {
    pub uuid: Uuid,
    pub index: usize,
    pub kind: MessageKind,
    pub content: Seq<char>,
}

impl View for Message {
    type V = MessageView;

    open spec fn view(&self) -> MessageView {
        MessageView { uuid: self.uuid, index: self.index, kind: self.kind, content: self.content@ }
    }
}

/// The views of the messages `msgs`.
pub open spec fn views_of(msgs: Seq<Message>) -> Seq<MessageView> {
    msgs.map_values(|m: Message| m@)
}

/// `m` is a message at `index` of `kind` showing `content`, whatever its id.
pub open spec fn is_message(m: MessageView, index: int, kind: MessageKind, content: Seq<char>) -> bool {
    m.index == index && m.kind == kind && m.content == content
}

impl Message {
    /// A new message with a fresh id.
    pub fn new<T: Display>(index: usize, kind: MessageKind, content: T) -> (r: Self)
        ensures
            r.index == index,
            r.kind == kind,
            vstd::string::to_string_from_display_ensures::<T>(&content, r.content),
    {
        Self { uuid: new_uuid(), index, kind, content: content.to_string() }
    }

    /// A new message with a fresh id showing the text `content`.
    pub fn from_text(index: usize, kind: MessageKind, content: &str) -> (r: Self)
        ensures
            is_message(r@, index as int, kind, content@),
    {
        Self { uuid: new_uuid(), index, kind, content: content.to_owned() }
    }
}

} // verus!
