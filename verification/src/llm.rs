//! Talking to the language model: the messages of a request, the events the
//! response stream hands back, and what to do with each item of the stream.
use std::fmt::Display;

use vstd::prelude::*;

use crate::model::{content_of, Message as ModelMessage, MessageKind, MessageView, Model};

verus! {

/// Who speaks a message.
#[derive(Debug, Clone, Copy, PartialEq, Eq, Structural)]
pub enum Role {
    System,
    User,
    Assistant,
}

pub struct Message {
    pub content: String,
    pub role: Role,
}

/// What a message of a request holds, with its text as characters.
pub struct MessageSpec {
    pub role: Role,
    pub content: Seq<char>,
}

impl View for Message {
    type V = MessageSpec;

    open spec fn view(&self) -> MessageSpec {
        MessageSpec { role: self.role, content: self.content@ }
    }
}

impl Message {
    pub fn system<T: Display + ?Sized>(text: &T) -> (r: Self)
        ensures
            r.role == Role::System,
            vstd::string::to_string_from_display_ensures::<T>(text, r.content),
    {
        Self { content: text.to_string(), role: Role::System }
    }

    pub fn assistant<T: Display + ?Sized>(text: &T) -> (r: Self)
        ensures
            r.role == Role::Assistant,
            vstd::string::to_string_from_display_ensures::<T>(text, r.content),
    {
        Self { content: text.to_string(), role: Role::Assistant }
    }

    pub fn user<T: Display + ?Sized>(text: &T) -> (r: Self)
        ensures
            r.role == Role::User,
            vstd::string::to_string_from_display_ensures::<T>(text, r.content),
    {
        Self { content: text.to_string(), role: Role::User }
    }
}

/// The speaker of a chat message sent back as context: the user's turns are
/// the user's, everything else the model said.
pub open spec fn role_of(kind: MessageKind) -> Role {
    if kind == MessageKind::User {
        Role::User
    } else {
        Role::Assistant
    }
}

/// The request messages for the chat messages `msgs`.
pub open spec fn context_from(msgs: Seq<MessageView>) -> Seq<MessageSpec> {
    msgs.map_values(|m: MessageView| MessageSpec { role: role_of(m.kind), content: m.content })
}

/// The request messages for the conversation so far: each content message
/// (a user turn, a response, or thinking), in order, with its speaker.
pub fn build_context(model: &Model) -> (r: Vec<Message>)
    ensures
        r@.map_values(|m: Message| m@) == context_from(content_of(model@.messages)),
{
    let msgs = model.content_messages();
    let ghost want = context_from(content_of(model@.messages));
    assert(msgs@.map_values(|m: &ModelMessage| m@) == content_of(model@.messages));
    let mut r: Vec<Message> = Vec::new();
    let n = msgs.len();
    let mut i: usize = 0;
    while i < n
        invariant
            n == msgs@.len(),
            i <= n,
            want == context_from(msgs@.map_values(|m: &ModelMessage| m@)),
            r@.len() == i,
            forall|k: int| 0 <= k < i ==> #[trigger] r@[k]@ == want[k],
        decreases n - i,
    {
        let m = msgs[i];
        let role = if m.kind == MessageKind::User {
            Role::User
        } else {
            Role::Assistant
        };
        r.push(Message { content: m.content.clone(), role });
        i += 1;
    }
    assert(r@.map_values(|m: Message| m@) =~= want);
    r
}

/// What the response stream hands back to the chat.
#[derive(Clone)]
pub enum Event {
    Token(String),
    ThinkingToken(String),
    Done,
    Error(String),
}

/// An item read from the response stream.
pub enum StreamItem {
    /// A piece of the answer.
    Chunk(String),
    /// A piece of the model's thought signature.
    ThoughtSignatureChunk(String),
    /// A piece of the model's reasoning.
    ReasoningChunk(String),
    /// The stream says it is complete.
    End,
    /// Anything else the stream announces (its start, a tool call, ...).
    Other,
    /// The stream failed, with the error's text.
    Failed(String),
    /// The stream ran out.
    Closed,
}

/// What to do with a stream item.
pub enum StreamStep {
    /// Hand the event to the chat and read on; stop quietly when the chat is
    /// gone.
    Send(Event),
    /// Hand the event to the chat and stop reading, with no `Done`.
    SendAndStop(Event),
    /// Stop reading and hand `Done` to the chat.
    Finish,
    /// Read on.
    Skip,
}

/// Decides what a stream item means for the chat: answer pieces become
/// tokens, signature and reasoning pieces thinking tokens, the end of the
/// stream (announced or not) finishes it, and a failure is reported as an
/// error that ends it.
pub fn stream_step(item: StreamItem) -> (r: StreamStep)
    ensures
        match item {
            StreamItem::Chunk(c) => r == StreamStep::Send(Event::Token(c)),
            StreamItem::ThoughtSignatureChunk(c) => r == StreamStep::Send(Event::ThinkingToken(c)),
            StreamItem::ReasoningChunk(c) => r == StreamStep::Send(Event::ThinkingToken(c)),
            StreamItem::End => r == StreamStep::Finish,
            StreamItem::Other => r == StreamStep::Skip,
            StreamItem::Failed(e) => r == StreamStep::SendAndStop(Event::Error(e)),
            StreamItem::Closed => r == StreamStep::Finish,
        },
{
    match item {
        StreamItem::Chunk(c) => StreamStep::Send(Event::Token(c)),
        StreamItem::ThoughtSignatureChunk(c) => StreamStep::Send(Event::ThinkingToken(c)),
        StreamItem::ReasoningChunk(c) => StreamStep::Send(Event::ThinkingToken(c)),
        StreamItem::End => StreamStep::Finish,
        StreamItem::Other => StreamStep::Skip,
        StreamItem::Failed(e) => StreamStep::SendAndStop(Event::Error(e)),
        StreamItem::Closed => StreamStep::Finish,
    }
}

/// What the reader of the stream does next.
#[derive(Debug, Clone, Copy, PartialEq, Eq, Structural)]
pub enum StreamNext {
    /// Read the next item.
    ReadOn,
    /// Stop reading, with nothing more to hand over.
    Stop,
    /// Stop reading and hand `Done` to the chat.
    Finish,
}

/// What follows a step, given whether its event reached the chat: a
/// delivered event is read on from, an undelivered one means the chat is
/// gone and reading stops quietly; a failure stops reading; the end of the
/// stream finishes it; anything else is read on from.
pub fn after_step(step: &StreamStep, delivered: bool) -> (r: StreamNext)
    ensures
        r == match *step {
            StreamStep::Send(_) => if delivered { StreamNext::ReadOn } else { StreamNext::Stop },
            StreamStep::SendAndStop(_) => StreamNext::Stop,
            StreamStep::Finish => StreamNext::Finish,
            StreamStep::Skip => StreamNext::ReadOn,
        },
{
    match step {
        StreamStep::Send(_) => if delivered {
            StreamNext::ReadOn
        } else {
            StreamNext::Stop
        },
        StreamStep::SendAndStop(_) => StreamNext::Stop,
        StreamStep::Finish => StreamNext::Finish,
        StreamStep::Skip => StreamNext::ReadOn,
    }
}

} // verus!
