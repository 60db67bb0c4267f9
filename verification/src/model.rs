//! The chat state: the conversation, the streaming state of the reply being
//! received, which box has the focus, and the status texts.
use std::fmt::Display;

use vstd::prelude::*;
use vstd::string::StringExecFns;

pub mod chat;
pub mod message;
pub mod model;
pub mod notification;

verus! {

#[derive(Debug, Clone, Copy, PartialEq, Eq, Structural)]
pub enum MessageKind {
    Response,
    /// placeholder for any pending streams without any content (AwaitingStream)
    ResponsePlaceholder,
    User,
    Thinking,
    Error,
}

#[derive(Debug, Clone)]
pub struct Message {
    pub kind: MessageKind,
    pub content: String,
}

impl Message {
    pub fn new(kind: MessageKind, content: &str) -> (r: Self)
        ensures
            r.kind == kind,
            r.content@ == content@,
    {
        Self { kind, content: content.to_owned() }
    }
}

#[derive(Debug, PartialEq, Eq, Clone, Copy, Structural)]
pub enum StreamingState {
    Streaming,
    AwaitingStream,
    Idle,
}

/// What box is currently being focused on right now
#[derive(Debug, PartialEq, Eq, Clone, Copy, Structural)]
pub enum FocusState {
    Message(usize),
    Input,
}

/// What a message holds, with its text as characters.
pub struct MessageView {
    pub kind: MessageKind,
    pub content: Seq<char>,
}

impl View for Message {
    type V = MessageView;

    open spec fn view(&self) -> MessageView {
        MessageView { kind: self.kind, content: self.content@ }
    }
}

/// The views of the messages `msgs`.
pub open spec fn views_of(msgs: Seq<Message>) -> Seq<MessageView> {
    msgs.map_values(|m: Message| m@)
}

/// Whether a message is shown as conversation content (a user turn, a
/// response, or thinking).
pub open spec fn is_content(m: MessageView) -> bool {
    m.kind == MessageKind::User || m.kind == MessageKind::Response || m.kind == MessageKind::Thinking
}

/// The conversation content is the user turns, the responses and the
/// thinking, in order: there is none in no messages, a message of one of
/// those kinds is added to the content after the ones before it, and any
/// other message leaves the content as it was.
pub proof fn content_is_turns_and_thinking(msgs: Seq<MessageView>, m: MessageView)
    ensures
        content_of(Seq::empty()) == Seq::<MessageView>::empty(),
        (m.kind == MessageKind::User || m.kind == MessageKind::Response || m.kind == MessageKind::Thinking)
            ==> content_of(msgs.push(m)) == content_of(msgs).push(m),
        !(m.kind == MessageKind::User || m.kind == MessageKind::Response || m.kind == MessageKind::Thinking)
            ==> content_of(msgs.push(m)) == content_of(msgs),
{
    assert(msgs.push(m).drop_last() =~= msgs);
    reveal_with_fuel(Seq::filter, 1);
    assert(content_of(Seq::<MessageView>::empty()) =~= Seq::<MessageView>::empty());
}

/// The messages that are conversation content, in order.
pub open spec fn content_of(msgs: Seq<MessageView>) -> Seq<MessageView> {
    msgs.filter(|m: MessageView| is_content(m))
}

/// `idx` lists, in increasing order, the positions of `msgs` whose message is
/// not an error, followed by `msgs.len()`.
pub open spec fn is_focusable_list(msgs: Seq<MessageView>, idx: Seq<usize>) -> bool {
    &&& idx.len() >= 1
    &&& idx.last() == msgs.len()
    &&& forall|a: int, b: int| 0 <= a < b < idx.len() ==> idx[a] < idx[b]
    &&& forall|a: int| 0 <= a < idx.len() - 1 ==> idx[a] < msgs.len() && msgs[idx[a] as int].kind
        != MessageKind::Error
    &&& forall|i: int|
        0 <= i < msgs.len() && msgs[i].kind != MessageKind::Error ==> exists|a: int|
            0 <= a < idx.len() - 1 && idx[a] == i
}

pub struct Model {
    pub messages: Vec<Message>,
    streaming_state: StreamingState,
    focus_state: FocusState,
    pub left_status: String,
    pub right_status: Option<String>,
    pub spinner_index: usize,
    quit_count: u16,
    pub input_box: String,
}

/// What a `Model` holds.
pub struct ModelView {
    pub messages: Seq<MessageView>,
    pub streaming: StreamingState,
    pub focus: FocusState,
    pub left_status: Seq<char>,
    pub right_status: Option<Seq<char>>,
    pub spinner_index: usize,
    pub quit_count: u16,
    pub input_box: Seq<char>,
}

/// The characters of an optional text.
pub open spec fn opt_view(s: Option<String>) -> Option<Seq<char>> {
    match s {
        Some(t) => Some(t@),
        None => None,
    }
}

impl View for Model {
    type V = ModelView;

    closed spec fn view(&self) -> ModelView {
        ModelView {
            messages: views_of(self.messages@),
            streaming: self.streaming_state,
            focus: self.focus_state,
            left_status: self.left_status@,
            right_status: opt_view(self.right_status),
            spinner_index: self.spinner_index,
            quit_count: self.quit_count,
            input_box: self.input_box@,
        }
    }
}

impl ModelView {
    /// The index of the focused box, where the input box comes after the messages.
    pub open spec fn focus_index(self) -> int {
        match self.focus {
            FocusState::Message(i) => i as int,
            FocusState::Input => self.messages.len() as int,
        }
    }

    /// The chat with the focus moved `k` boxes up, stopping at the first box.
    pub open spec fn focus_moved_up(self, k: int) -> ModelView {
        ModelView {
            focus: self.clamped_focus(if self.focus_index() >= k { self.focus_index() - k } else { 0 }),
            ..self
        }
    }

    /// The chat with the focus moved `k` boxes down, stopping at the input box.
    pub open spec fn focus_moved_down(self, k: int) -> ModelView {
        ModelView {
            focus: self.clamped_focus(
                if self.focus_index() + k > usize::MAX { usize::MAX as int } else { self.focus_index() + k },
            ),
            ..self
        }
    }

    /// Whether `flush_input` takes `text`: not while a reply streams in, and
    /// not an empty text before any message.
    pub open spec fn accepts_input(self, text: Seq<char>) -> bool {
        self.streaming != StreamingState::Streaming && !(text.len() == 0 && self.messages.len() == 0)
    }

    /// The chat after `text` is sent: the text as a user message (unless it
    /// is empty), a placeholder for the reply, the input box emptied, and the
    /// stream awaited.
    pub open spec fn after_flush(self, text: Seq<char>) -> ModelView {
        ModelView {
            messages: if text.len() == 0 {
                self.messages.push(MessageView { kind: MessageKind::ResponsePlaceholder, content: Seq::empty() })
            } else {
                self.messages.push(MessageView { kind: MessageKind::User, content: text }).push(
                    MessageView { kind: MessageKind::ResponsePlaceholder, content: Seq::empty() },
                )
            },
            streaming: StreamingState::AwaitingStream,
            input_box: Seq::empty(),
            left_status: "streaming"@,
            ..self
        }
    }

    /// The chat after a thinking token: the first one replaces the reply's
    /// placeholder and starts the stream, later ones extend the last message,
    /// which becomes thinking.
    pub open spec fn after_think_token(self, token: Seq<char>) -> ModelView {
        ModelView {
            messages: if self.streaming == StreamingState::AwaitingStream {
                Model::with_last(self.messages, MessageView { kind: MessageKind::Thinking, content: token })
            } else {
                Model::with_last(
                    self.messages,
                    MessageView { kind: MessageKind::Thinking, content: self.messages.last().content + token },
                )
            },
            streaming: if self.streaming == StreamingState::AwaitingStream {
                StreamingState::Streaming
            } else {
                self.streaming
            },
            ..self
        }
    }

    /// The chat after a response token: the first one replaces the reply's
    /// placeholder and starts the stream, later ones go as
    /// `after_response_token` says.
    pub open spec fn after_stream_token(self, token: Seq<char>) -> ModelView {
        ModelView {
            messages: if self.streaming == StreamingState::AwaitingStream {
                Model::with_last(self.messages, MessageView { kind: MessageKind::Response, content: token })
            } else {
                Model::after_response_token(self.messages, token)
            },
            streaming: if self.streaming == StreamingState::AwaitingStream {
                StreamingState::Streaming
            } else {
                self.streaming
            },
            ..self
        }
    }

    /// The chat once the stream is done: idle and ready, with a reply
    /// placeholder that is still waiting (no token came) turned into an
    /// empty response, since no stream is pending any more.
    pub open spec fn after_finish(self) -> ModelView {
        ModelView {
            messages: Model::settled(self.messages),
            streaming: StreamingState::Idle,
            left_status: "ready"@,
            ..self
        }
    }

    /// The focus that `focus_on(i)` sets.
    pub open spec fn clamped_focus(self, i: int) -> FocusState {
        if i >= self.messages.len() {
            FocusState::Input
        } else {
            FocusState::Message(i as usize)
        }
    }
}

impl Model {
    /// The messages themselves.
    pub closed spec fn message_values(&self) -> Seq<Message> {
        self.messages@
    }

    pub fn new() -> (r: Self)
        ensures
            r@ == (ModelView {
                messages: Seq::empty(),
                streaming: StreamingState::Idle,
                focus: FocusState::Input,
                left_status: "ready"@,
                right_status: None,
                spinner_index: 0,
                quit_count: 0,
                input_box: Seq::empty(),
            }),
    {
        let r = Self {
            messages: Vec::new(),
            streaming_state: StreamingState::Idle,
            left_status: "ready".to_owned(),
            right_status: None,
            spinner_index: 0,
            quit_count: 0,
            input_box: String::new(),
            focus_state: FocusState::Input,
        };
        assert(r@.messages =~= Seq::empty());
        r
    }

    pub fn content_messages(&self) -> (r: Vec<&Message>)
        ensures
            r@.map_values(|m: &Message| m@) == content_of(self@.messages),
    {
        let mut r: Vec<&Message> = Vec::new();
        let n = self.messages.len();
        let mut i: usize = 0;
        let ghost all = self@.messages;
        assert(all == views_of(self.messages@));
        while i < n
            invariant
                n == self.messages@.len(),
                all == views_of(self.messages@),
                i <= n,
                r@.map_values(|m: &Message| m@) == content_of(all.take(i as int)),
            decreases n - i,
        {
            let m = &self.messages[i];
            assert(all.take(i + 1).drop_last() =~= all.take(i as int));
            assert(all.take(i + 1).last() == m@);
            assert(content_of(all.take(i + 1)) == if is_content(m@) {
                content_of(all.take(i as int)).push(m@)
            } else {
                content_of(all.take(i as int))
            }) by {
                reveal_with_fuel(Seq::filter, 1);
            }
            if m.kind == MessageKind::User || m.kind == MessageKind::Response || m.kind
                == MessageKind::Thinking {
                r.push(m);
            }
            i += 1;
            assert(r@.map_values(|m: &Message| m@) =~= content_of(all.take(i as int)));
        }
        assert(all.take(n as int) =~= all);
        r
    }

    /// The messages.
    pub fn messages(&self) -> (r: &Vec<Message>)
        ensures
            views_of(r@) == self@.messages,
    {
        &self.messages
    }

    /// A copy of the text of message `i`.
    pub fn message_text(&self, i: usize) -> (r: String)
        requires
            i < self@.messages.len(),
        ensures
            r@ == self@.messages[i as int].content,
    {
        self.messages[i].content.clone()
    }

    /// Gives message `i` the text `text`.
    pub fn set_message_text(&mut self, i: usize, text: String)
        requires
            i < old(self)@.messages.len(),
        ensures
            final(self)@ == (ModelView {
                messages: old(self)@.messages.update(i as int, MessageView { content: text@, ..old(self)@.messages[i as int] }),
                ..old(self)@
            }),
    {
        let kind = self.messages[i].kind;
        self.messages.set(i, Message { kind, content: text });
        assert(self@.messages =~= old(self)@.messages.update(i as int, MessageView { content: text@, ..old(self)@.messages[i as int] }));
    }

    /// A copy of the text of the input box.
    pub fn input_text(&self) -> (r: String)
        ensures
            r@ == self@.input_box,
    {
        self.input_box.clone()
    }

    /// Replaces the text of the input box.
    pub fn set_input_box(&mut self, text: String)
        ensures
            final(self)@ == (ModelView { input_box: text@, ..old(self)@ }),
    {
        self.input_box = text;
    }

    /// A copy of the left status text.
    pub fn left_status_text(&self) -> (r: String)
        ensures
            r@ == self@.left_status,
    {
        self.left_status.clone()
    }

    /// A copy of the right status text, if any.
    pub fn right_status_text(&self) -> (r: Option<String>)
        ensures
            opt_view(r) == self@.right_status,
    {
        match &self.right_status {
            Some(s) => Some(s.clone()),
            None => None,
        }
    }

    /// Sets the right status text.
    pub fn set_right_status(&mut self, text: Option<String>)
        ensures
            final(self)@ == (ModelView { right_status: opt_view(text), ..old(self)@ }),
    {
        self.right_status = text;
    }

    /// The spinner's tick count.
    pub fn spinner_index(&self) -> (r: usize)
        ensures
            r == self@.spinner_index,
    {
        self.spinner_index
    }

    /// Moves the spinner on by one tick, wrapping around.
    pub fn advance_spinner(&mut self)
        ensures
            final(self)@ == (ModelView {
                spinner_index: if old(self)@.spinner_index == usize::MAX {
                    0
                } else {
                    (old(self)@.spinner_index + 1) as usize
                },
                ..old(self)@
            }),
    {
        self.spinner_index = if self.spinner_index == usize::MAX { 0 } else { self.spinner_index + 1 };
    }

    pub fn streaming_state(&self) -> (r: StreamingState)
        ensures
            r == self@.streaming,
    {
        match self.streaming_state {
            StreamingState::Streaming => StreamingState::Streaming,
            StreamingState::AwaitingStream => StreamingState::AwaitingStream,
            StreamingState::Idle => StreamingState::Idle,
        }
    }

    pub fn increment_quit(&mut self)
        requires
            old(self)@.quit_count < u16::MAX,
        ensures
            final(self)@ == (ModelView { quit_count: (old(self)@.quit_count + 1) as u16, ..old(self)@ }),
    {
        self.quit_count += 1;
    }

    /// How many times Ctrl+C was pressed in a row.
    pub fn quit_count(&self) -> (r: u16)
        ensures
            r == self@.quit_count,
    {
        self.quit_count
    }

    pub fn cancel_quit(&mut self)
        ensures
            final(self)@ == (ModelView { quit_count: 0, ..old(self)@ }),
    {
        self.quit_count = 0;
    }

    pub fn should_quit(&mut self) -> (r: bool)
        ensures
            r == (old(self)@.quit_count > 1),
            final(self)@ == old(self)@,
    {
        self.quit_count > 1
    }

    pub fn last_index(&self) -> (r: usize)
        ensures
            r == if self@.messages.len() == 0 { 0 } else { self@.messages.len() - 1 },
    {
        self.messages.len().saturating_sub(1)
    }

    /// the indices that contain valid content to focus on and edit
    pub fn focusable_indices(&self) -> (r: Vec<usize>)
        ensures
            is_focusable_list(self@.messages, r@),
    {
        let mut indices: Vec<usize> = Vec::new();
        let n = self.messages.len();
        let ghost all = self@.messages;
        assert(all == views_of(self.messages@));
        let mut i: usize = 0;
        while i < n
            invariant
                n == self.messages@.len(),
                all == views_of(self.messages@),
                i <= n,
                forall|a: int, b: int| 0 <= a < b < indices@.len() ==> indices@[a] < indices@[b],
                forall|a: int|
                    0 <= a < indices@.len() ==> indices@[a] < i && all[indices@[a] as int].kind
                        != MessageKind::Error,
                forall|j: int|
                    0 <= j < i && all[j].kind != MessageKind::Error ==> exists|a: int|
                        0 <= a < indices@.len() && indices@[a] == j,
            decreases n - i,
        {
            let ghost prev = indices@;
            if self.messages[i].kind != MessageKind::Error {
                indices.push(i);
                assert(indices@[indices@.len() - 1] == i);
            }
            proof {
                assert forall|j: int|
                    0 <= j < i + 1 && all[j].kind != MessageKind::Error implies exists|a: int|
                    0 <= a < indices@.len() && indices@[a] == j by {
                    if j < i {
                        let a = choose|a: int| 0 <= a < prev.len() && prev[a] == j;
                        assert(indices@[a] == j);
                    } else {
                        assert(indices@[indices@.len() - 1] == j);
                    }
                }
            }
            i += 1;
        }
        let ghost prev = indices@;
        indices.push(n);
        proof {
            assert forall|j: int|
                0 <= j < n && all[j].kind != MessageKind::Error implies exists|a: int|
                0 <= a < indices@.len() - 1 && indices@[a] == j by {
                let a = choose|a: int| 0 <= a < prev.len() && prev[a] == j;
                assert(indices@[a] == j);
            }
        }
        indices
    }

    pub fn flush_input(&mut self, text: String) -> (r: bool)
        ensures
            r == old(self)@.accepts_input(text@),
            !r ==> final(self)@ == old(self)@,
            r ==> final(self)@ == old(self)@.after_flush(text@),
    {
        if self.streaming_state == StreamingState::Streaming {
            return false;
        }
        if text.as_str().is_empty() && self.messages.len() == 0 {
            return false;
        }
        let ghost old_msgs = self@.messages;
        if !text.as_str().is_empty() {
            self.messages.push(Message { kind: MessageKind::User, content: text });
        }
        self.messages.push(Message { kind: MessageKind::ResponsePlaceholder, content: String::new() });
        self.streaming_state = StreamingState::AwaitingStream;
        self.input_box = String::new();
        self.left_status = "streaming".to_owned();
        assert(self@.messages =~= if text@.len() == 0 {
            old_msgs.push(MessageView { kind: MessageKind::ResponsePlaceholder, content: Seq::empty() })
        } else {
            old_msgs.push(MessageView { kind: MessageKind::User, content: text@ }).push(
                MessageView { kind: MessageKind::ResponsePlaceholder, content: Seq::empty() })
        });
        true
    }

    /// The messages after replacing the last one of `msgs`, if any, by `m`.
    pub open spec fn with_last(msgs: Seq<MessageView>, m: MessageView) -> Seq<MessageView> {
        if msgs.len() == 0 {
            msgs
        } else {
            msgs.drop_last().push(m)
        }
    }

    pub fn push_think_token(&mut self, token: &str)
        ensures
            final(self)@ == old(self)@.after_think_token(token@),
    {
        let ghost old_msgs = self@.messages;
        if self.streaming_state == StreamingState::AwaitingStream {
            self.streaming_state = StreamingState::Streaming;
            if let Some(_last) = self.messages.pop() {
                self.messages.push(Message { kind: MessageKind::Thinking, content: token.to_owned() });
            }
            assert(self@.messages =~= Self::with_last(old_msgs, MessageView { kind: MessageKind::Thinking, content: token@ }));
            return;
        }
        if let Some(last) = self.messages.pop() {
            let mut content = last.content;
            content.append(token);
            self.messages.push(Message { kind: MessageKind::Thinking, content });
        }
        assert(self@.messages =~= Self::with_last(old_msgs, MessageView {
            kind: MessageKind::Thinking,
            content: old_msgs.last().content + token@,
        }));
    }

    /// The messages after a response token `token` arrives while not awaiting
    /// a stream: after thinking it starts a new response, otherwise it extends
    /// the last message.
    pub open spec fn after_response_token(msgs: Seq<MessageView>, token: Seq<char>) -> Seq<MessageView> {
        if msgs.len() == 0 {
            msgs
        } else if msgs.last().kind == MessageKind::Thinking {
            msgs.push(MessageView { kind: MessageKind::Response, content: token })
        } else {
            msgs.drop_last().push(MessageView { kind: msgs.last().kind, content: msgs.last().content + token })
        }
    }

    pub fn push_stream_token(&mut self, token: &str)
        ensures
            final(self)@ == old(self)@.after_stream_token(token@),
    {
        let ghost old_msgs = self@.messages;
        if self.streaming_state == StreamingState::AwaitingStream {
            self.streaming_state = StreamingState::Streaming;
            if let Some(_last) = self.messages.pop() {
                self.messages.push(Message { kind: MessageKind::Response, content: token.to_owned() });
            }
            assert(self@.messages =~= Self::with_last(old_msgs, MessageView { kind: MessageKind::Response, content: token@ }));
            return;
        }
        if let Some(last) = self.messages.pop() {
            if last.kind == MessageKind::Thinking {
                self.messages.push(last);
                self.messages.push(Message { kind: MessageKind::Response, content: token.to_owned() });
                assert(self@.messages =~= Self::after_response_token(old_msgs, token@));
                return;
            }
            let kind = last.kind;
            let mut content = last.content;
            content.append(token);
            self.messages.push(Message { kind, content });
        }
        assert(self@.messages =~= Self::after_response_token(old_msgs, token@));
    }

    /// The messages once no stream is pending: a last message that is a
    /// reply placeholder becomes a response with the same text.
    pub open spec fn settled(msgs: Seq<MessageView>) -> Seq<MessageView> {
        if msgs.len() > 0 && msgs.last().kind == MessageKind::ResponsePlaceholder {
            Self::with_last(msgs, MessageView { kind: MessageKind::Response, content: msgs.last().content })
        } else {
            msgs
        }
    }

    pub fn finish_stream(&mut self)
        ensures
            final(self)@ == old(self)@.after_finish(),
    {
        let ghost old_msgs = self@.messages;
        let n = self.messages.len();
        if n > 0 && self.messages[n - 1].kind == MessageKind::ResponsePlaceholder {
            if let Some(last) = self.messages.pop() {
                self.messages.push(Message { kind: MessageKind::Response, content: last.content });
            }
        }
        assert(self@.messages =~= Self::settled(old_msgs));
        self.streaming_state = StreamingState::Idle;
        self.left_status = "ready".to_owned();
    }

    pub fn error_stream<T: Display + ?Sized>(&mut self, msg: &T)
        ensures
            ({
                let kept = if old(self)@.messages.len() > 0 && old(self)@.messages.last().content.len() == 0 {
                    old(self)@.messages.drop_last()
                } else {
                    old(self)@.messages
                };
                &&& final(self)@.messages.drop_last() == kept
                &&& final(self)@.messages.len() == kept.len() + 1
            }),
            final(self)@.messages.last().kind == MessageKind::Error,
            vstd::string::to_string_from_display_ensures::<T>(msg, final(self).message_values().last().content),
            final(self)@.messages.last().content == final(self).message_values().last().content@,
            final(self)@ == (ModelView {
                messages: final(self)@.messages,
                streaming: StreamingState::Idle,
                left_status: "error"@,
                ..old(self)@
            }),
    {
        let ghost old_msgs = self@.messages;
        let n = self.messages.len();
        if n > 0 && self.messages[n - 1].content.as_str().is_empty() {
            self.messages.pop();
        }
        let ghost kept = self@.messages;
        assert(kept =~= if old_msgs.len() > 0 && old_msgs.last().content.len() == 0 {
            old_msgs.drop_last()
        } else {
            old_msgs
        });
        self.messages.push(Message { kind: MessageKind::Error, content: msg.to_string() });
        assert(self@.messages.drop_last() =~= kept);
        self.streaming_state = StreamingState::Idle;
        self.left_status = "error".to_owned();
    }

    pub fn focus_state(&self) -> (r: &FocusState)
        ensures
            *r == self@.focus,
    {
        &self.focus_state
    }

    /// safely clamps values
    pub fn focus_on(&mut self, i: usize)
        ensures
            final(self)@ == (ModelView { focus: old(self)@.clamped_focus(i as int), ..old(self)@ }),
    {
        if i >= self.messages.len() {
            self.focus_state = FocusState::Input;
        } else {
            self.focus_state = FocusState::Message(i);
        }
    }

    pub fn focus_up(&mut self, i: usize)
        ensures
            final(self)@ == old(self)@.focus_moved_up(i as int),
    {
        let current_i = match self.focus_state {
            FocusState::Message(i) => i,
            FocusState::Input => self.messages.len(),
        };
        self.focus_on(current_i.saturating_sub(i));
    }

    pub fn focus_down(&mut self, i: usize)
        ensures
            final(self)@ == old(self)@.focus_moved_down(i as int),
    {
        let current_i = match self.focus_state {
            FocusState::Message(i) => i,
            FocusState::Input => self.messages.len(),
        };
        self.focus_on(current_i.saturating_add(i));
    }

    pub fn focus_on_input(&mut self)
        ensures
            final(self)@ == (ModelView { focus: FocusState::Input, ..old(self)@ }),
    {
        self.focus_state = FocusState::Input
    }
}

/// How a reply is cut into tokens does not matter: two tokens in a row leave
/// the chat as one token of their joined text does.
pub proof fn token_split_does_not_matter(m: ModelView, a: Seq<char>, b: Seq<char>)
    ensures
        m.after_stream_token(a).after_stream_token(b) == m.after_stream_token(a + b),
{
    let msgs = m.messages;
    if m.streaming == StreamingState::AwaitingStream {
        if msgs.len() > 0 {
            let one = Model::with_last(msgs, MessageView { kind: MessageKind::Response, content: a });
            assert(one.last() == MessageView { kind: MessageKind::Response, content: a });
            assert(one.drop_last() =~= msgs.drop_last());
            assert(Model::after_response_token(one, b) =~= Model::with_last(
                msgs,
                MessageView { kind: MessageKind::Response, content: a + b },
            ));
        }
    } else if msgs.len() > 0 {
        let one = Model::after_response_token(msgs, a);
        if msgs.last().kind == MessageKind::Thinking {
            assert(one.last() == MessageView { kind: MessageKind::Response, content: a });
            assert(one.drop_last() =~= msgs);
            assert(Model::after_response_token(one, b) =~= msgs.push(
                MessageView { kind: MessageKind::Response, content: a + b },
            ));
        } else {
            assert(one.last() == MessageView { kind: msgs.last().kind, content: msgs.last().content + a });
            assert(one.drop_last() =~= msgs.drop_last());
            assert(msgs.last().content + a + b =~= msgs.last().content + (a + b));
            assert(Model::after_response_token(one, b) =~= Model::after_response_token(msgs, a + b));
        }
    }
}

/// Moving the focus down by as many boxes as it was moved up brings it back,
/// when it did not stop at the first box.
pub proof fn focus_down_undoes_up(m: ModelView, k: usize)
    requires
        m.focus matches FocusState::Message(i) ==> i < m.messages.len(),
        m.messages.len() <= usize::MAX,
        k <= m.focus_index(),
    ensures
        m.focus_moved_up(k as int).focus_moved_down(k as int) == m,
{
}

} // verus!
