//! The chat state: the numbered messages, the notices, the activity of the
//! reply stream, and which message (or the input box) has the focus.
use std::collections::VecDeque;
use std::fmt::Display;

use vstd::prelude::*;
use vstd::string::StringExecFns;

use super::message::{Message, MessageKind, MessageView, is_message, views_of};
use super::notification::{expires_after, Clock, Notification, NotificationKind};

verus! {

#[derive(Debug, PartialEq, Eq, Clone, Copy, Structural)]
pub enum StreamActivity {
    Streaming,
    AwaitingStream,
    Idle,
    Error,
}

/// What box is currently being focused on right now
#[derive(Debug, PartialEq, Eq, Clone, Copy, Structural)]
pub enum Focus {
    Select(usize),
    Edit(usize),
    Input,
}

/// The messages that are conversation content (a user turn, a response, or
/// thinking), in order.
pub open spec fn content_of(msgs: Seq<MessageView>) -> Seq<MessageView> {
    msgs.filter(
        |m: MessageView|
            m.kind == MessageKind::User || m.kind == MessageKind::Response || m.kind == MessageKind::Thinking,
    )
}

/// Whether `m` is conversation content.
pub open spec fn is_content(m: MessageView) -> bool {
    m.kind == MessageKind::User || m.kind == MessageKind::Response || m.kind == MessageKind::Thinking
}

/// The conversation content is the user turns, the responses and the
/// thinking, in order: there is none in no messages, a message of one of
/// those kinds is added to the content after the ones before it, and any
/// other message leaves the content as it was.
pub proof fn content_is_turns_and_thinking(msgs: Seq<MessageView>, m: MessageView)
    ensures
        content_of(Seq::empty()) == Seq::<MessageView>::empty(),
        (m.kind == MessageKind::User || m.kind == MessageKind::Response || m.kind == MessageKind::Thinking)
            ==> content_of(msgs.push(m)) == content_of(msgs).push(m),
        !(m.kind == MessageKind::User || m.kind == MessageKind::Response || m.kind == MessageKind::Thinking)
            ==> content_of(msgs.push(m)) == content_of(msgs),
{
    assert(msgs.push(m).drop_last() =~= msgs);
    reveal_with_fuel(Seq::filter, 1);
    assert(content_of(Seq::<MessageView>::empty()) =~= Seq::<MessageView>::empty());
}

/// Appending a message numbered by its position keeps the numbering.
pub proof fn lemma_indexed_push(msgs: Seq<MessageView>, m: MessageView)
    requires
        indexed(msgs),
        m.index == msgs.len(),
    ensures
        indexed(msgs.push(m)),
{
    assert forall|i: int| 0 <= i < msgs.push(m).len() implies #[trigger] msgs.push(m)[i].index == i by {
        if i < msgs.len() {
            assert(msgs.push(m)[i] == msgs[i]);
        }
    }
}

/// Dropping the last message keeps the numbering.
pub proof fn lemma_indexed_drop_last(msgs: Seq<MessageView>)
    requires
        indexed(msgs),
        msgs.len() > 0,
    ensures
        indexed(msgs.drop_last()),
{
    assert forall|i: int| 0 <= i < msgs.drop_last().len() implies #[trigger] msgs.drop_last()[i].index == i by {
        assert(msgs.drop_last()[i] == msgs[i]);
    }
}

/// Replacing the last message's kind and text keeps the numbering.
pub proof fn lemma_indexed_with_last(msgs: Seq<MessageView>, kind: MessageKind, content: Seq<char>)
    requires
        indexed(msgs),
    ensures
        indexed(with_last(msgs, kind, content)),
{
    if msgs.len() > 0 {
        lemma_indexed_drop_last(msgs);
        assert(msgs[msgs.len() - 1].index == msgs.len() - 1);
        lemma_indexed_push(msgs.drop_last(), MessageView { kind, content, ..msgs.last() });
    }
}

/// The items of `items` whose flag in `keep` is set, in order.
pub open spec fn select<A>(items: Seq<A>, keep: Seq<bool>) -> Seq<A>
    decreases items.len(),
{
    if items.len() == 0 || keep.len() == 0 {
        Seq::empty()
    } else {
        let rest = select(items.drop_last(), keep.drop_last());
        if keep.last() {
            rest.push(items.last())
        } else {
            rest
        }
    }
}

/// The notices of `notes` that are still shown at the clock reading `now`:
/// those expiring later, in order.
pub open spec fn live(notes: Seq<Notification>, now: u128) -> Seq<Notification> {
    select(notes, Seq::new(notes.len(), |i: int| notes[i].expiry > now))
}

/// The last of `notes` when one was `added`.
pub open spec fn added(notes: Seq<Notification>, added: bool) -> Option<Notification> {
    if added {
        Some(notes.last())
    } else {
        None
    }
}

/// The notices that the references `refs` point to.
pub open spec fn notes_of(refs: Seq<&Notification>) -> Seq<Notification> {
    refs.map_values(|n: &Notification| *n)
}

pub struct Model {
    messages: Vec<Message>,
    notifications: VecDeque<Notification>,
    stream_activity: StreamActivity,
    focus: Focus,
    pub spinner_index: usize,
    pub input_box: String,
    clock: Clock,
}

/// What a `Model` holds.
pub struct ModelView {
    pub messages: Seq<MessageView>,
    pub notifications: Seq<Notification>,
    pub activity: StreamActivity,
    pub focus: Focus,
    pub spinner_index: usize,
    pub input_box: Seq<char>,
}

impl View for Model {
    type V = ModelView;

    closed spec fn view(&self) -> ModelView {
        ModelView {
            messages: views_of(self.messages@),
            notifications: self.notifications@,
            activity: self.stream_activity,
            focus: self.focus,
            spinner_index: self.spinner_index,
            input_box: self.input_box@,
        }
    }
}

/// Every message is numbered by its position.
pub open spec fn indexed(msgs: Seq<MessageView>) -> bool {
    forall|i: int| 0 <= i < msgs.len() ==> #[trigger] msgs[i].index == i
}

impl ModelView {
    /// The index of the focused box, where the input box comes after the messages.
    pub open spec fn focus_index(self) -> int {
        match self.focus {
            Focus::Select(i) => i as int,
            Focus::Edit(i) => i as int,
            Focus::Input => self.messages.len() as int,
        }
    }

    /// The focus that `move_focus(i)` sets: the input box past the last
    /// message, otherwise message `i`, edited if a message was being edited.
    pub open spec fn moved_focus(self, i: int) -> Focus {
        if i >= self.messages.len() {
            Focus::Input
        } else {
            match self.focus {
                Focus::Edit(_) => Focus::Edit(i as usize),
                _ => Focus::Select(i as usize),
            }
        }
    }

    /// The chat with the focus moved `k` boxes up, stopping at the first box.
    pub open spec fn focus_moved_up(self, k: int) -> ModelView {
        ModelView {
            focus: self.moved_focus(if self.focus_index() >= k { self.focus_index() - k } else { 0 }),
            ..self
        }
    }

    /// The chat with the focus moved `k` boxes down, stopping at the input box.
    pub open spec fn focus_moved_down(self, k: int) -> ModelView {
        ModelView {
            focus: self.moved_focus(
                if self.focus_index() + k > usize::MAX { usize::MAX as int } else { self.focus_index() + k },
            ),
            ..self
        }
    }

    /// Whether a reply is being waited for or received.
    pub open spec fn active(self) -> bool {
        self.activity == StreamActivity::AwaitingStream || self.activity == StreamActivity::Streaming
    }

    /// Whether `after` is this chat once a response token `token` arrives:
    /// the first one replaces the reply's placeholder and starts the stream;
    /// later ones start a new response after thinking (with a fresh id,
    /// numbered by its position) or extend the last message.
    pub open spec fn streamed(self, after: ModelView, token: Seq<char>) -> bool {
        if self.activity == StreamActivity::AwaitingStream {
            after == ModelView {
                messages: with_last(self.messages, MessageKind::Response, token),
                activity: StreamActivity::Streaming,
                ..self
            }
        } else {
            let msgs = self.messages;
            let am = after.messages;
            &&& after == ModelView { messages: am, ..self }
            &&& (msgs.len() > 0 && msgs.last().kind == MessageKind::Thinking) ==> {
                &&& am.drop_last() == msgs
                &&& am.len() == msgs.len() + 1
                &&& is_message(am.last(), msgs.len() as int, MessageKind::Response, token)
            }
            &&& !(msgs.len() > 0 && msgs.last().kind == MessageKind::Thinking) ==> am == Model::after_response_token(
                msgs,
                token,
            )
        }
    }

    /// Whether `new_input` takes `text`: not while a reply streams in, and
    /// not an empty text before any message.
    pub open spec fn accepts_input(self, text: Seq<char>) -> bool {
        self.activity != StreamActivity::Streaming && !(text.len() == 0 && self.messages.len() == 0)
    }

    /// Whether `after` is this chat once `text` is sent: a trailing error is
    /// dropped, the text follows as a user message (unless it is empty), then
    /// a placeholder for the reply, each numbered by its position and with a
    /// fresh id; the input box is emptied and the reply awaited.
    pub open spec fn sent_input(self, after: ModelView, text: Seq<char>) -> bool {
        let kept = Model::kept_on_input(self.messages);
        let added: int = if text.len() == 0 { 1 } else { 2 };
        let msgs = after.messages;
        &&& msgs.len() == kept.len() + added
        &&& msgs.take(kept.len() as int) == kept
        &&& text.len() > 0 ==> is_message(msgs[kept.len() as int], kept.len() as int, MessageKind::User, text)
        &&& is_message(msgs.last(), msgs.len() - 1, MessageKind::ResponsePlaceholder, Seq::empty())
        &&& after == ModelView {
            messages: msgs,
            activity: StreamActivity::AwaitingStream,
            input_box: Seq::empty(),
            ..self
        }
    }
}

/// The messages after replacing the last one of `msgs`, if any, by one of
/// `kind` showing `content` (keeping its id and number).
pub open spec fn with_last(msgs: Seq<MessageView>, kind: MessageKind, content: Seq<char>) -> Seq<MessageView> {
    if msgs.len() == 0 {
        msgs
    } else {
        msgs.drop_last().push(MessageView { kind, content, ..msgs.last() })
    }
}

impl Default for Model {
    fn default() -> (r: Self)
        ensures
            r@ == (ModelView {
                messages: Seq::empty(),
                notifications: Seq::empty(),
                activity: StreamActivity::Idle,
                focus: Focus::Input,
                spinner_index: 0,
                input_box: Seq::empty(),
            }),
    {
        let r = Self {
            messages: Vec::new(),
            notifications: VecDeque::new(),
            stream_activity: StreamActivity::Idle,
            focus: Focus::Input,
            spinner_index: 0,
            input_box: String::new(),
            clock: Clock::new(),
        };
        assert(r@.messages =~= Seq::empty());
        r
    }
}

impl Model {
    /// The messages themselves.
    pub closed spec fn message_values(&self) -> Seq<Message> {
        self.messages@
    }

    pub fn new() -> (r: Self)
        ensures
            r@ == (ModelView {
                messages: Seq::empty(),
                notifications: Seq::empty(),
                activity: StreamActivity::Idle,
                focus: Focus::Input,
                spinner_index: 0,
                input_box: Seq::empty(),
            }),
    {
        Self::default()
    }

    /// Keeps the notices whose flag in `keep` is set.
    pub fn retain_notifications(&mut self, keep: &Vec<bool>)
        requires
            keep@.len() == old(self)@.notifications.len(),
        ensures
            final(self)@ == (ModelView { notifications: select(old(self)@.notifications, keep@), ..old(self)@ }),
    {
        let n = self.notifications.len();
        let mut kept: VecDeque<Notification> = VecDeque::new();
        let mut i: usize = 0;
        let ghost all = self.notifications@;
        assert(all.skip(0) =~= all);
        while i < n
            invariant
                n == all.len(),
                keep@.len() == n,
                i <= n,
                self.notifications@ == all.skip(i as int),
                all == old(self)@.notifications,
                self@ == (ModelView { notifications: all.skip(i as int), ..old(self)@ }),
                kept@ == select(all.take(i as int), keep@.take(i as int)),
            decreases n - i,
        {
            let item = self.notifications.pop_front();
            assert(all.skip(i as int)[0] == all[i as int]);
            assert(all.take(i + 1).drop_last() =~= all.take(i as int));
            assert(keep@.take(i + 1).drop_last() =~= keep@.take(i as int));
            if let Some(note) = item {
                if keep[i] {
                    kept.push_back(note);
                }
            }
            assert(self.notifications@ =~= all.skip(i + 1));
            assert(self@ == (ModelView { notifications: all.skip(i + 1), ..old(self)@ }));
            i += 1;
        }
        assert(all.take(n as int) =~= all);
        assert(keep@.take(n as int) =~= keep@);
        self.notifications = kept;
    }

    /// Drops the notices that have expired at the clock reading `now`: those
    /// that expire later stay, in order.
    pub fn expire_at(&mut self, now: u128)
        ensures
            final(self)@ == (ModelView { notifications: live(old(self)@.notifications, now), ..old(self)@ }),
    {
        let mut keep: Vec<bool> = Vec::new();
        let n = self.notifications.len();
        let ghost notes = self@.notifications;
        let mut i: usize = 0;
        while i < n
            invariant
                n == notes.len(),
                notes == self@.notifications,
                i <= n,
                keep@ =~= Seq::new(i as nat, |j: int| notes[j].expiry > now),
            decreases n - i,
        {
            keep.push(self.notifications[i].expiry > now);
            i += 1;
        }
        self.retain_notifications(&keep);
    }

    /// pls call every tick
    ///
    /// Reads the clock once and drops the notices that have expired by then.
    pub fn tick(&mut self)
        ensures
            exists|now: u128|
                final(self)@ == (ModelView {
                    notifications: #[trigger] live(old(self)@.notifications, now),
                    ..old(self)@
                }),
    {
        let now = self.clock.now();
        self.expire_at(now);
    }

    /// Adds a notice of `kind` showing `message` that expires `duration`
    /// nanoseconds after the clock's reading now, and says whether it did:
    /// the notice is left out when that moment does not fit a `u128`, which
    /// never happens for a zero duration.
    pub fn notify<T: Display>(&mut self, kind: NotificationKind, message: T, duration: u128) -> (r: bool)
        ensures
            duration == 0 ==> r,
            !r ==> final(self)@ == old(self)@,
            r ==> final(self)@.notifications.drop_last() == old(self)@.notifications,
            r ==> final(self)@.notifications.len() == old(self)@.notifications.len() + 1,
            r ==> final(self)@.notifications.last().kind == kind,
            r ==> vstd::string::to_string_from_display_ensures::<T>(&message, final(self)@.notifications.last().message),
            exists|now: u128|
                #[trigger] expires_after(added(final(self)@.notifications, r), duration, now),
            final(self)@ == (ModelView { notifications: final(self)@.notifications, ..old(self)@ }),
    {
        let note = Notification::new(kind, message, duration, &self.clock);
        match note {
            Some(note) => {
                self.notifications.push_back(note);
                assert(self@.notifications.drop_last() =~= old(self)@.notifications);
                true
            },
            None => false,
        }
    }

    pub fn all_notifications(&self) -> (r: Vec<&Notification>)
        ensures
            notes_of(r@) == self@.notifications,
    {
        let mut r: Vec<&Notification> = Vec::new();
        let n = self.notifications.len();
        let ghost all = self.notifications@;
        let mut i: usize = 0;
        while i < n
            invariant
                n == all.len(),
                all == self.notifications@,
                i <= n,
                notes_of(r@) == all.take(i as int),
            decreases n - i,
        {
            let note = &self.notifications[i];
            assert(*note == all[i as int]);
            let ghost before = r@;
            r.push(note);
            assert(r@ == before.push(note));
            assert(notes_of(before.push(note)) =~= notes_of(before).push(*note));
            assert(notes_of(r@) =~= all.take(i + 1));
            i += 1;
        }
        assert(all.take(n as int) =~= all);
        r
    }

    pub fn all_messages(&self) -> (r: &Vec<Message>)
        ensures
            r@ == self.message_values(),
            views_of(r@) == self@.messages,
    {
        &self.messages
    }

    pub fn all_messages_mut(&mut self) -> (r: &mut Vec<Message>)
        ensures
            r@ == old(self).message_values(),
            views_of(r@) == old(self)@.messages,
            final(self)@ == (ModelView { messages: views_of(final(r)@), ..old(self)@ }),
            final(self).message_values() == final(r)@,
    {
        &mut self.messages
    }

    pub fn content_messages(&self) -> (r: Vec<&Message>)
        ensures
            r@.map_values(|m: &Message| m@) == content_of(self@.messages),
    {
        let mut r: Vec<&Message> = Vec::new();
        let n = self.messages.len();
        let mut i: usize = 0;
        let ghost all = self@.messages;
        while i < n
            invariant
                n == self.messages@.len(),
                all == views_of(self.messages@),
                i <= n,
                r@.map_values(|m: &Message| m@) == content_of(all.take(i as int)),
            decreases n - i,
        {
            let m = &self.messages[i];
            assert(all.take(i + 1).drop_last() =~= all.take(i as int));
            assert(all.take(i + 1).last() == m@);
            assert(content_of(all.take(i + 1)) == if is_content(m@) {
                content_of(all.take(i as int)).push(m@)
            } else {
                content_of(all.take(i as int))
            }) by {
                reveal_with_fuel(Seq::filter, 1);
            }
            if m.kind == MessageKind::User || m.kind == MessageKind::Response || m.kind
                == MessageKind::Thinking {
                r.push(m);
            }
            i += 1;
            assert(r@.map_values(|m: &Message| m@) =~= content_of(all.take(i as int)));
        }
        assert(all.take(n as int) =~= all);
        r
    }

    pub fn push_message<T: Display>(&mut self, kind: MessageKind, content: T)
        ensures
            final(self)@.messages.drop_last() == old(self)@.messages,
            final(self)@.messages.len() == old(self)@.messages.len() + 1,
            final(self)@.messages.last().index == old(self)@.messages.len(),
            final(self)@.messages.last().kind == kind,
            vstd::string::to_string_from_display_ensures::<T>(&content, final(self).message_values().last().content),
            final(self)@ == (ModelView { messages: final(self)@.messages, ..old(self)@ }),
            indexed(old(self)@.messages) ==> indexed(final(self)@.messages),
    {
        let index = self.messages.len();
        self.messages.push(Message::new(index, kind, content));
        assert(self@.messages =~= old(self)@.messages.push(self@.messages.last()));
        proof {
            if indexed(old(self)@.messages) {
                lemma_indexed_push(old(self)@.messages, self@.messages.last());
            }
        }
    }

    /// Appends a message of `kind` showing the text `content`, numbered by its position.
    fn push_text(&mut self, kind: MessageKind, content: &str)
        ensures
            final(self)@.messages == old(self)@.messages.push(final(self)@.messages.last()),
            final(self)@.messages.drop_last() == old(self)@.messages,
            final(self)@.messages.len() == old(self)@.messages.len() + 1,
            is_message(final(self)@.messages.last(), old(self)@.messages.len() as int, kind, content@),
            final(self)@ == (ModelView { messages: final(self)@.messages, ..old(self)@ }),
    {
        let index = self.messages.len();
        self.messages.push(Message::from_text(index, kind, content));
        assert(self@.messages =~= old(self)@.messages.push(self@.messages.last()));
    }

    /// The spinner's tick count.
    pub fn spinner_index(&self) -> (r: usize)
        ensures
            r == self@.spinner_index,
    {
        self.spinner_index
    }

    /// Moves the spinner on by one tick, wrapping around.
    pub fn advance_spinner(&mut self)
        ensures
            final(self)@ == (ModelView {
                spinner_index: if old(self)@.spinner_index == usize::MAX {
                    0
                } else {
                    (old(self)@.spinner_index + 1) as usize
                },
                ..old(self)@
            }),
    {
        self.spinner_index = if self.spinner_index == usize::MAX { 0 } else { self.spinner_index + 1 };
    }

    pub fn streaming_state(&self) -> (r: StreamActivity)
        ensures
            r == self@.activity,
    {
        match self.stream_activity {
            StreamActivity::Streaming => StreamActivity::Streaming,
            StreamActivity::AwaitingStream => StreamActivity::AwaitingStream,
            StreamActivity::Idle => StreamActivity::Idle,
            StreamActivity::Error => StreamActivity::Error,
        }
    }

    pub fn last_msg_idx(&self) -> (r: usize)
        ensures
            r == if self@.messages.len() == 0 { 0 } else { self@.messages.len() - 1 },
    {
        self.messages.len().saturating_sub(1)
    }

    /// the indices that contain valid content to focus on and edit
    pub fn focusable_indices(&self) -> (r: Vec<usize>)
        ensures
            r@.len() >= 1,
            r@.last() == self@.messages.len(),
            forall|a: int, b: int| 0 <= a < b < r@.len() ==> r@[a] < r@[b],
            forall|a: int|
                0 <= a < r@.len() - 1 ==> r@[a] < self@.messages.len() && self@.messages[r@[a] as int].kind
                    != MessageKind::Error,
            forall|i: int|
                0 <= i < self@.messages.len() && self@.messages[i].kind != MessageKind::Error ==> exists|a: int|
                    0 <= a < r@.len() - 1 && r@[a] == i,
    {
        let mut indices: Vec<usize> = Vec::new();
        let n = self.messages.len();
        let ghost all = self@.messages;
        let mut i: usize = 0;
        while i < n
            invariant
                n == self.messages@.len(),
                all == views_of(self.messages@),
                i <= n,
                forall|a: int, b: int| 0 <= a < b < indices@.len() ==> indices@[a] < indices@[b],
                forall|a: int|
                    0 <= a < indices@.len() ==> indices@[a] < i && all[indices@[a] as int].kind
                        != MessageKind::Error,
                forall|j: int|
                    0 <= j < i && all[j].kind != MessageKind::Error ==> exists|a: int|
                        0 <= a < indices@.len() && indices@[a] == j,
            decreases n - i,
        {
            let ghost prev = indices@;
            if self.messages[i].kind != MessageKind::Error {
                indices.push(i);
                assert(indices@[indices@.len() - 1] == i);
            }
            proof {
                assert forall|j: int|
                    0 <= j < i + 1 && all[j].kind != MessageKind::Error implies exists|a: int|
                    0 <= a < indices@.len() && indices@[a] == j by {
                    if j < i {
                        let a = choose|a: int| 0 <= a < prev.len() && prev[a] == j;
                        assert(indices@[a] == j);
                    } else {
                        assert(indices@[indices@.len() - 1] == j);
                    }
                }
            }
            i += 1;
        }
        let ghost prev = indices@;
        indices.push(n);
        proof {
            assert forall|j: int|
                0 <= j < n && all[j].kind != MessageKind::Error implies exists|a: int|
                0 <= a < indices@.len() - 1 && indices@[a] == j by {
                let a = choose|a: int| 0 <= a < prev.len() && prev[a] == j;
                assert(indices@[a] == j);
            }
        }
        indices
    }

    /// Replaces the text of the input box.
    pub fn set_input_box(&mut self, text: String)
        ensures
            final(self)@ == (ModelView { input_box: text@, ..old(self)@ }),
    {
        self.input_box = text;
    }

    /// A copy of the text of the input box.
    pub fn input_text(&self) -> (r: String)
        ensures
            r@ == self@.input_box,
    {
        self.input_box.clone()
    }

    pub fn num_messages(&self) -> (r: usize)
        ensures
            r == self@.messages.len(),
    {
        self.messages.len()
    }

    //
    // streaming
    //

    /// The messages kept when new input is sent: a trailing error is dropped.
    pub open spec fn kept_on_input(msgs: Seq<MessageView>) -> Seq<MessageView> {
        if msgs.len() > 0 && msgs.last().kind == MessageKind::Error {
            msgs.drop_last()
        } else {
            msgs
        }
    }

    pub fn new_input(&mut self, text: &str) -> (r: bool)
        ensures
            r == old(self)@.accepts_input(text@),
            !r ==> final(self)@ == old(self)@,
            r ==> old(self)@.sent_input(final(self)@, text@),
            indexed(old(self)@.messages) ==> indexed(final(self)@.messages),
    {
        if self.stream_activity == StreamActivity::Streaming {
            return false;
        }
        if text.is_empty() && self.messages.len() == 0 {
            return false;
        }
        let ghost old_msgs = self@.messages;
        let n = self.messages.len();
        if n > 0 && self.messages[n - 1].kind == MessageKind::Error {
            self.messages.pop();
        }
        let ghost kept = self@.messages;
        assert(kept =~= Self::kept_on_input(old_msgs));
        proof {
            if indexed(old_msgs) && kept.len() < old_msgs.len() {
                lemma_indexed_drop_last(old_msgs);
            }
            assert(indexed(old_msgs) ==> indexed(kept));
        }
        if !text.is_empty() {
            self.push_text(MessageKind::User, text);
            proof {
                if indexed(old_msgs) {
                    lemma_indexed_push(kept, self@.messages.last());
                }
            }
        }
        let ghost mid = self@.messages;
        assert(indexed(old_msgs) ==> indexed(mid));
        self.push_text(MessageKind::ResponsePlaceholder, "");
        proof {
            reveal_strlit("");
            if indexed(old_msgs) {
                lemma_indexed_push(mid, self@.messages.last());
            }
        }
        self.stream_activity = StreamActivity::AwaitingStream;
        self.input_box = String::new();
        assert(self@.messages.take(kept.len() as int) =~= kept);
        assert(text@.len() > 0 ==> self@.messages[kept.len() as int] == mid.last());
        assert(""@ =~= Seq::<char>::empty());
        assert(is_message(self@.messages.last(), self@.messages.len() - 1, MessageKind::ResponsePlaceholder, Seq::empty()));
        assert(self@.messages.len() == kept.len() + if text@.len() == 0 { 1int } else { 2 });
        assert(self@ == (ModelView {
                    messages: self@.messages,
                    activity: StreamActivity::AwaitingStream,
                    input_box: Seq::empty(),
                    ..old(self)@
                }));
        true
    }

    pub fn push_think_token(&mut self, token: &str)
        ensures
            final(self)@ == (ModelView {
                messages: if old(self)@.activity == StreamActivity::AwaitingStream {
                    with_last(old(self)@.messages, MessageKind::Thinking, token@)
                } else {
                    with_last(old(self)@.messages, MessageKind::Thinking, old(self)@.messages.last().content + token@)
                },
                activity: if old(self)@.activity == StreamActivity::AwaitingStream {
                    StreamActivity::Streaming
                } else {
                    old(self)@.activity
                },
                ..old(self)@
            }),
            indexed(old(self)@.messages) ==> indexed(final(self)@.messages),
    {
        let ghost old_msgs = self@.messages;
        if self.stream_activity == StreamActivity::AwaitingStream {
            self.stream_activity = StreamActivity::Streaming;
            if let Some(last) = self.messages.pop() {
                self.messages.push(Message { uuid: last.uuid, index: last.index, kind: MessageKind::Thinking, content: token.to_owned() });
            }
            assert(self@.messages =~= with_last(old_msgs, MessageKind::Thinking, token@));
            return;
        }
        if let Some(last) = self.messages.pop() {
            let mut content = last.content;
            content.append(token);
            self.messages.push(Message { uuid: last.uuid, index: last.index, kind: MessageKind::Thinking, content });
        }
        assert(self@.messages =~= with_last(old_msgs, MessageKind::Thinking, old_msgs.last().content + token@));
    }

    /// The messages after a response token `token` arrives while no stream
    /// is awaited: after thinking it starts a new response, otherwise it
    /// extends the last message.
    pub open spec fn after_response_token(msgs: Seq<MessageView>, token: Seq<char>) -> Seq<MessageView> {
        if msgs.len() == 0 {
            msgs
        } else if msgs.last().kind == MessageKind::Thinking {
            msgs.push(MessageView { index: msgs.len() as usize, kind: MessageKind::Response, content: token, ..msgs.last() })
        } else {
            with_last(msgs, msgs.last().kind, msgs.last().content + token)
        }
    }

    pub fn push_stream_token(&mut self, token: &str)
        ensures
            old(self)@.streamed(final(self)@, token@),
            indexed(old(self)@.messages) ==> indexed(final(self)@.messages),
    {
        let ghost old_msgs = self@.messages;
        if self.stream_activity == StreamActivity::AwaitingStream {
            self.stream_activity = StreamActivity::Streaming;
            if let Some(last) = self.messages.pop() {
                self.messages.push(Message { uuid: last.uuid, index: last.index, kind: MessageKind::Response, content: token.to_owned() });
            }
            assert(self@.messages =~= with_last(old_msgs, MessageKind::Response, token@));
            proof {
                if indexed(old_msgs) {
                    lemma_indexed_with_last(old_msgs, MessageKind::Response, token@);
                }
            }
            return;
        }
        let n = self.messages.len();
        if n > 0 && self.messages[n - 1].kind == MessageKind::Thinking {
            self.push_text(MessageKind::Response, token);
            proof {
                if indexed(old_msgs) {
                    lemma_indexed_push(old_msgs, self@.messages.last());
                }
            }
            return;
        }
        if let Some(last) = self.messages.pop() {
            let mut content = last.content;
            content.append(token);
            self.messages.push(Message { uuid: last.uuid, index: last.index, kind: last.kind, content });
        }
        assert(self@.messages =~= Self::after_response_token(old_msgs, token@));
        proof {
            if indexed(old_msgs) {
                lemma_indexed_with_last(old_msgs, old_msgs.last().kind, old_msgs.last().content + token@);
            }
        }
    }

    /// The messages once no stream is pending: a last message that is a
    /// reply placeholder becomes a response with the same text, id and number.
    pub open spec fn settled(msgs: Seq<MessageView>) -> Seq<MessageView> {
        if msgs.len() > 0 && msgs.last().kind == MessageKind::ResponsePlaceholder {
            with_last(msgs, MessageKind::Response, msgs.last().content)
        } else {
            msgs
        }
    }

    /// Ends the stream: the chat is idle, and a reply placeholder still
    /// waiting (no token came) becomes an empty response.
    pub fn finish_stream(&mut self)
        ensures
            final(self)@ == (ModelView { messages: Self::settled(old(self)@.messages), activity: StreamActivity::Idle, ..old(self)@ }),
            indexed(old(self)@.messages) ==> indexed(final(self)@.messages),
    {
        let ghost old_msgs = self@.messages;
        let n = self.messages.len();
        if n > 0 && self.messages[n - 1].kind == MessageKind::ResponsePlaceholder {
            if let Some(last) = self.messages.pop() {
                self.messages.push(Message { uuid: last.uuid, index: last.index, kind: MessageKind::Response, content: last.content });
            }
            proof {
                if indexed(old_msgs) {
                    lemma_indexed_with_last(old_msgs, MessageKind::Response, old_msgs.last().content);
                }
            }
        }
        assert(self@.messages =~= Self::settled(old_msgs));
        self.stream_activity = StreamActivity::Idle;
    }

    pub fn error_stream<T: Display + ?Sized>(&mut self, msg: &T)
        ensures
            ({
                let kept = if old(self)@.messages.len() > 0 && old(self)@.messages.last().kind
                    == MessageKind::ResponsePlaceholder {
                    old(self)@.messages.drop_last()
                } else {
                    old(self)@.messages
                };
                &&& final(self)@.messages.drop_last() == kept
                &&& final(self)@.messages.len() == kept.len() + 1
                &&& final(self)@.messages.last().index == kept.len()
            }),
            final(self)@.messages.last().kind == MessageKind::Error,
            vstd::string::to_string_from_display_ensures::<T>(msg, final(self).message_values().last().content),
            final(self)@ == (ModelView {
                messages: final(self)@.messages,
                activity: StreamActivity::Error,
                ..old(self)@
            }),
            indexed(old(self)@.messages) ==> indexed(final(self)@.messages),
    {
        let ghost old_msgs = self@.messages;
        let n = self.messages.len();
        if n > 0 && self.messages[n - 1].kind == MessageKind::ResponsePlaceholder {
            self.messages.pop();
        }
        let ghost kept = self@.messages;
        assert(kept =~= if old_msgs.len() > 0 && old_msgs.last().kind == MessageKind::ResponsePlaceholder {
            old_msgs.drop_last()
        } else {
            old_msgs
        });
        let index = self.messages.len();
        self.messages.push(Message { uuid: super::message::new_uuid(), index, kind: MessageKind::Error, content: msg.to_string() });
        assert(self@.messages =~= kept.push(self@.messages.last()));
        proof {
            if indexed(old_msgs) {
                if kept.len() < old_msgs.len() {
                    lemma_indexed_drop_last(old_msgs);
                }
                lemma_indexed_push(kept, self@.messages.last());
            }
        }
        self.stream_activity = StreamActivity::Error;
    }

    //
    // focusing
    //

    pub fn stop_editing_current(&mut self)
        ensures
            final(self)@ == (ModelView {
                focus: match old(self)@.focus {
                    Focus::Edit(i) => Focus::Select(i),
                    f => f,
                },
                ..old(self)@
            }),
    {
        match self.focus {
            Focus::Select(_) => {},
            Focus::Edit(i) => self.focus = Focus::Select(i),
            Focus::Input => {},
        }
    }

    pub fn start_editing_current(&mut self)
        ensures
            final(self)@ == (ModelView {
                focus: match old(self)@.focus {
                    Focus::Select(i) => Focus::Edit(i),
                    f => f,
                },
                ..old(self)@
            }),
    {
        match self.focus {
            Focus::Select(i) => self.focus = Focus::Edit(i),
            Focus::Edit(_) => {},
            Focus::Input => {},
        }
    }

    pub fn stream_active(&self) -> (r: bool)
        ensures
            r == self@.active(),
    {
        match self.stream_activity {
            StreamActivity::AwaitingStream | StreamActivity::Streaming => true,
            _ => false,
        }
    }

    pub fn current_focus(&self) -> (r: &Focus)
        ensures
            *r == self@.focus,
    {
        &self.focus
    }

    /// only use if clamping!!!
    fn current_focus_index(&self) -> (r: usize)
        ensures
            r == self@.focus_index(),
    {
        match self.focus {
            Focus::Select(i) => i,
            Focus::Edit(i) => i,
            Focus::Input => self.messages.len(),
        }
    }

    /// safely clamps values
    /// keeps current focus state (edit, select) if possible
    pub fn move_focus(&mut self, i: usize)
        ensures
            final(self)@ == (ModelView { focus: old(self)@.moved_focus(i as int), ..old(self)@ }),
    {
        if i >= self.messages.len() {
            self.focus = Focus::Input;
        } else {
            self.focus = match self.focus {
                Focus::Select(_) => Focus::Select(i),
                Focus::Edit(_) => Focus::Edit(i),
                Focus::Input => Focus::Select(i),
            }
        }
    }

    pub fn move_focus_up(&mut self, i: usize)
        ensures
            final(self)@ == old(self)@.focus_moved_up(i as int),
    {
        self.move_focus(self.current_focus_index().saturating_sub(i));
    }

    pub fn move_focus_down(&mut self, i: usize)
        ensures
            final(self)@ == old(self)@.focus_moved_down(i as int),
    {
        self.move_focus(self.current_focus_index().saturating_add(i));
    }

    pub fn set_focus(&mut self, opt: Focus)
        ensures
            final(self)@ == (ModelView { focus: opt, ..old(self)@ }),
    {
        self.focus = opt
    }
}

/// Two message lists hold the same messages apart from their ids.
pub open spec fn same_but_ids(a: Seq<MessageView>, b: Seq<MessageView>) -> bool {
    &&& a.len() == b.len()
    &&& forall|i: int|
        0 <= i < a.len() ==> #[trigger] a[i].index == b[i].index && a[i].kind == b[i].kind && a[i].content
            == b[i].content
}

/// How a reply is cut into tokens does not matter: two tokens in a row leave
/// the chat as one token of their joined text does, apart from the id of a
/// response started after thinking.
pub proof fn token_split_does_not_matter(m: ModelView, m1: ModelView, m2: ModelView, m3: ModelView, a: Seq<char>, b: Seq<char>)
    requires
        m.streamed(m1, a),
        m1.streamed(m2, b),
        m.streamed(m3, a + b),
    ensures
        same_but_ids(m2.messages, m3.messages),
        m2 == (ModelView { messages: m2.messages, ..m3 }),
{
    let msgs = m.messages;
    if m.activity == StreamActivity::AwaitingStream {
        if msgs.len() > 0 {
            assert(m1.messages.last().kind == MessageKind::Response);
            assert(m1.messages.drop_last() =~= msgs.drop_last());
            assert(m2.messages =~= m3.messages);
        } else {
            assert(m2.messages =~= m3.messages);
        }
    } else if msgs.len() > 0 && msgs.last().kind == MessageKind::Thinking {
        assert(m1.messages.last().kind == MessageKind::Response);
        assert(m1.messages.drop_last() =~= msgs);
        assert forall|i: int| 0 <= i < m2.messages.len() implies #[trigger] m2.messages[i].index == m3.messages[i].index
            && m2.messages[i].kind == m3.messages[i].kind && m2.messages[i].content == m3.messages[i].content by {
            if i < msgs.len() {
                assert(m2.messages[i] == m2.messages.drop_last()[i]);
                assert(m3.messages[i] == m3.messages.drop_last()[i]);
            }
        }
    } else if msgs.len() > 0 {
        assert(m1.messages.last().kind == msgs.last().kind);
        assert(m1.messages.drop_last() =~= msgs.drop_last());
        assert(msgs.last().content + a + b =~= msgs.last().content + (a + b));
        assert(m2.messages =~= m3.messages);
    } else {
        assert(m2.messages =~= m3.messages);
    }
}

/// Moving the focus down by as many boxes as it was moved up brings it back,
/// selected or edited as it was, when it did not stop at the first box.
pub proof fn focus_down_undoes_up(m: ModelView, k: usize)
    requires
        m.focus matches Focus::Select(i) ==> i < m.messages.len(),
        m.focus matches Focus::Edit(i) ==> i < m.messages.len(),
        m.messages.len() <= usize::MAX,
        k <= m.focus_index(),
    ensures
        m.focus_moved_up(k as int).focus_moved_down(k as int) == m,
{
}

} // verus!
