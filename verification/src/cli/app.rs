//! What the terminal app decides: what a key press, a turn of the mouse
//! wheel, an event of the response stream or a clock tick does to the chat
//! and to its view.  The app's loop reads the events and does the drawing
//! and the sending.
use crate::cli::widgets::input_box::{key_effect, stroke_of, KeyInput};
use vstd::prelude::*;

use crate::llm::Event;
use crate::model::{FocusState, MessageKind, MessageView, Model, ModelView, StreamingState};
use crate::text::{joined, join_lines, sat_add, sat_sub};
use crate::widgets::chat::{Chat, ChatView, Scroll};

verus! {

/// A key press, as the app tells the keys apart.
pub enum KeyPress {
    /// Ctrl and `c`.
    CtrlC,
    Esc,
    Tab,
    BackTab,
    /// Alt and Enter.
    AltEnter,
    PageUp,
    PageDown,
    /// Any other key, handed to the input box.
    Other(KeyInput),
}

/// What the app has to do after a key press.
#[derive(Debug, Clone, Copy, PartialEq, Eq, Structural)]
pub enum KeyOutcome {
    /// Nothing more.
    Handled,
    /// Send the conversation to the model: the input was just submitted.
    SendRequest,
}

/// A turn of the mouse wheel.
#[derive(Debug, Clone, Copy, PartialEq, Eq, Structural)]
pub enum Wheel {
    Up,
    Down,
}

/// The rows one page key or wheel turn scrolls.
pub const SCROLL_STEP: usize = 3;

/// The hint shown after a first Ctrl+C.
pub open spec fn quit_hint() -> Seq<char> {
    "press ctrl+c again to quit"@
}

/// Whether a reply is on its way.
pub open spec fn is_busy(m: ModelView) -> bool {
    m.streaming == StreamingState::Streaming || m.streaming == StreamingState::AwaitingStream
}

/// The view scrolled `n` rows up from where it was last drawn.
pub open spec fn scrolled_up(c: ChatView, n: int) -> ChatView {
    ChatView { scroll: Scroll::Offset(sat_sub(c.last_scroll_offset as int, n) as usize), ..c }
}

/// The view scrolled `n` rows down from where it was last drawn.
pub open spec fn scrolled_down(c: ChatView, n: int) -> ChatView {
    ChatView { scroll: Scroll::Offset(sat_add(c.last_scroll_offset as int, n) as usize), ..c }
}

/// The chat once Ctrl+C is pressed: one more press counted, and the hint shown.
pub open spec fn pressed_ctrl_c(m: ModelView) -> ModelView {
    ModelView { quit_count: (m.quit_count + 1) as u16, right_status: Some(quit_hint()), ..m }
}

/// The chat once a key other than Ctrl+C is pressed: the quit count and the
/// hint are cleared.
pub open spec fn quit_cancelled(m: ModelView) -> ModelView {
    ModelView { quit_count: 0, right_status: None, ..m }
}

/// Scrolls the view one step with the mouse wheel.
pub fn handle_mouse(chat: &mut Chat, wheel: Wheel)
    ensures
        final(chat)@ == match wheel {
            Wheel::Up => scrolled_up(old(chat)@, SCROLL_STEP as int),
            Wheel::Down => scrolled_down(old(chat)@, SCROLL_STEP as int),
        },
{
    match wheel {
        Wheel::Down => chat.scroll_down(SCROLL_STEP),
        Wheel::Up => chat.scroll_up(SCROLL_STEP),
    }
}

/// Moves the spinner on while a reply is on its way.
pub fn on_tick(model: &mut Model)
    ensures
        final(model)@ == if is_busy(old(model)@) {
            ModelView {
                spinner_index: if old(model)@.spinner_index == usize::MAX {
                    0
                } else {
                    (old(model)@.spinner_index + 1) as usize
                },
                ..old(model)@
            }
        } else {
            old(model)@
        },
{
    let state = model.streaming_state();
    if state == StreamingState::AwaitingStream || state == StreamingState::Streaming {
        model.advance_spinner();
    }
}

/// The chat after the stream failed with the message `text`: a reply with no
/// text yet is dropped, the error is added, and the chat is idle.
pub open spec fn after_error(m: ModelView, text: Seq<char>) -> ModelView {
    let kept = if m.messages.len() > 0 && m.messages.last().content.len() == 0 {
        m.messages.drop_last()
    } else {
        m.messages
    };
    ModelView {
        messages: kept.push(MessageView { kind: MessageKind::Error, content: text }),
        streaming: StreamingState::Idle,
        left_status: "error"@,
        ..m
    }
}

/// Hands an event of the response stream to the chat.
pub fn handle_llm_event(model: &mut Model, event: Event)
    ensures
        final(model)@ == match event {
            Event::Token(t) => old(model)@.after_stream_token(t@),
            Event::ThinkingToken(t) => old(model)@.after_think_token(t@),
            Event::Done => old(model)@.after_finish(),
            Event::Error(e) => after_error(old(model)@, e@),
        },
{
    match event {
        Event::Token(token) => model.push_stream_token(token.as_str()),
        Event::Done => model.finish_stream(),
        Event::Error(e) => {
            let ghost before = model@;
            model.error_stream(e.as_str());
            proof {
                let kept = if before.messages.len() > 0 && before.messages.last().content.len() == 0 {
                    before.messages.drop_last()
                } else {
                    before.messages
                };
                assert(model@.messages =~= kept.push(MessageView { kind: MessageKind::Error, content: e@ }));
            }
        },
        Event::ThinkingToken(token) => model.push_think_token(token.as_str()),
    }
}

/// What a key does.  Ctrl+C counts towards quitting and shows the hint; any
/// other key clears both.  While a reply is on its way only the page keys
/// work, scrolling the view.  Otherwise Esc puts the focus on the input box,
/// Tab and Shift+Tab move it one box up or down and bring it into view,
/// Alt+Enter in the input box sends its text (see `Model::flush_input`),
/// empties the box and follows the reply, the page keys scroll, and any other
/// key goes to the input box.
pub fn handle_key(model: &mut Model, chat: &mut Chat, key: KeyPress) -> (r: KeyOutcome)
    requires
        key is CtrlC ==> old(model)@.quit_count < u16::MAX,
    ensures
        key is CtrlC ==> {
            &&& final(model)@ == pressed_ctrl_c(old(model)@)
            &&& final(chat)@ == old(chat)@
            &&& r == KeyOutcome::Handled
        },
        !(key is CtrlC) && is_busy(old(model)@) ==> {
            &&& final(model)@ == quit_cancelled(old(model)@)
            &&& final(chat)@ == match key {
                KeyPress::PageUp => scrolled_up(old(chat)@, SCROLL_STEP as int),
                KeyPress::PageDown => scrolled_down(old(chat)@, SCROLL_STEP as int),
                _ => old(chat)@,
            }
            &&& r == KeyOutcome::Handled
        },
        !is_busy(old(model)@) ==> {
            let m0 = quit_cancelled(old(model)@);
            let c0 = old(chat)@;
            let text = joined(c0.input, '\n');
            match key {
                KeyPress::CtrlC => true,
                KeyPress::Esc => final(model)@ == ModelView { focus: FocusState::Input, ..m0 } && final(chat)@ == c0
                    && r == KeyOutcome::Handled,
                KeyPress::Tab => final(model)@ == m0.focus_moved_up(1) && final(chat)@ == ChatView {
                    scroll: Scroll::Focus,
                    ..c0
                } && r == KeyOutcome::Handled,
                KeyPress::BackTab => final(model)@ == m0.focus_moved_down(1) && final(chat)@ == ChatView {
                    scroll: Scroll::Focus,
                    ..c0
                } && r == KeyOutcome::Handled,
                KeyPress::AltEnter => if m0.focus == FocusState::Input && m0.accepts_input(text) {
                    &&& final(model)@ == m0.after_flush(text)
                    &&& final(chat)@ == ChatView { input: seq![Seq::empty()], scroll: Scroll::Max, ..c0 }
                    &&& r == KeyOutcome::SendRequest
                } else {
                    final(model)@ == m0 && final(chat)@ == c0 && r == KeyOutcome::Handled
                },
                KeyPress::PageUp => final(model)@ == m0 && final(chat)@ == scrolled_up(c0, SCROLL_STEP as int)
                    && r == KeyOutcome::Handled,
                KeyPress::PageDown => final(model)@ == m0 && final(chat)@ == scrolled_down(c0, SCROLL_STEP as int)
                    && r == KeyOutcome::Handled,
                KeyPress::Other(k) => {
                    &&& final(model)@ == m0
                    &&& final(chat)@ == ChatView { input: final(chat)@.input, ..c0 }
                    &&& final(chat)@.input == old(chat).keyed(k).1
                    &&& key_effect(stroke_of(k), old(chat).text_state(), old(chat).keyed(k).0, final(chat).text_state())
                    &&& r == KeyOutcome::Handled
                },
            }
        },
{
    if let KeyPress::CtrlC = key {
        model.increment_quit();
        model.set_right_status(Some("press ctrl+c again to quit".to_owned()));
        return KeyOutcome::Handled;
    }
    model.cancel_quit();
    model.set_right_status(None);
    let state = model.streaming_state();
    if state == StreamingState::Streaming || state == StreamingState::AwaitingStream {
        match key {
            KeyPress::PageUp => chat.scroll_up(SCROLL_STEP),
            KeyPress::PageDown => chat.scroll_down(SCROLL_STEP),
            _ => {},
        }
        return KeyOutcome::Handled;
    }
    match key {
        KeyPress::Esc => {
            model.focus_on_input();
        },
        KeyPress::Tab => {
            model.focus_up(1);
            chat.set_scroll(Scroll::Focus);
        },
        KeyPress::BackTab => {
            model.focus_down(1);
            chat.set_scroll(Scroll::Focus);
        },
        KeyPress::AltEnter => {
            if *model.focus_state() == FocusState::Input {
                let text = join_lines(chat.lines().as_slice());
                if model.flush_input(text) {
                    chat.clear_input();
                }
                if model.streaming_state() == StreamingState::AwaitingStream {
                    chat.set_scroll(Scroll::Max);
                    return KeyOutcome::SendRequest;
                }
            }
        },
        KeyPress::PageUp => chat.scroll_up(SCROLL_STEP),
        KeyPress::PageDown => chat.scroll_down(SCROLL_STEP),
        KeyPress::Other(input) => {
            let _edited = chat.input(input);
        },
        KeyPress::CtrlC => {},
    }
    KeyOutcome::Handled
}

/// Ctrl+C quits when pressed twice in a row, and not when pressed once after
/// another key.
pub proof fn ctrl_c_twice_quits(m: ModelView)
    ensures
        pressed_ctrl_c(pressed_ctrl_c(quit_cancelled(m))).quit_count > 1,
        !(pressed_ctrl_c(quit_cancelled(m)).quit_count > 1),
{
}

/// Two Ctrl+C presses in a row quit from any state whose count can take them.
pub proof fn ctrl_c_twice_quits_from_any_state(m: ModelView)
    requires
        m.quit_count + 2 <= u16::MAX,
    ensures
        pressed_ctrl_c(pressed_ctrl_c(m)).quit_count > 1,
{
}

/// A question sent and answered in two pieces ends with the question and the
/// whole answer after the conversation so far, an empty input box, and the
/// chat idle and ready.
pub proof fn answer_follows_question(m: ModelView, text: Seq<char>, a: Seq<char>, b: Seq<char>)
    requires
        text.len() > 0,
        m.accepts_input(text),
    ensures
        ({
            let done = m.after_flush(text).after_stream_token(a).after_stream_token(b).after_finish();
            &&& done.messages == m.messages.push(MessageView { kind: MessageKind::User, content: text }).push(
                MessageView { kind: MessageKind::Response, content: a + b },
            )
            &&& done.streaming == StreamingState::Idle
            &&& done.left_status == "ready"@
            &&& done.input_box == Seq::<char>::empty()
        }),
{
    let m1 = m.after_flush(text);
    let m2 = m1.after_stream_token(a);
    let m3 = m2.after_stream_token(b);
    assert(m2.messages =~= m.messages.push(MessageView { kind: MessageKind::User, content: text }).push(
        MessageView { kind: MessageKind::Response, content: a },
    ));
    assert(m3.messages =~= m.messages.push(MessageView { kind: MessageKind::User, content: text }).push(
        MessageView { kind: MessageKind::Response, content: a + b },
    ));
}

/// Thinking that comes before the answer stays in the conversation, just
/// before the answer.
pub proof fn thinking_precedes_answer(m: ModelView, text: Seq<char>, t: Seq<char>, a: Seq<char>)
    requires
        text.len() > 0,
        m.accepts_input(text),
    ensures
        m.after_flush(text).after_think_token(t).after_stream_token(a).messages == m.messages.push(
            MessageView { kind: MessageKind::User, content: text },
        ).push(MessageView { kind: MessageKind::Thinking, content: t }).push(
            MessageView { kind: MessageKind::Response, content: a },
        ),
{
    let m2 = m.after_flush(text).after_think_token(t);
    assert(m2.messages =~= m.messages.push(MessageView { kind: MessageKind::User, content: text }).push(
        MessageView { kind: MessageKind::Thinking, content: t },
    ));
}

/// A stream that fails before any answer leaves the question followed by the
/// error, with no empty reply, and the chat idle.
pub proof fn failed_stream_leaves_error(m: ModelView, text: Seq<char>, e: Seq<char>)
    requires
        text.len() > 0,
        m.accepts_input(text),
    ensures
        after_error(m.after_flush(text), e).messages == m.messages.push(
            MessageView { kind: MessageKind::User, content: text },
        ).push(MessageView { kind: MessageKind::Error, content: e }),
        after_error(m.after_flush(text), e).streaming == StreamingState::Idle,
{
    let m1 = m.after_flush(text);
    assert(m1.messages.drop_last() =~= m.messages.push(MessageView { kind: MessageKind::User, content: text }));
}

} // verus!
