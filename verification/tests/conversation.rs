use setboy::cli::app::{handle_key, handle_llm_event, handle_mouse, on_tick, KeyOutcome, KeyPress, Wheel};
use setboy::llm::{build_context, stream_step, Event, Message as LlmMessage, Role, StreamItem, StreamStep};
use setboy::model::{FocusState, Message, MessageKind, Model, StreamingState};
use setboy::widgets::chat::{Chat, Scroll};
use setboy::cli::widgets::input_box::{KeyCode, KeyInput, KeyStroke, MoveKey};

fn kinds(model: &Model) -> Vec<MessageKind> {
    model.messages().iter().map(|m| m.kind).collect()
}

fn texts(model: &Model) -> Vec<String> {
    model.messages().iter().map(|m| m.content.clone()).collect()
}

fn typed(chat: &mut Chat, model: &mut Model, text: &str) {
    for c in text.chars() {
        let key = KeyPress::Other(KeyInput::Typed(c));
        assert_eq!(handle_key(model, chat, key), KeyOutcome::Handled);
    }
}

#[test]
fn new_model_is_idle_and_ready() {
    let m = Model::new();
    assert!(m.messages().is_empty());
    assert_eq!(m.streaming_state(), StreamingState::Idle);
    assert_eq!(*m.focus_state(), FocusState::Input);
    assert_eq!(m.left_status_text(), "ready");
    assert_eq!(m.right_status_text(), None);
    assert_eq!(m.spinner_index(), 0);
}

#[test]
fn flush_refuses_empty_first_input() {
    let mut m = Model::new();
    assert!(!m.flush_input(String::new()));
    assert!(m.messages().is_empty());
    assert_eq!(m.streaming_state(), StreamingState::Idle);
}

#[test]
fn flush_adds_question_and_placeholder() {
    let mut m = Model::new();
    m.set_input_box("draft".to_string());
    assert!(m.flush_input("hi".to_string()));
    assert_eq!(kinds(&m), vec![MessageKind::User, MessageKind::ResponsePlaceholder]);
    assert_eq!(texts(&m), vec!["hi".to_string(), String::new()]);
    assert_eq!(m.streaming_state(), StreamingState::AwaitingStream);
    assert_eq!(m.left_status_text(), "streaming");
    assert_eq!(m.input_text(), "");
}

#[test]
fn flush_refused_while_streaming() {
    let mut m = Model::new();
    assert!(m.flush_input("hi".to_string()));
    m.push_stream_token("a");
    assert_eq!(m.streaming_state(), StreamingState::Streaming);
    assert!(!m.flush_input("again".to_string()));
    assert_eq!(m.messages().len(), 2);
}

#[test]
fn empty_flush_after_messages_asks_again() {
    let mut m = Model::new();
    assert!(m.flush_input("hi".to_string()));
    m.push_stream_token("yo");
    m.finish_stream();
    assert!(m.flush_input(String::new()));
    assert_eq!(
        kinds(&m),
        vec![MessageKind::User, MessageKind::Response, MessageKind::ResponsePlaceholder]
    );
}

#[test]
fn answer_follows_question() {
    let mut m = Model::new();
    assert!(m.flush_input("q".to_string()));
    m.push_stream_token("ab");
    m.push_stream_token("cd");
    m.finish_stream();
    assert_eq!(kinds(&m), vec![MessageKind::User, MessageKind::Response]);
    assert_eq!(texts(&m), vec!["q".to_string(), "abcd".to_string()]);
    assert_eq!(m.streaming_state(), StreamingState::Idle);
    assert_eq!(m.left_status_text(), "ready");
}

#[test]
fn thinking_precedes_answer() {
    let mut m = Model::new();
    assert!(m.flush_input("q".to_string()));
    m.push_think_token("hm");
    m.push_think_token("m");
    m.push_stream_token("yes");
    assert_eq!(kinds(&m), vec![MessageKind::User, MessageKind::Thinking, MessageKind::Response]);
    assert_eq!(texts(&m), vec!["q".to_string(), "hmm".to_string(), "yes".to_string()]);
    assert_eq!(m.streaming_state(), StreamingState::Streaming);
}

#[test]
fn failed_stream_leaves_error() {
    let mut m = Model::new();
    assert!(m.flush_input("q".to_string()));
    m.error_stream("boom");
    assert_eq!(kinds(&m), vec![MessageKind::User, MessageKind::Error]);
    assert_eq!(texts(&m), vec!["q".to_string(), "boom".to_string()]);
    assert_eq!(m.streaming_state(), StreamingState::Idle);
    assert_eq!(m.left_status_text(), "error");
}

#[test]
fn error_after_partial_answer_keeps_it() {
    let mut m = Model::new();
    assert!(m.flush_input("q".to_string()));
    m.push_stream_token("part");
    m.error_stream(&42);
    assert_eq!(texts(&m), vec!["q".to_string(), "part".to_string(), "42".to_string()]);
}

#[test]
fn content_messages_skip_placeholders_and_errors() {
    let mut m = Model::new();
    assert!(m.flush_input("q".to_string()));
    m.error_stream("x");
    assert!(m.flush_input("r".to_string()));
    let content: Vec<MessageKind> = m.content_messages().iter().map(|msg| msg.kind).collect();
    assert_eq!(content, vec![MessageKind::User, MessageKind::User]);
}

#[test]
fn focusable_indices_skip_errors() {
    let mut m = Model::new();
    assert!(m.flush_input("q".to_string()));
    m.error_stream("x");
    assert!(m.flush_input("r".to_string()));
    assert_eq!(m.focusable_indices(), vec![0, 2, 3, 4]);
    assert_eq!(m.last_index(), 3);
}

#[test]
fn focus_moves_and_clamps() {
    let mut m = Model::new();
    assert!(m.flush_input("q".to_string()));
    m.push_stream_token("a");
    m.finish_stream();
    m.focus_up(1);
    assert_eq!(*m.focus_state(), FocusState::Message(1));
    m.focus_up(5);
    assert_eq!(*m.focus_state(), FocusState::Message(0));
    m.focus_down(1);
    assert_eq!(*m.focus_state(), FocusState::Message(1));
    m.focus_down(usize::MAX);
    assert_eq!(*m.focus_state(), FocusState::Input);
    m.focus_on(0);
    assert_eq!(*m.focus_state(), FocusState::Message(0));
    m.focus_on_input();
    assert_eq!(*m.focus_state(), FocusState::Input);
}

#[test]
fn focus_down_undoes_up() {
    let mut m = Model::new();
    for q in ["a", "b", "c"] {
        assert!(m.flush_input(q.to_string()));
        m.push_stream_token("r");
        m.finish_stream();
    }
    m.focus_up(2);
    m.focus_down(2);
    assert_eq!(*m.focus_state(), FocusState::Input);
}

#[test]
fn quit_needs_two_presses() {
    let mut m = Model::new();
    assert!(!m.should_quit());
    m.increment_quit();
    assert!(!m.should_quit());
    m.increment_quit();
    assert!(m.should_quit());
    m.cancel_quit();
    assert!(!m.should_quit());
}

#[test]
fn spinner_wraps_around() {
    let mut m = Model::new();
    m.advance_spinner();
    assert_eq!(m.spinner_index(), 1);
    m.spinner_index = usize::MAX;
    m.advance_spinner();
    assert_eq!(m.spinner_index(), 0);
}

#[test]
fn ctrl_c_twice_quits() {
    let mut m = Model::new();
    let mut chat = Chat::new();
    assert_eq!(handle_key(&mut m, &mut chat, KeyPress::CtrlC), KeyOutcome::Handled);
    assert_eq!(m.right_status_text(), Some("press ctrl+c again to quit".to_string()));
    assert!(!m.should_quit());
    handle_key(&mut m, &mut chat, KeyPress::CtrlC);
    assert!(m.should_quit());
}

#[test]
fn other_key_cancels_quit() {
    let mut m = Model::new();
    let mut chat = Chat::new();
    handle_key(&mut m, &mut chat, KeyPress::CtrlC);
    handle_key(&mut m, &mut chat, KeyPress::Esc);
    assert_eq!(m.right_status_text(), None);
    handle_key(&mut m, &mut chat, KeyPress::CtrlC);
    assert!(!m.should_quit());
}

#[test]
fn typing_and_sending_asks_for_a_reply() {
    let mut m = Model::new();
    let mut chat = Chat::new();
    typed(&mut chat, &mut m, "hey");
    assert_eq!(chat.lines(), vec!["hey".to_string()]);
    assert_eq!(handle_key(&mut m, &mut chat, KeyPress::AltEnter), KeyOutcome::SendRequest);
    assert_eq!(texts(&m), vec!["hey".to_string(), String::new()]);
    assert_eq!(chat.lines(), vec![String::new()]);
    assert_eq!(chat.scroll, Scroll::Max);
    assert_eq!(m.streaming_state(), StreamingState::AwaitingStream);
}

#[test]
fn sending_nothing_first_does_nothing() {
    let mut m = Model::new();
    let mut chat = Chat::new();
    assert_eq!(handle_key(&mut m, &mut chat, KeyPress::AltEnter), KeyOutcome::Handled);
    assert!(m.messages().is_empty());
}

#[test]
fn keys_while_busy_only_scroll() {
    let mut m = Model::new();
    let mut chat = Chat::new();
    typed(&mut chat, &mut m, "q");
    handle_key(&mut m, &mut chat, KeyPress::AltEnter);
    chat.set_last_scroll_offset(10);
    typed(&mut chat, &mut m, "x");
    assert_eq!(chat.lines(), vec![String::new()]);
    handle_key(&mut m, &mut chat, KeyPress::PageUp);
    assert_eq!(chat.scroll, Scroll::Offset(7));
    handle_key(&mut m, &mut chat, KeyPress::PageDown);
    assert_eq!(chat.scroll, Scroll::Offset(13));
    handle_key(&mut m, &mut chat, KeyPress::Tab);
    assert_eq!(*m.focus_state(), FocusState::Input);
}

#[test]
fn tab_moves_focus_up_and_snaps() {
    let mut m = Model::new();
    let mut chat = Chat::new();
    typed(&mut chat, &mut m, "q");
    handle_key(&mut m, &mut chat, KeyPress::AltEnter);
    handle_llm_event(&mut m, Event::Token("a".to_string()));
    handle_llm_event(&mut m, Event::Done);
    handle_key(&mut m, &mut chat, KeyPress::Tab);
    assert_eq!(*m.focus_state(), FocusState::Message(1));
    assert_eq!(chat.scroll, Scroll::Focus);
    handle_key(&mut m, &mut chat, KeyPress::BackTab);
    assert_eq!(*m.focus_state(), FocusState::Input);
    handle_key(&mut m, &mut chat, KeyPress::Tab);
    handle_key(&mut m, &mut chat, KeyPress::Esc);
    assert_eq!(*m.focus_state(), FocusState::Input);
}

#[test]
fn page_keys_scroll_from_last_offset() {
    let mut m = Model::new();
    let mut chat = Chat::new();
    chat.set_last_scroll_offset(2);
    handle_key(&mut m, &mut chat, KeyPress::PageUp);
    assert_eq!(chat.scroll, Scroll::Offset(0));
    handle_mouse(&mut chat, Wheel::Down);
    assert_eq!(chat.scroll, Scroll::Offset(5));
    handle_mouse(&mut chat, Wheel::Up);
    assert_eq!(chat.scroll, Scroll::Offset(0));
}

#[test]
fn stream_events_reach_the_chat() {
    let mut m = Model::new();
    assert!(m.flush_input("q".to_string()));
    handle_llm_event(&mut m, Event::ThinkingToken("t".to_string()));
    handle_llm_event(&mut m, Event::Token("a".to_string()));
    handle_llm_event(&mut m, Event::Token("b".to_string()));
    handle_llm_event(&mut m, Event::Done);
    assert_eq!(texts(&m), vec!["q".to_string(), "t".to_string(), "ab".to_string()]);
    assert!(m.flush_input("again".to_string()));
    handle_llm_event(&mut m, Event::Error("down".to_string()));
    assert_eq!(kinds(&m).last(), Some(&MessageKind::Error));
    assert_eq!(texts(&m).last(), Some(&"down".to_string()));
    assert_eq!(m.streaming_state(), StreamingState::Idle);
}

#[test]
fn ticks_spin_only_while_busy() {
    let mut m = Model::new();
    on_tick(&mut m);
    assert_eq!(m.spinner_index(), 0);
    assert!(m.flush_input("q".to_string()));
    on_tick(&mut m);
    on_tick(&mut m);
    assert_eq!(m.spinner_index(), 2);
}

#[test]
fn context_holds_the_conversation() {
    let mut m = Model::new();
    assert!(m.flush_input("q".to_string()));
    m.push_think_token("t");
    m.push_stream_token("a");
    m.finish_stream();
    let ctx = build_context(&m);
    let roles: Vec<Role> = ctx.iter().map(|c| c.role).collect();
    let contents: Vec<String> = ctx.iter().map(|c| c.content.clone()).collect();
    assert_eq!(roles, vec![Role::User, Role::Assistant, Role::Assistant]);
    assert_eq!(contents, vec!["q".to_string(), "t".to_string(), "a".to_string()]);
}

#[test]
fn llm_messages_carry_their_role() {
    let s = LlmMessage::system("be brief");
    assert_eq!(s.role, Role::System);
    assert_eq!(s.content, "be brief");
    let a = LlmMessage::assistant(&7);
    assert_eq!(a.role, Role::Assistant);
    assert_eq!(a.content, "7");
    let u = LlmMessage::user(&String::from("hi"));
    assert_eq!(u.role, Role::User);
    assert_eq!(u.content, "hi");
}

#[test]
fn stream_items_become_steps() {
    assert!(matches!(stream_step(StreamItem::Chunk("a".into())), StreamStep::Send(Event::Token(t)) if t == "a"));
    assert!(matches!(
        stream_step(StreamItem::ReasoningChunk("r".into())),
        StreamStep::Send(Event::ThinkingToken(t)) if t == "r"
    ));
    assert!(matches!(
        stream_step(StreamItem::ThoughtSignatureChunk("s".into())),
        StreamStep::Send(Event::ThinkingToken(t)) if t == "s"
    ));
    assert!(matches!(stream_step(StreamItem::End), StreamStep::Finish));
    assert!(matches!(stream_step(StreamItem::Closed), StreamStep::Finish));
    assert!(matches!(stream_step(StreamItem::Other), StreamStep::Skip));
    assert!(matches!(
        stream_step(StreamItem::Failed("e".into())),
        StreamStep::SendAndStop(Event::Error(t)) if t == "e"
    ));
}

#[test]
fn message_new_copies_text() {
    let m = Message::new(MessageKind::User, "x");
    assert_eq!(m.kind, MessageKind::User);
    assert_eq!(m.content, "x");
}

#[test]
fn arrow_keys_leave_the_text() {
    let mut m = Model::new();
    let mut chat = Chat::new();
    typed(&mut chat, &mut m, "ab");
    let left = KeyPress::Other(KeyInput::Other(KeyStroke { key: KeyCode::Move(MoveKey::Left), ctrl: false, alt: false, shift: false }));
    assert_eq!(handle_key(&mut m, &mut chat, left), KeyOutcome::Handled);
    typed(&mut chat, &mut m, "x");
    assert_eq!(chat.lines(), vec!["axb".to_string()]);
    handle_key(&mut m, &mut chat, KeyPress::Other(KeyInput::Enter));
    assert_eq!(chat.lines(), vec!["ax".to_string(), "b".to_string()]);
}

#[test]
fn finishing_without_tokens_leaves_no_placeholder() {
    let mut m = Model::new();
    assert!(m.flush_input("q".to_string()));
    handle_llm_event(&mut m, Event::Done);
    assert_eq!(kinds(&m), vec![MessageKind::User, MessageKind::Response]);
    assert_eq!(texts(&m), vec!["q".to_string(), String::new()]);
    assert_eq!(m.streaming_state(), StreamingState::Idle);
}

#[test]
fn token_split_does_not_matter() {
    let mut one = Model::new();
    let mut two = Model::new();
    for m in [&mut one, &mut two] {
        assert!(m.flush_input("q".to_string()));
        m.push_think_token("t");
    }
    one.push_stream_token("abcd");
    two.push_stream_token("ab");
    two.push_stream_token("cd");
    assert_eq!(texts(&one), texts(&two));
    assert_eq!(kinds(&one), kinds(&two));
    assert_eq!(one.streaming_state(), two.streaming_state());
}
