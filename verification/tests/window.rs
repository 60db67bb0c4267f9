use setboy::cli::widgets::chat::chat::{resolve_scroll_at, Chat, ChatWidget, VisMode};
use setboy::cli::widgets::chat::message::Message as MessageWidget;
use setboy::cli::widgets::chat::scroll::{ChatCoords, Scroll, ScrollPos};
use setboy::cli::widgets::input_box::InputBox;
use setboy::cli::widgets::status_bar::StatusBar;
use setboy::cli::window::{sync, Window};
use setboy::cli::Area;
use setboy::model::chat::Chat as SavedChat;
use setboy::model::message::{Message, MessageKind};
use setboy::model::model::{Focus, Model, StreamActivity};
use setboy::model::notification::{seconds, Clock, Notification, NotificationKind};
use setboy::cli::widgets::input_box::{KeyCode, KeyInput, KeyStroke, MoveKey};

fn kinds(model: &Model) -> Vec<MessageKind> {
    model.all_messages().iter().map(|m| m.kind).collect()
}

fn texts(model: &Model) -> Vec<String> {
    model.all_messages().iter().map(|m| m.content.clone()).collect()
}

fn indices(model: &Model) -> Vec<usize> {
    model.all_messages().iter().map(|m| m.index).collect()
}

fn key(c: char) -> KeyInput {
    KeyInput::Typed(c)
}

#[test]
fn new_input_numbers_messages() {
    let mut m = Model::new();
    assert!(!m.new_input(""));
    assert!(m.new_input("hi"));
    assert_eq!(kinds(&m), vec![MessageKind::User, MessageKind::ResponsePlaceholder]);
    assert_eq!(indices(&m), vec![0, 1]);
    assert_eq!(m.streaming_state(), StreamActivity::AwaitingStream);
    assert!(m.stream_active());
}

#[test]
fn new_input_drops_trailing_error() {
    let mut m = Model::new();
    assert!(m.new_input("q"));
    m.error_stream("oops");
    assert_eq!(kinds(&m), vec![MessageKind::User, MessageKind::Error]);
    assert_eq!(m.streaming_state(), StreamActivity::Error);
    assert!(m.new_input("again"));
    assert_eq!(kinds(&m), vec![MessageKind::User, MessageKind::User, MessageKind::ResponsePlaceholder]);
    assert_eq!(indices(&m), vec![0, 1, 2]);
}

#[test]
fn tokens_build_the_answer() {
    let mut m = Model::new();
    assert!(m.new_input("q"));
    m.push_think_token("a");
    m.push_think_token("b");
    m.push_stream_token("c");
    m.push_stream_token("d");
    m.finish_stream();
    assert_eq!(kinds(&m), vec![MessageKind::User, MessageKind::Thinking, MessageKind::Response]);
    assert_eq!(texts(&m), vec!["q".to_string(), "ab".to_string(), "cd".to_string()]);
    assert_eq!(indices(&m), vec![0, 1, 2]);
    assert_eq!(m.streaming_state(), StreamActivity::Idle);
    assert!(!m.stream_active());
}

#[test]
fn focus_moves_keep_edit_or_select() {
    let mut m = Model::new();
    m.push_message(MessageKind::User, "a");
    m.push_message(MessageKind::Response, "b");
    assert_eq!(m.num_messages(), 2);
    assert_eq!(m.last_msg_idx(), 1);
    m.move_focus_up(1);
    assert_eq!(*m.current_focus(), Focus::Select(1));
    m.start_editing_current();
    assert_eq!(*m.current_focus(), Focus::Edit(1));
    m.move_focus_up(1);
    assert_eq!(*m.current_focus(), Focus::Edit(0));
    m.stop_editing_current();
    assert_eq!(*m.current_focus(), Focus::Select(0));
    m.move_focus_down(9);
    assert_eq!(*m.current_focus(), Focus::Input);
    m.set_focus(Focus::Select(0));
    m.move_focus(1);
    assert_eq!(*m.current_focus(), Focus::Select(1));
}

#[test]
fn focusable_indices_end_with_input() {
    let mut m = Model::new();
    m.push_message(MessageKind::User, "a");
    m.push_message(MessageKind::Error, "e");
    m.push_message(MessageKind::Response, 3);
    assert_eq!(m.focusable_indices(), vec![0, 2, 3]);
    assert_eq!(m.content_messages().len(), 2);
}

#[test]
fn notices_are_kept_until_they_expire() {
    let mut m = Model::new();
    assert!(m.notify(NotificationKind::Info, "saved", seconds(60)));
    assert!(m.notify(NotificationKind::Error, "gone", seconds(0)));
    m.tick();
    let left: Vec<String> = m.all_notifications().iter().map(|n| n.message.clone()).collect();
    assert_eq!(left, vec!["saved".to_string()]);
}

#[test]
fn notification_shows_message() {
    let clock = Clock::new();
    let n = Notification::new(NotificationKind::Warning, 12, seconds(1), &clock).unwrap();
    assert_eq!(n.message, "12");
    assert_eq!(n.kind, NotificationKind::Warning);
    assert!(n.expiry >= seconds(1));
    assert!(n.expiry <= clock.now() + seconds(1));
}

#[test]
fn messages_get_distinct_ids() {
    let a = Message::new(0, MessageKind::User, "x");
    let b = Message::from_text(1, MessageKind::User, "x");
    assert_ne!(a.uuid, b.uuid);
    let mut saved = SavedChat::new("talk");
    saved.push_message(MessageKind::User, "hello");
    assert_eq!(saved.num_messages(), 1);
    assert_eq!(saved.name, "talk");
    assert_eq!(saved.messages[0].content, "hello");
}

#[test]
fn input_box_keeps_typed_lines() {
    let mut b = InputBox::new("ab\ncd");
    assert_eq!(b.lines(), vec!["ab".to_string(), "cd".to_string()]);
    assert!(b.input(key('x')));
    assert_eq!(b.lines(), vec!["ab".to_string(), "cdx".to_string()]);
    assert_eq!(b.total_widget_height(20), 4);
    b.clear();
    assert_eq!(b.lines(), vec![String::new()]);
}

#[test]
fn window_submits_typed_text() {
    let mut w = Window::new();
    let mut m = Model::new();
    w.chat.input(key('h'));
    w.chat.input(key('i'));
    w.submit_input(&mut m);
    assert_eq!(texts(&m), vec!["hi".to_string(), String::new()]);
    assert_eq!(w.chat.lines(), vec![String::new()]);
    m.push_stream_token("x");
    w.chat.input(key('y'));
    w.submit_input(&mut m);
    assert_eq!(w.chat.lines(), vec!["y".to_string()]);
}

#[test]
fn sync_swaps_edited_text() {
    let mut w = Window::new();
    let mut m = Model::new();
    m.push_message(MessageKind::User, "first");
    w.chat.input(key('z'));
    m.set_focus(Focus::Edit(0));
    sync(&mut w, &mut m);
    assert_eq!(m.input_text(), "z");
    assert_eq!(w.chat.lines(), vec!["first".to_string()]);
    w.chat.input(key('!'));
    m.set_focus(Focus::Input);
    sync(&mut w, &mut m);
    assert_eq!(texts(&m), vec!["first!".to_string()]);
    assert_eq!(w.chat.lines(), vec!["z".to_string()]);
}

#[test]
fn visibility_toggles_back() {
    let mut c = Chat::new();
    assert_eq!(*c.vis_mode(), VisMode::All);
    c.toggle_vis();
    assert_eq!(*c.vis_mode(), VisMode::NonThinking);
    c.toggle_vis();
    assert_eq!(*c.vis_mode(), VisMode::All);
    c.set_visibility_opt(VisMode::NonThinking);
    assert_eq!(*c.vis_mode(), VisMode::NonThinking);
}

#[test]
fn hidden_thinking_shows_word_count() {
    let mut m = Model::new();
    m.push_message(MessageKind::Thinking, "one two three");
    m.push_message(MessageKind::ResponsePlaceholder, "");
    let w = MessageWidget::from_parts(&m.all_messages()[0], &VisMode::NonThinking, &Focus::Select(0));
    let mut w2 = MessageWidget::from_parts(&m.all_messages()[1], &VisMode::All, &Focus::Input);
    assert!(w.selected());
    assert_eq!(w.body_lines(40), vec!["Thinking... 3 words".to_string()]);
    assert_eq!(w2.height(), 3);
    w2.init_wrap(13);
    assert_eq!(w2.body_lines(13), vec!["Waiting for".to_string(), "response...".to_string()]);
    assert_eq!(w2.height(), 4);
}

#[test]
fn message_block_numbers_from_one() {
    let mut m = Model::new();
    m.push_message(MessageKind::User, "a");
    let mut w = MessageWidget::from_parts(&m.all_messages()[0], &VisMode::All, &Focus::Input);
    let look = w.block_look();
    assert_eq!(look.title, Some("1 ".to_string()));
    assert_eq!(look.base_bg, Some((10, 10, 10)));
    assert_eq!(look.bottom_padding, 1);
    w.skip(1);
    assert_eq!(w.skipped(), 1);
    assert_eq!(w.block_look().title, None);
}

#[test]
fn chat_plan_starts_at_the_bottom() {
    let mut m = Model::new();
    m.push_message(MessageKind::User, "hello");
    m.push_message(MessageKind::Response, "world");
    let mut state = Chat::new();
    let widget = ChatWidget::new(&m);
    let plan = widget.render_chat(Area { x: 0, y: 0, width: 20, height: 4 }, &mut state).unwrap();
    assert_eq!(plan.scroll_offset, 2);
    let placed: Vec<(usize, usize, usize, usize)> = plan.slots.iter().map(|s| (s.index, s.y, s.height, s.skip)).collect();
    assert_eq!(placed, vec![(0, 0, 1, 2), (1, 1, 3, 0)]);
    assert_eq!(state.pos().message, 0);
    assert_eq!(state.pos().skip, 2);
    assert_eq!(state.scroll, Scroll::Max);
}

#[test]
fn scrolling_up_moves_the_view() {
    let mut m = Model::new();
    for t in ["a", "b", "c"] {
        m.push_message(MessageKind::User, t);
    }
    let mut state = Chat::new();
    let widget = ChatWidget::new(&m);
    let a = Area { x: 0, y: 0, width: 20, height: 3 };
    let plan = widget.render_chat(a, &mut state).unwrap();
    assert_eq!(plan.scroll_offset, 6);
    state.scroll_up(4);
    let plan = widget.render_chat(a, &mut state).unwrap();
    assert_eq!(plan.scroll_offset, 2);
    assert_eq!(state.scroll, Scroll::Delta(0));
    state.scroll_down(100);
    let plan = widget.render_chat(a, &mut state).unwrap();
    assert_eq!(plan.scroll_offset, 6);
}

#[test]
fn coordinates_round_trip() {
    let mut m = Model::new();
    for t in ["a", "b", "c"] {
        m.push_message(MessageKind::User, t);
    }
    let state = Chat::new();
    let mut widgets: Vec<MessageWidget> = Vec::new();
    for msg in m.all_messages() {
        let mut w = MessageWidget::new(msg, &state);
        w.init_wrap(10);
        widgets.push(w);
    }
    let coords = ChatCoords::new(&widgets, &Focus::Input, 3);
    assert_eq!(coords.len(), 3);
    assert_eq!(coords.total_height(), 9);
    assert_eq!(coords.rows_before(2), 6);
    for row in 0..9 {
        let pos = coords.at_row(row);
        assert_eq!(coords.at_pos(&pos), row);
    }
    let p = coords.at_row(4);
    assert_eq!((p.message, p.skip), (1, 1));
    let below = coords.pos_below(&p, 3);
    assert_eq!((below.message, below.skip), (2, 1));
    let back = coords.pos_above(&below, 3);
    assert_eq!((back.message, back.skip), (1, 1));
    let end = coords.at_row(100);
    assert_eq!((end.message, end.skip), (2, 2));
    let start = ScrollPos { message: 0, skip: 0 };
    assert_eq!(coords.at_pos(&start), 0);
}

#[test]
fn editing_message_takes_input_box_height() {
    let mut m = Model::new();
    m.push_message(MessageKind::User, "a");
    m.push_message(MessageKind::User, "b");
    let state = Chat::new();
    let widgets: Vec<MessageWidget> = m.all_messages().iter().map(|msg| MessageWidget::new(msg, &state)).collect();
    let coords = ChatCoords::new(&widgets, &Focus::Edit(1), 7);
    assert_eq!(coords.focused_index(), Some(1));
    assert_eq!(coords.height(1), 7);
    assert_eq!(coords.height(0), 3);
    assert_eq!(coords.total_height(), 10);
}

#[test]
fn status_bar_shows_state_and_notices() {
    let mut m = Model::new();
    assert!(m.notify(NotificationKind::Info, "hello", seconds(60)));
    assert!(m.notify(NotificationKind::Warning, "wörld", seconds(60)));
    let idle = StatusBar::new(&m);
    assert_eq!(idle.left(), " idle ");
    assert_eq!(idle.left_style(), None);
    assert_eq!(idle.spinner(), None);
    assert_eq!(idle.spinner_text(), "");
    assert_eq!(idle.column_widths(), (0, 6));
    assert_eq!(idle.notification_texts(), vec![" hello ".to_string(), " wörld ".to_string()]);
    assert_eq!(idle.notifications_width(), Some(14));
    assert_eq!(idle.notifications_scroll(10), Some(4));
    assert_eq!(idle.notifications_scroll(20), Some(0));
    assert!(m.new_input("q"));
    m.spinner_index = 6;
    let busy = StatusBar::new(&m);
    assert_eq!(busy.left(), " waiting for response ");
    assert_eq!(busy.left_style(), Some((75, 75, 0)));
    assert_eq!(busy.spinner(), Some('-'));
    assert_eq!(busy.spinner_text(), " - ");
    assert_eq!(busy.column_widths(), (3, 22));
    assert_eq!(busy.notifications().len(), 2);
}

#[test]
fn leaving_last_message_pins_scroll() {
    let mut w = Window::new();
    let mut m = Model::new();
    m.push_message(MessageKind::User, "a");
    m.push_message(MessageKind::Response, "b");
    m.set_focus(Focus::Select(1));
    sync(&mut w, &mut m);
    w.chat.scroll_up(2);
    m.set_focus(Focus::Input);
    sync(&mut w, &mut m);
    assert_eq!(w.chat.scroll, Scroll::Max);
    let notes: Vec<String> = m.all_notifications().iter().map(|n| n.message.clone()).collect();
    assert_eq!(notes, vec!["scroll pinned".to_string()]);
    m.set_focus(Focus::Select(0));
    sync(&mut w, &mut m);
    m.set_focus(Focus::Input);
    sync(&mut w, &mut m);
    assert_eq!(m.all_notifications().len(), 1);
}

#[test]
fn focus_down_undoes_up_keeps_editing() {
    let mut m = Model::new();
    for t in ["a", "b", "c", "d"] {
        m.push_message(MessageKind::User, t);
    }
    m.set_focus(Focus::Edit(3));
    m.move_focus_up(2);
    assert_eq!(*m.current_focus(), Focus::Edit(1));
    m.move_focus_down(2);
    assert_eq!(*m.current_focus(), Focus::Edit(3));
}

#[test]
fn later_layout_stays_in_area() {
    let mut m = Model::new();
    for t in ["one two three four", "five", "six seven", "eight"] {
        m.push_message(MessageKind::User, t);
    }
    let widget = ChatWidget::new(&m);
    let a = Area { x: 0, y: 3, width: 8, height: 7 };
    for step in 0..12 {
        let mut state = Chat::new();
        widget.render_chat(a, &mut state).unwrap();
        state.scroll_up(step);
        let plan = widget.render_chat(a, &mut state).unwrap();
        let mut top = a.y as usize;
        for s in plan.slots.iter() {
            assert!(s.y >= top);
            assert!(s.y + s.height <= (a.y + a.height) as usize);
            top = s.y + s.height;
        }
    }
}

#[test]
fn moving_the_cursor_reports_no_edit() {
    let mut b = InputBox::new("ab");
    let home = KeyInput::Other(KeyStroke { key: KeyCode::Move(MoveKey::Home), ctrl: false, alt: false, shift: false });
    assert!(!b.input(home));
    assert_eq!(b.lines(), vec!["ab".to_string()]);
    assert!(b.input(KeyInput::Typed('\n')));
    assert_eq!(b.lines(), vec![String::new(), "ab".to_string()]);
}

#[test]
fn notice_that_cannot_expire_is_left_out() {
    assert!(Notification::after(NotificationKind::Info, "x", u128::MAX, 1).is_none());
    let n = Notification::after(NotificationKind::Info, "x", u128::MAX, 0).unwrap();
    assert_eq!(n.expiry, u128::MAX);
    let mut m = Model::new();
    let shown = m.notify(NotificationKind::Info, "x", u128::MAX);
    assert_eq!(m.all_notifications().len(), if shown { 1 } else { 0 });
}

#[test]
fn finishing_without_tokens_settles_the_placeholder() {
    let mut m = Model::new();
    assert!(m.new_input("q"));
    m.finish_stream();
    assert_eq!(kinds(&m), vec![MessageKind::User, MessageKind::Response]);
    assert_eq!(texts(&m), vec!["q".to_string(), String::new()]);
    assert_eq!(indices(&m), vec![0, 1]);
    assert_eq!(m.streaming_state(), StreamActivity::Idle);
}

#[test]
fn new_input_box_puts_cursor_at_the_end() {
    assert_eq!(InputBox::new("ab\ncde").textarea().ta.cursor(), (1, 3));
    assert_eq!(InputBox::new("").textarea().ta.cursor(), (0, 0));
    let mut b = InputBox::new("xy");
    b.clear();
    assert_eq!(b.textarea().ta.cursor(), (0, 0));
}

#[test]
fn later_token_split_does_not_matter() {
    let mut one = Model::new();
    let mut two = Model::new();
    for m in [&mut one, &mut two] {
        assert!(m.new_input("q"));
        m.push_think_token("t");
    }
    one.push_stream_token("abcd");
    two.push_stream_token("ab");
    two.push_stream_token("cd");
    assert_eq!(texts(&one), texts(&two));
    assert_eq!(kinds(&one), kinds(&two));
    assert_eq!(indices(&one), indices(&two));
}

#[test]
fn positions_clamp_to_the_last_row() {
    let mut m = Model::new();
    for t in ["a", "b", "c"] {
        m.push_message(MessageKind::User, t);
    }
    let state = Chat::new();
    let mut widgets: Vec<MessageWidget> = Vec::new();
    for msg in m.all_messages() {
        let mut w = MessageWidget::new(msg, &state);
        w.init_wrap(10);
        widgets.push(w);
    }
    let coords = ChatCoords::new(&widgets, &Focus::Input, 3);
    assert_eq!(coords.at_pos(&coords.at_row(100)), 8);
    assert_eq!(coords.at_pos(&ScrollPos { message: 7, skip: 50 }), 8);
}

#[test]
fn nudge_applies_once() {
    let mut m = Model::new();
    for t in ["a", "b", "c", "d"] {
        m.push_message(MessageKind::User, t);
    }
    let widget = ChatWidget::new(&m);
    let a = Area { x: 0, y: 0, width: 20, height: 4 };
    let mut state = Chat::new();
    widget.render_chat(a, &mut state).unwrap();
    state.scroll_up(5);
    let first = widget.render_chat(a, &mut state).unwrap().scroll_offset;
    let second = widget.render_chat(a, &mut state).unwrap().scroll_offset;
    assert_eq!(first, 3);
    assert_eq!(second, first);
    assert_eq!(state.scroll, Scroll::Delta(0));
}

#[test]
fn empty_content_positions_are_row_zero() {
    let widgets: Vec<MessageWidget> = Vec::new();
    let coords = ChatCoords::new(&widgets, &Focus::Input, 3);
    assert_eq!(coords.total_height(), 0);
    let far = ScrollPos { message: 4, skip: 9 };
    assert_eq!(coords.at_pos(&far), 0);
    for row in [0, 1, 50] {
        let pos = coords.at_row(row);
        assert_eq!((pos.message, pos.skip), (0, 0));
        assert_eq!(coords.at_pos(&pos), 0);
    }
}

#[test]
fn rows_past_the_end_clamp_to_the_last_row() {
    let mut m = Model::new();
    for t in ["a", "b"] {
        m.push_message(MessageKind::User, t);
    }
    let state = Chat::new();
    let widgets: Vec<MessageWidget> = m.all_messages().iter().map(|msg| MessageWidget::new(msg, &state)).collect();
    let coords = ChatCoords::new(&widgets, &Focus::Input, 3);
    assert_eq!(coords.total_height(), 6);
    for row in [6, 7, 100] {
        let pos = coords.at_row(row);
        assert_eq!(coords.at_pos(&pos), 5);
    }
    let far = ScrollPos { message: 9, skip: 9 };
    assert_eq!(coords.at_pos(&far), 5);
}

#[test]
fn sync_puts_the_cursor_after_the_loaded_text() {
    let mut w = Window::new();
    let mut m = Model::new();
    m.push_message(MessageKind::User, "first\nsecond");
    assert_eq!(w.chat.input_box().textarea().ta.cursor(), (0, 0));
    w.chat.input(key('z'));
    m.set_focus(Focus::Edit(0));
    sync(&mut w, &mut m);
    assert_eq!(w.chat.lines(), vec!["first".to_string(), "second".to_string()]);
    assert_eq!(w.chat.input_box().textarea().ta.cursor(), (1, 6));
    sync(&mut w, &mut m);
    assert_eq!(w.chat.input_box().textarea().ta.cursor(), (1, 6));
    m.set_focus(Focus::Input);
    sync(&mut w, &mut m);
    assert_eq!(w.chat.lines(), vec!["z".to_string()]);
    assert_eq!(w.chat.input_box().textarea().ta.cursor(), (0, 1));
    w.chat.clear_input();
    assert_eq!(w.chat.input_box().textarea().ta.cursor(), (0, 0));
}

#[test]
fn a_notice_lasts_its_duration_after_the_reading() {
    let n = Notification::after(NotificationKind::Error, "late", seconds(2), 500).unwrap();
    assert_eq!(n.expiry, 2_000_000_500);
    assert_eq!(n.message, "late");
    assert_eq!(seconds(3), 3_000_000_000);
    let clock = Clock::new();
    let first = clock.now();
    assert!(clock.now() >= first);
}

#[test]
fn expired_notices_are_dropped_at_a_reading() {
    let mut m = Model::new();
    assert!(m.notify(NotificationKind::Info, "long", seconds(600)));
    assert!(m.notify(NotificationKind::Warning, "short", 0));
    m.expire_at(0);
    let left: Vec<String> = m.all_notifications().iter().map(|n| n.message.clone()).collect();
    assert_eq!(left[0], "long".to_string());
    m.expire_at(u128::MAX);
    assert!(m.all_notifications().is_empty());
}

#[test]
fn typed_characters_go_in_at_the_cursor() {
    let mut b = InputBox::new("ac");
    let left = KeyInput::Other(KeyStroke { key: KeyCode::Move(MoveKey::Left), ctrl: false, alt: false, shift: false });
    assert!(!b.input(left));
    assert_eq!(b.textarea().ta.cursor(), (0, 1));
    assert!(b.input(KeyInput::Typed('b')));
    assert_eq!(b.lines(), vec!["abc".to_string()]);
    assert_eq!(b.textarea().ta.cursor(), (0, 2));
    let back = KeyInput::Other(KeyStroke { key: KeyCode::Backspace, ctrl: false, alt: false, shift: false });
    assert!(b.input(back));
    assert_eq!(b.lines(), vec!["ac".to_string()]);
    assert!(b.input(KeyInput::Enter));
    assert_eq!(b.lines(), vec!["a".to_string(), "c".to_string()]);
    assert_eq!(b.textarea().ta.cursor(), (1, 0));
}

#[test]
fn resolving_twice_keeps_the_view() {
    let mut m = Model::new();
    for t in ["a", "b", "c", "d"] {
        m.push_message(MessageKind::User, t);
    }
    let state = Chat::new();
    let widgets: Vec<MessageWidget> = m.all_messages().iter().map(|msg| MessageWidget::new(msg, &state)).collect();
    let coords = ChatCoords::new(&widgets, &Focus::Input, 3);
    let a = Area { x: 0, y: 0, width: 20, height: 4 };
    for start in [Scroll::Max, Scroll::Focus, Scroll::Delta(-2), Scroll::Delta(7)] {
        let mut scroll = start;
        let mut pos = ScrollPos { message: 2, skip: 1 };
        let r1 = resolve_scroll_at(a, &coords, &mut scroll, &mut pos);
        if start == Scroll::Max {
            assert_eq!(r1, 8);
        }
        let p1 = (pos.message, pos.skip);
        let r2 = resolve_scroll_at(a, &coords, &mut scroll, &mut pos);
        assert_eq!(r2, r1);
        assert_eq!((pos.message, pos.skip), p1);
        assert_ne!(scroll, Scroll::Delta(-2));
    }
}
