use setboy::app_data::config::{config_template, ApiKeys, Config, API_KEYS_FILE_NAME};
use setboy::app_data::dirs::AppDirectories;
use setboy::app_data::AppData;
use setboy::cli::widgets::chat::{Chat as LaterChat, ChatWidget as LaterWidget, VisibilityOpt};
use setboy::cli::Area;
use setboy::model::{FocusState, Message, MessageKind, Model};
use setboy::widgets::chat::{checked_sum, plan_slots, skip_rows, Chat, ChatWidget, Scroll};
use setboy::widgets::message::Message as MessageWidget;
use setboy::widgets::status_bar::StatusBar;
use setboy::cli::widgets::input_box::KeyInput;

fn area(width: u16, height: u16) -> Area {
    Area { x: 0, y: 0, width, height }
}

fn answered(questions: &[&str]) -> Model {
    let mut m = Model::new();
    for q in questions {
        assert!(m.flush_input(q.to_string()));
        m.push_stream_token("ok");
        m.finish_stream();
    }
    m
}

#[test]
fn settings_file_defaults() {
    assert_eq!(config_template(), "[api_keys]\nzai=\"\"\ngemini=\"\"");
    assert_eq!(API_KEYS_FILE_NAME, "config.toml");
    let c = Config::default();
    assert!(c.api_keys.zai.is_none());
    assert!(c.api_keys.gemini.is_none());
    let keys = ApiKeys { zai: Some("k".to_string()), gemini: None };
    let copy = keys.clone();
    assert_eq!(copy.zai, Some("k".to_string()));
    let data = AppData { config: Config { api_keys: copy } };
    assert_eq!(data.config.api_keys.clone().zai, Some("k".to_string()));
}

#[test]
fn app_directories_keep_paths() {
    let d = AppDirectories::new("/opt/app/config".to_string(), "/opt/app/saves".to_string());
    assert_eq!(d.config(), "/opt/app/config");
    assert_eq!(d.saves(), "/opt/app/saves");
}

#[test]
fn status_bar_left_and_right() {
    let mut m = Model::new();
    let idle = StatusBar::new(&m);
    assert_eq!(idle.left(), "ready  ");
    assert_eq!(idle.right(), "");
    assert!(m.flush_input("q".to_string()));
    m.set_right_status(Some("note".to_string()));
    let busy = StatusBar::new(&m);
    assert_eq!(busy.left(), "streaming |");
    assert_eq!(busy.right(), "note");
}

#[test]
fn message_widget_wraps_and_looks() {
    let m = Message::new(MessageKind::User, "one two three");
    let mut w = MessageWidget::new(&m);
    assert_eq!(w.height(), 1);
    assert_eq!(w.init_wrap(9), &["one two", "three"]);
    assert_eq!(w.height(), 4);
    assert_eq!(w.body_lines(9), vec!["one two", "three"]);
    assert_eq!(w.body_lines(7), vec!["one", "two", "three"]);
    let look = w.block_look();
    assert_eq!(look.bg, Some((10, 10, 10)));
    assert_eq!((look.top_padding, look.bottom_padding, look.error_title), (1, 1, false));
    w.skip(2);
    assert_eq!(w.block_look().top_padding, 0);
    let e = Message::new(MessageKind::Error, "bad thing");
    let ew = MessageWidget::new(&e);
    assert_eq!(ew.body_lines(20), vec!["..."]);
    assert!(ew.block_look().red_bg);
}

#[test]
fn sums_skips_and_slots() {
    assert_eq!(checked_sum(&[3, 4, 5]), Some(12));
    assert_eq!(checked_sum(&[usize::MAX, 1]), None);
    assert_eq!(skip_rows(&[3, 4, 5], 0), (0, 0));
    assert_eq!(skip_rows(&[3, 4, 5], 5), (1, 2));
    assert_eq!(skip_rows(&[3, 4, 5], 12), (3, 0));
    let slots = plan_slots(&[3, 4, 5], 1, 2, area(10, 4));
    let placed: Vec<(usize, usize, usize, usize)> = slots.iter().map(|s| (s.index, s.y, s.height, s.skip)).collect();
    assert_eq!(placed, vec![(1, 0, 2, 2), (2, 2, 2, 0)]);
}

#[test]
fn first_chat_plan_follows_the_bottom() {
    let m = answered(&["a", "b"]);
    let chat = Chat::new();
    let plan = ChatWidget::new(&m).render_chat(area(10, 5), &chat).unwrap();
    assert_eq!(plan.messages.len(), 4);
    assert_eq!(plan.scroll_offset, 7);
    let placed: Vec<(usize, usize, usize, usize)> = plan.slots.iter().map(|s| (s.index, s.y, s.height, s.skip)).collect();
    assert_eq!(placed, vec![(2, 0, 2, 1), (3, 2, 3, 0)]);
}

#[test]
fn first_chat_plan_snaps_to_focus() {
    let mut m = answered(&["a", "b"]);
    m.focus_on(0);
    let mut chat = Chat::new();
    chat.set_scroll(Scroll::Focus);
    let plan = ChatWidget::new(&m).render_chat(area(10, 5), &chat).unwrap();
    assert_eq!(plan.scroll_offset, 0);
    chat.set_scroll(Scroll::Offset(100));
    let plan = ChatWidget::new(&m).render_chat(area(10, 5), &chat).unwrap();
    assert_eq!(plan.scroll_offset, 7);
}

#[test]
fn first_chat_syncs_edited_text() {
    let mut m = answered(&["a"]);
    let mut chat = Chat::new();
    chat.input(KeyInput::Typed('q'));
    m.focus_on(0);
    chat.sync(&mut m);
    assert_eq!(m.input_text(), "q");
    assert_eq!(chat.lines(), vec!["a".to_string()]);
    m.focus_on_input();
    chat.sync(&mut m);
    assert_eq!(chat.lines(), vec!["q".to_string()]);
    assert_eq!(*m.focus_state(), FocusState::Input);
}

#[test]
fn later_chat_keeps_visibility() {
    let mut c = LaterChat::new();
    assert_eq!(*c.visibility_opt(), VisibilityOpt::All);
    c.set_visibility_opt(VisibilityOpt::NonThinking);
    assert_eq!(*c.visibility_opt(), VisibilityOpt::NonThinking);
    assert_eq!(c.input_box_height(10), 3);
    c.input(KeyInput::Typed('x'));
    assert_eq!(c.lines(), vec!["x".to_string()]);
    c.clear_input();
    assert_eq!(c.lines(), vec![String::new()]);
}

#[test]
fn later_chat_plan_places_messages() {
    let mut m = setboy::model::model::Model::new();
    m.push_message(setboy::model::message::MessageKind::User, "hello");
    m.push_message(setboy::model::message::MessageKind::Response, "world");
    let mut state = LaterChat::new();
    let plan = LaterWidget::new(&m).render_chat(area(20, 4), &mut state).unwrap();
    assert_eq!(plan.scroll_offset, 2);
    let placed: Vec<(usize, usize, usize, usize)> = plan.slots.iter().map(|s| (s.index, s.y, s.height, s.skip)).collect();
    assert_eq!(placed, vec![(0, 0, 1, 2), (1, 1, 3, 0)]);
}
