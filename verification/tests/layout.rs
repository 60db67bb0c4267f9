use setboy::cli::{
    chat_heights, height_of_msg, lay_out_chat, message_look, new_editing_textarea, new_input_textarea,
    place_rows, placeholder_text, resolve_view_scroll, spinner_glyph, status_line, Area, RowSlot, ViewScroll,
};
use setboy::model::{Message, MessageKind};

fn area(y: u16, width: u16, height: u16) -> Area {
    Area { x: 0, y, width, height }
}

fn slot(index: usize, y: u16, height: u16, line_skip: u16) -> RowSlot {
    RowSlot { index, y, height, line_skip }
}

fn msg(kind: MessageKind, text: &str) -> Message {
    Message::new(kind, text)
}

#[test]
fn message_height_is_rows_plus_padding() {
    assert_eq!(height_of_msg(&msg(MessageKind::User, "hello world"), 5), 4);
    assert_eq!(height_of_msg(&msg(MessageKind::User, ""), 5), 3);
}

#[test]
fn heights_of_messages_and_input_box() {
    let messages = vec![msg(MessageKind::User, "a b c"), msg(MessageKind::Response, "d")];
    let editing = vec!["x".to_string()];
    assert_eq!(chat_heights(&messages, None, &editing, 1), vec![5, 3, 3]);
    let editing = vec!["one".to_string(), "two".to_string(), "six".to_string()];
    assert_eq!(chat_heights(&messages, Some(2), &editing, 10), vec![3, 3, 5]);
    assert_eq!(chat_heights(&messages, Some(0), &editing, 10), vec![5, 3, 3]);
    let short = vec![String::new()];
    assert_eq!(chat_heights(&messages, Some(1), &short, 10), vec![3, 3, 3]);
}

#[test]
fn view_follows_the_bottom() {
    let heights = vec![4, 4, 3];
    let mut v = ViewScroll { scroll: 0, should_follow: true, should_snap: false };
    assert_eq!(resolve_view_scroll(&mut v, &heights, None, 5), 6);
    assert_eq!(v, ViewScroll { scroll: 6, should_follow: true, should_snap: false });
}

#[test]
fn view_stays_put_and_is_clamped() {
    let heights = vec![4, 4, 3];
    let mut v = ViewScroll { scroll: 2, should_follow: false, should_snap: false };
    assert_eq!(resolve_view_scroll(&mut v, &heights, None, 5), 2);
    assert_eq!(v.scroll, 2);
    assert!(!v.should_follow);
}

#[test]
fn scrolling_past_the_end_starts_following() {
    let heights = vec![4, 4, 3];
    let mut v = ViewScroll { scroll: 9, should_follow: false, should_snap: false };
    assert_eq!(resolve_view_scroll(&mut v, &heights, None, 5), 6);
    assert!(v.should_follow);
}

#[test]
fn snap_brings_focused_box_into_view() {
    let heights = vec![4, 4, 3, 3];
    let mut v = ViewScroll { scroll: 0, should_follow: false, should_snap: true };
    assert_eq!(resolve_view_scroll(&mut v, &heights, Some(1), 5), 3);
    assert_eq!(v, ViewScroll { scroll: 3, should_follow: false, should_snap: false });
    let mut tall = ViewScroll { scroll: 0, should_follow: false, should_snap: true };
    let heights = vec![2, 9, 3];
    assert_eq!(resolve_view_scroll(&mut tall, &heights, Some(1), 5), 2);
    let mut none = ViewScroll { scroll: 0, should_follow: false, should_snap: true };
    assert_eq!(resolve_view_scroll(&mut none, &heights, None, 5), 9);
}

#[test]
fn redraw_keeps_view() {
    let heights = vec![4, 4, 3, 3];
    let mut v = ViewScroll { scroll: 0, should_follow: false, should_snap: true };
    let first = resolve_view_scroll(&mut v, &heights, Some(1), 5);
    let second = resolve_view_scroll(&mut v, &heights, Some(1), 5);
    assert_eq!(first, second);
}

#[test]
fn view_never_passes_last_screen() {
    let heights = vec![4, 4, 3];
    for scroll in 0..20 {
        for follow in [false, true] {
            for snap in [false, true] {
                for focus in [None, Some(0), Some(1), Some(2)] {
                    let mut v = ViewScroll { scroll, should_follow: follow, should_snap: snap };
                    let r = resolve_view_scroll(&mut v, &heights, focus, 5);
                    assert!(r <= 6);
                    assert!(!v.should_snap);
                }
            }
        }
    }
}

#[test]
fn rows_are_placed_from_the_offset() {
    let heights = vec![4, 4, 3];
    assert_eq!(
        place_rows(&heights, 6, area(1, 10, 5)),
        vec![slot(1, 1, 2, 2), slot(2, 3, 3, 0)]
    );
    assert_eq!(
        place_rows(&heights, 0, area(0, 10, 6)),
        vec![slot(0, 0, 4, 0), slot(1, 4, 2, 0)]
    );
    assert_eq!(place_rows(&heights, 4, area(0, 10, 20)), vec![slot(1, 0, 4, 0), slot(2, 4, 3, 0)]);
    assert_eq!(place_rows(&heights, 0, area(0, 10, 0)), vec![]);
}

#[test]
fn chat_rows_stay_in_area() {
    let heights = vec![3, 7, 2, 5];
    for offset in 0..18 {
        let a = area(2, 10, 6);
        let slots = place_rows(&heights, offset, a);
        let mut top = a.y;
        for s in slots {
            assert!(s.y >= top);
            assert!(s.y + s.height <= a.y + a.height);
            top = s.y + s.height;
        }
    }
}

#[test]
fn chat_is_laid_out_at_the_bottom() {
    let messages = vec![msg(MessageKind::User, "hi"), msg(MessageKind::Response, "hello there")];
    let editing = vec![String::new()];
    let mut v = ViewScroll { scroll: 0, should_follow: true, should_snap: false };
    let slots = lay_out_chat(&messages, None, &editing, &mut v, area(0, 7, 6));
    assert_eq!(v.scroll, 4);
    assert_eq!(slots, vec![slot(1, 0, 3, 1), slot(2, 3, 3, 0)]);
}

#[test]
fn message_boxes_by_kind() {
    let user = message_look(MessageKind::User, "hello world", false, 7, 0);
    assert_eq!((user.top_pad, user.bottom_pad, user.content_scroll, user.error_title), (1, 1, 0, false));
    assert_eq!(user.rows, vec!["hello".to_string(), "world".to_string()]);
    let scrolled = message_look(MessageKind::User, "x", false, 7, 3);
    assert_eq!((scrolled.top_pad, scrolled.content_scroll), (0, 2));
    let err = message_look(MessageKind::Error, "bad", false, 7, 0);
    assert_eq!((err.top_pad, err.bottom_pad, err.error_title), (0, 1, true));
    let think = message_look(MessageKind::Thinking, "hm", true, 7, 1);
    assert_eq!((think.top_pad, think.bottom_pad, think.content_scroll), (0, 0, 0));
}

#[test]
fn empty_reply_shows_dots_while_streaming() {
    assert_eq!(message_look(MessageKind::Response, "", true, 10, 0).rows, vec!["...".to_string()]);
    assert_eq!(message_look(MessageKind::Response, "", false, 10, 0).rows, vec![String::new()]);
    assert_eq!(message_look(MessageKind::User, "", true, 10, 0).rows, vec![String::new()]);
}

#[test]
fn narrow_box_keeps_text_whole() {
    assert_eq!(message_look(MessageKind::User, "ab", false, 2, 0).rows, vec!["ab".to_string()]);
}

#[test]
fn placeholder_and_status_text() {
    assert_eq!(placeholder_text(true), "...");
    assert_eq!(placeholder_text(false), "");
    assert_eq!(status_line("ready", false, 3), "ready  ");
    assert_eq!(status_line("streaming", true, 5), "streaming /");
}

#[test]
fn spinner_cycles_every_four_ticks() {
    let glyphs: Vec<char> = (0..8).map(|i| spinner_glyph(true, i)).collect();
    assert_eq!(glyphs, vec!['|', '/', '-', '\\', '|', '/', '-', '\\']);
    assert_eq!(spinner_glyph(false, 2), ' ');
}

#[test]
fn new_text_areas_hold_the_lines() {
    assert_eq!(new_input_textarea("a\nb").ta.lines(), &["a".to_string(), "b".to_string()]);
    assert_eq!(new_editing_textarea("").ta.lines(), &[String::new()]);
}
