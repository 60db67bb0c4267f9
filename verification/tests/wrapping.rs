use setboy::cli::wrap_text as wrap_owned;
use setboy::cli::widgets::input_box::InputBox;
use setboy::text::{content_lines, count_words, join_lines, push_decimal};
use setboy::wrapped_text::{wrap_text, WrapText, WrappedText};

fn owned(rows: &[&str]) -> Vec<String> {
    rows.iter().map(|r| r.to_string()).collect()
}

#[test]
fn owned_rows_join_words_up_to_the_width() {
    assert_eq!(wrap_owned("hello world foo", 11), owned(&["hello world", "foo"]));
}

#[test]
fn owned_rows_cut_long_words() {
    assert_eq!(wrap_owned("abcdefghij", 4), owned(&["abcd", "efgh", "ij"]));
}

#[test]
fn owned_rows_flush_pending_row_before_a_long_word() {
    assert_eq!(wrap_owned("ab cdefgh", 4), owned(&["ab", "cdef", "gh"]));
}

#[test]
fn owned_rows_keep_empty_lines() {
    assert_eq!(wrap_owned("a\n\nb", 5), owned(&["a", "", "b"]));
}

#[test]
fn owned_rows_width_zero_is_whole_text() {
    assert_eq!(wrap_owned("x y\nz", 0), owned(&["x y\nz"]));
}

#[test]
fn owned_rows_keep_double_spaces() {
    assert_eq!(wrap_owned("a  b", 10), owned(&["a  b"]));
}

#[test]
fn owned_rows_of_empty_text() {
    assert_eq!(wrap_owned("", 3), owned(&[""]));
}

#[test]
fn owned_rows_count_characters_not_bytes() {
    assert_eq!(wrap_owned("ééé ü", 4), owned(&["ééé", "ü"]));
}

#[test]
fn owned_rows_never_exceed_the_width() {
    let text = "the quick brown fox jumps over the lazy dog\nsupercalifragilistic";
    for width in 1..12 {
        let rows = wrap_owned(text, width);
        assert!(!rows.is_empty());
        for row in rows {
            assert!(row.chars().count() <= width);
        }
    }
}

#[test]
fn borrowed_rows_join_words_up_to_the_width() {
    assert_eq!(wrap_text("hello world foo", 11), vec!["hello world", "foo"]);
}

#[test]
fn borrowed_rows_cut_long_words() {
    assert_eq!(wrap_text("abcdefghij", 4), vec!["abcd", "efgh", "ij"]);
}

#[test]
fn borrowed_rows_keep_empty_lines_and_width_zero() {
    assert_eq!(wrap_text("a\n\nb", 5), vec!["a", "", "b"]);
    assert_eq!(wrap_text("a b", 0), vec!["a b"]);
}

#[test]
fn borrowed_rows_never_exceed_the_width() {
    let text = "lorem ipsum dolor sit amet, consectetur\nadipiscing";
    for width in 1..10 {
        for row in wrap_text(text, width) {
            assert!(row.chars().count() <= width);
        }
    }
}

#[test]
fn short_line_is_one_row() {
    assert_eq!(wrap_text("short", 10), vec!["short"]);
    assert_eq!(wrap_owned("short", 10), owned(&["short"]));
}

#[test]
fn wrapped_text_keeps_text_and_width() {
    let w = WrappedText::new("one two three", 7);
    assert_eq!(w.original(), "one two three");
    assert_eq!(w.width(), 7);
    assert_eq!(w.lines(), &["one two", "three"]);
    assert_eq!(w.height(), 2);
    assert_eq!(w.to_string(), "one two three");
    let s: &str = (&w).into();
    assert_eq!(s, "one two three");
}

#[test]
fn wrapped_text_rewrap_changes_rows_only() {
    let w = WrappedText::new("one two three", 7);
    let r = w.rewrap(3);
    assert_eq!(r.original(), "one two three");
    assert_eq!(r.width(), 3);
    assert_eq!(r.lines(), &["one", "two", "thr", "ee"]);
    let c = r.clone();
    assert_eq!(c.lines(), r.lines());
}

#[test]
fn wrap_text_trait_for_str_and_string() {
    let s = String::from("aa bb");
    assert_eq!(s.wrapped_lines(2), vec!["aa", "bb"]);
    assert_eq!("aa bb".wrapped_lines(5), vec!["aa bb"]);
}

#[test]
fn content_lines_split_at_newlines() {
    assert_eq!(content_lines("a\nb\n"), owned(&["a", "b", ""]));
    assert_eq!(content_lines(""), owned(&[""]));
}

#[test]
fn join_undoes_split() {
    for text in ["", "a", "a\nb", "\n\n", "x\ny\n"] {
        let lines = content_lines(text);
        assert_eq!(join_lines(&lines), text);
    }
}

#[test]
fn textwrap_wraps_at_the_width() {
    let b = InputBox::new("hello world");
    assert_eq!(b.total_widget_height(5), 4);
    assert_eq!(b.total_widget_height(11), 3);
}

#[test]
fn decimals_and_words() {
    let mut s = String::from("#");
    push_decimal(&mut s, 1207);
    assert_eq!(s, "#1207");
    let mut z = String::new();
    push_decimal(&mut z, 0);
    assert_eq!(z, "0");
    assert_eq!(count_words("  two words \n"), 2);
    assert_eq!(count_words(""), 0);
}

#[test]
fn each_line_is_wrapped_on_its_own() {
    for (a, b) in [("ab cd", "xyz"), ("", "q r s"), ("long words here", "")] {
        for width in 1..6 {
            let joined = format!("{}\n{}", a, b);
            let mut both = wrap_owned(a, width);
            both.extend(wrap_owned(b, width));
            assert_eq!(wrap_owned(&joined, width), both);
            let mut borrowed = wrap_text(a, width);
            borrowed.extend(wrap_text(b, width));
            assert_eq!(wrap_text(&joined, width), borrowed);
        }
    }
}

#[test]
fn rewrapping_a_row_keeps_it() {
    assert_eq!(wrap_text("ab cd\nabc de", 5), vec!["ab cd", "abc", "de"]);
    let text = "ab cd\nabc de  fgh\n\n   x supercalifragilistic y \nlast";
    for width in 1..9 {
        for row in wrap_text(text, width) {
            assert!(!row.contains('\n'));
            assert_eq!(wrap_text(row, width), vec![row]);
        }
        for row in wrap_owned(text, width) {
            assert!(!row.contains('\n'));
            assert!(!row.starts_with(' '));
            assert_eq!(wrap_owned(&row, width), vec![row.clone()]);
        }
    }
}

#[test]
fn owned_rows_drop_leading_spaces() {
    assert_eq!(wrap_owned("  ab", 10), owned(&["ab"]));
}
