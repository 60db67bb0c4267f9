//! The terminal front end's own logic: wrapping message text into owned rows,
//! message heights, the spinner, and the scroll decisions of the chat view.
use vstd::prelude::*;
use vstd::string::{StrSliceExecFns, StringExecFns};

use crate::cli::widgets::input_box::{textarea_new, textarea_lines, TextBuffer};
use crate::model;
use crate::model::MessageKind;
use crate::text::{
    char_string, chars_of, content_lines, copy_range, find_char, find_char_from, free_of, lemma_free_of_subrange, joined, join_lines, lemma_find_char,
    lemma_find_char_from_inside, lemma_find_char_prefix, lemma_find_char_shift, sat_sub, split_content, strings_view,
};

pub mod app;
pub mod widgets;
pub mod window;

verus! {

/// A rectangle of the terminal, in cells: where something is drawn.
#[derive(Debug, Clone, Copy, PartialEq, Eq, Structural)]
pub struct Area {
    pub x: u16,
    pub y: u16,
    pub width: u16,
    pub height: u16,
}

/// The rows for the rest of one line (no `'\n'`) from the word starting at
/// `p`, where `row` is the row being built.  A word longer than `width` is
/// cut into pieces of `width` characters, each on its own row (a non-empty
/// pending row is emitted first).  The rest of the word joins the pending row
/// after a space when the row is not empty; when the result would be wider
/// than `width`, the pending row is emitted first and the word starts a new
/// one.  Empty words add nothing to an empty row and a space to a non-empty
/// one.  The pending row is emitted at the end of the line.
pub open spec fn row_words(line: Seq<char>, width: nat, p: int, row: Seq<char>) -> Seq<Seq<char>>
    decreases line.len() + 1 - p,
{
    if p < 0 || p > line.len() || width == 0 {
        Seq::empty()
    } else {
        let q = find_char(line, ' ', p);
        proof {
            lemma_find_char(line, ' ', p);
        }
        if q - p > width {
            let flushed: Seq<Seq<char>> = if row.len() > 0 {
                seq![row]
            } else {
                Seq::empty()
            };
            flushed.push(line.subrange(p, p + width)) + row_words(line, width, p + width, Seq::empty())
        } else {
            let word = line.subrange(p, q);
            let extra: int = if row.len() == 0 {
                0
            } else {
                1
            };
            let overflow = row.len() + extra + word.len() > width;
            let flushed: Seq<Seq<char>> = if overflow {
                seq![row]
            } else {
                Seq::empty()
            };
            let kept = if overflow {
                Seq::empty()
            } else {
                row
            };
            let next = if kept.len() > 0 {
                kept.push(' ') + word
            } else {
                kept + word
            };
            if q >= line.len() {
                flushed.push(next)
            } else {
                flushed + row_words(line, width, q + 1, next)
            }
        }
    }
}

/// The rows of one line: an empty line gives one empty row.
pub open spec fn row_line(line: Seq<char>, width: nat) -> Seq<Seq<char>> {
    if line.len() == 0 {
        seq![line]
    } else {
        row_words(line, width, 0, Seq::empty())
    }
}

/// The rows of the lines of `text` from index `p` on.
pub open spec fn row_lines_from(text: Seq<char>, width: nat, p: int) -> Seq<Seq<char>>
    decreases text.len() + 1 - p,
{
    if p < 0 || p > text.len() {
        Seq::empty()
    } else {
        let q = find_char(text, '\n', p);
        proof {
            lemma_find_char(text, '\n', p);
        }
        let rows = row_line(text.subrange(p, q), width);
        if q >= text.len() {
            rows
        } else {
            rows + row_lines_from(text, width, q + 1)
        }
    }
}

/// What `wrap_text(text, width)` gives: the whole text as one row for a
/// width of 0, otherwise the rows of each `'\n'`-separated line.
pub open spec fn text_rows(text: Seq<char>, width: nat) -> Seq<Seq<char>> {
    if width == 0 {
        seq![text]
    } else {
        row_lines_from(text, width, 0)
    }
}

/// Wraps one line, the characters `chars[ls..le)` of `text`, and appends its rows.
fn row_line_into(text: &str, chars: &Vec<char>, ls: usize, le: usize, width: usize, rows: &mut Vec<String>)
    requires
        chars@ == text@,
        ls <= le <= chars.len(),
        width > 0,
    ensures
        strings_view(final(rows)@) == strings_view(old(rows)@) + row_line(text@.subrange(ls as int, le as int), width as nat),
{
    let ghost line_s = text@.subrange(ls as int, le as int);
    let ghost start = strings_view(rows@);
    if ls == le {
        rows.push(String::new());
        assert(line_s =~= Seq::<char>::empty());
        assert(strings_view(rows@) =~= start + row_line(line_s, width as nat));
        return;
    }
    let line = copy_range(chars, ls, le);
    let len = line.len();
    let mut p: usize = 0;
    let mut row = String::new();
    let mut q = find_char_from(&line, ' ', 0);
    proof {
        lemma_find_char(line@, ' ', 0);
        reveal_strlit(" ");
    }
    loop
        invariant
            line@ == line_s,
            line_s == text@.subrange(ls as int, le as int),
            start == strings_view(old(rows)@),
            len == line.len(),
            len == le - ls,
            ls <= le <= chars.len(),
            chars@ == text@,
            width > 0,
            p <= q <= len,
            q == find_char(line@, ' ', p as int),
            row@.len() <= width,
            " "@ == seq![' '],
            strings_view(rows@) + row_words(line_s, width as nat, p as int, row@) == start + row_line(
                line_s,
                width as nat,
            ),
        decreases len + 1 - p,
    {
        let ghost before = strings_view(rows@);
        let ghost old_row = row@;
        proof {
            lemma_find_char(line@, ' ', p as int);
        }
        if q - p > width {
            if !row.as_str().is_empty() {
                rows.push(row);
            }
            let head = text.substring_char(ls + p, ls + p + width);
            assert(head@ =~= line_s.subrange(p as int, p + width));
            rows.push(head.to_owned());
            let ghost flushed: Seq<Seq<char>> = if old_row.len() > 0 {
                seq![old_row]
            } else {
                Seq::empty()
            };
            assert(strings_view(rows@) =~= before + flushed.push(line_s.subrange(p as int, p + width)));
            assert(row_words(line_s, width as nat, p as int, old_row) == flushed.push(line_s.subrange(p as int, p + width))
                + row_words(line_s, width as nat, p + width, Seq::empty()));
            proof {
                lemma_find_char_from_inside(line@, ' ', p as int, p + width);
            }
            p = p + width;
            row = String::new();
        } else {
            let word = text.substring_char(ls + p, ls + q);
            assert(word@ =~= line_s.subrange(p as int, q as int));
            let row_len = row.as_str().unicode_len();
            let extra: usize = if row_len == 0 {
                0
            } else {
                1
            };
            let room = width - (q - p);
            let overflow = if extra == 0 {
                row_len > room
            } else {
                row_len >= room
            };
            let ghost flushed: Seq<Seq<char>> = if overflow {
                seq![old_row]
            } else {
                Seq::empty()
            };
            if overflow {
                rows.push(row);
                row = String::new();
            }
            assert(strings_view(rows@) =~= before + flushed);
            let ghost kept = row@;
            if !row.as_str().is_empty() {
                row.append(" ");
                assert(kept + " "@ =~= kept.push(' '));
            }
            row.append(word);
            let ghost next = if kept.len() > 0 {
                kept.push(' ') + word@
            } else {
                kept + word@
            };
            assert(row@ == next);
            if q >= len {
                rows.push(row);
                assert(strings_view(rows@) =~= before + flushed.push(row@));
                return;
            }
            assert(row_words(line_s, width as nat, p as int, old_row) == flushed + row_words(
                line_s,
                width as nat,
                q + 1,
                next,
            ));
            p = q + 1;
            q = find_char_from(&line, ' ', p);
            proof {
                lemma_find_char(line@, ' ', p as int);
            }
        }
    }
}

/// Wraps `text` at `width` into owned rows (see `text_rows`).
pub fn wrap_text(text: &str, width: usize) -> (rows: Vec<String>)
    ensures
        strings_view(rows@) == text_rows(text@, width as nat),
{
    if width == 0 {
        let mut rows: Vec<String> = Vec::new();
        rows.push(text.to_owned());
        assert(strings_view(rows@) =~= seq![text@]);
        return rows;
    }
    let chars = chars_of(text);
    let len = chars.len();
    let mut rows: Vec<String> = Vec::new();
    let mut p: usize = 0;
    loop
        invariant
            chars@ == text@,
            len == chars.len(),
            width > 0,
            p <= len,
            strings_view(rows@) + row_lines_from(text@, width as nat, p as int) == text_rows(text@, width as nat),
        decreases len + 1 - p,
    {
        let ghost before = strings_view(rows@);
        let q = find_char_from(&chars, '\n', p);
        proof {
            lemma_find_char(chars@, '\n', p as int);
        }
        row_line_into(text, &chars, p, q, width, &mut rows);
        if q >= len {
            return rows;
        }
        assert(strings_view(rows@) + row_lines_from(text@, width as nat, q + 1) =~= before + row_lines_from(
            text@,
            width as nat,
            p as int,
        ));
        p = q + 1;
    }
}

/// Every row of the rest of a line fits the width, given that the pending
/// row does.
proof fn lemma_row_words_fit(line: Seq<char>, width: nat, p: int, row: Seq<char>)
    requires
        width > 0,
        0 <= p <= line.len(),
        row.len() <= width,
    ensures
        forall|i: int| 0 <= i < row_words(line, width, p, row).len()
            ==> #[trigger] row_words(line, width, p, row)[i].len() <= width,
        row_words(line, width, p, row).len() >= 1,
    decreases line.len() + 1 - p,
{
    let q = find_char(line, ' ', p);
    lemma_find_char(line, ' ', p);
    let w = row_words(line, width, p, row);
    if q - p > width {
        lemma_row_words_fit(line, width, p + width, Seq::empty());
        let flushed: Seq<Seq<char>> = if row.len() > 0 { seq![row] } else { Seq::empty() };
        let rest = row_words(line, width, p + width, Seq::empty());
        assert(w == flushed.push(line.subrange(p, p + width)) + rest);
        assert forall|i: int| 0 <= i < w.len() implies #[trigger] w[i].len() <= width by {
            if i >= flushed.len() + 1 {
                assert(w[i] == rest[i - flushed.len() - 1]);
            }
        }
    } else {
        let word = line.subrange(p, q);
        let extra: int = if row.len() == 0 { 0 } else { 1 };
        let overflow = row.len() + extra + word.len() > width;
        let flushed: Seq<Seq<char>> = if overflow { seq![row] } else { Seq::empty() };
        let kept = if overflow { Seq::empty() } else { row };
        let next = if kept.len() > 0 { kept.push(' ') + word } else { kept + word };
        assert(next.len() <= width);
        if q < line.len() {
            lemma_row_words_fit(line, width, q + 1, next);
            let rest = row_words(line, width, q + 1, next);
            assert(w == flushed + rest);
            assert forall|i: int| 0 <= i < w.len() implies #[trigger] w[i].len() <= width by {
                if i >= flushed.len() {
                    assert(w[i] == rest[i - flushed.len()]);
                }
            }
        } else {
            assert(w == flushed.push(next));
        }
    }
}

/// Every row of the lines from `p` on fits the width, and there is at least one.
proof fn lemma_row_lines_fit(text: Seq<char>, width: nat, p: int)
    requires
        width > 0,
        0 <= p <= text.len(),
    ensures
        forall|i: int| 0 <= i < row_lines_from(text, width, p).len()
            ==> #[trigger] row_lines_from(text, width, p)[i].len() <= width,
        row_lines_from(text, width, p).len() >= 1,
    decreases text.len() + 1 - p,
{
    let q = find_char(text, '\n', p);
    lemma_find_char(text, '\n', p);
    let line = text.subrange(p, q);
    let rows = row_line(line, width);
    if line.len() > 0 {
        lemma_row_words_fit(line, width, 0, Seq::empty());
    }
    assert(forall|i: int| 0 <= i < rows.len() ==> #[trigger] rows[i].len() <= width);
    if q < text.len() {
        lemma_row_lines_fit(text, width, q + 1);
        let rest = row_lines_from(text, width, q + 1);
        let all = row_lines_from(text, width, p);
        assert(all == rows + rest);
        assert forall|i: int| 0 <= i < all.len() implies #[trigger] all[i].len() <= width by {
            if i >= rows.len() {
                assert(all[i] == rest[i - rows.len()]);
            }
        }
    }
}

/// With a nonzero width, every row `wrap_text` gives holds at most `width`
/// characters (long words are cut), and there is always at least one row.
pub proof fn text_rows_fit_width(text: Seq<char>, width: nat)
    requires
        width > 0,
    ensures
        forall|i: int| 0 <= i < text_rows(text, width).len() ==> #[trigger] text_rows(text, width)[i].len() <= width,
        text_rows(text, width).len() >= 1,
{
    lemma_row_lines_fit(text, width, 0);
}

/// A row that is empty or starts with a character other than a space.
pub open spec fn starts_on_word(row: Seq<char>) -> bool {
    row.len() == 0 || row[0] != ' '
}

/// No row of the rest of a line holds a line break or starts with a space,
/// given that the line holds no line break and the pending row obeys both.
proof fn lemma_row_words_shape(line: Seq<char>, width: nat, p: int, row: Seq<char>)
    requires
        width > 0,
        0 <= p <= line.len(),
        free_of(line, '\n'),
        free_of(row, '\n'),
        starts_on_word(row),
    ensures
        forall|i: int| 0 <= i < row_words(line, width, p, row).len() ==> {
            let r = #[trigger] row_words(line, width, p, row)[i];
            free_of(r, '\n') && starts_on_word(r)
        },
    decreases line.len() + 1 - p,
{
    let q = find_char(line, ' ', p);
    lemma_find_char(line, ' ', p);
    let w = row_words(line, width, p, row);
    if q - p > width {
        lemma_row_words_shape(line, width, p + width, Seq::empty());
        lemma_free_of_subrange(line, '\n', p, p + width);
        assert(line.subrange(p, p + width)[0] == line[p]);
        let flushed: Seq<Seq<char>> = if row.len() > 0 { seq![row] } else { Seq::empty() };
        let rest = row_words(line, width, p + width, Seq::empty());
        assert(w == flushed.push(line.subrange(p, p + width)) + rest);
        assert forall|i: int| 0 <= i < w.len() implies free_of(#[trigger] w[i], '\n') && starts_on_word(w[i]) by {
            if i >= flushed.len() + 1 {
                assert(w[i] == rest[i - flushed.len() - 1]);
            }
        }
    } else {
        let word = line.subrange(p, q);
        lemma_free_of_subrange(line, '\n', p, q);
        let extra: int = if row.len() == 0 { 0 } else { 1 };
        let overflow = row.len() + extra + word.len() > width;
        let flushed: Seq<Seq<char>> = if overflow { seq![row] } else { Seq::empty() };
        let kept = if overflow { Seq::empty() } else { row };
        let next = if kept.len() > 0 { kept.push(' ') + word } else { kept + word };
        assert(free_of(next, '\n') && starts_on_word(next)) by {
            if kept.len() > 0 {
                assert forall|k: int| 0 <= k < next.len() implies next[k] != '\n' by {
                    if k > kept.len() {
                        assert(next[k] == word[k - kept.len() - 1]);
                    } else if k < kept.len() {
                        assert(next[k] == kept[k]);
                    }
                }
                assert(next[0] == kept[0]);
            } else {
                assert(next =~= word);
                if word.len() > 0 {
                    assert(word[0] == line[p]);
                }
            }
        }
        if q < line.len() {
            lemma_row_words_shape(line, width, q + 1, next);
            let rest = row_words(line, width, q + 1, next);
            assert(w == flushed + rest);
            assert forall|i: int| 0 <= i < w.len() implies free_of(#[trigger] w[i], '\n') && starts_on_word(w[i]) by {
                if i >= flushed.len() {
                    assert(w[i] == rest[i - flushed.len()]);
                }
            }
        } else {
            assert(w == flushed.push(next));
        }
    }
}

/// No row of the lines from `p` on holds a line break or starts with a space.
proof fn lemma_row_lines_shape(text: Seq<char>, width: nat, p: int)
    requires
        width > 0,
        0 <= p <= text.len(),
    ensures
        forall|i: int| 0 <= i < row_lines_from(text, width, p).len() ==> {
            let r = #[trigger] row_lines_from(text, width, p)[i];
            free_of(r, '\n') && starts_on_word(r)
        },
    decreases text.len() + 1 - p,
{
    let q = find_char(text, '\n', p);
    lemma_find_char(text, '\n', p);
    let line = text.subrange(p, q);
    lemma_free_of_subrange(text, '\n', p, q);
    let rows = row_line(line, width);
    if line.len() > 0 {
        lemma_row_words_shape(line, width, 0, Seq::empty());
    }
    assert(forall|i: int| 0 <= i < rows.len() ==> free_of(#[trigger] rows[i], '\n') && starts_on_word(rows[i]));
    if q < text.len() {
        lemma_row_lines_shape(text, width, q + 1);
        let rest = row_lines_from(text, width, q + 1);
        let all = row_lines_from(text, width, p);
        assert(all == rows + rest);
        assert forall|i: int| 0 <= i < all.len() implies free_of(#[trigger] all[i], '\n') && starts_on_word(all[i]) by {
            if i >= rows.len() {
                assert(all[i] == rest[i - rows.len()]);
            }
        }
    }
}

/// With a nonzero width, no row of `wrap_text` holds a line break, and none
/// starts with a space.
pub proof fn text_rows_shape(text: Seq<char>, width: nat)
    requires
        width > 0,
    ensures
        forall|i: int| 0 <= i < text_rows(text, width).len() ==> !(#[trigger] text_rows(text, width)[i]).contains('\n'),
        forall|i: int| 0 <= i < text_rows(text, width).len() ==> starts_on_word(#[trigger] text_rows(text, width)[i]),
{
    lemma_row_lines_shape(text, width, 0);
    let rows = text_rows(text, width);
    assert forall|i: int| 0 <= i < rows.len() implies !(#[trigger] rows[i]).contains('\n') by {
        assert(free_of(rows[i], '\n'));
    }
}

/// The rest of a line that fits the width whole, and does not start with a
/// space, is built up word by word into one row.
proof fn lemma_row_words_short(line: Seq<char>, width: nat, p: int, row: Seq<char>)
    requires
        width > 0,
        0 <= p <= line.len(),
        line.len() <= width,
        line.len() > 0,
        line[0] != ' ',
        p == 0 ==> row.len() == 0,
        p > 0 ==> row == line.subrange(0, p - 1) && row.len() > 0 && line[p - 1] == ' ',
    ensures
        row_words(line, width, p, row) == seq![line],
    decreases line.len() + 1 - p,
{
    let q = find_char(line, ' ', p);
    lemma_find_char(line, ' ', p);
    let word = line.subrange(p, q);
    let kept = row;
    let next = if kept.len() > 0 { kept.push(' ') + word } else { kept + word };
    assert(next =~= line.subrange(0, q));
    if q < line.len() {
        if p == 0 {
            assert(q > 0);
        }
        lemma_row_words_short(line, width, q + 1, next);
    } else {
        assert(line.subrange(0, q) =~= line);
    }
}

/// A one-line text no wider than a nonzero width, that does not start with
/// a space, comes back as its only row.
pub proof fn short_text_is_one_row(text: Seq<char>, width: nat)
    requires
        width > 0,
        text.len() <= width,
        !text.contains('\n'),
        starts_on_word(text),
    ensures
        text_rows(text, width) == seq![text],
{
    let q = find_char(text, '\n', 0);
    lemma_find_char(text, '\n', 0);
    if q < text.len() {
        assert(text.contains(text[q]));
    }
    assert(text.subrange(0, q) =~= text);
    if text.len() > 0 {
        lemma_row_words_short(text, width, 0, Seq::empty());
    }
}

/// Wrapping a row of `wrap_text` again, at the same nonzero width, gives
/// that row back as the only row.
pub proof fn rewrapping_a_row_keeps_it(text: Seq<char>, width: nat)
    requires
        width > 0,
    ensures
        forall|i: int| 0 <= i < text_rows(text, width).len()
            ==> text_rows(#[trigger] text_rows(text, width)[i], width) == seq![text_rows(text, width)[i]],
{
    text_rows_fit_width(text, width);
    text_rows_shape(text, width);
    let rows = text_rows(text, width);
    assert forall|i: int| 0 <= i < rows.len() implies text_rows(#[trigger] rows[i], width) == seq![rows[i]] by {
        short_text_is_one_row(rows[i], width);
    }
}

/// The lines after a prefix are wrapped as they are on their own.
proof fn lemma_row_lines_shift(pre: Seq<char>, t: Seq<char>, width: nat, k: int)
    requires
        0 <= k <= t.len(),
    ensures
        row_lines_from(pre + t, width, pre.len() + k) == row_lines_from(t, width, k),
    decreases t.len() - k,
{
    let q = find_char(t, '\n', k);
    lemma_find_char(t, '\n', k);
    lemma_find_char_shift(pre, t, '\n', k);
    assert((pre + t).subrange(pre.len() + k, pre.len() + q) =~= t.subrange(k, q));
    if q < t.len() {
        lemma_row_lines_shift(pre, t, width, q + 1);
    }
}

/// Wrapping `a`, a line break and `b` from a line start `p` inside `a`
/// gives the rows of `a` from `p`, then the rows of `b`.
proof fn lemma_row_lines_concat(a: Seq<char>, b: Seq<char>, width: nat, p: int)
    requires
        0 <= p <= a.len(),
    ensures
        row_lines_from(a + seq!['\n'] + b, width, p) == row_lines_from(a, width, p) + row_lines_from(b, width, 0),
    decreases a.len() - p,
{
    let t = a + seq!['\n'] + b;
    let rest = seq!['\n'] + b;
    assert(t =~= a + rest);
    lemma_find_char(a, '\n', p);
    lemma_find_char_prefix(a, rest, '\n', p);
    let q = find_char(a, '\n', p);
    assert(rest[0] == '\n');
    assert(find_char(rest, '\n', 0) == 0);
    assert(t.subrange(p, q) =~= a.subrange(p, q));
    let rows = row_line(a.subrange(p, q), width);
    if q < a.len() {
        lemma_row_lines_concat(a, b, width, q + 1);
        assert(row_lines_from(t, width, p) == rows + row_lines_from(t, width, q + 1));
        assert(row_lines_from(a, width, p) == rows + row_lines_from(a, width, q + 1));
        assert(rows + (row_lines_from(a, width, q + 1) + row_lines_from(b, width, 0)) =~= (rows + row_lines_from(
            a,
            width,
            q + 1,
        )) + row_lines_from(b, width, 0));
    } else {
        let pre = a + seq!['\n'];
        assert(t =~= pre + b);
        lemma_row_lines_shift(pre, b, width, 0);
        assert(row_lines_from(t, width, p) == rows + row_lines_from(t, width, a.len() + 1 as int));
    }
}

/// Each line of a text is wrapped on its own: wrapping `a`, a line break
/// and `b` gives the rows of `a` followed by the rows of `b`.
pub proof fn text_rows_of_lines(a: Seq<char>, b: Seq<char>, width: nat)
    requires
        width > 0,
    ensures
        text_rows(a + seq!['\n'] + b, width) == text_rows(a, width) + text_rows(b, width),
{
    lemma_row_lines_concat(a, b, width, 0);
}

/// The height of a message box: its rows plus a line of padding above and below.
pub fn height_of_msg(m: &model::Message, width: usize) -> (r: u16)
    requires
        (text_rows(m.content@, width as nat).len() as u16) + 2 <= u16::MAX,
    ensures
        r == (text_rows(m.content@, width as nat).len() as u16) + 2,
{
    let body_lines = wrap_text(m.content.as_str(), width).len();
    body_lines as u16 + 2
}

/// The sum of `heights[..to]`.
pub open spec fn sum_rows(heights: Seq<u16>, to: int) -> nat
    decreases to,
{
    if to <= 0 || to > heights.len() {
        0
    } else {
        sum_rows(heights, to - 1) + heights[to - 1] as nat
    }
}

proof fn lemma_sum_rows_mono(heights: Seq<u16>, i: int, j: int)
    requires
        0 <= i <= j <= heights.len(),
    ensures
        sum_rows(heights, i) <= sum_rows(heights, j),
    decreases j - i,
{
    if i < j {
        lemma_sum_rows_mono(heights, i, j - 1);
    }
}

/// How the chat view scrolls between draws: the row it was last drawn from,
/// whether it keeps to the bottom, and whether the next draw brings the
/// focused box into view.
#[derive(Debug, Clone, Copy, PartialEq, Eq, Structural)]
pub struct ViewScroll {
    pub scroll: u16,
    pub should_follow: bool,
    pub should_snap: bool,
}

/// The row that brings box `idx` into view: its bottom at the area's bottom
/// when it fits, its top at the area's top otherwise, and never past the
/// last screenful.
pub open spec fn snap_row(heights: Seq<u16>, idx: int, area_height: int, max_scroll: int) -> int {
    let off = sum_rows(heights, idx) as int;
    let h = heights[idx];
    let s = if h <= area_height {
        sat_sub(off + h, area_height)
    } else {
        off
    };
    if s < max_scroll {
        s
    } else {
        max_scroll
    }
}

/// The row the last screenful of boxes `heights` starts at in an area
/// `area_height` rows high: the furthest the view scrolls.
pub open spec fn last_screen_row(heights: Seq<u16>, area_height: int) -> int {
    sat_sub(sum_rows(heights, heights.len() as int) as int, area_height)
}

/// The scroll state after a draw of boxes `heights` (the input box last) in
/// an area `area_height` rows high.  Scrolling past the last screenful turns
/// following on; a pending snap brings the focused box into view (the bottom
/// when nothing has the focus) and is then spent; a following view shows the
/// last screenful; otherwise the view stays where it was, clamped to the last
/// screenful.
pub open spec fn resolved_scroll(v: ViewScroll, heights: Seq<u16>, focus: Option<usize>, area_height: int) -> ViewScroll {
    let max_scroll = last_screen_row(heights, area_height);
    let follow = v.should_follow || v.scroll > max_scroll;
    let row = if v.should_snap {
        match focus {
            Some(i) => snap_row(heights, i as int, area_height, max_scroll),
            None => max_scroll,
        }
    } else if follow {
        max_scroll
    } else if v.scroll < max_scroll {
        v.scroll as int
    } else {
        max_scroll
    };
    ViewScroll { scroll: row as u16, should_follow: follow, should_snap: false }
}

/// The sum of `heights[..to]`, which fits a `u16` when the whole sum does.
fn sum_rows_to(heights: &Vec<u16>, to: usize) -> (r: u16)
    requires
        to <= heights@.len(),
        sum_rows(heights@, heights@.len() as int) <= u16::MAX,
    ensures
        r == sum_rows(heights@, to as int),
{
    let mut sum: u16 = 0;
    let mut i: usize = 0;
    while i < to
        invariant
            to <= heights@.len(),
            sum_rows(heights@, heights@.len() as int) <= u16::MAX,
            i <= to,
            sum == sum_rows(heights@, i as int),
        decreases to - i,
    {
        proof {
            lemma_sum_rows_mono(heights@, i + 1, heights@.len() as int);
        }
        sum = sum + heights[i];
        i += 1;
    }
    sum
}

/// Decides the row the chat view is drawn from (see `resolved_scroll`) and
/// records it.
pub fn resolve_view_scroll(view: &mut ViewScroll, heights: &Vec<u16>, focus: Option<usize>, area_height: u16) -> (r: u16)
    requires
        sum_rows(heights@, heights@.len() as int) <= u16::MAX,
        focus matches Some(i) ==> i < heights@.len(),
    ensures
        *final(view) == resolved_scroll(*old(view), heights@, focus, area_height as int),
        r == final(view).scroll,
{
    let total = sum_rows_to(heights, heights.len());
    let max_scroll = total.saturating_sub(area_height);
    if !view.should_follow && view.scroll > max_scroll {
        view.should_follow = true;
    }
    let snap = match focus {
        Some(idx) => {
            let off = sum_rows_to(heights, idx);
            let h = heights[idx];
            proof {
                lemma_sum_rows_mono(heights@, idx + 1, heights@.len() as int);
            }
            let s = if h <= area_height {
                (off + h).saturating_sub(area_height)
            } else {
                off
            };
            Some(if s < max_scroll { s } else { max_scroll })
        },
        None => None,
    };
    let row = if view.should_snap {
        view.should_snap = false;
        match snap {
            Some(s) => s,
            None => max_scroll,
        }
    } else if view.should_follow {
        max_scroll
    } else if view.scroll < max_scroll {
        view.scroll
    } else {
        max_scroll
    };
    view.scroll = row;
    row
}

/// The chat view is never drawn past its last screenful, and a pending snap
/// is spent by the draw.
pub proof fn view_stays_within_last_screen(v: ViewScroll, heights: Seq<u16>, focus: Option<usize>, area_height: u16)
    requires
        sum_rows(heights, heights.len() as int) <= u16::MAX,
        focus matches Some(i) ==> i < heights.len(),
    ensures
        resolved_scroll(v, heights, focus, area_height as int).scroll <= last_screen_row(heights, area_height as int),
        !resolved_scroll(v, heights, focus, area_height as int).should_snap,
{
}

/// Drawing again with nothing changed leaves the view where it is, except
/// right after a snap while the view follows the bottom: the next draw then
/// goes back to the bottom.
pub proof fn redraw_keeps_view(v: ViewScroll, heights: Seq<u16>, focus: Option<usize>, area_height: u16)
    requires
        sum_rows(heights, heights.len() as int) <= u16::MAX,
        focus matches Some(i) ==> i < heights.len(),
        !(v.should_snap && resolved_scroll(v, heights, focus, area_height as int).should_follow),
    ensures
        resolved_scroll(resolved_scroll(v, heights, focus, area_height as int), heights, focus, area_height as int)
            == resolved_scroll(v, heights, focus, area_height as int),
{
    let max_scroll = last_screen_row(heights, area_height as int);
    assert(0 <= max_scroll <= u16::MAX);
    match focus {
        Some(i) => {
            lemma_sum_rows_mono(heights, i as int, heights.len() as int);
            lemma_sum_rows_mono(heights, i + 1, heights.len() as int);
        },
        None => {},
    }
}

/// Where one box goes in the chat area: its index (the message count for the
/// input box), its top row, how many rows of it are drawn, and how many of
/// its rows are scrolled away above.
#[derive(Debug, Clone, Copy, PartialEq, Eq, Structural)]
pub struct RowSlot {
    pub index: usize,
    pub y: u16,
    pub height: u16,
    pub line_skip: u16,
}

/// The slots of boxes `i..` with `skip` rows still to scroll away, drawn from
/// row `y` down to `bottom`: a box no taller than what is left to skip is
/// skipped whole; once the area is full nothing more is drawn; otherwise the
/// box gets its rows less the skipped ones, cut at the bottom.
pub open spec fn row_slots(heights: Seq<u16>, i: int, skip: int, y: int, bottom: int) -> Seq<RowSlot>
    decreases heights.len() - i,
{
    if i < 0 || i >= heights.len() {
        Seq::empty()
    } else if skip >= heights[i] {
        row_slots(heights, i + 1, skip - heights[i], y, bottom)
    } else if y >= bottom {
        Seq::empty()
    } else {
        let rest = heights[i] - skip;
        let h = if rest < bottom - y {
            rest
        } else {
            bottom - y
        };
        seq![RowSlot { index: i as usize, y: y as u16, height: h as u16, line_skip: skip as u16 }] + row_slots(
            heights,
            i + 1,
            0,
            y + h,
            bottom,
        )
    }
}

/// Every slot lies inside the rows `y..bottom`, below the slots before it.
proof fn lemma_row_slots_inside(heights: Seq<u16>, i: int, skip: int, y: int, bottom: int)
    requires
        0 <= i,
        0 <= skip,
        0 <= y,
        bottom <= u16::MAX,
    ensures
        forall|k: int|
            0 <= k < row_slots(heights, i, skip, y, bottom).len() ==> y <= #[trigger] row_slots(
                heights,
                i,
                skip,
                y,
                bottom,
            )[k].y && row_slots(heights, i, skip, y, bottom)[k].y + row_slots(heights, i, skip, y, bottom)[k].height
                <= bottom,
        forall|k: int, l: int|
            0 <= k < l < row_slots(heights, i, skip, y, bottom).len() ==> row_slots(heights, i, skip, y, bottom)[k].y
                + row_slots(heights, i, skip, y, bottom)[k].height <= row_slots(heights, i, skip, y, bottom)[l].y,
    decreases heights.len() - i,
{
    let all = row_slots(heights, i, skip, y, bottom);
    if i < heights.len() {
        if skip >= heights[i] {
            lemma_row_slots_inside(heights, i + 1, skip - heights[i], y, bottom);
            assert(all == row_slots(heights, i + 1, skip - heights[i], y, bottom));
        } else if y < bottom {
            let rest = heights[i] - skip;
            let h = if rest < bottom - y { rest } else { bottom - y };
            lemma_row_slots_inside(heights, i + 1, 0, y + h, bottom);
            let tail = row_slots(heights, i + 1, 0, y + h, bottom);
            let first = RowSlot { index: i as usize, y: y as u16, height: h as u16, line_skip: skip as u16 };
            assert(first.y == y);
            assert(first.height == h);
            assert(all == seq![first] + tail);
            assert forall|k: int| 0 <= k < all.len() implies y <= #[trigger] all[k].y && all[k].y + all[k].height
                <= bottom by {
                if k > 0 {
                    assert(all[k] == tail[k - 1]);
                }
            }
            assert forall|k: int, l: int| 0 <= k < l < all.len() implies all[k].y + all[k].height <= all[l].y by {
                assert(all[l] == tail[l - 1]);
                if k > 0 {
                    assert(all[k] == tail[k - 1]);
                }
            }
        }
    }
}

/// The boxes laid out lie inside the area, each below the one before.
pub proof fn chat_rows_stay_in_area(heights: Seq<u16>, offset: u16, area: Area)
    requires
        area.y + area.height <= u16::MAX,
    ensures
        ({
            let s = row_slots(heights, 0, offset as int, area.y as int, area.y + area.height);
            &&& forall|k: int| 0 <= k < s.len() ==> area.y <= #[trigger] s[k].y && s[k].y + s[k].height <= area.y + area.height
            &&& forall|k: int, l: int| 0 <= k < l < s.len() ==> s[k].y + s[k].height <= s[l].y
        }),
{
    lemma_row_slots_inside(heights, 0, offset as int, area.y as int, area.y + area.height);
}

/// Lays the boxes out in `area`, `offset` rows scrolled away (see `row_slots`).
pub fn place_rows(heights: &Vec<u16>, offset: u16, area: Area) -> (r: Vec<RowSlot>)
    requires
        area.y + area.height <= u16::MAX,
    ensures
        r@ == row_slots(heights@, 0, offset as int, area.y as int, area.y + area.height),
{
    let n = heights.len();
    let bottom: u16 = area.y + area.height;
    let mut slots: Vec<RowSlot> = Vec::new();
    let mut remaining: u16 = offset;
    let mut y: u16 = area.y;
    let mut i: usize = 0;
    while i < n
        invariant
            n == heights@.len(),
            i <= n,
            y <= bottom,
            bottom == area.y + area.height,
            slots@ + row_slots(heights@, i as int, remaining as int, y as int, bottom as int) == row_slots(
                heights@,
                0,
                offset as int,
                area.y as int,
                bottom as int,
            ),
        ensures
            slots@ == row_slots(heights@, 0, offset as int, area.y as int, bottom as int),
        decreases n - i,
    {
        let h = heights[i];
        if remaining >= h {
            remaining -= h;
            i += 1;
            continue;
        }
        if y >= bottom {
            assert(slots@ =~= slots@ + Seq::<RowSlot>::empty());
            break;
        }
        let rest = h - remaining;
        let room = bottom - y;
        let shown = if rest < room {
            rest
        } else {
            room
        };
        let ghost before = slots@;
        slots.push(RowSlot { index: i, y, height: shown, line_skip: remaining });
        assert(slots@ =~= before + seq![RowSlot { index: i, y, height: shown, line_skip: remaining }]);
        y = y + shown;
        remaining = 0;
        i += 1;
    }
    slots
}

/// The height of a box of `rows` rows of text with a line above and below,
/// as the terminal counts it.
pub open spec fn box_rows(rows: nat) -> int {
    (rows as u16) + 2
}

/// A box of `rows` rows has a height that fits a `u16`.
pub open spec fn box_fits(rows: nat) -> bool {
    box_rows(rows) <= u16::MAX
}

/// The text being edited, as the text area holds it.
pub open spec fn editing_text(editing: Seq<String>) -> Seq<char> {
    joined(strings_view(editing), '\n')
}

/// The height of box `i` of the chat: the box being edited takes the rows of
/// the edited text (at least 3); another message its own rows; the input box,
/// last, the lines of the text area when it has the focus (at least 3), 3
/// otherwise.
pub open spec fn chat_row_height(
    msgs: Seq<model::Message>,
    focus: Option<usize>,
    editing: Seq<String>,
    width: nat,
    i: int,
) -> int {
    if focus == Some(i as usize) {
        let b = if i < msgs.len() {
            box_rows(text_rows(editing_text(editing), width).len())
        } else {
            box_rows(editing.len())
        };
        if b < 3 {
            3
        } else {
            b
        }
    } else if i < msgs.len() {
        box_rows(text_rows(msgs[i].content@, width).len())
    } else {
        3
    }
}

/// Every box height that the chat computes fits a `u16`: the edited text's
/// when a message has the focus, the text area's lines when the input box
/// has it, and every other message's own rows.
pub open spec fn chat_rows_fit(msgs: Seq<model::Message>, focus: Option<usize>, editing: Seq<String>, width: nat) -> bool {
    &&& focus == Some(msgs.len() as usize) ==> box_fits(editing.len())
    &&& (focus matches Some(j) && j < msgs.len()) ==> box_fits(text_rows(editing_text(editing), width).len())
    &&& forall|i: int|
        0 <= i < msgs.len() && focus != Some(i as usize) ==> box_fits(#[trigger] text_rows(msgs[i].content@, width).len())
}

/// The heights of the chat's boxes, the input box last (see `chat_row_height`).
pub fn chat_heights(messages: &Vec<model::Message>, focus: Option<usize>, editing: &Vec<String>, width: usize) -> (r: Vec<u16>)
    requires
        chat_rows_fit(messages@, focus, editing@, width as nat),
    ensures
        r@.len() == messages@.len() + 1,
        forall|i: int| 0 <= i < r@.len() ==> r@[i] == chat_row_height(messages@, focus, editing@, width as nat, i),
{
    let n = messages.len();
    let text = join_lines(editing.as_slice());
    let mut heights: Vec<u16> = Vec::new();
    let mut i: usize = 0;
    while i < n
        invariant
            n == messages@.len(),
            i <= n,
            text@ == editing_text(editing@),
            chat_rows_fit(messages@, focus, editing@, width as nat),
            heights@.len() == i,
            forall|k: int| 0 <= k < i ==> heights@[k] == chat_row_height(messages@, focus, editing@, width as nat, k),
        decreases n - i,
    {
        let h: u16 = if focus == Some(i) {
            let rows = wrap_text(text.as_str(), width).len();
            let b = rows as u16 + 2;
            if b < 3 {
                3
            } else {
                b
            }
        } else {
            assert(box_fits(text_rows(messages@[i as int].content@, width as nat).len()));
            height_of_msg(&messages[i], width)
        };
        heights.push(h);
        i += 1;
    }
    let last: u16 = if focus == Some(n) {
        let b = editing.len() as u16 + 2;
        if b < 3 {
            3
        } else {
            b
        }
    } else {
        3
    };
    heights.push(last);
    heights
}

/// The heights of the chat's boxes, the input box last.
pub open spec fn chat_heights_spec(
    msgs: Seq<model::Message>,
    focus: Option<usize>,
    editing: Seq<String>,
    width: nat,
) -> Seq<u16> {
    Seq::new((msgs.len() + 1) as nat, |i: int| chat_row_height(msgs, focus, editing, width, i) as u16)
}

/// The width text is wrapped at in a chat area `width` columns wide: two
/// columns less, and at least one.
pub open spec fn chat_text_width(width: u16) -> nat {
    let w = sat_sub(width as int, 2);
    if w < 1 {
        1
    } else {
        w as nat
    }
}

/// Lays the chat out in `area`: the heights of its boxes (see
/// `chat_row_height`), the row to draw from (see `resolved_scroll`), which
/// is recorded in `view`, and where each box goes (see `row_slots`).
pub fn lay_out_chat(
    messages: &Vec<model::Message>,
    focus: Option<usize>,
    editing: &Vec<String>,
    view: &mut ViewScroll,
    area: Area,
) -> (r: Vec<RowSlot>)
    requires
        chat_rows_fit(messages@, focus, editing@, chat_text_width(area.width)),
        sum_rows(
            chat_heights_spec(messages@, focus, editing@, chat_text_width(area.width)),
            messages@.len() + 1 as int,
        ) <= u16::MAX,
        focus matches Some(i) ==> i <= messages@.len(),
        area.y + area.height <= u16::MAX,
    ensures
        ({
            let heights = chat_heights_spec(messages@, focus, editing@, chat_text_width(area.width));
            &&& *final(view) == resolved_scroll(*old(view), heights, focus, area.height as int)
            &&& r@ == row_slots(heights, 0, final(view).scroll as int, area.y as int, area.y + area.height)
        }),
{
    let narrow = area.width.saturating_sub(2);
    let width: usize = if narrow < 1 {
        1
    } else {
        narrow as usize
    };
    let heights = chat_heights(messages, focus, editing, width);
    assert(heights@ =~= chat_heights_spec(messages@, focus, editing@, chat_text_width(area.width)));
    let offset = resolve_view_scroll(view, &heights, focus, area.height);
    place_rows(&heights, offset, area)
}

/// What laying the chat out in `area` asks: the box heights and their sum
/// fit a `u16`, the focus is a box of the chat, and the area's bottom row
/// fits a `u16`.
pub open spec fn chat_lays_out(msgs: Seq<model::Message>, focus: Option<usize>, editing: Seq<String>, area: Area) -> bool {
    &&& chat_rows_fit(msgs, focus, editing, chat_text_width(area.width))
    &&& sum_rows(chat_heights_spec(msgs, focus, editing, chat_text_width(area.width)), msgs.len() + 1 as int) <= u16::MAX
    &&& focus matches Some(i) ==> i <= msgs.len()
    &&& area.y + area.height <= u16::MAX
}

/// Whether every box height the chat computes fits a `u16` (see `chat_rows_fit`).
pub fn check_chat_rows_fit(messages: &Vec<model::Message>, focus: Option<usize>, editing: &Vec<String>, width: usize) -> (r:
    bool)
    ensures
        r == chat_rows_fit(messages@, focus, editing@, width as nat),
{
    let n = messages.len();
    if focus == Some(n) && (editing.len() as u16) > u16::MAX - 2 {
        return false;
    }
    if let Some(j) = focus {
        if j < n {
            let text = join_lines(editing.as_slice());
            let rows = wrap_text(text.as_str(), width).len();
            if (rows as u16) > u16::MAX - 2 {
                return false;
            }
        }
    }
    let mut i: usize = 0;
    while i < n
        invariant
            n == messages@.len(),
            i <= n,
            forall|k: int|
                0 <= k < i && focus != Some(k as usize) ==> box_fits(
                    #[trigger] text_rows(messages@[k].content@, width as nat).len(),
                ),
        decreases n - i,
    {
        if focus != Some(i) {
            let wrapped = wrap_text(messages[i].content.as_str(), width);
            let rows = wrapped.len();
            assert(strings_view(wrapped@).len() == rows);
            if (rows as u16) > u16::MAX - 2 {
                assert(!box_fits(text_rows(messages@[i as int].content@, width as nat).len()));
                return false;
            }
        }
        i += 1;
    }
    true
}

/// Whether the heights add up to at most `u16::MAX` rows.
pub fn heights_fit(heights: &Vec<u16>) -> (r: bool)
    ensures
        r == (sum_rows(heights@, heights@.len() as int) <= u16::MAX),
{
    let n = heights.len();
    let mut acc: u32 = 0;
    let mut i: usize = 0;
    while i < n
        invariant
            n == heights@.len(),
            i <= n,
            acc == sum_rows(heights@, i as int),
            acc <= u16::MAX,
        decreases n - i,
    {
        acc = acc + heights[i] as u32;
        if acc > u16::MAX as u32 {
            proof {
                lemma_sum_rows_mono(heights@, i + 1, n as int);
            }
            return false;
        }
        i += 1;
    }
    true
}

/// Lays the chat out in `area` as `lay_out_chat` does when the layout can be
/// counted (see `chat_lays_out`), and otherwise gives `None` and leaves
/// `view` as it is.
pub fn try_lay_out_chat(
    messages: &Vec<model::Message>,
    focus: Option<usize>,
    editing: &Vec<String>,
    view: &mut ViewScroll,
    area: Area,
) -> (r: Option<Vec<RowSlot>>)
    ensures
        r is Some <==> chat_lays_out(messages@, focus, editing@, area),
        r is None ==> *final(view) == *old(view),
        r matches Some(slots) ==> ({
            let heights = chat_heights_spec(messages@, focus, editing@, chat_text_width(area.width));
            &&& *final(view) == resolved_scroll(*old(view), heights, focus, area.height as int)
            &&& slots@ == row_slots(heights, 0, final(view).scroll as int, area.y as int, area.y + area.height)
        }),
{
    if let Some(i) = focus {
        if i > messages.len() {
            return None;
        }
    }
    if area.height > u16::MAX - area.y {
        return None;
    }
    let narrow = area.width.saturating_sub(2);
    let width: usize = if narrow < 1 {
        1
    } else {
        narrow as usize
    };
    if !check_chat_rows_fit(messages, focus, editing, width) {
        return None;
    }
    let heights = chat_heights(messages, focus, editing, width);
    assert(heights@ =~= chat_heights_spec(messages@, focus, editing@, chat_text_width(area.width)));
    if !heights_fit(&heights) {
        return None;
    }
    Some(lay_out_chat(messages, focus, editing, view, area))
}

/// How a message box is drawn: the padding rows above and below the text,
/// how many text rows are scrolled away, whether it carries the error title,
/// and its text rows.
pub struct MessageBox {
    pub top_pad: u16,
    pub bottom_pad: u16,
    pub content_scroll: u16,
    pub error_title: bool,
    pub rows: Vec<String>,
}

/// The text a message box shows: a response that has no text yet shows
/// `"..."` while the stream is running.
pub open spec fn shown_body(kind: MessageKind, content: Seq<char>, is_streaming: bool) -> Seq<char> {
    if (kind == MessageKind::Response || kind == MessageKind::ResponsePlaceholder) && content.len() == 0 && is_streaming {
        "..."@
    } else {
        content
    }
}

/// A reply box with no text yet, whether still a placeholder or a
/// response, shows "..." while the stream runs: one row of three dots in any
/// box at least five columns wide.  Any other box, or one with text, or one
/// drawn while no stream runs, shows its own text.
pub proof fn pending_reply_shows_dots(kind: MessageKind, width: u16, content: Seq<char>, is_streaming: bool)
    ensures
        (kind == MessageKind::Response || kind == MessageKind::ResponsePlaceholder) ==> shown_body(
            kind,
            Seq::empty(),
            true,
        ) == "..."@,
        !(kind == MessageKind::Response || kind == MessageKind::ResponsePlaceholder) || content.len() > 0
            || !is_streaming ==> shown_body(kind, content, is_streaming) == content,
        (kind == MessageKind::Response || kind == MessageKind::ResponsePlaceholder) && width >= 5 ==> text_rows(
            shown_body(kind, Seq::empty(), true),
            sat_sub(width as int, 2) as nat,
        ) == seq!["..."@],
{
    reveal_strlit("...");
    let dots = "..."@;
    assert(dots =~= seq!['.', '.', '.']);
    if width >= 5 {
        if dots.contains('\n') {
            let k = choose|k: int| 0 <= k < dots.len() && dots[k] == '\n';
            assert(dots[k] == '.');
        }
        short_text_is_one_row(dots, sat_sub(width as int, 2) as nat);
    }
}

/// The look of a message box `width` columns wide with `line_skip` of its rows
/// scrolled away.  The first skipped row is the top padding, the others are
/// text rows.  An error box has no top padding and carries the title "Error";
/// a thinking box has no bottom padding.  The text is wrapped two columns
/// narrower than the box.
pub fn message_look(kind: MessageKind, content: &str, is_streaming: bool, width: u16, line_skip: u16) -> (r: MessageBox)
    ensures
        r.top_pad == if kind == MessageKind::Error || line_skip > 0 { 0u16 } else { 1u16 },
        r.bottom_pad == if kind == MessageKind::Thinking { 0u16 } else { 1u16 },
        r.content_scroll == sat_sub(line_skip as int, 1),
        r.error_title == (kind == MessageKind::Error),
        strings_view(r.rows@) == text_rows(
            shown_body(kind, content@, is_streaming),
            sat_sub(width as int, 2) as nat,
        ),
{
    let top_pad: u16 = if line_skip > 0 {
        0
    } else {
        1
    };
    let content_scroll = line_skip.saturating_sub(1);
    let inner_width = width.saturating_sub(2) as usize;
    let pending = match kind {
        MessageKind::Response | MessageKind::ResponsePlaceholder => content.is_empty() && is_streaming,
        _ => false,
    };
    let body = if pending {
        proof {
            reveal_strlit("...");
        }
        "..."
    } else {
        content
    };
    let rows = wrap_text(body, inner_width);
    match kind {
        MessageKind::Error => MessageBox { top_pad: 0, bottom_pad: 1, content_scroll, error_title: true, rows },
        MessageKind::Thinking => MessageBox { top_pad, bottom_pad: 0, content_scroll, error_title: false, rows },
        _ => MessageBox { top_pad, bottom_pad: 1, content_scroll, error_title: false, rows },
    }
}

/// The text of the input box's stand-in while it is not focused: `"..."`
/// while the stream runs, nothing otherwise.
pub fn placeholder_text(is_streaming: bool) -> (r: &'static str)
    ensures
        r@ == if is_streaming { "..."@ } else { ""@ },
{
    if is_streaming {
        "..."
    } else {
        ""
    }
}

/// The status line: the status text, a space, and the spinner glyph.
pub fn status_line(status: &str, is_streaming: bool, spinner_index: usize) -> (r: String)
    ensures
        r@ == status@ + seq![' ', if is_streaming { spinner_at(spinner_index) } else { ' ' }],
{
    let mut r = status.to_owned();
    r.append(" ");
    let g = char_string(spinner_glyph(is_streaming, spinner_index));
    r.append(g.as_str());
    proof {
        reveal_strlit(" ");
    }
    assert(r@ =~= status@ + seq![' ', if is_streaming { spinner_at(spinner_index) } else { ' ' }]);
    r
}

/// A text area holding `content` split into lines, for typing a new message.
pub fn new_input_textarea(content: &str) -> (r: TextBuffer)
    ensures
        textarea_lines(r) == split_content(content@),
{
    textarea_new(content_lines(content))
}

/// A text area holding `content` split into lines, for editing a message.
pub fn new_editing_textarea(content: &str) -> (r: TextBuffer)
    ensures
        textarea_lines(r) == split_content(content@),
{
    textarea_new(content_lines(content))
}

/// The spinner glyph for a given tick: it cycles through `|`, `/`, `-`, `\`.
pub open spec fn spinner_at(i: usize) -> char {
    let k = i % 4;
    if k == 0 {
        '|'
    } else if k == 1 {
        '/'
    } else if k == 2 {
        '-'
    } else {
        '\\'
    }
}

/// The glyph shown beside the status: the spinner while streaming, a space otherwise.
pub fn spinner_glyph(is_streaming: bool, spinner_index: usize) -> (r: char)
    ensures
        r == if is_streaming { spinner_at(spinner_index) } else { ' ' },
{
    if is_streaming {
        let k = spinner_index % 4;
        if k == 0 {
            '|'
        } else if k == 1 {
            '/'
        } else if k == 2 {
            '-'
        } else {
            '\\'
        }
    } else {
        ' '
    }
}

/// The spinner comes back to the same glyph every four ticks.
pub proof fn spinner_period(i: usize)
    requires
        i + 4 <= usize::MAX,
    ensures
        spinner_at((i + 4) as usize) == spinner_at(i),
{
}

} // verus!
