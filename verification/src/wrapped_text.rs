//! Word wrapping that hands back borrowed rows of the original text.
use vstd::prelude::*;
use vstd::string::StrSliceExecFns;

use crate::text::{
    chars_of, copy_range, find_char, find_char_from, free_of, lemma_free_of_subrange, lemma_find_char, lemma_find_char_from_inside, lemma_find_char_prefix,
    lemma_find_char_shift,
};

verus! {

/// A text together with its rows, wrapped at `wrap_width`.
pub struct WrappedText<'a> {
    original: &'a str,
    lines: Vec<&'a str>,
    wrap_width: usize,
}

/// What a `WrappedText` stands for: its text, its rows and its width.
pub struct WrappedTextView {
    pub original: Seq<char>,
    pub rows: Seq<Seq<char>>,
    pub width: nat,
}

impl<'a> View for WrappedText<'a> {
    type V = WrappedTextView;

    closed spec fn view(&self) -> WrappedTextView {
        WrappedTextView { original: self.original@, rows: rows_view(self.lines@), width: self.wrap_width as nat }
    }
}

/// Texts that can be wrapped into borrowed rows.
pub trait WrapText<'a> {
    /// The characters of the text.
    spec fn text_view(&self) -> Seq<char>;

    /// The rows of the text wrapped at `width`.
    fn wrapped_lines(&'a self, width: usize) -> (rows: Vec<&'a str>)
        ensures
            rows_view(rows@) == wrapped_rows(self.text_view(), width as nat),
    ;
}

impl<'a> WrapText<'a> for str {
    open spec fn text_view(&self) -> Seq<char> {
        self@
    }

    fn wrapped_lines(&'a self, width: usize) -> (rows: Vec<&'a str>) {
        wrap_text(self, width)
    }
}

impl<'a> WrapText<'a> for String {
    open spec fn text_view(&self) -> Seq<char> {
        self@
    }

    fn wrapped_lines(&'a self, width: usize) -> (rows: Vec<&'a str>) {
        wrap_text(self.as_str(), width)
    }
}

impl<'a> WrappedText<'a> {
    #[verifier::type_invariant]
    spec fn wf(self) -> bool {
        rows_view(self.lines@) == wrapped_rows(self.original@, self.wrap_width as nat)
    }

    /// The borrowed text itself.
    pub closed spec fn original_str(&self) -> &'a str {
        self.original
    }

    /// Wraps `t` at width `w`.
    pub fn new(t: &'a str, w: usize) -> (r: Self)
        ensures
            r.original_str() == t,
            r@.original == t@,
            r@.width == w,
            r@.rows == wrapped_rows(t@, w as nat),
    {
        Self { original: t, lines: wrap_text(t, w), wrap_width: w }
    }

    /// The text that was wrapped.
    pub fn original(&self) -> (r: &'a str)
        ensures
            r == self.original_str(),
            r@ == self@.original,
    {
        self.original
    }

    /// The number of rows.
    pub fn height(&self) -> (r: usize)
        ensures
            r == self@.rows.len(),
            r == wrapped_rows(self@.original, self@.width).len(),
    {
        proof {
            use_type_invariant(self);
        }
        self.lines.len()
    }

    /// The width the text was wrapped at.
    pub fn width(&self) -> (r: usize)
        ensures
            r == self@.width,
    {
        self.wrap_width
    }

    /// The rows.
    pub fn lines(&self) -> (r: &[&'a str])
        ensures
            rows_view(r@) == self@.rows,
            rows_view(r@) == wrapped_rows(self@.original, self@.width),
    {
        proof {
            use_type_invariant(self);
        }
        self.lines.as_slice()
    }

    /// The text as it is printed: the original text, unwrapped.
    pub fn to_string(&self) -> (r: String)
        ensures
            r@ == self@.original,
    {
        self.original.to_owned()
    }

    /// The same text wrapped at another width.
    pub fn rewrap(&self, w: usize) -> (r: Self)
        ensures
            r.original_str() == self.original_str(),
            r@.original == self@.original,
            r@.width == w,
            r@.rows == wrapped_rows(self@.original, w as nat),
    {
        Self::new(self.original, w)
    }
}

impl<'a> Clone for WrappedText<'a> {
    fn clone(&self) -> (r: Self)
        ensures
            r@ == self@,
            r.original_str() == self.original_str(),
    {
        proof {
            use_type_invariant(self);
        }
        let lines = self.lines.clone();
        assert(lines@ =~= self.lines@);
        Self { original: self.original, lines, wrap_width: self.wrap_width }
    }
}

impl<'a> From<WrappedText<'a>> for &'a str {
    fn from(value: WrappedText<'a>) -> (r: &'a str) {
        value.original
    }
}

impl<'a> vstd::std_specs::convert::FromSpecImpl<WrappedText<'a>> for &'a str {
    open spec fn obeys_from_spec() -> bool {
        true
    }

    open spec fn from_spec(v: WrappedText<'a>) -> &'a str {
        v.original_str()
    }
}

impl<'a, 'b> From<&'b WrappedText<'a>> for &'a str {
    fn from(value: &'b WrappedText<'a>) -> (r: &'a str) {
        value.original
    }
}

impl<'a, 'b> vstd::std_specs::convert::FromSpecImpl<&'b WrappedText<'a>> for &'a str {
    open spec fn obeys_from_spec() -> bool {
        true
    }

    open spec fn from_spec(v: &'b WrappedText<'a>) -> &'a str {
        v.original_str()
    }
}

/// The characters that the borrowed rows `rows` show.
pub open spec fn rows_view(rows: Seq<&str>) -> Seq<Seq<char>> {
    rows.map_values(|r: &str| r@)
}

/// The rows produced for the rest of one line (a line holds no `'\n'`),
/// starting at the word that begins at index `p`.  When `started` holds, the
/// row being built is `line[rs..re)`; otherwise no row is pending and
/// `rs == re == 0`.
///
/// A word is a maximal run between single spaces (so it may be empty).  A word
/// longer than `width` is cut into pieces of exactly `width` characters, each
/// emitted on its own (flushing the pending row first); the remaining piece is
/// then placed like any other word.  A word joins the pending row, with the
/// space before it, when the row stays within `width`; otherwise the pending
/// row is emitted and the word starts a new one.  The last pending row is
/// emitted at the end of the line.
pub open spec fn wrap_words(line: Seq<char>, width: nat, p: int, started: bool, rs: int, re: int) -> Seq<Seq<char>>
    decreases line.len() + 1 - p,
{
    if p < 0 || p > line.len() || width == 0 {
        Seq::empty()
    } else {
        let q = find_char(line, ' ', p);
        proof {
            lemma_find_char(line, ' ', p);
        }
        if q - p > width {
            let flushed: Seq<Seq<char>> = if started {
                seq![line.subrange(rs, re)]
            } else {
                Seq::empty()
            };
            flushed.push(line.subrange(p, p + width)) + wrap_words(line, width, p + width, false, 0, 0)
        } else {
            let overflow = started && (re - rs) + 1 + (q - p) > width;
            let flushed: Seq<Seq<char>> = if overflow {
                seq![line.subrange(rs, re)]
            } else {
                Seq::empty()
            };
            let nrs = if started && !overflow {
                rs
            } else {
                p
            };
            if q >= line.len() {
                flushed.push(line.subrange(nrs, q))
            } else {
                flushed + wrap_words(line, width, q + 1, true, nrs, q)
            }
        }
    }
}

/// The rows of one line: an empty line gives one empty row.
pub open spec fn wrap_line(line: Seq<char>, width: nat) -> Seq<Seq<char>> {
    if line.len() == 0 {
        seq![line]
    } else {
        wrap_words(line, width, 0, false, 0, 0)
    }
}

/// The rows of the lines of `text` that start at index `p` (just after a
/// `'\n'`, or at 0).
pub open spec fn wrap_lines_from(text: Seq<char>, width: nat, p: int) -> Seq<Seq<char>>
    decreases text.len() + 1 - p,
{
    if p < 0 || p > text.len() {
        Seq::empty()
    } else {
        let q = find_char(text, '\n', p);
        proof {
            lemma_find_char(text, '\n', p);
        }
        let rows = wrap_line(text.subrange(p, q), width);
        if q >= text.len() {
            rows
        } else {
            rows + wrap_lines_from(text, width, q + 1)
        }
    }
}

/// What `wrap_text(text, width)` shows: with a width of 0 the text is one
/// row; otherwise each `'\n'`-separated line is wrapped on its own.
pub open spec fn wrapped_rows(text: Seq<char>, width: nat) -> Seq<Seq<char>> {
    if width == 0 {
        seq![text]
    } else {
        wrap_lines_from(text, width, 0)
    }
}

/// Wraps one line, the characters `chars[ls..le)` of `text`, and appends its rows.
fn wrap_line_into<'a>(text: &'a str, chars: &Vec<char>, ls: usize, le: usize, width: usize, rows: &mut Vec<&'a str>)
    requires
        chars@ == text@,
        ls <= le <= chars.len(),
        width > 0,
    ensures
        rows_view(final(rows)@) == rows_view(old(rows)@) + wrap_line(text@.subrange(ls as int, le as int), width as nat),
{
    let ghost line_s = text@.subrange(ls as int, le as int);
    let ghost start = rows_view(rows@);
    if ls == le {
        let r = text.substring_char(ls, le);
        rows.push(r);
        assert(rows_view(rows@) =~= start + wrap_line(line_s, width as nat));
        return;
    }
    let line = copy_range(chars, ls, le);
    assert(line@ == line_s);
    let len = line.len();
    let mut p: usize = 0;
    let mut started = false;
    let mut rs: usize = 0;
    let mut re: usize = 0;
    let mut q = find_char_from(&line, ' ', 0);
    proof {
        lemma_find_char(line@, ' ', 0);
    }
    loop
        invariant
            line@ == line_s,
            line_s == text@.subrange(ls as int, le as int),
            start == rows_view(old(rows)@),
            len == line.len(),
            len == le - ls,
            ls <= le <= chars.len(),
            chars@ == text@,
            width > 0,
            p <= q <= len,
            q == find_char(line@, ' ', p as int),
            rs <= re <= len,
            !started ==> rs == 0 && re == 0,
            started ==> re + 1 == p,
            rows_view(rows@) + wrap_words(line_s, width as nat, p as int, started, rs as int, re as int)
                == start + wrap_line(line_s, width as nat),
        decreases len + 1 - p,
    {
        let ghost before = rows_view(rows@);
        proof {
            lemma_find_char(line@, ' ', p as int);
        }
        if q - p > width {
            let ghost flushed: Seq<Seq<char>> = if started {
                seq![line_s.subrange(rs as int, re as int)]
            } else {
                Seq::empty()
            };
            if started {
                let r = text.substring_char(ls + rs, ls + re);
                assert(r@ =~= line_s.subrange(rs as int, re as int));
                rows.push(r);
            }
            let h = text.substring_char(ls + p, ls + p + width);
            assert(h@ =~= line_s.subrange(p as int, p + width));
            rows.push(h);
            let ghost np = (p + width) as int;
            proof {
                lemma_find_char_from_inside(line@, ' ', p as int, np);
            }
            assert(rows_view(rows@) =~= before + flushed.push(line_s.subrange(p as int, np)));
            p = p + width;
            started = false;
            rs = 0;
            re = 0;
        } else {
            let overflow = started && (re - rs) + 1 + (q - p) > width;
            let ghost flushed: Seq<Seq<char>> = if overflow {
                seq![line_s.subrange(rs as int, re as int)]
            } else {
                Seq::empty()
            };
            if overflow {
                let r = text.substring_char(ls + rs, ls + re);
                assert(r@ =~= line_s.subrange(rs as int, re as int));
                rows.push(r);
            }
            let nrs = if started && !overflow {
                rs
            } else {
                p
            };
            if q >= len {
                let r = text.substring_char(ls + nrs, ls + q);
                assert(r@ =~= line_s.subrange(nrs as int, q as int));
                rows.push(r);
                assert(rows_view(rows@) =~= before + flushed.push(line_s.subrange(nrs as int, q as int)));
                return;
            }
            assert(rows_view(rows@) =~= before + flushed);
            let nre = q;
            p = q + 1;
            q = find_char_from(&line, ' ', p);
            proof {
                lemma_find_char(line@, ' ', p as int);
            }
            started = true;
            rs = nrs;
            re = nre;
        }
    }
}

/// Wraps `text` into rows of at most `width` characters each (for a nonzero
/// width), returning slices of `text`.
pub fn wrap_text<'a>(text: &'a str, width: usize) -> (rows: Vec<&'a str>)
    ensures
        rows_view(rows@) == wrapped_rows(text@, width as nat),
{
    if width == 0 {
        let mut rows: Vec<&'a str> = Vec::new();
        rows.push(text);
        assert(rows_view(rows@) =~= seq![text@]);
        return rows;
    }
    let chars = chars_of(text);
    let len = chars.len();
    let mut rows: Vec<&'a str> = Vec::new();
    let mut p: usize = 0;
    loop
        invariant
            chars@ == text@,
            len == chars.len(),
            width > 0,
            p <= len,
            rows_view(rows@) + wrap_lines_from(text@, width as nat, p as int)
                == wrapped_rows(text@, width as nat),
        decreases len + 1 - p,
    {
        let ghost before = rows_view(rows@);
        let q = find_char_from(&chars, '\n', p);
        proof {
            lemma_find_char(chars@, '\n', p as int);
        }
        wrap_line_into(text, &chars, p, q, width, &mut rows);
        if q >= len {
            return rows;
        }
        assert(rows_view(rows@) + wrap_lines_from(text@, width as nat, q + 1)
            =~= before + wrap_lines_from(text@, width as nat, p as int));
        p = q + 1;
    }
}


/// Every row of the rest of a line fits the width, given that the pending row does.
proof fn lemma_wrap_words_fit(line: Seq<char>, width: nat, p: int, started: bool, rs: int, re: int)
    requires
        width > 0,
        0 <= p <= line.len(),
        started ==> 0 <= rs <= re && re + 1 == p && re - rs <= width,
    ensures
        forall|i: int| 0 <= i < wrap_words(line, width, p, started, rs, re).len()
            ==> #[trigger] wrap_words(line, width, p, started, rs, re)[i].len() <= width,
        wrap_words(line, width, p, started, rs, re).len() >= 1,
    decreases line.len() + 1 - p,
{
    let q = find_char(line, ' ', p);
    lemma_find_char(line, ' ', p);
    let w = wrap_words(line, width, p, started, rs, re);
    if q - p > width {
        lemma_wrap_words_fit(line, width, p + width, false, 0, 0);
        let flushed: Seq<Seq<char>> = if started { seq![line.subrange(rs, re)] } else { Seq::empty() };
        let rest = wrap_words(line, width, p + width, false, 0, 0);
        assert(w == flushed.push(line.subrange(p, p + width)) + rest);
        assert forall|i: int| 0 <= i < w.len() implies #[trigger] w[i].len() <= width by {
            if i >= flushed.len() + 1 {
                assert(w[i] == rest[i - flushed.len() - 1]);
            }
        }
    } else {
        let overflow = started && (re - rs) + 1 + (q - p) > width;
        let flushed: Seq<Seq<char>> = if overflow { seq![line.subrange(rs, re)] } else { Seq::empty() };
        let nrs = if started && !overflow { rs } else { p };
        if q < line.len() {
            lemma_wrap_words_fit(line, width, q + 1, true, nrs, q);
            let rest = wrap_words(line, width, q + 1, true, nrs, q);
            assert(w == flushed + rest);
            assert forall|i: int| 0 <= i < w.len() implies #[trigger] w[i].len() <= width by {
                if i >= flushed.len() {
                    assert(w[i] == rest[i - flushed.len()]);
                }
            }
        }
    }
}

/// Every row of the lines from `p` on fits the width, and there is at least one.
proof fn lemma_wrap_lines_fit(text: Seq<char>, width: nat, p: int)
    requires
        width > 0,
        0 <= p <= text.len(),
    ensures
        forall|i: int| 0 <= i < wrap_lines_from(text, width, p).len()
            ==> #[trigger] wrap_lines_from(text, width, p)[i].len() <= width,
        wrap_lines_from(text, width, p).len() >= 1,
    decreases text.len() + 1 - p,
{
    let q = find_char(text, '\n', p);
    lemma_find_char(text, '\n', p);
    let line = text.subrange(p, q);
    let rows = wrap_line(line, width);
    if line.len() > 0 {
        lemma_wrap_words_fit(line, width, 0, false, 0, 0);
    }
    assert(forall|i: int| 0 <= i < rows.len() ==> #[trigger] rows[i].len() <= width);
    if q < text.len() {
        lemma_wrap_lines_fit(text, width, q + 1);
        let rest = wrap_lines_from(text, width, q + 1);
        let all = wrap_lines_from(text, width, p);
        assert(all == rows + rest);
        assert forall|i: int| 0 <= i < all.len() implies #[trigger] all[i].len() <= width by {
            if i >= rows.len() {
                assert(all[i] == rest[i - rows.len()]);
            }
        }
    }
}

/// With a nonzero width, every row of `wrap_text` holds at most `width`
/// characters, and there is always at least one row.
pub proof fn wrapped_rows_fit_width(text: Seq<char>, width: nat)
    requires
        width > 0,
    ensures
        forall|i: int| 0 <= i < wrapped_rows(text, width).len()
            ==> #[trigger] wrapped_rows(text, width)[i].len() <= width,
        wrapped_rows(text, width).len() >= 1,
{
    lemma_wrap_lines_fit(text, width, 0);
}

/// The rest of a line that fits the width whole stays on the pending row.
proof fn lemma_wrap_words_short(line: Seq<char>, width: nat, p: int, started: bool, rs: int, re: int)
    requires
        width > 0,
        0 <= p <= line.len(),
        line.len() <= width,
        started ==> rs == 0 && re + 1 == p,
        !started ==> p == 0,
    ensures
        wrap_words(line, width, p, started, rs, re) == seq![line],
    decreases line.len() + 1 - p,
{
    let q = find_char(line, ' ', p);
    lemma_find_char(line, ' ', p);
    if q < line.len() {
        lemma_wrap_words_short(line, width, q + 1, true, 0, q);
    } else {
        assert(line.subrange(0, q) =~= line);
    }
}

/// A text of one line that is no wider than a nonzero width comes back as
/// its only row.
pub proof fn short_line_is_one_row(text: Seq<char>, width: nat)
    requires
        width > 0,
        text.len() <= width,
        !text.contains('\n'),
    ensures
        wrapped_rows(text, width) == seq![text],
{
    let q = find_char(text, '\n', 0);
    lemma_find_char(text, '\n', 0);
    if q < text.len() {
        assert(text.contains(text[q]));
    }
    assert(text.subrange(0, q) =~= text);
    if text.len() > 0 {
        lemma_wrap_words_short(text, width, 0, false, 0, 0);
    }
}

/// No row of the rest of a line holds a line break when the line holds none.
proof fn lemma_wrap_words_no_break(line: Seq<char>, width: nat, p: int, started: bool, rs: int, re: int)
    requires
        width > 0,
        0 <= p <= line.len(),
        started ==> 0 <= rs <= re && re + 1 == p,
        free_of(line, '\n'),
    ensures
        forall|i: int| 0 <= i < wrap_words(line, width, p, started, rs, re).len()
            ==> free_of(#[trigger] wrap_words(line, width, p, started, rs, re)[i], '\n'),
    decreases line.len() + 1 - p,
{
    let q = find_char(line, ' ', p);
    lemma_find_char(line, ' ', p);
    let w = wrap_words(line, width, p, started, rs, re);
    if started {
        lemma_free_of_subrange(line, '\n', rs, re);
    }
    if q - p > width {
        lemma_wrap_words_no_break(line, width, p + width, false, 0, 0);
        lemma_free_of_subrange(line, '\n', p, p + width);
        let flushed: Seq<Seq<char>> = if started { seq![line.subrange(rs, re)] } else { Seq::empty() };
        let rest = wrap_words(line, width, p + width, false, 0, 0);
        assert(w == flushed.push(line.subrange(p, p + width)) + rest);
        assert forall|i: int| 0 <= i < w.len() implies free_of(#[trigger] w[i], '\n') by {
            if i >= flushed.len() + 1 {
                assert(w[i] == rest[i - flushed.len() - 1]);
            }
        }
    } else {
        let overflow = started && (re - rs) + 1 + (q - p) > width;
        let flushed: Seq<Seq<char>> = if overflow { seq![line.subrange(rs, re)] } else { Seq::empty() };
        let nrs = if started && !overflow { rs } else { p };
        if q < line.len() {
            lemma_wrap_words_no_break(line, width, q + 1, true, nrs, q);
            let rest = wrap_words(line, width, q + 1, true, nrs, q);
            assert(w == flushed + rest);
            assert forall|i: int| 0 <= i < w.len() implies free_of(#[trigger] w[i], '\n') by {
                if i >= flushed.len() {
                    assert(w[i] == rest[i - flushed.len()]);
                }
            }
        } else {
            lemma_free_of_subrange(line, '\n', nrs, q);
            assert(w == flushed.push(line.subrange(nrs, q)));
        }
    }
}

/// No row of the lines from `p` on holds a line break.
proof fn lemma_wrap_lines_no_break(text: Seq<char>, width: nat, p: int)
    requires
        width > 0,
        0 <= p <= text.len(),
    ensures
        forall|i: int| 0 <= i < wrap_lines_from(text, width, p).len()
            ==> free_of(#[trigger] wrap_lines_from(text, width, p)[i], '\n'),
    decreases text.len() + 1 - p,
{
    let q = find_char(text, '\n', p);
    lemma_find_char(text, '\n', p);
    let line = text.subrange(p, q);
    lemma_free_of_subrange(text, '\n', p, q);
    let rows = wrap_line(line, width);
    if line.len() > 0 {
        lemma_wrap_words_no_break(line, width, 0, false, 0, 0);
    }
    assert(forall|i: int| 0 <= i < rows.len() ==> free_of(#[trigger] rows[i], '\n'));
    if q < text.len() {
        lemma_wrap_lines_no_break(text, width, q + 1);
        let rest = wrap_lines_from(text, width, q + 1);
        let all = wrap_lines_from(text, width, p);
        assert(all == rows + rest);
        assert forall|i: int| 0 <= i < all.len() implies free_of(#[trigger] all[i], '\n') by {
            if i >= rows.len() {
                assert(all[i] == rest[i - rows.len()]);
            }
        }
    }
}

/// With a nonzero width, no row of `wrap_text` holds a line break.
pub proof fn wrapped_rows_hold_no_break(text: Seq<char>, width: nat)
    requires
        width > 0,
    ensures
        forall|i: int| 0 <= i < wrapped_rows(text, width).len()
            ==> !(#[trigger] wrapped_rows(text, width)[i]).contains('\n'),
{
    lemma_wrap_lines_no_break(text, width, 0);
    let rows = wrapped_rows(text, width);
    assert forall|i: int| 0 <= i < rows.len() implies !(#[trigger] rows[i]).contains('\n') by {
        assert(free_of(rows[i], '\n'));
    }
}

/// Wrapping a row of `wrap_text` again, at the same nonzero width, gives
/// that row back as the only row.
pub proof fn rewrapping_a_row_keeps_it(text: Seq<char>, width: nat)
    requires
        width > 0,
    ensures
        forall|i: int| 0 <= i < wrapped_rows(text, width).len()
            ==> wrapped_rows(#[trigger] wrapped_rows(text, width)[i], width) == seq![wrapped_rows(text, width)[i]],
{
    wrapped_rows_fit_width(text, width);
    wrapped_rows_hold_no_break(text, width);
    let rows = wrapped_rows(text, width);
    assert forall|i: int| 0 <= i < rows.len() implies wrapped_rows(#[trigger] rows[i], width) == seq![rows[i]] by {
        short_line_is_one_row(rows[i], width);
    }
}

/// The lines after a prefix are wrapped as they are on their own.
proof fn lemma_wrap_lines_shift(pre: Seq<char>, t: Seq<char>, width: nat, k: int)
    requires
        0 <= k <= t.len(),
    ensures
        wrap_lines_from(pre + t, width, pre.len() + k) == wrap_lines_from(t, width, k),
    decreases t.len() - k,
{
    let q = find_char(t, '\n', k);
    lemma_find_char(t, '\n', k);
    lemma_find_char_shift(pre, t, '\n', k);
    assert((pre + t).subrange(pre.len() + k, pre.len() + q) =~= t.subrange(k, q));
    if q < t.len() {
        lemma_wrap_lines_shift(pre, t, width, q + 1);
    }
}

/// Wrapping `a`, a line break and `b` from a line start `p` inside `a`
/// gives the rows of `a` from `p`, then the rows of `b`.
proof fn lemma_wrap_lines_concat(a: Seq<char>, b: Seq<char>, width: nat, p: int)
    requires
        0 <= p <= a.len(),
    ensures
        wrap_lines_from(a + seq!['\n'] + b, width, p) == wrap_lines_from(a, width, p) + wrap_lines_from(b, width, 0),
    decreases a.len() - p,
{
    let t = a + seq!['\n'] + b;
    let rest = seq!['\n'] + b;
    assert(t =~= a + rest);
    lemma_find_char(a, '\n', p);
    lemma_find_char_prefix(a, rest, '\n', p);
    let q = find_char(a, '\n', p);
    assert(rest[0] == '\n');
    assert(find_char(rest, '\n', 0) == 0);
    assert(t.subrange(p, q) =~= a.subrange(p, q));
    let rows = wrap_line(a.subrange(p, q), width);
    if q < a.len() {
        lemma_wrap_lines_concat(a, b, width, q + 1);
        assert(wrap_lines_from(t, width, p) == rows + wrap_lines_from(t, width, q + 1));
        assert(wrap_lines_from(a, width, p) == rows + wrap_lines_from(a, width, q + 1));
        assert(rows + (wrap_lines_from(a, width, q + 1) + wrap_lines_from(b, width, 0)) =~= (rows + wrap_lines_from(
            a,
            width,
            q + 1,
        )) + wrap_lines_from(b, width, 0));
    } else {
        let pre = a + seq!['\n'];
        assert(t =~= pre + b);
        lemma_wrap_lines_shift(pre, b, width, 0);
        assert(wrap_lines_from(t, width, p) == rows + wrap_lines_from(t, width, a.len() + 1 as int));
    }
}

/// Each line of a text is wrapped on its own: wrapping `a`, a line break
/// and `b` gives the rows of `a` followed by the rows of `b`.
pub proof fn wrapped_rows_of_lines(a: Seq<char>, b: Seq<char>, width: nat)
    requires
        width > 0,
    ensures
        wrapped_rows(a + seq!['\n'] + b, width) == wrapped_rows(a, width) + wrapped_rows(b, width),
{
    lemma_wrap_lines_concat(a, b, width, 0);
}

} // verus!
