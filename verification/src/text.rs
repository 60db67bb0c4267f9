//! Character-level helpers shared by the wrapping code: scanning for a
//! separator, copying characters out of a string, and joining lines.
use vstd::prelude::*;

verus! {

/// The first index at or after `p` that holds `c`, or the length of `s`
/// when no later character is `c`.
pub open spec fn find_char(s: Seq<char>, c: char, p: int) -> int
    decreases s.len() - p,
{
    if p >= s.len() {
        s.len() as int
    } else if s[p] == c {
        p
    } else {
        find_char(s, c, p + 1)
    }
}

/// `find_char` lands between `p` and the end, and skips only characters other than `c`.
pub proof fn lemma_find_char(s: Seq<char>, c: char, p: int)
    requires
        0 <= p <= s.len(),
    ensures
        p <= find_char(s, c, p) <= s.len(),
        find_char(s, c, p) < s.len() ==> s[find_char(s, c, p)] == c,
        forall|k: int| p <= k < find_char(s, c, p) ==> s[k] != c,
    decreases s.len() - p,
{
    if p < s.len() && s[p] != c {
        lemma_find_char(s, c, p + 1);
    }
}

/// Starting the search at any index up to the result gives the same result.
pub proof fn lemma_find_char_from_inside(s: Seq<char>, c: char, p: int, k: int)
    requires
        0 <= p <= k <= find_char(s, c, p),
    ensures
        find_char(s, c, k) == find_char(s, c, p),
    decreases k - p,
{
    lemma_find_char(s, c, p);
    if p < k {
        assert(s[p] != c);
        lemma_find_char_from_inside(s, c, p + 1, k);
    }
}

/// Searching a text after a prefix is searching the text, shifted by the
/// prefix's length.
pub proof fn lemma_find_char_shift(pre: Seq<char>, t: Seq<char>, c: char, k: int)
    requires
        0 <= k <= t.len(),
    ensures
        find_char(pre + t, c, pre.len() + k) == pre.len() + find_char(t, c, k),
    decreases t.len() - k,
{
    if k < t.len() {
        assert((pre + t)[pre.len() + k] == t[k]);
        if t[k] != c {
            lemma_find_char_shift(pre, t, c, k + 1);
        }
    }
}

/// Searching `a + rest` from inside `a` finds what searching `a` finds, or,
/// when `a` has no more `c`, the first `c` of `rest`.
pub proof fn lemma_find_char_prefix(a: Seq<char>, rest: Seq<char>, c: char, p: int)
    requires
        0 <= p <= a.len(),
    ensures
        find_char(a + rest, c, p) == if find_char(a, c, p) < a.len() {
            find_char(a, c, p)
        } else {
            a.len() + find_char(rest, c, 0)
        },
    decreases a.len() - p,
{
    if p == a.len() {
        lemma_find_char_shift(a, rest, c, 0);
    } else {
        assert((a + rest)[p] == a[p]);
        if a[p] != c {
            lemma_find_char_prefix(a, rest, c, p + 1);
        }
    }
}

/// No character of `s` is `c`.
pub open spec fn free_of(s: Seq<char>, c: char) -> bool {
    forall|k: int| 0 <= k < s.len() ==> s[k] != c
}

/// A stretch of a text that holds no `c` is free of `c`.
pub proof fn lemma_free_of_subrange(s: Seq<char>, c: char, a: int, b: int)
    requires
        0 <= a <= b <= s.len(),
        forall|k: int| a <= k < b ==> s[k] != c,
    ensures
        free_of(s.subrange(a, b), c),
{
    assert forall|k: int| 0 <= k < b - a implies s.subrange(a, b)[k] != c by {
        assert(s.subrange(a, b)[k] == s[a + k]);
    }
}

/// Exec counterpart of `find_char`.
pub fn find_char_from(s: &Vec<char>, c: char, p: usize) -> (q: usize)
    requires
        p <= s.len(),
    ensures
        q == find_char(s@, c, p as int),
{
    let mut i = p;
    while i < s.len()
        invariant
            p <= i <= s.len(),
            find_char(s@, c, p as int) == find_char(s@, c, i as int),
        decreases s.len() - i,
    {
        if s[i] == c {
            return i;
        }
        i += 1;
    }
    i
}

/// Calls `<char as ToString>::to_string`: the `Display` of a `char` writes
/// that one character.
#[verifier::external_body]
pub(crate) fn char_string(c: char) -> (r: String)
    ensures
        r@ == seq![c],
{
    c.to_string()
}

/// Collects the characters of `s` into a vector.
pub fn chars_of(s: &str) -> (r: Vec<char>)
    ensures
        r@ == s@,
{
    broadcast use vstd::string::group_string_axioms;

    let mut v: Vec<char> = Vec::new();
    for c in it: s.chars()
        invariant
            v@ == it.seq().take(it.index() as int),
            it.seq() == s@,
    {
        v.push(c);
    }
    v
}

/// Copies the characters `v[from..to]` into a new vector.
pub fn copy_range(v: &Vec<char>, from: usize, to: usize) -> (r: Vec<char>)
    requires
        from <= to <= v.len(),
    ensures
        r@ == v@.subrange(from as int, to as int),
{
    let mut r: Vec<char> = Vec::new();
    let mut i = from;
    while i < to
        invariant
            from <= i <= to <= v.len(),
            r@ == v@.subrange(from as int, i as int),
        decreases to - i,
    {
        r.push(v[i]);
        i += 1;
        assert(r@ =~= v@.subrange(from as int, i as int));
    }
    r
}

/// The characters of owned strings.
pub open spec fn strings_view(rows: Seq<String>) -> Seq<Seq<char>> {
    rows.map_values(|r: String| r@)
}

/// The rows that `textwrap::wrap` makes of `text` at `width`.
pub uninterp spec fn textwrap_rows(text: Seq<char>, width: usize) -> Seq<Seq<char>>;

/// Calls `textwrap::wrap(text, width)` (textwrap's default options for that
/// width) and turns each row into a `String`.  The rows are named by
/// `textwrap_rows`: they depend on the text and the width alone.
#[verifier::external_body]
pub(crate) fn textwrap_lines(text: &str, width: usize) -> (r: Vec<String>)
    ensures
        strings_view(r@) == textwrap_rows(text@, width),
{
    textwrap::wrap(text, width).into_iter().map(|row| row.into_owned()).collect()
}

/// The lines `lines` joined with `sep` between each two.
pub open spec fn joined(lines: Seq<Seq<char>>, sep: char) -> Seq<char>
    decreases lines.len(),
{
    if lines.len() == 0 {
        Seq::empty()
    } else if lines.len() == 1 {
        lines[0]
    } else {
        joined(lines.drop_last(), sep).push(sep) + lines.last()
    }
}

/// Joins `lines` with `'\n'` between each two.
pub fn join_lines(lines: &[String]) -> (r: String)
    ensures
        r@ == joined(strings_view(lines@), '\n'),
{
    let mut r = String::new();
    let n = lines.len();
    let ghost all = strings_view(lines@);
    proof {
        reveal_strlit("\n");
    }
    let mut i: usize = 0;
    while i < n
        invariant
            n == lines@.len(),
            all == strings_view(lines@),
            i <= n,
            "\n"@ == seq!['\n'],
            r@ == joined(all.take(i as int), '\n'),
        decreases n - i,
    {
        assert(all.take(i + 1).drop_last() =~= all.take(i as int));
        if i > 0 {
            let ghost before = r@;
            r.append("\n");
            r.append(lines[i].as_str());
            assert(r@ =~= before.push('\n') + all[i as int]);
        } else {
            r.append(lines[i].as_str());
            assert(r@ =~= all.take(1)[0]);
        }
        i += 1;
    }
    assert(all.take(n as int) =~= all);
    r
}

/// The decimal digit for `d`.
pub open spec fn digit_char(d: nat) -> char {
    if d == 0 { '0' } else if d == 1 { '1' } else if d == 2 { '2' } else if d == 3 { '3' } else if d == 4 {
        '4'
    } else if d == 5 { '5' } else if d == 6 { '6' } else if d == 7 { '7' } else if d == 8 { '8' } else {
        '9'
    }
}

/// The decimal notation of `n`, as `Display` writes an unsigned integer.
pub open spec fn decimal(n: nat) -> Seq<char>
    decreases n,
{
    if n < 10 {
        seq![digit_char(n)]
    } else {
        decimal(n / 10).push(digit_char(n % 10))
    }
}

fn digit(d: usize) -> (r: char)
    requires
        d < 10,
    ensures
        r == digit_char(d as nat),
{
    if d == 0 { '0' } else if d == 1 { '1' } else if d == 2 { '2' } else if d == 3 { '3' } else if d == 4 {
        '4'
    } else if d == 5 { '5' } else if d == 6 { '6' } else if d == 7 { '7' } else if d == 8 { '8' } else {
        '9'
    }
}

/// Appends the decimal notation of `n` to `s`.
pub fn push_decimal(s: &mut String, n: usize)
    ensures
        final(s)@ == old(s)@ + decimal(n as nat),
    decreases n,
{
    if n >= 10 {
        push_decimal(s, n / 10);
    }
    let d = char_string(digit(n % 10));
    s.append(d.as_str());
}

/// Whether `c` is white space in Unicode's sense (the `White_Space`
/// property), which is what `char::is_whitespace` and `str::split_whitespace` use.
pub open spec fn is_white(c: char) -> bool {
    ('\u{9}' <= c <= '\u{d}') || c == ' ' || c == '\u{85}' || c == '\u{a0}' || c == '\u{1680}'
        || ('\u{2000}' <= c <= '\u{200a}') || c == '\u{2028}' || c == '\u{2029}' || c == '\u{202f}'
        || c == '\u{205f}' || c == '\u{3000}'
}

fn white(c: char) -> (r: bool)
    ensures
        r == is_white(c),
{
    ('\u{9}' <= c && c <= '\u{d}') || c == ' ' || c == '\u{85}' || c == '\u{a0}' || c == '\u{1680}'
        || ('\u{2000}' <= c && c <= '\u{200a}') || c == '\u{2028}' || c == '\u{2029}' || c == '\u{202f}'
        || c == '\u{205f}' || c == '\u{3000}'
}

/// The number of words of `s`: maximal runs of characters that are not white space.
pub open spec fn word_count(s: Seq<char>) -> nat
    decreases s.len(),
{
    if s.len() == 0 {
        0
    } else {
        let starts = !is_white(s.last()) && (s.len() == 1 || is_white(s[s.len() - 2]));
        word_count(s.drop_last()) + if starts { 1nat } else { 0 }
    }
}

/// Counts the words of `s`, as `s.split_whitespace().count()` does.
pub fn count_words(s: &str) -> (r: usize)
    ensures
        r == word_count(s@),
{
    let chars = chars_of(s);
    let n = chars.len();
    let mut count: usize = 0;
    let mut i: usize = 0;
    while i < n
        invariant
            chars@ == s@,
            n == chars@.len(),
            i <= n,
            count == word_count(chars@.take(i as int)),
            count <= i,
        decreases n - i,
    {
        assert(chars@.take(i + 1).drop_last() =~= chars@.take(i as int));
        let starts = !white(chars[i]) && (i == 0 || white(chars[i - 1]));
        if starts {
            count += 1;
        }
        i += 1;
    }
    assert(chars@.take(n as int) =~= chars@);
    count
}

/// `a + b`, saturated at `usize::MAX`.
pub open spec fn sat_add(a: int, b: int) -> int {
    if a + b > usize::MAX {
        usize::MAX as int
    } else {
        a + b
    }
}

/// `a - b`, saturated at 0.
pub open spec fn sat_sub(a: int, b: int) -> int {
    if a >= b {
        a - b
    } else {
        0
    }
}

/// The pieces of `text` from index `p` on, split at each `'\n'`.
pub open spec fn split_from(text: Seq<char>, p: int) -> Seq<Seq<char>>
    decreases text.len() + 1 - p,
{
    if p < 0 || p > text.len() {
        Seq::empty()
    } else {
        let q = find_char(text, '\n', p);
        proof {
            lemma_find_char(text, '\n', p);
        }
        if q >= text.len() {
            seq![text.subrange(p, q)]
        } else {
            seq![text.subrange(p, q)] + split_from(text, q + 1)
        }
    }
}

/// The lines of `text`, split at each `'\n'` (as `str::split('\n')` does).
pub open spec fn split_lines(text: Seq<char>) -> Seq<Seq<char>> {
    split_from(text, 0)
}

/// The lines an edit box starts with: one empty line for an empty text,
/// otherwise the text split at each `'\n'`.
pub open spec fn split_content(content: Seq<char>) -> Seq<Seq<char>> {
    if content.len() == 0 {
        seq![Seq::empty()]
    } else {
        split_lines(content)
    }
}

/// Splits `content` into lines (see `split_content`).
pub fn content_lines(content: &str) -> (r: Vec<String>)
    ensures
        strings_view(r@) == split_content(content@),
{
    let mut r: Vec<String> = Vec::new();
    if content.is_empty() {
        r.push(String::new());
        assert(strings_view(r@) =~= seq![Seq::<char>::empty()]);
        return r;
    }
    let chars = chars_of(content);
    let n = chars.len();
    let mut p: usize = 0;
    loop
        invariant
            chars@ == content@,
            n == chars@.len(),
            p <= n,
            content@.len() > 0,
            strings_view(r@) + split_from(content@, p as int) == split_content(content@),
        decreases n + 1 - p,
    {
        let ghost before = strings_view(r@);
        let q = find_char_from(&chars, '\n', p);
        proof {
            lemma_find_char(chars@, '\n', p as int);
        }
        let piece = content.substring_char(p, q);
        r.push(piece.to_owned());
        if q >= n {
            assert(strings_view(r@) =~= before + split_from(content@, p as int));
            return r;
        }
        assert(strings_view(r@) + split_from(content@, q + 1) =~= before + split_from(content@, p as int));
        p = q + 1;
    }
}

/// Joining the pieces of `text[p..]` with `'\n'` gives back `text[p..]`.
proof fn lemma_join_split_from(text: Seq<char>, p: int)
    requires
        0 <= p <= text.len(),
    ensures
        joined(split_from(text, p), '\n') == text.subrange(p, text.len() as int),
    decreases text.len() + 1 - p,
{
    let q = find_char(text, '\n', p);
    lemma_find_char(text, '\n', p);
    if q < text.len() {
        lemma_join_split_from(text, q + 1);
        let rest = split_from(text, q + 1);
        let all = split_from(text, p);
        assert(all == seq![text.subrange(p, q)] + rest);
        lemma_joined_prepend(text.subrange(p, q), rest, '\n');
        assert(text.subrange(p, text.len() as int) =~= text.subrange(p, q).push('\n') + text.subrange(q + 1, text.len() as int));
    } else {
        assert(joined(seq![text.subrange(p, q)], '\n') == text.subrange(p, q));
    }
}

/// Joining a line in front of other lines puts the separator between them.
proof fn lemma_joined_prepend(first: Seq<char>, rest: Seq<Seq<char>>, sep: char)
    requires
        rest.len() > 0,
    ensures
        joined(seq![first] + rest, sep) == first.push(sep) + joined(rest, sep),
    decreases rest.len(),
{
    let all = seq![first] + rest;
    if rest.len() == 1 {
        assert(all.drop_last() =~= seq![first]);
        assert(all.last() == rest[0]);
        assert(joined(seq![first], sep) == first);
        assert(joined(all, sep) == joined(all.drop_last(), sep).push(sep) + all.last());
        assert(joined(rest, sep) == rest[0]);
        assert(first.push(sep) + rest[0] =~= first.push(sep) + joined(rest, sep));
    } else {
        lemma_joined_prepend(first, rest.drop_last(), sep);
        assert(all.drop_last() =~= seq![first] + rest.drop_last());
        assert(all.last() == rest.last());
        let a = first.push(sep);
        let b = joined(rest.drop_last(), sep);
        assert(joined(all, sep) == (a + b).push(sep) + rest.last());
        assert(joined(rest, sep) == b.push(sep) + rest.last());
        assert((a + b).push(sep) + rest.last() =~= a + (b.push(sep) + rest.last()));
    }
}

/// Splitting a text into lines and joining them again gives back the text.
pub proof fn join_undoes_split(text: Seq<char>)
    ensures
        joined(split_lines(text), '\n') == text,
        joined(split_content(text), '\n') == text,
{
    lemma_join_split_from(text, 0);
    assert(text.subrange(0, text.len() as int) =~= text);
    if text.len() == 0 {
        assert(joined(seq![Seq::<char>::empty()], '\n') == Seq::<char>::empty());
        assert(text =~= Seq::<char>::empty());
    }
}

} // verus!
