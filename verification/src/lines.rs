//! Cutting text into lines, fields and words.
use vstd::prelude::*;
use vstd::slice::slice_subrange;

use crate::text::{
    chars_of, is_white_space, joined, joining_splits, string_of, texts, trim_start_chars,
    trimmed_start, white_space,
};

verus! {

/// The position of the first `c` in `s`, or the length of `s`.
pub open spec fn until(s: Seq<char>, c: char) -> int
    decreases s.len(),
{
    if s.len() == 0 || s.first() == c {
        0
    } else {
        1 + until(s.drop_first(), c)
    }
}

/// `until` stays within the text and stops at the first `c`.
pub proof fn until_is_first(s: Seq<char>, c: char)
    ensures
        0 <= until(s, c) <= s.len(),
        forall|j: int| 0 <= j < until(s, c) ==> s[j] != c,
        until(s, c) < s.len() ==> s[until(s, c)] == c,
    decreases s.len(),
{
    if s.len() == 0 || s.first() == c {
    } else {
        let t = s.drop_first();
        until_is_first(t, c);
        assert forall|j: int| 0 <= j < until(s, c) implies s[j] != c by {
            if j > 0 {
                assert(t[j - 1] == s[j]);
            }
        }
    }
}

/// The position of the first `c` in `v`, or the length of `v`.
pub fn scan_to(v: &[char], c: char) -> (n: usize)
    ensures
        n == until(v@, c),
        n <= v@.len(),
        n < v@.len() ==> v@[n as int] == c,
{
    let mut i: usize = 0;
    assert(v@.skip(0) == v@);
    while i < v.len() && v[i] != c
        invariant
            i <= v@.len(),
            until(v@, c) == i + until(v@.skip(i as int), c),
        decreases v@.len() - i,
    {
        assert(v@.skip(i as int).drop_first() == v@.skip(i as int + 1));
        i += 1;
    }
    i
}

/// A line as its reader sees it: one trailing carriage return, left by a
/// `\r\n` ending, is not part of it.
pub open spec fn without_cr(s: Seq<char>) -> Seq<char> {
    if s.len() > 0 && s.last() == '\r' {
        s.drop_last()
    } else {
        s
    }
}

/// The lines of `s`. A line ends at `\n` or `\r\n`; the last one may also end
/// with the text, and a final line ending opens no further line.
pub open spec fn lines_of(s: Seq<char>) -> Seq<Seq<char>>
    decreases s.len(),
    via lines_of_shrinks
{
    if s.len() == 0 {
        Seq::empty()
    } else {
        let n = until(s, '\n');
        if n >= s.len() {
            seq![s]
        } else {
            seq![without_cr(s.take(n))] + lines_of(s.skip(n + 1))
        }
    }
}

#[via_fn]
proof fn lines_of_shrinks(s: Seq<char>) {
    until_is_first(s, '\n');
}

/// The lines of `s`.
pub fn lines(s: &str) -> (out: Vec<String>)
    ensures
        texts(out@) == lines_of(s@),
{
    let v = chars_of(s);
    let mut rest = v.as_slice();
    let mut out: Vec<String> = Vec::new();
    assert(texts(out@) == Seq::<Seq<char>>::empty());
    while rest.len() > 0
        invariant
            texts(out@) + lines_of(rest@) == lines_of(s@),
        decreases rest@.len(),
    {
        let ghost before = rest@;
        let ghost done = out@;
        let len = rest.len();
        let n = scan_to(rest, '\n');
        if n == len {
            out.push(string_of(rest));
            rest = slice_subrange(rest, len, len);
            proof {
                assert(texts(out@) == texts(done) + seq![before]);
                assert(rest@.len() == 0);
                assert(texts(out@) + lines_of(rest@) == texts(done) + lines_of(before));
            }
        } else {
            let body = if n > 0 && rest[n - 1] == '\r' {
                slice_subrange(rest, 0, n - 1)
            } else {
                slice_subrange(rest, 0, n)
            };
            assert(body@ == without_cr(before.take(n as int)));
            out.push(string_of(body));
            rest = slice_subrange(rest, n + 1, len);
            proof {
                assert(rest@ == before.skip(n + 1));
                assert(texts(out@) == texts(done) + seq![body@]);
                assert(texts(out@) + lines_of(rest@) == texts(done) + lines_of(before));
            }
        }
    }
    assert(texts(out@) + lines_of(rest@) == texts(out@));
    out
}

/// The fields of `s` between occurrences of `c`; there is always at least one.
pub open spec fn fields_of(s: Seq<char>, c: char) -> Seq<Seq<char>>
    decreases s.len(),
    via fields_of_shrinks
{
    let n = until(s, c);
    if n >= s.len() {
        seq![s]
    } else {
        seq![s.take(n)] + fields_of(s.skip(n + 1), c)
    }
}

#[via_fn]
proof fn fields_of_shrinks(s: Seq<char>, c: char) {
    until_is_first(s, c);
}

/// The fields of `s` between occurrences of `c`.
pub fn split(s: &str, c: char) -> (out: Vec<String>)
    ensures
        texts(out@) == fields_of(s@, c),
{
    let v = chars_of(s);
    let mut rest = v.as_slice();
    let mut out: Vec<String> = Vec::new();
    assert(texts(out@) == Seq::<Seq<char>>::empty());
    assert(texts(out@) + fields_of(s@, c) == fields_of(s@, c));
    loop
        invariant
            texts(out@) + fields_of(rest@, c) == fields_of(s@, c),
        decreases rest@.len(),
    {
        let ghost before = rest@;
        let ghost done = out@;
        let len = rest.len();
        let n = scan_to(rest, c);
        if n == len {
            out.push(string_of(rest));
            assert(texts(out@) == texts(done) + fields_of(before, c));
            return out;
        }
        let head = slice_subrange(rest, 0, n);
        assert(head@ == before.take(n as int));
        out.push(string_of(head));
        rest = slice_subrange(rest, n + 1, len);
        proof {
            assert(rest@ == before.skip(n + 1));
            assert(texts(out@) == texts(done) + seq![head@]);
            assert(texts(out@) + fields_of(rest@, c) == texts(done) + fields_of(before, c));
        }
    }
}

/// What stands before and after the first `c` of `s`.
pub fn split_once(s: &str, c: char) -> (r: Option<(String, String)>)
    ensures
        r is Some == (until(s@, c) < s@.len()),
        r matches Some(p) ==> p.0@ == s@.take(until(s@, c)) && p.1@ == s@.skip(until(s@, c) + 1),
{
    let v = chars_of(s);
    let n = scan_to(v.as_slice(), c);
    if n == v.len() {
        return None;
    }
    let head = slice_subrange(v.as_slice(), 0, n);
    let tail = slice_subrange(v.as_slice(), n + 1, v.len());
    assert(head@ == s@.take(n as int));
    assert(tail@ == s@.skip(n + 1));
    Some((string_of(head), string_of(tail)))
}

/// The length of the run of non-white-space characters that `s` begins with.
pub open spec fn word_len(s: Seq<char>) -> int
    decreases s.len(),
{
    if s.len() == 0 || is_white_space(s.first()) {
        0
    } else {
        1 + word_len(s.drop_first())
    }
}

/// The first word of `s`, if it has one.
pub open spec fn first_word(s: Seq<char>) -> Option<Seq<char>> {
    let t = trimmed_start(s);
    if t.len() == 0 {
        None
    } else {
        Some(t.take(word_len(t)))
    }
}

/// The first word of `v`, if it has one.
pub fn leading_word(v: &[char]) -> (r: Option<&[char]>)
    ensures
        r is Some == first_word(v@) is Some,
        r matches Some(w) ==> first_word(v@) == Some(w@),
{
    let t = trim_start_chars(v);
    if t.len() == 0 {
        return None;
    }
    let mut i: usize = 0;
    assert(t@.skip(0) == t@);
    while i < t.len() && !white_space(t[i])
        invariant
            i <= t@.len(),
            word_len(t@) == i + word_len(t@.skip(i as int)),
        decreases t@.len() - i,
    {
        assert(t@.skip(i as int).drop_first() == t@.skip(i as int + 1));
        i += 1;
    }
    let w = slice_subrange(t, 0, i);
    assert(w@ == t@.take(i as int));
    Some(w)
}

/// The fields of a text hold no separator, and put together with it they are
/// the text again.
pub proof fn fields_make_up_the_text(s: Seq<char>, c: char)
    ensures
        fields_of(s, c).len() > 0,
        joined(fields_of(s, c), seq![c]) == s,
        forall|k: int| 0 <= k < fields_of(s, c).len() ==> !(#[trigger] fields_of(s, c)[k]).contains(c),
    decreases s.len(),
{
    let n = until(s, c);
    until_is_first(s, c);
    if n >= s.len() {
        joining_splits(seq![s], seq![s], s, seq![c]);
    } else {
        let head = s.take(n);
        let rest = s.skip(n + 1);
        fields_make_up_the_text(rest, c);
        joining_splits(seq![head], fields_of(rest, c), head, seq![c]);
        assert(head + seq![c] + rest == s);
        let all = fields_of(s, c);
        assert forall|k: int| 0 <= k < all.len() implies !(#[trigger] all[k]).contains(c) by {
            if k > 0 {
                assert(all[k] == fields_of(rest, c)[k - 1]);
            }
        }
    }
}

/// A line feed ends a line: what is before it is one line, without a carriage
/// return at its end, and the lines behind it follow. Text without a line
/// feed is one line, and no text is none.
pub proof fn lines_end_at_line_feeds(line: Seq<char>, rest: Seq<char>)
    requires
        !line.contains('\n'),
    ensures
        line.len() > 0 ==> lines_of(line) == seq![line],
        line.len() == 0 ==> lines_of(line) == Seq::<Seq<char>>::empty(),
        (line.len() == 0 || line.last() != '\r') ==> lines_of(line.push('\n') + rest) == seq![line]
            + lines_of(rest),
        lines_of(line.push('\r').push('\n') + rest) == seq![line] + lines_of(rest),
{
    until_is_first(line, '\n');
    if until(line, '\n') < line.len() {
        assert(line.contains(line[until(line, '\n')]));
    }
    line_is_cut(line, rest);
    let long = line.push('\r');
    assert forall|j: int| 0 <= j < long.len() implies long[j] != '\n' by {
        if j < line.len() {
            assert(line.contains(line[j]));
        }
    }
    line_is_cut(long, rest);
    assert(long.drop_last() == line);
}

proof fn line_is_cut(line: Seq<char>, rest: Seq<char>)
    requires
        !line.contains('\n'),
    ensures
        lines_of(line.push('\n') + rest) == seq![without_cr(line)] + lines_of(rest),
{
    let s = line.push('\n') + rest;
    until_is_first(s, '\n');
    let n = line.len() as int;
    assert(s[n] == '\n');
    if until(s, '\n') < n {
        assert(line.contains(line[until(s, '\n')]));
    }
    assert(until(s, '\n') == n);
    assert(s.take(n) == line);
    assert(s.skip(n + 1) == rest);
}

/// No line holds a line feed.
pub proof fn lines_hold_no_line_feed(s: Seq<char>)
    ensures
        forall|k: int| 0 <= k < lines_of(s).len() ==> !(#[trigger] lines_of(s)[k]).contains('\n'),
    decreases s.len(),
{
    until_is_first(s, '\n');
    let n = until(s, '\n');
    if s.len() > 0 && n < s.len() {
        let rest = s.skip(n + 1);
        lines_hold_no_line_feed(rest);
        let all = lines_of(s);
        assert forall|k: int| 0 <= k < all.len() implies !(#[trigger] all[k]).contains('\n') by {
            if k > 0 {
                assert(all[k] == lines_of(rest)[k - 1]);
            } else {
                assert(all[0] == without_cr(s.take(n)));
            }
        }
    }
}

/// The first word is the first run of characters that are not white space:
/// only white space stands before it, and white space or nothing behind it.
pub proof fn first_word_is_a_run(before: Seq<char>, word: Seq<char>, after: Seq<char>)
    requires
        forall|i: int| 0 <= i < before.len() ==> is_white_space(#[trigger] before[i]),
        forall|i: int| 0 <= i < word.len() ==> !is_white_space(#[trigger] word[i]),
        after.len() > 0 ==> is_white_space(after.first()),
        word.len() > 0,
    ensures
        first_word(before) is None,
        first_word(before + word + after) == Some(word),
    decreases before.len(),
{
    let s = before + word + after;
    if before.len() > 0 {
        let b = before.drop_first();
        first_word_is_a_run(b, word, after);
        assert(s.drop_first() == b + word + after);
    } else {
        assert(s == word + after);
        assert(s.first() == word[0]);
        word_len_is(word, after);
        assert(s.take(word.len() as int) == word);
    }
}

proof fn word_len_is(word: Seq<char>, after: Seq<char>)
    requires
        forall|i: int| 0 <= i < word.len() ==> !is_white_space(#[trigger] word[i]),
        after.len() > 0 ==> is_white_space(after.first()),
    ensures
        word_len(word + after) == word.len(),
    decreases word.len(),
{
    let s = word + after;
    if word.len() > 0 {
        word_len_is(word.drop_first(), after);
        assert(s.drop_first() == word.drop_first() + after);
    } else {
        assert(s == after);
    }
}

/// Two texts with the separator between them have the fields of the one and
/// then those of the other.
pub proof fn fields_split(a: Seq<char>, b: Seq<char>, c: char)
    ensures
        fields_of(a.push(c) + b, c) == fields_of(a, c) + fields_of(b, c),
    decreases a.len(),
{
    let s = a.push(c) + b;
    let n = until(a, c);
    until_is_first(a, c);
    until_is_first(s, c);
    assert(s[a.len() as int] == c);
    assert(until(s, c) == n) by {
        if n < a.len() {
            assert(s[n] == a[n]);
        }
        if until(s, c) < n {
            assert(s[until(s, c)] == a[until(s, c)]);
        }
        if until(s, c) > n {
            assert(s[n] != c);
        }
    }
    if n < a.len() {
        assert(s.take(n) == a.take(n));
        assert(s.skip(n + 1) == a.skip(n + 1).push(c) + b);
        fields_split(a.skip(n + 1), b, c);
        assert(seq![a.take(n)] + (fields_of(a.skip(n + 1), c) + fields_of(b, c)) == fields_of(a, c)
            + fields_of(b, c));
    } else {
        assert(s.take(n) == a);
        assert(s.skip(n + 1) == b);
    }
}

} // verus!
