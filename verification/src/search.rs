//! Searching and rewriting text: first occurrence, disjoint occurrences,
//! replacement.
use vstd::prelude::*;
use vstd::slice::slice_subrange;

use crate::text::{chars_of, starts_with};

verus! {

/// Whether `pat` stands in `s` at position `i`.
pub open spec fn occurs_at(s: Seq<char>, pat: Seq<char>, i: int) -> bool {
    0 <= i && i + pat.len() <= s.len() && s.subrange(i, i + pat.len()) == pat
}

/// Whether `pat` stands anywhere in `s`.
pub open spec fn contains(s: Seq<char>, pat: Seq<char>) -> bool {
    exists|i: int| occurs_at(s, pat, i)
}

/// The first position of `pat` in `s` that is not before `from`.
pub open spec fn index_from(s: Seq<char>, pat: Seq<char>, from: int) -> Option<int>
    decreases s.len() + 1 - from,
{
    if from < 0 || from + pat.len() > s.len() {
        None
    } else if occurs_at(s, pat, from) {
        Some(from)
    } else {
        index_from(s, pat, from + 1)
    }
}

/// The first position of `pat` in `s`.
pub open spec fn index_of(s: Seq<char>, pat: Seq<char>) -> Option<int> {
    index_from(s, pat, 0)
}

/// `index_from` finds the least position, and finds one wherever there is one.
pub proof fn index_from_is_first(s: Seq<char>, pat: Seq<char>, from: int)
    requires
        from >= 0,
    ensures
        index_from(s, pat, from) matches Some(i) ==> from <= i && occurs_at(s, pat, i) && forall|
            j: int,
        |
            from <= j < i ==> !occurs_at(s, pat, j),
        index_from(s, pat, from) is None ==> forall|j: int| from <= j ==> !occurs_at(s, pat, j),
    decreases s.len() + 1 - from,
{
    if from + pat.len() > s.len() {
    } else if occurs_at(s, pat, from) {
    } else {
        index_from_is_first(s, pat, from + 1);
    }
}

/// A position at which `pat` occurs, and before which it does not, is the first.
pub proof fn index_of_unique(s: Seq<char>, pat: Seq<char>, i: int)
    requires
        occurs_at(s, pat, i),
        forall|j: int| 0 <= j < i ==> !occurs_at(s, pat, j),
    ensures
        index_of(s, pat) == Some(i),
{
    index_from_is_first(s, pat, 0);
}

/// `index_of` answers `None` exactly when the pattern is absent.
pub proof fn index_of_none_iff_absent(s: Seq<char>, pat: Seq<char>)
    ensures
        index_of(s, pat) is None <==> !contains(s, pat),
{
    index_from_is_first(s, pat, 0);
}

/// What a part of a text holds, the text holds.
pub proof fn part_holds_no_more(s: Seq<char>, a: int, b: int, pat: Seq<char>)
    requires
        0 <= a <= b <= s.len(),
        contains(s.subrange(a, b), pat),
    ensures
        contains(s, pat),
{
    let part = s.subrange(a, b);
    let i = choose|i: int| occurs_at(part, pat, i);
    assert(part.subrange(i, i + pat.len()) == s.subrange(a + i, a + i + pat.len()));
    assert(occurs_at(s, pat, a + i));
}

/// The first position of `pat` in `s` that is not before `from`.
pub fn find_from(s: &[char], pat: &[char], from: usize) -> (r: Option<usize>)
    ensures
        r matches Some(i) ==> index_from(s@, pat@, from as int) == Some(i as int),
        r is None ==> index_from(s@, pat@, from as int) is None,
{
    let mut i: usize = from;
    while i <= s.len() && pat.len() <= s.len() - i
        invariant
            i >= from,
            index_from(s@, pat@, from as int) == index_from(s@, pat@, i as int),
        decreases s@.len() - i,
    {
        let tail = slice_subrange(s, i, s.len());
        proof {
            assert(tail@.take(pat@.len() as int) == s@.subrange(i as int, i + pat@.len()));
        }
        if starts_with(tail, pat) {
            return Some(i);
        }
        if i == s.len() {
            proof {
                assert(index_from(s@, pat@, i as int + 1) is None);
            }
            return None;
        }
        i += 1;
    }
    None
}

/// The first position of `pat` in `s`.
pub fn find(s: &[char], pat: &[char]) -> (r: Option<usize>)
    ensures
        r matches Some(i) ==> index_of(s@, pat@) == Some(i as int) && i + pat@.len() <= s@.len(),
        r is None ==> index_of(s@, pat@) is None,
{
    proof {
        index_from_is_first(s@, pat@, 0);
    }
    find_from(s, pat, 0)
}

/// Whether `pat` stands anywhere in `s`.
pub fn contains_text(s: &str, pat: &str) -> (r: bool)
    ensures
        r == contains(s@, pat@),
{
    let sv = chars_of(s);
    let pv = chars_of(pat);
    proof {
        index_of_none_iff_absent(s@, pat@);
    }
    find(sv.as_slice(), pv.as_slice()).is_some()
}

/// What stands before the first `pat` in `s`, and what follows it.
pub open spec fn cut_at(s: Seq<char>, pat: Seq<char>) -> Option<(Seq<char>, Seq<char>)> {
    match index_of(s, pat) {
        Some(i) => Some((s.take(i), s.skip(i + pat.len()))),
        None => None,
    }
}

/// What stands before the first `pat` in `s`, and what follows it.
pub fn cut<'a>(s: &'a [char], pat: &str) -> (r: Option<(&'a [char], &'a [char])>)
    ensures
        r is Some == cut_at(s@, pat@) is Some,
        r matches Some(parts) ==> cut_at(s@, pat@) == Some((parts.0@, parts.1@)),
{
    let pv = chars_of(pat);
    let len = s.len();
    match find(s, pv.as_slice()) {
        Some(i) => {
            let before = slice_subrange(s, 0, i);
            let after = slice_subrange(s, i + pv.len(), len);
            assert(before@ == s@.take(i as int));
            assert(after@ == s@.skip(i + pat@.len()));
            Some((before, after))
        },
        None => None,
    }
}

/// A pattern whose first character does not come again in it is found right
/// behind a text that does not hold it.
pub proof fn cut_behind(before: Seq<char>, pat: Seq<char>, after: Seq<char>)
    requires
        pat.len() > 0,
        forall|k: int| 0 < k < pat.len() ==> #[trigger] pat[k] != pat[0],
        !contains(before, pat),
    ensures
        cut_at(before + pat + after, pat) == Some((before, after)),
{
    let s = before + pat + after;
    let n = before.len() as int;
    assert(s.subrange(n, n + pat.len()) == pat);
    assert forall|j: int| 0 <= j < n implies !occurs_at(s, pat, j) by {
        if occurs_at(s, pat, j) {
            if j + pat.len() <= n {
                assert(before.subrange(j, j + pat.len()) == s.subrange(j, j + pat.len()));
                assert(occurs_at(before, pat, j));
            } else {
                assert(s.subrange(j, j + pat.len())[n - j] == s[n]);
                assert(pat[n - j] == pat[0]);
            }
        }
    }
    index_of_unique(s, pat, n);
    assert(s.take(n) == before);
    assert(s.skip(n + pat.len()) == after);
}

/// How often `pat` occurs in `s`, counted from the left without overlaps.
pub open spec fn match_count(s: Seq<char>, pat: Seq<char>) -> nat
    decreases s.len(),
{
    match index_of(s, pat) {
        Some(i) => if pat.len() > 0 && 0 <= i && i + pat.len() <= s.len() {
            1 + match_count(s.skip(i + pat.len()), pat)
        } else {
            0
        },
        None => 0,
    }
}

/// `s` with each occurrence of `pat`, taken from the left without overlaps,
/// replaced by `to`.
pub open spec fn replaced(s: Seq<char>, pat: Seq<char>, to: Seq<char>) -> Seq<char>
    decreases s.len(),
{
    match index_of(s, pat) {
        Some(i) => if pat.len() > 0 && 0 <= i && i + pat.len() <= s.len() {
            s.take(i) + to + replaced(s.skip(i + pat.len()), pat, to)
        } else {
            s
        },
        None => s,
    }
}

/// Replacing leaves a head alone in which the pattern cannot begin.
pub proof fn replacing_keeps_head(a: Seq<char>, b: Seq<char>, pat: Seq<char>, to: Seq<char>)
    requires
        pat.len() > 0,
        !a.contains(pat[0]),
    ensures
        replaced(a + b, pat, to) == a + replaced(b, pat, to),
{
    let s = a + b;
    let n = a.len() as int;
    index_from_is_first(s, pat, 0);
    index_from_is_first(b, pat, 0);
    assert forall|j: int| occurs_at(s, pat, j) implies j >= n && occurs_at(b, pat, j - n) by {
        assert(s.subrange(j, j + pat.len())[0] == s[j]);
        if j < n {
            assert(a[j] == pat[0]);
        }
        assert(b.subrange(j - n, j - n + pat.len()) == s.subrange(j, j + pat.len()));
    }
    match index_of(b, pat) {
        Some(i) => {
            assert(s.subrange(n + i, n + i + pat.len()) == b.subrange(i, i + pat.len()));
            assert(occurs_at(s, pat, n + i));
            index_of_unique(s, pat, n + i);
            assert(s.take(n + i) == a + b.take(i));
            assert(s.skip(n + i + pat.len()) == b.skip(i + pat.len()));
        },
        None => {},
    }
}

/// `s` with the first occurrence of `pat` replaced by `to`.
pub open spec fn replaced_first(s: Seq<char>, pat: Seq<char>, to: Seq<char>) -> Seq<char> {
    match index_of(s, pat) {
        Some(i) => s.take(i) + to + s.skip(i + pat.len()),
        None => s,
    }
}

/// Counts the disjoint occurrences of `pat` in `s`.
pub fn count_matches(s: &[char], pat: &[char]) -> (n: usize)
    requires
        pat@.len() > 0,
    ensures
        n == match_count(s@, pat@),
        n <= s@.len(),
{
    let total = s.len();
    let mut rest = s;
    let mut n: usize = 0;
    loop
        invariant
            total == s@.len(),
            pat@.len() > 0,
            n + match_count(rest@, pat@) == match_count(s@, pat@),
            n + rest@.len() <= s@.len(),
        ensures
            n == match_count(s@, pat@),
            n <= s@.len(),
        decreases rest@.len(),
    {
        match find(rest, pat) {
            Some(i) => {
                let ghost before = rest@;
                let len = rest.len();
                rest = slice_subrange(rest, i + pat.len(), len);
                assert(rest@ == before.skip(i + pat@.len()));
                n += 1;
            },
            None => {
                break ;
            },
        }
    }
    n
}

/// Appends the characters of `v` to `out`.
pub fn append_chars(out: &mut String, v: &[char])
    ensures
        final(out)@ == old(out)@ + v@,
{
    let ghost start = out@;
    let mut i: usize = 0;
    while i < v.len()
        invariant
            i <= v@.len(),
            out@ == start + v@.take(i as int),
        decreases v@.len() - i,
    {
        out.push(v[i]);
        i += 1;
        assert(out@ == start + v@.take(i as int));
    }
    assert(v@.take(v@.len() as int) == v@);
}

/// Replaces every disjoint occurrence of `pat`.
pub fn replace_all(s: &str, pat: &str, to: &str) -> (out: String)
    requires
        pat@.len() > 0,
    ensures
        out@ == replaced(s@, pat@, to@),
{
    let sv = chars_of(s);
    let pv = chars_of(pat);
    let mut rest = sv.as_slice();
    let mut out = String::new();
    loop
        invariant
            pv@ == pat@,
            pat@.len() > 0,
            out@ + replaced(rest@, pat@, to@) == replaced(s@, pat@, to@),
        ensures
            out@ + rest@ == replaced(s@, pat@, to@),
        decreases rest@.len(),
    {
        match find(rest, pv.as_slice()) {
            Some(i) => {
                let ghost before = rest@;
                let ghost written = out@;
                let len = rest.len();
                append_chars(&mut out, slice_subrange(rest, 0, i));
                out.append(to);
                rest = slice_subrange(rest, i + pv.len(), len);
                proof {
                    assert(before.subrange(0, i as int) == before.take(i as int));
                    assert(rest@ == before.skip(i + pat@.len()));
                    assert(out@ + replaced(rest@, pat@, to@) == written + (before.take(i as int)
                        + to@ + replaced(rest@, pat@, to@)));
                }
            },
            None => {
                break ;
            },
        }
    }
    append_chars(&mut out, rest);
    out
}

/// Whether the places at which a pattern of length `width` stands follow each
/// other without overlaps.
pub open spec fn apart(places: Seq<int>, width: int) -> bool {
    forall|i: int, j: int|
        0 <= i < j < places.len() ==> #[trigger] places[i] + width <= #[trigger] places[j]
}

/// No choice of places at which a pattern stands without overlaps has more
/// than are counted.
pub proof fn no_more_than_counted(s: Seq<char>, pat: Seq<char>, places: Seq<int>)
    requires
        pat.len() > 0,
        apart(places, pat.len() as int),
        forall|k: int| 0 <= k < places.len() ==> occurs_at(s, pat, #[trigger] places[k]),
    ensures
        places.len() <= match_count(s, pat),
    decreases s.len(),
{
    index_from_is_first(s, pat, 0);
    if places.len() > 0 {
        let w = pat.len() as int;
        assert(occurs_at(s, pat, places[0]));
        let i = index_of(s, pat)->Some_0;
        assert(i <= places[0]);
        let rest = s.skip(i + w);
        let later = Seq::new((places.len() - 1) as nat, |k: int| places[k + 1] - (i + w));
        assert forall|k: int| 0 <= k < later.len() implies occurs_at(
            rest,
            pat,
            #[trigger] later[k],
        ) by {
            let p = places[k + 1];
            assert(places[0] + w <= places[k + 1]);
            assert(occurs_at(s, pat, p));
            assert(rest.subrange(later[k], later[k] + w) == s.subrange(p, p + w));
        }
        assert forall|k: int, l: int| 0 <= k < l < later.len() implies #[trigger] later[k] + w
            <= #[trigger] later[l] by {
            assert(places[k + 1] + w <= places[l + 1]);
        }
        no_more_than_counted(rest, pat, later);
    }
}

/// As many places as are counted can be chosen at which a pattern stands
/// without overlaps.
pub proof fn counted_places(s: Seq<char>, pat: Seq<char>) -> (places: Seq<int>)
    requires
        pat.len() > 0,
    ensures
        places.len() == match_count(s, pat),
        apart(places, pat.len() as int),
        forall|k: int| 0 <= k < places.len() ==> occurs_at(s, pat, #[trigger] places[k]),
    decreases s.len(),
{
    index_from_is_first(s, pat, 0);
    match index_of(s, pat) {
        Some(i) => {
            let w = pat.len() as int;
            let rest = s.skip(i + w);
            let later = counted_places(rest, pat);
            let places = seq![i] + Seq::new(later.len(), |k: int| later[k] + i + w);
            assert forall|k: int| 0 <= k < places.len() implies occurs_at(
                s,
                pat,
                #[trigger] places[k],
            ) by {
                if k > 0 {
                    let p = later[k - 1];
                    assert(occurs_at(rest, pat, p));
                    assert(rest.subrange(p, p + w) == s.subrange(p + i + w, p + i + w + w));
                }
            }
            assert forall|k: int, l: int| 0 <= k < l < places.len() implies #[trigger] places[k] + w
                <= #[trigger] places[l] by {
                assert(occurs_at(rest, pat, later[l - 1]));
                if k > 0 {
                    assert(later[k - 1] + w <= later[l - 1]);
                }
            }
            places
        },
        None => Seq::empty(),
    }
}

/// Replacing rewrites the first place at which the pattern stands, keeps what
/// is before it, and goes on behind it; a text without the pattern is kept.
pub proof fn replacing_goes_on_behind(
    a: Seq<char>,
    pat: Seq<char>,
    b: Seq<char>,
    to: Seq<char>,
)
    requires
        pat.len() > 0,
    ensures
        !contains(b, pat) ==> replaced(b, pat, to) == b,
        (forall|j: int| 0 <= j < a.len() ==> !occurs_at(a + pat + b, pat, j)) ==> replaced(
            a + pat + b,
            pat,
            to,
        ) == a + to + replaced(b, pat, to),
{
    index_of_none_iff_absent(b, pat);
    let s = a + pat + b;
    let n = a.len() as int;
    assert(s.subrange(n, n + pat.len()) == pat);
    if forall|j: int| 0 <= j < n ==> !occurs_at(s, pat, j) {
        index_of_unique(s, pat, n);
        assert(s.take(n) == a);
        assert(s.skip(n + pat.len()) == b);
    }
}

/// Replacing a pattern by itself changes nothing.
pub proof fn replacing_by_itself(s: Seq<char>, pat: Seq<char>)
    ensures
        replaced(s, pat, pat) == s,
        replaced_first(s, pat, pat) == s,
    decreases s.len(),
{
    index_from_is_first(s, pat, 0);
    if let Some(i) = index_of(s, pat) {
        assert(s.take(i) + pat + s.skip(i + pat.len()) == s);
        if pat.len() > 0 {
            replacing_by_itself(s.skip(i + pat.len()), pat);
        }
    }
}

/// A text is cut at the first place at which the pattern stands: what is
/// before it, the pattern and what is behind it make up the text.
pub proof fn cut_is_at_the_first(s: Seq<char>, pat: Seq<char>)
    ensures
        cut_at(s, pat) is None <==> !contains(s, pat),
        cut_at(s, pat) matches Some((before, after)) ==> s == before + pat + after && forall|
            j: int,
        |
            0 <= j < before.len() ==> !occurs_at(s, pat, j),
{
    index_of_none_iff_absent(s, pat);
    index_from_is_first(s, pat, 0);
    if let Some(i) = index_of(s, pat) {
        assert(s == s.take(i) + pat + s.skip(i + pat.len()));
    }
}

/// A pattern stands at a place exactly where the text is made up of something
/// as long as the place, the pattern, and a rest.
pub proof fn occurrence_makes_up(a: Seq<char>, pat: Seq<char>, b: Seq<char>)
    ensures
        occurs_at(a + pat + b, pat, a.len() as int),
        contains(a + pat + b, pat),
{
    let s = a + pat + b;
    assert(s.subrange(a.len() as int, (a.len() + pat.len()) as int) == pat);
    assert(occurs_at(s, pat, a.len() as int));
}

} // verus!
