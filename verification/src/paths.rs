//! Unix paths as text.
//!
//! A path is the text its user sees. Its components are what stands between
//! slashes; empty ones and `.` do not count, except a `.` that opens a
//! relative path.
use vstd::prelude::*;
use vstd::slice::slice_subrange;

use crate::lines::{fields_of, fields_split, split, until, until_is_first};
use crate::text::{chars_of, has_prefix, same_text, string_of, strip_prefix, texts};

verus! {

/// `rest` taken relative to `base`; an absolute `rest` stands alone.
pub open spec fn joined_path(base: Seq<char>, rest: Seq<char>) -> Seq<char> {
    if rest.len() > 0 && rest.first() == '/' {
        rest
    } else if base.len() > 0 && base.last() != '/' {
        base.push('/') + rest
    } else {
        base + rest
    }
}

/// `rest` taken relative to `base`.
pub fn join_path(base: &str, rest: &str) -> (out: String)
    ensures
        out@ == joined_path(base@, rest@),
{
    let b = chars_of(base);
    let r = chars_of(rest);
    if r.len() > 0 && r[0] == '/' {
        return rest.to_string();
    }
    let mut out = base.to_string();
    if b.len() > 0 && b[b.len() - 1] != '/' {
        out.push('/');
    }
    out.append(rest);
    out
}

/// `s` with a leading `~` resolved against the home directory, where there is
/// one: `~` alone is the home directory, `~/rest` is `rest` taken relative to it.
pub open spec fn expanded_path(s: Seq<char>, home: Option<Seq<char>>) -> Seq<char> {
    match home {
        Some(h) => if s == "~"@ {
            h
        } else if has_prefix(s, "~/"@) {
            joined_path(h, s.skip(2))
        } else {
            s
        },
        None => s,
    }
}

/// The view of an optional string.
pub open spec fn opt_text(s: Option<String>) -> Option<Seq<char>> {
    match s {
        Some(t) => Some(t@),
        None => None,
    }
}

/// Expands a leading `~/` or a bare `~` against `home`. Other paths pass
/// through unchanged.
pub fn expand_path(s: &str, home: &Option<String>) -> (out: String)
    ensures
        out@ == expanded_path(s@, opt_text(*home)),
{
    proof {
        reveal_strlit("~/");
    }
    match home {
        Some(h) => {
            if same_text(s, "~") {
                return h.clone();
            }
            match strip_prefix(s, "~/") {
                Some(rest) => join_path(h.as_str(), rest.as_str()),
                None => s.to_string(),
            }
        },
        None => s.to_string(),
    }
}

/// Whether a field between slashes is a component by itself.
pub open spec fn counts(field: Seq<char>) -> bool {
    field.len() > 0 && field != seq!['.']
}

/// The fields that count, in order.
pub open spec fn counted(fields: Seq<Seq<char>>) -> Seq<Seq<char>>
    decreases fields.len(),
{
    if fields.len() == 0 {
        Seq::empty()
    } else if counts(fields.last()) {
        counted(fields.drop_last()).push(fields.last())
    } else {
        counted(fields.drop_last())
    }
}

/// How a path begins: at the root, at an explicit `.`, or neither.
pub open spec fn path_head(s: Seq<char>) -> Seq<Seq<char>> {
    if s.len() > 0 && s.first() == '/' {
        seq![seq!['/']]
    } else if s.len() > 0 && s.first() == '.' && (s.len() == 1 || s[1] == '/') {
        seq![seq!['.']]
    } else {
        Seq::empty()
    }
}

/// The components of a path; the root is the component `/`.
pub open spec fn components_of(s: Seq<char>) -> Seq<Seq<char>> {
    path_head(s) + counted(fields_of(s, '/'))
}

/// Whether `s` lies at or below `base`, component by component.
pub open spec fn path_below(s: Seq<char>, base: Seq<char>) -> bool {
    let c = components_of(s);
    let b = components_of(base);
    b.len() <= c.len() && c.take(b.len() as int) == b
}

/// The components of a path.
pub fn components(s: &str) -> (out: Vec<String>)
    ensures
        texts(out@) == components_of(s@),
{
    let v = chars_of(s);
    let fields = split(s, '/');
    let mut out: Vec<String> = Vec::new();
    if v.len() > 0 && v[0] == '/' {
        let mut root = String::new();
        root.push('/');
        out.push(root);
    } else if v.len() > 0 && v[0] == '.' && (v.len() == 1 || v[1] == '/') {
        let mut here = String::new();
        here.push('.');
        out.push(here);
    }
    let ghost head = path_head(s@);
    assert(texts(out@) == head);
    let mut i: usize = 0;
    assert(counted(texts(fields@).take(0)) == Seq::<Seq<char>>::empty());
    assert(head + Seq::<Seq<char>>::empty() == head);
    while i < fields.len()
        invariant
            i <= fields@.len(),
            texts(out@) == head + counted(texts(fields@).take(i as int)),
        decreases fields@.len() - i,
    {
        let ghost before = out@;
        let ghost upto = texts(fields@).take(i as int + 1);
        assert(upto.drop_last() == texts(fields@).take(i as int));
        let f = chars_of(fields[i].as_str());
        assert(upto.last() == f@);
        let plain = f.len() > 0 && !(f.len() == 1 && f[0] == '.');
        assert(plain == counts(f@)) by {
            if f@.len() == 1 && f@[0] == '.' {
                assert(f@ == seq!['.']);
            }
        }
        if plain {
            out.push(fields[i].clone());
            assert(texts(out@) == texts(before).push(f@));
            assert(head + counted(upto) == (head + counted(upto.drop_last())).push(f@));
        }
        i += 1;
    }
    assert(texts(fields@).take(fields@.len() as int) == texts(fields@));
    out
}

/// Whether `s` lies at or below `base`.
pub fn is_below(s: &str, base: &str) -> (r: bool)
    ensures
        r == path_below(s@, base@),
{
    let c = components(s);
    let b = components(base);
    assert(texts(c@).len() == c@.len() && texts(b@).len() == b@.len());
    if b.len() > c.len() {
        return false;
    }
    let mut i: usize = 0;
    while i < b.len()
        invariant
            i <= b@.len() <= c@.len(),
            texts(c@) == components_of(s@),
            texts(b@) == components_of(base@),
            forall|j: int| 0 <= j < i ==> c@[j]@ == #[trigger] b@[j]@,
        decreases b@.len() - i,
    {
        if c[i] != b[i] {
            assert(texts(c@).take(b@.len() as int)[i as int] != texts(b@)[i as int]);
            return false;
        }
        i += 1;
    }
    assert(texts(c@).take(b@.len() as int) == texts(b@));
    true
}

/// Where the part of a path that can be cut component by component begins:
/// after the root, or after an opening `.`.
pub open spec fn body_start(s: Seq<char>) -> int {
    path_head(s).len() as int
}

/// Where the last component of `s` begins, looking no further back than `from`.
pub open spec fn last_start(s: Seq<char>, from: int) -> int
    decreases s.len(),
{
    if s.len() <= from || s.len() == 0 {
        from
    } else if s.last() == '/' {
        s.len() as int
    } else {
        last_start(s.drop_last(), from)
    }
}

proof fn last_start_bounds(s: Seq<char>, from: int)
    requires
        0 <= from <= s.len(),
    ensures
        from <= last_start(s, from) <= s.len(),
    decreases s.len(),
{
    if s.len() > from && s.last() != '/' {
        last_start_bounds(s.drop_last(), from);
    }
}

/// `s` without its last component and the slash before it.
pub open spec fn cut_last(s: Seq<char>) -> Seq<char> {
    let at = last_start(s, body_start(s));
    if at > body_start(s) {
        s.take(at - 1)
    } else {
        s.take(at)
    }
}

/// `s` without trailing slashes and trailing `.` components.
pub open spec fn tidy_end(s: Seq<char>) -> Seq<char>
    decreases s.len(),
    via tidy_end_shrinks
{
    if s.len() > body_start(s) && !counts(s.skip(last_start(s, body_start(s)))) {
        tidy_end(cut_last(s))
    } else {
        s
    }
}

#[via_fn]
proof fn tidy_end_shrinks(s: Seq<char>) {
    last_start_bounds(s, body_start(s));
}

/// The directory that holds the last component of a path; none for the root
/// and for the empty path.
pub open spec fn path_parent(s: Seq<char>) -> Option<Seq<char>> {
    let t = tidy_end(s);
    if t.len() > body_start(t) {
        Some(tidy_end(cut_last(t)))
    } else if t == seq!['.'] {
        Some(Seq::empty())
    } else {
        None
    }
}

/// The last component of a path, unless it is the root, `.` or `..`.
pub open spec fn path_file_name(s: Seq<char>) -> Option<Seq<char>> {
    let t = tidy_end(s);
    let name = t.skip(last_start(t, body_start(t)));
    if t.len() > body_start(t) && name != seq!['.', '.'] {
        Some(name)
    } else {
        None
    }
}

proof fn tidied(s: Seq<char>)
    ensures
        ({
            let t = tidy_end(s);
            t.len() <= body_start(t) || counts(t.skip(last_start(t, body_start(t))))
        }),
        tidy_end(tidy_end(s)) == tidy_end(s),
    decreases s.len(),
{
    last_start_bounds(s, body_start(s));
    if s.len() > body_start(s) && !counts(s.skip(last_start(s, body_start(s)))) {
        tidied(cut_last(s));
    }
}

proof fn last_part_has_no_slash(s: Seq<char>, from: int)
    requires
        0 <= from <= s.len(),
    ensures
        from <= last_start(s, from) <= s.len(),
        forall|i: int| last_start(s, from) <= i < s.len() ==> s[i] != '/',
    decreases s.len(),
{
    if s.len() > from && s.last() != '/' {
        last_part_has_no_slash(s.drop_last(), from);
        assert forall|i: int| last_start(s, from) <= i < s.len() implies s[i] != '/' by {
            if i < s.len() - 1 {
                assert(s.drop_last()[i] == s[i]);
            }
        }
    }
}

proof fn last_start_behind(a: Seq<char>, n: Seq<char>, from: int)
    requires
        0 <= from <= a.len(),
        a.len() > 0,
        a.last() == '/',
        forall|i: int| 0 <= i < n.len() ==> n[i] != '/',
    ensures
        last_start(a + n, from) == a.len(),
    decreases n.len(),
{
    if n.len() == 0 {
        assert(a + n == a);
    } else {
        assert((a + n).last() == n.last());
        assert((a + n).drop_last() == a + n.drop_last());
        last_start_behind(a, n.drop_last(), from);
    }
}

proof fn last_start_of_one(n: Seq<char>)
    requires
        forall|i: int| 0 <= i < n.len() ==> n[i] != '/',
    ensures
        last_start(n, 0) == 0,
    decreases n.len(),
{
    if n.len() > 0 {
        last_start_of_one(n.drop_last());
    }
}

/// The name of a file is one component: not empty, and without slashes.
pub proof fn file_name_is_one_component(path: Seq<char>)
    ensures
        path_file_name(path) matches Some(name) ==> counts(name) && !name.contains('/'),
{
    tidied(path);
    let t = tidy_end(path);
    last_part_has_no_slash(t, body_start(t));
}

/// A file that is put into the directory of another stands beside it: the
/// path that joins the two leads to that directory and to that name.
pub proof fn joined_name_is_beside(path: Seq<char>, name: Seq<char>)
    requires
        path_parent(path) is Some,
        counts(name),
        name != seq!['.', '.'],
        !name.contains('/'),
    ensures
        ({
            let beside = joined_path(path_parent(path)->0, name);
            &&& path_parent(beside) == path_parent(path)
            &&& path_file_name(beside) == Some(name)
        }),
{
    let t = tidy_end(path);
    let dir = path_parent(path)->0;
    let beside = joined_path(dir, name);
    assert forall|i: int| 0 <= i < name.len() implies name[i] != '/' by {
        if name[i] == '/' {
            assert(name.contains('/'));
        }
    }
    assert(tidy_end(dir) == dir && (dir.len() <= body_start(dir) || counts(
        dir.skip(last_start(dir, body_start(dir))),
    ))) by {
        if t.len() > body_start(t) {
            tidied(cut_last(t));
        }
    }
    assert(!(name.len() == 1 && name[0] == '.')) by {
        if name.len() == 1 && name[0] == '.' {
            assert(name == seq!['.']);
        }
    }
    if dir.len() == 0 {
        assert(beside == name);
        assert(body_start(name) == 0);
        last_start_of_one(name);
        assert(name.skip(0) == name);
        assert(cut_last(name) == dir);
    } else {
        if dir.last() == '/' {
            if dir.len() > body_start(dir) {
                assert(last_start(dir, body_start(dir)) == dir.len());
                assert(dir.skip(dir.len() as int).len() == 0);
            }
            assert(dir.len() == 1);
            assert(beside == dir + name);
            last_start_behind(dir, name, 1);
            assert(beside.skip(1) == name);
            assert(cut_last(beside) == dir);
        } else {
            let head = dir.push('/');
            assert(beside == head + name);
            assert(body_start(beside) == body_start(dir)) by {
                assert(beside[0] == dir[0]);
                if dir.len() > 1 {
                    assert(beside[1] == dir[1]);
                } else {
                    assert(beside[1] == '/');
                }
            }
            last_start_behind(head, name, body_start(dir));
            assert(beside.skip(head.len() as int) == name);
            assert(beside.take(head.len() - 1) == dir);
            assert(cut_last(beside) == dir);
        }
    }
}

/// The number of characters before the cuttable part of a path.
fn head_len(v: &[char]) -> (n: usize)
    ensures
        n == body_start(v@),
        n <= v@.len(),
{
    if v.len() > 0 && v[0] == '/' {
        1
    } else if v.len() > 0 && v[0] == '.' && (v.len() == 1 || v[1] == '/') {
        1
    } else {
        0
    }
}

/// Where the last component begins.
fn last_component(v: &[char], from: usize) -> (at: usize)
    requires
        from <= v@.len(),
    ensures
        at == last_start(v@, from as int),
        from <= at <= v@.len(),
{
    let mut n: usize = v.len();
    assert(v@.take(n as int) == v@);
    while n > from && v[n - 1] != '/'
        invariant
            from <= n <= v@.len(),
            last_start(v@.take(n as int), from as int) == last_start(v@, from as int),
        decreases n,
    {
        assert(v@.take(n as int).drop_last() == v@.take(n as int - 1));
        n -= 1;
    }
    assert(v@.take(n as int).len() == n);
    n
}

/// Cuts the last component and the slash before it.
fn without_last(v: &[char]) -> (out: &[char])
    ensures
        out@ == cut_last(v@),
{
    let h = head_len(v);
    let at = last_component(v, h);
    let end = if at > h {
        at - 1
    } else {
        at
    };
    let out = slice_subrange(v, 0, end);
    assert(out@ == v@.take(end as int));
    out
}

/// Drops trailing slashes and trailing `.` components.
fn tidy(v: &[char]) -> (out: &[char])
    ensures
        out@ == tidy_end(v@),
    decreases v@.len(),
{
    let h = head_len(v);
    let at = last_component(v, h);
    let last = slice_subrange(v, at, v.len());
    assert(last@ == v@.skip(at as int));
    let plain = last.len() > 0 && !(last.len() == 1 && last[0] == '.');
    assert(plain == counts(last@)) by {
        if last@.len() == 1 && last@[0] == '.' {
            assert(last@ == seq!['.']);
        }
    }
    if v.len() > h && !plain {
        proof {
            last_start_bounds(v@, body_start(v@));
        }
        tidy(without_last(v))
    } else {
        v
    }
}

/// The directory that holds the last component of `path`.
pub fn parent_of(path: &str) -> (r: Option<String>)
    ensures
        opt_text(r) == path_parent(path@),
{
    let v = chars_of(path);
    let t = tidy(v.as_slice());
    let h = head_len(t);
    if t.len() > h {
        Some(string_of(tidy(without_last(t))))
    } else if t.len() == 1 && t[0] == '.' {
        assert(t@ == seq!['.']);
        Some(String::new())
    } else {
        None
    }
}

/// The last component of `path`, unless it is the root, `.` or `..`.
pub fn file_name_of(path: &str) -> (r: Option<String>)
    ensures
        opt_text(r) == path_file_name(path@),
{
    let v = chars_of(path);
    let t = tidy(v.as_slice());
    let h = head_len(t);
    let at = last_component(t, h);
    let name = slice_subrange(t, at, t.len());
    assert(name@ == t@.skip(at as int));
    if t.len() > h {
        if name.len() == 2 && name[0] == '.' && name[1] == '.' {
            assert(name@ == seq!['.', '.']);
            None
        } else {
            Some(string_of(name))
        }
    } else {
        None
    }
}

/// A path relative to a directory is the directory, a slash and the path, and
/// one slash is enough; in no directory it is itself, and an absolute path is
/// itself everywhere.
pub proof fn joining_takes_one_slash(base: Seq<char>, rest: Seq<char>)
    ensures
        rest.len() > 0 && rest[0] == '/' ==> joined_path(base, rest) == rest,
        joined_path(Seq::empty(), rest) == rest,
        (base.len() > 0 && base.last() != '/' && (rest.len() == 0 || rest[0] != '/')) ==> {
            &&& joined_path(base, rest) == base + "/"@ + rest
            &&& joined_path(base + "/"@, rest) == base + "/"@ + rest
        },
        rest.len() == 0 || rest[0] != '/' ==> joined_path("/"@, rest) == "/"@ + rest,
{
    reveal_strlit("/");
    assert("/"@ == seq!['/']);
    assert(base + "/"@ == base.push('/'));
    assert(Seq::<char>::empty() + rest == rest);
}

/// Only a tilde that stands for the home directory is replaced, and only where
/// there is one.
pub proof fn only_the_home_is_expanded(s: Seq<char>, rest: Seq<char>, home: Seq<char>)
    ensures
        expanded_path("~"@, Some(home)) == home,
        expanded_path("~/"@ + rest, Some(home)) == joined_path(home, rest),
        (s != "~"@ && !(s.len() >= 2 && s[0] == '~' && s[1] == '/')) ==> expanded_path(
            s,
            Some(home),
        ) == s,
        expanded_path(s, None) == s,
{
    reveal_strlit("~");
    reveal_strlit("~/");
    let t = "~/"@ + rest;
    assert(t.take(2) == "~/"@);
    assert(t.skip(2) == rest);
    assert(t.len() >= 2 && "~"@.len() == 1);
    if has_prefix(s, "~/"@) {
        assert(s.take(2)[0] == '~' && s.take(2)[1] == '/');
    }
}

/// An optional string is seen as its text.
pub proof fn optional_text(s: String)
    ensures
        opt_text(Some(s)) == Some(s@),
        opt_text(None) == None::<Seq<char>>,
{
}

proof fn counted_splits(a: Seq<Seq<char>>, b: Seq<Seq<char>>)
    ensures
        counted(a + b) == counted(a) + counted(b),
    decreases b.len(),
{
    if b.len() == 0 {
        assert(a + b == a);
        assert(counted(a) + Seq::<Seq<char>>::empty() == counted(a));
    } else {
        assert((a + b).drop_last() == a + b.drop_last());
        assert((a + b).last() == b.last());
        counted_splits(a, b.drop_last());
        assert(counted(a + b) == counted(a) + counted(b));
    }
}

proof fn one_field(w: Seq<char>)
    requires
        !w.contains('/'),
    ensures
        fields_of(w, '/') == seq![w],
        counted(fields_of(w, '/')) == (if counts(w) {
            seq![w]
        } else {
            Seq::empty()
        }),
{
    until_is_first(w, '/');
    if until(w, '/') < w.len() {
        assert(w.contains(w[until(w, '/')]));
    }
    assert(fields_of(w, '/') == seq![w]);
    assert(seq![w].drop_last() == Seq::<Seq<char>>::empty());
    assert(counted(Seq::<Seq<char>>::empty()) == Seq::<Seq<char>>::empty());
    assert(Seq::<Seq<char>>::empty().push(w) == seq![w]);
}

/// A name is its own only component; a slash and a name behind a path add that
/// name to its components, and nothing or a dot behind the slash adds none.
/// The root comes first in an absolute path.
pub proof fn components_are_names(path: Seq<char>, name: Seq<char>)
    requires
        !name.contains('/'),
    ensures
        name.len() > 0 && name != "."@ ==> components_of(name) == seq![name],
        components_of(Seq::empty()) == Seq::<Seq<char>>::empty(),
        components_of("."@) == seq!["."@],
        components_of("/"@ + name) == (if name.len() > 0 && name != "."@ {
            seq!["/"@, name]
        } else {
            seq!["/"@]
        }),
        path.len() > 0 ==> components_of(path + "/"@ + name) == (if name.len() > 0 && name != "."@ {
            components_of(path).push(name)
        } else {
            components_of(path)
        }),
{
    reveal_strlit("/");
    reveal_strlit(".");
    assert("/"@ == seq!['/']);
    assert("."@ == seq!['.']);
    let none = Seq::<char>::empty();
    one_field(name);
    one_field(none);
    one_field("."@);
    assert(name.len() > 0 ==> name.contains(name[0]));
    if name.len() == 1 && name[0] == '.' {
        assert(name == "."@);
    }
    if name.len() >= 2 {
        assert(name.contains(name[1]));
    }
    if counts(name) {
        assert(components_of(name) == seq![name]);
    }
    assert(components_of("."@) == seq!["."@]);
    assert(none.push('/') + name == "/"@ + name);
    fields_split(none, name, '/');
    counted_splits(fields_of(none, '/'), fields_of(name, '/'));
    assert(components_of("/"@ + name) == seq!["/"@] + counted(fields_of(name, '/')));
    if path.len() > 0 {
        let s = path + "/"@ + name;
        assert(s == path.push('/') + name);
        fields_split(path, name, '/');
        counted_splits(fields_of(path, '/'), fields_of(name, '/'));
        assert(s[0] == path[0]);
        if path.len() > 1 {
            assert(s[1] == path[1]);
        } else {
            assert(s[1] == '/');
        }
        assert(path_head(s) == path_head(path));
        assert(components_of(s) == components_of(path) + counted(fields_of(name, '/')));
        if counts(name) {
            assert(components_of(s) == components_of(path).push(name));
        } else {
            assert(components_of(s) == components_of(path));
        }
    }
}

/// A path lies below another exactly where it has the other's components and
/// then perhaps more. So it lies below itself, and a name behind a slash stays
/// below.
pub proof fn below_is_by_component(s: Seq<char>, base: Seq<char>, name: Seq<char>)
    ensures
        path_below(s, base) <==> exists|more: Seq<Seq<char>>|
            components_of(s) == #[trigger] (components_of(base) + more),
        path_below(s, s),
        path_below(s, base) && s.len() > 0 && !name.contains('/') ==> path_below(
            s + "/"@ + name,
            base,
        ),
{
    let c = components_of(s);
    let b = components_of(base);
    if path_below(s, base) {
        assert(c == b + c.skip(b.len() as int));
    }
    assert forall|more: Seq<Seq<char>>| c == #[trigger] (b + more) implies path_below(s, base) by {
        assert(c.take(b.len() as int) == b);
    }
    assert(c.take(c.len() as int) == c);
    if path_below(s, base) && s.len() > 0 && !name.contains('/') {
        components_are_names(s, name);
        let d = components_of(s + "/"@ + name);
        assert(d.take(b.len() as int) == c.take(b.len() as int));
    }
}

/// A path that is longer than another by characters, not by a component, does
/// not lie below it.
pub proof fn longer_name_is_not_below(path: Seq<char>, name: Seq<char>, tail: Seq<char>)
    requires
        path.len() > 0,
        name.len() > 0,
        tail.len() > 0,
        name != "."@,
        !name.contains('/'),
        !tail.contains('/'),
    ensures
        !path_below(path + "/"@ + (name + tail), path + "/"@ + name),
{
    reveal_strlit(".");
    let long = name + tail;
    assert(long.len() > 1);
    assert(long != "."@) by {
        assert("."@.len() == 1);
    }
    assert(!long.contains('/')) by {
        if long.contains('/') {
            let i = choose|i: int| 0 <= i < long.len() && long[i] == '/';
            if i < name.len() {
                assert(name.contains(name[i]));
            } else {
                assert(tail.contains(tail[i - name.len()]));
            }
        }
    }
    components_are_names(path, name);
    components_are_names(path, long);
    let c = components_of(path + "/"@ + long);
    let b = components_of(path + "/"@ + name);
    let n = components_of(path).len() as int;
    assert(c[n] == long && b[n] == name);
    if path_below(path + "/"@ + long, path + "/"@ + name) {
        assert(c.take(b.len() as int)[n] == c[n]);
        assert(long.len() == name.len());
    }
}

/// What stands before the last slash of a path is its parent, and what stands
/// behind it is its name: for a directory that ends in a name itself, for the
/// root, and for a name alone.
pub proof fn parent_and_name(above: Seq<char>, last: Seq<char>, name: Seq<char>)
    requires
        above.len() == 0 || above.last() == '/',
        last.len() > 0 && last != "."@ && !last.contains('/'),
        name.len() > 0 && name != "."@ && name != ".."@ && !name.contains('/'),
    ensures
        path_parent(above + last + "/"@ + name) == Some(above + last),
        path_file_name(above + last + "/"@ + name) == Some(name),
        path_parent("/"@ + name) == Some("/"@),
        path_file_name("/"@ + name) == Some(name),
        path_parent(name) == Some(Seq::<char>::empty()),
        path_file_name(name) == Some(name),
        path_parent("/"@) is None,
        path_parent(Seq::empty()) is None,
        path_file_name("/"@) is None,
        path_file_name(Seq::empty()) is None,
{
    reveal_strlit("/");
    reveal_strlit(".");
    reveal_strlit("..");
    assert("/"@ == seq!['/']);
    assert("."@ == seq!['.']);
    assert(".."@ == seq!['.', '.']);
    assert forall|i: int| 0 <= i < name.len() implies name[i] != '/' by {
        assert(name.contains(name[i]));
    }
    assert forall|i: int| 0 <= i < last.len() implies last[i] != '/' by {
        assert(last.contains(last[i]));
    }
    if name.len() == 1 && name[0] == '.' {
        assert(name == "."@);
    }
    if last.len() == 1 && last[0] == '.' {
        assert(last == "."@);
    }
    // A name alone.
    assert(body_start(name) == 0);
    last_start_of_one(name);
    assert(name.skip(0) == name);
    assert(tidy_end(name) == name);
    assert(cut_last(name) == Seq::<char>::empty());
    assert(tidy_end(Seq::empty()) == Seq::<char>::empty());
    // A name in the root.
    let rooted = "/"@ + name;
    last_start_behind("/"@, name, 1);
    assert(rooted.skip(1) == name);
    assert(tidy_end(rooted) == rooted);
    assert(cut_last(rooted) == "/"@);
    assert(tidy_end("/"@) == "/"@);
    assert("/"@ != seq!['.']) by {
        assert("/"@[0] == '/');
    }
    // A name in a directory.
    let dir = above + last;
    if above.len() == 0 {
        assert(dir == last);
        last_start_of_one(last);
        assert(last.skip(0) == last);
    } else {
        assert(dir[0] == above[0]);
        last_start_behind(above, last, body_start(dir));
        assert(dir.skip(above.len() as int) == last);
    }
    assert(tidy_end(dir) == dir);
    let path = dir + "/"@ + name;
    let head = dir.push('/');
    assert(path == head + name);
    last_start_behind(head, name, body_start(path));
    assert(path.skip(head.len() as int) == name);
    assert(tidy_end(path) == path);
    assert(cut_last(path) == dir);
}

/// A slash at the end, and a dot behind one, change neither the parent nor the
/// name.
pub proof fn trailing_slash_changes_nothing(path: Seq<char>)
    requires
        path.len() > 0,
        path.last() != '/',
    ensures
        path_parent(path + "/"@) == path_parent(path),
        path_file_name(path + "/"@) == path_file_name(path),
        path_parent(path + "/."@) == path_parent(path),
        path_file_name(path + "/."@) == path_file_name(path),
{
    reveal_strlit("/");
    reveal_strlit("/.");
    let head = path.push('/');
    let none = Seq::<char>::empty();
    let dot = seq!['.'];
    assert(path + "/"@ == head + none);
    assert(path + "/."@ == head + dot);
    last_start_behind(head, none, body_start(head + none));
    last_start_behind(head, dot, body_start(head + dot));
    assert((head + none).skip(head.len() as int) == none);
    assert((head + dot).skip(head.len() as int) == dot);
    assert(cut_last(head + none) == path);
    assert(cut_last(head + dot) == path);
}

} // verus!
