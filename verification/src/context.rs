//! Facts about the host that are put before the model, so that its answers
//! fit the machine it runs on.
use vstd::prelude::*;

use crate::knowledge::{
    facts_for, for_distro, opt_knowledge, push_line, DistroKnowledge, KnowledgeView,
};
use crate::lines::{
    fields_of, lines, lines_of, split, split_once, until, until_is_first,
};
use crate::paths::{is_below, opt_text, path_below};
use crate::text::{
    chars_of, drop_leading, drop_trailing, join, joined, only_the_run_is_dropped_ahead,
    only_the_run_is_dropped_behind, same_text, string_of, texts, trim, trimmed, without_leading,
    without_trailing,
};

verus! {

/// What is known of the host. A fact that could not be found is `None`.
#[derive(Debug)]
pub struct SystemContext {
    pub distro_id: Option<String>,
    pub distro_pretty_name: Option<String>,
    pub desktop: Option<String>,
    pub session_type: Option<String>,
    pub shell: Option<String>,
    pub kernel: Option<String>,
    /// Directories on `$PATH` that lie under `$HOME` and exist: places for a
    /// script that need no root.
    pub path_dirs: Vec<String>,
    /// What is known of the distribution.
    pub knowledge: Option<DistroKnowledge>,
}

/// What is known of the host, as text.
#[verifier::ext_equal]
pub struct ContextView {
    pub distro_id: Option<Seq<char>>,
    pub distro_pretty_name: Option<Seq<char>>,
    pub desktop: Option<Seq<char>>,
    pub session_type: Option<Seq<char>>,
    pub shell: Option<Seq<char>>,
    pub kernel: Option<Seq<char>>,
    pub path_dirs: Seq<Seq<char>>,
    pub knowledge: Option<KnowledgeView>,
}

impl View for SystemContext {
    type V = ContextView;

    open spec fn view(&self) -> ContextView {
        ContextView {
            distro_id: opt_text(self.distro_id),
            distro_pretty_name: opt_text(self.distro_pretty_name),
            desktop: opt_text(self.desktop),
            session_type: opt_text(self.session_type),
            shell: opt_text(self.shell),
            kernel: opt_text(self.kernel),
            path_dirs: texts(self.path_dirs@),
            knowledge: opt_knowledge(self.knowledge),
        }
    }
}

impl Default for SystemContext {
    /// Nothing is known.
    fn default() -> (r: Self)
        ensures
            r@ == (ContextView {
                distro_id: None,
                distro_pretty_name: None,
                desktop: None,
                session_type: None,
                shell: None,
                kernel: None,
                path_dirs: Seq::empty(),
                knowledge: None,
            }),
    {
        let r = SystemContext {
            distro_id: None,
            distro_pretty_name: None,
            desktop: None,
            session_type: None,
            shell: None,
            kernel: None,
            path_dirs: Vec::new(),
            knowledge: None,
        };
        assert(r@.path_dirs == Seq::<Seq<char>>::empty());
        r
    }
}

/// The line of the prompt for one fact, where it is known.
pub open spec fn fact_line(label: Seq<char>, value: Option<Seq<char>>) -> Seq<char> {
    match value {
        Some(v) => label + v + "\n"@,
        None => Seq::empty(),
    }
}

/// The line of the prompt for the directories, where there are any.
pub open spec fn dirs_line(dirs: Seq<Seq<char>>) -> Seq<char> {
    if dirs.len() == 0 {
        Seq::empty()
    } else {
        "- writable PATH dirs: "@ + joined(dirs, ", "@) + "\n"@
    }
}

/// What the prompt says of the distribution, where anything is known.
pub open spec fn knowledge_part(k: Option<KnowledgeView>) -> Seq<char> {
    match k {
        Some(k) => "\n"@ + k.block(),
        None => Seq::empty(),
    }
}

impl ContextView {
    /// What the prompt says of the host.
    pub open spec fn block(self) -> Seq<char> {
        "Host facts:\n"@ + fact_line("- distro: "@, self.distro_pretty_name) + fact_line(
            "- distro_id: "@,
            self.distro_id,
        ) + fact_line("- desktop: "@, self.desktop) + fact_line("- session: "@, self.session_type)
            + fact_line("- shell: "@, self.shell) + fact_line("- kernel: "@, self.kernel)
            + dirs_line(self.path_dirs) + knowledge_part(self.knowledge)
    }
}

fn push_fact(out: &mut String, label: &str, value: &Option<String>)
    ensures
        final(out)@ == old(out)@ + fact_line(label@, opt_text(*value)),
{
    match value {
        Some(v) => {
            push_line(out, label, v);
        },
        None => {
            assert(out@ + Seq::<char>::empty() == out@);
        },
    }
}

impl SystemContext {
    /// What is known of a host, from what was read on it: the text of
    /// `/etc/os-release`, the desktop, session and shell of the environment,
    /// the text of `/proc/sys/kernel/osrelease`, what the user's knowledge
    /// file holds, and the directories on the path.
    pub fn detect(
        os_release: Option<&str>,
        desktop: Option<String>,
        session_type: Option<String>,
        shell: Option<String>,
        kernel_release: Option<&str>,
        cached: Option<DistroKnowledge>,
        path_dirs: Vec<String>,
    ) -> (r: Self)
        ensures
            r@ == (ContextView {
                distro_id: release_field(os_release, "ID"@),
                distro_pretty_name: release_field(os_release, "PRETTY_NAME"@),
                desktop: opt_text(desktop),
                session_type: opt_text(session_type),
                shell: opt_text(shell),
                kernel: match kernel_release {
                    Some(s) => Some(trimmed(s@)),
                    None => None,
                },
                path_dirs: texts(path_dirs@),
                knowledge: match release_field(os_release, "ID"@) {
                    Some(id) => facts_for(id, opt_knowledge(cached)),
                    None => None,
                },
            }),
    {
        let distro_id = match os_release {
            Some(s) => os_release_field(s, "ID"),
            None => None,
        };
        let distro_pretty_name = match os_release {
            Some(s) => os_release_field(s, "PRETTY_NAME"),
            None => None,
        };
        let kernel = match kernel_release {
            Some(s) => Some(trim(s)),
            None => None,
        };
        let knowledge = match &distro_id {
            Some(id) => for_distro(id, cached),
            None => None,
        };
        SystemContext {
            distro_id,
            distro_pretty_name,
            desktop,
            session_type,
            shell,
            kernel,
            path_dirs,
            knowledge,
        }
    }

    /// What the prompt says of the host.
    pub fn as_prompt_block(&self) -> (r: String)
        ensures
            r@ == self@.block(),
    {
        let mut out = "Host facts:\n".to_string();
        push_fact(&mut out, "- distro: ", &self.distro_pretty_name);
        push_fact(&mut out, "- distro_id: ", &self.distro_id);
        push_fact(&mut out, "- desktop: ", &self.desktop);
        push_fact(&mut out, "- session: ", &self.session_type);
        push_fact(&mut out, "- shell: ", &self.shell);
        push_fact(&mut out, "- kernel: ", &self.kernel);
        let ghost upto = out@;
        if self.path_dirs.len() > 0 {
            let dirs = join(&self.path_dirs, ", ");
            push_line(&mut out, "- writable PATH dirs: ", &dirs);
        }
        assert(out@ == upto + dirs_line(self@.path_dirs));
        let ghost upto = out@;
        match &self.knowledge {
            Some(k) => {
                out.append("\n");
                let block = k.as_prompt_block();
                out.append(&block);
            },
            None => {},
        }
        assert(out@ == upto + knowledge_part(self@.knowledge));
        out
    }
}

/// The value that a line `key=value` of an os-release file gives to `key`,
/// without the quotes around it.
pub open spec fn line_value(line: Seq<char>, key: Seq<char>) -> Option<Seq<char>> {
    let at = until(line, '=');
    if at < line.len() && line.take(at) == key {
        Some(without_trailing(without_leading(line.skip(at + 1), '"'), '"'))
    } else {
        None
    }
}

/// The value that the last line that speaks of `key` gives to it.
pub open spec fn last_value(lines: Seq<Seq<char>>, key: Seq<char>) -> Option<Seq<char>>
    decreases lines.len(),
{
    if lines.len() == 0 {
        None
    } else {
        match line_value(lines.last(), key) {
            Some(v) => Some(v),
            None => last_value(lines.drop_last(), key),
        }
    }
}

/// The value of `key` in an os-release file that could be read.
pub open spec fn release_field(os_release: Option<&str>, key: Seq<char>) -> Option<Seq<char>> {
    match os_release {
        Some(s) => last_value(lines_of(s@), key),
        None => None,
    }
}

/// The value of `key` in the text of an os-release file. Where several lines
/// speak of it, the last one counts.
pub fn os_release_field(content: &str, key: &str) -> (r: Option<String>)
    ensures
        opt_text(r) == last_value(lines_of(content@), key@),
{
    let all = lines(content);
    let ghost views = texts(all@);
    let mut found: Option<String> = None;
    let mut i: usize = 0;
    while i < all.len()
        invariant
            i <= all@.len(),
            views == texts(all@),
            opt_text(found) == last_value(views.take(i as int), key@),
        decreases all@.len() - i,
    {
        proof {
            let upto = views.take(i + 1);
            assert(upto.drop_last() == views.take(i as int));
            assert(upto.last() == all@[i as int]@);
        }
        match split_once(&all[i], '=') {
            Some((k, v)) => {
                if same_text(&k, key) {
                    let chars = chars_of(&v);
                    let inner = drop_trailing(drop_leading(&chars, '"'), '"');
                    found = Some(string_of(inner));
                }
            },
            None => {},
        }
        i += 1;
    }
    assert(views.take(i as int) == views);
    found
}

/// Of the directories `dirs`, those that lie under `home` and of which
/// `present` holds, each one once, in the order of `dirs`.
pub open spec fn kept_dirs(
    dirs: Seq<Seq<char>>,
    home: Seq<char>,
    present: Seq<bool>,
) -> Seq<Seq<char>>
    decreases dirs.len(),
{
    if dirs.len() == 0 {
        Seq::empty()
    } else {
        let before = kept_dirs(dirs.drop_last(), home, present.drop_last());
        if path_below(dirs.last(), home) && present.last() && !before.contains(dirs.last()) {
            before.push(dirs.last())
        } else {
            before
        }
    }
}

/// Whether `list` holds `s`.
fn holds(list: &Vec<String>, s: &str) -> (r: bool)
    ensures
        r == texts(list@).contains(s@),
{
    let mut i: usize = 0;
    while i < list.len()
        invariant
            i <= list@.len(),
            forall|j: int| 0 <= j < i ==> (#[trigger] list@[j])@ != s@,
        decreases list@.len() - i,
    {
        if same_text(&list[i], s) {
            assert(texts(list@)[i as int] == s@);
            return true;
        }
        i += 1;
    }
    assert(forall|j: int| 0 <= j < texts(list@).len() ==> #[trigger] texts(list@)[j] == list@[j]@);
    false
}

/// Of the directories on the search path `path`, those that lie under `home`
/// and exist, in the order of the path: earlier ones shadow later ones. Only
/// of those under `home` is `is_dir` asked.
pub fn user_path_dirs_from<F: Fn(&str) -> bool>(home: &str, path: &str, is_dir: F) -> (r: Vec<
    String,
>)
    requires
        forall|dir: &str| path_below(dir@, home@) ==> #[trigger] is_dir.requires((dir,)),
    ensures
        exists|present: Seq<bool>| #[trigger]
            told(is_dir, fields_of(path@, ':'), home@, present) && texts(r@) == kept_dirs(
                fields_of(path@, ':'),
                home@,
                present,
            ),
{
    let dirs = split(path, ':');
    let ghost views = texts(dirs@);
    let mut out: Vec<String> = Vec::new();
    let ghost mut present: Seq<bool> = Seq::empty();
    let mut i: usize = 0;
    assert(texts(out@) == Seq::<Seq<char>>::empty());
    assert(views.take(0) == Seq::<Seq<char>>::empty());
    while i < dirs.len()
        invariant
            forall|dir: &str| path_below(dir@, home@) ==> #[trigger] is_dir.requires((dir,)),
            i <= dirs@.len(),
            views == texts(dirs@),
            present.len() == i,
            told(is_dir, views.take(i as int), home@, present),
            texts(out@) == kept_dirs(views.take(i as int), home@, present),
        decreases dirs@.len() - i,
    {
        let ghost upto = views.take(i + 1);
        let ghost before = present;
        let ghost kept = out@;
        assert(upto.drop_last() == views.take(i as int));
        assert(upto.last() == dirs@[i as int]@);
        let mut there = false;
        if is_below(&dirs[i], home) {
            let dir: &str = dirs[i].as_str();
            there = is_dir(dir);
            proof {
                present = present.push(there);
                assert(dir@ == upto[i as int]);
                assert(answered(is_dir, upto[i as int], there));
            }
            if there && !holds(&out, dir) {
                out.push(dir.to_string());
                assert(texts(out@) == texts(kept).push(dir@));
            }
        } else {
            proof {
                present = present.push(false);
            }
        }
        assert(present.drop_last() == before);
        assert forall|j: int|
            0 <= j < upto.len() && path_below(upto[j], home@) implies #[trigger] answered(
            is_dir,
            upto[j],
            present[j],
        ) by {
            if j < i {
                assert(upto[j] == views.take(i as int)[j]);
                assert(answered(is_dir, views.take(i as int)[j], before[j]));
            }
        }
        i += 1;
    }
    assert(views.take(i as int) == views);
    out
}

/// Whether `is_dir` may say `there` of the directory `dir`.
pub open spec fn answered<F: Fn(&str) -> bool>(is_dir: F, dir: Seq<char>, there: bool) -> bool {
    exists|d: &str| d@ == dir && #[trigger] is_dir.ensures((d,), there)
}

/// Whether `present` is what `is_dir` said of the directories under `home`.
pub open spec fn told<F: Fn(&str) -> bool>(
    is_dir: F,
    dirs: Seq<Seq<char>>,
    home: Seq<char>,
    present: Seq<bool>,
) -> bool {
    &&& present.len() == dirs.len()
    &&& forall|i: int|
        0 <= i < dirs.len() && path_below(dirs[i], home) ==> #[trigger] answered(
            is_dir,
            dirs[i],
            present[i],
        )
}

/// Every directory that is kept lies under `home`, is on the path, and is
/// kept once.
pub proof fn kept_dirs_are_the_users(dirs: Seq<Seq<char>>, home: Seq<char>, present: Seq<bool>)
    requires
        present.len() == dirs.len(),
    ensures
        kept_dirs(dirs, home, present).no_duplicates(),
        forall|d: Seq<char>| #[trigger]
            kept_dirs(dirs, home, present).contains(d) <==> path_below(d, home) && exists|i: int|
                0 <= i < dirs.len() && #[trigger] dirs[i] == d && present[i],
    decreases dirs.len(),
{
    let kept = kept_dirs(dirs, home, present);
    if dirs.len() == 0 {
    } else {
        let before = kept_dirs(dirs.drop_last(), home, present.drop_last());
        kept_dirs_are_the_users(dirs.drop_last(), home, present.drop_last());
        let last = dirs.last();
        assert forall|d: Seq<char>| #[trigger]
            kept.contains(d) <==> path_below(d, home) && exists|i: int|
                0 <= i < dirs.len() && #[trigger] dirs[i] == d && present[i] by {
            if kept.contains(d) {
                if before.contains(d) {
                    let i = choose|i: int|
                        0 <= i < dirs.drop_last().len() && #[trigger] dirs.drop_last()[i] == d
                            && present.drop_last()[i];
                    assert(dirs[i] == d && present[i]);
                } else {
                    let k = choose|k: int| 0 <= k < kept.len() && kept[k] == d;
                    assert(kept == before.push(last));
                    assert(k == before.len());
                    assert(dirs[dirs.len() - 1] == d && present[dirs.len() - 1]);
                }
            }
            if path_below(d, home) && exists|i: int|
                0 <= i < dirs.len() && #[trigger] dirs[i] == d && present[i] {
                let i = choose|i: int| 0 <= i < dirs.len() && #[trigger] dirs[i] == d && present[i];
                if i < dirs.len() - 1 {
                    assert(dirs.drop_last()[i] == d && present.drop_last()[i]);
                    assert(before.contains(d));
                }
                if before.contains(d) {
                    let k = choose|k: int| 0 <= k < before.len() && before[k] == d;
                    assert(kept[k] == d);
                } else {
                    assert(kept == before.push(last));
                    assert(kept[before.len() as int] == d);
                }
            }
        }
    }
}

/// Where `dir` first stands among the directories that are present, or their
/// number where it does not.
pub open spec fn first_place(dirs: Seq<Seq<char>>, present: Seq<bool>, dir: Seq<char>) -> int
    decreases dirs.len(),
{
    if dirs.len() == 0 {
        0
    } else {
        let before = first_place(dirs.drop_last(), present.drop_last(), dir);
        if before < dirs.len() - 1 || (dirs.last() == dir && present.last()) {
            before
        } else {
            dirs.len() as int
        }
    }
}

proof fn first_place_is_first(dirs: Seq<Seq<char>>, present: Seq<bool>, dir: Seq<char>)
    requires
        present.len() == dirs.len(),
    ensures
        0 <= first_place(dirs, present, dir) <= dirs.len(),
        first_place(dirs, present, dir) < dirs.len() <==> exists|i: int|
            0 <= i < dirs.len() && #[trigger] dirs[i] == dir && present[i],
    decreases dirs.len(),
{
    if dirs.len() > 0 {
        let init = dirs.drop_last();
        first_place_is_first(init, present.drop_last(), dir);
        let n = dirs.len() - 1;
        if exists|i: int| 0 <= i < init.len() && #[trigger] init[i] == dir
            && present.drop_last()[i] {
            let i = choose|i: int|
                0 <= i < init.len() && #[trigger] init[i] == dir && present.drop_last()[i];
            assert(dirs[i] == dir && present[i]);
        } else if dirs.last() == dir && present.last() {
            assert(dirs[n] == dir && present[n]);
        } else {
            assert forall|i: int| 0 <= i < dirs.len() && #[trigger] dirs[i] == dir implies
                !present[i] by {
                if i < n {
                    assert(init[i] == dir);
                }
            }
        }
    }
}

/// The directories are kept in the order in which they first stand on the
/// path.
pub proof fn kept_dirs_follow_the_path(
    dirs: Seq<Seq<char>>,
    home: Seq<char>,
    present: Seq<bool>,
)
    requires
        present.len() == dirs.len(),
    ensures
        forall|a: int, b: int|
            0 <= a < b < kept_dirs(dirs, home, present).len() ==> first_place(
                dirs,
                present,
                #[trigger] kept_dirs(dirs, home, present)[a],
            ) < first_place(dirs, present, #[trigger] kept_dirs(dirs, home, present)[b]),
    decreases dirs.len(),
{
    if dirs.len() > 0 {
        let init = dirs.drop_last();
        let there = present.drop_last();
        let before = kept_dirs(init, home, there);
        let kept = kept_dirs(dirs, home, present);
        kept_dirs_follow_the_path(init, home, there);
        kept_dirs_are_the_users(init, home, there);
        assert forall|a: int, b: int| 0 <= a < b < kept.len() implies first_place(
            dirs,
            present,
            #[trigger] kept[a],
        ) < first_place(dirs, present, #[trigger] kept[b]) by {
            assert(kept[a] == before[a]);
            assert(before.contains(before[a]));
            first_place_is_first(init, there, kept[a]);
            first_place_is_first(init, there, kept[b]);
            if b < before.len() {
                assert(kept[b] == before[b]);
                assert(before.contains(before[b]));
            } else {
                assert(kept[b] == dirs.last());
                assert(!before.contains(kept[b]));
            }
        }
    }
}

/// What the prompt says of the host: a line for each fact that is known, and
/// none for any other; then the directories, where there are any, and what is
/// known of the distribution.
pub proof fn known_facts_are_told(c: ContextView)
    ensures
        c.block() == "Host facts:\n"@ + (match c.distro_pretty_name {
            Some(v) => "- distro: "@ + v + "\n"@,
            None => Seq::empty(),
        }) + (match c.distro_id {
            Some(v) => "- distro_id: "@ + v + "\n"@,
            None => Seq::empty(),
        }) + (match c.desktop {
            Some(v) => "- desktop: "@ + v + "\n"@,
            None => Seq::empty(),
        }) + (match c.session_type {
            Some(v) => "- session: "@ + v + "\n"@,
            None => Seq::empty(),
        }) + (match c.shell {
            Some(v) => "- shell: "@ + v + "\n"@,
            None => Seq::empty(),
        }) + (match c.kernel {
            Some(v) => "- kernel: "@ + v + "\n"@,
            None => Seq::empty(),
        }) + (if c.path_dirs.len() > 0 {
            "- writable PATH dirs: "@ + joined(c.path_dirs, ", "@) + "\n"@
        } else {
            Seq::empty()
        }) + (match c.knowledge {
            Some(k) => "\n"@ + k.block(),
            None => Seq::empty(),
        }),
{
}

/// The facts of a host are seen one by one.
pub proof fn facts_are_seen_whole(c: SystemContext)
    ensures
        c.distro_id matches Some(s) ==> c@.distro_id == Some(s@),
        c.distro_id is None ==> c@.distro_id is None,
        c.distro_pretty_name matches Some(s) ==> c@.distro_pretty_name == Some(s@),
        c.distro_pretty_name is None ==> c@.distro_pretty_name is None,
        c.desktop matches Some(s) ==> c@.desktop == Some(s@),
        c.desktop is None ==> c@.desktop is None,
        c.session_type matches Some(s) ==> c@.session_type == Some(s@),
        c.session_type is None ==> c@.session_type is None,
        c.shell matches Some(s) ==> c@.shell == Some(s@),
        c.shell is None ==> c@.shell is None,
        c.kernel matches Some(s) ==> c@.kernel == Some(s@),
        c.kernel is None ==> c@.kernel is None,
        c@.path_dirs.len() == c.path_dirs@.len(),
        forall|i: int|
            0 <= i < c.path_dirs@.len() ==> #[trigger] c@.path_dirs[i] == c.path_dirs@[i]@,
        c.knowledge matches Some(k) ==> c@.knowledge == Some(k@),
        c.knowledge is None ==> c@.knowledge is None,
{
}

/// A line gives its key what stands behind the sign, without quotes around it,
/// and gives no other key anything.
pub proof fn release_line_is_read(key: Seq<char>, value: Seq<char>, other: Seq<char>)
    requires
        !key.contains('='),
        value.len() > 0 ==> value[0] != '"' && value.last() != '"',
        other != key,
    ensures
        line_value(key + "="@ + value, key) == Some(value),
        line_value(key + "=\""@ + value + "\""@, key) == Some(value),
        line_value(key + "="@ + value, other) is None,
        !value.contains('=') ==> line_value(value, key) is None,
{
    reveal_strlit("=");
    reveal_strlit("=\"");
    reveal_strlit("\"");
    let plain = key + "="@ + value;
    let quoted = key + "=\""@ + value + "\""@;
    let inner = seq!['"'] + value + seq!['"'];
    sign_is_found(key, value);
    sign_is_found(key, inner);
    assert(plain == key.push('=') + value);
    assert(quoted == key.push('=') + inner);
    only_the_run_is_dropped_ahead(value, '"');
    only_the_run_is_dropped_behind(value, '"');
    assert(without_leading(value, '"') == value) by {
        let n = without_leading(value, '"').len();
        if n < value.len() {
            assert(value[0] == '"');
        }
        assert(value.skip(0) == value);
    }
    assert(without_trailing(value, '"') == value) by {
        let n = without_trailing(value, '"').len();
        if n < value.len() {
            assert(value[value.len() - 1] == '"');
        }
        assert(value.take(value.len() as int) == value);
    }
    if value.len() > 0 {
        let tail = value.push('"');
        assert(inner.drop_first() == tail);
        assert(inner.first() == '"');
        assert(tail.first() == value[0]);
        assert(without_leading(tail, '"') == tail);
        assert(without_leading(inner, '"') == tail);
        assert(tail.drop_last() == value);
        assert(without_trailing(tail, '"') == value);
    } else {
        assert(value == Seq::<char>::empty());
        let one = inner.drop_first();
        assert(inner.first() == '"' && one.len() == 1 && one.first() == '"');
        assert(one.drop_first() == value);
        reveal_with_fuel(without_leading, 3);
        assert(without_leading(inner, '"') == value);
    }
    if !value.contains('=') {
        until_is_first(value, '=');
        if until(value, '=') < value.len() {
            assert(value.contains(value[until(value, '=')]));
        }
    }
}

proof fn sign_is_found(key: Seq<char>, value: Seq<char>)
    requires
        !key.contains('='),
    ensures
        ({
            let line = key.push('=') + value;
            &&& until(line, '=') == key.len()
            &&& line.take(key.len() as int) == key
            &&& line.skip(key.len() as int + 1) == value
        }),
{
    let line = key.push('=') + value;
    let n = key.len() as int;
    until_is_first(line, '=');
    assert(line[n] == '=');
    if until(line, '=') < n {
        assert(key.contains(key[until(line, '=')]));
    }
    assert(line.take(n) == key);
    assert(line.skip(n + 1) == value);
}

/// Where several lines speak of a key, the last one counts; where none does,
/// or nothing can be read, it has no value.
pub proof fn last_line_counts(
    before: Seq<Seq<char>>,
    line: Seq<char>,
    after: Seq<Seq<char>>,
    key: Seq<char>,
)
    requires
        forall|i: int| 0 <= i < after.len() ==> line_value(#[trigger] after[i], key) is None,
    ensures
        last_value(after, key) is None,
        line_value(line, key) is Some ==> last_value(before + seq![line] + after, key)
            == line_value(line, key),
        release_field(None, key) is None,
    decreases after.len(),
{
    let all = before + seq![line] + after;
    if after.len() > 0 {
        let a = after.drop_last();
        assert forall|i: int| 0 <= i < a.len() implies line_value(#[trigger] a[i], key) is None by {
            assert(a[i] == after[i]);
        }
        last_line_counts(before, line, a, key);
        assert(after[after.len() - 1] == after.last());
        assert(all.last() == after.last());
        assert(all.drop_last() == before + seq![line] + a);
    } else {
        assert(all.last() == line);
    }
}

/// A field is read from the lines of the file.
pub proof fn release_is_read_by_line(s: &str, key: Seq<char>)
    ensures
        release_field(Some(s), key) == last_value(lines_of(s@), key),
{
}

/// A directory is kept only where the host says that it is there, and one of
/// the path and the home of which the host says nothing else is kept.
pub proof fn kept_dirs_are_there<F: Fn(&str) -> bool>(
    is_dir: F,
    dirs: Seq<Seq<char>>,
    home: Seq<char>,
    present: Seq<bool>,
)
    requires
        told(is_dir, dirs, home, present),
    ensures
        forall|d: Seq<char>| #[trigger]
            kept_dirs(dirs, home, present).contains(d) ==> exists|x: &str|
                x@ == d && #[trigger] is_dir.ensures((x,), true),
        forall|i: int|
            #![trigger dirs[i]]
            0 <= i < dirs.len() && path_below(dirs[i], home) && (forall|x: &str|
                x@ == dirs[i] ==> !(#[trigger] is_dir.ensures((x,), false))) ==> kept_dirs(
                dirs,
                home,
                present,
            ).contains(dirs[i]),
{
    kept_dirs_are_the_users(dirs, home, present);
    let kept = kept_dirs(dirs, home, present);
    assert forall|d: Seq<char>| #[trigger] kept.contains(d) implies exists|x: &str|
        x@ == d && #[trigger] is_dir.ensures((x,), true) by {
        let i = choose|i: int| 0 <= i < dirs.len() && #[trigger] dirs[i] == d && present[i];
        assert(answered(is_dir, dirs[i], present[i]));
    }
    assert forall|i: int|
        #![trigger dirs[i]]
        0 <= i < dirs.len() && path_below(dirs[i], home) && (forall|x: &str|
            x@ == dirs[i] ==> !(#[trigger] is_dir.ensures((x,), false))) implies kept.contains(
        dirs[i],
    ) by {
        assert(answered(is_dir, dirs[i], present[i]));
        assert(present[i]);
    }
}

} // verus!
