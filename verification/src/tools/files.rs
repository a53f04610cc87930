//! File tools: find, read, edit and write text files.
//!
//! - Finding and reading change nothing and ask nothing.
//! - Reading stops at 64 KiB, at the end of a character, and refuses files with
//!   NUL bytes, so that no binary lands in front of the model.
//! - Editing replaces an exact text that must stand in the file once, shows
//!   what changes, and asks first. Files are written beside their place and
//!   moved there, so that the old content survives a crash.
use vstd::prelude::*;
use vstd::slice::slice_subrange;
use vstd::utf8::{
    decode_first_scalar, decode_utf8, decode_utf8_encode_utf8, decode_utf8_split, encode_utf8,
    encode_utf8_decode_utf8, encode_utf8_valid_utf8, is_char_boundary_iff_not_is_continuation_byte,
    is_char_boundary_start_end_of_seq, is_continuation_byte, length_of_first_scalar,
    pop_first_scalar, take_first_scalar, valid_utf8, valid_utf8_concat, valid_utf8_split,
};

use super::{
    check_of, outcome_of, text_arg, Answered, ToolError, ToolResult, ToolResultView,
};
use crate::decimal::{numeral, show_signed, show_usize, signed_numeral};
use crate::json::{json_int, text_list, Json, JsonView, ObjectBuilder};
use crate::lines::{lines, lines_end_at_line_feeds, lines_hold_no_line_feed, lines_of};
use crate::paths::{
    expand_path, expanded_path, file_name_is_one_component, file_name_of, join_path,
    joined_name_is_beside, joined_path, opt_text, parent_of, path_file_name, path_parent,
};
use crate::search::{
    apart, contains, count_matches, counted_places, find, index_from_is_first, index_of,
    index_of_none_iff_absent, index_of_unique, match_count, no_more_than_counted, occurs_at,
    replaced_first,
};
use crate::text::{
    byte_len, chars_of, concat2, concat3, concat4, concat5, concat6, concat7, concat8,
    count_bytes, first_chars, has_prefix, has_suffix, lossy_text, read_lossy, read_utf8, same_text, string_of, take_chars,
    texts, utf8_complaint,
};

verus! {

/// The most bytes that are read of a file.
pub const READ_CAP_BYTES: usize = 65536;

/// How many paths a search shows, unless it is asked for more or fewer.
pub const FIND_DEFAULT_LIMIT: usize = 50;

/// The most paths that a search shows.
pub const FIND_MAX_LIMIT: usize = 500;

/// Finds files by a glob pattern.
#[derive(Debug, Default)]
pub struct FindFileTool;

/// Reads a text file.
#[derive(Debug, Default)]
pub struct ReadFileTool;

/// Replaces a text in a file.
#[derive(Debug, Default)]
pub struct EditFileTool;

/// Creates or overwrites a file.
#[derive(Debug, Default)]
pub struct WriteFileTool;

/// How a text is shown in a question: its first line, up to `max_chars`
/// characters, and an ellipsis where anything is left out.
pub open spec fn snippet_text(s: Seq<char>, max_chars: int) -> Seq<char> {
    let lines = lines_of(s);
    let first = if lines.len() == 0 {
        Seq::empty()
    } else {
        lines.first()
    };
    let shown = first_chars(first, max_chars);
    if first.len() > max_chars || lines.len() > 1 {
        shown.push('…')
    } else {
        shown
    }
}

/// How a text is shown in a question.
pub fn snippet(s: &str, max_chars: usize) -> (r: String)
    ensures
        r@ == snippet_text(s@, max_chars as int),
{
    let all = lines(s);
    let first = if all.len() == 0 {
        Vec::new()
    } else {
        chars_of(&all[0])
    };
    assert(first@ == if lines_of(s@).len() == 0 {
        Seq::empty()
    } else {
        lines_of(s@).first()
    });
    let mut out = string_of(take_chars(&first, max_chars));
    if first.len() > max_chars || all.len() > 1 {
        out.push('…');
    }
    out
}

/// Why a file does not take part: it is not there, or it is no file.
pub open spec fn file_complaint(path: Seq<char>, there: bool, is_file: bool) -> Option<Seq<char>> {
    if !there {
        Some("file does not exist: "@ + path)
    } else if !is_file {
        Some("not a regular file: "@ + path)
    } else {
        None
    }
}

/// Refuses a path at which there is no regular file.
pub fn check_file(path: &str, there: bool, is_file: bool) -> (r: Result<(), ToolError>)
    ensures
        check_of(r) == match file_complaint(path@, there, is_file) {
            Some(m) => Err::<(), Seq<char>>(m),
            None => Ok(()),
        },
{
    if !there {
        return Err(ToolError::new(concat2("file does not exist: ", path)));
    }
    if !is_file {
        return Err(ToolError::new(concat2("not a regular file: ", path)));
    }
    Ok(())
}

/// What to search for.
#[derive(Debug)]
pub struct FindPlan {
    pub pattern: String,
    pub root: String,
    pub limit: usize,
}

/// How many paths to show.
pub open spec fn find_limit(asked: Option<u64>) -> int {
    match asked {
        Some(n) => if n < 500 {
            n as int
        } else {
            500
        },
        None => 50,
    }
}

/// Where to search.
pub open spec fn find_root(asked: Option<Seq<char>>, home: Option<Seq<char>>) -> Seq<char> {
    match asked {
        Some(root) => expanded_path(root, home),
        None => expanded_path("."@, home),
    }
}

/// What a search that found the paths `all` says.
pub open spec fn find_summary(
    pattern: Seq<char>,
    root: Seq<char>,
    total: nat,
    limit: nat,
) -> Seq<char> {
    let found = "found "@ + numeral(total) + " match(es) for `"@ + pattern + "` in "@ + root;
    if total > limit {
        found + " (showing "@ + numeral(limit) + ")"@
    } else {
        found
    }
}

/// What a search that found the paths `all` reports.
pub open spec fn find_report(
    pattern: Seq<char>,
    root: Seq<char>,
    limit: nat,
    all: Seq<Seq<char>>,
) -> ToolResultView {
    let shown = if all.len() > limit {
        all.take(limit as int)
    } else {
        all
    };
    ToolResultView {
        tool: "find_file"@,
        summary: find_summary(pattern, root, all.len(), limit),
        data: JsonView::Object(
            map![
                "pattern"@ => JsonView::Text(pattern),
                "root"@ => JsonView::Text(root),
                "matches"@ => text_list(shown),
                "total"@ => json_int(all.len() as int),
                "truncated"@ => JsonView::Bool(all.len() > limit),
            ],
        ),
    }
}

/// What the model is told about finding files.
pub const FIND_DESCRIPTION: &'static str = "Find files matching a glob pattern. Args: {\"pattern\": \"*.rs\", \"root\": \".\" (optional, default cwd), \"limit\": 50 (optional)}. Returns up to `limit` matching paths.";

impl FindFileTool {
    /// The name the model calls it by.
    pub fn name(&self) -> (r: &'static str)
        ensures
            r@ == "find_file"@,
    {
        "find_file"
    }

    /// What the model is told about it.
    pub fn description(&self) -> (r: &'static str)
        ensures
            r@ == FIND_DESCRIPTION@,
    {
        FIND_DESCRIPTION
    }

    /// What a call asks to search for.
    pub fn plan(&self, args: &Json, home: &Option<String>) -> (r: Result<FindPlan, ToolError>)
        ensures
            match args@.text_at("pattern"@) {
                Some(pattern) => {
                    &&& r matches Ok(plan)
                    &&& plan.pattern@ == pattern
                    &&& plan.root@ == find_root(args@.text_at("root"@), opt_text(*home))
                    &&& plan.limit == find_limit(args@.unsigned_at("limit"@))
                },
                None => r matches Err(e) && e.message@
                    == "find_file requires {\"pattern\":\"...\"}"@,
            },
    {
        let pattern = match text_arg(
            args,
            "pattern",
            "find_file requires {\"pattern\":\"...\"}",
        ) {
            Ok(s) => s,
            Err(e) => {
                return Err(e);
            },
        };
        let root = match args.get_str("root") {
            Some(s) => expand_path(s, home),
            None => expand_path(".", home),
        };
        let limit = match args.get_u64("limit") {
            Some(n) => if n < 500 {
                n as usize
            } else {
                FIND_MAX_LIMIT
            },
            None => FIND_DEFAULT_LIMIT,
        };
        Ok(FindPlan { pattern: pattern.to_string(), root, limit })
    }

    /// Refuses a search below a directory that is not there.
    pub fn check_root(&self, plan: &FindPlan, there: bool) -> (r: Result<(), ToolError>)
        ensures
            check_of(r) == if there {
                Ok::<(), Seq<char>>(())
            } else {
                Err("find_file root does not exist: "@ + plan.root@)
            },
    {
        if there {
            Ok(())
        } else {
            Err(ToolError::new(concat2("find_file root does not exist: ", &plan.root)))
        }
    }

    /// The program to run and its arguments: `fd` where it is on the path,
    /// and `find` otherwise.
    pub fn command(&self, plan: &FindPlan, fd_on_path: bool) -> (r: Vec<String>)
        ensures
            texts(r@) == if fd_on_path {
                seq!["fd"@, "--glob"@, plan.pattern@, plan.root@]
            } else {
                seq!["find"@, plan.root@, "-name"@, plan.pattern@]
            },
    {
        let mut r: Vec<String> = Vec::new();
        if fd_on_path {
            r.push("fd".to_string());
            r.push("--glob".to_string());
            r.push(plan.pattern.clone());
            r.push(plan.root.clone());
            assert(texts(r@) == seq!["fd"@, "--glob"@, plan.pattern@, plan.root@]);
        } else {
            r.push("find".to_string());
            r.push(plan.root.clone());
            r.push("-name".to_string());
            r.push(plan.pattern.clone());
            assert(texts(r@) == seq!["find"@, plan.root@, "-name"@, plan.pattern@]);
        }
        r
    }

    /// What a program that could not be started is reported as.
    pub fn not_started(&self, fd_on_path: bool, error: &str) -> (r: ToolError)
        ensures
            r.message@ == (if fd_on_path {
                "fd: "@
            } else {
                "find: "@
            }) + error@,
    {
        if fd_on_path {
            ToolError::new(concat2("fd: ", error))
        } else {
            ToolError::new(concat2("find: ", error))
        }
    }

    /// What a search reports, from what the program wrote.
    pub fn finish(
        &self,
        plan: &FindPlan,
        success: bool,
        status: &str,
        stdout: &[u8],
        stderr: &[u8],
    ) -> (r: Result<ToolResult, ToolError>)
        ensures
            outcome_of(r) == if success {
                Ok(
                    find_report(
                        plan.pattern@,
                        plan.root@,
                        plan.limit as nat,
                        lines_of(lossy_text(stdout@)),
                    ),
                )
            } else {
                Err("find_file failed ("@ + status@ + "): "@ + lossy_text(stderr@))
            },
    {
        if !success {
            let said = read_lossy(stderr);
            return Err(ToolError::new(concat4("find_file failed (", status, "): ", &said)));
        }
        let text = read_lossy(stdout);
        Ok(self.report(plan, &text))
    }

    /// What a search reports, from the lines that the program wrote.
    pub fn report(&self, plan: &FindPlan, stdout: &str) -> (r: ToolResult)
        ensures
            r@ == find_report(plan.pattern@, plan.root@, plan.limit as nat, lines_of(stdout@)),
    {
        let mut all = lines(stdout);
        let ghost views = texts(all@);
        let total = all.len();
        let truncated = total > plan.limit;
        let head = concat6(
            "found ",
            &show_usize(total),
            " match(es) for `",
            &plan.pattern,
            "` in ",
            &plan.root,
        );
        let summary = if truncated {
            concat4(&head, " (showing ", &show_usize(plan.limit), ")")
        } else {
            head
        };
        if truncated {
            all.truncate(plan.limit);
            assert(texts(all@) == views.take(plan.limit as int));
        }
        let b = ObjectBuilder::new().with("pattern", Json::text(&plan.pattern));
        let b = b.with("root", Json::text(&plan.root));
        let b = b.with("matches", Json::text_array(&all));
        let b = b.with("total", Json::unsigned(total as u64));
        let data = b.with("truncated", Json::Bool(truncated)).build();
        ToolResult { tool: "find_file".to_string(), summary, data }
    }
}

/// Where the character begins that the byte before `n` belongs to.
pub open spec fn char_start(bytes: Seq<u8>, n: int) -> int
    decreases n,
{
    if n <= 0 {
        0
    } else if is_continuation_byte(bytes[n - 1]) {
        char_start(bytes, n - 1)
    } else {
        n - 1
    }
}

/// Whether a character stands across the cap: it goes on behind it, and all
/// that is read up to its end is text.
pub open spec fn crosses_cap(bytes: Seq<u8>) -> bool {
    &&& bytes.len() > 65536
    &&& is_continuation_byte(bytes[65536])
    &&& {
        ||| valid_utf8(bytes.take(65537))
        ||| bytes.len() >= 65538 && valid_utf8(bytes.take(65538))
        ||| bytes.len() >= 65539 && valid_utf8(bytes.take(65539))
    }
}

/// How many bytes of a file are shown: all of a small one, and of a larger one
/// those up to the cap, without a character that stands across it.
pub open spec fn shown_len(bytes: Seq<u8>) -> int {
    if bytes.len() <= 65536 {
        bytes.len() as int
    } else if crosses_cap(bytes) {
        char_start(bytes, 65536)
    } else {
        65536
    }
}

/// What a read of `bytes` reports.
pub open spec fn read_outcome(path: Seq<char>, bytes: Seq<u8>) -> Result<
    ToolResultView,
    Seq<char>,
> {
    let shown = bytes.take(shown_len(bytes));
    if bytes.contains(0u8) {
        Err("file looks binary (contains NUL bytes): "@ + path)
    } else if !valid_utf8(shown) {
        Err("file is not valid UTF-8: "@ + utf8_complaint(shown))
    } else {
        let content = decode_utf8(shown);
        let lines = numeral(lines_of(content).len());
        Ok(
            ToolResultView {
                tool: "read_file"@,
                summary: if bytes.len() > 65536 {
                    "read "@ + path + " ("@ + numeral(shown.len()) + " bytes shown of "@ + numeral(
                        bytes.len(),
                    ) + (", "@ + lines + " lines)"@)
                } else {
                    "read "@ + path + " ("@ + numeral(bytes.len()) + " bytes, "@ + lines
                        + " lines)"@
                },
                data: JsonView::Object(
                    map![
                        "path"@ => JsonView::Text(path),
                        "content"@ => JsonView::Text(content),
                        "bytes"@ => json_int(bytes.len() as int),
                        "truncated"@ => JsonView::Bool(bytes.len() > 65536),
                    ],
                ),
            },
        )
    }
}

/// Whether a byte is zero anywhere.
fn has_nul(bytes: &[u8]) -> (r: bool)
    ensures
        r == bytes@.contains(0u8),
{
    let mut i: usize = 0;
    while i < bytes.len()
        invariant
            i <= bytes@.len(),
            forall|j: int| 0 <= j < i ==> bytes@[j] != 0u8,
        decreases bytes@.len() - i,
    {
        if bytes[i] == 0 {
            assert(bytes@[i as int] == 0u8);
            return true;
        }
        i += 1;
    }
    false
}

fn is_text(bytes: &[u8]) -> (r: bool)
    ensures
        r == valid_utf8(bytes@),
{
    read_utf8(bytes).is_ok()
}

fn cut_to_text(bytes: &[u8], n: usize) -> (r: bool)
    requires
        n <= bytes@.len(),
    ensures
        r == valid_utf8(bytes@.take(n as int)),
{
    let head = slice_subrange(bytes, 0, n);
    assert(head@ == bytes@.take(n as int));
    is_text(head)
}

/// The part of a file that is shown.
fn shown_bytes(bytes: &[u8]) -> (r: &[u8])
    ensures
        r@ == bytes@.take(shown_len(bytes@)),
{
    let len = bytes.len();
    if len <= READ_CAP_BYTES {
        assert(bytes@.take(len as int) == bytes@);
        return bytes;
    }
    let next = bytes[READ_CAP_BYTES];
    let crosses = 0x80 <= next && next <= 0xbf && (cut_to_text(bytes, 65537) || (len >= 65538
        && cut_to_text(bytes, 65538)) || (len >= 65539 && cut_to_text(bytes, 65539)));
    let mut n: usize = READ_CAP_BYTES;
    if crosses {
        while n > 0 && 0x80 <= bytes[n - 1] && bytes[n - 1] <= 0xbf
            invariant
                n <= 65536 < bytes@.len(),
                char_start(bytes@, n as int) == char_start(bytes@, 65536),
            decreases n,
        {
            n -= 1;
        }
        if n > 0 {
            n -= 1;
        }
    }
    let r = slice_subrange(bytes, 0, n);
    assert(r@ == bytes@.take(n as int));
    r
}

/// Up to a place where a character begins, and up to its end, a text is a
/// text, of which the second has that character more.
proof fn text_up_to(bytes: Seq<u8>, n: int) -> (m: int)
    requires
        valid_utf8(bytes),
        0 <= n < bytes.len(),
        !is_continuation_byte(bytes[n]),
    ensures
        n < m <= n + 4,
        m <= bytes.len(),
        m < bytes.len() ==> !is_continuation_byte(bytes[m]),
        forall|i: int| n < i < m ==> is_continuation_byte(#[trigger] bytes[i]),
        valid_utf8(bytes.take(n)),
        valid_utf8(bytes.take(m)),
        ({
            let k = decode_utf8(bytes.take(n)).len() as int;
            &&& k < decode_utf8(bytes).len()
            &&& decode_utf8(bytes).take(k) == decode_utf8(bytes.take(n))
            &&& decode_utf8(bytes).take(k + 1) == decode_utf8(bytes.take(m))
        }),
{
    let len = bytes.len() as int;
    is_char_boundary_iff_not_is_continuation_byte(bytes, n);
    valid_utf8_split(bytes, n);
    decode_utf8_split(bytes, n);
    let rest = bytes.subrange(n, len);
    let m = n + length_of_first_scalar(rest);
    let first = take_first_scalar(rest);
    let behind = pop_first_scalar(rest);
    assert(bytes.take(n) == bytes.subrange(0, n));
    reveal_with_fuel(valid_utf8, 2);
    reveal_with_fuel(decode_utf8, 2);
    assert(pop_first_scalar(first) == Seq::<u8>::empty());
    assert(valid_utf8(first));
    valid_utf8_concat(bytes.take(n), first);
    assert(bytes.take(n) + first == bytes.take(m));
    assert forall|i: int| n < i < m implies is_continuation_byte(#[trigger] bytes[i]) by {
        assert(rest[i - n] == bytes[i]);
    }
    if m < len {
        is_char_boundary_start_end_of_seq(behind);
        is_char_boundary_iff_not_is_continuation_byte(behind, 0);
        assert(behind[0] == bytes[m]);
    }
    let upto = bytes.take(m);
    assert(upto[n] == bytes[n]);
    is_char_boundary_iff_not_is_continuation_byte(upto, n);
    decode_utf8_split(upto, n);
    assert(upto.subrange(0, n) == bytes.take(n));
    assert(upto.subrange(n, m) == first);
    let k = decode_utf8(bytes.take(n)).len() as int;
    assert(decode_utf8(bytes).take(k) == decode_utf8(bytes.take(n)));
    assert(decode_utf8(first) == seq![decode_first_scalar(rest) as char]);
    assert(decode_utf8(bytes).take(k + 1) == decode_utf8(upto));
    m
}

proof fn char_start_is_last(bytes: Seq<u8>, n: int)
    requires
        0 < n <= bytes.len(),
        !is_continuation_byte(bytes[0]),
    ensures
        0 <= char_start(bytes, n) < n,
        !is_continuation_byte(bytes[char_start(bytes, n)]),
        forall|i: int|
            char_start(bytes, n) < i < n ==> is_continuation_byte(#[trigger] bytes[i]),
    decreases n,
{
    if is_continuation_byte(bytes[n - 1]) {
        char_start_is_last(bytes, n - 1);
    }
}

/// A text without NUL bytes is read, however long it is: what is shown of it
/// are its first characters, as many as the cap has room for.
pub proof fn text_is_read(path: Seq<char>, s: Seq<char>)
    requires
        !encode_utf8(s).contains(0u8),
    ensures
        exists|k: int|
            {
                &&& 0 <= k <= s.len()
                &&& read_outcome(path, encode_utf8(s)) matches Ok(report)
                &&& report.data.text_at("content"@) == Some(#[trigger] s.take(k))
                &&& byte_len(s.take(k)) <= 65536
                &&& k < s.len() ==> byte_len(s.take(k + 1)) > 65536
            },
{
    reveal_strlit("path");
    reveal_strlit("content");
    reveal_strlit("bytes");
    reveal_strlit("truncated");
    let bytes = encode_utf8(s);
    encode_utf8_valid_utf8(s);
    encode_utf8_decode_utf8(s);
    assert("content"@.len() == 7 && "path"@.len() == 4 && "bytes"@.len() == 5 && "truncated"@.len()
        == 9);
    if bytes.len() <= 65536 {
        assert(bytes.take(bytes.len() as int) == bytes);
        assert(s.take(s.len() as int) == s);
        let k = s.len() as int;
        assert(byte_len(s.take(k)) <= 65536);
    } else {
        is_char_boundary_start_end_of_seq(bytes);
        is_char_boundary_iff_not_is_continuation_byte(bytes, 0);
        let n = if is_continuation_byte(bytes[65536]) {
            char_start(bytes, 65536)
        } else {
            65536
        };
        char_start_is_last(bytes, 65536);
        let m = text_up_to(bytes, n);
        if n < 65536 {
            assert(m > 65536) by {
                if m <= 65536 {
                    assert(is_continuation_byte(bytes[m]));
                }
            }
            assert(crosses_cap(bytes));
        }
        assert(shown_len(bytes) == n);
        let k = decode_utf8(bytes.take(n)).len() as int;
        decode_utf8_encode_utf8(bytes.take(n));
        decode_utf8_encode_utf8(bytes.take(m));
        assert(s.take(k) == decode_utf8(bytes.take(n)));
        assert(byte_len(s.take(k)) == n);
        assert(byte_len(s.take(k + 1)) == m);
    }
}

/// What the model is told about reading files.
pub const READ_DESCRIPTION: &'static str = "Read a UTF-8 text file. Args: {\"path\": \"...\"}. Caps content at 64 KiB and refuses binary files.";

impl ReadFileTool {
    /// The name the model calls it by.
    pub fn name(&self) -> (r: &'static str)
        ensures
            r@ == "read_file"@,
    {
        "read_file"
    }

    /// What the model is told about it.
    pub fn description(&self) -> (r: &'static str)
        ensures
            r@ == READ_DESCRIPTION@,
    {
        READ_DESCRIPTION
    }

    /// The file that a call asks to read.
    pub fn plan(&self, args: &Json, home: &Option<String>) -> (r: Result<String, ToolError>)
        ensures
            match args@.text_at("path"@) {
                Some(path) => r matches Ok(p) && p@ == expanded_path(path, opt_text(*home)),
                None => r matches Err(e) && e.message@ == "read_file requires {\"path\":\"...\"}"@,
            },
    {
        match text_arg(args, "path", "read_file requires {\"path\":\"...\"}") {
            Ok(path) => Ok(expand_path(path, home)),
            Err(e) => Err(e),
        }
    }

    /// What a read reports, from what the file holds.
    pub fn finish(&self, path: &str, bytes: &[u8]) -> (r: Result<ToolResult, ToolError>)
        ensures
            outcome_of(r) == read_outcome(path@, bytes@),
    {
        let len = bytes.len();
        let truncated = len > READ_CAP_BYTES;
        let shown = shown_bytes(bytes);
        if has_nul(bytes) {
            return Err(ToolError::new(concat2("file looks binary (contains NUL bytes): ", path)));
        }
        let content = match read_utf8(shown) {
            Ok(s) => s,
            Err(m) => {
                return Err(ToolError::new(concat2("file is not valid UTF-8: ", &m)));
            },
        };
        proof {
            encode_utf8_decode_utf8(content@);
        }
        let count = show_usize(lines(&content).len());
        let summary = if truncated {
            let tail = concat3(", ", &count, " lines)");
            concat7(
                "read ",
                path,
                " (",
                &show_usize(shown.len()),
                " bytes shown of ",
                &show_usize(len),
                &tail,
            )
        } else {
            concat7("read ", path, " (", &show_usize(len), " bytes, ", &count, " lines)")
        };
        let b = ObjectBuilder::new().with("path", Json::text(path));
        let b = b.with("content", Json::text(&content));
        let b = b.with("bytes", Json::unsigned(len as u64));
        let data = b.with("truncated", Json::Bool(truncated)).build();
        Ok(ToolResult { tool: "read_file".to_string(), summary, data })
    }
}

/// Why an edit was not made.
#[derive(Debug, PartialEq, Eq)]
pub enum EditError {
    /// There is nothing to look for.
    EmptyOld,
    /// The edit would change nothing.
    Identical,
    /// The text is not in the file.
    NotFound,
    /// The text is in the file this many times.
    Ambiguous { count: usize },
}

/// The contents after an edit.
pub open spec fn edited(original: Seq<char>, old: Seq<char>, new: Seq<char>) -> Result<
    Seq<char>,
    EditError,
> {
    if old.len() == 0 {
        Err(EditError::EmptyOld)
    } else if old == new {
        Err(EditError::Identical)
    } else if match_count(original, old) == 0 {
        Err(EditError::NotFound)
    } else if match_count(original, old) == 1 {
        Ok(replaced_first(original, old, new))
    } else {
        Err(EditError::Ambiguous { count: match_count(original, old) as usize })
    }
}

/// The outcome of an edit, as text.
pub open spec fn edit_view(r: Result<String, EditError>) -> Result<Seq<char>, EditError> {
    match r {
        Ok(s) => Ok(s@),
        Err(e) => Err(e),
    }
}

impl EditError {
    /// What the failure says.
    pub open spec fn text(self) -> Seq<char> {
        match self {
            EditError::EmptyOld => "edit_file `old` must not be empty"@,
            EditError::Identical => "edit_file `old` and `new` are identical"@,
            EditError::NotFound => "`old` text not found in file"@,
            EditError::Ambiguous { count } => "`old` text matches "@ + numeral(count as nat)
                + " places — make it longer/more specific so it matches once"@,
        }
    }

    /// What to tell the user.
    pub fn message(&self) -> (r: String)
        ensures
            r@ == self.text(),
    {
        match self {
            EditError::EmptyOld => "edit_file `old` must not be empty".to_string(),
            EditError::Identical => "edit_file `old` and `new` are identical".to_string(),
            EditError::NotFound => "`old` text not found in file".to_string(),
            EditError::Ambiguous { count } => concat3(
                "`old` text matches ",
                &show_usize(*count),
                " places — make it longer/more specific so it matches once",
            ),
        }
    }
}

/// The contents of a file after `old` is replaced by `new`. The text `old`
/// must be there once, counted from the left without overlaps.
pub fn apply_edit(original: &str, old: &str, new: &str) -> (r: Result<String, EditError>)
    ensures
        edit_view(r) == edited(original@, old@, new@),
        r matches Err(EditError::Ambiguous { count }) ==> count == match_count(original@, old@),
{
    let whole = chars_of(original);
    let pat = chars_of(old);
    if pat.len() == 0 {
        return Err(EditError::EmptyOld);
    }
    if same_text(old, new) {
        return Err(EditError::Identical);
    }
    let len = whole.len();
    let count = count_matches(&whole, &pat);
    if count == 0 {
        return Err(EditError::NotFound);
    }
    if count > 1 {
        return Err(EditError::Ambiguous { count });
    }
    match find(&whole, &pat) {
        Some(i) => {
            let before = string_of(slice_subrange(whole.as_slice(), 0, i));
            let after = string_of(slice_subrange(whole.as_slice(), i + pat.len(), len));
            assert(before@ == original@.take(i as int));
            assert(after@ == original@.skip(i + old@.len()));
            Ok(concat3(&before, new, &after))
        },
        None => Err(EditError::NotFound),
    }
}

/// An edit takes effect: what comes out differs from what went in.
pub proof fn edit_changes(original: Seq<char>, old: Seq<char>, new: Seq<char>)
    ensures
        edited(original, old, new) matches Ok(s) ==> s != original,
{
    if let Ok(s) = edited(original, old, new) {
        index_from_is_first(original, old, 0);
        let i = index_of(original, old)->Some_0;
        if s == original {
            assert(s.len() == original.len() - old.len() + new.len());
            assert(original.subrange(i, i + old.len()) == s.subrange(i, i + new.len()));
            assert(s.subrange(i, i + new.len()) == new);
        }
    }
}

/// An edit is undone by the edit with its texts exchanged, where the new
/// text then stands in the file once, at the place of the old one.
pub proof fn edit_is_undone(original: Seq<char>, old: Seq<char>, new: Seq<char>)
    requires
        edited(original, old, new) is Ok,
        match_count(edited(original, old, new)->Ok_0, new) == 1,
        index_of(edited(original, old, new)->Ok_0, new) == index_of(original, old),
    ensures
        edited(edited(original, old, new)->Ok_0, new, old) == Ok::<Seq<char>, EditError>(original),
{
    let s = edited(original, old, new)->Ok_0;
    index_from_is_first(original, old, 0);
    let i = index_of(original, old)->Some_0;
    assert(original.subrange(i, i + old.len()) == old);
    assert(s.take(i) == original.take(i));
    assert(s.skip(i + new.len()) == original.skip(i + old.len()));
    assert(replaced_first(s, new, old) == original);
}

/// A text that stands in the file at one place only is replaced there, and
/// all else is kept.
pub proof fn unique_text_is_replaced(
    original: Seq<char>,
    old: Seq<char>,
    new: Seq<char>,
    at: int,
)
    requires
        old.len() > 0,
        old != new,
        forall|j: int| occurs_at(original, old, j) <==> j == at,
    ensures
        edited(original, old, new) == Ok::<Seq<char>, EditError>(
            original.take(at) + new + original.skip(at + old.len()),
        ),
{
    assert(occurs_at(original, old, at));
    index_of_unique(original, old, at);
    let rest = original.skip(at + old.len());
    assert(!contains(rest, old)) by {
        if contains(rest, old) {
            let j = choose|j: int| occurs_at(rest, old, j);
            let k = at + old.len() + j;
            assert(original.subrange(k, k + old.len()) == rest.subrange(j, j + old.len()));
            assert(occurs_at(original, old, k));
        }
    }
    index_of_none_iff_absent(rest, old);
    assert(match_count(rest, old) == 0);
    assert(match_count(original, old) == 1);
}

/// A text that is not in the file is not found.
pub proof fn absent_text_is_not_found(original: Seq<char>, old: Seq<char>, new: Seq<char>)
    requires
        old.len() > 0,
        old != new,
    ensures
        !contains(original, old) <==> edited(original, old, new) == Err::<Seq<char>, EditError>(
            EditError::NotFound,
        ),
{
    index_of_none_iff_absent(original, old);
    index_from_is_first(original, old, 0);
}

/// What is missing from a call to edit a file, if anything is.
pub open spec fn edit_complaint(args: JsonView) -> Option<Seq<char>> {
    if args.text_at("path"@) is None {
        Some("edit_file requires `path`"@)
    } else if args.text_at("old"@) is None {
        Some("edit_file requires `old`"@)
    } else if args.text_at("new"@) is None {
        Some("edit_file requires `new`"@)
    } else {
        None
    }
}

/// What to edit.
#[derive(Debug)]
pub struct EditPlan {
    pub path: String,
    pub old: String,
    pub new: String,
}

/// The question that is asked before an edit.
pub open spec fn edit_question(path: Seq<char>, old: Seq<char>, new: Seq<char>) -> Seq<char> {
    "tux: edit "@ + path + "\n  - "@ + snippet_text(old, 60) + "\n  + "@ + snippet_text(new, 60)
        + "\nproceed? [y/N]: "@
}

/// What is reported of something that the user declined.
pub open spec fn declined(tool: Seq<char>, verb: Seq<char>, path: Seq<char>) -> ToolResultView {
    ToolResultView {
        tool,
        summary: verb + path + " cancelled"@,
        data: JsonView::Object(
            map!["cancelled"@ => JsonView::Bool(true), "path"@ => JsonView::Text(path)],
        ),
    }
}

/// What an edit reports.
pub open spec fn edit_report(
    path: Seq<char>,
    original: Seq<char>,
    updated: Seq<char>,
) -> ToolResultView {
    let delta = byte_len(updated) - byte_len(original);
    ToolResultView {
        tool: "edit_file"@,
        summary: "edited "@ + path + " ("@ + signed_numeral(delta) + " bytes)"@,
        data: JsonView::Object(
            map![
                "path"@ => JsonView::Text(path),
                "bytes"@ => json_int(byte_len(updated) as int),
                "delta"@ => json_int(delta),
            ],
        ),
    }
}

fn decline(tool: &str, verb: &str, path: &str) -> (r: ToolResult)
    ensures
        r@ == declined(tool@, verb@, path@),
{
    let b = ObjectBuilder::new().with("cancelled", Json::Bool(true));
    let data = b.with("path", Json::text(path)).build();
    ToolResult { tool: tool.to_string(), summary: concat3(verb, path, " cancelled"), data }
}

/// What the model is told about editing files.
pub const EDIT_DESCRIPTION: &'static str = "Edit a text file by exact-string search/replace. Args: {\"path\": \"...\", \"old\": \"...\", \"new\": \"...\"}. The `old` text must appear exactly once. The user is asked to confirm on the terminal before the file is changed.";

impl EditFileTool {
    /// The name the model calls it by.
    pub fn name(&self) -> (r: &'static str)
        ensures
            r@ == "edit_file"@,
    {
        "edit_file"
    }

    /// What the model is told about it.
    pub fn description(&self) -> (r: &'static str)
        ensures
            r@ == EDIT_DESCRIPTION@,
    {
        EDIT_DESCRIPTION
    }

    /// What a call asks to edit.
    pub fn plan(&self, args: &Json, home: &Option<String>) -> (r: Result<EditPlan, ToolError>)
        ensures
            match edit_complaint(args@) {
                None => {
                    &&& r matches Ok(plan)
                    &&& plan.path@ == expanded_path(args@.text_at("path"@)->0, opt_text(*home))
                    &&& args@.text_at("old"@) == Some(plan.old@)
                    &&& args@.text_at("new"@) == Some(plan.new@)
                },
                Some(m) => r matches Err(e) && e.message@ == m,
            },
    {
        let path = match text_arg(args, "path", "edit_file requires `path`") {
            Ok(s) => s,
            Err(e) => {
                return Err(e);
            },
        };
        let old = match text_arg(args, "old", "edit_file requires `old`") {
            Ok(s) => s,
            Err(e) => {
                return Err(e);
            },
        };
        let new = match text_arg(args, "new", "edit_file requires `new`") {
            Ok(s) => s,
            Err(e) => {
                return Err(e);
            },
        };
        Ok(EditPlan { path: expand_path(path, home), old: old.to_string(), new: new.to_string() })
    }

    /// The edit, from what the file holds; the user is yet to agree to it.
    pub fn prepare(&self, plan: EditPlan, original: String) -> (r: Result<EditReady, ToolError>)
        ensures
            match edited(original@, plan.old@, plan.new@) {
                Ok(updated) => {
                    &&& r matches Ok(ready)
                    &&& ready.plan() == plan
                    &&& ready.before() == original@
                    &&& ready.after() == updated
                },
                Err(why) => r matches Err(e) && e.message@ == why.text(),
            },
    {
        match apply_edit(&original, &plan.old, &plan.new) {
            Ok(updated) => Ok(EditReady { plan, original, updated }),
            Err(e) => Err(ToolError::new(e.message())),
        }
    }
}

/// An edit that can be made, once the user agrees.
#[derive(Debug)]
pub struct EditReady {
    plan: EditPlan,
    original: String,
    updated: String,
}

/// An edit that the user agreed to.
#[derive(Debug)]
pub struct EditApproved {
    ready: EditReady,
}

impl EditReady {
    /// What was asked for.
    pub closed spec fn plan(&self) -> EditPlan {
        self.plan
    }

    /// What the file holds.
    pub closed spec fn before(&self) -> Seq<char> {
        self.original@
    }

    /// What the file is to hold.
    pub closed spec fn after(&self) -> Seq<char> {
        self.updated@
    }

    /// The question to ask before the file is written.
    pub fn question(&self) -> (r: String)
        ensures
            r@ == edit_question(self.plan().path@, self.plan().old@, self.plan().new@),
    {
        concat7(
            "tux: edit ",
            &self.plan.path,
            "\n  - ",
            &snippet(&self.plan.old, 60),
            "\n  + ",
            &snippet(&self.plan.new, 60),
            "\nproceed? [y/N]: ",
        )
    }

    /// What follows from the answer. The edit is made only after a yes.
    pub fn on_answer(self, answer: Result<bool, String>) -> (r: Answered<EditApproved>)
        ensures
            match answer {
                Ok(true) => r matches Answered::Go(a) && a.ready() == self,
                Ok(false) => r matches Answered::Declined(report) && report@ == declined(
                    "edit_file"@,
                    "edit of "@,
                    self.plan().path@,
                ),
                Err(m) => r matches Answered::Failed(e) && e.message@ == m@,
            },
    {
        match answer {
            Ok(yes) => if yes {
                Answered::Go(EditApproved { ready: self })
            } else {
                Answered::Declined(decline("edit_file", "edit of ", &self.plan.path))
            },
            Err(m) => Answered::Failed(ToolError::new(m)),
        }
    }
}

impl EditApproved {
    /// The edit that was agreed to.
    pub closed spec fn ready(&self) -> EditReady {
        self.ready
    }

    /// The file to write.
    pub fn path(&self) -> (r: &str)
        ensures
            r@ == self.ready().plan().path@,
    {
        self.ready.plan.path.as_str()
    }

    /// What to write.
    pub fn content(&self) -> (r: &str)
        ensures
            r@ == self.ready().after(),
    {
        self.ready.updated.as_str()
    }

    /// What is reported once the file is written.
    pub fn report(&self) -> (r: ToolResult)
        requires
            byte_len(self.ready().before()) <= i64::MAX,
            byte_len(self.ready().after()) <= i64::MAX,
        ensures
            r@ == edit_report(
                self.ready().plan().path@,
                self.ready().before(),
                self.ready().after(),
            ),
    {
        let path = self.path();
        let before = count_bytes(&self.ready.original) as i64;
        let after = count_bytes(&self.ready.updated) as i64;
        let delta = after - before;
        let signed = show_signed(delta);
        let b = ObjectBuilder::new().with("path", Json::text(path));
        let b = b.with("bytes", Json::unsigned(after as u64));
        let data = b.with("delta", Json::signed(delta)).build();
        ToolResult {
            tool: "edit_file".to_string(),
            summary: concat5("edited ", path, " (", &signed, " bytes)"),
            data,
        }
    }
}

/// Where a file is written first, before it is moved to `path`: beside it.
pub open spec fn temp_place(path: Seq<char>) -> Result<Seq<char>, Seq<char>> {
    match (path_parent(path), path_file_name(path)) {
        (None, _) => Err("path has no parent: "@ + path),
        (Some(_), None) => Err("path has no file name: "@ + path),
        (Some(parent), Some(name)) => Ok(joined_path(parent, "."@ + name + ".tux.tmp"@)),
    }
}

/// Where a file is written first, before it is moved to `path`: beside it,
/// so that the move replaces the file at once.
pub fn temp_sibling(path: &str) -> (r: Result<String, ToolError>)
    ensures
        match temp_place(path@) {
            Ok(tmp) => r matches Ok(s) && s@ == tmp,
            Err(m) => r matches Err(e) && e.message@ == m,
        },
{
    let parent = match parent_of(path) {
        Some(p) => p,
        None => {
            return Err(ToolError::new(concat2("path has no parent: ", path)));
        },
    };
    let name = match file_name_of(path) {
        Some(n) => n,
        None => {
            return Err(ToolError::new(concat2("path has no file name: ", path)));
        },
    };
    Ok(join_path(&parent, &concat3(".", &name, ".tux.tmp")))
}

/// A file is written first beside its place, never over it.
pub proof fn temp_is_a_sibling(path: Seq<char>)
    ensures
        temp_place(path) matches Ok(tmp) ==> {
            &&& path_parent(tmp) == path_parent(path)
            &&& path_file_name(tmp) == Some("."@ + path_file_name(path)->0 + ".tux.tmp"@)
            &&& tmp != path
        },
{
    if let Ok(tmp) = temp_place(path) {
        reveal_strlit(".");
        reveal_strlit(".tux.tmp");
        let name = path_file_name(path)->0;
        let beside = "."@ + name + ".tux.tmp"@;
        file_name_is_one_component(path);
        assert(!beside.contains('/')) by {
            if beside.contains('/') {
                let i = choose|i: int| 0 <= i < beside.len() && beside[i] == '/';
                if 1 <= i < 1 + name.len() {
                    assert(name[i - 1] == '/');
                    assert(name.contains('/'));
                }
            }
        }
        joined_name_is_beside(path, beside);
    }
}

/// What to write.
#[derive(Debug)]
pub struct WritePlan {
    pub path: String,
    pub content: String,
    pub executable: bool,
    pub overwrite: bool,
}

/// What is missing from a call to write a file, if anything is.
pub open spec fn write_complaint(args: JsonView) -> Option<Seq<char>> {
    if args.text_at("path"@) is None {
        Some("write_file requires `path`"@)
    } else if args.text_at("content"@) is None {
        Some("write_file requires `content` (string)"@)
    } else {
        None
    }
}

/// A flag of a call, off unless it is set.
pub open spec fn flag(args: JsonView, key: Seq<char>) -> bool {
    match args.truth_at(key) {
        Some(b) => b,
        None => false,
    }
}

/// Why a file must not be written, if there is a reason: something that is
/// no file is in the way, or a file that may not be replaced, or there is no
/// directory to put it in.
pub open spec fn write_obstacle(
    path: Seq<char>,
    overwrite: bool,
    there: bool,
    is_file: bool,
    parent_there: bool,
) -> Option<Seq<char>> {
    if there && !is_file {
        Some("exists and is not a file: "@ + path)
    } else if there && !overwrite {
        Some(path + " already exists — pass {\"overwrite\": true} to replace it"@)
    } else {
        match path_parent(path) {
            Some(parent) => if parent.len() > 0 && !parent_there {
                Some("parent directory does not exist: "@ + parent)
            } else {
                None
            },
            None => None,
        }
    }
}

/// What is done to the file.
pub open spec fn write_action(there: bool) -> Seq<char> {
    if there {
        "overwrite"@
    } else {
        "create"@
    }
}

/// The question that is asked before a file is written.
pub open spec fn write_question(
    path: Seq<char>,
    content: Seq<char>,
    executable: bool,
    there: bool,
) -> Seq<char> {
    let mode = if executable {
        " +x"@
    } else {
        ""@
    };
    "tux: "@ + write_action(there) + mode + " "@ + path + " ("@ + numeral(byte_len(content))
        + " bytes)\nproceed? [y/N]: "@
}

/// What a write reports.
pub open spec fn write_report(
    path: Seq<char>,
    content: Seq<char>,
    executable: bool,
    there: bool,
) -> ToolResultView {
    let mode = if executable {
        ", executable"@
    } else {
        ""@
    };
    ToolResultView {
        tool: "write_file"@,
        summary: write_action(there) + "d "@ + path + " ("@ + numeral(byte_len(content))
            + " bytes"@ + mode + ")"@,
        data: JsonView::Object(
            map![
                "path"@ => JsonView::Text(path),
                "bytes"@ => json_int(byte_len(content) as int),
                "executable"@ => JsonView::Bool(executable),
                "overwritten"@ => JsonView::Bool(there),
            ],
        ),
    }
}

/// What the model is told about writing files.
pub const WRITE_DESCRIPTION: &'static str = "Create or overwrite a file. Args: {\"path\": \"...\", \"content\": \"...\", \"executable\": false (optional, sets +x for scripts), \"overwrite\": false (optional, must be true to replace an existing file)}. Confirms on the terminal before writing.";

impl WriteFileTool {
    /// The name the model calls it by.
    pub fn name(&self) -> (r: &'static str)
        ensures
            r@ == "write_file"@,
    {
        "write_file"
    }

    /// What the model is told about it.
    pub fn description(&self) -> (r: &'static str)
        ensures
            r@ == WRITE_DESCRIPTION@,
    {
        WRITE_DESCRIPTION
    }

    /// What a call asks to write.
    pub fn plan(&self, args: &Json, home: &Option<String>) -> (r: Result<WritePlan, ToolError>)
        ensures
            match write_complaint(args@) {
                None => {
                    &&& r matches Ok(plan)
                    &&& plan.path@ == expanded_path(args@.text_at("path"@)->0, opt_text(*home))
                    &&& args@.text_at("content"@) == Some(plan.content@)
                    &&& plan.executable == flag(args@, "executable"@)
                    &&& plan.overwrite == flag(args@, "overwrite"@)
                },
                Some(m) => r matches Err(e) && e.message@ == m,
            },
    {
        let path = match text_arg(args, "path", "write_file requires `path`") {
            Ok(s) => s,
            Err(e) => {
                return Err(e);
            },
        };
        let content = match text_arg(args, "content", "write_file requires `content` (string)") {
            Ok(s) => s,
            Err(e) => {
                return Err(e);
            },
        };
        let executable = match args.get_bool("executable") {
            Some(b) => b,
            None => false,
        };
        let overwrite = match args.get_bool("overwrite") {
            Some(b) => b,
            None => false,
        };
        Ok(
            WritePlan {
                path: expand_path(path, home),
                content: content.to_string(),
                executable,
                overwrite,
            },
        )
    }

    /// The directory that must be there for the file to be written.
    pub fn needed_parent(&self, plan: &WritePlan) -> (r: Option<String>)
        ensures
            match path_parent(plan.path@) {
                Some(parent) => if parent.len() > 0 {
                    r matches Some(p) && p@ == parent
                } else {
                    r is None
                },
                None => r is None,
            },
    {
        match parent_of(&plan.path) {
            Some(p) => if p.as_str().is_empty() {
                None
            } else {
                Some(p)
            },
            None => None,
        }
    }

    /// The write, given what stands at the path and whether the directory
    /// above it is there; the user is yet to agree to it. Refused where
    /// something is in the way.
    pub fn check(&self, plan: WritePlan, there: bool, is_file: bool, parent_there: bool) -> (r:
        Result<WriteReady, ToolError>)
        ensures
            match write_obstacle(plan.path@, plan.overwrite, there, is_file, parent_there) {
                Some(m) => r matches Err(e) && e.message@ == m,
                None => r matches Ok(ready) && ready.plan() == plan && ready.replaces() == there,
            },
    {
        if there && !is_file {
            return Err(ToolError::new(concat2("exists and is not a file: ", &plan.path)));
        }
        if there && !plan.overwrite {
            return Err(
                ToolError::new(
                    concat2(
                        &plan.path,
                        " already exists — pass {\"overwrite\": true} to replace it",
                    ),
                ),
            );
        }
        match self.needed_parent(&plan) {
            Some(parent) => if parent_there {
                Ok(WriteReady { plan, there })
            } else {
                Err(ToolError::new(concat2("parent directory does not exist: ", &parent)))
            },
            None => Ok(WriteReady { plan, there }),
        }
    }
}

/// A write that can be made, once the user agrees.
#[derive(Debug)]
pub struct WriteReady {
    plan: WritePlan,
    there: bool,
}

/// A write that the user agreed to.
#[derive(Debug)]
pub struct WriteApproved {
    ready: WriteReady,
}

impl WriteReady {
    /// What was asked for.
    pub closed spec fn plan(&self) -> WritePlan {
        self.plan
    }

    /// Whether a file is replaced.
    pub closed spec fn replaces(&self) -> bool {
        self.there
    }

    /// The question to ask before the file is written.
    pub fn question(&self) -> (r: String)
        ensures
            r@ == write_question(
                self.plan().path@,
                self.plan().content@,
                self.plan().executable,
                self.replaces(),
            ),
    {
        let action = if self.there {
            "overwrite"
        } else {
            "create"
        };
        let mode = if self.plan.executable {
            " +x"
        } else {
            ""
        };
        concat8(
            "tux: ",
            action,
            mode,
            " ",
            &self.plan.path,
            " (",
            &show_usize(count_bytes(&self.plan.content)),
            " bytes)\nproceed? [y/N]: ",
        )
    }

    /// What follows from the answer. The file is written only after a yes.
    pub fn on_answer(self, answer: Result<bool, String>) -> (r: Answered<WriteApproved>)
        ensures
            match answer {
                Ok(true) => r matches Answered::Go(a) && a.ready() == self,
                Ok(false) => r matches Answered::Declined(report) && report@ == declined(
                    "write_file"@,
                    "write of "@,
                    self.plan().path@,
                ),
                Err(m) => r matches Answered::Failed(e) && e.message@ == m@,
            },
    {
        match answer {
            Ok(yes) => if yes {
                Answered::Go(WriteApproved { ready: self })
            } else {
                Answered::Declined(decline("write_file", "write of ", &self.plan.path))
            },
            Err(m) => Answered::Failed(ToolError::new(m)),
        }
    }
}

impl WriteApproved {
    /// The write that was agreed to.
    pub closed spec fn ready(&self) -> WriteReady {
        self.ready
    }

    /// The file to write.
    pub fn path(&self) -> (r: &str)
        ensures
            r@ == self.ready().plan().path@,
    {
        self.ready.plan.path.as_str()
    }

    /// What to write.
    pub fn content(&self) -> (r: &str)
        ensures
            r@ == self.ready().plan().content@,
    {
        self.ready.plan.content.as_str()
    }

    /// Whether the file is to be made executable.
    pub fn executable(&self) -> (r: bool)
        ensures
            r == self.ready().plan().executable,
    {
        self.ready.plan.executable
    }

    /// What is reported once the file is written.
    pub fn report(&self) -> (r: ToolResult)
        ensures
            r@ == write_report(
                self.ready().plan().path@,
                self.ready().plan().content@,
                self.ready().plan().executable,
                self.ready().replaces(),
            ),
    {
        let path = self.path();
        let there = self.ready.there;
        let executable = self.executable();
        let action = if there {
            "overwrite"
        } else {
            "create"
        };
        let mode = if executable {
            ", executable"
        } else {
            ""
        };
        let size = count_bytes(self.content());
        let summary = concat8(action, "d ", path, " (", &show_usize(size), " bytes", mode, ")");
        let b = ObjectBuilder::new().with("path", Json::text(path));
        let b = b.with("bytes", Json::unsigned(size as u64));
        let b = b.with("executable", Json::Bool(executable));
        let data = b.with("overwritten", Json::Bool(there)).build();
        ToolResult { tool: "write_file".to_string(), summary, data }
    }
}

/// A file that is there is never written over unless the call says so.
pub proof fn no_silent_overwrite(
    path: Seq<char>,
    overwrite: bool,
    is_file: bool,
    parent_there: bool,
)
    ensures
        write_obstacle(path, overwrite, true, is_file, parent_there) is None ==> overwrite
            && is_file,
{
}

/// An edit is made only where the old text is not empty, differs from the new
/// one, and stands at one place: what comes out is the file with the new text
/// there, and wherever else the old text could be read, it overlaps that
/// place.
pub proof fn edit_needs_one_place(original: Seq<char>, old: Seq<char>, new: Seq<char>)
    ensures
        edited(original, old, new) matches Ok(s) ==> {
            &&& old.len() > 0
            &&& old != new
            &&& exists|i: int|
                {
                    &&& #[trigger] occurs_at(original, old, i)
                    &&& s == original.take(i) + new + original.skip(i + old.len())
                    &&& forall|j: int| #[trigger]
                        occurs_at(original, old, j) ==> i <= j < i + old.len()
                }
        },
{
    if let Ok(s) = edited(original, old, new) {
        index_from_is_first(original, old, 0);
        let i = index_of(original, old)->Some_0;
        assert(occurs_at(original, old, i));
        assert forall|j: int| #[trigger] occurs_at(original, old, j) implies i <= j < i
            + old.len() by {
            if j >= i + old.len() {
                no_more_than_counted(original, old, seq![i, j]);
            }
        }
    }
}

/// An edit whose old text stands at two places that do not overlap is refused,
/// with the number of places: no choice of places without overlaps has more,
/// and one has as many.
pub proof fn ambiguous_edit_is_refused(
    original: Seq<char>,
    old: Seq<char>,
    new: Seq<char>,
    i: int,
    j: int,
) -> (places: Seq<int>)
    requires
        original.len() <= usize::MAX,
        old.len() > 0,
        old != new,
        occurs_at(original, old, i),
        occurs_at(original, old, j),
        i + old.len() <= j,
    ensures
        edited(original, old, new) == Err::<Seq<char>, EditError>(
            EditError::Ambiguous { count: places.len() as usize },
        ),
        2 <= places.len() <= original.len(),
        apart(places, old.len() as int),
        forall|k: int| 0 <= k < places.len() ==> occurs_at(original, old, #[trigger] places[k]),
        forall|other: Seq<int>|
            #![trigger apart(other, old.len() as int)]
            apart(other, old.len() as int) && (forall|k: int|
                0 <= k < other.len() ==> occurs_at(original, old, #[trigger] other[k]))
                ==> other.len() <= places.len(),
{
    no_more_than_counted(original, old, seq![i, j]);
    let places = counted_places(original, old);
    assert forall|other: Seq<int>|
        #![trigger apart(other, old.len() as int)]
        apart(other, old.len() as int) && (forall|k: int|
            0 <= k < other.len() ==> occurs_at(
                original,
                old,
                #[trigger] other[k],
            )) implies other.len() <= places.len() by {
        no_more_than_counted(original, old, other);
    }
    count_fits(original, old);
    places
}

proof fn count_fits(s: Seq<char>, pat: Seq<char>)
    requires
        pat.len() > 0,
    ensures
        match_count(s, pat) <= s.len(),
    decreases s.len(),
{
    index_from_is_first(s, pat, 0);
    if let Some(i) = index_of(s, pat) {
        count_fits(s.skip(i + pat.len()), pat);
    }
}

/// A text whose first place in the file is not followed by another behind it
/// is replaced there.
pub proof fn single_place_is_edited(
    original: Seq<char>,
    old: Seq<char>,
    new: Seq<char>,
    i: int,
)
    requires
        old.len() > 0,
        old != new,
        occurs_at(original, old, i),
        forall|j: int| #[trigger] occurs_at(original, old, j) ==> i <= j < i + old.len(),
    ensures
        edited(original, old, new) == Ok::<Seq<char>, EditError>(
            original.take(i) + new + original.skip(i + old.len()),
        ),
{
    index_of_unique(original, old, i);
    let places = counted_places(original, old);
    no_more_than_counted(original, old, seq![i]);
    if places.len() > 1 {
        assert(occurs_at(original, old, places[0]));
        assert(occurs_at(original, old, places[1]));
        assert(places[0] + old.len() <= places[1]);
    }
}

/// An edit that has nothing to look for, or nothing to change, is refused.
pub proof fn idle_edit_is_refused(original: Seq<char>, old: Seq<char>)
    ensures
        edited(original, Seq::empty(), old) == Err::<Seq<char>, EditError>(EditError::EmptyOld),
        old.len() > 0 ==> edited(original, old, old) == Err::<Seq<char>, EditError>(
            EditError::Identical,
        ),
{
}

/// What is said of an ambiguous edit names the number of places.
pub proof fn ambiguity_is_counted(count: usize)
    ensures
        has_prefix(
            EditError::Ambiguous { count }.text(),
            "`old` text matches "@ + numeral(count as nat) + " places"@,
        ),
{
    reveal_strlit(" places");
    reveal_strlit(" places — make it longer/more specific so it matches once");
    let text = EditError::Ambiguous { count }.text();
    let head = "`old` text matches "@ + numeral(count as nat) + " places"@;
    assert(text.take(head.len() as int) == head);
}

/// Of a search, every path that was found is reported, in order, up to the
/// limit, with how many there are and whether any is left out.
pub proof fn every_match_is_reported(
    pattern: Seq<char>,
    root: Seq<char>,
    limit: nat,
    all: Seq<Seq<char>>,
)
    ensures
        ({
            let data = find_report(pattern, root, limit, all).data;
            let shown = if all.len() < limit {
                all.len()
            } else {
                limit
            };
            &&& data.get("matches"@) matches Some(JsonView::Array(items))
            &&& items.len() == shown
            &&& forall|i: int| 0 <= i < shown ==> #[trigger] items[i] == JsonView::Text(all[i])
            &&& data.get("total"@) == Some(
                JsonView::Number(crate::json::NumberView::Integer(all.len() as int)),
            )
            &&& data.truth_at("truncated"@) == Some(shown < all.len())
            &&& data.text_at("pattern"@) == Some(pattern)
            &&& data.text_at("root"@) == Some(root)
            &&& find_report(pattern, root, limit, all).tool == "find_file"@
        }),
{
    find_keys_differ();
    let data = find_report(pattern, root, limit, all).data;
    assert(data.get("matches"@) is Some);
}

proof fn find_keys_differ()
    ensures
        "pattern"@.len() == 7 && "pattern"@[0] == 'p',
        "matches"@.len() == 7 && "matches"@[0] == 'm',
        "root"@.len() == 4,
        "total"@.len() == 5,
        "truncated"@.len() == 9,
{
    reveal_strlit("pattern");
    reveal_strlit("matches");
    reveal_strlit("root");
    reveal_strlit("total");
    reveal_strlit("truncated");
}

/// What a search says names the number of all matches, the pattern and the
/// place, and how many are shown exactly where some are not.
pub proof fn search_is_summed_up(
    pattern: Seq<char>,
    root: Seq<char>,
    limit: nat,
    all: Seq<Seq<char>>,
)
    ensures
        find_report(pattern, root, limit, all).summary == "found "@ + numeral(all.len())
            + " match(es) for `"@ + pattern + "` in "@ + root + (if all.len() <= limit {
            ""@
        } else {
            " (showing "@ + numeral(limit) + ")"@
        }),
{
    reveal_strlit("");
    let found = "found "@ + numeral(all.len()) + " match(es) for `"@ + pattern + "` in "@ + root;
    assert(found + ""@ == found);
    assert(found + (" (showing "@ + numeral(limit) + ")"@) == found + " (showing "@ + numeral(
        limit,
    ) + ")"@);
}

/// A search shows as many paths as it is asked for, up to 500, and 50 where
/// it is not asked; it starts where it is told to, or here.
pub proof fn search_is_as_asked(n: u64, place: Seq<char>, home: Option<Seq<char>>)
    ensures
        find_limit(None) == 50,
        n <= 500 ==> find_limit(Some(n)) == n,
        n > 500 ==> find_limit(Some(n)) == 500,
        find_root(Some(place), home) == expanded_path(place, home),
        find_root(None, home) == expanded_path("."@, home),
{
}

/// A short text of one line is shown whole; of any other an ellipsis stands for
/// what is left out, behind a head of its first line. What is shown is one
/// line, and longer than asked by the ellipsis at most.
pub proof fn snippet_is_short(s: Seq<char>, max_chars: int)
    requires
        max_chars >= 0,
    ensures
        s.len() <= max_chars && !s.contains('\n') ==> snippet_text(s, max_chars) == s,
        snippet_text(s, max_chars).len() <= max_chars + 1,
        !snippet_text(s, max_chars).contains('\n'),
        s.len() > max_chars && !s.contains('\n') ==> snippet_text(s, max_chars) == s.take(
            max_chars,
        ).push('…'),
        lines_of(s).len() > 1 ==> exists|k: int|
            {
                &&& 0 <= k <= lines_of(s)[0].len()
                &&& k == max_chars || k == lines_of(s)[0].len()
                &&& k <= max_chars
                &&& snippet_text(s, max_chars) == #[trigger] lines_of(s)[0].take(k).push('…')
            },
{
    lines_hold_no_line_feed(s);
    if !s.contains('\n') {
        lines_end_at_line_feeds(s, Seq::empty());
    }
    let all = lines_of(s);
    let first = if all.len() == 0 {
        Seq::empty()
    } else {
        all[0]
    };
    let shown = first_chars(first, max_chars);
    assert(!first.contains('\n'));
    assert(first.take(first.len() as int) == first);
    let out = snippet_text(s, max_chars);
    assert forall|i: int| 0 <= i < out.len() implies out[i] != '\n' by {
        if i < shown.len() {
            assert(first.contains(first[i]));
        }
    }
    if all.len() > 1 {
        let k = shown.len() as int;
        assert(out == all[0].take(k).push('…'));
    }
}

/// A file takes part exactly where it is there and is a regular one.
pub proof fn only_files_take_part(path: Seq<char>, there: bool, is_file: bool)
    ensures
        file_complaint(path, there, is_file) is None <==> there && is_file,
        !there ==> file_complaint(path, there, is_file) == Some("file does not exist: "@ + path),
        there && !is_file ==> file_complaint(path, there, is_file) == Some(
            "not a regular file: "@ + path,
        ),
{
}

/// A file with a NUL byte anywhere is refused, and so is one that is no text;
/// a report states the file's path and its whole size, and that it was cut
/// exactly where it is larger than the cap.
pub proof fn read_is_reported(path: Seq<char>, bytes: Seq<u8>)
    ensures
        bytes.contains(0u8) ==> read_outcome(path, bytes) is Err,
        bytes.len() <= 65536 && !bytes.contains(0u8) ==> (read_outcome(path, bytes) is Ok
            <==> valid_utf8(bytes)),
        read_outcome(path, bytes) matches Ok(report) ==> {
            &&& report.tool == "read_file"@
            &&& report.data.text_at("path"@) == Some(path)
            &&& report.data.get("bytes"@) == Some(
                JsonView::Number(crate::json::NumberView::Integer(bytes.len() as int)),
            )
            &&& report.data.truth_at("truncated"@) == Some(bytes.len() > 65536)
            &&& report.data.text_at("content"@) matches Some(content)
            &&& bytes.len() <= 65536 ==> encode_utf8(content) == bytes && report.summary
                == "read "@ + path + " ("@ + numeral(bytes.len()) + " bytes, "@ + numeral(
                lines_of(content).len(),
            ) + " lines)"@
            &&& bytes.len() > 65536 ==> report.summary == "read "@ + path + " ("@ + numeral(
                byte_len(content),
            ) + " bytes shown of "@ + numeral(bytes.len()) + (", "@ + numeral(
                lines_of(content).len(),
            ) + " lines)"@)
        },
{
    reveal_strlit("path");
    reveal_strlit("content");
    reveal_strlit("bytes");
    reveal_strlit("truncated");
    assert("content"@.len() == 7 && "path"@.len() == 4 && "bytes"@.len() == 5 && "truncated"@.len()
        == 9);
    assert(bytes.take(bytes.len() as int) == bytes);
    let shown = bytes.take(shown_len(bytes));
    if read_outcome(path, bytes) is Ok {
        decode_utf8_encode_utf8(shown);
    }
}

/// What an edit reports: the file, its new size, and by how much that differs
/// from the old size.
pub proof fn edit_is_reported(path: Seq<char>, original: Seq<char>, updated: Seq<char>)
    ensures
        ({
            let report = edit_report(path, original, updated);
            &&& report.tool == "edit_file"@
            &&& report.data.text_at("path"@) == Some(path)
            &&& report.data.get("bytes"@) matches Some(
                JsonView::Number(crate::json::NumberView::Integer(size)),
            )
            &&& report.data.get("delta"@) matches Some(
                JsonView::Number(crate::json::NumberView::Integer(delta)),
            )
            &&& size == encode_utf8(updated).len()
            &&& delta == size - encode_utf8(original).len()
            &&& report.summary == "edited "@ + path + " ("@ + signed_numeral(delta) + " bytes)"@
        }),
{
    reveal_strlit("path");
    reveal_strlit("bytes");
    reveal_strlit("delta");
    assert("bytes"@[0] == 'b' && "delta"@[0] == 'd');
}

/// Before an edit the user is shown the file and both texts, and before a
/// write the file, its size, and whether one is replaced or made executable.
pub proof fn questions_say_what_is_done(
    path: Seq<char>,
    old: Seq<char>,
    new: Seq<char>,
    content: Seq<char>,
    executable: bool,
    there: bool,
)
    ensures
        edit_question(path, old, new) == "tux: edit "@ + path + "\n  - "@ + snippet_text(old, 60)
            + "\n  + "@ + snippet_text(new, 60) + "\nproceed? [y/N]: "@,
        write_question(path, content, executable, there) == (if there {
            "tux: overwrite"@
        } else {
            "tux: create"@
        }) + (if executable {
            " +x "@
        } else {
            " "@
        }) + path + " ("@ + numeral(encode_utf8(content).len()) + " bytes)\nproceed? [y/N]: "@,
{
    reveal_strlit("tux: ");
    reveal_strlit("tux: overwrite");
    reveal_strlit("tux: create");
    reveal_strlit("overwrite");
    reveal_strlit("create");
    reveal_strlit(" +x");
    reveal_strlit(" +x ");
    reveal_strlit(" ");
    reveal_strlit("");
    assert("tux: "@ + "overwrite"@ == "tux: overwrite"@);
    assert("tux: "@ + "create"@ == "tux: create"@);
    assert(" +x"@ + " "@ == " +x "@);
    assert(""@ + " "@ == " "@);
    let act = write_action(there);
    let mode = if executable {
        " +x"@
    } else {
        ""@
    };
    let tail = path + " ("@ + numeral(encode_utf8(content).len()) + " bytes)\nproceed? [y/N]: "@;
    assert(write_question(path, content, executable, there) == ("tux: "@ + act) + (mode + " "@)
        + tail);
    assert(("tux: "@ + act) + (mode + " "@) + tail == (if there {
        "tux: overwrite"@
    } else {
        "tux: create"@
    }) + (if executable {
        " +x "@
    } else {
        " "@
    }) + path + " ("@ + numeral(encode_utf8(content).len()) + " bytes)\nproceed? [y/N]: "@);
}

/// What was declined is reported as cancelled, with its path.
pub proof fn declining_is_reported(tool: Seq<char>, verb: Seq<char>, path: Seq<char>)
    ensures
        declined(tool, verb, path).tool == tool,
        declined(tool, verb, path).summary == verb + path + " cancelled"@,
        declined(tool, verb, path).data.truth_at("cancelled"@) == Some(true),
        declined(tool, verb, path).data.text_at("path"@) == Some(path),
{
    reveal_strlit("path");
    reveal_strlit("cancelled");
    assert("path"@.len() == 4 && "cancelled"@.len() == 9);
}

/// What a write reports: the file, its size, and whether it was made
/// executable and replaced one.
pub proof fn write_is_reported(
    path: Seq<char>,
    content: Seq<char>,
    executable: bool,
    there: bool,
)
    ensures
        ({
            let report = write_report(path, content, executable, there);
            &&& report.tool == "write_file"@
            &&& report.data.text_at("path"@) == Some(path)
            &&& report.data.get("bytes"@) == Some(
                JsonView::Number(crate::json::NumberView::Integer(encode_utf8(content).len() as int)),
            )
            &&& report.data.truth_at("executable"@) == Some(executable)
            &&& report.data.truth_at("overwritten"@) == Some(there)
            &&& report.summary == (if there {
                "overwrited "@
            } else {
                "created "@
            }) + path + " ("@ + numeral(encode_utf8(content).len()) + (if executable {
                " bytes, executable)"@
            } else {
                " bytes)"@
            })
        }),
{
    reveal_strlit("path");
    reveal_strlit("bytes");
    reveal_strlit("executable");
    reveal_strlit("overwritten");
    assert("path"@.len() == 4 && "bytes"@.len() == 5 && "executable"@.len() == 10
        && "overwritten"@.len() == 11);
    reveal_strlit("overwrited ");
    reveal_strlit("created ");
    reveal_strlit("overwrite");
    reveal_strlit("create");
    reveal_strlit("d ");
    assert("overwrite"@ + "d "@ == "overwrited "@);
    assert("create"@ + "d "@ == "created "@);
    reveal_strlit("");
    reveal_strlit(" bytes");
    reveal_strlit(", executable");
    reveal_strlit(")");
    reveal_strlit(" bytes)");
    reveal_strlit(" bytes, executable)");
    assert(" bytes"@ + ", executable"@ + ")"@ == " bytes, executable)"@);
    assert(" bytes"@ + ""@ + ")"@ == " bytes)"@);
    let head = write_action(there) + "d "@ + path + " ("@ + numeral(encode_utf8(content).len());
    let mode = if executable {
        ", executable"@
    } else {
        ""@
    };
    assert(head + " bytes"@ + mode + ")"@ == head + (" bytes"@ + mode + ")"@));
}

/// A call must name the file, and the texts that go with it; what is missing
/// first is what is said.
pub proof fn missing_arguments_are_named(args: JsonView)
    ensures
        edit_complaint(args) is None <==> args.text_at("path"@) is Some && args.text_at(
            "old"@,
        ) is Some && args.text_at("new"@) is Some,
        write_complaint(args) is None <==> args.text_at("path"@) is Some && args.text_at(
            "content"@,
        ) is Some,
        edit_complaint(args) matches Some(m) ==> m == (if args.text_at("path"@) is None {
            "edit_file requires `path`"@
        } else if args.text_at("old"@) is None {
            "edit_file requires `old`"@
        } else {
            "edit_file requires `new`"@
        }),
        write_complaint(args) matches Some(m) ==> m == (if args.text_at("path"@) is None {
            "write_file requires `path`"@
        } else {
            "write_file requires `content` (string)"@
        }),
{
}

/// A flag is on only where the call sets it to true.
pub proof fn flags_are_off_unless_set(args: JsonView, key: Seq<char>)
    ensures
        flag(args, key) <==> args.get(key) == Some(JsonView::Bool(true)),
{
}

/// A file is written exactly where nothing but a file that may be replaced is
/// in its place and the directory that it goes to is there.
pub proof fn write_needs_a_free_place(
    path: Seq<char>,
    overwrite: bool,
    there: bool,
    is_file: bool,
    parent_there: bool,
)
    ensures
        write_obstacle(path, overwrite, there, is_file, parent_there) is None <==> (there
            ==> is_file && overwrite) && (parent_there || path_parent(path) is None || path_parent(
            path,
        )->0.len() == 0),
{
}

/// Every path with a directory above it and a name has a place to be written
/// first.
pub proof fn temp_place_is_found(path: Seq<char>)
    ensures
        temp_place(path) is Ok <==> path_parent(path) is Some && path_file_name(path) is Some,
        path_parent(path) is None ==> temp_place(path) == Err::<Seq<char>, Seq<char>>(
            "path has no parent: "@ + path,
        ),
        path_parent(path) is Some && path_file_name(path) is None ==> temp_place(path) == Err::<
            Seq<char>,
            Seq<char>,
        >("path has no file name: "@ + path),
{
}

proof fn text_ends_where_the_next_begins(a: Seq<u8>, b: Seq<u8>)
    requires
        valid_utf8(a),
        valid_utf8(a + b),
        b.len() > 0,
    ensures
        !is_continuation_byte(b[0]),
    decreases a.len(),
{
    let all = a + b;
    if a.len() == 0 {
        assert(all == b);
        is_char_boundary_start_end_of_seq(b);
        is_char_boundary_iff_not_is_continuation_byte(b, 0);
    } else {
        reveal_with_fuel(valid_utf8, 2);
        assert(all[0] == a[0]);
        assert(pop_first_scalar(all) == pop_first_scalar(a) + b);
        text_ends_where_the_next_begins(pop_first_scalar(a), b);
    }
}

/// Of a file that is larger than the cap, and text up to it, exactly what is
/// up to the cap is shown, whatever follows.
pub proof fn text_up_to_the_cap_is_shown(path: Seq<char>, bytes: Seq<u8>)
    requires
        bytes.len() > 65536,
        valid_utf8(bytes.take(65536)),
        !bytes.contains(0u8),
    ensures
        read_outcome(path, bytes) matches Ok(report) && report.data.text_at("content"@) == Some(
            decode_utf8(bytes.take(65536)),
        ),
{
    reveal_strlit("path");
    reveal_strlit("content");
    reveal_strlit("bytes");
    reveal_strlit("truncated");
    assert("content"@.len() == 7 && "path"@.len() == 4 && "bytes"@.len() == 5 && "truncated"@.len()
        == 9);
    let head = bytes.take(65536);
    if crosses_cap(bytes) {
        assert forall|n: int| 65536 < n <= bytes.len() && valid_utf8(
            #[trigger] bytes.take(n),
        ) implies !is_continuation_byte(bytes[65536]) by {
            let rest = bytes.subrange(65536, n);
            assert(bytes.take(n) == head + rest);
            text_ends_where_the_next_begins(head, rest);
        }
        assert(bytes.take(65537).len() == 65537);
    }
    assert(shown_len(bytes) == 65536);
}

/// What an edit comes to is seen as its text or its error.
pub proof fn edits_are_seen_whole(s: String, e: EditError)
    ensures
        edit_view(Ok(s)) == Ok::<Seq<char>, EditError>(s@),
        edit_view(Err(e)) == Err::<Seq<char>, EditError>(e),
{
}

/// What is said of an edit that was not made says why.
pub proof fn refused_edit_is_explained()
    ensures
        EditError::EmptyOld.text() == "edit_file `old` must not be empty"@,
        EditError::Identical.text() == "edit_file `old` and `new` are identical"@,
        EditError::NotFound.text() == "`old` text not found in file"@,
{
}

/// A write that is in something's way says what it is.
pub proof fn obstacles_are_named(path: Seq<char>, overwrite: bool, is_file: bool, parent_there: bool)
    ensures
        write_obstacle(path, overwrite, true, false, parent_there) == Some(
            "exists and is not a file: "@ + path,
        ),
        write_obstacle(path, false, true, true, parent_there) == Some(
            path + " already exists — pass {\"overwrite\": true} to replace it"@,
        ),
        path_parent(path) matches Some(parent) ==> (parent.len() > 0 ==> write_obstacle(
            path,
            overwrite,
            false,
            is_file,
            false,
        ) == Some("parent directory does not exist: "@ + parent)),
        write_action(true) == "overwrite"@,
        write_action(false) == "create"@,
{
}

/// The model is told of each tool what it is for, what it is called with, and
/// where the user is asked.
pub proof fn tools_say_how_they_are_called()
    ensures
        has_prefix(
            FIND_DESCRIPTION@,
            "Find files matching a glob pattern. Args: {\"pattern\": \"*.rs\", \"root\": \".\""@,
        ),
        has_prefix(READ_DESCRIPTION@, "Read a UTF-8 text file. Args: {\"path\": \"...\"}."@),
        has_prefix(
            EDIT_DESCRIPTION@,
            "Edit a text file by exact-string search/replace. Args: {\"path\": \"...\", \"old\": \"...\", \"new\": \"...\"}. The `old` text must appear exactly once."@,
        ),
        has_prefix(
            WRITE_DESCRIPTION@,
            "Create or overwrite a file. Args: {\"path\": \"...\", \"content\": \"...\","@,
        ),
        has_suffix(WRITE_DESCRIPTION@, "Confirms on the terminal before writing."@),
{
    reveal_strlit("Find files matching a glob pattern. Args: {\"pattern\": \"*.rs\", \"root\": \".\" (optional, default cwd), \"limit\": 50 (optional)}. Returns up to `limit` matching paths.");
    reveal_strlit("Read a UTF-8 text file. Args: {\"path\": \"...\"}. Caps content at 64 KiB and refuses binary files.");
    reveal_strlit("Edit a text file by exact-string search/replace. Args: {\"path\": \"...\", \"old\": \"...\", \"new\": \"...\"}. The `old` text must appear exactly once. The user is asked to confirm on the terminal before the file is changed.");
    reveal_strlit("Create or overwrite a file. Args: {\"path\": \"...\", \"content\": \"...\", \"executable\": false (optional, sets +x for scripts), \"overwrite\": false (optional, must be true to replace an existing file)}. Confirms on the terminal before writing.");
    reveal_strlit("Find files matching a glob pattern. Args: {\"pattern\": \"*.rs\", \"root\": \".\"");
    reveal_strlit("Read a UTF-8 text file. Args: {\"path\": \"...\"}.");
    reveal_strlit("Edit a text file by exact-string search/replace. Args: {\"path\": \"...\", \"old\": \"...\", \"new\": \"...\"}. The `old` text must appear exactly once.");
    reveal_strlit("Create or overwrite a file. Args: {\"path\": \"...\", \"content\": \"...\",");
    reveal_strlit("Confirms on the terminal before writing.");
    let a = "Find files matching a glob pattern. Args: {\"pattern\": \"*.rs\", \"root\": \".\""@;
    let b = "Read a UTF-8 text file. Args: {\"path\": \"...\"}."@;
    let c =
        "Edit a text file by exact-string search/replace. Args: {\"path\": \"...\", \"old\": \"...\", \"new\": \"...\"}. The `old` text must appear exactly once."@;
    let d = "Create or overwrite a file. Args: {\"path\": \"...\", \"content\": \"...\","@;
    let e = "Confirms on the terminal before writing."@;
    assert(FIND_DESCRIPTION@.take(a.len() as int) == a);
    assert(READ_DESCRIPTION@.take(b.len() as int) == b);
    assert(EDIT_DESCRIPTION@.take(c.len() as int) == c);
    assert(WRITE_DESCRIPTION@.take(d.len() as int) == d);
    assert(WRITE_DESCRIPTION@.skip(WRITE_DESCRIPTION@.len() - e.len()) == e);
}

} // verus!
