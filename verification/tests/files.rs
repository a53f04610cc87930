//! The file tools.
use tux::json::{Json, ObjectBuilder};
use tux::paths::expand_path;
use tux::tools::files::{
    apply_edit, check_file, snippet, temp_sibling, EditError, EditFileTool, EditReady,
    FindFileTool, ReadFileTool, WriteFileTool,
};
use tux::tools::{Answered, ToolError, ToolResult};

fn object(fields: &[(&str, Json)]) -> Json {
    let mut b = ObjectBuilder::new();
    for (k, v) in fields {
        b = b.with(k, v.duplicate());
    }
    b.build()
}

fn home() -> Option<String> {
    Some("/home/test".to_string())
}

#[test]
fn expand_passes_absolute_through() {
    assert_eq!(expand_path("/etc/passwd", &home()), "/etc/passwd");
}

#[test]
fn expand_handles_relative() {
    assert_eq!(expand_path("foo/bar", &home()), "foo/bar");
}

#[test]
fn expand_resolves_tilde() {
    assert_eq!(expand_path("~/foo", &home()), "/home/test/foo");
    assert_eq!(expand_path("~", &home()), "/home/test");
    assert_eq!(expand_path("/abs", &home()), "/abs");
    assert_eq!(expand_path("~", &None), "~");
    assert_eq!(expand_path("~/foo", &None), "~/foo");
    assert_eq!(expand_path("~user/foo", &home()), "~user/foo");
}

#[test]
fn apply_edit_replaces_unique_occurrence() {
    let r = apply_edit("hello world", "world", "tux").unwrap();
    assert_eq!(r, "hello tux");
}

#[test]
fn apply_edit_rejects_empty_old() {
    let err = apply_edit("abc", "", "x").unwrap_err();
    assert!(err.message().contains("must not be empty"));
}

#[test]
fn apply_edit_rejects_identical_old_new() {
    let err = apply_edit("abc", "a", "a").unwrap_err();
    assert!(err.message().contains("identical"));
}

#[test]
fn apply_edit_rejects_missing_old() {
    let err = apply_edit("hello", "world", "tux").unwrap_err();
    assert!(err.message().contains("not found"));
}

#[test]
fn apply_edit_rejects_ambiguous_old() {
    let src = "fn foo() {}\nfn bar() {}\n";
    let err = apply_edit(src, "fn ", "pub fn ").unwrap_err();
    assert!(err.message().contains("matches 2"));
    assert_eq!(err, EditError::Ambiguous { count: 2 });
}

#[test]
fn apply_edit_handles_multiline_replacement() {
    let src = "line1\nold block\nline3\n";
    let r = apply_edit(src, "old block", "new\nblock\nspans").unwrap();
    assert_eq!(r, "line1\nnew\nblock\nspans\nline3\n");
}

#[test]
fn apply_edit_can_be_undone() {
    let there = apply_edit("let x = 1;", "x", "count").unwrap();
    assert_eq!(apply_edit(&there, "count", "x").unwrap(), "let x = 1;");
    assert_eq!(apply_edit("äöü", "ö", "").unwrap(), "äü");
}

#[test]
fn snippet_truncates_long_first_line() {
    let s = snippet(&"x".repeat(200), 10);
    assert_eq!(s, "xxxxxxxxxx…");
}

#[test]
fn snippet_marks_multiline() {
    let s = snippet("first\nsecond", 80);
    assert_eq!(s, "first…");
}

#[test]
fn snippet_short_single_line_unchanged() {
    let s = snippet("hello", 80);
    assert_eq!(s, "hello");
    assert_eq!(snippet("", 80), "");
    assert_eq!(snippet("hello\n", 80), "hello");
    assert_eq!(snippet("\nhello", 80), "…");
}

#[test]
fn temp_file_is_a_sibling() {
    assert_eq!(temp_sibling("/a/b/hello.txt").unwrap(), "/a/b/.hello.txt.tux.tmp");
    assert_eq!(temp_sibling("hello.txt").unwrap(), ".hello.txt.tux.tmp");
    assert_eq!(temp_sibling("/").unwrap_err().message, "path has no parent: /");
    assert_eq!(temp_sibling("a/..").unwrap_err().message, "path has no file name: a/..");
}

#[test]
fn missing_and_odd_files_are_refused() {
    assert!(check_file("/x", true, true).is_ok());
    assert_eq!(
        check_file("/x", false, false).unwrap_err().message,
        "file does not exist: /x"
    );
    assert_eq!(
        check_file("/x", true, false).unwrap_err().message,
        "not a regular file: /x"
    );
}

#[test]
fn find_reads_its_arguments() {
    let tool = FindFileTool;
    let plan = tool.plan(&object(&[("pattern", Json::text("*.rs"))]), &home()).unwrap();
    assert_eq!((plan.pattern.as_str(), plan.root.as_str(), plan.limit), ("*.rs", ".", 50));
    let args = object(&[
        ("pattern", Json::text("*.rs")),
        ("root", Json::text("~/src")),
        ("limit", Json::unsigned(9999)),
    ]);
    let plan = tool.plan(&args, &home()).unwrap();
    assert_eq!((plan.root.as_str(), plan.limit), ("/home/test/src", 500));
    assert_eq!(
        tool.plan(&Json::Null, &home()).unwrap_err().message,
        "find_file requires {\"pattern\":\"...\"}"
    );
    assert_eq!(
        tool.check_root(&plan, false).unwrap_err().message,
        "find_file root does not exist: /home/test/src"
    );
    assert!(tool.check_root(&plan, true).is_ok());
    assert_eq!(tool.command(&plan, true), ["fd", "--glob", "*.rs", "/home/test/src"]);
    assert_eq!(tool.command(&plan, false), ["find", "/home/test/src", "-name", "*.rs"]);
    assert_eq!(tool.not_started(true, "gone").message, "fd: gone");
    assert_eq!(tool.not_started(false, "gone").message, "find: gone");
}

#[test]
fn find_reports_what_it_shows() {
    let tool = FindFileTool;
    let args = object(&[("pattern", Json::text("*")), ("limit", Json::unsigned(2))]);
    let plan = tool.plan(&args, &home()).unwrap();
    let res = tool.finish(&plan, true, "exit status: 0", b"a\nb\nc\n", b"").unwrap();
    assert_eq!(res.summary, "found 3 match(es) for `*` in . (showing 2)");
    assert_eq!(
        res.data.render(),
        r#"{"matches":["a","b"],"pattern":"*","root":".","total":3,"truncated":true}"#
    );
    let res = tool.finish(&plan, true, "exit status: 0", b"a\xff\n", b"").unwrap();
    assert_eq!(res.summary, "found 1 match(es) for `*` in .");
    assert_eq!(res.data.get("matches").unwrap().nth(0).unwrap().as_str(), Some("a\u{fffd}"));
    let err = tool.finish(&plan, false, "exit status: 1", b"", b"no\n").unwrap_err();
    assert_eq!(err.message, "find_file failed (exit status: 1): no\n");
}

#[test]
fn read_file_round_trip() {
    let tool = ReadFileTool;
    let args = object(&[("path", Json::text("/tmp/t/note.txt"))]);
    let path = tool.plan(&args, &home()).unwrap();
    let res = tool.finish(&path, b"alpha\nbeta\n").unwrap();
    assert_eq!(res.data.get_str("content").unwrap(), "alpha\nbeta\n");
    assert_eq!(res.data.get_bool("truncated"), Some(false));
    assert_eq!(res.summary, "read /tmp/t/note.txt (11 bytes, 2 lines)");
    assert_eq!(
        tool.plan(&Json::Null, &home()).unwrap_err().message,
        "read_file requires {\"path\":\"...\"}"
    );
}

#[test]
fn read_file_refuses_binary() {
    let err = ReadFileTool.finish("/tmp/t/blob.bin", &[0u8, 1, 2, 0, 3]).unwrap_err();
    assert!(err.message.contains("binary"), "got: {}", err.message);
}

#[test]
fn read_file_stops_at_the_cap() {
    let mut bytes = vec![b'x'; 65536];
    let res = ReadFileTool.finish("/f", &bytes).unwrap();
    assert_eq!(res.data.get_bool("truncated"), Some(false));
    bytes.push(b'y');
    let res = ReadFileTool.finish("/f", &bytes).unwrap();
    assert_eq!(res.summary, "read /f (65536 bytes shown of 65537, 1 lines)");
    assert_eq!(res.data.get_u64("bytes"), Some(65537));
    assert_eq!(res.data.get_str("content").unwrap().len(), 65536);
}

#[test]
fn read_file_stops_at_the_end_of_a_character() {
    for (c, width) in [("é", 2), ("…", 3), ("🐧", 4)] {
        for before in 0..=width {
            let head = "x".repeat(65536 - before);
            let text = format!("{head}{c}tail");
            let res = ReadFileTool.finish("/f", text.as_bytes()).unwrap();
            let shown = if before == width { format!("{head}{c}") } else { head };
            assert_eq!(res.data.get_str("content"), Some(shown.as_str()), "{c} {before}");
            assert_eq!(
                res.summary,
                format!("read /f ({} bytes shown of {}, 1 lines)", shown.len(), text.len())
            );
        }
    }
    let mut bytes = vec![b'x'; 65540];
    bytes[65535] = 0xff;
    assert!(ReadFileTool.finish("/f", &bytes).is_err());
    bytes[65535] = b'x';
    bytes[65536] = 0x80;
    let res = ReadFileTool.finish("/f", &bytes).unwrap();
    assert_eq!(res.data.get_str("content").unwrap().len(), 65536);
}

#[test]
fn read_file_refuses_nul_bytes_behind_the_cap() {
    let mut bytes = vec![b'x'; 70000];
    bytes[69999] = 0;
    let err = ReadFileTool.finish("/f", &bytes).unwrap_err();
    assert_eq!(err.message, "file looks binary (contains NUL bytes): /f");
}

#[test]
fn read_file_says_what_is_not_utf8() {
    let err = ReadFileTool.finish("/f", b"ab\xff").unwrap_err();
    let why = String::from_utf8(b"ab\xff".to_vec()).unwrap_err();
    assert_eq!(err.message, format!("file is not valid UTF-8: {why}"));
    let res = ReadFileTool.finish("/f", "grüße".as_bytes()).unwrap();
    assert_eq!(res.data.get_str("content"), Some("grüße"));
}

fn go<T>(answered: Answered<T>) -> T {
    match answered {
        Answered::Go(t) => t,
        _ => panic!("not agreed to"),
    }
}

fn report_of<T>(answered: Answered<T>) -> ToolResult {
    match answered {
        Answered::Declined(r) => r,
        _ => panic!("not declined"),
    }
}

fn edit(old: &str, new: &str, original: &str) -> Result<EditReady, ToolError> {
    let args = object(&[
        ("path", Json::text("~/a")),
        ("old", Json::text(old)),
        ("new", Json::text(new)),
    ]);
    let plan = EditFileTool.plan(&args, &home()).unwrap();
    EditFileTool.prepare(plan, original.to_string())
}

#[test]
fn edit_asks_and_reports() {
    let ready = edit("one\nline", "zwölf", "<one\nline>").unwrap();
    assert_eq!(
        ready.question(),
        "tux: edit /home/test/a\n  - one…\n  + zwölf\nproceed? [y/N]: "
    );
    let approved = go(ready.on_answer(Ok(true)));
    assert_eq!(approved.path(), "/home/test/a");
    assert_eq!(approved.content(), "<zwölf>");
    let res = approved.report();
    assert_eq!(res.summary, "edited /home/test/a (-2 bytes)");
    assert_eq!(res.data.render(), r#"{"bytes":8,"delta":-2,"path":"/home/test/a"}"#);
    let report = |old: &str, new: &str| {
        go(edit(old, new, "a").unwrap().on_answer(Ok(true))).report().summary
    };
    assert_eq!(report("a", "ab"), "edited /home/test/a (+1 bytes)");
    assert_eq!(report("a", "b"), "edited /home/test/a (+0 bytes)");
    assert_eq!(
        edit("x", "y", "nothing").unwrap_err().message,
        "`old` text not found in file"
    );
}

#[test]
fn edit_is_not_made_without_a_yes() {
    let ready = || edit("a", "b", "a").unwrap();
    let res = report_of(ready().on_answer(Ok(false)));
    assert_eq!(res.summary, "edit of /home/test/a cancelled");
    assert_eq!(res.data.render(), r#"{"cancelled":true,"path":"/home/test/a"}"#);
    let failed = ready().on_answer(Err("confirm channel closed".to_string()));
    assert!(matches!(failed, Answered::Failed(e) if e.message == "confirm channel closed"));
}

#[test]
fn edit_names_what_is_missing() {
    let tool = EditFileTool;
    let say = |args: Json| tool.plan(&args, &home()).unwrap_err().message;
    assert_eq!(say(Json::Null), "edit_file requires `path`");
    assert_eq!(say(object(&[("path", Json::text("p"))])), "edit_file requires `old`");
    assert_eq!(
        say(object(&[("path", Json::text("p")), ("old", Json::text("o"))])),
        "edit_file requires `new`"
    );
}

fn write_plan(fields: &[(&str, Json)]) -> tux::tools::files::WritePlan {
    WriteFileTool.plan(&object(fields), &home()).unwrap()
}

#[test]
fn write_file_refuses_overwrite_without_flag() {
    let plan = write_plan(&[
        ("path", Json::text("/tmp/t/existing.txt")),
        ("content", Json::text("new")),
    ]);
    let err = WriteFileTool.check(plan, true, true, true).unwrap_err();
    assert!(err.message.contains("already exists"), "got: {}", err.message);
    let plan = || {
        write_plan(&[
            ("path", Json::text("/tmp/t/existing.txt")),
            ("content", Json::text("new")),
            ("overwrite", Json::Bool(true)),
        ])
    };
    assert!(WriteFileTool.check(plan(), true, true, true).is_ok());
    let err = WriteFileTool.check(plan(), true, false, true).unwrap_err();
    assert_eq!(err.message, "exists and is not a file: /tmp/t/existing.txt");
}

#[test]
fn write_file_rejects_missing_parent() {
    let plan = write_plan(&[
        ("path", Json::text("/tmp/t/nope/missing/file.txt")),
        ("content", Json::text("x")),
    ]);
    assert_eq!(WriteFileTool.needed_parent(&plan), Some("/tmp/t/nope/missing".to_string()));
    let err = WriteFileTool.check(plan, false, false, false).unwrap_err();
    assert!(err.message.contains("parent directory"), "got: {}", err.message);
    let here = write_plan(&[("path", Json::text("file.txt")), ("content", Json::text("x"))]);
    assert_eq!(WriteFileTool.needed_parent(&here), None);
    assert!(WriteFileTool.check(here, false, false, false).is_ok());
}

#[test]
fn write_asks_and_reports() {
    let plan = write_plan(&[
        ("path", Json::text("~/s.sh")),
        ("content", Json::text("é\n")),
        ("executable", Json::Bool(true)),
    ]);
    let ready = WriteFileTool.check(plan, false, false, true).unwrap();
    assert_eq!(
        ready.question(),
        "tux: create +x /home/test/s.sh (3 bytes)\nproceed? [y/N]: "
    );
    let approved = go(ready.on_answer(Ok(true)));
    assert_eq!((approved.path(), approved.content()), ("/home/test/s.sh", "é\n"));
    assert!(approved.executable());
    let res = approved.report();
    assert_eq!(res.summary, "created /home/test/s.sh (3 bytes, executable)");
    assert_eq!(
        res.data.render(),
        r#"{"bytes":3,"executable":true,"overwritten":false,"path":"/home/test/s.sh"}"#
    );
    let plain = || {
        let plan = write_plan(&[
            ("path", Json::text("/f")),
            ("content", Json::text("")),
            ("overwrite", Json::Bool(true)),
        ]);
        WriteFileTool.check(plan, true, true, true).unwrap()
    };
    assert_eq!(plain().question(), "tux: overwrite /f (0 bytes)\nproceed? [y/N]: ");
    assert_eq!(go(plain().on_answer(Ok(true))).report().summary, "overwrited /f (0 bytes)");
    assert_eq!(report_of(plain().on_answer(Ok(false))).summary, "write of /f cancelled");
    assert!(matches!(plain().on_answer(Err("x".to_string())), Answered::Failed(_)));
    let say = |args: Json| WriteFileTool.plan(&args, &home()).unwrap_err().message;
    assert_eq!(say(Json::Null), "write_file requires `path`");
    assert_eq!(
        say(object(&[("path", Json::text("p"))])),
        "write_file requires `content` (string)"
    );
}

#[test]
fn file_tools_are_named() {
    assert_eq!(FindFileTool.name(), "find_file");
    assert_eq!(ReadFileTool.name(), "read_file");
    assert_eq!(EditFileTool.name(), "edit_file");
    assert_eq!(WriteFileTool.name(), "write_file");
    assert!(FindFileTool.description().starts_with("Find files matching a glob pattern."));
    assert!(ReadFileTool.description().ends_with("refuses binary files."));
    assert!(EditFileTool.description().contains("must appear exactly once"));
    assert!(WriteFileTool.description().starts_with("Create or overwrite a file."));
}
