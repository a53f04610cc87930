//! The other tools, and confirmation.
use tux::json::{Json, ObjectBuilder};
use tux::knowledge::known;
use tux::tools::clipboard::{session_is_wayland, ClipboardReadTool, ClipboardWriteTool};
use tux::tools::confirm::{
    answer_is_yes, pass_on, AnswerRead, ChannelConfirmer, Forwarded, TtyConfirmer,
};
use tux::tools::install::{is_valid_package_name, render_command, InstallPackageTool};
use tux::tools::knowledge::SetKnowledgeTool;
use tux::tools::screenshot::ScreenshotTool;
use tux::tools::Answered;

#[test]
fn accepts_normal_package_names() {
    for name in [
        "vim", "neovim", "python3", "gtk4-1.0", "lib32-glibc", "g++", "clang.16", "foo_bar",
    ] {
        assert!(is_valid_package_name(name), "should accept {name:?}");
    }
}

#[test]
fn rejects_shell_metacharacters() {
    for bad in [
        "",
        "vim;rm",
        "vim rm",
        "vim`whoami`",
        "vim$(id)",
        "vim&&id",
        "--evil",
        "vim|cat",
        "vim>out",
        "vim\nrm",
    ] {
        assert!(!is_valid_package_name(bad), "should reject {bad:?}");
    }
}

#[test]
fn only_ascii_letters_and_digits_are_accepted() {
    for c in ('\u{0}'..='\u{2ff}').chain(['\u{661}', 'ａ', '𝐚']) {
        let name = format!("a{c}");
        let fits = c.is_ascii_alphanumeric() || matches!(c, '.' | '_' | '+' | '-');
        assert_eq!(is_valid_package_name(&name), fits, "{name:?}");
    }
}

#[test]
fn renders_template_substituting_pkg() {
    let (cmd, used) = render_command("sudo pacman -S {pkg}", "vim", false);
    assert_eq!(cmd, "sudo pacman -S vim");
    assert!(!used);
}

#[test]
fn rewrites_sudo_to_pkexec_when_available() {
    let (cmd, used) = render_command("sudo apt install {pkg}", "vim", true);
    assert_eq!(cmd, "pkexec apt install vim");
    assert!(used);
}

#[test]
fn leaves_non_sudo_template_alone_even_with_pkexec() {
    let (cmd, used) = render_command("nix-env -iA nixos.{pkg}", "vim", true);
    assert_eq!(cmd, "nix-env -iA nixos.vim");
    assert!(!used);
}

#[test]
fn package_called_sudo_is_no_escalation() {
    assert_eq!(render_command("{pkg} -v", "sudo", true), ("sudo -v".to_string(), false));
    assert_eq!(render_command("sudo {pkg}", "sudo", true), ("pkexec sudo".to_string(), true));
}

#[test]
fn every_place_in_a_template_is_filled() {
    let (cmd, _) = render_command("{pkg}{pkg} {pkg", "a", false);
    assert_eq!(cmd, "aa {pkg");
}

fn package(name: &str) -> Json {
    ObjectBuilder::new().with("package", Json::text(name)).build()
}

#[test]
fn install_asks_and_reports() {
    let tool = InstallPackageTool;
    let plan = |pkexec: bool| tool.plan(&package("vim"), &known("arch"), pkexec).unwrap();
    assert_eq!(
        plan(true).question(),
        "tux: install `vim` with: pkexec pacman -S vim\nproceed? [y/N]: "
    );
    match plan(true).on_answer(Ok(false)) {
        Answered::Declined(res) => {
            assert_eq!(res.summary, "install of `vim` cancelled");
            assert_eq!(
                res.data.render(),
                r#"{"cancelled":true,"command":"pkexec pacman -S vim","package":"vim"}"#
            );
        }
        other => panic!("{other:?}"),
    }
    assert!(matches!(plan(true).on_answer(Err("x".to_string())), Answered::Failed(_)));
    let approved = |pkexec: bool| match plan(pkexec).on_answer(Ok(true)) {
        Answered::Go(a) => a,
        other => panic!("{other:?}"),
    };
    assert_eq!(approved(true).command(), "pkexec pacman -S vim");
    let res = approved(true).report(true, "exit status: 0").unwrap();
    assert_eq!(res.summary, "installed `vim` via pkexec");
    assert_eq!(
        res.data.render(),
        r#"{"command":"pkexec pacman -S vim","package":"vim","used_pkexec":true}"#
    );
    let err = approved(true).report(false, "exit status: 1").unwrap_err();
    assert_eq!(
        err.message,
        "install command exited with exit status: 1: `pkexec pacman -S vim`"
    );
    assert_eq!(approved(false).report(true, "").unwrap().summary, "installed `vim` via sudo");
    assert_eq!(tool.not_started("gone").message, "spawn install command: gone");
    assert_eq!(tool.name(), "install_package");
    assert!(tool.description().starts_with("Install a package"));
}

#[test]
fn install_refuses() {
    let tool = InstallPackageTool;
    let say = |args: &Json, k| tool.plan(args, &k, false).unwrap_err().message;
    assert_eq!(
        say(&Json::Null, known("arch")),
        "install_package requires {\"package\":\"name\"}"
    );
    assert_eq!(
        say(&package("a \"b\"\n"), known("arch")),
        "invalid package name \"a \\\"b\\\"\\n\" (allowed: letters, digits, and . _ + -)"
    );
    assert!(say(&package("vim"), None).starts_with("no distro knowledge available — run `tux init`"));
}

#[test]
fn clipboard_read_reports() {
    let tool = ClipboardReadTool;
    assert_eq!(tool.command(true), ["wl-paste", "--no-newline"]);
    assert_eq!(tool.command(false), ["xclip", "-selection", "clipboard", "-o"]);
    let text = "é".repeat(100);
    let res = tool.finish(true, "", text.as_bytes(), b"").unwrap();
    assert_eq!(res.summary, format!("clipboard (200 chars): {}", "é".repeat(80)));
    assert_eq!(res.data.get_str("text"), Some(text.as_str()));
    let res = tool.finish(true, "", b"a\xffb", b"").unwrap();
    assert_eq!(res.data.get_str("text"), Some("a\u{fffd}b"));
    let err = tool.finish(false, "exit status: 1", b"", b"no display\n").unwrap_err();
    assert_eq!(err.message, "clipboard read failed (exit status: 1): no display\n");
    assert_eq!(tool.not_started(true, "gone").message, "wl-paste: gone");
    assert_eq!(tool.not_started(false, "gone").message, "xclip: gone");
    assert_eq!(tool.name(), "clipboard_read");
    assert_eq!(tool.description(), "Read the current text contents of the user's clipboard.");
}

#[test]
fn clipboard_write_reports() {
    let tool = ClipboardWriteTool;
    assert_eq!(tool.command(true), ["wl-copy"]);
    assert_eq!(tool.command(false), ["xclip", "-selection", "clipboard"]);
    let args = ObjectBuilder::new().with("text", Json::text("hé")).build();
    let text = tool.plan(&args).unwrap();
    let res = tool.finish(&text, true, "").unwrap();
    assert_eq!(res.summary, "wrote 3 chars to clipboard");
    assert_eq!(res.data.render(), r#"{"bytes_written":3}"#);
    assert_eq!(
        tool.finish(&text, false, "exit status: 1").unwrap_err().message,
        "clipboard write failed (exit status: 1)"
    );
    assert_eq!(
        tool.plan(&Json::Null).unwrap_err().message,
        "clipboard_write requires {\"text\":\"...\"}"
    );
    assert_eq!(tool.not_started(true, "gone").message, "wl-copy: gone");
    assert_eq!(tool.not_started(false, "gone").message, "xclip: gone");
    assert_eq!(tool.name(), "clipboard_write");
    assert!(tool.description().contains("{\"text\": \"...\"}"));
}

#[test]
fn only_wayland_is_wayland() {
    assert!(session_is_wayland(&Some("wayland".to_string())));
    assert!(!session_is_wayland(&Some("x11".to_string())));
    assert!(!session_is_wayland(&None));
}

#[test]
fn screenshots_are_named_by_the_time() {
    let tool = ScreenshotTool;
    assert_eq!(
        tool.output_path("/c", 1431648000),
        Some("/c/screenshots/20150515T000000.png".to_string())
    );
    assert_eq!(
        tool.output_path("/c", 86399),
        Some("/c/screenshots/19700101T235959.png".to_string())
    );
    assert_eq!(tool.output_path("/c", i64::MAX), None);
    assert_eq!(tool.place("/c/", "now"), "/c/screenshots/now.png");
    assert_eq!(tool.program("wayland"), "grim");
    assert_eq!(tool.program(""), "scrot");
    let res = tool.finish("/p.png", "x11", true, "").unwrap();
    assert_eq!(res.summary, "captured screenshot to /p.png");
    assert_eq!(res.data.render(), r#"{"path":"/p.png"}"#);
    assert_eq!(
        tool.finish("/p.png", "x11", false, "exit status: 2").unwrap_err().message,
        "screenshot command exited with exit status: 2 (session=x11)"
    );
    assert_eq!(tool.name(), "screenshot");
    assert_eq!(tool.description(), "Capture the current screen to a PNG and return its path.");
}

fn change(field: &str, value: Json) -> Json {
    ObjectBuilder::new().with("field", Json::text(field)).with("value", value).build()
}

#[test]
fn rejects_unknown_field() {
    let tool = SetKnowledgeTool::new(Some("arch".into()));
    let res = tool.plan(&change("bogus", Json::text("x")), None);
    assert!(res.is_err(), "unknown field must error");
    assert_eq!(res.unwrap_err().message, "set_knowledge: unknown field `bogus`");
}

#[test]
fn missing_args_error() {
    let tool = SetKnowledgeTool::new(Some("arch".into()));
    assert!(tool.plan(&ObjectBuilder::new().build(), None).is_err());
    let only_field = ObjectBuilder::new().with("field", Json::text("update_cmd")).build();
    assert!(tool.plan(&only_field, None).is_err());
    assert_eq!(
        tool.plan(&Json::Null, None).unwrap_err().message,
        "set_knowledge: missing string arg `field`"
    );
    assert_eq!(
        tool.plan(&only_field, None).unwrap_err().message,
        "set_knowledge: missing arg `value`"
    );
}

#[test]
fn set_knowledge_changes_one_field() {
    let tool = SetKnowledgeTool::new(Some("arch".into()));
    let args = change("update_cmd", Json::text("doas \"x\""));
    let k = tool.plan(&args, None).unwrap();
    assert_eq!(k.update_cmd, "doas \"x\"");
    assert_eq!(k.package_manager, "pacman");
    let res = tool.finish(&args, "/d/system.json", &k);
    assert_eq!(res.summary, r#"updated update_cmd in /d/system.json (now: "doas \"x\"")"#);
    assert_eq!(res.data.get_str("path"), Some("/d/system.json"));
    assert_eq!(res.data.get_str("field"), Some("update_cmd"));
    let kept = res.data.get("knowledge").unwrap();
    assert_eq!(kept.get_str("package_manager"), Some("pacman"));
    assert_eq!(kept.get("config_paths").unwrap().nth(0).unwrap().as_str(), Some("/etc/pacman.conf"));
    assert_eq!(
        tool.plan(&change("notes", Json::Null), None).unwrap_err().message,
        "set_knowledge: `notes` takes a list of strings"
    );
    assert_eq!(
        tool.plan(&change("escalation", Json::Null), None).unwrap_err().message,
        "set_knowledge: `escalation` takes a string"
    );
    assert!(SetKnowledgeTool::new(None).plan(&args, None).is_err());
    assert_eq!(tool.name(), "set_knowledge");
    assert!(tool.description().contains("Valid fields: package_manager,"));
}

#[test]
fn set_knowledge_reads_os_release_as_the_context_does() {
    let tool = SetKnowledgeTool::from_os_release(Some("ID=arch\nID=\"void\"\n"));
    let k = tool.plan(&change("escalation", Json::text("doas")), None).unwrap();
    assert_eq!(k.package_manager, "xbps");
    let tool = SetKnowledgeTool::from_os_release(None);
    assert!(tool.plan(&change("escalation", Json::text("doas")), None).is_err());
}

#[test]
fn yes_is_y_or_yes() {
    for line in ["y\n", "Y", " yes \r\n", "YES"] {
        assert!(answer_is_yes(line), "{line:?}");
    }
    for line in ["", "\n", "n", "yep", "y e s", "no", "ja"] {
        assert!(!answer_is_yes(line), "{line:?}");
    }
    assert!(TtyConfirmer.decide(Some("y\n")));
    assert!(!TtyConfirmer.decide(None));
}

#[test]
fn dropped_questions_are_errors() {
    assert_eq!(ChannelConfirmer.decide(Forwarded::Answered(true)), Ok(true));
    assert_eq!(
        ChannelConfirmer.decide(Forwarded::NotSent),
        Err("confirm channel closed".to_string())
    );
    assert_eq!(
        ChannelConfirmer.decide(Forwarded::Dropped("channel closed".to_string())),
        Err("confirm response dropped: channel closed".to_string())
    );
    assert_eq!(pass_on(AnswerRead::Closed), None);
    assert_eq!(pass_on(AnswerRead::Failed), None);
    assert_eq!(pass_on(AnswerRead::Garbled), Some(false));
    assert_eq!(pass_on(AnswerRead::Answer(true)), Some(true));
}
