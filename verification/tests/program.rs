//! The daemon, the setup, the command line and the window.
use std::sync::Arc;

use tux::agent::AgentReply;
use tux::backend::{BackendKind, ScriptedBackend};
use tux::cli::{
    after_daemon, choose_backend, choose_for_window, info_text, kind_of, load_failed, pad,
    read_prompt, reset_failed, trace_line, AfterDaemon, BackendChoice, Flags, Present,
};
use tux::config::{BackendType, InferenceConfig, TuxConfig};
use tux::daemon::{
    answer_for, broken_reply, client_step, dispatch, may_start, runtime_directory, socket_path,
    status, Action, ClientStep, ConfirmRecord, ReplyPayload, Request, Response, SendError, ServerLine,
    Session,
};
use tux::gui::{Arrived, Transcript};
use tux::init::{
    after_reload, choose_model, default_mmproj, default_model, detected_line, done_line,
    enabled_line, gpu_vram_listed, gpu_vram_mib, kept_line, knowledge_line, knowledge_to_save,
    mmproj_path, model_path, partial_path, plan_local, plan_remote, projector_of, saved_line,
    selected_line, total_ram_mib, tune, unit_dir, unit_text, vision_model, FilesThere, HostFacts,
    InitStep, Piece, Ran,
};
use tux::json::Json;
use tux::knowledge::known;
use tux::spinner::{drawn, frame};
use tux::tools::confirm::Confirmer;
use tux::tools::{ToolRegistry, ToolResult};
use tux::{Agent, SystemContext};

struct Nobody;

impl Confirmer for Nobody {
    fn confirm(&self, _prompt: &str) -> Result<bool, String> {
        Ok(false)
    }
}

fn nobody() -> Arc<dyn Confirmer> {
    Arc::new(Nobody)
}

fn some(s: &str) -> Option<String> {
    Some(s.to_string())
}

fn said(r: Response) -> String {
    match r {
        Response::Reply(p) => p.text,
        Response::Failure { error } => format!("error: {error}"),
    }
}

#[test]
fn socket_is_in_the_runtime_directory() {
    assert_eq!(socket_path(&some("/run/user/1"), &some("al")), "/run/user/1/tux.sock");
    assert_eq!(socket_path(&None, &some("al")), "/tmp/tux-al/tux.sock");
    assert_eq!(socket_path(&None, &None), "/tmp/tux-default/tux.sock");
    assert_eq!(runtime_directory(&None, &None), "/tmp/tux-default");
}

#[test]
fn one_daemon_serves() {
    assert_eq!(may_start("/s", false, false), Ok(false));
    assert_eq!(may_start("/s", true, false), Ok(true));
    assert_eq!(
        may_start("/s", true, true),
        Err("another tuxd is already serving at /s".to_string())
    );
    assert_eq!(status("/s", false, Ok(())), "not running (no socket at /s)");
    assert_eq!(status("/s", true, Ok(())), "running (/s)");
    assert_eq!(
        status("/s", true, Err("ping timeout".to_string())),
        "stale socket at /s (ping timeout)"
    );
}

#[test]
fn requests_are_dispatched() {
    assert!(matches!(dispatch(Request::Shutdown { shutdown: true }), Action::Exit(t) if t == "shutting down"));
    assert!(matches!(dispatch(Request::Shutdown { shutdown: false }), Action::Say(t) if t == "noop"));
    assert!(matches!(dispatch(Request::Reset { reset: true }), Action::Forget(t) if t == "conversation reset"));
    assert!(matches!(dispatch(Request::Reset { reset: false }), Action::Say(t) if t == "noop"));
    let prompt = Request::Prompt { prompt: "hi".to_string() };
    assert!(matches!(dispatch(prompt), Action::Run(p) if p == "hi"));
}

#[test]
fn session_is_shared_and_reset() {
    let backend = ScriptedBackend::new(vec!["one".to_string(), "two".to_string()]);
    let agent = Agent::new(backend, ToolRegistry::new(), SystemContext::default());
    let mut session = Session::new(agent);
    let ask = |text: &str| Request::Prompt { prompt: text.to_string() };
    let (r, exit) = session.serve(ask("a"), &nobody());
    assert_eq!((said(r).as_str(), exit), ("one", false));
    let (r, exit) = session.serve(Request::Shutdown { shutdown: false }, &nobody());
    assert_eq!((said(r).as_str(), exit), ("noop", false));
    assert_eq!(session.conv.messages().len(), 3);
    let (r, _) = session.serve(ask("b"), &nobody());
    assert_eq!(said(r), "two");
    assert_eq!(session.conv.messages().len(), 5);
    let (r, exit) = session.serve(Request::Reset { reset: false }, &nobody());
    assert_eq!((said(r).as_str(), exit), ("noop", false));
    let (r, exit) = session.serve(Request::Reset { reset: true }, &nobody());
    assert_eq!((said(r).as_str(), exit), ("conversation reset", false));
    assert!(session.conv.is_empty());
    let (r, _) = session.serve(ask("c"), &nobody());
    assert_eq!(said(r), "error: ScriptedBackend ran out of responses");
    let (r, exit) = session.serve(Request::Shutdown { shutdown: true }, &nobody());
    assert_eq!((said(r).as_str(), exit), ("shutting down", true));
    assert_eq!(said(broken_reply("boom")), "error: agent task panicked: boom");
}

fn failure(line: ServerLine) -> (String, bool) {
    match client_step(line) {
        ClientStep::Fail(e) => (e.message, e.replied),
        other => panic!("{other:?}"),
    }
}

#[test]
fn client_follows_the_daemon() {
    let ask = ServerLine::Confirm(ConfirmRecord { confirm: "really?".to_string() });
    assert!(matches!(client_step(ask), ClientStep::Ask(q) if q == "really?"));
    let payload = ReplyPayload { text: "hi".to_string(), tool_calls: vec![] };
    let done = ServerLine::Reply(Response::Reply(payload));
    assert!(matches!(client_step(done), ClientStep::Done(p) if p.text == "hi"));
    assert_eq!(
        failure(ServerLine::Closed),
        ("daemon closed connection without a reply".to_string(), false)
    );
    assert_eq!(
        failure(ServerLine::Reply(Response::Failure { error: "x".to_string() })),
        ("daemon: x".to_string(), true)
    );
    let garbled = ServerLine::Garbled { line: "a\"b".to_string(), error: "odd".to_string() };
    assert_eq!(
        failure(garbled),
        ("bad response json: odd (got: \"a\\\"b\")".to_string(), false)
    );
    assert!(answer_for(Ok(true)).answer);
    assert!(!answer_for(Ok(false)).answer);
    assert!(!answer_for(Err("no tty".to_string())).answer);
}

#[test]
fn memory_is_read() {
    let meminfo = "MemFree:  1 kB\nMemTotal:       16384000 kB\nMemTotal: 1 kB\n";
    assert_eq!(total_ram_mib(Some(meminfo)), 16000);
    assert_eq!(total_ram_mib(Some("MemTotal: x\nMemTotal: 2048 kB")), 2);
    assert_eq!(total_ram_mib(Some("MemTotal:\n")), 0);
    assert_eq!(total_ram_mib(Some("")), 0);
    assert_eq!(total_ram_mib(None), 0);
    assert_eq!(total_ram_mib(Some("MemTotal: 4398046512128 kB")), 1);
}

#[test]
fn graphics_memory_is_read() {
    let none: Vec<String> = vec![];
    assert_eq!(gpu_vram_mib(Some(b"8192\n 4096 \nN/A\n"), &none), Some(12288));
    assert_eq!(gpu_vram_mib(Some(b"\xff\n5\n"), &none), Some(5));
    let cards = vec!["x".to_string(), "0\n".to_string(), "2147483648\n".to_string()];
    assert_eq!(gpu_vram_mib(None, &cards), Some(2048));
    assert_eq!(gpu_vram_listed(Some("0\n"), &cards), Some(2048));
    assert_eq!(gpu_vram_listed(Some("18446744073709551615\n1\n"), &cards), None);
    assert_eq!(gpu_vram_listed(None, &none), Some(0));
}

#[test]
fn tuning_follows_the_host() {
    let t = |size, ram, vram| {
        let c = tune(8, size, ram, vram);
        (c.n_threads, c.ctx_size, c.n_gpu_layers, c.batch_size)
    };
    assert_eq!(t(2500, 8191, 0), (8, 2048, 0, 512));
    assert_eq!(t(2500, 8192, 3011), (8, 4096, 0, 512));
    assert_eq!(t(2500, 16383, 3012), (8, 4096, 99, 512));
    assert_eq!(t(2500, 16384, 9999), (8, 8192, 99, 512));
}

#[test]
fn model_is_chosen() {
    let facts = HostFacts { cores: 12, physical_cores: 6, ram_mib: 16384, vram_mib: 0 };
    assert_eq!(choose_model(&None, &facts).unwrap().id, "qwen3.5-4b-q4");
    assert_eq!(choose_model(&some("qwen3.5-0.8b-q4"), &facts).unwrap().id, "qwen3.5-0.8b-q4");
    assert_eq!(choose_model(&some("x"), &facts).unwrap_err(), "unknown model id: x");
    let m = choose_model(&None, &facts).unwrap();
    assert_eq!(selected_line(&m), "selected: Qwen3.5-4B (Q4_K_M) (~2500 MiB)");
    assert_eq!(
        projector_of(&m).unwrap_err(),
        "registry entry `qwen3.5-4b-q4` is not a vision model"
    );
    let v = vision_model().unwrap();
    assert_eq!(v.id, "qwen3-vl-2b");
    assert!(projector_of(&v).unwrap().contains("mmproj"));
    assert_eq!(
        detected_line(&facts),
        "detected: 12 cores (6 physical), 16384 MiB RAM, no GPU detected"
    );
    let gpu = HostFacts { vram_mib: 8192, ..facts };
    assert_eq!(
        detected_line(&gpu),
        "detected: 12 cores (6 physical), 16384 MiB RAM, 8192 MiB GPU VRAM"
    );
}

#[test]
fn files_have_their_places() {
    assert_eq!(model_path("/m", "a"), "/m/a.gguf");
    assert_eq!(mmproj_path("/m", "a"), "/m/a.mmproj");
    assert_eq!(partial_path("/m", "a"), "/m/a.gguf.partial");
    assert_eq!(default_model("/m"), "/m/default.gguf");
    assert_eq!(default_mmproj("/m"), "/m/default.mmproj");
}

fn steps(plan: &[InitStep]) -> Vec<String> {
    plan.iter()
        .map(|s| match s {
            InitStep::Download { partial, dest, .. } => format!("get {partial} -> {dest}"),
            InitStep::Keep { dest, .. } => format!("keep {dest}"),
            InitStep::VisionReady => "vision".to_string(),
            InitStep::Validate { model } => format!("load {model}"),
            InitStep::Link { target, link } => format!("link {link} -> {target}"),
            InitStep::Configure { .. } => "configure".to_string(),
            InitStep::SaveKnowledge => "knowledge".to_string(),
            InitStep::InstallDaemon => "daemon".to_string(),
            InitStep::SkipDaemon => "no daemon".to_string(),
        })
        .collect()
}

#[test]
fn local_setup_validates_before_it_links() {
    let facts = HostFacts { cores: 4, physical_cores: 2, ram_mib: 4096, vram_mib: 0 };
    let files = FilesThere {
        model: false,
        vision_model: false,
        vision_mmproj: false,
        default_mmproj: false,
    };
    let m = choose_model(&None, &facts).unwrap();
    let plan = plan_local(&m, None, &facts, &files, "/m", true);
    assert_eq!(
        steps(&plan),
        vec![
            "get /m/qwen3.5-2b-q4.gguf.partial -> /m/qwen3.5-2b-q4.gguf",
            "load /m/qwen3.5-2b-q4.gguf",
            "link /m/default.gguf -> /m/qwen3.5-2b-q4.gguf",
            "configure",
            "knowledge",
            "daemon",
        ]
    );
    match &plan[3] {
        InitStep::Configure { config } => {
            assert_eq!(config.backend.model_path, some("/m/qwen3.5-2b-q4.gguf"));
            assert_eq!(config.backend.mmproj_path, None);
            assert_eq!(config.inference.ctx_size, 2048);
            assert_eq!(
                saved_line(config, "/c.toml"),
                "wrote config → /c.toml (threads=2, ctx=2048, gpu_layers=0)"
            );
        }
        other => panic!("{other:?}"),
    }
}

#[test]
fn vision_setup_links_model_and_projector() {
    let facts = HostFacts { cores: 4, physical_cores: 2, ram_mib: 4096, vram_mib: 0 };
    let files = FilesThere {
        model: true,
        vision_model: true,
        vision_mmproj: false,
        default_mmproj: false,
    };
    let m = choose_model(&None, &facts).unwrap();
    let v = vision_model().unwrap();
    let url = projector_of(&v).unwrap();
    let plan = plan_local(&m, Some((v, url)), &facts, &files, "/m", false);
    assert_eq!(
        steps(&plan),
        vec![
            "keep /m/qwen3.5-2b-q4.gguf",
            "load /m/qwen3.5-2b-q4.gguf",
            "link /m/default.gguf -> /m/qwen3.5-2b-q4.gguf",
            "keep /m/qwen3-vl-2b.gguf",
            "get /m/qwen3-vl-2b.gguf.partial -> /m/qwen3-vl-2b.mmproj",
            "load /m/qwen3-vl-2b.gguf",
            "link /m/default.gguf -> /m/qwen3-vl-2b.gguf",
            "link /m/default.mmproj -> /m/qwen3-vl-2b.mmproj",
            "vision",
            "configure",
            "knowledge",
            "no daemon",
        ]
    );
    match &plan[9] {
        InitStep::Configure { config } => {
            assert_eq!(config.backend.model_path, some("/m/qwen3-vl-2b.gguf"));
            assert_eq!(config.backend.mmproj_path, some("/m/default.mmproj"));
        }
        other => panic!("{other:?}"),
    }
}

#[test]
fn one_model_for_both_is_downloaded_once() {
    let facts = HostFacts { cores: 4, physical_cores: 2, ram_mib: 4096, vram_mib: 0 };
    let files = FilesThere {
        model: false,
        vision_model: false,
        vision_mmproj: true,
        default_mmproj: true,
    };
    let v = vision_model().unwrap();
    let m = choose_model(&Some(v.id.to_string()), &facts).unwrap();
    let url = projector_of(&v).unwrap();
    let plan = steps(&plan_local(&m, Some((v, url)), &facts, &files, "/m", false));
    assert_eq!(plan.iter().filter(|s| s.starts_with("get")).count(), 1);
    assert_eq!(plan[3], "keep /m/qwen3-vl-2b.gguf");
}

#[test]
fn remote_setup_downloads_nothing() {
    let plan = plan_remote("http://h".to_string(), None, true);
    assert_eq!(steps(&plan), vec!["configure", "knowledge", "daemon"]);
    match &plan[0] {
        InitStep::Configure { config } => {
            assert_eq!(config.backend.kind, BackendType::Remote);
            assert_eq!(config.backend.url, some("http://h"));
            assert_eq!(config.backend.model, some("default"));
            assert_eq!(
                saved_line(config, "/c.toml"),
                "wrote config → /c.toml\nremote backend: http://h  model: default"
            );
        }
        other => panic!("{other:?}"),
    }
    assert_eq!(steps(&plan_remote("u".to_string(), some("m"), false)), vec!["configure", "knowledge"]);
}

#[test]
fn setup_says_what_it_does() {
    let kept = |piece| kept_line(piece, "/m/a", 5 * 1024 * 1024 + 9);
    assert_eq!(kept(Piece::Model), "already downloaded: /m/a (5 MiB)");
    assert_eq!(kept(Piece::VisionModel), "vision model already downloaded: /m/a");
    assert_eq!(kept(Piece::Projector), "mmproj already downloaded: /m/a");
    let mut ctx = SystemContext::default();
    assert_eq!(knowledge_line(&ctx, "/s"), "could not detect distro from /etc/os-release");
    assert!(knowledge_to_save(&ctx).is_none());
    ctx.distro_id = some("x");
    assert!(knowledge_line(&ctx, "/s").starts_with("no curated knowledge for distro `x` — model"));
    assert!(knowledge_to_save(&ctx).is_none());
    ctx.knowledge = known("void");
    assert_eq!(knowledge_line(&ctx, "/s"), "wrote distro knowledge for `x` → /s");
    assert_eq!(knowledge_to_save(&ctx).unwrap().package_manager, "xbps");
    assert_eq!(
        done_line(&some("/m/default.gguf")),
        "\ndone. default model: /m/default.gguf\ntry: tux \"how do I check disk usage?\""
    );
    assert_eq!(done_line(&None), "\ndone. try: tux \"how do I check disk usage?\"");
}

#[test]
fn unit_is_written_where_systemd_looks() {
    assert_eq!(unit_dir(&some("/c/systemd"), &None), "/c/systemd/user");
    assert_eq!(unit_dir(&some("/c/systemd/user"), &None), "/c/systemd/user");
    assert_eq!(unit_dir(&some("/c/superuser"), &None), "/c/superuser/user");
    assert_eq!(unit_dir(&None, &some("/home/a")), "/home/a/.config/systemd/user");
    assert_eq!(unit_dir(&None, &None), ".config/systemd/user");
    assert_eq!(
        unit_text("/bin/tux"),
        "[Unit]\nDescription=tux local AI daemon\nAfter=default.target\n\n[Service]\nExecStart=/bin/tux daemon serve\nRestart=on-failure\nRestartSec=2\n\n[Install]\nWantedBy=default.target\n"
    );
    assert!(after_reload(&Ran::Success).is_none());
    assert!(after_reload(&Ran::NotRun("x".to_string())).unwrap().contains("skipping enable"));
    assert_eq!(enabled_line(&Ran::Success), "enabled and started tuxd.service");
    assert_eq!(
        enabled_line(&Ran::Exited("exit status: 1".to_string())),
        "warning: `systemctl --user enable --now tuxd.service` exited exit status: 1"
    );
    assert_eq!(
        enabled_line(&Ran::NotRun("gone".to_string())),
        "warning: failed to enable tuxd.service: gone"
    );
}

#[test]
fn prompt_comes_from_words_and_pipe() {
    let words = |s: &str| s.split(' ').map(|w| w.to_string()).collect::<Vec<String>>();
    assert_eq!(read_prompt(&words("install neovim"), None), Ok("install neovim".to_string()));
    assert_eq!(read_prompt(&vec![], Some(" hi \n")), Ok("hi".to_string()));
    assert_eq!(
        read_prompt(&words("what is"), Some("log\n")),
        Ok("what is\n\nlog".to_string())
    );
    assert_eq!(read_prompt(&words("a"), Some("  ")), Ok("a".to_string()));
    let err = read_prompt(&words(" "), Some("\n")).unwrap_err();
    assert!(err.starts_with("no prompt — pass words as args or pipe text via stdin\n"));
}

fn flags(model: Option<&str>, url: Option<&str>) -> Flags {
    Flags {
        model: model.map(|s| s.to_string()),
        remote_url: url.map(|s| s.to_string()),
        remote_model: None,
    }
}

fn present(default: bool, configured: bool) -> Present {
    Present {
        default_model: if default { some("/d.gguf") } else { None },
        default_mmproj: if default { some("/d.mmproj") } else { None },
        configured_model: configured,
    }
}

fn shown(choice: BackendChoice) -> String {
    match choice {
        BackendChoice::Remote { url, model, api_key } => format!("{url} {model} {api_key:?}"),
        BackendChoice::Local { model_path, mmproj_path } => format!("{model_path} {mmproj_path:?}"),
        BackendChoice::Mock => "mock".to_string(),
    }
}

#[test]
fn backend_is_chosen_in_order() {
    let mut config = TuxConfig::default();
    config.backend.model_path = some("/c.gguf");
    let pick = |f: &Flags, c: &TuxConfig, p: &Present| shown(choose_backend(f, c, p).unwrap());
    let all = present(true, true);
    assert_eq!(pick(&flags(some("/f").as_deref(), Some("u")), &config, &all), "u default None");
    assert_eq!(pick(&flags(Some("/f"), None), &config, &all), "/f Some(\"/d.mmproj\")");
    assert_eq!(pick(&flags(None, None), &config, &all), "/c.gguf None");
    assert_eq!(
        pick(&flags(None, None), &config, &present(true, false)),
        "/d.gguf Some(\"/d.mmproj\")"
    );
    assert_eq!(pick(&flags(None, None), &config, &present(false, false)), "mock");
    config.backend.kind = BackendType::Remote;
    let err = choose_backend(&flags(None, None), &config, &all).unwrap_err();
    assert_eq!(err, "config: remote backend requires a url");
    config.backend.url = some("r");
    config.backend.api_key = some("k");
    assert_eq!(pick(&flags(None, None), &config, &all), "r default Some(\"k\")");
}

#[test]
fn window_takes_the_named_or_the_default_model() {
    let there = Present {
        default_model: some("/m/default.gguf"),
        default_mmproj: some("/m/default.mmproj"),
        configured_model: false,
    };
    for (named, want) in [(some("/x.gguf"), "/x.gguf"), (None, "/m/default.gguf")] {
        match choose_for_window(named, &there) {
            BackendChoice::Local { model_path, mmproj_path } => {
                assert_eq!(model_path, want);
                assert_eq!(mmproj_path, some("/m/default.mmproj"));
            }
            other => panic!("{other:?}"),
        }
    }
    let bare = Present { default_model: None, default_mmproj: None, configured_model: false };
    assert!(matches!(choose_for_window(None, &bare), BackendChoice::Mock));
}

#[test]
fn without_a_reply_of_the_daemon_a_model_is_loaded() {
    let payload = ReplyPayload { text: "hi".to_string(), tool_calls: vec![] };
    assert!(matches!(after_daemon(Ok(payload)), AfterDaemon::Show(p) if p.text == "hi"));
    let failed = |line| match client_step(line) {
        ClientStep::Fail(e) => after_daemon(Err(e)),
        other => panic!("{other:?}"),
    };
    let broke = ServerLine::Reply(Response::Failure { error: "it broke".to_string() });
    assert!(matches!(failed(broke), AfterDaemon::Fail(e) if e == "daemon: it broke"));
    assert!(matches!(failed(ServerLine::Closed), AfterDaemon::InProcess));
    let odd = ServerLine::Garbled { line: "x".to_string(), error: "odd".to_string() };
    assert!(matches!(failed(odd), AfterDaemon::InProcess));
    let absent = SendError { message: "connect /s".to_string(), replied: false };
    assert!(matches!(after_daemon(Err(absent)), AfterDaemon::InProcess));
}

#[test]
fn choice_becomes_a_kind() {
    let inference = InferenceConfig { n_threads: 1, ctx_size: 2, n_gpu_layers: 3, batch_size: 4 };
    let local = BackendChoice::Local { model_path: "/m".to_string(), mmproj_path: None };
    match kind_of(local, &inference) {
        BackendKind::LlamaCpp { n_threads, ctx_size, n_gpu_layers, batch_size, .. } => {
            assert_eq!((n_threads, ctx_size, n_gpu_layers, batch_size), (1, 2, 3, 4));
        }
        other => panic!("{other:?}"),
    }
    assert!(matches!(kind_of(BackendChoice::Mock, &inference), BackendKind::Mock));
    let remote = BackendChoice::Remote {
        url: "u".to_string(),
        model: "m".to_string(),
        api_key: None,
    };
    assert!(matches!(kind_of(remote, &inference), BackendKind::OpenAICompat { .. }));
    assert_eq!(load_failed("/m", "no"), "failed to load model /m: no");
    assert!(reset_failed("no").starts_with("could not reach daemon to reset: no\n(no daemon"));
}

fn call(tool: &str, summary: &str) -> ToolResult {
    ToolResult { tool: tool.to_string(), summary: summary.to_string(), data: Json::Null }
}

#[test]
fn output_is_laid_out() {
    assert_eq!(trace_line(&call("echo", "echoed")), "· echo → echoed");
    for s in ["", "screenshot", "clipboard_write", "ü"] {
        assert_eq!(pad(s, 14), format!("{s:<14}"));
    }
    let agent = Agent::new(
        ScriptedBackend::new(vec![]),
        ToolRegistry::new(),
        SystemContext::default(),
    );
    assert_eq!(
        info_text(&agent, agent.backend_name()),
        "backend: scripted\n\nHost facts:\n\ntools:\n"
    );
}

#[test]
fn window_shows_the_transcript() {
    let mut t = Transcript::new();
    assert_eq!(t.submit("   "), None);
    assert_eq!(t.submit(" hi "), Some("hi".to_string()));
    assert_eq!(t.submit("again"), None);
    let reply = AgentReply {
        text: "done".to_string(),
        tool_calls: vec![call("a", "1"), call("b", "2")],
    };
    t.arrive(Arrived::Answer(reply));
    assert_eq!(t.text(), "» hi\n· a → 1\n· b → 2\ndone");
    assert!(t.submit("x").is_some());
    t.arrive(Arrived::Error("bad".to_string()));
    assert!(t.text().ends_with("\n» x\nerror: bad"));
    assert!(t.submit("y").is_some());
    t.arrive(Arrived::Nothing);
    assert!(t.text().ends_with("\n» y"));
    assert!(t.submit("z").is_some());
}

#[test]
fn spinner_goes_round() {
    let frames = ["⠋", "⠙", "⠹", "⠸", "⠼", "⠴", "⠦", "⠧", "⠇", "⠏"];
    for i in 0..25 {
        assert_eq!(frame(i), frames[i % 10]);
    }
    assert_eq!(drawn(11, "thinking…"), "\r⠙ thinking…");
}
