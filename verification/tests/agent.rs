//! The agent loop, against a scripted backend and a tool without effects.
use std::sync::atomic::{AtomicUsize, Ordering};
use std::sync::{Arc, Mutex};

use tux::agent::{
    args_from, extract_image_path, find_call, looks_like_image, parse_tool_call, Turn,
    MAX_TOOL_HOPS,
};
use tux::backend::{ChatMessage, MockBackend, Role, ScriptedBackend};
use tux::json::{Json, ObjectBuilder};
use tux::tools::confirm::Confirmer;
use tux::tools::{DefaultTools, Held, Tool, ToolError, ToolRegistry, ToolResult};
use tux::{Agent, Conversation, SystemContext};

struct Nobody;

impl Confirmer for Nobody {
    fn confirm(&self, _prompt: &str) -> Result<bool, String> {
        Ok(false)
    }
}

fn nobody() -> Arc<dyn Confirmer> {
    Arc::new(Nobody)
}

/// Answers every question with the same answer, and keeps the questions.
struct Recorded {
    answer: bool,
    asked: Mutex<Vec<String>>,
}

impl Confirmer for Recorded {
    fn confirm(&self, prompt: &str) -> Result<bool, String> {
        self.asked.lock().unwrap().push(prompt.to_string());
        Ok(self.answer)
    }
}

struct AskingTool;

impl Tool for AskingTool {
    fn name(&self) -> &'static str {
        "ask"
    }

    fn description(&self) -> &'static str {
        "Asks."
    }

    fn invoke(&self, _args: Json, confirmer: &Arc<dyn Confirmer>) -> Result<ToolResult, ToolError> {
        let yes = confirmer.confirm("really?").map_err(ToolError::new)?;
        Ok(ToolResult {
            tool: "ask".to_string(),
            summary: if yes { "did it".to_string() } else { "left it".to_string() },
            data: Json::Null,
        })
    }
}

struct EchoTool {
    invocations: Arc<Mutex<Vec<Json>>>,
}

impl Tool for EchoTool {
    fn name(&self) -> &'static str {
        "echo"
    }

    fn description(&self) -> &'static str {
        "Echo arguments back."
    }

    fn invoke(&self, args: Json, _confirmer: &Arc<dyn Confirmer>) -> Result<ToolResult, ToolError> {
        self.invocations.lock().unwrap().push(args.duplicate());
        Ok(ToolResult { tool: "echo".to_string(), summary: "echoed".to_string(), data: args })
    }
}

struct FailingTool;

impl Tool for FailingTool {
    fn name(&self) -> &'static str {
        "fail"
    }

    fn description(&self) -> &'static str {
        "Fails."
    }

    fn invoke(&self, _args: Json, _confirmer: &Arc<dyn Confirmer>) -> Result<ToolResult, ToolError> {
        Err(ToolError::new("it broke".to_string()))
    }
}

struct CameraTool;

impl Tool for CameraTool {
    fn name(&self) -> &'static str {
        "camera"
    }

    fn description(&self) -> &'static str {
        "Takes a picture."
    }

    fn invoke(&self, _args: Json, _confirmer: &Arc<dyn Confirmer>) -> Result<ToolResult, ToolError> {
        let data = ObjectBuilder::new().with("path", Json::text("/tmp/shot.png")).build();
        Ok(ToolResult { tool: "camera".to_string(), summary: "taken".to_string(), data })
    }
}

fn new_log() -> Arc<Mutex<Vec<Json>>> {
    Arc::new(Mutex::new(Vec::new()))
}

fn registry_with_echo(log: Arc<Mutex<Vec<Json>>>) -> ToolRegistry {
    let mut r = ToolRegistry::new();
    r.register(Box::new(EchoTool { invocations: log }));
    r
}

fn scripted(responses: &[&str]) -> ScriptedBackend {
    ScriptedBackend::new(responses.iter().map(|s| s.to_string()).collect())
}

fn agent_with(responses: &[&str], tools: ToolRegistry) -> Agent<ScriptedBackend> {
    Agent::new(scripted(responses), tools, SystemContext::default())
}

#[test]
fn parses_basic_tool_call() {
    let p = parse_tool_call(r#"<tool name="screenshot">{}</tool>"#).unwrap();
    assert_eq!(p.name, "screenshot");
    assert_eq!(p.args, Json::Object(vec![]));
}

#[test]
fn parses_tool_call_with_args() {
    let p = parse_tool_call(r#"<tool name="find_file">{"glob":"*.rs"}</tool>"#).unwrap();
    assert_eq!(p.name, "find_file");
    assert_eq!(p.args, Json::Object(vec![("glob".to_string(), Json::text("*.rs"))]));
}

#[test]
fn no_tool_call_returns_none() {
    assert!(parse_tool_call("just a normal answer").is_none());
}

#[test]
fn parses_tool_call_with_surrounding_prose() {
    let p = parse_tool_call("Sure, let me check.\n<tool name=\"echo\">{}</tool>\nDone.").unwrap();
    assert_eq!(p.name, "echo");
}

#[test]
fn body_that_is_not_json_is_passed_as_text() {
    let p = parse_tool_call("<tool name=\"echo\"> just words </tool>").unwrap();
    assert_eq!(p.args, Json::text("just words"));
    let p = parse_tool_call("<tool name=\"echo\">  </tool>").unwrap();
    assert_eq!(p.args, Json::Null);
}

#[test]
fn args_from_takes_what_was_parsed() {
    assert_eq!(args_from("", Some(Json::Bool(true))), Json::Null);
    assert_eq!(args_from("x", Some(Json::Bool(true))), Json::Bool(true));
    assert_eq!(args_from("x", None), Json::text("x"));
}

#[test]
fn broken_calls_are_no_calls() {
    for text in [
        "<tool>{}</tool>",
        "<tool name=\"echo>{}</tool>",
        "<tool name=\"echo\"{}",
        "<tool name=\"echo\">{}",
        "<too name=\"echo\">{}</tool>",
    ] {
        assert!(find_call(text).is_none(), "found a call in {text:?}");
    }
}

#[test]
fn first_call_counts_and_attributes_may_stand_around_the_name() {
    let text = "<tool id=\"1\" name=\"a\" x=\"y\">1</tool><tool name=\"b\">2</tool>";
    assert_eq!(find_call(text), Some(("a".to_string(), "1".to_string())));
}

#[test]
fn direct_answer_passes_through() {
    let mut agent = agent_with(&["sudo nix-env -iA nixos.vim"], registry_with_echo(new_log()));

    let reply = agent.handle("install vim", &nobody()).unwrap();

    assert_eq!(reply.text, "sudo nix-env -iA nixos.vim");
    assert!(reply.tool_calls.is_empty());
    assert_eq!(agent.backend().calls().len(), 1, "single round-trip, no hops");
}

#[test]
fn mock_agent_repeats_the_question() {
    let mut agent =
        Agent::new(MockBackend, registry_with_echo(new_log()), SystemContext::default());
    let mut conv = Conversation::new();
    for (asked, answer) in
        [("  what time is it? ", "[mock] you asked: what time is it?"), (" ", "[mock] you asked:")]
    {
        let reply = agent.turn(&mut conv, asked, &nobody()).unwrap();
        assert_eq!(reply.text, answer);
        assert!(reply.tool_calls.is_empty());
    }
    assert_eq!(conv.messages().len(), 5);
    assert_eq!(agent.backend_name(), "mock");
}

#[test]
fn mock_agent_follows_a_tag_in_the_question() {
    let mut agent =
        Agent::new(MockBackend, registry_with_echo(new_log()), SystemContext::default());
    let reply = agent.handle("<tool name=\"echo\">1</tool>", &nobody()).unwrap();
    assert_eq!(reply.tool_calls.len(), 3);
    assert_eq!(reply.text, "(reached tool-call limit without a final answer)");
}

#[test]
fn single_tool_call_then_final_answer() {
    let log = new_log();
    let mut agent = agent_with(
        &[r#"<tool name="echo">{"msg":"hi"}</tool>"#, "I echoed your message back."],
        registry_with_echo(log.clone()),
    );

    let reply = agent.handle("echo hi for me", &nobody()).unwrap();

    assert_eq!(reply.text, "I echoed your message back.");
    assert_eq!(reply.tool_calls.len(), 1);
    assert_eq!(reply.tool_calls[0].tool, "echo");
    assert_eq!(log.lock().unwrap().len(), 1, "tool was actually invoked");
    assert_eq!(agent.backend().calls().len(), 2, "one hop: call + final");

    let second = &agent.backend().calls()[1];
    assert!(second
        .messages
        .iter()
        .any(|m| matches!(m.role, Role::Tool) && m.content.contains("echoed")));
}

#[test]
fn tool_gets_the_arguments_and_the_model_gets_the_report() {
    let log = new_log();
    let mut agent = agent_with(
        &[r#"<tool name="echo">{"msg":"hi"}</tool>"#, "done"],
        registry_with_echo(log.clone()),
    );
    agent.handle("go", &nobody()).unwrap();
    assert_eq!(
        log.lock().unwrap()[0],
        Json::Object(vec![("msg".to_string(), Json::text("hi"))])
    );
    let last = agent.backend().calls()[1].messages.last().unwrap();
    assert_eq!(last.content, r#"{"data":{"msg":"hi"},"summary":"echoed","tool":"echo"}"#);
}

#[test]
fn multi_hop_within_limit() {
    let log = new_log();
    let mut agent = agent_with(
        &[
            r#"<tool name="echo">{}</tool>"#,
            r#"<tool name="echo">{}</tool>"#,
            "done after two tool hops",
        ],
        registry_with_echo(log.clone()),
    );

    let reply = agent.handle("do two things", &nobody()).unwrap();

    assert_eq!(reply.text, "done after two tool hops");
    assert_eq!(reply.tool_calls.len(), 2);
    assert_eq!(log.lock().unwrap().len(), 2);
}

#[test]
fn hop_limit_returns_note() {
    let responses = vec![r#"<tool name="echo">{}</tool>"#; MAX_TOOL_HOPS + 2];
    let mut agent = agent_with(&responses, registry_with_echo(new_log()));

    let reply = agent.handle("loop forever", &nobody()).unwrap();

    assert!(reply.text.contains("limit"), "got: {}", reply.text);
    assert_eq!(reply.tool_calls.len(), MAX_TOOL_HOPS);
}

#[test]
fn hop_limit_adds_no_answer_to_the_conversation() {
    let responses = vec![r#"<tool name="echo">{}</tool>"#; 3];
    let mut agent = agent_with(&responses, registry_with_echo(new_log()));
    let mut conv = Conversation::new();
    let reply = agent.turn(&mut conv, "loop", &nobody()).unwrap();
    assert_eq!(reply.text, "(reached tool-call limit without a final answer)");
    assert_eq!(conv.messages().len(), 2 + 2 * 3);
    assert!(matches!(conv.messages().last().unwrap().role, Role::Tool));
    assert_eq!(agent.backend().calls().len(), 3);
}

#[test]
fn tools_ask_the_confirmer_of_the_turn() {
    for (answer, summary) in [(true, "did it"), (false, "left it")] {
        let mut tools = ToolRegistry::new();
        tools.register(Box::new(AskingTool));
        let mut agent = agent_with(&[r#"<tool name="ask">{}</tool>"#, "done"], tools);
        let recorded = Arc::new(Recorded { answer, asked: Mutex::new(Vec::new()) });
        let confirmer: Arc<dyn Confirmer> = recorded.clone();
        let reply = agent.handle("do it", &confirmer).unwrap();
        assert_eq!(reply.tool_calls[0].summary, summary);
        assert_eq!(*recorded.asked.lock().unwrap(), vec!["really?".to_string()]);
    }
}

#[test]
fn unknown_tool_errors() {
    let mut agent = agent_with(
        &[r#"<tool name="ssh_into_my_server">{}</tool>"#],
        registry_with_echo(new_log()),
    );

    let err = agent.handle("do something dangerous", &nobody()).unwrap_err();
    assert!(err.message().contains("ssh_into_my_server"), "got: {}", err.message());
    assert_eq!(err.message(), "model called unknown tool: ssh_into_my_server");
}

#[test]
fn failing_tool_and_failing_backend_end_the_turn() {
    let mut tools = registry_with_echo(new_log());
    tools.register(Box::new(FailingTool));
    let mut agent = agent_with(
        &[r#"<tool name="echo">{}</tool>"#, r#"<tool name="fail">{}</tool>"#],
        tools,
    );
    let mut conv = Conversation::new();
    let err = agent.turn(&mut conv, "break it", &nobody()).unwrap_err();
    assert_eq!(err.message(), "it broke");
    assert_eq!(conv.messages().len(), 4);

    let err = agent.turn(&mut conv, "again", &nobody()).unwrap_err();
    assert_eq!(err.message(), "ScriptedBackend ran out of responses");
    assert_eq!(conv.messages().len(), 5);
}

#[test]
fn system_prompt_lists_tools_and_includes_host_facts() {
    let tools = registry_with_echo(new_log());
    let mut ctx = SystemContext::default();
    ctx.distro_pretty_name = Some("Arch Linux".into());
    ctx.desktop = Some("KDE".into());
    let mut agent = Agent::new(scripted(&["ok"]), tools, ctx);

    let _ = agent.handle("hi", &nobody()).unwrap();

    let req = &agent.backend().calls()[0];
    let system = req
        .messages
        .iter()
        .find(|m| m.role == Role::System)
        .expect("system message present");
    assert!(system.content.contains("- echo:"), "tool listed");
    assert!(system.content.contains("Arch Linux"), "distro in prompt");
    assert!(system.content.contains("KDE"), "DE in prompt");
    assert!(system.content.contains("<tool name="), "tool-call format in prompt");
}

#[test]
fn system_prompt_is_exact() {
    let agent = agent_with(&[], registry_with_echo(new_log()));
    let prompt = agent.system_prompt();
    assert!(prompt.starts_with(
        "You are tux, a helpful local assistant on a Linux machine. Answer naturally in plain prose. Be concise."
    ));
    assert!(prompt.ends_with(
        "<tool name=\"NAME\">JSON_ARGS</tool>\n\nAvailable tools:\n- echo: Echo arguments back.\n\nAfter a tool runs you will receive its result and should then write the final natural-language answer for the user.\n\nHost facts:\n"
    ));
    assert!(prompt.contains("they mean YOUR OWN persisted configuration — the fields shown in the \"Package management & system commands\" block below, which are stored at $XDG_DATA_HOME/tux/system.json."));
    assert_eq!(agent.backend_name(), "scripted");
}

#[test]
fn conversation_keeps_history_and_prompt_is_said_once() {
    let mut agent = agent_with(&["  one  ", "two"], registry_with_echo(new_log()));
    let mut conv = Conversation::new();
    assert!(conv.is_empty());
    agent.turn(&mut conv, " first ", &nobody()).unwrap();
    agent.turn(&mut conv, "second", &nobody()).unwrap();
    let said: Vec<(Role, &str)> =
        conv.messages().iter().map(|m: &ChatMessage| (m.role, m.content.as_str())).collect();
    assert_eq!(said.len(), 5);
    assert_eq!(said[0].0, Role::System);
    assert_eq!(said[1], (Role::User, "first"));
    assert_eq!(said[2], (Role::Assistant, "one"));
    assert_eq!(said[3], (Role::User, "second"));
    assert_eq!(said[4], (Role::Assistant, "two"));
    conv.reset();
    assert!(conv.is_empty());
}

#[test]
fn image_goes_with_the_next_request_only() {
    let mut tools = registry_with_echo(new_log());
    tools.register(Box::new(CameraTool));
    let mut agent = agent_with(
        &[r#"<tool name="camera">{}</tool>"#, r#"<tool name="echo">{}</tool>"#, "seen"],
        tools,
    );
    agent.handle("look", &nobody()).unwrap();
    let calls = agent.backend().calls();
    assert!(calls[0].images.is_empty());
    assert_eq!(calls[1].images, vec!["/tmp/shot.png".to_string()]);
    assert!(calls[2].images.is_empty());
    assert_eq!(calls[0].max_tokens, 512);
}

#[test]
fn images_are_known_by_key_or_ending() {
    let by_key = ObjectBuilder::new().with("image_path", Json::text("/tmp/raw")).build();
    assert_eq!(extract_image_path(&by_key), Some("/tmp/raw".to_string()));
    let text = ObjectBuilder::new().with("path", Json::text("/tmp/a.txt")).build();
    assert_eq!(extract_image_path(&text), None);
    let upper = ObjectBuilder::new().with("path", Json::text("/tmp/A.JPEG")).build();
    assert_eq!(extract_image_path(&upper), Some("/tmp/A.JPEG".to_string()));
    let wrong = ObjectBuilder::new().with("path", Json::Bool(true)).build();
    assert_eq!(extract_image_path(&wrong), None);
    for name in ["a.png", "a.jpg", "a.jpeg", "a.bmp", "a.webp", "a.gif", "A.PNG"] {
        assert!(looks_like_image(name));
    }
    assert!(!looks_like_image("png"));
    assert!(!looks_like_image("a.png.txt"));
}

#[test]
fn turn_steps_can_be_taken_one_by_one() {
    let mut conv = Conversation::new();
    let mut turn = Turn::begin(&mut conv, "PROMPT", " hi ");
    let req = turn.request(&conv);
    assert_eq!(req.messages.len(), 2);
    assert_eq!(req.messages[0].content, "PROMPT");
    let data = ObjectBuilder::new().with("image_path", Json::text("x")).build();
    let report = ToolResult { tool: "t".to_string(), summary: "s".to_string(), data };
    turn.on_report(&mut conv, " call ", report);
    let req = turn.request(&conv);
    assert_eq!(req.images, vec!["x".to_string()]);
    assert_eq!(req.messages[2].content, "call");
    assert!(turn.request(&conv).images.is_empty());
    let reply = turn.finish(&mut conv, " bye ");
    assert_eq!(reply.text, "bye");
    assert_eq!(reply.tool_calls.len(), 1);
    assert_eq!(conv.messages().len(), 5);
}

#[test]
fn registry_keeps_tools_in_order_of_name() {
    let mut r = ToolRegistry::new();
    r.register(Box::new(FailingTool));
    r.register(Box::new(EchoTool { invocations: new_log() }));
    r.register(Box::new(CameraTool));
    r.register(Box::new(FailingTool));
    let names: Vec<&str> = r.list().iter().map(|e| e.0).collect();
    assert_eq!(names, vec!["camera", "echo", "fail"]);
    assert!(r.get("echo").is_some());
    assert!(r.get("ech").is_none());
    assert_eq!(r.get("fail").unwrap().description(), "Fails.");
}

/// Is described differently each time, and renamed after the first time.
struct MoodyTool {
    named: AtomicUsize,
    described: AtomicUsize,
}

impl Tool for MoodyTool {
    fn name(&self) -> &'static str {
        if self.named.fetch_add(1, Ordering::SeqCst) == 0 {
            "first"
        } else {
            "later"
        }
    }

    fn description(&self) -> &'static str {
        ["a", "b", "c"][self.described.fetch_add(1, Ordering::SeqCst)]
    }

    fn invoke(&self, _args: Json, _confirmer: &Arc<dyn Confirmer>) -> Result<ToolResult, ToolError> {
        Err(ToolError::new("no".to_string()))
    }
}

#[test]
fn registry_asks_its_tools_each_time() {
    let mut r = ToolRegistry::new();
    r.register(Box::new(MoodyTool { named: AtomicUsize::new(0), described: AtomicUsize::new(0) }));
    assert!(r.get("first").is_some());
    assert!(r.get("later").is_none());
    assert_eq!(r.list(), vec![("later", "a")]);
    assert_eq!(r.list(), vec![("later", "b")]);
    assert_eq!(r.get("first").unwrap().description(), "c");
}

#[test]
fn registry_has_the_built_in_tools() {
    let held = || Held { tool: Box::new(FailingTool) };
    let r = ToolRegistry::with_defaults(DefaultTools {
        clipboard_read: held(),
        clipboard_write: held(),
        edit_file: held(),
        find_file: Held { tool: Box::new(CameraTool) },
        install_package: held(),
        read_file: held(),
        screenshot: held(),
        set_knowledge: held(),
        write_file: held(),
    });
    let names: Vec<&str> = r.list().iter().map(|e| e.0).collect();
    assert_eq!(
        names,
        vec![
            "clipboard_read",
            "clipboard_write",
            "edit_file",
            "find_file",
            "install_package",
            "read_file",
            "screenshot",
            "set_knowledge",
            "write_file",
        ]
    );
    for name in names {
        assert_eq!(r.get(name).unwrap().name(), name);
    }
    let found = r.get("find_file").unwrap().invoke(Json::Null, &nobody()).unwrap();
    assert_eq!(found.summary, "taken");
    assert!(r.get("read_file").unwrap().invoke(Json::Null, &nobody()).is_err());
    let read = r.get("read_file").unwrap().description();
    assert!(read.starts_with("Read a UTF-8 text file."));
}
