//! The agent loop. The user asks in plain sentences; the model answers, or
//! calls a tool by writing `<tool name="...">{...}</tool>`. The agent finds
//! such a call, runs the tool, and hands the report back to the model until
//! it answers.
use std::sync::Arc;

use vstd::prelude::*;

use crate::backend::{
    answer_of, copy_messages, last_user_content, message_views, mock_answer, Backend, BackendError,
    ChatMessage, CompletionRequest, Exchange, MessageView, MockBackend, RequestView, Role,
};
use crate::context::SystemContext;
use crate::json::{json_parse, json_render, Json, JsonView, ObjectBuilder};
use crate::paths::opt_text;
use crate::search::{
    contains, cut, cut_at, cut_behind, cut_is_at_the_first, index_of_none_iff_absent, occurs_at, part_holds_no_more,
};
use crate::text::{
    ascii_lower, ascii_lower_char, chars_of, concat2, ends_with, has_prefix, has_suffix, string_of, texts, to_ascii_lower, trim,
    trim_chars, trimmed, trimmed_once, trimmed_within,
};
use crate::tools::confirm::Confirmer;
use crate::tools::{default_listing, listing_views, outcome_of, Registered, ToolError, ToolRegistry, ToolResult, ToolResultView};

verus! {

/// How often a tool may be called before the user gets an answer.
pub const MAX_TOOL_HOPS: usize = 3;

/// The history of one session: the system prompt, and every message since.
pub struct Conversation {
    messages: Vec<ChatMessage>,
}

impl View for Conversation {
    type V = Seq<MessageView>;

    closed spec fn view(&self) -> Seq<MessageView> {
        message_views(self.messages@)
    }
}

impl Default for Conversation {
    fn default() -> (r: Self)
        ensures
            r@ == Seq::<MessageView>::empty(),
    {
        let r = Conversation { messages: Vec::new() };
        assert(message_views(r.messages@) == Seq::<MessageView>::empty());
        r
    }
}

impl Conversation {
    /// A conversation in which nothing was said yet.
    pub fn new() -> (r: Self)
        ensures
            r@ == Seq::<MessageView>::empty(),
    {
        Self::default()
    }

    /// Forgets everything.
    pub fn reset(&mut self)
        ensures
            final(self)@ == Seq::<MessageView>::empty(),
    {
        self.messages.clear();
        assert(message_views(self.messages@) == Seq::<MessageView>::empty());
    }

    /// The messages, oldest first.
    pub fn messages(&self) -> (r: &[ChatMessage])
        ensures
            message_views(r@) == self@,
    {
        self.messages.as_slice()
    }

    /// Whether nothing was said yet.
    pub fn is_empty(&self) -> (r: bool)
        ensures
            r == (self@.len() == 0),
    {
        self.messages.is_empty()
    }

    fn push(&mut self, role: Role, content: String)
        ensures
            final(self)@ == old(self)@.push((MessageView { role, content: content@ })),
    {
        let ghost before = self.messages@;
        self.messages.push(ChatMessage { role, content });
        assert(self@ == message_views(before).push(MessageView { role, content: content@ }));
    }
}

/// A tool call the model made.
#[derive(Debug, PartialEq)]
pub struct ParsedToolCall {
    pub name: String,
    pub args: Json,
}

/// The first tool call that a text holds: the tool's name, and what stands
/// between the tags, without the white space around it.
pub open spec fn raw_call(text: Seq<char>) -> Option<(Seq<char>, Seq<char>)> {
    match cut_at(text, "<tool"@) {
        Some((_, tag)) => match cut_at(tag, "name=\""@) {
            Some((_, from_name)) => match cut_at(from_name, "\""@) {
                Some((name, from_quote)) => match cut_at(from_quote, ">"@) {
                    Some((_, from_body)) => match cut_at(from_body, "</tool>"@) {
                        Some((body, _)) => Some((name, trimmed(body))),
                        None => None,
                    },
                    None => None,
                },
                None => None,
            },
            None => None,
        },
        None => None,
    }
}

/// The arguments that the body of a call stands for, given what it is as
/// JSON: nothing for an empty body, and the body itself where it is not JSON.
pub open spec fn body_args(body: Seq<char>, parsed: Option<JsonView>) -> JsonView {
    if body.len() == 0 {
        JsonView::Null
    } else {
        match parsed {
            Some(v) => v,
            None => JsonView::Text(body),
        }
    }
}

/// The call that a text makes: the tool's name and its arguments.
pub open spec fn tool_call(text: Seq<char>) -> Option<(Seq<char>, JsonView)> {
    match raw_call(text) {
        Some((name, body)) => Some((name, body_args(body, json_parse(body)))),
        None => None,
    }
}

/// What a parsed call says.
pub open spec fn call_view(call: Option<ParsedToolCall>) -> Option<(Seq<char>, JsonView)> {
    match call {
        Some(c) => Some((c.name@, c.args@)),
        None => None,
    }
}

/// The first tool call that `text` holds: the tool's name, and what stands
/// between the tags.
pub fn find_call(text: &str) -> (r: Option<(String, String)>)
    ensures
        r is Some == raw_call(text@) is Some,
        r matches Some(call) ==> raw_call(text@) == Some((call.0@, call.1@)),
{
    let all = chars_of(text);
    let (_, tag) = match cut(all.as_slice(), "<tool") {
        Some(parts) => parts,
        None => {
            return None;
        },
    };
    let (_, from_name) = match cut(tag, "name=\"") {
        Some(parts) => parts,
        None => {
            return None;
        },
    };
    let (name, from_quote) = match cut(from_name, "\"") {
        Some(parts) => parts,
        None => {
            return None;
        },
    };
    let (_, from_body) = match cut(from_quote, ">") {
        Some(parts) => parts,
        None => {
            return None;
        },
    };
    match cut(from_body, "</tool>") {
        Some((body, _)) => Some((string_of(name), string_of(trim_chars(body)))),
        None => None,
    }
}

/// The arguments that `body` stands for, given what it is as JSON.
pub fn args_from(body: &str, parsed: Option<Json>) -> (r: Json)
    ensures
        r@ == body_args(
            body@,
            match parsed {
                Some(v) => Some(v@),
                None => None,
            },
        ),
{
    if body.is_empty() {
        Json::Null
    } else {
        match parsed {
            Some(v) => v,
            None => Json::text(body),
        }
    }
}

/// The tool call that `text` makes, anywhere in it: small models tend to
/// write a sentence around it.
pub fn parse_tool_call(text: &str) -> (r: Option<ParsedToolCall>)
    ensures
        call_view(r) == tool_call(text@),
{
    match find_call(text) {
        Some((name, body)) => {
            let parsed = Json::parse(&body);
            let args = args_from(&body, parsed);
            Some(ParsedToolCall { name, args })
        },
        None => None,
    }
}

/// A call is found wherever it stands in a text: its name is the quoted one,
/// its body what stands between the tags.
pub proof fn call_is_found(
    before: Seq<char>,
    name: Seq<char>,
    body: Seq<char>,
    after: Seq<char>,
)
    requires
        !contains(before, "<tool"@),
        !name.contains('"'),
        !contains(body, "</tool>"@),
    ensures
        raw_call(
            before + ("<tool name=\""@ + name + "\">"@ + body + "</tool>"@) + after,
        ) == Some((name, trimmed(body))),
{
    reveal_strlit("<tool");
    reveal_strlit("<tool name=\"");
    reveal_strlit("name=\"");
    reveal_strlit("\"");
    reveal_strlit("\">");
    reveal_strlit(">");
    reveal_strlit("</tool>");
    let text = before + ("<tool name=\""@ + name + "\">"@ + body + "</tool>"@) + after;
    let from_body = body + "</tool>"@ + after;
    let from_quote = seq![] + ">"@ + from_body;
    let from_name = name + "\""@ + from_quote;
    let tag = seq![' '] + "name=\""@ + from_name;
    assert(text == before + "<tool"@ + tag);
    cut_behind(before, "<tool"@, tag);
    assert(!contains(seq![' '], "name=\""@));
    cut_behind(seq![' '], "name=\""@, from_name);
    assert(!contains(name, "\""@)) by {
        if contains(name, "\""@) {
            let i = choose|i: int| occurs_at(name, "\""@, i);
            assert(name.subrange(i, i + 1)[0] == name[i]);
        }
    }
    cut_behind(name, "\""@, from_quote);
    assert(!contains(Seq::<char>::empty(), ">"@));
    cut_behind(Seq::empty(), ">"@, from_body);
    cut_behind(body, "</tool>"@, after);
}

/// A text without an opening tag makes no call.
pub proof fn no_tag_no_call(text: Seq<char>)
    requires
        !contains(text, "<tool"@),
    ensures
        tool_call(text) is None,
{
    index_of_none_iff_absent(text, "<tool"@);
}

/// The endings of the names of image files.
pub open spec fn has_image_ending(s: Seq<char>) -> bool {
    let lower = ascii_lower(s);
    ||| has_suffix(lower, ".png"@)
    ||| has_suffix(lower, ".jpg"@)
    ||| has_suffix(lower, ".jpeg"@)
    ||| has_suffix(lower, ".bmp"@)
    ||| has_suffix(lower, ".webp"@)
    ||| has_suffix(lower, ".gif"@)
}

/// Whether a file name is that of an image, by its ending.
pub fn looks_like_image(s: &str) -> (r: bool)
    ensures
        r == has_image_ending(s@),
{
    let lower = chars_of(&to_ascii_lower(s));
    ends_with(&lower, &chars_of(".png")) || ends_with(&lower, &chars_of(".jpg")) || ends_with(
        &lower,
        &chars_of(".jpeg"),
    ) || ends_with(&lower, &chars_of(".bmp")) || ends_with(&lower, &chars_of(".webp")) || ends_with(
        &lower,
        &chars_of(".gif"),
    )
}

/// The image that a tool's payload names: its `image_path`, or else its
/// `path`, where that is the name of an image.
pub open spec fn image_in(data: JsonView) -> Option<Seq<char>> {
    match data.text_at("image_path"@) {
        Some(p) => Some(p),
        None => match data.text_at("path"@) {
            Some(p) => if has_image_ending(p) {
                Some(p)
            } else {
                None
            },
            None => None,
        },
    }
}

/// The image that a tool's payload names.
pub fn extract_image_path(data: &Json) -> (r: Option<String>)
    ensures
        opt_text(r) == image_in(data@),
{
    match data.get_str("image_path") {
        Some(p) => Some(p.to_string()),
        None => match data.get_str("path") {
            Some(p) => if looks_like_image(p) {
                Some(p.to_string())
            } else {
                None
            },
            None => None,
        },
    }
}

/// What the prompt says before the list of tools.
pub const PROMPT_HEAD: &'static str = "You are tux, a helpful local assistant on a Linux machine. Answer naturally in plain prose. Be concise. When you suggest commands, prefer ones appropriate for the host described below.\n\nWhen the user refers to \"your\" / \"yourself\" / \"your config\" / \"your knowledge\" / \"your <field>\" (e.g. \"your update_cmd\", \"your install command\"), they mean YOUR OWN persisted configuration — the fields shown in the \"Package management & system commands\" block below, which are stored at $XDG_DATA_HOME/tux/system.json. To change one of those, call the `set_knowledge` tool. Do NOT refuse with \"I don't have access to my internal variables\" — you do, via that tool.\n\nWhen you need to use a tool, output ONLY the tool call on a single line with no other text, in this exact format:\n<tool name=\"NAME\">JSON_ARGS</tool>\n\nAvailable tools:\n";

/// What the prompt says between the list of tools and the host's facts.
pub const PROMPT_REST: &'static str = "\nAfter a tool runs you will receive its result and should then write the final natural-language answer for the user.\n\n";

/// The lines of the prompt that list the tools.
pub open spec fn tool_lines(listing: Seq<(Seq<char>, Seq<char>)>) -> Seq<char>
    decreases listing.len(),
{
    if listing.len() == 0 {
        Seq::empty()
    } else {
        tool_lines(listing.drop_last()) + ("- "@ + listing.last().0 + ": "@ + listing.last().1
            + "\n"@)
    }
}

/// What the model is told before anything else.
pub open spec fn prompt_text(
    listing: Seq<(Seq<char>, Seq<char>)>,
    host: Seq<char>,
) -> Seq<char> {
    PROMPT_HEAD@ + tool_lines(listing) + PROMPT_REST@ + host
}

/// What the model is handed back of a tool's report.
pub open spec fn report_text(report: ToolResultView) -> Seq<char> {
    json_render(
        JsonView::Object(
            map![
                "tool"@ => JsonView::Text(report.tool),
                "summary"@ => JsonView::Text(report.summary),
                "data"@ => report.data,
            ],
        ),
    )
}

/// One tool call of a turn: what the model wrote, and what the tool reported.
pub struct Hop {
    pub reply: Seq<char>,
    pub report: ToolResultView,
}

/// The messages that a turn starts from: the history, or the prompt where
/// there is none yet, and the user's input.
pub open spec fn opened(
    history: Seq<MessageView>,
    prompt: Seq<char>,
    input: Seq<char>,
) -> Seq<MessageView> {
    let start = if history.len() == 0 {
        seq![MessageView { role: Role::System, content: prompt }]
    } else {
        history
    };
    start.push(MessageView { role: Role::User, content: trimmed(input) })
}

/// The messages of a tool call: the model's, and the report.
pub open spec fn hop_messages(hop: Hop) -> Seq<MessageView> {
    seq![
        MessageView { role: Role::Assistant, content: trimmed(hop.reply) },
        MessageView { role: Role::Tool, content: report_text(hop.report) },
    ]
}

/// The messages after some tool calls of a turn.
pub open spec fn after_hops(start: Seq<MessageView>, hops: Seq<Hop>) -> Seq<MessageView>
    decreases hops.len(),
{
    if hops.len() == 0 {
        start
    } else {
        after_hops(start, hops.drop_last()) + hop_messages(hops.last())
    }
}

/// The images for the model to see after some tool calls: the one that the
/// last report names.
pub open spec fn images_after(hops: Seq<Hop>) -> Seq<Seq<char>> {
    if hops.len() == 0 {
        Seq::empty()
    } else {
        match image_in(hops.last().report.data) {
            Some(p) => seq![p],
            None => Seq::empty(),
        }
    }
}

/// What the model is asked after some tool calls.
pub open spec fn request_after(start: Seq<MessageView>, hops: Seq<Hop>) -> RequestView {
    RequestView {
        messages: after_hops(start, hops),
        max_tokens: 512,
        images: images_after(hops),
    }
}

/// How a turn ends, behind its tool calls.
pub enum TurnEnd {
    /// The model wrote an answer.
    Answered { reply: Seq<char> },
    /// The model called a tool once more than it may.
    Limit,
    /// The backend gave no answer.
    BackendFailed { message: Seq<char> },
    /// The model called a tool that does not exist.
    UnknownTool { reply: Seq<char> },
    /// The tool that the model called failed.
    ToolFailed { reply: Seq<char>, message: Seq<char> },
}

/// Whether a tool among `tools` may come to `outcome` for the call that the
/// model made with `reply`, with `confirmer` to ask.
pub open spec fn call_may_end(
    tools: Seq<Registered>,
    confirmer: &Arc<dyn Confirmer>,
    reply: Seq<char>,
    outcome: Result<ToolResultView, Seq<char>>,
) -> bool {
    tool_call(trimmed(reply)) matches Some((name, args)) && exists|i: int|
        0 <= i < tools.len() && #[trigger] tools[i].called() == name && tools[i].may_end(
            args,
            confirmer,
            outcome,
        )
}

/// Whether a turn may go this way with `tools`, each of which asks `confirmer`.
pub open spec fn turn_may_go(
    tools: ToolRegistry,
    confirmer: &Arc<dyn Confirmer>,
    hops: Seq<Hop>,
    end: TurnEnd,
) -> bool {
    &&& hops.len() <= 3
    &&& forall|i: int|
        0 <= i < hops.len() ==> call_may_end(
            tools.entries(),
            confirmer,
            (#[trigger] hops[i]).reply,
            Ok(hops[i].report),
        )
    &&& end is Limit <==> hops.len() == 3
    &&& match end {
        TurnEnd::Answered { reply } => tool_call(trimmed(reply)) is None,
        TurnEnd::UnknownTool { reply } => tool_call(trimmed(reply)) matches Some((name, _))
            && !tools.has(name),
        TurnEnd::ToolFailed { reply, message } => call_may_end(
            tools.entries(),
            confirmer,
            reply,
            Err(message),
        ),
        _ => true,
    }
}

/// The messages after a turn.
pub open spec fn after_turn(
    start: Seq<MessageView>,
    hops: Seq<Hop>,
    end: TurnEnd,
) -> Seq<MessageView> {
    match end {
        TurnEnd::Answered { reply } => after_hops(start, hops).push(
            MessageView { role: Role::Assistant, content: trimmed(reply) },
        ),
        _ => after_hops(start, hops),
    }
}

/// What the backend is asked in the tool calls of a turn, and answers.
pub open spec fn hop_exchanges(start: Seq<MessageView>, hops: Seq<Hop>) -> Seq<Exchange> {
    Seq::new(
        hops.len(),
        |i: int|
            Exchange { request: request_after(start, hops.take(i)), answer: Ok(hops[i].reply) },
    )
}

/// What the backend is asked in a turn, and answers.
pub open spec fn turn_exchanges(
    start: Seq<MessageView>,
    hops: Seq<Hop>,
    end: TurnEnd,
) -> Seq<Exchange> {
    let request = request_after(start, hops);
    match end {
        TurnEnd::Answered { reply } => hop_exchanges(start, hops).push(
            Exchange { request, answer: Ok(reply) },
        ),
        TurnEnd::UnknownTool { reply } => hop_exchanges(start, hops).push(
            Exchange { request, answer: Ok(reply) },
        ),
        TurnEnd::ToolFailed { reply, message: _ } => hop_exchanges(start, hops).push(
            Exchange { request, answer: Ok(reply) },
        ),
        TurnEnd::BackendFailed { message } => hop_exchanges(start, hops).push(
            Exchange { request, answer: Err(message) },
        ),
        TurnEnd::Limit => hop_exchanges(start, hops),
    }
}

/// What the user is told when the model does not stop calling tools.
pub open spec fn limit_note() -> Seq<char> {
    "(reached tool-call limit without a final answer)"@
}

/// The reports of some tool calls.
pub open spec fn hop_reports(hops: Seq<Hop>) -> Seq<ToolResultView> {
    hops.map_values(|h: Hop| h.report)
}

/// The views of a list of reports.
pub open spec fn report_views(reports: Seq<ToolResult>) -> Seq<ToolResultView> {
    reports.map_values(|r: ToolResult| r@)
}

/// What the agent came to for one input, with the tools that ran on the way.
#[derive(Debug)]
pub struct AgentReply {
    pub text: String,
    pub tool_calls: Vec<ToolResult>,
}

/// Why a turn gave no answer.
#[derive(Debug)]
pub enum AgentError {
    Backend(BackendError),
    UnknownTool { name: String },
    Tool(ToolError),
}

impl AgentError {
    /// What to tell the user.
    pub fn message(&self) -> (r: String)
        ensures
            r@ == match *self {
                AgentError::Backend(e) => e.message@,
                AgentError::UnknownTool { name } => "model called unknown tool: "@ + name@,
                AgentError::Tool(e) => e.message@,
            },
    {
        match self {
            AgentError::Backend(e) => e.message.clone(),
            AgentError::UnknownTool { name } => concat2("model called unknown tool: ", name),
            AgentError::Tool(e) => e.message.clone(),
        }
    }
}

/// Whether `r` is what a turn that went this way comes to.
pub open spec fn outcome_is(r: Result<AgentReply, AgentError>, hops: Seq<Hop>, end: TurnEnd) -> bool {
    match end {
        TurnEnd::Answered { reply } => {
            &&& r matches Ok(a)
            &&& a.text@ == trimmed(reply)
            &&& report_views(a.tool_calls@) == hop_reports(hops)
        },
        TurnEnd::Limit => {
            &&& r matches Ok(a)
            &&& a.text@ == limit_note()
            &&& report_views(a.tool_calls@) == hop_reports(hops)
        },
        TurnEnd::BackendFailed { message } => {
            &&& r matches Err(AgentError::Backend(e))
            &&& e.message@ == message
        },
        TurnEnd::UnknownTool { reply } => {
            &&& r matches Err(AgentError::UnknownTool { name })
            &&& tool_call(trimmed(reply)) matches Some((called, _))
            &&& name@ == called
        },
        TurnEnd::ToolFailed { reply: _, message } => {
            &&& r matches Err(AgentError::Tool(e))
            &&& e.message@ == message
        },
    }
}

/// A turn under way: the tools that ran, and the images that the model is to
/// see next.
pub struct Turn {
    tool_calls: Vec<ToolResult>,
    images: Vec<String>,
}

impl Turn {
    /// What the tools reported so far.
    pub closed spec fn reports(&self) -> Seq<ToolResultView> {
        report_views(self.tool_calls@)
    }

    /// The images for the next request.
    pub closed spec fn pending(&self) -> Seq<Seq<char>> {
        texts(self.images@)
    }

    /// Starts a turn with the user's input. The prompt goes first in a
    /// conversation in which nothing was said yet.
    pub fn begin(conv: &mut Conversation, prompt: &str, input: &str) -> (r: Self)
        ensures
            final(conv)@ == opened(old(conv)@, prompt@, input@),
            r.reports() == Seq::<ToolResultView>::empty(),
            r.pending() == Seq::<Seq<char>>::empty(),
    {
        if conv.is_empty() {
            conv.push(Role::System, prompt.to_string());
            assert(conv@ == seq![MessageView { role: Role::System, content: prompt@ }]);
        }
        conv.push(Role::User, trim(input));
        let r = Turn { tool_calls: Vec::new(), images: Vec::new() };
        assert(report_views(r.tool_calls@) == Seq::<ToolResultView>::empty());
        assert(texts(r.images@) == Seq::<Seq<char>>::empty());
        r
    }

    /// What to ask the model next. The images are attached this once.
    pub fn request(&mut self, conv: &Conversation) -> (r: CompletionRequest)
        ensures
            r@ == (RequestView {
                messages: conv@,
                max_tokens: 512,
                images: old(self).pending(),
            }),
            final(self).pending() == Seq::<Seq<char>>::empty(),
            final(self).reports() == old(self).reports(),
    {
        let mut images: Vec<String> = Vec::new();
        std::mem::swap(&mut images, &mut self.images);
        assert(texts(self.images@) == Seq::<Seq<char>>::empty());
        CompletionRequest::new(copy_messages(&conv.messages)).with_images(images)
    }

    /// Takes note of a tool call: what the model wrote, and the report.
    pub fn on_report(&mut self, conv: &mut Conversation, reply: &str, report: ToolResult)
        ensures
            final(conv)@ == old(conv)@ + hop_messages((Hop { reply: reply@, report: report@ })),
            final(self).reports() == old(self).reports().push(report@),
            final(self).pending() == match image_in(report@.data) {
                Some(p) => old(self).pending().push(p),
                None => old(self).pending(),
            },
    {
        let ghost reports = self.tool_calls@;
        let ghost images = self.images@;
        match extract_image_path(&report.data) {
            Some(p) => {
                self.images.push(p);
                assert(texts(self.images@) == texts(images).push(p@));
            },
            None => {},
        }
        conv.push(Role::Assistant, trim(reply));
        let b = ObjectBuilder::new().with("tool", Json::text(&report.tool));
        let b = b.with("summary", Json::text(&report.summary));
        let content = b.with("data", report.data.duplicate()).build();
        conv.push(Role::Tool, content.render());
        assert(conv@ == old(conv)@ + hop_messages(Hop { reply: reply@, report: report@ }));
        self.tool_calls.push(report);
        assert(report_views(self.tool_calls@) == report_views(reports).push(report@));
    }

    /// Ends the turn with the model's answer.
    pub fn finish(self, conv: &mut Conversation, reply: &str) -> (r: AgentReply)
        ensures
            final(conv)@ == old(conv)@.push(
                (MessageView { role: Role::Assistant, content: trimmed(reply@) }),
            ),
            r.text@ == trimmed(reply@),
            report_views(r.tool_calls@) == self.reports(),
    {
        let text = trim(reply);
        conv.push(Role::Assistant, text.clone());
        AgentReply { text, tool_calls: self.tool_calls }
    }

    /// Ends a turn in which the model did not stop calling tools. It made no
    /// answer, so none is added to the conversation.
    pub fn exhausted(self) -> (r: AgentReply)
        ensures
            r.text@ == limit_note(),
            report_views(r.tool_calls@) == self.reports(),
    {
        AgentReply {
            text: "(reached tool-call limit without a final answer)".to_string(),
            tool_calls: self.tool_calls,
        }
    }
}

/// Answers users: a model, the tools it may call, and the host's facts.
pub struct Agent<B: Backend> {
    backend: B,
    tools: ToolRegistry,
    context: SystemContext,
}

impl<B: Backend> Agent<B> {
    /// The model that answers.
    pub closed spec fn model(&self) -> B {
        self.backend
    }

    /// The tools it may call.
    pub closed spec fn registry(&self) -> ToolRegistry {
        self.tools
    }

    /// What it knows of the host.
    pub closed spec fn host(&self) -> SystemContext {
        self.context
    }

    /// The tools stand in order.
    pub open spec fn wf(&self) -> bool {
        self.registry().wf()
    }

    /// Whether `prompt` may be what the model is told before anything else: it
    /// lists the tools as they name and describe themselves.
    pub open spec fn may_prompt(&self, prompt: Seq<char>) -> bool {
        exists|listing: Seq<(Seq<char>, Seq<char>)>| #[trigger]
            self.registry().may_list(listing) && prompt == prompt_text(
                listing,
                self.host()@.block(),
            )
    }

    /// An agent of these parts.
    pub fn new(backend: B, tools: ToolRegistry, context: SystemContext) -> (r: Self)
        ensures
            r.model() == backend,
            r.registry() == tools,
            r.host() == context,
    {
        Agent { backend, tools, context }
    }

    /// The tools it may call.
    pub fn tools(&self) -> (r: &ToolRegistry)
        ensures
            *r == self.registry(),
    {
        &self.tools
    }

    /// What it knows of the host.
    pub fn context(&self) -> (r: &SystemContext)
        ensures
            *r == self.host(),
    {
        &self.context
    }

    /// The model that answers.
    pub fn backend(&self) -> (r: &B)
        ensures
            *r == self.model(),
    {
        &self.backend
    }

    /// The label of the model.
    pub fn backend_name(&self) -> (r: &'static str)
        ensures
            call_ensures(B::name, (&self.model(),), r),
    {
        self.backend.name()
    }

    /// What the model is told before anything else.
    pub fn system_prompt(&self) -> (r: String)
        ensures
            self.may_prompt(r@),
    {
        let listing = self.tools.list();
        let ghost views = listing_views(listing@);
        let mut out = PROMPT_HEAD.to_string();
        let mut i: usize = 0;
        assert(out@ + tool_lines(views.take(0)) == out@);
        while i < listing.len()
            invariant
                i <= listing@.len(),
                views == listing_views(listing@),
                out@ == PROMPT_HEAD@ + tool_lines(views.take(i as int)),
            decreases listing@.len() - i,
        {
            let ghost before = out@;
            let (name, description) = listing[i];
            out.append("- ");
            out.append(name);
            out.append(": ");
            out.append(description);
            out.append("\n");
            i += 1;
            proof {
                let upto = views.take(i as int);
                assert(upto.drop_last() == views.take(i - 1));
                assert(upto.last() == (name@, description@));
                assert(out@ == before + ("- "@ + name@ + ": "@ + description@ + "\n"@));
                assert(out@ == PROMPT_HEAD@ + tool_lines(upto));
            }
        }
        assert(views.take(i as int) == views);
        out.append(PROMPT_REST);
        let block = self.context.as_prompt_block();
        out.append(&block);
        assert(self.registry().may_list(views));
        out
    }
}

/// Whether a turn of `agent` may have led to `after`: with the conversation,
/// the result, what the backend was asked, and tools that ask `confirmer`. The
/// prompt is said where nothing was said before.
pub open spec fn turn_leads<B: Backend>(
    agent: Agent<B>,
    prompt: Seq<char>,
    history: Seq<MessageView>,
    input: Seq<char>,
    confirmer: &Arc<dyn Confirmer>,
    hops: Seq<Hop>,
    end: TurnEnd,
    messages: Seq<MessageView>,
    r: Result<AgentReply, AgentError>,
    after: Agent<B>,
) -> bool {
    let start = opened(history, prompt, input);
    &&& history.len() == 0 ==> agent.may_prompt(prompt)
    &&& turn_may_go(agent.registry(), confirmer, hops, end)
    &&& messages == after_turn(start, hops, end)
    &&& outcome_is(r, hops, end)
    &&& exchanges_lead(agent.model(), turn_exchanges(start, hops, end), after.model())
}

/// What a backend knows of the past, after it was asked more.
pub open spec fn known_past<B: Backend>(model: B, more: Seq<Exchange>) -> Seq<Exchange> {
    if model.remembers() {
        model.exchanges() + more
    } else {
        model.exchanges()
    }
}

/// Whether the exchanges `more` may have led from the backend `model` to
/// `after`: it may give each answer, knows of them if it keeps account, and
/// may answer further requests as before.
pub open spec fn exchanges_lead<B: Backend>(model: B, more: Seq<Exchange>, after: B) -> bool {
    &&& forall|i: int|
        0 <= i < more.len() ==> model.may_answer(
            known_past(model, more.take(i)),
            (#[trigger] more[i]).request,
            more[i].answer,
        )
    &&& after.remembers() == model.remembers()
    &&& after.exchanges() == known_past(model, more)
    &&& forall|past: Seq<Exchange>, request: RequestView, answer: Result<Seq<char>, Seq<char>>|
        #[trigger]
        after.may_answer(past, request, answer) == model.may_answer(past, request, answer)
}

proof fn one_more_exchange<B: Backend>(
    model: B,
    more: Seq<Exchange>,
    between: B,
    request: RequestView,
    answer: Result<Seq<char>, Seq<char>>,
    after: B,
)
    requires
        exchanges_lead(model, more, between),
        between.may_answer(between.exchanges(), request, answer),
        after.remembers() == between.remembers(),
        after.exchanges() == (if between.remembers() {
            between.exchanges().push(Exchange { request, answer })
        } else {
            between.exchanges()
        }),
        forall|p: Seq<Exchange>, q: RequestView, a: Result<Seq<char>, Seq<char>>| #[trigger]
            after.may_answer(p, q, a) == between.may_answer(p, q, a),
    ensures
        exchanges_lead(model, more.push((Exchange { request, answer })), after),
{
    let all = more.push(Exchange { request, answer });
    assert forall|i: int| 0 <= i < all.len() implies model.may_answer(
        known_past(model, all.take(i)),
        (#[trigger] all[i]).request,
        all[i].answer,
    ) by {
        if i < more.len() {
            assert(all.take(i) == more.take(i));
            assert(more[i] == all[i]);
        } else {
            assert(all.take(i) == more);
        }
    }
    assert(known_past(model, all) == after.exchanges());
}

proof fn after_one_more(start: Seq<MessageView>, hops: Seq<Hop>, hop: Hop)
    ensures
        after_hops(start, hops.push(hop)) == after_hops(start, hops) + hop_messages(hop),
        hop_exchanges(start, hops.push(hop)) == hop_exchanges(start, hops).push(
            (Exchange { request: request_after(start, hops), answer: Ok(hop.reply) }),
        ),
        hop_reports(hops.push(hop)) == hop_reports(hops).push(hop.report),
{
    let more = hops.push(hop);
    assert(more.drop_last() == hops);
    let a = hop_exchanges(start, more);
    let b = hop_exchanges(start, hops).push(
        Exchange { request: request_after(start, hops), answer: Ok(hop.reply) },
    );
    assert forall|i: int| 0 <= i < a.len() implies a[i] == b[i] by {
        if i < hops.len() {
            assert(more.take(i) == hops.take(i));
        } else {
            assert(more.take(i) == hops);
        }
    }
    assert(a == b);
    assert(hop_reports(more) == hop_reports(hops).push(hop.report));
}

impl<B: Backend> Agent<B> {
    /// Answers one input in a conversation of its own.
    pub fn handle(&mut self, input: &str, confirmer: &Arc<dyn Confirmer>) -> (r: Result<
        AgentReply,
        AgentError,
    >)
        requires
            old(self).wf(),
        ensures
            final(self).registry() == old(self).registry(),
            final(self).host() == old(self).host(),
            exists|prompt: Seq<char>, hops: Seq<Hop>, end: TurnEnd, messages: Seq<MessageView>|
                #[trigger]
                turn_leads(
                    *old(self),
                    prompt,
                    Seq::empty(),
                    input@,
                    confirmer,
                    hops,
                    end,
                    messages,
                    r,
                    *final(self),
                ),
    {
        let mut conv = Conversation::new();
        self.turn(&mut conv, input, confirmer)
    }

    /// Answers one input in the conversation `conv`: adds the input, asks the
    /// model, runs the tools that it calls, up to three, each with `confirmer`
    /// to ask, and adds all that was said to the conversation. Where the model calls a tool that does
    /// not exist, or the backend or a tool fails, the turn ends there, and
    /// the conversation keeps what came before.
    pub fn turn(&mut self, conv: &mut Conversation, input: &str, confirmer: &Arc<dyn Confirmer>) -> (r:
        Result<AgentReply, AgentError>)
        requires
            old(self).wf(),
        ensures
            final(self).registry() == old(self).registry(),
            final(self).host() == old(self).host(),
            exists|prompt: Seq<char>, hops: Seq<Hop>, end: TurnEnd| #[trigger]
                turn_leads(
                    *old(self),
                    prompt,
                    old(conv)@,
                    input@,
                    confirmer,
                    hops,
                    end,
                    final(conv)@,
                    r,
                    *final(self),
                ),
    {
        let prompt = if conv.is_empty() {
            self.system_prompt()
        } else {
            String::new()
        };
        let ghost start = opened(conv@, prompt@, input@);
        let ghost first = self.backend;
        let ghost entries = self.tools.entries();
        let mut turn = Turn::begin(conv, &prompt, input);
        let ghost mut hops: Seq<Hop> = Seq::empty();
        let mut hop: usize = 0;
        assert(hop_reports(hops) == Seq::<ToolResultView>::empty());
        assert(hop_exchanges(start, hops) == Seq::<Exchange>::empty());
        assert(first.exchanges() + Seq::<Exchange>::empty() == first.exchanges());
        assert(exchanges_lead(first, Seq::empty(), self.backend));
        while hop < MAX_TOOL_HOPS
            invariant
                hop <= MAX_TOOL_HOPS,
                hops.len() == hop,
                self.tools == old(self).tools,
                self.context == old(self).context,
                self.tools.wf(),
                first == old(self).backend,
                entries == self.tools.entries(),
                old(conv)@.len() == 0 ==> old(self).may_prompt(prompt@),
                start == opened(old(conv)@, prompt@, input@),
                conv@ == after_hops(start, hops),
                turn.reports() == hop_reports(hops),
                turn.pending() == images_after(hops),
                exchanges_lead(first, hop_exchanges(start, hops), self.backend),
                forall|i: int|
                    0 <= i < hops.len() ==> call_may_end(
                        entries,
                        confirmer,
                        (#[trigger] hops[i]).reply,
                        Ok(hops[i].report),
                    ),
            decreases MAX_TOOL_HOPS - hop,
        {
            let request = turn.request(conv);
            assert(request@ == request_after(start, hops));
            let ghost between = self.backend;
            let completed = self.backend.complete(request);
            proof {
                one_more_exchange(
                    first,
                    hop_exchanges(start, hops),
                    between,
                    request@,
                    answer_of(completed),
                    self.backend,
                );
            }
            let response = match completed {
                Ok(response) => response,
                Err(e) => {
                    let r: Result<AgentReply, AgentError> = Err(AgentError::Backend(e));
                    proof {
                        let end = TurnEnd::BackendFailed { message: e.message@ };
                        assert(turn_leads(
                            *old(self),
                            prompt@,
                            old(conv)@,
                            input@,
                            confirmer,
                            hops,
                            end,
                            conv@,
                            r,
                            *self,
                        ));
                    }
                    return r;
                },
            };
            let reply = response.text;
            let text = trim(&reply);
            match parse_tool_call(&text) {
                Some(call) => {
                    let tool = match self.tools.get(&call.name) {
                        Some(tool) => tool,
                        None => {
                            let r: Result<AgentReply, AgentError> = Err(
                                AgentError::UnknownTool { name: call.name },
                            );
                            proof {
                                let end = TurnEnd::UnknownTool { reply: reply@ };
                                assert(turn_leads(
                                    *old(self),
                                    prompt@,
                                    old(conv)@,
                                    input@,
                                    confirmer,
                                    hops,
                                    end,
                                    conv@,
                                    r,
                                    *self,
                                ));
                            }
                            return r;
                        },
                    };
                    let ghost at = choose|i: int| 0 <= i < entries.len() && entries[i] == *tool;
                    let ghost args = call.args@;
                    let outcome = tool.invoke(call.args, confirmer);
                    proof {
                        assert(entries[at].called() == call.name@);
                        assert(tool.may_end(args, confirmer, outcome_of(outcome)));
                        assert(call_may_end(entries, confirmer, reply@, outcome_of(outcome)));
                    }
                    match outcome {
                        Ok(report) => {
                            let ghost now = Hop { reply: reply@, report: report@ };
                            turn.on_report(conv, &reply, report);
                            proof {
                                after_one_more(start, hops, now);
                                hops = hops.push(now);
                                assert(images_after(hops) == match image_in(now.report.data) {
                                    Some(p) => Seq::<Seq<char>>::empty().push(p),
                                    None => Seq::empty(),
                                });
                            }
                        },
                        Err(e) => {
                            let r: Result<AgentReply, AgentError> = Err(AgentError::Tool(e));
                            proof {
                                let end = TurnEnd::ToolFailed {
                                    reply: reply@,
                                    message: e.message@,
                                };
                                assert(turn_leads(
                                    *old(self),
                                    prompt@,
                                    old(conv)@,
                                    input@,
                                    confirmer,
                                    hops,
                                    end,
                                    conv@,
                                    r,
                                    *self,
                                ));
                            }
                            return r;
                        },
                    }
                },
                None => {
                    let answer = turn.finish(conv, &reply);
                    let r: Result<AgentReply, AgentError> = Ok(answer);
                    proof {
                        let end = TurnEnd::Answered { reply: reply@ };
                        assert(turn_leads(
                            *old(self),
                            prompt@,
                            old(conv)@,
                            input@,
                            confirmer,
                            hops,
                            end,
                            conv@,
                            r,
                            *self,
                        ));
                    }
                    return r;
                },
            }
            hop += 1;
        }
        let answer = turn.exhausted();
        let r: Result<AgentReply, AgentError> = Ok(answer);
        assert(turn_leads(
            *old(self),
            prompt@,
            old(conv)@,
            input@,
            confirmer,
            hops,
            TurnEnd::Limit,
            conv@,
            r,
            *self,
        ));
        r
    }
}

proof fn tool_lines_hold(listing: Seq<(Seq<char>, Seq<char>)>, i: int) -> (at: int)
    requires
        0 <= i < listing.len(),
    ensures
        occurs_at(
            tool_lines(listing),
            "- "@ + listing[i].0 + ": "@ + listing[i].1 + "\n"@,
            at,
        ),
    decreases listing.len(),
{
    let line = "- "@ + listing[i].0 + ": "@ + listing[i].1 + "\n"@;
    let before = tool_lines(listing.drop_last());
    let all = tool_lines(listing);
    if i == listing.len() - 1 {
        let at = before.len() as int;
        assert(all.subrange(at, at + line.len()) == line);
        at
    } else {
        let at = tool_lines_hold(listing.drop_last(), i);
        assert(listing.drop_last()[i] == listing[i]);
        assert(all.subrange(at, at + line.len()) == before.subrange(at, at + line.len()));
        at
    }
}

/// The prompt lists every tool with its description, and ends with the
/// host's facts.
pub proof fn prompt_has_tools_and_host(
    listing: Seq<(Seq<char>, Seq<char>)>,
    host: Seq<char>,
)
    ensures
        forall|i: int|
            0 <= i < listing.len() ==> contains(
                prompt_text(listing, host),
                "- "@ + (#[trigger] listing[i]).0 + ": "@ + listing[i].1 + "\n"@,
            ),
        has_suffix(prompt_text(listing, host), host),
{
    let all = prompt_text(listing, host);
    assert forall|i: int| 0 <= i < listing.len() implies contains(
        all,
        "- "@ + (#[trigger] listing[i]).0 + ": "@ + listing[i].1 + "\n"@,
    ) by {
        let line = "- "@ + listing[i].0 + ": "@ + listing[i].1 + "\n"@;
        let lines = tool_lines(listing);
        let at = tool_lines_hold(listing, i);
        let there = PROMPT_HEAD@.len() + at;
        assert(all.subrange(there, there + line.len()) == lines.subrange(at, at + line.len()));
        assert(occurs_at(all, line, there));
    }
    assert(all.skip(all.len() - host.len()) == host);
}

/// An agent with the built-in tools tells the model of each of them, by its name
/// and description.
pub proof fn prompt_of_built_in_tools<B: Backend>(agent: Agent<B>, prompt: Seq<char>)
    requires
        forall|listing: Seq<(Seq<char>, Seq<char>)>|
            agent.registry().may_list(listing) <==> listing == default_listing(),
        agent.may_prompt(prompt),
    ensures
        prompt == prompt_text(default_listing(), agent.host()@.block()),
{
}

/// After a tool call, the model is next asked with the tool's report as the
/// last message, behind the message that made the call.
pub proof fn report_reaches_model(start: Seq<MessageView>, hops: Seq<Hop>)
    requires
        hops.len() > 0,
    ensures
        ({
            let asked = request_after(start, hops).messages;
            &&& asked.len() >= 2
            &&& asked.last() == (MessageView {
                role: Role::Tool,
                content: report_text(hops.last().report),
            })
            &&& asked[asked.len() - 2] == (MessageView {
                role: Role::Assistant,
                content: trimmed(hops.last().reply),
            })
        }),
{
}

/// The tool calls of a turn add to what it starts from, and none of them is a
/// prompt.
pub proof fn hops_extend(start: Seq<MessageView>, hops: Seq<Hop>)
    ensures
        after_hops(start, hops).len() == start.len() + 2 * hops.len(),
        after_hops(start, hops).take(start.len() as int) == start,
        forall|i: int|
            start.len() <= i < after_hops(start, hops).len() ==> (#[trigger] after_hops(
                start,
                hops,
            )[i]).role != Role::System,
    decreases hops.len(),
{
    let all = after_hops(start, hops);
    if hops.len() == 0 {
        assert(all.take(start.len() as int) == start);
    } else {
        let before = after_hops(start, hops.drop_last());
        hops_extend(start, hops.drop_last());
        assert(all.take(start.len() as int) == before.take(start.len() as int));
        assert forall|i: int| start.len() <= i < all.len() implies (#[trigger] all[i]).role
            != Role::System by {
            if i < before.len() {
                assert(all[i] == before[i]);
            }
        }
    }
}

/// A turn keeps all that was said before it, and adds to it.
pub proof fn turn_keeps_history(
    history: Seq<MessageView>,
    prompt: Seq<char>,
    input: Seq<char>,
    hops: Seq<Hop>,
    end: TurnEnd,
)
    ensures
        ({
            let after = after_turn(opened(history, prompt, input), hops, end);
            &&& after.len() > history.len()
            &&& after.take(history.len() as int) == history
        }),
{
    let start = opened(history, prompt, input);
    let after = after_turn(start, hops, end);
    hops_extend(start, hops);
    let upto = after_hops(start, hops);
    assert forall|i: int| 0 <= i < history.len() implies after[i] == history[i] by {
        assert(upto.take(start.len() as int)[i] == start[i]);
    }
    assert(after.take(history.len() as int) == history);
}

/// Whether a conversation begins with the prompt and has no other.
pub open spec fn one_prompt(messages: Seq<MessageView>) -> bool {
    forall|i: int|
        0 <= i < messages.len() ==> ((#[trigger] messages[i]).role == Role::System <==> i == 0)
}

/// The prompt is said once, at the start: a turn keeps it so, and a
/// conversation in which nothing was said is so.
pub proof fn prompt_is_said_once(
    history: Seq<MessageView>,
    prompt: Seq<char>,
    input: Seq<char>,
    hops: Seq<Hop>,
    end: TurnEnd,
)
    requires
        one_prompt(history),
    ensures
        one_prompt(Seq::empty()),
        one_prompt(after_turn(opened(history, prompt, input), hops, end)),
{
    let start = opened(history, prompt, input);
    let after = after_turn(start, hops, end);
    let upto = after_hops(start, hops);
    hops_extend(start, hops);
    assert forall|i: int| 0 <= i < after.len() implies ((#[trigger] after[i]).role == Role::System
        <==> i == 0) by {
        if i < start.len() {
            assert(upto.take(start.len() as int)[i] == start[i]);
            assert(after[i] == start[i]);
            if history.len() > 0 && i < history.len() {
                assert(start[i] == history[i]);
            }
        } else if i < upto.len() {
            assert(after[i] == upto[i]);
        }
    }
}

/// A reply that calls no tool is the answer: where the model can only give
/// that reply, the turn ends with it, and no tool runs.
pub proof fn plain_reply_is_the_answer<B: Backend>(
    agent: Agent<B>,
    prompt: Seq<char>,
    history: Seq<MessageView>,
    input: Seq<char>,
    confirmer: &Arc<dyn Confirmer>,
    reply: Seq<char>,
    hops: Seq<Hop>,
    end: TurnEnd,
    messages: Seq<MessageView>,
    r: Result<AgentReply, AgentError>,
    after: Agent<B>,
)
    requires
        turn_leads(agent, prompt, history, input, confirmer, hops, end, messages, r, after),
        forall|answer: Result<Seq<char>, Seq<char>>| #[trigger]
            agent.model().may_answer(
                agent.model().exchanges(),
                request_after(opened(history, prompt, input), Seq::empty()),
                answer,
            ) ==> answer == Ok::<Seq<char>, Seq<char>>(reply),
        tool_call(trimmed(reply)) is None,
    ensures
        r matches Ok(a) && a.text@ == trimmed(reply) && a.tool_calls@.len() == 0,
        messages == opened(history, prompt, input).push(
            (MessageView { role: Role::Assistant, content: trimmed(reply) }),
        ),
{
    let start = opened(history, prompt, input);
    let all = turn_exchanges(start, hops, end);
    assert(all.len() > 0);
    assert(hops.take(0) == Seq::<Hop>::empty());
    assert(known_past(agent.model(), all.take(0)) == agent.model().exchanges());
    if hops.len() > 0 {
        assert(all[0] == hop_exchanges(start, hops)[0]);
        assert(call_may_end(
            agent.registry().entries(),
            confirmer,
            hops[0].reply,
            Ok(hops[0].report),
        ));
    } else {
        assert(hops == Seq::<Hop>::empty());
    }
    assert(all[0].answer == Ok::<Seq<char>, Seq<char>>(reply));
    if let Ok(a) = r {
        assert(report_views(a.tool_calls@).len() == hop_reports(hops).len());
    }
}

/// With the stand-in backend, a question without a tool tag is repeated to
/// the user.
pub proof fn mock_repeats_the_question(
    agent: Agent<MockBackend>,
    prompt: Seq<char>,
    history: Seq<MessageView>,
    input: Seq<char>,
    confirmer: &Arc<dyn Confirmer>,
    hops: Seq<Hop>,
    end: TurnEnd,
    messages: Seq<MessageView>,
    r: Result<AgentReply, AgentError>,
    after: Agent<MockBackend>,
)
    requires
        turn_leads(agent, prompt, history, input, confirmer, hops, end, messages, r, after),
        !contains(input, "<tool"@),
    ensures
        r matches Ok(a) && a.text@ == trimmed("[mock] you asked: "@ + trimmed(input))
            && a.tool_calls@.len() == 0,
{
    reveal_strlit("<tool");
    reveal_strlit("[mock] you asked: ");
    let start = opened(history, prompt, input);
    let mark = "[mock] you asked: "@;
    let asked = trimmed(input);
    let reply = mark + asked;
    trimmed_once(input);
    assert(after_hops(start, Seq::empty()) == start);
    assert(last_user_content(start) == asked);
    assert(mock_answer(start) == reply);
    assert(!contains(trimmed(reply), "<tool"@)) by {
        if contains(trimmed(reply), "<tool"@) {
            trimmed_within(reply);
            let (a, b) = choose|a: int, b: int|
                0 <= a <= b <= reply.len() && trimmed(reply) == #[trigger] reply.subrange(a, b);
            part_holds_no_more(reply, a, b, "<tool"@);
            let i = choose|i: int| occurs_at(reply, "<tool"@, i);
            assert(reply.subrange(i, i + 5)[0] == reply[i]);
            assert(i >= mark.len());
            assert(asked.subrange(i - mark.len(), i - mark.len() + 5) == reply.subrange(i, i + 5));
            assert(occurs_at(asked, "<tool"@, i - mark.len()));
            trimmed_within(input);
            let (c, d) = choose|c: int, d: int|
                0 <= c <= d <= input.len() && trimmed(input) == #[trigger] input.subrange(c, d);
            part_holds_no_more(input, c, d, "<tool"@);
        }
    }
    no_tag_no_call(trimmed(reply));
    plain_reply_is_the_answer(
        agent,
        prompt,
        history,
        input,
        confirmer,
        reply,
        hops,
        end,
        messages,
        r,
        after,
    );
}

/// A turn runs at most three tools, and where it runs three it ends with the
/// note that says so.
pub proof fn at_most_three_tools(
    tools: ToolRegistry,
    confirmer: &Arc<dyn Confirmer>,
    hops: Seq<Hop>,
    end: TurnEnd,
    r: Result<AgentReply, AgentError>,
)
    requires
        turn_may_go(tools, confirmer, hops, end),
        outcome_is(r, hops, end),
    ensures
        r matches Ok(a) ==> a.tool_calls@.len() <= 3 && (a.tool_calls@.len() == 3 ==> a.text@
            == limit_note()),
{
    if let Ok(a) = r {
        assert(report_views(a.tool_calls@).len() == hop_reports(hops).len());
    }
}

/// A call that stands anywhere in a text is made with the tool that it names
/// and with what stands between its tags: as the JSON that it is, as text
/// where it is none, and without arguments where there is nothing.
pub proof fn call_is_made_as_written(
    before: Seq<char>,
    name: Seq<char>,
    body: Seq<char>,
    after: Seq<char>,
)
    requires
        !contains(before, "<tool"@),
        !name.contains('"'),
        !contains(body, "</tool>"@),
    ensures
        ({
            let text = before + ("<tool name=\""@ + name + "\">"@ + body + "</tool>"@) + after;
            let inner = trimmed(body);
            &&& tool_call(text) matches Some((called, args))
            &&& called == name
            &&& inner.len() == 0 ==> args == JsonView::Null
            &&& inner.len() > 0 ==> (json_parse(inner) matches Some(v) ==> args == v)
            &&& inner.len() > 0 && json_parse(inner) is None ==> args == JsonView::Text(inner)
        }),
{
    call_is_found(before, name, body, after);
}

/// A call needs its tags: where either is missing, none is made.
pub proof fn no_call_without_tags(text: Seq<char>)
    ensures
        !contains(text, "<tool"@) ==> tool_call(text) is None,
        !contains(text, "</tool>"@) ==> tool_call(text) is None,
        !contains(text, "name=\""@) ==> tool_call(text) is None,
{
    index_of_none_iff_absent(text, "<tool"@);
    if let Some((_, tag)) = cut_at(text, "<tool"@) {
        tail_is_part(text, "<tool"@, tag, "name=\""@);
        tail_is_part(text, "<tool"@, tag, "</tool>"@);
        index_of_none_iff_absent(tag, "name=\""@);
        if let Some((_, from_name)) = cut_at(tag, "name=\""@) {
            tail_is_part(tag, "name=\""@, from_name, "</tool>"@);
            if let Some((_, from_quote)) = cut_at(from_name, "\""@) {
                tail_is_part(from_name, "\""@, from_quote, "</tool>"@);
                if let Some((_, from_body)) = cut_at(from_quote, ">"@) {
                    tail_is_part(from_quote, ">"@, from_body, "</tool>"@);
                    index_of_none_iff_absent(from_body, "</tool>"@);
                }
            }
        }
    }
}

proof fn tail_is_part(s: Seq<char>, pat: Seq<char>, tail: Seq<char>, tag: Seq<char>)
    requires
        cut_at(s, pat) matches Some((_, t)) && t == tail,
    ensures
        contains(tail, tag) ==> contains(s, tag),
{
    cut_is_at_the_first(s, pat);
    let before = (cut_at(s, pat)->0).0;
    let n = (before + pat).len() as int;
    assert(s.subrange(n, s.len() as int) == tail);
    if contains(tail, tag) {
        part_holds_no_more(s, n, s.len() as int, tag);
    }
}

/// An image is told by the ending of its name, in any case.
pub proof fn images_are_told_by_their_ending(s: Seq<char>, stem: Seq<char>)
    ensures
        has_image_ending(stem + ".png"@),
        has_image_ending(stem + ".jpg"@),
        has_image_ending(stem + ".jpeg"@),
        has_image_ending(stem + ".bmp"@),
        has_image_ending(stem + ".webp"@),
        has_image_ending(stem + ".gif"@),
        has_image_ending(s) == has_image_ending(ascii_lower(s)),
        has_image_ending(s) ==> exists|k: int|
            {
                &&& 0 <= k <= s.len()
                &&& {
                    let ending = #[trigger] ascii_lower(s).skip(k);
                    ||| ending == ".png"@
                    ||| ending == ".jpg"@
                    ||| ending == ".jpeg"@
                    ||| ending == ".bmp"@
                    ||| ending == ".webp"@
                    ||| ending == ".gif"@
                }
            },
{
    reveal_strlit(".png");
    reveal_strlit(".jpg");
    reveal_strlit(".jpeg");
    reveal_strlit(".bmp");
    reveal_strlit(".webp");
    reveal_strlit(".gif");
    small_ending_stays(stem, ".png"@);
    small_ending_stays(stem, ".jpg"@);
    small_ending_stays(stem, ".jpeg"@);
    small_ending_stays(stem, ".bmp"@);
    small_ending_stays(stem, ".webp"@);
    small_ending_stays(stem, ".gif"@);
    let low = ascii_lower(s);
    assert forall|i: int| 0 <= i < low.len() implies ascii_lower(low)[i] == low[i] by {
        let c = s[i];
        if 'A' <= c <= 'Z' {
            assert(low[i] == (c as u32 + 32) as char);
        }
    }
    assert(ascii_lower(low) == low);
    if has_image_ending(s) {
        let n = low.len() as int;
        assert(has_suffix(low, ".png"@) ==> low.skip(n - 4) == ".png"@);
        assert(has_suffix(low, ".jpg"@) ==> low.skip(n - 4) == ".jpg"@);
        assert(has_suffix(low, ".jpeg"@) ==> low.skip(n - 5) == ".jpeg"@);
        assert(has_suffix(low, ".bmp"@) ==> low.skip(n - 4) == ".bmp"@);
        assert(has_suffix(low, ".webp"@) ==> low.skip(n - 5) == ".webp"@);
        assert(has_suffix(low, ".gif"@) ==> low.skip(n - 4) == ".gif"@);
    }
}

proof fn small_ending_stays(stem: Seq<char>, ending: Seq<char>)
    requires
        forall|i: int| 0 <= i < ending.len() ==> ascii_lower_char(#[trigger] ending[i]) == ending[i],
    ensures
        has_suffix(ascii_lower(stem + ending), ending),
{
    let low = ascii_lower(stem + ending);
    let n = stem.len() as int;
    assert forall|i: int| 0 <= i < ending.len() implies low.skip(n)[i] == ending[i] by {
        assert((stem + ending)[n + i] == ending[i]);
    }
    assert(low.skip(low.len() - ending.len()) == ending);
}

/// The image for the model is the one that a report names as such, or else its
/// path where that is an image, and none otherwise.
pub proof fn named_image_is_shown(data: JsonView)
    ensures
        data.text_at("image_path"@) is Some ==> image_in(data) == data.text_at("image_path"@),
        data.text_at("image_path"@) is None ==> (data.text_at("path"@) matches Some(p) ==> (
        has_image_ending(p) ==> image_in(data) == Some(p)) && (!has_image_ending(p) ==> image_in(
            data,
        ) is None)),
        data.text_at("image_path"@) is None && data.text_at("path"@) is None ==> image_in(
            data,
        ) is None,
{
}

/// An image goes with the request right behind the report that names it, and
/// with no other; every request allows an answer of the same length.
pub proof fn image_goes_with_the_next_request(
    start: Seq<MessageView>,
    hops: Seq<Hop>,
    hop: Hop,
)
    ensures
        request_after(start, Seq::empty()).images.len() == 0,
        image_in(hop.report.data) matches Some(p) ==> request_after(start, hops.push(hop)).images
            == seq![p],
        image_in(hop.report.data) is None ==> request_after(start, hops.push(hop)).images.len()
            == 0,
        request_after(start, hops).max_tokens == 512,
        request_after(start, hops).messages == after_hops(start, hops),
{
}

/// The prompt lists the tools in order, one line each; no tools, no lines.
pub proof fn each_tool_is_told_of(
    listing: Seq<(Seq<char>, Seq<char>)>,
    name: Seq<char>,
    description: Seq<char>,
    host: Seq<char>,
)
    ensures
        tool_lines(Seq::empty()) == Seq::<char>::empty(),
        tool_lines(listing.push((name, description))) == tool_lines(listing) + ("- "@ + name
            + ": "@ + description + "\n"@),
        prompt_text(listing, host) == PROMPT_HEAD@ + tool_lines(listing) + PROMPT_REST@ + host,
{
    assert(listing.push((name, description)).drop_last() == listing);
}

/// What the model is handed back of a report is the report whole: which tool
/// ran, what it says, and all its data.
pub proof fn report_is_handed_back_whole(report: ToolResultView) -> (value: JsonView)
    ensures
        report_text(report) == json_render(value),
        value.text_at("tool"@) == Some(report.tool),
        value.text_at("summary"@) == Some(report.summary),
        value.get("data"@) == Some(report.data),
        value matches JsonView::Object(m) && m.dom() == set!["tool"@, "summary"@, "data"@],
{
    reveal_strlit("tool");
    reveal_strlit("summary");
    reveal_strlit("data");
    assert("tool"@[0] == 't' && "data"@[0] == 'd' && "summary"@.len() == 7 && "tool"@.len() == 4);
    let m = map![
        "tool"@ => JsonView::Text(report.tool),
        "summary"@ => JsonView::Text(report.summary),
        "data"@ => report.data,
    ];
    assert(m.dom() =~= set!["tool"@, "summary"@, "data"@]);
    JsonView::Object(m)
}

/// The question is added to what was said, without white space around it; the
/// prompt goes before it where nothing was said, and only there.
pub proof fn question_is_added(history: Seq<MessageView>, prompt: Seq<char>, input: Seq<char>)
    ensures
        history.len() > 0 ==> opened(history, prompt, input) == history.push(
            (MessageView { role: Role::User, content: trimmed(input) }),
        ),
        history.len() == 0 ==> opened(history, prompt, input) == seq![
            MessageView { role: Role::System, content: prompt },
            MessageView { role: Role::User, content: trimmed(input) },
        ],
{
}

/// Every tool call stays in the conversation at its place: what the model
/// wrote, and right behind it the report.
pub proof fn every_report_is_kept(start: Seq<MessageView>, hops: Seq<Hop>, i: int)
    requires
        0 <= i < hops.len(),
    ensures
        after_hops(start, hops).len() == start.len() + 2 * hops.len(),
        after_hops(start, hops)[start.len() + 2 * i] == (MessageView {
            role: Role::Assistant,
            content: trimmed(hops[i].reply),
        }),
        after_hops(start, hops)[start.len() + 2 * i + 1] == (MessageView {
            role: Role::Tool,
            content: report_text(hops[i].report),
        }),
    decreases hops.len(),
{
    hops_extend(start, hops);
    hops_extend(start, hops.drop_last());
    let before = after_hops(start, hops.drop_last());
    if i < hops.len() - 1 {
        every_report_is_kept(start, hops.drop_last(), i);
    }
}

/// A turn ends for the limit exactly where three tools ran, and each tool that
/// ran was called by name in what the model wrote, with those arguments and
/// with the confirmer of the turn to ask.
pub proof fn called_tools_run(
    tools: ToolRegistry,
    confirmer: &Arc<dyn Confirmer>,
    hops: Seq<Hop>,
    end: TurnEnd,
    i: int,
    name: Seq<char>,
    args: JsonView,
)
    requires
        turn_may_go(tools, confirmer, hops, end),
        0 <= i < hops.len(),
        tool_call(trimmed(hops[i].reply)) == Some((name, args)),
    ensures
        hops.len() <= 3,
        end is Limit <==> hops.len() == 3,
        exists|k: int|
            0 <= k < tools.entries().len() && #[trigger] tools.entries()[k].called() == name
                && tools.entries()[k].may_end(args, confirmer, Ok(hops[i].report)),
{
    assert(call_may_end(tools.entries(), confirmer, hops[i].reply, Ok(hops[i].report)));
}

/// A reply ends the turn exactly for what it is: an answer calls no tool, and
/// a turn fails for an unknown tool only where none of that name is there.
pub proof fn turn_ends_for_its_reply(
    tools: ToolRegistry,
    confirmer: &Arc<dyn Confirmer>,
    hops: Seq<Hop>,
    end: TurnEnd,
)
    requires
        turn_may_go(tools, confirmer, hops, end),
    ensures
        end matches TurnEnd::Answered { reply } ==> tool_call(trimmed(reply)) is None,
        end matches TurnEnd::UnknownTool { reply } ==> (tool_call(trimmed(reply)) matches Some(
            (name, _),
        ) && forall|k: int|
            0 <= k < tools.entries().len() ==> #[trigger] tools.entries()[k].called() != name),
        end matches TurnEnd::ToolFailed { reply, message } ==> (tool_call(trimmed(reply)) matches Some(
            (name, args),
        ) && exists|k: int|
            0 <= k < tools.entries().len() && #[trigger] tools.entries()[k].called() == name
                && tools.entries()[k].may_end(args, confirmer, Err(message))),
        end is Limit <==> hops.len() == 3,
{
    if let TurnEnd::UnknownTool { reply } = end {
        let name = (tool_call(trimmed(reply))->0).0;
        assert forall|k: int|
            0 <= k < tools.entries().len() implies #[trigger] tools.entries()[k].called()
            != name by {
            assert(!tools.has(name));
        }
    }
}

/// What the model answers is what the user is told and what stays last in the
/// conversation, with every report in order; a turn that fails adds no answer,
/// and says why.
pub proof fn answer_is_told_and_kept(
    start: Seq<MessageView>,
    hops: Seq<Hop>,
    end: TurnEnd,
    r: Result<AgentReply, AgentError>,
)
    requires
        outcome_is(r, hops, end),
    ensures
        end matches TurnEnd::Answered { reply } ==> {
            &&& r matches Ok(a)
            &&& a.text@ == trimmed(reply)
            &&& after_turn(start, hops, end) == after_hops(start, hops).push(
                (MessageView { role: Role::Assistant, content: trimmed(reply) }),
            )
        },
        end !is Answered ==> after_turn(start, hops, end) == after_hops(start, hops),
        end is Limit ==> (r matches Ok(a) && a.text@
            == "(reached tool-call limit without a final answer)"@),
        r matches Ok(a) ==> a.tool_calls@.len() == hops.len() && forall|i: int|
            0 <= i < hops.len() ==> (#[trigger] a.tool_calls@[i])@ == hops[i].report,
        r is Ok <==> end is Answered || end is Limit,
        end matches TurnEnd::BackendFailed { message } ==> (r matches Err(AgentError::Backend(e))
            && e.message@ == message),
        end matches TurnEnd::ToolFailed { message, .. } ==> (r matches Err(AgentError::Tool(e))
            && e.message@ == message),
        end matches TurnEnd::UnknownTool { reply } ==> (r matches Err(
            AgentError::UnknownTool { name },
        ) && tool_call(trimmed(reply)) matches Some((called, _)) && name@ == called),
{
    if let Ok(a) = r {
        let told = report_views(a.tool_calls@);
        assert(told == hop_reports(hops));
        assert(told.len() == hops.len());
        assert forall|i: int| 0 <= i < hops.len() implies (#[trigger] a.tool_calls@[i])@
            == hops[i].report by {
            assert(told[i] == a.tool_calls@[i]@);
            assert(hop_reports(hops)[i] == hops[i].report);
        }
    }
}

/// The model is asked once for each tool call and once for the end, each time
/// with all that was said by then; what it answered is what the calls and the
/// end are made of.
pub proof fn model_is_asked_with_all(
    start: Seq<MessageView>,
    hops: Seq<Hop>,
    end: TurnEnd,
    i: int,
)
    requires
        0 <= i < hops.len(),
    ensures
        ({
            let all = turn_exchanges(start, hops, end);
            &&& all.len() == (if end is Limit {
                hops.len()
            } else {
                hops.len() + 1
            })
            &&& all[i].request.messages == after_hops(start, hops.take(i))
            &&& all[i].answer == Ok::<Seq<char>, Seq<char>>(hops[i].reply)
            &&& end !is Limit ==> all.last().request.messages == after_hops(start, hops)
            &&& end matches TurnEnd::Answered { reply } ==> all.last().answer == Ok::<
                Seq<char>,
                Seq<char>,
            >(reply)
            &&& end matches TurnEnd::UnknownTool { reply } ==> all.last().answer == Ok::<
                Seq<char>,
                Seq<char>,
            >(reply)
            &&& end matches TurnEnd::ToolFailed { reply, .. } ==> all.last().answer == Ok::<
                Seq<char>,
                Seq<char>,
            >(reply)
            &&& end matches TurnEnd::BackendFailed { message } ==> all.last().answer == Err::<
                Seq<char>,
                Seq<char>,
            >(message)
        }),
{
}

/// A backend that keeps account knows every exchange of a turn in order, each
/// of which it may have answered so, behind those before it.
pub proof fn exchanges_are_kept<B: Backend>(model: B, more: Seq<Exchange>, after: B, i: int)
    requires
        exchanges_lead(model, more, after),
        0 <= i < more.len(),
    ensures
        model.remembers() ==> after.exchanges() == model.exchanges() + more && model.may_answer(
            model.exchanges() + more.take(i),
            more[i].request,
            more[i].answer,
        ),
        !model.remembers() ==> model.may_answer(
            model.exchanges(),
            more[i].request,
            more[i].answer,
        ),
{
}

/// A parsed call is seen as its name and its arguments.
pub proof fn calls_are_seen_whole(call: ParsedToolCall)
    ensures
        call_view(Some(call)) == Some((call.name@, call.args@)),
        call_view(None) is None,
{
}

/// Before the list of tools, the model is told the form of a call, which is
/// the one that is looked for in its replies; behind it, that the answer comes
/// after the report.
pub proof fn prompt_says_how_to_call()
    ensures
        has_suffix(
            PROMPT_HEAD@,
            "in this exact format:\n<tool name=\"NAME\">JSON_ARGS</tool>\n\nAvailable tools:\n"@,
        ),
        has_prefix(PROMPT_REST@, "\nAfter a tool runs you will receive its result"@),
{
    reveal_strlit("You are tux, a helpful local assistant on a Linux machine. Answer naturally in plain prose. Be concise. When you suggest commands, prefer ones appropriate for the host described below.\n\nWhen the user refers to \"your\" / \"yourself\" / \"your config\" / \"your knowledge\" / \"your <field>\" (e.g. \"your update_cmd\", \"your install command\"), they mean YOUR OWN persisted configuration — the fields shown in the \"Package management & system commands\" block below, which are stored at $XDG_DATA_HOME/tux/system.json. To change one of those, call the `set_knowledge` tool. Do NOT refuse with \"I don't have access to my internal variables\" — you do, via that tool.\n\nWhen you need to use a tool, output ONLY the tool call on a single line with no other text, in this exact format:\n<tool name=\"NAME\">JSON_ARGS</tool>\n\nAvailable tools:\n");
    reveal_strlit("\nAfter a tool runs you will receive its result and should then write the final natural-language answer for the user.\n\n");
    reveal_strlit(
        "in this exact format:\n<tool name=\"NAME\">JSON_ARGS</tool>\n\nAvailable tools:\n",
    );
    reveal_strlit("\nAfter a tool runs you will receive its result");
    let a = "in this exact format:\n<tool name=\"NAME\">JSON_ARGS</tool>\n\nAvailable tools:\n"@;
    let b = "\nAfter a tool runs you will receive its result"@;
    assert(PROMPT_HEAD@.skip(PROMPT_HEAD@.len() - a.len()) == a);
    assert(PROMPT_REST@.take(b.len() as int) == b);
}

} // verus!
