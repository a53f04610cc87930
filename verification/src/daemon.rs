//! The resident daemon: what is said over its socket, and what it does.
//!
//! A client sends one request per connection. The daemon may send questions
//! before its reply, each of which takes an answer; the last thing it sends
//! is the reply. The program around this crate moves the lines.
use std::sync::Arc;

use vstd::prelude::*;

use crate::agent::{
    after_hops, answer_is_told_and_kept, hops_extend, opened, turn_keeps_history, turn_leads, Agent, AgentError, AgentReply, Conversation, Hop,
    TurnEnd,
};
use crate::backend::{Backend, MessageView, Role};
use crate::paths::{join_path, joined_path, opt_text};
use crate::text::{concat2, concat3, concat5, quote, quoted, trimmed};
use crate::tools::confirm::Confirmer;
use crate::tools::ToolResult;

verus! {

/// What a client asks of the daemon.
#[derive(Debug)]
pub enum Request {
    /// Answer this in the conversation.
    Prompt { prompt: String },
    /// Forget the conversation, if so.
    Reset { reset: bool },
    /// Exit, if so. If not, this asks whether anyone is there.
    Shutdown { shutdown: bool },
}

/// A question that the daemon puts to the client before it replies.
#[derive(Debug)]
pub struct ConfirmRecord {
    pub confirm: String,
}

/// What the client's user answered.
#[derive(Debug, Clone, Copy, PartialEq, Eq, Structural)]
pub struct ConfirmAnswer {
    pub answer: bool,
}

/// A reply: what the agent said, and the tools that ran.
#[derive(Debug)]
pub struct ReplyPayload {
    pub text: String,
    pub tool_calls: Vec<ToolResult>,
}

/// The last thing the daemon sends for a request.
#[derive(Debug)]
pub enum Response {
    Reply(ReplyPayload),
    Failure { error: String },
}

/// Where the socket is: in the runtime directory, where the environment
/// names one, and otherwise in a directory of the user's under `/tmp`.
pub open spec fn socket_place(runtime_dir: Option<Seq<char>>, user: Option<Seq<char>>) -> Seq<char> {
    joined_path(runtime_place(runtime_dir, user), "tux.sock"@)
}

/// The directory that the socket is in.
pub open spec fn runtime_place(
    runtime_dir: Option<Seq<char>>,
    user: Option<Seq<char>>,
) -> Seq<char> {
    match runtime_dir {
        Some(dir) => dir,
        None => "/tmp/tux-"@ + match user {
            Some(name) => name,
            None => "default"@,
        },
    }
}

/// The directory that the socket is in.
pub fn runtime_directory(runtime_dir: &Option<String>, user: &Option<String>) -> (r: String)
    ensures
        r@ == runtime_place(opt_text(*runtime_dir), opt_text(*user)),
{
    match runtime_dir {
        Some(dir) => dir.clone(),
        None => match user {
            Some(name) => concat2("/tmp/tux-", name),
            None => concat2("/tmp/tux-", "default"),
        },
    }
}

/// Where the socket is.
pub fn socket_path(runtime_dir: &Option<String>, user: &Option<String>) -> (r: String)
    ensures
        r@ == socket_place(opt_text(*runtime_dir), opt_text(*user)),
{
    join_path(&runtime_directory(runtime_dir, user), "tux.sock")
}

/// Whether a daemon may start at `path`, given whether a socket is there and
/// whether someone answers at it. Says whether a stale socket is to be
/// removed first.
pub fn may_start(path: &str, there: bool, answers: bool) -> (r: Result<bool, String>)
    ensures
        match r {
            Ok(remove) => !(there && answers) && remove == there,
            Err(m) => there && answers && m@ == "another tuxd is already serving at "@ + path@,
        },
{
    if there && answers {
        Err(concat2("another tuxd is already serving at ", path))
    } else {
        Ok(there)
    }
}

/// What is said of the daemon whose socket is at `path`.
pub open spec fn status_line(path: Seq<char>, there: bool, ping: Result<(), Seq<char>>) -> Seq<char> {
    if !there {
        "not running (no socket at "@ + path + ")"@
    } else {
        match ping {
            Ok(()) => "running ("@ + path + ")"@,
            Err(e) => "stale socket at "@ + path + " ("@ + e + ")"@,
        }
    }
}

/// What is said of the daemon, given whether its socket is there and what
/// came of asking at it.
pub fn status(path: &str, there: bool, ping: Result<(), String>) -> (r: String)
    ensures
        r@ == status_line(
            path@,
            there,
            match ping {
                Ok(()) => Ok(()),
                Err(e) => Err(e@),
            },
        ),
{
    if !there {
        return concat3("not running (no socket at ", path, ")");
    }
    match ping {
        Ok(()) => concat3("running (", path, ")"),
        Err(e) => concat5("stale socket at ", path, " (", &e, ")"),
    }
}

/// What the daemon does for a request.
#[derive(Debug)]
pub enum Action {
    /// Nothing but to reply with this text.
    Say(String),
    /// Forget the conversation and reply with this text.
    Forget(String),
    /// Reply with this text and exit.
    Exit(String),
    /// Answer this prompt.
    Run(String),
}

/// What the daemon does for a request.
pub fn dispatch(req: Request) -> (r: Action)
    ensures
        match req {
            Request::Shutdown { shutdown: true } => r matches Action::Exit(t) && t@
                == "shutting down"@,
            Request::Shutdown { shutdown: false } => r matches Action::Say(t) && t@ == "noop"@,
            Request::Reset { reset: true } => r matches Action::Forget(t) && t@
                == "conversation reset"@,
            Request::Reset { reset: false } => r matches Action::Say(t) && t@ == "noop"@,
            Request::Prompt { prompt } => r matches Action::Run(p) && p@ == prompt@,
        },
{
    match req {
        Request::Shutdown { shutdown } => if shutdown {
            Action::Exit("shutting down".to_string())
        } else {
            Action::Say("noop".to_string())
        },
        Request::Reset { reset } => if reset {
            Action::Forget("conversation reset".to_string())
        } else {
            Action::Say("noop".to_string())
        },
        Request::Prompt { prompt } => Action::Run(prompt),
    }
}

/// A reply without tool calls.
pub fn plain_reply(text: String) -> (r: Response)
    ensures
        is_plain(r, text@),
{
    Response::Reply(ReplyPayload { text, tool_calls: Vec::new() })
}

/// Whether `r` says `text`, and no tool ran.
pub open spec fn is_plain(r: Response, text: Seq<char>) -> bool {
    r matches Response::Reply(p) && p.text@ == text && p.tool_calls@.len() == 0
}

/// What an error of a turn says.
pub open spec fn error_text(e: AgentError) -> Seq<char> {
    match e {
        AgentError::Backend(e) => e.message@,
        AgentError::UnknownTool { name } => "model called unknown tool: "@ + name@,
        AgentError::Tool(e) => e.message@,
    }
}

/// The reply to a prompt, from what the turn came to.
pub fn turn_reply(outcome: Result<AgentReply, AgentError>) -> (r: Response)
    ensures
        match outcome {
            Ok(a) => r matches Response::Reply(p) && p.text@ == a.text@ && p.tool_calls == a.tool_calls,
            Err(e) => r matches Response::Failure { error } && error@ == error_text(e),
        },
{
    match outcome {
        Ok(reply) => Response::Reply(
            ReplyPayload { text: reply.text, tool_calls: reply.tool_calls },
        ),
        Err(e) => Response::Failure { error: e.message() },
    }
}

/// The reply to a prompt whose turn broke off in a panic.
pub fn broken_reply(why: &str) -> (r: Response)
    ensures
        r matches Response::Failure { error } && error@ == "agent task panicked: "@ + why@,
{
    Response::Failure { error: concat2("agent task panicked: ", why) }
}

/// What the daemon keeps while it runs: the agent and the one conversation
/// that every connection shares.
pub struct Session<B: Backend> {
    pub agent: Agent<B>,
    pub conv: Conversation,
}

impl<B: Backend> Session<B> {
    /// Whether the agent's tools stand in order.
    pub open spec fn wf(&self) -> bool {
        self.agent.wf()
    }

    /// A session in which nothing was said yet.
    pub fn new(agent: Agent<B>) -> (r: Self)
        ensures
            r.agent == agent,
            r.conv@ == Seq::<MessageView>::empty(),
    {
        Session { agent, conv: Conversation::new() }
    }

    /// Serves a request: the reply to send, and whether to exit afterwards.
    pub fn serve(&mut self, req: Request, confirmer: &Arc<dyn Confirmer>) -> (r: (Response, bool))
        requires
            old(self).wf(),
        ensures
            final(self).wf(),
            r.1 == (req matches Request::Shutdown { shutdown: true }),
            match req {
                Request::Shutdown { shutdown: true } => is_plain(r.0, "shutting down"@)
                    && *final(self) == *old(self),
                Request::Shutdown { shutdown: false } => is_plain(r.0, "noop"@) && *final(self)
                    == *old(self),
                Request::Reset { reset: true } => is_plain(r.0, "conversation reset"@)
                    && final(self).conv@ == Seq::<MessageView>::empty() && final(self).agent == old(
                    self,
                ).agent,
                Request::Reset { reset: false } => is_plain(r.0, "noop"@) && *final(self) == *old(
                    self,
                ),
                Request::Prompt { prompt } => prompt_served(
                    *old(self),
                    prompt@,
                    confirmer,
                    *final(self),
                    r.0,
                ),
            },
    {
        match dispatch(req) {
            Action::Say(text) => (plain_reply(text), false),
            Action::Exit(text) => (plain_reply(text), true),
            Action::Forget(text) => {
                self.conv.reset();
                (plain_reply(text), false)
            },
            Action::Run(prompt) => {
                let outcome = self.agent.turn(&mut self.conv, &prompt, confirmer);
                let ghost told = outcome;
                proof {
                    let (said, hops, end) = choose|said: Seq<char>, hops: Seq<Hop>, end: TurnEnd|
                        #[trigger]
                        turn_leads(
                            old(self).agent,
                            said,
                            old(self).conv@,
                            prompt@,
                            confirmer,
                            hops,
                            end,
                            self.conv@,
                            told,
                            self.agent,
                        );
                    assert(turn_leads(
                        old(self).agent,
                        said,
                        old(self).conv@,
                        prompt@,
                        confirmer,
                        hops,
                        end,
                        self.conv@,
                        told,
                        self.agent,
                    ));
                }
                let reply = turn_reply(outcome);
                assert(says_outcome(reply, told));
                (reply, false)
            },
        }
    }
}

/// Whether `reply` tells what a turn came to.
pub open spec fn says_outcome(reply: Response, outcome: Result<AgentReply, AgentError>) -> bool {
    match outcome {
        Ok(a) => reply matches Response::Reply(p) && p.text@ == a.text@ && p.tool_calls
            == a.tool_calls,
        Err(e) => reply matches Response::Failure { error } && error@ == error_text(e),
    }
}

/// Whether a prompt led from one session to another, with this reply: by a
/// turn of the agent in the shared conversation, in which tools ask
/// `confirmer`.
pub open spec fn prompt_served<B: Backend>(
    before: Session<B>,
    prompt: Seq<char>,
    confirmer: &Arc<dyn Confirmer>,
    after: Session<B>,
    reply: Response,
) -> bool {
    exists|said: Seq<char>, hops: Seq<Hop>, end: TurnEnd, outcome: Result<AgentReply, AgentError>|
        #![trigger turn_leads(before.agent, said, before.conv@, prompt, confirmer, hops, end, after.conv@, outcome, after.agent)]
        turn_leads(
            before.agent,
            said,
            before.conv@,
            prompt,
            confirmer,
            hops,
            end,
            after.conv@,
            outcome,
            after.agent,
        ) && says_outcome(reply, outcome)
}

/// A line from the daemon, as the client reads it.
#[derive(Debug)]
pub enum ServerLine {
    /// The connection was closed.
    Closed,
    /// A question.
    Confirm(ConfirmRecord),
    /// The reply.
    Reply(Response),
    /// Something else: the line, and what is wrong with it.
    Garbled { line: String, error: String },
}

/// What a client does with a line.
#[derive(Debug)]
pub enum ClientStep {
    /// Put the question to the user and send the answer.
    Ask(String),
    /// Be done, with this reply.
    Done(ReplyPayload),
    /// Be done, with this error.
    Fail(SendError),
}

/// Why a request got no answer.
#[derive(Debug)]
pub struct SendError {
    pub message: String,
    /// Whether the daemon itself reported it, in its reply.
    pub replied: bool,
}

/// What a client does with a line from the daemon.
pub fn client_step(line: ServerLine) -> (r: ClientStep)
    ensures
        match line {
            ServerLine::Closed => r matches ClientStep::Fail(e) && !e.replied && e.message@
                == "daemon closed connection without a reply"@,
            ServerLine::Confirm(record) => r matches ClientStep::Ask(q) && q@ == record.confirm@,
            ServerLine::Reply(Response::Reply(payload)) => r matches ClientStep::Done(p) && p
                == payload,
            ServerLine::Reply(Response::Failure { error }) => r matches ClientStep::Fail(e)
                && e.replied && e.message@ == "daemon: "@ + error@,
            ServerLine::Garbled { line, error } => r matches ClientStep::Fail(e) && !e.replied
                && e.message@ == "bad response json: "@ + error@ + " (got: "@ + quoted(line@) + ")"@,
        },
{
    match line {
        ServerLine::Closed => ClientStep::Fail(
            SendError {
                message: "daemon closed connection without a reply".to_string(),
                replied: false,
            },
        ),
        ServerLine::Confirm(record) => ClientStep::Ask(record.confirm),
        ServerLine::Reply(Response::Reply(payload)) => ClientStep::Done(payload),
        ServerLine::Reply(Response::Failure { error }) => ClientStep::Fail(
            SendError { message: concat2("daemon: ", &error), replied: true },
        ),
        ServerLine::Garbled { line, error } => ClientStep::Fail(
            SendError {
                message: concat5("bad response json: ", &error, " (got: ", &quote(&line), ")"),
                replied: false,
            },
        ),
    }
}

/// The answer to send for a question, from what the user said: a no where
/// the user could not be asked.
pub fn answer_for(said: Result<bool, String>) -> (r: ConfirmAnswer)
    ensures
        r.answer == (said == Ok::<bool, String>(true)),
{
    match said {
        Ok(answer) => ConfirmAnswer { answer },
        Err(_) => ConfirmAnswer { answer: false },
    }
}

/// After a reset, the next prompt is answered as the first one is: the
/// conversation that it leaves begins with a system prompt of the agent's and
/// the input.
pub proof fn reset_starts_anew<B: Backend>(
    before: Session<B>,
    input: Seq<char>,
    confirmer: &Arc<dyn Confirmer>,
    after: Session<B>,
    reply: Response,
)
    requires
        before.conv@ == Seq::<MessageView>::empty(),
        prompt_served(before, input, confirmer, after, reply),
    ensures
        after.conv@.len() >= 2,
        after.conv@[0].role == Role::System,
        before.agent.may_prompt(after.conv@[0].content),
        after.conv@[1] == (MessageView { role: Role::User, content: trimmed(input) }),
{
    let (said, hops, end, outcome) = choose|
        said: Seq<char>,
        hops: Seq<Hop>,
        end: TurnEnd,
        outcome: Result<AgentReply, AgentError>,
    |
        #![trigger turn_leads(before.agent, said, before.conv@, input, confirmer, hops, end, after.conv@, outcome, after.agent)]
        turn_leads(
            before.agent,
            said,
            before.conv@,
            input,
            confirmer,
            hops,
            end,
            after.conv@,
            outcome,
            after.agent,
        ) && says_outcome(reply, outcome);
    let start = opened(before.conv@, said, input);
    hops_extend(start, hops);
    let upto = after_hops(start, hops).take(start.len() as int);
    assert(upto[0] == start[0] && upto[1] == start[1]);
}

/// The socket is in the runtime directory that the environment names, and in
/// one of the user's under `/tmp` where it names none.
pub proof fn socket_is_in_its_directory(dir: Seq<char>, user: Option<Seq<char>>, name: Seq<char>)
    ensures
        runtime_place(Some(dir), user) == dir,
        runtime_place(None, Some(name)) == "/tmp/tux-"@ + name,
        runtime_place(None, None) == "/tmp/tux-default"@,
        socket_place(Some(dir), user) == joined_path(dir, "tux.sock"@),
        dir.len() > 0 && dir.last() != '/' ==> socket_place(Some(dir), user) == dir + "/tux.sock"@,
        socket_place(None, None) == "/tmp/tux-default/tux.sock"@,
        name.len() > 0 && name.last() != '/' ==> socket_place(None, Some(name)) == "/tmp/tux-"@
            + name + "/tux.sock"@,
{
    reveal_strlit("/tmp/tux-");
    reveal_strlit("default");
    reveal_strlit("/tmp/tux-default");
    reveal_strlit("tux.sock");
    reveal_strlit("/tux.sock");
    reveal_strlit("/tmp/tux-default/tux.sock");
    assert("/tmp/tux-"@ + "default"@ == "/tmp/tux-default"@);
    assert("/tmp/tux-default"@.push('/') + "tux.sock"@ == "/tmp/tux-default/tux.sock"@);
    if dir.len() > 0 && dir.last() != '/' {
        assert(dir.push('/') + "tux.sock"@ == dir + "/tux.sock"@);
    }
    if name.len() > 0 && name.last() != '/' {
        let place = "/tmp/tux-"@ + name;
        assert(place.last() == name.last());
        assert(place.push('/') + "tux.sock"@ == place + "/tux.sock"@);
    }
}

/// A daemon runs where its socket is there and answers, and the status says
/// which of the two is missing.
pub proof fn status_says_what_is_there(path: Seq<char>, why: Seq<char>, ping: Result<(), Seq<char>>)
    ensures
        status_line(path, false, ping) == "not running (no socket at "@ + path + ")"@,
        status_line(path, true, Ok(())) == "running ("@ + path + ")"@,
        status_line(path, true, Err(why)) == "stale socket at "@ + path + " ("@ + why + ")"@,
{
}

/// A failed turn is told by what failed.
pub proof fn failures_are_told(e: AgentError)
    ensures
        e matches AgentError::Backend(b) ==> error_text(e) == b.message@,
        e matches AgentError::Tool(t) ==> error_text(e) == t.message@,
        e matches AgentError::UnknownTool { name } ==> error_text(e)
            == "model called unknown tool: "@ + name@,
{
}

/// A plain reply is one with that text, in which no tool ran.
pub proof fn plain_reply_has_no_calls(r: Response, text: Seq<char>)
    requires
        is_plain(r, text),
    ensures
        r matches Response::Reply(p) && p.text@ == text && p.tool_calls@.len() == 0,
{
}

/// A prompt is answered in the shared conversation: all that was said stays,
/// the prompt is added, and the answer that the client gets is the last thing
/// said, unless the model did not stop calling tools; a failure is told as
/// such.
pub proof fn prompt_is_answered_in_the_conversation<B: Backend>(
    before: Session<B>,
    prompt: Seq<char>,
    confirmer: &Arc<dyn Confirmer>,
    after: Session<B>,
    reply: Response,
)
    requires
        prompt_served(before, prompt, confirmer, after, reply),
    ensures
        after.conv@.len() > before.conv@.len(),
        after.conv@.take(before.conv@.len() as int) == before.conv@,
        before.conv@.len() > 0 ==> after.conv@[before.conv@.len() as int] == (MessageView {
            role: Role::User,
            content: trimmed(prompt),
        }),
        reply matches Response::Reply(p) ==> p.tool_calls@.len() <= 3 && (p.tool_calls@.len() < 3
            ==> after.conv@.last() == (MessageView { role: Role::Assistant, content: p.text@ })),
{
    let (said, hops, end, outcome) = choose|
        said: Seq<char>,
        hops: Seq<Hop>,
        end: TurnEnd,
        outcome: Result<AgentReply, AgentError>,
    |
        #![trigger turn_leads(before.agent, said, before.conv@, prompt, confirmer, hops, end, after.conv@, outcome, after.agent)]
        turn_leads(
            before.agent,
            said,
            before.conv@,
            prompt,
            confirmer,
            hops,
            end,
            after.conv@,
            outcome,
            after.agent,
        ) && says_outcome(reply, outcome);
    let start = opened(before.conv@, said, prompt);
    turn_keeps_history(before.conv@, said, prompt, hops, end);
    answer_is_told_and_kept(start, hops, end, outcome);
    hops_extend(start, hops);
    if before.conv@.len() > 0 {
        let n = before.conv@.len() as int;
        assert(after_hops(start, hops).take(start.len() as int)[n] == start[n]);
    }
}

/// What the client is told of a turn is what it came to, with the tools that
/// ran.
pub proof fn outcome_is_told(reply: Response, outcome: Result<AgentReply, AgentError>)
    requires
        says_outcome(reply, outcome),
    ensures
        outcome matches Ok(a) ==> (reply matches Response::Reply(p) && p.text@ == a.text@
            && p.tool_calls == a.tool_calls),
        outcome matches Err(e) ==> (reply matches Response::Failure { error } && error@
            == error_text(e)),
{
}

} // verus!
