//! The state of the window: the transcript, and whether an answer is awaited.
use vstd::prelude::*;

use crate::agent::AgentReply;
use crate::cli::{trace_line, trace_text};
use crate::text::{concat2, trim, trimmed};
use crate::tools::ToolResult;

verus! {

/// The transcript and whether an answer is awaited.
#[derive(Debug)]
pub struct Transcript {
    text: String,
    busy: bool,
}

/// What `text` is once `line` is added below it.
pub open spec fn with_line(text: Seq<char>, line: Seq<char>) -> Seq<char> {
    if text.len() == 0 {
        line
    } else {
        text + "\n"@ + line
    }
}

/// What `text` is once a line for each of `calls` is added below it.
pub open spec fn with_traces(text: Seq<char>, calls: Seq<ToolResult>) -> Seq<char>
    decreases calls.len(),
{
    if calls.len() == 0 {
        text
    } else {
        with_line(
            with_traces(text, calls.drop_last()),
            trace_text(calls.last()@.tool, calls.last()@.summary),
        )
    }
}

/// What came of a prompt.
#[derive(Debug)]
pub enum Arrived {
    /// An answer.
    Answer(AgentReply),
    /// An error, in words.
    Error(String),
    /// Nothing, and nothing will come.
    Nothing,
}

impl Transcript {
    /// What the window shows.
    pub closed spec fn shown(&self) -> Seq<char> {
        self.text@
    }

    /// Whether an answer is awaited.
    pub closed spec fn waits(&self) -> bool {
        self.busy
    }

    /// An empty transcript.
    pub fn new() -> (r: Self)
        ensures
            r.shown() == Seq::<char>::empty(),
            !r.waits(),
    {
        Transcript { text: String::new(), busy: false }
    }

    /// What the window shows.
    pub fn text(&self) -> (r: &str)
        ensures
            r@ == self.shown(),
    {
        self.text.as_str()
    }

    /// Adds a line.
    pub fn append_line(&mut self, line: &str)
        ensures
            final(self).shown() == with_line(old(self).shown(), line@),
            final(self).waits() == old(self).waits(),
    {
        if !self.text.as_str().is_empty() {
            self.text.append("\n");
        } else {
            assert(self.text@ + line@ == line@);
        }
        self.text.append(line);
    }

    /// Takes what the user entered: the prompt to answer, unless an answer is
    /// awaited already or nothing was entered.
    pub fn submit(&mut self, entered: &str) -> (r: Option<String>)
        ensures
            r is Some == (!old(self).waits() && trimmed(entered@).len() > 0),
            r matches Some(prompt) ==> {
                &&& prompt@ == trimmed(entered@)
                &&& final(self).waits()
                &&& final(self).shown() == with_line(old(self).shown(), "» "@ + trimmed(entered@))
            },
            r is None ==> *final(self) == *old(self),
    {
        if self.busy {
            return None;
        }
        let prompt = trim(entered);
        if prompt.as_str().is_empty() {
            return None;
        }
        self.append_line(&concat2("» ", &prompt));
        self.busy = true;
        Some(prompt)
    }

    /// Takes what came of the prompt. No answer is awaited any more.
    pub fn arrive(&mut self, what: Arrived)
        ensures
            !final(self).waits(),
            final(self).shown() == match what {
                Arrived::Answer(reply) => with_line(
                    with_traces(old(self).shown(), reply.tool_calls@),
                    reply.text@,
                ),
                Arrived::Error(e) => with_line(old(self).shown(), "error: "@ + e@),
                Arrived::Nothing => old(self).shown(),
            },
    {
        match what {
            Arrived::Answer(reply) => {
                let ghost before = self.shown();
                let ghost calls = reply.tool_calls@;
                let mut i: usize = 0;
                while i < reply.tool_calls.len()
                    invariant
                        i <= reply.tool_calls@.len(),
                        calls == reply.tool_calls@,
                        self.shown() == with_traces(before, calls.take(i as int)),
                    decreases reply.tool_calls@.len() - i,
                {
                    proof {
                        let upto = calls.take(i + 1);
                        assert(upto.drop_last() == calls.take(i as int));
                        assert(upto.last() == calls[i as int]);
                    }
                    self.append_line(&trace_line(&reply.tool_calls[i]));
                    i += 1;
                }
                assert(calls.take(i as int) == calls);
                self.append_line(&reply.text);
            },
            Arrived::Error(e) => {
                self.append_line(&concat2("error: ", &e));
            },
            Arrived::Nothing => {},
        }
        self.busy = false;
    }
}

/// A line goes below what is shown, and is all that is shown where nothing
/// was.
pub proof fn lines_go_below(text: Seq<char>, line: Seq<char>)
    ensures
        with_line(Seq::empty(), line) == line,
        text.len() > 0 ==> with_line(text, line) == text + "\n"@ + line,
{
}

/// Each tool that ran adds a line of its own, in order, with its name and what
/// it did.
pub proof fn each_call_adds_a_line(text: Seq<char>, calls: Seq<ToolResult>, call: ToolResult)
    ensures
        with_traces(text, Seq::empty()) == text,
        with_traces(text, calls.push(call)) == with_line(
            with_traces(text, calls),
            "· "@ + call.tool@ + " → "@ + call.summary@,
        ),
{
    assert(calls.push(call).drop_last() == calls);
}

} // verus!
