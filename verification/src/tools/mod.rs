//! Tools: things the agent can do on the host.
//!
//! A [`Tool`] is known to the model by its name and description. The
//! submodules hold, for each built-in tool, how its arguments are read, what
//! is decided from the state of the host, and what is reported back; running
//! commands and touching files is left to the program around this crate.
use std::sync::Arc;

use vstd::prelude::*;

use crate::json::{Json, JsonView};
use crate::text::{
    has_prefix, text_less, text_less_at, text_less_irreflexive, text_less_transitive, text_order, TextOrder,
};
use clipboard::{ClipboardReadTool, ClipboardWriteTool};
use files::{
    EditFileTool, FindFileTool, ReadFileTool, WriteFileTool, EDIT_DESCRIPTION, FIND_DESCRIPTION,
    READ_DESCRIPTION, WRITE_DESCRIPTION,
};
use install::{InstallPackageTool, INSTALL_DESCRIPTION};
use knowledge::{SetKnowledgeTool, CHANGE_DESCRIPTION};
use screenshot::ScreenshotTool;

pub mod clipboard;
pub mod confirm;
pub mod files;
pub mod install;
pub mod knowledge;
pub mod screenshot;

verus! {

/// What a tool reports.
#[derive(Debug)]
pub struct ToolResult {
    pub tool: String,
    pub summary: String,
    /// Structured payload, such as the path of a screenshot.
    pub data: Json,
}

/// What a tool's report says.
pub struct ToolResultView {
    pub tool: Seq<char>,
    pub summary: Seq<char>,
    pub data: JsonView,
}

impl View for ToolResult {
    type V = ToolResultView;

    open spec fn view(&self) -> ToolResultView {
        ToolResultView { tool: self.tool@, summary: self.summary@, data: self.data@ }
    }
}

/// Why a tool failed.
#[derive(Debug)]
pub struct ToolError {
    pub message: String,
}

impl ToolError {
    /// An error that says `message`.
    pub fn new(message: String) -> (r: Self)
        ensures
            r.message == message,
    {
        ToolError { message }
    }
}

/// Something the agent can do on the host.
pub trait Tool: Send + Sync {
    /// Whether it may give `name` as the name the model calls it by.
    open spec fn may_be_called(&self, name: Seq<char>) -> bool {
        true
    }

    /// Whether it may give `description` as what the model is told about it.
    open spec fn may_be_described(&self, description: Seq<char>) -> bool {
        true
    }

    /// Whether `outcome` is among what it may come to with the arguments
    /// `args` and `confirmer` to ask: a report, or what a failure says.
    open spec fn may_end(
        &self,
        args: JsonView,
        confirmer: &Arc<dyn confirm::Confirmer>,
        outcome: Result<ToolResultView, Seq<char>>,
    ) -> bool {
        true
    }

    /// The name the model calls it by.
    fn name(&self) -> (r: &'static str)
        ensures
            self.may_be_called(r@),
    ;

    /// What the model is told about it.
    fn description(&self) -> (r: &'static str)
        ensures
            self.may_be_described(r@),
    ;

    /// Does it, asking `confirmer` before anything that changes the host.
    fn invoke(&self, args: Json, confirmer: &Arc<dyn confirm::Confirmer>) -> (r: Result<
        ToolResult,
        ToolError,
    >)
        ensures
            self.may_end(args@, confirmer, outcome_of(r)),
    ;
}

/// What a tool reported, or what its failure says.
pub open spec fn outcome_of(r: Result<ToolResult, ToolError>) -> Result<
    ToolResultView,
    Seq<char>,
> {
    match r {
        Ok(report) => Ok(report@),
        Err(e) => Err(e.message@),
    }
}

/// Nothing in the way, or what a failure says.
pub open spec fn check_of(r: Result<(), ToolError>) -> Result<(), Seq<char>> {
    match r {
        Ok(()) => Ok(()),
        Err(e) => Err(e.message@),
    }
}

/// What follows from the answer to a question that a tool asked.
#[derive(Debug)]
pub enum Answered<T> {
    /// The user agreed: go on with this.
    Go(T),
    /// The user declined: report this.
    Declined(ToolResult),
    /// No answer came: fail with this.
    Failed(ToolError),
}

/// The text argument `key` of a call, or a failure that says `complaint`.
pub fn text_arg<'a>(args: &'a Json, key: &str, complaint: &str) -> (r: Result<&'a str, ToolError>)
    ensures
        match args@.text_at(key@) {
            Some(t) => r matches Ok(s) && s@ == t,
            None => r matches Err(e) && e.message@ == complaint@,
        },
{
    match args.get_str(key) {
        Some(s) => Ok(s),
        None => Err(ToolError::new(complaint.to_string())),
    }
}

/// A tool that someone holds.
pub struct Held {
    pub tool: Box<dyn Tool>,
}

impl Held {
    /// Whether it may give `name` as the name the model calls it by.
    pub open spec fn may_be_called(self, name: Seq<char>) -> bool {
        self.tool.may_be_called(name)
    }

    /// Whether it may give `description` as what the model is told about it.
    pub open spec fn may_be_described(self, description: Seq<char>) -> bool {
        self.tool.may_be_described(description)
    }

    /// Whether it may come to `outcome` with the arguments `args` and
    /// `confirmer` to ask.
    pub open spec fn may_end(
        self,
        args: JsonView,
        confirmer: &Arc<dyn confirm::Confirmer>,
        outcome: Result<ToolResultView, Seq<char>>,
    ) -> bool {
        self.tool.may_end(args, confirmer, outcome)
    }
}

/// A tool in a registry, under the name that it gave when it was added. What a
/// built-in tool is called and how it is described is fixed; any other is asked
/// each time.
pub struct Registered {
    name: &'static str,
    built_in: Option<&'static str>,
    held: Held,
}

impl Registered {
    /// The name the model calls it by.
    pub closed spec fn called(self) -> Seq<char> {
        self.name@
    }

    /// What the model is told about it, for a built-in tool.
    pub closed spec fn built_in(self) -> Option<Seq<char>> {
        match self.built_in {
            Some(d) => Some(d@),
            None => None,
        }
    }

    /// The tool itself.
    pub closed spec fn inner(self) -> Held {
        self.held
    }

    /// Whether it may give `name` as its name.
    pub open spec fn may_be_called(self, name: Seq<char>) -> bool {
        match self.built_in() {
            Some(_) => name == self.called(),
            None => self.inner().may_be_called(name),
        }
    }

    /// Whether it may give `description` as what the model is told about it.
    pub open spec fn may_be_described(self, description: Seq<char>) -> bool {
        match self.built_in() {
            Some(d) => description == d,
            None => self.inner().may_be_described(description),
        }
    }

    /// Whether it may come to `outcome` with the arguments `args` and
    /// `confirmer` to ask.
    pub open spec fn may_end(
        self,
        args: JsonView,
        confirmer: &Arc<dyn confirm::Confirmer>,
        outcome: Result<ToolResultView, Seq<char>>,
    ) -> bool {
        self.inner().may_end(args, confirmer, outcome)
    }

    /// Whether it holds `tool`, under a name that the tool gave.
    pub open spec fn is_for(self, tool: Held) -> bool {
        &&& self.inner() == tool
        &&& self.built_in() is None
        &&& tool.may_be_called(self.called())
    }

    /// `held`, under the name that it gives.
    fn of(held: Held) -> (r: Self)
        ensures
            r.is_for(held),
    {
        let name = held.tool.name();
        Registered { name, built_in: None, held }
    }

    /// `held`, as the built-in tool of this name and description.
    fn known(name: &'static str, description: &'static str, held: Held) -> (r: Self)
        ensures
            r.called() == name@,
            r.built_in() == Some(description@),
            r.inner() == held,
    {
        Registered { name, built_in: Some(description), held }
    }

    /// What it is called.
    pub fn name(&self) -> (r: &'static str)
        ensures
            self.may_be_called(r@),
    {
        match self.built_in {
            Some(_) => self.name,
            None => self.held.tool.name(),
        }
    }

    /// What the model is told about it.
    pub fn description(&self) -> (r: &'static str)
        ensures
            self.may_be_described(r@),
    {
        match self.built_in {
            Some(d) => d,
            None => self.held.tool.description(),
        }
    }

    /// Does it.
    pub fn invoke(&self, args: Json, confirmer: &Arc<dyn confirm::Confirmer>) -> (r: Result<
        ToolResult,
        ToolError,
    >)
        ensures
            self.may_end(args@, confirmer, outcome_of(r)),
    {
        self.held.tool.invoke(args, confirmer)
    }
}

/// The tools an agent has, in the order of their names, each name once.
pub struct ToolRegistry {
    tools: Vec<Registered>,
}

/// `entries` with `tool` at its place in the order of names: before the first
/// that comes after it, or instead of the one of its name.
pub open spec fn with_tool(entries: Seq<Registered>, tool: Registered) -> Seq<Registered>
    decreases entries.len(),
{
    if entries.len() == 0 {
        seq![tool]
    } else if entries.first().called() == tool.called() {
        entries.update(0, tool)
    } else if text_less(tool.called(), entries.first().called()) {
        seq![tool] + entries
    } else {
        seq![entries.first()] + with_tool(entries.drop_first(), tool)
    }
}

proof fn with_tool_places(entries: Seq<Registered>, tool: Registered, at: int, found: bool)
    requires
        0 <= at <= entries.len(),
        forall|i: int| 0 <= i < at ==> text_less(#[trigger] entries[i].called(), tool.called()),
        found ==> at < entries.len() && entries[at].called() == tool.called(),
        !found && at < entries.len() ==> text_less(tool.called(), entries[at].called()),
    ensures
        with_tool(entries, tool) == (if found {
            entries.update(at, tool)
        } else {
            entries.insert(at, tool)
        }),
    decreases entries.len(),
{
    text_less_irreflexive(tool.called());
    if entries.len() == 0 {
        assert(entries.insert(0, tool) == seq![tool]);
    } else if at == 0 {
        if !found {
            assert(entries.insert(0, tool) == seq![tool] + entries);
        }
    } else {
        let first = entries.first();
        let rest = entries.drop_first();
        assert(first == entries[0]);
        if text_less(tool.called(), first.called()) {
            text_less_transitive(tool.called(), first.called(), tool.called());
        }
        assert forall|i: int| 0 <= i < at - 1 implies text_less(
            #[trigger] rest[i].called(),
            tool.called(),
        ) by {
            assert(rest[i] == entries[i + 1]);
        }
        with_tool_places(rest, tool, at - 1, found);
        if found {
            assert(entries.update(at, tool) == seq![first] + rest.update(at - 1, tool));
        } else {
            assert(entries.insert(at, tool) == seq![first] + rest.insert(at - 1, tool));
        }
    }
}

/// Whether a tool of that name is among `entries`.
pub open spec fn has_tool(entries: Seq<Registered>, name: Seq<char>) -> bool {
    exists|i: int| 0 <= i < entries.len() && #[trigger] entries[i].called() == name
}

/// Whether `after` is `before` with `tool` at its place, under a name that it
/// gave.
pub open spec fn entered(before: Seq<Registered>, tool: Held, after: Seq<Registered>) -> bool {
    exists|k: int|
        0 <= k < after.len() && #[trigger] after[k].is_for(tool) && after == with_tool(
            before,
            after[k],
        )
}

/// A tool that was added is there, and every tool of another name stays.
pub proof fn added_tool_is_there(entries: Seq<Registered>, tool: Registered)
    ensures
        with_tool(entries, tool).contains(tool),
        forall|t: Registered| #[trigger]
            entries.contains(t) && t.called() != tool.called() ==> with_tool(
                entries,
                tool,
            ).contains(t),
        forall|t: Registered| #[trigger]
            with_tool(entries, tool).contains(t) ==> t == tool || entries.contains(t),
    decreases entries.len(),
{
    let all = with_tool(entries, tool);
    if entries.len() == 0 {
        assert(all[0] == tool);
    } else if entries.first().called() == tool.called() {
        assert(all[0] == tool);
        assert forall|t: Registered| #[trigger]
            entries.contains(t) && t.called() != tool.called() implies all.contains(t) by {
            let i = choose|i: int| 0 <= i < entries.len() && entries[i] == t;
            assert(all[i] == t);
        }
        assert forall|t: Registered| #[trigger] all.contains(t) implies t == tool
            || entries.contains(t) by {
            let i = choose|i: int| 0 <= i < all.len() && all[i] == t;
            if i > 0 {
                assert(entries[i] == t);
            }
        }
    } else if text_less(tool.called(), entries.first().called()) {
        assert(all[0] == tool);
        assert forall|t: Registered| #[trigger]
            entries.contains(t) && t.called() != tool.called() implies all.contains(t) by {
            let i = choose|i: int| 0 <= i < entries.len() && entries[i] == t;
            assert(all[i + 1] == t);
        }
        assert forall|t: Registered| #[trigger] all.contains(t) implies t == tool
            || entries.contains(t) by {
            let i = choose|i: int| 0 <= i < all.len() && all[i] == t;
            if i > 0 {
                assert(entries[i - 1] == t);
            }
        }
    } else {
        let rest = entries.drop_first();
        let more = with_tool(rest, tool);
        added_tool_is_there(rest, tool);
        assert(all == seq![entries.first()] + more);
        let k = choose|k: int| 0 <= k < more.len() && more[k] == tool;
        assert(all[k + 1] == tool);
        assert forall|t: Registered| #[trigger]
            entries.contains(t) && t.called() != tool.called() implies all.contains(t) by {
            let i = choose|i: int| 0 <= i < entries.len() && entries[i] == t;
            if i == 0 {
                assert(all[0] == t);
            } else {
                assert(rest[i - 1] == t);
                assert(rest.contains(t));
                let j = choose|j: int| 0 <= j < more.len() && more[j] == t;
                assert(all[j + 1] == t);
            }
        }
        assert forall|t: Registered| #[trigger] all.contains(t) implies t == tool
            || entries.contains(t) by {
            let i = choose|i: int| 0 <= i < all.len() && all[i] == t;
            if i == 0 {
                assert(entries[0] == t);
            } else {
                assert(more[i - 1] == t);
                assert(more.contains(t));
                if t != tool {
                    let j = choose|j: int| 0 <= j < rest.len() && rest[j] == t;
                    assert(entries[j + 1] == t);
                }
            }
        }
    }
}

/// What carries out each of the built-in tools on a host.
pub struct DefaultTools {
    pub clipboard_read: Held,
    pub clipboard_write: Held,
    pub edit_file: Held,
    pub find_file: Held,
    pub install_package: Held,
    pub read_file: Held,
    pub screenshot: Held,
    pub set_knowledge: Held,
    pub write_file: Held,
}

impl DefaultTools {
    /// The tools, in the order of their names.
    pub open spec fn in_order(self) -> Seq<Held> {
        seq![
            self.clipboard_read,
            self.clipboard_write,
            self.edit_file,
            self.find_file,
            self.install_package,
            self.read_file,
            self.screenshot,
            self.set_knowledge,
            self.write_file,
        ]
    }
}

/// The names of the built-in tools, in order, each with what the model is
/// told about it.
pub open spec fn default_listing() -> Seq<(Seq<char>, Seq<char>)> {
    seq![
        ("clipboard_read"@, "Read the current text contents of the user's clipboard."@),
        (
            "clipboard_write"@,
            "Replace the user's clipboard with the given text. Args: {\"text\": \"...\"}"@,
        ),
        ("edit_file"@, EDIT_DESCRIPTION@),
        ("find_file"@, FIND_DESCRIPTION@),
        ("install_package"@, INSTALL_DESCRIPTION@),
        ("read_file"@, READ_DESCRIPTION@),
        ("screenshot"@, "Capture the current screen to a PNG and return its path."@),
        ("set_knowledge"@, CHANGE_DESCRIPTION@),
        ("write_file"@, WRITE_DESCRIPTION@),
    ]
}

proof fn default_names_in_order(i: int, j: int)
    requires
        0 <= i < j < default_listing().len(),
    ensures
        text_less(default_listing()[i].0, default_listing()[j].0),
    decreases j - i,
{
    let names = default_listing();
    if j > i + 1 {
        default_names_in_order(i, j - 1);
        default_names_in_order(j - 1, j);
        text_less_transitive(names[i].0, names[j - 1].0, names[j].0);
    } else {
        reveal_strlit("clipboard_read");
        reveal_strlit("clipboard_write");
        reveal_strlit("edit_file");
        reveal_strlit("find_file");
        reveal_strlit("install_package");
        reveal_strlit("read_file");
        reveal_strlit("screenshot");
        reveal_strlit("set_knowledge");
        reveal_strlit("write_file");
        let k: int = if i == 0 {
            10
        } else if i == 6 {
            1
        } else {
            0
        };
        text_less_at(names[i].0, names[j].0, k);
    }
}

impl ToolRegistry {
    /// The tools stand in the order of their names.
    pub closed spec fn wf(&self) -> bool {
        forall|i: int, j: int|
            0 <= i < j < self.tools@.len() ==> text_less(
                #[trigger] self.tools@[i].called(),
                #[trigger] self.tools@[j].called(),
            )
    }

    /// The tools, in order.
    pub closed spec fn entries(&self) -> Seq<Registered> {
        self.tools@
    }

    /// Whether a tool of that name is there.
    pub open spec fn has(&self, name: Seq<char>) -> bool {
        has_tool(self.entries(), name)
    }

    /// Whether `listing` may be what the tools give as their names and
    /// descriptions, in order.
    pub open spec fn may_list(&self, listing: Seq<(Seq<char>, Seq<char>)>) -> bool {
        &&& listing.len() == self.entries().len()
        &&& forall|i: int|
            0 <= i < listing.len() ==> self.entries()[i].may_be_called(
                (#[trigger] listing[i]).0,
            ) && self.entries()[i].may_be_described(listing[i].1)
    }

    /// A registry without tools.
    pub fn new() -> (r: Self)
        ensures
            r.wf(),
            r.entries() == Seq::<Registered>::empty(),
    {
        ToolRegistry { tools: Vec::new() }
    }

    /// The registry of the built-in tools.
    pub fn with_defaults(tools: DefaultTools) -> (r: Self)
        ensures
            r.wf(),
            forall|listing: Seq<(Seq<char>, Seq<char>)>|
                r.may_list(listing) <==> listing == default_listing(),
            r.entries().map_values(|t: Registered| t.inner()) == tools.in_order(),
            forall|i: int|
                0 <= i < default_listing().len() ==> r.has(#[trigger] default_listing()[i].0),
            ({
                let all = r.entries();
                &&& all.len() == 9
                &&& all[0].called() == "clipboard_read"@ && all[0].inner() == tools.clipboard_read
                &&& all[1].called() == "clipboard_write"@ && all[1].inner() == tools.clipboard_write
                &&& all[2].called() == "edit_file"@ && all[2].inner() == tools.edit_file
                &&& all[3].called() == "find_file"@ && all[3].inner() == tools.find_file
                &&& all[4].called() == "install_package"@ && all[4].inner() == tools.install_package
                &&& all[5].called() == "read_file"@ && all[5].inner() == tools.read_file
                &&& all[6].called() == "screenshot"@ && all[6].inner() == tools.screenshot
                &&& all[7].called() == "set_knowledge"@ && all[7].inner() == tools.set_knowledge
                &&& all[8].called() == "write_file"@ && all[8].inner() == tools.write_file
            }),
    {
        let mut all: Vec<Registered> = Vec::new();
        let t = ClipboardReadTool;
        all.push(Registered::known(t.name(), t.description(), tools.clipboard_read));
        let t = ClipboardWriteTool;
        all.push(Registered::known(t.name(), t.description(), tools.clipboard_write));
        let t = EditFileTool;
        all.push(Registered::known(t.name(), t.description(), tools.edit_file));
        let t = FindFileTool;
        all.push(Registered::known(t.name(), t.description(), tools.find_file));
        let t = InstallPackageTool;
        all.push(Registered::known(t.name(), t.description(), tools.install_package));
        let t = ReadFileTool;
        all.push(Registered::known(t.name(), t.description(), tools.read_file));
        let t = ScreenshotTool;
        all.push(Registered::known(t.name(), t.description(), tools.screenshot));
        let t = SetKnowledgeTool::new(None);
        all.push(Registered::known(t.name(), t.description(), tools.set_knowledge));
        let t = WriteFileTool;
        all.push(Registered::known(t.name(), t.description(), tools.write_file));
        let r = ToolRegistry { tools: all };
        proof {
            let names = default_listing();
            assert(r.entries().len() == names.len());
            assert forall|i: int| 0 <= i < names.len() implies (#[trigger] r.tools@[i]).called()
                == names[i].0 && r.tools@[i].built_in() == Some(names[i].1) by {
            }
            assert forall|i: int, j: int| 0 <= i < j < r.tools@.len() implies text_less(
                #[trigger] r.tools@[i].called(),
                #[trigger] r.tools@[j].called(),
            ) by {
                default_names_in_order(i, j);
            }
            assert forall|i: int| 0 <= i < names.len() implies r.has(#[trigger] names[i].0) by {
                assert(r.entries()[i] == r.tools@[i]);
                assert(r.entries()[i].called() == names[i].0);
            }
            assert forall|listing: Seq<(Seq<char>, Seq<char>)>|
                r.may_list(listing) <==> listing == names by {
                if r.may_list(listing) {
                    assert forall|i: int| 0 <= i < names.len() implies listing[i]
                        == #[trigger] names[i] by {
                        assert(r.entries()[i] == r.tools@[i]);
                        assert(r.entries()[i].may_be_called(listing[i].0));
                    }
                    assert(listing == names);
                }
                if listing == names {
                    assert forall|i: int| 0 <= i < listing.len() implies r.entries()[i].may_be_called(
                        (#[trigger] listing[i]).0,
                    ) && r.entries()[i].may_be_described(listing[i].1) by {
                        assert(r.entries()[i] == r.tools@[i]);
                    }
                }
            }
        }
        r
    }

    /// Where a tool of that name stands, or would stand.
    fn place(&self, name: &str) -> (r: (usize, bool))
        requires
            self.wf(),
        ensures
            r.0 <= self.tools@.len(),
            r.1 ==> r.0 < self.tools@.len() && self.tools@[r.0 as int].called() == name@,
            r.1 == self.has(name@),
            forall|i: int| 0 <= i < r.0 ==> text_less(#[trigger] self.tools@[i].called(), name@),
            forall|i: int|
                r.0 <= i < self.tools@.len() && !r.1 ==> text_less(
                    name@,
                    #[trigger] self.tools@[i].called(),
                ),
    {
        let mut i: usize = 0;
        while i < self.tools.len()
            invariant
                i <= self.tools@.len(),
                self.wf(),
                forall|k: int| 0 <= k < i ==> text_less(#[trigger] self.tools@[k].called(), name@),
            decreases self.tools@.len() - i,
        {
            match text_order(self.tools[i].name, name) {
                TextOrder::Before => {},
                TextOrder::Same => {
                    assert(self.entries()[i as int].called() == name@);
                    return (i, true);
                },
                TextOrder::After => {
                    proof {
                        assert forall|k: int| i <= k < self.tools@.len() implies text_less(
                            name@,
                            #[trigger] self.tools@[k].called(),
                        ) by {
                            if k > i {
                                text_less_transitive(
                                    name@,
                                    self.tools@[i as int].called(),
                                    self.tools@[k].called(),
                                );
                            }
                        }
                        assert forall|k: int|
                            0 <= k < self.entries().len() implies #[trigger] self.entries()[k].called()
                            != name@ by {
                            text_less_irreflexive(name@);
                            assert(self.tools@[k].called() == self.entries()[k].called());
                        }
                    }
                    return (i, false);
                },
            }
            i += 1;
        }
        proof {
            text_less_irreflexive(name@);
            assert forall|k: int| 0 <= k < self.entries().len() implies #[trigger] self.entries()[k].called()
                != name@ by {
                assert(self.tools@[k].called() == self.entries()[k].called());
            }
        }
        (i, false)
    }

    /// Adds a tool. It takes the place of one of the same name.
    pub fn register(&mut self, tool: Box<dyn Tool>)
        requires
            old(self).wf(),
        ensures
            final(self).wf(),
            entered(old(self).entries(), (Held { tool }), final(self).entries()),
    {
        let held = Held { tool };
        let e = Registered::of(held);
        let k = self.add_tool(e);
        assert(self.entries()[k as int].is_for(held));
        assert(entered(old(self).entries(), held, self.entries()));
    }

    fn add_tool(&mut self, tool: Registered) -> (k: usize)
        requires
            old(self).wf(),
        ensures
            final(self).wf(),
            final(self).entries() == with_tool(old(self).entries(), tool),
            k < final(self).entries().len(),
            final(self).entries()[k as int] == tool,
    {
        let name = tool.name;
        let (i, found) = self.place(name);
        let ghost before = self.tools@;
        proof {
            with_tool_places(before, tool, i as int, found);
        }
        if found {
            self.tools[i] = tool;
            proof {
                let after = self.tools@;
                assert(after == before.update(i as int, tool));
                assert forall|a: int, b: int| 0 <= a < b < after.len() implies text_less(
                    #[trigger] after[a].called(),
                    #[trigger] after[b].called(),
                ) by {
                    assert(before[a].called() == after[a].called());
                    assert(before[b].called() == after[b].called());
                }
            }
        } else {
            self.tools.insert(i, tool);
            proof {
                let after = self.tools@;
                assert(after == before.insert(i as int, tool));
                before.insert_ensures(i as int, tool);
                assert forall|k: int| i < k < after.len() implies #[trigger] after[k] == before[k
                    - 1] by {
                    assert(before.insert(i as int, tool)[(k - 1) + 1] == before[k - 1]);
                }
                assert forall|a: int, b: int| 0 <= a < b < after.len() implies text_less(
                    #[trigger] after[a].called(),
                    #[trigger] after[b].called(),
                ) by {
                    let c = if a < i {
                        a
                    } else {
                        a - 1
                    };
                    let d = if b < i {
                        b
                    } else {
                        b - 1
                    };
                    if a != i && b != i {
                        assert(text_less(before[c].called(), before[d].called()));
                    } else if b == i {
                        assert(text_less(before[c].called(), tool.called()));
                    } else {
                        assert(text_less(tool.called(), before[d].called()));
                    }
                }
            }
        }
        i
    }

    /// The tool of that name.
    pub fn get(&self, name: &str) -> (r: Option<&Registered>)
        requires
            self.wf(),
        ensures
            r is Some == self.has(name@),
            r matches Some(t) ==> t.called() == name@ && self.entries().contains(*t),
    {
        let (i, found) = self.place(name);
        if found {
            let t = &self.tools[i];
            assert(self.entries()[i as int] == *t);
            Some(t)
        } else {
            None
        }
    }

    /// Names and descriptions, as the tools give them, in the order of the names
    /// under which they were added.
    pub fn list(&self) -> (r: Vec<(&'static str, &'static str)>)
        ensures
            self.may_list(listing_views(r@)),
    {
        let mut r: Vec<(&'static str, &'static str)> = Vec::new();
        let mut i: usize = 0;
        while i < self.tools.len()
            invariant
                i <= self.tools@.len(),
                r@.len() == i,
                forall|k: int|
                    0 <= k < i ==> self.tools@[k].may_be_called((#[trigger] r@[k]).0@)
                        && self.tools@[k].may_be_described(r@[k].1@),
            decreases self.tools@.len() - i,
        {
            let t = &self.tools[i];
            let name = t.name();
            r.push((name, t.description()));
            i += 1;
        }
        proof {
            let views = listing_views(r@);
            assert forall|k: int| 0 <= k < views.len() implies self.entries()[k].may_be_called(
                (#[trigger] views[k]).0,
            ) && self.entries()[k].may_be_described(views[k].1) by {
                assert(self.tools@[k].may_be_called(r@[k].0@));
            }
        }
        r
    }
}

/// The views of a list of names and descriptions.
pub open spec fn listing_views(listing: Seq<(&'static str, &'static str)>) -> Seq<
    (Seq<char>, Seq<char>),
> {
    listing.map_values(|e: (&'static str, &'static str)| (e.0@, e.1@))
}

/// A report is seen as what it says, and a failure as its message.
pub proof fn reports_are_seen_whole(report: ToolResult, e: ToolError)
    ensures
        report@.tool == report.tool@,
        report@.summary == report.summary@,
        report@.data == report.data@,
        outcome_of(Ok(report)) == Ok::<ToolResultView, Seq<char>>(report@),
        outcome_of(Err(e)) == Err::<ToolResultView, Seq<char>>(e.message@),
        check_of(Ok(())) == Ok::<(), Seq<char>>(()),
        check_of(Err(e)) == Err::<(), Seq<char>>(e.message@),
{
}

/// A tool is there exactly where one is entered under its name.
pub proof fn tools_go_by_their_names(entries: Seq<Registered>, name: Seq<char>, i: int)
    ensures
        0 <= i < entries.len() ==> has_tool(entries, entries[i].called()),
        has_tool(entries, name) ==> exists|t: Registered| #[trigger]
            entries.contains(t) && t.called() == name,
{
    if 0 <= i < entries.len() {
        assert(entries[i].called() == entries[i].called());
    }
    if has_tool(entries, name) {
        let k = choose|k: int| 0 <= k < entries.len() && #[trigger] entries[k].called() == name;
        assert(entries.contains(entries[k]));
    }
}

/// A tool that is entered can be called by the name that it gave, and runs as
/// itself; whatever had another name can still be called.
pub proof fn entered_tool_is_called(before: Seq<Registered>, tool: Held, after: Seq<Registered>)
    requires
        entered(before, tool, after),
    ensures
        exists|t: Registered| #[trigger]
            after.contains(t) && t.inner() == tool && tool.may_be_called(t.called()) && forall|
                other: Registered,
            | #[trigger]
                before.contains(other) && other.called() != t.called() ==> after.contains(other),
{
    let k = choose|k: int|
        0 <= k < after.len() && #[trigger] after[k].is_for(tool) && after == with_tool(
            before,
            after[k],
        );
    let t = after[k];
    added_tool_is_there(before, t);
    assert(after.contains(t));
}

/// A registered tool ends as the tool that it holds does; a built-in one has a
/// fixed name and description, and any other gives its own.
pub proof fn registered_tool_is_the_tool(
    t: Registered,
    name: Seq<char>,
    description: Seq<char>,
    args: JsonView,
    confirmer: &Arc<dyn confirm::Confirmer>,
    outcome: Result<ToolResultView, Seq<char>>,
)
    ensures
        t.may_end(args, confirmer, outcome) == t.inner().tool.may_end(args, confirmer, outcome),
        t.built_in() is Some ==> (t.may_be_called(name) <==> name == t.called()) && (
        t.may_be_described(description) <==> description == t.built_in()->0),
        t.built_in() is None ==> t.may_be_called(name) == t.inner().tool.may_be_called(name)
            && t.may_be_described(description) == t.inner().tool.may_be_described(description),
{
}

/// What is listed has a line for each tool, in order, with a name and a
/// description that the tool may give.
pub proof fn listing_is_by_tool(
    registry: ToolRegistry,
    listing: Seq<(Seq<char>, Seq<char>)>,
    i: int,
)
    requires
        registry.may_list(listing),
        0 <= i < registry.entries().len(),
    ensures
        listing.len() == registry.entries().len(),
        registry.entries()[i].may_be_called(listing[i].0),
        registry.entries()[i].may_be_described(listing[i].1),
{
    assert(registry.entries()[i].may_be_called(listing[i].0));
}

/// A listing is seen line by line.
pub proof fn listings_are_seen_whole(listing: Seq<(&'static str, &'static str)>)
    ensures
        listing_views(listing).len() == listing.len(),
        forall|i: int|
            0 <= i < listing.len() ==> (#[trigger] listing_views(listing)[i]).0 == listing[i].0@
                && listing_views(listing)[i].1 == listing[i].1@,
{
}

/// There are nine built-in tools, listed in the order of their names, each
/// with its own description.
pub proof fn built_in_tools_are_listed()
    ensures
        default_listing().len() == 9,
        default_listing()[0].0 == "clipboard_read"@,
        default_listing()[1].0 == "clipboard_write"@,
        default_listing()[2] == ("edit_file"@, EDIT_DESCRIPTION@),
        default_listing()[3] == ("find_file"@, FIND_DESCRIPTION@),
        default_listing()[4] == ("install_package"@, INSTALL_DESCRIPTION@),
        default_listing()[5] == ("read_file"@, READ_DESCRIPTION@),
        default_listing()[6].0 == "screenshot"@,
        default_listing()[7] == ("set_knowledge"@, CHANGE_DESCRIPTION@),
        default_listing()[8] == ("write_file"@, WRITE_DESCRIPTION@),
        forall|i: int, j: int|
            0 <= i < j < 9 ==> text_less(
                #[trigger] default_listing()[i].0,
                #[trigger] default_listing()[j].0,
            ),
{
    assert forall|i: int, j: int| 0 <= i < j < 9 implies text_less(
        #[trigger] default_listing()[i].0,
        #[trigger] default_listing()[j].0,
    ) by {
        default_names_in_order(i, j);
    }
}

/// Installing asks first, and changing the configuration names the fields that
/// there are.
pub proof fn changes_say_how_they_are_called()
    ensures
        has_prefix(
            INSTALL_DESCRIPTION@,
            "Install a package using the host's package manager. Args: {\"package\": \"name\"}. Asks the user for confirmation"@,
        ),
        has_prefix(
            CHANGE_DESCRIPTION@,
            "Update one field of tux's own persisted configuration (system.json). Args: {\"field\":\"update_cmd\",\"value\":\"...\"}. Valid fields: package_manager, install_cmd, remove_cmd, search_cmd, update_cmd, escalation, service_manager, config_paths (list), notes (list)."@,
        ),
{
    reveal_strlit("Install a package using the host's package manager. Args: {\"package\": \"name\"}. Asks the user for confirmation on the terminal before doing anything.");
    reveal_strlit("Update one field of tux's own persisted configuration (system.json). Args: {\"field\":\"update_cmd\",\"value\":\"...\"}. Valid fields: package_manager, install_cmd, remove_cmd, search_cmd, update_cmd, escalation, service_manager, config_paths (list), notes (list). Use this when the user asks to change \"your\" config / knowledge / commands.");
    reveal_strlit("Install a package using the host's package manager. Args: {\"package\": \"name\"}. Asks the user for confirmation");
    reveal_strlit("Update one field of tux's own persisted configuration (system.json). Args: {\"field\":\"update_cmd\",\"value\":\"...\"}. Valid fields: package_manager, install_cmd, remove_cmd, search_cmd, update_cmd, escalation, service_manager, config_paths (list), notes (list).");
    let a =
        "Install a package using the host's package manager. Args: {\"package\": \"name\"}. Asks the user for confirmation"@;
    let b =
        "Update one field of tux's own persisted configuration (system.json). Args: {\"field\":\"update_cmd\",\"value\":\"...\"}. Valid fields: package_manager, install_cmd, remove_cmd, search_cmd, update_cmd, escalation, service_manager, config_paths (list), notes (list)."@;
    assert(INSTALL_DESCRIPTION@.take(a.len() as int) == a);
    assert(CHANGE_DESCRIPTION@.take(b.len() as int) == b);
}

} // verus!
