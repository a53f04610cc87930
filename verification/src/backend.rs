//! Model backends.
//!
//! A [`Backend`] answers a conversation. [`MockBackend`] and
//! [`ScriptedBackend`] need no model; [`OpenAICompatBackend`] and
//! [`LlamaCppBackend`] hold what a remote or a local model is asked with and
//! how its answer is read.
use vstd::prelude::*;
use vstd::slice::slice_subrange;

use crate::json::{
    json_int, json_read, json_render, json_view_of_parts, json_views, Json, JsonView,
    ObjectBuilder,
};
use crate::llama::{resolved_ctx, resolved_threads, LlamaCppBackend};
use crate::paths::opt_text;
use crate::search::{
    contains, cut_behind, find, index_from_is_first, index_of, index_of_none_iff_absent, occurs_at,
};
use crate::text::{
    append_all, chars_of, concat2, drop_trailing, string_of, texts, trim, trim_chars, trimmed,
    without_trailing,
};

verus! {

/// Who speaks in a message.
#[derive(Debug, Clone, Copy, PartialEq, Eq, Structural)]
pub enum Role {
    System,
    User,
    Assistant,
    Tool,
}

/// One message of a conversation.
#[derive(Debug)]
pub struct ChatMessage {
    pub role: Role,
    pub content: String,
}

/// What a message says.
pub struct MessageView {
    pub role: Role,
    pub content: Seq<char>,
}

impl View for ChatMessage {
    type V = MessageView;

    open spec fn view(&self) -> MessageView {
        MessageView { role: self.role, content: self.content@ }
    }
}

impl Clone for ChatMessage {
    fn clone(&self) -> (r: Self)
        ensures
            r@ == self@,
    {
        ChatMessage { role: self.role, content: self.content.clone() }
    }
}

/// The views of a list of messages.
pub open spec fn message_views(messages: Seq<ChatMessage>) -> Seq<MessageView> {
    messages.map_values(|m: ChatMessage| m@)
}

/// A copy of a list of messages.
pub fn copy_messages(messages: &Vec<ChatMessage>) -> (r: Vec<ChatMessage>)
    ensures
        message_views(r@) == message_views(messages@),
{
    let mut r: Vec<ChatMessage> = Vec::new();
    let mut i: usize = 0;
    while i < messages.len()
        invariant
            i <= messages@.len(),
            message_views(r@) == message_views(messages@).take(i as int),
        decreases messages@.len() - i,
    {
        let ghost before = r@;
        r.push(messages[i].clone());
        assert(message_views(r@) == message_views(before).push(messages@[i as int]@));
        i += 1;
        assert(message_views(r@) == message_views(messages@).take(i as int));
    }
    assert(message_views(messages@).take(i as int) == message_views(messages@));
    r
}

/// A conversation to be answered.
#[derive(Debug)]
pub struct CompletionRequest {
    pub messages: Vec<ChatMessage>,
    pub max_tokens: usize,
    /// Image files to attach to the last user message. Backends without
    /// vision ignore them.
    pub images: Vec<String>,
}

/// What a request asks.
pub struct RequestView {
    pub messages: Seq<MessageView>,
    pub max_tokens: nat,
    pub images: Seq<Seq<char>>,
}

impl View for CompletionRequest {
    type V = RequestView;

    open spec fn view(&self) -> RequestView {
        RequestView {
            messages: message_views(self.messages@),
            max_tokens: self.max_tokens as nat,
            images: texts(self.images@),
        }
    }
}

/// The most tokens an answer may take, unless a request says otherwise.
pub const DEFAULT_MAX_TOKENS: usize = 512;

impl CompletionRequest {
    /// A request without images for an answer of the usual length.
    pub fn new(messages: Vec<ChatMessage>) -> (r: Self)
        ensures
            r.messages == messages,
            r.max_tokens == 512,
            r.images@.len() == 0,
            r@ == (RequestView {
                messages: message_views(messages@),
                max_tokens: 512,
                images: Seq::empty(),
            }),
    {
        let r = CompletionRequest { messages, max_tokens: DEFAULT_MAX_TOKENS, images: Vec::new() };
        assert(texts(r.images@) == Seq::<Seq<char>>::empty());
        r
    }

    /// The same request with `images` attached in place of those it had.
    pub fn with_images(self, images: Vec<String>) -> (r: Self)
        ensures
            r.messages == self.messages,
            r.max_tokens == self.max_tokens,
            r.images == images,
            r@ == (RequestView { images: texts(images@), ..self@ }),
    {
        CompletionRequest { messages: self.messages, max_tokens: self.max_tokens, images }
    }
}

/// A backend's answer.
#[derive(Debug)]
pub struct CompletionResponse {
    pub text: String,
}

/// Why a backend gave no answer.
#[derive(Debug)]
pub struct BackendError {
    pub message: String,
}

/// A request, with the text that answered it, or what the failure said.
pub struct Exchange {
    pub request: RequestView,
    pub answer: Result<Seq<char>, Seq<char>>,
}

/// The text of an answer, or what the failure says.
pub open spec fn answer_of(r: Result<CompletionResponse, BackendError>) -> Result<
    Seq<char>,
    Seq<char>,
> {
    match r {
        Ok(a) => Ok(a.text@),
        Err(e) => Err(e.message@),
    }
}

/// Something that answers conversations.
pub trait Backend: Send + Sync {
    /// Whether the backend keeps account of what it was asked.
    open spec fn remembers(&self) -> bool {
        false
    }

    /// What a backend that keeps account was asked and answered so far.
    open spec fn exchanges(&self) -> Seq<Exchange> {
        Seq::empty()
    }

    /// Whether `answer` is among what it may answer `request` with, behind
    /// the exchanges `past`.
    open spec fn may_answer(
        &self,
        past: Seq<Exchange>,
        request: RequestView,
        answer: Result<Seq<char>, Seq<char>>,
    ) -> bool {
        true
    }

    /// A short label of the implementation.
    fn name(&self) -> &'static str;

    /// Answers `req`.
    fn complete(&mut self, req: CompletionRequest) -> (r: Result<CompletionResponse, BackendError>)
        ensures
            final(self).remembers() == old(self).remembers(),
            final(self).exchanges() == (if old(self).remembers() {
                old(self).exchanges().push(Exchange { request: req@, answer: answer_of(r) })
            } else {
                old(self).exchanges()
            }),
            old(self).may_answer(old(self).exchanges(), req@, answer_of(r)),
            forall|past: Seq<Exchange>, request: RequestView, answer: Result<Seq<char>, Seq<char>>|
                #[trigger]
                final(self).may_answer(past, request, answer) == old(self).may_answer(
                    past,
                    request,
                    answer,
                ),
    ;
}

/// Stand-in backend for development: repeats the last user message.
#[derive(Debug)]
pub struct MockBackend;

/// The content of the last user message, or nothing.
pub open spec fn last_user_content(messages: Seq<MessageView>) -> Seq<char>
    decreases messages.len(),
{
    if messages.len() == 0 {
        Seq::empty()
    } else if messages.last().role == Role::User {
        messages.last().content
    } else {
        last_user_content(messages.drop_last())
    }
}

/// What the mock backend answers.
pub open spec fn mock_answer(messages: Seq<MessageView>) -> Seq<char> {
    "[mock] you asked: "@ + trimmed(last_user_content(messages))
}

impl Backend for MockBackend {
    open spec fn may_answer(
        &self,
        past: Seq<Exchange>,
        request: RequestView,
        answer: Result<Seq<char>, Seq<char>>,
    ) -> bool {
        answer == Ok::<Seq<char>, Seq<char>>(mock_answer(request.messages))
    }

    fn name(&self) -> (r: &'static str)
        ensures
            r@ == "mock"@,
    {
        "mock"
    }

    fn complete(&mut self, req: CompletionRequest) -> (r: Result<CompletionResponse, BackendError>)
        ensures
            r is Ok,
            r->Ok_0.text@ == mock_answer(req@.messages),
    {
        let ghost views = message_views(req.messages@);
        let mut n: usize = req.messages.len();
        let mut last = String::new();
        assert(views.take(n as int) == views);
        while n > 0 && req.messages[n - 1].role != Role::User
            invariant
                n <= req.messages@.len(),
                views == message_views(req.messages@),
                last_user_content(views.take(n as int)) == last_user_content(views),
            decreases n,
        {
            assert(views.take(n as int).last() == req.messages@[n - 1]@);
            assert(views.take(n as int).drop_last() == views.take(n - 1));
            n -= 1;
        }
        if n > 0 {
            assert(views.take(n as int).last() == req.messages@[n - 1]@);
            last = req.messages[n - 1].content.clone();
        }
        let t = trim(last.as_str());
        Ok(CompletionResponse { text: concat2("[mock] you asked: ", t.as_str()) })
    }
}

/// What a backend without answers left says.
pub const OUT_OF_RESPONSES: &'static str = "ScriptedBackend ran out of responses";

/// Backend for tests: answers with prepared texts, in order, and remembers
/// every request.
pub struct ScriptedBackend {
    responses: Vec<String>,
    calls: Vec<CompletionRequest>,
    answers: Ghost<Map<int, Result<Seq<char>, Seq<char>>>>,
}

impl ScriptedBackend {
    /// The answers that are left.
    pub closed spec fn remaining(&self) -> Seq<Seq<char>> {
        texts(self.responses@)
    }

    /// The requests so far.
    pub closed spec fn history(&self) -> Seq<CompletionRequest> {
        self.calls@
    }

    /// What the request at `i` was answered.
    pub closed spec fn answered(&self, i: int) -> Result<Seq<char>, Seq<char>> {
        self.answers@[i]
    }

    /// What the request at `i` was or will be answered.
    pub open spec fn script(&self, i: int) -> Result<Seq<char>, Seq<char>> {
        let next = self.history().len();
        if i < next {
            self.answered(i)
        } else if i < next + self.remaining().len() {
            Ok(self.remaining()[i - next])
        } else {
            Err(OUT_OF_RESPONSES@)
        }
    }

    /// A backend that will answer with `responses`.
    pub fn new(responses: Vec<String>) -> (r: Self)
        ensures
            r.remaining() == texts(responses@),
            r.history() == Seq::<CompletionRequest>::empty(),
    {
        ScriptedBackend { responses, calls: Vec::new(), answers: Ghost(Map::empty()) }
    }

    /// The requests so far, oldest first.
    pub fn calls(&self) -> (r: &Vec<CompletionRequest>)
        ensures
            r@ == self.history(),
    {
        &self.calls
    }
}

impl Backend for ScriptedBackend {
    open spec fn remembers(&self) -> bool {
        true
    }

    open spec fn exchanges(&self) -> Seq<Exchange> {
        Seq::new(
            self.history().len(),
            |i: int| Exchange { request: self.history()[i]@, answer: self.answered(i) },
        )
    }

    open spec fn may_answer(
        &self,
        past: Seq<Exchange>,
        request: RequestView,
        answer: Result<Seq<char>, Seq<char>>,
    ) -> bool {
        answer == self.script(past.len() as int)
    }

    fn name(&self) -> (r: &'static str)
        ensures
            r@ == "scripted"@,
    {
        "scripted"
    }

    fn complete(&mut self, req: CompletionRequest) -> (r: Result<CompletionResponse, BackendError>)
        ensures
            final(self).history() == old(self).history().push(req),
            r is Ok == (old(self).remaining().len() > 0),
            r matches Ok(a) ==> a.text@ == old(self).remaining().first() && final(self).remaining()
                == old(self).remaining().drop_first(),
            r matches Err(e) ==> e.message@ == OUT_OF_RESPONSES@
                && final(self).remaining() == old(self).remaining(),
    {
        let ghost n = self.calls@.len();
        let ghost answer = self.script(n as int);
        self.calls.push(req);
        self.answers = Ghost(self.answers@.insert(n as int, answer));
        let r = if self.responses.len() == 0 {
            Err(BackendError { message: OUT_OF_RESPONSES.to_string() })
        } else {
            let text = self.responses.remove(0);
            assert(texts(self.responses@) == texts(old(self).responses@).drop_first());
            Ok(CompletionResponse { text })
        };
        assert(self.exchanges() == old(self).exchanges().push(Exchange { request: req@, answer }));
        assert forall|i: int| 0 <= i implies #[trigger] self.script(i) == old(self).script(i) by {
        }
        r
    }
}

/// Opens a block of reasoning.
pub open spec fn think_open() -> Seq<char> {
    "<think>"@
}

/// Closes a block of reasoning.
pub open spec fn think_close() -> Seq<char> {
    "</think>"@
}

/// What is left of `s` without its reasoning. The first closing tag ends what
/// the first opening tag before it began, and the text closes over that; a
/// closing tag without an opening tag before it is dropped. What follows is
/// read in the same way.
pub open spec fn spoken(s: Seq<char>) -> Seq<char>
    decreases s.len(),
    via spoken_shrinks
{
    match (index_of(s, think_open()), index_of(s, think_close())) {
        (_, None) => s,
        (Some(a), Some(b)) => if a < b {
            spoken(s.take(a) + s.skip(b + think_close().len()))
        } else {
            s.take(b) + spoken(s.skip(b + think_close().len()))
        },
        (None, Some(b)) => s.take(b) + spoken(s.skip(b + think_close().len())),
    }
}

#[via_fn]
proof fn spoken_shrinks(s: Seq<char>) {
    reveal_strlit("</think>");
    index_from_is_first(s, think_open(), 0);
    index_from_is_first(s, think_close(), 0);
}

/// `s` without reasoning, and without white space around what is left.
pub open spec fn without_thinking(s: Seq<char>) -> Seq<char> {
    trimmed(spoken(s))
}

/// Strips `<think>...</think>` blocks and orphaned `</think>` tags.
pub fn strip_thinking(s: &str) -> (out: String)
    ensures
        out@ == without_thinking(s@),
{
    let open = chars_of("<think>");
    let close = chars_of("</think>");
    proof {
        reveal_strlit("</think>");
        reveal_strlit("<think>");
    }
    let mut out: Vec<char> = Vec::new();
    let mut rest = chars_of(s);
    assert(out@ + spoken(rest@) == spoken(s@));
    loop
        invariant
            open@ == think_open(),
            close@ == think_close(),
            close@.len() == 8,
            out@ + spoken(rest@) == spoken(s@),
        ensures
            out@ + rest@ == spoken(s@),
        decreases rest@.len(),
    {
        let len = rest.len();
        let b = match find(rest.as_slice(), close.as_slice()) {
            Some(b) => b,
            None => {
                break ;
            },
        };
        let behind = b + close.len();
        let ghost before = rest@;
        let ghost written = out@;
        let mut next: Vec<char> = Vec::new();
        match find(rest.as_slice(), open.as_slice()) {
            Some(a) if a < b => {
                append_all(&mut next, slice_subrange(rest.as_slice(), 0, a));
                append_all(&mut next, slice_subrange(rest.as_slice(), behind, len));
                assert(next@ == before.take(a as int) + before.skip(behind as int));
            },
            _ => {
                append_all(&mut out, slice_subrange(rest.as_slice(), 0, b));
                append_all(&mut next, slice_subrange(rest.as_slice(), behind, len));
                assert(next@ == before.skip(behind as int));
                assert(out@ == written + before.take(b as int));
                assert(out@ + spoken(next@) == written + (before.take(b as int) + spoken(next@)));
            },
        }
        rest = next;
    }
    append_all(&mut out, rest.as_slice());
    string_of(trim_chars(out.as_slice()))
}

proof fn tags_stand_apart()
    ensures
        think_open().len() == 7,
        think_close().len() == 8,
        forall|k: int| 0 < k < 7 ==> #[trigger] think_open()[k] != '<',
        forall|k: int| 0 < k < 8 ==> #[trigger] think_close()[k] != '<',
        think_open()[0] == '<',
        think_close()[0] == '<',
        think_open()[1] != think_close()[1],
{
    reveal_strlit("<think>");
    reveal_strlit("</think>");
}

/// Text without a closing tag is only trimmed.
pub proof fn plain_text_is_trimmed(s: Seq<char>)
    requires
        !contains(s, think_close()),
    ensures
        without_thinking(s) == trimmed(s),
{
    tags_stand_apart();
    index_of_none_iff_absent(s, think_close());
}

/// The first block of reasoning is cut out, and the text closes over it.
pub proof fn block_is_cut(a: Seq<char>, b: Seq<char>, c: Seq<char>)
    requires
        !contains(a, think_open()),
        !contains(a, think_close()),
        !contains(b, think_close()),
    ensures
        spoken(a + think_open() + b + think_close() + c) == spoken(a + c),
{
    tags_stand_apart();
    let open = think_open();
    let close = think_close();
    let s = a + open + b + close + c;
    let head = a + open + b;
    assert(s == a + open + (b + close + c));
    cut_behind(a, open, b + close + c);
    index_from_is_first(s, open, 0);
    assert(!contains(head, close)) by {
        if contains(head, close) {
            let i = choose|i: int| occurs_at(head, close, i);
            let n = a.len() as int;
            assert(head.subrange(i, i + 8)[0] == head[i]);
            assert(head.subrange(i, i + 8)[1] == head[i + 1]);
            if i + 8 <= n {
                assert(a.subrange(i, i + 8) == head.subrange(i, i + 8));
                assert(occurs_at(a, close, i));
            } else if i < n {
                assert(head.subrange(i, i + 8)[n - i] == head[n]);
            } else if i < n + 7 {
                if i == n {
                    assert(head[n + 1] == open[1]);
                } else {
                    assert(head[i] == open[i - n]);
                }
            } else {
                assert(b.subrange(i - n - 7, i - n - 7 + 8) == head.subrange(i, i + 8));
                assert(occurs_at(b, close, i - n - 7));
            }
        }
    }
    assert(s == head + close + c);
    cut_behind(head, close, c);
    index_from_is_first(s, close, 0);
    let i = index_of(s, open)->Some_0;
    let j = index_of(s, close)->Some_0;
    assert(s.take(i).len() == a.len());
    assert(s.take(j).len() == head.len());
    assert(s.take(i) + s.skip(j + 8) == a + c);
}

/// A closing tag that closes nothing is dropped, and what follows it is read
/// as if nothing stood before it.
pub proof fn stray_closer_is_dropped(a: Seq<char>, c: Seq<char>)
    requires
        !contains(a, think_open()),
        !contains(a, think_close()),
    ensures
        spoken(a + think_close() + c) == a + spoken(c),
{
    tags_stand_apart();
    let open = think_open();
    let close = think_close();
    let s = a + close + c;
    let n = a.len() as int;
    cut_behind(a, close, c);
    index_from_is_first(s, close, 0);
    let j = index_of(s, close)->Some_0;
    assert(s.take(j).len() == n);
    index_from_is_first(s, open, 0);
    if let Some(i) = index_of(s, open) {
        assert(s.subrange(i, i + 7)[0] == s[i]);
        assert(s.subrange(i, i + 7)[1] == s[i + 1]);
        if i + 7 <= n {
            assert(a.subrange(i, i + 7) == s.subrange(i, i + 7));
            assert(occurs_at(a, open, i));
        } else if i < n {
            assert(s.subrange(i, i + 7)[n - i] == s[n]);
        } else if i == n {
            assert(s[n + 1] == close[1]);
        }
    }
    assert(s.skip(n + 8) == c);
    assert(s.take(n) == a);
}

/// Whether every `<` of a text begins a tag.
pub open spec fn only_tags(s: Seq<char>) -> bool {
    forall|i: int|
        0 <= i < s.len() && #[trigger] s[i] == '<' ==> occurs_at(s, think_open(), i) || occurs_at(
            s,
            think_close(),
            i,
        )
}

/// Whether a text leaves a block of reasoning open: an opening tag stands
/// behind its last closing tag.
pub open spec fn left_open(s: Seq<char>) -> bool {
    exists|i: int| #[trigger]
        occurs_at(s, think_open(), i) && forall|j: int|
            i <= j ==> !occurs_at(s, think_close(), j)
}

proof fn tail_of_tags(s: Seq<char>, head: Seq<char>, n: int)
    requires
        0 <= n <= s.len(),
        only_tags(s),
        !head.contains('<'),
    ensures
        only_tags(head + s.skip(n)),
        left_open(head + s.skip(n)) ==> left_open(s),
{
    tags_stand_apart();
    let rest = s.skip(n);
    let t = head + rest;
    let d = n - head.len();
    assert forall|i: int, pat: Seq<char>|
        head.len() <= i && pat.len() > 0 implies occurs_at(t, pat, i) == #[trigger] occurs_at(
        s,
        pat,
        i + d,
    ) by {
        if i + pat.len() <= t.len() {
            assert(t.subrange(i, i + pat.len()) == s.subrange(i + d, i + d + pat.len()));
        }
    }
    assert forall|i: int| 0 <= i < t.len() && #[trigger] t[i] == '<' implies occurs_at(
        t,
        think_open(),
        i,
    ) || occurs_at(t, think_close(), i) by {
        if i < head.len() {
            assert(head[i] == '<');
        } else {
            assert(s[i + d] == '<');
            assert(occurs_at(s, think_open(), i + d) || occurs_at(s, think_close(), i + d));
        }
    }
    if left_open(t) {
        let i = choose|i: int| #[trigger]
            occurs_at(t, think_open(), i) && forall|j: int|
                i <= j ==> !occurs_at(t, think_close(), j);
        assert(t.subrange(i, i + 7)[0] == t[i]);
        if i < head.len() {
            assert(head[i] == '<');
        }
        assert(occurs_at(s, think_open(), i + d));
        assert forall|j: int| i + d <= j implies !occurs_at(s, think_close(), j) by {
            assert(occurs_at(t, think_close(), j - d) == occurs_at(s, think_close(), j - d + d));
        }
    }
}

/// Of a text in which `<` only begins tags, no closing tag is left, and no
/// opening tag but of a block that is never closed.
pub proof fn no_tag_is_left(s: Seq<char>)
    requires
        only_tags(s),
    ensures
        !contains(spoken(s), think_close()),
        contains(spoken(s), think_open()) ==> left_open(s),
    decreases s.len(),
{
    let open = think_open();
    let close = think_close();
    tags_stand_apart();
    index_from_is_first(s, open, 0);
    index_from_is_first(s, close, 0);
    match index_of(s, close) {
        None => {
            if contains(s, open) {
                let i = choose|i: int| occurs_at(s, open, i);
                assert(left_open(s));
            }
        },
        Some(b) => {
            let a = match index_of(s, open) {
                Some(a) => if a < b {
                    a
                } else {
                    b
                },
                None => b,
            };
            let head = s.take(a);
            assert(!head.contains('<')) by {
                if head.contains('<') {
                    let i = choose|i: int| 0 <= i < head.len() && head[i] == '<';
                    assert(s[i] == '<');
                }
            }
            if a < b {
                tail_of_tags(s, head, b + 8);
                no_tag_is_left(head + s.skip(b + 8));
            } else {
                let rest = s.skip(b + 8);
                tail_of_tags(s, Seq::empty(), b + 8);
                assert(Seq::<char>::empty() + rest == rest);
                no_tag_is_left(rest);
                if contains(head + spoken(rest), open) {
                    tag_stands_behind(head, spoken(rest), open);
                }
                if contains(head + spoken(rest), close) {
                    tag_stands_behind(head, spoken(rest), close);
                }
            }
        },
    }
}

proof fn tag_stands_behind(head: Seq<char>, rest: Seq<char>, tag: Seq<char>)
    requires
        !head.contains('<'),
        tag.len() > 0,
        tag[0] == '<',
        contains(head + rest, tag),
    ensures
        contains(rest, tag),
{
    let s = head + rest;
    let i = choose|i: int| occurs_at(s, tag, i);
    let n = head.len() as int;
    assert(s.subrange(i, i + tag.len())[0] == s[i]);
    if i < n {
        assert(head[i] == '<');
    }
    assert(rest.subrange(i - n, i - n + tag.len()) == s.subrange(i, i + tag.len()));
    assert(occurs_at(rest, tag, i - n));
}

/// What a role is called on the wire and in prompts.
pub open spec fn role_word(role: Role) -> Seq<char> {
    match role {
        Role::System => "system"@,
        Role::User => "user"@,
        Role::Assistant => "assistant"@,
        Role::Tool => "tool"@,
    }
}

/// What a role is called on the wire and in prompts.
pub fn role_name(role: Role) -> (r: &'static str)
    ensures
        r@ == role_word(role),
{
    match role {
        Role::System => "system",
        Role::User => "user",
        Role::Assistant => "assistant",
        Role::Tool => "tool",
    }
}

/// Backend that asks an OpenAI-compatible chat-completions service.
#[derive(Debug)]
pub struct OpenAICompatBackend {
    pub base_url: String,
    pub model: String,
    pub api_key: Option<String>,
}

/// A message as the service expects it.
pub open spec fn wire_message(m: MessageView) -> JsonView {
    JsonView::Object(
        Map::empty().insert("role"@, JsonView::Text(role_word(m.role))).insert(
            "content"@,
            JsonView::Text(m.content),
        ),
    )
}

/// A request as the service expects it.
pub open spec fn wire_request(model: Seq<char>, req: RequestView) -> JsonView {
    JsonView::Object(
        Map::empty().insert("model"@, JsonView::Text(model)).insert(
            "messages"@,
            JsonView::Array(req.messages.map_values(|m: MessageView| wire_message(m))),
        ).insert("max_tokens"@, json_int(req.max_tokens as int)).insert(
            "stream"@,
            JsonView::Bool(false),
        ),
    )
}

/// The answer's text within the service's reply.
pub open spec fn wire_answer(reply: JsonView) -> Option<Seq<char>> {
    match reply.get("choices"@) {
        Some(choices) => match choices.nth(0) {
            Some(choice) => match choice.get("message"@) {
                Some(message) => message.text_at("content"@),
                None => None,
            },
            None => None,
        },
        None => None,
    }
}

impl OpenAICompatBackend {
    /// A backend for the service at `base_url`; trailing slashes do not count.
    pub fn new(base_url: String, model: String, api_key: Option<String>) -> (r: Self)
        ensures
            r.base_url@ == without_trailing(base_url@, '/'),
            r.model == model,
            r.api_key == api_key,
    {
        let v = chars_of(base_url.as_str());
        OpenAICompatBackend {
            base_url: string_of(drop_trailing(v.as_slice(), '/')),
            model,
            api_key,
        }
    }

    /// A short label of the implementation.
    pub fn name(&self) -> (r: &'static str)
        ensures
            r@ == "openai-compat"@,
    {
        "openai-compat"
    }

    /// Where requests are posted.
    pub fn endpoint(&self) -> (r: String)
        ensures
            r@ == self.base_url@ + "/v1/chat/completions"@,
    {
        concat2(self.base_url.as_str(), "/v1/chat/completions")
    }

    /// The authorization header, for a service that wants a key.
    pub fn authorization(&self) -> (r: Option<String>)
        ensures
            opt_text(r) == (match self.api_key {
                Some(k) => Some("Bearer "@ + k@),
                None => None,
            }),
    {
        match &self.api_key {
            Some(k) => Some(concat2("Bearer ", k.as_str())),
            None => None,
        }
    }

    /// The body of the request.
    pub fn request_body(&self, req: &CompletionRequest) -> (r: Json)
        ensures
            r@ == wire_request(self.model@, req@),
    {
        broadcast use json_view_of_parts;

        let ghost want = req@.messages.map_values(|m: MessageView| wire_message(m));
        let mut items: Vec<Json> = Vec::new();
        let mut i: usize = 0;
        while i < req.messages.len()
            invariant
                i <= req.messages@.len(),
                want == req@.messages.map_values(|m: MessageView| wire_message(m)),
                json_views(items@) == want.take(i as int),
            decreases req.messages@.len() - i,
        {
            let ghost before = items@;
            let m = &req.messages[i];
            let item = ObjectBuilder::new().with("role", Json::text(role_name(m.role))).with(
                "content",
                Json::text(m.content.as_str()),
            ).build();
            items.push(item);
            assert(req@.messages[i as int] == m@);
            assert(json_views(items@) == json_views(before).push(wire_message(m@)));
            i += 1;
            assert(json_views(items@) == want.take(i as int));
        }
        assert(want.take(want.len() as int) == want);
        ObjectBuilder::new().with("model", Json::text(self.model.as_str())).with(
            "messages",
            Json::Array(items),
        ).with("max_tokens", Json::unsigned(req.max_tokens as u64)).with(
            "stream",
            Json::Bool(false),
        ).build()
    }

    /// Reads the answer out of the service's reply, without its reasoning.
    pub fn read_reply(reply: &Json) -> (r: Result<CompletionResponse, BackendError>)
        ensures
            r is Ok == wire_answer(reply@) is Some,
            r matches Ok(a) ==> a.text@ == without_thinking(wire_answer(reply@)->0),
            r matches Err(e) ==> e.message@ == "unexpected API response shape: "@ + json_render(
                reply@,
            ),
    {
        let content = match reply.get("choices") {
            Some(choices) => match choices.nth(0) {
                Some(choice) => match choice.get("message") {
                    Some(message) => message.get_str("content"),
                    None => None,
                },
                None => None,
            },
            None => None,
        };
        match content {
            Some(text) => Ok(CompletionResponse { text: strip_thinking(text) }),
            None => {
                let shown = reply.render();
                Err(
                    BackendError {
                        message: concat2("unexpected API response shape: ", shown.as_str()),
                    },
                )
            },
        }
    }

    /// Reads the answer out of the body of the service's reply.
    pub fn read_body(body: &[u8]) -> (r: Result<CompletionResponse, BackendError>)
        ensures
            match json_read(body@) {
                Ok(reply) => match wire_answer(reply) {
                    Some(text) => r matches Ok(a) && a.text@ == without_thinking(text),
                    None => r matches Err(e) && e.message@ == "unexpected API response shape: "@
                        + json_render(reply),
                },
                Err(why) => r matches Err(e) && e.message@ == "error decoding response body: "@
                    + why,
            },
    {
        match Json::read(body) {
            Ok(reply) => Self::read_reply(&reply),
            Err(why) => Err(
                BackendError { message: concat2("error decoding response body: ", &why) },
            ),
        }
    }
}

/// Which backend to use, and with what.
#[derive(Debug)]
pub enum BackendKind {
    Mock,
    LlamaCpp {
        model_path: String,
        /// Projection file for vision requests.
        mmproj_path: Option<String>,
        /// CPU threads; 0 takes the physical cores.
        n_threads: u32,
        /// Context window in tokens.
        ctx_size: u32,
        /// GPU layers to offload; 0 stays on the CPU, 99 takes all.
        n_gpu_layers: u32,
        /// Prompt evaluation batch size.
        batch_size: u32,
    },
    OpenAICompat { url: String, model: String, api_key: Option<String> },
}

/// A backend that is ready to be used or loaded.
#[derive(Debug)]
pub enum AnyBackend {
    Mock(MockBackend),
    OpenAICompat(OpenAICompatBackend),
    LlamaCpp(LlamaCppBackend),
}

/// Prepares the backend that `kind` describes. `physical_cores` is the host's
/// count; `model_exists` says whether the model file of a local backend is there.
pub fn from_kind(kind: BackendKind, physical_cores: u32, model_exists: bool) -> (r: Result<
    AnyBackend,
    BackendError,
>)
    ensures
        kind matches BackendKind::Mock ==> r == Ok::<AnyBackend, BackendError>(
            AnyBackend::Mock(MockBackend),
        ),
        kind matches BackendKind::OpenAICompat { url, model, api_key } ==> (r matches Ok(
            AnyBackend::OpenAICompat(b),
        ) && b.base_url@ == without_trailing(url@, '/') && b.model == model && b.api_key
            == api_key),
        kind matches BackendKind::LlamaCpp {
            model_path,
            mmproj_path,
            n_threads,
            ctx_size,
            n_gpu_layers,
            batch_size,
        } ==> (r is Ok == model_exists) && (model_exists ==> (r matches Ok(AnyBackend::LlamaCpp(b))
            && b.model_path == model_path && b.mmproj_path == mmproj_path && b.n_threads
            == resolved_threads(n_threads as int, physical_cores as int) && b.ctx_size
            == resolved_ctx(ctx_size as int) && b.n_gpu_layers == n_gpu_layers && b.batch_size == (
        if batch_size == 0 {
            1
        } else {
            batch_size as int
        }))) && (!model_exists ==> r->Err_0.message@ == "model file does not exist: "@
            + model_path@),
{
    match kind {
        BackendKind::Mock => Ok(AnyBackend::Mock(MockBackend)),
        BackendKind::OpenAICompat { url, model, api_key } => Ok(
            AnyBackend::OpenAICompat(OpenAICompatBackend::new(url, model, api_key)),
        ),
        BackendKind::LlamaCpp {
            model_path,
            mmproj_path,
            n_threads,
            ctx_size,
            n_gpu_layers,
            batch_size,
        } => match LlamaCppBackend::new_with_mmproj(
            model_path,
            mmproj_path,
            n_threads,
            ctx_size,
            n_gpu_layers,
            batch_size as usize,
            physical_cores,
            model_exists,
        ) {
            Ok(b) => Ok(AnyBackend::LlamaCpp(b)),
            Err(e) => Err(e),
        },
    }
}

/// Messages and requests are seen item by item, in order.
pub proof fn requests_are_seen_whole(req: CompletionRequest, messages: Seq<ChatMessage>)
    ensures
        message_views(messages).len() == messages.len(),
        forall|i: int|
            0 <= i < messages.len() ==> (#[trigger] message_views(messages)[i]).role
                == messages[i].role && message_views(messages)[i].content == messages[i].content@,
        req@.messages == message_views(req.messages@),
        req@.max_tokens == req.max_tokens,
        req@.images.len() == req.images@.len(),
        forall|i: int| 0 <= i < req.images@.len() ==> #[trigger] req@.images[i] == req.images@[i]@,
{
}

/// An answer is seen by its text, and a failure by what it says.
pub proof fn answers_are_seen_whole(a: CompletionResponse, e: BackendError)
    ensures
        answer_of(Ok(a)) == Ok::<Seq<char>, Seq<char>>(a.text@),
        answer_of(Err(e)) == Err::<Seq<char>, Seq<char>>(e.message@),
{
}

/// The stand-in repeats the last message of the user, whatever follows it, and
/// nothing where there is none.
pub proof fn mock_repeats_the_last_question(
    before: Seq<MessageView>,
    m: MessageView,
    after: Seq<MessageView>,
)
    requires
        m.role == Role::User,
        forall|i: int| 0 <= i < after.len() ==> (#[trigger] after[i]).role != Role::User,
    ensures
        mock_answer(before.push(m) + after) == "[mock] you asked: "@ + trimmed(m.content),
        last_user_content(after) == Seq::<char>::empty(),
        mock_answer(after) == "[mock] you asked: "@ + trimmed(Seq::empty()),
    decreases after.len(),
{
    let all = before.push(m) + after;
    if after.len() > 0 {
        assert(after[after.len() - 1] == after.last());
        mock_repeats_the_last_question(before, m, after.drop_last());
        assert(all.last() == after.last());
        assert(all.drop_last() == before.push(m) + after.drop_last());
        assert("[mock] you asked: "@ + trimmed(last_user_content(all.drop_last()))
            == "[mock] you asked: "@ + trimmed(m.content));
    } else {
        assert(all == before.push(m));
    }
}

/// What a model thinks is not shown: the first block of reasoning goes, tags
/// and all, and what is left is trimmed.
pub proof fn reasoning_is_not_shown(a: Seq<char>, b: Seq<char>, c: Seq<char>)
    requires
        !contains(a, "<think>"@),
        !contains(a, "</think>"@),
        !contains(b, "</think>"@),
    ensures
        without_thinking(a + "<think>"@ + b + "</think>"@ + c) == without_thinking(a + c),
        !contains(a + c, "</think>"@) ==> without_thinking(a + "<think>"@ + b + "</think>"@ + c)
            == trimmed(a + c),
        !contains(c, "</think>"@) ==> without_thinking(a + "</think>"@ + c) == trimmed(a + c),
{
    block_is_cut(a, b, c);
    stray_closer_is_dropped(a, c);
    if !contains(a + c, "</think>"@) {
        plain_text_is_trimmed(a + c);
    }
    if !contains(c, "</think>"@) {
        index_of_none_iff_absent(c, think_close());
        assert(spoken(c) == c);
    }
}

/// The service is sent the model's name, every message in order with its role
/// and its whole content, and how long the answer may be; it is to answer in
/// one piece.
pub proof fn request_is_sent_whole(model: Seq<char>, req: RequestView)
    ensures
        ({
            let body = wire_request(model, req);
            &&& body.text_at("model"@) == Some(model)
            &&& body.get("max_tokens"@) == Some(
                JsonView::Number(crate::json::NumberView::Integer(req.max_tokens as int)),
            )
            &&& body.truth_at("stream"@) == Some(false)
            &&& body.get("messages"@) matches Some(JsonView::Array(items))
            &&& items.len() == req.messages.len()
            &&& forall|i: int|
                #![trigger items[i]]
                0 <= i < items.len() ==> items[i].text_at("content"@) == Some(
                    req.messages[i].content,
                ) && items[i].text_at("role"@) == Some(
                    match req.messages[i].role {
                        Role::System => "system"@,
                        Role::User => "user"@,
                        Role::Assistant => "assistant"@,
                        Role::Tool => "tool"@,
                    },
                )
        }),
{
    reveal_strlit("model");
    reveal_strlit("max_tokens");
    reveal_strlit("stream");
    reveal_strlit("messages");
    reveal_strlit("role");
    reveal_strlit("content");
    assert("model"@.len() == 5 && "max_tokens"@.len() == 10 && "stream"@.len() == 6
        && "messages"@.len() == 8);
    assert("role"@.len() == 4 && "content"@.len() == 7);
    let body = wire_request(model, req);
    assert(body.get("messages"@) is Some);
    let items = body.get("messages"@)->0->Array_0;
    assert forall|i: int|
        #![trigger items[i]]
        0 <= i < items.len() implies items[i].text_at("content"@) == Some(
        req.messages[i].content,
    ) && items[i].text_at("role"@) == Some(role_word(req.messages[i].role)) by {
        assert(items[i] == wire_message(req.messages[i]));
    }
}

/// The answer is the content of the message of the first choice, and there is
/// one exactly where each of these is there.
pub proof fn first_choice_is_the_answer(
    reply: JsonView,
    choices: JsonView,
    choice: JsonView,
    message: JsonView,
)
    requires
        reply.get("choices"@) == Some(choices),
        choices.nth(0) == Some(choice),
        choice.get("message"@) == Some(message),
    ensures
        wire_answer(reply) == message.text_at("content"@),
{
}

/// Without a choice, or without a message in it, there is no answer.
pub proof fn no_choice_no_answer(reply: JsonView)
    ensures
        reply.get("choices"@) is None ==> wire_answer(reply) is None,
        reply.get("choices"@) matches Some(choices) ==> (choices.nth(0) is None ==> wire_answer(
            reply,
        ) is None),
        reply.get("choices"@) matches Some(choices) ==> (choices.nth(0) matches Some(choice) ==> (
        choice.get("message"@) is None ==> wire_answer(reply) is None)),
{
}

} // verus!
