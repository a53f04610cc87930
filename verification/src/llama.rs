//! The local llama.cpp backend: its settings, its prompt template, and the
//! decisions of prompt evaluation and sampling.
use vstd::prelude::*;
use vstd::slice::slice_subrange;

use crate::backend::{
    message_views, role_name, role_word, BackendError, ChatMessage, CompletionRequest, MessageView,
    RequestView, Role,
};
use crate::decimal::{numeral, show};
use crate::search::{
    contains, find, index_from_is_first, index_of, index_of_none_iff_absent, occurs_at,
};
use crate::text::{
    chars_of, concat2, is_white_space, only_white_space_is_trimmed_behind, string_of, trim,
    trim_end, trimmed, trimmed_end, trimmed_within,
};

verus! {

/// The 32-bit signed integer with the low 32 bits of `n`.
pub open spec fn wrapped_i32(n: int) -> int {
    let low = n % 0x1_0000_0000;
    if low < 0x8000_0000 {
        low
    } else {
        low - 0x1_0000_0000
    }
}

/// Keeps the low 32 bits of `n` as a signed integer.
pub fn wrap_i32(n: u64) -> (r: i32)
    ensures
        r == wrapped_i32(n as int),
{
    let low = n % 0x1_0000_0000;
    if low < 0x8000_0000 {
        low as i32
    } else {
        (low as i64 - 0x1_0000_0000) as i32
    }
}

/// The thread count to use: the configured one, or the physical cores for 0.
pub open spec fn resolved_threads(n_threads: int, physical_cores: int) -> int {
    wrapped_i32(
        if n_threads == 0 {
            physical_cores
        } else {
            n_threads
        },
    )
}

/// The context window to use: the configured one, or 4096 for 0.
pub open spec fn resolved_ctx(ctx_size: int) -> int {
    if ctx_size == 0 {
        4096
    } else {
        ctx_size
    }
}

/// What a local model is loaded with.
#[derive(Debug)]
pub struct LlamaCppBackend {
    pub model_path: String,
    pub mmproj_path: Option<String>,
    /// Threads, resolved.
    pub n_threads: i32,
    /// Context window in tokens, never 0.
    pub ctx_size: u32,
    pub n_gpu_layers: u32,
    /// Prompt evaluation batch size, never 0.
    pub batch_size: usize,
}

impl LlamaCppBackend {
    /// A short label.
    pub fn name(&self) -> (r: &'static str)
        ensures
            r@ == "llama.cpp"@,
    {
        "llama.cpp"
    }

    /// Settings for a model file with the usual parameters.
    pub fn new(model_path: String, physical_cores: u32, model_exists: bool) -> (r: Result<
        Self,
        BackendError,
    >)
        ensures
            r is Ok == model_exists,
            r matches Ok(b) ==> b.model_path == model_path && b.mmproj_path is None && b.n_threads
                == resolved_threads(0, physical_cores as int) && b.ctx_size == 4096
                && b.n_gpu_layers == 0 && b.batch_size == 512,
            r matches Err(e) ==> e.message@ == "model file does not exist: "@ + model_path@,
    {
        Self::new_with_mmproj(model_path, None, 0, 4096, 0, 512, physical_cores, model_exists)
    }

    /// Settings for a model file. `n_threads` 0 takes the physical cores,
    /// `ctx_size` 0 falls back to 4096, `n_gpu_layers` 0 stays on the CPU.
    pub fn new_with_mmproj(
        model_path: String,
        mmproj_path: Option<String>,
        n_threads: u32,
        ctx_size: u32,
        n_gpu_layers: u32,
        batch_size: usize,
        physical_cores: u32,
        model_exists: bool,
    ) -> (r: Result<Self, BackendError>)
        ensures
            r is Ok == model_exists,
            r matches Ok(b) ==> b.model_path == model_path && b.mmproj_path == mmproj_path
                && b.n_threads == resolved_threads(n_threads as int, physical_cores as int)
                && b.ctx_size == resolved_ctx(ctx_size as int) && b.n_gpu_layers == n_gpu_layers
                && b.batch_size == (if batch_size == 0 {
                1
            } else {
                batch_size as int
            }),
            r matches Err(e) ==> e.message@ == "model file does not exist: "@ + model_path@,
    {
        if !model_exists {
            return Err(
                BackendError {
                    message: concat2("model file does not exist: ", model_path.as_str()),
                },
            );
        }
        let threads = if n_threads == 0 {
            wrap_i32(physical_cores as u64)
        } else {
            wrap_i32(n_threads as u64)
        };
        let ctx = if ctx_size == 0 {
            4096
        } else {
            ctx_size
        };
        let batch = if batch_size == 0 {
            1
        } else {
            batch_size
        };
        Ok(
            LlamaCppBackend {
                model_path,
                mmproj_path,
                n_threads: threads,
                ctx_size: ctx,
                n_gpu_layers,
                batch_size: batch,
            },
        )
    }
}

/// Opens a turn of the conversation.
pub open spec fn turn_open() -> Seq<char> {
    "<|im_start|>"@
}

/// Closes a turn of the conversation.
pub open spec fn turn_close() -> Seq<char> {
    "<|im_end|>"@
}

/// Opens the assistant's turn with an empty block of reasoning, so that the
/// model answers without one.
pub open spec fn answer_open() -> Seq<char> {
    "<|im_start|>assistant\n<think>\n\n</think>\n\n"@
}

/// One turn; `marks` follows its content.
pub open spec fn chatml_turn(m: MessageView, marks: Seq<char>) -> Seq<char> {
    turn_open() + role_word(m.role) + "\n"@ + trimmed_end(m.content) + marks + "<|im_end|>\n"@
}

/// The turns of a conversation; `marks` stands in the one at `at`.
pub open spec fn chatml_turns(messages: Seq<MessageView>, at: int, marks: Seq<char>) -> Seq<char>
    decreases messages.len(),
{
    if messages.len() == 0 {
        Seq::empty()
    } else {
        chatml_turns(messages.drop_last(), at, marks) + chatml_turn(
            messages.last(),
            if messages.len() - 1 == at {
                marks
            } else {
                Seq::empty()
            },
        )
    }
}

/// The index of the last user message, or -1.
pub open spec fn last_user_index(messages: Seq<MessageView>) -> int
    decreases messages.len(),
{
    if messages.len() == 0 {
        -1
    } else if messages.last().role == Role::User {
        messages.len() - 1
    } else {
        last_user_index(messages.drop_last())
    }
}

/// `n` image markers, each on a line of its own.
pub open spec fn image_marks(marker: Seq<char>, n: nat) -> Seq<char>
    decreases n,
{
    if n == 0 {
        Seq::empty()
    } else {
        image_marks(marker, (n - 1) as nat).push('\n') + marker
    }
}

/// The prompt for a conversation.
pub open spec fn chatml_prompt(messages: Seq<MessageView>) -> Seq<char> {
    chatml_turns(messages, -1, Seq::empty()) + answer_open()
}

/// The prompt for a conversation with `n` images attached to the last user
/// message.
pub open spec fn chatml_image_prompt(
    messages: Seq<MessageView>,
    marker: Seq<char>,
    n: nat,
) -> Seq<char> {
    chatml_turns(messages, last_user_index(messages), image_marks(marker, n)) + answer_open()
}

fn append_turn(out: &mut String, m: &ChatMessage, marks: &str)
    ensures
        final(out)@ == old(out)@ + chatml_turn(m@, marks@),
{
    let ghost start = out@;
    out.append("<|im_start|>");
    out.append(role_name(m.role));
    out.append("\n");
    let body = trim_end(m.content.as_str());
    out.append(body.as_str());
    out.append(marks);
    out.append("<|im_end|>\n");
    assert(out@ == start + chatml_turn(m@, marks@));
}

fn render_turns(messages: &Vec<ChatMessage>, at: Option<usize>, marks: &str) -> (out: String)
    ensures
        out@ == chatml_turns(
            message_views(messages@),
            match at {
                Some(i) => i as int,
                None => -1,
            },
            marks@,
        ),
{
    let ghost views = message_views(messages@);
    let ghost spot = match at {
        Some(i) => i as int,
        None => -1,
    };
    let mut out = String::new();
    let mut i: usize = 0;
    assert(chatml_turns(views.take(0), spot, marks@) == Seq::<char>::empty());
    while i < messages.len()
        invariant
            i <= messages@.len(),
            views == message_views(messages@),
            spot == (match at {
                Some(i) => i as int,
                None => -1,
            }),
            out@ == chatml_turns(views.take(i as int), spot, marks@),
        decreases messages@.len() - i,
    {
        let here = match at {
            Some(k) => k == i,
            None => false,
        };
        let extra = if here {
            marks
        } else {
            ""
        };
        proof {
            reveal_strlit("");
            assert(""@ == Seq::<char>::empty());
            let next = views.take(i as int + 1);
            assert(next.drop_last() == views.take(i as int));
            assert(next.last() == messages@[i as int]@);
        }
        append_turn(&mut out, &messages[i], extra);
        i += 1;
    }
    assert(views.take(views.len() as int) == views);
    out
}

/// Renders a conversation in ChatML.
pub fn render_chatml(messages: &Vec<ChatMessage>) -> (out: String)
    ensures
        out@ == chatml_prompt(message_views(messages@)),
{
    proof {
        reveal_strlit("");
        assert(""@ == Seq::<char>::empty());
    }
    let mut out = render_turns(messages, None, "");
    out.append("<|im_start|>assistant\n<think>\n\n</think>\n\n");
    out
}

/// Renders a conversation in ChatML with one `marker` per image on the last
/// user message.
pub fn render_chatml_with_images(
    messages: &Vec<ChatMessage>,
    n_images: usize,
    marker: &str,
) -> (out: String)
    ensures
        out@ == chatml_image_prompt(message_views(messages@), marker@, n_images as nat),
{
    let ghost views = message_views(messages@);
    let mut marks = String::new();
    let mut k: usize = 0;
    while k < n_images
        invariant
            k <= n_images,
            marks@ == image_marks(marker@, k as nat),
        decreases n_images - k,
    {
        marks.push('\n');
        marks.append(marker);
        k += 1;
    }
    let mut n: usize = messages.len();
    assert(views.take(n as int) == views);
    while n > 0 && messages[n - 1].role != Role::User
        invariant
            n <= messages@.len(),
            views == message_views(messages@),
            last_user_index(views.take(n as int)) == last_user_index(views),
        decreases n,
    {
        assert(views.take(n as int).last() == messages@[n - 1]@);
        assert(views.take(n as int).drop_last() == views.take(n - 1));
        n -= 1;
    }
    let at: Option<usize> = if n > 0 {
        assert(views.take(n as int).last() == messages@[n - 1]@);
        Some(n - 1)
    } else {
        None
    };
    let mut out = render_turns(messages, at, marks.as_str());
    out.append("<|im_start|>assistant\n<think>\n\n</think>\n\n");
    out
}

/// With no images, the marker changes nothing.
pub proof fn prompt_without_images(messages: Seq<MessageView>, marker: Seq<char>)
    ensures
        chatml_image_prompt(messages, marker, 0) == chatml_prompt(messages),
{
    turns_without_marks(messages, last_user_index(messages));
}

proof fn turns_without_marks(messages: Seq<MessageView>, at: int)
    ensures
        chatml_turns(messages, at, Seq::empty()) == chatml_turns(messages, -1, Seq::empty()),
    decreases messages.len(),
{
    if messages.len() > 0 {
        turns_without_marks(messages.drop_last(), at);
    }
}

/// Why a request cannot be run.
#[derive(Debug)]
pub enum GenerateError {
    /// Prompt and answer do not fit the context window.
    WindowExceeded { needed: u64, window: u32 },
}

impl GenerateError {
    pub open spec fn text(self) -> Seq<char> {
        match self {
            GenerateError::WindowExceeded { needed, window } => "prompt + max_tokens ("@
                + numeral(needed as nat) + ") exceeds context window ("@ + numeral(window as nat)
                + ")"@,
        }
    }

    /// What the user is told.
    pub fn message(&self) -> (r: String)
        ensures
            r@ == self.text(),
    {
        match self {
            GenerateError::WindowExceeded { needed, window } => {
                let a = show(*needed);
                let b = show(*window as u64);
                let mut r = concat2("prompt + max_tokens (", a.as_str());
                r.append(") exceeds context window (");
                r.append(b.as_str());
                r.append(")");
                r
            },
        }
    }
}

/// How many positions behind the prompt the room for the answer ends: what the
/// request allows, but at least sixteen.
pub open spec fn answer_budget(max_tokens: int) -> int {
    let n = wrapped_i32(max_tokens);
    if n < 16 {
        16
    } else {
        n
    }
}

/// How many positions behind the prompt the room for the answer ends.
pub fn token_budget(max_tokens: usize) -> (r: i32)
    ensures
        r == answer_budget(max_tokens as int),
{
    let n = wrap_i32(max_tokens as u64);
    if n < 16 {
        16
    } else {
        n
    }
}

/// A request as a model takes it: images are for a model with a projector,
/// and any other ignores them.
pub open spec fn taken_by(req: RequestView, has_projector: bool) -> RequestView {
    if has_projector {
        req
    } else {
        RequestView { images: Seq::empty(), ..req }
    }
}

/// The request as a model takes it. Without a projector, it is the request
/// without its images.
pub fn usable_request(req: CompletionRequest, has_projector: bool) -> (r: CompletionRequest)
    ensures
        r@ == taken_by(req@, has_projector),
{
    if has_projector {
        req
    } else {
        let r = req.with_images(Vec::new());
        assert(r@.images == Seq::<Seq<char>>::empty());
        r
    }
}

/// The length of the longest common prefix.
pub open spec fn shared_len(a: Seq<i32>, b: Seq<i32>) -> nat
    decreases a.len(),
{
    if a.len() > 0 && b.len() > 0 && a.first() == b.first() {
        1 + shared_len(a.drop_first(), b.drop_first())
    } else {
        0
    }
}

/// How much of the cached prompt is kept: the common prefix, short of the
/// last prompt token, which is always evaluated anew.
pub open spec fn kept_len(cached: Seq<i32>, prompt: Seq<i32>) -> nat {
    let n = shared_len(cached, prompt);
    if n == prompt.len() && n > 0 {
        (n - 1) as nat
    } else {
        n
    }
}

/// One token to evaluate.
#[derive(Debug, Clone, Copy, PartialEq, Eq)]
pub struct BatchToken {
    pub token: i32,
    /// Position in the context.
    pub pos: usize,
    /// Whether its logits are wanted.
    pub logits: bool,
}

/// How a prompt is evaluated on top of what is cached.
#[derive(Debug)]
pub struct PromptPlan {
    /// Cached tokens that stay.
    pub prefix: usize,
    /// Whether cached tokens after the prefix must be dropped.
    pub drop_tail: bool,
    /// What is evaluated.
    pub batch: Vec<BatchToken>,
    /// Room the batch needs.
    pub batch_cap: usize,
}

/// The tokens to evaluate after the first `kept` of `prompt`.
pub open spec fn suffix_batch(prompt: Seq<i32>, kept: int) -> Seq<BatchToken> {
    Seq::new(
        (prompt.len() - kept) as nat,
        |i: int|
            BatchToken {
                token: prompt[kept + i],
                pos: (kept + i) as usize,
                logits: kept + i == prompt.len() - 1,
            },
    )
}

/// Both sequences agree on their common prefix.
pub proof fn shared_len_agrees(a: Seq<i32>, b: Seq<i32>)
    ensures
        shared_len(a, b) <= a.len(),
        shared_len(a, b) <= b.len(),
        a.take(shared_len(a, b) as int) == b.take(shared_len(a, b) as int),
    decreases a.len(),
{
    if a.len() > 0 && b.len() > 0 && a.first() == b.first() {
        let n = shared_len(a.drop_first(), b.drop_first()) as int;
        shared_len_agrees(a.drop_first(), b.drop_first());
        assert forall|i: int| 0 <= i < n + 1 implies #[trigger] a[i] == b[i] by {
            if i > 0 {
                assert(a.drop_first().take(n as int)[i - 1] == b.drop_first().take(n as int)[i
                    - 1]);
            }
        }
        assert(a.take(n + 1) == b.take(n + 1));
    } else {
        assert(a.take(0) == b.take(0));
    }
}

/// The length of the longest common prefix.
fn common_len(a: &Vec<i32>, b: &Vec<i32>) -> (n: usize)
    ensures
        n == shared_len(a@, b@),
        n <= a@.len(),
        n <= b@.len(),
{
    let mut i: usize = 0;
    assert(a@.skip(0) == a@ && b@.skip(0) == b@);
    while i < a.len() && i < b.len() && a[i] == b[i]
        invariant
            i <= a@.len(),
            i <= b@.len(),
            shared_len(a@, b@) == i + shared_len(a@.skip(i as int), b@.skip(i as int)),
        decreases a@.len() - i,
    {
        assert(a@.skip(i as int).drop_first() == a@.skip(i as int + 1));
        assert(b@.skip(i as int).drop_first() == b@.skip(i as int + 1));
        i += 1;
    }
    i
}

/// Plans the evaluation of `prompt` given the tokens that are `cached`, or
/// refuses it when prompt and answer exceed the window.
pub fn plan_prompt(
    cached: &Vec<i32>,
    prompt: &Vec<i32>,
    max_tokens: usize,
    window: u32,
    batch_size: usize,
) -> (r: Result<PromptPlan, GenerateError>)
    ensures
        r is Ok == (prompt@.len() + answer_budget(max_tokens as int) <= window),
        r matches Err(e) ==> e == (GenerateError::WindowExceeded {
            needed: (if prompt@.len() + answer_budget(max_tokens as int) > u64::MAX {
                u64::MAX
            } else {
                (prompt@.len() + answer_budget(max_tokens as int)) as u64
            }),
            window,
        }),
        r matches Ok(p) ==> p.prefix == kept_len(cached@, prompt@) && p.drop_tail == (cached@.len()
            > p.prefix) && p.batch@ == suffix_batch(prompt@, p.prefix as int) && p.batch_cap == (
        if p.batch@.len() > batch_size {
            p.batch@.len()
        } else {
            batch_size as nat
        }),
{
    let needed = (prompt.len() as u64).saturating_add(token_budget(max_tokens) as u64);
    if needed > window as u64 {
        return Err(GenerateError::WindowExceeded { needed, window });
    }
    let mut prefix = common_len(cached, prompt);
    if prefix == prompt.len() && prefix > 0 {
        prefix -= 1;
    }
    let mut batch: Vec<BatchToken> = Vec::new();
    let mut i: usize = prefix;
    while i < prompt.len()
        invariant
            prefix <= i <= prompt@.len(),
            batch@ == suffix_batch(prompt@, prefix as int).take(i - prefix),
        decreases prompt@.len() - i,
    {
        batch.push(BatchToken { token: prompt[i], pos: i, logits: i == prompt.len() - 1 });
        i += 1;
        assert(batch@ == suffix_batch(prompt@, prefix as int).take(i - prefix));
    }
    assert(batch@ == suffix_batch(prompt@, prefix as int));
    let batch_cap = if batch.len() > batch_size {
        batch.len()
    } else {
        batch_size
    };
    Ok(PromptPlan { prefix, drop_tail: cached.len() > prefix, batch, batch_cap })
}

/// What a plan keeps and what it evaluates make up the prompt, in order and
/// at consecutive positions; of a prompt that is not empty at least one token
/// is evaluated, and the last one, alone, is asked for its logits.
pub proof fn plan_covers_prompt(cached: Seq<i32>, prompt: Seq<i32>)
    requires
        prompt.len() <= usize::MAX,
    ensures
        ({
            let kept = kept_len(cached, prompt) as int;
            let batch = suffix_batch(prompt, kept);
            &&& kept <= cached.len() && kept <= prompt.len()
            &&& cached.take(kept) + batch.map_values(|b: BatchToken| b.token) == prompt
            &&& prompt.len() > 0 ==> batch.len() > 0
            &&& forall|i: int|
                0 <= i < batch.len() ==> (#[trigger] batch[i]).pos == kept + i && batch[i].logits
                    == (i == batch.len() - 1)
        }),
{
    shared_len_agrees(cached, prompt);
    let n = shared_len(cached, prompt) as int;
    let kept = kept_len(cached, prompt) as int;
    let batch = suffix_batch(prompt, kept);
    assert forall|i: int| 0 <= i < kept implies cached[i] == prompt[i] by {
        assert(cached.take(n)[i] == prompt.take(n)[i]);
    }
    assert(cached.take(kept) + batch.map_values(|b: BatchToken| b.token) == prompt);
}

/// The tokens that the model's context holds from earlier requests.
#[derive(Debug)]
pub struct TokenCache {
    tokens: Vec<i32>,
}

impl View for TokenCache {
    type V = Seq<i32>;

    closed spec fn view(&self) -> Seq<i32> {
        self.tokens@
    }
}

impl TokenCache {
    /// The cache of a context that holds nothing.
    pub fn new() -> (r: Self)
        ensures
            r@ == Seq::<i32>::empty(),
    {
        TokenCache { tokens: Vec::new() }
    }

    /// Forgets everything: what images stand for cannot be kept.
    pub fn forget(&mut self)
        ensures
            final(self)@ == Seq::<i32>::empty(),
    {
        self.tokens.clear();
    }

    /// Plans the evaluation of `prompt` on top of what the context holds.
    pub fn plan(&self, prompt: &Vec<i32>, max_tokens: usize, window: u32, batch_size: usize) -> (r:
        Result<PromptPlan, GenerateError>)
        ensures
            r is Ok == (prompt@.len() + answer_budget(max_tokens as int) <= window),
            r matches Ok(p) ==> p.prefix == kept_len(self@, prompt@) && p.drop_tail == (self@.len()
                > p.prefix) && p.batch@ == suffix_batch(prompt@, p.prefix as int) && p.batch_cap
                == (if p.batch@.len() > batch_size {
                p.batch@.len()
            } else {
                batch_size as nat
            }),
            r matches Ok(p) ==> p.prefix <= self@.len(),
            r matches Err(e) ==> e == (GenerateError::WindowExceeded {
                needed: (if prompt@.len() + answer_budget(max_tokens as int) > u64::MAX {
                    u64::MAX
                } else {
                    (prompt@.len() + answer_budget(max_tokens as int)) as u64
                }),
                window,
            }),
    {
        proof {
            shared_len_agrees(self@, prompt@);
        }
        plan_prompt(&self.tokens, prompt, max_tokens, window, batch_size)
    }

    /// Takes note that the tail behind the first `prefix` tokens was dropped.
    pub fn drop_tail(&mut self, prefix: usize)
        requires
            prefix <= old(self)@.len(),
        ensures
            final(self)@ == old(self)@.take(prefix as int),
    {
        self.tokens.truncate(prefix);
    }

    /// Takes note that the batch of a plan was evaluated.
    pub fn record_prompt(&mut self, plan: &PromptPlan)
        ensures
            final(self)@ == old(self)@ + plan.batch@.map_values(|b: BatchToken| b.token),
    {
        let ghost kept = self.tokens@;
        let ghost added = plan.batch@.map_values(|b: BatchToken| b.token);
        assert(self.tokens@ == kept + added.take(0));
        let mut i: usize = 0;
        while i < plan.batch.len()
            invariant
                i <= plan.batch@.len(),
                added == plan.batch@.map_values(|b: BatchToken| b.token),
                self.tokens@ == kept + added.take(i as int),
            decreases plan.batch@.len() - i,
        {
            self.tokens.push(plan.batch[i].token);
            i += 1;
            assert(self.tokens@ == kept + added.take(i as int));
        }
        assert(added.take(i as int) == added);
    }

    /// Takes note that a token of the answer was evaluated.
    pub fn record_token(&mut self, token: i32)
        ensures
            final(self)@ == old(self)@.push(token),
    {
        self.tokens.push(token);
    }
}

/// Refuses a projection file that is not there.
pub fn check_projector(path: &str, there: bool) -> (r: Result<(), BackendError>)
    ensures
        r is Ok == there,
        r matches Err(e) ==> e.message@ == "mmproj file does not exist: "@ + path@,
{
    if there {
        Ok(())
    } else {
        Err(BackendError { message: concat2("mmproj file does not exist: ", path) })
    }
}

/// Refuses a projection file that is not for images.
pub fn check_vision(path: &str, supports_vision: bool) -> (r: Result<(), BackendError>)
    ensures
        r is Ok == supports_vision,
        r matches Err(e) ==> e.message@ == "mmproj does not support vision: "@ + path@,
{
    if supports_vision {
        Ok(())
    } else {
        Err(BackendError { message: concat2("mmproj does not support vision: ", path) })
    }
}

/// Sampling of an answer, token by token. The position at which the room ends is
/// sampled too, so that one token more than the budget may be.
#[derive(Debug)]
pub struct Sampling {
    /// What was sampled so far.
    pub out: String,
    /// Position of the next token.
    pub n_cur: i64,
    /// Last position that may be sampled.
    pub n_end: i64,
}

/// What to do after a sampled token.
#[derive(Debug, Clone, Copy, PartialEq, Eq)]
pub enum SampleStep {
    /// The answer is complete.
    Stop,
    /// Evaluate the token at this position and go on.
    Decode { pos: i64 },
}

impl Sampling {
    /// The answer so far holds no end-of-turn mark, and positions stay in range.
    pub open spec fn wf(&self) -> bool {
        &&& !contains(self.out@, turn_close())
        &&& self.n_end <= 0xffff_ffff
    }

    /// How many tokens may still be sampled.
    pub open spec fn left(&self) -> int {
        if self.n_cur <= self.n_end {
            self.n_end - self.n_cur + 1
        } else {
            0
        }
    }

    /// Sampling after a prompt that ends before position `n_past`.
    pub fn begin(n_past: i32, budget: i32) -> (r: Self)
        ensures
            r.wf(),
            r.out@ == Seq::<char>::empty(),
            r.n_cur == n_past,
            r.n_end == n_past + budget,
            budget >= 0 ==> r.left() == budget + 1,
    {
        proof {
            reveal_strlit("<|im_end|>");
        }
        Sampling { out: String::new(), n_cur: n_past as i64, n_end: n_past as i64 + budget as i64 }
    }

    /// Whether another token is to be sampled.
    pub fn wants_token(&self) -> (r: bool)
        ensures
            r == (self.n_cur <= self.n_end),
            r == (self.left() > 0),
    {
        self.n_cur <= self.n_end
    }

    /// Takes a sampled token: whether it ends generation, and its text.
    pub fn on_token(&mut self, end_of_generation: bool, piece: &str) -> (r: SampleStep)
        requires
            old(self).wf(),
            old(self).n_cur <= old(self).n_end,
        ensures
            final(self).wf(),
            final(self).n_end == old(self).n_end,
            end_of_generation ==> r == SampleStep::Stop && *final(self) == *old(self),
            !end_of_generation ==> (match index_of(old(self).out@ + piece@, turn_close()) {
                Some(i) => r == SampleStep::Stop && final(self).out@ == (old(self).out@
                    + piece@).take(i) && final(self).n_cur == old(self).n_cur,
                None => r == (SampleStep::Decode { pos: old(self).n_cur }) && final(self).out@
                    == old(self).out@ + piece@ && final(self).n_cur == old(self).n_cur + 1
                    && final(self).left() == old(self).left() - 1,
            }),
    {
        if end_of_generation {
            return SampleStep::Stop;
        }
        let text = concat2(self.out.as_str(), piece);
        let v = chars_of(text.as_str());
        let mark = chars_of("<|im_end|>");
        proof {
            index_from_is_first(v@, turn_close(), 0);
            index_of_none_iff_absent(v@, turn_close());
        }
        match find(v.as_slice(), mark.as_slice()) {
            Some(i) => {
                let head = slice_subrange(v.as_slice(), 0, i);
                proof {
                    assert(head@ == v@.take(i as int));
                    assert forall|j: int| !occurs_at(head@, turn_close(), j) by {
                        if occurs_at(head@, turn_close(), j) {
                            reveal_strlit("<|im_end|>");
                            assert(head@.subrange(j, j + turn_close().len()) == v@.subrange(
                                j,
                                j + turn_close().len(),
                            ));
                            assert(occurs_at(v@, turn_close(), j));
                        }
                    }
                }
                self.out = string_of(head);
                SampleStep::Stop
            },
            None => {
                self.out = text;
                let pos = self.n_cur;
                self.n_cur = self.n_cur + 1;
                SampleStep::Decode { pos }
            },
        }
    }

    /// The answer: what was sampled, trimmed. It holds no end-of-turn mark.
    pub fn finish(self) -> (r: String)
        requires
            self.wf(),
        ensures
            r@ == trimmed(self.out@),
            !contains(r@, turn_close()),
    {
        proof {
            trimmed_within(self.out@);
            let (a, b) = choose|a: int, b: int|
                0 <= a <= b <= self.out@.len() && trimmed(self.out@) == self.out@.subrange(a, b);
            assert forall|j: int| !occurs_at(trimmed(self.out@), turn_close(), j) by {
                if occurs_at(trimmed(self.out@), turn_close(), j) {
                    assert(self.out@.subrange(a, b).subrange(j, j + turn_close().len())
                        == self.out@.subrange(a + j, a + j + turn_close().len()));
                    assert(occurs_at(self.out@, turn_close(), a + j));
                }
            }
        }
        trim(self.out.as_str())
    }
}

proof fn turns_split(a: Seq<MessageView>, b: Seq<MessageView>, at: int, marks: Seq<char>)
    ensures
        chatml_turns(a + b, at, marks) == chatml_turns(a, at, marks) + chatml_turns(
            b,
            at - a.len(),
            marks,
        ),
    decreases b.len(),
{
    if b.len() == 0 {
        assert(a + b == a);
        assert(chatml_turns(a, at, marks) + Seq::<char>::empty() == chatml_turns(a, at, marks));
    } else {
        turns_split(a, b.drop_last(), at, marks);
        assert((a + b).drop_last() == a + b.drop_last());
        assert((a + b).last() == b.last());
        assert(chatml_turns(a + b, at, marks) == chatml_turns(a, at, marks) + chatml_turns(
            b,
            at - a.len(),
            marks,
        ));
    }
}

proof fn turns_beside_marks(messages: Seq<MessageView>, at: int, marks: Seq<char>)
    requires
        at < 0 || at >= messages.len(),
    ensures
        chatml_turns(messages, at, marks) == chatml_turns(messages, -1, Seq::empty()),
    decreases messages.len(),
{
    if messages.len() > 0 {
        turns_beside_marks(messages.drop_last(), at, marks);
    }
}

proof fn one_turn(m: MessageView, at: int, marks: Seq<char>)
    ensures
        chatml_turns(seq![m], at, marks) == chatml_turn(
            m,
            if at == 0 {
                marks
            } else {
                Seq::empty()
            },
        ),
{
    assert(seq![m].drop_last() == Seq::<MessageView>::empty());
    assert(chatml_turns(Seq::empty(), at, marks) == Seq::<char>::empty());
    let turn = chatml_turn(
        m,
        if at == 0 {
            marks
        } else {
            Seq::empty()
        },
    );
    assert(Seq::<char>::empty() + turn == turn);
}

proof fn last_user_is(before: Seq<MessageView>, after: Seq<MessageView>)
    requires
        before.len() > 0 ==> before.last().role == Role::User,
        forall|i: int| 0 <= i < after.len() ==> (#[trigger] after[i]).role != Role::User,
    ensures
        last_user_index(before + after) == before.len() - 1,
    decreases after.len(),
{
    let all = before + after;
    if after.len() > 0 {
        assert(after[after.len() - 1] == after.last());
        assert(all.last() == after.last());
        assert(all.drop_last() == before + after.drop_last());
        last_user_is(before, after.drop_last());
    } else {
        assert(all == before);
    }
}

/// Every message of a conversation, whoever said it, stands in the prompt at
/// its place: behind what the messages before it give, opened by the mark and
/// the word for its role, with its content up to white space at the end, and
/// followed by what the messages behind it give. A conversation without
/// messages gives the opening of the answer alone.
pub proof fn each_message_is_in_the_prompt(
    before: Seq<MessageView>,
    m: MessageView,
    after: Seq<MessageView>,
) -> (parts: (Seq<char>, Seq<char>))
    ensures
        chatml_prompt(Seq::empty()) == "<|im_start|>assistant\n<think>\n\n</think>\n\n"@,
        chatml_prompt(before) == parts.0 + "<|im_start|>assistant\n<think>\n\n</think>\n\n"@,
        chatml_prompt(before.push(m) + after) == parts.0 + "<|im_start|>"@ + (match m.role {
            Role::System => "system"@,
            Role::User => "user"@,
            Role::Assistant => "assistant"@,
            Role::Tool => "tool"@,
        }) + "\n"@ + parts.1 + "<|im_end|>\n"@ + chatml_prompt(after),
        parts.1.len() <= m.content.len(),
        parts.1 == m.content.take(parts.1.len() as int),
        forall|i: int|
            parts.1.len() <= i < m.content.len() ==> is_white_space(#[trigger] m.content[i]),
        parts.1.len() > 0 ==> !is_white_space(m.content[parts.1.len() - 1]),
{
    let none = Seq::<char>::empty();
    let head = chatml_turns(before, -1, none);
    let body = trimmed_end(m.content);
    only_white_space_is_trimmed_behind(m.content);
    turns_split(before.push(m), after, -1, none);
    turns_split(before, seq![m], -1, none);
    assert(before.push(m) == before + seq![m]);
    one_turn(m, -1 - before.len(), none);
    turns_beside_marks(after, -1 - before.push(m).len(), none);
    assert(body + none == body);
    assert(chatml_turns(Seq::empty(), -1, none) == none);
    assert(chatml_prompt(Seq::empty()) == "<|im_start|>assistant\n<think>\n\n</think>\n\n"@);
    assert(chatml_prompt(before.push(m) + after) == head + "<|im_start|>"@ + role_word(m.role)
        + "\n"@ + body + "<|im_end|>\n"@ + chatml_prompt(after));
    (head, body)
}

/// Images go with the last message of the user: each one more adds its marker,
/// on a line of its own, to the end of that message's turn and changes nothing
/// else. Where the user said nothing, they add nothing.
pub proof fn images_go_with_the_last_question(
    before: Seq<MessageView>,
    m: MessageView,
    after: Seq<MessageView>,
    marker: Seq<char>,
    n: nat,
) -> (head: Seq<char>)
    requires
        m.role == Role::User,
        forall|i: int| 0 <= i < after.len() ==> (#[trigger] after[i]).role != Role::User,
    ensures
        chatml_image_prompt(before.push(m) + after, marker, n) == head + "<|im_end|>\n"@
            + chatml_prompt(after),
        chatml_image_prompt(before.push(m) + after, marker, n + 1) == head + "\n"@ + marker
            + "<|im_end|>\n"@ + chatml_prompt(after),
        chatml_image_prompt(before.push(m) + after, marker, 0) == chatml_prompt(
            before.push(m) + after,
        ),
        chatml_image_prompt(after, marker, n) == chatml_prompt(after),
{
    reveal_strlit("\n");
    assert("\n"@ == seq!['\n']);
    let none = Seq::<char>::empty();
    let all = before.push(m) + after;
    let at = before.len() as int;
    last_user_is(before.push(m), after);
    last_user_is(Seq::empty(), after);
    assert(Seq::empty() + after == after);
    prompt_without_images(all, marker);
    turns_beside_marks(after, -1, image_marks(marker, n));
    turns_beside_marks(before, at, image_marks(marker, n));
    turns_beside_marks(before, at, image_marks(marker, n + 1));
    let open = chatml_turns(before, -1, none) + turn_open() + role_word(m.role) + "\n"@
        + trimmed_end(m.content);
    let head = open + image_marks(marker, n);
    images_in_turn(before, m, after, image_marks(marker, n));
    images_in_turn(before, m, after, image_marks(marker, n + 1));
    assert(open + image_marks(marker, n + 1) == head + "\n"@ + marker);
    assert(chatml_image_prompt(all, marker, n) == head + "<|im_end|>\n"@ + chatml_prompt(after));
    assert(chatml_image_prompt(all, marker, n + 1) == head + "\n"@ + marker + "<|im_end|>\n"@
        + chatml_prompt(after));
    head
}

proof fn images_in_turn(
    before: Seq<MessageView>,
    m: MessageView,
    after: Seq<MessageView>,
    marks: Seq<char>,
)
    ensures
        chatml_turns(before.push(m) + after, before.len() as int, marks) + answer_open() == (
        chatml_turns(before, -1, Seq::empty()) + turn_open() + role_word(m.role) + "\n"@
            + trimmed_end(m.content)) + marks + "<|im_end|>\n"@ + chatml_prompt(after),
{
    let at = before.len() as int;
    turns_split(before.push(m), after, at, marks);
    turns_split(before, seq![m], at, marks);
    assert(before.push(m) == before + seq![m]);
    one_turn(m, 0, marks);
    turns_beside_marks(before, at, marks);
    turns_beside_marks(after, -1, marks);
    assert(chatml_turns(before.push(m) + after, at, marks) + answer_open() == (chatml_turns(
        before,
        -1,
        Seq::empty(),
    ) + turn_open() + role_word(m.role) + "\n"@ + trimmed_end(m.content)) + marks
        + "<|im_end|>\n"@ + chatml_prompt(after));
}

/// The mark at which an answer ends is the one that closes each turn of the
/// prompt.
pub proof fn answers_end_as_turns_do(m: MessageView)
    ensures
        exists|head: Seq<char>|
            chatml_prompt(seq![m]) == #[trigger] (head + turn_close()) + "\n"@ + chatml_prompt(
                Seq::empty(),
            ),
        turn_close() == "<|im_end|>"@,
{
    reveal_strlit("<|im_end|>\n");
    reveal_strlit("<|im_end|>");
    reveal_strlit("\n");
    let (head, body) = each_message_is_in_the_prompt(Seq::empty(), m, Seq::empty());
    assert(Seq::<MessageView>::empty().push(m) + Seq::empty() == seq![m]);
    assert("<|im_end|>\n"@ == "<|im_end|>"@ + "\n"@);
    let open = head + "<|im_start|>"@ + role_word(m.role) + "\n"@ + body;
    assert(chatml_prompt(seq![m]) == (open + turn_close()) + "\n"@ + chatml_prompt(Seq::empty()));
}

/// Keeping the low bits changes no number that fits, and any other by a
/// multiple of 2 to the 32.
pub proof fn fitting_numbers_stay(n: int)
    ensures
        i32::MIN <= wrapped_i32(n) <= i32::MAX,
        (n - wrapped_i32(n)) % 0x1_0000_0000 == 0,
        i32::MIN <= n <= i32::MAX ==> wrapped_i32(n) == n,
{
}

/// Settings that are given are used as they are, and those left at zero are
/// filled in: the threads from the cores, the window with 4096 tokens.
pub proof fn given_settings_hold(n: int, cores: int, max_tokens: int)
    requires
        0 <= n <= i32::MAX,
        0 <= cores <= i32::MAX,
    ensures
        n > 0 ==> resolved_threads(n, cores) == n && resolved_ctx(n) == n,
        resolved_threads(0, cores) == cores,
        resolved_ctx(0) == 4096,
        16 <= max_tokens <= i32::MAX ==> answer_budget(max_tokens) == max_tokens,
        0 <= max_tokens < 16 ==> answer_budget(max_tokens) == 16,
        answer_budget(n) >= 16,
{
}

/// A model with a projector takes a request as it is; another takes all of it
/// but the images.
pub proof fn only_images_are_ignored(req: RequestView)
    ensures
        taken_by(req, true) == req,
        taken_by(req, false).images.len() == 0,
        taken_by(req, false).messages == req.messages,
        taken_by(req, false).max_tokens == req.max_tokens,
{
}

/// All that a prompt has in common with what is cached is kept, but for its
/// last token: no shared head of the prompt that leaves a token to evaluate
/// is longer than what is kept.
pub proof fn nothing_shared_is_evaluated_again(cached: Seq<i32>, prompt: Seq<i32>, k: int)
    requires
        0 <= k <= cached.len(),
        k < prompt.len(),
        cached.take(k) == prompt.take(k),
    ensures
        k <= kept_len(cached, prompt),
{
    shared_head_counts(cached, prompt, k);
}

proof fn shared_head_counts(a: Seq<i32>, b: Seq<i32>, k: int)
    requires
        0 <= k <= a.len(),
        k <= b.len(),
        a.take(k) == b.take(k),
    ensures
        k <= shared_len(a, b),
    decreases k,
{
    if k > 0 {
        assert(a.take(k)[0] == a.first() && b.take(k)[0] == b.first());
        let (x, y) = (a.drop_first(), b.drop_first());
        assert(x.take(k - 1) == a.take(k).drop_first());
        assert(y.take(k - 1) == b.take(k).drop_first());
        shared_head_counts(x, y, k - 1);
    }
}

/// What is said of a prompt that does not fit names what it needs and what
/// there is.
pub proof fn refused_prompt_is_explained(needed: u64, window: u32)
    ensures
        (GenerateError::WindowExceeded { needed, window }).text() == "prompt + max_tokens ("@
            + numeral(needed as nat) + ") exceeds context window ("@ + numeral(window as nat)
            + ")"@,
{
}

} // verus!
