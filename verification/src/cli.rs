//! What the command line does with its input, and what it prints.
use vstd::prelude::*;

use crate::agent::Agent;
use crate::backend::{Backend, BackendKind};
use crate::config::{BackendType, InferenceConfig, TuxConfig};
use crate::daemon::{ReplyPayload, SendError};
use crate::init::remote_name;
use crate::paths::opt_text;
use crate::text::{
    chars_of, concat3, concat4, has_prefix, has_suffix, join, joined, texts, trim, trimmed,
};
use crate::tools::{listing_views, ToolResult};

verus! {

/// What is said where there is no prompt.
pub const NO_PROMPT: &'static str = "no prompt — pass words as args or pipe text via stdin\ntry: tux install neovim\nor:  echo 'why is text blurry?' | tux";

/// The prompt: the words of the command line, then what was piped in.
pub open spec fn prompt_of(args: Seq<Seq<char>>, stdin: Option<Seq<char>>) -> Option<Seq<char>> {
    let words = trimmed(joined(args, " "@));
    let piped = match stdin {
        Some(s) => trimmed(s),
        None => Seq::empty(),
    };
    if words.len() == 0 && piped.len() == 0 {
        None
    } else if piped.len() == 0 {
        Some(words)
    } else if words.len() == 0 {
        Some(piped)
    } else {
        Some(words + "\n\n"@ + piped)
    }
}

/// The prompt, from the words of the command line and from what was piped
/// in, where the input is a pipe. There must be one.
pub fn read_prompt(args: &Vec<String>, stdin: Option<&str>) -> (r: Result<String, String>)
    ensures
        match prompt_of(
            texts(args@),
            match stdin {
                Some(s) => Some(s@),
                None => None,
            },
        ) {
            Some(p) => r matches Ok(s) && s@ == p,
            None => r matches Err(e) && e@ == NO_PROMPT@,
        },
{
    let words = trim(&join(args, " "));
    let piped = match stdin {
        Some(s) => trim(s),
        None => String::new(),
    };
    if words.as_str().is_empty() && piped.as_str().is_empty() {
        Err(NO_PROMPT.to_string())
    } else if piped.as_str().is_empty() {
        Ok(words)
    } else if words.as_str().is_empty() {
        Ok(piped)
    } else {
        Ok(concat3(&words, "\n\n", &piped))
    }
}

/// Which model answers.
#[derive(Debug)]
pub enum BackendChoice {
    /// One behind a remote service.
    Remote { url: String, model: String, api_key: Option<String> },
    /// One on this machine.
    Local { model_path: String, mmproj_path: Option<String> },
    /// None; the stand-in answers.
    Mock,
}

/// Which model answers, as text.
pub enum ChoiceView {
    Remote { url: Seq<char>, model: Seq<char>, api_key: Option<Seq<char>> },
    Local { model_path: Seq<char>, mmproj_path: Option<Seq<char>> },
    Mock,
}

impl View for BackendChoice {
    type V = ChoiceView;

    open spec fn view(&self) -> ChoiceView {
        match *self {
            BackendChoice::Remote { url, model, api_key } => ChoiceView::Remote {
                url: url@,
                model: model@,
                api_key: opt_text(api_key),
            },
            BackendChoice::Local { model_path, mmproj_path } => ChoiceView::Local {
                model_path: model_path@,
                mmproj_path: opt_text(mmproj_path),
            },
            BackendChoice::Mock => ChoiceView::Mock,
        }
    }
}

/// What the command line and the environment name.
#[derive(Debug)]
pub struct Flags {
    pub model: Option<String>,
    pub remote_url: Option<String>,
    pub remote_model: Option<String>,
}

/// What is there on the machine: the default model and projection file, where
/// they exist, and whether the file that the settings name does.
#[derive(Debug)]
pub struct Present {
    pub default_model: Option<String>,
    pub default_mmproj: Option<String>,
    pub configured_model: bool,
}

/// Which model answers. The first of these that applies: a remote service
/// named by a flag; a model file named by a flag; a remote service named by
/// the settings; a model file named by the settings, if it is there; the
/// default model, if it is there; the stand-in.
pub open spec fn choice_for(flags: Flags, config: TuxConfig, present: Present) -> Result<
    ChoiceView,
    Seq<char>,
> {
    if flags.remote_url is Some {
        Ok(
            ChoiceView::Remote {
                url: flags.remote_url->0@,
                model: remote_name(opt_text(flags.remote_model)),
                api_key: None,
            },
        )
    } else if flags.model is Some {
        Ok(
            ChoiceView::Local {
                model_path: flags.model->0@,
                mmproj_path: opt_text(present.default_mmproj),
            },
        )
    } else if config.backend.kind == BackendType::Remote {
        match config.backend.url {
            Some(url) => Ok(
                ChoiceView::Remote {
                    url: url@,
                    model: remote_name(opt_text(config.backend.model)),
                    api_key: opt_text(config.backend.api_key),
                },
            ),
            None => Err("config: remote backend requires a url"@),
        }
    } else if config.backend.model_path is Some && present.configured_model {
        Ok(
            ChoiceView::Local {
                model_path: config.backend.model_path->0@,
                mmproj_path: opt_text(config.backend.mmproj_path),
            },
        )
    } else if present.default_model is Some {
        Ok(
            ChoiceView::Local {
                model_path: present.default_model->0@,
                mmproj_path: opt_text(present.default_mmproj),
            },
        )
    } else {
        Ok(ChoiceView::Mock)
    }
}

fn copy_opt(s: &Option<String>) -> (r: Option<String>)
    ensures
        opt_text(r) == opt_text(*s),
{
    match s {
        Some(s) => Some(s.clone()),
        None => None,
    }
}

fn name_or_default(s: &Option<String>) -> (r: String)
    ensures
        r@ == remote_name(opt_text(*s)),
        *s matches Some(name) ==> r@ == name@,
        *s is None ==> r@ == "default"@,
{
    match s {
        Some(s) => s.clone(),
        None => "default".to_string(),
    }
}

/// Which model answers.
pub fn choose_backend(flags: &Flags, config: &TuxConfig, present: &Present) -> (r: Result<
    BackendChoice,
    String,
>)
    ensures
        match choice_for(*flags, *config, *present) {
            Ok(c) => r matches Ok(b) && b@ == c,
            Err(m) => r matches Err(e) && e@ == m,
        },
        flags.remote_url matches Some(address) ==> (r matches Ok(
            BackendChoice::Remote { url, model, api_key },
        ) && url@ == address@ && api_key is None && model@ == (match flags.remote_model {
            Some(name) => name@,
            None => "default"@,
        })),
        flags.remote_url is None ==> (flags.model matches Some(file) ==> (r matches Ok(
            BackendChoice::Local { model_path, .. },
        ) && model_path@ == file@)),
{
    if let Some(url) = &flags.remote_url {
        return Ok(
            BackendChoice::Remote {
                url: url.clone(),
                model: name_or_default(&flags.remote_model),
                api_key: None,
            },
        );
    }
    if let Some(path) = &flags.model {
        return Ok(
            BackendChoice::Local {
                model_path: path.clone(),
                mmproj_path: copy_opt(&present.default_mmproj),
            },
        );
    }
    match config.backend.kind {
        BackendType::Remote => {
            return match &config.backend.url {
                Some(url) => Ok(
                    BackendChoice::Remote {
                        url: url.clone(),
                        model: name_or_default(&config.backend.model),
                        api_key: copy_opt(&config.backend.api_key),
                    },
                ),
                None => Err("config: remote backend requires a url".to_string()),
            };
        },
        BackendType::Local => {
            if let Some(path) = &config.backend.model_path {
                if present.configured_model {
                    return Ok(
                        BackendChoice::Local {
                            model_path: path.clone(),
                            mmproj_path: copy_opt(&config.backend.mmproj_path),
                        },
                    );
                }
            }
        },
    }
    match &present.default_model {
        Some(path) => Ok(
            BackendChoice::Local {
                model_path: path.clone(),
                mmproj_path: copy_opt(&present.default_mmproj),
            },
        ),
        None => Ok(BackendChoice::Mock),
    }
}

/// Which model answers in the window: the one that is named, or else the
/// default one, if it is there, or the stand-in.
pub fn choose_for_window(named: Option<String>, present: &Present) -> (r: BackendChoice)
    ensures
        r@ == match (opt_text(named), opt_text(present.default_model)) {
            (Some(model_path), _) => ChoiceView::Local {
                model_path,
                mmproj_path: opt_text(present.default_mmproj),
            },
            (None, Some(model_path)) => ChoiceView::Local {
                model_path,
                mmproj_path: opt_text(present.default_mmproj),
            },
            (None, None) => ChoiceView::Mock,
        },
{
    let model = match named {
        Some(path) => Some(path),
        None => copy_opt(&present.default_model),
    };
    match model {
        Some(model_path) => BackendChoice::Local {
            model_path,
            mmproj_path: copy_opt(&present.default_mmproj),
        },
        None => BackendChoice::Mock,
    }
}

/// A flag wins over the settings and over what is there, and a remote service
/// wins over a file.
pub proof fn flags_win(flags: Flags, config: TuxConfig, present: Present)
    ensures
        flags.remote_url matches Some(url) ==> choice_for(flags, config, present) == Ok::<
            ChoiceView,
            Seq<char>,
        >(
            ChoiceView::Remote {
                url: url@,
                model: remote_name(opt_text(flags.remote_model)),
                api_key: None,
            },
        ),
        flags.remote_url is None && flags.model is Some ==> (choice_for(flags, config, present)
            matches Ok(ChoiceView::Local { model_path, .. }) && model_path == flags.model->0@),
        choice_for(flags, config, present) == Ok::<ChoiceView, Seq<char>>(ChoiceView::Mock) ==> {
            &&& flags.remote_url is None
            &&& flags.model is None
            &&& config.backend.kind == BackendType::Local
            &&& present.default_model is None
        },
{
}

/// The backend for a choice, with the settings for local models.
pub fn kind_of(choice: BackendChoice, inference: &InferenceConfig) -> (r: BackendKind)
    ensures
        match choice {
            BackendChoice::Remote { url, model, api_key } => r == (BackendKind::OpenAICompat {
                url,
                model,
                api_key,
            }),
            BackendChoice::Local { model_path, mmproj_path } => r == (BackendKind::LlamaCpp {
                model_path,
                mmproj_path,
                n_threads: inference.n_threads,
                ctx_size: inference.ctx_size,
                n_gpu_layers: inference.n_gpu_layers,
                batch_size: inference.batch_size,
            }),
            BackendChoice::Mock => r == BackendKind::Mock,
        },
{
    match choice {
        BackendChoice::Remote { url, model, api_key } => BackendKind::OpenAICompat {
            url,
            model,
            api_key,
        },
        BackendChoice::Local { model_path, mmproj_path } => BackendKind::LlamaCpp {
            model_path,
            mmproj_path,
            n_threads: inference.n_threads,
            ctx_size: inference.ctx_size,
            n_gpu_layers: inference.n_gpu_layers,
            batch_size: inference.batch_size,
        },
        BackendChoice::Mock => BackendKind::Mock,
    }
}

/// What to do once the daemon was tried.
#[derive(Debug)]
pub enum AfterDaemon {
    /// Show its answer.
    Show(ReplyPayload),
    /// Load a model in this process: no daemon answered.
    InProcess,
    /// Report this error, which the daemon replied with: its tools may have run.
    Fail(String),
}

/// What to do once the daemon was tried. Where none is there, or it gives no
/// reply, this process answers; an error that it replied with is the answer.
pub fn after_daemon(sent: Result<ReplyPayload, SendError>) -> (r: AfterDaemon)
    ensures
        match sent {
            Ok(payload) => r == AfterDaemon::Show(payload),
            Err(e) => if e.replied {
                r == AfterDaemon::Fail(e.message)
            } else {
                r == AfterDaemon::InProcess
            },
        },
{
    match sent {
        Ok(payload) => AfterDaemon::Show(payload),
        Err(e) => if e.replied {
            AfterDaemon::Fail(e.message)
        } else {
            AfterDaemon::InProcess
        },
    }
}

/// What is said of a model that could not be loaded.
pub fn load_failed(model_path: &str, why: &str) -> (r: String)
    ensures
        r@ == "failed to load model "@ + model_path@ + ": "@ + why@,
{
    concat4("failed to load model ", model_path, ": ", why)
}

/// The line that says that a tool ran.
pub open spec fn trace_text(tool: Seq<char>, summary: Seq<char>) -> Seq<char> {
    "· "@ + tool + " → "@ + summary
}

/// The line that says that a tool ran.
pub fn trace_line(call: &ToolResult) -> (r: String)
    ensures
        r@ == trace_text(call@.tool, call@.summary),
{
    concat4("· ", &call.tool, " → ", &call.summary)
}

/// `n` spaces.
pub open spec fn spaces(n: int) -> Seq<char> {
    Seq::new(
        if n > 0 {
            n as nat
        } else {
            0
        },
        |i: int| ' ',
    )
}

/// `s`, filled up with spaces to at least `width` characters.
pub open spec fn padded(s: Seq<char>, width: int) -> Seq<char> {
    s + spaces(width - s.len())
}

/// `s`, filled up with spaces to at least `width` characters.
pub fn pad(s: &str, width: usize) -> (r: String)
    ensures
        r@ == padded(s@, width as int),
{
    let n = chars_of(s).len();
    let mut out = s.to_string();
    let mut i: usize = n;
    assert(out@ == s@ + spaces(0));
    while i < width
        invariant
            n == s@.len(),
            n <= i,
            i <= width || i == n,
            out@ == s@ + spaces(i - n),
        decreases width - i,
    {
        out.push(' ');
        i += 1;
        assert(spaces(i - n) == spaces(i - n - 1).push(' '));
        assert(out@ == s@ + spaces(i - n));
    }
    assert(spaces(i - n) == spaces(width - n));
    out
}

/// The lines that list the tools.
pub open spec fn tool_table(listing: Seq<(Seq<char>, Seq<char>)>) -> Seq<char>
    decreases listing.len(),
{
    if listing.len() == 0 {
        Seq::empty()
    } else {
        tool_table(listing.drop_last()) + ("  "@ + padded(listing.last().0, 14) + " "@
            + listing.last().1 + "\n"@)
    }
}

/// What is printed of an agent: its model, the host's facts, its tools.
pub open spec fn info_of(
    backend: Seq<char>,
    block: Seq<char>,
    listing: Seq<(Seq<char>, Seq<char>)>,
) -> Seq<char> {
    "backend: "@ + backend + "\n\n"@ + block + "\ntools:\n"@ + tool_table(listing)
}

/// What is printed of an agent whose model is called `backend`.
pub fn info_text<B: Backend>(agent: &Agent<B>, backend: &str) -> (r: String)
    ensures
        exists|listing: Seq<(Seq<char>, Seq<char>)>| #[trigger]
            agent.registry().may_list(listing) && r@ == info_of(
                backend@,
                agent.host()@.block(),
                listing,
            ),
{
    let block = agent.context().as_prompt_block();
    let mut out = concat4("backend: ", backend, "\n\n", &block);
    out.append("\ntools:\n");
    let listing = agent.tools().list();
    let ghost views = listing_views(listing@);
    let ghost head = out@;
    let mut i: usize = 0;
    assert(head + tool_table(views.take(0)) == head);
    while i < listing.len()
        invariant
            i <= listing@.len(),
            views == listing_views(listing@),
            out@ == head + tool_table(views.take(i as int)),
        decreases listing@.len() - i,
    {
        let ghost before = out@;
        let (name, description) = listing[i];
        out.append("  ");
        out.append(&pad(name, 14));
        out.append(" ");
        out.append(description);
        out.append("\n");
        i += 1;
        proof {
            let upto = views.take(i as int);
            assert(upto.drop_last() == views.take(i - 1));
            assert(upto.last() == (name@, description@));
            assert(out@ == before + ("  "@ + padded(name@, 14) + " "@ + description@ + "\n"@));
            assert(out@ == head + tool_table(upto));
        }
    }
    assert(views.take(i as int) == views);
    out
}

/// What is said where the daemon cannot be asked to forget.
pub fn reset_failed(why: &str) -> (r: String)
    ensures
        r@ == "could not reach daemon to reset: "@ + why@
            + "\n(no daemon running? in-process sessions are reset every invocation.)"@,
{
    concat3(
        "could not reach daemon to reset: ",
        why,
        "\n(no daemon running? in-process sessions are reset every invocation.)",
    )
}

/// The prompt is what the words and the piped text are, without white space
/// around them: both, the words first and an empty line between, or the one
/// that is there; and there is none exactly where both are empty.
pub proof fn prompt_holds_both(args: Seq<Seq<char>>, piped: Seq<char>)
    ensures
        ({
            let words = trimmed(joined(args, " "@));
            let text = trimmed(piped);
            &&& prompt_of(args, Some(piped)) is None <==> words.len() == 0 && text.len() == 0
            &&& prompt_of(args, None) is None <==> words.len() == 0
            &&& words.len() > 0 ==> prompt_of(args, None) == Some(words)
            &&& prompt_of(args, Some(piped)) matches Some(p) ==> {
                &&& has_prefix(p, words)
                &&& has_suffix(p, text)
                &&& words.len() > 0 && text.len() > 0 ==> p == words + "\n\n"@ + text
                &&& words.len() == 0 || text.len() == 0 ==> p.len() == words.len() + text.len()
            }
        }),
{
    let words = trimmed(joined(args, " "@));
    let text = trimmed(piped);
    if let Some(p) = prompt_of(args, Some(piped)) {
        assert(p.take(words.len() as int) == words);
        assert(p.skip(p.len() - text.len()) == text);
    }
}

/// A remote service that is named, and the model named with it, are asked, and
/// no key goes with a service from the command line; settings are followed as
/// they are, key included, where no flag is given.
pub proof fn named_model_answers(flags: Flags, config: TuxConfig, present: Present)
    ensures
        ({
            let choice = choice_for(flags, config, present);
            &&& flags.remote_url matches Some(address) ==> {
                &&& choice matches Ok(ChoiceView::Remote { url, model, api_key })
                &&& url == address@
                &&& api_key is None
                &&& flags.remote_model matches Some(name) ==> model == name@
                &&& flags.remote_model is None ==> model == "default"@
            }
            &&& flags.remote_url is None && flags.model is Some ==> {
                &&& choice matches Ok(ChoiceView::Local { model_path, mmproj_path })
                &&& model_path == flags.model->0@
                &&& present.default_mmproj matches Some(p) ==> mmproj_path == Some(p@)
                &&& present.default_mmproj is None ==> mmproj_path is None
            }
            &&& flags.remote_url is None && flags.model is None ==> {
                &&& config.backend.kind == BackendType::Remote ==> {
                    &&& choice is Err <==> config.backend.url is None
                    &&& choice matches Err(m) ==> m == "config: remote backend requires a url"@
                    &&& config.backend.url matches Some(address) ==> {
                        &&& choice matches Ok(ChoiceView::Remote { url, model, api_key })
                        &&& url == address@
                        &&& config.backend.model matches Some(name) ==> model == name@
                        &&& config.backend.model is None ==> model == "default"@
                        &&& config.backend.api_key matches Some(key) ==> api_key == Some(key@)
                        &&& config.backend.api_key is None ==> api_key is None
                    }
                }
                &&& config.backend.kind == BackendType::Local ==> {
                    &&& choice is Ok
                    &&& config.backend.model_path is Some && present.configured_model ==> {
                        &&& choice matches Ok(ChoiceView::Local { model_path, mmproj_path })
                        &&& model_path == config.backend.model_path->0@
                        &&& config.backend.mmproj_path matches Some(p) ==> mmproj_path == Some(p@)
                        &&& config.backend.mmproj_path is None ==> mmproj_path is None
                    }
                    &&& !(config.backend.model_path is Some && present.configured_model) ==> {
                        &&& present.default_model matches Some(file) ==> {
                            &&& choice matches Ok(ChoiceView::Local { model_path, mmproj_path })
                            &&& model_path == file@
                            &&& present.default_mmproj matches Some(p) ==> mmproj_path == Some(p@)
                            &&& present.default_mmproj is None ==> mmproj_path is None
                        }
                        &&& present.default_model is None ==> choice == Ok::<ChoiceView, Seq<char>>(
                            ChoiceView::Mock,
                        )
                    }
                }
            }
        }),
{
}

/// The line that says that a tool ran names the tool and what it did.
pub proof fn trace_names_tool_and_summary(tool: Seq<char>, summary: Seq<char>)
    ensures
        trace_text(tool, summary) == "· "@ + tool + " → "@ + summary,
{
}

/// Filling up keeps the text and adds spaces behind it, up to the width and no
/// further.
pub proof fn filling_up_adds_spaces(s: Seq<char>, width: int)
    ensures
        has_prefix(padded(s, width), s),
        padded(s, width).len() == (if s.len() >= width {
            s.len() as int
        } else {
            width
        }),
        forall|i: int|
            s.len() <= i < padded(s, width).len() ==> #[trigger] padded(s, width)[i] == ' ',
{
    assert(padded(s, width).take(s.len() as int) == s);
}

/// Each tool has a line of its own, in order, with its name filled up to
/// fourteen characters and what it is for.
pub proof fn each_tool_has_a_line(
    listing: Seq<(Seq<char>, Seq<char>)>,
    name: Seq<char>,
    description: Seq<char>,
)
    ensures
        tool_table(Seq::empty()) == Seq::<char>::empty(),
        tool_table(listing.push((name, description))) == tool_table(listing) + ("  "@ + padded(
            name,
            14,
        ) + " "@ + description + "\n"@),
{
    assert(listing.push((name, description)).drop_last() == listing);
}

/// What is printed of an agent names its model, then the facts of the host,
/// then the tools.
pub proof fn info_holds_all(
    backend: Seq<char>,
    block: Seq<char>,
    listing: Seq<(Seq<char>, Seq<char>)>,
)
    ensures
        info_of(backend, block, listing) == "backend: "@ + backend + "\n\n"@ + block
            + "\ntools:\n"@ + tool_table(listing),
{
}

/// A choice is seen as it is.
pub proof fn choices_are_seen_whole(c: BackendChoice)
    ensures
        c is Mock ==> c@ is Mock,
        c matches BackendChoice::Remote { url, model, api_key } ==> (c@ matches ChoiceView::Remote {
            url: u,
            model: m,
            api_key: k,
        } && u == url@ && m == model@ && (api_key matches Some(key) ==> k == Some(key@)) && (
        api_key is None ==> k is None)),
        c matches BackendChoice::Local { model_path, mmproj_path } ==> (
        c@ matches ChoiceView::Local { model_path: m, mmproj_path: p } && m == model_path@ && (
        mmproj_path matches Some(file) ==> p == Some(file@)) && (mmproj_path is None
            ==> p is None)),
{
}

} // verus!
