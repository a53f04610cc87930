//! Setting up: what the host has, which model suits it, and the steps that
//! put everything in place. The program around this crate carries them out.
use vstd::prelude::*;
use vstd::slice::slice_subrange;

use crate::config::{BackendConfig, BackendType, InferenceConfig, TuxConfig};
use crate::context::{ContextView, SystemContext};
use crate::decimal::{
    numeral, numeral_is_decimal, parse_u64, parse_u64_text, parsed_u64, show,
    written_number_is_read,
};
use crate::knowledge::DistroKnowledge;
use crate::lines::{first_word, first_word_is_a_run, leading_word, lines, lines_of};
use crate::models::{
    catalogue, is_pick, lookup, pick_for_host, KindView, ModelEntry, ModelKind, ModelView,
    DEFAULT_VISION_MODEL,
};
use crate::paths::{
    components, components_are_names, components_of, join_path, joined_path, opt_text,
};
use crate::text::{
    chars_of, concat2, concat3, concat4, concat5, concat6, concat7, has_prefix, has_suffix,
    is_white_space, lossy_text, read_lossy, same_text, starts_with, texts, trim, trimmed,
};

verus! {

/// The memory that a line of `/proc/meminfo` states for the host, in KiB.
pub open spec fn line_mem_total(line: Seq<char>) -> Option<u64> {
    if has_prefix(line, "MemTotal:"@) {
        match first_word(line.skip("MemTotal:"@.len() as int)) {
            Some(word) => parsed_u64(word),
            None => None,
        }
    } else {
        None
    }
}

/// The memory that the first line that states it states, in KiB.
pub open spec fn mem_total(lines: Seq<Seq<char>>) -> Option<u64>
    decreases lines.len(),
{
    if lines.len() == 0 {
        None
    } else {
        match line_mem_total(lines.first()) {
            Some(kib) => Some(kib),
            None => mem_total(lines.drop_first()),
        }
    }
}

/// The host's memory in MiB, of which 32 bits are kept; 0 where it is not
/// stated.
pub open spec fn ram_mib(meminfo: Option<Seq<char>>) -> int {
    match meminfo {
        Some(text) => match mem_total(lines_of(text)) {
            Some(kib) => ((kib as int) / 1024) % 0x1_0000_0000,
            None => 0,
        },
        None => 0,
    }
}

fn low_32(n: u64) -> (r: u32)
    ensures
        r == n as int % 0x1_0000_0000,
{
    (n % 0x1_0000_0000) as u32
}

/// The host's memory in MiB, from the text of `/proc/meminfo`; 0 where it
/// cannot be read, for which the smallest model is picked.
pub fn total_ram_mib(meminfo: Option<&str>) -> (r: u32)
    ensures
        r == ram_mib(
            match meminfo {
                Some(s) => Some(s@),
                None => None,
            },
        ),
{
    let text = match meminfo {
        Some(s) => s,
        None => {
            return 0;
        },
    };
    let all = lines(text);
    let key = chars_of("MemTotal:");
    let ghost views = texts(all@);
    let mut i: usize = 0;
    assert(views.skip(0) == views);
    while i < all.len()
        invariant
            i <= all@.len(),
            views == texts(all@),
            views == lines_of(text@),
            key@ == "MemTotal:"@,
            mem_total(views) == mem_total(views.skip(i as int)),
            meminfo == Some(text),
        decreases all@.len() - i,
    {
        let ghost rest = views.skip(i as int);
        proof {
            assert(rest.first() == all@[i as int]@);
            assert(rest.drop_first() == views.skip(i + 1));
        }
        let line = chars_of(&all[i]);
        let len = line.len();
        if starts_with(&line, &key) {
            let tail = slice_subrange(line.as_slice(), key.len(), len);
            assert(tail@ == line@.skip(key@.len() as int));
            match leading_word(tail) {
                Some(word) => {
                    match parse_u64(word) {
                        Some(kib) => {
                            return low_32(kib / 1024);
                        },
                        None => {},
                    }
                },
                None => {},
            }
        }
        i += 1;
    }
    0
}

/// The sum of the numbers among `lines`; other lines count nothing.
pub open spec fn number_sum(lines: Seq<Seq<char>>) -> nat
    decreases lines.len(),
{
    if lines.len() == 0 {
        0
    } else {
        number_sum(lines.drop_last()) + match parsed_u64(trimmed(lines.last())) {
            Some(n) => n as nat,
            None => 0,
        }
    }
}

/// The first number above zero among `texts`; other texts count nothing.
pub open spec fn first_positive(texts: Seq<Seq<char>>) -> Option<u64>
    decreases texts.len(),
{
    if texts.len() == 0 {
        None
    } else {
        match parsed_u64(trimmed(texts.first())) {
            Some(n) => if n > 0 {
                Some(n)
            } else {
                first_positive(texts.drop_first())
            },
            None => first_positive(texts.drop_first()),
        }
    }
}

/// The memory of the graphics cards in MiB: the sum of what `nvidia-smi`
/// lists, or else the first that the system states, in bytes; 0 for none.
pub open spec fn vram_mib(nvidia: Option<Seq<char>>, sysfs: Seq<Seq<char>>) -> nat {
    let listed = match nvidia {
        Some(text) => number_sum(lines_of(text)),
        None => 0,
    };
    if listed > 0 {
        listed
    } else {
        match first_positive(sysfs) {
            Some(bytes) => (bytes as nat) / 1024 / 1024,
            None => 0,
        }
    }
}

fn sum_lines(all: &Vec<String>) -> (r: Option<u64>)
    ensures
        match r {
            Some(n) => n == number_sum(texts(all@)),
            None => number_sum(texts(all@)) > u64::MAX,
        },
{
    let ghost views = texts(all@);
    let mut total: u64 = 0;
    let mut over = false;
    let mut i: usize = 0;
    while i < all.len()
        invariant
            i <= all@.len(),
            views == texts(all@),
            over ==> number_sum(views.take(i as int)) > u64::MAX,
            !over ==> total == number_sum(views.take(i as int)),
        decreases all@.len() - i,
    {
        proof {
            let upto = views.take(i + 1);
            assert(upto.drop_last() == views.take(i as int));
            assert(upto.last() == all@[i as int]@);
        }
        match parse_u64_text(&trim(&all[i])) {
            Some(n) => {
                if total > u64::MAX - n {
                    over = true;
                } else {
                    total = total + n;
                }
            },
            None => {},
        }
        i += 1;
    }
    assert(views.take(i as int) == views);
    if over {
        None
    } else {
        Some(total)
    }
}

/// The memory of the graphics cards in MiB, from what `nvidia-smi` listed,
/// where it ran, and from what the system states of each card. `None` where
/// the sum of what is listed does not fit 64 bits.
pub fn gpu_vram_mib(nvidia: Option<&[u8]>, sysfs: &Vec<String>) -> (r: Option<u64>)
    ensures
        ({
            let want = vram_mib(
                match nvidia {
                    Some(bytes) => Some(lossy_text(bytes@)),
                    None => None,
                },
                texts(sysfs@),
            );
            match r {
                Some(n) => n == want,
                None => want > u64::MAX,
            }
        }),
{
    match nvidia {
        Some(bytes) => {
            let text = read_lossy(bytes);
            gpu_vram_listed(Some(&text), sysfs)
        },
        None => gpu_vram_listed(None, sysfs),
    }
}

/// The memory of the graphics cards in MiB, from the text that `nvidia-smi`
/// wrote, where it ran, and from what the system states of each card.
pub fn gpu_vram_listed(nvidia: Option<&str>, sysfs: &Vec<String>) -> (r: Option<u64>)
    ensures
        ({
            let want = vram_mib(
                match nvidia {
                    Some(s) => Some(s@),
                    None => None,
                },
                texts(sysfs@),
            );
            match r {
                Some(n) => n == want,
                None => want > u64::MAX,
            }
        }),
{
    match nvidia {
        Some(text) => {
            let all = lines(text);
            match sum_lines(&all) {
                Some(total) => {
                    if total > 0 {
                        return Some(total);
                    }
                },
                None => {
                    return None;
                },
            }
        },
        None => {},
    }
    let ghost views = texts(sysfs@);
    let mut i: usize = 0;
    assert(views.skip(0) == views);
    while i < sysfs.len()
        invariant
            i <= sysfs@.len(),
            views == texts(sysfs@),
            first_positive(views) == first_positive(views.skip(i as int)),
            vram_mib(
                match nvidia {
                    Some(s) => Some(s@),
                    None => None,
                },
                views,
            ) == match first_positive(views) {
                Some(bytes) => (bytes as nat) / 1024 / 1024,
                None => 0,
            },
        decreases sysfs@.len() - i,
    {
        let ghost rest = views.skip(i as int);
        proof {
            assert(rest.first() == sysfs@[i as int]@);
            assert(rest.drop_first() == views.skip(i + 1));
        }
        match parse_u64_text(&trim(&sysfs[i])) {
            Some(bytes) => {
                if bytes > 0 {
                    return Some(bytes / 1024 / 1024);
                }
            },
            None => {},
        }
        i += 1;
    }
    Some(0)
}

/// How a model of `model_size_mib` is run on a host: the larger the memory,
/// the larger the context, and all layers on the graphics card where the
/// model fits with 512 MiB to spare.
pub open spec fn tuned_for(
    physical_cores: u32,
    model_size_mib: nat,
    ram_mib: u32,
    vram_mib: u64,
) -> InferenceConfig {
    InferenceConfig {
        n_threads: physical_cores,
        ctx_size: if ram_mib < 8192 {
            2048
        } else if ram_mib < 16384 {
            4096
        } else {
            8192
        },
        n_gpu_layers: if vram_mib >= model_size_mib + 512 {
            99
        } else {
            0
        },
        batch_size: 512,
    }
}

/// How a model of `model_size_mib` is run on a host.
pub fn tune(physical_cores: u32, model_size_mib: u32, ram_mib: u32, vram_mib: u64) -> (r:
    InferenceConfig)
    ensures
        r == tuned_for(physical_cores, model_size_mib as nat, ram_mib, vram_mib),
{
    let ctx_size: u32 = if ram_mib < 8192 {
        2048
    } else if ram_mib < 16384 {
        4096
    } else {
        8192
    };
    let n_gpu_layers: u32 = if vram_mib >= model_size_mib as u64 + 512 {
        99
    } else {
        0
    };
    InferenceConfig { n_threads: physical_cores, ctx_size, n_gpu_layers, batch_size: 512 }
}

/// The settings for a model on this machine.
pub fn local_config(
    model_path: String,
    mmproj_path: Option<String>,
    inference: InferenceConfig,
) -> (r: TuxConfig)
    ensures
        r.backend.kind == BackendType::Local,
        r.backend.model_path == Some(model_path),
        r.backend.mmproj_path == mmproj_path,
        r.backend.url is None,
        r.backend.model is None,
        r.backend.api_key is None,
        r.inference == inference,
{
    TuxConfig {
        backend: BackendConfig {
            kind: BackendType::Local,
            model_path: Some(model_path),
            mmproj_path,
            url: None,
            model: None,
            api_key: None,
        },
        inference,
    }
}

/// The name of the model that a remote service is asked for.
pub open spec fn remote_name(model: Option<Seq<char>>) -> Seq<char> {
    match model {
        Some(name) => name,
        None => "default"@,
    }
}

/// The settings for a model behind a remote service.
pub fn remote_config(url: String, model: Option<String>) -> (r: TuxConfig)
    ensures
        r.backend.kind == BackendType::Remote,
        r.backend.url == Some(url),
        r.backend.model is Some,
        r.backend.model->0@ == remote_name(opt_text(model)),
        model matches Some(name) ==> r.backend.model->0@ == name@,
        model is None ==> r.backend.model->0@ == "default"@,
        r.backend.model_path is None,
        r.backend.mmproj_path is None,
        r.backend.api_key is None,
        r.inference == (InferenceConfig {
            n_threads: 0,
            ctx_size: 4096,
            n_gpu_layers: 0,
            batch_size: 512,
        }),
{
    let name = match model {
        Some(name) => name,
        None => "default".to_string(),
    };
    TuxConfig {
        backend: BackendConfig {
            kind: BackendType::Remote,
            model_path: None,
            mmproj_path: None,
            url: Some(url),
            model: Some(name),
            api_key: None,
        },
        inference: InferenceConfig::default(),
    }
}

/// What the user asked for.
#[derive(Debug)]
pub struct InitOptions {
    pub model: Option<String>,
    pub install_daemon: bool,
    pub with_vision: bool,
    /// If set, nothing is downloaded, and the settings name this service.
    pub remote_url: Option<String>,
    pub remote_model: Option<String>,
}

/// What was found out about the host.
#[derive(Debug, Clone, Copy, PartialEq, Eq, Structural)]
pub struct HostFacts {
    pub cores: u32,
    pub physical_cores: u32,
    pub ram_mib: u32,
    pub vram_mib: u64,
}

/// What is said of the host.
pub open spec fn detected_text(facts: HostFacts) -> Seq<char> {
    "detected: "@ + numeral(facts.cores as nat) + " cores ("@ + numeral(
        facts.physical_cores as nat,
    ) + " physical), "@ + numeral(facts.ram_mib as nat) + (if facts.vram_mib > 0 {
        " MiB RAM, "@ + numeral(facts.vram_mib as nat) + " MiB GPU VRAM"@
    } else {
        " MiB RAM, no GPU detected"@
    })
}

/// What is said of the host.
pub fn detected_line(facts: &HostFacts) -> (r: String)
    ensures
        r@ == detected_text(*facts),
{
    let tail = if facts.vram_mib > 0 {
        concat3(" MiB RAM, ", &show(facts.vram_mib), " MiB GPU VRAM")
    } else {
        " MiB RAM, no GPU detected".to_string()
    };
    concat7(
        "detected: ",
        &show(facts.cores as u64),
        " cores (",
        &show(facts.physical_cores as u64),
        " physical), ",
        &show(facts.ram_mib as u64),
        &tail,
    )
}

/// The model to set up: the one the user named, or else the one that suits
/// the host.
pub fn choose_model(named: &Option<String>, facts: &HostFacts) -> (r: Result<ModelEntry, String>)
    ensures
        match *named {
            None => r matches Ok(m) && is_pick(m@, facts.ram_mib as int, facts.cores as int),
            Some(id) => {
                &&& r is Ok == exists|i: int|
                    0 <= i < catalogue().len() && #[trigger] catalogue()[i].id == id@
                &&& r matches Ok(m) ==> m@.id == id@ && catalogue().contains(m@)
                &&& r matches Err(e) ==> e@ == "unknown model id: "@ + id@
            },
        },
{
    match named {
        Some(id) => match lookup(id) {
            Some(m) => Ok(m),
            None => Err(concat2("unknown model id: ", id)),
        },
        None => Ok(pick_for_host(facts.ram_mib, facts.cores)),
    }
}

/// What is said of the model that was chosen.
pub fn selected_line(m: &ModelEntry) -> (r: String)
    ensures
        r@ == "selected: "@ + m@.name + " (~"@ + numeral(m@.size_mib) + " MiB)"@,
{
    concat5("selected: ", m.name, " (~", &show(m.size_mib as u64), " MiB)")
}

/// Where the file of a model is kept.
pub open spec fn model_place(dir: Seq<char>, id: Seq<char>) -> Seq<char> {
    joined_path(dir, id + ".gguf"@)
}

/// Where the projection file of a model is kept.
pub open spec fn mmproj_place(dir: Seq<char>, id: Seq<char>) -> Seq<char> {
    joined_path(dir, id + ".mmproj"@)
}

/// Where a file of a model is while it is downloaded.
pub open spec fn partial_place(dir: Seq<char>, id: Seq<char>) -> Seq<char> {
    joined_path(dir, id + ".gguf.partial"@)
}

/// The link to the model that is used unless another is named.
pub open spec fn default_model_link(dir: Seq<char>) -> Seq<char> {
    joined_path(dir, "default.gguf"@)
}

/// The link to the projection file that is used unless another is named.
pub open spec fn default_mmproj_link(dir: Seq<char>) -> Seq<char> {
    joined_path(dir, "default.mmproj"@)
}

/// Where the file of a model is kept.
pub fn model_path(dir: &str, id: &str) -> (r: String)
    ensures
        r@ == model_place(dir@, id@),
{
    join_path(dir, &concat2(id, ".gguf"))
}

/// Where the projection file of a model is kept.
pub fn mmproj_path(dir: &str, id: &str) -> (r: String)
    ensures
        r@ == mmproj_place(dir@, id@),
{
    join_path(dir, &concat2(id, ".mmproj"))
}

/// Where a file of a model is while it is downloaded.
pub fn partial_path(dir: &str, id: &str) -> (r: String)
    ensures
        r@ == partial_place(dir@, id@),
{
    join_path(dir, &concat2(id, ".gguf.partial"))
}

/// The link to the model that is used unless another is named.
pub fn default_model(dir: &str) -> (r: String)
    ensures
        r@ == default_model_link(dir@),
{
    join_path(dir, "default.gguf")
}

/// The link to the projection file that is used unless another is named.
pub fn default_mmproj(dir: &str) -> (r: String)
    ensures
        r@ == default_mmproj_link(dir@),
{
    join_path(dir, "default.mmproj")
}

/// The projection file of a model, which it must have to take images.
pub fn projector_of(m: &ModelEntry) -> (r: Result<&'static str, String>)
    ensures
        match m@.kind {
            KindView::Vision { mmproj_url, .. } => r matches Ok(url) && url@ == mmproj_url,
            KindView::Text => r matches Err(e) && e@ == "registry entry `"@ + m@.id
                + "` is not a vision model"@,
        },
{
    match m.kind {
        ModelKind::Vision { mmproj_url, .. } => Ok(mmproj_url),
        ModelKind::Text => Err(
            concat3("registry entry `", m.id, "` is not a vision model"),
        ),
    }
}

/// The model for images: the one that the user gets without naming one.
pub fn vision_model() -> (r: Result<ModelEntry, String>)
    ensures
        r matches Ok(m) && m@.id == DEFAULT_VISION_MODEL@ && catalogue().contains(m@),
{
    proof {
        crate::models::default_vision_model_is_there();
    }
    match lookup(DEFAULT_VISION_MODEL) {
        Some(m) => Ok(m),
        None => Err("no default vision model in registry".to_string()),
    }
}

/// A file that the setup gets.
#[derive(Debug, Clone, Copy, PartialEq, Eq, Structural)]
pub enum Piece {
    Model,
    VisionModel,
    Projector,
}

/// A step of setting up.
#[derive(Debug)]
pub enum InitStep {
    /// Get the file at `url`: to `partial` first, and from there to `dest`.
    Download { url: String, partial: String, dest: String },
    /// The file is there already.
    Keep { piece: Piece, dest: String },
    /// Load the model once, to see that it loads.
    Validate { model: String },
    /// Let `link` lead to `target`.
    Link { target: String, link: String },
    /// Say that the model can look at images.
    VisionReady,
    /// Save these settings.
    Configure { config: TuxConfig },
    /// Save what is known of the distribution.
    SaveKnowledge,
    /// Let the daemon start with the session.
    InstallDaemon,
    /// Say that the daemon is not set up.
    SkipDaemon,
}

/// What a step is about.
pub enum StepView {
    Download { url: Seq<char>, partial: Seq<char>, dest: Seq<char> },
    Keep { piece: Piece, dest: Seq<char> },
    Validate { model: Seq<char> },
    Link { target: Seq<char>, link: Seq<char> },
    VisionReady,
    Configure { config: ConfigView },
    SaveKnowledge,
    InstallDaemon,
    SkipDaemon,
}

/// Settings, as text and numbers.
pub struct ConfigView {
    pub kind: BackendType,
    pub model_path: Option<Seq<char>>,
    pub mmproj_path: Option<Seq<char>>,
    pub url: Option<Seq<char>>,
    pub model: Option<Seq<char>>,
    pub api_key: Option<Seq<char>>,
    pub inference: InferenceConfig,
}

/// Settings, as text and numbers.
pub open spec fn config_view(c: TuxConfig) -> ConfigView {
    ConfigView {
        kind: c.backend.kind,
        model_path: opt_text(c.backend.model_path),
        mmproj_path: opt_text(c.backend.mmproj_path),
        url: opt_text(c.backend.url),
        model: opt_text(c.backend.model),
        api_key: opt_text(c.backend.api_key),
        inference: c.inference,
    }
}

impl View for InitStep {
    type V = StepView;

    open spec fn view(&self) -> StepView {
        match *self {
            InitStep::Download { url, partial, dest } => StepView::Download {
                url: url@,
                partial: partial@,
                dest: dest@,
            },
            InitStep::Keep { piece, dest } => StepView::Keep { piece, dest: dest@ },
            InitStep::Validate { model } => StepView::Validate { model: model@ },
            InitStep::Link { target, link } => StepView::Link { target: target@, link: link@ },
            InitStep::VisionReady => StepView::VisionReady,
            InitStep::Configure { config } => StepView::Configure { config: config_view(config) },
            InitStep::SaveKnowledge => StepView::SaveKnowledge,
            InitStep::InstallDaemon => StepView::InstallDaemon,
            InitStep::SkipDaemon => StepView::SkipDaemon,
        }
    }
}

/// The views of a list of steps.
pub open spec fn step_views(steps: Seq<InitStep>) -> Seq<StepView> {
    steps.map_values(|s: InitStep| s@)
}

/// Gets a file, unless it is there.
pub open spec fn fetch_step(
    piece: Piece,
    url: Seq<char>,
    partial: Seq<char>,
    dest: Seq<char>,
    there: bool,
) -> StepView {
    if there {
        StepView::Keep { piece, dest }
    } else {
        StepView::Download { url, partial, dest }
    }
}

/// The steps that set up a model for images: get its file and its projection
/// file, see that it loads, and only then make both the default.
pub open spec fn vision_steps(
    m: ModelView,
    mmproj_url: Seq<char>,
    dir: Seq<char>,
    model_there: bool,
    mmproj_there: bool,
) -> Seq<StepView> {
    seq![
        fetch_step(
            Piece::VisionModel,
            m.url,
            partial_place(dir, m.id),
            model_place(dir, m.id),
            model_there,
        ),
        fetch_step(
            Piece::Projector,
            mmproj_url,
            partial_place(dir, m.id),
            mmproj_place(dir, m.id),
            mmproj_there,
        ),
        StepView::Validate { model: model_place(dir, m.id) },
        StepView::Link { target: model_place(dir, m.id), link: default_model_link(dir) },
        StepView::Link { target: mmproj_place(dir, m.id), link: default_mmproj_link(dir) },
        StepView::VisionReady,
    ]
}

/// The steps that set up the text model `m`: get it, see that it loads, and
/// only then make it the default.
pub open spec fn model_steps(m: ModelView, dir: Seq<char>, there: bool) -> Seq<StepView> {
    let dest = model_place(dir, m.id);
    seq![
        fetch_step(Piece::Model, m.url, partial_place(dir, m.id), dest, there),
        StepView::Validate { model: dest },
        StepView::Link { target: dest, link: default_model_link(dir) },
    ]
}

/// The step for the daemon.
pub open spec fn daemon_step(install: bool) -> StepView {
    if install {
        StepView::InstallDaemon
    } else {
        StepView::SkipDaemon
    }
}

/// The settings that are saved for the model `m`.
pub open spec fn local_settings(
    m: ModelView,
    dir: Seq<char>,
    mmproj: bool,
    inference: InferenceConfig,
) -> ConfigView {
    ConfigView {
        kind: BackendType::Local,
        model_path: Some(model_place(dir, m.id)),
        mmproj_path: if mmproj {
            Some(default_mmproj_link(dir))
        } else {
            None
        },
        url: None,
        model: None,
        api_key: None,
        inference,
    }
}

/// Which files are there before the setup begins.
#[derive(Debug, Clone, Copy, PartialEq, Eq, Structural)]
pub struct FilesThere {
    pub model: bool,
    pub vision_model: bool,
    pub vision_mmproj: bool,
    pub default_mmproj: bool,
}

fn fetch(piece: Piece, url: &str, partial: String, dest: String, there: bool) -> (r: InitStep)
    ensures
        r@ == fetch_step(piece, url@, partial@, dest@, there),
{
    if there {
        InitStep::Keep { piece, dest }
    } else {
        InitStep::Download { url: url.to_string(), partial, dest }
    }
}

/// The model that the settings name: the one for images, where one is set up
/// beside `m`.
pub open spec fn configured_model(
    m: ModelView,
    vision: Option<(ModelView, Seq<char>)>,
) -> ModelView {
    match vision {
        Some((v, _)) => v,
        None => m,
    }
}

/// The steps that set up the local model `m` on a host, with the model for
/// images `vision` beside it where the user wants one. A model for images
/// that is `m` itself is there by the time it is looked for.
pub open spec fn local_plan(
    m: ModelView,
    vision: Option<(ModelView, Seq<char>)>,
    facts: HostFacts,
    files: FilesThere,
    dir: Seq<char>,
    install_daemon: bool,
) -> Seq<StepView> {
    let main = configured_model(m, vision);
    model_steps(m, dir, files.model) + (match vision {
        Some((v, url)) => vision_steps(
            v,
            url,
            dir,
            files.vision_model || v.id == m.id,
            files.vision_mmproj,
        ),
        None => Seq::empty(),
    }) + seq![
        StepView::Configure {
            config: local_settings(
                main,
                dir,
                vision is Some || files.default_mmproj,
                tuned_for(facts.physical_cores, main.size_mib, facts.ram_mib, facts.vram_mib),
            ),
        },
        StepView::SaveKnowledge,
        daemon_step(install_daemon),
    ]
}

/// A model for images, as it is set up.
pub open spec fn vision_view(vision: Option<(ModelEntry, &'static str)>) -> Option<
    (ModelView, Seq<char>),
> {
    match vision {
        Some((v, url)) => Some((v@, url@)),
        None => None,
    }
}

/// The steps that set up the local model `m` on a host, with the model for
/// images `vision` beside it where the user wants one.
pub fn plan_local(
    m: &ModelEntry,
    vision: Option<(ModelEntry, &'static str)>,
    facts: &HostFacts,
    files: &FilesThere,
    dir: &str,
    install_daemon: bool,
) -> (r: Vec<InitStep>)
    ensures
        step_views(r@) == local_plan(
            m@,
            vision_view(vision),
            *facts,
            *files,
            dir@,
            install_daemon,
        ),
{
    let mut r: Vec<InitStep> = Vec::new();
    let dest = model_path(dir, m.id);
    r.push(fetch(Piece::Model, m.url, partial_path(dir, m.id), dest, files.model));
    r.push(InitStep::Validate { model: model_path(dir, m.id) });
    r.push(InitStep::Link { target: model_path(dir, m.id), link: default_model(dir) });
    assert(step_views(r@) == model_steps(m@, dir@, files.model));
    let ghost first = step_views(r@);
    let mut mmproj = files.default_mmproj;
    let mut main = *m;
    match vision {
        Some((v, url)) => {
            let there = files.vision_model || same_text(v.id, m.id);
            let dest = model_path(dir, v.id);
            r.push(fetch(Piece::VisionModel, v.url, partial_path(dir, v.id), dest, there));
            let dest = mmproj_path(dir, v.id);
            r.push(
                fetch(Piece::Projector, url, partial_path(dir, v.id), dest, files.vision_mmproj),
            );
            r.push(InitStep::Validate { model: model_path(dir, v.id) });
            r.push(InitStep::Link { target: model_path(dir, v.id), link: default_model(dir) });
            r.push(InitStep::Link { target: mmproj_path(dir, v.id), link: default_mmproj(dir) });
            r.push(InitStep::VisionReady);
            mmproj = true;
            main = v;
            assert(step_views(r@) == first + vision_steps(
                v@,
                url@,
                dir@,
                there,
                files.vision_mmproj,
            ));
        },
        None => {
            assert(first + Seq::<StepView>::empty() == first);
        },
    }
    let ghost second = step_views(r@);
    let link = if mmproj {
        Some(default_mmproj(dir))
    } else {
        None
    };
    let inference = tune(facts.physical_cores, main.size_mib, facts.ram_mib, facts.vram_mib);
    let config = local_config(model_path(dir, main.id), link, inference);
    r.push(InitStep::Configure { config });
    r.push(InitStep::SaveKnowledge);
    if install_daemon {
        r.push(InitStep::InstallDaemon);
    } else {
        r.push(InitStep::SkipDaemon);
    }
    assert(step_views(r@) == second + seq![
        StepView::Configure {
            config: local_settings(
                main@,
                dir@,
                vision is Some || files.default_mmproj,
                tuned_for(facts.physical_cores, main@.size_mib, facts.ram_mib, facts.vram_mib),
            ),
        },
        StepView::SaveKnowledge,
        daemon_step(install_daemon),
    ]);
    r
}

/// The steps that set up a remote service: nothing is downloaded.
pub fn plan_remote(url: String, model: Option<String>, install_daemon: bool) -> (r: Vec<InitStep>)
    ensures
        step_views(r@) == seq![
            StepView::Configure {
                config: (ConfigView {
                    kind: BackendType::Remote,
                    model_path: None,
                    mmproj_path: None,
                    url: Some(url@),
                    model: Some(remote_name(opt_text(model))),
                    api_key: None,
                    inference: (InferenceConfig {
                        n_threads: 0,
                        ctx_size: 4096,
                        n_gpu_layers: 0,
                        batch_size: 512,
                    }),
                }),
            },
            StepView::SaveKnowledge,
        ] + if install_daemon {
            seq![StepView::InstallDaemon]
        } else {
            Seq::empty()
        },
        r@[0] matches InitStep::Configure { config } && config.backend.url == Some(url)
            && config.backend.model is Some && config.backend.model->0@ == (match model {
            Some(name) => name@,
            None => "default"@,
        }),
{
    let mut r: Vec<InitStep> = Vec::new();
    let ghost address = url@;
    let ghost name = remote_name(opt_text(model));
    r.push(InitStep::Configure { config: remote_config(url, model) });
    r.push(InitStep::SaveKnowledge);
    let ghost want = ConfigView {
        kind: BackendType::Remote,
        model_path: None,
        mmproj_path: None,
        url: Some(address),
        model: Some(name),
        api_key: None,
        inference: InferenceConfig {
            n_threads: 0,
            ctx_size: 4096,
            n_gpu_layers: 0,
            batch_size: 512,
        },
    };
    assert(step_views(r@) == seq![
        StepView::Configure { config: want },
        StepView::SaveKnowledge,
    ]);
    let ghost first = step_views(r@);
    if install_daemon {
        r.push(InitStep::InstallDaemon);
        assert(step_views(r@) == first + seq![StepView::InstallDaemon]);
    } else {
        assert(first + Seq::<StepView>::empty() == first);
    }
    r
}

/// What is said once settings are saved at `path`.
pub open spec fn saved_text(config: ConfigView, path: Seq<char>) -> Seq<char> {
    match config.kind {
        BackendType::Local => "wrote config → "@ + path + " (threads="@ + numeral(
            config.inference.n_threads as nat,
        ) + ", ctx="@ + numeral(config.inference.ctx_size as nat) + (", gpu_layers="@ + numeral(
            config.inference.n_gpu_layers as nat,
        ) + ")"@),
        BackendType::Remote => "wrote config → "@ + path + "\nremote backend: "@ + (
        match config.url {
            Some(url) => url,
            None => ""@,
        }) + "  model: "@ + (match config.model {
            Some(model) => model,
            None => ""@,
        }),
    }
}

/// What is said once settings are saved at `path`.
pub fn saved_line(config: &TuxConfig, path: &str) -> (r: String)
    ensures
        r@ == saved_text(config_view(*config), path@),
{
    match config.backend.kind {
        BackendType::Local => {
            let tail = concat3(
                ", gpu_layers=",
                &show(config.inference.n_gpu_layers as u64),
                ")",
            );
            concat7(
                "wrote config → ",
                path,
                " (threads=",
                &show(config.inference.n_threads as u64),
                ", ctx=",
                &show(config.inference.ctx_size as u64),
                &tail,
            )
        },
        BackendType::Remote => {
            let url = match &config.backend.url {
                Some(url) => url.as_str(),
                None => "",
            };
            let model = match &config.backend.model {
                Some(model) => model.as_str(),
                None => "",
            };
            concat6("wrote config → ", path, "\nremote backend: ", url, "  model: ", model)
        },
    }
}

/// What is said of a file of `bytes` bytes that is there already.
pub open spec fn kept_text(piece: Piece, dest: Seq<char>, bytes: nat) -> Seq<char> {
    match piece {
        Piece::Model => "already downloaded: "@ + dest + " ("@ + numeral(bytes / 1024 / 1024)
            + " MiB)"@,
        Piece::VisionModel => "vision model already downloaded: "@ + dest,
        Piece::Projector => "mmproj already downloaded: "@ + dest,
    }
}

/// What is said of a file of `bytes` bytes that is there already.
pub fn kept_line(piece: Piece, dest: &str, bytes: u64) -> (r: String)
    ensures
        r@ == kept_text(piece, dest@, bytes as nat),
{
    match piece {
        Piece::Model => concat5(
            "already downloaded: ",
            dest,
            " (",
            &show(bytes / 1024 / 1024),
            " MiB)",
        ),
        Piece::VisionModel => concat2("vision model already downloaded: ", dest),
        Piece::Projector => concat2("mmproj already downloaded: ", dest),
    }
}

/// What is said once the model can look at images.
pub const VISION_READY: &'static str =
    "vision ready — model can now inspect images via the screenshot tool";

/// What is known of the host's distribution that is worth saving.
pub fn knowledge_to_save(ctx: &SystemContext) -> (r: Option<&DistroKnowledge>)
    ensures
        r is Some == (ctx.distro_id is Some && ctx.knowledge is Some),
        r matches Some(k) ==> ctx.knowledge == Some(*k),
{
    match (&ctx.distro_id, &ctx.knowledge) {
        (Some(_), Some(k)) => Some(k),
        _ => None,
    }
}

/// What is said behind the name of a distribution of which nothing is known.
pub const NO_KNOWLEDGE: &'static str = "` — model will rely on general Linux knowledge.\nadd an entry to tux-core/src/knowledge.rs (or write system.json by hand) to teach it.";

/// What is said of the knowledge that was saved at `path`, or of why there
/// was none to save.
pub open spec fn knowledge_text(ctx: ContextView, path: Seq<char>) -> Seq<char> {
    match (ctx.distro_id, ctx.knowledge) {
        (Some(id), Some(_)) => "wrote distro knowledge for `"@ + id + "` → "@ + path,
        (Some(id), None) => "no curated knowledge for distro `"@ + id + NO_KNOWLEDGE@,
        (None, _) => "could not detect distro from /etc/os-release"@,
    }
}

/// What is said of the knowledge that was saved at `path`, or of why there
/// was none to save.
pub fn knowledge_line(ctx: &SystemContext, path: &str) -> (r: String)
    ensures
        r@ == knowledge_text(ctx@, path@),
{
    match (&ctx.distro_id, &ctx.knowledge) {
        (Some(id), Some(_)) => concat4("wrote distro knowledge for `", id, "` → ", path),
        (Some(id), None) => concat3("no curated knowledge for distro `", id, NO_KNOWLEDGE),
        (None, _) => "could not detect distro from /etc/os-release".to_string(),
    }
}

/// The directory for the user's units: the `user` directory of the one that
/// the host names for systemd, or else the usual one under the home.
pub open spec fn unit_place(systemd_dir: Option<Seq<char>>, home: Option<Seq<char>>) -> Seq<char> {
    let base = match systemd_dir {
        Some(dir) => dir,
        None => joined_path(
            match home {
                Some(h) => h,
                None => ""@,
            },
            ".config/systemd/user"@,
        ),
    };
    let parts = components_of(base);
    if parts.len() > 0 && parts.last() == "user"@ {
        base
    } else {
        joined_path(base, "user"@)
    }
}

/// The directory for the user's units.
pub fn unit_dir(systemd_dir: &Option<String>, home: &Option<String>) -> (r: String)
    ensures
        r@ == unit_place(opt_text(*systemd_dir), opt_text(*home)),
{
    let base = match systemd_dir {
        Some(dir) => dir.clone(),
        None => {
            let h = match home {
                Some(h) => h.as_str(),
                None => "",
            };
            join_path(h, ".config/systemd/user")
        },
    };
    let parts = components(&base);
    let n = parts.len();
    assert(texts(parts@).len() == n);
    if n > 0 && same_text(&parts[n - 1], "user") {
        assert(texts(parts@).last() == parts@[n - 1]@);
        base
    } else {
        if n > 0 {
            assert(texts(parts@).last() == parts@[n - 1]@);
        }
        join_path(&base, "user")
    }
}

/// The unit of the daemon, up to the program.
pub const UNIT_HEAD: &'static str = "[Unit]\nDescription=tux local AI daemon\nAfter=default.target\n\n[Service]\nExecStart=";

/// The unit of the daemon, behind the program.
pub const UNIT_REST: &'static str = " daemon serve\nRestart=on-failure\nRestartSec=2\n\n[Install]\nWantedBy=default.target\n";

/// The unit that lets the program at `bin` serve as the daemon.
pub fn unit_text(bin: &str) -> (r: String)
    ensures
        r@ == UNIT_HEAD@ + bin@ + UNIT_REST@,
{
    concat3(UNIT_HEAD, bin, UNIT_REST)
}

/// How running a command went.
#[derive(Debug)]
pub enum Ran {
    Success,
    /// It ended with this status.
    Exited(String),
    /// It could not be run.
    NotRun(String),
}

/// What is said of enabling the unit, and whether to go on to it at all: not
/// where systemd did not take notice of the unit.
pub fn after_reload(reload: &Ran) -> (r: Option<&'static str>)
    ensures
        (reload is Success) == (r is None),
        r matches Some(m) ==> m@
            == "warning: `systemctl --user daemon-reload` failed; skipping enable"@,
{
    match reload {
        Ran::Success => None,
        _ => Some("warning: `systemctl --user daemon-reload` failed; skipping enable"),
    }
}

/// What is said of enabling the unit.
pub fn enabled_line(enable: &Ran) -> (r: String)
    ensures
        r@ == match *enable {
            Ran::Success => "enabled and started tuxd.service"@,
            Ran::Exited(status) =>
                "warning: `systemctl --user enable --now tuxd.service` exited "@ + status@,
            Ran::NotRun(e) => "warning: failed to enable tuxd.service: "@ + e@,
        },
{
    match enable {
        Ran::Success => "enabled and started tuxd.service".to_string(),
        Ran::Exited(status) => concat2(
            "warning: `systemctl --user enable --now tuxd.service` exited ",
            status,
        ),
        Ran::NotRun(e) => concat2("warning: failed to enable tuxd.service: ", e),
    }
}

/// What is said at the end.
pub fn done_line(default_model: &Option<String>) -> (r: String)
    ensures
        r@ == match opt_text(*default_model) {
            Some(link) => "\ndone. default model: "@ + link
                + "\ntry: tux \"how do I check disk usage?\""@,
            None => "\ndone. try: tux \"how do I check disk usage?\""@,
        },
{
    match default_model {
        Some(link) => concat3(
            "\ndone. default model: ",
            link,
            "\ntry: tux \"how do I check disk usage?\"",
        ),
        None => "\ndone. try: tux \"how do I check disk usage?\"".to_string(),
    }
}

/// All layers go to the graphics card only where the model fits into its
/// memory with room to spare, and the context never shrinks with memory.
pub proof fn tuning_fits_host(
    physical_cores: u32,
    model_size_mib: nat,
    ram_mib: u32,
    more_ram_mib: u32,
    vram_mib: u64,
)
    requires
        ram_mib <= more_ram_mib,
    ensures
        ({
            let a = tuned_for(physical_cores, model_size_mib, ram_mib, vram_mib);
            let b = tuned_for(physical_cores, model_size_mib, more_ram_mib, vram_mib);
            &&& a.ctx_size <= b.ctx_size
            &&& a.n_gpu_layers > 0 ==> vram_mib > model_size_mib
            &&& vram_mib == 0 ==> a.n_gpu_layers == 0
        }),
{
}

/// A model becomes the default only after it was seen to load.
pub proof fn default_is_validated_first(
    m: ModelView,
    vision: Option<(ModelView, Seq<char>)>,
    facts: HostFacts,
    files: FilesThere,
    dir: Seq<char>,
    install_daemon: bool,
    i: int,
)
    requires
        0 <= i < local_plan(m, vision, facts, files, dir, install_daemon).len(),
        local_plan(m, vision, facts, files, dir, install_daemon)[i] is Link,
        local_plan(m, vision, facts, files, dir, install_daemon)[i]->link == default_model_link(
            dir,
        ),
    ensures
        exists|j: int|
            0 <= j < i && #[trigger] local_plan(
                m,
                vision,
                facts,
                files,
                dir,
                install_daemon,
            )[j] == (StepView::Validate {
                model: local_plan(m, vision, facts, files, dir, install_daemon)[i]->target,
            }),
{
    reveal_strlit("default.gguf");
    reveal_strlit("default.mmproj");
    let plan = local_plan(m, vision, facts, files, dir, install_daemon);
    assert(default_model_link(dir).len() != default_mmproj_link(dir).len());
    assert(plan[1] == StepView::Validate { model: model_place(dir, m.id) });
    if let Some((v, url)) = vision {
        let there = files.vision_model || v.id == m.id;
        let steps = vision_steps(v, url, dir, there, files.vision_mmproj);
        assert(steps.len() == 6);
        if 3 <= i < 9 {
            assert(plan[i] == steps[i - 3]);
        }
        assert(plan[5] == steps[2]);
        assert(i == 2 || i == 6);
    } else {
        assert(i == 2);
    }
}

/// With a model for images, the settings name that model and the link to its
/// projection file, which are the ones that the default links lead to.
pub proof fn vision_settings_match_links(
    m: ModelView,
    v: ModelView,
    url: Seq<char>,
    facts: HostFacts,
    files: FilesThere,
    dir: Seq<char>,
    install_daemon: bool,
)
    ensures
        ({
            let plan = local_plan(m, Some((v, url)), facts, files, dir, install_daemon);
            let settings = plan[9]->config;
            &&& plan.len() == 12
            &&& plan[6] == (StepView::Link {
                target: model_place(dir, v.id),
                link: default_model_link(dir),
            })
            &&& plan[7] == (StepView::Link {
                target: mmproj_place(dir, v.id),
                link: default_mmproj_link(dir),
            })
            &&& plan[9] is Configure
            &&& settings.model_path == Some(model_place(dir, v.id))
            &&& settings.mmproj_path == Some(default_mmproj_link(dir))
        }),
{
}

/// The memory of the host is what stands behind the key, whatever white space
/// is around it and whatever follows; other lines state none.
pub proof fn memory_line_is_read(blanks: Seq<char>, kib: u64, tail: Seq<char>, other: Seq<char>)
    requires
        forall|i: int| 0 <= i < blanks.len() ==> is_white_space(#[trigger] blanks[i]),
        tail.len() > 0 ==> is_white_space(tail.first()),
        !has_prefix(other, "MemTotal:"@),
    ensures
        line_mem_total("MemTotal:"@ + blanks + numeral(kib as nat) + tail) == Some(kib),
        line_mem_total(other) is None,
{
    let key = "MemTotal:"@;
    let word = numeral(kib as nat);
    let line = key + blanks + word + tail;
    numeral_is_decimal(kib as nat, 0);
    written_number_is_read(kib);
    assert forall|i: int| 0 <= i < word.len() implies !is_white_space(#[trigger] word[i]) by {}
    first_word_is_a_run(blanks, word, tail);
    assert(line.take(key.len() as int) == key);
    assert(line.skip(key.len() as int) == blanks + word + tail);
}

/// The first line that states the memory counts, in whole MiB; where none
/// does, or nothing can be read, it is 0.
pub proof fn first_statement_counts(
    before: Seq<Seq<char>>,
    line: Seq<char>,
    after: Seq<Seq<char>>,
    text: Seq<char>,
)
    requires
        forall|i: int| 0 <= i < before.len() ==> line_mem_total(#[trigger] before[i]) is None,
    ensures
        mem_total(before) is None,
        line_mem_total(line) matches Some(kib) ==> mem_total(before + seq![line] + after) == Some(
            kib,
        ),
        mem_total(lines_of(text)) matches Some(kib) ==> (kib < 0x400_0000_0000 ==> ram_mib(
            Some(text),
        ) * 1024 <= kib < ram_mib(Some(text)) * 1024 + 1024),
        mem_total(lines_of(text)) is None ==> ram_mib(Some(text)) == 0,
        ram_mib(None) == 0,
    decreases before.len(),
{
    let all = before + seq![line] + after;
    if before.len() > 0 {
        let b = before.drop_first();
        assert forall|i: int| 0 <= i < b.len() implies line_mem_total(#[trigger] b[i]) is None by {
            assert(b[i] == before[i + 1]);
        }
        first_statement_counts(b, line, after, text);
        assert(line_mem_total(before[0]) is None);
        assert(all.first() == before.first());
        assert(all.drop_first() == b + seq![line] + after);
    } else {
        assert(all.first() == line);
    }
}

/// What the cards have is added up, line by line; a line that is no number
/// counts nothing.
pub proof fn card_memory_adds_up(a: Seq<Seq<char>>, b: Seq<Seq<char>>, line: Seq<char>)
    ensures
        number_sum(a + b) == number_sum(a) + number_sum(b),
        number_sum(seq![line]) == (match parsed_u64(trimmed(line)) {
            Some(n) => n as nat,
            None => 0,
        }),
        number_sum(Seq::empty()) == 0,
    decreases b.len(),
{
    assert(seq![line].drop_last() == Seq::<Seq<char>>::empty());
    assert(number_sum(Seq::<Seq<char>>::empty()) == 0);
    if b.len() == 0 {
        assert(a + b == a);
    } else {
        card_memory_adds_up(a, b.drop_last(), line);
        assert((a + b).drop_last() == a + b.drop_last());
        assert((a + b).last() == b.last());
    }
}

/// Of what the system states of the cards, the first number above zero counts.
pub proof fn first_card_counts(before: Seq<Seq<char>>, line: Seq<char>, after: Seq<Seq<char>>)
    requires
        forall|i: int|
            #![trigger before[i]]
            0 <= i < before.len() ==> (parsed_u64(trimmed(before[i])) is None || parsed_u64(
                trimmed(before[i]),
            ) == Some(0u64)),
    ensures
        first_positive(before) is None,
        parsed_u64(trimmed(line)) matches Some(n) ==> (n > 0 ==> first_positive(
            before + seq![line] + after,
        ) == Some(n)),
    decreases before.len(),
{
    let all = before + seq![line] + after;
    if before.len() > 0 {
        let b = before.drop_first();
        assert forall|i: int| #![trigger b[i]] 0 <= i < b.len() implies (parsed_u64(trimmed(b[i])) is None
            || parsed_u64(trimmed(b[i])) == Some(0u64)) by {
            assert(b[i] == before[i + 1]);
        }
        first_card_counts(b, line, after);
        assert(before[0] == before.first());
        assert(all.first() == before.first());
        assert(all.drop_first() == b + seq![line] + after);
    } else {
        assert(all.first() == line);
    }
}

/// What `nvidia-smi` lists is in MiB and counts where it is above zero; what
/// the system states is in bytes and counts otherwise.
pub proof fn listed_cards_come_first(text: Seq<char>, sysfs: Seq<Seq<char>>)
    ensures
        number_sum(lines_of(text)) > 0 ==> vram_mib(Some(text), sysfs) == number_sum(
            lines_of(text),
        ),
        number_sum(lines_of(text)) == 0 ==> vram_mib(Some(text), sysfs) == vram_mib(None, sysfs),
        first_positive(sysfs) is None ==> vram_mib(None, sysfs) == 0,
        first_positive(sysfs) matches Some(bytes) ==> vram_mib(None, sysfs) * 1048576 <= bytes
            < vram_mib(None, sysfs) * 1048576 + 1048576,
{
}

/// How a model is run: on all physical cores, in a context that grows with the
/// memory at 8 and 16 GiB, with all layers on the card exactly where the model
/// and 512 MiB fit.
pub proof fn tuning_by_host(cores: u32, size: nat, ram: u32, vram: u64)
    ensures
        ({
            let t = tuned_for(cores, size, ram, vram);
            &&& t.n_threads == cores
            &&& t.batch_size == 512
            &&& ram < 8192 ==> t.ctx_size == 2048
            &&& 8192 <= ram < 16384 ==> t.ctx_size == 4096
            &&& 16384 <= ram ==> t.ctx_size == 8192
            &&& size + 512 <= vram ==> t.n_gpu_layers == 99
            &&& size + 512 > vram ==> t.n_gpu_layers == 0
        }),
{
}

/// A model that is named for a remote service is the one that is asked for;
/// where none is named, it is asked for its default.
pub proof fn named_remote_model_is_kept(name: Seq<char>)
    ensures
        remote_name(Some(name)) == name,
        remote_name(None) == "default"@,
{
}

/// What is said of the host names its cores, its memory and, where there is
/// one, its card's memory.
pub proof fn host_is_described(facts: HostFacts)
    ensures
        detected_text(facts) == "detected: "@ + numeral(facts.cores as nat) + " cores ("@ + numeral(
            facts.physical_cores as nat,
        ) + " physical), "@ + numeral(facts.ram_mib as nat) + " MiB RAM, "@ + (if facts.vram_mib
            == 0 {
            "no GPU detected"@
        } else {
            numeral(facts.vram_mib as nat) + " MiB GPU VRAM"@
        }),
{
    reveal_strlit(" MiB RAM, ");
    reveal_strlit("no GPU detected");
    reveal_strlit(" MiB RAM, no GPU detected");
    let head = "detected: "@ + numeral(facts.cores as nat) + " cores ("@ + numeral(
        facts.physical_cores as nat,
    ) + " physical), "@ + numeral(facts.ram_mib as nat);
    assert(" MiB RAM, no GPU detected"@ == " MiB RAM, "@ + "no GPU detected"@);
    assert(head + (" MiB RAM, "@ + "no GPU detected"@) == head + " MiB RAM, "@
        + "no GPU detected"@);
    let card = numeral(facts.vram_mib as nat);
    assert(head + (" MiB RAM, "@ + card + " MiB GPU VRAM"@) == head + " MiB RAM, "@ + (card
        + " MiB GPU VRAM"@));
}

/// The steps for a text model, one by one: its file is kept where it is there
/// and downloaded from its own address otherwise; then it is loaded once, made
/// the default, and named in the settings.
pub proof fn text_model_is_set_up(
    m: ModelView,
    facts: HostFacts,
    files: FilesThere,
    dir: Seq<char>,
    install_daemon: bool,
)
    ensures
        ({
            let plan = local_plan(m, None, facts, files, dir, install_daemon);
            let file = joined_path(dir, m.id + ".gguf"@);
            &&& plan.len() == 6
            &&& files.model ==> plan[0] == (StepView::Keep { piece: Piece::Model, dest: file })
            &&& !files.model ==> plan[0] == (StepView::Download {
                url: m.url,
                partial: joined_path(dir, m.id + ".gguf.partial"@),
                dest: file,
            })
            &&& plan[1] == (StepView::Validate { model: file })
            &&& plan[2] == (StepView::Link {
                target: file,
                link: joined_path(dir, "default.gguf"@),
            })
            &&& plan[3] matches StepView::Configure { config }
            &&& config.kind == BackendType::Local
            &&& config.model_path == Some(file)
            &&& config.mmproj_path == (if files.default_mmproj {
                Some(joined_path(dir, "default.mmproj"@))
            } else {
                None
            })
            &&& config.url is None && config.model is None && config.api_key is None
            &&& config.inference == tuned_for(
                facts.physical_cores,
                m.size_mib,
                facts.ram_mib,
                facts.vram_mib,
            )
            &&& plan[4] == StepView::SaveKnowledge
            &&& plan[5] == (if install_daemon {
                StepView::InstallDaemon
            } else {
                StepView::SkipDaemon
            })
        }),
{
}

/// The steps for a model for images beside a text model: the text model's
/// steps, then the file of the model for images from its own address and the
/// projection file from the projection file's, each to a place of its own and
/// only where it is missing; then it is loaded once and both are made the
/// default and named in the settings.
pub proof fn vision_model_is_set_up(
    m: ModelView,
    v: ModelView,
    mmproj_url: Seq<char>,
    facts: HostFacts,
    files: FilesThere,
    dir: Seq<char>,
    install_daemon: bool,
)
    ensures
        ({
            let alone = local_plan(m, None, facts, files, dir, install_daemon);
            let plan = local_plan(m, Some((v, mmproj_url)), facts, files, dir, install_daemon);
            let file = joined_path(dir, v.id + ".gguf"@);
            let projector = joined_path(dir, v.id + ".mmproj"@);
            let partial = joined_path(dir, v.id + ".gguf.partial"@);
            &&& plan.len() == 12
            &&& plan[0] == alone[0] && plan[1] == alone[1] && plan[2] == alone[2]
            &&& plan[3] == (if files.vision_model || v.id == m.id {
                StepView::Keep { piece: Piece::VisionModel, dest: file }
            } else {
                StepView::Download { url: v.url, partial, dest: file }
            })
            &&& plan[4] == (if files.vision_mmproj {
                StepView::Keep { piece: Piece::Projector, dest: projector }
            } else {
                StepView::Download { url: mmproj_url, partial, dest: projector }
            })
            &&& plan[5] == (StepView::Validate { model: file })
            &&& plan[6] == (StepView::Link {
                target: file,
                link: joined_path(dir, "default.gguf"@),
            })
            &&& plan[7] == (StepView::Link {
                target: projector,
                link: joined_path(dir, "default.mmproj"@),
            })
            &&& plan[8] == StepView::VisionReady
            &&& plan[9] matches StepView::Configure { config }
            &&& config.kind == BackendType::Local
            &&& config.model_path == Some(file)
            &&& config.mmproj_path == Some(joined_path(dir, "default.mmproj"@))
            &&& config.url is None && config.model is None && config.api_key is None
            &&& config.inference == tuned_for(
                facts.physical_cores,
                v.size_mib,
                facts.ram_mib,
                facts.vram_mib,
            )
            &&& plan[10] == alone[4] && plan[11] == alone[5]
        }),
{
}

/// What is said once settings are saved names their file and what they hold.
pub proof fn saved_settings_are_named(config: ConfigView, path: Seq<char>)
    ensures
        config.kind == BackendType::Local ==> saved_text(config, path) == "wrote config → "@ + path
            + " (threads="@ + numeral(config.inference.n_threads as nat) + ", ctx="@ + numeral(
            config.inference.ctx_size as nat,
        ) + (", gpu_layers="@ + numeral(config.inference.n_gpu_layers as nat) + ")"@),
        config.kind == BackendType::Remote && config.url is Some && config.model is Some
            ==> saved_text(config, path) == "wrote config → "@ + path + "\nremote backend: "@
            + config.url->0 + "  model: "@ + config.model->0,
{
}

/// What is said of a file that is there names it, and of the model its size in
/// whole MiB.
pub proof fn kept_files_are_named(dest: Seq<char>, mib: nat, more: nat)
    requires
        more < 1048576,
    ensures
        kept_text(Piece::Model, dest, mib * 1048576 + more) == "already downloaded: "@ + dest
            + " ("@ + numeral(mib) + " MiB)"@,
        kept_text(Piece::VisionModel, dest, mib) == "vision model already downloaded: "@ + dest,
        kept_text(Piece::Projector, dest, mib) == "mmproj already downloaded: "@ + dest,
{
    assert((mib * 1048576 + more) / 1024 / 1024 == mib);
}

/// What is said of the knowledge that was saved names the distribution.
pub proof fn saved_knowledge_is_named(ctx: ContextView, path: Seq<char>)
    ensures
        ctx.distro_id is None ==> knowledge_text(ctx, path)
            == "could not detect distro from /etc/os-release"@,
        ctx.distro_id is Some && ctx.knowledge is Some ==> knowledge_text(ctx, path)
            == "wrote distro knowledge for `"@ + ctx.distro_id->0 + "` → "@ + path,
        ctx.distro_id is Some && ctx.knowledge is None ==> has_prefix(
            knowledge_text(ctx, path),
            "no curated knowledge for distro `"@ + ctx.distro_id->0 + "`"@,
        ),
{
    if ctx.distro_id is Some && ctx.knowledge is None {
        reveal_strlit("`");
        reveal_strlit("` — model will rely on general Linux knowledge.\nadd an entry to tux-core/src/knowledge.rs (or write system.json by hand) to teach it.");
        let head = "no curated knowledge for distro `"@ + ctx.distro_id->0 + "`"@;
        let text = knowledge_text(ctx, path);
        assert(NO_KNOWLEDGE@[0] == '`');
        assert(text.take(head.len() as int) == head);
    }
}

/// Units go to a directory called `user`: the one that the host names, where
/// it is called that, the one in it otherwise, and the usual one under the home
/// where the host names none.
pub proof fn units_go_to_the_user(dir: Seq<char>, home: Seq<char>)
    ensures
        dir.len() > 0 ==> unit_place(Some(dir + "/user"@), Some(home)) == dir + "/user"@,
        unit_place(Some(dir), None) == unit_place(Some(dir), Some(home)),
        (components_of(dir).len() == 0 || components_of(dir).last() != "user"@) ==> unit_place(
            Some(dir),
            None,
        ) == joined_path(dir, "user"@),
        (home.len() > 0 && home.last() != '/') ==> unit_place(None, Some(home)) == home
            + "/.config/systemd/user"@,
{
    reveal_strlit("/");
    reveal_strlit("user");
    reveal_strlit(".");
    reveal_strlit("/user");
    reveal_strlit(".config/systemd/user");
    reveal_strlit(".config/systemd");
    reveal_strlit("/.config/systemd");
    reveal_strlit("/.config/systemd/user");
    assert("user"@.len() == 4);
    assert(!"user"@.contains('/'));
    assert("."@.len() == 1);
    if dir.len() > 0 {
        components_are_names(dir, "user"@);
        assert(dir + "/"@ + "user"@ == dir + "/user"@);
    }
    if home.len() > 0 && home.last() != '/' {
        let above = home + "/.config/systemd"@;
        components_are_names(above, "user"@);
        assert(above + "/"@ + "user"@ == home + "/.config/systemd/user"@);
        assert(joined_path(home, ".config/systemd/user"@) == home + "/.config/systemd/user"@);
    }
}

/// Settings and steps are seen as they are, one by one.
pub proof fn steps_are_seen_whole(c: TuxConfig, s: InitStep, steps: Seq<InitStep>)
    ensures
        config_view(c).kind == c.backend.kind,
        config_view(c).inference == c.inference,
        c.backend.model_path matches Some(t) ==> config_view(c).model_path == Some(t@),
        c.backend.model_path is None ==> config_view(c).model_path is None,
        c.backend.mmproj_path matches Some(t) ==> config_view(c).mmproj_path == Some(t@),
        c.backend.mmproj_path is None ==> config_view(c).mmproj_path is None,
        c.backend.url matches Some(t) ==> config_view(c).url == Some(t@),
        c.backend.url is None ==> config_view(c).url is None,
        c.backend.model matches Some(t) ==> config_view(c).model == Some(t@),
        c.backend.model is None ==> config_view(c).model is None,
        c.backend.api_key matches Some(t) ==> config_view(c).api_key == Some(t@),
        c.backend.api_key is None ==> config_view(c).api_key is None,
        step_views(steps).len() == steps.len(),
        forall|i: int| 0 <= i < steps.len() ==> #[trigger] step_views(steps)[i] == steps[i]@,
        s matches InitStep::Download { url, partial, dest } ==> s@ == (StepView::Download {
            url: url@,
            partial: partial@,
            dest: dest@,
        }),
        s matches InitStep::Keep { piece, dest } ==> s@ == (StepView::Keep { piece, dest: dest@ }),
        s matches InitStep::Validate { model } ==> s@ == (StepView::Validate { model: model@ }),
        s matches InitStep::Link { target, link } ==> s@ == (StepView::Link {
            target: target@,
            link: link@,
        }),
        s matches InitStep::Configure { config } ==> s@ == (StepView::Configure {
            config: config_view(config),
        }),
        s is VisionReady ==> s@ is VisionReady,
        s is SaveKnowledge ==> s@ is SaveKnowledge,
        s is InstallDaemon ==> s@ is InstallDaemon,
        s is SkipDaemon ==> s@ is SkipDaemon,
{
}

/// A model for images is set up with its own projection file.
pub proof fn vision_is_seen_whole(v: ModelEntry, url: &'static str)
    ensures
        vision_view(Some((v, url))) == Some((v@, url@)),
        vision_view(None) is None,
{
}

/// The unit runs the program as the daemon, starts it again where it fails,
/// and belongs to the session.
pub proof fn unit_serves()
    ensures
        has_suffix(UNIT_HEAD@, "\n[Service]\nExecStart="@),
        has_prefix(UNIT_REST@, " daemon serve\nRestart=on-failure\n"@),
        has_suffix(UNIT_REST@, "\n[Install]\nWantedBy=default.target\n"@),
{
    reveal_strlit("[Unit]\nDescription=tux local AI daemon\nAfter=default.target\n\n[Service]\nExecStart=");
    reveal_strlit(" daemon serve\nRestart=on-failure\nRestartSec=2\n\n[Install]\nWantedBy=default.target\n");
    reveal_strlit("\n[Service]\nExecStart=");
    reveal_strlit(" daemon serve\nRestart=on-failure\n");
    reveal_strlit("\n[Install]\nWantedBy=default.target\n");
    let a = "\n[Service]\nExecStart="@;
    let b = " daemon serve\nRestart=on-failure\n"@;
    let c = "\n[Install]\nWantedBy=default.target\n"@;
    assert(UNIT_HEAD@.skip(UNIT_HEAD@.len() - a.len()) == a);
    assert(UNIT_REST@.take(b.len() as int) == b);
    assert(UNIT_REST@.skip(UNIT_REST@.len() - c.len()) == c);
}

} // verus!
