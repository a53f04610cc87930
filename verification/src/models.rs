//! The models that can be set up, and which of them suits a host.
//!
//! All of them speak the same chat template, which is what the prompts of
//! this crate are written in.
use vstd::prelude::*;

use crate::text::same_text;

verus! {

/// What a model takes.
#[derive(Debug, Clone, Copy)]
pub enum ModelKind {
    /// Text only.
    Text,
    /// Text and images. Needs a projection file beside the model.
    Vision { mmproj_url: &'static str, mmproj_size_mib: u32 },
}

/// A model that can be downloaded.
#[derive(Debug, Clone, Copy)]
pub struct ModelEntry {
    /// Short identifier, as it is written on the command line.
    pub id: &'static str,
    /// The name shown to the user.
    pub name: &'static str,
    /// Where the file is.
    pub url: &'static str,
    /// About how large the file is, in MiB.
    pub size_mib: u32,
    /// The least memory, in MiB, that a host should have for it.
    pub min_ram_mib: u32,
    /// How good its answers are; higher is better.
    pub quality: u8,
    /// What it takes.
    pub kind: ModelKind,
}

/// What a model takes, as text and numbers.
pub enum KindView {
    Text,
    Vision { mmproj_url: Seq<char>, mmproj_size_mib: nat },
}

/// A model, as text and numbers.
pub struct ModelView {
    pub id: Seq<char>,
    pub name: Seq<char>,
    pub url: Seq<char>,
    pub size_mib: nat,
    pub min_ram_mib: nat,
    pub quality: nat,
    pub kind: KindView,
}

impl View for ModelKind {
    type V = KindView;

    open spec fn view(&self) -> KindView {
        match *self {
            ModelKind::Text => KindView::Text,
            ModelKind::Vision { mmproj_url, mmproj_size_mib } => KindView::Vision {
                mmproj_url: mmproj_url@,
                mmproj_size_mib: mmproj_size_mib as nat,
            },
        }
    }
}

impl View for ModelEntry {
    type V = ModelView;

    open spec fn view(&self) -> ModelView {
        ModelView {
            id: self.id@,
            name: self.name@,
            url: self.url@,
            size_mib: self.size_mib as nat,
            min_ram_mib: self.min_ram_mib as nat,
            quality: self.quality as nat,
            kind: self.kind@,
        }
    }
}

/// What a model takes unless something else is said.
pub fn default_kind() -> (r: ModelKind)
    ensures
        r == ModelKind::Text,
{
    ModelKind::Text
}

/// The model for images, unless the user names another.
pub const DEFAULT_VISION_MODEL: &'static str = "qwen3-vl-2b";

/// The views of a list of models.
pub open spec fn model_views(entries: Seq<ModelEntry>) -> Seq<ModelView> {
    entries.map_values(|m: ModelEntry| m@)
}

/// The models that can be set up.
pub open spec fn catalogue() -> Seq<ModelView> {
    seq![
        ModelView {
            id: "qwen3.5-4b-q4"@,
            name: "Qwen3.5-4B (Q4_K_M)"@,
            url: "https://huggingface.co/unsloth/Qwen3.5-4B-GGUF/resolve/main/Qwen3.5-4B-Q4_K_M.gguf"@,
            size_mib: 2500,
            min_ram_mib: 6144,
            quality: 80,
            kind: KindView::Text,
        },
        ModelView {
            id: "qwen3.5-2b-q4"@,
            name: "Qwen3.5-2B (Q4_K_M)"@,
            url: "https://huggingface.co/unsloth/Qwen3.5-2B-GGUF/resolve/main/Qwen3.5-2B-Q4_K_M.gguf"@,
            size_mib: 1300,
            min_ram_mib: 3072,
            quality: 60,
            kind: KindView::Text,
        },
        ModelView {
            id: "qwen3.5-0.8b-q4"@,
            name: "Qwen3.5-0.8B (Q4_K_M)"@,
            url: "https://huggingface.co/unsloth/Qwen3.5-0.8B-GGUF/resolve/main/Qwen3.5-0.8B-Q4_K_M.gguf"@,
            size_mib: 600,
            min_ram_mib: 1500,
            quality: 30,
            kind: KindView::Text,
        },
        ModelView {
            id: "qwen3-vl-2b"@,
            name: "Qwen3-VL-2B (Q4_K_M + mmproj)"@,
            url: "https://huggingface.co/unsloth/Qwen3-VL-2B-Instruct-GGUF/resolve/main/Qwen3-VL-2B-Instruct-Q4_K_M.gguf"@,
            size_mib: 1500,
            min_ram_mib: 4096,
            quality: 50,
            kind: KindView::Vision {
                mmproj_url: "https://huggingface.co/unsloth/Qwen3-VL-2B-Instruct-GGUF/resolve/main/mmproj-Qwen3-VL-2B-Instruct-F16.gguf"@,
                mmproj_size_mib: 700,
            },
        },
    ]
}

/// The models that can be set up.
pub fn registry() -> (r: Vec<ModelEntry>)
    ensures
        model_views(r@) == catalogue(),
{
    let mut r: Vec<ModelEntry> = Vec::new();
    r.push(
        ModelEntry {
            id: "qwen3.5-4b-q4",
            name: "Qwen3.5-4B (Q4_K_M)",
            url: "https://huggingface.co/unsloth/Qwen3.5-4B-GGUF/resolve/main/Qwen3.5-4B-Q4_K_M.gguf",
            size_mib: 2500,
            min_ram_mib: 6144,
            quality: 80,
            kind: ModelKind::Text,
        },
    );
    r.push(
        ModelEntry {
            id: "qwen3.5-2b-q4",
            name: "Qwen3.5-2B (Q4_K_M)",
            url: "https://huggingface.co/unsloth/Qwen3.5-2B-GGUF/resolve/main/Qwen3.5-2B-Q4_K_M.gguf",
            size_mib: 1300,
            min_ram_mib: 3072,
            quality: 60,
            kind: ModelKind::Text,
        },
    );
    r.push(
        ModelEntry {
            id: "qwen3.5-0.8b-q4",
            name: "Qwen3.5-0.8B (Q4_K_M)",
            url: "https://huggingface.co/unsloth/Qwen3.5-0.8B-GGUF/resolve/main/Qwen3.5-0.8B-Q4_K_M.gguf",
            size_mib: 600,
            min_ram_mib: 1500,
            quality: 30,
            kind: ModelKind::Text,
        },
    );
    r.push(
        ModelEntry {
            id: "qwen3-vl-2b",
            name: "Qwen3-VL-2B (Q4_K_M + mmproj)",
            url: "https://huggingface.co/unsloth/Qwen3-VL-2B-Instruct-GGUF/resolve/main/Qwen3-VL-2B-Instruct-Q4_K_M.gguf",
            size_mib: 1500,
            min_ram_mib: 4096,
            quality: 50,
            kind: ModelKind::Vision {
                mmproj_url: "https://huggingface.co/unsloth/Qwen3-VL-2B-Instruct-GGUF/resolve/main/mmproj-Qwen3-VL-2B-Instruct-F16.gguf",
                mmproj_size_mib: 700,
            },
        },
    );
    assert(model_views(r@) == catalogue());
    r
}

/// The model with the identifier `id`.
pub fn lookup(id: &str) -> (r: Option<ModelEntry>)
    ensures
        r is Some == exists|i: int| 0 <= i < catalogue().len() && #[trigger] catalogue()[i].id == id@,
        r matches Some(m) ==> m@.id == id@ && catalogue().contains(m@),
{
    let all = registry();
    let ghost views = model_views(all@);
    let mut i: usize = 0;
    while i < all.len()
        invariant
            i <= all@.len(),
            views == catalogue(),
            views == model_views(all@),
            forall|j: int| 0 <= j < i ==> (#[trigger] views[j]).id != id@,
        decreases all@.len() - i,
    {
        assert(views[i as int] == all@[i as int]@);
        if same_text(all[i].id, id) {
            assert(catalogue()[i as int].id == id@);
            return Some(all[i]);
        }
        i += 1;
    }
    None
}

/// Whether a model takes text only.
pub fn is_text(m: &ModelEntry) -> (r: bool)
    ensures
        r == (m@.kind is Text),
{
    match m.kind {
        ModelKind::Text => true,
        ModelKind::Vision { .. } => false,
    }
}

/// The best quality that a processor with so many cores keeps up with.
pub open spec fn quality_cap(cpu_cores: int) -> int {
    if cpu_cores <= 3 {
        30
    } else if cpu_cores <= 5 {
        60
    } else {
        80
    }
}

/// Whether a text model suits a host.
pub open spec fn suits(m: ModelView, total_ram_mib: int, cpu_cores: int) -> bool {
    &&& m.kind is Text
    &&& m.min_ram_mib <= total_ram_mib
    &&& m.quality <= quality_cap(cpu_cores)
}

/// Whether `m` is the model for a host: the best of those that suit it, or
/// the smallest text model where none does.
pub open spec fn is_pick(m: ModelView, total_ram_mib: int, cpu_cores: int) -> bool {
    &&& catalogue().contains(m)
    &&& m.kind is Text
    &&& if exists|i: int|
        0 <= i < catalogue().len() && suits(#[trigger] catalogue()[i], total_ram_mib, cpu_cores) {
        &&& suits(m, total_ram_mib, cpu_cores)
        &&& forall|i: int|
            0 <= i < catalogue().len() && suits(
                #[trigger] catalogue()[i],
                total_ram_mib,
                cpu_cores,
            ) ==> catalogue()[i].quality <= m.quality
    } else {
        forall|i: int|
            0 <= i < catalogue().len() && (#[trigger] catalogue()[i]).kind is Text ==> m.size_mib
                <= catalogue()[i].size_mib
    }
}

/// The text model for a host with so much memory and so many cores.
pub fn pick_for_host(total_ram_mib: u32, cpu_cores: u32) -> (r: ModelEntry)
    ensures
        is_pick(r@, total_ram_mib as int, cpu_cores as int),
{
    let cap: u8 = if cpu_cores <= 3 {
        30
    } else if cpu_cores <= 5 {
        60
    } else {
        80
    };
    let all = registry();
    let ghost views = model_views(all@);
    assert(catalogue().len() == 4);
    assert(views.len() == all@.len());
    assert(views[0] == all@[0]@);
    let mut best: Option<usize> = None;
    let mut smallest: usize = 0;
    let mut i: usize = 0;
    while i < all.len()
        invariant
            i <= all@.len(),
            views == catalogue(),
            views == model_views(all@),
            all@.len() == 4,
            cap == quality_cap(cpu_cores as int),
            best matches Some(b) ==> b < i && suits(
                views[b as int],
                total_ram_mib as int,
                cpu_cores as int,
            ),
            forall|j: int|
                0 <= j < i && suits(
                    #[trigger] views[j],
                    total_ram_mib as int,
                    cpu_cores as int,
                ) ==> best is Some && views[j].quality <= views[best->0 as int].quality,
            smallest < all@.len(),
            views[smallest as int].kind is Text,
            forall|j: int|
                0 <= j < i && (#[trigger] views[j]).kind is Text ==> views[smallest as int].size_mib
                    <= views[j].size_mib,
        decreases all@.len() - i,
    {
        let m = &all[i];
        assert(views[i as int] == m@);
        assert(views[smallest as int] == all@[smallest as int]@);
        if is_text(m) {
            if m.min_ram_mib <= total_ram_mib && m.quality <= cap {
                let better = match best {
                    Some(b) => {
                        assert(views[b as int] == all@[b as int]@);
                        all[b].quality <= m.quality
                    },
                    None => true,
                };
                if better {
                    best = Some(i);
                }
            }
            if m.size_mib < all[smallest].size_mib {
                smallest = i;
            }
        }
        i += 1;
    }
    match best {
        Some(b) => {
            assert(views[b as int] == all@[b as int]@);
            all[b]
        },
        None => {
            assert(views[smallest as int] == all@[smallest as int]@);
            all[smallest]
        },
    }
}

/// No two models share an identifier, so that each is what its identifier
/// looks up.
pub proof fn identifiers_differ(i: int, j: int)
    requires
        0 <= i < catalogue().len(),
        0 <= j < catalogue().len(),
        catalogue()[i].id == catalogue()[j].id,
    ensures
        i == j,
{
    reveal_strlit("qwen3.5-4b-q4");
    reveal_strlit("qwen3.5-2b-q4");
    reveal_strlit("qwen3.5-0.8b-q4");
    reveal_strlit("qwen3-vl-2b");
    assert("qwen3.5-4b-q4"@[8] == '4');
    assert("qwen3.5-2b-q4"@[8] == '2');
    assert(catalogue().len() == 4);
    assert(catalogue()[0].id == "qwen3.5-4b-q4"@);
    assert(catalogue()[1].id == "qwen3.5-2b-q4"@);
    assert(catalogue()[2].id == "qwen3.5-0.8b-q4"@);
    assert(catalogue()[3].id == "qwen3-vl-2b"@);
    assert(i == 0 || i == 1 || i == 2 || i == 3);
    assert(j == 0 || j == 1 || j == 2 || j == 3);
}

/// The usual model for images is one of the models, and takes images.
pub proof fn default_vision_model_is_there()
    ensures
        exists|i: int|
            0 <= i < catalogue().len() && #[trigger] catalogue()[i].id == DEFAULT_VISION_MODEL@
                && catalogue()[i].kind is Vision,
{
    assert(catalogue()[3].id == DEFAULT_VISION_MODEL@);
}

/// There is one model for a host.
pub proof fn pick_is_unique(a: ModelView, b: ModelView, total_ram_mib: int, cpu_cores: int)
    requires
        is_pick(a, total_ram_mib, cpu_cores),
        is_pick(b, total_ram_mib, cpu_cores),
    ensures
        a == b,
{
    let i = choose|i: int| 0 <= i < catalogue().len() && catalogue()[i] == a;
    let j = choose|j: int| 0 <= j < catalogue().len() && catalogue()[j] == b;
    assert(catalogue()[i] == a && catalogue()[j] == b);
}

/// A host with no less memory and no fewer cores gets no worse a model.
pub proof fn more_host_no_worse_model(
    a: ModelView,
    b: ModelView,
    ram_a: int,
    cores_a: int,
    ram_b: int,
    cores_b: int,
)
    requires
        is_pick(a, ram_a, cores_a),
        is_pick(b, ram_b, cores_b),
        ram_a <= ram_b,
        cores_a <= cores_b,
    ensures
        a.quality <= b.quality,
{
    let i = choose|i: int| 0 <= i < catalogue().len() && catalogue()[i] == a;
    let j = choose|j: int| 0 <= j < catalogue().len() && catalogue()[j] == b;
    assert(catalogue()[i] == a && catalogue()[j] == b);
    if suits(a, ram_a, cores_a) {
        assert(suits(catalogue()[i], ram_b, cores_b));
    }
    assert(catalogue()[2].kind is Text);
}

/// What each identifier stands for: its file, its size, the memory it needs
/// and how good it is; and only the model for images has a projection file.
pub proof fn models_by_identifier(m: ModelView)
    requires
        catalogue().contains(m),
    ensures
        m.id == "qwen3.5-4b-q4"@ ==> m.url
            == "https://huggingface.co/unsloth/Qwen3.5-4B-GGUF/resolve/main/Qwen3.5-4B-Q4_K_M.gguf"@
            && m.name == "Qwen3.5-4B (Q4_K_M)"@ && m.size_mib == 2500 && m.min_ram_mib == 6144
            && m.quality == 80 && m.kind is Text,
        m.id == "qwen3.5-2b-q4"@ ==> m.url
            == "https://huggingface.co/unsloth/Qwen3.5-2B-GGUF/resolve/main/Qwen3.5-2B-Q4_K_M.gguf"@
            && m.name == "Qwen3.5-2B (Q4_K_M)"@ && m.size_mib == 1300 && m.min_ram_mib == 3072
            && m.quality == 60 && m.kind is Text,
        m.id == "qwen3.5-0.8b-q4"@ ==> m.url
            == "https://huggingface.co/unsloth/Qwen3.5-0.8B-GGUF/resolve/main/Qwen3.5-0.8B-Q4_K_M.gguf"@
            && m.name == "Qwen3.5-0.8B (Q4_K_M)"@ && m.size_mib == 600 && m.min_ram_mib == 1500
            && m.quality == 30 && m.kind is Text,
        m.id == "qwen3-vl-2b"@ ==> m.url
            == "https://huggingface.co/unsloth/Qwen3-VL-2B-Instruct-GGUF/resolve/main/Qwen3-VL-2B-Instruct-Q4_K_M.gguf"@
            && m.name == "Qwen3-VL-2B (Q4_K_M + mmproj)"@ && m.size_mib == 1500 && m.min_ram_mib
            == 4096 && m.quality == 50 && m.kind == (KindView::Vision {
            mmproj_url: "https://huggingface.co/unsloth/Qwen3-VL-2B-Instruct-GGUF/resolve/main/mmproj-Qwen3-VL-2B-Instruct-F16.gguf"@,
            mmproj_size_mib: 700,
        }),
        m.id == "qwen3.5-4b-q4"@ || m.id == "qwen3.5-2b-q4"@ || m.id == "qwen3.5-0.8b-q4"@ || m.id
            == "qwen3-vl-2b"@,
{
    let all = catalogue();
    assert(all.len() == 4);
    let k = choose|k: int| 0 <= k < all.len() && all[k] == m;
    assert(all[0].id == "qwen3.5-4b-q4"@);
    assert(all[1].id == "qwen3.5-2b-q4"@);
    assert(all[2].id == "qwen3.5-0.8b-q4"@);
    assert(all[3].id == "qwen3-vl-2b"@);
    if m.id == all[0].id {
        identifiers_differ(k, 0);
    }
    if m.id == all[1].id {
        identifiers_differ(k, 1);
    }
    if m.id == all[2].id {
        identifiers_differ(k, 2);
    }
    if m.id == all[3].id {
        identifiers_differ(k, 3);
    }
}

/// Which model a host gets: the large one with six cores and 6 GiB, the middle
/// one with four cores and 3 GiB, and the small one otherwise, however little
/// the host has.
pub proof fn model_follows_the_host(m: ModelView, total_ram_mib: int, cpu_cores: int)
    requires
        is_pick(m, total_ram_mib, cpu_cores),
    ensures
        m.id == (if cpu_cores >= 6 && total_ram_mib >= 6144 {
            "qwen3.5-4b-q4"@
        } else if cpu_cores >= 4 && total_ram_mib >= 3072 {
            "qwen3.5-2b-q4"@
        } else {
            "qwen3.5-0.8b-q4"@
        }),
        catalogue().contains(m),
{
    let all = catalogue();
    assert(all.len() == 4);
    let k = choose|k: int| 0 <= k < all.len() && all[k] == m;
    assert(all[k] == m);
    assert(all[0].kind is Text && all[1].kind is Text && all[2].kind is Text);
    if suits(all[0], total_ram_mib, cpu_cores) {
    } else if suits(all[1], total_ram_mib, cpu_cores) {
    } else if suits(all[2], total_ram_mib, cpu_cores) {
    }
    assert(k == 0 || k == 1 || k == 2 || k == 3);
}

/// Models are seen as they are, one by one.
pub proof fn models_are_seen_whole(m: ModelEntry, entries: Seq<ModelEntry>)
    ensures
        m@.id == m.id@,
        m@.name == m.name@,
        m@.url == m.url@,
        m@.size_mib == m.size_mib,
        m@.min_ram_mib == m.min_ram_mib,
        m@.quality == m.quality,
        m.kind is Text <==> m@.kind is Text,
        m.kind matches ModelKind::Vision { mmproj_url, mmproj_size_mib } ==> m@.kind == (
        KindView::Vision { mmproj_url: mmproj_url@, mmproj_size_mib: mmproj_size_mib as nat }),
        model_views(entries).len() == entries.len(),
        forall|i: int| 0 <= i < entries.len() ==> #[trigger] model_views(entries)[i] == entries[i]@,
{
}

} // verus!
