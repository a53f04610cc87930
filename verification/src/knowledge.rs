//! Facts about a distribution that the model should not have to work out
//! anew each time: the package manager, how to install and remove things,
//! how to become root.
//!
//! There are two layers. A curated table, [`known`], covers the common
//! distributions. A file the user can edit wins over it where it is present;
//! the program around this crate reads and writes that file.
use vstd::prelude::*;

use crate::json::{json_view_of_parts, json_views, text_list, Json, JsonView, ObjectBuilder};
use crate::paths::opt_text;
use crate::text::{copy_texts, join, joined, same_text, texts};

verus! {

/// What is known of a distribution.
#[derive(Debug, PartialEq, Eq)]
pub struct DistroKnowledge {
    /// Human label, such as "pacman" or "apt".
    pub package_manager: String,
    /// Command template; `{pkg}` stands for the package's name.
    pub install_cmd: String,
    pub remove_cmd: String,
    pub search_cmd: String,
    pub update_cmd: String,
    /// How to become root: mostly `sudo`, sometimes `doas` or `pkexec`.
    pub escalation: String,
    /// How services are run, such as `systemctl` or `rc-service`.
    pub service_manager: String,
    /// Configuration paths worth knowing.
    pub config_paths: Vec<String>,
    /// Quirks of the distribution, one remark each.
    pub notes: Vec<String>,
}

/// What is known of a distribution, as text.
#[verifier::ext_equal]
pub struct KnowledgeView {
    pub package_manager: Seq<char>,
    pub install_cmd: Seq<char>,
    pub remove_cmd: Seq<char>,
    pub search_cmd: Seq<char>,
    pub update_cmd: Seq<char>,
    pub escalation: Seq<char>,
    pub service_manager: Seq<char>,
    pub config_paths: Seq<Seq<char>>,
    pub notes: Seq<Seq<char>>,
}

impl View for DistroKnowledge {
    type V = KnowledgeView;

    open spec fn view(&self) -> KnowledgeView {
        KnowledgeView {
            package_manager: self.package_manager@,
            install_cmd: self.install_cmd@,
            remove_cmd: self.remove_cmd@,
            search_cmd: self.search_cmd@,
            update_cmd: self.update_cmd@,
            escalation: self.escalation@,
            service_manager: self.service_manager@,
            config_paths: texts(self.config_paths@),
            notes: texts(self.notes@),
        }
    }
}

/// What is known, where anything is.
pub open spec fn opt_knowledge(k: Option<DistroKnowledge>) -> Option<KnowledgeView> {
    match k {
        Some(k) => Some(k@),
        None => None,
    }
}

/// The lines of the prompt that hold `notes`.
pub open spec fn note_lines(notes: Seq<Seq<char>>) -> Seq<char>
    decreases notes.len(),
{
    if notes.len() == 0 {
        Seq::empty()
    } else {
        note_lines(notes.drop_last()) + ("- note: "@ + notes.last() + "\n"@)
    }
}

/// The line of the prompt that holds `paths`, if there are any.
pub open spec fn config_line(paths: Seq<Seq<char>>) -> Seq<char> {
    if paths.len() == 0 {
        Seq::empty()
    } else {
        "- config: "@ + joined(paths, ", "@) + "\n"@
    }
}

impl KnowledgeView {
    /// What the prompt says of the distribution.
    pub open spec fn block(self) -> Seq<char> {
        "Package management & system commands:\n"@ + ("- package manager: "@ + self.package_manager
            + "\n"@) + ("- install: "@ + self.install_cmd + "\n"@) + ("- remove:  "@
            + self.remove_cmd + "\n"@) + ("- search:  "@ + self.search_cmd + "\n"@) + (
        "- update:  "@ + self.update_cmd + "\n"@) + ("- escalate: "@ + self.escalation + "\n"@) + (
        "- services: "@ + self.service_manager + "\n"@) + config_line(self.config_paths)
            + note_lines(self.notes)
    }
}

/// Appends the line `label` + `value` to `out`.
pub(crate) fn push_line(out: &mut String, label: &str, value: &str)
    ensures
        final(out)@ == old(out)@ + (label@ + value@ + "\n"@),
{
    out.append(label);
    out.append(value);
    out.append("\n");
    assert(out@ == old(out)@ + (label@ + value@ + "\n"@));
}

impl DistroKnowledge {
    /// What the prompt says of the distribution.
    pub fn as_prompt_block(&self) -> (r: String)
        ensures
            r@ == self@.block(),
    {
        let mut s = "Package management & system commands:\n".to_string();
        push_line(&mut s, "- package manager: ", &self.package_manager);
        push_line(&mut s, "- install: ", &self.install_cmd);
        push_line(&mut s, "- remove:  ", &self.remove_cmd);
        push_line(&mut s, "- search:  ", &self.search_cmd);
        push_line(&mut s, "- update:  ", &self.update_cmd);
        push_line(&mut s, "- escalate: ", &self.escalation);
        push_line(&mut s, "- services: ", &self.service_manager);
        if self.config_paths.len() > 0 {
            let paths = join(&self.config_paths, ", ");
            push_line(&mut s, "- config: ", &paths);
        } else {
            assert(s@ + Seq::<char>::empty() == s@);
        }
        let ghost start = s@;
        let mut i: usize = 0;
        while i < self.notes.len()
            invariant
                i <= self.notes.len(),
                s@ == start + note_lines(texts(self.notes@).take(i as int)),
            decreases self.notes.len() - i,
        {
            push_line(&mut s, "- note: ", &self.notes[i]);
            i += 1;
            proof {
                let upto = texts(self.notes@).take(i as int);
                assert(upto.drop_last() == texts(self.notes@).take(i - 1));
                assert(upto.last() == self.notes@[i - 1]@);
            }
        }
        assert(texts(self.notes@).take(i as int) == texts(self.notes@));
        s
    }

    /// The same facts again.
    pub fn duplicate(&self) -> (r: Self)
        ensures
            r@ == self@,
    {
        DistroKnowledge {
            package_manager: self.package_manager.clone(),
            install_cmd: self.install_cmd.clone(),
            remove_cmd: self.remove_cmd.clone(),
            search_cmd: self.search_cmd.clone(),
            update_cmd: self.update_cmd.clone(),
            escalation: self.escalation.clone(),
            service_manager: self.service_manager.clone(),
            config_paths: copy_texts(&self.config_paths),
            notes: copy_texts(&self.notes),
        }
    }
}

/// What is known of the distributions that use `nix`.
pub open spec fn nix_facts() -> KnowledgeView {
    KnowledgeView {
        package_manager: "nix"@,
        install_cmd: "nix-env -iA nixos.{pkg}"@,
        remove_cmd: "nix-env -e {pkg}"@,
        search_cmd: "nix search nixpkgs {pkg}"@,
        update_cmd: "sudo nixos-rebuild switch"@,
        escalation: "sudo"@,
        service_manager: "systemctl"@,
        config_paths: seq!["/etc/nixos/configuration.nix"@],
        notes: seq![
            "prefer adding packages to /etc/nixos/configuration.nix and rebuilding over imperative installs"@,
            "user-level: home-manager if installed, else nix-env"@,
        ],
    }
}

/// What is known of the distributions that use `pacman`.
pub open spec fn pacman_facts() -> KnowledgeView {
    KnowledgeView {
        package_manager: "pacman"@,
        install_cmd: "sudo pacman -S {pkg}"@,
        remove_cmd: "sudo pacman -Rns {pkg}"@,
        search_cmd: "pacman -Ss {pkg}"@,
        update_cmd: "sudo pacman -Syu"@,
        escalation: "sudo"@,
        service_manager: "systemctl"@,
        config_paths: seq!["/etc/pacman.conf"@],
        notes: seq!["AUR helpers (yay, paru) handle community packages if installed"@],
    }
}

/// What is known of the distributions that use `apt`.
pub open spec fn apt_facts() -> KnowledgeView {
    KnowledgeView {
        package_manager: "apt"@,
        install_cmd: "sudo apt install {pkg}"@,
        remove_cmd: "sudo apt remove {pkg}"@,
        search_cmd: "apt search {pkg}"@,
        update_cmd: "sudo apt update && sudo apt upgrade"@,
        escalation: "sudo"@,
        service_manager: "systemctl"@,
        config_paths: seq![
            "/etc/apt/sources.list"@,
            "/etc/apt/sources.list.d/"@,
        ],
        notes: Seq::empty(),
    }
}

/// What is known of the distributions that use `dnf`.
pub open spec fn dnf_facts() -> KnowledgeView {
    KnowledgeView {
        package_manager: "dnf"@,
        install_cmd: "sudo dnf install {pkg}"@,
        remove_cmd: "sudo dnf remove {pkg}"@,
        search_cmd: "dnf search {pkg}"@,
        update_cmd: "sudo dnf upgrade"@,
        escalation: "sudo"@,
        service_manager: "systemctl"@,
        config_paths: seq!["/etc/dnf/dnf.conf"@],
        notes: seq!["RPMFusion repo needed for many media codecs"@],
    }
}

/// What is known of the distributions that use `zypper`.
pub open spec fn zypper_facts() -> KnowledgeView {
    KnowledgeView {
        package_manager: "zypper"@,
        install_cmd: "sudo zypper install {pkg}"@,
        remove_cmd: "sudo zypper remove {pkg}"@,
        search_cmd: "zypper search {pkg}"@,
        update_cmd: "sudo zypper dup"@,
        escalation: "sudo"@,
        service_manager: "systemctl"@,
        config_paths: seq!["/etc/zypp/"@],
        notes: Seq::empty(),
    }
}

/// What is known of the distributions that use `apk`.
pub open spec fn apk_facts() -> KnowledgeView {
    KnowledgeView {
        package_manager: "apk"@,
        install_cmd: "sudo apk add {pkg}"@,
        remove_cmd: "sudo apk del {pkg}"@,
        search_cmd: "apk search {pkg}"@,
        update_cmd: "sudo apk upgrade"@,
        escalation: "sudo"@,
        service_manager: "rc-service"@,
        config_paths: seq!["/etc/apk/repositories"@],
        notes: seq!["uses OpenRC, not systemd"@],
    }
}

/// What is known of the distributions that use `xbps`.
pub open spec fn xbps_facts() -> KnowledgeView {
    KnowledgeView {
        package_manager: "xbps"@,
        install_cmd: "sudo xbps-install -S {pkg}"@,
        remove_cmd: "sudo xbps-remove {pkg}"@,
        search_cmd: "xbps-query -Rs {pkg}"@,
        update_cmd: "sudo xbps-install -Su"@,
        escalation: "sudo"@,
        service_manager: "sv"@,
        config_paths: seq!["/etc/xbps.d/"@],
        notes: seq!["uses runit for services, not systemd"@],
    }
}

/// The curated facts for a distribution, by its identifier.
pub open spec fn known_facts(id: Seq<char>) -> Option<KnowledgeView> {
    if id == "nixos"@ {
        Some(nix_facts())
    } else if id == "arch"@ || id == "endeavouros"@ || id == "manjaro"@ {
        Some(pacman_facts())
    } else if id == "debian"@ || id == "ubuntu"@ || id == "linuxmint"@ || id == "pop"@ {
        Some(apt_facts())
    } else if id == "fedora"@ || id == "rhel"@ || id == "centos"@ || id == "rocky"@ || id == "almalinux"@ {
        Some(dnf_facts())
    } else if id == "opensuse-tumbleweed"@ || id == "opensuse-leap"@ || id == "opensuse"@ {
        Some(zypper_facts())
    } else if id == "alpine"@ {
        Some(apk_facts())
    } else if id == "void"@ {
        Some(xbps_facts())
    } else {
        None
    }
}

fn nix_knowledge() -> (r: DistroKnowledge)
    ensures
        r@ == nix_facts(),
{
    let mut config_paths: Vec<String> = Vec::new();
    config_paths.push("/etc/nixos/configuration.nix".to_string());
    let mut notes: Vec<String> = Vec::new();
    notes.push("prefer adding packages to /etc/nixos/configuration.nix and rebuilding over imperative installs".to_string());
    notes.push("user-level: home-manager if installed, else nix-env".to_string());
    assert(texts(config_paths@) == nix_facts().config_paths);
    assert(texts(notes@) == nix_facts().notes);
    DistroKnowledge {
        package_manager: "nix".to_string(),
        install_cmd: "nix-env -iA nixos.{pkg}".to_string(),
        remove_cmd: "nix-env -e {pkg}".to_string(),
        search_cmd: "nix search nixpkgs {pkg}".to_string(),
        update_cmd: "sudo nixos-rebuild switch".to_string(),
        escalation: "sudo".to_string(),
        service_manager: "systemctl".to_string(),
        config_paths,
        notes,
    }
}

fn pacman_knowledge() -> (r: DistroKnowledge)
    ensures
        r@ == pacman_facts(),
{
    let mut config_paths: Vec<String> = Vec::new();
    config_paths.push("/etc/pacman.conf".to_string());
    let mut notes: Vec<String> = Vec::new();
    notes.push("AUR helpers (yay, paru) handle community packages if installed".to_string());
    assert(texts(config_paths@) == pacman_facts().config_paths);
    assert(texts(notes@) == pacman_facts().notes);
    DistroKnowledge {
        package_manager: "pacman".to_string(),
        install_cmd: "sudo pacman -S {pkg}".to_string(),
        remove_cmd: "sudo pacman -Rns {pkg}".to_string(),
        search_cmd: "pacman -Ss {pkg}".to_string(),
        update_cmd: "sudo pacman -Syu".to_string(),
        escalation: "sudo".to_string(),
        service_manager: "systemctl".to_string(),
        config_paths,
        notes,
    }
}

fn apt_knowledge() -> (r: DistroKnowledge)
    ensures
        r@ == apt_facts(),
{
    let mut config_paths: Vec<String> = Vec::new();
    config_paths.push("/etc/apt/sources.list".to_string());
    config_paths.push("/etc/apt/sources.list.d/".to_string());
    let notes: Vec<String> = Vec::new();
    assert(texts(config_paths@) == apt_facts().config_paths);
    assert(texts(notes@) == apt_facts().notes);
    DistroKnowledge {
        package_manager: "apt".to_string(),
        install_cmd: "sudo apt install {pkg}".to_string(),
        remove_cmd: "sudo apt remove {pkg}".to_string(),
        search_cmd: "apt search {pkg}".to_string(),
        update_cmd: "sudo apt update && sudo apt upgrade".to_string(),
        escalation: "sudo".to_string(),
        service_manager: "systemctl".to_string(),
        config_paths,
        notes,
    }
}

fn dnf_knowledge() -> (r: DistroKnowledge)
    ensures
        r@ == dnf_facts(),
{
    let mut config_paths: Vec<String> = Vec::new();
    config_paths.push("/etc/dnf/dnf.conf".to_string());
    let mut notes: Vec<String> = Vec::new();
    notes.push("RPMFusion repo needed for many media codecs".to_string());
    assert(texts(config_paths@) == dnf_facts().config_paths);
    assert(texts(notes@) == dnf_facts().notes);
    DistroKnowledge {
        package_manager: "dnf".to_string(),
        install_cmd: "sudo dnf install {pkg}".to_string(),
        remove_cmd: "sudo dnf remove {pkg}".to_string(),
        search_cmd: "dnf search {pkg}".to_string(),
        update_cmd: "sudo dnf upgrade".to_string(),
        escalation: "sudo".to_string(),
        service_manager: "systemctl".to_string(),
        config_paths,
        notes,
    }
}

fn zypper_knowledge() -> (r: DistroKnowledge)
    ensures
        r@ == zypper_facts(),
{
    let mut config_paths: Vec<String> = Vec::new();
    config_paths.push("/etc/zypp/".to_string());
    let notes: Vec<String> = Vec::new();
    assert(texts(config_paths@) == zypper_facts().config_paths);
    assert(texts(notes@) == zypper_facts().notes);
    DistroKnowledge {
        package_manager: "zypper".to_string(),
        install_cmd: "sudo zypper install {pkg}".to_string(),
        remove_cmd: "sudo zypper remove {pkg}".to_string(),
        search_cmd: "zypper search {pkg}".to_string(),
        update_cmd: "sudo zypper dup".to_string(),
        escalation: "sudo".to_string(),
        service_manager: "systemctl".to_string(),
        config_paths,
        notes,
    }
}

fn apk_knowledge() -> (r: DistroKnowledge)
    ensures
        r@ == apk_facts(),
{
    let mut config_paths: Vec<String> = Vec::new();
    config_paths.push("/etc/apk/repositories".to_string());
    let mut notes: Vec<String> = Vec::new();
    notes.push("uses OpenRC, not systemd".to_string());
    assert(texts(config_paths@) == apk_facts().config_paths);
    assert(texts(notes@) == apk_facts().notes);
    DistroKnowledge {
        package_manager: "apk".to_string(),
        install_cmd: "sudo apk add {pkg}".to_string(),
        remove_cmd: "sudo apk del {pkg}".to_string(),
        search_cmd: "apk search {pkg}".to_string(),
        update_cmd: "sudo apk upgrade".to_string(),
        escalation: "sudo".to_string(),
        service_manager: "rc-service".to_string(),
        config_paths,
        notes,
    }
}

fn xbps_knowledge() -> (r: DistroKnowledge)
    ensures
        r@ == xbps_facts(),
{
    let mut config_paths: Vec<String> = Vec::new();
    config_paths.push("/etc/xbps.d/".to_string());
    let mut notes: Vec<String> = Vec::new();
    notes.push("uses runit for services, not systemd".to_string());
    assert(texts(config_paths@) == xbps_facts().config_paths);
    assert(texts(notes@) == xbps_facts().notes);
    DistroKnowledge {
        package_manager: "xbps".to_string(),
        install_cmd: "sudo xbps-install -S {pkg}".to_string(),
        remove_cmd: "sudo xbps-remove {pkg}".to_string(),
        search_cmd: "xbps-query -Rs {pkg}".to_string(),
        update_cmd: "sudo xbps-install -Su".to_string(),
        escalation: "sudo".to_string(),
        service_manager: "sv".to_string(),
        config_paths,
        notes,
    }
}

/// Curated facts for the distributions that are recognized.
pub fn known(id: &str) -> (r: Option<DistroKnowledge>)
    ensures
        opt_knowledge(r) == known_facts(id@),
{
    if same_text(id, "nixos") {
        Some(nix_knowledge())
    } else if same_text(id, "arch")
        || same_text(id, "endeavouros")
        || same_text(id, "manjaro") {
        Some(pacman_knowledge())
    } else if same_text(id, "debian")
        || same_text(id, "ubuntu")
        || same_text(id, "linuxmint")
        || same_text(id, "pop") {
        Some(apt_knowledge())
    } else if same_text(id, "fedora")
        || same_text(id, "rhel")
        || same_text(id, "centos")
        || same_text(id, "rocky")
        || same_text(id, "almalinux") {
        Some(dnf_knowledge())
    } else if same_text(id, "opensuse-tumbleweed")
        || same_text(id, "opensuse-leap")
        || same_text(id, "opensuse") {
        Some(zypper_knowledge())
    } else if same_text(id, "alpine") {
        Some(apk_knowledge())
    } else if same_text(id, "void") {
        Some(xbps_knowledge())
    } else {
        None
    }
}
/// What holds of a distribution: what the user's file says, where it could
/// be read, and the curated facts otherwise.
pub open spec fn facts_for(id: Seq<char>, cached: Option<KnowledgeView>) -> Option<KnowledgeView> {
    match cached {
        Some(k) => Some(k),
        None => known_facts(id),
    }
}

/// What is known of the distribution `distro_id`, given what the user's
/// file holds; `None` where neither has anything on it.
pub fn for_distro(distro_id: &str, cached: Option<DistroKnowledge>) -> (r: Option<DistroKnowledge>)
    ensures
        opt_knowledge(r) == facts_for(distro_id@, opt_knowledge(cached)),
{
    match cached {
        Some(k) => Some(k),
        None => known(distro_id),
    }
}

/// The fields of [`DistroKnowledge`] that hold one text.
pub open spec fn is_text_field(field: Seq<char>) -> bool {
    ||| field == "package_manager"@
    ||| field == "install_cmd"@
    ||| field == "remove_cmd"@
    ||| field == "search_cmd"@
    ||| field == "update_cmd"@
    ||| field == "escalation"@
    ||| field == "service_manager"@
}

/// The fields of [`DistroKnowledge`] that hold a list.
pub open spec fn is_list_field(field: Seq<char>) -> bool {
    field == "config_paths"@ || field == "notes"@
}

impl KnowledgeView {
    /// The same facts, but for the text field `field`.
    pub open spec fn with_text(self, field: Seq<char>, value: Seq<char>) -> Self {
        if field == "package_manager"@ {
            KnowledgeView { package_manager: value, ..self }
        } else if field == "install_cmd"@ {
            KnowledgeView { install_cmd: value, ..self }
        } else if field == "remove_cmd"@ {
            KnowledgeView { remove_cmd: value, ..self }
        } else if field == "search_cmd"@ {
            KnowledgeView { search_cmd: value, ..self }
        } else if field == "update_cmd"@ {
            KnowledgeView { update_cmd: value, ..self }
        } else if field == "escalation"@ {
            KnowledgeView { escalation: value, ..self }
        } else {
            KnowledgeView { service_manager: value, ..self }
        }
    }

    /// The same facts, but for the list field `field`.
    pub open spec fn with_list(self, field: Seq<char>, value: Seq<Seq<char>>) -> Self {
        if field == "config_paths"@ {
            KnowledgeView { config_paths: value, ..self }
        } else {
            KnowledgeView { notes: value, ..self }
        }
    }
}

/// The texts of an array that holds nothing else.
pub open spec fn all_texts(items: Seq<JsonView>) -> Option<Seq<Seq<char>>> {
    if forall|i: int| 0 <= i < items.len() ==> (#[trigger] items[i]) is Text {
        Some(Seq::new(items.len(), |i: int| items[i]->Text_0))
    } else {
        None
    }
}

/// Why a field could not be changed.
#[derive(Debug, PartialEq, Eq)]
pub enum FieldError {
    /// Nothing is known of this distribution, so there is nothing to change.
    NoKnowledge,
    /// There is no such field.
    UnknownField,
    /// The field holds one text, and the value is something else.
    NotText,
    /// The field holds a list of texts, and the value is something else.
    NotTexts,
}

/// The facts `k` after `field` is set to `value`.
pub open spec fn field_set(k: KnowledgeView, field: Seq<char>, value: JsonView) -> Result<
    KnowledgeView,
    FieldError,
> {
    if is_text_field(field) {
        match value {
            JsonView::Text(t) => Ok(k.with_text(field, t)),
            _ => Err(FieldError::NotText),
        }
    } else if is_list_field(field) {
        match value {
            JsonView::Array(items) => match all_texts(items) {
                Some(list) => Ok(k.with_list(field, list)),
                None => Err(FieldError::NotTexts),
            },
            _ => Err(FieldError::NotTexts),
        }
    } else {
        Err(FieldError::UnknownField)
    }
}

/// The outcome of a change, as text.
pub open spec fn result_view(r: Result<DistroKnowledge, FieldError>) -> Result<
    KnowledgeView,
    FieldError,
> {
    match r {
        Ok(k) => Ok(k@),
        Err(e) => Err(e),
    }
}

/// The texts of an array that holds nothing else.
fn read_texts(value: &Json) -> (r: Option<Vec<String>>)
    ensures
        match value@ {
            JsonView::Array(items) => match all_texts(items) {
                Some(list) => r matches Some(v) && texts(v@) == list,
                None => r is None,
            },
            _ => r is None,
        },
{
    broadcast use json_view_of_parts;

    match value {
        Json::Array(items) => {
            let ghost views = json_views(items@);
            let mut out: Vec<String> = Vec::new();
            let mut i: usize = 0;
            while i < items.len()
                invariant
                    i <= items@.len(),
                    views == json_views(items@),
                    value@ == JsonView::Array(views),
                    out@.len() == i,
                    forall|j: int| 0 <= j < i ==> #[trigger] views[j] == JsonView::Text(out@[j]@),
                decreases items@.len() - i,
            {
                assert(views[i as int] == items@[i as int]@);
                match items[i].as_str() {
                    Some(t) => {
                        out.push(t.to_string());
                    },
                    None => {
                        assert(views[i as int] !is Text);
                        return None;
                    },
                }
                i += 1;
            }
            proof {
                assert(forall|j: int| 0 <= j < views.len() ==> (#[trigger] views[j]) is Text);
                assert(texts(out@) == all_texts(views)->Some_0);
            }
            Some(out)
        },
        _ => None,
    }
}

/// The facts `k` after `field` is set to `value`.
pub fn set_field(k: DistroKnowledge, field: &str, value: &Json) -> (r: Result<
    DistroKnowledge,
    FieldError,
>)
    ensures
        result_view(r) == field_set(k@, field@, value@),
{
    let mut k = k;
    if same_text(field, "package_manager") || same_text(field, "install_cmd") || same_text(
        field,
        "remove_cmd",
    ) || same_text(field, "search_cmd") || same_text(field, "update_cmd") || same_text(
        field,
        "escalation",
    ) || same_text(field, "service_manager") {
        let text = match value.as_str() {
            Some(t) => t.to_string(),
            None => {
                return Err(FieldError::NotText);
            },
        };
        if same_text(field, "package_manager") {
            k.package_manager = text;
        } else if same_text(field, "install_cmd") {
            k.install_cmd = text;
        } else if same_text(field, "remove_cmd") {
            k.remove_cmd = text;
        } else if same_text(field, "search_cmd") {
            k.search_cmd = text;
        } else if same_text(field, "update_cmd") {
            k.update_cmd = text;
        } else if same_text(field, "escalation") {
            k.escalation = text;
        } else {
            k.service_manager = text;
        }
        Ok(k)
    } else if same_text(field, "config_paths") || same_text(field, "notes") {
        let list = match read_texts(value) {
            Some(v) => v,
            None => {
                return Err(FieldError::NotTexts);
            },
        };
        if same_text(field, "config_paths") {
            k.config_paths = list;
        } else {
            k.notes = list;
        }
        Ok(k)
    } else {
        Err(FieldError::UnknownField)
    }
}

/// The facts to keep after `field` is set to `value`: those of the user's
/// file, or else the curated ones, with that one change.
pub open spec fn field_updated(
    distro_id: Option<Seq<char>>,
    cached: Option<KnowledgeView>,
    field: Seq<char>,
    value: JsonView,
) -> Result<KnowledgeView, FieldError> {
    let base = match (cached, distro_id) {
        (Some(k), _) => Some(k),
        (None, Some(id)) => known_facts(id),
        (None, None) => None,
    };
    match base {
        Some(k) => field_set(k, field, value),
        None => Err(FieldError::NoKnowledge),
    }
}

/// The facts to keep after `field` is set to `value`, given what the user's
/// file holds; where there is no file yet, the curated facts of `distro_id`
/// are the starting point.
pub fn update_field(
    distro_id: &Option<String>,
    cached: Option<DistroKnowledge>,
    field: &str,
    value: &Json,
) -> (r: Result<DistroKnowledge, FieldError>)
    ensures
        result_view(r) == field_updated(
            opt_text(*distro_id),
            opt_knowledge(cached),
            field@,
            value@,
        ),
{
    let base = match cached {
        Some(k) => Some(k),
        None => match distro_id {
            Some(id) => known(id),
            None => None,
        },
    };
    match base {
        Some(k) => set_field(k, field, value),
        None => Err(FieldError::NoKnowledge),
    }
}

/// A change keeps every other fact as it was.
pub proof fn update_keeps_the_rest(k: KnowledgeView, field: Seq<char>, value: JsonView)
    ensures
        field_set(k, field, value) matches Ok(n) ==> {
            &&& field != "package_manager"@ ==> n.package_manager == k.package_manager
            &&& field != "install_cmd"@ ==> n.install_cmd == k.install_cmd
            &&& field != "remove_cmd"@ ==> n.remove_cmd == k.remove_cmd
            &&& field != "search_cmd"@ ==> n.search_cmd == k.search_cmd
            &&& field != "update_cmd"@ ==> n.update_cmd == k.update_cmd
            &&& field != "escalation"@ ==> n.escalation == k.escalation
            &&& field != "service_manager"@ ==> n.service_manager == k.service_manager
            &&& field != "config_paths"@ ==> n.config_paths == k.config_paths
            &&& field != "notes"@ ==> n.notes == k.notes
        },
{
}

/// What the user's file says wins over the curated facts, so a change that
/// was saved there is what is found from then on.
pub proof fn saved_change_is_found(
    id: Seq<char>,
    cached: Option<KnowledgeView>,
    field: Seq<char>,
    value: JsonView,
)
    ensures
        field_updated(Some(id), cached, field, value) matches Ok(n) ==> facts_for(id, Some(n))
            == Some(n),
{
}

impl KnowledgeView {
    /// The facts as a JSON object.
    pub open spec fn object(self) -> JsonView {
        JsonView::Object(
            map![
                "package_manager"@ => JsonView::Text(self.package_manager),
                "install_cmd"@ => JsonView::Text(self.install_cmd),
                "remove_cmd"@ => JsonView::Text(self.remove_cmd),
                "search_cmd"@ => JsonView::Text(self.search_cmd),
                "update_cmd"@ => JsonView::Text(self.update_cmd),
                "escalation"@ => JsonView::Text(self.escalation),
                "service_manager"@ => JsonView::Text(self.service_manager),
                "config_paths"@ => text_list(self.config_paths),
                "notes"@ => text_list(self.notes),
            ],
        )
    }
}

impl DistroKnowledge {
    /// The facts as a JSON object.
    pub fn to_json(&self) -> (r: Json)
        ensures
            r@ == self@.object(),
    {
        let b = ObjectBuilder::new().with("package_manager", Json::text(&self.package_manager));
        let b = b.with("install_cmd", Json::text(&self.install_cmd));
        let b = b.with("remove_cmd", Json::text(&self.remove_cmd));
        let b = b.with("search_cmd", Json::text(&self.search_cmd));
        let b = b.with("update_cmd", Json::text(&self.update_cmd));
        let b = b.with("escalation", Json::text(&self.escalation));
        let b = b.with("service_manager", Json::text(&self.service_manager));
        let b = b.with("config_paths", Json::text_array(&self.config_paths));
        let b = b.with("notes", Json::text_array(&self.notes));
        b.build()
    }
}

/// The facts of a distribution are seen one by one.
pub proof fn knowledge_is_seen_whole(k: DistroKnowledge, e: FieldError)
    ensures
        k@.package_manager == k.package_manager@,
        k@.install_cmd == k.install_cmd@,
        k@.remove_cmd == k.remove_cmd@,
        k@.search_cmd == k.search_cmd@,
        k@.update_cmd == k.update_cmd@,
        k@.escalation == k.escalation@,
        k@.service_manager == k.service_manager@,
        k@.config_paths == texts(k.config_paths@),
        k@.notes == texts(k.notes@),
        opt_knowledge(Some(k)) == Some(k@),
        opt_knowledge(None) is None,
        result_view(Ok(k)) == Ok::<KnowledgeView, FieldError>(k@),
        result_view(Err(e)) == Err::<KnowledgeView, FieldError>(e),
{
}

/// What the prompt says of a distribution: every command on a line of its own,
/// then the paths on one line, where there are any.
pub proof fn commands_are_told(k: KnowledgeView, paths: Seq<Seq<char>>)
    requires
        k.config_paths.len() == 0,
        k.notes.len() == 0,
    ensures
        k.block() == "Package management & system commands:\n"@ + ("- package manager: "@
            + k.package_manager + "\n"@) + ("- install: "@ + k.install_cmd + "\n"@) + (
        "- remove:  "@ + k.remove_cmd + "\n"@) + ("- search:  "@ + k.search_cmd + "\n"@) + (
        "- update:  "@ + k.update_cmd + "\n"@) + ("- escalate: "@ + k.escalation + "\n"@) + (
        "- services: "@ + k.service_manager + "\n"@),
        paths.len() > 0 ==> (KnowledgeView { config_paths: paths, ..k }).block() == k.block()
            + "- config: "@ + joined(paths, ", "@) + "\n"@,
{
    let bare = "Package management & system commands:\n"@ + ("- package manager: "@
        + k.package_manager + "\n"@) + ("- install: "@ + k.install_cmd + "\n"@) + ("- remove:  "@
        + k.remove_cmd + "\n"@) + ("- search:  "@ + k.search_cmd + "\n"@) + ("- update:  "@
        + k.update_cmd + "\n"@) + ("- escalate: "@ + k.escalation + "\n"@) + ("- services: "@
        + k.service_manager + "\n"@);
    let none = Seq::<char>::empty();
    assert(note_lines(k.notes) == none);
    assert(bare + none + none == bare);
    assert(k.block() == bare);
    if paths.len() > 0 {
        let line = "- config: "@ + joined(paths, ", "@) + "\n"@;
        assert(config_line(paths) == line);
        assert((KnowledgeView { config_paths: paths, ..k }).block() == bare + line + none);
        assert(bare + line + none == bare + "- config: "@ + joined(paths, ", "@) + "\n"@);
    }
}

/// Each remark adds a line of its own behind all else.
pub proof fn each_note_is_told(k: KnowledgeView, note: Seq<char>)
    ensures
        (KnowledgeView { notes: k.notes.push(note), ..k }).block() == k.block() + ("- note: "@ + note
            + "\n"@),
{
    assert(k.notes.push(note).drop_last() == k.notes);
    let head = (KnowledgeView { notes: Seq::empty(), ..k }).block();
    let line = "- note: "@ + note + "\n"@;
    let none = Seq::<char>::empty();
    let start = (KnowledgeView { notes: Seq::empty(), ..k });
    assert(note_lines(Seq::<Seq<char>>::empty()) == none);
    assert(head + note_lines(k.notes) == k.block());
    assert((head + note_lines(k.notes)) + line == head + (note_lines(k.notes) + line));
    assert((KnowledgeView { notes: k.notes.push(note), ..k }).block() == head + (note_lines(k.notes)
        + line));
}

/// Which distributions are known, by their identifiers, and how each installs,
/// removes, searches and updates.
pub proof fn distributions_by_identifier(id: Seq<char>)
    ensures
        known_facts(id) is Some <==> (id == "nixos"@ || id == "arch"@ || id == "endeavouros"@ || id
            == "manjaro"@ || id == "debian"@ || id == "ubuntu"@ || id == "linuxmint"@ || id
            == "pop"@ || id == "fedora"@ || id == "rhel"@ || id == "centos"@ || id == "rocky"@ || id
            == "almalinux"@ || id == "opensuse-tumbleweed"@ || id == "opensuse-leap"@ || id
            == "opensuse"@ || id == "alpine"@ || id == "void"@),
        known_facts(id) matches Some(k) ==> {
            &&& id == "nixos"@ ==> k.package_manager == "nix"@ && k.install_cmd
                == "nix-env -iA nixos.{pkg}"@ && k.remove_cmd == "nix-env -e {pkg}"@ && k.search_cmd
                == "nix search nixpkgs {pkg}"@ && k.update_cmd == "sudo nixos-rebuild switch"@
                && k.service_manager == "systemctl"@
            &&& (id == "arch"@ || id == "endeavouros"@ || id == "manjaro"@) ==> k.package_manager
                == "pacman"@ && k.install_cmd == "sudo pacman -S {pkg}"@ && k.remove_cmd
                == "sudo pacman -Rns {pkg}"@ && k.search_cmd == "pacman -Ss {pkg}"@ && k.update_cmd
                == "sudo pacman -Syu"@ && k.service_manager == "systemctl"@
            &&& (id == "debian"@ || id == "ubuntu"@ || id == "linuxmint"@ || id == "pop"@)
                ==> k.package_manager == "apt"@ && k.install_cmd == "sudo apt install {pkg}"@
                && k.remove_cmd == "sudo apt remove {pkg}"@ && k.search_cmd == "apt search {pkg}"@
                && k.update_cmd == "sudo apt update && sudo apt upgrade"@ && k.service_manager
                == "systemctl"@
            &&& (id == "fedora"@ || id == "rhel"@ || id == "centos"@ || id == "rocky"@ || id
                == "almalinux"@) ==> k.package_manager == "dnf"@ && k.install_cmd
                == "sudo dnf install {pkg}"@ && k.remove_cmd == "sudo dnf remove {pkg}"@
                && k.search_cmd == "dnf search {pkg}"@ && k.update_cmd == "sudo dnf upgrade"@
                && k.service_manager == "systemctl"@
            &&& (id == "opensuse-tumbleweed"@ || id == "opensuse-leap"@ || id == "opensuse"@)
                ==> k.package_manager == "zypper"@ && k.install_cmd == "sudo zypper install {pkg}"@
                && k.remove_cmd == "sudo zypper remove {pkg}"@ && k.search_cmd
                == "zypper search {pkg}"@ && k.update_cmd == "sudo zypper dup"@ && k.service_manager
                == "systemctl"@
            &&& id == "alpine"@ ==> k.package_manager == "apk"@ && k.install_cmd
                == "sudo apk add {pkg}"@ && k.remove_cmd == "sudo apk del {pkg}"@ && k.search_cmd
                == "apk search {pkg}"@ && k.update_cmd == "sudo apk upgrade"@ && k.service_manager
                == "rc-service"@
            &&& id == "void"@ ==> k.package_manager == "xbps"@ && k.install_cmd
                == "sudo xbps-install -S {pkg}"@ && k.remove_cmd == "sudo xbps-remove {pkg}"@
                && k.search_cmd == "xbps-query -Rs {pkg}"@ && k.update_cmd
                == "sudo xbps-install -Su"@ && k.service_manager == "sv"@
            &&& k.escalation == "sudo"@
        },
{
    identifiers_stand_apart();
}

/// Where each known distribution keeps its configuration, and what else is
/// worth knowing of it.
pub proof fn remarks_by_identifier(id: Seq<char>)
    ensures
        known_facts(id) matches Some(k) ==> {
            &&& id == "nixos"@ ==> k.config_paths == seq!["/etc/nixos/configuration.nix"@]
                && k.notes == seq![
                "prefer adding packages to /etc/nixos/configuration.nix and rebuilding over imperative installs"@,
                "user-level: home-manager if installed, else nix-env"@,
            ]
            &&& (id == "arch"@ || id == "endeavouros"@ || id == "manjaro"@) ==> k.config_paths
                == seq!["/etc/pacman.conf"@] && k.notes == seq![
                "AUR helpers (yay, paru) handle community packages if installed"@,
            ]
            &&& (id == "debian"@ || id == "ubuntu"@ || id == "linuxmint"@ || id == "pop"@)
                ==> k.config_paths == seq![
                "/etc/apt/sources.list"@,
                "/etc/apt/sources.list.d/"@,
            ] && k.notes.len() == 0
            &&& (id == "fedora"@ || id == "rhel"@ || id == "centos"@ || id == "rocky"@ || id
                == "almalinux"@) ==> k.config_paths == seq!["/etc/dnf/dnf.conf"@] && k.notes
                == seq!["RPMFusion repo needed for many media codecs"@]
            &&& (id == "opensuse-tumbleweed"@ || id == "opensuse-leap"@ || id == "opensuse"@)
                ==> k.config_paths == seq!["/etc/zypp/"@] && k.notes.len() == 0
            &&& id == "alpine"@ ==> k.config_paths == seq!["/etc/apk/repositories"@] && k.notes
                == seq!["uses OpenRC, not systemd"@]
            &&& id == "void"@ ==> k.config_paths == seq!["/etc/xbps.d/"@] && k.notes == seq![
                "uses runit for services, not systemd"@,
            ]
        },
{
    identifiers_stand_apart();
}

proof fn identifiers_stand_apart()
    ensures
        "nixos"@.len() == 5 && "nixos"@[0] == 'n',
        "arch"@.len() == 4 && "arch"@[0] == 'a',
        "endeavouros"@.len() == 11 && "endeavouros"@[0] == 'e',
        "manjaro"@.len() == 7 && "manjaro"@[0] == 'm',
        "debian"@.len() == 6 && "debian"@[0] == 'd',
        "ubuntu"@.len() == 6 && "ubuntu"@[0] == 'u',
        "linuxmint"@.len() == 9 && "linuxmint"@[0] == 'l',
        "pop"@.len() == 3,
        "fedora"@.len() == 6 && "fedora"@[0] == 'f',
        "rhel"@.len() == 4 && "rhel"@[0] == 'r',
        "centos"@.len() == 6 && "centos"@[0] == 'c',
        "rocky"@.len() == 5 && "rocky"@[0] == 'r',
        "almalinux"@.len() == 9 && "almalinux"@[0] == 'a',
        "opensuse-tumbleweed"@.len() == 19,
        "opensuse-leap"@.len() == 13,
        "opensuse"@.len() == 8,
        "alpine"@.len() == 6 && "alpine"@[0] == 'a',
        "void"@.len() == 4 && "void"@[0] == 'v',
{
    reveal_strlit("nixos");
    reveal_strlit("arch");
    reveal_strlit("endeavouros");
    reveal_strlit("manjaro");
    reveal_strlit("debian");
    reveal_strlit("ubuntu");
    reveal_strlit("linuxmint");
    reveal_strlit("pop");
    reveal_strlit("fedora");
    reveal_strlit("rhel");
    reveal_strlit("centos");
    reveal_strlit("rocky");
    reveal_strlit("almalinux");
    reveal_strlit("opensuse-tumbleweed");
    reveal_strlit("opensuse-leap");
    reveal_strlit("opensuse");
    reveal_strlit("alpine");
    reveal_strlit("void");
}

proof fn fields_stand_apart()
    ensures
        "package_manager"@.len() == 15 && "package_manager"@[0] == 'p',
        "install_cmd"@.len() == 11,
        "remove_cmd"@.len() == 10 && "remove_cmd"@[0] == 'r',
        "search_cmd"@.len() == 10 && "search_cmd"@[0] == 's',
        "update_cmd"@.len() == 10 && "update_cmd"@[0] == 'u',
        "escalation"@.len() == 10 && "escalation"@[0] == 'e',
        "service_manager"@.len() == 15 && "service_manager"@[0] == 's',
        "config_paths"@.len() == 12,
        "notes"@.len() == 5,
{
    reveal_strlit("package_manager");
    reveal_strlit("install_cmd");
    reveal_strlit("remove_cmd");
    reveal_strlit("search_cmd");
    reveal_strlit("update_cmd");
    reveal_strlit("escalation");
    reveal_strlit("service_manager");
    reveal_strlit("config_paths");
    reveal_strlit("notes");
}

/// A text that a command, or another field of one text, is set to is what it
/// then holds; such a field takes nothing else.
pub proof fn text_is_set(k: KnowledgeView, t: Seq<char>, v: JsonView, field: Seq<char>)
    ensures
        field_set(k, "package_manager"@, JsonView::Text(t)) matches Ok(n) && n.package_manager == t,
        field_set(k, "install_cmd"@, JsonView::Text(t)) matches Ok(n) && n.install_cmd == t,
        field_set(k, "remove_cmd"@, JsonView::Text(t)) matches Ok(n) && n.remove_cmd == t,
        field_set(k, "search_cmd"@, JsonView::Text(t)) matches Ok(n) && n.search_cmd == t,
        field_set(k, "update_cmd"@, JsonView::Text(t)) matches Ok(n) && n.update_cmd == t,
        field_set(k, "escalation"@, JsonView::Text(t)) matches Ok(n) && n.escalation == t,
        field_set(k, "service_manager"@, JsonView::Text(t)) matches Ok(n) && n.service_manager == t,
        (field == "package_manager"@ || field == "install_cmd"@ || field == "remove_cmd"@ || field
            == "search_cmd"@ || field == "update_cmd"@ || field == "escalation"@ || field
            == "service_manager"@) && v !is Text ==> field_set(k, field, v) == Err::<
            KnowledgeView,
            FieldError,
        >(FieldError::NotText),
{
    fields_stand_apart();
}

/// A list of texts that a field of a list is set to is what it then holds, in
/// order; such a field takes nothing else, and there are no other fields.
pub proof fn list_is_set(k: KnowledgeView, list: Seq<Seq<char>>, v: JsonView, field: Seq<char>)
    ensures
        field_set(k, "config_paths"@, text_list(list)) matches Ok(n) && n.config_paths == list,
        field_set(k, "notes"@, text_list(list)) matches Ok(n) && n.notes == list,
        (field == "config_paths"@ || field == "notes"@) && v !is Array ==> field_set(k, field, v)
            == Err::<KnowledgeView, FieldError>(FieldError::NotTexts),
        (field == "config_paths"@ || field == "notes"@) ==> (v matches JsonView::Array(items) ==> (
        (exists|i: int| 0 <= i < items.len() && (#[trigger] items[i]) !is Text) ==> field_set(
            k,
            field,
            v,
        ) == Err::<KnowledgeView, FieldError>(FieldError::NotTexts))),
        (field != "package_manager"@ && field != "install_cmd"@ && field != "remove_cmd"@ && field
            != "search_cmd"@ && field != "update_cmd"@ && field != "escalation"@ && field
            != "service_manager"@ && field != "config_paths"@ && field != "notes"@) ==> field_set(
            k,
            field,
            v,
        ) == Err::<KnowledgeView, FieldError>(FieldError::UnknownField),
{
    fields_stand_apart();
    let items = text_list(list)->Array_0;
    assert(all_texts(items) is Some);
    assert(all_texts(items)->0 == list);
}

/// A change starts from what the user's file holds, or else from what is known
/// of the distribution; with neither there is nothing to change.
pub proof fn change_starts_from_what_holds(
    id: Seq<char>,
    k: KnowledgeView,
    distro: Option<Seq<char>>,
    field: Seq<char>,
    value: JsonView,
)
    ensures
        field_updated(distro, Some(k), field, value) == field_set(k, field, value),
        known_facts(id) matches Some(known) ==> field_updated(Some(id), None, field, value)
            == field_set(known, field, value),
        known_facts(id) is None ==> field_updated(Some(id), None, field, value) == Err::<
            KnowledgeView,
            FieldError,
        >(FieldError::NoKnowledge),
        field_updated(None, None, field, value) == Err::<KnowledgeView, FieldError>(
            FieldError::NoKnowledge,
        ),
        facts_for(id, Some(k)) == Some(k),
        facts_for(id, None) == known_facts(id),
{
}

/// The facts as a JSON object hold every fact under its own name.
pub proof fn every_fact_is_written(k: KnowledgeView)
    ensures
        k.object().text_at("package_manager"@) == Some(k.package_manager),
        k.object().text_at("install_cmd"@) == Some(k.install_cmd),
        k.object().text_at("remove_cmd"@) == Some(k.remove_cmd),
        k.object().text_at("search_cmd"@) == Some(k.search_cmd),
        k.object().text_at("update_cmd"@) == Some(k.update_cmd),
        k.object().text_at("escalation"@) == Some(k.escalation),
        k.object().text_at("service_manager"@) == Some(k.service_manager),
        k.object().get("config_paths"@) == Some(text_list(k.config_paths)),
        k.object().get("notes"@) == Some(text_list(k.notes)),
{
    fields_stand_apart();
}

} // verus!
