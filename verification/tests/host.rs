//! What is known of the host: distributions, context, models, settings.
use tux::config::{BackendType, InferenceConfig, TuxConfig};
use tux::context::{os_release_field, user_path_dirs_from};
use tux::json::Json;
use tux::knowledge::{
    for_distro, known, set_field, update_field, DistroKnowledge, FieldError,
};
use tux::models::{
    default_kind, is_text, lookup, pick_for_host, registry, ModelKind, DEFAULT_VISION_MODEL,
};
use tux::SystemContext;

#[test]
fn covers_common_distros() {
    for id in [
        "nixos",
        "arch",
        "manjaro",
        "debian",
        "ubuntu",
        "fedora",
        "alpine",
        "void",
        "opensuse-tumbleweed",
    ] {
        assert!(known(id).is_some(), "missing knowledge for {id}");
    }
}

#[test]
fn unknown_distro_returns_none() {
    assert!(known("frankenix").is_none());
}

#[test]
fn arch_install_cmd_uses_sudo_pacman() {
    let k = known("arch").unwrap();
    assert!(k.install_cmd.contains("sudo pacman -S"));
}

#[test]
fn nixos_notes_warn_about_imperative_installs() {
    let k = known("nixos").unwrap();
    assert!(k.notes.iter().any(|n| n.contains("configuration.nix")));
}

#[test]
fn every_alias_is_known() {
    for (id, manager) in [
        ("endeavouros", "pacman"),
        ("linuxmint", "apt"),
        ("pop", "apt"),
        ("rhel", "dnf"),
        ("centos", "dnf"),
        ("rocky", "dnf"),
        ("almalinux", "dnf"),
        ("opensuse-leap", "zypper"),
        ("opensuse", "zypper"),
    ] {
        assert_eq!(known(id).unwrap().package_manager, manager);
    }
}

#[test]
fn knowledge_block_is_exact() {
    assert_eq!(
        known("alpine").unwrap().as_prompt_block(),
        "Package management & system commands:\n\
         - package manager: apk\n\
         - install: sudo apk add {pkg}\n\
         - remove:  sudo apk del {pkg}\n\
         - search:  apk search {pkg}\n\
         - update:  sudo apk upgrade\n\
         - escalate: sudo\n\
         - services: rc-service\n\
         - config: /etc/apk/repositories\n\
         - note: uses OpenRC, not systemd\n"
    );
    let debian = known("debian").unwrap().as_prompt_block();
    assert!(debian.ends_with("- config: /etc/apt/sources.list, /etc/apt/sources.list.d/\n"));
    let mut bare = known("debian").unwrap();
    bare.config_paths = vec![];
    assert!(bare.as_prompt_block().ends_with("- services: systemctl\n"));
}

#[test]
fn users_file_wins_over_the_table() {
    let mut mine = known("arch").unwrap();
    mine.escalation = "doas".to_string();
    let found = for_distro("void", Some(mine.duplicate())).unwrap();
    assert_eq!(found, mine);
    assert_eq!(for_distro("void", None).unwrap().package_manager, "xbps");
    assert!(for_distro("frankenix", None).is_none());
}

#[test]
fn fields_are_set_one_at_a_time() {
    let k = known("arch").unwrap();
    let k = set_field(k, "update_cmd", &Json::text("doas pacman -Syu")).unwrap();
    let k = set_field(k, "escalation", &Json::text("doas")).unwrap();
    let k = set_field(k, "notes", &Json::Array(vec![Json::text("a"), Json::text("b")])).unwrap();
    let k = set_field(k, "config_paths", &Json::Array(vec![])).unwrap();
    let mut want = known("arch").unwrap();
    want.update_cmd = "doas pacman -Syu".to_string();
    want.escalation = "doas".to_string();
    want.notes = vec!["a".to_string(), "b".to_string()];
    want.config_paths = vec![];
    assert_eq!(k, want);
    for field in ["package_manager", "install_cmd", "remove_cmd", "search_cmd", "service_manager"] {
        let changed = set_field(known("arch").unwrap(), field, &Json::text("new")).unwrap();
        assert_ne!(changed, known("arch").unwrap());
    }
}

#[test]
fn field_errors() {
    let err = |field: &str, value: Json| {
        set_field(known("arch").unwrap(), field, &value).unwrap_err()
    };
    assert_eq!(err("bogus", Json::text("x")), FieldError::UnknownField);
    assert_eq!(err("update_cmd", Json::Null), FieldError::NotText);
    assert_eq!(err("notes", Json::text("x")), FieldError::NotTexts);
    assert_eq!(err("notes", Json::Array(vec![Json::Null])), FieldError::NotTexts);
    let none = update_field(&None, None, "update_cmd", &Json::text("x")).unwrap_err();
    assert_eq!(none, FieldError::NoKnowledge);
    let odd = update_field(&Some("frankenix".to_string()), None, "notes", &Json::Null);
    assert_eq!(odd.unwrap_err(), FieldError::NoKnowledge);
}

#[test]
fn update_starts_from_the_file_or_the_table() {
    let k = update_field(&Some("void".to_string()), None, "escalation", &Json::text("doas"));
    assert_eq!(k.unwrap().package_manager, "xbps");
    let cached: DistroKnowledge = known("alpine").unwrap();
    let k = update_field(&None, Some(cached), "escalation", &Json::text("doas")).unwrap();
    assert_eq!(k.package_manager, "apk");
    assert_eq!(k.escalation, "doas");
}

#[test]
fn keeps_only_home_dirs_that_exist_preserving_order() {
    let path = [
        "/usr/bin",
        "/home/alice/.local/bin",
        "/home/alice/bin",
        "/home/alice/missing",
        "/home/bob/bin",
        "/home/alice/bin",
    ]
    .join(":");
    let exists = |p: &str| !p.contains("missing") && !p.contains("/bob/");
    let dirs = user_path_dirs_from("/home/alice", &path, exists);
    assert_eq!(
        dirs,
        vec!["/home/alice/.local/bin".to_string(), "/home/alice/bin".to_string()]
    );
}

#[test]
fn empty_when_no_home_dirs_in_path() {
    let dirs = user_path_dirs_from("/home/alice", "/usr/bin:/usr/local/bin", |_: &str| true);
    assert!(dirs.is_empty());
}

#[test]
fn only_directories_under_the_home_are_looked_at() {
    let dirs = user_path_dirs_from("/home/al", "/usr/bin:/home/al/bin:/home/alice/bin", |d: &str| {
        assert!(d.starts_with("/home/al/"), "looked at {d}");
        true
    });
    assert_eq!(dirs, vec!["/home/al/bin".to_string()]);
}

#[test]
fn neighbours_of_the_home_are_not_under_it() {
    let dirs = user_path_dirs_from("/home/al", "/home/alice/bin::/home/al", |_: &str| true);
    assert_eq!(dirs, vec!["/home/al".to_string()]);
}

#[test]
fn prompt_block_includes_path_dirs_when_present() {
    let mut ctx = SystemContext::default();
    ctx.path_dirs = vec!["/home/alice/bin".into(), "/home/alice/.local/bin".into()];
    let block = ctx.as_prompt_block();
    assert!(block.contains("writable PATH dirs:"));
    assert!(block.contains("/home/alice/bin"));
}

#[test]
fn prompt_block_omits_path_dirs_line_when_empty() {
    let ctx = SystemContext::default();
    let block = ctx.as_prompt_block();
    assert!(!block.contains("writable PATH dirs"));
}

#[test]
fn context_block_is_exact() {
    let ctx = SystemContext::detect(
        Some("NAME=Void\nID=\"void\"\nPRETTY_NAME=\"Void Linux\"\n"),
        Some("sway".to_string()),
        None,
        Some("/bin/sh".to_string()),
        Some("6.1.0\n"),
        None,
        vec!["/home/a/bin".to_string(), "/home/a/b".to_string()],
    );
    let block = ctx.as_prompt_block();
    assert!(block.starts_with(
        "Host facts:\n- distro: Void Linux\n- distro_id: void\n- desktop: sway\n- shell: /bin/sh\n- kernel: 6.1.0\n- writable PATH dirs: /home/a/bin, /home/a/b\n\nPackage management & system commands:\n- package manager: xbps\n"
    ));
    assert_eq!(SystemContext::default().as_prompt_block(), "Host facts:\n");
}

#[test]
fn host_without_os_release_has_no_knowledge() {
    let cached = known("arch");
    let ctx = SystemContext::detect(None, None, None, None, None, cached, vec![]);
    assert!(ctx.distro_id.is_none());
    assert!(ctx.knowledge.is_none());
}

#[test]
fn last_line_of_os_release_counts() {
    let text = "ID=first\nVERSION_ID=\"x\"\r\nID=\"\"second\"\"\r\nnothing\n";
    assert_eq!(os_release_field(text, "ID"), Some("second".to_string()));
    assert_eq!(os_release_field(text, "VERSION_ID"), Some("x".to_string()));
    assert_eq!(os_release_field(text, "NAME"), None);
    assert_eq!(os_release_field("ID=a=b", "ID"), Some("a=b".to_string()));
}

#[test]
fn picks_4b_on_a_capable_box() {
    let m = pick_for_host(16 * 1024, 12);
    assert_eq!(m.id, "qwen3.5-4b-q4");
}

#[test]
fn picks_2b_on_modest_laptop() {
    let m = pick_for_host(8 * 1024, 4);
    assert_eq!(m.id, "qwen3.5-2b-q4");
}

#[test]
fn picks_smallest_on_tiny_machine() {
    let m = pick_for_host(2 * 1024, 2);
    assert_eq!(m.id, "qwen3.5-0.8b-q4");
}

#[test]
fn picks_smallest_when_nothing_fits() {
    let m = pick_for_host(512, 8);
    assert_eq!(m.id, "qwen3.5-0.8b-q4");
}

#[test]
fn lookup_known_id() {
    assert!(lookup("qwen3.5-4b-q4").is_some());
    assert!(lookup("nope").is_none());
}

#[test]
fn picks_at_the_borders() {
    for (ram, cores, id) in [
        (6144, 6, "qwen3.5-4b-q4"),
        (6143, 6, "qwen3.5-2b-q4"),
        (6144, 5, "qwen3.5-2b-q4"),
        (3072, 4, "qwen3.5-2b-q4"),
        (3071, 4, "qwen3.5-0.8b-q4"),
        (65536, 3, "qwen3.5-0.8b-q4"),
        (0, 0, "qwen3.5-0.8b-q4"),
    ] {
        assert_eq!(pick_for_host(ram, cores).id, id, "{ram} MiB, {cores} cores");
    }
}

#[test]
fn more_host_gets_no_worse_model() {
    let rams = [0, 1499, 1500, 3071, 3072, 6143, 6144, 65536];
    let cores = [0, 3, 4, 5, 6, 64];
    for (i, ram) in rams.iter().enumerate() {
        for (j, n) in cores.iter().enumerate() {
            let m = pick_for_host(*ram, *n);
            for more_ram in &rams[i..] {
                for more in &cores[j..] {
                    assert!(m.quality <= pick_for_host(*more_ram, *more).quality);
                }
            }
        }
    }
}

#[test]
fn every_model_is_found_by_its_identifier() {
    let all = registry();
    assert_eq!(all.len(), 4);
    for m in &all {
        assert_eq!(lookup(m.id).unwrap().url, m.url);
    }
    let vision = lookup(DEFAULT_VISION_MODEL).unwrap();
    assert!(!is_text(&vision));
    assert!(matches!(vision.kind, ModelKind::Vision { mmproj_size_mib: 700, .. }));
    assert!(matches!(default_kind(), ModelKind::Text));
}

#[test]
fn settings_have_defaults() {
    let c = TuxConfig::load(None);
    assert_eq!(c.backend.kind, BackendType::Local);
    assert!(c.backend.model_path.is_none() && c.backend.url.is_none());
    assert_eq!(
        c.inference,
        InferenceConfig { n_threads: 0, ctx_size: 4096, n_gpu_layers: 0, batch_size: 512 }
    );
    let mut mine = TuxConfig::default();
    mine.inference.n_threads = 7;
    assert_eq!(TuxConfig::load(Some(mine)).inference.n_threads, 7);
    assert_eq!(TuxConfig::path(&Some("/c/tux".to_string())), "/c/tux/config.toml");
    assert_eq!(TuxConfig::path(&None), "config.toml");
}
