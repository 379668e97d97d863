use logos_scaffold::basecamp::{
    is_cache_managed_repo_path, metadata_icon_path, metadata_view_path,
    parse_basecamp_build_artifact, project_tree_entry_action, TreeEntryAction, plugin_stage_dir, raw_stage_root, require_module_builder_repo,
    resolve_data_root, resolve_runtime_plugin_dir, runtime_base_dir, setup_sync_mode,
    should_skip_entry, validate_metadata_files, validate_plugin_metadata, BasecampBuildArtifact,
    PluginMetadata, RepoSyncMode,
};
use logos_scaffold::config::{parse_config, serialize_config};
use logos_scaffold::model::{Project, ScaffoldError};
use logos_scaffold::new_project::{
    basecamp_scaffold_dirs, cache_root_dirs, checkout_sync_mode, common_scaffold_dirs,
    lez_hello_artifact_paths, lez_template_root, lez_template_steps, basecamp_data_root_for, build_overlay_context, cmd_new, module_builder_flake_url,
    new_basecamp_config, new_lez_config, repo_checkout_path, repo_source, target_file_name_or,
    validate_basecamp_runtime, NewProjectKind,
};
use logos_scaffold::project::{
    default_cache_root, ensure_basecamp_qml_project, ensure_dir_exists, ensure_lez_project,
    config_path, find_project_root, is_basecamp_qml_project, is_lez_project, project_kind, require_lez_repo,
    save_project_config, RootSearch,
};

fn lez_project() -> Project {
    Project {
        root: "/work/app".to_string(),
        config: new_lez_config("default", "/cache", "https://src", "/cache/repos/lez/main"),
    }
}

fn basecamp_project(data_root: &str, runtime: &str) -> Project {
    Project {
        root: "/work/plugin".to_string(),
        config: new_basecamp_config("/cache", "/src/mb", "/cache/repos/mb/main", data_root, runtime),
    }
}

#[test]
fn paths_are_joined_as_std_joins_them() {
    let std_join = |a: &str, b: &str| std::path::Path::new(a).join(b).to_str().unwrap().to_string();
    for root in ["/a", "/a/", "", "a"] {
        assert_eq!(config_path(root), std_join(root, "scaffold.toml"));
        assert_eq!(lez_template_root(root), std_join(root, "examples/program_deployment"));
    }
    assert_eq!(config_path("/a"), "/a/scaffold.toml");
    assert_eq!(basecamp_data_root_for("/t", None), "/t/.scaffold/runtime/LogosBasecamp");
}

#[test]
fn tree_entry_actions() {
    match project_tree_entry_action("/src", "/dst/p", "", "qml", false, true, false) {
        TreeEntryAction::Descend { rel_path, dst_path } => {
            assert_eq!(rel_path, "qml");
            assert_eq!(dst_path, "/dst/p/qml");
        }
        _ => panic!("expected descend"),
    }
    match project_tree_entry_action("/src", "/dst/p/qml", "qml", "Main.qml", false, false, true) {
        TreeEntryAction::CopyFile { src_path, dst_path } => {
            assert_eq!(src_path, "/src/qml/Main.qml");
            assert_eq!(dst_path, "/dst/p/qml/Main.qml");
        }
        _ => panic!("expected copy"),
    }
    assert!(matches!(
        project_tree_entry_action("/src", "/dst", "", "target", false, true, false),
        TreeEntryAction::Skip
    ));
    assert!(matches!(
        project_tree_entry_action("/src", "/dst", "", "link", true, false, true),
        TreeEntryAction::Skip
    ));
    assert!(matches!(
        project_tree_entry_action("/src", "/dst", "", "fifo", false, false, false),
        TreeEntryAction::Skip
    ));
}

#[test]
fn lez_template_extra_steps() {
    assert_eq!(lez_template_steps("default"), (true, false));
    assert_eq!(lez_template_steps("lez-framework"), (false, true));
    assert_eq!(lez_template_steps("basecamp-qml"), (false, false));
}

#[test]
fn project_kinds_are_told_apart() {
    let lez = lez_project();
    assert_eq!(project_kind(&lez), "lez");
    assert!(is_lez_project(&lez));
    assert!(!is_basecamp_qml_project(&lez));
    assert!(ensure_lez_project(&lez, "deploy").is_ok());
    match ensure_basecamp_qml_project(&lez, "build") {
        Err(ScaffoldError::NotBasecampProject { command, kind }) => {
            assert_eq!(command, "build");
            assert_eq!(kind, "lez");
        }
        other => panic!("unexpected {other:?}"),
    }
    let bc = basecamp_project("/d", "dev");
    assert!(is_basecamp_qml_project(&bc));
    match ensure_lez_project(&bc, "deploy") {
        Err(ScaffoldError::NotLezProject { command, kind }) => {
            assert_eq!(command, "deploy");
            assert_eq!(kind, "basecamp-qml");
        }
        other => panic!("unexpected {other:?}"),
    }
}

#[test]
fn require_lez_repo_cases() {
    let lez = lez_project();
    assert_eq!(require_lez_repo(&lez, "c").unwrap().pin, "main");
    let mut broken = lez_project();
    broken.config.lez = None;
    assert!(matches!(require_lez_repo(&broken, "c"), Err(ScaffoldError::MissingLezRepo)));
    let bc = basecamp_project("/d", "dev");
    assert!(matches!(require_lez_repo(&bc, "c"), Err(ScaffoldError::NotLezProject { .. })));
}

#[test]
fn save_project_config_writes_scaffold_toml() {
    let p = lez_project();
    let (path, text) = save_project_config(&p);
    assert_eq!(path, "/work/app/scaffold.toml");
    assert_eq!(text, serialize_config(&p.config));
    let back = parse_config(&text).unwrap();
    assert_eq!(back.lez.unwrap().source, "https://src");
}

#[test]
fn new_configs_read_back_unchanged() {
    let lez = lez_project();
    let back = parse_config(&serialize_config(&lez.config)).unwrap();
    assert_eq!(serialize_config(&back), serialize_config(&lez.config));
    assert_eq!(back.framework.kind, "default");
    let bc = basecamp_project("/work/plugin/.scaffold/runtime/LogosBasecamp", "portable");
    let back = parse_config(&serialize_config(&bc.config)).unwrap();
    assert_eq!(serialize_config(&back), serialize_config(&bc.config));
    assert_eq!(back.basecamp.runtime_variant, "portable");
    assert_eq!(back.project.kind, "basecamp-qml");
}

#[test]
fn root_search_steps() {
    match find_project_root("/a/b", true) {
        RootSearch::Found(d) => assert_eq!(d, "/a/b"),
        _ => panic!("expected found"),
    }
    match find_project_root("/a/b", false) {
        RootSearch::Continue(d) => assert_eq!(d, "/a"),
        _ => panic!("expected continue"),
    }
    match find_project_root("/a", false) {
        RootSearch::Continue(d) => assert_eq!(d, "/"),
        _ => panic!("expected continue"),
    }
    assert!(matches!(find_project_root("/", false), RootSearch::NotFound));
    assert!(matches!(find_project_root("", false), RootSearch::NotFound));
}

#[test]
fn ensure_dir_exists_names_what_is_missing() {
    assert!(ensure_dir_exists("/x", "lez repo", true).is_ok());
    match ensure_dir_exists("/x", "lez repo", false) {
        Err(ScaffoldError::MissingPath { label, path }) => {
            assert_eq!(label, "lez repo");
            assert_eq!(path, "/x");
        }
        other => panic!("unexpected {other:?}"),
    }
}

#[test]
fn cache_root_by_platform() {
    assert_eq!(default_cache_root("/h", true, false, None, Some("/x")), "/h/Library/Caches/logos-scaffold");
    assert_eq!(default_cache_root("/h", false, true, Some("C:/L"), None), "C:/L/logos-scaffold/Cache");
    assert_eq!(default_cache_root("/h", false, true, None, Some("/x")), "/x/logos-scaffold");
    assert_eq!(default_cache_root("/h", false, false, Some("C:/L"), Some("/x")), "/x/logos-scaffold");
    assert_eq!(default_cache_root("/h", false, false, None, None), "/h/.cache/logos-scaffold");
}

#[test]
fn build_artifacts() {
    assert_eq!(parse_basecamp_build_artifact("raw").unwrap(), BasecampBuildArtifact::Raw);
    assert_eq!(parse_basecamp_build_artifact("all").unwrap(), BasecampBuildArtifact::All);
    match parse_basecamp_build_artifact("zip") {
        Err(ScaffoldError::UnsupportedArtifact(v)) => assert_eq!(v, "zip"),
        other => panic!("unexpected {other:?}"),
    }
}

#[test]
fn runtime_directories() {
    let relative = basecamp_project(".scaffold/runtime/LogosBasecamp", "dev");
    assert_eq!(resolve_data_root(&relative), "/work/plugin/.scaffold/runtime/LogosBasecamp");
    assert_eq!(runtime_base_dir(&relative), "/work/plugin/.scaffold/runtime/LogosBasecampDev");
    assert_eq!(
        resolve_runtime_plugin_dir(&relative, "my_plugin"),
        "/work/plugin/.scaffold/runtime/LogosBasecampDev/plugins/my_plugin"
    );
    let portable = basecamp_project("/data/Basecamp", "portable");
    assert_eq!(resolve_data_root(&portable), "/data/Basecamp");
    assert_eq!(runtime_base_dir(&portable), "/data/Basecamp");
    assert_eq!(raw_stage_root(&portable), "/work/plugin/.scaffold/build/raw/plugins");
    assert_eq!(plugin_stage_dir(&portable, "p"), "/work/plugin/.scaffold/build/raw/plugins/p");
}

fn meta(name: &str, ty: &str, view: &str, icon: &str, main: &str) -> PluginMetadata {
    PluginMetadata {
        name: name.to_string(),
        plugin_type: ty.to_string(),
        view: view.to_string(),
        icon: icon.to_string(),
        main: main.to_string(),
    }
}

#[test]
fn plugin_metadata_rules() {
    assert!(validate_plugin_metadata(&meta("p", "ui_qml", "Main.qml", "", "")).is_ok());
    assert!(matches!(
        validate_plugin_metadata(&meta("  ", "core", "", "", "x")),
        Err(ScaffoldError::MetadataEmptyName)
    ));
    match validate_plugin_metadata(&meta("p", "core", "", "", "")) {
        Err(ScaffoldError::MetadataUnsupportedType(t)) => assert_eq!(t, "core"),
        other => panic!("unexpected {other:?}"),
    }
    assert!(matches!(
        validate_plugin_metadata(&meta("p", "ui_qml", " \t", "", "")),
        Err(ScaffoldError::MetadataEmptyView)
    ));
    assert!(matches!(
        validate_plugin_metadata(&meta("p", "ui_qml", "Main.qml", "", "lib.so")),
        Err(ScaffoldError::MetadataHasMain)
    ));
    assert!(validate_plugin_metadata(&meta("p", "ui_qml", "Main.qml", "", "  ")).is_ok());
}

#[test]
fn plugin_metadata_files() {
    let m = meta("p", "ui_qml", "qml/Main.qml", "icon.png", "");
    assert_eq!(metadata_view_path("/r", &m), "/r/qml/Main.qml");
    assert_eq!(metadata_icon_path("/r", &m).unwrap(), "/r/icon.png");
    assert!(metadata_icon_path("/r", &meta("p", "ui_qml", "v", " ", "")).is_none());
    assert!(validate_metadata_files("/r", &m, true, true).is_ok());
    match validate_metadata_files("/r", &m, false, true) {
        Err(ScaffoldError::ViewNotFound(p)) => assert_eq!(p, "/r/qml/Main.qml"),
        other => panic!("unexpected {other:?}"),
    }
    match validate_metadata_files("/r", &m, true, false) {
        Err(ScaffoldError::IconNotFound(p)) => assert_eq!(p, "/r/icon.png"),
        other => panic!("unexpected {other:?}"),
    }
    assert!(validate_metadata_files("/r", &meta("p", "ui_qml", "v", "", ""), true, false).is_ok());
}

#[test]
fn staging_skips_build_outputs() {
    for name in [".git", ".scaffold", "build", "node_modules", "result", "target", "result-1"] {
        assert!(should_skip_entry(name), "{name}");
    }
    for name in ["src", "results", "Main.qml", "resul", "target2"] {
        assert!(!should_skip_entry(name), "{name}");
    }
}

#[test]
fn cache_managed_repo_paths() {
    assert!(is_cache_managed_repo_path("/c", "/c/repos/mb/pin"));
    assert!(is_cache_managed_repo_path("/c/", "/c/repos"));
    assert!(!is_cache_managed_repo_path("/c", "/c/repositories/x"));
    assert!(!is_cache_managed_repo_path("/c", "/work/.scaffold/repos/mb"));
    assert_eq!(setup_sync_mode(true), RepoSyncMode::AutoRecloneCacheRepo);
    assert_eq!(setup_sync_mode(false), RepoSyncMode::FailOnSourceMismatch);
}

#[test]
fn module_builder_repo_is_required_for_setup() {
    let bc = basecamp_project("/d", "dev");
    assert_eq!(require_module_builder_repo(&bc).unwrap().source, "/src/mb");
    let lez = lez_project();
    assert!(matches!(
        require_module_builder_repo(&lez),
        Err(ScaffoldError::MissingModuleBuilderRepo)
    ));
}

#[test]
fn templates_and_runtimes() {
    assert_eq!(cmd_new("default").unwrap(), NewProjectKind::Lez);
    assert_eq!(cmd_new("lez-framework").unwrap(), NewProjectKind::Lez);
    assert_eq!(cmd_new("basecamp-qml").unwrap(), NewProjectKind::BasecampQml);
    match cmd_new("react") {
        Err(ScaffoldError::UnsupportedTemplate(t)) => assert_eq!(t, "react"),
        other => panic!("unexpected {other:?}"),
    }
    assert!(validate_basecamp_runtime("dev").is_ok());
    assert!(validate_basecamp_runtime("portable").is_ok());
    match validate_basecamp_runtime("prod") {
        Err(ScaffoldError::UnsupportedRuntime(v)) => assert_eq!(v, "prod"),
        other => panic!("unexpected {other:?}"),
    }
}

#[test]
fn new_project_paths_and_sources() {
    assert_eq!(repo_checkout_path("/p", "/c", true, "lez", "abc"), "/p/.scaffold/repos/lez");
    assert_eq!(repo_checkout_path("/p", "/c", false, "lez", "abc"), "/c/repos/lez/abc");
    assert_eq!(repo_source(Some("/local"), "https://x"), "/local");
    assert_eq!(repo_source(None, "https://x"), "https://x");
    assert_eq!(basecamp_data_root_for("/t", Some("/d")), "/d");
    assert_eq!(basecamp_data_root_for("/t", None), "/t/.scaffold/runtime/LogosBasecamp");
    assert_eq!(module_builder_flake_url("/m"), "path:/m");
    assert_eq!(target_file_name_or("/work/My App", "app"), "My App");
    assert_eq!(target_file_name_or("/", "app"), "app");
    assert_eq!(target_file_name_or("/work/..", "app"), "app");
}

#[test]
fn overlay_context_values() {
    let lez = lez_project();
    let ctx = build_overlay_context("Hello World", &lez.config, "hello-world", "");
    assert_eq!(ctx.crate_name, "hello-world");
    assert_eq!(ctx.lez_pin, "main");
    assert_eq!(ctx.plugin_name, "hello_world");
    assert_eq!(ctx.project_title, "Hello World");
    assert_eq!(ctx.module_builder_flake_url, "");
    let bc = basecamp_project("/d", "portable");
    let ctx = build_overlay_context("x", &bc.config, "x", "path:/m");
    assert_eq!(ctx.lez_pin, "");
    assert_eq!(ctx.basecamp_data_root, "/d");
    assert_eq!(ctx.basecamp_runtime_variant, "portable");
}

#[test]
fn checkout_sync_modes() {
    assert_eq!(checkout_sync_mode(true), RepoSyncMode::FailOnSourceMismatch);
    assert_eq!(checkout_sync_mode(false), RepoSyncMode::AutoRecloneCacheRepo);
}

#[test]
fn new_project_directories() {
    assert_eq!(common_scaffold_dirs("/t"), vec!["/t/.scaffold/state", "/t/.scaffold/logs"]);
    assert_eq!(basecamp_scaffold_dirs("/t"), vec!["/t/.scaffold/build", "/t/.scaffold/runtime"]);
    assert_eq!(cache_root_dirs("/c"), vec!["/c/repos", "/c/state", "/c/logs", "/c/builds"]);
    let artifacts = lez_hello_artifact_paths("/t");
    assert_eq!(artifacts.len(), 12);
    assert_eq!(artifacts[0], "/t/src/bin/run_hello_world.rs");
    assert_eq!(artifacts[11], "/t/methods/guest/src/bin/tail_call_with_pda.rs");
    assert_eq!(lez_template_root("/r/lez"), "/r/lez/examples/program_deployment");
}
