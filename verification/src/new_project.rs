//! The decisions of `logos-scaffold new`: which template to use, where the
//! pinned repositories go, the configuration of the new project and the
//! values its template files are rendered with.
use vstd::prelude::*;

use crate::model::{
    BasecampConfig, Config, ConfigView, FrameworkConfig, FrameworkIdlConfig, LocalnetConfig,
    ProjectConfig, RepoRef, RepoRefView, ScaffoldError, BASECAMP_RUNTIME_DEV,
    BASECAMP_RUNTIME_PORTABLE, DEFAULT_BASECAMP_DATA_ROOT, DEFAULT_FRAMEWORK_IDL_PATH,
    DEFAULT_FRAMEWORK_IDL_SPEC, DEFAULT_FRAMEWORK_VERSION, DEFAULT_LEZ_PIN,
    DEFAULT_LOCALNET_PORT, DEFAULT_LOGOS_MODULE_BUILDER_PIN, DEFAULT_WALLET_HOME_DIR,
    FRAMEWORK_KIND_DEFAULT, FRAMEWORK_KIND_LEZ_FRAMEWORK, LEZ_URL, LOGOS_MODULE_BUILDER_URL,
    PROJECT_KIND_BASECAMP_QML, PROJECT_KIND_LEZ, VERSION,
};
use crate::basecamp::RepoSyncMode;
use crate::config::{parse_config_spec, serialize_config_spec};
use crate::config_laws::{config_complete, config_plain, lemma_serialize_parse_roundtrip, plain_text};
use crate::model::ConfigError;
use crate::naming::{plugin_name_spec, project_title_spec, to_plugin_name, to_project_title};
use crate::paths::{file_name_of, join_path, path_join, path_file_name};
use crate::text::str_eq;

verus! {

/// The kind of project a template makes.
#[derive(Debug, Clone, Copy, PartialEq, Eq, Structural)]
pub enum NewProjectKind {
    /// A LEZ program project (templates `default` and `lez-framework`).
    Lez,
    /// A Basecamp QML plugin project (template `basecamp-qml`).
    BasecampQml,
}

/// Which kind of project the template names: `default` and `lez-framework`
/// make LEZ projects, `basecamp-qml` a Basecamp QML project; any other name
/// is refused.
pub fn cmd_new(template: &str) -> (r: Result<NewProjectKind, ScaffoldError>)
    ensures
        (template@ == FRAMEWORK_KIND_DEFAULT@ || template@ == FRAMEWORK_KIND_LEZ_FRAMEWORK@) ==> r
            == Ok::<NewProjectKind, ScaffoldError>(NewProjectKind::Lez),
        template@ == PROJECT_KIND_BASECAMP_QML@ ==> r == Ok::<NewProjectKind, ScaffoldError>(
            NewProjectKind::BasecampQml,
        ),
        template@ != FRAMEWORK_KIND_DEFAULT@ && template@ != FRAMEWORK_KIND_LEZ_FRAMEWORK@
            && template@ != PROJECT_KIND_BASECAMP_QML@ ==> (r matches Err(
            ScaffoldError::UnsupportedTemplate(t),
        ) && t@ == template@),
{
    proof {
        reveal_strlit("default");
        reveal_strlit("lez-framework");
        reveal_strlit("basecamp-qml");
        assert(FRAMEWORK_KIND_DEFAULT@ == "default"@);
        assert(PROJECT_KIND_BASECAMP_QML@.len() == 12);
        assert(FRAMEWORK_KIND_LEZ_FRAMEWORK@.len() == 13);
    }
    if str_eq(template, FRAMEWORK_KIND_DEFAULT) || str_eq(template, FRAMEWORK_KIND_LEZ_FRAMEWORK) {
        Ok(NewProjectKind::Lez)
    } else if str_eq(template, PROJECT_KIND_BASECAMP_QML) {
        Ok(NewProjectKind::BasecampQml)
    } else {
        Err(ScaffoldError::UnsupportedTemplate(template.to_owned()))
    }
}

/// Accepts the Basecamp runtimes `dev` and `portable`.
pub fn validate_basecamp_runtime(value: &str) -> (r: Result<(), ScaffoldError>)
    ensures
        r is Ok <==> (value@ == BASECAMP_RUNTIME_DEV@ || value@ == BASECAMP_RUNTIME_PORTABLE@),
        r matches Err(e) ==> (e matches ScaffoldError::UnsupportedRuntime(v) && v@ == value@),
{
    if str_eq(value, BASECAMP_RUNTIME_DEV) || str_eq(value, BASECAMP_RUNTIME_PORTABLE) {
        Ok(())
    } else {
        Err(ScaffoldError::UnsupportedRuntime(value.to_owned()))
    }
}

/// The values that a template's files are rendered with.
#[derive(Debug, Clone)]
pub struct OverlayRenderContext {
    pub crate_name: String,
    pub lez_pin: String,
    pub plugin_name: String,
    pub project_title: String,
    pub module_builder_flake_url: String,
    pub basecamp_data_root: String,
    pub basecamp_runtime_variant: String,
}

pub fn build_overlay_context(
    raw_name: &str,
    cfg: &Config,
    crate_name: &str,
    module_builder_flake_url: &str,
) -> (r: OverlayRenderContext)
    ensures
        r.crate_name@ == crate_name@,
        r.lez_pin@ == (match cfg.lez {
            Some(repo) => repo.pin@,
            None => Seq::<char>::empty(),
        }),
        r.plugin_name@ == plugin_name_spec(raw_name@),
        r.project_title@ == project_title_spec(raw_name@),
        r.module_builder_flake_url@ == module_builder_flake_url@,
        r.basecamp_data_root@ == cfg.basecamp.data_root@,
        r.basecamp_runtime_variant@ == cfg.basecamp.runtime_variant@,
{
    let lez_pin = match &cfg.lez {
        Some(repo) => repo.pin.clone(),
        None => String::new(),
    };
    OverlayRenderContext {
        crate_name: crate_name.to_owned(),
        lez_pin,
        plugin_name: to_plugin_name(raw_name),
        project_title: to_project_title(raw_name),
        module_builder_flake_url: module_builder_flake_url.to_owned(),
        basecamp_data_root: cfg.basecamp.data_root.clone(),
        basecamp_runtime_variant: cfg.basecamp.runtime_variant.clone(),
    }
}

/// The final component of `target`, or `fallback` when it has none.
pub fn target_file_name_or(target: &str, fallback: &str) -> (r: String)
    ensures
        r@ == (match path_file_name(target@) {
            Some(n) => n,
            None => fallback@,
        }),
{
    match file_name_of(target) {
        Some(n) => n,
        None => fallback.to_owned(),
    }
}

/// Where a pinned repository is checked out: inside the project under
/// `.scaffold/repos/<name>` when dependencies are vendored, else in the
/// shared cache under `repos/<name>/<pin>`.
pub fn repo_checkout_path(
    project_root: &str,
    cache_root: &str,
    vendor_deps: bool,
    repo_name: &str,
    pin: &str,
) -> (r: String)
    ensures
        r@ == (if vendor_deps {
            path_join(path_join(project_root@, ".scaffold/repos"@), repo_name@)
        } else {
            path_join(
                path_join(path_join(cache_root@, "repos"@), repo_name@),
                pin@,
            )
        }),
{
    if vendor_deps {
        let root = join_path(project_root, ".scaffold/repos");
        return join_path(root.as_str(), repo_name);
    }
    let repos = join_path(cache_root, "repos");
    let named = join_path(repos.as_str(), repo_name);
    join_path(named.as_str(), pin)
}

/// How a new project's checkout is brought to its pin: a vendored checkout
/// must match its source, a checkout in the shared cache may be cloned afresh.
pub fn checkout_sync_mode(vendor_deps: bool) -> (m: RepoSyncMode)
    ensures
        m == (if vendor_deps {
            RepoSyncMode::FailOnSourceMismatch
        } else {
            RepoSyncMode::AutoRecloneCacheRepo
        }),
{
    if vendor_deps {
        RepoSyncMode::FailOnSourceMismatch
    } else {
        RepoSyncMode::AutoRecloneCacheRepo
    }
}

/// The source a repository is cloned from: the given local path, else the
/// repository's default URL.
pub fn repo_source(given: Option<&str>, default_url: &str) -> (r: String)
    ensures
        r@ == (match given {
            Some(p) => p@,
            None => default_url@,
        }),
{
    match given {
        Some(p) => p.to_owned(),
        None => default_url.to_owned(),
    }
}

/// The Basecamp data root of a new project: the given one, else the default
/// one inside the project directory.
pub fn basecamp_data_root_for(target: &str, given: Option<&str>) -> (r: String)
    ensures
        r@ == (match given {
            Some(p) => p@,
            None => path_join(target@, DEFAULT_BASECAMP_DATA_ROOT@),
        }),
{
    match given {
        Some(p) => p.to_owned(),
        None => join_path(target, DEFAULT_BASECAMP_DATA_ROOT),
    }
}

/// The Nix flake reference of a module builder checkout.
pub fn module_builder_flake_url(repo_path: &str) -> (r: String)
    ensures
        r@ == "path:"@ + repo_path@,
{
    let mut r = "path:".to_owned();
    r.append(repo_path);
    r
}

/// The configuration of a new LEZ project.
pub open spec fn new_lez_config_spec(
    template_variant: Seq<char>,
    cache_root: Seq<char>,
    lez_source: Seq<char>,
    lez_repo_path: Seq<char>,
) -> ConfigView {
    ConfigView {
        version: VERSION@,
        cache_root: cache_root,
        project_kind: PROJECT_KIND_LEZ@,
        lez: Some(
            RepoRefView {
                url: LEZ_URL@,
                source: lez_source,
                path: lez_repo_path,
                pin: DEFAULT_LEZ_PIN@,
            },
        ),
        logos_module_builder: None,
        wallet_home_dir: DEFAULT_WALLET_HOME_DIR@,
        localnet_port: DEFAULT_LOCALNET_PORT,
        localnet_risc0_dev_mode: true,
        framework_kind: template_variant,
        framework_version: DEFAULT_FRAMEWORK_VERSION@,
        framework_idl_spec: DEFAULT_FRAMEWORK_IDL_SPEC@,
        framework_idl_path: DEFAULT_FRAMEWORK_IDL_PATH@,
        basecamp_data_root: DEFAULT_BASECAMP_DATA_ROOT@,
        basecamp_runtime_variant: BASECAMP_RUNTIME_DEV@,
    }
}

pub fn new_lez_config(
    template_variant: &str,
    cache_root: &str,
    lez_source: &str,
    lez_repo_path: &str,
) -> (cfg: Config)
    ensures
        cfg@ == new_lez_config_spec(template_variant@, cache_root@, lez_source@, lez_repo_path@),
{
    let cfg = Config {
        version: VERSION.to_owned(),
        cache_root: cache_root.to_owned(),
        project: ProjectConfig { kind: PROJECT_KIND_LEZ.to_owned() },
        lez: Some(
            RepoRef {
                url: LEZ_URL.to_owned(),
                source: lez_source.to_owned(),
                path: lez_repo_path.to_owned(),
                pin: DEFAULT_LEZ_PIN.to_owned(),
            },
        ),
        logos_module_builder: None,
        wallet_home_dir: DEFAULT_WALLET_HOME_DIR.to_owned(),
        framework: FrameworkConfig {
            kind: template_variant.to_owned(),
            version: DEFAULT_FRAMEWORK_VERSION.to_owned(),
            idl: FrameworkIdlConfig {
                spec: DEFAULT_FRAMEWORK_IDL_SPEC.to_owned(),
                path: DEFAULT_FRAMEWORK_IDL_PATH.to_owned(),
            },
        },
        localnet: LocalnetConfig::default(),
        basecamp: BasecampConfig {
            data_root: DEFAULT_BASECAMP_DATA_ROOT.to_owned(),
            runtime_variant: BASECAMP_RUNTIME_DEV.to_owned(),
        },
    };
    assert(cfg@ =~= new_lez_config_spec(
        template_variant@,
        cache_root@,
        lez_source@,
        lez_repo_path@,
    ));
    cfg
}

/// The configuration of a new Basecamp QML project.
pub open spec fn new_basecamp_config_spec(
    cache_root: Seq<char>,
    module_builder_source: Seq<char>,
    module_builder_repo_path: Seq<char>,
    basecamp_data_root: Seq<char>,
    basecamp_runtime: Seq<char>,
) -> ConfigView {
    ConfigView {
        version: VERSION@,
        cache_root: cache_root,
        project_kind: PROJECT_KIND_BASECAMP_QML@,
        lez: None,
        logos_module_builder: Some(
            RepoRefView {
                url: LOGOS_MODULE_BUILDER_URL@,
                source: module_builder_source,
                path: module_builder_repo_path,
                pin: DEFAULT_LOGOS_MODULE_BUILDER_PIN@,
            },
        ),
        wallet_home_dir: DEFAULT_WALLET_HOME_DIR@,
        localnet_port: DEFAULT_LOCALNET_PORT,
        localnet_risc0_dev_mode: true,
        framework_kind: FRAMEWORK_KIND_DEFAULT@,
        framework_version: DEFAULT_FRAMEWORK_VERSION@,
        framework_idl_spec: DEFAULT_FRAMEWORK_IDL_SPEC@,
        framework_idl_path: DEFAULT_FRAMEWORK_IDL_PATH@,
        basecamp_data_root: basecamp_data_root,
        basecamp_runtime_variant: basecamp_runtime,
    }
}

pub fn new_basecamp_config(
    cache_root: &str,
    module_builder_source: &str,
    module_builder_repo_path: &str,
    basecamp_data_root: &str,
    basecamp_runtime: &str,
) -> (cfg: Config)
    ensures
        cfg@ == new_basecamp_config_spec(
            cache_root@,
            module_builder_source@,
            module_builder_repo_path@,
            basecamp_data_root@,
            basecamp_runtime@,
        ),
{
    let cfg = Config {
        version: VERSION.to_owned(),
        cache_root: cache_root.to_owned(),
        project: ProjectConfig { kind: PROJECT_KIND_BASECAMP_QML.to_owned() },
        lez: None,
        logos_module_builder: Some(
            RepoRef {
                url: LOGOS_MODULE_BUILDER_URL.to_owned(),
                source: module_builder_source.to_owned(),
                path: module_builder_repo_path.to_owned(),
                pin: DEFAULT_LOGOS_MODULE_BUILDER_PIN.to_owned(),
            },
        ),
        wallet_home_dir: DEFAULT_WALLET_HOME_DIR.to_owned(),
        framework: FrameworkConfig {
            kind: FRAMEWORK_KIND_DEFAULT.to_owned(),
            version: DEFAULT_FRAMEWORK_VERSION.to_owned(),
            idl: FrameworkIdlConfig {
                spec: DEFAULT_FRAMEWORK_IDL_SPEC.to_owned(),
                path: DEFAULT_FRAMEWORK_IDL_PATH.to_owned(),
            },
        },
        localnet: LocalnetConfig::default(),
        basecamp: BasecampConfig {
            data_root: basecamp_data_root.to_owned(),
            runtime_variant: basecamp_runtime.to_owned(),
        },
    };
    assert(cfg@ =~= new_basecamp_config_spec(
        cache_root@,
        module_builder_source@,
        module_builder_repo_path@,
        basecamp_data_root@,
        basecamp_runtime@,
    ));
    cfg
}

/// Each of `rels` joined onto `root`, in order.
pub fn paths_under(root: &str, rels: &Vec<&str>) -> (r: Vec<String>)
    ensures
        r@.len() == rels@.len(),
        forall|i: int| 0 <= i < rels@.len() ==> #[trigger] r@[i]@ == path_join(root@, rels@[i]@),
{
    let mut r: Vec<String> = Vec::new();
    let mut i: usize = 0;
    while i < rels.len()
        invariant
            i <= rels@.len(),
            r@.len() == i,
            forall|j: int| 0 <= j < i ==> #[trigger] r@[j]@ == path_join(root@, rels@[j]@),
        decreases rels.len() - i,
    {
        r.push(join_path(root, rels[i]));
        i = i + 1;
    }
    r
}

/// Which extra steps a new LEZ project from `template` takes: the plain
/// template gets its tail-call example's program id patched, the framework
/// template loses the hello-world examples.
pub fn lez_template_steps(template: &str) -> (s: (bool, bool))
    ensures
        s.0 == (template@ == FRAMEWORK_KIND_DEFAULT@),
        s.1 == (template@ == FRAMEWORK_KIND_LEZ_FRAMEWORK@),
{
    (str_eq(template, FRAMEWORK_KIND_DEFAULT), str_eq(template, FRAMEWORK_KIND_LEZ_FRAMEWORK))
}

/// Where a LEZ checkout keeps the project template.
pub fn lez_template_root(lez_repo_path: &str) -> (r: String)
    ensures
        r@ == path_join(lez_repo_path@, "examples/program_deployment"@),
{
    join_path(lez_repo_path, "examples/program_deployment")
}

/// The directories every new project gets.
pub fn common_scaffold_dirs(target: &str) -> (r: Vec<String>)
    ensures
        r@.len() == 2,
        r@[0]@ == path_join(target@, ".scaffold/state"@),
        r@[1]@ == path_join(target@, ".scaffold/logs"@),
{
    let rels = vec![".scaffold/state", ".scaffold/logs"];
    paths_under(target, &rels)
}

/// The further directories a Basecamp QML project gets.
pub fn basecamp_scaffold_dirs(target: &str) -> (r: Vec<String>)
    ensures
        r@.len() == 2,
        r@[0]@ == path_join(target@, ".scaffold/build"@),
        r@[1]@ == path_join(target@, ".scaffold/runtime"@),
{
    let rels = vec![".scaffold/build", ".scaffold/runtime"];
    paths_under(target, &rels)
}

/// The directories of the shared cache.
pub fn cache_root_dirs(cache_root: &str) -> (r: Vec<String>)
    ensures
        r@.len() == 4,
        r@[0]@ == path_join(cache_root@, "repos"@),
        r@[1]@ == path_join(cache_root@, "state"@),
        r@[2]@ == path_join(cache_root@, "logs"@),
        r@[3]@ == path_join(cache_root@, "builds"@),
{
    let rels = vec!["repos", "state", "logs", "builds"];
    paths_under(cache_root, &rels)
}

/// The example programs of the LEZ template that a `lez-framework` project
/// does not keep, relative to the project root.
pub open spec fn lez_hello_artifacts() -> Seq<Seq<char>> {
    seq![
        "src/bin/run_hello_world.rs"@,
        "src/bin/run_hello_world_private.rs"@,
        "src/bin/run_hello_world_with_authorization.rs"@,
        "src/bin/run_hello_world_with_move_function.rs"@,
        "src/bin/run_hello_world_through_tail_call.rs"@,
        "src/bin/run_hello_world_through_tail_call_private.rs"@,
        "src/bin/run_hello_world_with_authorization_through_tail_call_with_pda.rs"@,
        "methods/guest/src/bin/hello_world.rs"@,
        "methods/guest/src/bin/hello_world_with_authorization.rs"@,
        "methods/guest/src/bin/hello_world_with_move_function.rs"@,
        "methods/guest/src/bin/simple_tail_call.rs"@,
        "methods/guest/src/bin/tail_call_with_pda.rs"@,
    ]
}

/// The files that cleaning a new `lez-framework` project removes, when present.
pub fn lez_hello_artifact_paths(project_root: &str) -> (r: Vec<String>)
    ensures
        r@.len() == lez_hello_artifacts().len(),
        forall|i: int| 0 <= i < r@.len() ==> #[trigger] r@[i]@ == path_join(
            project_root@,
            lez_hello_artifacts()[i],
        ),
{
    let rels = vec![
        "src/bin/run_hello_world.rs",
        "src/bin/run_hello_world_private.rs",
        "src/bin/run_hello_world_with_authorization.rs",
        "src/bin/run_hello_world_with_move_function.rs",
        "src/bin/run_hello_world_through_tail_call.rs",
        "src/bin/run_hello_world_through_tail_call_private.rs",
        "src/bin/run_hello_world_with_authorization_through_tail_call_with_pda.rs",
        "methods/guest/src/bin/hello_world.rs",
        "methods/guest/src/bin/hello_world_with_authorization.rs",
        "methods/guest/src/bin/hello_world_with_move_function.rs",
        "methods/guest/src/bin/simple_tail_call.rs",
        "methods/guest/src/bin/tail_call_with_pda.rs",
    ];
    let r = paths_under(project_root, &rels);
    assert(rels@.map_values(|s: &str| s@) =~= lez_hello_artifacts());
    r
}

/// The `scaffold.toml` written for a new LEZ project reads back as the
/// configuration it was written from, whenever the given values are
/// non-empty plain text.
pub proof fn lemma_new_lez_config_roundtrip(
    template_variant: Seq<char>,
    cache_root: Seq<char>,
    lez_source: Seq<char>,
    lez_repo_path: Seq<char>,
)
    requires
        template_variant.len() > 0 && plain_text(template_variant),
        cache_root.len() > 0 && plain_text(cache_root),
        lez_source.len() > 0 && plain_text(lez_source),
        lez_repo_path.len() > 0 && plain_text(lez_repo_path),
    ensures
        ({
            let c = new_lez_config_spec(template_variant, cache_root, lez_source, lez_repo_path);
            parse_config_spec(serialize_config_spec(c)) == Ok::<ConfigView, ConfigError>(c)
        }),
{
    reveal_strlit("0.1.0");
    reveal_strlit("lez");
    reveal_strlit("https://github.com/logos-blockchain/lssa.git");
    reveal_strlit("main");
    reveal_strlit(".scaffold/wallet");
    reveal_strlit("lssa-idl/0.1.0");
    reveal_strlit("idl");
    reveal_strlit(".scaffold/runtime/LogosBasecamp");
    reveal_strlit("dev");
    let c = new_lez_config_spec(template_variant, cache_root, lez_source, lez_repo_path);
    lemma_literal_plain(VERSION@);
    lemma_literal_plain(PROJECT_KIND_LEZ@);
    lemma_literal_plain(LEZ_URL@);
    lemma_literal_plain(DEFAULT_LEZ_PIN@);
    lemma_literal_plain(DEFAULT_WALLET_HOME_DIR@);
    lemma_literal_plain(DEFAULT_FRAMEWORK_VERSION@);
    lemma_literal_plain(DEFAULT_FRAMEWORK_IDL_SPEC@);
    lemma_literal_plain(DEFAULT_FRAMEWORK_IDL_PATH@);
    lemma_literal_plain(DEFAULT_BASECAMP_DATA_ROOT@);
    lemma_literal_plain(BASECAMP_RUNTIME_DEV@);
    assert(config_complete(c));
    assert(config_plain(c));
    lemma_serialize_parse_roundtrip(c);
}

/// The `scaffold.toml` written for a new Basecamp QML project reads back as
/// the configuration it was written from, whenever the given values are
/// non-empty plain text.
pub proof fn lemma_new_basecamp_config_roundtrip(
    cache_root: Seq<char>,
    module_builder_source: Seq<char>,
    module_builder_repo_path: Seq<char>,
    basecamp_data_root: Seq<char>,
    basecamp_runtime: Seq<char>,
)
    requires
        cache_root.len() > 0 && plain_text(cache_root),
        module_builder_source.len() > 0 && plain_text(module_builder_source),
        module_builder_repo_path.len() > 0 && plain_text(module_builder_repo_path),
        basecamp_data_root.len() > 0 && plain_text(basecamp_data_root),
        basecamp_runtime.len() > 0 && plain_text(basecamp_runtime),
    ensures
        ({
            let c = new_basecamp_config_spec(
                cache_root,
                module_builder_source,
                module_builder_repo_path,
                basecamp_data_root,
                basecamp_runtime,
            );
            parse_config_spec(serialize_config_spec(c)) == Ok::<ConfigView, ConfigError>(c)
        }),
{
    reveal_strlit("0.1.0");
    reveal_strlit("basecamp-qml");
    reveal_strlit("https://github.com/logos-co/logos-module-builder.git");
    reveal_strlit("main");
    reveal_strlit(".scaffold/wallet");
    reveal_strlit("default");
    reveal_strlit("lssa-idl/0.1.0");
    reveal_strlit("idl");
    let c = new_basecamp_config_spec(
        cache_root,
        module_builder_source,
        module_builder_repo_path,
        basecamp_data_root,
        basecamp_runtime,
    );
    lemma_literal_plain(VERSION@);
    lemma_literal_plain(PROJECT_KIND_BASECAMP_QML@);
    lemma_literal_plain(LOGOS_MODULE_BUILDER_URL@);
    lemma_literal_plain(DEFAULT_LOGOS_MODULE_BUILDER_PIN@);
    lemma_literal_plain(DEFAULT_WALLET_HOME_DIR@);
    lemma_literal_plain(FRAMEWORK_KIND_DEFAULT@);
    lemma_literal_plain(DEFAULT_FRAMEWORK_VERSION@);
    lemma_literal_plain(DEFAULT_FRAMEWORK_IDL_SPEC@);
    lemma_literal_plain(DEFAULT_FRAMEWORK_IDL_PATH@);
    reveal_strlit("lez");
    assert(PROJECT_KIND_BASECAMP_QML@ != PROJECT_KIND_LEZ@);
    assert(config_complete(c));
    assert(config_plain(c));
    lemma_serialize_parse_roundtrip(c);
}

/// A text of printable ASCII characters other than `"` and `\` is plain.
proof fn lemma_literal_plain(s: Seq<char>)
    requires
        forall|i: int| 0 <= i < s.len() ==> ' ' <= #[trigger] s[i] && s[i] <= '~' && s[i] != '"'
            && s[i] != '\\',
    ensures
        plain_text(s),
{
}

/// A new LEZ project's configuration records what it was made from: the
/// template variant as the framework kind, the cache root, and the LEZ
/// checkout's source and path; it is a LEZ project without a module builder.
pub proof fn lemma_new_lez_config_records_inputs(
    template_variant: Seq<char>,
    cache_root: Seq<char>,
    lez_source: Seq<char>,
    lez_repo_path: Seq<char>,
)
    ensures
        ({
            let c = new_lez_config_spec(template_variant, cache_root, lez_source, lez_repo_path);
            &&& c.framework_kind == template_variant
            &&& c.cache_root == cache_root
            &&& c.project_kind == PROJECT_KIND_LEZ@
            &&& c.lez matches Some(r) && r.source == lez_source && r.path == lez_repo_path
                && r.url == LEZ_URL@ && r.pin == DEFAULT_LEZ_PIN@
            &&& c.logos_module_builder is None
        }),
{
}

/// A new Basecamp project's configuration records what it was made from:
/// the cache root, the module builder's source and checkout path, the data
/// root and the runtime; it is a Basecamp QML project without a LEZ
/// repository.
pub proof fn lemma_new_basecamp_config_records_inputs(
    cache_root: Seq<char>,
    module_builder_source: Seq<char>,
    module_builder_repo_path: Seq<char>,
    basecamp_data_root: Seq<char>,
    basecamp_runtime: Seq<char>,
)
    ensures
        ({
            let c = new_basecamp_config_spec(
                cache_root,
                module_builder_source,
                module_builder_repo_path,
                basecamp_data_root,
                basecamp_runtime,
            );
            &&& c.cache_root == cache_root
            &&& c.project_kind == PROJECT_KIND_BASECAMP_QML@
            &&& c.lez is None
            &&& c.logos_module_builder matches Some(r) && r.source == module_builder_source
                && r.path == module_builder_repo_path && r.url == LOGOS_MODULE_BUILDER_URL@
                && r.pin == DEFAULT_LOGOS_MODULE_BUILDER_PIN@
            &&& c.basecamp_data_root == basecamp_data_root
            &&& c.basecamp_runtime_variant == basecamp_runtime
        }),
{
}

} // verus!
