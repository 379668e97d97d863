//! The project configuration (`scaffold.toml`), the names it uses, and the
//! errors of the library.
use vstd::prelude::*;

verus! {

/// Project kind of a LEZ program project.
pub const PROJECT_KIND_LEZ: &'static str = "lez";

/// Project kind of a Basecamp QML plugin project.
pub const PROJECT_KIND_BASECAMP_QML: &'static str = "basecamp-qml";

/// The plain LEZ program template.
pub const FRAMEWORK_KIND_DEFAULT: &'static str = "default";

/// The LEZ framework template.
pub const FRAMEWORK_KIND_LEZ_FRAMEWORK: &'static str = "lez-framework";

/// The Basecamp runtime that keeps its data in a separate `...Dev` directory.
pub const BASECAMP_RUNTIME_DEV: &'static str = "dev";

/// The Basecamp runtime that uses the data root as it is.
pub const BASECAMP_RUNTIME_PORTABLE: &'static str = "portable";

/// Where the LEZ repository is fetched from by default.
pub const LEZ_URL: &'static str = "https://github.com/logos-blockchain/lssa.git";

/// Where the Logos module builder is fetched from by default.
pub const LOGOS_MODULE_BUILDER_URL: &'static str =
    "https://github.com/logos-co/logos-module-builder.git";

/// The LEZ revision that new projects pin.
pub const DEFAULT_LEZ_PIN: &'static str = "main";

/// The module builder revision that new projects pin.
pub const DEFAULT_LOGOS_MODULE_BUILDER_PIN: &'static str = "main";

pub const DEFAULT_FRAMEWORK_VERSION: &'static str = "0.1.0";

pub const DEFAULT_FRAMEWORK_IDL_SPEC: &'static str = "lssa-idl/0.1.0";

pub const DEFAULT_FRAMEWORK_IDL_PATH: &'static str = "idl";

/// The Basecamp data root of a new project, relative to the project root.
pub const DEFAULT_BASECAMP_DATA_ROOT: &'static str = ".scaffold/runtime/LogosBasecamp";

/// The wallet directory of a project, relative to the project root.
pub const DEFAULT_WALLET_HOME_DIR: &'static str = ".scaffold/wallet";

/// The scaffold version written into new configurations.
pub const VERSION: &'static str = "0.1.0";

/// The local network port when the configuration names none.
pub const DEFAULT_LOCALNET_PORT: u16 = 3040;

/// A pinned checkout of a git repository.
#[derive(Debug, Clone)]
pub struct RepoRef {
    pub url: String,
    pub source: String,
    pub path: String,
    pub pin: String,
}

#[derive(Debug, Clone)]
pub struct ProjectConfig {
    pub kind: String,
}

#[derive(Debug, Clone)]
pub struct LocalnetConfig {
    pub port: u16,
    pub risc0_dev_mode: bool,
}

#[derive(Debug, Clone)]
pub struct FrameworkIdlConfig {
    pub spec: String,
    pub path: String,
}

#[derive(Debug, Clone)]
pub struct FrameworkConfig {
    pub kind: String,
    pub version: String,
    pub idl: FrameworkIdlConfig,
}

#[derive(Debug, Clone)]
pub struct BasecampConfig {
    pub data_root: String,
    pub runtime_variant: String,
}

/// The contents of `scaffold.toml`.
#[derive(Debug, Clone)]
pub struct Config {
    pub version: String,
    pub cache_root: String,
    pub project: ProjectConfig,
    pub lez: Option<RepoRef>,
    pub logos_module_builder: Option<RepoRef>,
    pub wallet_home_dir: String,
    pub localnet: LocalnetConfig,
    pub framework: FrameworkConfig,
    pub basecamp: BasecampConfig,
}

/// A project: its root directory and its configuration.
#[derive(Debug, Clone)]
pub struct Project {
    pub root: String,
    pub config: Config,
}

/// A repository reference as character sequences.
pub struct RepoRefView {
    pub url: Seq<char>,
    pub source: Seq<char>,
    pub path: Seq<char>,
    pub pin: Seq<char>,
}

/// A configuration as character sequences, with its sections flattened.
pub struct ConfigView {
    pub version: Seq<char>,
    pub cache_root: Seq<char>,
    pub project_kind: Seq<char>,
    pub lez: Option<RepoRefView>,
    pub logos_module_builder: Option<RepoRefView>,
    pub wallet_home_dir: Seq<char>,
    pub localnet_port: u16,
    pub localnet_risc0_dev_mode: bool,
    pub framework_kind: Seq<char>,
    pub framework_version: Seq<char>,
    pub framework_idl_spec: Seq<char>,
    pub framework_idl_path: Seq<char>,
    pub basecamp_data_root: Seq<char>,
    pub basecamp_runtime_variant: Seq<char>,
}

impl View for RepoRef {
    type V = RepoRefView;

    open spec fn view(&self) -> RepoRefView {
        RepoRefView { url: self.url@, source: self.source@, path: self.path@, pin: self.pin@ }
    }
}

pub open spec fn repo_view(r: Option<RepoRef>) -> Option<RepoRefView> {
    match r {
        Some(x) => Some(x@),
        None => None,
    }
}

impl View for Config {
    type V = ConfigView;

    open spec fn view(&self) -> ConfigView {
        ConfigView {
            version: self.version@,
            cache_root: self.cache_root@,
            project_kind: self.project.kind@,
            lez: repo_view(self.lez),
            logos_module_builder: repo_view(self.logos_module_builder),
            wallet_home_dir: self.wallet_home_dir@,
            localnet_port: self.localnet.port,
            localnet_risc0_dev_mode: self.localnet.risc0_dev_mode,
            framework_kind: self.framework.kind@,
            framework_version: self.framework.version@,
            framework_idl_spec: self.framework.idl.spec@,
            framework_idl_path: self.framework.idl.path@,
            basecamp_data_root: self.basecamp.data_root@,
            basecamp_runtime_variant: self.basecamp.runtime_variant@,
        }
    }
}

impl Default for LocalnetConfig {
    fn default() -> (r: Self)
        ensures
            r.port == DEFAULT_LOCALNET_PORT,
            r.risc0_dev_mode,
    {
        LocalnetConfig { port: DEFAULT_LOCALNET_PORT, risc0_dev_mode: true }
    }
}

/// Why a `scaffold.toml` text is not a valid configuration.
#[derive(Debug, Clone, Copy, PartialEq, Eq, Structural)]
pub enum ConfigError {
    /// `[scaffold]` lacks `version` or `cache_root`.
    MissingScaffoldKeys,
    /// `[repos.lez]` (or the legacy `[repos.lssa]`) is incomplete, or absent
    /// from a LEZ project.
    MissingLezKeys,
    /// `[repos.logos_module_builder]` is incomplete.
    MissingModuleBuilderKeys,
}

/// Why an operation of the library refused its input.
#[derive(Debug, Clone)]
pub enum ScaffoldError {
    /// `cmd_new` was given a template it does not know.
    UnsupportedTemplate(String),
    /// A Basecamp runtime other than `dev` or `portable`.
    UnsupportedRuntime(String),
    /// A build artifact other than `raw` or `all`.
    UnsupportedArtifact(String),
    /// The command needs a LEZ project; the project has the given kind.
    NotLezProject { command: String, kind: String },
    /// The command needs a Basecamp QML project; the project has the given kind.
    NotBasecampProject { command: String, kind: String },
    /// A LEZ project whose configuration has no `[repos.lez]`.
    MissingLezRepo,
    /// A Basecamp project whose configuration has no `[repos.logos_module_builder]`.
    MissingModuleBuilderRepo,
    /// A required path does not exist.
    MissingPath { label: String, path: String },
    /// `metadata.json` has an empty `name`.
    MetadataEmptyName,
    /// `metadata.json` names a plugin type other than `ui_qml`.
    MetadataUnsupportedType(String),
    /// `metadata.json` has an empty `view`.
    MetadataEmptyView,
    /// `metadata.json` names a `main` library, which QML-only plugins lack.
    MetadataHasMain,
    /// The QML entry file that `view` names does not exist.
    ViewNotFound(String),
    /// The icon that `icon` names does not exist.
    IconNotFound(String),
}

} // verus!
