//! Basecamp QML plugin projects: build artifacts, where plugins are staged
//! and installed, and what a plugin's `metadata.json` must say.
use vstd::prelude::*;

use crate::model::{Project, RepoRef, ScaffoldError, BASECAMP_RUNTIME_PORTABLE};
use crate::paths::{
    is_absolute, path_is_absolute, join_path, path_join, path_starts_with, starts_with_path,
};
use crate::text::{chars_of, has_prefix, starts_with_str, str_eq, trim, trim_chars};

verus! {

/// Where a raw plugin build is staged, relative to the project root.
pub const RAW_STAGE_REL_PATH: &'static str = ".scaffold/build/raw/plugins";

/// What `logos-scaffold build` produces.
#[derive(Debug, Clone, Copy, PartialEq, Eq, Structural)]
pub enum BasecampBuildArtifact {
    /// Only the raw plugin directory.
    Raw,
    /// The raw plugin and the packaged `lgx` bundles.
    All,
}

/// Reads a build artifact name: `raw` or `all`.
pub fn parse_basecamp_build_artifact(value: &str) -> (r: Result<BasecampBuildArtifact, ScaffoldError>)
    ensures
        value@ == "raw"@ ==> r == Ok::<BasecampBuildArtifact, ScaffoldError>(
            BasecampBuildArtifact::Raw,
        ),
        value@ == "all"@ ==> r == Ok::<BasecampBuildArtifact, ScaffoldError>(
            BasecampBuildArtifact::All,
        ),
        value@ != "raw"@ && value@ != "all"@ ==> (r matches Err(
            ScaffoldError::UnsupportedArtifact(v),
        ) && v@ == value@),
{
    proof {
        reveal_strlit("raw");
        reveal_strlit("all");
        assert("raw"@ != "all"@) by {
            assert("raw"@[0] != "all"@[0]);
        }
    }
    if str_eq(value, "raw") {
        Ok(BasecampBuildArtifact::Raw)
    } else if str_eq(value, "all") {
        Ok(BasecampBuildArtifact::All)
    } else {
        Err(ScaffoldError::UnsupportedArtifact(value.to_owned()))
    }
}

/// The Basecamp data root: the configured one if absolute, else taken
/// relative to the project root.
pub open spec fn data_root_spec(project: &Project) -> Seq<char> {
    let configured = project.config.basecamp.data_root@;
    if path_is_absolute(configured) {
        configured
    } else {
        path_join(project.root@, configured)
    }
}

pub fn resolve_data_root(project: &Project) -> (r: String)
    ensures
        r@ == data_root_spec(project),
{
    let configured = project.config.basecamp.data_root.as_str();
    if is_absolute(configured) {
        configured.to_owned()
    } else {
        join_path(project.root.as_str(), configured)
    }
}

/// Where the Basecamp runtime keeps its data: the data root itself for the
/// portable runtime, the data root with `Dev` appended otherwise.
pub open spec fn runtime_base_spec(project: &Project) -> Seq<char> {
    if project.config.basecamp.runtime_variant@ == BASECAMP_RUNTIME_PORTABLE@ {
        data_root_spec(project)
    } else {
        data_root_spec(project) + "Dev"@
    }
}

pub fn runtime_base_dir(project: &Project) -> (r: String)
    ensures
        r@ == runtime_base_spec(project),
{
    let mut data_root = resolve_data_root(project);
    if str_eq(project.config.basecamp.runtime_variant.as_str(), BASECAMP_RUNTIME_PORTABLE) {
        return data_root;
    }
    data_root.append("Dev");
    data_root
}

/// Where a plugin is installed for the runtime: `plugins/<name>` under the
/// runtime's base directory.
pub fn resolve_runtime_plugin_dir(project: &Project, plugin_name: &str) -> (r: String)
    ensures
        r@ == path_join(path_join(runtime_base_spec(project), "plugins"@), plugin_name@),
{
    let base = runtime_base_dir(project);
    let plugins = join_path(base.as_str(), "plugins");
    join_path(plugins.as_str(), plugin_name)
}

/// Where raw plugin builds are staged in a project.
pub fn raw_stage_root(project: &Project) -> (r: String)
    ensures
        r@ == path_join(project.root@, RAW_STAGE_REL_PATH@),
{
    join_path(project.root.as_str(), RAW_STAGE_REL_PATH)
}

/// Where the raw build of the named plugin is staged.
pub fn plugin_stage_dir(project: &Project, plugin_name: &str) -> (r: String)
    ensures
        r@ == path_join(path_join(project.root@, RAW_STAGE_REL_PATH@), plugin_name@),
{
    let root = raw_stage_root(project);
    join_path(root.as_str(), plugin_name)
}

/// The fields of a plugin's `metadata.json` that the scaffold reads.
#[derive(Debug, Clone)]
pub struct PluginMetadata {
    pub name: String,
    pub plugin_type: String,
    pub view: String,
    pub icon: String,
    pub main: String,
}

/// Checks what a QML-only plugin's metadata must say, in this order: a
/// non-blank `name`, the type `ui_qml`, a non-blank `view`, and no `main`.
pub fn validate_plugin_metadata(metadata: &PluginMetadata) -> (r: Result<(), ScaffoldError>)
    ensures
        trim(metadata.name@).len() == 0 ==> r matches Err(ScaffoldError::MetadataEmptyName),
        trim(metadata.name@).len() != 0 && metadata.plugin_type@ != "ui_qml"@ ==> (r matches Err(
            ScaffoldError::MetadataUnsupportedType(t),
        ) && t@ == metadata.plugin_type@),
        trim(metadata.name@).len() != 0 && metadata.plugin_type@ == "ui_qml"@ && trim(
            metadata.view@,
        ).len() == 0 ==> r matches Err(ScaffoldError::MetadataEmptyView),
        trim(metadata.name@).len() != 0 && metadata.plugin_type@ == "ui_qml"@ && trim(
            metadata.view@,
        ).len() != 0 && trim(metadata.main@).len() != 0 ==> r matches Err(
            ScaffoldError::MetadataHasMain,
        ),
        r is Ok <==> (trim(metadata.name@).len() != 0 && metadata.plugin_type@ == "ui_qml"@
            && trim(metadata.view@).len() != 0 && trim(metadata.main@).len() == 0),
{
    let name = chars_of(metadata.name.as_str());
    if trim_chars(&name).len() == 0 {
        return Err(ScaffoldError::MetadataEmptyName);
    }
    if !str_eq(metadata.plugin_type.as_str(), "ui_qml") {
        return Err(ScaffoldError::MetadataUnsupportedType(metadata.plugin_type.clone()));
    }
    let view = chars_of(metadata.view.as_str());
    if trim_chars(&view).len() == 0 {
        return Err(ScaffoldError::MetadataEmptyView);
    }
    let main = chars_of(metadata.main.as_str());
    if trim_chars(&main).len() != 0 {
        return Err(ScaffoldError::MetadataHasMain);
    }
    Ok(())
}

/// The QML entry file of a plugin.
pub fn metadata_view_path(root: &str, metadata: &PluginMetadata) -> (r: String)
    ensures
        r@ == path_join(root@, metadata.view@),
{
    join_path(root, metadata.view.as_str())
}

/// The icon file of a plugin, when its metadata names one.
pub fn metadata_icon_path(root: &str, metadata: &PluginMetadata) -> (r: Option<String>)
    ensures
        trim(metadata.icon@).len() == 0 ==> r is None,
        trim(metadata.icon@).len() != 0 ==> (r matches Some(p) && p@ == path_join(
            root@,
            metadata.icon@,
        )),
{
    let icon = chars_of(metadata.icon.as_str());
    if trim_chars(&icon).len() == 0 {
        None
    } else {
        Some(join_path(root, metadata.icon.as_str()))
    }
}

/// Checks that the files the metadata names exist: the QML entry file, and
/// the icon when one is named.  `view_exists` and `icon_exists` say whether
/// `metadata_view_path` and `metadata_icon_path` exist.
pub fn validate_metadata_files(
    root: &str,
    metadata: &PluginMetadata,
    view_exists: bool,
    icon_exists: bool,
) -> (r: Result<(), ScaffoldError>)
    ensures
        !view_exists ==> (r matches Err(ScaffoldError::ViewNotFound(p)) && p@ == path_join(
            root@,
            metadata.view@,
        )),
        view_exists && trim(metadata.icon@).len() != 0 && !icon_exists ==> (r matches Err(
            ScaffoldError::IconNotFound(p),
        ) && p@ == path_join(root@, metadata.icon@)),
        r is Ok <==> (view_exists && (trim(metadata.icon@).len() == 0 || icon_exists)),
{
    if !view_exists {
        return Err(ScaffoldError::ViewNotFound(metadata_view_path(root, metadata)));
    }
    match metadata_icon_path(root, metadata) {
        Some(icon_path) => {
            if !icon_exists {
                return Err(ScaffoldError::IconNotFound(icon_path));
            }
            Ok(())
        },
        None => Ok(()),
    }
}

/// Whether a directory entry is left out when a project is staged: build
/// outputs, VCS and tool directories, and Nix `result-*` links.
pub open spec fn skipped_entry(name: Seq<char>) -> bool {
    ||| name == ".git"@
    ||| name == ".scaffold"@
    ||| name == "build"@
    ||| name == "node_modules"@
    ||| name == "result"@
    ||| name == "target"@
    ||| has_prefix(name, "result-"@)
}

pub fn should_skip_entry(name: &str) -> (b: bool)
    ensures
        b == skipped_entry(name@),
{
    str_eq(name, ".git") || str_eq(name, ".scaffold") || str_eq(name, "build") || str_eq(
        name,
        "node_modules",
    ) || str_eq(name, "result") || str_eq(name, "target") || starts_with_str(name, "result-")
}

/// What staging does with one entry of a project directory.
pub enum TreeEntryAction {
    /// Leave the entry out.
    Skip,
    /// Stage the directory: its contents, taken at `rel_path` below the
    /// source root, go to `dst_path`.
    Descend { rel_path: String, dst_path: String },
    /// Copy the file at `src_path` to `dst_path`.
    CopyFile { src_path: String, dst_path: String },
}

/// Decides the staging of the entry `name` of the directory at `relative`
/// below `src_root`, being staged into `dst_root`: skipped names and
/// symbolic links are left out, directories are staged in turn, files are
/// copied, and anything else is left out.
pub fn project_tree_entry_action(
    src_root: &str,
    dst_root: &str,
    relative: &str,
    name: &str,
    is_symlink: bool,
    is_dir: bool,
    is_file: bool,
) -> (a: TreeEntryAction)
    ensures
        (skipped_entry(name@) || is_symlink || (!is_dir && !is_file)) ==> a is Skip,
        (!skipped_entry(name@) && !is_symlink && is_dir) ==> (a matches TreeEntryAction::Descend {
            rel_path,
            dst_path,
        } && rel_path@ == path_join(relative@, name@) && dst_path@ == path_join(dst_root@, name@)),
        (!skipped_entry(name@) && !is_symlink && !is_dir && is_file) ==> (a matches TreeEntryAction::CopyFile {
            src_path,
            dst_path,
        } && src_path@ == path_join(src_root@, path_join(relative@, name@)) && dst_path@
            == path_join(dst_root@, name@)),
{
    if should_skip_entry(name) || is_symlink {
        return TreeEntryAction::Skip;
    }
    let rel_path = join_path(relative, name);
    let dst_path = join_path(dst_root, name);
    if is_dir {
        TreeEntryAction::Descend { rel_path, dst_path }
    } else if is_file {
        let src_path = join_path(src_root, rel_path.as_str());
        TreeEntryAction::CopyFile { src_path, dst_path }
    } else {
        TreeEntryAction::Skip
    }
}

/// Whether a repository checkout lies in the shared cache, that is under
/// `<cache_root>/repos`.  Both paths are taken as given (the caller makes
/// them absolute and canonical first).
pub fn is_cache_managed_repo_path(cache_root: &str, repo_path: &str) -> (b: bool)
    ensures
        b == path_starts_with(repo_path@, path_join(cache_root@, "repos"@)),
{
    let cache_repos = join_path(cache_root, "repos");
    starts_with_path(repo_path, cache_repos.as_str())
}

/// How the module builder checkout is brought to its pin: a checkout in the
/// shared cache may be cloned afresh, any other must match its source.
#[derive(Debug, Clone, Copy, PartialEq, Eq, Structural)]
pub enum RepoSyncMode {
    AutoRecloneCacheRepo,
    FailOnSourceMismatch,
}

pub fn setup_sync_mode(cache_managed: bool) -> (m: RepoSyncMode)
    ensures
        m == (if cache_managed {
            RepoSyncMode::AutoRecloneCacheRepo
        } else {
            RepoSyncMode::FailOnSourceMismatch
        }),
{
    if cache_managed {
        RepoSyncMode::AutoRecloneCacheRepo
    } else {
        RepoSyncMode::FailOnSourceMismatch
    }
}

/// The module builder repository that `setup` brings to its pin.
pub fn require_module_builder_repo(project: &Project) -> (r: Result<&RepoRef, ScaffoldError>)
    ensures
        match project.config.logos_module_builder {
            Some(repo) => r == Ok::<&RepoRef, ScaffoldError>(&repo),
            None => r matches Err(ScaffoldError::MissingModuleBuilderRepo),
        },
{
    match &project.config.logos_module_builder {
        Some(repo) => Ok(repo),
        None => Err(ScaffoldError::MissingModuleBuilderRepo),
    }
}

/// The runtime's base directory is the resolved data root for the portable
/// runtime and the resolved data root followed by `Dev` for any other,
/// whether the configured data root is absolute or relative.
pub proof fn lemma_runtime_base_dir_suffix(project: Project)
    ensures
        project.config.basecamp.runtime_variant@ == BASECAMP_RUNTIME_PORTABLE@ ==> runtime_base_spec(&project) == data_root_spec(&project),
        project.config.basecamp.runtime_variant@ != BASECAMP_RUNTIME_PORTABLE@ ==> runtime_base_spec(&project) == data_root_spec(&project) + "Dev"@,
{
}

/// Two projects that differ only in their runtime, one portable and one
/// not: the other's runtime directory is the portable one's with `Dev`
/// appended.
pub proof fn lemma_runtime_dirs_of_two_runtimes(portable: Project, other: Project)
    requires
        portable.root == other.root,
        portable.config.basecamp.data_root == other.config.basecamp.data_root,
        portable.config.basecamp.runtime_variant@ == BASECAMP_RUNTIME_PORTABLE@,
        other.config.basecamp.runtime_variant@ != BASECAMP_RUNTIME_PORTABLE@,
    ensures
        runtime_base_spec(&other) == runtime_base_spec(&portable) + "Dev"@,
{
}

} // verus!
