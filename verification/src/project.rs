//! Questions about a loaded project and the rules that commands check
//! before they run.
use vstd::prelude::*;

use crate::config::{serialize_config, serialize_config_spec};
use crate::model::{
    Project, RepoRef, ScaffoldError, PROJECT_KIND_BASECAMP_QML, PROJECT_KIND_LEZ,
};
use crate::paths::{join_path, path_join, parent_of, path_parent};
use crate::text::str_eq;

verus! {

/// The name of the configuration file at a project's root.
pub const CONFIG_FILE_NAME: &'static str = "scaffold.toml";

pub open spec fn kind_of(project: &Project) -> Seq<char> {
    project.config.project.kind@
}

/// The project kind its configuration names.
pub fn project_kind(project: &Project) -> (r: &str)
    ensures
        r@ == kind_of(project),
{
    project.config.project.kind.as_str()
}

pub fn is_lez_project(project: &Project) -> (b: bool)
    ensures
        b == (kind_of(project) == PROJECT_KIND_LEZ@),
{
    str_eq(project_kind(project), PROJECT_KIND_LEZ)
}

pub fn is_basecamp_qml_project(project: &Project) -> (b: bool)
    ensures
        b == (kind_of(project) == PROJECT_KIND_BASECAMP_QML@),
{
    str_eq(project_kind(project), PROJECT_KIND_BASECAMP_QML)
}

/// Succeeds for a LEZ project; otherwise names the command and the kind.
pub fn ensure_lez_project(project: &Project, command: &str) -> (r: Result<(), ScaffoldError>)
    ensures
        r is Ok <==> kind_of(project) == PROJECT_KIND_LEZ@,
        r matches Err(e) ==> (e matches ScaffoldError::NotLezProject { command: c, kind: k }
            && c@ == command@ && k@ == kind_of(project)),
{
    if is_lez_project(project) {
        return Ok(());
    }
    Err(
        ScaffoldError::NotLezProject {
            command: command.to_owned(),
            kind: project_kind(project).to_owned(),
        },
    )
}

/// Succeeds for a Basecamp QML project; otherwise names the command and the kind.
pub fn ensure_basecamp_qml_project(project: &Project, command: &str) -> (r: Result<
    (),
    ScaffoldError,
>)
    ensures
        r is Ok <==> kind_of(project) == PROJECT_KIND_BASECAMP_QML@,
        r matches Err(e) ==> (e matches ScaffoldError::NotBasecampProject { command: c, kind: k }
            && c@ == command@ && k@ == kind_of(project)),
{
    if is_basecamp_qml_project(project) {
        return Ok(());
    }
    Err(
        ScaffoldError::NotBasecampProject {
            command: command.to_owned(),
            kind: project_kind(project).to_owned(),
        },
    )
}

/// The LEZ repository of a LEZ project.
pub fn require_lez_repo<'a>(project: &'a Project, command: &str) -> (r: Result<
    &'a RepoRef,
    ScaffoldError,
>)
    ensures
        kind_of(project) != PROJECT_KIND_LEZ@ ==> (r matches Err(e) && e matches ScaffoldError::NotLezProject {
            command: c,
            kind: k,
        } && c@ == command@ && k@ == kind_of(project)),
        kind_of(project) == PROJECT_KIND_LEZ@ ==> match project.config.lez {
            Some(repo) => r == Ok::<&RepoRef, ScaffoldError>(&repo),
            None => r matches Err(ScaffoldError::MissingLezRepo),
        },
{
    match ensure_lez_project(project, command) {
        Err(e) => Err(e),
        Ok(()) => match &project.config.lez {
            Some(repo) => Ok(repo),
            None => Err(ScaffoldError::MissingLezRepo),
        },
    }
}

/// The configuration file of the project rooted at `root`.
pub fn config_path(root: &str) -> (r: String)
    ensures
        r@ == path_join(root@, CONFIG_FILE_NAME@),
{
    join_path(root, CONFIG_FILE_NAME)
}

/// The file to write and the text to write into it to save a project's
/// configuration.
pub fn save_project_config(project: &Project) -> (r: (String, String))
    ensures
        r.0@ == path_join(project.root@, CONFIG_FILE_NAME@),
        r.1@ == serialize_config_spec(project.config@),
{
    (config_path(project.root.as_str()), serialize_config(&project.config))
}

/// One step of the search for a project root, from `dir` upwards.
pub enum RootSearch {
    /// `dir` holds the configuration file: it is the root.
    Found(String),
    /// Look in this directory (the parent of `dir`) next.
    Continue(String),
    /// `dir` has no parent: there is no project here.
    NotFound,
}

/// Decides the search for a project root at `dir`, given whether `dir`
/// holds `scaffold.toml`: `dir` is the root if it does; otherwise the search
/// goes on in the parent of `dir`, and ends without a root when there is none.
pub fn find_project_root(dir: &str, has_config_file: bool) -> (r: RootSearch)
    ensures
        has_config_file ==> (r matches RootSearch::Found(d) && d@ == dir@),
        !has_config_file ==> match path_parent(dir@) {
            Some(p) => r matches RootSearch::Continue(d) && d@ == p && d@.len() < dir@.len(),
            None => r matches RootSearch::NotFound,
        },
{
    if has_config_file {
        return RootSearch::Found(dir.to_owned());
    }
    match parent_of(dir) {
        Some(p) => RootSearch::Continue(p),
        None => RootSearch::NotFound,
    }
}

/// Succeeds when the path exists; otherwise names what is missing and where.
pub fn ensure_dir_exists(path: &str, label: &str, exists: bool) -> (r: Result<(), ScaffoldError>)
    ensures
        r is Ok <==> exists,
        r matches Err(e) ==> (e matches ScaffoldError::MissingPath { label: l, path: p } && l@
            == label@ && p@ == path@),
{
    if !exists {
        return Err(ScaffoldError::MissingPath { label: label.to_owned(), path: path.to_owned() });
    }
    Ok(())
}

/// Where the shared cache lives: under `Library/Caches` of the home
/// directory on macOS; under `%LOCALAPPDATA%` on Windows when it is set;
/// else under `$XDG_CACHE_HOME` when it is set; else under `.cache` of the
/// home directory.
pub fn default_cache_root(
    home: &str,
    is_macos: bool,
    is_windows: bool,
    local_app_data: Option<&str>,
    xdg_cache_home: Option<&str>,
) -> (r: String)
    ensures
        r@ == (if is_macos {
            path_join(home@, "Library/Caches/logos-scaffold"@)
        } else if is_windows && local_app_data is Some {
            path_join(local_app_data.unwrap()@, "logos-scaffold/Cache"@)
        } else if xdg_cache_home is Some {
            path_join(xdg_cache_home.unwrap()@, "logos-scaffold"@)
        } else {
            path_join(home@, ".cache/logos-scaffold"@)
        }),
{
    if is_macos {
        return join_path(home, "Library/Caches/logos-scaffold");
    }
    if is_windows {
        if let Some(l) = local_app_data {
            return join_path(l, "logos-scaffold/Cache");
        }
    }
    if let Some(x) = xdg_cache_home {
        return join_path(x, "logos-scaffold");
    }
    join_path(home, ".cache/logos-scaffold")
}

/// No project is both a LEZ project and a Basecamp QML project, so at most
/// one of `ensure_lez_project` and `ensure_basecamp_qml_project` succeeds.
pub proof fn lemma_project_kinds_exclusive(project: &Project)
    ensures
        !(kind_of(project) == PROJECT_KIND_LEZ@ && kind_of(project) == PROJECT_KIND_BASECAMP_QML@),
{
    reveal_strlit("lez");
    reveal_strlit("basecamp-qml");
    assert(PROJECT_KIND_LEZ@.len() != PROJECT_KIND_BASECAMP_QML@.len());
}

} // verus!
