//! The catalogue is resolved once from the origin pane, then frozen.

use vstd::prelude::*;

use super::ports::{LoadedCatalog, ProjectPort};
use crate::domain::catalog::ProjectCatalog;
use crate::domain::error::AppError;
use crate::domain::ids::{PaneId, TabId, WorkspaceId};
use crate::domain::pane::OriginContext;
use crate::domain::text::{copy_string, owned};

verus! {

#[derive(Debug)]
pub struct ListedScripts {
    pub catalog: Result<ProjectCatalog, AppError>,
    /// The foreground directory was unknown and the start directory was used.
    pub used_start_cwd: bool,
    pub root: Option<String>,
}

/// The listing made of what the project port loaded.
pub fn from_loaded(loaded: LoadedCatalog, used_start_cwd: bool) -> (r: ListedScripts)
    ensures
        r.catalog == loaded.catalog,
        r.root == loaded.root,
        r.used_start_cwd == used_start_cwd,
{
    ListedScripts { catalog: loaded.catalog, used_start_cwd, root: loaded.root }
}

/// The directory the project is looked up from: the origin's foreground
/// directory, else its start directory (then flagged as used), else none.
pub open spec fn spec_project_dir(origin: OriginContext) -> Option<(Seq<char>, bool)> {
    match (origin.foreground_cwd, origin.cwd) {
        (Some(f), _) => Some((f@, false)),
        (None, Some(s)) => Some((s@, true)),
        (None, None) => None,
    }
}

pub fn project_dir(origin: &OriginContext) -> (r: Option<(String, bool)>)
    ensures
        match spec_project_dir(*origin) {
            Some((d, used)) => r is Some && r->Some_0.0@ == d && r->Some_0.1 == used,
            None => r is None,
        },
{
    match (&origin.foreground_cwd, &origin.cwd) {
        (Some(foreground), _) => Some((copy_string(foreground), false)),
        (None, Some(start)) => Some((copy_string(start), true)),
        (None, None) => None,
    }
}

/// Resolve the project once from the directory `project_dir` picks, and
/// carry what the port loaded from it; with no directory, the project
/// directory cannot be determined and the port is not asked.
pub fn list_scripts<P: ProjectPort>(project: &P, origin: &OriginContext) -> (r: ListedScripts)
    ensures
        match spec_project_dir(*origin) {
            Some((dir, used)) => r.used_start_cwd == used && exists|l: LoadedCatalog|
                #[trigger] project.loaded(dir, l) && r.catalog == l.catalog && r.root == l.root,
            None => r.catalog == Err::<ProjectCatalog, AppError>(AppError::CannotDetermineProjectDir)
                && r.root is None && !r.used_start_cwd,
        },
{
    match project_dir(origin) {
        Some((dir, used)) => from_loaded(project.load_catalog(dir.as_str()), used),
        None => ListedScripts {
            catalog: Err(AppError::CannotDetermineProjectDir),
            used_start_cwd: false,
            root: None,
        },
    }
}

/// An origin with fixed identifiers and the given directories.
pub fn origin_for_paths(foreground: Option<String>, start: Option<String>) -> (r: OriginContext)
    ensures
        r.workspace_id.0@ == "w1"@,
        r.tab_id.0@ == "t1"@,
        r.pane_id.0@ == "p1"@,
        r.foreground_cwd == foreground,
        r.cwd == start,
{
    OriginContext {
        workspace_id: WorkspaceId(owned("w1")),
        tab_id: TabId(owned("t1")),
        pane_id: PaneId(owned("p1")),
        foreground_cwd: foreground,
        cwd: start,
    }
}

} // verus!
