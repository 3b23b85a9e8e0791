//! What the use cases need from the file system and from Herdr.

use vstd::prelude::*;

use crate::domain::catalog::ProjectCatalog;
use crate::domain::error::AppError;
use crate::domain::ids::PaneId;

verus! {

/// The catalogue found from a start directory, with the root it was found at.
#[derive(Debug, PartialEq, Eq)]
pub struct LoadedCatalog {
    pub root: Option<String>,
    pub catalog: Result<ProjectCatalog, AppError>,
}

impl LoadedCatalog {
    pub fn from_error(error: AppError) -> (r: Self)
        ensures
            r.root is None,
            r.catalog == Err::<ProjectCatalog, AppError>(error),
    {
        LoadedCatalog { root: None, catalog: Err(error) }
    }
}

/// File-system discovery of the project around a directory. What a port
/// loads depends on what it reads, so each implementation says, through
/// `loaded`, which outcomes a directory can give.
pub trait ProjectPort {
    /// `r` is an outcome this port can give for the directory. A port that
    /// does not narrow it admits every outcome; code generic over the port
    /// knows nothing more than that the outcome is one the port can give for
    /// that very directory.
    open spec fn loaded(&self, start_dir: Seq<char>, r: LoadedCatalog) -> bool {
        true
    }

    fn load_catalog(&self, start_dir: &str) -> (r: LoadedCatalog)
        ensures
            self.loaded(start_dir@, r),
    ;
}

/// A request to open the plugin pane next to a target.
#[derive(Debug, Clone)]
pub struct OpenPluginPane {
    pub plugin_id: String,
    pub entrypoint: String,
    pub target_pane_id: PaneId,
    pub workspace_id: String,
    pub focus: bool,
    pub env: Vec<(String, String)>,
}

/// A request to create a background tab.
#[derive(Debug, Clone)]
pub struct CreateTab {
    pub workspace_id: String,
    pub cwd: String,
    pub label: String,
    pub focus: bool,
}

} // verus!
