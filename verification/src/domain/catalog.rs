//! The frozen catalogue: packages, their scripts, and the workspace that groups
//! them. Paths are held as the text of the absolute path.

use vstd::prelude::*;

use super::error::AppError;
use super::text::same_text;

verus! {

/// Recognised package managers. yarn and bun declarations resolve to `Npm`.
#[derive(Debug, Clone, Copy, PartialEq, Eq, Structural)]
pub enum PackageManager {
    Npm,
    Pnpm,
}

/// The command name of a package manager.
pub open spec fn manager_name(m: PackageManager) -> Seq<char> {
    match m {
        PackageManager::Npm => "npm"@,
        PackageManager::Pnpm => "pnpm"@,
    }
}

impl PackageManager {
    pub fn as_str(self) -> (r: &'static str)
        ensures
            r@ == manager_name(self),
    {
        match self {
            PackageManager::Npm => "npm",
            PackageManager::Pnpm => "pnpm",
        }
    }
}

#[derive(Debug, Clone, PartialEq, Eq)]
pub struct Script {
    pub name: String,
    pub command: String,
}

#[derive(Debug, Clone, PartialEq, Eq)]
pub struct PackageCatalog {
    pub root: String,
    pub display_name: String,
    pub manager: PackageManager,
    pub scripts: Vec<Script>,
}

/// A request to run one script of one package.
#[derive(Debug, Clone, PartialEq, Eq)]
pub struct RunIntent {
    pub package_root: String,
    pub script_name: String,
}

#[derive(Debug, PartialEq, Eq)]
pub struct WorkspacePackage {
    pub root: String,
    pub relative_path: String,
    pub catalog: Result<PackageCatalog, AppError>,
}

#[derive(Debug, PartialEq, Eq)]
pub struct WorkspaceCatalog {
    pub root: String,
    pub packages: Vec<WorkspacePackage>,
    pub active_package: Option<String>,
}

#[derive(Debug, PartialEq, Eq)]
pub enum ProjectCatalog {
    Package(PackageCatalog),
    Workspace(WorkspaceCatalog),
}

/// Position of the first package, from `k` on, whose manifest was read.
pub open spec fn first_ok_from(ps: Seq<WorkspacePackage>, k: int) -> Option<int>
    decreases ps.len() - k,
{
    if k < 0 || k >= ps.len() {
        None
    } else if ps[k].catalog is Ok {
        Some(k)
    } else {
        first_ok_from(ps, k + 1)
    }
}

/// Position of the first package, from `k` on, whose root is `root`.
pub open spec fn first_root_from(ps: Seq<WorkspacePackage>, root: Seq<char>, k: int) -> Option<int>
    decreases ps.len() - k,
{
    if k < 0 || k >= ps.len() {
        None
    } else if ps[k].root@ == root {
        Some(k)
    } else {
        first_root_from(ps, root, k + 1)
    }
}

/// The package that a project shows first: the package itself, or the first
/// member of a workspace whose manifest could be read.
pub open spec fn spec_first_package(p: ProjectCatalog) -> Option<PackageCatalog> {
    match p {
        ProjectCatalog::Package(package) => Some(package),
        ProjectCatalog::Workspace(w) => match first_ok_from(w.packages@, 0) {
            Some(i) => Some(w.packages@[i].catalog->Ok_0),
            None => None,
        },
    }
}

/// The package with the given root: the package itself when its root matches,
/// or the first workspace member with that root when its manifest was read.
pub open spec fn spec_package(p: ProjectCatalog, root: Seq<char>) -> Option<PackageCatalog> {
    match p {
        ProjectCatalog::Package(package) => if package.root@ == root {
            Some(package)
        } else {
            None
        },
        ProjectCatalog::Workspace(w) => match first_root_from(w.packages@, root, 0) {
            Some(i) => match w.packages@[i].catalog {
                Ok(c) => Some(c),
                Err(_) => None,
            },
            None => None,
        },
    }
}

impl ProjectCatalog {
    pub fn first_package(&self) -> (r: Option<&PackageCatalog>)
        ensures
            match r {
                Some(c) => spec_first_package(*self) == Some(*c),
                None => spec_first_package(*self) is None,
            },
    {
        match self {
            ProjectCatalog::Package(package) => Some(package),
            ProjectCatalog::Workspace(workspace) => {
                let mut i: usize = 0;
                while i < workspace.packages.len()
                    invariant
                        i <= workspace.packages@.len(),
                        *self == ProjectCatalog::Workspace(*workspace),
                        first_ok_from(workspace.packages@, 0) == first_ok_from(
                            workspace.packages@,
                            i as int,
                        ),
                    decreases workspace.packages.len() - i,
                {
                    if let Ok(c) = &workspace.packages[i].catalog {
                        assert(first_ok_from(workspace.packages@, i as int) == Some(i as int));
                        assert(workspace.packages@[i as int].catalog == Ok::<
                            PackageCatalog,
                            AppError,
                        >(*c));
                        return Some(c);
                    }
                    i += 1;
                }
                None
            },
        }
    }

    pub fn package(&self, root: &str) -> (r: Option<&PackageCatalog>)
        ensures
            match r {
                Some(c) => spec_package(*self, root@) == Some(*c),
                None => spec_package(*self, root@) is None,
            },
    {
        match self {
            ProjectCatalog::Package(package) => {
                if same_text(package.root.as_str(), root) {
                    Some(package)
                } else {
                    None
                }
            },
            ProjectCatalog::Workspace(workspace) => {
                let mut i: usize = 0;
                while i < workspace.packages.len()
                    invariant
                        i <= workspace.packages@.len(),
                        *self == ProjectCatalog::Workspace(*workspace),
                        first_root_from(workspace.packages@, root@, 0) == first_root_from(
                            workspace.packages@,
                            root@,
                            i as int,
                        ),
                    decreases workspace.packages.len() - i,
                {
                    if same_text(workspace.packages[i].root.as_str(), root) {
                        assert(first_root_from(workspace.packages@, root@, i as int) == Some(
                            i as int,
                        ));
                        return match &workspace.packages[i].catalog {
                            Ok(c) => Some(c),
                            Err(_) => None,
                        };
                    }
                    i += 1;
                }
                None
            },
        }
    }
}

} // verus!
