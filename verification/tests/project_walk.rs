use herdr_npm::adapters::fs_project::member_package;
use herdr_npm::adapters::project_walk::{
    after_discovery, ascend, path_less, walk_error_action, walk_start, walk_step,
    workspace_package_roots, DirectoryFacts, EntryAction, WalkAction, WalkErrorFacts, WalkState,
};
use herdr_npm::application::ports::LoadedCatalog;
use herdr_npm::domain::catalog::{PackageManager, ProjectCatalog, WorkspaceCatalog};
use herdr_npm::domain::error::AppError;

fn facts(current: &str, has_manifest: bool, has_git: bool) -> DirectoryFacts {
    DirectoryFacts {
        current: current.into(),
        has_manifest,
        declaration: Some(Ok(None)),
        has_git,
        at_cap: false,
        has_parent: true,
    }
}

#[test]
fn the_nearest_manifest_is_remembered_and_the_walk_goes_up() {
    let action = walk_step(walk_start(), facts("/w/app/src", false, false));
    assert_eq!(action, WalkAction::Ascend(WalkState { nearest: None, adopting: true }));
    let action = walk_step(WalkState { nearest: None, adopting: true }, facts("/w/app", true, false));
    assert_eq!(action, WalkAction::Ascend(WalkState { nearest: Some("/w/app".into()), adopting: true }));
}

#[test]
fn a_git_root_ends_adoption_but_not_the_standalone_lookup() {
    let action = walk_step(walk_start(), facts("/f/nested-repo", false, true));
    assert_eq!(action, WalkAction::Ascend(WalkState { nearest: None, adopting: false }));
    let beyond = DirectoryFacts {
        declaration: Some(Err(AppError::NoPackageJson)),
        ..facts("/f", true, false)
    };
    assert_eq!(
        walk_step(WalkState { nearest: None, adopting: false }, beyond),
        WalkAction::Standalone("/f".into())
    );
    let with_package = walk_step(walk_start(), facts("/f/repo", true, true));
    assert_eq!(with_package, WalkAction::Standalone("/f/repo".into()));
}

#[test]
fn a_broken_declaration_ends_the_walk_while_adopting() {
    let broken = DirectoryFacts {
        declaration: Some(Err(AppError::InvalidWorkspace { path: "/w/pnpm-workspace.yaml".into(), detail: "x".into() })),
        ..facts("/w", false, false)
    };
    assert_eq!(
        walk_step(walk_start(), broken),
        WalkAction::Finish(LoadedCatalog {
            root: Some("/w".into()),
            catalog: Err(AppError::InvalidWorkspace { path: "/w/pnpm-workspace.yaml".into(), detail: "x".into() }),
        })
    );
}

#[test]
fn a_declaration_is_discovered_before_leaving() {
    let declared = DirectoryFacts {
        declaration: Some(Ok(Some(("/w/package.json".into(), vec!["apps/*".into()])))),
        at_cap: true,
        ..facts("/w", true, false)
    };
    assert_eq!(
        walk_step(walk_start(), declared),
        WalkAction::Discover {
            state: WalkState { nearest: Some("/w".into()), adopting: true },
            path: "/w/package.json".into(),
            patterns: vec!["apps/*".into()],
            otherwise: Box::new(WalkAction::Standalone("/w".into())),
        }
    );
}

#[test]
fn the_top_without_a_package_reports_none() {
    assert_eq!(
        ascend(walk_start(), false, false, false),
        WalkAction::Finish(LoadedCatalog::from_error(AppError::NoPackageJson))
    );
}

#[test]
fn discovery_outcomes() {
    let w = || WorkspaceCatalog {
        root: "/w".into(),
        packages: vec![member_package("/w", "/w/a", false, Some(b"{}"), PackageManager::Npm)],
        active_package: None,
    };
    let member = WalkState { nearest: Some("/w/a".into()), adopting: true };
    let adopted = after_discovery(&member, "/w", Ok(w()), None).unwrap();
    assert_eq!(adopted.root.as_deref(), Some("/w"));
    assert!(matches!(adopted.catalog, Ok(ProjectCatalog::Workspace(_))));
    let outsider = WalkState { nearest: Some("/w/b".into()), adopting: true };
    assert!(after_discovery(&outsider, "/w", Ok(w()), None).is_none());
    let failed = after_discovery(&outsider, "/w", Err(AppError::NoPackageJson), None).unwrap();
    assert_eq!(failed, LoadedCatalog { root: Some("/w".into()), catalog: Err(AppError::NoPackageJson) });
}

#[test]
fn unreadable_entries_are_skipped_only_when_harmless() {
    let facts = |loop_ancestor, known_member, is_symlink| WalkErrorFacts {
        loop_ancestor,
        known_member,
        is_symlink,
        admitted: true,
        message: "denied".into(),
    };
    assert_eq!(walk_error_action("/w/package.json", &facts(true, false, false)), EntryAction::Skip);
    assert_eq!(walk_error_action("/w/package.json", &facts(false, true, false)), EntryAction::Skip);
    assert_eq!(walk_error_action("/w/package.json", &facts(false, false, true)), EntryAction::Skip);
    assert_eq!(
        walk_error_action("/w/package.json", &facts(false, false, false)),
        EntryAction::Fail(AppError::InvalidWorkspace { path: "/w/package.json".into(), detail: "denied".into() })
    );
}

#[test]
fn root_first_then_members_in_path_order_once() {
    let members: Vec<String> = vec!["/w/a-c".into(), "/w/a/b".into(), "/w".into(), "/w/a/b".into(), "/w/0".into()];
    assert_eq!(
        workspace_package_roots("/w", true, members.clone()),
        vec!["/w".to_string(), "/w/0".into(), "/w/a/b".into(), "/w/a-c".into()]
    );
    assert_eq!(
        workspace_package_roots("/w", false, members),
        vec!["/w/0".to_string(), "/w/a/b".into(), "/w/a-c".into()]
    );
    assert!(path_less("a/b", "a-c"));
    assert!(!path_less("a-c", "a/b"));
    assert!(path_less("a", "a/b"));
}

#[test]
fn an_unreadable_directory_that_is_no_member_is_skipped() {
    let facts = WalkErrorFacts {
        loop_ancestor: false,
        known_member: false,
        is_symlink: false,
        admitted: false,
        message: "Permission denied".into(),
    };
    assert_eq!(walk_error_action("/w/pnpm-workspace.yaml", &facts), EntryAction::Skip);
}
