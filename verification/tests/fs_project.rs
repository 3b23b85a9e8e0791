use herdr_npm::adapters::fs_project::{
    accepts_workspace, admits_member, directory_signal, ignored, inherited_manager, member_package,
    pattern_sets, relative_path, standalone_catalog, workspace_declaration, FsProject,
    YamlDeclaration,
};
use herdr_npm::domain::catalog::{PackageManager, ProjectCatalog, WorkspaceCatalog};
use herdr_npm::domain::error::AppError;
use herdr_npm::domain::package_manager::Lockfiles;

fn patterns(list: &[&str]) -> Vec<String> {
    list.iter().map(|s| s.to_string()).collect()
}

#[test]
fn patterns_support_globs_exclusions_and_prefixes() {
    let (inc, exc) =
        pattern_sets("/w/package.json", &patterns(&["./apps/*/", "packages/**", "!apps/legacy"]))
            .unwrap();
    assert!(admits_member(&inc, &exc, "apps/web", true));
    assert!(!admits_member(&inc, &exc, "apps/web", false));
    assert!(!admits_member(&inc, &exc, "apps/legacy", true));
    assert!(!admits_member(&inc, &exc, "apps/web/nested", true));
    assert!(admits_member(&inc, &exc, "packages/a/b", true));
    assert!(!admits_member(&inc, &exc, "tools", true));
}

#[test]
fn invalid_patterns_name_the_declaration() {
    for bad in ["", "/abs", "../up", "a/../b", "!"] {
        match pattern_sets("/w/pnpm-workspace.yaml", &patterns(&[bad])) {
            Err(AppError::InvalidWorkspace { path, detail }) => {
                assert_eq!(path, "/w/pnpm-workspace.yaml");
                assert_eq!(detail, format!("invalid package pattern {bad:?}"));
            }
            other => panic!("expected invalid workspace for {bad:?}, got {:?}", other.map(|_| ())),
        }
    }
    assert!(matches!(
        pattern_sets("/w/package.json", &patterns(&["a/[b"])),
        Err(AppError::InvalidWorkspace { .. })
    ));
}

#[test]
fn node_modules_and_git_are_ignored() {
    assert!(ignored("node_modules"));
    assert!(ignored("apps/node_modules/x"));
    assert!(ignored("a/.git"));
    assert!(!ignored("apps/node_modules_x"));
    assert!(!ignored("my.git/x"));
    assert!(!ignored(""));
}

#[test]
fn local_manager_signals_win_and_inheritance_stops_at_root() {
    assert_eq!(inherited_manager(&[None, Some(PackageManager::Pnpm)]), PackageManager::Pnpm);
    assert_eq!(
        inherited_manager(&[Some(PackageManager::Npm), Some(PackageManager::Pnpm)]),
        PackageManager::Npm
    );
    assert_eq!(inherited_manager(&[None, None]), PackageManager::Npm);
    assert_eq!(
        directory_signal(Some(br#"{"packageManager":"pnpm@9"}"#), Lockfiles { pnpm: false, npm: true }),
        Some(PackageManager::Pnpm)
    );
    assert_eq!(directory_signal(Some(b"{"), Lockfiles { pnpm: false, npm: true }), Some(PackageManager::Npm));
    assert_eq!(directory_signal(None, Lockfiles::default()), None);
}

#[test]
fn relative_paths_are_below_the_root() {
    assert_eq!(relative_path("/w", "/w"), ".");
    assert_eq!(relative_path("/w", "/w/apps/a"), "apps/a");
    assert_eq!(relative_path("/w/", "/w/apps/a"), "apps/a");
    assert_eq!(relative_path("/w", "/wx/a"), "/wx/a");
}

#[test]
fn yaml_takes_precedence_and_json_accepts_both_shapes() {
    let json = br#"{"workspaces":["apps/*"]}"#;
    let (path, list) = workspace_declaration("/w", YamlDeclaration::Packages(vec![Some("a/*".into())]), Some(json))
        .unwrap()
        .unwrap();
    assert_eq!(path, "/w/pnpm-workspace.yaml");
    assert_eq!(list, vec!["a/*".to_string()]);
    let (path, list) = workspace_declaration("/w", YamlDeclaration::Absent, Some(json)).unwrap().unwrap();
    assert_eq!(path, "/w/package.json");
    assert_eq!(list, vec!["apps/*".to_string()]);
    let object = br#"{"workspaces":{"packages":["p/*"]}}"#;
    let (_, list) = workspace_declaration("/w", YamlDeclaration::Absent, Some(object)).unwrap().unwrap();
    assert_eq!(list, vec!["p/*".to_string()]);
    assert!(workspace_declaration("/w", YamlDeclaration::Absent, Some(b"{")).unwrap().is_none());
    assert!(workspace_declaration("/w", YamlDeclaration::Absent, None).unwrap().is_none());
    assert!(workspace_declaration("/w", YamlDeclaration::Absent, Some(b"{}")).unwrap().is_none());
}

#[test]
fn invalid_declarations_have_paths_and_never_fall_back() {
    match workspace_declaration("/w", YamlDeclaration::Packages(vec![None]), None) {
        Err(AppError::InvalidWorkspace { path, detail }) => {
            assert_eq!(path, "/w/pnpm-workspace.yaml");
            assert_eq!(detail, "package patterns must be strings");
        }
        other => panic!("unexpected {other:?}"),
    }
    match workspace_declaration("/w", YamlDeclaration::Unreadable("bad yaml".into()), None) {
        Err(AppError::InvalidWorkspace { detail, .. }) => assert_eq!(detail, "bad yaml"),
        other => panic!("unexpected {other:?}"),
    }
    match workspace_declaration("/w", YamlDeclaration::Absent, Some(br#"{"workspaces":{"nope":1}}"#)) {
        Err(AppError::InvalidWorkspace { path, detail }) => {
            assert_eq!(path, "/w/package.json");
            assert!(detail.contains("null"), "{detail}");
        }
        other => panic!("unexpected {other:?}"),
    }
}

#[test]
fn members_keep_local_errors() {
    let m = member_package("/w", "/w/apps/a", false, Some(br#"{"name":"a"}"#), PackageManager::Pnpm);
    assert_eq!(m.relative_path, "apps/a");
    assert!(m.catalog.unwrap().scripts.is_empty());
    let m = member_package("/w", "/w/apps/b", true, Some(b"{}"), PackageManager::Npm);
    assert_eq!(
        m.catalog.unwrap_err(),
        AppError::CannotReadPackageJson { path: "/w/apps/b/package.json".into() }
    );
    let m = member_package("/w", "/w/apps/c", false, Some(b"{"), PackageManager::Npm);
    assert_eq!(m.catalog.unwrap_err(), AppError::InvalidPackageJson);
}

#[test]
fn standalone_packages_use_their_own_signals() {
    let c = standalone_catalog("/w/app", Some(br#"{"scripts":{"build":"tsc"}}"#), Lockfiles::default()).unwrap();
    match c {
        ProjectCatalog::Package(p) => assert_eq!(p.manager, PackageManager::Npm),
        other => panic!("unexpected {other:?}"),
    }
    assert_eq!(
        standalone_catalog("/w/app", None, Lockfiles::default()).unwrap_err(),
        AppError::CannotReadPackageJson { path: "/w/app/package.json".into() }
    );
}

#[test]
fn the_walk_stops_at_git_or_the_cap() {
    let f = FsProject::capped("/cap".into());
    assert!(f.reaches_cap("/cap", None));
    assert!(f.reaches_cap("/real", Some("/real")));
    assert!(!f.reaches_cap("/x", Some("/real")));
    assert!(!FsProject::new().reaches_cap("/", None));
}

#[test]
fn a_parent_workspace_is_adopted_only_by_its_members() {
    let w = WorkspaceCatalog {
        root: "/w".into(),
        packages: vec![member_package("/w", "/w/a", false, Some(b"{}"), PackageManager::Npm)],
        active_package: None,
    };
    assert!(accepts_workspace(None, "/w", &w, None));
    assert!(accepts_workspace(Some("/w"), "/w", &w, None));
    assert!(accepts_workspace(Some("/w/a"), "/w", &w, None));
    assert!(!accepts_workspace(Some("/w/b"), "/w", &w, None));
    assert!(accepts_workspace(Some("/link"), "/w", &w, Some("/w/a")));
}
