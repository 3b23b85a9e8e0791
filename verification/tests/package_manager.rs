use herdr_npm::domain::catalog::PackageManager;
use herdr_npm::domain::error::AppError;
use herdr_npm::domain::json::JsonValue;
use herdr_npm::domain::package_manager::{
    detect_package_manager, package_manager_signal, parse_package_json, parse_workspace_package,
    Lockfiles,
};

fn text(s: &str) -> JsonValue {
    JsonValue::Str(s.to_string())
}

#[test]
fn pnpm_field_beats_npm_lockfile() {
    assert_eq!(
        detect_package_manager(Some(&text("pnpm@9.0.0")), Lockfiles { pnpm: false, npm: true }),
        PackageManager::Pnpm
    );
}

#[test]
fn yarn_declared_is_npm() {
    assert_eq!(
        detect_package_manager(Some(&text("yarn@4.0.0")), Lockfiles { pnpm: true, npm: false }),
        PackageManager::Npm
    );
}

#[test]
fn pnpm_lockfile_when_field_absent() {
    assert_eq!(
        detect_package_manager(None, Lockfiles { pnpm: true, npm: true }),
        PackageManager::Pnpm
    );
}

#[test]
fn scripts_keep_declaration_order() {
    let json = br#"{"name":"app","scripts":{"prebuild":"a","build":"b","postbuild":"c"}}"#;
    let catalog = parse_package_json("/work/app", json, Lockfiles::default()).unwrap();
    let names: Vec<_> = catalog.scripts.iter().map(|script| script.name.as_str()).collect();
    assert_eq!(names, ["prebuild", "build", "postbuild"]);
}

#[test]
fn no_signal_is_none_and_unknown_declaration_falls_through() {
    assert_eq!(package_manager_signal(None, Lockfiles::default()), None);
    assert_eq!(
        package_manager_signal(Some(&text("deno@1")), Lockfiles { pnpm: false, npm: true }),
        Some(PackageManager::Npm)
    );
    assert_eq!(
        package_manager_signal(Some(&JsonValue::Bool(true)), Lockfiles::default()),
        None
    );
    assert_eq!(
        package_manager_signal(Some(&text(" pnpm @8")), Lockfiles::default()),
        Some(PackageManager::Pnpm)
    );
}

#[test]
fn manifest_errors_are_reported() {
    assert_eq!(
        parse_package_json("/w/a", b"{", Lockfiles::default()).unwrap_err(),
        AppError::InvalidPackageJson
    );
    assert_eq!(
        parse_package_json("/w/a", b"[]", Lockfiles::default()).unwrap_err(),
        AppError::InvalidPackageJson
    );
    assert_eq!(
        parse_package_json("/w/a", br#"{"name":"a"}"#, Lockfiles::default()).unwrap_err(),
        AppError::NoScripts
    );
    assert_eq!(
        parse_package_json("/w/a", br#"{"scripts":{}}"#, Lockfiles::default()).unwrap_err(),
        AppError::NoScripts
    );
    assert_eq!(
        parse_package_json("/w/a", br#"{"scripts":{"a":1}}"#, Lockfiles::default()).unwrap_err(),
        AppError::ScriptsNotObjectOfStrings
    );
    assert_eq!(
        parse_package_json("/w/a", br#"{"scripts":["a"]}"#, Lockfiles::default()).unwrap_err(),
        AppError::ScriptsNotObjectOfStrings
    );
}

#[test]
fn display_name_falls_back_to_the_directory() {
    let c = parse_package_json("/work/app/", br#"{"name":"","scripts":{"a":"b"}}"#, Lockfiles::default())
        .unwrap();
    assert_eq!(c.display_name, "app");
    assert_eq!(c.root, "/work/app/");
    let c = parse_package_json("/", br#"{"scripts":{"a":"b"}}"#, Lockfiles::default()).unwrap();
    assert_eq!(c.display_name, "package");
    let c = parse_package_json(
        "/w/x",
        br#"{"packageManager":"pnpm@9","scripts":{"a":"b"}}"#,
        Lockfiles::default(),
    )
    .unwrap();
    assert_eq!(c.manager, PackageManager::Pnpm);
    assert_eq!(c.scripts[0].command, "b");
}

#[test]
fn workspace_members_may_have_no_scripts() {
    let c = parse_workspace_package("/w/m", br#"{"name":"m"}"#, PackageManager::Pnpm).unwrap();
    assert!(c.scripts.is_empty());
    assert_eq!(c.manager, PackageManager::Pnpm);
    assert_eq!(
        parse_workspace_package("/w/m", b"nope", PackageManager::Npm).unwrap_err(),
        AppError::InvalidPackageJson
    );
}

#[test]
fn display_name_ignores_trailing_dot_components() {
    let c = parse_package_json("/work/app/.", br#"{"scripts":{"a":"b"}}"#, Lockfiles::default()).unwrap();
    assert_eq!(c.display_name, "app");
    let c = parse_package_json(".", br#"{"scripts":{"a":"b"}}"#, Lockfiles::default()).unwrap();
    assert_eq!(c.display_name, "package");
}
