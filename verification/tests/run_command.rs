use herdr_npm::domain::catalog::PackageManager;
use herdr_npm::domain::run_command::{quote_script_name, run_invocation};

#[test]
fn safe_names_stay_unquoted() {
    assert_eq!(quote_script_name("build"), "build");
    assert_eq!(quote_script_name("test:unit/a-b+c=d@e%f.g_h"), "test:unit/a-b+c=d@e%f.g_h");
}

#[test]
fn unsafe_names_are_single_quoted() {
    assert_eq!(quote_script_name(""), "''");
    assert_eq!(quote_script_name("a b"), "'a b'");
    assert_eq!(quote_script_name("it's"), "'it'\\''s'");
    assert_eq!(quote_script_name("$(rm)"), "'$(rm)'");
}

#[test]
fn invocation_separates_the_script_from_manager_options() {
    assert_eq!(run_invocation(PackageManager::Npm, "dev"), "npm run -- dev");
    assert_eq!(run_invocation(PackageManager::Pnpm, "--prod"), "pnpm run -- --prod");
    assert_eq!(run_invocation(PackageManager::Npm, "a b"), "npm run -- 'a b'");
}
