use herdr_npm::adapters::tui::app::{KeyCode, KeyInput, SidebarApp};
use herdr_npm::adapters::tui::screen::{cursor_position, decimal_text, sidebar_lines, Tone};
use herdr_npm::adapters::tui::theme::Theme;
use herdr_npm::adapters::tui::view::Rect;
use herdr_npm::application::list_scripts::ListedScripts;
use herdr_npm::domain::catalog::{PackageCatalog, PackageManager, ProjectCatalog, Script};
use herdr_npm::domain::error::AppError;

fn app(width: u16, height: u16) -> SidebarApp {
    let listed = ListedScripts {
        catalog: Ok(ProjectCatalog::Package(PackageCatalog {
            root: "/w/app".into(),
            display_name: "app".into(),
            manager: PackageManager::Pnpm,
            scripts: vec![
                Script { name: "dev".into(), command: "vite".into() },
                Script { name: "test".into(), command: "vitest".into() },
            ],
        })),
        used_start_cwd: false,
        root: Some("/w/app".into()),
    };
    let mut app = SidebarApp::with_theme(listed, Theme::ascii());
    app.set_inner(Rect::new(1, 1, width, height));
    app
}

fn text(line: &[(String, herdr_npm::adapters::tui::screen::TextStyle)]) -> String {
    line.iter().map(|(t, _)| t.as_str()).collect()
}

#[test]
fn numbers_are_written_in_decimal() {
    assert_eq!(decimal_text(0), "0");
    assert_eq!(decimal_text(7), "7");
    assert_eq!(decimal_text(1203), "1203");
}

#[test]
fn a_package_shows_header_rows_footer_and_help() {
    let app = app(30, 8);
    let lines = sidebar_lines(&app);
    assert!(text(&lines[0]).starts_with("app  pnpm"));
    assert!(lines[0][0].1.bold);
    assert_eq!(lines[1][0].1.tone, Tone::Selection);
    assert!(text(&lines[1]).contains("dev"));
    assert_eq!(lines[2][0].1.tone, Tone::Normal);
    assert!(text(&lines[2]).contains("test"));
    let footer = lines.iter().position(|l| l.len() == 1 && l[0].1.tone == Tone::Footer).unwrap();
    assert_eq!(lines[footer][0].0, "vite");
    assert_eq!(text(lines.last().unwrap()), "[j][k] [h][l] [enter] [/]");
    assert_eq!(cursor_position(&app), None);
}

#[test]
fn a_too_small_pane_or_a_missing_catalogue_says_so() {
    let app = app(5, 2);
    assert_eq!(text(&sidebar_lines(&app)[0]), "Terminal too small");
    let listed = ListedScripts { catalog: Err(AppError::NoPackageJson), used_start_cwd: false, root: None };
    let mut broken = SidebarApp::new(listed);
    broken.set_inner(Rect::new(1, 1, 30, 8));
    let lines = sidebar_lines(&broken);
    assert_eq!(lines.len(), 1);
    assert_eq!(text(&lines[0]), "No package.json found");
}

#[test]
fn the_cursor_follows_the_query() {
    let mut app = app(30, 8);
    app.handle_key(KeyInput { code: KeyCode::Char('/'), control: false });
    app.handle_key(KeyInput { code: KeyCode::Char('d'), control: false });
    let geo = app.layout();
    assert_eq!(cursor_position(&app), Some((geo.search.x + 3, geo.search.y)));
    let lines = sidebar_lines(&app);
    assert_eq!(text(&lines[1]), "/ d");
}
