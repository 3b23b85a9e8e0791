use herdr_npm::adapters::tui::app::{
    handle_event, CatalogRow, KeyCode, KeyInput, MouseInput, MouseKind, SearchMode, SidebarApp,
    UiEvent,
};
use herdr_npm::adapters::tui::screen::{sidebar_lines, Tone};
use herdr_npm::adapters::tui::theme::Theme;
use herdr_npm::adapters::tui::view::Rect;
use herdr_npm::application::list_scripts::ListedScripts;
use herdr_npm::domain::catalog::{
    PackageCatalog, PackageManager, ProjectCatalog, Script, WorkspaceCatalog, WorkspacePackage,
};
use herdr_npm::domain::error::AppError;

const ROOT: &str = "/w";

fn path(rel: &str) -> String {
    if rel.is_empty() {
        ROOT.to_string()
    } else {
        format!("{ROOT}/{rel}")
    }
}

fn package(rel: &str, name: &str, scripts: &[(&str, &str)]) -> WorkspacePackage {
    WorkspacePackage {
        root: path(rel),
        relative_path: if rel.is_empty() { ".".into() } else { rel.into() },
        catalog: Ok(PackageCatalog {
            root: path(rel),
            display_name: name.into(),
            manager: PackageManager::Pnpm,
            scripts: scripts
                .iter()
                .map(|(n, c)| Script { name: n.to_string(), command: c.to_string() })
                .collect(),
        }),
    }
}

/// The six-package pnpm workspace of the journal fixture.
fn journal(active: &str) -> ListedScripts {
    let member = [("dev", "echo witness >> witness.txt"), ("start", "echo start")];
    ListedScripts {
        catalog: Ok(ProjectCatalog::Workspace(WorkspaceCatalog {
            root: path(""),
            packages: vec![
                package("", "journal-fixture", &[("root", "echo root")]),
                package("apps/auth", "same-name", &member),
                package("apps/cli", "same-name", &member),
                package("apps/mcp", "same-name", &member),
                package("packages/core", "@journal/core", &[]),
                package("packages/infrastructure", "@journal/infrastructure", &[]),
            ],
            active_package: Some(path(active)),
        })),
        used_start_cwd: false,
        root: Some(path("")),
    }
}

fn sized(listed: ListedScripts) -> SidebarApp {
    let mut app = SidebarApp::new(listed);
    app.set_inner(Rect::new(1, 1, 98, 22));
    app
}

/// The sidebar's text, one line per row, after sizing it to the terminal.
fn paint(app: &mut SidebarApp, width: u16, height: u16) -> String {
    app.set_inner(Rect::new(1, 1, width - 2, height - 2));
    sidebar_lines(app)
        .iter()
        .map(|line| line.iter().map(|(text, _)| text.as_str()).collect::<String>())
        .collect::<Vec<_>>()
        .join("\n")
}

fn key(app: &mut SidebarApp, code: KeyCode) -> bool {
    app.handle_key(KeyInput { code, control: false })
}

fn search(app: &mut SidebarApp, query: &str) {
    app.open_search();
    for ch in query.chars() {
        key(app, KeyCode::Char(ch));
    }
}

fn group(app: &SidebarApp, rel: &str) -> usize {
    app.rows.iter().position(|row| row == &CatalogRow::Group(path(rel))).unwrap()
}

fn click(app: &mut SidebarApp, index: usize, gutter: bool) {
    app.select_index(index);
    let geo = app.layout();
    let pos = app.visible_pos(index).unwrap();
    app.handle_mouse(MouseInput {
        kind: MouseKind::LeftDown,
        column: geo.list.x + if gutter { 0 } else { 8 },
        row: geo.list.y + (pos - app.list_offset) as u16,
    });
}

#[test]
fn six_groups_render_from_root_and_member_with_the_correct_initial_selection() {
    for origin in ["", "apps/mcp"] {
        let mut app = sized(journal(origin));
        let screen = paint(&mut app, 100, 24);
        assert!(screen.contains("6 packages"), "{screen}");
        for p in ["[.]", "[apps/auth]", "[apps/cli]", "[apps/mcp]", "[packages/core]", "[packages/infrastructure]"] {
            assert!(screen.contains(p), "missing {p}: {screen}");
        }
        assert_eq!(screen.matches("No scripts").count(), 2);
        assert!(screen.contains("pnpm"));
        assert_eq!(app.rows.iter().filter(|r| matches!(r, CatalogRow::Group(_))).count(), 6);
        assert!(app.expanded.contains(&path("")));
        assert_eq!(
            app.selected_script().unwrap().name,
            if origin.is_empty() { "root" } else { "dev" }
        );
        assert_eq!(app.rows[app.selected].package_root(), path(origin));
        let geo = app.layout();
        let line = 1 + geo.search.height as usize + (app.visible_pos(app.selected).unwrap() - app.list_offset);
        assert_eq!(sidebar_lines(&app)[line][0].1.tone, Tone::Selection);
        assert!(!app.expanded.contains(&path("apps/auth")));
    }
    let mut app = sized(journal(""));
    app.select_index(group(&app, "packages/core"));
    assert_eq!(app.selected_detail(), "@journal/core [packages/core] pnpm - No scripts");
}

#[test]
fn collapse_selects_the_header_navigation_does_not_wrap_and_groups_never_run() {
    let mut app = sized(journal("apps/mcp"));
    paint(&mut app, 100, 24);
    key(&mut app, KeyCode::Left);
    assert_eq!(app.selected, group(&app, "apps/mcp"));
    assert!(app.selected_script().is_none());
    let screen = paint(&mut app, 100, 24);
    assert!(screen.contains("+ [apps/mcp]"), "{screen}");
    assert!(!screen.contains("echo witness"));
    key(&mut app, KeyCode::Right);
    let screen = paint(&mut app, 100, 24);
    assert!(screen.contains("- [apps/mcp]"));
    assert!(screen.contains("echo witness"));
    key(&mut app, KeyCode::Enter);
    assert!(!app.expanded.contains(&path("apps/mcp")));
    assert!(app.run_intents.is_empty());
    for _ in 0..30 {
        key(&mut app, KeyCode::Up);
    }
    assert_eq!(app.selected, 0);
    for _ in 0..30 {
        key(&mut app, KeyCode::Char('j'));
    }
    assert_eq!(app.selected, app.search.matches.last().unwrap().index);
    let screen = paint(&mut app, 100, 24);
    assert!(screen.contains("No scripts"));
    app.emit_run();
    assert!(app.run_intents.is_empty());
    key(&mut app, KeyCode::Char('l'));
    assert_eq!(app.footer_offset, 1);
    key(&mut app, KeyCode::Char('h'));
    assert_eq!(app.footer_offset, 0);
}

#[test]
fn search_opens_closed_groups_temporarily_and_keeps_homonyms_distinct() {
    let mut app = sized(journal(""));
    let expanded = app.expanded.clone();
    search(&mut app, "dev");
    let screen = paint(&mut app, 100, 24);
    for rel in ["apps/auth", "apps/cli", "apps/mcp"] {
        assert!(screen.contains(&format!("- [{rel}]")), "{screen}");
        assert!(app.group_is_open(&path(rel)));
        assert!(app.visible_pos(group(&app, rel)).is_some());
    }
    assert_eq!(
        app.search.matches.iter().filter(|m| app.row_script(m.index).is_some()).count(),
        3
    );
    assert_eq!(app.expanded, expanded);
    assert!(!key(&mut app, KeyCode::Enter));
    assert!(app.run_intents.is_empty());
    key(&mut app, KeyCode::Enter);
    assert_eq!(app.run_intents.len(), 1);
    assert_eq!(app.run_intents[0].package_root, path("apps/auth"));
    assert_eq!(app.run_intents[0].script_name, "dev");
    key(&mut app, KeyCode::Down);
    key(&mut app, KeyCode::Down);
    key(&mut app, KeyCode::Enter);
    assert_eq!(app.run_intents.len(), 2);
    assert_eq!(app.run_intents[1].package_root, path("apps/cli"));
    assert!(!key(&mut app, KeyCode::Esc));
    assert!(paint(&mut app, 100, 24).contains("+ [apps/cli]"));
    assert!(!app.group_is_open(&path("apps/cli")));
    assert_eq!(app.expanded, expanded);
    assert_eq!(app.selected, group(&app, "apps/cli"));
    assert!(key(&mut app, KeyCode::Esc));
}

#[test]
fn mouse_group_body_and_play_gutter_have_distinct_actions_with_both_icon_sets() {
    for theme in [Theme::ascii(), Theme::nerd()] {
        let mut app = sized(journal(""));
        app.theme = theme;
        let header = group(&app, "apps/mcp");
        click(&mut app, header, false);
        assert!(paint(&mut app, 100, 24).contains("- [apps/mcp]"));
        assert!(app.group_is_open(&path("apps/mcp")));
        assert!(app.run_intents.is_empty());
        click(&mut app, header + 1, false);
        assert!(app.run_intents.is_empty());
        click(&mut app, header + 1, true);
        assert_eq!(app.run_intents.len(), 1);
        assert_eq!(app.run_intents[0].package_root, path("apps/mcp"));
        assert_eq!(app.run_intents[0].script_name, "dev");
        click(&mut app, header, true);
        assert_eq!(app.run_intents.len(), 1);
        assert_eq!(app.selected, header);
        assert!(paint(&mut app, 100, 24).contains("+ [apps/mcp]"));
        assert!(!app.group_is_open(&path("apps/mcp")));
    }
}

#[test]
fn wheel_moves_the_rendered_viewport_without_moving_selection() {
    let mut app = SidebarApp::new(journal(""));
    let before = paint(&mut app, 100, 9);
    let selected = app.selected;
    let geo = app.layout();
    app.handle_mouse(MouseInput { kind: MouseKind::ScrollDown, column: geo.list.x, row: geo.list.y });
    let offset = app.list_offset;
    assert!(offset > 0);
    let after = paint(&mut app, 100, 9);
    assert_eq!(app.selected, selected);
    assert_eq!(app.list_offset, offset);
    assert_ne!(before, after);
    assert!(after.contains("[packages/core]"), "{after}");
    app.handle_mouse(MouseInput { kind: MouseKind::ScrollDown, column: geo.list.x, row: geo.list.y });
    assert!(paint(&mut app, 100, 9).contains("[packages/infrastructure]"));
    assert_eq!(app.selected, selected);
    key(&mut app, KeyCode::Down);
    let screen = paint(&mut app, 100, 9);
    assert!(screen.contains("[apps/auth]"), "{screen}");
}

#[test]
fn no_results_escape_small_dimensions_and_search_entrypoints() {
    let mut app = sized(journal("apps/mcp"));
    app.handle_key(KeyInput { code: KeyCode::Char('f'), control: true });
    assert!(app.search.is_editing());
    key(&mut app, KeyCode::Char('z'));
    assert!(paint(&mut app, 100, 24).contains("No script matches \"z\""));
    assert_eq!(app.no_match_message().unwrap(), "No script matches \"z\"");
    key(&mut app, KeyCode::Enter);
    key(&mut app, KeyCode::Enter);
    assert!(app.run_intents.is_empty());
    assert!(!key(&mut app, KeyCode::Esc));
    assert!(paint(&mut app, 100, 24).contains("[apps/mcp]"));
    assert!(app.visible_pos(group(&app, "apps/mcp")).is_some());
    let geo = app.layout();
    app.handle_mouse(MouseInput { kind: MouseKind::LeftDown, column: geo.magnifier.x, row: geo.magnifier.y });
    assert!(app.search.is_editing());
    key(&mut app, KeyCode::Esc);
    assert!(paint(&mut app, 10, 5).contains("Terminal"));
    assert!(!handle_event(&mut app, UiEvent::Resize(12, 7)));
    assert!(app.too_small());
    assert_eq!(app.error_message().unwrap(), "Terminal too small");
    let selected = app.selected;
    key(&mut app, KeyCode::Down);
    key(&mut app, KeyCode::Enter);
    assert_eq!(app.selected, selected);
    assert!(app.run_intents.is_empty());
    assert!(key(&mut app, KeyCode::Char('q')));
}

fn rootless_with_broken_auth() -> ListedScripts {
    let mut listed = journal("apps/mcp");
    if let Ok(ProjectCatalog::Workspace(w)) = &mut listed.catalog {
        w.packages.remove(0);
        w.packages[0].catalog = Err(AppError::InvalidPackageJson);
    }
    listed
}

#[test]
fn invalid_members_and_rootless_workspace_render_without_hiding_valid_scripts() {
    let mut app = sized(rootless_with_broken_auth());
    let screen = paint(&mut app, 110, 24);
    assert!(screen.contains("5 packages"), "{screen}");
    assert!(screen.contains("[apps/auth]"));
    assert!(screen.contains("package.json is not valid JSON"));
    assert!(screen.contains("echo witness"));
    assert_eq!(app.rows.iter().filter(|r| matches!(r, CatalogRow::Group(_))).count(), 5);
    key(&mut app, KeyCode::Enter);
    assert_eq!(app.run_intents[0].package_root, path("apps/mcp"));
    let mut app = sized(rootless_with_broken_auth());
    app.select_index(group(&app, "apps/auth"));
    assert_eq!(app.selected_detail(), "apps/auth: package.json is not valid JSON");
    let mut listed = journal("");
    if let Ok(ProjectCatalog::Workspace(w)) = &mut listed.catalog {
        for p in w.packages.iter_mut().skip(1) {
            p.catalog = Err(AppError::InvalidPackageJson);
        }
    }
    let mut broken = sized(listed);
    assert!(paint(&mut broken, 110, 24).contains("package.json is not valid JSON"));
}

#[test]
fn search_mode_follows_the_keys() {
    let mut app = sized(journal(""));
    search(&mut app, "st");
    assert_eq!(app.search.query, "st");
    key(&mut app, KeyCode::Backspace);
    assert_eq!(app.search.query, "s");
    key(&mut app, KeyCode::Enter);
    assert_eq!(app.search.mode, SearchMode::Applied);
    assert!(app.selected_script().is_some());
}

#[test]
fn status_lines_wrap_messages_under_the_help_line() {
    let mut app = sized(journal(""));
    app.launch_error = Some(AppError::LaunchNotConfirmed { tab_id: None });
    let lines = app.status_lines();
    assert_eq!(lines[0], "[j][k] [h][l] [enter] [/]");
    assert_eq!(lines[1], "Script launch not confirmed");
    app.set_inner(Rect::new(1, 1, 10, 22));
    let lines = app.status_lines();
    assert_eq!(lines[1], "Script lau");
}

#[test]
fn queued_launches_are_taken_once_and_the_last_outcome_is_shown() {
    let mut app = sized(journal("apps/mcp"));
    key(&mut app, KeyCode::Enter);
    let taken = app.take_intents().unwrap();
    assert_eq!(taken.len(), 1);
    assert!(app.run_intents.is_empty());
    app.record_launch(Err(AppError::LaunchNotConfirmed { tab_id: None }));
    assert_eq!(app.launch_error, Some(AppError::LaunchNotConfirmed { tab_id: None }));
    app.record_launch(Ok(()));
    assert_eq!(app.launch_error, None);
    let listed = ListedScripts { catalog: Err(AppError::NoPackageJson), used_start_cwd: false, root: None };
    let mut broken = sized(listed);
    assert!(broken.take_intents().is_none());
}
