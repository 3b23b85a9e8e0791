use herdr_npm::application::list_scripts::{from_loaded, list_scripts, origin_for_paths, project_dir};
use herdr_npm::application::open_sidebar::{
    after_cleanup, needs_cleanup, open_request, open_step, origin_env, OpenAction, OpenState, StepReply,
};
use herdr_npm::application::ports::{LoadedCatalog, ProjectPort};
use herdr_npm::application::run_script::{
    created_tab, launch_request, launch_step, resolve_intent, sent_input, LaunchAction, LaunchReply, LaunchState,
};
use herdr_npm::application::toggle_sidebar::returns_focus;
use herdr_npm::domain::catalog::{PackageCatalog, PackageManager, ProjectCatalog, RunIntent, Script};
use herdr_npm::domain::error::AppError;
use herdr_npm::domain::ids::{PaneId, TabId};
use herdr_npm::domain::pane::{CreatedTab, LayoutPane, LayoutRect, LayoutSnapshot, OpenedPane, PaneInfo};

struct Fixed;

impl ProjectPort for Fixed {
    fn load_catalog(&self, start_dir: &str) -> LoadedCatalog {
        LoadedCatalog { root: Some(start_dir.to_string()), catalog: Err(AppError::NoPackageJson) }
    }
}

fn catalog() -> PackageCatalog {
    PackageCatalog {
        root: "/work/app".into(),
        display_name: "app".into(),
        manager: PackageManager::Pnpm,
        scripts: vec![Script { name: "dev".into(), command: "vite".into() }],
    }
}

#[test]
fn foreground_directory_wins_over_the_start_directory() {
    let listed = list_scripts(&Fixed, &origin_for_paths(Some("/fg".into()), Some("/start".into())));
    assert_eq!(listed.root.as_deref(), Some("/fg"));
    assert!(!listed.used_start_cwd);
    let listed = list_scripts(&Fixed, &origin_for_paths(None, Some("/start".into())));
    assert_eq!(listed.root.as_deref(), Some("/start"));
    assert!(listed.used_start_cwd);
    let listed = list_scripts(&Fixed, &origin_for_paths(None, None));
    assert_eq!(listed.catalog.unwrap_err(), AppError::CannotDetermineProjectDir);
    assert_eq!(listed.root, None);
}

#[test]
fn loaded_catalog_is_kept_as_is() {
    let listed = from_loaded(LoadedCatalog::from_error(AppError::NoScripts), true);
    assert_eq!(listed.catalog.unwrap_err(), AppError::NoScripts);
    assert!(listed.used_start_cwd);
}

#[test]
fn intents_resolve_only_to_declared_scripts() {
    let project = ProjectCatalog::Package(catalog());
    let ok = RunIntent { package_root: "/work/app".into(), script_name: "dev".into() };
    assert_eq!(resolve_intent(&project, &ok).unwrap().display_name, "app");
    let gone = RunIntent { package_root: "/work/app".into(), script_name: "build".into() };
    assert_eq!(
        resolve_intent(&project, &gone).unwrap_err(),
        AppError::ScriptUnavailable { package_root: "/work/app".into(), script_name: "build".into() }
    );
    let elsewhere = RunIntent { package_root: "/work/other".into(), script_name: "dev".into() };
    assert!(matches!(resolve_intent(&project, &elsewhere), Err(AppError::ScriptUnavailable { .. })));
}

#[test]
fn launch_request_runs_the_script_in_a_background_tab() {
    let request = launch_request(&catalog(), "main", "dev");
    assert_eq!(request.workspace_id, "main");
    assert_eq!(request.cwd, "/work/app");
    assert_eq!(request.label, "pnpm run -- dev");
    assert!(!request.focus);
}

#[test]
fn unconfirmed_steps_are_unconfirmed_launches() {
    assert_eq!(
        created_tab(Err(AppError::uncertain("tab.create", "timeout"))).unwrap_err(),
        AppError::LaunchNotConfirmed { tab_id: None }
    );
    let no_root = CreatedTab { tab_id: TabId("t".into()), root_pane_id: PaneId(String::new()) };
    assert_eq!(
        created_tab(Ok(no_root)).unwrap_err(),
        AppError::LaunchNotConfirmed { tab_id: Some("t".into()) }
    );
    let tab = CreatedTab { tab_id: TabId("t".into()), root_pane_id: PaneId("t:p1".into()) };
    assert_eq!(created_tab(Ok(tab.clone())).unwrap(), tab);
    assert_eq!(
        sent_input(tab.clone(), Err(AppError::uncertain("pane.send_input", "timeout"))).unwrap_err(),
        AppError::LaunchNotConfirmed { tab_id: Some("t".into()) }
    );
    assert_eq!(sent_input(tab.clone(), Ok(())).unwrap(), tab);
}

#[test]
fn cleanup_keeps_the_first_failure_unless_the_close_is_uncertain() {
    let failure = AppError::herdr("pane.swap", "bad", "no");
    assert!(needs_cleanup(&failure));
    assert!(!needs_cleanup(&AppError::uncertain("pane.swap", "timeout")));
    assert_eq!(after_cleanup(failure.clone(), Ok(())), failure);
    assert_eq!(after_cleanup(failure.clone(), Err(AppError::NoWorkingTarget)), failure);
    assert!(matches!(
        after_cleanup(failure, Err(AppError::uncertain("plugin.pane.close", "t"))),
        AppError::Uncertain { .. }
    ));
}

#[test]
fn sidebar_environment_carries_the_origin() {
    let origin = origin_for_paths(None, None);
    let pane = PaneInfo {
        pane_id: "p1".into(),
        workspace_id: "w1".into(),
        tab_id: "t1".into(),
        focused: true,
        label: None,
        title: None,
        cwd: Some("/start".into()),
        foreground_cwd: None,
        tokens: Vec::new(),
    };
    let env = origin_env(&origin, &pane);
    assert_eq!(env.len(), 4);
    assert_eq!(env[3].1, "/start");
    let request = open_request(&origin, &pane, &pane);
    assert_eq!(request.target_pane_id.as_str(), "p1");
    assert!(!request.focus);
}

#[test]
fn focus_returns_only_when_closing_from_the_sidebar() {
    let origin = origin_for_paths(None, None);
    assert!(returns_focus(&origin, &PaneId("p1".into())));
    assert!(!returns_focus(&origin, &PaneId("sb".into())));
}

#[test]
fn the_project_directory_is_the_foreground_then_the_start() {
    assert_eq!(project_dir(&origin_for_paths(Some("/fg".into()), Some("/s".into()))), Some(("/fg".to_string(), false)));
    assert_eq!(project_dir(&origin_for_paths(None, Some("/s".into()))), Some(("/s".to_string(), true)));
    assert_eq!(project_dir(&origin_for_paths(None, None)), None);
}

fn pane(id: &str) -> PaneInfo {
    PaneInfo {
        pane_id: id.into(),
        workspace_id: "w1".into(),
        tab_id: "t1".into(),
        focused: id == "p1",
        label: None,
        title: None,
        cwd: None,
        foreground_cwd: None,
        tokens: Vec::new(),
    }
}

fn placed(id: &str, x: u16) -> LayoutPane {
    LayoutPane { pane_id: id.into(), focused: false, rect: LayoutRect { x, y: 0, width: 40, height: 40 } }
}

#[test]
fn opening_the_sidebar_follows_the_protocol() {
    let origin = origin_for_paths(None, None);
    let (state, action) = open_step(&origin, OpenState::Begin, StepReply::Start);
    assert!(matches!(action, OpenAction::ListPanes(ref w) if w == "w1"));
    let (state, action) = open_step(&origin, state, StepReply::Panes(Ok(vec![pane("p2"), pane("p1")])));
    assert!(matches!(action, OpenAction::PaneLayout(ref p) if p.as_str() == "p1"));
    let layout = LayoutSnapshot {
        workspace_id: "w1".into(),
        tab_id: "t1".into(),
        area: LayoutRect { x: 0, y: 0, width: 80, height: 40 },
        focused_pane_id: "p1".into(),
        panes: vec![placed("p1", 40), placed("p2", 0)],
    };
    let (state, action) = open_step(&origin, state, StepReply::Layout(Ok(layout)));
    match &action {
        OpenAction::OpenPane(request) => assert_eq!(request.target_pane_id.as_str(), "p2"),
        other => panic!("expected an open request, got {other:?}"),
    }
    let (state, action) = open_step(&origin, state, StepReply::Opened(Ok(OpenedPane { pane_id: PaneId("sb".into()) })));
    assert!(matches!(action, OpenAction::Swap { ref pane, ref target } if pane.as_str() == "sb" && target.as_str() == "p2"));
    let (state, action) = open_step(&origin, state, StepReply::Ack(Ok(())));
    assert!(matches!(action, OpenAction::ReportIdentity(_)));
    let (state, action) = open_step(&origin, state, StepReply::Ack(Ok(())));
    assert!(matches!(action, OpenAction::Measure(_)));
    let (state, action) = open_step(&origin, state, StepReply::Measured(Ok(false)));
    assert!(matches!(action, OpenAction::Focus(_)));
    let (_, action) = open_step(&origin, state, StepReply::Ack(Ok(())));
    assert!(matches!(action, OpenAction::Finish(Ok(ref p)) if p.as_str() == "sb"));
}

#[test]
fn a_failure_after_opening_closes_the_pane_first() {
    let origin = origin_for_paths(None, None);
    let failure = AppError::Herdr { method: "pane.focus".into(), code: "x".into(), message: "y".into() };
    let (state, action) = open_step(
        &origin,
        OpenState::Focusing { pane: PaneId("sb".into()) },
        StepReply::Ack(Err(failure.clone())),
    );
    assert!(matches!(action, OpenAction::Close(ref p) if p.as_str() == "sb"));
    let (_, action) = open_step(&origin, state, StepReply::Ack(Ok(())));
    assert!(matches!(action, OpenAction::Finish(Err(ref e)) if *e == failure));
    let unsure = AppError::Uncertain { method: "pane.focus".into(), message: "?".into() };
    let (_, action) = open_step(&origin, OpenState::Focusing { pane: PaneId("sb".into()) }, StepReply::Ack(Err(unsure.clone())));
    assert!(matches!(action, OpenAction::Finish(Err(ref e)) if *e == unsure));
    let (_, action) = open_step(&origin, OpenState::Listing, StepReply::Panes(Ok(vec![pane("p9")])));
    assert!(matches!(action, OpenAction::Finish(Err(AppError::OriginChanged))));
}

#[test]
fn a_launch_creates_one_tab_then_sends_once() {
    let c = catalog();
    let (state, action) = launch_step(&c, "w1", "dev", LaunchState::Begin, LaunchReply::Start);
    match &action {
        LaunchAction::CreateTab(request) => {
            assert_eq!(request.cwd, "/work/app");
            assert_eq!(request.label, "pnpm run -- dev");
        }
        other => panic!("expected a tab, got {other:?}"),
    }
    let created = CreatedTab { tab_id: TabId("tab".into()), root_pane_id: PaneId("tab:p1".into()) };
    let (state, action) = launch_step(&c, "w1", "dev", state, LaunchReply::Created(Ok(created.clone())));
    assert!(matches!(action, LaunchAction::SendInput { ref pane, ref text } if pane.as_str() == "tab:p1" && text == "pnpm run -- dev"));
    let (state, action) = launch_step(&c, "w1", "dev", state, LaunchReply::Sent(Ok(())));
    assert!(matches!(action, LaunchAction::Finish(Ok(ref t)) if *t == created));
    let (_, again) = launch_step(&c, "w1", "dev", state, LaunchReply::Start);
    assert!(matches!(again, LaunchAction::Finish(Err(AppError::LaunchNotConfirmed { .. }))));
}
