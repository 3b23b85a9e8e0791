use herdr_npm::adapters::env::{
    first_non_empty, load, origin_from_env, socket_path, state_dir, ActionVars, PluginContext,
    ProcessVars,
};
use herdr_npm::domain::error::AppError;

#[test]
fn origin_prefers_the_action_variables() {
    let vars = ActionVars {
        workspace_id: Some(String::new()),
        active_workspace_id: Some("w-active".into()),
        tab_id: None,
        active_tab_id: None,
        active_pane_id: None,
        pane_id: Some("p-own".into()),
        active_pane_cwd: None,
        context: Some(PluginContext {
            workspace_id: Some("w-ctx".into()),
            tab_id: Some("t-ctx".into()),
            focused_pane_id: Some("p-ctx".into()),
            focused_pane_cwd: Some("/ctx".into()),
        }),
    };
    let origin = origin_from_env(&vars).unwrap();
    assert_eq!(origin.workspace_id.as_str(), "w-active");
    assert_eq!(origin.tab_id.as_str(), "t-ctx");
    assert_eq!(origin.pane_id.as_str(), "p-ctx");
    assert_eq!(origin.foreground_cwd.as_deref(), Some("/ctx"));
    assert_eq!(origin.cwd, None);
}

#[test]
fn missing_origin_is_an_error() {
    assert_eq!(origin_from_env(&ActionVars::default()).unwrap_err(), AppError::OriginMissing);
}

#[test]
fn first_present_value_wins() {
    assert_eq!(first_non_empty(&[None, Some("a".into()), Some("b".into())]), Some("a".into()));
    assert_eq!(first_non_empty(&[None, None]), None);
}

#[test]
fn socket_and_state_directories() {
    let mut vars = ProcessVars::default();
    assert!(matches!(socket_path(&vars), Err(AppError::Io { .. })));
    vars.home = Some("/home/u".into());
    assert_eq!(socket_path(&vars).unwrap(), "/home/u/.config/herdr/herdr.sock");
    assert_eq!(state_dir(&vars), "/home/u/.local/state/herdr/plugins/herdr-npm");
    vars.socket_path = Some("/s.sock".into());
    vars.pane_id = Some(String::new());
    vars.origin_cwd = Some("/c".into());
    let env = load(&vars).unwrap();
    assert_eq!(env.socket_path, "/s.sock");
    assert_eq!(env.own_pane_id, None);
    assert_eq!(env.tui_origin.cwd.as_deref(), Some("/c"));
    let vars = ProcessVars::default();
    assert_eq!(state_dir(&vars), "/tmp/.local/state/herdr/plugins/herdr-npm");
}

#[test]
fn empty_variables_are_skipped_but_empty_context_values_count() {
    let vars = ActionVars {
        workspace_id: Some(String::new()),
        tab_id: Some("t1".into()),
        pane_id: Some("p1".into()),
        context: Some(PluginContext {
            workspace_id: Some(String::new()),
            focused_pane_cwd: Some(String::new()),
            ..PluginContext::default()
        }),
        ..ActionVars::default()
    };
    let origin = origin_from_env(&vars).unwrap();
    assert_eq!(origin.workspace_id.0, "");
    assert_eq!(origin.foreground_cwd.as_deref(), Some(""));
}
