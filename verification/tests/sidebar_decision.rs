use herdr_npm::domain::error::AppError;
use herdr_npm::domain::ids::{PaneId, TabId, WorkspaceId};
use herdr_npm::domain::pane::{OriginContext, PaneInfo};
use herdr_npm::domain::sidebar_decision::{decide_sidebar, SidebarDecision};
use herdr_npm::domain::{SIDEBAR_TOKEN_KEY, SIDEBAR_TOKEN_VALUE};

fn pane(id: &str, tab: &str, token: bool, label: Option<&str>) -> PaneInfo {
    let mut tokens = Vec::new();
    if token {
        tokens.push((SIDEBAR_TOKEN_KEY.to_string(), SIDEBAR_TOKEN_VALUE.to_string()));
    }
    PaneInfo {
        pane_id: id.into(),
        workspace_id: "w1".into(),
        tab_id: tab.into(),
        focused: false,
        label: label.map(str::to_string),
        title: None,
        cwd: None,
        foreground_cwd: None,
        tokens,
    }
}

fn origin(tab: &str, pane_id: &str) -> OriginContext {
    OriginContext {
        workspace_id: WorkspaceId("w1".into()),
        tab_id: TabId(tab.into()),
        pane_id: PaneId(pane_id.into()),
        foreground_cwd: None,
        cwd: None,
    }
}

#[test]
fn no_token_means_open() {
    let panes = vec![pane("editor", "t1", false, Some("editor"))];
    assert_eq!(decide_sidebar(&panes, &origin("t1", "editor")).unwrap(), SidebarDecision::Open);
}

#[test]
fn npm_label_without_token_is_not_recognised() {
    let panes = vec![pane("foreign", "t1", false, Some("npm"))];
    assert_eq!(decide_sidebar(&panes, &origin("t1", "foreign")).unwrap(), SidebarDecision::Open);
}

#[test]
fn one_token_means_close() {
    let panes = vec![pane("editor", "t1", false, None), pane("sb", "t1", true, Some("npm"))];
    assert_eq!(
        decide_sidebar(&panes, &origin("t1", "editor")).unwrap(),
        SidebarDecision::Close { pane_id: PaneId("sb".into()) }
    );
}

#[test]
fn token_on_another_tab_is_ignored() {
    let panes = vec![pane("editor", "t1", false, None), pane("sb", "t2", true, Some("npm"))];
    assert_eq!(decide_sidebar(&panes, &origin("t1", "editor")).unwrap(), SidebarDecision::Open);
}

#[test]
fn several_tokens_are_an_error() {
    let panes = vec![
        pane("editor", "t1", false, None),
        pane("sb1", "t1", true, None),
        pane("sb2", "t1", true, None),
    ];
    assert_eq!(
        decide_sidebar(&panes, &origin("t1", "editor")).unwrap_err(),
        AppError::SeveralSidebars
    );
}

#[test]
fn missing_origin_pane_is_changed() {
    let panes = vec![pane("other", "t1", false, None)];
    assert_eq!(
        decide_sidebar(&panes, &origin("t1", "editor")).unwrap_err(),
        AppError::OriginChanged
    );
}

#[test]
fn origin_pane_moved_to_another_tab_is_changed() {
    let panes = vec![pane("editor", "t2", false, None)];
    assert_eq!(
        decide_sidebar(&panes, &origin("t1", "editor")).unwrap_err(),
        AppError::OriginChanged
    );
}

#[test]
fn a_token_with_another_value_is_not_recognised() {
    let mut sb = pane("sb", "t1", false, None);
    sb.tokens.push((SIDEBAR_TOKEN_KEY.to_string(), "v0".to_string()));
    let panes = vec![pane("editor", "t1", false, None), sb];
    assert_eq!(decide_sidebar(&panes, &origin("t1", "editor")).unwrap(), SidebarDecision::Open);
}
