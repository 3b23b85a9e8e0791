use herdr_npm::domain::error::AppError;
use herdr_npm::domain::geometry::pick_working_target;
use herdr_npm::domain::ids::TabId;
use herdr_npm::domain::pane::{LayoutPane, LayoutRect, LayoutSnapshot, PaneInfo};

fn pane(id: &str, tab: &str) -> PaneInfo {
    PaneInfo {
        pane_id: id.into(),
        workspace_id: "w1".into(),
        tab_id: tab.into(),
        focused: false,
        label: None,
        title: None,
        cwd: None,
        foreground_cwd: None,
        tokens: Vec::new(),
    }
}

fn placed(id: &str, x: u16, y: u16, width: u16) -> LayoutPane {
    LayoutPane { pane_id: id.into(), focused: false, rect: LayoutRect { x, y, width, height: 40 } }
}

fn layout(panes: Vec<LayoutPane>) -> LayoutSnapshot {
    LayoutSnapshot {
        workspace_id: "w1".into(),
        tab_id: "w1:t1".into(),
        area: LayoutRect { x: 0, y: 0, width: 120, height: 40 },
        focused_pane_id: "w1:p-ed".into(),
        panes,
    }
}

#[test]
fn working_target_skips_explorer_and_picks_leftmost() {
    let mut explorer = pane("w1:p-exp", "w1:t1");
    explorer.label = Some("Sidebar".into());
    let editor = pane("w1:p-ed", "w1:t1");
    let panes = vec![explorer, editor];
    let layout = layout(vec![placed("w1:p-exp", 0, 0, 32), placed("w1:p-ed", 32, 0, 88)]);
    let chosen = pick_working_target(&panes, &layout, &TabId("w1:t1".into())).unwrap();
    assert_eq!(chosen.pane_id, "w1:p-ed");
}

#[test]
fn highest_then_pane_id_break_ties() {
    let panes = vec![pane("b", "t"), pane("a", "t"), pane("c", "t")];
    let layout = layout(vec![placed("b", 0, 10, 10), placed("a", 0, 10, 10), placed("c", 0, 5, 10)]);
    assert_eq!(pick_working_target(&panes, &layout, &TabId("t".into())).unwrap().pane_id, "c");
    let layout = layout_without_c();
    assert_eq!(pick_working_target(&panes, &layout, &TabId("t".into())).unwrap().pane_id, "a");
}

fn layout_without_c() -> LayoutSnapshot {
    layout(vec![placed("b", 0, 10, 10), placed("a", 0, 10, 10)])
}

#[test]
fn no_candidate_is_an_error() {
    let mut own = pane("sb", "t");
    own.tokens.push(("herdr_npm_sidebar".into(), "v1".into()));
    let other_tab = pane("x", "u");
    let unplaced = pane("y", "t");
    let panes = vec![own, other_tab, unplaced];
    let layout = layout(vec![placed("sb", 0, 0, 10), placed("x", 10, 0, 10)]);
    assert_eq!(
        pick_working_target(&panes, &layout, &TabId("t".into())).unwrap_err(),
        AppError::NoWorkingTarget
    );
}
