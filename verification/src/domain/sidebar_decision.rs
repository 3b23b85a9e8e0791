//! Whether a toggle opens the sidebar or closes the one already there.

use vstd::prelude::*;

use super::error::AppError;
use super::ids::PaneId;
use super::pane::{spec_is_sidebar, OriginContext, PaneInfo};
use super::text::same_text;

verus! {

/// Two-state sidebar decision for the captured origin tab.
#[derive(Debug, Clone, PartialEq, Eq)]
pub enum SidebarDecision {
    Open,
    Close { pane_id: PaneId },
}

/// The pane belongs to the origin's workspace and tab.
pub open spec fn in_origin_tab(p: PaneInfo, origin: OriginContext) -> bool {
    p.workspace_id@ == origin.workspace_id.0@ && p.tab_id@ == origin.tab_id.0@
}

/// The first pane listed under the origin pane's id still sits in the
/// origin's workspace and tab.
pub open spec fn origin_still_there(panes: Seq<PaneInfo>, origin: OriginContext) -> bool {
    exists|i: int|
        0 <= i < panes.len() && (#[trigger] panes[i]).pane_id@ == origin.pane_id.0@
            && in_origin_tab(panes[i], origin) && forall|j: int|
            0 <= j < i ==> panes[j].pane_id@ != origin.pane_id.0@
}

/// A pane of the origin tab that carries the sidebar token.
pub open spec fn recognised(p: PaneInfo, origin: OriginContext) -> bool {
    in_origin_tab(p, origin) && spec_is_sidebar(p)
}

/// No pane of the origin tab is a recognised sidebar.
pub open spec fn no_sidebar(panes: Seq<PaneInfo>, origin: OriginContext) -> bool {
    forall|i: int| 0 <= i < panes.len() ==> !recognised(#[trigger] panes[i], origin)
}

/// The pane at `i` is the one recognised sidebar of the origin tab.
pub open spec fn sole_sidebar(panes: Seq<PaneInfo>, origin: OriginContext, i: int) -> bool {
    &&& 0 <= i < panes.len()
    &&& recognised(panes[i], origin)
    &&& forall|j: int| 0 <= j < panes.len() && j != i ==> !recognised(#[trigger] panes[j], origin)
}

/// Two distinct panes of the origin tab are recognised sidebars.
pub open spec fn several_sidebars(panes: Seq<PaneInfo>, origin: OriginContext) -> bool {
    exists|i: int, j: int|
        0 <= i < j < panes.len() && recognised(#[trigger] panes[i], origin) && recognised(
            #[trigger] panes[j],
            origin,
        )
}

/// Inspect `pane.list` for the origin tab. Recognition is the session token
/// only; the visible `npm` label is ignored.
pub fn decide_sidebar(panes: &[PaneInfo], origin: &OriginContext) -> (r: Result<
    SidebarDecision,
    AppError,
>)
    ensures
        r == Err::<SidebarDecision, AppError>(AppError::OriginChanged) <==> !origin_still_there(
            panes@,
            *origin,
        ),
        r == Ok::<SidebarDecision, AppError>(SidebarDecision::Open) <==> (origin_still_there(
            panes@,
            *origin,
        ) && no_sidebar(panes@, *origin)),
        r == Err::<SidebarDecision, AppError>(AppError::SeveralSidebars) <==> (origin_still_there(
            panes@,
            *origin,
        ) && several_sidebars(panes@, *origin)),
        r is Ok && r->Ok_0 is Close ==> exists|i: int|
            sole_sidebar(panes@, *origin, i) && (r->Ok_0)->pane_id.0@ == panes@[i].pane_id@,
        origin_still_there(panes@, *origin) ==> (forall|i: int|
            #![trigger panes@[i]]
            sole_sidebar(panes@, *origin, i) ==> r is Ok && r->Ok_0 is Close && (
            r->Ok_0)->pane_id.0@ == panes@[i].pane_id@),
{
    let mut at: usize = 0;
    while at < panes.len()
        invariant
            at <= panes@.len(),
            forall|j: int| 0 <= j < at ==> panes@[j].pane_id@ != origin.pane_id.0@,
        ensures
            at <= panes@.len(),
            forall|j: int| 0 <= j < at ==> panes@[j].pane_id@ != origin.pane_id.0@,
            at < panes@.len() ==> panes@[at as int].pane_id@ == origin.pane_id.0@,
        decreases panes.len() - at,
    {
        if same_text(panes[at].pane_id.as_str(), origin.pane_id.as_str()) {
            break;
        }
        at += 1;
    }
    if at == panes.len() {
        return Err(AppError::OriginChanged);
    }
    let origin_pane = &panes[at];
    if !same_text(origin_pane.tab_id.as_str(), origin.tab_id.as_str()) || !same_text(
        origin_pane.workspace_id.as_str(),
        origin.workspace_id.as_str(),
    ) {
        proof {
            assert forall|i: int|
                0 <= i < panes@.len() && (#[trigger] panes@[i]).pane_id@ == origin.pane_id.0@
                    && in_origin_tab(panes@[i], *origin) implies exists|j: int|
                0 <= j < i && panes@[j].pane_id@ == origin.pane_id.0@ by {
                if i > at {
                    assert(panes@[at as int].pane_id@ == origin.pane_id.0@);
                }
            }
        }
        return Err(AppError::OriginChanged);
    }
    assert(origin_still_there(panes@, *origin)) by {
        assert(panes@[at as int].pane_id@ == origin.pane_id.0@);
    }
    let mut found: Option<usize> = None;
    let mut i: usize = 0;
    while i < panes.len()
        invariant
            i <= panes@.len(),
            origin_still_there(panes@, *origin),
            match found {
                None => forall|t: int| 0 <= t < i ==> !recognised(#[trigger] panes@[t], *origin),
                Some(f) => f < i && recognised(panes@[f as int], *origin) && forall|t: int|
                    0 <= t < i && t != f ==> !recognised(#[trigger] panes@[t], *origin),
            },
        decreases panes.len() - i,
    {
        let p = &panes[i];
        if same_text(p.workspace_id.as_str(), origin.workspace_id.as_str()) && same_text(
            p.tab_id.as_str(),
            origin.tab_id.as_str(),
        ) && p.is_herdr_npm_sidebar() {
            match found {
                None => {
                    found = Some(i);
                },
                Some(f) => {
                    assert(recognised(panes@[f as int], *origin));
                    assert(recognised(panes@[i as int], *origin));
                    assert(several_sidebars(panes@, *origin));
                    return Err(AppError::SeveralSidebars);
                },
            }
        }
        i += 1;
    }
    match found {
        None => Ok(SidebarDecision::Open),
        Some(f) => {
            proof {
                assert(sole_sidebar(panes@, *origin, f as int));
                assert forall|i: int| sole_sidebar(panes@, *origin, i) implies i == f by {
                    if i != f {
                        assert(!recognised(panes@[i], *origin));
                    }
                }
            }
            Ok(SidebarDecision::Close { pane_id: panes[f].id() })
        },
    }
}

} // verus!
