//! Opening the sidebar to the left of the working-pane target: the request,
//! and what a failure after the pane appeared turns into.

use vstd::prelude::*;

use super::ports::OpenPluginPane;
use crate::domain::geometry::{is_candidate, is_working_target, pick_working_target};
use crate::domain::pane::{LayoutSnapshot, OpenedPane};
use crate::domain::error::AppError;
use crate::domain::ids::PaneId;
use crate::domain::pane::{OriginContext, PaneInfo};
use crate::domain::sidebar_decision::origin_still_there;
use crate::domain::text::{copy_string, owned, same_text};
use crate::domain::{
    ORIGIN_CWD_ENV, ORIGIN_FOREGROUND_CWD_ENV, ORIGIN_PANE_ENV, ORIGIN_TAB_ENV, ORIGIN_WORKSPACE_ENV,
    PANE_ENTRYPOINT, PLUGIN_ID,
};

verus! {

/// The origin pane as `pane.list` reports it, checked to be still in the
/// origin's workspace and tab.
pub fn find_origin_pane<'a>(panes: &'a [PaneInfo], origin: &OriginContext) -> (r: Result<
    &'a PaneInfo,
    AppError,
>)
    ensures
        origin_still_there(panes@, *origin) <==> r is Ok,
        r is Err ==> r->Err_0 == AppError::OriginChanged,
        r is Ok ==> exists|i: int|
            0 <= i < panes@.len() && *r->Ok_0 == panes@[i] && panes@[i].pane_id@
                == origin.pane_id.0@ && forall|j: int|
                0 <= j < i ==> panes@[j].pane_id@ != origin.pane_id.0@,
{
    let mut at: usize = 0;
    while at < panes.len()
        invariant
            at <= panes@.len(),
            forall|j: int| 0 <= j < at ==> panes@[j].pane_id@ != origin.pane_id.0@,
        ensures
            at <= panes@.len(),
            forall|j: int| 0 <= j < at ==> panes@[j].pane_id@ != origin.pane_id.0@,
            at < panes@.len() ==> panes@[at as int].pane_id@ == origin.pane_id.0@,
        decreases panes.len() - at,
    {
        if same_text(panes[at].pane_id.as_str(), origin.pane_id.as_str()) {
            break;
        }
        at += 1;
    }
    if at == panes.len() {
        return Err(AppError::OriginChanged);
    }
    let pane = &panes[at];
    if !same_text(pane.tab_id.as_str(), origin.tab_id.as_str()) || !same_text(
        pane.workspace_id.as_str(),
        origin.workspace_id.as_str(),
    ) {
        proof {
            assert forall|i: int|
                0 <= i < panes@.len() && (#[trigger] panes@[i]).pane_id@ == origin.pane_id.0@
                    implies !(panes@[i].workspace_id@ == origin.workspace_id.0@ && panes@[i].tab_id@
                == origin.tab_id.0@) || exists|j: int|
                0 <= j < i && panes@[j].pane_id@ == origin.pane_id.0@ by {
                if i > at {
                    assert(panes@[at as int].pane_id@ == origin.pane_id.0@);
                }
            }
        }
        return Err(AppError::OriginChanged);
    }
    Ok(pane)
}

/// A directory known to the origin, else the one the origin pane reports.
pub open spec fn origin_dir(captured: Option<String>, reported: Option<String>) -> Option<Seq<char>> {
    match captured {
        Some(p) => Some(p@),
        None => match reported {
            Some(p) => Some(p@),
            None => None,
        },
    }
}

fn pick_dir(captured: &Option<String>, reported: &Option<String>) -> (r: Option<String>)
    ensures
        match r {
            Some(p) => origin_dir(*captured, *reported) == Some(p@),
            None => origin_dir(*captured, *reported) is None,
        },
{
    match captured {
        Some(p) => Some(copy_string(p)),
        None => match reported {
            Some(p) => Some(copy_string(p)),
            None => None,
        },
    }
}

/// An environment list as pairs of texts.
pub open spec fn env_view(env: Seq<(String, String)>) -> Seq<(Seq<char>, Seq<char>)> {
    env.map_values(|e: (String, String)| (e.0@, e.1@))
}

/// The environment of the sidebar pane: the origin's identifiers, then its
/// foreground and start directories where they are known.
pub open spec fn spec_origin_env(origin: OriginContext, pane: PaneInfo) -> Seq<(Seq<char>, Seq<char>)> {
    let ids = seq![
        (ORIGIN_WORKSPACE_ENV@, origin.workspace_id.0@),
        (ORIGIN_TAB_ENV@, origin.tab_id.0@),
        (ORIGIN_PANE_ENV@, origin.pane_id.0@),
    ];
    let with_fg = match origin_dir(origin.foreground_cwd, pane.foreground_cwd) {
        Some(p) => ids.push((ORIGIN_FOREGROUND_CWD_ENV@, p)),
        None => ids,
    };
    match origin_dir(origin.cwd, pane.cwd) {
        Some(p) => with_fg.push((ORIGIN_CWD_ENV@, p)),
        None => with_fg,
    }
}

/// The environment handed to the sidebar pane.
pub fn origin_env(origin: &OriginContext, origin_pane: &PaneInfo) -> (r: Vec<(String, String)>)
    ensures
        env_view(r@) == spec_origin_env(*origin, *origin_pane),
{
    let mut env: Vec<(String, String)> = Vec::new();
    env.push((owned(ORIGIN_WORKSPACE_ENV), copy_string(&origin.workspace_id.0)));
    env.push((owned(ORIGIN_TAB_ENV), copy_string(&origin.tab_id.0)));
    env.push((owned(ORIGIN_PANE_ENV), copy_string(&origin.pane_id.0)));
    let ghost ids = seq![
        (ORIGIN_WORKSPACE_ENV@, origin.workspace_id.0@),
        (ORIGIN_TAB_ENV@, origin.tab_id.0@),
        (ORIGIN_PANE_ENV@, origin.pane_id.0@),
    ];
    assert(env_view(env@) =~= ids);
    let foreground = pick_dir(&origin.foreground_cwd, &origin_pane.foreground_cwd);
    let cwd = pick_dir(&origin.cwd, &origin_pane.cwd);
    let ghost with_fg = match origin_dir(origin.foreground_cwd, origin_pane.foreground_cwd) {
        Some(p) => ids.push((ORIGIN_FOREGROUND_CWD_ENV@, p)),
        None => ids,
    };
    if let Some(path) = foreground {
        let ghost before = env@;
        env.push((owned(ORIGIN_FOREGROUND_CWD_ENV), path));
        assert(env_view(env@) =~= env_view(before).push((ORIGIN_FOREGROUND_CWD_ENV@, path@)));
    }
    assert(env_view(env@) =~= with_fg);
    if let Some(path) = cwd {
        let ghost before = env@;
        env.push((owned(ORIGIN_CWD_ENV), path));
        assert(env_view(env@) =~= env_view(before).push((ORIGIN_CWD_ENV@, path@)));
    }
    env
}

/// The request that opens this plugin's pane next to the target, in the
/// origin's workspace, without focus, with the origin's environment.
pub open spec fn is_open_request(r: OpenPluginPane, origin: OriginContext, origin_pane: PaneInfo, target: PaneInfo) -> bool {
    &&& r.plugin_id@ == PLUGIN_ID@
    &&& r.entrypoint@ == PANE_ENTRYPOINT@
    &&& r.target_pane_id.0@ == target.pane_id@
    &&& r.workspace_id@ == origin.workspace_id.0@
    &&& !r.focus
    &&& env_view(r.env@) == spec_origin_env(origin, origin_pane)
}

/// The request that opens the plugin pane next to the target, without focus.
pub fn open_request(origin: &OriginContext, origin_pane: &PaneInfo, target: &PaneInfo) -> (r:
    OpenPluginPane)
    ensures
        is_open_request(r, *origin, *origin_pane, *target),
{
    OpenPluginPane {
        plugin_id: owned(PLUGIN_ID),
        entrypoint: owned(PANE_ENTRYPOINT),
        target_pane_id: target.id(),
        workspace_id: copy_string(&origin.workspace_id.0),
        focus: false,
        env: origin_env(origin, origin_pane),
    }
}

/// A failed step after the pane appeared: an unconfirmed step is reported as
/// it is, without touching the pane; any other failure closes the pane first.
pub fn needs_cleanup(error: &AppError) -> (r: bool)
    ensures
        r == !(error is Uncertain),
{
    !(error matches AppError::Uncertain { .. })
}

/// The error reported once the pane was closed after a failed step: an
/// unconfirmed close is reported as such, any other outcome keeps the failure.
pub fn after_cleanup(error: AppError, closed: Result<(), AppError>) -> (r: AppError)
    ensures
        match closed {
            Err(AppError::Uncertain { .. }) => r is Uncertain && r->Uncertain_method@
                == "plugin.pane.close"@ && r->Uncertain_message@
                == "sidebar opened but a later step failed and close was not confirmed"@,
            _ => r == error,
        },
{
    match closed {
        Ok(()) => error,
        Err(AppError::Uncertain { .. }) => AppError::uncertain(
            "plugin.pane.close",
            "sidebar opened but a later step failed and close was not confirmed",
        ),
        Err(_) => error,
    }
}

/// Where opening the sidebar stands: which reply it waits for, and what it
/// keeps for the steps after.
#[derive(Debug)]
pub enum OpenState {
    /// Nothing asked yet.
    Begin,
    /// Waiting for the pane list.
    Listing,
    /// Waiting for the origin pane's layout.
    Locating { panes: Vec<PaneInfo> },
    /// Waiting for the opened pane.
    Opening { target: PaneId },
    /// Waiting for the swap with the target.
    Swapping { pane: PaneId },
    /// Waiting for the identity report.
    Reporting { pane: PaneId },
    /// Waiting to learn whether the pane wants a resize.
    Measuring { pane: PaneId },
    /// Waiting for the resize.
    Resizing { pane: PaneId },
    /// Waiting for the focus.
    Focusing { pane: PaneId },
    /// A step failed after the pane appeared; waiting for its close.
    Closing { pane: PaneId, error: AppError },
    /// Finished.
    Done,
}

/// What came back from the last request.
#[derive(Debug)]
pub enum StepReply {
    /// The first call: nothing was asked yet.
    Start,
    Panes(Result<Vec<PaneInfo>, AppError>),
    Layout(Result<LayoutSnapshot, AppError>),
    Opened(Result<OpenedPane, AppError>),
    /// The new pane's layout was read; `true` when it is to be resized.
    Measured(Result<bool, AppError>),
    /// A request without a result.
    Ack(Result<(), AppError>),
}

/// The next request, or the outcome.
#[derive(Debug)]
pub enum OpenAction {
    ListPanes(String),
    PaneLayout(PaneId),
    OpenPane(OpenPluginPane),
    Swap { pane: PaneId, target: PaneId },
    ReportIdentity(PaneId),
    /// Read the pane's layout and decide on its preferred width.
    Measure(PaneId),
    /// Resize the pane to the width decided on.
    Resize(PaneId),
    Focus(PaneId),
    Close(PaneId),
    Finish(Result<PaneId, AppError>),
}

/// A step that failed after the pane appeared: a confirmed failure closes the
/// pane first, an unconfirmed one is reported as it is.
pub open spec fn after_failure(pane: PaneId, error: AppError, next: OpenState, action: OpenAction) -> bool {
    if error is Uncertain {
        next is Done && action == OpenAction::Finish(Err(error))
    } else {
        next == (OpenState::Closing { pane, error }) && action == OpenAction::Close(pane)
    }
}

/// The protocol of opening the sidebar: list the panes, check the origin,
/// read its layout, pick the working target, open the pane, swap it into the
/// target's place, report its identity, measure, resize when wanted, focus.
/// A failure before the pane appears ends there; after, `after_failure`.
pub open spec fn spec_open_step(origin: OriginContext, state: OpenState, reply: StepReply, next: OpenState, action: OpenAction) -> bool {
    match (state, reply) {
        (OpenState::Begin, StepReply::Start) => next is Listing && action
            == OpenAction::ListPanes(origin.workspace_id.0),
        (OpenState::Listing, StepReply::Panes(Err(e))) => next is Done && action == OpenAction::Finish(Err(e)),
        (OpenState::Listing, StepReply::Panes(Ok(panes))) => if origin_still_there(panes@, origin) {
            next == (OpenState::Locating { panes }) && action == OpenAction::PaneLayout(origin.pane_id)
        } else {
            next is Done && action == OpenAction::Finish(Err(AppError::OriginChanged))
        },
        (OpenState::Locating { panes: _ }, StepReply::Layout(Err(e))) => next is Done && action
            == OpenAction::Finish(Err(e)),
        (OpenState::Locating { panes }, StepReply::Layout(Ok(layout))) => if !origin_still_there(panes@, origin) {
            next is Done && action == OpenAction::Finish(Err(AppError::OriginChanged))
        } else if forall|j: int| 0 <= j < panes@.len() ==> !is_candidate(#[trigger] panes@[j], layout, origin.tab_id) {
            next is Done && action == OpenAction::Finish(Err(AppError::NoWorkingTarget))
        } else {
            exists|o: int, t: int|
                0 <= o < panes@.len() && (#[trigger] panes@[o]).pane_id@ == origin.pane_id.0@ && (forall|j: int|
                    0 <= j < o ==> panes@[j].pane_id@ != origin.pane_id.0@) && is_working_target(
                    panes@,
                    layout,
                    origin.tab_id,
                    t,
                ) && next is Opening && next->target.0@ == panes@[t].pane_id@ && action is OpenPane
                    && is_open_request(action->OpenPane_0, origin, panes@[o], #[trigger] panes@[t])
        },
        (OpenState::Opening { target: _ }, StepReply::Opened(Err(e))) => next is Done && action
            == OpenAction::Finish(Err(e)),
        (OpenState::Opening { target }, StepReply::Opened(Ok(p))) => next == (OpenState::Swapping {
            pane: p.pane_id,
        }) && action == (OpenAction::Swap { pane: p.pane_id, target }),
        (OpenState::Swapping { pane }, StepReply::Ack(Ok(()))) => next == (OpenState::Reporting { pane })
            && action == OpenAction::ReportIdentity(pane),
        (OpenState::Reporting { pane }, StepReply::Ack(Ok(()))) => next == (OpenState::Measuring { pane })
            && action == OpenAction::Measure(pane),
        (OpenState::Measuring { pane }, StepReply::Measured(Ok(wanted))) => if wanted {
            next == (OpenState::Resizing { pane }) && action == OpenAction::Resize(pane)
        } else {
            next == (OpenState::Focusing { pane }) && action == OpenAction::Focus(pane)
        },
        (OpenState::Resizing { pane }, StepReply::Ack(Ok(()))) => next == (OpenState::Focusing { pane })
            && action == OpenAction::Focus(pane),
        (OpenState::Focusing { pane }, StepReply::Ack(Ok(()))) => next is Done && action
            == OpenAction::Finish(Ok(pane)),
        (OpenState::Swapping { pane }, StepReply::Ack(Err(e))) => after_failure(pane, e, next, action),
        (OpenState::Reporting { pane }, StepReply::Ack(Err(e))) => after_failure(pane, e, next, action),
        (OpenState::Measuring { pane }, StepReply::Measured(Err(e))) => after_failure(pane, e, next, action),
        (OpenState::Resizing { pane }, StepReply::Ack(Err(e))) => after_failure(pane, e, next, action),
        (OpenState::Focusing { pane }, StepReply::Ack(Err(e))) => after_failure(pane, e, next, action),
        (OpenState::Closing { pane: _, error }, StepReply::Ack(closed)) => next is Done && action is Finish
            && action->Finish_0 is Err && match closed {
            Err(AppError::Uncertain { .. }) => action->Finish_0->Err_0 is Uncertain
                && action->Finish_0->Err_0->Uncertain_method@ == "plugin.pane.close"@
                && action->Finish_0->Err_0->Uncertain_message@
                == "sidebar opened but a later step failed and close was not confirmed"@,
            _ => action->Finish_0->Err_0 == error,
        },
        _ => next is Done && action is Finish && action->Finish_0 is Err,
    }
}

fn copy_pane(p: &PaneId) -> (r: PaneId)
    ensures
        r == *p,
{
    PaneId(copy_string(&p.0))
}

fn fail_after_open(pane: PaneId, error: AppError) -> (r: (OpenState, OpenAction))
    ensures
        after_failure(pane, error, r.0, r.1),
{
    if needs_cleanup(&error) {
        let closing = copy_pane(&pane);
        (OpenState::Closing { pane: closing, error }, OpenAction::Close(pane))
    } else {
        (OpenState::Done, OpenAction::Finish(Err(error)))
    }
}

/// One step of opening the sidebar, from the state and the last reply to the
/// next state and request.
pub fn open_step(origin: &OriginContext, state: OpenState, reply: StepReply) -> (r: (OpenState, OpenAction))
    ensures
        spec_open_step(*origin, state, reply, r.0, r.1),
{
    match (state, reply) {
        (OpenState::Begin, StepReply::Start) => (OpenState::Listing, OpenAction::ListPanes(copy_string(&origin.workspace_id.0))),
        (OpenState::Listing, StepReply::Panes(Err(e))) => (OpenState::Done, OpenAction::Finish(Err(e))),
        (OpenState::Listing, StepReply::Panes(Ok(panes))) => {
            let found = find_origin_pane(panes.as_slice(), origin).is_ok();
            if found {
                (OpenState::Locating { panes }, OpenAction::PaneLayout(copy_pane(&origin.pane_id)))
            } else {
                (OpenState::Done, OpenAction::Finish(Err(AppError::OriginChanged)))
            }
        },
        (OpenState::Locating { panes: _ }, StepReply::Layout(Err(e))) => (OpenState::Done, OpenAction::Finish(Err(e))),
        (OpenState::Locating { panes }, StepReply::Layout(Ok(layout))) => {
            let origin_pane = match find_origin_pane(panes.as_slice(), origin) {
                Ok(p) => p,
                Err(e) => {
                    return (OpenState::Done, OpenAction::Finish(Err(e)));
                },
            };
            let target = match pick_working_target(panes.as_slice(), &layout, &origin.tab_id) {
                Ok(t) => t,
                Err(e) => {
                    return (OpenState::Done, OpenAction::Finish(Err(e)));
                },
            };
            let request = open_request(origin, origin_pane, target);
            let ghost o = choose|o: int|
                0 <= o < panes@.len() && *origin_pane == panes@[o] && panes@[o].pane_id@ == origin.pane_id.0@
                    && forall|j: int| 0 <= j < o ==> panes@[j].pane_id@ != origin.pane_id.0@;
            let ghost t = choose|t: int| is_working_target(panes@, layout, origin.tab_id, t) && *target == panes@[t];
            assert(is_candidate(panes@[t], layout, origin.tab_id));
            (OpenState::Opening { target: target.id() }, OpenAction::OpenPane(request))
        },
        (OpenState::Opening { target: _ }, StepReply::Opened(Err(e))) => (OpenState::Done, OpenAction::Finish(Err(e))),
        (OpenState::Opening { target }, StepReply::Opened(Ok(p))) => {
            let pane = copy_pane(&p.pane_id);
            (OpenState::Swapping { pane }, OpenAction::Swap { pane: p.pane_id, target })
        },
        (OpenState::Swapping { pane }, StepReply::Ack(Ok(()))) => {
            let kept = copy_pane(&pane);
            (OpenState::Reporting { pane: kept }, OpenAction::ReportIdentity(pane))
        },
        (OpenState::Reporting { pane }, StepReply::Ack(Ok(()))) => {
            let kept = copy_pane(&pane);
            (OpenState::Measuring { pane: kept }, OpenAction::Measure(pane))
        },
        (OpenState::Measuring { pane }, StepReply::Measured(Ok(wanted))) => {
            let kept = copy_pane(&pane);
            if wanted {
                (OpenState::Resizing { pane: kept }, OpenAction::Resize(pane))
            } else {
                (OpenState::Focusing { pane: kept }, OpenAction::Focus(pane))
            }
        },
        (OpenState::Resizing { pane }, StepReply::Ack(Ok(()))) => {
            let kept = copy_pane(&pane);
            (OpenState::Focusing { pane: kept }, OpenAction::Focus(pane))
        },
        (OpenState::Focusing { pane }, StepReply::Ack(Ok(()))) => (OpenState::Done, OpenAction::Finish(Ok(pane))),
        (OpenState::Swapping { pane }, StepReply::Ack(Err(e))) => fail_after_open(pane, e),
        (OpenState::Reporting { pane }, StepReply::Ack(Err(e))) => fail_after_open(pane, e),
        (OpenState::Measuring { pane }, StepReply::Measured(Err(e))) => fail_after_open(pane, e),
        (OpenState::Resizing { pane }, StepReply::Ack(Err(e))) => fail_after_open(pane, e),
        (OpenState::Focusing { pane }, StepReply::Ack(Err(e))) => fail_after_open(pane, e),
        (OpenState::Closing { pane: _, error }, StepReply::Ack(closed)) => (
            OpenState::Done,
            OpenAction::Finish(Err(after_cleanup(error, closed))),
        ),
        _ => (OpenState::Done, OpenAction::Finish(Err(AppError::Io { message: owned("reply does not fit the step") }))),
    }
}

} // verus!
