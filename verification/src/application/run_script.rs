//! Launching a script: one background tab in the frozen catalogue workspace,
//! one input to its root pane, never a retry.

use vstd::prelude::*;

use super::ports::CreateTab;
use crate::domain::catalog::{spec_package, PackageCatalog, ProjectCatalog, RunIntent};
use crate::domain::error::AppError;
use crate::domain::ids::{PaneId, TabId};
use crate::domain::pane::CreatedTab;
use crate::domain::run_command::{invocation, run_invocation};
use crate::domain::text::{copy_string, owned, same_text};

verus! {

/// The package declares a script with that name.
pub open spec fn declares_script(c: PackageCatalog, name: Seq<char>) -> bool {
    exists|i: int| 0 <= i < c.scripts@.len() && (#[trigger] c.scripts@[i]).name@ == name
}

/// The package that runs an intent: its root must be in the catalogue and the
/// script must still be declared there.
pub fn resolve_intent<'a>(project: &'a ProjectCatalog, intent: &RunIntent) -> (r: Result<
    &'a PackageCatalog,
    AppError,
>)
    ensures
        match spec_package(*project, intent.package_root@) {
            Some(c) if declares_script(c, intent.script_name@) => r is Ok && *r->Ok_0 == c,
            _ => r is Err && r->Err_0 is ScriptUnavailable && r->Err_0->package_root@
                == intent.package_root@ && r->Err_0->script_name@ == intent.script_name@,
        },
{
    let unavailable = AppError::ScriptUnavailable {
        package_root: copy_string(&intent.package_root),
        script_name: copy_string(&intent.script_name),
    };
    match project.package(intent.package_root.as_str()) {
        None => Err(unavailable),
        Some(package) => {
            let mut i: usize = 0;
            while i < package.scripts.len()
                invariant
                    i <= package.scripts@.len(),
                    spec_package(*project, intent.package_root@) == Some(*package),
                    forall|t: int|
                        0 <= t < i ==> (#[trigger] package.scripts@[t]).name@
                            != intent.script_name@,
                decreases package.scripts.len() - i,
            {
                if same_text(package.scripts[i].name.as_str(), intent.script_name.as_str()) {
                    assert(package.scripts@[i as int].name@ == intent.script_name@);
                    assert(declares_script(*package, intent.script_name@));
                    return Ok(package);
                }
                i += 1;
            }
            Err(unavailable)
        },
    }
}

/// The tab that runs a script: in the catalogue's workspace, at the package
/// root, labelled with the command, without focus.
pub fn launch_request(catalog: &PackageCatalog, workspace_id: &str, script_name: &str) -> (r:
    CreateTab)
    ensures
        r.workspace_id@ == workspace_id@,
        r.cwd@ == catalog.root@,
        r.label@ == invocation(catalog.manager, script_name@),
        !r.focus,
{
    CreateTab {
        workspace_id: owned(workspace_id),
        cwd: copy_string(&catalog.root),
        label: run_invocation(catalog.manager, script_name),
        focus: false,
    }
}

/// What a tab creation means for the launch: an unconfirmed creation is an
/// unconfirmed launch; a tab without a root pane cannot receive the command.
pub fn created_tab(result: Result<CreatedTab, AppError>) -> (r: Result<CreatedTab, AppError>)
    ensures
        match result {
            Err(AppError::Uncertain { .. }) => r == Err::<CreatedTab, AppError>(
                AppError::LaunchNotConfirmed { tab_id: None },
            ),
            Err(e) => r == Err::<CreatedTab, AppError>(e),
            Ok(t) => if t.root_pane_id.0@.len() == 0 {
                r is Err && r->Err_0 is LaunchNotConfirmed && r->Err_0->tab_id is Some
                    && r->Err_0->tab_id->0@ == t.tab_id.0@
            } else {
                r == Ok::<CreatedTab, AppError>(t)
            },
        },
{
    match result {
        Err(AppError::Uncertain { .. }) => Err(AppError::LaunchNotConfirmed { tab_id: None }),
        Err(e) => Err(e),
        Ok(t) => {
            if t.root_pane_id.as_str().is_empty() {
                Err(AppError::LaunchNotConfirmed { tab_id: Some(t.tab_id.0) })
            } else {
                Ok(t)
            }
        },
    }
}

/// The launch once the command was sent: any failure to deliver it leaves the
/// launch unconfirmed, naming the tab.
pub fn sent_input(created: CreatedTab, sent: Result<(), AppError>) -> (r: Result<
    CreatedTab,
    AppError,
>)
    ensures
        match sent {
            Ok(()) => r == Ok::<CreatedTab, AppError>(created),
            Err(_) => r is Err && r->Err_0 is LaunchNotConfirmed && r->Err_0->tab_id is Some
                && r->Err_0->tab_id->0@ == created.tab_id.0@,
        },
{
    match sent {
        Ok(()) => Ok(created),
        Err(_) => {
            let id = copy_string(&created.tab_id.0);
            Err(AppError::LaunchNotConfirmed { tab_id: Some(id) })
        },
    }
}

/// Where a launch stands.
#[derive(Debug)]
pub enum LaunchState {
    /// Nothing asked yet.
    Begin,
    /// Waiting for the tab.
    Creating,
    /// Waiting for the command to be sent to the tab's root pane.
    Sending { created: CreatedTab },
    /// Finished.
    Done,
}

/// What came back from the last request.
#[derive(Debug)]
pub enum LaunchReply {
    Start,
    Created(Result<CreatedTab, AppError>),
    Sent(Result<(), AppError>),
}

/// The next request, or the outcome.
#[derive(Debug)]
pub enum LaunchAction {
    CreateTab(CreateTab),
    /// Type the command into the pane and press Enter.
    SendInput { pane: PaneId, text: String },
    Finish(Result<CreatedTab, AppError>),
}

/// One step of a launch: create the tab, then send the invocation to its root
/// pane once, then report; any reply out of turn ends the launch unconfirmed.
pub open spec fn spec_launch_step(
    catalog: PackageCatalog,
    workspace_id: Seq<char>,
    script_name: Seq<char>,
    state: LaunchState,
    reply: LaunchReply,
    next: LaunchState,
    action: LaunchAction,
) -> bool {
    match (state, reply) {
        (LaunchState::Begin, LaunchReply::Start) => next is Creating && action is CreateTab && {
            let r = action->CreateTab_0;
            &&& r.workspace_id@ == workspace_id
            &&& r.cwd@ == catalog.root@
            &&& r.label@ == invocation(catalog.manager, script_name)
            &&& !r.focus
        },
        (LaunchState::Creating, LaunchReply::Created(result)) => match result {
            Ok(t) if t.root_pane_id.0@.len() > 0 => next == (LaunchState::Sending { created: t })
                && action is SendInput && action->SendInput_pane == t.root_pane_id
                && action->SendInput_text@ == invocation(catalog.manager, script_name),
            Err(AppError::Uncertain { .. }) => next is Done && action == LaunchAction::Finish(
                Err(AppError::LaunchNotConfirmed { tab_id: None }),
            ),
            Err(e) => next is Done && action == LaunchAction::Finish(Err(e)),
            Ok(t) => next is Done && action is Finish && action->Finish_0 is Err
                && action->Finish_0->Err_0 is LaunchNotConfirmed && action->Finish_0->Err_0->tab_id is Some
                && action->Finish_0->Err_0->tab_id->0@ == t.tab_id.0@,
        },
        (LaunchState::Sending { created }, LaunchReply::Sent(sent)) => next is Done && match sent {
            Ok(()) => action == LaunchAction::Finish(Ok(created)),
            Err(_) => action is Finish && action->Finish_0 is Err && action->Finish_0->Err_0 is LaunchNotConfirmed
                && action->Finish_0->Err_0->tab_id is Some && action->Finish_0->Err_0->tab_id->0@
                == created.tab_id.0@,
        },
        _ => next is Done && action is Finish && action->Finish_0 is Err && action->Finish_0->Err_0
            is LaunchNotConfirmed,
    }
}

/// One step of launching `script_name` of the catalogue in the workspace.
pub fn launch_step(
    catalog: &PackageCatalog,
    workspace_id: &str,
    script_name: &str,
    state: LaunchState,
    reply: LaunchReply,
) -> (r: (LaunchState, LaunchAction))
    ensures
        spec_launch_step(*catalog, workspace_id@, script_name@, state, reply, r.0, r.1),
{
    match (state, reply) {
        (LaunchState::Begin, LaunchReply::Start) => (
            LaunchState::Creating,
            LaunchAction::CreateTab(launch_request(catalog, workspace_id, script_name)),
        ),
        (LaunchState::Creating, LaunchReply::Created(result)) => match created_tab(result) {
            Ok(t) => {
                let pane = PaneId(copy_string(&t.root_pane_id.0));
                let text = run_invocation(catalog.manager, script_name);
                (LaunchState::Sending { created: t }, LaunchAction::SendInput { pane, text })
            },
            Err(e) => (LaunchState::Done, LaunchAction::Finish(Err(e))),
        },
        (LaunchState::Sending { created }, LaunchReply::Sent(sent)) => (
            LaunchState::Done,
            LaunchAction::Finish(sent_input(created, sent)),
        ),
        _ => (LaunchState::Done, LaunchAction::Finish(Err(AppError::LaunchNotConfirmed { tab_id: None }))),
    }
}

/// A launch opens at most one tab and sends at most one input: the tab is
/// asked for only on the first step, the input only right after the tab came
/// back, and no step leads back to the start or to a second request of
/// either kind.
pub proof fn lemma_one_tab_per_launch(
    catalog: PackageCatalog,
    workspace_id: Seq<char>,
    script_name: Seq<char>,
    state: LaunchState,
    reply: LaunchReply,
    next: LaunchState,
    action: LaunchAction,
)
    requires
        spec_launch_step(catalog, workspace_id, script_name, state, reply, next, action),
    ensures
        !(next is Begin),
        action is CreateTab ==> state is Begin && next is Creating,
        action is SendInput ==> state is Creating && next is Sending,
        next is Creating ==> state is Begin,
        next is Sending ==> state is Creating,
{
}

} // verus!
